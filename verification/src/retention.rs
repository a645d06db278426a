//! Request-log retention policies.
//!
//! Routes may declare their request-log retention as `"permanent"` or
//! `"<n>d"`. Hosts turn those declarations into a [`LogRetentionPolicy`], and
//! the capture layer resolves each request path against it. `Permanent` rows
//! are stored with no expiry and are never purged; `Days(n)` rows expire after
//! `n` days.
use crate::text::{
    ascii_lower, digit_char, is_digit, is_ws, radix_text, trim_end, trim_start,
    all_digits, chars_eq_str, chars_of, decimal_value, has_prefix, i64_chars, int_text,
    lemma_decimal_value_nonneg, lower, parse_digits_i64, parse_i64, starts_with, string_of, subvec,
    to_ascii_lower, trim, trimmed,
};
use vstd::prelude::*;

verus! {

/// Seconds in one day.
pub const SECONDS_PER_DAY: i64 = 86400;

/// Default retention when a route/path matches no rule (1 month).
pub const DEFAULT_LOG_RETENTION_DAYS: i64 = 30;

/// How long a request log row is kept.
#[derive(Clone, Copy, Debug, PartialEq, Eq, Structural)]
pub enum LogRetention {
    /// Keep the row forever (no expiry; purge skips it).
    Permanent,
    /// Keep the row for the given number of days.
    Days(i64),
}

/// `i64` saturation of a mathematical integer.
pub open spec fn saturate_i64(x: int) -> i64 {
    if x > i64::MAX {
        i64::MAX
    } else if x < i64::MIN {
        i64::MIN
    } else {
        x as i64
    }
}

/// The retention that an annotation value denotes: `"permanent"` in any
/// ASCII case, or a positive day count followed by `d` or `D`, both after
/// trimming whitespace.
pub open spec fn retention_of_text(value: Seq<char>) -> Option<LogRetention> {
    let t = trim(value);
    if lower(t) == "permanent"@ {
        Some(LogRetention::Permanent)
    } else if t.len() > 0 && (t.last() == 'd' || t.last() == 'D') {
        match parse_i64(t.drop_last()) {
            Some(days) => if days > 0 {
                Some(LogRetention::Days(days as i64))
            } else {
                None
            },
            None => None,
        }
    } else {
        None
    }
}

/// Wire/label text of a retention (`"permanent"` / `"30d"`).
pub open spec fn retention_label(r: LogRetention) -> Seq<char> {
    match r {
        LogRetention::Permanent => "permanent"@,
        LogRetention::Days(days) => int_text(days as int).push('d'),
    }
}

/// Expiry instant of a row persisted at `now` (`None` = never expires).
pub open spec fn retention_expiry(r: LogRetention, now: i64) -> Option<i64> {
    match r {
        LogRetention::Permanent => None,
        LogRetention::Days(days) => Some(
            saturate_i64(now + saturate_i64(days * SECONDS_PER_DAY)),
        ),
    }
}

/// Saturating `i64` multiplication (std `i64::saturating_mul`).
pub fn saturating_mul_i64(a: i64, b: i64) -> (r: i64)
    ensures
        r == saturate_i64(a * b),
{
    match a.checked_mul(b) {
        Some(v) => v,
        None => {
            if (a > 0) == (b > 0) {
                assert(a * b > i64::MAX) by (nonlinear_arith)
                    requires
                        (a > 0) == (b > 0),
                        !(i64::MIN <= a * b <= i64::MAX),
                ;
                i64::MAX
            } else {
                assert(a * b < i64::MIN) by (nonlinear_arith)
                    requires
                        (a > 0) != (b > 0),
                        !(i64::MIN <= a * b <= i64::MAX),
                ;
                i64::MIN
            }
        },
    }
}

/// Saturating `i64` addition (std `i64::saturating_add`).
pub fn saturating_add_i64(a: i64, b: i64) -> (r: i64)
    ensures
        r == saturate_i64(a + b),
{
    match a.checked_add(b) {
        Some(v) => v,
        None => if b > 0 {
            i64::MAX
        } else {
            i64::MIN
        },
    }
}

impl LogRetention {
    /// Parses a route annotation value: `"permanent"` (any ASCII case) or
    /// `"<n>d"` with a positive day count. Returns `None` for any other shape
    /// so invalid annotations fall back to the policy default.
    pub fn parse(value: &str) -> (r: Option<LogRetention>)
        ensures
            r == retention_of_text(value@),
    {
        let chars = chars_of(value);
        let t = trimmed(chars.as_slice());
        let low = to_ascii_lower(t.as_slice());
        if chars_eq_str(low.as_slice(), "permanent") {
            return Some(LogRetention::Permanent);
        }
        let n = t.len();
        if n == 0 || !(t[n - 1] == 'd' || t[n - 1] == 'D') {
            return None;
        }
        let body = subvec(t.as_slice(), 0, n - 1);
        assert(body@ =~= t@.drop_last());
        let bn = body.len();
        if bn > 0 && body[0] == '-' {
            // Negative (or bare "-") day counts are never positive.
            let digits = subvec(body.as_slice(), 1, bn);
            assert(digits@ =~= body@.drop_first());
            proof {
                if all_digits(digits@) {
                    lemma_decimal_value_nonneg(digits@);
                }
            }
            return None;
        }
        let start: usize = if bn > 0 && body[0] == '+' {
            1
        } else {
            0
        };
        let digits = subvec(body.as_slice(), start, bn);
        proof {
            if start == 1 {
                assert(digits@ =~= body@.drop_first());
            } else {
                assert(digits@ =~= body@);
            }
            if all_digits(digits@) {
                lemma_decimal_value_nonneg(digits@);
            }
        }
        match parse_digits_i64(digits.as_slice()) {
            Some(days) => if days > 0 {
                Some(LogRetention::Days(days))
            } else {
                None
            },
            None => None,
        }
    }

    /// Wire/label form (`"permanent"` / `"30d"`).
    pub fn label(&self) -> (r: String)
        ensures
            r@ == retention_label(*self),
    {
        match self {
            LogRetention::Permanent => "permanent".to_owned(),
            LogRetention::Days(days) => {
                let mut v = i64_chars(*days);
                v.push('d');
                string_of(v.as_slice())
            },
        }
    }

    /// Epoch seconds at which a row persisted at `now` expires — `None`
    /// means never (permanent).
    pub fn expires_at_epoch(&self, now: i64) -> (r: Option<i64>)
        ensures
            r == retention_expiry(*self, now),
    {
        match self {
            LogRetention::Permanent => None,
            LogRetention::Days(days) => Some(
                saturating_add_i64(now, saturating_mul_i64(*days, SECONDS_PER_DAY)),
            ),
        }
    }
}

/// One policy rule: requests whose captured path starts with `path_prefix`
/// use `retention`.
#[derive(Clone, Debug, PartialEq, Eq)]
pub struct LogRetentionRule {
    pub path_prefix: String,
    pub retention: LogRetention,
}

/// Ordered request-log retention policy for one hosting surface.
#[derive(Clone, Debug, PartialEq, Eq)]
pub struct LogRetentionPolicy {
    /// Retention applied when no rule matches (default 1 month).
    pub default_retention: LogRetention,
    /// Rules, matched longest-prefix-first.
    pub rules: Vec<LogRetentionRule>,
}

/// Rule `rule` applies to `path`.
pub open spec fn rule_matches(rule: LogRetentionRule, path: Seq<char>) -> bool {
    has_prefix(path, rule.path_prefix@)
}

/// Rule `i` is the one a policy uses for `path`: it matches, no matching rule
/// has a longer prefix, and every earlier matching rule has a shorter one.
pub open spec fn is_winning_rule(rules: Seq<LogRetentionRule>, path: Seq<char>, i: int) -> bool {
    &&& 0 <= i < rules.len()
    &&& rule_matches(rules[i], path)
    &&& forall|j: int|
        0 <= j < rules.len() && rule_matches(#[trigger] rules[j], path) ==> rules[j].path_prefix@.len()
            <= rules[i].path_prefix@.len()
    &&& forall|j: int|
        0 <= j < i && rule_matches(#[trigger] rules[j], path) ==> rules[j].path_prefix@.len()
            < rules[i].path_prefix@.len()
}

/// Some rule of the policy applies to `path`.
pub open spec fn some_rule_matches(rules: Seq<LogRetentionRule>, path: Seq<char>) -> bool {
    exists|j: int| 0 <= j < rules.len() && rule_matches(#[trigger] rules[j], path)
}

/// The retention a policy assigns to `path`.
pub open spec fn policy_resolution(policy: LogRetentionPolicy, path: Seq<char>) -> LogRetention {
    if some_rule_matches(policy.rules@, path) {
        policy.rules@[choose|i: int| is_winning_rule(policy.rules@, path, i)].retention
    } else {
        policy.default_retention
    }
}

impl LogRetentionPolicy {
    /// Policy with the default 1-month retention and no rules.
    pub fn default_month() -> (p: LogRetentionPolicy)
        ensures
            p.default_retention == LogRetention::Days(DEFAULT_LOG_RETENTION_DAYS),
            p.rules@.len() == 0,
    {
        LogRetentionPolicy {
            default_retention: LogRetention::Days(DEFAULT_LOG_RETENTION_DAYS),
            rules: Vec::new(),
        }
    }

    /// Resolves the retention for a captured request path: the most specific
    /// (longest-prefix) matching rule wins, the first of equally long ones,
    /// and the default applies when none matches.
    pub fn resolve(&self, path: &str) -> (r: LogRetention)
        ensures
            !some_rule_matches(self.rules@, path@) ==> r == self.default_retention,
            some_rule_matches(self.rules@, path@) ==> exists|i: int|
                is_winning_rule(self.rules@, path@, i) && r == self.rules@[i].retention,
            r == policy_resolution(*self, path@),
    {
        let pv = chars_of(path);
        let mut best: Option<(usize, usize)> = None;
        let mut k: usize = 0;
        while k < self.rules.len()
            invariant
                pv@ == path@,
                0 <= k <= self.rules@.len(),
                match best {
                    None => forall|j: int|
                        0 <= j < k ==> !rule_matches(#[trigger] self.rules@[j], path@),
                    Some((b, l)) => {
                        &&& b < k
                        &&& rule_matches(self.rules@[b as int], path@)
                        &&& l == self.rules@[b as int].path_prefix@.len()
                        &&& forall|j: int|
                            0 <= j < k && rule_matches(#[trigger] self.rules@[j], path@)
                                ==> self.rules@[j].path_prefix@.len() <= l
                        &&& forall|j: int|
                            0 <= j < b && rule_matches(#[trigger] self.rules@[j], path@)
                                ==> self.rules@[j].path_prefix@.len() < l
                    },
                },
            decreases self.rules@.len() - k,
        {
            let rule = &self.rules[k];
            let prefix = chars_of(rule.path_prefix.as_str());
            if starts_with(pv.as_slice(), prefix.as_slice()) {
                let len = prefix.len();
                match best {
                    Some((_, best_len)) if best_len >= len => {},
                    _ => {
                        best = Some((k, len));
                    },
                }
            }
            k = k + 1;
        }
        match best {
            Some((b, _)) => {
                proof {
                    assert(is_winning_rule(self.rules@, path@, b as int));
                    lemma_winning_rule_unique(self.rules@, path@, b as int);
                }
                self.rules[b].retention
            },
            None => self.default_retention,
        }
    }
}

/// At most one rule wins for a path.
pub proof fn lemma_winning_rule_unique(rules: Seq<LogRetentionRule>, path: Seq<char>, i: int)
    requires
        is_winning_rule(rules, path, i),
    ensures
        some_rule_matches(rules, path),
        forall|j: int| is_winning_rule(rules, path, j) ==> j == i,
        (choose|j: int| is_winning_rule(rules, path, j)) == i,
{
    assert(rule_matches(rules[i], path));
    assert forall|j: int| is_winning_rule(rules, path, j) implies j == i by {
        if j < i {
            assert(rule_matches(rules[j], path));
        } else if i < j {
            assert(rule_matches(rules[i], path));
        }
    }
}

/// Decimal text reads back as its number.
pub proof fn lemma_decimal_text_value(n: nat)
    ensures
        all_digits(radix_text(n, 10)),
        decimal_value(radix_text(n, 10)) == n,
        radix_text(n, 10).len() >= 1,
        is_digit(radix_text(n, 10)[0]),
    decreases n,
{
    let d = (n % 10) as int;
    assert(digit_char(d) == ((('0' as u32) + d) as char));
    assert((digit_char(d) as u32) == 48 + d);
    if n < 10 {
        assert(radix_text(n, 10) == seq![digit_char(n as int)]);
        assert(seq![digit_char(n as int)].drop_last() =~= Seq::<char>::empty());
        assert(decimal_value(Seq::<char>::empty()) == 0);
        assert(n % 10 == n);
        let s = radix_text(n, 10);
        assert(s.last() == digit_char(d));
        assert(decimal_value(s) == decimal_value(s.drop_last()) * 10 + ((s.last() as u32) - ('0' as u32)));
    } else {
        lemma_decimal_text_value(n / 10);
        let s = radix_text(n, 10);
        assert(s == radix_text(n / 10, 10).push(digit_char((n % 10) as int)));
        assert(s.drop_last() =~= radix_text(n / 10, 10));
        assert(s[0] == radix_text(n / 10, 10)[0]);
        assert forall|i: int| 0 <= i < s.len() implies is_digit(#[trigger] s[i]) by {
            if i < s.len() - 1 {
                assert(s[i] == radix_text(n / 10, 10)[i]);
            }
        }
        assert(s.last() == digit_char(d));
        assert(decimal_value(s) == decimal_value(s.drop_last()) * 10 + ((s.last() as u32) - ('0' as u32)));
        assert((n / 10) * 10 + n % 10 == n);
    }
}

proof fn lemma_trim_identity(s: Seq<char>)
    requires
        s.len() > 0,
        !is_ws(s[0]),
        !is_ws(s.last()),
    ensures
        trim(s) == s,
{
    assert(trim_start(s) == s);
    assert(trim_end(s) == s);
}

/// A retention's label parses back to the retention, for every retention a
/// parse can give (`Permanent`, or a positive number of days).
pub proof fn lemma_label_parse_round_trip(r: LogRetention)
    requires
        r matches LogRetention::Days(d) ==> d > 0,
    ensures
        retention_of_text(retention_label(r)) == Some(r),
{
    reveal_strlit("permanent");
    match r {
        LogRetention::Permanent => {
            let s = "permanent"@;
            lemma_trim_identity(s);
            assert(lower(s) =~= s);
        },
        LogRetention::Days(d) => {
            let digits = radix_text(d as nat, 10);
            lemma_decimal_text_value(d as nat);
            let s = digits.push('d');
            assert(retention_label(r) == s);
            assert(s[0] == digits[0]);
            lemma_trim_identity(s);
            assert(lower(s)[0] == ascii_lower(s[0]));
            assert(lower(s) != "permanent"@) by {
                if lower(s).len() == "permanent"@.len() {
                    assert(lower(s)[0] != "permanent"@[0]);
                }
            }
            assert(s.drop_last() =~= digits);
            assert(parse_i64(digits) == Some(d as int));
        },
    }
}

/// With no rule matching, a path keeps the policy default; in particular
/// every path of a `default_month` policy is kept for 30 days.
pub proof fn lemma_unmatched_path_uses_default(policy: LogRetentionPolicy, path: Seq<char>)
    requires
        forall|j: int| 0 <= j < policy.rules@.len() ==> !rule_matches(#[trigger] policy.rules@[j], path),
    ensures
        policy_resolution(policy, path) == policy.default_retention,
{
}

/// A longer matching prefix always beats a shorter one: when a rule matches
/// `path`, the resolved retention comes from a matching rule whose prefix is
/// at least as long as every matching rule's.
pub proof fn lemma_most_specific_rule_wins(policy: LogRetentionPolicy, path: Seq<char>, k: int)
    requires
        0 <= k < policy.rules@.len(),
        rule_matches(policy.rules@[k], path),
    ensures
        exists|i: int|
            0 <= i < policy.rules@.len() && rule_matches(#[trigger] policy.rules@[i], path)
                && policy.rules@[i].path_prefix@.len() >= policy.rules@[k].path_prefix@.len()
                && policy_resolution(policy, path) == policy.rules@[i].retention,
{
    let rules = policy.rules@;
    // The first rule among those with the longest matching prefix wins.
    let w = best_upto(rules, path, rules.len() as int, k);
    lemma_winning_rule_unique(rules, path, w);
}

/// The first index `< n` whose matching prefix is the longest among matching
/// rules `< n`, given that rule `k < n` matches.
proof fn best_upto(rules: Seq<LogRetentionRule>, path: Seq<char>, n: int, k: int) -> (w: int)
    requires
        0 <= k < n <= rules.len(),
        rule_matches(rules[k], path),
    ensures
        0 <= w < n,
        rule_matches(rules[w], path),
        rules[w].path_prefix@.len() >= rules[k].path_prefix@.len(),
        forall|j: int| 0 <= j < n && rule_matches(#[trigger] rules[j], path) ==> rules[j].path_prefix@.len()
            <= rules[w].path_prefix@.len(),
        forall|j: int| 0 <= j < w && rule_matches(#[trigger] rules[j], path) ==> rules[j].path_prefix@.len()
            < rules[w].path_prefix@.len(),
    decreases n,
{
    if n == k + 1 {
        if exists|j: int| 0 <= j < k && rule_matches(rules[j], path) {
            let j0 = choose|j: int| 0 <= j < k && rule_matches(rules[j], path);
            let w0 = best_upto(rules, path, k, j0);
            if rules[w0].path_prefix@.len() >= rules[k].path_prefix@.len() {
                w0
            } else {
                k
            }
        } else {
            k
        }
    } else {
        let w0 = best_upto(rules, path, n - 1, k);
        let last = n - 1;
        if rule_matches(rules[last], path) && rules[last].path_prefix@.len() > rules[w0].path_prefix@.len() {
            last
        } else {
            w0
        }
    }
}

} // verus!
