//! Character-level text helpers shared by the redaction, parsing and
//! formatting code. Public text functions of the crate state their contracts
//! over the `Seq<char>` view of their strings; the spec functions here give
//! names to the std string operations the library's rules are phrased in
//! (`trim`, `to_ascii_lowercase`, `contains`, `split_once`, `starts_with`).
use vstd::prelude::*;

verus! {

// ---------------------------------------------------------------------------
// Specifications
// ---------------------------------------------------------------------------

/// Unicode `White_Space` (the set that std's `char::is_whitespace` and
/// `str::trim` use).
pub open spec fn is_ws(c: char) -> bool {
    ||| ('\t' <= c && c <= '\r')
    ||| c == ' '
    ||| c == '\u{85}'
    ||| c == '\u{a0}'
    ||| c == '\u{1680}'
    ||| ('\u{2000}' <= c && c <= '\u{200a}')
    ||| c == '\u{2028}'
    ||| c == '\u{2029}'
    ||| c == '\u{202f}'
    ||| c == '\u{205f}'
    ||| c == '\u{3000}'
}

/// `s` without its leading whitespace.
pub open spec fn trim_start(s: Seq<char>) -> Seq<char>
    decreases s.len(),
{
    if s.len() > 0 && is_ws(s[0]) {
        trim_start(s.drop_first())
    } else {
        s
    }
}

/// `s` without its trailing whitespace.
pub open spec fn trim_end(s: Seq<char>) -> Seq<char>
    decreases s.len(),
{
    if s.len() > 0 && is_ws(s.last()) {
        trim_end(s.drop_last())
    } else {
        s
    }
}

/// `s` without leading and trailing whitespace (std `str::trim`).
pub open spec fn trim(s: Seq<char>) -> Seq<char> {
    trim_end(trim_start(s))
}

/// ASCII lower-casing of one character (std `char::to_ascii_lowercase`).
pub open spec fn ascii_lower(c: char) -> char {
    if 'A' <= c && c <= 'Z' {
        ((c as u32) + 32) as char
    } else {
        c
    }
}

/// ASCII lower-casing of a string (std `str::to_ascii_lowercase`).
pub open spec fn lower(s: Seq<char>) -> Seq<char> {
    Seq::new(s.len(), |i: int| ascii_lower(s[i]))
}

/// `prefix` is a prefix of `s`.
pub open spec fn has_prefix(s: Seq<char>, prefix: Seq<char>) -> bool {
    prefix.len() <= s.len() && s.subrange(0, prefix.len() as int) == prefix
}

/// `needle` occurs in `s` starting at index `i`.
pub open spec fn occurs_at(s: Seq<char>, needle: Seq<char>, i: int) -> bool {
    0 <= i && i + needle.len() <= s.len() && s.subrange(i, i + needle.len()) == needle
}

/// `needle` occurs somewhere in `s` (std `str::contains`).
pub open spec fn contains(s: Seq<char>, needle: Seq<char>) -> bool {
    exists|i: int| occurs_at(s, needle, i)
}

/// Index of the first `c` in `s` at or after `from`, or -1.
pub open spec fn find_from(s: Seq<char>, c: char, from: int) -> int
    decreases s.len() - from,
{
    if from < 0 || from >= s.len() {
        -1
    } else if s[from] == c {
        from
    } else {
        find_from(s, c, from + 1)
    }
}

/// Index of the first `c` in `s`, or -1.
pub open spec fn find(s: Seq<char>, c: char) -> int {
    find_from(s, c, 0)
}

/// std `str::split_once` on a character separator.
pub open spec fn split_once(s: Seq<char>, c: char) -> Option<(Seq<char>, Seq<char>)> {
    let i = find(s, c);
    if i < 0 {
        None
    } else {
        Some((s.take(i), s.skip(i + 1)))
    }
}

/// std `str::split` on a character separator: the pieces between separators
/// (always at least one piece).
pub open spec fn split(s: Seq<char>, c: char) -> Seq<Seq<char>>
    decreases s.len(),
{
    let i = find(s, c);
    if i < 0 {
        seq![s]
    } else {
        proof {
            lemma_find_from_bounds(s, c, 0);
        }
        seq![s.take(i)].add(split(s.skip(i + 1), c))
    }
}

/// Pieces joined with a separator character.
pub open spec fn join(pieces: Seq<Seq<char>>, sep: char) -> Seq<char>
    decreases pieces.len(),
{
    if pieces.len() == 0 {
        Seq::empty()
    } else if pieces.len() == 1 {
        pieces[0]
    } else {
        join(pieces.drop_last(), sep) + seq![sep] + pieces.last()
    }
}

/// ASCII hexadecimal digit (std `char::is_ascii_hexdigit`).
pub open spec fn is_hex_digit(c: char) -> bool {
    ('0' <= c && c <= '9') || ('a' <= c && c <= 'f') || ('A' <= c && c <= 'F')
}

/// All characters are ASCII hexadecimal digits.
pub open spec fn all_hex(s: Seq<char>) -> bool {
    forall|i: int| 0 <= i < s.len() ==> is_hex_digit(#[trigger] s[i])
}

// ---------------------------------------------------------------------------
// Lemmas
// ---------------------------------------------------------------------------

pub proof fn lemma_find_from_bounds(s: Seq<char>, c: char, from: int)
    requires
        0 <= from,
    ensures
        find_from(s, c, from) == -1 || (from <= find_from(s, c, from) < s.len() && s[find_from(
            s,
            c,
            from,
        )] == c),
        forall|j: int| from <= j < s.len() && (find_from(s, c, from) == -1 || j < find_from(s, c, from))
            ==> s[j] != c,
    decreases s.len() - from,
{
    if from < 0 || from >= s.len() {
    } else if s[from] == c {
    } else {
        lemma_find_from_bounds(s, c, from + 1);
    }
}

pub proof fn lemma_find_from_skip(s: Seq<char>, c: char, k: int, from: int)
    requires
        0 <= k <= s.len(),
        0 <= from,
    ensures
        find_from(s.skip(k), c, from) == if find_from(s, c, from + k) < 0 {
            -1
        } else {
            find_from(s, c, from + k) - k
        },
    decreases s.len() - from,
{
    if from >= s.skip(k).len() {
    } else {
        assert(s.skip(k)[from] == s[from + k]);
        if s[from + k] != c {
            lemma_find_from_skip(s, c, k, from + 1);
        }
    }
}

// ---------------------------------------------------------------------------
// Executable helpers
// ---------------------------------------------------------------------------

/// Appends one character to a string (std `String::push`).
#[verifier::external_body]
pub(crate) fn push_char(s: &mut String, c: char)
    ensures
        final(s)@ == old(s)@.push(c),
{
    s.push(c);
}

/// The characters of `s`, in order.
pub fn chars_of(s: &str) -> (v: Vec<char>)
    ensures
        v@ == s@,
{
    let mut v: Vec<char> = Vec::new();
    for c in it: s.chars()
        invariant
            v@ == it.seq().take(it.index() as int),
    {
        v.push(c);
    }
    v
}

/// The string made of the characters `v`.
pub fn string_of(v: &[char]) -> (s: String)
    ensures
        s@ == v@,
{
    let mut s = String::new();
    let mut i: usize = 0;
    while i < v.len()
        invariant
            0 <= i <= v.len(),
            s@ == v@.take(i as int),
        decreases v.len() - i,
    {
        push_char(&mut s, v[i]);
        assert(v@.take(i as int).push(v@[i as int]) =~= v@.take(i + 1));
        i = i + 1;
    }
    assert(v@.take(v.len() as int) =~= v@);
    s
}

/// The characters `v[lo..hi]`.
pub fn subvec(v: &[char], lo: usize, hi: usize) -> (r: Vec<char>)
    requires
        lo <= hi <= v.len(),
    ensures
        r@ == v@.subrange(lo as int, hi as int),
{
    let mut r: Vec<char> = Vec::new();
    let mut i = lo;
    while i < hi
        invariant
            lo <= i <= hi <= v.len(),
            r@ == v@.subrange(lo as int, i as int),
        decreases hi - i,
    {
        r.push(v[i]);
        assert(v@.subrange(lo as int, i as int).push(v@[i as int]) =~= v@.subrange(
            lo as int,
            i + 1,
        ));
        i = i + 1;
    }
    r
}

/// Appends the characters `src` to `dst`.
pub fn push_all(dst: &mut Vec<char>, src: &[char])
    ensures
        final(dst)@ == old(dst)@ + src@,
{
    let mut i: usize = 0;
    while i < src.len()
        invariant
            0 <= i <= src.len(),
            dst@ == old(dst)@ + src@.take(i as int),
        decreases src.len() - i,
    {
        dst.push(src[i]);
        assert(old(dst)@ + src@.take(i as int).push(src@[i as int]) =~= old(dst)@ + src@.take(
            i + 1,
        ));
        i = i + 1;
    }
    assert(src@.take(src.len() as int) =~= src@);
}

/// Character-wise equality.
pub fn chars_eq(a: &[char], b: &[char]) -> (r: bool)
    ensures
        r == (a@ == b@),
{
    if a.len() != b.len() {
        return false;
    }
    let mut i: usize = 0;
    while i < a.len()
        invariant
            a.len() == b.len(),
            0 <= i <= a.len(),
            forall|j: int| 0 <= j < i ==> a@[j] == b@[j],
        decreases a.len() - i,
    {
        if a[i] != b[i] {
            return false;
        }
        i = i + 1;
    }
    assert(a@ =~= b@);
    true
}

/// Character-wise equality with a string.
pub fn chars_eq_str(a: &[char], b: &str) -> (r: bool)
    ensures
        r == (a@ == b@),
{
    let bv = chars_of(b);
    chars_eq(a, bv.as_slice())
}

/// std `char::is_whitespace`.
pub fn is_whitespace(c: char) -> (r: bool)
    ensures
        r == is_ws(c),
{
    ('\t' <= c && c <= '\r') || c == ' ' || c == '\u{85}' || c == '\u{a0}' || c == '\u{1680}' || (
    '\u{2000}' <= c && c <= '\u{200a}') || c == '\u{2028}' || c == '\u{2029}' || c == '\u{202f}'
        || c == '\u{205f}' || c == '\u{3000}'
}

/// Index of the first non-whitespace character of `v` (or `v.len()`).
pub fn trim_start_index(v: &[char]) -> (start: usize)
    ensures
        start <= v.len(),
        trim_start(v@) == v@.skip(start as int),
{
    let mut start: usize = 0;
    assert(v@.skip(0) =~= v@);
    while start < v.len() && is_whitespace(v[start])
        invariant
            start <= v.len(),
            trim_start(v@) == trim_start(v@.skip(start as int)),
        decreases v.len() - start,
    {
        assert(v@.skip(start as int).drop_first() =~= v@.skip(start + 1));
        start = start + 1;
    }
    start
}

/// Index just past the last non-whitespace character of `v` (or 0).
pub fn trim_end_index(v: &[char]) -> (end: usize)
    ensures
        end <= v.len(),
        trim_end(v@) == v@.take(end as int),
{
    let mut end: usize = v.len();
    assert(v@.take(v.len() as int) =~= v@);
    while end > 0 && is_whitespace(v[end - 1])
        invariant
            end <= v.len(),
            trim_end(v@) == trim_end(v@.take(end as int)),
        decreases end,
    {
        assert(v@.take(end as int).drop_last() =~= v@.take(end - 1));
        end = end - 1;
    }
    end
}

/// The characters of `v` without leading and trailing whitespace.
pub fn trimmed(v: &[char]) -> (r: Vec<char>)
    ensures
        r@ == trim(v@),
{
    let start = trim_start_index(v);
    let rest = subvec(v, start, v.len());
    assert(rest@ =~= v@.skip(start as int));
    let end = trim_end_index(rest.as_slice());
    subvec(rest.as_slice(), 0, end)
}

/// std `char::to_ascii_lowercase`.
pub fn to_ascii_lower_char(c: char) -> (r: char)
    ensures
        r == ascii_lower(c),
{
    if 'A' <= c && c <= 'Z' {
        let code: u8 = (c as u32 + 32) as u8;
        code as char
    } else {
        c
    }
}

/// std `str::to_ascii_lowercase` on characters.
pub fn to_ascii_lower(v: &[char]) -> (r: Vec<char>)
    ensures
        r@ == lower(v@),
{
    let mut r: Vec<char> = Vec::new();
    let mut i: usize = 0;
    while i < v.len()
        invariant
            0 <= i <= v.len(),
            r@.len() == i,
            forall|j: int| 0 <= j < i ==> r@[j] == ascii_lower(v@[j]),
        decreases v.len() - i,
    {
        r.push(to_ascii_lower_char(v[i]));
        i = i + 1;
    }
    assert(r@ =~= lower(v@));
    r
}

/// `prefix` is a prefix of `v`.
pub fn starts_with(v: &[char], prefix: &[char]) -> (r: bool)
    ensures
        r == has_prefix(v@, prefix@),
{
    if prefix.len() > v.len() {
        return false;
    }
    let mut i: usize = 0;
    while i < prefix.len()
        invariant
            prefix.len() <= v.len(),
            0 <= i <= prefix.len(),
            forall|j: int| 0 <= j < i ==> v@[j] == prefix@[j],
        decreases prefix.len() - i,
    {
        if v[i] != prefix[i] {
            assert(v@.subrange(0, prefix.len() as int)[i as int] != prefix@[i as int]);
            return false;
        }
        i = i + 1;
    }
    assert(v@.subrange(0, prefix.len() as int) =~= prefix@);
    true
}

/// `prefix` (a string) is a prefix of `v`.
pub fn starts_with_str(v: &[char], prefix: &str) -> (r: bool)
    ensures
        r == has_prefix(v@, prefix@),
{
    let p = chars_of(prefix);
    starts_with(v, p.as_slice())
}

/// `needle` occurs in `v` starting at `at`.
fn occurs_at_exec(v: &[char], needle: &[char], at: usize) -> (r: bool)
    requires
        at + needle.len() <= v.len(),
    ensures
        r == occurs_at(v@, needle@, at as int),
{
    let mut i: usize = 0;
    while i < needle.len()
        invariant
            at + needle.len() <= v.len(),
            0 <= i <= needle.len(),
            forall|j: int| 0 <= j < i ==> v@[at + j] == needle@[j],
        decreases needle.len() - i,
    {
        if v[at + i] != needle[i] {
            assert(v@.subrange(at as int, at + needle.len())[i as int] != needle@[i as int]);
            return false;
        }
        i = i + 1;
    }
    assert(v@.subrange(at as int, at + needle.len()) =~= needle@);
    true
}

/// `needle` occurs in `v` (std `str::contains`).
pub fn contains_chars(v: &[char], needle: &[char]) -> (r: bool)
    ensures
        r == contains(v@, needle@),
{
    if needle.len() > v.len() {
        return false;
    }
    if needle.len() == 0 {
        assert(v@.subrange(0, 0) =~= needle@);
        assert(occurs_at(v@, needle@, 0));
        return true;
    }
    let mut at: usize = 0;
    let last = v.len() - needle.len();
    while at <= last
        invariant
            last == v.len() - needle.len(),
            last < v.len(),
            at <= last + 1,
            forall|j: int| 0 <= j < at ==> !occurs_at(v@, needle@, j),
        decreases last + 1 - at,
    {
        if occurs_at_exec(v, needle, at) {
            return true;
        }
        at = at + 1;
    }
    false
}

/// `needle` (a string) occurs in `v`.
pub fn contains_str(v: &[char], needle: &str) -> (r: bool)
    ensures
        r == contains(v@, needle@),
{
    let n = chars_of(needle);
    contains_chars(v, n.as_slice())
}

/// Index of the first `c` in `v` at or after `from`.
pub fn find_char_from(v: &[char], c: char, from: usize) -> (r: Option<usize>)
    requires
        from <= v.len(),
    ensures
        match r {
            Some(i) => find_from(v@, c, from as int) == i,
            None => find_from(v@, c, from as int) == -1,
        },
{
    let mut i = from;
    while i < v.len()
        invariant
            from <= i <= v.len(),
            find_from(v@, c, from as int) == find_from(v@, c, i as int),
        decreases v.len() - i,
    {
        if v[i] == c {
            return Some(i);
        }
        i = i + 1;
    }
    None
}

/// std `str::split_once` on a character separator.
pub fn split_once_chars(v: &[char], c: char) -> (r: Option<(Vec<char>, Vec<char>)>)
    ensures
        match (r, split_once(v@, c)) {
            (Some((a, b)), Some((sa, sb))) => a@ == sa && b@ == sb,
            (None, None) => true,
            _ => false,
        },
{
    match find_char_from(v, c, 0) {
        Some(i) => {
            proof {
                lemma_find_from_bounds(v@, c, 0);
            }
            assert(find_from(v@, c, 0) == i);
            assert(i < v.len());
            let a = subvec(v, 0, i);
            let b = subvec(v, i + 1, v.len());
            assert(a@ =~= v@.take(i as int));
            assert(b@ =~= v@.skip(i + 1));
            Some((a, b))
        },
        None => None,
    }
}

/// The character views of a sequence of character vectors.
pub open spec fn pieces_view(v: Seq<Vec<char>>) -> Seq<Seq<char>> {
    Seq::new(v.len(), |i: int| v[i]@)
}

/// std `str::split` on a character separator.
pub fn split_chars(v: &[char], c: char) -> (r: Vec<Vec<char>>)
    ensures
        pieces_view(r@) == split(v@, c),
{
    let mut pieces: Vec<Vec<char>> = Vec::new();
    let mut start: usize = 0;
    assert(v@.skip(0) =~= v@);
    loop
        invariant
            start <= v.len(),
            split(v@, c) == pieces_view(pieces@) + split(v@.skip(start as int), c),
        decreases v.len() - start,
    {
        let ghost rest = v@.skip(start as int);
        proof {
            lemma_find_from_skip(v@, c, start as int, 0);
            lemma_find_from_bounds(v@, c, start as int);
        }
        match find_char_from(v, c, start) {
            Some(i) => {
                let piece = subvec(v, start, i);
                let ghost before = pieces_view(pieces@);
                assert(piece@ =~= rest.take(i - start));
                assert(rest.skip(i - start + 1) =~= v@.skip(i + 1));
                pieces.push(piece);
                assert(pieces_view(pieces@) =~= before.push(piece@));
                assert(split(rest, c) == seq![rest.take(i - start)].add(
                    split(rest.skip(i - start + 1), c),
                ));
                assert(before + split(rest, c) =~= pieces_view(pieces@) + split(
                    v@.skip(i + 1),
                    c,
                ));
                start = i + 1;
            },
            None => {
                let piece = subvec(v, start, v.len());
                let ghost before = pieces_view(pieces@);
                assert(piece@ =~= rest);
                pieces.push(piece);
                assert(pieces_view(pieces@) =~= before.push(piece@));
                assert(split(rest, c) == seq![rest]);
                assert(before + split(rest, c) =~= pieces_view(pieces@));
                return pieces;
            },
        }
    }
}


// ---------------------------------------------------------------------------
// Numbers as text
// ---------------------------------------------------------------------------

/// The lowercase digit character for `d` (`0-9a-f`).
pub open spec fn digit_char(d: int) -> char {
    if d < 10 {
        (('0' as u32) + d) as char
    } else {
        (('a' as u32) + d - 10) as char
    }
}

/// `n` written in base `base` without leading zeros, lowercase digits.
pub open spec fn radix_text(n: nat, base: nat) -> Seq<char>
    decreases n,
{
    if base < 2 || n < base {
        seq![digit_char(n as int)]
    } else {
        proof {
            assert(n / base < n) by (nonlinear_arith)
                requires
                    base >= 2,
                    n >= base,
            ;
        }
        radix_text(n / base, base).push(digit_char((n % base) as int))
    }
}

/// Decimal text of an integer, with a leading `-` when negative (std
/// `Display` for the integer types).
pub open spec fn int_text(i: int) -> Seq<char> {
    if i < 0 {
        seq!['-'] + radix_text((-i) as nat, 10)
    } else {
        radix_text(i as nat, 10)
    }
}

/// ASCII decimal digit.
pub open spec fn is_digit(c: char) -> bool {
    '0' <= c && c <= '9'
}

/// Value of a run of decimal digits.
pub open spec fn decimal_value(s: Seq<char>) -> int
    decreases s.len(),
{
    if s.len() == 0 {
        0
    } else {
        decimal_value(s.drop_last()) * 10 + ((s.last() as u32) - ('0' as u32))
    }
}

/// All characters are ASCII decimal digits.
pub open spec fn all_digits(s: Seq<char>) -> bool {
    forall|i: int| 0 <= i < s.len() ==> is_digit(#[trigger] s[i])
}

/// std `str::parse::<i64>`: an optional `+`/`-` sign followed by at least
/// one decimal digit, within the `i64` range.
pub open spec fn parse_i64(s: Seq<char>) -> Option<int> {
    let negative = s.len() > 0 && s[0] == '-';
    let body = if s.len() > 0 && (s[0] == '-' || s[0] == '+') {
        s.drop_first()
    } else {
        s
    };
    let v = if negative {
        -decimal_value(body)
    } else {
        decimal_value(body)
    };
    if body.len() > 0 && all_digits(body) && i64::MIN <= v <= i64::MAX {
        Some(v)
    } else {
        None
    }
}

pub proof fn lemma_decimal_value_nonneg(s: Seq<char>)
    requires
        all_digits(s),
    ensures
        decimal_value(s) >= 0,
    decreases s.len(),
{
    if s.len() > 0 {
        assert(all_digits(s.drop_last()));
        lemma_decimal_value_nonneg(s.drop_last());
    }
}

pub proof fn lemma_decimal_value_monotone(s: Seq<char>, j: int, k: int)
    requires
        all_digits(s),
        0 <= j <= k <= s.len(),
    ensures
        decimal_value(s.take(j)) <= decimal_value(s.take(k)),
    decreases k - j,
{
    if j < k {
        lemma_decimal_value_monotone(s, j, k - 1);
        assert(s.take(k).drop_last() =~= s.take(k - 1));
        assert(all_digits(s.take(k - 1)));
        lemma_decimal_value_nonneg(s.take(k - 1));
    }
}

/// One digit character (`0-9a-f`).
fn digit_char_exec(d: u64) -> (c: char)
    requires
        d < 16,
    ensures
        c == digit_char(d as int),
{
    if d < 10 {
        let b: u8 = (48 + d) as u8;
        b as char
    } else {
        let b: u8 = (97 + d - 10) as u8;
        b as char
    }
}

/// `n` in base `base` (lowercase digits, no leading zeros).
pub fn radix_chars(n: u64, base: u64) -> (r: Vec<char>)
    requires
        2 <= base <= 16,
    ensures
        r@ == radix_text(n as nat, base as nat),
    decreases n,
{
    if n < base {
        let mut r: Vec<char> = Vec::new();
        r.push(digit_char_exec(n));
        r
    } else {
        assert(n / base < n) by (nonlinear_arith)
            requires
                base >= 2,
                n >= base,
        ;
        let mut r = radix_chars(n / base, base);
        r.push(digit_char_exec(n % base));
        r
    }
}

/// Decimal text of an `i64` (std `Display`).
pub fn i64_chars(i: i64) -> (r: Vec<char>)
    ensures
        r@ == int_text(i as int),
{
    if i < 0 {
        let magnitude: u64 = if i == i64::MIN {
            9223372036854775808u64
        } else {
            (0 - i) as u64
        };
        let digits = radix_chars(magnitude, 10);
        let mut r: Vec<char> = Vec::new();
        r.push('-');
        push_all(&mut r, digits.as_slice());
        r
    } else {
        radix_chars(i as u64, 10)
    }
}

/// The value of `s` as an `i64` when it is a non-empty run of decimal digits
/// whose value fits.
pub fn parse_digits_i64(s: &[char]) -> (r: Option<i64>)
    ensures
        r == (if s@.len() > 0 && all_digits(s@) && decimal_value(s@) <= i64::MAX {
            Some(decimal_value(s@) as i64)
        } else {
            None::<i64>
        }),
{
    if s.len() == 0 {
        return None;
    }
    let mut i: usize = 0;
    while i < s.len()
        invariant
            0 <= i <= s.len(),
            forall|j: int| 0 <= j < i ==> is_digit(s@[j]),
        decreases s.len() - i,
    {
        if !('0' <= s[i] && s[i] <= '9') {
            return None;
        }
        i = i + 1;
    }
    assert(all_digits(s@));
    let mut v: i64 = 0;
    let mut k: usize = 0;
    assert(s@.take(0) =~= Seq::<char>::empty());
    while k < s.len()
        invariant
            all_digits(s@),
            0 <= k <= s.len(),
            v as int == decimal_value(s@.take(k as int)),
        decreases s.len() - k,
    {
        assert(s@.take(k + 1).drop_last() =~= s@.take(k as int));
        assert(is_digit(s@[k as int]));
        let d: i64 = (s[k] as u32 - 48) as i64;
        match v.checked_mul(10) {
            Some(t) => match t.checked_add(d) {
                Some(u) => {
                    v = u;
                },
                None => {
                    proof {
                        lemma_decimal_value_monotone(s@, k + 1, s@.len() as int);
                        assert(s@.take(s@.len() as int) =~= s@);
                    }
                    return None;
                },
            },
            None => {
                proof {
                    lemma_decimal_value_nonneg(s@.take(k as int));
                    lemma_decimal_value_monotone(s@, k + 1, s@.len() as int);
                    assert(s@.take(s@.len() as int) =~= s@);
                }
                return None;
            },
        }
        k = k + 1;
    }
    assert(s@.take(s@.len() as int) =~= s@);
    Some(v)
}

} // verus!
