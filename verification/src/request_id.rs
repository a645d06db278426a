//! UUID v7 request-log row ids (time-ordered, lowercase hyphenated).
use crate::clock;
use crate::ip::{hex_lower, hex_text};
use crate::text::{chars_of, digit_char, push_all, string_of};
use vstd::prelude::*;

verus! {

/// Byte `k` (0-based, big-endian) of the low 48 bits of `ms`.
pub open spec fn timestamp_byte(ms: u64, k: int) -> u8 {
    ((ms as int / pow256(5 - k)) % 256) as u8
}

/// `256^e` for small `e`.
pub open spec fn pow256(e: int) -> int
    decreases e,
{
    if e <= 0 {
        1
    } else {
        256 * pow256(e - 1)
    }
}

/// The 16 id bytes: a 48-bit big-endian millisecond timestamp, version 7
/// with the low 12 bits of `sequence` as `rand_a`, the `10` variant, and the
/// remaining random bits.
pub open spec fn uuid_v7_bytes(random: Seq<u8>, now_ms: u64, sequence: u64) -> Seq<u8> {
    let seq12 = sequence % 4096;
    seq![
        timestamp_byte(now_ms, 0),
        timestamp_byte(now_ms, 1),
        timestamp_byte(now_ms, 2),
        timestamp_byte(now_ms, 3),
        timestamp_byte(now_ms, 4),
        timestamp_byte(now_ms, 5),
        (0x70 + seq12 / 256) as u8,
        (seq12 % 256) as u8,
        (0x80 + random[8] % 64) as u8,
        random[9],
        random[10],
        random[11],
        random[12],
        random[13],
        random[14],
        random[15],
    ]
}

/// Lowercase hyphenated text of 16 id bytes (`8-4-4-4-12` hex digits).
pub open spec fn uuid_text(b: Seq<u8>) -> Seq<char> {
    hex_text(b.subrange(0, 4)) + "-"@ + hex_text(b.subrange(4, 6)) + "-"@ + hex_text(
        b.subrange(6, 8),
    ) + "-"@ + hex_text(b.subrange(8, 10)) + "-"@ + hex_text(b.subrange(10, 16))
}

proof fn lemma_hex_text_two(a: u8, b: u8)
    ensures
        hex_text(seq![a, b]) == seq![
            digit_char((a / 16) as int),
            digit_char((a % 16) as int),
            digit_char((b / 16) as int),
            digit_char((b % 16) as int),
        ],
{
    assert(seq![a, b].drop_last() =~= seq![a]);
    assert(seq![a].drop_last() =~= Seq::<u8>::empty());
    reveal_with_fuel(hex_text, 3);
    assert(hex_text(seq![a, b]) =~= seq![
        digit_char((a / 16) as int),
        digit_char((a % 16) as int),
        digit_char((b / 16) as int),
        digit_char((b % 16) as int),
    ]);
}

proof fn lemma_hex_text_len(b: Seq<u8>)
    ensures
        hex_text(b).len() == 2 * b.len(),
    decreases b.len(),
{
    if b.len() > 0 {
        lemma_hex_text_len(b.drop_last());
    }
}

/// Formats a UUID v7 id from 16 random bytes, the clock in epoch
/// milliseconds and a per-process sequence number (strictly increasing ids
/// within one millisecond).
pub fn format_request_log_id(random: [u8; 16], now_ms: u64, sequence: u64) -> (r: String)
    ensures
        r@ == uuid_text(uuid_v7_bytes(random@, now_ms, sequence)),
        r@.len() == 36,
        r@[14] == '7',
        r@[19] == '8' || r@[19] == '9' || r@[19] == 'a' || r@[19] == 'b',
{
    let mut b = random;
    let mut ms = now_ms;
    let mut k: usize = 6;
    proof {
        reveal_with_fuel(pow256, 1);
    }
    while k > 0
        invariant
            0 <= k <= 6,
            ms as int == (now_ms as int) / pow256(6 - k),
            forall|j: int| k <= j < 6 ==> b@[j] == timestamp_byte(now_ms, j),
            forall|j: int| 6 <= j < 16 ==> b@[j] == random@[j],
        decreases k,
    {
        k = k - 1;
        b[k] = (ms % 256) as u8;
        proof {
            assert(pow256(6 - k) == 256 * pow256(5 - k));
            assert(pow256(5 - k) > 0) by {
                lemma_pow256_pos(5 - k);
            }
            vstd::arithmetic::div_mod::lemma_div_denominator(
                now_ms as int,
                pow256(5 - k),
                256,
            );
            assert(256 * pow256(5 - k) == pow256(5 - k) * 256) by (nonlinear_arith);
        }
        ms = ms / 256;
    }
    let seq12 = sequence % 4096;
    b[6] = (0x70 + seq12 / 256) as u8;
    b[7] = (seq12 % 256) as u8;
    b[8] = 0x80 + b[8] % 64;
    assert(b@ =~= uuid_v7_bytes(random@, now_ms, sequence));
    let mut out: Vec<char> = Vec::new();
    let ghost bs = b@;
    proof {
        lemma_hex_text_len(bs.subrange(0, 4));
        lemma_hex_text_len(bs.subrange(4, 6));
        lemma_hex_text_len(bs.subrange(6, 8));
        lemma_hex_text_len(bs.subrange(8, 10));
        lemma_hex_text_len(bs.subrange(10, 16));
    }
    let s0 = hex_of_range(&b, 0, 4);
    let s1 = hex_of_range(&b, 4, 6);
    let s2 = hex_of_range(&b, 6, 8);
    let s3 = hex_of_range(&b, 8, 10);
    let s4 = hex_of_range(&b, 10, 16);
    push_all(&mut out, s0.as_slice());
    out.push('-');
    push_all(&mut out, s1.as_slice());
    out.push('-');
    push_all(&mut out, s2.as_slice());
    out.push('-');
    push_all(&mut out, s3.as_slice());
    out.push('-');
    push_all(&mut out, s4.as_slice());
    proof {
        reveal_strlit("-");
        lemma_hex_text_two(bs[6], bs[7]);
        lemma_hex_text_two(bs[8], bs[9]);
        assert(bs.subrange(6, 8) =~= seq![bs[6], bs[7]]);
        assert(bs.subrange(8, 10) =~= seq![bs[8], bs[9]]);
        assert(out@ =~= uuid_text(bs));
        assert(out@[14] == s2@[0]);
        assert(out@[19] == s3@[0]);
        assert(bs[6] / 16 == 7);
        assert(8 <= bs[8] / 16 <= 11);
    }
    string_of(out.as_slice())
}

proof fn lemma_pow256_pos(e: int)
    ensures
        pow256(e) > 0,
    decreases e,
{
    if e > 0 {
        lemma_pow256_pos(e - 1);
    }
}

/// The millisecond count above timestamp byte `k` included: `ms / 256^(5-k)`.
spec fn ts_prefix(ms: u64, k: int) -> int {
    ms as int / pow256(5 - k)
}

proof fn lemma_ts_prefix_step(ms: u64, k: int)
    requires
        0 <= k <= 5,
    ensures
        ts_prefix(ms, k) == 256 * ts_prefix(ms, k - 1) + timestamp_byte(ms, k),
        0 <= ts_prefix(ms, k),
{
    lemma_pow256_pos(5 - k);
    assert(pow256(6 - k) == 256 * pow256(5 - k));
    vstd::arithmetic::div_mod::lemma_div_denominator(ms as int, pow256(5 - k), 256);
    assert(pow256(5 - k) * 256 == 256 * pow256(5 - k)) by (nonlinear_arith);
    let q = ts_prefix(ms, k);
    vstd::arithmetic::div_mod::lemma_fundamental_div_mod(q, 256);
    vstd::arithmetic::div_mod::lemma_div_pos_is_pos(ms as int, pow256(5 - k));
}

/// The first timestamp byte (from index `k` on) where two clock readings
/// `m1 < m2` differ; the earlier reading has the smaller byte there.
proof fn lemma_first_timestamp_difference(m1: u64, m2: u64, k: int) -> (j: int)
    requires
        0 <= k <= 5,
        m1 < m2,
        ts_prefix(m1, k - 1) == ts_prefix(m2, k - 1),
    ensures
        k <= j < 6,
        forall|i: int| k <= i < j ==> timestamp_byte(m1, i) == timestamp_byte(m2, i),
        timestamp_byte(m1, j) < timestamp_byte(m2, j),
    decreases 5 - k,
{
    lemma_ts_prefix_step(m1, k);
    lemma_ts_prefix_step(m2, k);
    lemma_pow256_pos(5 - k);
    vstd::arithmetic::div_mod::lemma_div_is_ordered(m1 as int, m2 as int, pow256(5 - k));
    if ts_prefix(m1, k) == ts_prefix(m2, k) {
        if k == 5 {
            assert(pow256(0) == 1);
            assert(ts_prefix(m1, 5) == m1);
            assert(ts_prefix(m2, 5) == m2);
            assert(false);
        }
        let j = lemma_first_timestamp_difference(m1, m2, k + 1);
        j
    } else {
        k
    }
}

proof fn lemma_hex_text_digits_at(b: Seq<u8>)
    ensures
        hex_text(b).len() == 2 * b.len(),
        forall|i: int|
            0 <= i < b.len() ==> hex_text(b)[2 * i] == digit_char((#[trigger] b[i] / 16) as int)
                && hex_text(b)[2 * i + 1] == digit_char((b[i] % 16) as int),
    decreases b.len(),
{
    if b.len() > 0 {
        let prev = b.drop_last();
        lemma_hex_text_digits_at(prev);
        assert forall|i: int| 0 <= i < b.len() implies hex_text(b)[2 * i] == digit_char(
            (#[trigger] b[i] / 16) as int,
        ) && hex_text(b)[2 * i + 1] == digit_char((b[i] % 16) as int) by {
            if i < prev.len() {
                assert(prev[i] == b[i]);
            }
        }
    }
}

/// Position in the id text of the first hex digit of byte `i`.
spec fn byte_pos(i: int) -> int {
    2 * i + (if i >= 4 {
        1int
    } else {
        0
    }) + (if i >= 6 {
        1int
    } else {
        0
    }) + (if i >= 8 {
        1int
    } else {
        0
    }) + (if i >= 10 {
        1int
    } else {
        0
    })
}

proof fn lemma_uuid_text_layout(b: Seq<u8>)
    requires
        b.len() == 16,
    ensures
        uuid_text(b).len() == 36,
        forall|i: int|
            0 <= i < 16 ==> uuid_text(b)[byte_pos(i)] == digit_char((#[trigger] b[i] / 16) as int)
                && uuid_text(b)[byte_pos(i) + 1] == digit_char((b[i] % 16) as int),
        uuid_text(b)[8] == '-' && uuid_text(b)[13] == '-' && uuid_text(b)[18] == '-'
            && uuid_text(b)[23] == '-',
{
    reveal_strlit("-");
    let p0 = b.subrange(0, 4);
    let p1 = b.subrange(4, 6);
    let p2 = b.subrange(6, 8);
    let p3 = b.subrange(8, 10);
    let p4 = b.subrange(10, 16);
    lemma_hex_text_digits_at(p0);
    lemma_hex_text_digits_at(p1);
    lemma_hex_text_digits_at(p2);
    lemma_hex_text_digits_at(p3);
    lemma_hex_text_digits_at(p4);
    let t = uuid_text(b);
    assert forall|i: int| 0 <= i < 16 implies t[byte_pos(i)] == digit_char(
        (#[trigger] b[i] / 16) as int,
    ) && t[byte_pos(i) + 1] == digit_char((b[i] % 16) as int) by {
        if i < 4 {
            assert(p0[i] == b[i]);
        } else if i < 6 {
            assert(p1[i - 4] == b[i]);
        } else if i < 8 {
            assert(p2[i - 6] == b[i]);
        } else if i < 10 {
            assert(p3[i - 8] == b[i]);
        } else {
            assert(p4[i - 10] == b[i]);
        }
    }
}

proof fn lemma_digit_char_ordered(d1: int, d2: int)
    requires
        0 <= d1 < d2 < 16,
    ensures
        (digit_char(d1) as u32) < (digit_char(d2) as u32),
{
}

/// Text `a` sorts strictly before text `b` of the same length: at the first
/// position where they differ, `a` has the smaller character code (the order
/// `String` comparison gives ASCII text).
pub open spec fn sorts_before(a: Seq<char>, b: Seq<char>) -> bool {
    a.len() == b.len() && exists|i: int|
        0 <= i < a.len() && a.take(i) == b.take(i) && (#[trigger] a[i] as u32) < (b[i] as u32)
}

/// Id bytes `x` come before `y` at byte `j`: equal before it, smaller at it.
spec fn bytes_before_at(x: Seq<u8>, y: Seq<u8>, j: int) -> bool {
    &&& x.len() == 16 && y.len() == 16
    &&& 0 <= j < 16
    &&& forall|i: int| 0 <= i < j ==> #[trigger] x[i] == y[i]
    &&& x[j] < y[j]
}

/// Byte index of id text position `k` (a hyphen position gives the byte
/// after it).
spec fn byte_of(k: int) -> int {
    if k < 8 {
        k / 2
    } else if k < 13 {
        4 + (k - 9) / 2
    } else if k < 18 {
        6 + (k - 14) / 2
    } else if k < 23 {
        8 + (k - 19) / 2
    } else {
        10 + (k - 24) / 2
    }
}

proof fn lemma_text_before(x: Seq<u8>, y: Seq<u8>, j: int)
    requires
        bytes_before_at(x, y, j),
    ensures
        sorts_before(uuid_text(x), uuid_text(y)),
{
    lemma_uuid_text_layout(x);
    lemma_uuid_text_layout(y);
    let tx = uuid_text(x);
    let ty = uuid_text(y);
    let p = byte_pos(j);
    assert forall|k: int| 0 <= k < p implies tx[k] == ty[k] by {
        let i = byte_of(k);
        if k == 8 || k == 13 || k == 18 || k == 23 {
        } else {
            assert(k == byte_pos(i) || k == byte_pos(i) + 1);
            assert(x[i] == y[i]);
        }
    }
    assert(tx.take(p) =~= ty.take(p));
    let hx = x[j] / 16;
    let hy = y[j] / 16;
    if hx < hy {
        lemma_digit_char_ordered(hx as int, hy as int);
        assert(tx.take(p) == ty.take(p) && (tx[p] as u32) < (ty[p] as u32));
    } else {
        assert(hx == hy);
        lemma_digit_char_ordered((x[j] % 16) as int, (y[j] % 16) as int);
        assert(tx.take(p + 1) =~= ty.take(p + 1));
        assert(tx.take(p + 1) == ty.take(p + 1) && (tx[p + 1] as u32) < (ty[p + 1] as u32));
    }
}

/// Ids sort in the order they were generated: an id made at a later
/// millisecond, or at the same millisecond with a larger 12-bit sequence
/// value, sorts after the other, whatever the random bytes (for clock
/// readings below 2^48 ms).
pub proof fn lemma_later_ids_sort_after(
    random1: Seq<u8>,
    ms1: u64,
    seq1: u64,
    random2: Seq<u8>,
    ms2: u64,
    seq2: u64,
)
    requires
        ms2 < 0x1_0000_0000_0000,
        ms1 < ms2 || (ms1 == ms2 && seq1 % 4096 < seq2 % 4096),
    ensures
        sorts_before(
            uuid_text(uuid_v7_bytes(random1, ms1, seq1)),
            uuid_text(uuid_v7_bytes(random2, ms2, seq2)),
        ),
{
    let x = uuid_v7_bytes(random1, ms1, seq1);
    let y = uuid_v7_bytes(random2, ms2, seq2);
    if ms1 < ms2 {
        reveal_with_fuel(pow256, 7);
        assert(pow256(6) == 0x1_0000_0000_0000);
        assert(ts_prefix(ms1, -1) == 0);
        assert(ts_prefix(ms2, -1) == 0);
        let j = lemma_first_timestamp_difference(ms1, ms2, 0);
        assert(bytes_before_at(x, y, j));
        lemma_text_before(x, y, j);
    } else {
        let a = seq1 % 4096;
        let b = seq2 % 4096;
        if a / 256 < b / 256 {
            assert(bytes_before_at(x, y, 6));
            lemma_text_before(x, y, 6);
        } else {
            assert(a / 256 == b / 256);
            assert(a % 256 < b % 256);
            assert(bytes_before_at(x, y, 7));
            lemma_text_before(x, y, 7);
        }
    }
}

fn hex_of_range(b: &[u8; 16], lo: usize, hi: usize) -> (r: Vec<char>)
    requires
        lo <= hi <= 16,
    ensures
        r@ == hex_text(b@.subrange(lo as int, hi as int)),
{
    let mut part: Vec<u8> = Vec::new();
    let mut i = lo;
    while i < hi
        invariant
            lo <= i <= hi <= 16,
            part@ == b@.subrange(lo as int, i as int),
        decreases hi - i,
    {
        part.push(b[i]);
        assert(b@.subrange(lo as int, i as int).push(b@[i as int]) =~= b@.subrange(
            lo as int,
            i + 1,
        ));
        i = i + 1;
    }
    let s = hex_lower(part.as_slice());
    chars_of(s.as_str())
}

/// `getrandom`: fills 16 bytes from the operating system's random source;
/// `None` when the source reports an error. Nothing is stated of the bytes.
#[verifier::external_body]
fn random_16_bytes() -> (r: Option<[u8; 16]>) {
    let mut bytes = [0u8; 16];
    match getrandom::getrandom(&mut bytes) {
        Ok(()) => Some(bytes),
        Err(_) => None,
    }
}

/// Number of id keys: a key is a 48-bit millisecond timestamp followed by a
/// 12-bit sequence (`ms * 4096 + seq`).
pub const ID_KEY_LIMIT: u64 = 0x1000_0000_0000_0000;

/// The id text of key `key` with random bytes `random`: the key's
/// millisecond part in the timestamp field, its low 12 bits as `rand_a`.
pub open spec fn id_text(random: Seq<u8>, key: u64) -> Seq<char> {
    uuid_text(uuid_v7_bytes(random, key / 4096, key % 4096))
}

/// The key after `last_key` at clock reading `now_ms`: the first key of the
/// clock's millisecond when that is past `last_key`, else the key right after
/// `last_key` (a full millisecond of sequence values carries into the
/// timestamp field).
pub open spec fn next_key(last_key: u64, now_ms: u64) -> int {
    let first = (now_ms % 0x1_0000_0000_0000) * 4096;
    if first > last_key {
        first
    } else {
        last_key + 1
    }
}

/// The key of the next id: `None` when the key space is exhausted.
pub fn next_id_key(last_key: u64, now_ms: u64) -> (r: Option<u64>)
    ensures
        r == (if next_key(last_key, now_ms) < ID_KEY_LIMIT {
            Some(next_key(last_key, now_ms) as u64)
        } else {
            None::<u64>
        }),
{
    let first: u64 = (now_ms % 0x1_0000_0000_0000) * 4096;
    if first > last_key {
        Some(first)
    } else if last_key < ID_KEY_LIMIT - 1 {
        Some(last_key + 1)
    } else {
        None
    }
}

/// Formats the id of key `key` with 16 random bytes.
pub fn format_id_for_key(random: [u8; 16], key: u64) -> (r: String)
    requires
        key < ID_KEY_LIMIT,
    ensures
        r@ == id_text(random@, key),
        r@.len() == 36,
        r@[14] == '7',
        r@[19] == '8' || r@[19] == '9' || r@[19] == 'a' || r@[19] == 'b',
{
    format_request_log_id(random, key / 4096, key % 4096)
}

/// Generates a lowercase hyphenated UUID v7 string for a request log row
/// from fresh random bytes and the wall clock, after the process's last id
/// key `last_key`; returns the id and its key, which the caller keeps as the
/// next `last_key`. `None` when the random source fails or the key space is
/// exhausted.
pub fn new_request_log_id(last_key: u64) -> (r: Option<(String, u64)>)
    ensures
        r matches Some((id, key)) ==> {
            &&& last_key < key < ID_KEY_LIMIT
            &&& id@.len() == 36
            &&& id@[14] == '7'
            &&& (id@[19] == '8' || id@[19] == '9' || id@[19] == 'a' || id@[19] == 'b')
            &&& exists|random: Seq<u8>, reading: Option<(u64, u32)>|
                random.len() == 16 && clock::is_clock_reading(reading) && key == next_key(
                    last_key,
                    clock::epoch_millis_of(reading),
                ) && id@ == id_text(random, key)
        },
{
    match random_16_bytes() {
        Some(random) => {
            let now_ms = clock::now_epoch_millis();
            match next_id_key(last_key, now_ms) {
                Some(key) => {
                    let id = format_id_for_key(random, key);
                    assert(random@.len() == 16 && key == next_key(last_key, now_ms) && id@
                        == id_text(random@, key));
                    Some((id, key))
                },
                None => None,
            }
        },
        None => None,
    }
}

/// Ids sort in key order: the id of a larger key sorts after the id of a
/// smaller one, whatever the random bytes.
pub proof fn lemma_ids_sort_in_key_order(random1: Seq<u8>, key1: u64, random2: Seq<u8>, key2: u64)
    requires
        key1 < key2 < ID_KEY_LIMIT,
    ensures
        sorts_before(id_text(random1, key1), id_text(random2, key2)),
{
    let ms1 = key1 / 4096;
    let ms2 = key2 / 4096;
    let s1 = key1 % 4096;
    let s2 = key2 % 4096;
    assert(ms2 < 0x1_0000_0000_0000);
    assert(ms1 <= ms2);
    assert(s1 % 4096 == s1 && s2 % 4096 == s2);
    lemma_later_ids_sort_after(random1, ms1, s1, random2, ms2, s2);
}

/// Ids of one process are strictly increasing: when each id is made after
/// the key of the one before, the later id sorts after the earlier one,
/// whatever the clock reads (it may stand still or go back) and however many
/// ids fall into one millisecond.
pub proof fn lemma_successive_ids_sort_after(
    last_key: u64,
    random1: Seq<u8>,
    now1: u64,
    random2: Seq<u8>,
    now2: u64,
)
    requires
        next_key(last_key, now1) < ID_KEY_LIMIT,
        next_key(next_key(last_key, now1) as u64, now2) < ID_KEY_LIMIT,
    ensures
        ({
            let key1 = next_key(last_key, now1) as u64;
            let key2 = next_key(key1, now2) as u64;
            sorts_before(id_text(random1, key1), id_text(random2, key2))
        }),
{
    let key1 = next_key(last_key, now1) as u64;
    let key2 = next_key(key1, now2) as u64;
    lemma_ids_sort_in_key_order(random1, key1, random2, key2);
}

/// The timestamp field of a fresh id is the clock's reading in epoch
/// milliseconds: for a reading of `secs` seconds and `ms` milliseconds past
/// the epoch that lies beyond the last key, the id key's millisecond part is
/// `secs * 1000 + ms` and its sequence part starts at 0.
pub proof fn lemma_id_timestamp_is_clock_millis(last_key: u64, secs: u64, ms: u32)
    requires
        ms < 1000,
        secs * 1000 + ms < 0x1_0000_0000_0000,
        (secs * 1000 + ms) * 4096 > last_key,
    ensures
        next_key(last_key, clock::epoch_millis_of(Some((secs, ms)))) / 4096 == secs * 1000 + ms,
        next_key(last_key, clock::epoch_millis_of(Some((secs, ms)))) % 4096 == 0,
{
    let m = secs * 1000 + ms;
    assert(clock::epoch_millis_of(Some((secs, ms))) == m);
    assert(m % 0x1_0000_0000_0000 == m);
}

} // verus!
