//! Client IP handling for request logs.
//!
//! Raw client IP addresses are personal data and are never persisted. Rows
//! store a SHA-256 hex digest for exact-match lookup plus a masked form for
//! display — IPv4 hides the last octet (`1.2.3.x`), IPv6 is truncated to its
//! `/64` subnet.
use crate::text::{
    chars_of, digit_char, pieces_view, push_all, radix_chars, radix_text, split, split_chars,
    string_of, trim, trimmed,
};
use vstd::prelude::*;

verus! {

/// The numeric form of a client address.
#[derive(Clone, Copy, Debug, PartialEq, Eq)]
pub enum ClientIpAddr {
    /// IPv4 octets.
    V4([u8; 4]),
    /// IPv6 16-bit segments.
    V6([u16; 8]),
}

/// A parsed client address together with its canonical text (the standard
/// textual form of the address, as its parser renders it).
#[derive(Clone, Debug, PartialEq, Eq)]
pub struct ClientIp {
    pub addr: ClientIpAddr,
    pub canonical: String,
}

/// Display mask of an address: IPv4 hides the last octet, IPv6 keeps the
/// `/64` prefix (four segments in lowercase hex).
pub open spec fn masked_text(addr: ClientIpAddr) -> Seq<char> {
    match addr {
        ClientIpAddr::V4(o) => radix_text(o[0] as nat, 10) + "."@ + radix_text(o[1] as nat, 10)
            + "."@ + radix_text(o[2] as nat, 10) + ".x"@,
        ClientIpAddr::V6(s) => radix_text(s[0] as nat, 16) + ":"@ + radix_text(s[1] as nat, 16)
            + ":"@ + radix_text(s[2] as nat, 16) + ":"@ + radix_text(s[3] as nat, 16) + "::/64"@,
    }
}

fn push_str(out: &mut Vec<char>, s: &str)
    ensures
        final(out)@ == old(out)@ + s@,
{
    let v = chars_of(s);
    push_all(out, v.as_slice());
}

/// Masks an address for display: IPv4 hides the last octet (`1.2.3.x`),
/// IPv6 keeps the `/64` subnet prefix (`2001:db8:1:2::/64`).
pub fn mask_client_ip(addr: &ClientIpAddr) -> (r: String)
    ensures
        r@ == masked_text(*addr),
{
    let mut out: Vec<char> = Vec::new();
    match addr {
        ClientIpAddr::V4(o) => {
            push_all(&mut out, radix_chars(o[0] as u64, 10).as_slice());
            push_str(&mut out, ".");
            push_all(&mut out, radix_chars(o[1] as u64, 10).as_slice());
            push_str(&mut out, ".");
            push_all(&mut out, radix_chars(o[2] as u64, 10).as_slice());
            push_str(&mut out, ".x");
            assert(out@ =~= masked_text(*addr));
        },
        ClientIpAddr::V6(s) => {
            push_all(&mut out, radix_chars(s[0] as u64, 16).as_slice());
            push_str(&mut out, ":");
            push_all(&mut out, radix_chars(s[1] as u64, 16).as_slice());
            push_str(&mut out, ":");
            push_all(&mut out, radix_chars(s[2] as u64, 16).as_slice());
            push_str(&mut out, ":");
            push_all(&mut out, radix_chars(s[3] as u64, 16).as_slice());
            push_str(&mut out, "::/64");
            assert(out@ =~= masked_text(*addr));
        },
    }
    string_of(out.as_slice())
}

/// Two lowercase hex digits per byte, in order.
pub open spec fn hex_text(bytes: Seq<u8>) -> Seq<char>
    decreases bytes.len(),
{
    if bytes.len() == 0 {
        Seq::empty()
    } else {
        hex_text(bytes.drop_last()) + seq![
            digit_char((bytes.last() / 16) as int),
            digit_char((bytes.last() % 16) as int),
        ]
    }
}

/// Lowercase hex encoding of bytes.
pub fn hex_lower(bytes: &[u8]) -> (r: String)
    ensures
        r@ == hex_text(bytes@),
        r@.len() == 2 * bytes@.len(),
{
    let mut out: Vec<char> = Vec::new();
    let mut i: usize = 0;
    assert(bytes@.take(0) =~= Seq::<u8>::empty());
    while i < bytes.len()
        invariant
            0 <= i <= bytes.len(),
            out@ == hex_text(bytes@.take(i as int)),
            out@.len() == 2 * i,
        decreases bytes.len() - i,
    {
        let b = bytes[i];
        let hi = radix_chars((b / 16) as u64, 16);
        let lo = radix_chars((b % 16) as u64, 16);
        assert(hi@ =~= seq![digit_char((b / 16) as int)]);
        assert(lo@ =~= seq![digit_char((b % 16) as int)]);
        push_all(&mut out, hi.as_slice());
        push_all(&mut out, lo.as_slice());
        assert(bytes@.take(i + 1).drop_last() =~= bytes@.take(i as int));
        assert(bytes@.take(i + 1).last() == b);
        i = i + 1;
    }
    assert(bytes@.take(bytes.len() as int) =~= bytes@);
    string_of(out.as_slice())
}

/// The SHA-256 digest of `data` (computed by the `sha2` crate).
pub uninterp spec fn sha256_of(data: Seq<u8>) -> Seq<u8>;

/// `sha2`: `Sha256::new()`, `update(data)`, `finalize()`, copied into a
/// vector. Stated: the result is the digest named by `sha256_of` for the
/// bytes, and it is 32 bytes long (`Sha256`'s output size is `U32`).
#[verifier::external_body]
fn sha256_digest(data: &[u8]) -> (r: Vec<u8>)
    ensures
        r@ == sha256_of(data@),
        r@.len() == 32,
{
    let mut hasher = <sha2::Sha256 as sha2::Digest>::new();
    sha2::Digest::update(&mut hasher, data);
    sha2::Digest::finalize(hasher).to_vec()
}

/// Stored hash of a client address with canonical text `canonical`.
pub open spec fn ip_hash_text(canonical: Seq<char>) -> Seq<char> {
    hex_text(sha256_of(vstd::utf8::encode_utf8(canonical)))
}

/// SHA-256 hex digest of the canonical IP string, for exact-match lookups
/// without persisting the plaintext address.
pub fn hash_client_ip(canonical: &str) -> (r: String)
    ensures
        r@ == ip_hash_text(canonical@),
        r@.len() == 64,
        forall|i: int| 0 <= i < r@.len() ==> crate::text::is_hex_digit(#[trigger] r@[i]),
{
    proof {
        lemma_hex_text_digits(sha256_of(vstd::utf8::encode_utf8(canonical@)));
    }
    let digest = sha256_digest(canonical.as_bytes());
    hex_lower(digest.as_slice())
}

/// The stored `(hash, masked)` columns of an optional client address.
pub open spec fn ip_columns(ip: Option<ClientIp>) -> (Option<Seq<char>>, Option<Seq<char>>) {
    match ip {
        Some(ip) => (Some(ip_hash_text(ip.canonical@)), Some(masked_text(ip.addr))),
        None => (None, None),
    }
}

/// Hash and mask of an optional client address.
pub fn client_ip_columns(ip: &Option<ClientIp>) -> (r: (Option<String>, Option<String>))
    ensures
        (crate::redact::opt_chars(r.0), crate::redact::opt_chars(r.1)) == ip_columns(*ip),
{
    match ip {
        Some(ip) => (Some(hash_client_ip(ip.canonical.as_str())), Some(mask_client_ip(&ip.addr))),
        None => (None, None),
    }
}

/// The candidate entries of an `x-forwarded-for` list, trimmed, leftmost
/// (the client itself) first.
pub open spec fn forwarded_entries(value: Seq<char>) -> Seq<Seq<char>> {
    let pieces = split(value, ',');
    Seq::new(pieces.len(), |i: int| trim(pieces[i]))
}

/// Splits an `x-forwarded-for` value into trimmed candidate entries; the
/// caller takes the first one that parses as an IP address.
pub fn forwarded_candidates(value: &str) -> (r: Vec<String>)
    ensures
        r@.len() == forwarded_entries(value@).len(),
        forall|i: int| 0 <= i < r@.len() ==> (#[trigger] r@[i])@ == forwarded_entries(value@)[i],
{
    let v = chars_of(value);
    let pieces = split_chars(v.as_slice(), ',');
    let ghost ps = pieces_view(pieces@);
    let mut out: Vec<String> = Vec::new();
    let mut i: usize = 0;
    while i < pieces.len()
        invariant
            ps == pieces_view(pieces@),
            ps == split(value@, ','),
            0 <= i <= pieces.len(),
            out@.len() == i,
            forall|j: int| 0 <= j < i ==> (#[trigger] out@[j])@ == trim(ps[j]),
        decreases pieces.len() - i,
    {
        let t = trimmed(pieces[i].as_slice());
        out.push(string_of(t.as_slice()));
        i = i + 1;
    }
    out
}

/// The client address a request is attributed to: behind a trusted proxy
/// the first valid `x-forwarded-for` entry wins, then `x-real-ip`; the
/// transport peer address is the final fallback (and the only source when
/// forwarded headers are not trusted).
pub open spec fn chosen_client_ip(
    trust_forwarded_headers: bool,
    forwarded: Option<ClientIp>,
    real_ip: Option<ClientIp>,
    peer: Option<ClientIp>,
) -> Option<ClientIp> {
    if trust_forwarded_headers && forwarded is Some {
        forwarded
    } else if trust_forwarded_headers && real_ip is Some {
        real_ip
    } else {
        peer
    }
}

/// Picks the client address from the parsed candidates (spoof-safe by
/// default: forwarded headers count only when trusted).
pub fn select_client_ip(
    trust_forwarded_headers: bool,
    forwarded: Option<ClientIp>,
    real_ip: Option<ClientIp>,
    peer: Option<ClientIp>,
) -> (r: Option<ClientIp>)
    ensures
        r == chosen_client_ip(trust_forwarded_headers, forwarded, real_ip, peer),
{
    if trust_forwarded_headers {
        if forwarded.is_some() {
            return forwarded;
        }
        if real_ip.is_some() {
            return real_ip;
        }
    }
    peer
}

/// Hex text consists of hexadecimal digits only.
pub proof fn lemma_hex_text_digits(bytes: Seq<u8>)
    ensures
        forall|i: int| 0 <= i < hex_text(bytes).len() ==> crate::text::is_hex_digit(#[trigger] hex_text(bytes)[i]),
        hex_text(bytes).len() == 2 * bytes.len(),
    decreases bytes.len(),
{
    if bytes.len() > 0 {
        lemma_hex_text_digits(bytes.drop_last());
        let prev = hex_text(bytes.drop_last());
        let hi = (bytes.last() / 16) as int;
        let lo = (bytes.last() % 16) as int;
        let all = hex_text(bytes);
        assert(all == prev + seq![digit_char(hi), digit_char(lo)]);
        assert forall|i: int| 0 <= i < all.len() implies crate::text::is_hex_digit(#[trigger] all[i]) by {
            if i < prev.len() {
                assert(all[i] == prev[i]);
            } else if i == prev.len() {
                assert(all[i] == digit_char(hi));
            } else {
                assert(all[i] == digit_char(lo));
            }
        }
    }
}

/// Behind a trusted proxy a forwarded (`x-forwarded-for`) address wins,
/// whatever `x-real-ip` and the peer hold; `x-real-ip` counts only when no
/// forwarded address is available; untrusted requests, and trusted ones
/// with neither header, are attributed to the transport peer.
pub proof fn lemma_client_ip_preference(
    trust_forwarded_headers: bool,
    forwarded: Option<ClientIp>,
    real_ip: Option<ClientIp>,
    peer: Option<ClientIp>,
)
    ensures
        trust_forwarded_headers && forwarded is Some ==> chosen_client_ip(
            trust_forwarded_headers,
            forwarded,
            real_ip,
            peer,
        ) == forwarded,
        trust_forwarded_headers && forwarded is None && real_ip is Some ==> chosen_client_ip(
            trust_forwarded_headers,
            forwarded,
            real_ip,
            peer,
        ) == real_ip,
        !trust_forwarded_headers ==> chosen_client_ip(trust_forwarded_headers, forwarded, real_ip, peer)
            == peer,
        forwarded is None && real_ip is None ==> chosen_client_ip(
            trust_forwarded_headers,
            forwarded,
            real_ip,
            peer,
        ) == peer,
{
}

} // verus!
