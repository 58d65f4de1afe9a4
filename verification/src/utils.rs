//! Hashing, hexadecimal text, and small capabilities shared by the core.
//!
//! Block and transaction identities are lowercase hexadecimal encodings of a
//! 256-bit digest. The digest itself comes from an outside implementation of
//! SHA-256; its output on given bytes is named by [`spec_sha256`] and every
//! contract above it speaks of that name. The hexadecimal encoding is the
//! library's own, specified exactly by [`spec_hex_of_bytes`].

use vstd::prelude::*;

use rand::Rng;
use sha2::Digest;

verus! {

use vstd::utf8::encode_utf8;
use crate::errors::HexError;

/// The SHA-256 digest of the given bytes. The digest of given bytes takes
/// pages to state, so it is only named here; [`sha256_digest`] returns it.
pub uninterp spec fn spec_sha256(data: Seq<u8>) -> Seq<u8>;

/// Relies on `sha2::Sha256`: a 32-byte digest determined by the input bytes
/// alone.
#[verifier::external_body]
pub fn sha256_digest(data: &[u8]) -> (r: Vec<u8>)
    ensures
        r@ == spec_sha256(data@),
        r@.len() == 32,
{
    let mut hasher = sha2::Sha256::new();
    hasher.update(data);
    hasher.finalize().to_vec()
}

/// The lowercase hexadecimal digit for a value below 16.
pub open spec fn spec_hex_char(n: u8) -> char {
    if n < 10 {
        ((n + 48) as char)
    } else {
        ((n + 87) as char)
    }
}

/// The lowercase hexadecimal encoding of a byte sequence: two digits for
/// each byte, in order.
pub open spec fn spec_hex_of_bytes(data: Seq<u8>) -> Seq<char>
    decreases data.len(),
{
    if data.len() == 0 {
        Seq::empty()
    } else {
        spec_hex_of_bytes(data.drop_last()) + seq![
            spec_hex_char((data.last() / 16) as u8),
            spec_hex_char((data.last() % 16) as u8),
        ]
    }
}

/// The lowercase hexadecimal text of the SHA-256 digest of the given bytes:
/// the identity format for blocks and transactions.
pub open spec fn spec_sha256_hex(data: Seq<u8>) -> Seq<char> {
    spec_hex_of_bytes(spec_sha256(data))
}

fn hex_char(n: u8) -> (c: char)
    requires
        n < 16,
    ensures
        c == spec_hex_char(n),
{
    if n < 10 {
        (n + 48) as char
    } else {
        (n + 87) as char
    }
}

/// Relies on `String::push`: appends one character.
#[verifier::external_body]
fn push_char(s: &mut String, c: char)
    ensures
        final(s)@ == old(s)@.push(c),
{
    s.push(c);
}

/// Convert bytes to a lowercase hexadecimal string.
pub fn bytes_to_hex(bytes: &[u8]) -> (r: String)
    ensures
        r@ == spec_hex_of_bytes(bytes@),
        r@.len() == 2 * bytes@.len(),
{
    let mut out = String::new();
    let n = bytes.len();
    let mut i: usize = 0;
    while i < n
        invariant
            n == bytes@.len(),
            i <= n,
            out@ == spec_hex_of_bytes(bytes@.take(i as int)),
            out@.len() == 2 * i,
        decreases n - i,
    {
        let b = bytes[i];
        let ghost out0 = out@;
        push_char(&mut out, hex_char(b / 16));
        push_char(&mut out, hex_char(b % 16));
        proof {
            let t = bytes@.take(i + 1 as int);
            assert(t.drop_last() =~= bytes@.take(i as int));
            assert(t.last() == bytes@[i as int]);
            assert(out@ =~= out0 + seq![
                spec_hex_char((b / 16) as u8),
                spec_hex_char((b % 16) as u8),
            ]);
        }
        i = i + 1;
    }
    proof {
        assert(bytes@.take(n as int) =~= bytes@);
    }
    out
}

/// Calculate the SHA-256 hash of data, as lowercase hexadecimal text.
pub fn sha256(data: &[u8]) -> (r: String)
    ensures
        r@ == spec_sha256_hex(data@),
        r@.len() == 64,
{
    let digest = sha256_digest(data);
    bytes_to_hex(digest.as_slice())
}

/// The value of a hexadecimal digit byte, accepting both cases.
pub open spec fn spec_hex_val(b: u8) -> Option<u8> {
    if 48 <= b && b <= 57 {
        Some((b - 48) as u8)
    } else if 97 <= b && b <= 102 {
        Some((b - 87) as u8)
    } else if 65 <= b && b <= 70 {
        Some((b - 55) as u8)
    } else {
        None
    }
}

fn hex_val(b: u8) -> (r: Option<u8>)
    ensures
        r == spec_hex_val(b),
{
    if 48 <= b && b <= 57 {
        Some(b - 48)
    } else if 97 <= b && b <= 102 {
        Some(b - 87)
    } else if 65 <= b && b <= 70 {
        Some(b - 55)
    } else {
        None
    }
}

/// The input bytes with every leading repetition of `"0x"` removed.
pub open spec fn spec_strip_hex_prefix(s: Seq<u8>) -> Seq<u8>
    decreases s.len(),
{
    if s.len() >= 2 && s[0] == 48 && s[1] == 120 {
        spec_strip_hex_prefix(s.skip(2))
    } else {
        s
    }
}

/// The bytes denoted by a sequence of hexadecimal digit bytes, or `None`
/// where a byte is not a digit. The sequence is read two digits at a time.
pub open spec fn spec_hex_parse(s: Seq<u8>) -> Option<Seq<u8>>
    decreases s.len(),
{
    if s.len() == 0 {
        Some(Seq::empty())
    } else if s.len() == 1 {
        None
    } else {
        match (spec_hex_val(s[0]), spec_hex_val(s[1])) {
            (Some(h), Some(l)) => match spec_hex_parse(s.skip(2)) {
                Some(rest) => Some(seq![(h * 16 + l) as u8] + rest),
                None => None,
            },
            _ => None,
        }
    }
}

/// Convert a hexadecimal string to bytes. A leading `0x` prefix (repeated
/// any number of times) is ignored; after it the digit count must be even
/// and every character a hexadecimal digit.
#[verifier::loop_isolation(false)]
#[verifier::rlimit(30)]
pub fn hex_to_bytes(hex: &str) -> (r: Result<Vec<u8>, HexError>)
    ensures
        ({
            let t = spec_strip_hex_prefix(encode_utf8(hex@));
            match r {
                Ok(v) => spec_hex_parse(t) == Some(v@) && t.len() % 2 == 0,
                Err(HexError::OddLength) => t.len() % 2 == 1,
                Err(HexError::InvalidDigit) => t.len() % 2 == 0 && spec_hex_parse(t) is None,
            }
        }),
{
    let b: &[u8] = hex.as_bytes();
    let n = b.len();
    let ghost full = b@;
    proof {
        assert(full.skip(0) =~= full);
    }
    let mut start: usize = 0;
    while start < n && start + 1 < n && b[start] == 48 && b[start + 1] == 120
        invariant
            n == full.len(),
            b@ == full,
            start <= n,
            spec_strip_hex_prefix(full) == spec_strip_hex_prefix(full.skip(start as int)),
        decreases n - start,
    {
        proof {
            assert(full.skip(start as int).skip(2) =~= full.skip(start + 2 as int));
        }
        start = start + 2;
    }
    let ghost t = spec_strip_hex_prefix(full);
    proof {
        let s = full.skip(start as int);
        if s.len() >= 2 {
            assert(s[0] == full[start as int]);
            assert(s[1] == full[start + 1 as int]);
        }
        assert(t == s);
    }
    if (n - start) % 2 != 0 {
        return Err(HexError::OddLength);
    }
    let mut out: Vec<u8> = Vec::new();
    proof {
        if let Some(rest) = spec_hex_parse(full.skip(start as int)) {
            assert(Seq::<u8>::empty() + rest =~= rest);
        }
    }
    let mut i: usize = start;
    while i < n
        invariant
            n == full.len(),
            b@ == full,
            start <= i <= n,
            (i - start) % 2 == 0,
            (n - start) % 2 == 0,
            t == full.skip(start as int),
            spec_hex_parse(t) == match spec_hex_parse(full.skip(i as int)) {
                Some(rest) => Some(out@ + rest),
                None => None::<Seq<u8>>,
            },
        decreases n - i,
    {
        let hv = hex_val(b[i]);
        let lv = hex_val(b[i + 1]);
        let ghost rem = full.skip(i as int);
        proof {
            assert(rem.len() >= 2);
            assert(rem[0] == full[i as int]);
            assert(rem[1] == full[i + 1 as int]);
        }
        match (hv, lv) {
            (Some(h), Some(l)) => {
                let ghost out0 = out@;
                out.push(h * 16 + l);
                proof {
                    assert(rem.skip(2) =~= full.skip(i + 2 as int));
                    if let Some(rest) = spec_hex_parse(full.skip(i + 2 as int)) {
                        assert(out@ + rest =~= out0 + (seq![(h * 16 + l) as u8] + rest));
                    }
                }
                i = i + 2;
            },
            _ => {
                proof {
                    assert(spec_hex_parse(rem) is None);
                }
                return Err(HexError::InvalidDigit);
            },
        }
    }
    proof {
        assert(full.skip(n as int) =~= Seq::<u8>::empty());
        assert(out@ + Seq::<u8>::empty() =~= out@);
    }
    Ok(out)
}

/// Whether two strings hold the same characters.
pub fn str_eq(a: &str, b: &str) -> (r: bool)
    ensures
        r == (a@ == b@),
{
    let ab = a.as_bytes();
    let bb = b.as_bytes();
    let n = ab.len();
    if n != bb.len() {
        return false;
    }
    let mut i: usize = 0;
    while i < n
        invariant
            n == ab@.len(),
            n == bb@.len(),
            ab@ == encode_utf8(a@),
            bb@ == encode_utf8(b@),
            i <= n,
            forall|j: int| 0 <= j < i ==> ab@[j] == bb@[j],
        decreases n - i,
    {
        if ab[i] != bb[i] {
            return false;
        }
        i = i + 1;
    }
    proof {
        assert(encode_utf8(a@) =~= encode_utf8(b@));
        vstd::utf8::encode_utf8_decode_utf8(a@);
        vstd::utf8::encode_utf8_decode_utf8(b@);
    }
    true
}

/// Whether two byte slices hold the same bytes.
pub(crate) fn bytes_eq(a: &[u8], b: &[u8]) -> (r: bool)
    ensures
        r == (a@ == b@),
{
    let n = a.len();
    if n != b.len() {
        return false;
    }
    let mut i: usize = 0;
    while i < n
        invariant
            n == a@.len(),
            n == b@.len(),
            i <= n,
            forall|j: int| 0 <= j < i ==> a@[j] == b@[j],
        decreases n - i,
    {
        if a[i] != b[i] {
            return false;
        }
        i = i + 1;
    }
    proof {
        assert(a@ =~= b@);
    }
    true
}

/// The hash text that stands before any block: 64 zero characters.
pub open spec fn spec_zero_hash() -> Seq<char> {
    Seq::new(64, |i: int| '0')
}

/// The sentinel `prev_hash` of a genesis block: 64 zero characters.
pub fn zero_hash() -> (r: String)
    ensures
        r@ == spec_zero_hash(),
{
    let mut out = String::new();
    let mut i: usize = 0;
    while i < 64
        invariant
            i <= 64,
            out@.len() == i,
            forall|j: int| 0 <= j < i ==> out@[j] == '0',
        decreases 64 - i,
    {
        push_char(&mut out, '0');
        i = i + 1;
    }
    proof {
        assert(out@ =~= spec_zero_hash());
    }
    out
}

/// A string as it stands in the canonical byte encoding: the byte length of
/// its UTF-8 form, little-endian, then the bytes themselves.
pub open spec fn spec_string_bytes(s: Seq<char>) -> Seq<u8> {
    vstd::bytes::spec_u64_to_le_bytes(encode_utf8(s).len() as u64) + encode_utf8(s)
}

/// A byte field as it stands in the canonical byte encoding: its length,
/// little-endian, then the bytes themselves.
pub open spec fn spec_len_prefixed(b: Seq<u8>) -> Seq<u8> {
    vstd::bytes::spec_u64_to_le_bytes(b.len() as u64) + b
}

pub(crate) fn push_bytes(out: &mut Vec<u8>, b: &[u8])
    ensures
        final(out)@ == old(out)@ + b@,
{
    out.extend_from_slice(b);
}

pub(crate) fn push_u8(out: &mut Vec<u8>, x: u8)
    ensures
        final(out)@ == old(out)@ + seq![x],
{
    out.push(x);
    proof {
        assert(out@ =~= old(out)@ + seq![x]);
    }
}

pub(crate) fn push_u32(out: &mut Vec<u8>, x: u32)
    ensures
        final(out)@ == old(out)@ + vstd::bytes::spec_u32_to_le_bytes(x),
{
    let b = vstd::bytes::u32_to_le_bytes(x);
    push_bytes(out, b.as_slice());
}

pub(crate) fn push_u64(out: &mut Vec<u8>, x: u64)
    ensures
        final(out)@ == old(out)@ + vstd::bytes::spec_u64_to_le_bytes(x),
{
    let b = vstd::bytes::u64_to_le_bytes(x);
    push_bytes(out, b.as_slice());
}

pub(crate) fn push_string(out: &mut Vec<u8>, s: &String)
    ensures
        final(out)@ == old(out)@ + spec_string_bytes(s@),
{
    let b = s.as_str().as_bytes();
    push_u64(out, b.len() as u64);
    push_bytes(out, b);
    proof {
        assert(out@ =~= old(out)@ + spec_string_bytes(s@));
    }
}

pub(crate) fn push_len_prefixed(out: &mut Vec<u8>, b: &[u8])
    ensures
        final(out)@ == old(out)@ + spec_len_prefixed(b@),
{
    push_u64(out, b.len() as u64);
    push_bytes(out, b);
    proof {
        assert(out@ =~= old(out)@ + spec_len_prefixed(b@));
    }
}

/// Copy a byte vector. The copy holds the same bytes.
pub(crate) fn copy_bytes(v: &Vec<u8>) -> (r: Vec<u8>)
    ensures
        r@ == v@,
{
    let r = v.clone();
    proof {
        assert forall|i: int| 0 <= i < v@.len() implies r@[i] == v@[i] by {
            assert(cloned::<u8>(v@[i], r@[i]));
        }
        assert(r@ =~= v@);
    }
    r
}

/// Copy an optional string. The copy holds the same characters.
pub(crate) fn copy_opt_string(s: &Option<String>) -> (r: Option<String>)
    ensures
        r.deep_view() == s.deep_view(),
{
    match s {
        None => None,
        Some(v) => Some(v.clone()),
    }
}

/// Copy an optional byte vector. The copy holds the same bytes.
pub(crate) fn copy_opt_bytes(v: &Option<Vec<u8>>) -> (r: Option<Vec<u8>>)
    ensures
        r.deep_view() == v.deep_view(),
{
    match v {
        None => None,
        Some(b) => Some(copy_bytes(b)),
    }
}

/// Relies on `std::time::SystemTime` for the clock: whole seconds since the
/// Unix epoch, or 0 when the clock stands before it.
#[verifier::external_body]
pub(crate) fn now_unix_seconds() -> (t: u64) {
    match std::time::SystemTime::now().duration_since(std::time::UNIX_EPOCH) {
        Ok(d) => d.as_secs(),
        Err(_) => 0,
    }
}

/// Relies on `rand::thread_rng` for a uniformly random nonce; nothing can be
/// promised of the value.
#[verifier::external_body]
pub fn random_nonce() -> (n: u64) {
    rand::thread_rng().gen()
}

/// The text `chrono` prints for a timestamp in the format
/// `%Y-%m-%d %H:%M:%S UTC`; determined by the timestamp alone.
pub uninterp spec fn spec_utc_text(timestamp: u64) -> Seq<char>;

/// Relies on `chrono::DateTime<Utc>`: formats a Unix timestamp as a
/// human-readable date and time. Timestamps past chrono's last
/// representable instant (23:59:59 on the last day of year 262142) are
/// outside the conversion's domain and are excluded.
#[verifier::external_body]
pub fn format_timestamp(timestamp: u64) -> (r: String)
    requires
        timestamp <= 8_210_266_876_799,
    ensures
        r@ == spec_utc_text(timestamp),
{
    let datetime = std::time::UNIX_EPOCH + std::time::Duration::from_secs(timestamp);
    let datetime = chrono::DateTime::<chrono::Utc>::from(datetime);
    datetime.format("%Y-%m-%d %H:%M:%S UTC").to_string()
}

} // verus!
