//! Outer wrappers of a shared-config payload: gzip, base64 (`.mbshare`
//! files) and the clipboard text (`MBSC7:` header with base16384 data inside
//! a ```` ```mbcfg ```` fence).

use crate::base16384::{
    base16384_char_count, char_count_spec, decode_base16384, decode_spec, encode_base16384,
    encode_spec, fault_message,
};
use crate::shared_config::error::SharedConfigError;
use crate::shared_config::writer::MAX_PAYLOAD_SIZE;
use base64::Engine;
use std::io::Read;
use vstd::prelude::*;
use vstd::string::StringSliceAdditionalSpecFns;
use vstd::utf8::valid_utf8;

verus! {

/// Largest accepted gzip stream.
pub const MAX_COMPRESSED_SIZE: usize = 16777216;

/// Largest accepted `.mbshare` file: the base64 length of the largest gzip stream.
pub const MAX_MBSHARE_SIZE: usize = 22369624;

/// Largest accepted clipboard text in bytes: the UTF-8 length of the
/// base16384 text of the largest gzip stream, plus room for the frame.
pub const MAX_CLIPBOARD_TEXT_SIZE: usize = 28765039;

// ---------------------------------------------------------------------------
// Outside computations
// ---------------------------------------------------------------------------

/// One bit step of the reflected CRC-32 register (IEEE polynomial `0xEDB88320`).
pub open spec fn crc32_bit(c: u32) -> u32 {
    if c & 1 == 1 {
        (c >> 1u32) ^ 0xEDB8_8320u32
    } else {
        c >> 1u32
    }
}

/// The register after `n` bit steps.
pub open spec fn crc32_bits(c: u32, n: nat) -> u32
    decreases n,
{
    if n == 0 {
        c
    } else {
        crc32_bits(crc32_bit(c), (n - 1) as nat)
    }
}

/// The register after the bytes of `data`, starting from all ones.
pub open spec fn crc32_register(data: Seq<u8>) -> u32
    decreases data.len(),
{
    if data.len() == 0 {
        0xFFFF_FFFFu32
    } else {
        crc32_bits(crc32_register(data.drop_last()) ^ (data.last() as u32), 8)
    }
}

/// CRC-32 (IEEE) of a byte string: the final register, inverted.
#[verifier::opaque]
pub open spec fn crc32_of(data: Seq<u8>) -> u32 {
    !crc32_register(data)
}

/// `crc32fast::Hasher` fed with `data`: its CRC-32 (IEEE).
#[verifier::external_body]
fn crc32_ieee(data: &[u8]) -> (r: u32)
    ensures
        r == crc32_of(data@),
{
    let mut hasher = crc32fast::Hasher::new();
    hasher.update(data);
    hasher.finalize()
}

/// What `flate2::read::GzEncoder` at the default level produces from a byte
/// string, or `None` where reading it fails.
pub uninterp spec fn gzip_of(data: Seq<u8>) -> Option<Seq<u8>>;

/// `flate2::read::GzEncoder::new(data, Compression::default())` read to the
/// end. The stream is named, not stated; a read error gives `None`. Of a
/// stream it states what the gzip format gives: it is never empty (it has a
/// header), and `GzDecoder` gives back `data` from it when the read limit
/// leaves room for all of `data`.
#[verifier::external_body]
fn gzip(data: &[u8]) -> (r: Option<Vec<u8>>)
    ensures
        match r {
            Some(z) => gzip_of(data@) == Some(z@),
            None => gzip_of(data@) is None,
        },
        r matches Some(z) ==> z@.len() > 0,
        r matches Some(z) ==> forall|limit: u64|
            data@.len() <= limit ==> #[trigger] gunzip_of(z@, limit) == Some(data@),
{
    let mut out = Vec::new();
    match flate2::read::GzEncoder::new(data, flate2::Compression::default()).read_to_end(&mut out) {
        Ok(_) => Some(out),
        Err(_) => None,
    }
}

/// What `flate2::read::GzDecoder` yields from a byte string when at most
/// `limit` bytes are read from it, or `None` where reading fails.
pub uninterp spec fn gunzip_of(data: Seq<u8>, limit: u64) -> Option<Seq<u8>>;

/// `flate2::read::GzDecoder::new(data)`, read through `Read::take(limit)` to
/// the end. The bytes are named, not stated; `Read::take` documents that at
/// most `limit` bytes come out. A read error gives `None`.
#[verifier::external_body]
fn gunzip_capped(data: &[u8], limit: u64) -> (r: Option<Vec<u8>>)
    ensures
        match r {
            Some(v) => gunzip_of(data@, limit) == Some(v@) && v@.len() <= limit,
            None => gunzip_of(data@, limit) is None,
        },
{
    let mut out = Vec::new();
    match flate2::read::GzDecoder::new(data).take(limit).read_to_end(&mut out) {
        Ok(_) => Some(out),
        Err(_) => None,
    }
}

/// The character of six-bit value `v` in the standard base64 alphabet, as its byte.
pub open spec fn base64_digit(v: int) -> u8 {
    if v < 26 {
        (65 + v) as u8
    } else if v < 52 {
        (97 + v - 26) as u8
    } else if v < 62 {
        (48 + v - 52) as u8
    } else if v == 62 {
        43u8
    } else {
        47u8
    }
}

/// Padded standard base64 of a byte string: four characters for each group
/// of three bytes, the last group padded with `=`.
#[verifier::opaque]
pub open spec fn base64_of(d: Seq<u8>) -> Seq<u8>
    decreases d.len(),
{
    if d.len() == 0 {
        Seq::empty()
    } else if d.len() == 1 {
        let a = d[0] as int;
        seq![base64_digit(a / 4), base64_digit((a % 4) * 16), 61u8, 61u8]
    } else if d.len() == 2 {
        let (a, b) = (d[0] as int, d[1] as int);
        seq![base64_digit(a / 4), base64_digit((a % 4) * 16 + b / 16), base64_digit((b % 16) * 4), 61u8]
    } else {
        let (a, b, c) = (d[0] as int, d[1] as int, d[2] as int);
        seq![
            base64_digit(a / 4),
            base64_digit((a % 4) * 16 + b / 16),
            base64_digit((b % 16) * 4 + c / 64),
            base64_digit(c % 64),
        ] + base64_of(d.skip(3))
    }
}

/// Base64 gives four characters per started group of three bytes.
pub proof fn lemma_base64_len(d: Seq<u8>)
    ensures
        base64_of(d).len() == 4 * ((d.len() + 2) / 3),
    decreases d.len(),
{
    reveal(base64_of);
    if d.len() > 2 {
        lemma_base64_len(d.skip(3));
    }
}

/// `base64::engine::general_purpose::STANDARD.encode(data)`, as the bytes of
/// the text: the padded standard encoding. Of it this also states that it is
/// UTF-8 (it comes from a `String`) and that the same engine decodes it back
/// to `data`.
#[verifier::external_body]
fn base64_encode(data: &[u8]) -> (r: Vec<u8>)
    ensures
        r@ == base64_of(data@),
        valid_utf8(r@),
        base64_decode_of(r@) == Some(data@),
{
    base64::engine::general_purpose::STANDARD.encode(data).into_bytes()
}

/// What `base64`'s standard engine decodes a text to, or `None` where it
/// refuses the text.
pub uninterp spec fn base64_decode_of(text: Seq<u8>) -> Option<Seq<u8>>;

/// `base64::engine::general_purpose::STANDARD.decode(text)`; the bytes are
/// named, not stated, and a refusal gives `None`.
#[verifier::external_body]
fn base64_decode(text: &[u8]) -> (r: Option<Vec<u8>>)
    ensures
        match r {
            Some(v) => base64_decode_of(text@) == Some(v@),
            None => base64_decode_of(text@) is None,
        },
{
    match base64::engine::general_purpose::STANDARD.decode(text) {
        Ok(v) => Some(v),
        Err(_) => None,
    }
}

/// `std::str::from_utf8(data).is_ok()`: whether the bytes are valid UTF-8.
#[verifier::external_body]
fn is_utf8(data: &[u8]) -> (r: bool)
    ensures
        r == valid_utf8(data@),
{
    std::str::from_utf8(data).is_ok()
}


// ---------------------------------------------------------------------------
// Hex8
// ---------------------------------------------------------------------------

/// Upper-case hex digit of a value below 16.
pub open spec fn hex_char(d: nat) -> char {
    (if d < 10 {
        48 + d
    } else {
        55 + d
    }) as char
}

/// The lowest `n` hex digits of `v`, most significant first.
pub open spec fn hex_digits(v: nat, n: nat) -> Seq<char>
    decreases n,
{
    if n == 0 {
        Seq::empty()
    } else {
        hex_digits(v / 16, (n - 1) as nat).push(hex_char(v % 16))
    }
}

/// Eight upper-case hex digits of `v`.
pub open spec fn hex8_spec(v: u32) -> Seq<char> {
    hex_digits(v as nat, 8)
}

/// The value of one hex digit of either case.
pub open spec fn hex_value(c: char) -> Option<nat> {
    if '0' <= c && c <= '9' {
        Some((c as nat - 48) as nat)
    } else if 'A' <= c && c <= 'F' {
        Some((c as nat - 55) as nat)
    } else if 'a' <= c && c <= 'f' {
        Some((c as nat - 87) as nat)
    } else {
        None
    }
}

/// The value of a run of hex digits, or `None` where one is not a digit.
pub open spec fn hex_run_value(t: Seq<char>) -> Option<nat>
    decreases t.len(),
{
    if t.len() == 0 {
        Some(0)
    } else {
        match (hex_run_value(t.drop_last()), hex_value(t.last())) {
            (Some(a), Some(d)) => Some(a * 16 + d),
            _ => None,
        }
    }
}

/// `u32::from_str_radix(s, 16)` on a text of eight bytes: an optional `+`
/// and hex digits of either case.
pub open spec fn parse_hex8_spec(t: Seq<char>) -> Option<u32> {
    if t.len() != 8 {
        None
    } else {
        let digits = if t[0] == '+' {
            t.skip(1)
        } else {
            t
        };
        match hex_run_value(digits) {
            Some(v) => if digits.len() > 0 && v <= u32::MAX {
                Some(v as u32)
            } else {
                None
            },
            None => None,
        }
    }
}

/// Hex digits of `v`, most significant first.
fn hex_digits_exec(v: u32, n: u32) -> (r: String)
    requires
        n <= 8,
    ensures
        r@ == hex_digits(v as nat, n as nat),
    decreases n,
{
    if n == 0 {
        return String::new();
    }
    let mut s = hex_digits_exec(v / 16, n - 1);
    let d: u32 = v % 16;
    let code: u32 = if d < 10 {
        48 + d
    } else {
        55 + d
    };
    match char::from_u32(code) {
        Some(c) => {
            s.push(c);
        },
        None => {},
    }
    s
}

/// Eight upper-case hex digits of `v`.
pub fn hex8(v: u32) -> (r: String)
    ensures
        r@ == hex8_spec(v),
{
    hex_digits_exec(v, 8)
}

/// The value of one hex digit of either case.
fn hex_value_exec(c: char) -> (r: Option<u32>)
    ensures
        match hex_value(c) {
            Some(d) => r == Some(d as u32),
            None => r is None,
        },
{
    if '0' <= c && c <= '9' {
        Some(c as u32 - 48)
    } else if 'A' <= c && c <= 'F' {
        Some(c as u32 - 55)
    } else if 'a' <= c && c <= 'f' {
        Some(c as u32 - 87)
    } else {
        None
    }
}

/// `16^n`.
pub open spec fn pow16(n: nat) -> nat
    decreases n,
{
    if n == 0 {
        1
    } else {
        16 * pow16((n - 1) as nat)
    }
}

/// `16^n` grows with `n`.
proof fn lemma_pow16_mono(a: nat, b: nat)
    requires
        a <= b,
    ensures
        pow16(a) <= pow16(b),
    decreases b,
{
    if a < b {
        lemma_pow16_mono(a, (b - 1) as nat);
    }
}

/// `u32::from_str_radix(t, 16)` for the eight characters of `t` from `start`.
fn parse_hex8_at(t: &Vec<char>, start: usize) -> (r: Option<u32>)
    requires
        start + 8 <= t@.len(),
    ensures
        r == parse_hex8_spec(t@.subrange(start as int, start + 8)),
{
    let len = t.len();
    let ghost w = t@.subrange(start as int, start + 8);
    let mut i: usize = start;
    if t[start] == '+' {
        i = start + 1;
    }
    let ghost digits = if w[0] == '+' {
        w.skip(1)
    } else {
        w
    };
    proof {
        assert(digits =~= t@.subrange(i as int, start + 8));
    }
    if i == start + 8 {
        return None;
    }
    let end: usize = start + 8;
    let mut acc: u64 = 0;
    let mut j: usize = i;
    while j < end
        invariant
            end == start + 8,
            w == t@.subrange(start as int, start + 8),
            digits == (if w[0] == '+' {
                w.skip(1)
            } else {
                w
            }),
            start <= i <= j <= start + 8,
            start + 8 <= t@.len(),
            i < start + 8,
            digits =~= t@.subrange(i as int, start + 8),
            hex_run_value(t@.subrange(i as int, j as int)) == Some(acc as nat),
            acc < pow16((j - i) as nat),
            j - i <= 8,
        decreases start + 8 - j,
    {
        let ghost run = t@.subrange(i as int, j + 1);
        proof {
            assert(run.drop_last() =~= t@.subrange(i as int, j as int));
            assert(run.last() == t@[j as int]);
        }
        match hex_value_exec(t[j]) {
            None => {
                proof {
                    assert(hex_run_value(run) is None);
                    assert(t@.subrange(i as int, start + 8).take((j + 1 - i) as int) =~= run);
                    lemma_hex_run_none_extends(t@.subrange(i as int, start + 8), (j + 1 - i) as int);
                }
                return None;
            },
            Some(d) => {
                proof {
                    lemma_pow16_8();
                    lemma_pow16_mono((j - i) as nat, 7);
                    assert(pow16((j + 1 - i) as nat) == 16 * pow16((j - i) as nat));
                    let p = pow16((j - i) as nat);
                    assert(acc * 16 + d < p * 16) by (nonlinear_arith)
                        requires
                            acc < p,
                            d < 16,
                    ;
                }
                acc = acc * 16 + d as u64;
            },
        }
        j = j + 1;
    }
    proof {
        assert(t@.subrange(i as int, j as int) =~= digits);
        lemma_pow16_8();
        lemma_pow16_mono((j - i) as nat, 8);
    }
    Some(acc as u32)
}

/// `16^8` is `2^32`.
proof fn lemma_pow16_8()
    ensures
        pow16(8) == 0x1_0000_0000,
        pow16(7) == 0x1000_0000,
{
    reveal_with_fuel(pow16, 9);
}

/// A run with a non-digit has no value, and neither has any run extending it.
proof fn lemma_hex_run_none_extends(t: Seq<char>, k: int)
    requires
        0 <= k <= t.len(),
        hex_run_value(t.take(k)) is None,
    ensures
        hex_run_value(t) is None,
    decreases t.len() - k,
{
    if k < t.len() {
        assert(t.take(k + 1).drop_last() =~= t.take(k));
        lemma_hex_run_none_extends(t, k + 1);
    } else {
        assert(t.take(k) =~= t);
    }
}

// ---------------------------------------------------------------------------
// Gzip with the size limits of the format
// ---------------------------------------------------------------------------

/// What `gzip_compress` gives for a payload.
pub open spec fn gzip_compress_spec(data: Seq<u8>) -> Result<Seq<u8>, Seq<char>> {
    if data.len() == 0 || data.len() > MAX_PAYLOAD_SIZE {
        Err("shared config payload too large"@)
    } else {
        match gzip_of(data) {
            None => Err("gzip compress: stream failed"@),
            Some(z) => if z.len() > MAX_COMPRESSED_SIZE {
                Err("gzip compress: output exceeds limit"@)
            } else {
                Ok(z)
            },
        }
    }
}

/// What `gzip_decompress` gives for a gzip stream.
pub open spec fn gzip_decompress_spec(z: Seq<u8>) -> Result<Seq<u8>, Seq<char>> {
    if z.len() == 0 || z.len() > MAX_COMPRESSED_SIZE {
        Err("shared config gzip too large"@)
    } else {
        match gunzip_of(z, (MAX_PAYLOAD_SIZE + 1) as u64) {
            None => Err("gzip decompress: stream failed"@),
            Some(v) => if v.len() > MAX_PAYLOAD_SIZE {
                Err("gzip decompress: output exceeds limit"@)
            } else {
                Ok(v)
            },
        }
    }
}

/// Gzip a payload; the payload must be nonempty and within the payload limit,
/// and the stream within the gzip limit.
pub fn gzip_compress(data: &[u8]) -> (r: Result<Vec<u8>, SharedConfigError>)
    ensures
        match gzip_compress_spec(data@) {
            Ok(z) => r matches Ok(v) && v@ == z,
            Err(m) => r matches Err(e) && e@ == m,
        },
        r matches Ok(z) ==> gzip_decompress_spec(z@) == Ok::<Seq<u8>, Seq<char>>(data@),
{
    if data.len() == 0 || data.len() > MAX_PAYLOAD_SIZE {
        return Err(SharedConfigError::new("shared config payload too large"));
    }
    match gzip(data) {
        None => Err(SharedConfigError::new("gzip compress: stream failed")),
        Some(z) => {
            if z.len() > MAX_COMPRESSED_SIZE {
                Err(SharedConfigError::new("gzip compress: output exceeds limit"))
            } else {
                proof {
                    let limit = (MAX_PAYLOAD_SIZE + 1) as u64;
                    assert(gunzip_of(z@, limit) == Some(data@));
                }
                Ok(z)
            }
        },
    }
}

/// Gunzip a stream; the stream must be nonempty and within the gzip limit,
/// and what it holds within the payload limit.
pub fn gzip_decompress(z: &[u8]) -> (r: Result<Vec<u8>, SharedConfigError>)
    ensures
        match gzip_decompress_spec(z@) {
            Ok(v) => r matches Ok(x) && x@ == v,
            Err(m) => r matches Err(e) && e@ == m,
        },
{
    if z.len() == 0 || z.len() > MAX_COMPRESSED_SIZE {
        return Err(SharedConfigError::new("shared config gzip too large"));
    }
    let limit: u64 = MAX_PAYLOAD_SIZE as u64 + 1;
    match gunzip_capped(z, limit) {
        None => Err(SharedConfigError::new("gzip decompress: stream failed")),
        Some(v) => {
            if v.len() > MAX_PAYLOAD_SIZE {
                Err(SharedConfigError::new("gzip decompress: output exceeds limit"))
            } else {
                Ok(v)
            }
        },
    }
}

// ---------------------------------------------------------------------------
// .mbshare: base64 of the gzip stream
// ---------------------------------------------------------------------------

/// What `payload_from_mbshare` gives for file bytes.
pub open spec fn mbshare_payload_spec(data: Seq<u8>) -> Result<Seq<u8>, Seq<char>> {
    if data.len() > MAX_MBSHARE_SIZE {
        Err("mbshare data too large"@)
    } else if !valid_utf8(data) {
        Err("invalid mbshare encoding"@)
    } else {
        match base64_decode_of(data) {
            None => Err("invalid mbshare base64"@),
            Some(z) => gzip_decompress_spec(z),
        }
    }
}

/// `.mbshare` file bytes of a payload: base64 of its gzip stream.
///
/// Reading the bytes back gives the payload.
pub fn mbshare_from_payload(payload: &[u8]) -> (r: Result<Vec<u8>, SharedConfigError>)
    ensures
        match gzip_compress_spec(payload@) {
            Ok(z) => r matches Ok(v) && v@ == base64_of(z),
            Err(m) => r matches Err(e) && e@ == m,
        },
        r matches Ok(b) ==> mbshare_payload_spec(b@) == Ok::<Seq<u8>, Seq<char>>(payload@),
{
    let zipped = gzip_compress(payload)?;
    let b = base64_encode(zipped.as_slice());
    proof {
        let n = zipped@.len();
        lemma_base64_len(zipped@);
        assert(4 * ((n + 2) / 3) <= MAX_MBSHARE_SIZE);
    }
    Ok(b)
}

/// The payload held by `.mbshare` file bytes.
pub fn payload_from_mbshare(data: &[u8]) -> (r: Result<Vec<u8>, SharedConfigError>)
    ensures
        match mbshare_payload_spec(data@) {
            Ok(v) => r matches Ok(x) && x@ == v,
            Err(m) => r matches Err(e) && e@ == m,
        },
{
    if data.len() > MAX_MBSHARE_SIZE {
        return Err(SharedConfigError::new("mbshare data too large"));
    }
    if !is_utf8(data) {
        return Err(SharedConfigError::new("invalid mbshare encoding"));
    }
    match base64_decode(data) {
        None => Err(SharedConfigError::new("invalid mbshare base64")),
        Some(z) => gzip_decompress(z.as_slice()),
    }
}


// ---------------------------------------------------------------------------
// Clipboard text: ```mbcfg fence, MBSC7 header, base16384 data
// ---------------------------------------------------------------------------

/// Whether the clipboard cleaner keeps a character: its code is above 32.
pub open spec fn kept_char(c: char) -> bool {
    (c as u32) > 32
}

/// The text without the characters of code 32 or below.
pub open spec fn clean_text(s: Seq<char>) -> Seq<char>
    decreases s.len(),
{
    if s.len() == 0 {
        s
    } else if kept_char(s.last()) {
        clean_text(s.drop_last()).push(s.last())
    } else {
        clean_text(s.drop_last())
    }
}

/// The header prefix of the clipboard form.
pub open spec fn mbsc_prefix() -> Seq<char> {
    seq!['M', 'B', 'S', 'C', '7', ':']
}

/// Whether the prefix starts at position `p` of `t`.
pub open spec fn prefix_at(t: Seq<char>, p: int) -> bool {
    0 <= p && p + 6 <= t.len() && t.subrange(p, p + 6) == mbsc_prefix()
}

/// Whether a character is ASCII.
pub open spec fn ascii_char(c: char) -> bool {
    (c as u32) < 128
}

/// Size field of the text after a prefix.
pub open spec fn frame_size(c: Seq<char>) -> u32 {
    match parse_hex8_spec(c.subrange(0, 8)) {
        Some(v) => v,
        None => 0,
    }
}

/// Checksum field of the text after a prefix.
pub open spec fn frame_crc(c: Seq<char>) -> u32 {
    match parse_hex8_spec(c.subrange(9, 17)) {
        Some(v) => v,
        None => 0,
    }
}

/// Whether the text after a prefix holds a usable header (`size:crc:`, each
/// eight ASCII characters of hex) and enough characters for the data.
pub open spec fn frame_ok(c: Seq<char>) -> bool {
    &&& c.len() >= 18
    &&& forall|i: int| 0 <= i < 8 ==> ascii_char(#[trigger] c[i])
    &&& c[8] == ':'
    &&& forall|i: int| 9 <= i < 17 ==> ascii_char(#[trigger] c[i])
    &&& c[17] == ':'
    &&& parse_hex8_spec(c.subrange(0, 8)) is Some
    &&& 0 < frame_size(c) <= MAX_COMPRESSED_SIZE
    &&& parse_hex8_spec(c.subrange(9, 17)) is Some
    &&& c.len() - 18 >= char_count_spec(frame_size(c) as nat)
}

/// The base16384 data of the text after a prefix.
pub open spec fn frame_data(c: Seq<char>) -> Seq<char> {
    c.subrange(18, 18 + char_count_spec(frame_size(c) as nat) as int)
}

/// The first position from `p` on where a prefix starts a usable frame.
pub open spec fn mbsc_scan(t: Seq<char>, p: int) -> Option<int>
    decreases t.len() - p,
{
    if p < 0 || p + 6 > t.len() {
        None
    } else if prefix_at(t, p) && frame_ok(t.skip(p + 6)) {
        Some(p)
    } else {
        mbsc_scan(t, p + 1)
    }
}

/// What the clipboard reader gives for a text within the size limit: the
/// payload, or the message of the first check that fails.
pub open spec fn mbsc_payload_spec(text: Seq<char>) -> Result<Seq<u8>, Seq<char>> {
    let t = clean_text(text);
    match mbsc_scan(t, 0) {
        None => Err("MBSC7 prefix not found"@),
        Some(p) => {
            let c = t.skip(p + 6);
            match decode_spec(frame_data(c), frame_size(c) as nat) {
                Err(f) => Err(fault_message(f)),
                Ok(z) => if crc32_of(z) != frame_crc(c) {
                    Err("CRC32 mismatch"@)
                } else {
                    gzip_decompress_spec(z)
                },
            }
        },
    }
}

/// The clipboard text of a gzip stream.
pub open spec fn mbsc_frame_spec(z: Seq<u8>) -> Seq<char> {
    "```mbcfg\n"@ + "MBSC7:"@ + hex8_spec(z.len() as u32) + ":"@ + hex8_spec(crc32_of(z)) + ":"@
        + encode_spec(z) + "\n```"@
}

/// The characters of `s` whose code is above 32.
fn clean_clipboard_text(s: &str) -> (r: Vec<char>)
    ensures
        r@ == clean_text(s@),
{
    let mut out: Vec<char> = Vec::new();
    for c in it: s.chars()
        invariant
            it.seq() == s@,
            out@ == clean_text(s@.take(it.index() as int)),
    {
        proof {
            assert(s@.take(it.index() + 1).drop_last() =~= s@.take(it.index() as int));
            assert(s@.take(it.index() + 1).last() == c);
        }
        if c as u32 > 32 {
            out.push(c);
        }
    }
    proof {
        assert(s@.take(s@.len() as int) =~= s@);
    }
    out
}

/// Whether the prefix starts at `p`.
fn prefix_at_exec(t: &Vec<char>, p: usize) -> (r: bool)
    requires
        p + 6 <= t@.len(),
    ensures
        r == prefix_at(t@, p as int),
{
    let _n = t.len();
    let r = t[p] == 'M' && t[p + 1] == 'B' && t[p + 2] == 'S' && t[p + 3] == 'C' && t[p + 4] == '7'
        && t[p + 5] == ':';
    proof {
        let w = t@.subrange(p as int, p + 6);
        if r {
            assert(w =~= mbsc_prefix());
        } else if w == mbsc_prefix() {
            assert(w[0] == 'M' && w[1] == 'B' && w[2] == 'S' && w[3] == 'C' && w[4] == '7' && w[5]
                == ':');
        }
    }
    r
}

/// Whether `n` characters from `a` are ASCII.
fn all_ascii(t: &Vec<char>, a: usize, n: usize) -> (r: bool)
    requires
        a + n <= t@.len(),
    ensures
        r == (forall|i: int| a <= i < a + n ==> ascii_char(#[trigger] t@[i])),
{
    let _len = t.len();
    let end: usize = a + n;
    let mut i: usize = a;
    while i < end
        invariant
            end == a + n,
            a <= i <= a + n,
            a + n <= t@.len(),
            forall|k: int| a <= k < i ==> ascii_char(#[trigger] t@[k]),
        decreases a + n - i,
    {
        if t[i] as u32 >= 128 {
            return false;
        }
        i = i + 1;
    }
    true
}

/// Size and checksum of the frame whose header starts at `q`, where it is usable.
fn frame_header(t: &Vec<char>, q: usize) -> (r: Option<(u32, u32)>)
    requires
        q <= t@.len(),
    ensures
        r is Some <==> frame_ok(t@.skip(q as int)),
        r matches Some((size, crc)) ==> size == frame_size(t@.skip(q as int)) && crc == frame_crc(
            t@.skip(q as int),
        ),
{
    let ghost c = t@.skip(q as int);
    if t.len() - q < 18 {
        return None;
    }
    proof {
        assert(c.subrange(0, 8) =~= t@.subrange(q as int, q + 8));
        assert(c.subrange(9, 17) =~= t@.subrange(q + 9, q + 17));
        assert forall|i: int| 0 <= i < 18 implies c[i] == t@[q + i] by {}
    }
    let head_ascii = all_ascii(t, q, 8);
    let crc_ascii = all_ascii(t, q + 9, 8);
    if !head_ascii || t[q + 8] != ':' || !crc_ascii || t[q + 17] != ':' {
        proof {
            if !head_ascii {
                let k = choose|k: int| q <= k < q + 8 && !ascii_char(#[trigger] t@[k]);
                assert(c[k - q] == t@[k]);
            }
            if !crc_ascii {
                let k = choose|k: int| q + 9 <= k < q + 17 && !ascii_char(#[trigger] t@[k]);
                assert(c[k - q] == t@[k]);
            }
        }
        return None;
    }
    proof {
        assert forall|i: int| 0 <= i < 8 implies ascii_char(#[trigger] c[i]) by {
            assert(c[i] == t@[q + i]);
        }
        assert forall|i: int| 9 <= i < 17 implies ascii_char(#[trigger] c[i]) by {
            assert(c[i] == t@[q + i]);
        }
    }
    let size = match parse_hex8_at(t, q) {
        Some(v) => v,
        None => {
            return None;
        },
    };
    if size == 0 || size as usize > MAX_COMPRESSED_SIZE {
        return None;
    }
    let crc = match parse_hex8_at(t, q + 9) {
        Some(v) => v,
        None => {
            return None;
        },
    };
    let need = base16384_char_count(size as usize);
    if t.len() - q - 18 < need {
        return None;
    }
    Some((size, crc))
}

/// The first position where a prefix starts a usable frame, with its size and checksum.
fn find_frame(t: &Vec<char>) -> (r: Option<(usize, u32, u32)>)
    ensures
        match r {
            Some((p, size, crc)) => mbsc_scan(t@, 0) == Some(p as int) && p + 6 <= t@.len()
                && frame_ok(t@.skip(p + 6)) && size == frame_size(t@.skip(p + 6)) && crc == frame_crc(t@.skip(p + 6)),
            None => mbsc_scan(t@, 0) is None,
        },
{
    let mut p: usize = 0;
    while p < t.len() && t.len() - p >= 6
        invariant
            p <= t@.len(),
            mbsc_scan(t@, 0) == mbsc_scan(t@, p as int),
        decreases t@.len() - p,
    {
        if prefix_at_exec(t, p) {
            match frame_header(t, p + 6) {
                Some((size, crc)) => {
                    return Some((p, size, crc));
                },
                None => {},
            }
        }
        p = p + 1;
    }
    None
}

/// The text of the characters of `t` from `a` to `b`.
fn text_of(t: &Vec<char>, a: usize, b: usize) -> (r: String)
    requires
        a <= b <= t@.len(),
    ensures
        r@ == t@.subrange(a as int, b as int),
{
    let mut out = String::new();
    let mut i: usize = a;
    while i < b
        invariant
            a <= i <= b <= t@.len(),
            out@ == t@.subrange(a as int, i as int),
        decreases b - i,
    {
        out.push(t[i]);
        proof {
            assert(out@ =~= t@.subrange(a as int, i + 1));
        }
        i = i + 1;
    }
    out
}

/// Append a text.
fn push_text(out: &mut String, s: &str)
    ensures
        final(out)@ == old(out)@ + s@,
{
    let ghost start = out@;
    for c in it: s.chars()
        invariant
            it.seq() == s@,
            out@ == start + s@.take(it.index() as int),
    {
        proof {
            assert(s@.take(it.index() + 1) =~= s@.take(it.index() as int).push(c));
        }
        out.push(c);
    }
    proof {
        assert(s@.take(s@.len() as int) =~= s@);
    }
}

/// The clipboard text of a gzip stream: the fence, the `MBSC7:` header with
/// size and checksum as eight hex digits each, and the base16384 data.
pub fn mbsc_frame(zipped: &[u8]) -> (r: String)
    requires
        zipped@.len() <= MAX_COMPRESSED_SIZE,
    ensures
        r@ == mbsc_frame_spec(zipped@),
{
    let crc = crc32_ieee(zipped);
    let size_hex = hex8(zipped.len() as u32);
    let crc_hex = hex8(crc);
    let encoded = encode_base16384(zipped);
    let mut out = String::new();
    push_text(&mut out, "```mbcfg\n");
    push_text(&mut out, "MBSC7:");
    push_text(&mut out, size_hex.as_str());
    push_text(&mut out, ":");
    push_text(&mut out, crc_hex.as_str());
    push_text(&mut out, ":");
    push_text(&mut out, encoded.as_str());
    push_text(&mut out, "\n```");
    proof {
        assert(out@ =~= mbsc_frame_spec(zipped@));
    }
    out
}

/// The clipboard text of a payload: its gzip stream in the clipboard form.
///
/// Reading the text back gives the payload.
pub fn mbsc_from_payload(payload: &[u8]) -> (r: Result<String, SharedConfigError>)
    ensures
        match gzip_compress_spec(payload@) {
            Ok(z) => r matches Ok(t) && t@ == mbsc_frame_spec(z),
            Err(m) => r matches Err(e) && e@ == m,
        },
        r matches Ok(t) ==> mbsc_payload_spec(t@) == Ok::<Seq<u8>, Seq<char>>(payload@),
        r matches Ok(t) ==> vstd::utf8::encode_utf8(t@).len() <= MAX_CLIPBOARD_TEXT_SIZE,
{
    let zipped = gzip_compress(payload)?;
    let t = mbsc_frame(zipped.as_slice());
    proof {
        law_mbsc_frame_roundtrip(zipped@);
        lemma_mbsc_frame_size(zipped@);
    }
    Ok(t)
}

/// The payload of a clipboard text. Characters of code 32 or below are
/// ignored, and so is text around the frame; the first `MBSC7:` that starts
/// a usable header is read.
pub fn payload_from_mbsc(s: &str) -> (r: Result<Vec<u8>, SharedConfigError>)
    ensures
        s.spec_bytes().len() as usize > MAX_CLIPBOARD_TEXT_SIZE ==> (r matches Err(e) && e@
            == "shared config text too large"@),
        s.spec_bytes().len() as usize <= MAX_CLIPBOARD_TEXT_SIZE ==> match mbsc_payload_spec(s@) {
            Ok(v) => r matches Ok(x) && x@ == v,
            Err(m) => r matches Err(e) && e@ == m,
        },
{
    if s.len() > MAX_CLIPBOARD_TEXT_SIZE {
        return Err(SharedConfigError::new("shared config text too large"));
    }
    let t = clean_clipboard_text(s);
    let (p, size, crc) = match find_frame(&t) {
        None => {
            return Err(SharedConfigError::new("MBSC7 prefix not found"));
        },
        Some(found) => found,
    };
    let _tl = t.len();
    let q = p + 6;
    let ghost c = t@.skip(q as int);
    let need = base16384_char_count(size as usize);
    proof {
        assert(c.len() - 18 >= need);
    }
    let data = text_of(&t, q + 18, q + 18 + need);
    proof {
        assert(data@ =~= frame_data(c));
    }
    let zipped = decode_base16384(data.as_str(), size as usize)?;
    if crc32_ieee(zipped.as_slice()) != crc {
        return Err(SharedConfigError::new("CRC32 mismatch"));
    }
    gzip_decompress(zipped.as_slice())
}


// ---------------------------------------------------------------------------
// Reading back the clipboard text
// ---------------------------------------------------------------------------

/// A hex digit character reads back as its value and is kept, ASCII, and no sign.
proof fn lemma_hex_char(d: nat)
    requires
        d < 16,
    ensures
        hex_value(hex_char(d)) == Some(d),
        kept_char(hex_char(d)),
        ascii_char(hex_char(d)),
        hex_char(d) != '+',
        hex_char(d) != 'M',
{
    let code: nat = if d < 10 { 48 + d } else { 55 + d };
    assert(hex_char(d) as u32 == code);
}

/// `hex_digits(v, n)` has `n` hex digit characters and reads back as `v mod 16^n`.
proof fn lemma_hex_digits(v: nat, n: nat)
    ensures
        hex_digits(v, n).len() == n,
        forall|i: int| 0 <= i < n ==> kept_char(#[trigger] hex_digits(v, n)[i]) && ascii_char(hex_digits(v, n)[i])
            && hex_digits(v, n)[i] != '+' && hex_digits(v, n)[i] != 'M',
        hex_run_value(hex_digits(v, n)) == Some(v % pow16(n)),
    decreases n,
{
    if n > 0 {
        let m = (n - 1) as nat;
        lemma_hex_digits(v / 16, m);
        let h = hex_digits(v, n);
        let d = v % 16;
        lemma_hex_char(d);
        assert(h.drop_last() =~= hex_digits(v / 16, m));
        assert(h.last() == hex_char(d));
        lemma_pow16_pos(m);
        vstd::arithmetic::div_mod::lemma_mod_breakdown(v as int, 16, pow16(m) as int);
        assert(pow16(n) == 16 * pow16(m));
        assert(((v / 16) % pow16(m)) * 16 + d == 16 * ((v / 16) % pow16(m)) + v % 16);
    } else {
        assert(v % 1 == 0);
    }
}

/// `16^n` is positive.
proof fn lemma_pow16_pos(n: nat)
    ensures
        pow16(n) > 0,
    decreases n,
{
    if n > 0 {
        lemma_pow16_pos((n - 1) as nat);
    }
}

/// Eight hex digits read back as the value they were written from.
pub proof fn law_hex8_roundtrip(v: u32)
    ensures
        parse_hex8_spec(hex8_spec(v)) == Some(v),
{
    lemma_hex_digits(v as nat, 8);
    lemma_pow16_8();
    let h = hex8_spec(v);
    assert(h[0] != '+');
}

/// Cleaning text piece by piece cleans the whole.
proof fn lemma_clean_concat(a: Seq<char>, b: Seq<char>)
    ensures
        clean_text(a + b) == clean_text(a) + clean_text(b),
    decreases b.len(),
{
    if b.len() == 0 {
        assert(a + b =~= a);
        assert(clean_text(a) + clean_text(b) =~= clean_text(a));
    } else {
        lemma_clean_concat(a, b.drop_last());
        assert((a + b).drop_last() =~= a + b.drop_last());
        assert((a + b).last() == b.last());
        if kept_char(b.last()) {
            assert((clean_text(a) + clean_text(b.drop_last())).push(b.last()) =~= clean_text(a)
                + clean_text(b.drop_last()).push(b.last()));
        }
    }
}

/// Text of kept characters is left as it is.
proof fn lemma_clean_kept(a: Seq<char>)
    requires
        forall|i: int| 0 <= i < a.len() ==> kept_char(#[trigger] a[i]),
    ensures
        clean_text(a) == a,
    decreases a.len(),
{
    if a.len() > 0 {
        lemma_clean_kept(a.drop_last());
        assert(a.drop_last().push(a.last()) =~= a);
    }
}

/// Base16384 characters are kept by the cleaner.
proof fn lemma_encode_kept(z: Seq<u8>)
    ensures
        forall|i: int| 0 <= i < encode_spec(z).len() ==> kept_char(#[trigger] encode_spec(z)[i]),
{
    crate::base16384::lemma_encode_prefix_value(z, char_count_spec(z.len()));
}

/// UTF-8 takes at most three bytes for a character below the surrogates.
proof fn lemma_utf8_len_bound(s: Seq<char>)
    requires
        forall|i: int| 0 <= i < s.len() ==> (#[trigger] s[i] as u32) < 0xD800,
    ensures
        vstd::utf8::encode_utf8(s).len() <= 3 * s.len(),
    decreases s.len(),
{
    if s.len() > 0 {
        let rest = s.drop_first();
        assert forall|i: int| 0 <= i < rest.len() implies (#[trigger] rest[i] as u32) < 0xD800 by {
            assert(rest[i] == s[i + 1]);
        }
        lemma_utf8_len_bound(rest);
        let c = s[0] as u32;
        assert(vstd::utf8::encode_scalar(c).len() <= 3);
    }
}

/// A clipboard text stays within the reader's size limit in UTF-8.
pub proof fn lemma_mbsc_frame_size(z: Seq<u8>)
    requires
        z.len() <= MAX_COMPRESSED_SIZE,
    ensures
        vstd::utf8::encode_utf8(mbsc_frame_spec(z)).len() <= MAX_CLIPBOARD_TEXT_SIZE,
{
    reveal_strlit("```mbcfg\n");
    reveal_strlit("MBSC7:");
    reveal_strlit(":");
    reveal_strlit("\n```");
    let f = mbsc_frame_spec(z);
    let h = hex8_spec(z.len() as u32);
    let k = hex8_spec(crc32_of(z));
    let e = encode_spec(z);
    lemma_hex_digits(z.len() as nat, 8);
    lemma_hex_digits(crc32_of(z) as nat, 8);
    crate::base16384::lemma_encode_prefix_value(z, char_count_spec(z.len()));
    assert forall|i: int| 0 <= i < f.len() implies (#[trigger] f[i] as u32) < 0xD800 by {
        if i < 15 {
        } else if i < 23 {
            assert(f[i] == h[i - 15]);
        } else if i == 23 {
        } else if i < 32 {
            assert(f[i] == k[i - 24]);
        } else if i == 32 {
        } else if i < 33 + e.len() {
            assert(f[i] == e[i - 33]);
        } else {
        }
    }
    lemma_utf8_len_bound(f);
    assert(f.len() == 37 + e.len());
}

/// The clipboard reader gives back from a clipboard text what gunzipping the
/// framed stream gives: the frame's size, checksum and data read back as
/// written.
pub proof fn law_mbsc_frame_roundtrip(z: Seq<u8>)
    requires
        0 < z.len() <= MAX_COMPRESSED_SIZE,
    ensures
        mbsc_payload_spec(mbsc_frame_spec(z)) == gzip_decompress_spec(z),
{
    lemma_frame_text(z);
    crate::base16384::law_base16384_roundtrip(z);
}

/// The cleaned clipboard text of a gzip stream: a fence of eight characters
/// none of which is `M`, the prefix, and the frame with the stream's size,
/// checksum and data.
#[verifier::spinoff_prover]
#[verifier::rlimit(40)]
proof fn lemma_frame_text(z: Seq<u8>) -> (t: Seq<char>)
    requires
        0 < z.len() <= MAX_COMPRESSED_SIZE,
    ensures
        t == clean_text(mbsc_frame_spec(z)),
        t.len() >= 14,
        forall|i: int| 0 <= i < 8 ==> #[trigger] t[i] != 'M' && t[i] != 'B' && t[i] != 'S' && t[i] != 'C' && t[i]
            != '7' && t[i] != ':',
        mbsc_scan(t, 0) == Some(8int),
        prefix_at(t, 8),
        frame_ok(t.skip(14)),
        frame_size(t.skip(14)) == z.len(),
        frame_crc(t.skip(14)) == crc32_of(z),
        frame_data(t.skip(14)) == encode_spec(z),
{
    reveal_strlit("```mbcfg\n");
    reveal_strlit("MBSC7:");
    reveal_strlit(":");
    reveal_strlit("\n```");
    let h = hex8_spec(z.len() as u32);
    let k = hex8_spec(crc32_of(z));
    let e = encode_spec(z);
    lemma_hex_digits(z.len() as nat, 8);
    lemma_hex_digits(crc32_of(z) as nat, 8);
    lemma_encode_kept(z);
    let fence = seq!['`', '`', '`', 'm', 'b', 'c', 'f', 'g'];
    let tail = seq!['`', '`', '`'];
    let body = mbsc_prefix() + h + seq![':'] + k + seq![':'] + e;
    assert(mbsc_frame_spec(z) =~= (fence + seq!['\n']) + body + (seq!['\n'] + tail));
    lemma_clean_concat(fence + seq!['\n'], body);
    lemma_clean_concat((fence + seq!['\n']) + body, seq!['\n'] + tail);
    lemma_clean_concat(fence, seq!['\n']);
    lemma_clean_concat(seq!['\n'], tail);
    reveal_with_fuel(clean_text, 2);
    assert(clean_text(seq!['\n']) =~= Seq::<char>::empty());
    lemma_clean_kept(fence);
    lemma_clean_kept(tail);
    assert forall|i: int| 0 <= i < body.len() implies kept_char(#[trigger] body[i]) by {
        if i < 6 {
        } else if i < 14 {
            assert(body[i] == h[i - 6]);
        } else if i == 14 {
        } else if i < 23 {
            assert(body[i] == k[i - 15]);
        } else if i == 23 {
        } else {
            assert(body[i] == e[i - 24]);
        }
    }
    lemma_clean_kept(body);
    let t = fence + body + tail;
    assert(clean_text(mbsc_frame_spec(z)) =~= t);
    // The scan passes the fence and stops at the prefix.
    assert forall|p: int| 0 <= p < 8 implies #[trigger] mbsc_scan(t, p) == mbsc_scan(t, p + 1) by {
        assert(t[p] != 'M');
        if prefix_at(t, p) {
            assert(t.subrange(p, p + 6)[0] == t[p]);
        }
    }
    assert(mbsc_scan(t, 0) == mbsc_scan(t, 8)) by {
        assert(mbsc_scan(t, 0) == mbsc_scan(t, 1));
        assert(mbsc_scan(t, 1) == mbsc_scan(t, 2));
        assert(mbsc_scan(t, 2) == mbsc_scan(t, 3));
        assert(mbsc_scan(t, 3) == mbsc_scan(t, 4));
        assert(mbsc_scan(t, 4) == mbsc_scan(t, 5));
        assert(mbsc_scan(t, 5) == mbsc_scan(t, 6));
        assert(mbsc_scan(t, 6) == mbsc_scan(t, 7));
        assert(mbsc_scan(t, 7) == mbsc_scan(t, 8));
    }
    assert(t.subrange(8, 14) =~= mbsc_prefix());
    let c = t.skip(14);
    assert(c =~= h + seq![':'] + k + seq![':'] + e + tail);
    assert(c.subrange(0, 8) =~= h);
    assert(c.subrange(9, 17) =~= k);
    law_hex8_roundtrip(z.len() as u32);
    law_hex8_roundtrip(crc32_of(z));
    assert(frame_size(c) == z.len());
    assert(frame_crc(c) == crc32_of(z));
    assert forall|i: int| 0 <= i < 8 implies ascii_char(#[trigger] c[i]) by {
        assert(c[i] == h[i]);
    }
    assert forall|i: int| 9 <= i < 17 implies ascii_char(#[trigger] c[i]) by {
        assert(c[i] == k[i - 9]);
    }
    assert(frame_ok(c));
    assert(mbsc_scan(t, 8) == Some(8int));
    assert(frame_data(c) =~= e);
    assert forall|i: int| 0 <= i < 8 implies #[trigger] t[i] != 'M' && t[i] != 'B' && t[i] != 'S' && t[i] != 'C'
        && t[i] != '7' && t[i] != ':' by {
        assert(t[i] == fence[i]);
    }
    t
}

/// Characters of code 32 or below (spaces, tabs, line breaks) inserted
/// anywhere in a clipboard text do not change what it reads as.
pub proof fn law_mbsc_ignores_blank_chars(a: Seq<char>, w: char, b: Seq<char>)
    requires
        !kept_char(w),
    ensures
        mbsc_payload_spec(a + seq![w] + b) == mbsc_payload_spec(a + b),
{
    lemma_clean_concat(a + seq![w], b);
    lemma_clean_concat(a, seq![w]);
    lemma_clean_concat(a, b);
    assert(seq![w].drop_last() =~= Seq::<char>::empty());
    assert(seq![w].last() == w);
    assert(clean_text(Seq::<char>::empty()) == Seq::<char>::empty());
    assert(clean_text(seq![w]) == clean_text(seq![w].drop_last()));
    assert(clean_text(seq![w]) =~= Seq::<char>::empty());
    assert(clean_text(a) + Seq::<char>::empty() =~= clean_text(a));
    assert(clean_text(a + seq![w] + b) == clean_text(a + b));
}

/// The scan passes positions where no usable frame starts.
proof fn lemma_scan_skip(u: Seq<char>, p0: int, p1: int)
    requires
        0 <= p0 <= p1,
        p1 + 6 <= u.len(),
        forall|q: int| p0 <= q < p1 ==> !#[trigger] prefix_at(u, q),
    ensures
        mbsc_scan(u, p0) == mbsc_scan(u, p1),
    decreases p1 - p0,
{
    if p0 < p1 {
        assert(!prefix_at(u, p0));
        lemma_scan_skip(u, p0 + 1, p1);
    }
}

/// Text around a clipboard frame does not change what it reads as, when the
/// text before it holds no `MBSC7:` prefix of its own (after cleaning):
/// spaces and line breaks anywhere, a chat message before it, anything after it.
pub proof fn law_mbsc_surrounding_text(a: Seq<char>, z: Seq<u8>, b: Seq<char>)
    requires
        0 < z.len() <= MAX_COMPRESSED_SIZE,
        forall|q: int| !#[trigger] prefix_at(clean_text(a), q),
    ensures
        mbsc_payload_spec(a + mbsc_frame_spec(z) + b) == mbsc_payload_spec(mbsc_frame_spec(z)),
{
    let t = lemma_frame_text(z);
    let ca = clean_text(a);
    let cb = clean_text(b);
    lemma_clean_concat(a + mbsc_frame_spec(z), b);
    lemma_clean_concat(a, mbsc_frame_spec(z));
    let u = ca + t + cb;
    assert(clean_text(a + mbsc_frame_spec(z) + b) == u);
    let n = ca.len() as int;
    assert forall|q: int| 0 <= q < n + 8 implies !#[trigger] prefix_at(u, q) by {
        if prefix_at(u, q) {
            let w = u.subrange(q, q + 6);
            if q + 6 <= n {
                assert(w =~= ca.subrange(q, q + 6));
                assert(prefix_at(ca, q));
            } else if q >= n {
                assert(w[0] == u[q]);
                assert(u[q] == t[q - n]);
            } else {
                assert(w[n - q] == u[n]);
                assert(u[n] == t[0]);
            }
        }
    }
    lemma_scan_skip(u, 0, n + 8);
    assert(u.subrange(n + 8, n + 14) =~= t.subrange(8, 14));
    let c = t.skip(14);
    let cu = u.skip(n + 14);
    assert(cu =~= c + cb);
    assert(cu.subrange(0, 8) =~= c.subrange(0, 8));
    assert(cu.subrange(9, 17) =~= c.subrange(9, 17));
    assert(forall|i: int| 0 <= i < 18 ==> cu[i] == c[i]);
    assert(frame_ok(cu));
    assert(mbsc_scan(u, n + 8) == Some(n + 8));
    assert(frame_data(cu) =~= frame_data(c));
}

} // verus!
