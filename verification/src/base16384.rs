//! Base16384 text encoding used by the clipboard form of a shared config.
//!
//! The byte string is read as one little-endian bit stream; every 14 bits
//! become one CJK character `U+4E00 + value`. The last character carries the
//! remaining (fewer than 14) bits, zero-padded at the top.

use crate::radix::{bytes_le_value, radix_digit};
use crate::shared_config::error::SharedConfigError;
use vstd::arithmetic::power2::*;
use vstd::bits::*;
use vstd::prelude::*;

verus! {

/// First character of the alphabet.
pub const BASE16384_FIRST: u32 = 0x4E00;

/// Bits carried by one character.
pub const BASE16384_BITS: u32 = 14;

/// Mask of one character's bits.
pub const BASE16384_MASK: u64 = 0x3FFF;

/// `char::from_u32` returns the character with that code for every scalar value.
pub assume_specification[ char::from_u32 ](i: u32) -> (r: Option<char>)
    ensures
        (i < 0xD800 || (0xE000 <= i && i < 0x110000)) ==> r == Some(i as char),
        r matches Some(c) ==> c as u32 == i,
;

/// `String::push` appends one character to the string.
pub assume_specification[ String::push ](s: &mut String, ch: char)
    ensures
        final(s)@ == old(s)@.push(ch),
;

/// Number of characters that encode `byte_count` bytes: `ceil(8 * n / 14)`.
pub open spec fn char_count_spec(byte_count: nat) -> nat {
    (8 * byte_count + 13) / 14
}

/// The character that encodes 14-bit value `v`.
pub open spec fn digit_char(v: nat) -> char {
    (0x4E00 + v) as char
}

/// Base16384 text of a byte string.
pub open spec fn encode_spec(data: Seq<u8>) -> Seq<char> {
    Seq::new(
        char_count_spec(data.len()),
        |k: int| digit_char(radix_digit(bytes_le_value(data), 14, k as nat)),
    )
}

/// Whether a character belongs to the alphabet.
pub open spec fn is_digit_char(c: char) -> bool {
    0x4E00 <= (c as u32) && (c as u32) <= 0x4E00 + 0x3FFF
}

/// The 14-bit value of an alphabet character.
pub open spec fn char_digit(c: char) -> nat {
    ((c as u32) - 0x4E00) as nat
}

/// Little-endian value of a text made of alphabet characters.
pub open spec fn text_value(t: Seq<char>) -> nat
    decreases t.len(),
{
    if t.len() == 0 {
        0
    } else {
        text_value(t.drop_last()) + char_digit(t.last()) * pow2((14 * (t.len() - 1)) as nat)
    }
}

/// Why a text is refused.
pub enum DecodeFault {
    /// A character outside the alphabet.
    Text,
    /// Too few characters for the expected byte count.
    Length,
    /// Bits beyond the expected bytes are not zero.
    Padding,
}

/// Result of decoding `t` into `expected` bytes.
pub open spec fn decode_spec(t: Seq<char>, expected: nat) -> Result<Seq<u8>, DecodeFault> {
    if exists|k: int| 0 <= k < t.len() && !is_digit_char(#[trigger] t[k]) {
        Err(DecodeFault::Text)
    } else if 14 * t.len() < 8 * expected {
        Err(DecodeFault::Length)
    } else if text_value(t) >= pow2(8 * expected) {
        Err(DecodeFault::Padding)
    } else {
        Ok(Seq::new(expected, |j: int| radix_digit(text_value(t), 8, j as nat) as u8))
    }
}

/// The message that each fault is reported with.
pub open spec fn fault_message(f: DecodeFault) -> Seq<char> {
    match f {
        DecodeFault::Text => "wrong shared config text"@,
        DecodeFault::Length => "wrong shared config text length"@,
        DecodeFault::Padding => "wrong shared config text padding"@,
    }
}

/// Number of characters that encode `byte_count` bytes.
pub fn base16384_char_count(byte_count: usize) -> (r: usize)
    requires
        8 * byte_count + 13 <= usize::MAX,
    ensures
        r == char_count_spec(byte_count as nat),
{
    (byte_count * 8 + 13) / 14
}


/// One input byte extends the stream value exactly above the bits already read.
proof fn lemma_encode_step(data: Seq<u8>, i: int, out_len: nat, buf: nat, bits: nat)
    requires
        0 <= i < data.len(),
        14 * out_len + bits == 8 * i,
        buf == bytes_le_value(data.take(i)) / pow2(14 * out_len),
    ensures
        buf + (data[i] as nat) * pow2(bits) == bytes_le_value(data.take(i + 1)) / pow2(
            14 * out_len,
        ),
        forall|k: nat|
            14 * k + 14 <= 8 * i ==> #[trigger] radix_digit(bytes_le_value(data.take(i + 1)), 14, k)
                == radix_digit(bytes_le_value(data.take(i)), 14, k),
{
    crate::radix::lemma_bytes_le_value_take(data, i);
    let a = bytes_le_value(data.take(i));
    crate::radix::lemma_div_pow2_add_high(a, data[i] as nat, 14 * out_len, (8 * i) as nat);
    assert forall|k: nat| 14 * k + 14 <= 8 * i implies #[trigger] radix_digit(
        bytes_le_value(data.take(i + 1)),
        14,
        k,
    ) == radix_digit(bytes_le_value(data.take(i)), 14, k) by {
        crate::radix::lemma_window_ignores_high(a, data[i] as nat, 14 * k, 14, (8 * i) as nat);
    }
}

/// Emitting the low 14 bits of the pending value and shifting them out.
proof fn lemma_emit_digit(v: nat, k: nat, buf: nat)
    requires
        buf == v / pow2(14 * k),
    ensures
        buf % pow2(14) == radix_digit(v, 14, k),
        buf / pow2(14) == v / pow2(14 * (k + 1)),
{
    crate::radix::lemma_div_div_pow2(v, 14 * k, 14);
    assert(14 * k + 14 == 14 * (k + 1));
}

/// Base16384 text of `data`.
pub fn encode_base16384(data: &[u8]) -> (out: String)
    requires
        8 * data.len() + 13 <= usize::MAX,
    ensures
        out@ == encode_spec(data@),
{
    let mut out = String::new();
    let mut buf: u64 = 0;
    let mut bits: u32 = 0;
    let ghost n = data@.len();
    proof {
        lemma2_to64();
        assert(data@.take(0) =~= Seq::<u8>::empty());
    }
    let mut i: usize = 0;
    while i < data.len()
        invariant
            n == data@.len(),
            0 <= i <= n,
            bits < 14,
            14 * out@.len() + bits == 8 * i,
            buf == bytes_le_value(data@.take(i as int)) / pow2(14 * out@.len()),
            buf < pow2(bits as nat),
            forall|k: int|
                0 <= k < out@.len() ==> out@[k] == #[trigger] digit_char(
                    radix_digit(bytes_le_value(data@.take(i as int)), 14, k as nat),
                ),
        decreases n - i,
    {
        let b = data[i];
        proof {
            lemma_encode_step(data@, i as int, out@.len(), buf as nat, bits as nat);
            lemma2_to64();
            lemma_pow2_strictly_increases(bits as nat, 14);
            assert((b as nat) * pow2(bits as nat) <= 255 * pow2(14)) by (nonlinear_arith)
                requires b <= 255, pow2(bits as nat) < pow2(14);
            lemma_u64_shl_is_mul(b as u64, bits as u64);
            lemma_u64_shl_is_mul(1u64, bits as u64);
            lemma_pow2_adds(bits as nat, 8);
            assert(buf as nat + (b as nat) * pow2(bits as nat) < pow2((bits + 8) as nat)) by (nonlinear_arith)
                requires
                    buf < pow2(bits as nat),
                    b <= 255,
                    pow2((bits + 8) as nat) == pow2(bits as nat) * pow2(8),
                    pow2(8) == 256;
        }
        let shifted = (b as u64) << bits;
        proof {
            let bb = b as u64;
            assert(buf < (1u64 << (bits as u64)));
            assert(bits < 14 && bb < 256 && buf < (1u64 << (bits as u64)) ==> (buf | (bb << (
            bits as u64))) == buf + (bb << (bits as u64))) by (bit_vector);
        }
        buf = buf | shifted;
        bits = bits + 8;
        let ghost v = bytes_le_value(data@.take(i + 1));
        while bits >= BASE16384_BITS
            invariant
                n == data@.len(),
                0 <= i < n,
                v == bytes_le_value(data@.take(i + 1)),
                bits < 22,
                14 * out@.len() + bits == 8 * (i + 1),
                buf == v / pow2(14 * out@.len()),
                buf < pow2(bits as nat),
                forall|k: int|
                    0 <= k < out@.len() ==> out@[k] == #[trigger] digit_char(
                        radix_digit(v, 14, k as nat),
                    ),
            decreases bits,
        {
            let chunk = buf & BASE16384_MASK;
            proof {
                lemma_emit_digit(v, out@.len(), buf as nat);
                lemma_u64_low_bits_mask_is_mod(buf, 14);
                lemma2_to64();
                lemma_u64_shr_is_div(buf, 14);
                assert(bits as nat == 14 + (bits - 14) as nat);
                crate::radix::lemma_div_pow2_bound(buf as nat, 14, (bits - 14) as nat);
                lemma_low_bits_mask_values();
                vstd::arithmetic::div_mod::lemma_mod_bound(buf as int, pow2(14) as int);
            }
            let ch = char::from_u32(BASE16384_FIRST + chunk as u32).unwrap();
            out.push(ch);
            buf = buf >> BASE16384_BITS;
            bits = bits - BASE16384_BITS;
        }
        i = i + 1;
        proof {
            assert forall|k: int| 0 <= k < out@.len() implies out@[k] == #[trigger] digit_char(
                radix_digit(bytes_le_value(data@.take(i as int)), 14, k as nat),
            ) by {}
        }
    }
    let ghost v = bytes_le_value(data@);
    proof {
        assert(data@.take(n as int) =~= data@);
    }
    if bits > 0 {
        proof {
            lemma_pow2_strictly_increases(bits as nat, 14);
            crate::radix::lemma_small_pow2(buf as nat, 14);
            lemma2_to64();
        }
        let ch = char::from_u32(BASE16384_FIRST + buf as u32).unwrap();
        out.push(ch);
    }
    proof {
        assert(out@.len() == char_count_spec(n));
        assert forall|k: int| 0 <= k < out@.len() implies out@[k] == encode_spec(data@)[k] by {}
        assert(out@ =~= encode_spec(data@));
    }
    out
}


/// One more character extends the text value exactly above the bits already consumed.
proof fn lemma_decode_step(t: Seq<char>, k: int, p: nat, buf: nat, bits: nat)
    requires
        0 <= k < t.len(),
        8 * p + bits == 14 * k,
        buf == text_value(t.take(k)) / pow2(8 * p),
    ensures
        buf + char_digit(t[k]) * pow2(bits) == text_value(t.take(k + 1)) / pow2(8 * p),
        forall|j: nat|
            8 * j + 8 <= 14 * k ==> #[trigger] radix_digit(text_value(t.take(k + 1)), 8, j)
                == radix_digit(text_value(t.take(k)), 8, j),
{
    assert(t.take(k + 1).drop_last() =~= t.take(k));
    let a = text_value(t.take(k));
    crate::radix::lemma_div_pow2_add_high(a, char_digit(t[k]), 8 * p, (14 * k) as nat);
    assert forall|j: nat| 8 * j + 8 <= 14 * k implies #[trigger] radix_digit(
        text_value(t.take(k + 1)),
        8,
        j,
    ) == radix_digit(text_value(t.take(k)), 8, j) by {
        crate::radix::lemma_window_ignores_high(a, char_digit(t[k]), 8 * j, 8, (14 * k) as nat);
    }
}

/// Decode a base16384 text that must yield exactly `expected_size` bytes.
///
/// Characters beyond what fits in the 64-bit accumulator are left out by
/// `requires`; the clipboard reader passes exactly the encoded length.
pub fn decode_base16384(encoded: &str, expected_size: usize) -> (r: Result<Vec<u8>, SharedConfigError>)
    requires
        14 * encoded@.len() < 8 * expected_size + 64,
    ensures
        match decode_spec(encoded@, expected_size as nat) {
            Ok(bytes) => r matches Ok(v) && v@ == bytes,
            Err(f) => r matches Err(e) && e@ == fault_message(f),
        },
{
    let mut result: Vec<u8> = Vec::with_capacity(expected_size);
    let mut buf: u64 = 0;
    let mut bits: u32 = 0;
    let ghost t = encoded@;
    proof {
        lemma2_to64();
        assert(t.take(0) =~= Seq::<char>::empty());
    }
    for ch in it: encoded.chars()
        invariant
            t == encoded@,
            it.seq() == t,
            14 * t.len() < 8 * expected_size + 64,
            forall|i: int| 0 <= i < it.index() ==> is_digit_char(#[trigger] t[i]),
            result@.len() <= expected_size,
            8 * result@.len() + bits == 14 * it.index(),
            result@.len() < expected_size ==> bits < 8,
            buf == text_value(t.take(it.index() as int)) / pow2(8 * result@.len()),
            buf < pow2(bits as nat),
            forall|j: int|
                0 <= j < result@.len() ==> result@[j] as nat == #[trigger] radix_digit(
                    text_value(t.take(it.index() as int)),
                    8,
                    j as nat,
                ),
    {
        let ghost k = it.index();
        let ghost old_len = result@.len();
        let code = ch as u32;
        if code < BASE16384_FIRST {
            proof {
                assert(!is_digit_char(t[k as int]));
            }
            return Err(SharedConfigError::new("wrong shared config text"));
        }
        let value = code - BASE16384_FIRST;
        if value as u64 > BASE16384_MASK {
            proof {
                assert(!is_digit_char(t[k as int]));
            }
            return Err(SharedConfigError::new("wrong shared config text"));
        }
        proof {
            assert(char_digit(t[k as int]) == value);
            lemma_decode_step(t, k as int, old_len, buf as nat, bits as nat);
            lemma2_to64();
            lemma2_to64_rest();
            // bits + 14 stays within the accumulator.
            assert(bits < 50);
            lemma_pow2_strictly_increases((bits + 14) as nat, 64);
            lemma_pow2_adds(bits as nat, 14);
            assert((value as nat) * pow2(bits as nat) < pow2(14) * pow2(bits as nat)) by (nonlinear_arith)
                requires
                    value < pow2(14),
                    pow2(bits as nat) > 0;
            assert(buf as nat + (value as nat) * pow2(bits as nat) < pow2((bits + 14) as nat)) by (nonlinear_arith)
                requires
                    buf < pow2(bits as nat),
                    value < pow2(14),
                    pow2((bits + 14) as nat) == pow2(bits as nat) * pow2(14);
            lemma_u64_shl_is_mul(value as u64, bits as u64);
            lemma_u64_shl_is_mul(1u64, bits as u64);
        }
        let shifted = (value as u64) << bits;
        proof {
            let vv = value as u64;
            assert(buf < (1u64 << (bits as u64)));
            assert(bits < 50 && vv < 16384 && buf < (1u64 << (bits as u64)) ==> (buf | (vv << (
            bits as u64))) == buf + (vv << (bits as u64))) by (bit_vector);
        }
        buf = buf | shifted;
        bits = bits + BASE16384_BITS;
        let ghost w = text_value(t.take(k + 1));
        while bits >= 8 && result.len() < expected_size
            invariant
                result@.len() <= expected_size,
                old_len <= result@.len(),
                8 * result@.len() + bits == 14 * (k + 1),
                bits < 64,
                result@.len() < expected_size ==> bits < 22,
                buf == w / pow2(8 * result@.len()),
                buf < pow2(bits as nat),
                forall|j: int|
                    0 <= j < result@.len() ==> result@[j] as nat == #[trigger] radix_digit(w, 8, j as nat),
            decreases bits,
        {
            proof {
                crate::radix::lemma_div_div_pow2(w, 8 * result@.len(), 8);
                assert(8 * result@.len() + 8 == 8 * (result@.len() + 1));
                lemma_u64_low_bits_mask_is_mod(buf, 8);
                lemma_low_bits_mask_values();
                lemma2_to64();
                lemma_u64_shr_is_div(buf, 8);
                assert(bits as nat == 8 + (bits - 8) as nat);
                crate::radix::lemma_div_pow2_bound(buf as nat, 8, (bits - 8) as nat);
                vstd::arithmetic::div_mod::lemma_mod_bound(buf as int, pow2(8) as int);
            }
            result.push((buf & 0xFF) as u8);
            buf = buf >> 8;
            bits = bits - 8;
        }
        proof {
            assert forall|i: int| 0 <= i < k + 1 implies is_digit_char(#[trigger] t[i]) by {
                if i == k {
                    assert(t[i] == ch);
                }
            }
        }
    }
    proof {
        assert(t.take(t.len() as int) =~= t);
    }
    let ghost w = text_value(t);
    proof {
        assert(!exists|i: int| 0 <= i < t.len() && !is_digit_char(#[trigger] t[i]));
    }
    if result.len() != expected_size {
        return Err(SharedConfigError::new("wrong shared config text length"));
    }
    proof {
        lemma2_to64();
        lemma2_to64_rest();
        lemma_pow2_strictly_increases(bits as nat, 64);
        lemma_u64_shl_is_mul(1u64, bits as u64);
        crate::radix::lemma_div_pow2_zero_iff(w, 8 * expected_size as nat);
        let bb = bits as u64;
        assert(buf < (1u64 << bb) && bb < 64 ==> buf & (((1u64 << bb) - 1) as u64) == buf) by (bit_vector);
    }
    if bits > 0 && (buf & ((1u64 << bits) - 1)) != 0 {
        return Err(SharedConfigError::new("wrong shared config text padding"));
    }
    proof {
        assert(w < pow2(8 * expected_size as nat));
        let bytes = Seq::new(expected_size as nat, |j: int| radix_digit(w, 8, j as nat) as u8);
        assert(result@ =~= bytes);
    }
    Ok(result)
}


/// The first `k` characters of an encoding carry the low `14 * k` bits of the data.
pub proof fn lemma_encode_prefix_value(d: Seq<u8>, k: nat)
    requires
        k <= char_count_spec(d.len()),
    ensures
        text_value(encode_spec(d).take(k as int)) == bytes_le_value(d) % pow2(14 * k),
        forall|i: int| 0 <= i < k ==> is_digit_char(#[trigger] encode_spec(d)[i]),
    decreases k,
{
    let t = encode_spec(d);
    let v = bytes_le_value(d);
    lemma2_to64();
    if k == 0 {
        assert(t.take(0) =~= Seq::<char>::empty());
        assert(pow2(0) == 1);
    } else {
        let j = (k - 1) as nat;
        lemma_encode_prefix_value(d, j);
        assert(t.take(k as int).drop_last() =~= t.take(j as int));
        vstd::arithmetic::div_mod::lemma_mod_bound((v / pow2(14 * j)) as int, pow2(14) as int);
        assert(char_digit(t[j as int]) == radix_digit(v, 14, j));
        crate::radix::lemma_mod_pow2_split(v, 14 * j, 14);
        assert(14 * j + 14 == 14 * k);
    }
}

/// Decoding the encoding of a byte string gives back that byte string.
pub proof fn law_base16384_roundtrip(d: Seq<u8>)
    ensures
        decode_spec(encode_spec(d), d.len()) == Ok::<Seq<u8>, DecodeFault>(d),
{
    let t = encode_spec(d);
    let v = bytes_le_value(d);
    let n = d.len();
    let kk = char_count_spec(n);
    lemma_encode_prefix_value(d, kk);
    assert(t.take(kk as int) =~= t);
    crate::radix::lemma_bytes_le_value_bound(d);
    lemma_pow2_pos(8 * n);
    if 8 * n < 14 * kk {
        vstd::arithmetic::power2::lemma_pow2_strictly_increases(8 * n, 14 * kk);
    }
    crate::radix::lemma_small_pow2(v, 14 * kk);
    assert(text_value(t) == v);
    assert forall|j: int| 0 <= j < n implies radix_digit(v, 8, j as nat) as u8 == d[j] by {
        crate::radix::lemma_bytes_le_value_digit(d, j as nat);
    }
    assert(Seq::new(n, |j: int| radix_digit(text_value(t), 8, j as nat) as u8) =~= d);
}

} // verus!
