//! UTF-16 code units of the wire strings.
//!
//! Strings travel as UTF-16 code units. Decoding replaces every unpaired
//! surrogate with U+FFFD, one replacement per unpaired unit.

use vstd::prelude::*;

verus! {

/// The replacement character.
pub open spec fn replacement() -> char {
    0xFFFD as char
}

/// Whether a unit is a high (leading) surrogate.
pub open spec fn is_high(u: u16) -> bool {
    0xD800 <= u && u < 0xDC00
}

/// Whether a unit is a low (trailing) surrogate.
pub open spec fn is_low(u: u16) -> bool {
    0xDC00 <= u && u < 0xE000
}

/// The character of a surrogate pair.
pub open spec fn pair_char(hi: u16, lo: u16) -> char {
    (0x10000 + (hi - 0xD800) * 0x400 + (lo - 0xDC00)) as char
}

/// Code units of one character.
pub open spec fn char_units(c: char) -> Seq<u16> {
    let v = c as u32;
    if v < 0x10000 {
        seq![v as u16]
    } else {
        seq![(0xD800 + (v - 0x10000) / 0x400) as u16, (0xDC00 + (v - 0x10000) % 0x400) as u16]
    }
}

/// Code units of a text, character after character.
pub open spec fn utf16_encode(s: Seq<char>) -> Seq<u16>
    decreases s.len(),
{
    if s.len() == 0 {
        Seq::empty()
    } else {
        utf16_encode(s.drop_last()) + char_units(s.last())
    }
}

/// Text of a unit sequence, read from the front.
pub open spec fn utf16_decode(u: Seq<u16>) -> Seq<char>
    decreases u.len(),
{
    if u.len() == 0 {
        Seq::empty()
    } else if is_high(u[0]) && u.len() >= 2 && is_low(u[1]) {
        seq![pair_char(u[0], u[1])] + utf16_decode(u.skip(2))
    } else if is_high(u[0]) || is_low(u[0]) {
        seq![replacement()] + utf16_decode(u.skip(1))
    } else {
        seq![u[0] as char] + utf16_decode(u.skip(1))
    }
}

/// Encoding a text appends the units of each character.
pub proof fn lemma_encode_front(s: Seq<char>)
    requires
        s.len() > 0,
    ensures
        utf16_encode(s) == char_units(s[0]) + utf16_encode(s.drop_first()),
    decreases s.len(),
{
    if s.len() == 1 {
        assert(s.drop_last() =~= Seq::<char>::empty());
        assert(s.drop_first() =~= Seq::<char>::empty());
        assert(utf16_encode(s.drop_first()) =~= Seq::<u16>::empty());
        assert(utf16_encode(s) =~= char_units(s[0]) + utf16_encode(s.drop_first()));
    } else {
        lemma_encode_front(s.drop_last());
        assert(s.drop_last().drop_first() =~= s.drop_first().drop_last());
        assert(s.drop_first().last() == s.last());
        assert(s.drop_last()[0] == s[0]);
        assert(utf16_encode(s) =~= char_units(s[0]) + utf16_encode(s.drop_first()));
    }
}

/// The units of one character, followed by anything, decode to that character first.
pub proof fn lemma_decode_char(c: char, rest: Seq<u16>)
    ensures
        utf16_decode(char_units(c) + rest) == seq![c] + utf16_decode(rest),
{
    let v = c as u32;
    let u = char_units(c) + rest;
    if v < 0x10000 {
        assert(u.skip(1) =~= rest);
        assert(!is_high(u[0]) && !is_low(u[0]));
        assert((v as u16) as char == c);
    } else {
        let w = v - 0x10000;
        assert(u.skip(2) =~= rest);
        assert(is_high(u[0]) && is_low(u[1]));
        assert(pair_char(u[0], u[1]) == c);
    }
}

/// Decoding the units of a text gives the text back.
pub proof fn lemma_utf16_roundtrip(s: Seq<char>)
    ensures
        utf16_decode(utf16_encode(s)) == s,
    decreases s.len(),
{
    if s.len() == 0 {
    } else {
        lemma_encode_front(s);
        lemma_utf16_roundtrip(s.drop_first());
        lemma_decode_char(s[0], utf16_encode(s.drop_first()));
        assert(seq![s[0]] + s.drop_first() =~= s);
    }
}

/// The code units of a string.
pub fn encode_utf16(s: &str) -> (r: Vec<u16>)
    ensures
        r@ == utf16_encode(s@),
{
    let mut out: Vec<u16> = Vec::new();
    let ghost text = s@;
    for c in it: s.chars()
        invariant
            it.seq() == text,
            out@ == utf16_encode(text.take(it.index() as int)),
    {
        let ghost n = it.index();
        proof {
            assert(text.take(n + 1).drop_last() =~= text.take(n as int));
        }
        let v: u32 = c as u32;
        if v < 0x10000 {
            out.push(v as u16);
        } else {
            let w: u32 = v - 0x10000;
            out.push((0xD800 + w / 0x400) as u16);
            out.push((0xDC00 + w % 0x400) as u16);
        }
        proof {
            assert(out@ =~= utf16_encode(text.take(n + 1)));
        }
    }
    proof {
        assert(text.take(text.len() as int) =~= text);
    }
    out
}

/// The text of a unit sequence; each unpaired surrogate becomes U+FFFD.
pub fn decode_utf16(units: &[u16]) -> (r: String)
    ensures
        r@ == utf16_decode(units@),
{
    let mut out = String::new();
    let mut i: usize = 0;
    proof {
        assert(units@.skip(0) =~= units@);
        assert(out@ + utf16_decode(units@) =~= utf16_decode(units@));
    }
    while i < units.len()
        invariant
            0 <= i <= units@.len(),
            out@ + utf16_decode(units@.skip(i as int)) == utf16_decode(units@),
        decreases units@.len() - i,
    {
        let ghost rest = units@.skip(i as int);
        let u = units[i];
        if 0xD800 <= u && u < 0xDC00 && i + 1 < units.len() && 0xDC00 <= units[i + 1]
            && units[i + 1] < 0xE000 {
            let lo = units[i + 1];
            let v: u32 = 0x10000 + (u as u32 - 0xD800) * 0x400 + (lo as u32 - 0xDC00);
            let c = char::from_u32(v);
            proof {
                assert(rest[0] == u && rest[1] == lo);
                assert(rest.skip(2) =~= units@.skip(i + 2));
                assert(out@ + seq![pair_char(u, lo)] + utf16_decode(units@.skip(i + 2))
                    =~= out@ + utf16_decode(rest));
            }
            match c {
                Some(ch) => out.push(ch),
                None => out.push('\u{FFFD}'),
            }
            i = i + 2;
        } else {
            let ch: char = if 0xD800 <= u && u < 0xE000 {
                '\u{FFFD}'
            } else {
                match char::from_u32(u as u32) {
                    Some(ch) => ch,
                    None => '\u{FFFD}',
                }
            };
            proof {
                assert(rest[0] == u);
                assert(rest.skip(1) =~= units@.skip(i + 1));
                assert(out@.push(ch) + utf16_decode(units@.skip(i + 1)) =~= out@ + utf16_decode(rest));
            }
            out.push(ch);
            i = i + 1;
        }
    }
    proof {
        assert(units@.skip(i as int) =~= Seq::<u16>::empty());
        assert(out@ + utf16_decode(units@.skip(i as int)) =~= out@);
    }
    out
}

} // verus!
