//! Facts relating the wire encoders to the wire decoders.

use crate::le::{le_u16, le_u32, le_u64, lemma_le_u16_roundtrip, lemma_le_u32_roundtrip, u32_from_le};
use crate::shared_config::reader::{
    string_list_x_at, string_x_at, strings_at, u16_at, u16s_at, u32_at, u32s_at, u64_at, u64s_at,
    units_text,
};
use crate::shared_config::utf16::{lemma_utf16_roundtrip, utf16_encode};
use crate::shared_config::writer::{
    bool_byte, count_bytes, flag_of, lemma_bool_byte, lemma_u32s_bytes_len, lemma_u64s_bytes_len,
    lemma_units_bytes_len, string_fits, string_list_fits, string_list_x_bytes, string_x_bytes,
    strings_bytes, strings_fit, u32s_bytes, u64s_bytes, units_bytes,
};
use vstd::prelude::*;

verus! {

broadcast use crate::le::group_le_len;

/// An `i32` read back from its four little-endian bytes.
pub proof fn lemma_le_i32_roundtrip(v: i32)
    ensures
        u32_from_le(le_u32(v as u32)) as i32 == v,
{
    lemma_le_u32_roundtrip(v as u32);
    assert((v as u32) as i32 == v) by (bit_vector);
}

/// The two bytes of the `k`-th value in the bytes of `u16` values.
pub proof fn lemma_units_bytes_index(u: Seq<u16>, k: int)
    requires
        0 <= k < u.len(),
    ensures
        units_bytes(u).len() == 2 * u.len(),
        units_bytes(u)[2 * k] == le_u16(u[k])[0],
        units_bytes(u)[2 * k + 1] == le_u16(u[k])[1],
    decreases u.len(),
{
    lemma_units_bytes_len(u);
    lemma_units_bytes_len(u.drop_last());
    if k < u.len() - 1 {
        lemma_units_bytes_index(u.drop_last(), k);
    }
}

/// `u16` values read back from their bytes.
pub proof fn lemma_u16s_at_units_bytes(u: Seq<u16>, d: Seq<u8>, o: int)
    requires
        0 <= o,
        o + 2 * u.len() <= d.len(),
        d.subrange(o, o + 2 * u.len()) == units_bytes(u),
    ensures
        u16s_at(d, o, u.len()) == u,
{
    assert forall|k: int| 0 <= k < u.len() implies u16_at(d, o + 2 * k) == u[k] by {
        lemma_units_bytes_index(u, k);
        assert(d[o + 2 * k] == units_bytes(u)[2 * k]);
        assert(d[o + 2 * k + 1] == units_bytes(u)[2 * k + 1]);
        lemma_le_u16_roundtrip(u[k]);
    }
    assert(u16s_at(d, o, u.len()) =~= u);
}

/// The two parts of a concatenation, taken back out of it.
pub proof fn lemma_seq_split(a: Seq<u8>, b: Seq<u8>)
    ensures
        (a + b).subrange(0, a.len() as int) == a,
        (a + b).subrange(a.len() as int, (a.len() + b.len()) as int) == b,
{
    assert((a + b).subrange(0, a.len() as int) =~= a);
    assert((a + b).subrange(a.len() as int, (a.len() + b.len()) as int) =~= b);
}

/// A range inside a prefix is the same range of the whole.
pub proof fn lemma_subrange_of_prefix(d: Seq<u8>, m: int, lo: int, hi: int)
    requires
        0 <= lo <= hi <= m <= d.len(),
    ensures
        d.subrange(lo, hi) == d.subrange(0, m).subrange(lo, hi),
{
    assert(d.subrange(lo, hi) =~= d.subrange(0, m).subrange(lo, hi));
}

/// A flag read back from the byte written for it.
pub proof fn lemma_flag_at(d: Seq<u8>, o: int, b: bool)
    requires
        0 <= o < d.len(),
        d.subrange(o, o + 1) == seq![bool_byte(b)],
    ensures
        flag_of(d[o]) == b,
{
    assert(d[o] == d.subrange(o, o + 1)[0]);
    lemma_bool_byte(b);
}

/// A count below `2^31` keeps its value as an `i32`.
pub proof fn lemma_small_count(x: u32)
    requires
        x < 0x8000_0000,
    ensures
        x as i32 == x,
{
    assert(x < 0x8000_0000 ==> x as i32 == x) by (bit_vector);
}

/// A `StringX` read back from its bytes.
pub proof fn lemma_string_x_at(s: Seq<char>, d: Seq<u8>, o: int)
    requires
        string_fits(s),
        0 <= o,
        o + string_x_bytes(s).len() <= d.len(),
        d.subrange(o, o + string_x_bytes(s).len()) == string_x_bytes(s),
    ensures
        string_x_bytes(s).len() == 4 + 2 * utf16_encode(s).len(),
        string_x_at(d, o) == Ok::<(Seq<char>, int), Seq<char>>((s, o + string_x_bytes(s).len())),
{
    let u = utf16_encode(s);
    let n = u.len();
    lemma_units_bytes_len(u);
    let b = string_x_bytes(s);
    lemma_seq_split(count_bytes(n), units_bytes(u));
    lemma_subrange_of_prefix(d, o + b.len(), o, o + 4);
    assert(d.subrange(o, o + 4) =~= b.subrange(0, 4));
    assert(d[o] == b.subrange(0, 4)[0] && d[o + 1] == b.subrange(0, 4)[1] && d[o + 2] == b.subrange(
        0,
        4,
    )[2] && d[o + 3] == b.subrange(0, 4)[3]);
    lemma_le_u32_roundtrip(n as u32);
    lemma_small_count(n as u32);
    assert(d.subrange(o + 4, o + 4 + 2 * n) =~= b.subrange(4, (4 + 2 * n) as int));
    lemma_u16s_at_units_bytes(u, d, o + 4);
    lemma_utf16_roundtrip(s);
    reveal(units_text);
}

/// Consecutive `StringX` values read back from their bytes.
pub proof fn lemma_strings_at(v: Seq<Seq<char>>, d: Seq<u8>, o: int)
    requires
        strings_fit(v),
        0 <= o,
        o + strings_bytes(v).len() <= d.len(),
        d.subrange(o, o + strings_bytes(v).len()) == strings_bytes(v),
    ensures
        strings_at(d, o, v.len()) == Ok::<(Seq<Seq<char>>, int), Seq<char>>(
            (v, o + strings_bytes(v).len()),
        ),
    decreases v.len(),
{
    if v.len() == 0 {
        assert(v =~= Seq::<Seq<char>>::empty());
    } else {
        let pre = v.drop_last();
        let x = v.last();
        assert(string_fits(v[v.len() - 1]));
        assert forall|k: int| 0 <= k < pre.len() implies string_fits(#[trigger] pre[k]) by {
            assert(pre[k] == v[k]);
        }
        let a = strings_bytes(pre);
        let b = string_x_bytes(x);
        let l1 = a.len() as int;
        let l2 = l1 + b.len();
        let all = d.subrange(o, o + l2);
        lemma_seq_split(a, b);
        lemma_subrange_of_prefix(all, l2, 0, l1);
        lemma_subrange_of_prefix(all, l2, l1, l2);
        assert(d.subrange(o, o + l1) =~= all.subrange(0, l1));
        assert(d.subrange(o + l1, o + l2) =~= all.subrange(l1, l2));
        lemma_strings_at(pre, d, o);
        lemma_string_x_at(x, d, o + l1);
        assert(pre.push(x) =~= v);
    }
}

/// A string list read back from its bytes.
pub proof fn lemma_string_list_x_at(v: Seq<Seq<char>>, d: Seq<u8>, o: int)
    requires
        string_list_fits(v),
        0 <= o,
        o + string_list_x_bytes(v).len() <= d.len(),
        d.subrange(o, o + string_list_x_bytes(v).len()) == string_list_x_bytes(v),
    ensures
        string_list_x_at(d, o) == Ok::<(Seq<Seq<char>>, int), Seq<char>>(
            (v, o + string_list_x_bytes(v).len()),
        ),
{
    let cb = count_bytes(v.len());
    let sb = strings_bytes(v);
    let l2 = (4 + sb.len()) as int;
    let all = d.subrange(o, o + l2);
    lemma_seq_split(cb, sb);
    lemma_subrange_of_prefix(all, l2, 0, 4);
    lemma_subrange_of_prefix(all, l2, 4, l2);
    assert(d.subrange(o + 4, o + l2) =~= all.subrange(4, l2));
    assert(d[o] == all.subrange(0, 4)[0] && d[o + 1] == all.subrange(0, 4)[1] && d[o + 2]
        == all.subrange(0, 4)[2] && d[o + 3] == all.subrange(0, 4)[3]);
    lemma_le_u32_roundtrip(v.len() as u32);
    lemma_small_count(v.len() as u32);
    lemma_strings_at(v, d, o + 4);
}

/// A `u32` read back from its four little-endian bytes at `o`.
pub proof fn lemma_u32_at_le(v: u32, d: Seq<u8>, o: int)
    requires
        0 <= o,
        o + 4 <= d.len(),
        d.subrange(o, o + 4) == le_u32(v),
    ensures
        u32_at(d, o) == v,
{
    lemma_le_u32_roundtrip(v);
    assert(d[o] == d.subrange(o, o + 4)[0]);
    assert(d[o + 1] == d.subrange(o, o + 4)[1]);
    assert(d[o + 2] == d.subrange(o, o + 4)[2]);
    assert(d[o + 3] == d.subrange(o, o + 4)[3]);
}

/// A `u64` read back from its eight little-endian bytes at `o`.
pub proof fn lemma_u64_at_le(v: u64, d: Seq<u8>, o: int)
    requires
        0 <= o,
        o + 8 <= d.len(),
        d.subrange(o, o + 8) == le_u64(v),
    ensures
        u64_at(d, o) == v,
{
    let lo = (v % 0x1_0000_0000) as u32;
    let hi = (v / 0x1_0000_0000) as u32;
    let e = d.subrange(o, o + 8);
    assert(e == le_u32(lo) + le_u32(hi));
    lemma_seq_split(le_u32(lo), le_u32(hi));
    assert(d.subrange(o, o + 4) =~= e.subrange(0, 4));
    assert(d.subrange(o + 4, o + 8) =~= e.subrange(4, 8));
    lemma_u32_at_le(lo, d, o);
    lemma_u32_at_le(hi, d, o + 4);
}

/// The four bytes of the `k`-th value in the bytes of `u32` values.
pub proof fn lemma_u32s_bytes_slice(u: Seq<u32>, k: int)
    requires
        0 <= k < u.len(),
    ensures
        u32s_bytes(u).len() == 4 * u.len(),
        u32s_bytes(u).subrange(4 * k, 4 * k + 4) == le_u32(u[k]),
    decreases u.len(),
{
    lemma_u32s_bytes_len(u);
    lemma_u32s_bytes_len(u.drop_last());
    let a = u32s_bytes(u.drop_last());
    lemma_seq_split(a, le_u32(u.last()));
    if k < u.len() - 1 {
        lemma_u32s_bytes_slice(u.drop_last(), k);
        lemma_subrange_of_prefix(u32s_bytes(u), a.len() as int, 4 * k, 4 * k + 4);
    }
}

/// The eight bytes of the `k`-th value in the bytes of `u64` values.
pub proof fn lemma_u64s_bytes_slice(u: Seq<u64>, k: int)
    requires
        0 <= k < u.len(),
    ensures
        u64s_bytes(u).len() == 8 * u.len(),
        u64s_bytes(u).subrange(8 * k, 8 * k + 8) == le_u64(u[k]),
    decreases u.len(),
{
    lemma_u64s_bytes_len(u);
    lemma_u64s_bytes_len(u.drop_last());
    let a = u64s_bytes(u.drop_last());
    lemma_seq_split(a, le_u64(u.last()));
    if k < u.len() - 1 {
        lemma_u64s_bytes_slice(u.drop_last(), k);
        lemma_subrange_of_prefix(u64s_bytes(u), a.len() as int, 8 * k, 8 * k + 8);
    }
}

/// `u32` values read back from their bytes.
pub proof fn lemma_u32s_at_bytes(u: Seq<u32>, d: Seq<u8>, o: int)
    requires
        0 <= o,
        o + 4 * u.len() <= d.len(),
        d.subrange(o, o + 4 * u.len()) == u32s_bytes(u),
    ensures
        u32s_at(d, o, u.len()) == u,
{
    lemma_u32s_bytes_len(u);
    assert forall|k: int| 0 <= k < u.len() implies u32_at(d, o + 4 * k) == u[k] by {
        lemma_u32s_bytes_slice(u, k);
        assert(d.subrange(o + 4 * k, o + 4 * k + 4) =~= u32s_bytes(u).subrange(4 * k, 4 * k + 4));
        lemma_u32_at_le(u[k], d, o + 4 * k);
    }
    assert(u32s_at(d, o, u.len()) =~= u);
}

/// `u64` values read back from their bytes.
pub proof fn lemma_u64s_at_bytes(u: Seq<u64>, d: Seq<u8>, o: int)
    requires
        0 <= o,
        o + 8 * u.len() <= d.len(),
        d.subrange(o, o + 8 * u.len()) == u64s_bytes(u),
    ensures
        u64s_at(d, o, u.len()) == u,
{
    lemma_u64s_bytes_len(u);
    assert forall|k: int| 0 <= k < u.len() implies u64_at(d, o + 8 * k) == u[k] by {
        lemma_u64s_bytes_slice(u, k);
        assert(d.subrange(o + 8 * k, o + 8 * k + 8) =~= u64s_bytes(u).subrange(8 * k, 8 * k + 8));
        lemma_u64_at_le(u[k], d, o + 8 * k);
    }
    assert(u64s_at(d, o, u.len()) =~= u);
}

} // verus!
