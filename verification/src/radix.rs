//! Little-endian radix arithmetic shared by the binary codecs.
//!
//! A byte string is read as the little-endian natural number
//! `s[0] + s[1]*2^8 + s[2]*2^16 + ...`; text alphabets with wider digits use
//! the same shape with their own digit width.

use vstd::arithmetic::div_mod::*;
use vstd::arithmetic::mul::*;
use vstd::arithmetic::power2::*;
use vstd::prelude::*;

verus! {

/// Little-endian value of a byte string.
pub open spec fn bytes_le_value(s: Seq<u8>) -> nat
    decreases s.len(),
{
    if s.len() == 0 {
        0
    } else {
        bytes_le_value(s.drop_last()) + (s.last() as nat) * pow2((8 * (s.len() - 1)) as nat)
    }
}

/// The `w`-bit digit number `k` of `v` (digit 0 is the least significant).
pub open spec fn radix_digit(v: nat, w: nat, k: nat) -> nat {
    (v / pow2(w * k)) % pow2(w)
}

/// Adding a multiple of `2^e2` above the shift `e1` shifts through exactly.
pub proof fn lemma_div_pow2_add_high(a: nat, c: nat, e1: nat, e2: nat)
    requires
        e1 <= e2,
    ensures
        (a + c * pow2(e2)) / pow2(e1) == a / pow2(e1) + c * pow2((e2 - e1) as nat),
{
    let d = (e2 - e1) as nat;
    lemma_pow2_pos(e1);
    lemma_pow2_pos(d);
    lemma_pow2_adds(e1, d);
    let q = c * pow2(d);
    assert(c * pow2(e2) == q * pow2(e1)) by {
        lemma_mul_is_associative(c as int, pow2(d) as int, pow2(e1) as int);
        lemma_mul_is_commutative(pow2(d) as int, pow2(e1) as int);
    }
    lemma_hoist_over_denominator(a as int, q as int, pow2(e1));
}

/// A `w`-bit window that ends at or below `e2` does not see a term `c * 2^e2`.
pub proof fn lemma_window_ignores_high(a: nat, c: nat, e1: nat, w: nat, e2: nat)
    requires
        e1 + w <= e2,
    ensures
        ((a + c * pow2(e2)) / pow2(e1)) % pow2(w) == (a / pow2(e1)) % pow2(w),
{
    lemma_div_pow2_add_high(a, c, e1, e2);
    let g = (e2 - e1 - w) as nat;
    lemma_pow2_adds(w, g);
    lemma_pow2_pos(w);
    lemma_pow2_pos(g);
    lemma_pow2_pos(e1);
    let k = c * pow2(g);
    assert(c * pow2((e2 - e1) as nat) == pow2(w) * k) by {
        assert((e2 - e1) as nat == w + g);
        lemma_mul_is_associative(c as int, pow2(w) as int, pow2(g) as int);
        lemma_mul_is_commutative(c as int, pow2(w) as int);
        lemma_mul_is_associative(pow2(w) as int, c as int, pow2(g) as int);
    }
    lemma_div_pos_is_pos(a as int, pow2(e1) as int);
    lemma_mod_multiples_vanish(k as int, (a / pow2(e1)) as int, pow2(w) as int);
}

/// Dividing twice by powers of two is one division by their product.
pub proof fn lemma_div_div_pow2(x: nat, e1: nat, e2: nat)
    ensures
        (x / pow2(e1)) / pow2(e2) == x / pow2(e1 + e2),
{
    lemma_pow2_pos(e1);
    lemma_pow2_pos(e2);
    lemma_pow2_adds(e1, e2);
    lemma_div_denominator(x as int, pow2(e1) as int, pow2(e2) as int);
}

/// The low `e + w` bits are the low `e` bits plus the next `w`-bit window.
pub proof fn lemma_mod_pow2_split(x: nat, e: nat, w: nat)
    ensures
        x % pow2(e + w) == x % pow2(e) + ((x / pow2(e)) % pow2(w)) * pow2(e),
{
    lemma_pow2_pos(e);
    lemma_pow2_pos(w);
    lemma_pow2_adds(e, w);
    lemma_mod_breakdown(x as int, pow2(e) as int, pow2(w) as int);
    lemma_mul_is_commutative(pow2(e) as int, ((x / pow2(e)) % pow2(w)) as int);
}

/// A value below `2^e` divided by `2^e` is zero and reduced modulo `2^e` is itself.
pub proof fn lemma_small_pow2(x: nat, e: nat)
    requires
        x < pow2(e),
    ensures
        x / pow2(e) == 0,
        x % pow2(e) == x,
{
    lemma_pow2_pos(e);
    lemma_small_mod(x, pow2(e));
    lemma_basic_div(x as int, pow2(e) as int);
}

/// A value below `2^(a + b)` shifted right by `a` is below `2^b`.
pub proof fn lemma_div_pow2_bound(x: nat, a: nat, b: nat)
    requires
        x < pow2(a + b),
    ensures
        x / pow2(a) < pow2(b),
{
    lemma_pow2_pos(a);
    lemma_pow2_adds(a, b);
    lemma_multiply_divide_lt(x as int, pow2(a) as int, pow2(b) as int);
}

/// A shift by `e` leaves nothing exactly when the value is below `2^e`.
pub proof fn lemma_div_pow2_zero_iff(x: nat, e: nat)
    ensures
        (x / pow2(e) == 0) == (x < pow2(e)),
{
    lemma_pow2_pos(e);
    if x < pow2(e) {
        lemma_small_pow2(x, e);
    } else {
        lemma_div_is_ordered(pow2(e) as int, x as int, pow2(e) as int);
        lemma_div_by_self(pow2(e) as int);
    }
}

/// The value of a byte string is below `2^(8 * len)`.
pub proof fn lemma_bytes_le_value_bound(s: Seq<u8>)
    ensures
        bytes_le_value(s) < pow2(8 * s.len()),
    decreases s.len(),
{
    if s.len() == 0 {
        lemma2_to64();
    } else {
        let n = (s.len() - 1) as nat;
        lemma_bytes_le_value_bound(s.drop_last());
        lemma_pow2_adds(8 * n, 8);
        lemma2_to64();
        lemma_pow2_pos(8 * n);
        let p = pow2(8 * n);
        assert(bytes_le_value(s) < pow2(8 * s.len())) by {
            assert((s.last() as nat) * p <= 255 * p) by {
                lemma_mul_inequality(s.last() as int, 255, p as int);
            }
            assert(8 * s.len() == 8 * n + 8);
            assert(pow2(8 * n + 8) == p * 256);
        }
    }
}

/// Byte `j` of the little-endian value of `s` is `s[j]`.
pub proof fn lemma_bytes_le_value_digit(s: Seq<u8>, j: nat)
    requires
        j < s.len(),
    ensures
        radix_digit(bytes_le_value(s), 8, j) == s[j as int] as nat,
    decreases s.len(),
{
    let n = (s.len() - 1) as nat;
    let a = bytes_le_value(s.drop_last());
    lemma_bytes_le_value_bound(s.drop_last());
    lemma2_to64();
    if j < n {
        lemma_window_ignores_high(a, s.last() as nat, 8 * j, 8, 8 * n);
        lemma_bytes_le_value_digit(s.drop_last(), j);
    } else {
        lemma_div_pow2_add_high(a, s.last() as nat, 8 * n, 8 * n);
        lemma_small_pow2(a, 8 * n);
        assert(pow2(0) == 1);
        assert(s.last() as nat * pow2(0) == s.last() as nat);
        lemma_small_mod(s.last() as nat, 256);
    }
}

/// Extending a byte string by one byte adds that byte at the next position.
pub proof fn lemma_bytes_le_value_take(s: Seq<u8>, i: int)
    requires
        0 <= i < s.len(),
    ensures
        bytes_le_value(s.take(i + 1)) == bytes_le_value(s.take(i)) + (s[i] as nat) * pow2(
            (8 * i) as nat,
        ),
{
    assert(s.take(i + 1).drop_last() =~= s.take(i));
}

} // verus!
