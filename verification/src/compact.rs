//! The number behind the compact form of a target.

use crate::extranonce::{be_bytes, be_value, fits, lemma_be_bytes_len, lemma_be_round_trip, pow256};
use crate::target::Target;
use vstd::arithmetic::div_mod::{
    lemma_basic_div, lemma_breakdown, lemma_div_by_multiple, lemma_div_denominator,
    lemma_div_multiples_vanish_fancy, lemma_mod_mod, lemma_mod_multiples_basic,
};
use vstd::prelude::*;

verus! {

/// The number that a compact target stands for, before it is cut to 32
/// bytes: the mantissa times 256 to the power `exponent - 3`, rounded down.
/// A mantissa with its top bit set stands for zero.
pub open spec fn compact_value(nbits: u32) -> nat {
    if Target::compact_mantissa(nbits) > 0x7f_ffff {
        0
    } else {
        Target::compact_mantissa(nbits) * pow256(Target::compact_exponent(nbits) as nat) / pow256(
            3,
        )
    }
}

/// The digit of weight 256 to the power `pos` in `v`.
pub open spec fn digit(v: nat, pos: nat) -> nat {
    (v / pow256(pos)) % 256
}

/// Powers of 256 multiply as their exponents add.
pub proof fn lemma_pow256_add(a: nat, b: nat)
    ensures
        pow256(a + b) == pow256(a) * pow256(b),
        pow256(a) >= 1,
    decreases a,
{
    if a == 0 {
        assert(pow256(0) == 1);
        assert(1 * pow256(b) == pow256(b)) by (nonlinear_arith);
    } else {
        let x = pow256((a - 1) as nat);
        let y = pow256(b);
        lemma_pow256_add((a - 1) as nat, b);
        assert(((a + b) - 1) as nat == ((a - 1) as nat) + b);
        assert(pow256(a + b) == 256 * pow256(((a + b) - 1) as nat));
        assert(pow256(a) == 256 * x);
        assert(256 * (x * y) == (256 * x) * y) by (nonlinear_arith);
    }
}

/// A larger exponent gives no smaller power.
pub proof fn lemma_pow256_grows(a: nat, b: nat)
    requires
        a <= b,
    ensures
        pow256(a) <= pow256(b),
{
    lemma_pow256_add(a, (b - a) as nat);
    lemma_pow256_add((b - a) as nat, 0);
    assert(pow256(a) * pow256((b - a) as nat) >= pow256(a)) by (nonlinear_arith)
        requires
            pow256((b - a) as nat) >= 1,
    ;
}

/// What is below 256 to the power `len` can be written in `len` bytes.
pub proof fn lemma_fits_below_pow(v: nat, len: nat)
    requires
        v < pow256(len),
    ensures
        fits(v, len),
    decreases len,
{
    if len > 0 {
        lemma_fits_below_pow(v / 256, (len - 1) as nat);
    }
}

/// The byte at index `i` of a number written in `len` bytes is its digit of
/// weight 256 to the power `len - 1 - i`.
pub proof fn lemma_be_bytes_digit(v: nat, len: nat, i: int)
    requires
        0 <= i < len,
    ensures
        be_bytes(v, len)[i] == digit(v, (len - 1 - i) as nat) as u8,
    decreases len,
{
    let rest = be_bytes(v / 256, (len - 1) as nat);
    lemma_be_bytes_len(v / 256, (len - 1) as nat);
    if i == len - 1 {
        assert(pow256(0) == 1);
    } else {
        let k = (len - 2 - i) as nat;
        lemma_be_bytes_digit(v / 256, (len - 1) as nat, i);
        lemma_pow256_add(k, 0);
        lemma_div_denominator(v as int, 256, pow256(k) as int);
        assert(pow256(k + 1) == 256 * pow256(k));
    }
}

/// Cutting a number to 32 bytes keeps its 32 lowest digits.
pub proof fn lemma_digit_of_cut(v: nat, pos: nat)
    requires
        pos < 32,
    ensures
        digit(v % pow256(32), pos) == digit(v, pos),
{
    let y = pow256(pos) as int;
    let w = pow256((31 - pos) as nat) as int;
    let z = 256 * w;
    lemma_pow256_add(pos, (32 - pos) as nat);
    lemma_pow256_add((31 - pos) as nat, 0);
    assert(pow256((32 - pos) as nat) == 256 * pow256((31 - pos) as nat));
    lemma_breakdown(v as int, y, z);
    let x = (v as int) / y;
    assert(v as int % (y * z) == y * (x % z) + v as int % y);
    lemma_div_multiples_vanish_fancy(x % z, v as int % y, y);
    assert((v as int % (y * z)) / y == x % z);
    lemma_mod_mod(x, 256, w);
    assert((x % z) % 256 == x % 256);
}

/// The digits of the number behind a compact target are its bytes.
pub proof fn lemma_compact_digit(nbits: u32, pos: nat)
    requires
        Target::compact_mantissa(nbits) <= 0x7f_ffff,
    ensures
        digit(compact_value(nbits), pos) == Target::compact_byte(nbits, pos as int),
{
    let m = Target::compact_mantissa(nbits) as int;
    let e = Target::compact_exponent(nbits) as nat;
    let big = compact_value(nbits) as int;
    let p3 = pow256(3) as int;
    let pp = pow256(pos) as int;
    lemma_pow256_add(3, 0);
    lemma_pow256_add(pos, 0);
    lemma_pow256_add(e, 0);
    assert(p3 == 16777216) by {
        reveal_with_fuel(pow256, 4);
    }
    if e >= 3 {
        let a = pow256((e - 3) as nat) as int;
        lemma_pow256_add((e - 3) as nat, 3);
        lemma_pow256_add((e - 3) as nat, 0);
        assert(m * (a * p3) == (m * a) * p3) by (nonlinear_arith);
        assert(m * a >= 0) by (nonlinear_arith)
            requires
                m >= 0,
                a >= 1,
        ;
        lemma_div_by_multiple(m * a, p3);
        assert(big == m * a);
        if pos + 3 >= e {
            let k = (pos + 3 - e) as nat;
            let b = pow256(k) as int;
            lemma_pow256_add((e - 3) as nat, k);
            lemma_pow256_add(k, 0);
            assert(pp == a * b);
            assert(m * a == a * m) by (nonlinear_arith);
            lemma_div_denominator(m * a, a, b);
            lemma_div_by_multiple(m, a);
            assert(big / pp == m / b);
            if k > 2 {
                lemma_pow256_grows(3, k);
                lemma_basic_div(m, b);
            }
        } else {
            let c = pow256((e - 4 - pos) as nat) as int;
            lemma_pow256_add(pos, (e - 3 - pos) as nat);
            lemma_pow256_add((e - 4 - pos) as nat, 0);
            assert(pow256((e - 3 - pos) as nat) == 256 * c);
            assert(a == pp * (256 * c));
            assert(m * (pp * (256 * c)) == ((m * c) * 256) * pp) by (nonlinear_arith);
            assert((m * c) * 256 >= 0) by (nonlinear_arith)
                requires
                    m >= 0,
                    c >= 1,
            ;
            lemma_div_by_multiple((m * c) * 256, pp);
            lemma_mod_multiples_basic(m * c, 256);
        }
    } else {
        let a = pow256(e) as int;
        let b = pow256((3 - e) as nat) as int;
        let k = (pos + 3 - e) as nat;
        lemma_pow256_add(e, (3 - e) as nat);
        lemma_pow256_add((3 - e) as nat, pos);
        lemma_pow256_add((3 - e) as nat, 0);
        lemma_pow256_add(k, 0);
        assert(p3 == a * b);
        assert(m * a >= 0) by (nonlinear_arith)
            requires
                m >= 0,
                a >= 1,
        ;
        lemma_div_denominator(m * a, a, b);
        lemma_div_by_multiple(m, a);
        assert(big == m / b);
        lemma_div_denominator(m, b, pp);
        assert(pow256(k) == b * pp);
        assert(big / pp == m / (pow256(k) as int));
        if k > 2 {
            lemma_pow256_grows(3, k);
            lemma_basic_div(m, pow256(k) as int);
        }
    }
}

/// The target that a compact target stands for is the number
/// `mantissa * 256^(exponent - 3)`, rounded down and cut to 32 bytes.
pub proof fn lemma_compact_target_value(nbits: u32)
    ensures
        be_value(Target::spec_from_compact(nbits)) == compact_value(nbits) % pow256(32),
        Target::spec_from_compact(nbits) == be_bytes(compact_value(nbits) % pow256(32), 32),
{
    let s = Target::spec_from_compact(nbits);
    lemma_pow256_add(32, 0);
    let v = compact_value(nbits) % pow256(32);
    lemma_be_bytes_len(v, 32);
    assert forall|i: int| 0 <= i < 32 implies s[i] == be_bytes(v, 32)[i] by {
        let pos = (31 - i) as nat;
        lemma_be_bytes_digit(v, 32, i);
        lemma_digit_of_cut(compact_value(nbits), pos);
        if Target::compact_mantissa(nbits) <= 0x7f_ffff {
            lemma_compact_digit(nbits, pos);
        } else {
            lemma_pow256_add(pos, 0);
            lemma_basic_div(0, pow256(pos) as int);
        }
    }
    assert(s =~= be_bytes(v, 32));
    lemma_fits_below_pow(v, 32);
    lemma_be_round_trip(v, 32);
}

} // verus!
