//! Facts about real numbers that the laws of exact arithmetic rest on.

use vstd::prelude::*;

verus! {

/// Dividing is multiplying by the inverse.
pub proof fn lemma_quotient(a: real, b: real)
    requires
        b != 0real,
    ensures
        b * (1real / b) == 1real,
        a / b == a * (1real / b),
{
    assert(b * (1real / b) == 1real) by (nonlinear_arith)
        requires
            b != 0real,
    ;
    assert(a / b == a * (1real / b)) by (nonlinear_arith)
        requires
            b != 0real,
    ;
}

/// The inverse of a product is the product of the inverses.
pub proof fn lemma_inverse_of_product(a: real, b: real)
    requires
        a != 0real,
        b != 0real,
    ensures
        a * b != 0real,
        1real / (a * b) == (1real / a) * (1real / b),
{
    assert(a * b != 0real) by (nonlinear_arith)
        requires
            a != 0real,
            b != 0real,
    ;
    let ia = 1real / a;
    let ib = 1real / b;
    lemma_quotient(1real, a);
    lemma_quotient(1real, b);
    assert((a * b) * (ia * ib) == (a * ia) * (b * ib)) by (nonlinear_arith);
    assert((a * b) * (ia * ib) == 1real) by (nonlinear_arith)
        requires
            (a * b) * (ia * ib) == (a * ia) * (b * ib),
            a * ia == 1real,
            b * ib == 1real,
    ;
    lemma_inverse_is_unique(a * b, ia * ib);
}

/// What multiplies `a` to one is the inverse of `a`.
pub proof fn lemma_inverse_is_unique(a: real, i: real)
    requires
        a * i == 1real,
    ensures
        a != 0real,
        i == 1real / a,
{
    assert(a != 0real) by (nonlinear_arith)
        requires
            a * i == 1real,
    ;
    assert(i == 1real / a) by (nonlinear_arith)
        requires
            a * i == 1real,
            a != 0real,
    ;
}

/// A factor can change places with the one beside it.
pub proof fn lemma_swap_factor(a: real, b: real, c: real)
    ensures
        (a * b) * c == (a * c) * b,
{
    assert((a * b) * c == (a * c) * b) by (nonlinear_arith);
}

/// How `z + (t² + e) q` grows when `t` grows by one.
pub proof fn lemma_next_square(z: real, t: real, e: real, q: real)
    ensures
        z + ((t + 1real) * (t + 1real) + e) * q == (z + (t * t + e) * q) + (2real * t + 1real)
            * q,
{
    assert(z + ((t + 1real) * (t + 1real) + e) * q == (z + (t * t + e) * q) + (2real * t
        + 1real) * q) by (nonlinear_arith);
}

/// A product of a sum is the sum of the products.
pub proof fn lemma_spread(p: real, x: real, d: real, i: real)
    ensures
        (p * (x + d)) * i == (p * x) * i + (p * i) * d,
{
    assert((p * (x + d)) * i == (p * x) * i + (p * i) * d) by (nonlinear_arith);
}

/// A plain factor can be taken out of a product.
pub proof fn lemma_factor_out(a: real, h: real, b: real)
    ensures
        a * (h * b) == h * (a * b),
        (h * a) * b == h * (a * b),
{
    assert(a * (h * b) == h * (a * b)) by (nonlinear_arith);
    assert((h * a) * b == h * (a * b)) by (nonlinear_arith);
}

/// A product with `2 (c - x) + 1`, term by term.
pub proof fn lemma_odd_multiple(k: real, c: real, x: real)
    ensures
        k * (2real * (c - x) + 1real) == 2real * (k * c) - 2real * (k * x) + k,
{
    assert(k * (2real * (c - x) + 1real) == 2real * (k * c) - 2real * (k * x) + k)
        by (nonlinear_arith);
}

/// Four factors, paired the other way.
pub proof fn lemma_regroup(p: real, i: real, w: real, j: real)
    ensures
        (p * i) * (w * j) == (p * (i * j)) * w,
{
    assert((p * i) * (w * j) == (p * (i * j)) * w) by (nonlinear_arith);
}

/// The order of two factors does not matter.
pub proof fn lemma_commute(a: real, b: real)
    ensures
        a * b == b * a,
{
    assert(a * b == b * a) by (nonlinear_arith);
}

/// A number and its negative have the same square.
pub proof fn lemma_square_of_negative(a: real)
    ensures
        (0real - a) * (0real - a) == a * a,
{
    assert((0real - a) * (0real - a) == a * a) by (nonlinear_arith);
}

/// A square is not negative, and the square of a difference does not depend
/// on the order of the two numbers.
pub proof fn lemma_square(a: real, b: real)
    ensures
        a * a >= 0real,
        (a - b) * (a - b) == (b - a) * (b - a),
{
    assert(a * a >= 0real) by (nonlinear_arith);
    assert((a - b) * (a - b) == (b - a) * (b - a)) by (nonlinear_arith);
}

/// Two numbers that are not negative and have the same square are the same.
pub proof fn lemma_root_is_unique(r: real, s: real)
    requires
        r >= 0real,
        s >= 0real,
        r * r == s * s,
    ensures
        r == s,
{
    assert(r == s) by (nonlinear_arith)
        requires
            r >= 0real,
            s >= 0real,
            r * r == s * s,
    ;
}

/// A part of `n` is less than `n`.
pub proof fn lemma_part(f: real, n: real)
    requires
        0real <= f < 1real,
        n > 0real,
    ensures
        0real <= f * n < n,
{
    assert(0real <= f * n < n) by (nonlinear_arith)
        requires
            0real <= f < 1real,
            n > 0real,
    ;
}

} // verus!
