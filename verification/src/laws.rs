//! Algebraic laws of the vector operations, stated over their models.

use crate::error::{CrossError, DotError};
use crate::vector::{
    add_spec,
    cross_outcome,
    cross_spec,
    dot_outcome,
    dot_spec,
    negate_spec,
    partial_dot,
    subtract_spec,
};
use vstd::prelude::*;

verus! {

/// Subtraction is addition of the negation, at every pair of lengths: what
/// subtraction does past the end of the shorter operand is what addition
/// does there to `x` and the negated `y`.
pub proof fn law_subtract_is_add_of_negation(x: Seq<int>, y: Seq<int>)
    ensures
        subtract_spec(x, y) == add_spec(x, negate_spec(y)),
{
    assert(subtract_spec(x, y) =~= add_spec(x, negate_spec(y)));
}

/// The first `n` pairwise products sum to the same value in either order of
/// the operands.
proof fn lemma_partial_dot_commutative(a: Seq<int>, b: Seq<int>, n: nat)
    ensures
        partial_dot(a, b, n) == partial_dot(b, a, n),
    decreases n,
{
    if n > 0 {
        lemma_partial_dot_commutative(a, b, (n - 1) as nat);
        assert(a[n - 1] * b[n - 1] == b[n - 1] * a[n - 1]) by (nonlinear_arith);
    }
}

/// The dot product is commutative: exchanging the operands changes neither
/// the value nor the failure.
pub proof fn law_dot_commutative(a: Seq<int>, b: Seq<int>)
    ensures
        dot_outcome(a, b) == dot_outcome(b, a),
{
    if a.len() == b.len() {
        lemma_partial_dot_commutative(a, b, a.len());
    }
}

/// Over the first `n` positions, all of them shared by `b` and `c`, the dot
/// product with the sum is the sum of the dot products.
proof fn lemma_partial_dot_distributes(a: Seq<int>, b: Seq<int>, c: Seq<int>, n: nat)
    requires
        n <= b.len(),
        n <= c.len(),
    ensures
        partial_dot(a, add_spec(b, c), n) == partial_dot(a, b, n) + partial_dot(a, c, n),
    decreases n,
{
    if n > 0 {
        lemma_partial_dot_distributes(a, b, c, (n - 1) as nat);
        let x = a[n - 1];
        let y = b[n - 1];
        let z = c[n - 1];
        assert(add_spec(b, c)[n - 1] == y + z);
        assert(x * (y + z) == x * y + x * z) by (nonlinear_arith);
    }
}

/// The dot product distributes over the sum of two vectors of one length:
/// `a . (b + c) == a . b + a . c`. It holds in particular of
/// three-dimensional vectors.
pub proof fn law_dot_distributes_over_add(a: Seq<int>, b: Seq<int>, c: Seq<int>)
    requires
        a.len() == b.len(),
        b.len() == c.len(),
    ensures
        dot_spec(a, add_spec(b, c)) == dot_spec(a, b) + dot_spec(a, c),
        a.len() > 0 ==> dot_outcome(a, add_spec(b, c)) == Ok::<int, DotError>(
            dot_spec(a, b) + dot_spec(a, c),
        ),
{
    lemma_partial_dot_distributes(a, b, c, a.len());
}

/// The cross product of a three-dimensional vector with itself is the zero
/// vector.
pub proof fn law_cross_self_is_zero(a: Seq<int>)
    requires
        a.len() == 3,
    ensures
        cross_outcome(a, a) == Ok::<Seq<int>, CrossError>(seq![0int, 0int, 0int]),
{
    assert(a[1] * a[2] - a[2] * a[1] == 0) by (nonlinear_arith);
    assert(a[2] * a[0] - a[0] * a[2] == 0) by (nonlinear_arith);
    assert(a[0] * a[1] - a[1] * a[0] == 0) by (nonlinear_arith);
    assert(cross_spec(a, a) =~= seq![0int, 0int, 0int]);
}

/// The cross product is anticommutative: `a x b == -(b x a)` for
/// three-dimensional vectors.
pub proof fn law_cross_anticommutative(a: Seq<int>, b: Seq<int>)
    requires
        a.len() == 3,
        b.len() == 3,
    ensures
        cross_spec(a, b) == negate_spec(cross_spec(b, a)),
        cross_outcome(a, b) == Ok::<Seq<int>, CrossError>(negate_spec(cross_spec(b, a))),
{
    assert(a[1] * b[2] - a[2] * b[1] == -(b[1] * a[2] - b[2] * a[1])) by (nonlinear_arith);
    assert(a[2] * b[0] - a[0] * b[2] == -(b[2] * a[0] - b[0] * a[2])) by (nonlinear_arith);
    assert(a[0] * b[1] - a[1] * b[0] == -(b[0] * a[1] - b[1] * a[0])) by (nonlinear_arith);
    assert(cross_spec(a, b) =~= negate_spec(cross_spec(b, a)));
}

/// A scalar times a two-by-two determinant, written as two products of
/// three factors.
proof fn lemma_scaled_determinant(x: int, p: int, q: int, r: int, s: int)
    ensures
        x * (p * q - r * s) == x * p * q - x * r * s,
{
    assert(x * (p * q - r * s) == x * (p * q) - x * (r * s)) by (nonlinear_arith);
    assert(x * (p * q) == x * p * q) by (nonlinear_arith);
    assert(x * (r * s) == x * r * s) by (nonlinear_arith);
}

/// A product of three factors does not depend on their order.
proof fn lemma_product_order(x: int, y: int, z: int)
    ensures
        x * y * z == y * z * x,
        x * y * z == z * x * y,
{
    assert(x * y * z == y * z * x) by (nonlinear_arith);
    assert(x * y * z == z * x * y) by (nonlinear_arith);
}

/// The sum over the three cyclic arrangements of `a`, `b`, `c` of one
/// component of the double cross product is zero. The component is given by
/// the two coordinates `i` and `j` that it is built from, and `k`, the third.
proof fn lemma_jacobi_component(a: Seq<int>, b: Seq<int>, c: Seq<int>, i: int, j: int, k: int)
    requires
        a.len() == 3,
        b.len() == 3,
        c.len() == 3,
        0 <= i < 3,
        0 <= j < 3,
        0 <= k < 3,
    ensures
        (a[i] * (b[k] * c[i] - b[i] * c[k]) - a[j] * (b[j] * c[k] - b[k] * c[j])) + (b[i] * (c[k]
            * a[i] - c[i] * a[k]) - b[j] * (c[j] * a[k] - c[k] * a[j])) + (c[i] * (a[k] * b[i]
            - a[i] * b[k]) - c[j] * (a[j] * b[k] - a[k] * b[j])) == 0,
{
    lemma_scaled_determinant(a[i], b[k], c[i], b[i], c[k]);
    lemma_scaled_determinant(a[j], b[j], c[k], b[k], c[j]);
    lemma_scaled_determinant(b[i], c[k], a[i], c[i], a[k]);
    lemma_scaled_determinant(b[j], c[j], a[k], c[k], a[j]);
    lemma_scaled_determinant(c[i], a[k], b[i], a[i], b[k]);
    lemma_scaled_determinant(c[j], a[j], b[k], a[k], b[j]);
    lemma_product_order(a[i], b[k], c[i]);
    lemma_product_order(a[i], b[i], c[k]);
    lemma_product_order(a[j], b[j], c[k]);
    lemma_product_order(a[j], b[k], c[j]);
    lemma_product_order(a[k], b[i], c[i]);
    lemma_product_order(a[k], b[j], c[j]);
}

/// The cross product satisfies the Jacobi identity: for three-dimensional
/// vectors, `a x (b x c) + b x (c x a) + c x (a x b)` is the zero vector.
pub proof fn law_cross_jacobi(a: Seq<int>, b: Seq<int>, c: Seq<int>)
    requires
        a.len() == 3,
        b.len() == 3,
        c.len() == 3,
    ensures
        add_spec(
            add_spec(cross_spec(a, cross_spec(b, c)), cross_spec(b, cross_spec(c, a))),
            cross_spec(c, cross_spec(a, b)),
        ) == seq![0int, 0int, 0int],
{
    let first = cross_spec(a, cross_spec(b, c));
    let second = cross_spec(b, cross_spec(c, a));
    let third = cross_spec(c, cross_spec(a, b));
    let total = add_spec(add_spec(first, second), third);
    assert(total[0] == first[0] + second[0] + third[0]);
    assert(total[1] == first[1] + second[1] + third[1]);
    assert(total[2] == first[2] + second[2] + third[2]);
    lemma_jacobi_component(a, b, c, 1, 2, 0);
    lemma_jacobi_component(a, b, c, 2, 0, 1);
    lemma_jacobi_component(a, b, c, 0, 1, 2);
    assert(total =~= seq![0int, 0int, 0int]);
}

} // verus!
