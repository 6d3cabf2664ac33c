//! Exact arithmetic on integer vectors.
//!
//! A vector is an ordered sequence of signed machine integers. Its model is
//! the sequence of the mathematical integers it holds, and each operation is
//! specified by a function on such sequences. No operation changes its
//! operands; each returns a fresh vector.

use crate::congruence::{
    congruent,
    lemma_congruent_add,
    lemma_congruent_representable,
    lemma_congruent_sub,
    lemma_wrapping_add_congruent,
    lemma_wrapping_mul_congruent,
    lemma_wrapping_sub_congruent,
};
use crate::error::{CrossError, DotError};
use vstd::prelude::*;

verus! {

/// The sequence of mathematical integers that a vector holds.
pub open spec fn ints(v: Seq<isize>) -> Seq<int> {
    Seq::new(v.len(), |i: int| v[i] as int)
}

/// Every element can be stored in a machine integer.
pub open spec fn representable(v: Seq<int>) -> bool {
    forall|i: int| 0 <= i < v.len() ==> isize::MIN <= #[trigger] v[i] <= isize::MAX
}

/// The sum of two vectors. Where both have an element the elements are
/// added; past the end of the shorter one the longer one's elements are
/// carried over unchanged.
pub open spec fn add_spec(x: Seq<int>, y: Seq<int>) -> Seq<int> {
    Seq::new(
        if x.len() > y.len() { x.len() } else { y.len() },
        |i: int|
            if i < x.len() && i < y.len() {
                x[i] + y[i]
            } else if i < x.len() {
                x[i]
            } else {
                y[i]
            },
    )
}

/// Adds two vectors, which may differ in length.
pub fn add(x: &Vec<isize>, y: &Vec<isize>) -> (result: Vec<isize>)
    requires
        representable(add_spec(ints(x@), ints(y@))),
    ensures
        ints(result@) == add_spec(ints(x@), ints(y@)),
{
    let length: usize = if x.len() > y.len() { x.len() } else { y.len() };
    let ghost model = add_spec(ints(x@), ints(y@));
    let mut result: Vec<isize> = Vec::with_capacity(length);
    let mut i: usize = 0;
    while i < length
        invariant
            i <= length,
            length == model.len(),
            model == add_spec(ints(x@), ints(y@)),
            representable(model),
            result.len() == i,
            forall|k: int| 0 <= k < i ==> result[k] == model[k],
        decreases length - i,
    {
        assert(isize::MIN <= model[i as int] <= isize::MAX);
        let element: isize = if i < x.len() && i < y.len() {
            x[i] + y[i]
        } else if i < x.len() {
            x[i]
        } else {
            y[i]
        };
        result.push(element);
        i += 1;
    }
    assert(ints(result@) =~= model);
    result
}

/// The difference of two vectors. Where both have an element the elements
/// are subtracted. Past the end of the shorter one, the elements of a longer
/// `x` are carried over unchanged and those of a longer `y` are negated.
pub open spec fn subtract_spec(x: Seq<int>, y: Seq<int>) -> Seq<int> {
    Seq::new(
        if x.len() > y.len() { x.len() } else { y.len() },
        |i: int|
            if i < x.len() && i < y.len() {
                x[i] - y[i]
            } else if i < x.len() {
                x[i]
            } else {
                -y[i]
            },
    )
}

/// The element-wise negation of a vector.
pub open spec fn negate_spec(x: Seq<int>) -> Seq<int> {
    Seq::new(x.len(), |i: int| -x[i])
}

/// Subtracts `y` from `x`; the two may differ in length.
pub fn subtract(x: &Vec<isize>, y: &Vec<isize>) -> (result: Vec<isize>)
    requires
        representable(subtract_spec(ints(x@), ints(y@))),
    ensures
        ints(result@) == subtract_spec(ints(x@), ints(y@)),
{
    let length: usize = if x.len() > y.len() { x.len() } else { y.len() };
    let ghost model = subtract_spec(ints(x@), ints(y@));
    let mut result: Vec<isize> = Vec::with_capacity(length);
    let mut i: usize = 0;
    while i < length
        invariant
            i <= length,
            length == model.len(),
            model == subtract_spec(ints(x@), ints(y@)),
            representable(model),
            result.len() == i,
            forall|k: int| 0 <= k < i ==> result[k] == model[k],
        decreases length - i,
    {
        assert(isize::MIN <= model[i as int] <= isize::MAX);
        let element: isize = if i < x.len() && i < y.len() {
            x[i] - y[i]
        } else if i < x.len() {
            x[i]
        } else {
            -y[i]
        };
        result.push(element);
        i += 1;
    }
    assert(ints(result@) =~= model);
    result
}

/// Negates every element of a vector.
pub fn negate(x: &Vec<isize>) -> (result: Vec<isize>)
    requires
        representable(negate_spec(ints(x@))),
    ensures
        ints(result@) == negate_spec(ints(x@)),
{
    let ghost model = negate_spec(ints(x@));
    let mut result: Vec<isize> = Vec::with_capacity(x.len());
    let mut i: usize = 0;
    while i < x.len()
        invariant
            i <= x.len(),
            model == negate_spec(ints(x@)),
            representable(model),
            result.len() == i,
            forall|k: int| 0 <= k < i ==> result[k] == model[k],
        decreases x.len() - i,
    {
        assert(isize::MIN <= model[i as int] <= isize::MAX);
        result.push(-x[i]);
        i += 1;
    }
    assert(ints(result@) =~= model);
    result
}

/// The sum of the first `n` pairwise products of two vectors.
pub open spec fn partial_dot(a: Seq<int>, b: Seq<int>, n: nat) -> int
    decreases n,
{
    if n == 0 {
        0
    } else {
        partial_dot(a, b, (n - 1) as nat) + a[n - 1] * b[n - 1]
    }
}

/// The sum of all pairwise products of two vectors of one length.
pub open spec fn dot_spec(a: Seq<int>, b: Seq<int>) -> int {
    partial_dot(a, b, a.len())
}

/// What a dot product yields: the length mismatch is reported first, then
/// emptiness, and otherwise the sum of the pairwise products.
pub open spec fn dot_outcome(a: Seq<int>, b: Seq<int>) -> Result<int, DotError> {
    if a.len() != b.len() {
        Err(DotError::UnequalLength)
    } else if a.len() == 0 {
        Err(DotError::EmptyVector)
    } else {
        Ok(dot_spec(a, b))
    }
}

/// Computes the dot product of two vectors.
///
/// Only the product itself has to be representable. The sum is accumulated
/// with wrapping operations, which are exact modulo the machine word, so an
/// intermediate value that leaves the machine range does no harm.
pub fn dot(a: &Vec<isize>, b: &Vec<isize>) -> (result: Result<isize, DotError>)
    requires
        dot_outcome(ints(a@), ints(b@)) matches Ok(value) ==> isize::MIN <= value <= isize::MAX,
    ensures
        match result {
            Ok(value) => dot_outcome(ints(a@), ints(b@)) == Ok::<int, DotError>(value as int),
            Err(error) => dot_outcome(ints(a@), ints(b@)) == Err::<int, DotError>(error),
        },
{
    if a.len() != b.len() {
        return Err(DotError::UnequalLength);
    }
    if a.len() == 0 {
        return Err(DotError::EmptyVector);
    }
    let mut sum: isize = 0;
    let mut i: usize = 0;
    while i < a.len()
        invariant
            i <= a.len(),
            a.len() == b.len(),
            congruent(sum as int, partial_dot(ints(a@), ints(b@), i as nat)),
        decreases a.len() - i,
    {
        let product: isize = a[i].wrapping_mul(b[i]);
        let next: isize = sum.wrapping_add(product);
        proof {
            let exact = partial_dot(ints(a@), ints(b@), i as nat);
            lemma_wrapping_mul_congruent(a[i as int], b[i as int]);
            lemma_wrapping_add_congruent(sum, product);
            lemma_congruent_add(sum as int, exact, product as int, a[i as int] * b[i as int]);
        }
        sum = next;
        i += 1;
    }
    proof {
        lemma_congruent_representable(sum as int, dot_spec(ints(a@), ints(b@)));
    }
    Ok(sum)
}

/// The cross product of two three-dimensional vectors.
pub open spec fn cross_spec(a: Seq<int>, b: Seq<int>) -> Seq<int> {
    seq![a[1] * b[2] - a[2] * b[1], a[2] * b[0] - a[0] * b[2], a[0] * b[1] - a[1] * b[0]]
}

/// What a cross product yields: emptiness is reported first, then a length
/// other than three, and otherwise the product.
pub open spec fn cross_outcome(a: Seq<int>, b: Seq<int>) -> Result<Seq<int>, CrossError> {
    if a.len() == 0 || b.len() == 0 {
        Err(CrossError::EmptyVector)
    } else if a.len() != 3 || b.len() != 3 {
        Err(CrossError::NotThreeDimensional)
    } else {
        Ok(cross_spec(a, b))
    }
}

/// Computes `p * q - r * s` where that value is representable, whatever the
/// size of the two products.
fn product_difference(p: isize, q: isize, r: isize, s: isize) -> (value: isize)
    requires
        isize::MIN <= p * q - r * s <= isize::MAX,
    ensures
        value == p * q - r * s,
{
    let left: isize = p.wrapping_mul(q);
    let right: isize = r.wrapping_mul(s);
    let value: isize = left.wrapping_sub(right);
    proof {
        lemma_wrapping_mul_congruent(p, q);
        lemma_wrapping_mul_congruent(r, s);
        lemma_wrapping_sub_congruent(left, right);
        lemma_congruent_sub(left as int, p * q, right as int, r * s);
        lemma_congruent_representable(value as int, p * q - r * s);
    }
    value
}

/// Computes the cross product of two three-dimensional vectors.
pub fn cross(a: &Vec<isize>, b: &Vec<isize>) -> (result: Result<Vec<isize>, CrossError>)
    requires
        cross_outcome(ints(a@), ints(b@)) matches Ok(value) ==> representable(value),
    ensures
        match result {
            Ok(value) => cross_outcome(ints(a@), ints(b@)) == Ok::<Seq<int>, CrossError>(
                ints(value@),
            ),
            Err(error) => cross_outcome(ints(a@), ints(b@)) == Err::<Seq<int>, CrossError>(error),
        },
{
    if a.len() == 0 || b.len() == 0 {
        return Err(CrossError::EmptyVector);
    }
    if a.len() != 3 || b.len() != 3 {
        return Err(CrossError::NotThreeDimensional);
    }
    let ghost model = cross_spec(ints(a@), ints(b@));
    assert(isize::MIN <= model[0] <= isize::MAX);
    assert(isize::MIN <= model[1] <= isize::MAX);
    assert(isize::MIN <= model[2] <= isize::MAX);
    let s1: isize = product_difference(a[1], b[2], a[2], b[1]);
    let s2: isize = product_difference(a[2], b[0], a[0], b[2]);
    let s3: isize = product_difference(a[0], b[1], a[1], b[0]);
    let mut value: Vec<isize> = Vec::with_capacity(3);
    value.push(s1);
    value.push(s2);
    value.push(s3);
    assert(ints(value@) =~= model);
    Ok(value)
}

/// The square of the Euclidean norm of a vector: the sum of the squares of
/// its elements.
pub open spec fn squared_magnitude_spec(x: Seq<int>) -> int {
    dot_spec(x, x)
}

/// A sum of squares grows with the number of squares it holds, from zero.
proof fn lemma_partial_squares_increase(x: Seq<int>, n: nat, m: nat)
    requires
        n <= m,
    ensures
        0 <= partial_dot(x, x, n) <= partial_dot(x, x, m),
    decreases m,
{
    if m > 0 {
        let last = x[m - 1];
        assert(0 <= last * last) by (nonlinear_arith);
        if n < m {
            lemma_partial_squares_increase(x, n, (m - 1) as nat);
        } else {
            lemma_partial_squares_increase(x, (n - 1) as nat, (m - 1) as nat);
        }
    }
}

/// Computes the square of the Euclidean norm in a wide accumulator, or
/// reports that it exceeds even that. The norm itself is the square root of
/// this value.
pub fn squared_magnitude(x: &Vec<isize>) -> (result: Option<u128>)
    ensures
        match result {
            Some(value) => value == squared_magnitude_spec(ints(x@)),
            None => squared_magnitude_spec(ints(x@)) > u128::MAX,
        },
{
    let mut sum: u128 = 0;
    let mut i: usize = 0;
    while i < x.len()
        invariant
            i <= x.len(),
            sum == partial_dot(ints(x@), ints(x@), i as nat),
        decreases x.len() - i,
    {
        let element: i128 = x[i] as i128;
        assert(0 <= element * element <= 0x4000_0000_0000_0000_0000_0000_0000_0000)
            by (nonlinear_arith)
            requires
                -0x8000_0000_0000_0000 <= element <= 0x7fff_ffff_ffff_ffff,
        ;
        let square: u128 = (element * element) as u128;
        match sum.checked_add(square) {
            Some(next) => {
                sum = next;
            },
            None => {
                proof {
                    lemma_partial_squares_increase(ints(x@), (i + 1) as nat, x@.len());
                }
                return None;
            },
        }
        i += 1;
    }
    Some(sum)
}

} // verus!
