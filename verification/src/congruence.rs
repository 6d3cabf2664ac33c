//! Arithmetic modulo the machine word.
//!
//! Wrapping addition, subtraction and multiplication compute the exact
//! result up to a multiple of the word modulus. A chain of such operations
//! therefore yields the exact result whenever that result is representable,
//! whatever the intermediate values were.

use vstd::arithmetic::div_mod::{
    lemma_add_mod_noop,
    lemma_mod_add_multiples_vanish,
    lemma_mod_bound,
    lemma_mod_equivalence,
    lemma_mod_sub_multiples_vanish,
    lemma_mod_twice,
    lemma_small_mod,
    lemma_sub_mod_noop,
};
use vstd::prelude::*;
use vstd::wrapping::isize_specs;

verus! {

/// The number of values that a machine integer can take.
pub open spec fn word_modulus() -> int {
    usize::MAX + 1
}

/// `a` and `b` differ by a multiple of the word modulus.
pub open spec fn congruent(a: int, b: int) -> bool {
    a % word_modulus() == b % word_modulus()
}

/// A wrapping product is congruent to the exact product.
pub proof fn lemma_wrapping_mul_congruent(x: isize, y: isize)
    ensures
        congruent(isize_specs::wrapping_mul(x, y) as int, x * y),
{
    let m = word_modulus();
    let z = x * y;
    lemma_mod_bound(z, m);
    lemma_mod_twice(z, m);
    lemma_mod_sub_multiples_vanish(z % m, m);
}

/// A wrapping sum is congruent to the exact sum.
pub proof fn lemma_wrapping_add_congruent(x: isize, y: isize)
    ensures
        congruent(isize_specs::wrapping_add(x, y) as int, x + y),
{
    let m = word_modulus();
    lemma_mod_sub_multiples_vanish(x + y, m);
    lemma_mod_add_multiples_vanish(x + y, m);
}

/// A wrapping difference is congruent to the exact difference.
pub proof fn lemma_wrapping_sub_congruent(x: isize, y: isize)
    ensures
        congruent(isize_specs::wrapping_sub(x, y) as int, x - y),
{
    let m = word_modulus();
    lemma_mod_sub_multiples_vanish(x - y, m);
    lemma_mod_add_multiples_vanish(x - y, m);
}

/// Congruence is kept by addition.
pub proof fn lemma_congruent_add(a: int, a_exact: int, b: int, b_exact: int)
    requires
        congruent(a, a_exact),
        congruent(b, b_exact),
    ensures
        congruent(a + b, a_exact + b_exact),
{
    let m = word_modulus();
    lemma_add_mod_noop(a, b, m);
    lemma_add_mod_noop(a_exact, b_exact, m);
}

/// Congruence is kept by subtraction.
pub proof fn lemma_congruent_sub(a: int, a_exact: int, b: int, b_exact: int)
    requires
        congruent(a, a_exact),
        congruent(b, b_exact),
    ensures
        congruent(a - b, a_exact - b_exact),
{
    let m = word_modulus();
    lemma_sub_mod_noop(a, b, m);
    lemma_sub_mod_noop(a_exact, b_exact, m);
}

/// Two representable integers that are congruent are equal.
pub proof fn lemma_congruent_representable(a: int, b: int)
    requires
        congruent(a, b),
        isize::MIN <= a <= isize::MAX,
        isize::MIN <= b <= isize::MAX,
    ensures
        a == b,
{
    let m = word_modulus();
    lemma_mod_equivalence(a, b, m);
    lemma_mod_equivalence(b, a, m);
    if a > b {
        lemma_small_mod((a - b) as nat, m as nat);
    } else if b > a {
        lemma_small_mod((b - a) as nat, m as nat);
    }
}

} // verus!
