//! The stepping rules of two iterative root finders.
//!
//! A scalar is an IEEE-754 binary64 value carried as its bit pattern. The
//! solvers never compute on a scalar: they compare bit patterns and hand them
//! to the callables that the caller supplies. Those are the function whose
//! root is sought (with its derivative, for Newton-Raphson) and the update
//! formula, which holds all the arithmetic. What is fixed here is the
//! control: what is evaluated where, how many refinements a budget allows,
//! when a run stops early, and when it fails.
//!
//! Each solver has two descriptions. The first holds of any callables: the
//! result is the end of a record of refinements, each made from values that
//! the callables returned. The second holds of callables that behave as
//! functions: the result is then the value of a recursive definition.

use crate::error::NewtonError;
use std::convert::Infallible;
use vstd::prelude::*;

verus! {

/// The bit pattern of positive infinity, the one derivative value that makes
/// a Newton step fail. No other value does: a derivative of zero is handed
/// on to the update like any other.
pub const POSITIVE_INFINITY: u64 = 0x7ff0_0000_0000_0000;

/// The number of refinements that a budget allows. A budget that is
/// negative allows none; a budget of zero still allows one.
pub open spec fn allowance(budget: isize) -> nat {
    if budget < 0 {
        0
    } else {
        (budget + 1) as nat
    }
}

/// `callable` behaves as the function `model`: whatever it returns on an
/// input is the model's value there.
pub open spec fn computes<F: Fn(u64) -> u64>(callable: F, model: spec_fn(u64) -> u64) -> bool {
    forall|x: u64, y: u64| callable.ensures((x,), y) ==> y == model(x)
}

/// `callable` behaves as the function `model` of three arguments.
pub open spec fn computes3<F: Fn(u64, u64, u64) -> u64>(
    callable: F,
    model: spec_fn(u64, u64, u64) -> u64,
) -> bool {
    forall|a: u64, b: u64, c: u64, y: u64| callable.ensures((a, b, c), y) ==> y == model(a, b, c)
}

/// `callable` behaves as the function `model` of four arguments.
pub open spec fn computes4<F: Fn(u64, u64, u64, u64) -> u64>(
    callable: F,
    model: spec_fn(u64, u64, u64, u64) -> u64,
) -> bool {
    forall|a: u64, b: u64, c: u64, d: u64, y: u64|
        callable.ensures((a, b, c, d), y) ==> y == model(a, b, c, d)
}

/// A record of Newton refinements: the estimates in the order in which they
/// were reached, and for each one that was refined the function value and
/// the derivative value that were seen there.
pub struct NewtonRecord {
    pub estimates: Seq<u64>,
    pub values: Seq<u64>,
    pub slopes: Seq<u64>,
}

impl NewtonRecord {
    /// The number of refinements in the record.
    pub open spec fn steps(self) -> nat {
        self.slopes.len()
    }

    /// The estimate that the record ends with.
    pub open spec fn last(self) -> u64 {
        self.estimates.last()
    }

    /// The `i`-th refinement was made as the method asks: the derivative at
    /// the estimate was not the sentinel, and the next estimate is what the
    /// update made of the estimate, the function value and the derivative.
    pub open spec fn step_is_valid<
        F: Fn(u64) -> u64,
        D: Fn(u64) -> u64,
        U: Fn(u64, u64, u64) -> u64,
    >(self, f: F, fprime: D, update: U, i: int) -> bool {
        &&& fprime.ensures((self.estimates[i],), self.slopes[i])
        &&& self.slopes[i] != POSITIVE_INFINITY
        &&& f.ensures((self.estimates[i],), self.values[i])
        &&& update.ensures(
            (self.estimates[i], self.values[i], self.slopes[i]),
            self.estimates[i + 1],
        )
    }

    /// The record starts at `guess` and each of its refinements is valid.
    pub open spec fn is_valid<F: Fn(u64) -> u64, D: Fn(u64) -> u64, U: Fn(u64, u64, u64) -> u64>(
        self,
        f: F,
        fprime: D,
        update: U,
        guess: u64,
    ) -> bool {
        &&& self.estimates.len() == self.slopes.len() + 1
        &&& self.values.len() == self.slopes.len()
        &&& self.estimates[0] == guess
        &&& forall|i: int|
            0 <= i < self.slopes.len() ==> #[trigger] self.step_is_valid(f, fprime, update, i)
    }

    /// The `i`-th refinement, made by functions.
    pub open spec fn step_follows(
        self,
        f: spec_fn(u64) -> u64,
        fprime: spec_fn(u64) -> u64,
        update: spec_fn(u64, u64, u64) -> u64,
        i: int,
    ) -> bool {
        &&& fprime(self.estimates[i]) != POSITIVE_INFINITY
        &&& self.estimates[i + 1] == update(
            self.estimates[i],
            f(self.estimates[i]),
            fprime(self.estimates[i]),
        )
    }
}

/// What a Newton-Raphson run may return. An estimate is the end of a record
/// of exactly as many refinements as the budget allows. A failure comes
/// after fewer, at an estimate where the derivative was the sentinel.
pub open spec fn newton_outcome<F: Fn(u64) -> u64, D: Fn(u64) -> u64, U: Fn(u64, u64, u64) -> u64>(
    budget: isize,
    guess: u64,
    f: F,
    fprime: D,
    update: U,
    result: Result<u64, NewtonError>,
) -> bool {
    match result {
        Ok(root) => exists|record: NewtonRecord|
            {
                &&& #[trigger] record.is_valid(f, fprime, update, guess)
                &&& record.steps() == allowance(budget)
                &&& record.last() == root
            },
        Err(_) => exists|record: NewtonRecord|
            {
                &&& #[trigger] record.is_valid(f, fprime, update, guess)
                &&& record.steps() < allowance(budget)
                &&& fprime.ensures((record.last(),), POSITIVE_INFINITY)
            },
    }
}

/// The result of a Newton-Raphson run on the function `f` with the
/// derivative `fprime`, where the next estimate is
/// `update(estimate, f(estimate), fprime(estimate))`.
pub open spec fn newton_spec(
    budget: int,
    guess: u64,
    f: spec_fn(u64) -> u64,
    fprime: spec_fn(u64) -> u64,
    update: spec_fn(u64, u64, u64) -> u64,
) -> Result<u64, NewtonError>
    decreases
            if budget < 0 {
                0
            } else {
                budget + 1
            },
{
    if budget < 0 {
        Ok(guess)
    } else if fprime(guess) == POSITIVE_INFINITY {
        Err(NewtonError::DivisionByZero)
    } else {
        newton_spec(budget - 1, update(guess, f(guess), fprime(guess)), f, fprime, update)
    }
}

/// Along a record of refinements made by functions, the run from the first
/// estimate with the whole budget has the result of the run from the `k`-th
/// estimate with the budget that is then left.
proof fn lemma_newton_record_follows_spec(
    budget: int,
    record: NewtonRecord,
    f: spec_fn(u64) -> u64,
    fprime: spec_fn(u64) -> u64,
    update: spec_fn(u64, u64, u64) -> u64,
    k: nat,
)
    requires
        record.estimates.len() == record.slopes.len() + 1,
        forall|i: int|
            0 <= i < record.slopes.len() ==> #[trigger] record.step_follows(f, fprime, update, i),
        k <= record.steps(),
        k == 0 || k <= budget + 1,
    ensures
        newton_spec(budget, record.estimates[0], f, fprime, update) == newton_spec(
            budget - k,
            record.estimates[k as int],
            f,
            fprime,
            update,
        ),
    decreases k,
{
    if k > 0 {
        lemma_newton_record_follows_spec(budget, record, f, fprime, update, (k - 1) as nat);
        assert(record.step_follows(f, fprime, update, k - 1));
    }
}

/// A valid record of refinements made by callables that behave as functions
/// leads the run of those functions from the guess to the record's end.
proof fn lemma_newton_valid_record_follows_spec<
    F: Fn(u64) -> u64,
    D: Fn(u64) -> u64,
    U: Fn(u64, u64, u64) -> u64,
>(
    budget: isize,
    guess: u64,
    f: F,
    fprime: D,
    update: U,
    f_model: spec_fn(u64) -> u64,
    fprime_model: spec_fn(u64) -> u64,
    update_model: spec_fn(u64, u64, u64) -> u64,
    record: NewtonRecord,
)
    requires
        record.is_valid(f, fprime, update, guess),
        record.steps() <= allowance(budget),
        computes(f, f_model),
        computes(fprime, fprime_model),
        computes3(update, update_model),
    ensures
        newton_spec(budget as int, guess, f_model, fprime_model, update_model) == newton_spec(
            budget - record.steps(),
            record.last(),
            f_model,
            fprime_model,
            update_model,
        ),
{
    assert forall|i: int| 0 <= i < record.slopes.len() implies #[trigger] record.step_follows(
        f_model,
        fprime_model,
        update_model,
        i,
    ) by {
        assert(record.step_is_valid(f, fprime, update, i));
    }
    lemma_newton_record_follows_spec(
        budget as int,
        record,
        f_model,
        fprime_model,
        update_model,
        record.steps(),
    );
}

/// With a function, a derivative and an update that behave as functions, a
/// Newton-Raphson run has exactly one result: the one that `newton_spec`
/// gives for those functions.
pub proof fn law_newton_deterministic<
    F: Fn(u64) -> u64,
    D: Fn(u64) -> u64,
    U: Fn(u64, u64, u64) -> u64,
>(
    budget: isize,
    guess: u64,
    f: F,
    fprime: D,
    update: U,
    f_model: spec_fn(u64) -> u64,
    fprime_model: spec_fn(u64) -> u64,
    update_model: spec_fn(u64, u64, u64) -> u64,
    result: Result<u64, NewtonError>,
)
    requires
        newton_outcome(budget, guess, f, fprime, update, result),
        computes(f, f_model),
        computes(fprime, fprime_model),
        computes3(update, update_model),
    ensures
        result == newton_spec(budget as int, guess, f_model, fprime_model, update_model),
{
    match result {
        Ok(root) => {
            let record = choose|record: NewtonRecord|
                {
                    &&& #[trigger] record.is_valid(f, fprime, update, guess)
                    &&& record.steps() == allowance(budget)
                    &&& record.last() == root
                };
            lemma_newton_valid_record_follows_spec(
                budget,
                guess,
                f,
                fprime,
                update,
                f_model,
                fprime_model,
                update_model,
                record,
            );
        },
        Err(error) => {
            let record = choose|record: NewtonRecord|
                {
                    &&& #[trigger] record.is_valid(f, fprime, update, guess)
                    &&& record.steps() < allowance(budget)
                    &&& fprime.ensures((record.last(),), POSITIVE_INFINITY)
                };
            lemma_newton_valid_record_follows_spec(
                budget,
                guess,
                f,
                fprime,
                update,
                f_model,
                fprime_model,
                update_model,
                record,
            );
            assert(fprime_model(record.last()) == POSITIVE_INFINITY);
            assert(error == NewtonError::DivisionByZero);
        },
    }
}

/// The law above, for all functions at once.
proof fn lemma_newton_by_models<F: Fn(u64) -> u64, D: Fn(u64) -> u64, U: Fn(u64, u64, u64) -> u64>(
    budget: isize,
    guess: u64,
    f: F,
    fprime: D,
    update: U,
    result: Result<u64, NewtonError>,
)
    requires
        newton_outcome(budget, guess, f, fprime, update, result),
    ensures
        forall|
            f_model: spec_fn(u64) -> u64,
            fprime_model: spec_fn(u64) -> u64,
            update_model: spec_fn(u64, u64, u64) -> u64,
        |
            computes(f, f_model) && computes(fprime, fprime_model) && computes3(update, update_model)
                ==> result == #[trigger] newton_spec(
                budget as int,
                guess,
                f_model,
                fprime_model,
                update_model,
            ),
{
    assert forall|
        f_model: spec_fn(u64) -> u64,
        fprime_model: spec_fn(u64) -> u64,
        update_model: spec_fn(u64, u64, u64) -> u64,
    |
        computes(f, f_model) && computes(fprime, fprime_model) && computes3(
            update,
            update_model,
        ) implies result == #[trigger] newton_spec(
        budget as int,
        guess,
        f_model,
        fprime_model,
        update_model,
    ) by {
        law_newton_deterministic(
            budget,
            guess,
            f,
            fprime,
            update,
            f_model,
            fprime_model,
            update_model,
            result,
        );
    }
}

/// Runs the Newton-Raphson iteration from `guess` on the function `f` with
/// the derivative `fprime`.
///
/// A negative budget ends the run with the current estimate, before anything
/// is evaluated. Otherwise the derivative at the current estimate is
/// examined: the sentinel ends the run with a failure; any other value goes
/// to `update` together with the estimate and the function value there, the
/// result is the next estimate, and the budget is lowered by one.
pub fn newton<F: Fn(u64) -> u64, D: Fn(u64) -> u64, U: Fn(u64, u64, u64) -> u64>(
    budget: isize,
    guess: u64,
    f: F,
    fprime: D,
    update: U,
) -> (result: Result<u64, NewtonError>)
    requires
        forall|x: u64| f.requires((x,)),
        forall|x: u64| fprime.requires((x,)),
        forall|x: u64, value: u64, slope: u64| update.requires((x, value, slope)),
    ensures
        budget < 0 ==> result == Ok::<u64, NewtonError>(guess),
        newton_outcome(budget, guess, f, fprime, update, result),
        forall|
            f_model: spec_fn(u64) -> u64,
            fprime_model: spec_fn(u64) -> u64,
            update_model: spec_fn(u64, u64, u64) -> u64,
        |
            computes(f, f_model) && computes(fprime, fprime_model) && computes3(update, update_model)
                ==> result == #[trigger] newton_spec(
                budget as int,
                guess,
                f_model,
                fprime_model,
                update_model,
            ),
{
    let mut remaining: isize = budget;
    let mut estimate: u64 = guess;
    let ghost mut record = NewtonRecord {
        estimates: seq![guess],
        values: Seq::empty(),
        slopes: Seq::empty(),
    };
    while remaining >= 0
        invariant
            forall|x: u64| f.requires((x,)),
            forall|x: u64| fprime.requires((x,)),
            forall|x: u64, value: u64, slope: u64| update.requires((x, value, slope)),
            record.is_valid(f, fprime, update, guess),
            record.last() == estimate,
            record.steps() + allowance(remaining) == allowance(budget),
            budget < 0 ==> estimate == guess,
        decreases allowance(remaining),
    {
        let slope: u64 = fprime(estimate);
        if slope == POSITIVE_INFINITY {
            proof {
                lemma_newton_by_models(
                    budget,
                    guess,
                    f,
                    fprime,
                    update,
                    Err(NewtonError::DivisionByZero),
                );
            }
            return Err(NewtonError::DivisionByZero);
        }
        let value: u64 = f(estimate);
        let next: u64 = update(estimate, value, slope);
        proof {
            let longer = NewtonRecord {
                estimates: record.estimates.push(next),
                values: record.values.push(value),
                slopes: record.slopes.push(slope),
            };
            assert forall|i: int| 0 <= i < longer.slopes.len() implies #[trigger] longer.step_is_valid(
                f,
                fprime,
                update,
                i,
            ) by {
                if i < record.slopes.len() {
                    assert(record.step_is_valid(f, fprime, update, i));
                }
            }
            record = longer;
        }
        estimate = next;
        remaining = remaining - 1;
    }
    proof {
        lemma_newton_by_models(budget, guess, f, fprime, update, Ok(estimate));
    }
    Ok(estimate)
}

/// A record of secant refinements: the estimates in the order in which they
/// were reached, the older of the starting pair first, and for each
/// refinement the function values that were seen at the newer and at the
/// older of the two estimates it was made from.
pub struct SecantRecord {
    pub estimates: Seq<u64>,
    pub newer_values: Seq<u64>,
    pub older_values: Seq<u64>,
}

impl SecantRecord {
    /// The number of refinements in the record.
    pub open spec fn steps(self) -> nat {
        self.newer_values.len()
    }

    /// The estimate that the record ends with.
    pub open spec fn last(self) -> u64 {
        self.estimates.last()
    }

    /// The last two estimates of the record have one bit pattern.
    pub open spec fn has_converged(self) -> bool {
        self.estimates[self.estimates.len() - 1] == self.estimates[self.estimates.len() - 2]
    }

    /// The `i`-th refinement was made as the method asks: the two estimates
    /// it starts from differ, and the next estimate is what the update made
    /// of them and of the function values there, the newer estimate first.
    pub open spec fn step_is_valid<F: Fn(u64) -> u64, U: Fn(u64, u64, u64, u64) -> u64>(
        self,
        f: F,
        update: U,
        i: int,
    ) -> bool {
        &&& self.estimates[i + 1] != self.estimates[i]
        &&& f.ensures((self.estimates[i + 1],), self.newer_values[i])
        &&& f.ensures((self.estimates[i],), self.older_values[i])
        &&& update.ensures(
            (self.estimates[i + 1], self.estimates[i], self.newer_values[i], self.older_values[i]),
            self.estimates[i + 2],
        )
    }

    /// The record starts with the pair `(x1, x2)`, `x1` being the newer
    /// estimate, and each of its refinements is valid.
    pub open spec fn is_valid<F: Fn(u64) -> u64, U: Fn(u64, u64, u64, u64) -> u64>(
        self,
        f: F,
        update: U,
        x1: u64,
        x2: u64,
    ) -> bool {
        &&& self.estimates.len() == self.newer_values.len() + 2
        &&& self.older_values.len() == self.newer_values.len()
        &&& self.estimates[0] == x2
        &&& self.estimates[1] == x1
        &&& forall|i: int|
            0 <= i < self.newer_values.len() ==> #[trigger] self.step_is_valid(f, update, i)
    }

    /// The `i`-th refinement, made by functions.
    pub open spec fn step_follows(
        self,
        f: spec_fn(u64) -> u64,
        update: spec_fn(u64, u64, u64, u64) -> u64,
        i: int,
    ) -> bool {
        &&& self.estimates[i + 1] != self.estimates[i]
        &&& self.estimates[i + 2] == update(
            self.estimates[i + 1],
            self.estimates[i],
            f(self.estimates[i + 1]),
            f(self.estimates[i]),
        )
    }
}

/// What a secant run may return: the end of a record of at most as many
/// refinements as the budget allows, which stopped short of that number only
/// because its last two estimates are equal.
pub open spec fn secant_outcome<F: Fn(u64) -> u64, U: Fn(u64, u64, u64, u64) -> u64>(
    budget: isize,
    x1: u64,
    x2: u64,
    f: F,
    update: U,
    root: u64,
) -> bool {
    exists|record: SecantRecord|
        {
            &&& #[trigger] record.is_valid(f, update, x1, x2)
            &&& record.last() == root
            &&& record.steps() <= allowance(budget)
            &&& record.steps() == allowance(budget) || record.has_converged()
        }
}

/// The result of a secant run on the function `f`, where the pair
/// `(x1, x2)` is followed by the pair `(update(x1, x2, f(x1), f(x2)), x1)`.
pub open spec fn secant_spec(
    budget: int,
    x1: u64,
    x2: u64,
    f: spec_fn(u64) -> u64,
    update: spec_fn(u64, u64, u64, u64) -> u64,
) -> u64
    decreases
            if budget < 0 {
                0
            } else {
                budget + 1
            },
{
    if budget < 0 || x1 == x2 {
        x1
    } else {
        secant_spec(budget - 1, update(x1, x2, f(x1), f(x2)), x1, f, update)
    }
}

/// Along a record of refinements made by functions, the run from the first
/// pair with the whole budget has the result of the run from the `k`-th pair
/// with the budget that is then left.
proof fn lemma_secant_record_follows_spec(
    budget: int,
    record: SecantRecord,
    f: spec_fn(u64) -> u64,
    update: spec_fn(u64, u64, u64, u64) -> u64,
    k: nat,
)
    requires
        record.estimates.len() == record.newer_values.len() + 2,
        forall|i: int|
            0 <= i < record.newer_values.len() ==> #[trigger] record.step_follows(f, update, i),
        k <= record.steps(),
        k == 0 || k <= budget + 1,
    ensures
        secant_spec(budget, record.estimates[1], record.estimates[0], f, update) == secant_spec(
            budget - k,
            record.estimates[k as int + 1],
            record.estimates[k as int],
            f,
            update,
        ),
    decreases k,
{
    if k > 0 {
        lemma_secant_record_follows_spec(budget, record, f, update, (k - 1) as nat);
        assert(record.step_follows(f, update, k - 1));
    }
}

/// With a function and an update that behave as functions, a secant run has
/// exactly one result: the one that `secant_spec` gives for those functions.
pub proof fn law_secant_deterministic<F: Fn(u64) -> u64, U: Fn(u64, u64, u64, u64) -> u64>(
    budget: isize,
    x1: u64,
    x2: u64,
    f: F,
    update: U,
    f_model: spec_fn(u64) -> u64,
    update_model: spec_fn(u64, u64, u64, u64) -> u64,
    root: u64,
)
    requires
        secant_outcome(budget, x1, x2, f, update, root),
        computes(f, f_model),
        computes4(update, update_model),
    ensures
        root == secant_spec(budget as int, x1, x2, f_model, update_model),
{
    let record = choose|record: SecantRecord|
        {
            &&& #[trigger] record.is_valid(f, update, x1, x2)
            &&& record.last() == root
            &&& record.steps() <= allowance(budget)
            &&& record.steps() == allowance(budget) || record.has_converged()
        };
    assert forall|i: int| 0 <= i < record.newer_values.len() implies #[trigger] record.step_follows(
        f_model,
        update_model,
        i,
    ) by {
        assert(record.step_is_valid(f, update, i));
    }
    lemma_secant_record_follows_spec(budget as int, record, f_model, update_model, record.steps());
    let left = budget - record.steps();
    let k = record.steps() as int;
    assert(secant_spec(left, record.estimates[k + 1], record.estimates[k], f_model, update_model)
        == root);
}

/// The law above, for all functions at once.
proof fn lemma_secant_by_models<F: Fn(u64) -> u64, U: Fn(u64, u64, u64, u64) -> u64>(
    budget: isize,
    x1: u64,
    x2: u64,
    f: F,
    update: U,
    root: u64,
)
    requires
        secant_outcome(budget, x1, x2, f, update, root),
    ensures
        forall|f_model: spec_fn(u64) -> u64, update_model: spec_fn(u64, u64, u64, u64) -> u64|
            computes(f, f_model) && computes4(update, update_model) ==> root
                == #[trigger] secant_spec(budget as int, x1, x2, f_model, update_model),
{
    assert forall|f_model: spec_fn(u64) -> u64, update_model: spec_fn(u64, u64, u64, u64) -> u64|
        computes(f, f_model) && computes4(update, update_model) implies root
        == #[trigger] secant_spec(budget as int, x1, x2, f_model, update_model) by {
        law_secant_deterministic(budget, x1, x2, f, update, f_model, update_model, root);
    }
}

/// Runs the secant iteration from the pair of estimates `(x1, x2)` on the
/// function `f`.
///
/// A negative budget, or two estimates with one bit pattern, end the run
/// with the current `x1`, before anything is evaluated. Otherwise the
/// function is evaluated at `x1` and at `x2`, `update` makes the next
/// estimate of the two estimates and the two values, the pair becomes that
/// estimate and `x1`, and the budget is lowered by one. The run cannot fail.
pub fn secant<F: Fn(u64) -> u64, U: Fn(u64, u64, u64, u64) -> u64>(
    budget: isize,
    x1: u64,
    x2: u64,
    f: F,
    update: U,
) -> (result: Result<u64, Infallible>)
    requires
        forall|x: u64| f.requires((x,)),
        forall|a: u64, b: u64, c: u64, d: u64| update.requires((a, b, c, d)),
    ensures
        result is Ok,
        budget < 0 || x1 == x2 ==> result == Ok::<u64, Infallible>(x1),
        secant_outcome(budget, x1, x2, f, update, result->Ok_0),
        forall|f_model: spec_fn(u64) -> u64, update_model: spec_fn(u64, u64, u64, u64) -> u64|
            computes(f, f_model) && computes4(update, update_model) ==> result->Ok_0
                == #[trigger] secant_spec(budget as int, x1, x2, f_model, update_model),
{
    let mut remaining: isize = budget;
    let mut current: u64 = x1;
    let mut previous: u64 = x2;
    let ghost mut record = SecantRecord {
        estimates: seq![x2, x1],
        newer_values: Seq::empty(),
        older_values: Seq::empty(),
    };
    while remaining >= 0 && current != previous
        invariant
            forall|x: u64| f.requires((x,)),
            forall|a: u64, b: u64, c: u64, d: u64| update.requires((a, b, c, d)),
            record.is_valid(f, update, x1, x2),
            record.estimates[record.estimates.len() - 1] == current,
            record.estimates[record.estimates.len() - 2] == previous,
            record.steps() + allowance(remaining) == allowance(budget),
            budget < 0 || x1 == x2 ==> current == x1 && previous == x2,
        decreases allowance(remaining),
    {
        let newer_value: u64 = f(current);
        let older_value: u64 = f(previous);
        let next: u64 = update(current, previous, newer_value, older_value);
        proof {
            let longer = SecantRecord {
                estimates: record.estimates.push(next),
                newer_values: record.newer_values.push(newer_value),
                older_values: record.older_values.push(older_value),
            };
            assert forall|i: int|
                0 <= i < longer.newer_values.len() implies #[trigger] longer.step_is_valid(
                f,
                update,
                i,
            ) by {
                if i < record.newer_values.len() {
                    assert(record.step_is_valid(f, update, i));
                }
            }
            record = longer;
        }
        previous = current;
        current = next;
        remaining = remaining - 1;
    }
    proof {
        lemma_secant_by_models(budget, x1, x2, f, update, current);
    }
    Ok(current)
}

} // verus!
