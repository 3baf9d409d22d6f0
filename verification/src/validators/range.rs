//! A lower and an upper bound on a value of any ordered type.

use crate::report::{
    outcome, placeholders_before, two_args, Invalid, InvalidView, ValidatorResult,
};
use crate::text::{is_rendering, join3, render};
use std::fmt::Display;
use vstd::prelude::*;
use vstd::std_specs::cmp::PartialOrdIs;
use vstd::std_specs::cmp::PartialOrdSpec;
use vstd::string::StringExecFns;

verus! {

/// The failure of a value outside the bounds that are written `lo` and `hi`.
pub open spec fn out_of_range(lo: Seq<char>, hi: Seq<char>) -> InvalidView {
    InvalidView {
        msg: "Must be in the range %1..%2."@,
        args: seq![lo, hi],
        human_readable: "Must be between "@ + lo + " and "@ + hi,
    }
}

/// Whether `x` is at least `lo` and at most `hi`.
pub open spec fn within<T: PartialOrd>(lo: &T, hi: &T, x: &T) -> bool {
    x.is_ge(lo) && x.is_le(hi)
}

/// Whether `r` is what [`range`] may say of `x`. Where the order of `T` is one
/// that contracts can speak of, `r` is a failure exactly when `x` is not
/// within the bounds. A failure carries the bounds as `T` writes them.
pub open spec fn is_range_outcome<T: PartialOrd + Display>(
    lo: &T,
    hi: &T,
    x: &T,
    r: Option<InvalidView>,
) -> bool {
    &&& T::obeys_partial_cmp_spec() ==> (r is None <==> within(lo, hi, x))
    &&& r matches Some(e) ==> exists|a: Seq<char>, b: Seq<char>|
        is_rendering(lo, a) && is_rendering(hi, b) && e == out_of_range(a, b)
}

/// The failure of the bounds has one placeholder for each bound it carries.
pub proof fn lemma_range_failure_consistent(lo: Seq<char>, hi: Seq<char>)
    ensures
        out_of_range(lo, hi).is_consistent(),
{
    let template = "Must be in the range %1..%2."@;
    reveal_strlit("Must be in the range %1..%2.");
    // The count is followed a dozen places at a time, which keeps each step
    // within what unfolding the definition thirteen times can reach.
    assert(placeholders_before(template, 12) == 0) by {
        reveal_with_fuel(placeholders_before, 13);
    }
    assert(placeholders_before(template, 24) == 1) by {
        reveal_with_fuel(placeholders_before, 13);
    }
    assert(placeholders_before(template, 28) == 2) by {
        reveal_with_fuel(placeholders_before, 13);
    }
}

/// The failure of a value outside the bounds, from the bounds as text.
pub fn range_failure(lo: String, hi: String) -> (e: Invalid)
    ensures
        e@ == out_of_range(lo@, hi@),
{
    let mut human = join3("Must be between ", lo.as_str(), " and ");
    human.append(hi.as_str());
    Invalid::new("Must be in the range %1..%2.", two_args(lo, hi), human)
}

/// Enforce that a value is at least `lo` and at most `hi`.
pub fn range<T: 'static + PartialOrd + Display + Clone>(lo: T, hi: T) -> (validator: impl Fn(
    &T,
) -> ValidatorResult)
    ensures
        forall|x: &T| call_requires(validator, (x,)),
        forall|x: &T, r: ValidatorResult|
            #[trigger] call_ensures(validator, (x,), r) ==> is_range_outcome(
                &lo,
                &hi,
                x,
                outcome(r),
            ),
{
    move |x: &T| -> (r: ValidatorResult)
        ensures
            is_range_outcome(&lo, &hi, x, outcome(r)),
        {
            if *x >= lo && *x <= hi {
                Ok(())
            } else {
                Err(range_failure(render(&lo), render(&hi)))
            }
        }
}

/// Where `x` can be compared with both bounds, it is outside them exactly
/// when it is below the lower or above the upper one.
pub proof fn lemma_outside_is_below_or_above<T: PartialOrd>(lo: &T, hi: &T, x: &T)
    requires
        x.partial_cmp_spec(lo) is Some,
        x.partial_cmp_spec(hi) is Some,
    ensures
        !within(lo, hi, x) <==> x.is_lt(lo) || x.is_gt(hi),
{
}

} // verus!
