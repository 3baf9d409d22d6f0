//! Equality with one value, and with one of a list of values.

use crate::report::{
    one_arg, outcome, placeholders_before, Invalid, InvalidView, ValidatorResult,
};
use crate::text::{is_rendering, join3, render};
use std::fmt::Display;
use vstd::prelude::*;
use vstd::std_specs::cmp::PartialEqIs;
use vstd::std_specs::cmp::PartialEqSpec;
use vstd::string::StringExecFns;

verus! {

/// The failure of a value that differs from the one written `expected`.
pub open spec fn not_equal(expected: Seq<char>) -> InvalidView {
    InvalidView {
        msg: "Does not equal %1."@,
        args: seq![expected],
        human_readable: "Does not equal '"@ + expected + "'"@,
    }
}

/// The failure of a value that is none of those that `list` enumerates.
pub open spec fn not_among(list: Seq<char>) -> InvalidView {
    InvalidView {
        msg: "Must be one of %1."@,
        args: seq![list],
        human_readable: "Must be one of "@ + list,
    }
}

/// `parts` in order, with `separator` between each two neighbours.
pub open spec fn joined(parts: Seq<Seq<char>>, separator: Seq<char>) -> Seq<char>
    decreases parts.len(),
{
    if parts.len() == 0 {
        Seq::empty()
    } else if parts.len() == 1 {
        parts[0]
    } else {
        joined(parts.drop_last(), separator) + separator + parts.last()
    }
}

/// Whether `parts` holds, value by value, what `T` writes for `values`.
pub open spec fn are_renderings<T: Display>(values: Seq<T>, parts: Seq<Seq<char>>) -> bool {
    &&& parts.len() == values.len()
    &&& forall|i: int| 0 <= i < values.len() ==> is_rendering(&values[i], #[trigger] parts[i])
}

/// Whether `list` enumerates `values` in order, each as `T` writes it, with
/// a comma and a space between them.
pub open spec fn enumerates<T: Display>(values: Seq<T>, list: Seq<char>) -> bool {
    exists|parts: Seq<Seq<char>>| are_renderings(values, parts) && list == joined(parts, ", "@)
}

/// Whether some value of `values` equals `x`.
pub open spec fn is_among<T: PartialEq>(values: Seq<T>, x: &T) -> bool {
    exists|i: int| 0 <= i < values.len() && (#[trigger] values[i]).is_eq(x)
}

/// Whether `r` is what [`eq`] may say of `x`. Where the equality of `T` is
/// one that contracts can speak of, `r` is a failure exactly when `x` differs
/// from `expected`. A failure carries `expected` as `T` writes it.
pub open spec fn is_eq_outcome<T: PartialEq + Display>(
    expected: &T,
    x: &T,
    r: Option<InvalidView>,
) -> bool {
    &&& T::obeys_eq_spec() ==> (r is None <==> x.is_eq(expected))
    &&& r matches Some(e) ==> exists|a: Seq<char>| is_rendering(expected, a) && e == not_equal(a)
}

/// Whether `r` is what [`either`] may say of `x`. Where the equality of `T`
/// is one that contracts can speak of, `r` is a failure exactly when `x`
/// equals none of `values`. A failure enumerates all of `values`, in order.
pub open spec fn is_either_outcome<T: PartialEq + Display>(
    values: Seq<T>,
    x: &T,
    r: Option<InvalidView>,
) -> bool {
    &&& T::obeys_eq_spec() ==> (r is None <==> is_among(values, x))
    &&& r matches Some(e) ==> exists|list: Seq<char>|
        enumerates(values, list) && e == not_among(list)
}

/// The failures of equality have one placeholder, for what was expected.
pub proof fn lemma_eq_failures_consistent(expected: Seq<char>)
    ensures
        not_equal(expected).is_consistent(),
        not_among(expected).is_consistent(),
{
    let one = "Does not equal %1."@;
    let several = "Must be one of %1."@;
    reveal_strlit("Does not equal %1.");
    reveal_strlit("Must be one of %1.");
    // The count is followed a dozen places at a time, which keeps each step
    // within what unfolding the definition thirteen times can reach.
    assert(placeholders_before(one, 12) == 0) by {
        reveal_with_fuel(placeholders_before, 13);
    }
    assert(placeholders_before(one, 18) == 1) by {
        reveal_with_fuel(placeholders_before, 13);
    }
    assert(placeholders_before(several, 12) == 0) by {
        reveal_with_fuel(placeholders_before, 13);
    }
    assert(placeholders_before(several, 18) == 1) by {
        reveal_with_fuel(placeholders_before, 13);
    }
}

/// The failure of a value that differs from the expected one, from the
/// expected one as text.
pub fn eq_failure(expected: String) -> (e: Invalid)
    ensures
        e@ == not_equal(expected@),
{
    let human = join3("Does not equal '", expected.as_str(), "'");
    Invalid::new("Does not equal %1.", one_arg(expected), human)
}

/// The failure of a value that is none of the allowed ones, from their
/// enumeration.
pub fn either_failure(list: String) -> (e: Invalid)
    ensures
        e@ == not_among(list@),
{
    let mut human = String::from_str("Must be one of ");
    human.append(list.as_str());
    Invalid::new("Must be one of %1.", one_arg(list), human)
}

/// Whether some value of `values` equals `x`. Every value before the first
/// equal one is compared with `x`, and none after it.
pub fn occurs<T: PartialEq>(values: &Vec<T>, x: &T) -> (found: bool)
    ensures
        T::obeys_eq_spec() ==> (found <==> is_among(values@, x)),
{
    let mut i: usize = 0;
    while i < values.len()
        invariant
            i <= values.len(),
            T::obeys_eq_spec() ==> forall|j: int| 0 <= j < i ==> !(#[trigger] values[j]).is_eq(x),
        decreases values.len() - i,
    {
        if values[i] == *x {
            return true;
        }
        i += 1;
    }
    false
}

/// All of `values` in order, each as `T` writes it, with a comma and a space
/// between them.
pub fn enumerate<T: Display>(values: &Vec<T>) -> (list: String)
    ensures
        enumerates(values@, list@),
{
    let mut list = String::new();
    let ghost mut parts: Seq<Seq<char>> = Seq::empty();
    let mut i: usize = 0;
    while i < values.len()
        invariant
            i <= values.len(),
            are_renderings(values@.take(i as int), parts),
            list@ == joined(parts, ", "@),
        decreases values.len() - i,
    {
        let part = render(&values[i]);
        if i > 0 {
            list.append(", ");
        }
        list.append(part.as_str());
        proof {
            let longer = parts.push(part@);
            assert(longer.drop_last() =~= parts);
            assert(list@ =~= joined(longer, ", "@));
            assert forall|j: int| 0 <= j < i + 1 implies is_rendering(
                &values@.take(i + 1)[j],
                #[trigger] longer[j],
            ) by {
                if j < i {
                    assert(values@.take(i + 1)[j] == values@.take(i as int)[j]);
                    assert(longer[j] == parts[j]);
                }
            }
            parts = longer;
        }
        i += 1;
    }
    proof {
        assert(values@.take(i as int) =~= values@);
    }
    list
}

/// Enforce that a value equals `expected`.
pub fn eq<T: 'static>(expected: T) -> (validator: impl Fn(&T) -> ValidatorResult) where
    T: PartialEq + Display,

    ensures
        forall|x: &T| call_requires(validator, (x,)),
        forall|x: &T, r: ValidatorResult|
            #[trigger] call_ensures(validator, (x,), r) ==> is_eq_outcome(
                &expected,
                x,
                outcome(r),
            ),
{
    move |x: &T| -> (r: ValidatorResult)
        ensures
            is_eq_outcome(&expected, x, outcome(r)),
        {
            if *x == expected {
                Ok(())
            } else {
                Err(eq_failure(render(&expected)))
            }
        }
}

/// Enforce that a value equals one of `values`. It passes exactly when it
/// equals some value of the list; its failure lists them all, in order.
pub fn either<T: 'static>(values: Vec<T>) -> (validator: impl Fn(&T) -> ValidatorResult) where
    T: PartialEq + Display + Clone,

    ensures
        forall|x: &T| call_requires(validator, (x,)),
        forall|x: &T, r: ValidatorResult|
            #[trigger] call_ensures(validator, (x,), r) ==> is_either_outcome(
                values@,
                x,
                outcome(r),
            ),
{
    move |x: &T| -> (r: ValidatorResult)
        ensures
            is_either_outcome(values@, x, outcome(r)),
        {
            if occurs(&values, x) {
                Ok(())
            } else {
                Err(either_failure(enumerate(&values)))
            }
        }
}

} // verus!
