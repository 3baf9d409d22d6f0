//! Bounds on the length of a string, counted in bytes.

use crate::report::{
    one_arg, outcome, placeholders_before, two_args, Invalid, InvalidView, ValidatorResult,
};
use crate::text::{byte_len, decimal, decimal_string, join3, length_of};
use vstd::prelude::*;
use vstd::string::StringExecFns;

verus! {

/// The failure of a string shorter than `bound`.
pub open spec fn too_short(bound: nat) -> InvalidView {
    InvalidView {
        msg: "Must contain more than %1 characters"@,
        args: seq![decimal(bound)],
        human_readable: "Must contain more than "@ + decimal(bound) + " characters"@,
    }
}

/// The failure of a string longer than `bound`.
pub open spec fn too_long(bound: nat) -> InvalidView {
    InvalidView {
        msg: "Must not contain more characters than %1."@,
        args: seq![decimal(bound)],
        human_readable: "Must contain less than "@ + decimal(bound) + " characters"@,
    }
}

/// The upper figure of the full message of [`out_of_bounds`]: one below `hi`,
/// and 0 for 0.
pub open spec fn shown_upper(hi: nat) -> nat {
    if hi == 0 {
        0
    } else {
        (hi - 1) as nat
    }
}

/// The one failure of a string that is both shorter than `lo` and longer than
/// `hi`. It carries both bounds.
pub open spec fn out_of_bounds(lo: nat, hi: nat) -> InvalidView {
    InvalidView {
        msg: "Must not be less characters than %1 and not more than %2."@,
        args: seq![decimal(lo), decimal(hi)],
        human_readable: "Must contain between "@ + decimal(lo) + " and "@ + decimal(
            shown_upper(hi),
        ) + " characters"@,
    }
}

/// What [`min`] says of `s`.
pub open spec fn min_outcome(bound: nat, s: Seq<char>) -> Option<InvalidView> {
    if byte_len(s) >= bound {
        None
    } else {
        Some(too_short(bound))
    }
}

/// What [`max`] says of `s`.
pub open spec fn max_outcome(bound: nat, s: Seq<char>) -> Option<InvalidView> {
    if byte_len(s) <= bound {
        None
    } else {
        Some(too_long(bound))
    }
}

/// What [`length`] says of `s`: the failure of the bound that `s` breaks, and
/// the combined failure where it breaks both.
pub open spec fn length_outcome(lo: nat, hi: nat, s: Seq<char>) -> Option<InvalidView> {
    if byte_len(s) < lo && byte_len(s) > hi {
        Some(out_of_bounds(lo, hi))
    } else if byte_len(s) < lo {
        Some(too_short(lo))
    } else if byte_len(s) > hi {
        Some(too_long(hi))
    } else {
        None
    }
}

/// What [`length_if_present`] says of `s`: nothing of an absent string, and of
/// a present one what [`length`] says.
pub open spec fn optional_length_outcome(lo: nat, hi: nat, s: Option<Seq<char>>) -> Option<
    InvalidView,
> {
    match s {
        None => None,
        Some(text) => length_outcome(lo, hi, text),
    }
}

/// The text of an optional string.
pub open spec fn optional_text(s: Option<String>) -> Option<Seq<char>> {
    match s {
        None => None,
        Some(text) => Some(text@),
    }
}

/// The failures of the bounds have one placeholder for each bound they carry.
pub proof fn lemma_length_failures_consistent(lo: nat, hi: nat)
    ensures
        too_short(lo).is_consistent(),
        too_long(hi).is_consistent(),
        out_of_bounds(lo, hi).is_consistent(),
{
    let short = "Must contain more than %1 characters"@;
    let long = "Must not contain more characters than %1."@;
    let both = "Must not be less characters than %1 and not more than %2."@;
    reveal_strlit("Must contain more than %1 characters");
    reveal_strlit("Must not contain more characters than %1.");
    reveal_strlit("Must not be less characters than %1 and not more than %2.");
    // The count is followed a dozen places at a time, which keeps each step
    // within what unfolding the definition thirteen times can reach.
    assert(placeholders_before(short, 12) == 0) by {
        reveal_with_fuel(placeholders_before, 13);
    }
    assert(placeholders_before(short, 24) == 1) by {
        reveal_with_fuel(placeholders_before, 13);
    }
    assert(placeholders_before(short, 36) == 1) by {
        reveal_with_fuel(placeholders_before, 13);
    }
    assert(placeholders_before(long, 12) == 0) by {
        reveal_with_fuel(placeholders_before, 13);
    }
    assert(placeholders_before(long, 24) == 0) by {
        reveal_with_fuel(placeholders_before, 13);
    }
    assert(placeholders_before(long, 36) == 0) by {
        reveal_with_fuel(placeholders_before, 13);
    }
    assert(placeholders_before(long, 41) == 1) by {
        reveal_with_fuel(placeholders_before, 13);
    }
    assert(placeholders_before(both, 12) == 0) by {
        reveal_with_fuel(placeholders_before, 13);
    }
    assert(placeholders_before(both, 24) == 0) by {
        reveal_with_fuel(placeholders_before, 13);
    }
    assert(placeholders_before(both, 36) == 1) by {
        reveal_with_fuel(placeholders_before, 13);
    }
    assert(placeholders_before(both, 48) == 1) by {
        reveal_with_fuel(placeholders_before, 13);
    }
    assert(placeholders_before(both, 57) == 2) by {
        reveal_with_fuel(placeholders_before, 13);
    }
}

/// The failure of a string shorter than `bound`.
fn short_failure(bound: usize) -> (e: Invalid)
    ensures
        e@ == too_short(bound as nat),
{
    let shown = decimal_string(bound);
    let human = join3("Must contain more than ", shown.as_str(), " characters");
    Invalid::new("Must contain more than %1 characters", one_arg(shown), human)
}

/// The failure of a string longer than `bound`.
fn long_failure(bound: usize) -> (e: Invalid)
    ensures
        e@ == too_long(bound as nat),
{
    let shown = decimal_string(bound);
    let human = join3("Must contain less than ", shown.as_str(), " characters");
    Invalid::new("Must not contain more characters than %1.", one_arg(shown), human)
}

/// The failure of a string both shorter than `lo` and longer than `hi`.
fn bounds_failure(lo: usize, hi: usize) -> (e: Invalid)
    ensures
        e@ == out_of_bounds(lo as nat, hi as nat),
{
    let upper = decimal_string(hi.saturating_sub(1));
    let mut human = join3("Must contain between ", decimal_string(lo).as_str(), " and ");
    human.append(upper.as_str());
    human.append(" characters");
    Invalid::new(
        "Must not be less characters than %1 and not more than %2.",
        two_args(decimal_string(lo), decimal_string(hi)),
        human,
    )
}

/// Enforce that a `String` is at most `bound` bytes long.
pub fn max(bound: usize) -> (validator: impl Fn(&String) -> ValidatorResult)
    ensures
        forall|s: &String| call_requires(validator, (s,)),
        forall|s: &String, r: ValidatorResult|
            #[trigger] call_ensures(validator, (s,), r) ==> outcome(r) == max_outcome(
                bound as nat,
                s@,
            ),
{
    move |s: &String| -> (r: ValidatorResult)
        ensures
            outcome(r) == max_outcome(bound as nat, s@),
        {
            if length_of(s) <= bound {
                Ok(())
            } else {
                Err(long_failure(bound))
            }
        }
}

/// Enforce that a `String` is at least `bound` bytes long.
pub fn min(bound: usize) -> (validator: impl Fn(&String) -> ValidatorResult)
    ensures
        forall|s: &String| call_requires(validator, (s,)),
        forall|s: &String, r: ValidatorResult|
            #[trigger] call_ensures(validator, (s,), r) ==> outcome(r) == min_outcome(
                bound as nat,
                s@,
            ),
{
    move |s: &String| -> (r: ValidatorResult)
        ensures
            outcome(r) == min_outcome(bound as nat, s@),
        {
            if length_of(s) >= bound {
                Ok(())
            } else {
                Err(short_failure(bound))
            }
        }
}

/// What both bound checks of one string come to: a single failure where both
/// fail, else the one that failed, else `Ok`.
pub fn merge_bounds(lo: usize, hi: usize, low: ValidatorResult, high: ValidatorResult) -> (r:
    ValidatorResult)
    ensures
        outcome(r) == (match (outcome(low), outcome(high)) {
            (Some(_), Some(_)) => Some(out_of_bounds(lo as nat, hi as nat)),
            (Some(e), None) => Some(e),
            (None, Some(e)) => Some(e),
            (None, None) => None,
        }),
{
    match (low, high) {
        (Err(_), Err(_)) => Err(bounds_failure(lo, hi)),
        (Err(e), _) => Err(e),
        (_, Err(e)) => Err(e),
        (_, _) => Ok(()),
    }
}

/// Enforce that a `String` is at least `lo` and at most `hi` bytes long. It
/// fails exactly on the strings shorter than `lo` or longer than `hi`; one
/// that is both gets a single failure that names both bounds.
pub fn length(lo: usize, hi: usize) -> (validator: impl Fn(&String) -> ValidatorResult)
    ensures
        forall|s: &String| call_requires(validator, (s,)),
        forall|s: &String, r: ValidatorResult|
            #[trigger] call_ensures(validator, (s,), r) ==> outcome(r) == length_outcome(
                lo as nat,
                hi as nat,
                s@,
            ),
        forall|s: &String, r: ValidatorResult|
            #[trigger] call_ensures(validator, (s,), r) ==> (r is Err <==> byte_len(s@) < lo
                || byte_len(s@) > hi),
{
    move |s: &String| -> (r: ValidatorResult)
        ensures
            outcome(r) == length_outcome(lo as nat, hi as nat, s@),
            r is Err <==> byte_len(s@) < lo || byte_len(s@) > hi,
        {
            merge_bounds(lo, hi, min(lo)(s), max(hi)(s))
        }
}

/// Enforce that a `String`, if there is one, is at least `lo` and at most `hi`
/// bytes long. An absent string always passes.
pub fn length_if_present(lo: usize, hi: usize) -> (validator: impl Fn(
    &Option<String>,
) -> ValidatorResult)
    ensures
        forall|s: &Option<String>| call_requires(validator, (s,)),
        forall|s: &Option<String>, r: ValidatorResult|
            #[trigger] call_ensures(validator, (s,), r) ==> outcome(r) == optional_length_outcome(
                lo as nat,
                hi as nat,
                optional_text(*s),
            ),
{
    move |s: &Option<String>| -> (r: ValidatorResult)
        ensures
            outcome(r) == optional_length_outcome(lo as nat, hi as nat, optional_text(*s)),
        {
            match s {
                None => Ok(()),
                Some(text) => merge_bounds(lo, hi, min(lo)(text), max(hi)(text)),
            }
        }
}

} // verus!
