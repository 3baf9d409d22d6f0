//! What holds of every validation, proved from the contracts of
//! [`rules`](crate::rules).
//!
//! Of a field: no validator is passed over, the failures keep the order of
//! the list, and there is none exactly when every validator passed. Of a
//! record: the fields that failed are reported in their order, and the others
//! leave no trace. Of both: validating again gives the same.

use crate::report::{outcome, Error, InvalidView, MultipleInvalidView, ValidatorResult};
use crate::rules::{
    are_results, failures, field_verdict, fields_of, has_failed, is_field_verdict, outcomes_of,
    record_outcome, record_verdict, reports,
};
use vstd::prelude::*;

verus! {

/// The failures are the outcomes that hold one, picked out in order.
pub proof fn lemma_failures_are_filtered(outcomes: Seq<Option<InvalidView>>)
    ensures
        failures(outcomes) == outcomes.filter_map(|o: Option<InvalidView>| o),
    decreases outcomes.len(),
{
    let pick = |o: Option<InvalidView>| o;
    if outcomes.len() > 0 {
        lemma_failures_are_filtered(outcomes.drop_last());
        assert(failures(outcomes) =~= outcomes.filter_map(pick));
    }
}

/// The failures of a list of outcomes are those of its first part, then those
/// of the rest.
pub proof fn lemma_failures_concat(
    first: Seq<Option<InvalidView>>,
    rest: Seq<Option<InvalidView>>,
)
    ensures
        failures(first + rest) == failures(first) + failures(rest),
    decreases rest.len(),
{
    if rest.len() == 0 {
        assert(first + rest =~= first);
        assert(failures(first) + failures(rest) =~= failures(first));
    } else {
        lemma_failures_concat(first, rest.drop_last());
        assert((first + rest).drop_last() =~= first + rest.drop_last());
        assert((first + rest).last() == rest.last());
        assert(failures(first + rest) =~= failures(first) + failures(rest));
    }
}

/// There is no failure exactly when every validator passed.
pub proof fn lemma_failures_empty(outcomes: Seq<Option<InvalidView>>)
    ensures
        failures(outcomes).len() == 0 <==> forall|i: int|
            0 <= i < outcomes.len() ==> outcomes[i] is None,
    decreases outcomes.len(),
{
    if outcomes.len() > 0 {
        lemma_failures_empty(outcomes.drop_last());
        if failures(outcomes).len() == 0 {
            assert forall|i: int| 0 <= i < outcomes.len() implies outcomes[i] is None by {
                if i < outcomes.len() - 1 {
                    assert(outcomes.drop_last()[i] == outcomes[i]);
                }
            }
        } else {
            if outcomes.last() is None {
                let i = choose|i: int|
                    0 <= i < outcomes.drop_last().len() && !(outcomes.drop_last()[i] is None);
                assert(outcomes[i] == outcomes.drop_last()[i]);
            }
        }
    }
}

/// Where every validator fails, the failures are what each of them said, one
/// for one and in the order of the list: none is left out.
pub proof fn lemma_all_failures_kept(outcomes: Seq<Option<InvalidView>>)
    requires
        forall|i: int| 0 <= i < outcomes.len() ==> outcomes[i] is Some,
    ensures
        failures(outcomes).len() == outcomes.len(),
        forall|i: int| 0 <= i < outcomes.len() ==> failures(outcomes)[i] == outcomes[i]->0,
    decreases outcomes.len(),
{
    if outcomes.len() > 0 {
        lemma_all_failures_kept(outcomes.drop_last());
    }
}

/// Every failure is kept: what a failing validator said is among the
/// failures, wherever in the list the validator stands.
pub proof fn lemma_every_failure_kept(outcomes: Seq<Option<InvalidView>>, i: int)
    requires
        0 <= i < outcomes.len(),
        outcomes[i] is Some,
    ensures
        failures(outcomes).contains(outcomes[i]->0),
    decreases outcomes.len(),
{
    let before = failures(outcomes.drop_last());
    if i == outcomes.len() - 1 {
        assert(failures(outcomes)[before.len() as int] == outcomes[i]->0);
    } else {
        lemma_every_failure_kept(outcomes.drop_last(), i);
        let at = choose|at: int| 0 <= at < before.len() && before[at] == outcomes[i]->0;
        assert(failures(outcomes)[at] == outcomes[i]->0);
    }
}

/// Whether `failure` is something that `validator` may say of `value`.
pub open spec fn may_fail_with<T, V: Fn(&T) -> ValidatorResult>(
    validator: V,
    value: &T,
    failure: InvalidView,
) -> bool {
    exists|r: ValidatorResult| call_ensures(validator, (value,), r) && outcome(r) == Some(failure)
}

/// A field is never cut short: where every validator of the list fails on
/// the value, the verdict holds one failure for each of them, in the order of
/// the list.
pub proof fn lemma_no_short_circuit<T, V: Fn(&T) -> ValidatorResult>(
    validators: Seq<V>,
    value: &T,
    verdict: Option<Seq<InvalidView>>,
)
    requires
        validators.len() > 0,
        forall|i: int, r: ValidatorResult|
            0 <= i < validators.len() && #[trigger] call_ensures(validators[i], (value,), r)
                ==> r is Err,
        is_field_verdict(validators, value, verdict),
    ensures
        verdict is Some,
        verdict->0.len() == validators.len(),
        forall|i: int|
            0 <= i < validators.len() ==> may_fail_with(
                validators[i],
                value,
                #[trigger] verdict->0[i],
            ),
{
    let results = choose|results: Seq<ValidatorResult>|
        are_results(validators, value, results) && verdict == field_verdict(
            outcomes_of(results),
        );
    lemma_all_failures_kept(outcomes_of(results));
    assert forall|i: int| 0 <= i < validators.len() implies may_fail_with(
        validators[i],
        value,
        #[trigger] verdict->0[i],
    ) by {
        assert(call_ensures(validators[i], (value,), results[i]));
        assert(outcomes_of(results)[i] == outcome(results[i]));
    }
}

/// The reports of a list of fields are those of its first part, then those
/// of the rest.
pub proof fn lemma_reports_concat(
    first: Seq<(Seq<char>, Option<Seq<InvalidView>>)>,
    rest: Seq<(Seq<char>, Option<Seq<InvalidView>>)>,
)
    ensures
        reports(first + rest) == reports(first) + reports(rest),
    decreases rest.len(),
{
    if rest.len() == 0 {
        assert(first + rest =~= first);
        assert(reports(first) + reports(rest) =~= reports(first));
    } else {
        lemma_reports_concat(first, rest.drop_last());
        assert((first + rest).drop_last() =~= first + rest.drop_last());
        assert((first + rest).last() == rest.last());
        assert(reports(first + rest) =~= reports(first) + reports(rest));
    }
}

/// There is no report exactly when no field has failed.
pub proof fn lemma_reports_empty(fields: Seq<(Seq<char>, Option<Seq<InvalidView>>)>)
    ensures
        reports(fields).len() == 0 <==> forall|i: int|
            0 <= i < fields.len() ==> !has_failed(#[trigger] fields[i]),
    decreases fields.len(),
{
    if fields.len() > 0 {
        lemma_reports_empty(fields.drop_last());
        if reports(fields).len() == 0 {
            assert forall|i: int| 0 <= i < fields.len() implies !has_failed(
                #[trigger] fields[i],
            ) by {
                if i < fields.len() - 1 {
                    assert(fields.drop_last()[i] == fields[i]);
                }
            }
        } else {
            if !has_failed(fields.last()) {
                let i = choose|i: int|
                    0 <= i < fields.drop_last().len() && has_failed(
                        #[trigger] fields.drop_last()[i],
                    );
                assert(fields[i] == fields.drop_last()[i]);
            }
        }
    }
}

/// A field that passed leaves no trace: of three fields of which the middle
/// one passed and the others failed, the report holds the first and the last,
/// in that order, each under its tag and with its failures.
pub proof fn lemma_passing_field_is_left_out(
    first: (Seq<char>, Seq<InvalidView>),
    middle: Seq<char>,
    last: (Seq<char>, Seq<InvalidView>),
)
    requires
        first.1.len() > 0,
        last.1.len() > 0,
    ensures
        record_verdict(seq![(first.0, Some(first.1)), (middle, None), (last.0, Some(last.1))])
            == Some(
            seq![
                MultipleInvalidView { tag: first.0, invalids: first.1 },
                MultipleInvalidView { tag: last.0, invalids: last.1 },
            ],
        ),
{
    let fields = seq![(first.0, Some(first.1)), (middle, None), (last.0, Some(last.1))];
    let two = fields.drop_last();
    let one = two.drop_last();
    assert(one.drop_last() =~= Seq::empty());
    assert(reports(one.drop_last()) =~= Seq::empty());
    assert(reports(one) =~= seq![MultipleInvalidView { tag: first.0, invalids: first.1 }]);
    assert(reports(two) == reports(one));
    assert(reports(fields) =~= seq![
        MultipleInvalidView { tag: first.0, invalids: first.1 },
        MultipleInvalidView { tag: last.0, invalids: last.1 },
    ]);
}

/// Whether `validator` says one thing of `value`, however often it is asked.
/// A validator whose contract gives its outcome as a function of the value
/// does.
pub open spec fn says_one_thing<T, V: Fn(&T) -> ValidatorResult>(validator: V, value: &T) -> bool {
    forall|a: ValidatorResult, b: ValidatorResult|
        #![trigger call_ensures(validator, (value,), a), call_ensures(validator, (value,), b)]
        call_ensures(validator, (value,), a) && call_ensures(validator, (value,), b) ==> outcome(
            a,
        ) == outcome(b)
}

/// Validating a field twice gives the same: where each validator says one
/// thing of the value, any two verdicts on the field are equal. Nothing but
/// the validators and the value goes into a verdict.
pub proof fn lemma_field_verdict_repeats<T, V: Fn(&T) -> ValidatorResult>(
    validators: Seq<V>,
    value: &T,
    first: Option<Seq<InvalidView>>,
    second: Option<Seq<InvalidView>>,
)
    requires
        forall|i: int|
            0 <= i < validators.len() ==> says_one_thing(#[trigger] validators[i], value),
        is_field_verdict(validators, value, first),
        is_field_verdict(validators, value, second),
    ensures
        first == second,
{
    let a = choose|results: Seq<ValidatorResult>|
        are_results(validators, value, results) && first == field_verdict(outcomes_of(results));
    let b = choose|results: Seq<ValidatorResult>|
        are_results(validators, value, results) && second == field_verdict(outcomes_of(results));
    assert forall|i: int| 0 <= i < validators.len() implies outcomes_of(a)[i] == outcomes_of(
        b,
    )[i] by {
        assert(says_one_thing(validators[i], value));
        assert(call_ensures(validators[i], (value,), a[i]));
        assert(call_ensures(validators[i], (value,), b[i]));
    }
    assert(outcomes_of(a) =~= outcomes_of(b));
}

/// Validating a record twice gives the same: two results for the same fields
/// hold the same reports.
pub proof fn lemma_record_verdict_repeats(
    fields: Seq<(String, Result<(), Error>)>,
    first: crate::Result,
    second: crate::Result,
)
    requires
        record_outcome(first) == record_verdict(fields_of(fields)),
        record_outcome(second) == record_verdict(fields_of(fields)),
    ensures
        record_outcome(first) == record_outcome(second),
{
}

} // verus!
