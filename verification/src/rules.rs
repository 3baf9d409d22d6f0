//! Running validators and gathering what they say.
//!
//! A field is validated by running every validator of its list on its value,
//! whatever the earlier ones said, and keeping the failures in the order of
//! the list. A record is validated field by field in the same way: every field
//! is looked at, and those with failures make up the report, in the order of
//! the fields.
//!
//! [`validate_field`] takes a list of validators of one type. Validators of
//! different makes have different types: either put them in boxes, or run
//! each on the value and hand the results to [`collect_failures`].

use crate::laws::lemma_reports_empty;
use crate::report::{
    field_views, invalid_views, outcome, Error, Invalid, InvalidView, MultipleError,
    MultipleInvalid, MultipleInvalidView, ValidatorResult,
};
use vstd::prelude::*;

verus! {

/// The failures among `outcomes`, in order.
pub open spec fn failures(outcomes: Seq<Option<InvalidView>>) -> Seq<InvalidView>
    decreases outcomes.len(),
{
    if outcomes.len() == 0 {
        Seq::empty()
    } else {
        match outcomes.last() {
            Some(e) => failures(outcomes.drop_last()).push(e),
            None => failures(outcomes.drop_last()),
        }
    }
}

/// What a field comes to when its validators gave `outcomes`: nothing when
/// none failed, else all the failures.
pub open spec fn field_verdict(outcomes: Seq<Option<InvalidView>>) -> Option<Seq<InvalidView>> {
    if failures(outcomes).len() == 0 {
        None
    } else {
        Some(failures(outcomes))
    }
}

/// The failures inside the result of validating a field, if it holds any.
pub open spec fn field_outcome(r: Result<(), Error>) -> Option<Seq<InvalidView>> {
    match r {
        Ok(_) => None,
        Err(e) => Some(e@),
    }
}

/// What each result of `results` holds, in order.
pub open spec fn outcomes_of(results: Seq<ValidatorResult>) -> Seq<Option<InvalidView>> {
    results.map_values(|r: ValidatorResult| outcome(r))
}

/// Whether `results` holds, validator by validator, something that each of
/// `validators` may say of `value`.
pub open spec fn are_results<T, V: Fn(&T) -> ValidatorResult>(
    validators: Seq<V>,
    value: &T,
    results: Seq<ValidatorResult>,
) -> bool {
    &&& results.len() == validators.len()
    &&& forall|i: int|
        0 <= i < validators.len() ==> call_ensures(validators[i], (value,), #[trigger] results[i])
}

/// Whether `verdict` is what the field `value` comes to under `validators`:
/// every validator has spoken, and `verdict` is made of what they said.
pub open spec fn is_field_verdict<T, V: Fn(&T) -> ValidatorResult>(
    validators: Seq<V>,
    value: &T,
    verdict: Option<Seq<InvalidView>>,
) -> bool {
    exists|results: Seq<ValidatorResult>|
        are_results(validators, value, results) && verdict == field_verdict(
            outcomes_of(results),
        )
}

/// What `validators` say of `value`, one result for each, in order. Every
/// validator is run.
pub fn run_all<T, V: Fn(&T) -> ValidatorResult>(value: &T, validators: &Vec<V>) -> (results: Vec<
    ValidatorResult,
>)
    requires
        forall|i: int| 0 <= i < validators.len() ==> call_requires(validators[i], (value,)),
    ensures
        are_results(validators@, value, results@),
{
    let mut results: Vec<ValidatorResult> = Vec::new();
    let mut i: usize = 0;
    while i < validators.len()
        invariant
            i <= validators.len(),
            results.len() == i,
            forall|j: int| 0 <= j < validators.len() ==> call_requires(validators[j], (value,)),
            forall|j: int|
                0 <= j < i ==> call_ensures(validators[j], (value,), #[trigger] results[j]),
        decreases validators.len() - i,
    {
        let r = (validators[i])(value);
        results.push(r);
        i += 1;
    }
    results
}

/// The failures among `results`, in order: `Ok` when there is none.
pub fn collect_failures(results: Vec<ValidatorResult>) -> (r: Result<(), Error>)
    ensures
        field_outcome(r) == field_verdict(outcomes_of(results@)),
        r matches Err(e) ==> e@.len() > 0,
{
    let ghost all = outcomes_of(results@);
    let mut invalids: Vec<Invalid> = Vec::new();
    for result in it: results
        invariant
            it.seq() == results@,
            all == outcomes_of(results@),
            invalid_views(invalids@) == failures(all.take(it.index())),
    {
        proof {
            let n = it.index();
            assert(all.take(n + 1).drop_last() =~= all.take(n));
            assert(all.take(n + 1).last() == outcome(result));
        }
        match result {
            Ok(_) => {},
            Err(e) => {
                invalids.push(e);
                assert(invalid_views(invalids@) =~= failures(all.take(it.index())).push(e@));
            },
        }
    }
    assert(all.take(all.len() as int) =~= all);
    if invalids.len() > 0 {
        Err(Error(invalids))
    } else {
        Ok(())
    }
}

/// Run every validator of `validators` on `value`, and gather the failures in
/// the order of the list. No validator is skipped because an earlier one
/// failed.
pub fn validate_field<T, V: Fn(&T) -> ValidatorResult>(value: &T, validators: &Vec<V>) -> (r:
    Result<(), Error>)
    requires
        forall|i: int| 0 <= i < validators.len() ==> call_requires(validators[i], (value,)),
    ensures
        is_field_verdict(validators@, value, field_outcome(r)),
        r matches Err(e) ==> e@.len() > 0,
{
    collect_failures(run_all(value, validators))
}

/// One field of a record, ready for [`validate_record`]: `tag` with what
/// [`validate_field`] gives for `value` under `validators`.
pub fn tagged_field<T, V: Fn(&T) -> ValidatorResult>(
    tag: &str,
    value: &T,
    validators: &Vec<V>,
) -> (field: (String, Result<(), Error>))
    requires
        forall|i: int| 0 <= i < validators.len() ==> call_requires(validators[i], (value,)),
    ensures
        field.0@ == tag@,
        is_field_verdict(validators@, value, field_outcome(field.1)),
        field.1 matches Err(e) ==> e@.len() > 0,
{
    (tag.to_owned(), validate_field(value, validators))
}

/// What one field of a record holds: its tag, and the failures that
/// validating it gave, if any.
pub open spec fn field_of(field: (String, Result<(), Error>)) -> (
    Seq<char>,
    Option<Seq<InvalidView>>,
) {
    (field.0@, field_outcome(field.1))
}

/// What each field of `fields` holds, in order.
pub open spec fn fields_of(fields: Seq<(String, Result<(), Error>)>) -> Seq<
    (Seq<char>, Option<Seq<InvalidView>>),
> {
    fields.map_values(|f: (String, Result<(), Error>)| field_of(f))
}

/// Whether a field has at least one failure.
pub open spec fn has_failed(field: (Seq<char>, Option<Seq<InvalidView>>)) -> bool {
    field.1 matches Some(invalids) && invalids.len() > 0
}

/// The reports of the fields of `fields` that have failed, in order, each
/// under the tag of its field. Two fields with one tag give two reports.
pub open spec fn reports(fields: Seq<(Seq<char>, Option<Seq<InvalidView>>)>) -> Seq<
    MultipleInvalidView,
>
    decreases fields.len(),
{
    if fields.len() == 0 {
        Seq::empty()
    } else if has_failed(fields.last()) {
        reports(fields.drop_last()).push(
            MultipleInvalidView { tag: fields.last().0, invalids: fields.last().1->0 },
        )
    } else {
        reports(fields.drop_last())
    }
}

/// What a record comes to: nothing when no field has failed, else the
/// reports of those that have.
pub open spec fn record_verdict(fields: Seq<(Seq<char>, Option<Seq<InvalidView>>)>) -> Option<
    Seq<MultipleInvalidView>,
> {
    if reports(fields).len() == 0 {
        None
    } else {
        Some(reports(fields))
    }
}

/// The reports inside the result of validating a record, if it holds any.
pub open spec fn record_outcome(r: crate::Result) -> Option<Seq<MultipleInvalidView>> {
    match r {
        Ok(_) => None,
        Err(e) => Some(e@),
    }
}

/// Whether `report` is fit to be returned: it speaks of at least one field,
/// and of each field it names at least one failure.
pub open spec fn is_report(report: Seq<MultipleInvalidView>) -> bool {
    &&& report.len() > 0
    &&& forall|i: int| 0 <= i < report.len() ==> (#[trigger] report[i]).invalids.len() > 0
}

/// Gather the outcomes of the fields of a record, each given with its tag,
/// into one result: `Ok` when no field has failed, else the report of every
/// field that has, in the order of the fields.
pub fn validate_record(fields: Vec<(String, Result<(), Error>)>) -> (r: crate::Result)
    ensures
        record_outcome(r) == record_verdict(fields_of(fields@)),
        r is Ok <==> forall|i: int|
            0 <= i < fields.len() ==> !has_failed(#[trigger] fields_of(fields@)[i]),
        r matches Err(e) ==> is_report(e@),
{
    let ghost all = fields_of(fields@);
    let mut kept: Vec<MultipleInvalid> = Vec::new();
    for field in it: fields
        invariant
            it.seq() == fields@,
            all == fields_of(fields@),
            field_views(kept@) == reports(all.take(it.index())),
            forall|i: int| 0 <= i < kept.len() ==> (#[trigger] kept[i])@.invalids.len() > 0,
    {
        proof {
            let n = it.index();
            assert(all.take(n + 1).drop_last() =~= all.take(n));
            assert(all.take(n + 1).last() == field_of(field));
        }
        let (tag, result) = field;
        match result {
            Ok(_) => {},
            Err(Error(invalids)) => {
                if invalids.len() > 0 {
                    let report = MultipleInvalid { tag, invalids };
                    kept.push(report);
                    assert(field_views(kept@) =~= reports(
                        all.take(it.index()),
                    ).push(report@));
                }
            },
        }
    }
    proof {
        assert(all.take(all.len() as int) =~= all);
        lemma_reports_empty(all);
    }
    if kept.len() > 0 {
        let report = MultipleError(kept);
        assert(is_report(report@));
        Err(report)
    } else {
        Ok(())
    }
}

} // verus!
