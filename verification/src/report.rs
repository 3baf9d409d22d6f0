//! Validation failures and the reports that group them.
//!
//! Contracts in this crate speak of these types through their views: plain
//! sequences of characters in place of `String`, and sequences in place of
//! `Vec`.

use vstd::prelude::*;

verus! {

/// One rule that a value broke.
#[derive(Debug, Clone)]
pub struct Invalid {
    /// Message template, in which `%1`, `%2`, ... stand for the arguments.
    pub msg: String,
    /// The parameters of the broken rule as text, in the order in which the
    /// template numbers them.
    pub args: Vec<String>,
    /// The message written out in full.
    pub human_readable: String,
}

/// What an [`Invalid`] holds.
pub ghost struct InvalidView {
    pub msg: Seq<char>,
    pub args: Seq<Seq<char>>,
    pub human_readable: Seq<char>,
}

/// Whether a placeholder starts at position `at` of `template`: a `%` with a
/// digit from 1 to 9 behind it.
pub open spec fn is_placeholder_at(template: Seq<char>, at: int) -> bool {
    &&& 0 <= at
    &&& at + 1 < template.len()
    &&& template[at] == '%'
    &&& '1' <= template[at + 1] <= '9'
}

/// The number of placeholders that start before position `end` of `template`.
pub open spec fn placeholders_before(template: Seq<char>, end: int) -> nat
    decreases end,
{
    if end <= 0 {
        0
    } else if is_placeholder_at(template, end - 1) {
        placeholders_before(template, end - 1) + 1
    } else {
        placeholders_before(template, end - 1)
    }
}

/// The number of placeholders of `template`.
pub open spec fn placeholders(template: Seq<char>) -> nat {
    placeholders_before(template, template.len() as int)
}

impl InvalidView {
    /// Whether the template has one placeholder for each argument. Every
    /// failure that a validator of this crate returns is consistent.
    pub open spec fn is_consistent(self) -> bool {
        placeholders(self.msg) == self.args.len()
    }
}

/// The text of each string of `strings`, in order.
pub open spec fn texts(strings: Seq<String>) -> Seq<Seq<char>> {
    strings.map_values(|s: String| s@)
}

impl View for Invalid {
    type V = InvalidView;

    open spec fn view(&self) -> InvalidView {
        InvalidView {
            msg: self.msg@,
            args: texts(self.args@),
            human_readable: self.human_readable@,
        }
    }
}

/// The list of arguments that holds `a` alone.
pub(crate) fn one_arg(a: String) -> (args: Vec<String>)
    ensures
        texts(args@) == seq![a@],
{
    let mut args: Vec<String> = Vec::new();
    args.push(a);
    assert(texts(args@) =~= seq![a@]);
    args
}

/// The list of arguments that holds `a`, then `b`.
pub(crate) fn two_args(a: String, b: String) -> (args: Vec<String>)
    ensures
        texts(args@) == seq![a@, b@],
{
    let mut args: Vec<String> = Vec::new();
    args.push(a);
    args.push(b);
    assert(texts(args@) =~= seq![a@, b@]);
    args
}

impl Invalid {
    /// A failure made of the given template, arguments and full message.
    pub fn new(msg: &str, args: Vec<String>, human_readable: String) -> (r: Invalid)
        ensures
            r@ == (InvalidView {
                msg: msg@,
                args: texts(args@),
                human_readable: human_readable@,
            }),
    {
        Invalid { msg: msg.to_owned(), args, human_readable }
    }
}

/// The failures of one field, under the field's tag.
#[derive(Debug, Clone)]
pub struct MultipleInvalid {
    /// The label of the field. Tags need not be unique within a record.
    pub tag: String,
    /// The failures, in the order in which the validators ran.
    pub invalids: Vec<Invalid>,
}

/// What a [`MultipleInvalid`] holds.
pub ghost struct MultipleInvalidView {
    pub tag: Seq<char>,
    pub invalids: Seq<InvalidView>,
}

/// The view of each failure of `invalids`, in order.
pub open spec fn invalid_views(invalids: Seq<Invalid>) -> Seq<InvalidView> {
    invalids.map_values(|e: Invalid| e@)
}

impl View for MultipleInvalid {
    type V = MultipleInvalidView;

    open spec fn view(&self) -> MultipleInvalidView {
        MultipleInvalidView { tag: self.tag@, invalids: invalid_views(self.invalids@) }
    }
}

impl MultipleInvalid {
    /// A report for the field `tag` with a single failure. No full message is
    /// given, so the template stands in for it.
    pub fn invalid(tag: String, msg: String, args: Vec<String>) -> (r: MultipleInvalid)
        ensures
            r@ == (MultipleInvalidView {
                tag: tag@,
                invalids: seq![
                    InvalidView { msg: msg@, args: texts(args@), human_readable: msg@ },
                ],
            }),
    {
        let human_readable = msg.clone();
        let mut invalids: Vec<Invalid> = Vec::new();
        invalids.push(Invalid { msg, args, human_readable });
        let r = MultipleInvalid { tag, invalids };
        assert(r@.invalids =~= seq![
            InvalidView { msg: msg@, args: texts(args@), human_readable: msg@ },
        ]);
        r
    }
}

/// The failures of a single value: never empty when a validation returns it.
#[derive(Debug, Clone)]
pub struct Error(pub Vec<Invalid>);

impl View for Error {
    type V = Seq<InvalidView>;

    open spec fn view(&self) -> Seq<InvalidView> {
        invalid_views(self.0@)
    }
}

/// The failures of a record, field by field, in the order of the fields.
#[derive(Debug, Clone)]
pub struct MultipleError(pub Vec<MultipleInvalid>);

/// The view of each field report of `fields`, in order.
pub open spec fn field_views(fields: Seq<MultipleInvalid>) -> Seq<MultipleInvalidView> {
    fields.map_values(|f: MultipleInvalid| f@)
}

impl View for MultipleError {
    type V = Seq<MultipleInvalidView>;

    open spec fn view(&self) -> Seq<MultipleInvalidView> {
        field_views(self.0@)
    }
}

/// What one validator says of one value: `Ok`, or the rule that it broke.
pub type ValidatorResult = Result<(), Invalid>;

/// The failure inside a validator's result, if there is one.
pub open spec fn outcome(r: ValidatorResult) -> Option<InvalidView> {
    match r {
        Ok(_) => None,
        Err(e) => Some(e@),
    }
}

} // verus!
