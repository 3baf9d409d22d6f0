//! Validation against a regular expression.
//!
//! The expressions are compiled and run by the `regex` crate. What it decides
//! is not proved here: the contracts name its answers and say what the
//! validators make of them.

use crate::report::{
    outcome, placeholders_before, two_args, Invalid, InvalidView, ValidatorResult,
};
use crate::text::{is_substring, occurs_at, str_contains};
use vstd::prelude::*;
use vstd::string::StringExecFns;

verus! {

/// `regex::Regex`, a compiled regular expression. Nothing of its inside is
/// known here; [`regex_pattern`] and [`regex_options`] name what it was made
/// from.
#[verifier::external_type_specification]
#[verifier::external_body]
pub struct ExRegex(::regex::Regex);

/// The settings under which a pattern is compiled.
#[derive(Clone, Copy, Debug)]
pub struct RegexOptions {
    /// Letters match both cases.
    pub case_insensitive: bool,
    /// `^` and `$` match at the line breaks too.
    pub multi_line: bool,
    /// `.` matches a line break too.
    pub dot_matches_new_line: bool,
    /// `a*` is lazy and `a*?` greedy.
    pub swap_greed: bool,
    /// The pattern matches by code points, with the Unicode classes.
    pub unicode: bool,
    /// White space in the pattern is skipped, and `#` starts a comment.
    pub ignore_whitespace: bool,
}

/// Whether the `regex` crate compiles `pattern` under `options`, within its
/// default size limits.
pub uninterp spec fn regex_compiles(pattern: Seq<char>, options: RegexOptions) -> bool;

/// Whether `pattern`, compiled under `options`, matches somewhere in `text`.
pub uninterp spec fn regex_accepts(
    pattern: Seq<char>,
    options: RegexOptions,
    text: Seq<char>,
) -> bool;

/// The pattern that `re` was compiled from.
pub uninterp spec fn regex_pattern(re: ::regex::Regex) -> Seq<char>;

/// The settings that `re` was compiled under.
pub uninterp spec fn regex_options(re: ::regex::Regex) -> RegexOptions;

/// `RegexBuilder::new`, its six setters of the settings above, and
/// `RegexBuilder::build`. Trusted: whether the build succeeds is a matter of
/// the pattern and the settings, and the expression that comes out is one of
/// that pattern under those settings. An error becomes `None`.
#[verifier::external_body]
fn compile(pattern: &str, options: RegexOptions) -> (compiled: Option<::regex::Regex>)
    ensures
        compiled is Some <==> regex_compiles(pattern@, options),
        compiled matches Some(re) ==> regex_pattern(re) == pattern@ && regex_options(re)
            == options,
{
    ::regex::RegexBuilder::new(pattern)
        .case_insensitive(options.case_insensitive)
        .multi_line(options.multi_line)
        .dot_matches_new_line(options.dot_matches_new_line)
        .swap_greed(options.swap_greed)
        .unicode(options.unicode)
        .ignore_whitespace(options.ignore_whitespace)
        .build()
        .ok()
}

/// `Regex::is_match`. Trusted: it returns `true` if and only if the
/// expression matches somewhere in the text, which is a matter of the
/// pattern, the settings and the text.
#[verifier::external_body]
fn is_match(re: &::regex::Regex, text: &str) -> (found: bool)
    ensures
        found == regex_accepts(regex_pattern(*re), regex_options(*re), text@),
{
    re.is_match(text)
}

/// `Regex::as_str`. Trusted: it returns the pattern that the expression was
/// compiled from.
#[verifier::external_body]
fn source(re: &::regex::Regex) -> (pattern: &str)
    ensures
        pattern@ == regex_pattern(*re),
{
    re.as_str()
}

/// The settings that a flag string asks for. Each letter switches one
/// setting: `i` case-insensitive matching, `m` multi-line mode, `s` a dot
/// that matches line breaks, `U` swapped greed, `x` ignored white space; `u`
/// switches Unicode mode off. Other characters say nothing.
pub open spec fn options_of(flags: Seq<char>) -> RegexOptions {
    RegexOptions {
        case_insensitive: flags.contains('i'),
        multi_line: flags.contains('m'),
        dot_matches_new_line: flags.contains('s'),
        swap_greed: flags.contains('U'),
        unicode: !flags.contains('u'),
        ignore_whitespace: flags.contains('x'),
    }
}

/// The failure of a string in which the pattern finds no match.
pub open spec fn no_match(pattern: Seq<char>, flags: Seq<char>) -> InvalidView {
    InvalidView {
        msg: "Must match regex '/%1/%2'."@,
        args: seq![pattern, flags],
        human_readable: "Must match regex '/"@ + pattern + "/"@ + flags + "'"@,
    }
}

/// What [`matching`] says of `s`.
pub open spec fn regex_outcome(pattern: Seq<char>, flags: Seq<char>, s: Seq<char>) -> Option<
    InvalidView,
> {
    if regex_accepts(pattern, options_of(flags), s) {
        None
    } else {
        Some(no_match(pattern, flags))
    }
}

/// The failure of a pattern has two placeholders, for the pattern and the
/// flags.
pub proof fn lemma_pattern_failure_consistent(pattern: Seq<char>, flags: Seq<char>)
    ensures
        no_match(pattern, flags).is_consistent(),
{
    let template = "Must match regex '/%1/%2'."@;
    reveal_strlit("Must match regex '/%1/%2'.");
    // The count is followed a dozen places at a time, which keeps each step
    // within what unfolding the definition thirteen times can reach.
    assert(placeholders_before(template, 12) == 0) by {
        reveal_with_fuel(placeholders_before, 13);
    }
    assert(placeholders_before(template, 24) == 2) by {
        reveal_with_fuel(placeholders_before, 13);
    }
    assert(placeholders_before(template, 26) == 2) by {
        reveal_with_fuel(placeholders_before, 13);
    }
}

/// A string of one character occurs in `s` exactly when `s` holds the
/// character.
pub proof fn lemma_one_char_substring(c: char, s: Seq<char>)
    ensures
        is_substring(seq![c], s) <==> s.contains(c),
{
    if is_substring(seq![c], s) {
        let at = choose|at: int| occurs_at(seq![c], s, at);
        assert(s.subrange(at, at + 1)[0] == c);
        assert(s[at] == c);
    }
    if s.contains(c) {
        let at = choose|at: int| 0 <= at < s.len() && s[at] == c;
        assert(s.subrange(at, at + 1) =~= seq![c]);
        assert(occurs_at(seq![c], s, at));
    }
}

/// The settings that `flags` asks for.
pub fn parse_flags(flags: &str) -> (options: RegexOptions)
    ensures
        options == options_of(flags@),
{
    proof {
        reveal_strlit("i");
        reveal_strlit("m");
        reveal_strlit("s");
        reveal_strlit("U");
        reveal_strlit("u");
        reveal_strlit("x");
        assert("i"@ =~= seq!['i']);
        assert("m"@ =~= seq!['m']);
        assert("s"@ =~= seq!['s']);
        assert("U"@ =~= seq!['U']);
        assert("u"@ =~= seq!['u']);
        assert("x"@ =~= seq!['x']);
        lemma_one_char_substring('i', flags@);
        lemma_one_char_substring('m', flags@);
        lemma_one_char_substring('s', flags@);
        lemma_one_char_substring('U', flags@);
        lemma_one_char_substring('u', flags@);
        lemma_one_char_substring('x', flags@);
    }
    RegexOptions {
        case_insensitive: str_contains(flags, "i"),
        multi_line: str_contains(flags, "m"),
        dot_matches_new_line: str_contains(flags, "s"),
        swap_greed: str_contains(flags, "U"),
        unicode: !str_contains(flags, "u"),
        ignore_whitespace: str_contains(flags, "x"),
    }
}

/// Whether `pattern` compiles under the settings that `flags` asks for.
pub fn compiles(pattern: &str, flags: &str) -> (yes: bool)
    ensures
        yes == regex_compiles(pattern@, options_of(flags@)),
{
    compile(pattern, parse_flags(flags)).is_some()
}

/// The failure of a string in which `pattern` under `flags` finds no match.
pub fn regex_failure(pattern: &str, flags: &str) -> (e: Invalid)
    ensures
        e@ == no_match(pattern@, flags@),
{
    let mut human = String::from_str("Must match regex '/");
    human.append(pattern);
    human.append("/");
    human.append(flags);
    human.append("'");
    Invalid::new(
        "Must match regex '/%1/%2'.",
        two_args(pattern.to_owned(), flags.to_owned()),
        human,
    )
}

/// Enforce that a string matches `pattern`, under the settings that the
/// letters of `flags` ask for (see [`options_of`]).
///
/// A match anywhere in the string is enough: `a...` matches `a12345678`. Use
/// `^` and `$` to hold the whole string to the pattern.
///
/// The pattern is compiled here, once. One that does not compile is a mistake
/// of the caller's, so this asks for one that does; [`try_matching`] takes
/// any.
pub fn matching(pattern: &'static str, flags: &'static str) -> (validator: impl Fn(
    &String,
) -> ValidatorResult)
    requires
        regex_compiles(pattern@, options_of(flags@)),
    ensures
        forall|s: &String| call_requires(validator, (s,)),
        forall|s: &String, r: ValidatorResult|
            #[trigger] call_ensures(validator, (s,), r) ==> outcome(r) == regex_outcome(
                pattern@,
                flags@,
                s@,
            ),
{
    let re = match compile(pattern, parse_flags(flags)) {
        Some(re) => re,
        None => vstd::pervasive::unreached(),
    };
    move |s: &String| -> (r: ValidatorResult)
        ensures
            outcome(r) == regex_outcome(pattern@, flags@, s@),
        {
            if is_match(&re, s.as_str()) {
                Ok(())
            } else {
                Err(regex_failure(source(&re), flags))
            }
        }
}

/// The validator of [`matching`] where `pattern` compiles, and `None` where
/// it does not.
pub fn try_matching(pattern: &'static str, flags: &'static str) -> (validator: Option<
    impl Fn(&String) -> ValidatorResult,
>)
    ensures
        validator is Some <==> regex_compiles(pattern@, options_of(flags@)),
        validator matches Some(v) ==> forall|s: &String| call_requires(v, (s,)),
        validator matches Some(v) ==> forall|s: &String, r: ValidatorResult|
            #[trigger] call_ensures(v, (s,), r) ==> outcome(r) == regex_outcome(
                pattern@,
                flags@,
                s@,
            ),
{
    if compiles(pattern, flags) {
        Some(matching(pattern, flags))
    } else {
        None
    }
}

/// The pattern of [`email`]: a local part, `@`, a domain, a dot and a top
/// level of two letters or more.
pub const EMAIL_PATTERN: &'static str = r"^[A-Z0-9._%+-]+@[A-Z0-9.-]+\.[A-Z]{2,}$";

/// The pattern of [`url`]: an optional `http://` or `https://`, a dotted host
/// name, then an optional path, file name, query and fragment.
pub const URL_PATTERN: &'static str =
    r"^(https?://)?([A-Z]+\.)+[A-Z]{2,}(/[A-Z%0-9_]*)*?(/[A-Z%0-9_]*\.[A-Z%0-9_]*)?([#?][A-Z%0-9=&]*){0,2}$";

/// Enforce that a string has the form of an e-mail address: that it matches
/// [`EMAIL_PATTERN`], letters in either case.
pub fn email() -> (validator: impl Fn(&String) -> ValidatorResult)
    requires
        regex_compiles(EMAIL_PATTERN@, options_of("i"@)),
    ensures
        forall|s: &String| call_requires(validator, (s,)),
        forall|s: &String, r: ValidatorResult|
            #[trigger] call_ensures(validator, (s,), r) ==> outcome(r) == regex_outcome(
                EMAIL_PATTERN@,
                "i"@,
                s@,
            ),
{
    matching(EMAIL_PATTERN, "i")
}

/// The validator of [`email`] where its pattern compiles, and `None` where it
/// does not.
pub fn try_email() -> (validator: Option<impl Fn(&String) -> ValidatorResult>)
    ensures
        validator is Some <==> regex_compiles(EMAIL_PATTERN@, options_of("i"@)),
        validator matches Some(v) ==> forall|s: &String| call_requires(v, (s,)),
        validator matches Some(v) ==> forall|s: &String, r: ValidatorResult|
            #[trigger] call_ensures(v, (s,), r) ==> outcome(r) == regex_outcome(
                EMAIL_PATTERN@,
                "i"@,
                s@,
            ),
{
    if compiles(EMAIL_PATTERN, "i") {
        Some(email())
    } else {
        None
    }
}

/// Enforce that a string has the form of a web address: that it matches
/// [`URL_PATTERN`], letters in either case.
pub fn url() -> (validator: impl Fn(&String) -> ValidatorResult)
    requires
        regex_compiles(URL_PATTERN@, options_of("i"@)),
    ensures
        forall|s: &String| call_requires(validator, (s,)),
        forall|s: &String, r: ValidatorResult|
            #[trigger] call_ensures(validator, (s,), r) ==> outcome(r) == regex_outcome(
                URL_PATTERN@,
                "i"@,
                s@,
            ),
{
    matching(URL_PATTERN, "i")
}

/// The validator of [`url`] where its pattern compiles, and `None` where it
/// does not.
pub fn try_url() -> (validator: Option<impl Fn(&String) -> ValidatorResult>)
    ensures
        validator is Some <==> regex_compiles(URL_PATTERN@, options_of("i"@)),
        validator matches Some(v) ==> forall|s: &String| call_requires(v, (s,)),
        validator matches Some(v) ==> forall|s: &String, r: ValidatorResult|
            #[trigger] call_ensures(v, (s,), r) ==> outcome(r) == regex_outcome(
                URL_PATTERN@,
                "i"@,
                s@,
            ),
{
    if compiles(URL_PATTERN, "i") {
        Some(url())
    } else {
        None
    }
}

} // verus!
