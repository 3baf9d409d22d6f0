//! What a string must hold, and what it must not.

use crate::report::{
    one_arg, outcome, placeholders_before, Invalid, InvalidView, ValidatorResult,
};
use crate::text::{char_string, is_substring, join3, str_contains};
use vstd::prelude::*;

verus! {

/// The failure of a string that lacks `needle`.
pub open spec fn missing(needle: Seq<char>) -> InvalidView {
    InvalidView {
        msg: "Must contain %1."@,
        args: seq![needle],
        human_readable: "Must contain '"@ + needle + "'"@,
    }
}

/// The failure of a string that holds `needle`.
pub open spec fn forbidden(needle: Seq<char>) -> InvalidView {
    InvalidView {
        msg: "Must not contain %1."@,
        args: seq![needle],
        human_readable: "Must not contain '"@ + needle + "'"@,
    }
}

/// What [`contains`] says of `s`.
pub open spec fn contains_outcome(needle: Seq<char>, s: Seq<char>) -> Option<InvalidView> {
    if is_substring(needle, s) {
        None
    } else {
        Some(missing(needle))
    }
}

/// What [`not_contain`] says of `s`.
pub open spec fn not_contain_outcome(needle: Seq<char>, s: Seq<char>) -> Option<InvalidView> {
    if is_substring(needle, s) {
        Some(forbidden(needle))
    } else {
        None
    }
}

/// The text of each of `needles`, in order.
pub open spec fn needle_texts(needles: Seq<&'static str>) -> Seq<Seq<char>> {
    needles.map_values(|n: &'static str| n@)
}

/// The first of `needles`, from position `from` on, that occurs in `s`.
pub open spec fn first_contained(needles: Seq<Seq<char>>, s: Seq<char>, from: int) -> Option<
    Seq<char>,
>
    decreases needles.len() - from,
{
    if from < 0 || from >= needles.len() {
        None
    } else if is_substring(needles[from], s) {
        Some(needles[from])
    } else {
        first_contained(needles, s, from + 1)
    }
}

/// What [`not_contain_any`] says of `s`: the failure of the first needle, in
/// the order of the list, that `s` holds.
pub open spec fn not_contain_any_outcome(needles: Seq<Seq<char>>, s: Seq<char>) -> Option<
    InvalidView,
> {
    match first_contained(needles, s, 0) {
        Some(needle) => Some(forbidden(needle)),
        None => None,
    }
}

/// The first character of `s`, from position `from` on, that is none of
/// `accepted`.
pub open spec fn first_foreign(accepted: Seq<char>, s: Seq<char>, from: int) -> Option<char>
    decreases s.len() - from,
{
    if from < 0 || from >= s.len() {
        None
    } else if !accepted.contains(s[from]) {
        Some(s[from])
    } else {
        first_foreign(accepted, s, from + 1)
    }
}

/// What [`contain_only`] says of `s`: the failure of its first character that
/// is not accepted.
pub open spec fn contain_only_outcome(accepted: Seq<char>, s: Seq<char>) -> Option<InvalidView> {
    match first_foreign(accepted, s, 0) {
        Some(c) => Some(forbidden(seq![c])),
        None => None,
    }
}

/// Whether the needle at position `at` occurs in `s`, and none of those
/// from position `from` up to it does.
pub open spec fn is_first_contained(
    needles: Seq<Seq<char>>,
    s: Seq<char>,
    from: int,
    at: int,
) -> bool {
    &&& from <= at < needles.len()
    &&& is_substring(needles[at], s)
    &&& forall|j: int| from <= j < at ==> !is_substring(#[trigger] needles[j], s)
}

/// [`first_contained`] finds the needle of the least position that occurs in
/// `s`, and finds none exactly when no needle occurs in `s`.
pub proof fn lemma_first_contained(needles: Seq<Seq<char>>, s: Seq<char>, from: int)
    requires
        0 <= from,
    ensures
        first_contained(needles, s, from) matches Some(needle) ==> exists|at: int|
            is_first_contained(needles, s, from, at) && needle == needles[at],
        first_contained(needles, s, from) is None <==> forall|j: int|
            from <= j < needles.len() ==> !is_substring(#[trigger] needles[j], s),
    decreases needles.len() - from,
{
    if from < needles.len() {
        lemma_first_contained(needles, s, from + 1);
        if is_substring(needles[from], s) {
            assert(is_first_contained(needles, s, from, from));
        } else {
            if first_contained(needles, s, from) is Some {
                let at = choose|at: int|
                    is_first_contained(needles, s, from + 1, at) && first_contained(
                        needles,
                        s,
                        from + 1,
                    )->0 == needles[at];
                assert(is_first_contained(needles, s, from, at));
            }
        }
    }
}

/// Whether the character at position `at` of `s` is none of `accepted`, and
/// all those from position `from` up to it are.
pub open spec fn is_first_foreign(accepted: Seq<char>, s: Seq<char>, from: int, at: int) -> bool {
    &&& from <= at < s.len()
    &&& !accepted.contains(s[at])
    &&& forall|j: int| from <= j < at ==> accepted.contains(#[trigger] s[j])
}

/// [`first_foreign`] finds the character of the least position that is not
/// accepted, and finds none exactly when every character is accepted.
pub proof fn lemma_first_foreign(accepted: Seq<char>, s: Seq<char>, from: int)
    requires
        0 <= from,
    ensures
        first_foreign(accepted, s, from) matches Some(c) ==> exists|at: int|
            is_first_foreign(accepted, s, from, at) && c == s[at],
        first_foreign(accepted, s, from) is None <==> forall|j: int|
            from <= j < s.len() ==> accepted.contains(#[trigger] s[j]),
    decreases s.len() - from,
{
    if from < s.len() {
        lemma_first_foreign(accepted, s, from + 1);
        if !accepted.contains(s[from]) {
            assert(is_first_foreign(accepted, s, from, from));
        } else {
            if first_foreign(accepted, s, from) is Some {
                let at = choose|at: int|
                    is_first_foreign(accepted, s, from + 1, at) && first_foreign(
                        accepted,
                        s,
                        from + 1,
                    )->0 == s[at];
                assert(is_first_foreign(accepted, s, from, at));
            }
        }
    }
}

/// The failures of the needles have one placeholder, for the needle.
pub proof fn lemma_contains_failures_consistent(needle: Seq<char>)
    ensures
        missing(needle).is_consistent(),
        forbidden(needle).is_consistent(),
{
    let must = "Must contain %1."@;
    let must_not = "Must not contain %1."@;
    reveal_strlit("Must contain %1.");
    reveal_strlit("Must not contain %1.");
    // The count is followed a dozen places at a time, which keeps each step
    // within what unfolding the definition thirteen times can reach.
    assert(placeholders_before(must, 12) == 0) by {
        reveal_with_fuel(placeholders_before, 13);
    }
    assert(placeholders_before(must, 16) == 1) by {
        reveal_with_fuel(placeholders_before, 13);
    }
    assert(placeholders_before(must_not, 12) == 0) by {
        reveal_with_fuel(placeholders_before, 13);
    }
    assert(placeholders_before(must_not, 20) == 1) by {
        reveal_with_fuel(placeholders_before, 13);
    }
}

/// The failure of a string that lacks `needle`.
fn missing_failure(needle: &str) -> (e: Invalid)
    ensures
        e@ == missing(needle@),
{
    let human = join3("Must contain '", needle, "'");
    Invalid::new("Must contain %1.", one_arg(needle.to_owned()), human)
}

/// The failure of a string that holds `needle`.
fn forbidden_failure(needle: &str) -> (e: Invalid)
    ensures
        e@ == forbidden(needle@),
{
    let human = join3("Must not contain '", needle, "'");
    Invalid::new("Must not contain %1.", one_arg(needle.to_owned()), human)
}

/// Whether `c` is one of `accepted`.
pub fn is_accepted(accepted: &[char], c: char) -> (yes: bool)
    ensures
        yes == accepted@.contains(c),
{
    let mut i: usize = 0;
    while i < accepted.len()
        invariant
            i <= accepted@.len(),
            forall|j: int| 0 <= j < i ==> accepted@[j] != c,
        decreases accepted@.len() - i,
    {
        if accepted[i] == c {
            return true;
        }
        i += 1;
    }
    false
}

/// The first character of `s` that is none of `accepted`.
pub fn find_foreign(accepted: &[char], s: &str) -> (found: Option<char>)
    ensures
        found == first_foreign(accepted@, s@, 0),
{
    for c in it: s.chars()
        invariant
            it.seq() == s@,
            first_foreign(accepted@, s@, 0) == first_foreign(accepted@, s@, it.index() as int),
    {
        if !is_accepted(accepted, c) {
            return Some(c);
        }
    }
    None
}

/// The first of `needles` that occurs in `s`.
pub fn find_contained(needles: &[&'static str], s: &str) -> (found: Option<&'static str>)
    ensures
        (match found {
            Some(needle) => first_contained(needle_texts(needles@), s@, 0) == Some(needle@),
            None => first_contained(needle_texts(needles@), s@, 0) is None,
        }),
{
    let mut i: usize = 0;
    while i < needles.len()
        invariant
            i <= needles@.len(),
            first_contained(needle_texts(needles@), s@, 0) == first_contained(
                needle_texts(needles@),
                s@,
                i as int,
            ),
        decreases needles@.len() - i,
    {
        if str_contains(s, needles[i]) {
            return Some(needles[i]);
        }
        i += 1;
    }
    None
}

/// Enforce that a string holds `needle`: it passes exactly when `needle`
/// occurs in it, with no regard to case or any other likeness.
pub fn contains(needle: &'static str) -> (validator: impl Fn(&String) -> ValidatorResult)
    ensures
        forall|s: &String| call_requires(validator, (s,)),
        forall|s: &String, r: ValidatorResult|
            #[trigger] call_ensures(validator, (s,), r) ==> outcome(r) == contains_outcome(
                needle@,
                s@,
            ),
        forall|s: &String, r: ValidatorResult|
            #[trigger] call_ensures(validator, (s,), r) ==> (r is Ok <==> is_substring(
                needle@,
                s@,
            )),
{
    move |s: &String| -> (r: ValidatorResult)
        ensures
            outcome(r) == contains_outcome(needle@, s@),
            r is Ok <==> is_substring(needle@, s@),
        {
            if str_contains(s.as_str(), needle) {
                Ok(())
            } else {
                Err(missing_failure(needle))
            }
        }
}

/// Enforce that a string holds only characters of `accepted`. The failure
/// names the first character that is not accepted.
pub fn contain_only(accepted: &'static [char]) -> (validator: impl Fn(&String) -> ValidatorResult)
    ensures
        forall|s: &String| call_requires(validator, (s,)),
        forall|s: &String, r: ValidatorResult|
            #[trigger] call_ensures(validator, (s,), r) ==> outcome(r) == contain_only_outcome(
                accepted@,
                s@,
            ),
        forall|s: &String, r: ValidatorResult|
            #[trigger] call_ensures(validator, (s,), r) ==> (r is Ok <==> forall|i: int|
                0 <= i < s@.len() ==> accepted@.contains(#[trigger] s@[i])),
{
    move |s: &String| -> (r: ValidatorResult)
        ensures
            outcome(r) == contain_only_outcome(accepted@, s@),
            r is Ok <==> forall|i: int| 0 <= i < s@.len() ==> accepted@.contains(#[trigger] s@[i]),
        {
            proof {
                lemma_first_foreign(accepted@, s@, 0);
            }
            match find_foreign(accepted, s.as_str()) {
                Some(c) => Err(forbidden_failure(char_string(c).as_str())),
                None => Ok(()),
            }
        }
}

/// Enforce that a string does not hold `needle`.
pub fn not_contain(needle: &'static str) -> (validator: impl Fn(&String) -> ValidatorResult)
    ensures
        forall|s: &String| call_requires(validator, (s,)),
        forall|s: &String, r: ValidatorResult|
            #[trigger] call_ensures(validator, (s,), r) ==> outcome(r) == not_contain_outcome(
                needle@,
                s@,
            ),
        forall|s: &String, r: ValidatorResult|
            #[trigger] call_ensures(validator, (s,), r) ==> (r is Ok <==> !is_substring(
                needle@,
                s@,
            )),
{
    move |s: &String| -> (r: ValidatorResult)
        ensures
            outcome(r) == not_contain_outcome(needle@, s@),
            r is Ok <==> !is_substring(needle@, s@),
        {
            if !str_contains(s.as_str(), needle) {
                Ok(())
            } else {
                Err(forbidden_failure(needle))
            }
        }
}

/// Enforce that a string holds none of `needles`. It fails exactly when it
/// holds at least one of them; the failure names the first that it holds, in
/// the order of the list.
pub fn not_contain_any(needles: &'static [&'static str]) -> (validator: impl Fn(
    &String,
) -> ValidatorResult)
    ensures
        forall|s: &String| call_requires(validator, (s,)),
        forall|s: &String, r: ValidatorResult|
            #[trigger] call_ensures(validator, (s,), r) ==> outcome(r)
                == not_contain_any_outcome(needle_texts(needles@), s@),
        forall|s: &String, r: ValidatorResult|
            #[trigger] call_ensures(validator, (s,), r) ==> (r is Err <==> exists|i: int|
                0 <= i < needles@.len() && is_substring((#[trigger] needles@[i])@, s@)),
{
    move |s: &String| -> (r: ValidatorResult)
        ensures
            outcome(r) == not_contain_any_outcome(needle_texts(needles@), s@),
            r is Err <==> exists|i: int|
                0 <= i < needles@.len() && is_substring((#[trigger] needles@[i])@, s@),
        {
            proof {
                let texts = needle_texts(needles@);
                lemma_first_contained(texts, s@, 0);
                if first_contained(texts, s@, 0) is Some {
                    let i = choose|i: int| is_first_contained(texts, s@, 0, i);
                    assert(is_substring(needles@[i]@, s@));
                }
                if exists|i: int|
                    0 <= i < needles@.len() && is_substring((#[trigger] needles@[i])@, s@) {
                    let i = choose|i: int|
                        0 <= i < needles@.len() && is_substring((#[trigger] needles@[i])@, s@);
                    assert(is_substring(texts[i], s@));
                }
            }
            match find_contained(needles, s.as_str()) {
                Some(needle) => Err(forbidden_failure(needle)),
                None => Ok(()),
            }
        }
}

/// The digits and the unaccented Latin letters, capitals first.
pub open spec fn alphanumerics() -> Seq<char> {
    seq![
        '0', '1', '2', '3', '4', '5', '6', '7', '8', '9', 'A', 'B', 'C', 'D', 'E', 'F', 'G', 'H',
        'I', 'J', 'K', 'L', 'M', 'N', 'O', 'P', 'Q', 'R', 'S', 'T', 'U', 'V', 'W', 'X', 'Y', 'Z',
        'a', 'b', 'c', 'd', 'e', 'f', 'g', 'h', 'i', 'j', 'k', 'l', 'm', 'n', 'o', 'p', 'q', 'r',
        's', 't', 'u', 'v', 'w', 'x', 'y', 'z',
    ]
}

/// [`alphanumerics`], then the underscore and the hyphen.
pub open spec fn alphanumerics_and_dashes() -> Seq<char> {
    alphanumerics().push('_').push('-')
}

/// Whether `c` is a digit or an unaccented Latin letter.
pub open spec fn is_alphanumeric(c: char) -> bool {
    ||| '0' <= c <= '9'
    ||| 'A' <= c <= 'Z'
    ||| 'a' <= c <= 'z'
}

/// Whether `c` is a digit, an unaccented Latin letter, an underscore or a
/// hyphen.
pub open spec fn is_alphanumeric_or_dash(c: char) -> bool {
    is_alphanumeric(c) || c == '_' || c == '-'
}

/// [`alphanumerics`] holds the digits and the unaccented Latin letters, and
/// nothing else.
pub proof fn lemma_alphanumerics(c: char)
    ensures
        alphanumerics().contains(c) <==> is_alphanumeric(c),
        alphanumerics_and_dashes().contains(c) <==> is_alphanumeric_or_dash(c),
{
    let all = alphanumerics();
    let more = alphanumerics_and_dashes();
    assert(all.len() == 62);
    if '0' <= c <= '9' {
        assert(all[c as int - '0' as int] == c);
    }
    if 'A' <= c <= 'Z' {
        assert(all[c as int - 'A' as int + 10] == c);
    }
    if 'a' <= c <= 'z' {
        assert(all[c as int - 'a' as int + 36] == c);
    }
    if all.contains(c) {
        let i = choose|i: int| 0 <= i < all.len() && all[i] == c;
        assert(more[i] == c);
    }
    assert(more[62] == '_');
    assert(more[63] == '-');
    if more.contains(c) {
        let i = choose|i: int| 0 <= i < more.len() && more[i] == c;
        if i < 62 {
            assert(all[i] == c);
        }
    }
}

/// Enforce that a string holds only digits and unaccented Latin letters.
pub fn alphanumeric() -> (validator: impl Fn(&String) -> ValidatorResult)
    ensures
        forall|s: &String| call_requires(validator, (s,)),
        forall|s: &String, r: ValidatorResult|
            #[trigger] call_ensures(validator, (s,), r) ==> outcome(r) == contain_only_outcome(
                alphanumerics(),
                s@,
            ),
        forall|s: &String, r: ValidatorResult|
            #[trigger] call_ensures(validator, (s,), r) ==> (r is Ok <==> forall|i: int|
                0 <= i < s@.len() ==> is_alphanumeric(#[trigger] s@[i])),
{
    assert forall|c: char| #[trigger] alphanumerics().contains(c) <==> is_alphanumeric(c) by {
        lemma_alphanumerics(c);
    }
    let accepted: &'static [char] = &[
        '0', '1', '2', '3', '4', '5', '6', '7', '8', '9', 'A', 'B', 'C', 'D', 'E', 'F', 'G', 'H',
        'I', 'J', 'K', 'L', 'M', 'N', 'O', 'P', 'Q', 'R', 'S', 'T', 'U', 'V', 'W', 'X', 'Y', 'Z',
        'a', 'b', 'c', 'd', 'e', 'f', 'g', 'h', 'i', 'j', 'k', 'l', 'm', 'n', 'o', 'p', 'q', 'r',
        's', 't', 'u', 'v', 'w', 'x', 'y', 'z',
    ];
    assert(accepted@ =~= alphanumerics());
    contain_only(accepted)
}

/// Enforce that a string holds only digits, unaccented Latin letters,
/// underscores and hyphens.
pub fn alphanumeric_dashes() -> (validator: impl Fn(&String) -> ValidatorResult)
    ensures
        forall|s: &String| call_requires(validator, (s,)),
        forall|s: &String, r: ValidatorResult|
            #[trigger] call_ensures(validator, (s,), r) ==> outcome(r) == contain_only_outcome(
                alphanumerics_and_dashes(),
                s@,
            ),
        forall|s: &String, r: ValidatorResult|
            #[trigger] call_ensures(validator, (s,), r) ==> (r is Ok <==> forall|i: int|
                0 <= i < s@.len() ==> is_alphanumeric_or_dash(#[trigger] s@[i])),
{
    assert forall|c: char| #[trigger]
        alphanumerics_and_dashes().contains(c) <==> is_alphanumeric_or_dash(c) by {
        lemma_alphanumerics(c);
    }
    let accepted: &'static [char] = &[
        '0', '1', '2', '3', '4', '5', '6', '7', '8', '9', 'A', 'B', 'C', 'D', 'E', 'F', 'G', 'H',
        'I', 'J', 'K', 'L', 'M', 'N', 'O', 'P', 'Q', 'R', 'S', 'T', 'U', 'V', 'W', 'X', 'Y', 'Z',
        'a', 'b', 'c', 'd', 'e', 'f', 'g', 'h', 'i', 'j', 'k', 'l', 'm', 'n', 'o', 'p', 'q', 'r',
        's', 't', 'u', 'v', 'w', 'x', 'y', 'z', '_', '-',
    ];
    assert(accepted@ =~= alphanumerics_and_dashes());
    contain_only(accepted)
}

} // verus!
