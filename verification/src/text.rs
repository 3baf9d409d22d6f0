//! Text primitives that the validators share: how long a string is, how a
//! number is written, and when one string lies inside another.

use std::fmt::Display;
use vstd::prelude::*;
use vstd::string::to_string_from_display_ensures;
use vstd::string::StringExecFns;
use vstd::utf8::{encode_utf8, is_ascii_chars, is_ascii_chars_encode_utf8};

verus! {

/// The length of a string as the validators measure it: the number of bytes of
/// its UTF-8 encoding.
pub open spec fn byte_len(s: Seq<char>) -> nat {
    encode_utf8(s).len()
}

/// A string of ASCII characters alone is as long as it has characters.
pub proof fn lemma_ascii_byte_len(s: Seq<char>)
    requires
        is_ascii_chars(s),
    ensures
        byte_len(s) == s.len(),
{
    is_ascii_chars_encode_utf8(s);
}

/// The length of `s` in bytes.
pub fn length_of(s: &String) -> (n: usize)
    ensures
        n == byte_len(s@),
{
    s.as_str().as_bytes().len()
}

/// The character that writes the digit `d`.
pub open spec fn digit(d: nat) -> char {
    if d == 0 {
        '0'
    } else if d == 1 {
        '1'
    } else if d == 2 {
        '2'
    } else if d == 3 {
        '3'
    } else if d == 4 {
        '4'
    } else if d == 5 {
        '5'
    } else if d == 6 {
        '6'
    } else if d == 7 {
        '7'
    } else if d == 8 {
        '8'
    } else {
        '9'
    }
}

/// `n` written in base ten, without leading zeros.
pub open spec fn decimal(n: nat) -> Seq<char>
    decreases n,
{
    if n < 10 {
        seq![digit(n)]
    } else {
        decimal(n / 10).push(digit(n % 10))
    }
}

/// The number that a character writes as a digit, and 0 for any other
/// character.
pub open spec fn digit_value(c: char) -> nat {
    if '0' <= c <= '9' {
        (c as int - '0' as int) as nat
    } else {
        0
    }
}

/// The number that `digits` writes in base ten.
pub open spec fn decimal_value(digits: Seq<char>) -> nat
    decreases digits.len(),
{
    if digits.len() == 0 {
        0
    } else {
        decimal_value(digits.drop_last()) * 10 + digit_value(digits.last())
    }
}

/// [`decimal`] writes each number in digits that read back as that number,
/// and a number of two digits or more with no zero in front.
pub proof fn lemma_decimal_reads_back(n: nat)
    ensures
        decimal_value(decimal(n)) == n,
        decimal(n).len() >= 1,
        forall|i: int| 0 <= i < decimal(n).len() ==> '0' <= #[trigger] decimal(n)[i] <= '9',
        n >= 10 ==> decimal(n).len() > 1 && decimal(n)[0] != '0',
    decreases n,
{
    assert(digit_value(digit(n % 10)) == n % 10);
    if n >= 10 {
        lemma_decimal_reads_back(n / 10);
        let front = decimal(n / 10);
        assert(decimal(n).drop_last() =~= front);
        assert(decimal(n).last() == digit(n % 10));
        assert(decimal(n)[0] == front[0]);
        if n / 10 < 10 {
            assert(front[0] == digit(n / 10));
        }
    } else {
        assert(decimal(n).drop_last() =~= Seq::<char>::empty());
        assert(decimal_value(decimal(n).drop_last()) == 0);
    }
}

/// The text of the digit `d`.
fn digit_text(d: usize) -> (t: &'static str)
    requires
        d < 10,
    ensures
        t@ == seq![digit(d as nat)],
{
    proof {
        reveal_strlit("0");
        reveal_strlit("1");
        reveal_strlit("2");
        reveal_strlit("3");
        reveal_strlit("4");
        reveal_strlit("5");
        reveal_strlit("6");
        reveal_strlit("7");
        reveal_strlit("8");
        reveal_strlit("9");
    }
    let t = if d == 0 {
        "0"
    } else if d == 1 {
        "1"
    } else if d == 2 {
        "2"
    } else if d == 3 {
        "3"
    } else if d == 4 {
        "4"
    } else if d == 5 {
        "5"
    } else if d == 6 {
        "6"
    } else if d == 7 {
        "7"
    } else if d == 8 {
        "8"
    } else {
        "9"
    };
    assert(t@ =~= seq![digit(d as nat)]);
    t
}

/// `n` written in base ten.
pub fn decimal_string(n: usize) -> (s: String)
    ensures
        s@ == decimal(n as nat),
    decreases n,
{
    if n < 10 {
        String::from_str(digit_text(n))
    } else {
        let mut s = decimal_string(n / 10);
        s.append(digit_text(n % 10));
        assert(s@ =~= decimal(n as nat));
        s
    }
}

/// `left`, `middle` and `right` in one string.
pub fn join3(left: &str, middle: &str, right: &str) -> (s: String)
    ensures
        s@ == left@ + middle@ + right@,
{
    let mut s = String::from_str(left);
    s.append(middle);
    s.append(right);
    s
}

/// Whether `text` is what `Display` writes for `value`. How a type writes its
/// values is its own affair, so nothing more is known of `text` here.
pub open spec fn is_rendering<T: Display>(value: &T, text: Seq<char>) -> bool {
    exists|s: String| s@ == text && to_string_from_display_ensures::<T>(value, s)
}

/// `value` as `Display` writes it.
pub fn render<T: Display>(value: &T) -> (s: String)
    ensures
        is_rendering(value, s@),
{
    value.to_string()
}

/// `String::push`. Trusted: the standard library documents that it appends
/// the character to the end of the string.
#[verifier::external_body]
pub(crate) fn push_char(s: &mut String, c: char)
    ensures
        final(s)@ == old(s)@.push(c),
{
    s.push(c)
}

/// The string made of `c` alone.
pub fn char_string(c: char) -> (s: String)
    ensures
        s@ == seq![c],
{
    let mut s = String::new();
    push_char(&mut s, c);
    assert(s@ =~= seq![c]);
    s
}

/// Whether `needle` stands in `hay` from position `at` on.
pub open spec fn occurs_at(needle: Seq<char>, hay: Seq<char>, at: int) -> bool {
    &&& 0 <= at
    &&& at + needle.len() <= hay.len()
    &&& hay.subrange(at, at + needle.len()) == needle
}

/// Whether `needle` occurs somewhere in `hay`, character for character. The
/// empty string occurs in every string.
pub open spec fn is_substring(needle: Seq<char>, hay: Seq<char>) -> bool {
    exists|at: int| occurs_at(needle, hay, at)
}

/// The empty string occurs in every string, and no string occurs in a
/// shorter one.
pub proof fn lemma_substring_bounds(needle: Seq<char>, hay: Seq<char>)
    ensures
        needle.len() == 0 ==> is_substring(needle, hay),
        needle.len() > hay.len() ==> !is_substring(needle, hay),
{
    if needle.len() == 0 {
        assert(hay.subrange(0, 0) =~= needle);
        assert(occurs_at(needle, hay, 0));
    }
}

/// `str::contains` with a string as the pattern. Trusted: the standard library
/// documents that it returns `true` exactly when the pattern matches a
/// sub-slice of the string, and for a string pattern a match is an occurrence
/// of that string.
#[verifier::external_body]
pub(crate) fn str_contains(hay: &str, needle: &str) -> (b: bool)
    ensures
        b == is_substring(needle@, hay@),
{
    hay.contains(needle)
}

} // verus!
