use accord::validators::{
    alphanumeric, alphanumeric_dashes, contain_only, contains, either, email, eq, length,
    length_if_present, matching, max, min, not_contain, not_contain_any, range, url,
};
use std::fmt;

#[test]
fn test_length() {
    assert!(length(3, 5)(&"12".to_string()).is_err());
    assert!(length(3, 5)(&"123".to_string()).is_ok());
    assert!(length(3, 5)(&"1234".to_string()).is_ok());
    assert!(length(3, 5)(&"12345".to_string()).is_ok());
    assert!(length(3, 5)(&"123456".to_string()).is_err());
}

#[test]
fn test_range() {
    assert!(range(12, 127)(&11).is_err());
    assert!(range(12, 127)(&12).is_ok());
    assert!(range(12, 127)(&50).is_ok());
    assert!(range(12, 127)(&127).is_ok());
    assert!(range(12, 127)(&128).is_err());
}

// contains
#[test]
pub fn contains_valid() {
    assert!(contains("bar")(&"foobar".to_owned()).is_ok());
    assert!(contains("bar")(&"barbaz".to_owned()).is_ok());
    assert!(contains("bar")(&"bar".to_owned()).is_ok());
}

#[test]
pub fn contains_invalid() {
    assert!(contains("bar")(&"foo".to_owned()).is_err());
    assert!(contains("bar")(&"baz".to_owned()).is_err());
    assert!(contains("bar")(&"ba".to_owned()).is_err());
}

// contain_only
#[test]
pub fn contain_only_valid() {
    assert!(contain_only(&['a', 'b', 'c'])(&"aaaaaaaa".to_owned()).is_ok());
    assert!(contain_only(&['a', 'b', 'c'])(&"bbbbbbbb".to_owned()).is_ok());
    assert!(contain_only(&['a', 'b', 'c'])(&"cccccccc".to_owned()).is_ok());
    assert!(contain_only(&['a', 'b', 'c'])(&"abcabcab".to_owned()).is_ok());
}

#[test]
pub fn contain_only_invalid() {
    assert!(contain_only(&['a', 'b', 'c'])(&"abcdefghijklmnopqrstuvwxyz".to_owned()).is_err());
    assert!(contain_only(&['a', 'b', 'c'])(&"abacus".to_owned()).is_err());
    assert!(
        contain_only(&['a', 'b', 'c'])(&"sphinx of black quartz, judge my vow".to_owned())
            .is_err()
    );
}

// not_contain
#[test]
pub fn not_contain_valid() {
    assert!(not_contain("bar")(&"foobaz".to_owned()).is_ok());
    assert!(not_contain("bar")(&"foo".to_owned()).is_ok());
    assert!(not_contain("bar")(&"baz".to_owned()).is_ok());
}

#[test]
pub fn not_contain_invalid() {
    assert!(not_contain("bar")(&"foobarbaz".to_owned()).is_err());
    assert!(not_contain("bar")(&"bar".to_owned()).is_err());
    assert!(not_contain("bar")(&"embark".to_owned()).is_err());
}

// not_contain_any
#[test]
pub fn not_contain_any_valid() {
    assert!(not_contain_any(&["foo", "bar", "baz"])(&"xyzzyx".to_owned()).is_ok());
    assert!(not_contain_any(&["foo", "bar", "baz"])(&"asdfghjkl".to_owned()).is_ok());
    assert!(not_contain_any(&["foo", "bar", "baz"])(&"takyon".to_owned()).is_ok());
}

#[test]
pub fn not_contain_any_invalid() {
    assert!(not_contain_any(&["foo", "bar", "baz"])(&"foo".to_owned()).is_err());
    assert!(not_contain_any(&["foo", "bar", "baz"])(&"bar".to_owned()).is_err());
    assert!(not_contain_any(&["foo", "bar", "baz"])(&"baz".to_owned()).is_err());
    assert!(not_contain_any(&["foo", "bar", "baz"])(&"foobarbaz".to_owned()).is_err());
}

#[derive(PartialEq, Clone)]
enum TestEnum {
    Yes,
    No,
    Maybe,
    IDontKnow,
    RepeatTheQuestion,
}

impl fmt::Display for TestEnum {
    fn fmt(&self, f: &mut fmt::Formatter) -> fmt::Result {
        f.write_str("Doesn't Matter")
    }
}

// eq
#[test]
pub fn eq_valid() {
    assert!(eq(1)(&1).is_ok());
    assert!(eq("yes")(&"yes").is_ok());
    assert!(eq(TestEnum::Yes)(&TestEnum::Yes).is_ok());
    assert!(eq(TestEnum::No)(&TestEnum::No).is_ok());
}

#[test]
pub fn eq_invalid() {
    assert!(eq(1)(&2).is_err());
    assert!(eq("yes")(&"yesn't").is_err());
    assert!(eq(TestEnum::Yes)(&TestEnum::No).is_err());
    assert!(eq(TestEnum::No)(&TestEnum::Yes).is_err());
}

// either
#[test]
pub fn either_valid() {
    assert!(either(vec![1, 2, 3])(&1).is_ok());
    assert!(either(vec![1, 2, 3])(&2).is_ok());
    assert!(either(vec![1, 2, 3])(&3).is_ok());

    assert!(either(vec!["yes", "no"])(&"yes").is_ok());
    assert!(either(vec!["yes", "no"])(&"no").is_ok());

    assert!(either(vec![TestEnum::Maybe, TestEnum::IDontKnow])(&TestEnum::Maybe).is_ok());
    assert!(either(vec![TestEnum::Maybe, TestEnum::IDontKnow])(&TestEnum::IDontKnow).is_ok());
}

#[test]
pub fn either_invalid() {
    assert!(either(vec![1, 2, 3])(&4).is_err());
    assert!(either(vec![1, 2, 3])(&5).is_err());
    assert!(either(vec![1, 2, 3])(&6).is_err());

    assert!(either(vec!["yes", "no"])(&"maybe").is_err());
    assert!(either(vec!["yes", "no"])(&"i don't know").is_err());

    assert!(either(vec![TestEnum::Maybe, TestEnum::IDontKnow])(&TestEnum::Yes).is_err());
    assert!(either(vec![TestEnum::Maybe, TestEnum::IDontKnow])(&TestEnum::No).is_err());
    assert!(
        either(vec![TestEnum::Maybe, TestEnum::IDontKnow])(&TestEnum::RepeatTheQuestion).is_err()
    );
}

// max
#[test]
pub fn max_valid() {
    assert!(max(3)(&"123".to_owned()).is_ok());
    assert!(max(3)(&"12".to_owned()).is_ok());
    assert!(max(3)(&"1".to_owned()).is_ok());
}

#[test]
pub fn max_invalid() {
    assert!(max(3)(&"1234".to_owned()).is_err());
    assert!(max(3)(&"12345".to_owned()).is_err());
    assert!(max(3)(&"123456".to_owned()).is_err());
}

// min
#[test]
pub fn min_valid() {
    assert!(min(3)(&"123".to_owned()).is_ok());
    assert!(min(3)(&"1234".to_owned()).is_ok());
    assert!(min(3)(&"12345".to_owned()).is_ok());
}

#[test]
pub fn min_invalid() {
    assert!(min(3)(&"12".to_owned()).is_err());
    assert!(min(3)(&"1".to_owned()).is_err());
    assert!(min(3)(&"".to_owned()).is_err());
}

// length
#[test]
pub fn length_valid() {
    assert!(length(1, 3)(&"123".to_owned()).is_ok());
    assert!(length(1, 3)(&"12".to_owned()).is_ok());
    assert!(length(1, 3)(&"1".to_owned()).is_ok());
}

#[test]
pub fn length_invalid() {
    assert!(length(1, 3)(&"1234".to_owned()).is_err());
    assert!(length(1, 3)(&"".to_owned()).is_err());
}

// length_if_present
#[test]
pub fn length_if_present_valid() {
    assert!(length_if_present(1, 3)(&Some("123".to_owned())).is_ok());
    assert!(length_if_present(1, 3)(&Some("12".to_owned())).is_ok());
    assert!(length_if_present(1, 3)(&None).is_ok());
}

#[test]
pub fn length_if_present_invalid() {
    assert!(length_if_present(1, 3)(&Some("1234".to_owned())).is_err());
    assert!(length_if_present(1, 3)(&Some("".to_owned())).is_err());
}

// range
#[test]
pub fn range_valid() {
    assert!(range(1, 100)(&1).is_ok());
    assert!(range(1, 100)(&50).is_ok());
    assert!(range(1, 100)(&100).is_ok());
}

#[test]
pub fn range_invalid() {
    assert!(range(1, 100)(&0).is_err());
    assert!(range(1, 100)(&101).is_err());
}

// regular expressions
#[test]
pub fn regex_valid() {
    assert!(matching(r"^a...$", "")(&"a123".to_owned()).is_ok());
    assert!(matching(r"^a...$", "")(&"abcd".to_owned()).is_ok());
    assert!(matching(r"^a...$", "")(&"a!?£".to_owned()).is_ok());
}

#[test]
pub fn regex_invalid() {
    assert!(matching(r"^a...$", "")(&"a".to_owned()).is_err());
    assert!(matching(r"^a...$", "")(&"abc".to_owned()).is_err());
    assert!(matching(r"^a...$", "")(&"a123457".to_owned()).is_err());
    assert!(matching(r"^a...$", "")(&"b".to_owned()).is_err());
    assert!(matching(r"^a...$", "")(&"baaa".to_owned()).is_err());
}

// email
#[test]
pub fn email_valid() {
    assert!(email()(&"asdf@asdf.com".to_owned()).is_ok());
    assert!(email()(&"amazing.email.address@super.amazing.site.tk".to_owned()).is_ok());
    assert!(email()(&"prick@legal.google".to_owned()).is_ok());
}

#[test]
pub fn email_invalid() {
    assert!(email()(&"you tried.".to_owned()).is_err());
    assert!(email()(&"so close @super.amazing.site.tk".to_owned()).is_err());
    assert!(email()(&"prick@legal.g".to_owned()).is_err());
    assert!(email()(&"prick@important legal documents!.google".to_owned()).is_err());
}

// url
#[test]
pub fn url_valid() {
    assert!(url()(&"http://github.com".to_owned()).is_ok());
    assert!(url()(&"https://github.com".to_owned()).is_ok());
    assert!(url()(&"www.github.com".to_owned()).is_ok());
    assert!(url()(&"github.com".to_owned()).is_ok());
    assert!(url()(&"sub.domains.github.fr".to_owned()).is_ok());
    assert!(url()(&"neet.cool".to_owned()).is_ok());

    assert!(url()(&"github.com/org/repo".to_owned()).is_ok());
    assert!(url()(&"github.com/org/repo/logo.jpeg".to_owned()).is_ok());
    assert!(url()(&"github.com/org/repo/README#Usage".to_owned()).is_ok());
    assert!(url()(&"github.com/org/repo?folder=src&sort=desc".to_owned()).is_ok());
}

#[test]
pub fn url_invalid() {
    assert!(url()(&"ftp://super.amazing.site".to_owned()).is_err());
    assert!(url()(&"http/super.amazing.site".to_owned()).is_err());
    assert!(url()(&"my awesome site!!.com".to_owned()).is_err());
    assert!(url()(&"nonon.o".to_owned()).is_err());
    assert!(url()(&"github.com/invalid file".to_owned()).is_err());
    assert!(url()(&"github.com/file? bad query params".to_owned()).is_err());
    assert!(url()(&"github.com/file# bad jump thing".to_owned()).is_err());
}

#[test]
fn alphanumeric_accepts_letters_and_digits_only() {
    assert!(alphanumeric()(&"Abc123xyZ".to_owned()).is_ok());
    assert!(alphanumeric()(&"".to_owned()).is_ok());
    assert!(alphanumeric()(&"my_name".to_owned()).is_err());
    assert!(alphanumeric_dashes()(&"my_radical-username".to_owned()).is_ok());
    assert!(alphanumeric_dashes()(&"wow what".to_owned()).is_err());
}
