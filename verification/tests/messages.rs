use accord::text::{char_string, decimal_string, join3, length_of};
use accord::validators::pattern::{compiles, parse_flags, EMAIL_PATTERN, URL_PATTERN};
use accord::validators::{
    contain_only, contains, either, eq, length, length_if_present, matching, max, min,
    not_contain, not_contain_any, range, try_email, try_matching, try_url,
};
use accord::{Invalid, ValidatorResult};

fn failure(r: ValidatorResult) -> Invalid {
    match r {
        Err(e) => e,
        Ok(()) => panic!("the validator passed"),
    }
}

fn assert_failure(r: ValidatorResult, msg: &str, args: &[&str], human_readable: &str) {
    let e = failure(r);
    assert_eq!(e.msg, msg);
    assert_eq!(e.args, args.to_vec());
    assert_eq!(e.human_readable, human_readable);
}

#[test]
fn min_failure_carries_the_bound() {
    assert_failure(
        min(3)(&"12".to_owned()),
        "Must contain more than %1 characters",
        &["3"],
        "Must contain more than 3 characters",
    );
}

#[test]
fn max_failure_carries_the_bound() {
    assert_failure(
        max(3)(&"1234".to_owned()),
        "Must not contain more characters than %1.",
        &["3"],
        "Must contain less than 3 characters",
    );
}

#[test]
fn length_reports_the_one_bound_that_is_broken() {
    assert_failure(
        length(3, 5)(&"12".to_owned()),
        "Must contain more than %1 characters",
        &["3"],
        "Must contain more than 3 characters",
    );
    assert_failure(
        length(3, 5)(&"123456".to_owned()),
        "Must not contain more characters than %1.",
        &["5"],
        "Must contain less than 5 characters",
    );
}

#[test]
fn length_merges_two_broken_bounds_into_one_failure() {
    assert_failure(
        length(5, 2)(&"abc".to_owned()),
        "Must not be less characters than %1 and not more than %2.",
        &["5", "2"],
        "Must contain between 5 and 1 characters",
    );
    assert_failure(
        length_if_present(5, 2)(&Some("abc".to_owned())),
        "Must not be less characters than %1 and not more than %2.",
        &["5", "2"],
        "Must contain between 5 and 1 characters",
    );
}

#[test]
fn length_with_an_upper_bound_of_zero() {
    assert!(length(0, 0)(&"".to_owned()).is_ok());
    assert_failure(
        length(5, 0)(&"abc".to_owned()),
        "Must not be less characters than %1 and not more than %2.",
        &["5", "0"],
        "Must contain between 5 and 0 characters",
    );
    assert_failure(
        length(0, 0)(&"a".to_owned()),
        "Must not contain more characters than %1.",
        &["0"],
        "Must contain less than 0 characters",
    );
}

#[test]
fn length_is_counted_in_bytes() {
    let pound = "\u{a3}".to_owned();
    assert_eq!(length_of(&pound), 2);
    assert!(max(1)(&pound).is_err());
    assert!(min(2)(&pound).is_ok());
    assert!(length(2, 2)(&pound).is_ok());
    assert_eq!(length_of(&String::new()), 0);
}

#[test]
fn length_fails_exactly_outside_the_bounds() {
    for n in 0..10usize {
        let s = "x".repeat(n);
        assert_eq!(length(3, 5)(&s).is_err(), n < 3 || n > 5);
        assert_eq!(min(3)(&s).is_err(), n < 3);
        assert_eq!(max(5)(&s).is_err(), n > 5);
    }
}

#[test]
fn bounds_are_written_in_base_ten() {
    assert_eq!(decimal_string(0), "0");
    assert_eq!(decimal_string(7), "7");
    assert_eq!(decimal_string(10), "10");
    assert_eq!(decimal_string(1234567890), "1234567890");
    assert_eq!(decimal_string(usize::MAX), usize::MAX.to_string());
    assert_eq!(failure(min(1024)(&String::new())).args, vec!["1024".to_owned()]);
}

#[test]
fn text_helpers() {
    assert_eq!(join3("a", "bc", "d"), "abcd");
    assert_eq!(join3("", "", ""), "");
    assert_eq!(char_string('u'), "u");
    assert_eq!(char_string('\u{a3}'), "\u{a3}");
}

#[test]
fn range_failure_carries_both_bounds() {
    assert_failure(
        range(12, 127)(&11),
        "Must be in the range %1..%2.",
        &["12", "127"],
        "Must be between 12 and 127",
    );
    assert_failure(
        range(-5i64, 5i64)(&6),
        "Must be in the range %1..%2.",
        &["-5", "5"],
        "Must be between -5 and 5",
    );
}

#[test]
fn range_fails_exactly_outside_the_bounds() {
    for x in 0..140 {
        assert_eq!(range(12, 127)(&x).is_err(), x < 12 || x > 127);
    }
    assert!(range("b", "d")(&"c").is_ok());
    assert!(range("b", "d")(&"a").is_err());
    assert!(range(5, 1)(&3).is_err());
}

#[test]
fn contains_failure_names_the_needle() {
    assert_failure(
        contains("bar")(&"foo".to_owned()),
        "Must contain %1.",
        &["bar"],
        "Must contain 'bar'",
    );
}

#[test]
fn contains_is_exact_and_case_sensitive() {
    assert!(contains("Bar")(&"foobar".to_owned()).is_err());
    assert!(contains("bar")(&"fooBAR".to_owned()).is_err());
    assert!(contains("a b")(&"a  b".to_owned()).is_err());
    assert!(not_contain("Bar")(&"foobar".to_owned()).is_ok());
}

#[test]
fn contains_compares_whole_characters() {
    assert!(contains("\u{e9}")(&"caf\u{e9}".to_owned()).is_ok());
    assert!(contains("f\u{e9}")(&"caf\u{e9}s".to_owned()).is_ok());
    assert!(contains("e")(&"caf\u{e9}".to_owned()).is_err());
    assert!(not_contain("\u{e8}")(&"caf\u{e9}".to_owned()).is_ok());
}

#[test]
fn the_empty_needle_is_in_every_string() {
    assert!(contains("")(&"foo".to_owned()).is_ok());
    assert!(contains("")(&"".to_owned()).is_ok());
    assert!(not_contain("")(&"".to_owned()).is_err());
    assert!(contains("a")(&"".to_owned()).is_err());
}

#[test]
fn not_contain_failure_names_the_needle() {
    assert_failure(
        not_contain("bar")(&"embark".to_owned()),
        "Must not contain %1.",
        &["bar"],
        "Must not contain 'bar'",
    );
}

#[test]
fn not_contain_any_reports_the_first_needle_of_the_list() {
    assert_failure(
        not_contain_any(&["1234", "admin", "password"])(&"admin1234password".to_owned()),
        "Must not contain %1.",
        &["1234"],
        "Must not contain '1234'",
    );
    assert_failure(
        not_contain_any(&["1234", "admin", "password"])(&"my password".to_owned()),
        "Must not contain %1.",
        &["password"],
        "Must not contain 'password'",
    );
    assert!(not_contain_any(&[])(&"anything".to_owned()).is_ok());
}

#[test]
fn contain_only_reports_the_first_foreign_character() {
    assert_failure(
        contain_only(&['a', 'b', 'c'])(&"abacus".to_owned()),
        "Must not contain %1.",
        &["u"],
        "Must not contain 'u'",
    );
    assert_failure(
        contain_only(&['a', 'b', 'c'])(&"ab\u{a3}d".to_owned()),
        "Must not contain %1.",
        &["\u{a3}"],
        "Must not contain '\u{a3}'",
    );
    assert!(contain_only(&[])(&"".to_owned()).is_ok());
    assert!(contain_only(&[])(&"a".to_owned()).is_err());
}

#[test]
fn eq_failure_names_the_expected_value() {
    assert_failure(eq(1)(&2), "Does not equal %1.", &["1"], "Does not equal '1'");
    assert_failure(
        eq("yes")(&"yesn't"),
        "Does not equal %1.",
        &["yes"],
        "Does not equal 'yes'",
    );
}

#[test]
fn either_failure_lists_all_values_in_order() {
    assert_failure(
        either(vec![1, 2, 3])(&4),
        "Must be one of %1.",
        &["1, 2, 3"],
        "Must be one of 1, 2, 3",
    );
    assert_failure(
        either(vec!["yes"])(&"no"),
        "Must be one of %1.",
        &["yes"],
        "Must be one of yes",
    );
    assert_failure(
        either(Vec::<i32>::new())(&0),
        "Must be one of %1.",
        &[""],
        "Must be one of ",
    );
    assert!(either(vec![3, 1, 3])(&3).is_ok());
}

#[test]
fn pattern_failure_carries_pattern_and_flags() {
    assert_failure(
        matching(r"^a...$", "")(&"abc".to_owned()),
        "Must match regex '/%1/%2'.",
        &["^a...$", ""],
        "Must match regex '/^a...$/'",
    );
    assert_failure(
        matching(r"^a...$", "im")(&"b".to_owned()),
        "Must match regex '/%1/%2'.",
        &["^a...$", "im"],
        "Must match regex '/^a...$/im'",
    );
}

#[test]
fn a_match_anywhere_is_enough() {
    assert!(matching(r"a...", "")(&"a12345678".to_owned()).is_ok());
    assert!(matching(r"^a...$", "")(&"a12345678".to_owned()).is_err());
}

#[test]
fn each_flag_switches_its_setting() {
    assert!(matching(r"^abc$", "")(&"ABC".to_owned()).is_err());
    assert!(matching(r"^abc$", "i")(&"ABC".to_owned()).is_ok());
    assert!(matching(r"^b$", "")(&"a\nb".to_owned()).is_err());
    assert!(matching(r"^b$", "m")(&"a\nb".to_owned()).is_ok());
    assert!(matching(r"^a.b$", "")(&"a\nb".to_owned()).is_err());
    assert!(matching(r"^a.b$", "s")(&"a\nb".to_owned()).is_ok());
    assert!(matching(r"^a b$", "")(&"ab".to_owned()).is_err());
    assert!(matching(r"^a b$", "x")(&"ab".to_owned()).is_ok());
    assert!(matching(r"^\w$", "")(&"\u{e9}".to_owned()).is_ok());
    assert!(matching(r"^\w$", "u")(&"\u{e9}".to_owned()).is_err());
    assert!(matching(r"^a.B$", "si")(&"A\nb".to_owned()).is_ok());
}

#[test]
fn flags_are_read_letter_by_letter() {
    let none = parse_flags("");
    assert!(!none.case_insensitive);
    assert!(!none.multi_line);
    assert!(!none.dot_matches_new_line);
    assert!(!none.swap_greed);
    assert!(none.unicode);
    assert!(!none.ignore_whitespace);

    let all = parse_flags("imsUux");
    assert!(all.case_insensitive);
    assert!(all.multi_line);
    assert!(all.dot_matches_new_line);
    assert!(all.swap_greed);
    assert!(!all.unicode);
    assert!(all.ignore_whitespace);

    let some = parse_flags("x?U");
    assert!(!some.case_insensitive);
    assert!(some.swap_greed);
    assert!(some.unicode);
    assert!(some.ignore_whitespace);

    let capital = parse_flags("I");
    assert!(!capital.case_insensitive);
}

#[test]
fn a_pattern_that_does_not_compile_gives_no_validator() {
    assert!(!compiles("(", ""));
    assert!(try_matching("(", "").is_none());
    assert!(try_matching("[a-", "i").is_none());
    assert!(!compiles(r".", "u"));
    assert!(compiles(r".", ""));
    assert!(compiles(r"^a...$", ""));
}

#[test]
fn a_pattern_that_compiles_gives_its_validator() {
    let v = match try_matching(r"^a...$", "") {
        Some(v) => v,
        None => panic!("the pattern compiles"),
    };
    assert!(v(&"a123".to_owned()).is_ok());
    assert!(v(&"a".to_owned()).is_err());
}

#[test]
fn the_stock_patterns_compile() {
    assert!(compiles(EMAIL_PATTERN, "i"));
    assert!(compiles(URL_PATTERN, "i"));
    let email = match try_email() {
        Some(v) => v,
        None => panic!("the pattern compiles"),
    };
    assert!(email(&"asdf@asdf.com".to_owned()).is_ok());
    assert!(email(&"ASDF@ASDF.COM".to_owned()).is_ok());
    assert!(email(&"you tried.".to_owned()).is_err());
    let url = match try_url() {
        Some(v) => v,
        None => panic!("the pattern compiles"),
    };
    assert!(url(&"https://github.com".to_owned()).is_ok());
    assert!(url(&"nonon.o".to_owned()).is_err());
    assert_failure(
        url(&"nonon.o".to_owned()),
        "Must match regex '/%1/%2'.",
        &[URL_PATTERN, "i"],
        &format!("Must match regex '/{}/i'", URL_PATTERN),
    );
}

#[test]
fn a_validator_says_the_same_each_time() {
    let v = length(3, 5);
    let s = "12".to_owned();
    let first = failure(v(&s));
    let second = failure(v(&s));
    assert_eq!(first.msg, second.msg);
    assert_eq!(first.args, second.args);
    assert_eq!(first.human_readable, second.human_readable);
    assert!(v(&"1234".to_owned()).is_ok());
    assert!(v(&"1234".to_owned()).is_ok());
}
