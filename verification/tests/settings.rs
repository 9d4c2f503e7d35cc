use palindrome_policy::settings::{is_palindrome, Settings, ValidationError};
use palindrome_policy::text::{join, signed_to_string, unsigned_to_string};

fn labels(names: &[&str]) -> Vec<String> {
    names.iter().map(|name| name.to_string()).collect()
}

#[test]
fn validate_settings_ok() {
    let settings = Settings {
        threshold: 0,
        whitelisted_labels: Vec::new(),
    };

    assert!(settings.validate().is_ok());
}

#[test]
fn validate_settings_invalid_whitelisted_labels() {
    let settings = Settings {
        threshold: 0,
        whitelisted_labels: labels(&["foo", "baz"]),
    };

    assert!(settings.validate().is_err());
}

#[test]
fn validate_settings_invalid_threshold() {
    let settings = Settings {
        threshold: -5,
        whitelisted_labels: Vec::new(),
    };

    assert!(settings.validate().is_err());
}

#[test]
fn test_is_palindrome() {
    assert!(is_palindrome("level"));
    assert!(!is_palindrome("foo"));
    assert!(is_palindrome("a"));
    assert!(is_palindrome("aa"));
    assert!(is_palindrome("aba"));
}

#[test]
fn settings_validate_settings_ok() {
    let settings = Settings {
        threshold: 0,
        whitelisted_labels: Vec::new(),
    };

    assert!(settings.validate().is_ok());
}

#[test]
fn settings_validate_settings_invalid_whitelisted_labels() {
    let settings = Settings {
        threshold: 0,
        whitelisted_labels: labels(&["foo", "baz"]),
    };

    assert!(settings.validate().is_err());
}

#[test]
fn settings_validate_settings_invalid_threshold() {
    let settings = Settings {
        threshold: -5,
        whitelisted_labels: Vec::new(),
    };

    assert!(settings.validate().is_err());
}

#[test]
fn settings_test_is_palindrome() {
    assert!(is_palindrome("level"));
    assert!(!is_palindrome("foo"));
    assert!(is_palindrome("a"));
    assert!(is_palindrome("aa"));
    assert!(is_palindrome("aba"));
}

#[test]
fn empty_string_is_a_palindrome() {
    assert!(is_palindrome(""));
}

#[test]
fn palindrome_is_case_sensitive() {
    assert!(!is_palindrome("Level"));
    assert!(is_palindrome("LeveL"));
}

#[test]
fn palindrome_compares_bytes_not_characters() {
    // "éé" is a palindrome of characters, but its four bytes C3 A9 C3 A9 are not.
    assert!(!is_palindrome("éé"));
    assert!(!is_palindrome("aéa"));
    assert!(is_palindrome("e\u{301}e") == false);
}

#[test]
fn palindrome_agrees_with_its_reversal() {
    for word in ["", "a", "ab", "aba", "abca", "level", "radar", "foo", "abba", "abcba", "xyz"] {
        let reversed: String = word.chars().rev().collect();
        assert_eq!(is_palindrome(word), is_palindrome(&reversed), "{}", word);
    }
}

#[test]
fn palindrome_is_its_own_reversal() {
    for word in ["", "a", "ab", "aba", "abca", "level", "radar", "foo", "abba"] {
        let mut bytes = word.as_bytes().to_vec();
        bytes.reverse();
        assert_eq!(is_palindrome(word), bytes == word.as_bytes(), "{}", word);
    }
}

#[test]
fn default_settings_are_valid() {
    let settings = Settings::default();
    assert_eq!(settings.threshold, 0);
    assert!(settings.whitelisted_labels.is_empty());
    assert_eq!(settings.validate(), Ok(()));
}

#[test]
fn negative_threshold_is_reported() {
    let settings = Settings {
        threshold: -1,
        whitelisted_labels: Vec::new(),
    };
    assert_eq!(settings.validate(), Err(ValidationError::InvalidThreshold(-1)));
}

#[test]
fn offending_labels_are_joined_by_commas() {
    let settings = Settings {
        threshold: 0,
        whitelisted_labels: labels(&["foo", "level", "baz"]),
    };
    assert_eq!(
        settings.validate(),
        Err(ValidationError::InvalidWhitelist(String::from("foo,baz")))
    );
}

#[test]
fn one_offending_label_has_no_comma() {
    let settings = Settings {
        threshold: 3,
        whitelisted_labels: labels(&["radar", "nope"]),
    };
    assert_eq!(
        settings.validate(),
        Err(ValidationError::InvalidWhitelist(String::from("nope")))
    );
}

#[test]
fn whitelist_is_reported_before_threshold() {
    let settings = Settings {
        threshold: -2,
        whitelisted_labels: labels(&["foo"]),
    };
    assert_eq!(
        settings.validate(),
        Err(ValidationError::InvalidWhitelist(String::from("foo")))
    );
}

#[test]
fn palindrome_whitelist_with_threshold_is_valid() {
    let settings = Settings {
        threshold: 7,
        whitelisted_labels: labels(&["level", "radar", "a", ""]),
    };
    assert_eq!(settings.validate(), Ok(()));
}

#[test]
fn validation_fails_exactly_on_bad_threshold_or_bad_whitelist() {
    for threshold in [-3, -1, 0, 1, 5] {
        for whitelist in [labels(&[]), labels(&["level"]), labels(&["foo"]), labels(&["aba", "ab"])] {
            let bad = threshold < 0 || whitelist.iter().any(|label| !is_palindrome(label));
            let settings = Settings {
                threshold,
                whitelisted_labels: whitelist,
            };
            assert_eq!(settings.validate().is_err(), bad);
        }
    }
}

#[test]
fn error_messages() {
    assert_eq!(
        ValidationError::InvalidWhitelist(String::from("foo,baz")).message(),
        "whitelisted_labels contains non palindrome labels: foo,baz"
    );
    assert_eq!(
        ValidationError::InvalidThreshold(-5).message(),
        "Threshold cannot be negative: -5"
    );
    assert_eq!(
        ValidationError::InvalidThreshold(i32::MIN).message(),
        "Threshold cannot be negative: -2147483648"
    );
}

#[test]
fn whitelist_membership() {
    let settings = Settings {
        threshold: 0,
        whitelisted_labels: labels(&["level", "radar"]),
    };
    assert!(settings.is_whitelisted(&String::from("level")));
    assert!(settings.is_whitelisted(&String::from("radar")));
    assert!(!settings.is_whitelisted(&String::from("leve")));
    assert!(!settings.is_whitelisted(&String::from("")));
    assert!(!Settings::default().is_whitelisted(&String::from("level")));
}

#[test]
fn numbers_in_decimal() {
    assert_eq!(unsigned_to_string(0), "0");
    assert_eq!(unsigned_to_string(7), "7");
    assert_eq!(unsigned_to_string(10), "10");
    assert_eq!(unsigned_to_string(1234567890), "1234567890");
    assert_eq!(unsigned_to_string(u64::MAX), u64::MAX.to_string());
    assert_eq!(signed_to_string(0), "0");
    assert_eq!(signed_to_string(42), "42");
    assert_eq!(signed_to_string(-1), "-1");
    assert_eq!(signed_to_string(i32::MAX), "2147483647");
    assert_eq!(signed_to_string(i32::MIN), "-2147483648");
}

#[test]
fn joining() {
    assert_eq!(join(&labels(&[]), ","), "");
    assert_eq!(join(&labels(&["a"]), ","), "a");
    assert_eq!(join(&labels(&["a", "b", "c"]), ", "), "a, b, c");
    assert_eq!(join(&labels(&["", ""]), "-"), "-");
}

#[test]
fn new_settings_hold_each_label_once() {
    let settings = Settings::new(2, labels(&["level", "radar", "level", "aba", "radar"]));
    assert_eq!(settings.threshold, 2);
    assert_eq!(settings.whitelisted_labels, labels(&["level", "radar", "aba"]));
    assert!(settings.is_whitelisted(&String::from("aba")));
    assert!(!settings.is_whitelisted(&String::from("foo")));
    let empty = Settings::new(-4, Vec::new());
    assert_eq!(empty.threshold, -4);
    assert!(empty.whitelisted_labels.is_empty());
}

#[test]
fn new_settings_report_each_offending_label_once() {
    let settings = Settings::new(0, labels(&["foo", "level", "foo", "baz"]));
    assert_eq!(
        settings.validate(),
        Err(ValidationError::InvalidWhitelist(String::from("foo,baz")))
    );
}
