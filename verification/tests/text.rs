use herdr_clip::decimal::{parse_i64, push_decimal, signed_decimal_string};
use herdr_clip::filter::fuzzy_match;
use herdr_clip::legacy::{legacy_lines, migration_step, MigrationEvent, MigrationStep};
use herdr_clip::text::{count_lines, flatten, is_whitespace, split_lines, trim};

fn chars(s: &str) -> Vec<char> {
    s.chars().collect()
}

const SAMPLES: [&str; 16] = [
    "", "\n", "\r\n", "a", "a\n", "a\r\n", "a\nb", "a\r\nb\r", "\n\n", "a\n\nb\n", "\r", "a\rb\n",
    " x ", "\u{a0}é\u{3000}z\u{200b}", "tab\tand\u{b}vt", "  ",
];

#[test]
fn lines_are_those_of_the_standard_library() {
    for s in SAMPLES {
        let expected: Vec<&str> = s.lines().collect();
        assert_eq!(split_lines(&chars(s)), expected, "{s:?}");
        assert_eq!(count_lines(&chars(s)), expected.len(), "{s:?}");
    }
}

#[test]
fn trimming_is_that_of_the_standard_library() {
    for s in SAMPLES {
        assert_eq!(trim(s), s.trim(), "{s:?}");
    }
}

#[test]
fn flattening_is_split_and_join() {
    for s in SAMPLES {
        let expected = s.split_whitespace().collect::<Vec<_>>().join(" ");
        assert_eq!(flatten(&chars(s)).iter().collect::<String>(), expected, "{s:?}");
    }
}

#[test]
fn whitespace_is_that_of_the_standard_library() {
    for c in '\0'..=char::MAX {
        assert_eq!(is_whitespace(c), c.is_whitespace(), "{c:?}");
    }
}

#[test]
fn decimals_are_those_of_the_standard_library() {
    for n in [0u64, 9, 10, 99, 100, 12345, u64::MAX] {
        let mut s = String::from("n=");
        push_decimal(&mut s, n);
        assert_eq!(s, format!("n={n}"));
    }
    for n in [0i64, -1, 7, -10, i64::MAX, i64::MIN] {
        assert_eq!(signed_decimal_string(n), n.to_string());
        assert_eq!(parse_i64(&signed_decimal_string(n)), Some(n));
    }
}

#[test]
fn integers_are_parsed_as_by_the_standard_library() {
    for s in [
        "", "-", "+", "0", "-0", "+7", "007", "12a", " 1", "1 ", "--1", "9223372036854775807",
        "9223372036854775808", "-9223372036854775808", "-9223372036854775809", "1_0", "٣",
        "99999999999999999999999999",
    ] {
        assert_eq!(parse_i64(s), s.parse::<i64>().ok(), "{s:?}");
    }
}

#[test]
fn case_is_ignored_beyond_ascii() {
    assert!(fuzzy_match("ÉCLAIR", "un éclair"));
    assert!(fuzzy_match("σ", "ΑΣ"));
    // One character may have a lower case of two.
    assert!(fuzzy_match("İ", "i\u{307}"));
    assert!(!fuzzy_match("ss", "ß"));
}

#[test]
fn longer_filters_match_less_and_substrings_match() {
    assert!(fuzzy_match("gg", "giggle"));
    assert!(!fuzzy_match("gggg", "giggle"));
    assert!(fuzzy_match("iggl", "giggle"));
}

#[test]
fn legacy_bytes_are_read_as_lines() {
    assert_eq!(legacy_lines(b"a\nb\r\n\nc"), vec!["a", "b", "", "c"]);
    assert_eq!(legacy_lines("é\n".as_bytes()), vec!["é"]);
    assert_eq!(legacy_lines(b"x\n\xff\ny"), vec!["x", "\u{fffd}", "y"]);
    assert!(legacy_lines(b"").is_empty());
}

#[test]
fn the_legacy_file_is_imported_once_and_then_retired() {
    let step = migration_step;
    assert_eq!(step(MigrationEvent::LookedFor { exists: false }), MigrationStep::Finish);
    assert_eq!(step(MigrationEvent::LookedFor { exists: true }), MigrationStep::Count);
    assert_eq!(step(MigrationEvent::Counted { empty: true }), MigrationStep::Import);
    assert_eq!(step(MigrationEvent::Counted { empty: false }), MigrationStep::Retire);
    assert_eq!(step(MigrationEvent::Imported), MigrationStep::Retire);
    assert_eq!(step(MigrationEvent::Retired), MigrationStep::Finish);
}

#[test]
fn matching_is_an_order_that_concatenates() {
    let samples = ["", "a", "Ab", "é", "İx", "a\nb", "xaybz"];
    for a in samples {
        assert!(fuzzy_match(a, a));
        for b in samples {
            for c in samples {
                assert!(!fuzzy_match(a, b) || !fuzzy_match(b, c) || fuzzy_match(a, c));
                assert!(!fuzzy_match(&format!("{a}{b}"), c) || fuzzy_match(a, c));
                assert!(!fuzzy_match(a, b) || fuzzy_match(&format!("{a}{c}"), &format!("{b}{c}")));
            }
        }
    }
}

#[test]
fn ascii_case_never_matters_beside_other_characters() {
    assert!(fuzzy_match("éA", "Ébéa"));
    assert!(fuzzy_match("éa", "ÉbéA"));
    assert!(!fuzzy_match("éZ", "ÉbéA"));
}
