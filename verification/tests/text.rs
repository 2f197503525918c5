use textutils::decimal::{push_decimal, right_justify, to_decimal};
use textutils::source::{files_or_stdin, is_stdin};
use textutils::text::is_whitespace;

#[test]
fn white_space_is_what_std_calls_white_space() {
    for code in 0..=0x10FFFFu32 {
        if let Some(c) = char::from_u32(code) {
            assert_eq!(is_whitespace(c), c.is_whitespace(), "U+{:04X}", code);
        }
    }
}

#[test]
fn white_space_by_name() {
    for c in [' ', '\t', '\n', '\u{b}', '\u{c}', '\r', '\u{85}', '\u{a0}', '\u{3000}'] {
        assert!(is_whitespace(c));
    }
    for c in ['a', '0', '_', '\0', '\u{8}', '\u{e}', '\u{200b}', '\u{feff}', '\u{180e}'] {
        assert!(!is_whitespace(c));
    }
}

#[test]
fn decimal_of_small_and_large() {
    assert_eq!(to_decimal(0), "0");
    assert_eq!(to_decimal(7), "7");
    assert_eq!(to_decimal(10), "10");
    assert_eq!(to_decimal(909), "909");
    assert_eq!(to_decimal(1_000_000), "1000000");
    assert_eq!(to_decimal(usize::MAX), usize::MAX.to_string());
}

#[test]
fn decimal_is_std_formatting() {
    for value in 0..3000usize {
        assert_eq!(to_decimal(value), value.to_string());
    }
    let mut value: usize = 1;
    for _ in 0..64 {
        assert_eq!(to_decimal(value), value.to_string());
        assert_eq!(to_decimal(value - 1), (value - 1).to_string());
        value = value.wrapping_mul(2);
        if value == 0 {
            break;
        }
    }
}

#[test]
fn push_decimal_appends() {
    let mut out = String::from("n=");
    push_decimal(&mut out, 42);
    assert_eq!(out, "n=42");
    push_decimal(&mut out, 0);
    assert_eq!(out, "n=420");
}

#[test]
fn right_justify_pads_on_the_left() {
    assert_eq!(right_justify("ab", 5), "   ab");
    assert_eq!(right_justify("ab", 2), "ab");
    assert_eq!(right_justify("abc", 2), "abc");
    assert_eq!(right_justify("", 3), "   ");
    assert_eq!(right_justify("", 0), "");
}

#[test]
fn right_justify_counts_characters() {
    assert_eq!(right_justify("é", 3), "  é");
    assert_eq!(right_justify("日本", 4), format!("{:>4}", "日本"));
}

#[test]
fn hyphen_alone_is_standard_input() {
    assert!(is_stdin("-"));
    assert!(!is_stdin(""));
    assert!(!is_stdin("--"));
    assert!(!is_stdin("-a"));
    assert!(!is_stdin("a"));
    assert!(!is_stdin("./-"));
    assert!(!is_stdin("—"));
}

#[test]
fn no_files_mean_standard_input() {
    assert_eq!(files_or_stdin(Vec::new()), vec!["-".to_string()]);
    let files = vec!["a".to_string(), "b".to_string()];
    assert_eq!(files_or_stdin(files.clone()), files);
    assert_eq!(files_or_stdin(vec![String::new()]), vec![String::new()]);
}
