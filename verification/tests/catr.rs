use textutils::catr::{open_failure, Config, Numbering};

fn strings(items: &[&str]) -> Vec<String> {
    items.iter().map(|s| s.to_string()).collect()
}

#[test]
fn number_every_line() {
    let config = Config::get_args(strings(&["-"]), true, false).unwrap();
    let out = config.print_lines(&strings(&["foo", "", "bar"]));
    assert_eq!(out, strings(&["     1\tfoo", "     2\t", "     3\tbar"]));
}

#[test]
fn number_nonblank_lines() {
    let config = Config::get_args(strings(&["-"]), false, true).unwrap();
    let out = config.print_lines(&strings(&["foo", "", "bar"]));
    assert_eq!(out, strings(&["     1\tfoo", "     2\tbar"]));
}

#[test]
fn copy_lines_unchanged() {
    let config = Config::get_args(strings(&["-"]), false, false).unwrap();
    let lines = strings(&["foo", "", "  bar\t", ""]);
    assert_eq!(config.print_lines(&lines), lines);
}

#[test]
fn numbering_every_line_wins() {
    let config = Config::get_args(strings(&["-"]), true, true).unwrap();
    let out = config.print_lines(&strings(&["foo", "", "bar"]));
    assert_eq!(out, strings(&["     1\tfoo", "     2\t", "     3\tbar"]));
}

#[test]
fn a_line_of_spaces_is_not_blank() {
    let config = Config::get_args(strings(&["-"]), false, true).unwrap();
    let out = config.print_lines(&strings(&["", " ", "", "x"]));
    assert_eq!(out, strings(&["     1\t ", "     2\tx"]));
}

#[test]
fn no_lines_give_no_lines() {
    for (n, b) in [(false, false), (true, false), (false, true), (true, true)] {
        let config = Config::get_args(strings(&["-"]), n, b).unwrap();
        assert!(config.print_lines(&Vec::new()).is_empty());
    }
}

#[test]
fn line_by_line_numbers_every_line() {
    let config = Config::get_args(strings(&["-"]), true, false).unwrap();
    let mut state = Numbering::new();
    assert_eq!(config.number_line(&mut state, "foo"), Some("     1\tfoo".to_string()));
    assert_eq!(config.number_line(&mut state, ""), Some("     2\t".to_string()));
    assert_eq!(config.number_line(&mut state, "bar"), Some("     3\tbar".to_string()));
    assert_eq!(state, Numbering { line_num: 3, last_num: 0 });
}

#[test]
fn line_by_line_numbers_nonblank_lines() {
    let config = Config::get_args(strings(&["-"]), false, true).unwrap();
    let mut state = Numbering::new();
    assert_eq!(config.number_line(&mut state, "foo"), Some("     1\tfoo".to_string()));
    assert_eq!(config.number_line(&mut state, ""), None);
    assert_eq!(config.number_line(&mut state, "bar"), Some("     2\tbar".to_string()));
    assert_eq!(state, Numbering { line_num: 3, last_num: 2 });
}

#[test]
fn line_by_line_copies() {
    let config = Config::get_args(strings(&["-"]), false, false).unwrap();
    let mut state = Numbering::new();
    assert_eq!(config.number_line(&mut state, ""), Some(String::new()));
    assert_eq!(config.number_line(&mut state, "héllo"), Some("héllo".to_string()));
    assert_eq!(state, Numbering { line_num: 2, last_num: 0 });
}

#[test]
fn each_input_starts_at_one() {
    let config = Config::get_args(strings(&["a", "b"]), false, true).unwrap();
    let first = config.print_lines(&strings(&["x", "y"]));
    let second = config.print_lines(&strings(&["z"]));
    assert_eq!(first, strings(&["     1\tx", "     2\ty"]));
    assert_eq!(second, strings(&["     1\tz"]));
}

#[test]
fn wide_numbers_are_not_cut() {
    let config = Config::get_args(strings(&["-"]), true, false).unwrap();
    let mut state = Numbering { line_num: 99_998, last_num: 0 };
    assert_eq!(config.number_line(&mut state, "a"), Some(" 99999\ta".to_string()));
    let mut state = Numbering { line_num: 999_998, last_num: 0 };
    assert_eq!(config.number_line(&mut state, "a"), Some("999999\ta".to_string()));
    assert_eq!(config.number_line(&mut state, "b"), Some("1000000\tb".to_string()));
    let mut state = Numbering { line_num: 12_345_677, last_num: 0 };
    assert_eq!(config.number_line(&mut state, "c"), Some("12345678\tc".to_string()));
}

#[test]
fn many_lines_are_numbered_like_std_formats() {
    let config = Config::get_args(strings(&["-"]), true, false).unwrap();
    let lines: Vec<String> = (0..1200).map(|i| format!("line {}", i)).collect();
    let out = config.print_lines(&lines);
    assert_eq!(out.len(), lines.len());
    for (i, line) in lines.iter().enumerate() {
        assert_eq!(out[i], format!("{:>6}\t{}", i + 1, line));
    }
}

#[test]
fn get_args_keeps_flags_and_files() {
    for (n, b) in [(false, false), (true, false), (false, true), (true, true)] {
        let config = Config::get_args(strings(&["a", "-", "b"]), n, b).unwrap();
        assert_eq!(config.files, strings(&["a", "-", "b"]));
        assert_eq!(config.number_lines, n);
        assert_eq!(config.number_nonblank_lines, b);
    }
}

#[test]
fn get_args_without_files_copies_standard_input() {
    let none = Config::get_args(Vec::new(), true, false).unwrap();
    let dash = Config::get_args(strings(&["-"]), true, false).unwrap();
    assert_eq!(none.files, strings(&["-"]));
    assert_eq!(none.files, dash.files);
    assert_eq!(none.number_lines, dash.number_lines);
    assert_eq!(none.number_nonblank_lines, dash.number_nonblank_lines);
}

#[test]
fn open_failure_says_what_failed() {
    assert_eq!(
        open_failure("missing.txt", "No such file or directory (os error 2)"),
        "Failed to open missing.txt: No such file or directory (os error 2)"
    );
}
