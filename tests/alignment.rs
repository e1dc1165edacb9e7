use text_align::align::{
    align_contents, center_align_contents, find_indent_level, find_right_wall, is_even,
    right_align_contents,
};
use text_align::config::{Alignment, Config};

fn conf(alignment: Alignment, preserve_indent: bool) -> Config {
    Config {
        alignment,
        preserve_indent,
        in_path: String::from("in.txt"),
        out_path: String::from("out.txt"),
    }
}

fn doc(lines: &[&str]) -> Vec<String> {
    lines.iter().map(|l| l.to_string()).collect()
}

#[test]
fn scenario_right_flush() {
    let data = doc(&["ab", "abcd"]);
    let c = conf(Alignment::Right, false);
    assert_eq!(find_right_wall(&data, &c), 4);
    assert_eq!(align_contents(&data, &c), doc(&["  ab", "abcd"]));
}

#[test]
fn scenario_center() {
    let data = doc(&["a", "abc"]);
    let c = conf(Alignment::Center, false);
    assert_eq!(find_right_wall(&data, &c), 3);
    assert_eq!(align_contents(&data, &c), doc(&[" a ", "abc"]));
}

#[test]
fn scenario_right_preserve_indent() {
    let data = doc(&["ab", "  abcd"]);
    let c = conf(Alignment::Right, true);
    assert_eq!(find_right_wall(&data, &c), 8);
    assert_eq!(align_contents(&data, &c), doc(&["      ab", "  abcd"]));
}

#[test]
fn empty_document() {
    let data: Vec<String> = Vec::new();
    for c in [
        conf(Alignment::Right, false),
        conf(Alignment::Right, true),
        conf(Alignment::Center, false),
    ] {
        assert_eq!(find_right_wall(&data, &c), 0);
        assert!(align_contents(&data, &c).is_empty());
    }
}

#[test]
fn single_line_unchanged() {
    let data = doc(&["  hello"]);
    let flush = conf(Alignment::Right, false);
    assert_eq!(find_right_wall(&data, &flush), 7);
    assert_eq!(align_contents(&data, &flush), data);
    assert_eq!(align_contents(&data, &conf(Alignment::Right, true)), data);
    assert_eq!(align_contents(&data, &conf(Alignment::Center, false)), data);
}

#[test]
fn right_flush_lines_reach_wall() {
    let data = doc(&["x", "", "hello world", "\tindented"]);
    let c = conf(Alignment::Right, false);
    let out = right_align_contents(&data, &c);
    assert_eq!(out.len(), 4);
    for (line, orig) in out.iter().zip(data.iter()) {
        assert_eq!(line.chars().count(), 11);
        assert!(line.ends_with(orig.as_str()));
    }
    assert_eq!(out[1], " ".repeat(11));
    assert_eq!(out[3], "  \tindented");
}

#[test]
fn center_lines_reach_wall_and_keep_content() {
    let data = doc(&["ab", "abcdefg", "abc", ""]);
    let out = center_align_contents(&data, &conf(Alignment::Center, false));
    assert_eq!(out, doc(&["   ab  ", "abcdefg", "  abc  ", "       "]));
    for (line, orig) in out.iter().zip(data.iter()) {
        assert_eq!(line.chars().count(), 7);
        assert_eq!(line.trim_matches(' '), orig.as_str());
    }
}

#[test]
fn center_odd_gap_leans_left() {
    let data = doc(&["a", "abcd"]);
    let out = center_align_contents(&data, &conf(Alignment::Center, false));
    assert_eq!(out, doc(&["  a ", "abcd"]));
}

#[test]
fn center_ignores_preserve_indent() {
    let data = doc(&["a", "  abc"]);
    let c = conf(Alignment::Center, true);
    assert_eq!(center_align_contents(&data, &c), doc(&["  a  ", "  abc"]));
    assert_eq!(align_contents(&data, &c), doc(&["  a  ", "  abc"]));
}

#[test]
fn realigning_changes_nothing() {
    let data = doc(&["one", "three", "", "  two"]);
    for c in [conf(Alignment::Right, false), conf(Alignment::Center, false)] {
        let once = align_contents(&data, &c);
        let twice = align_contents(&once, &c);
        assert_eq!(once, twice);
    }
}

#[test]
fn preserve_indent_adds_pad_before_indent() {
    let data = doc(&["\tab", "  abcd", "abc"]);
    let c = conf(Alignment::Right, true);
    // greatest length 6, greatest indentation 2: wall 8
    assert_eq!(find_right_wall(&data, &c), 8);
    let out = right_align_contents(&data, &c);
    assert_eq!(out, doc(&["    \tab", "  abcd", "     abc"]));
    for (line, orig) in out.iter().zip(data.iter()) {
        let pad = 8 - orig.chars().count() - find_indent_level(orig);
        assert_eq!(find_indent_level(line), find_indent_level(orig) + pad);
    }
}

#[test]
fn equal_pads_keep_relative_indent() {
    // length plus indentation is 10 for every line, so every pad is 14 - 10
    let data = doc(&["    ab", "  abcdef", "abcdefghij"]);
    let out = right_align_contents(&data, &conf(Alignment::Right, true));
    let before: Vec<usize> = data.iter().map(|l| find_indent_level(l)).collect();
    let after: Vec<usize> = out.iter().map(|l| find_indent_level(l)).collect();
    assert_eq!(before, vec![4, 2, 0]);
    assert_eq!(after, vec![8, 6, 4]);
}

#[test]
fn indent_level_counts_spaces_and_tabs() {
    assert_eq!(find_indent_level(""), 0);
    assert_eq!(find_indent_level("abc"), 0);
    assert_eq!(find_indent_level("  abc"), 2);
    assert_eq!(find_indent_level("\t \tx y"), 3);
    assert_eq!(find_indent_level("   "), 3);
    assert_eq!(find_indent_level("\u{a0}x"), 0);
}

#[test]
fn wall_counts_characters_not_bytes() {
    let data = doc(&["héllo", "ab"]);
    let c = conf(Alignment::Right, false);
    assert_eq!(find_right_wall(&data, &c), 5);
    assert_eq!(right_align_contents(&data, &c), doc(&["héllo", "   ab"]));
}

#[test]
fn wall_with_indent_takes_both_maxima() {
    let data = doc(&["      x", "abcdefghij"]);
    assert_eq!(find_right_wall(&data, &conf(Alignment::Right, true)), 16);
    assert_eq!(find_right_wall(&data, &conf(Alignment::Right, false)), 10);
}

#[test]
fn even_and_odd() {
    assert!(is_even(0));
    assert!(is_even(4));
    assert!(!is_even(7));
    assert!(is_even(-2));
    assert!(!is_even(-3));
    assert!(!is_even(i64::MAX));
    assert!(is_even(i64::MIN));
}
