use filectrl::unicode::{split_with_ellipsis, truncate_left};

fn split_with_ellipsis_succeeds_on(expected: Vec<&str>, text: &str, width: usize) {
    let actual = split_with_ellipsis(text, width);
    assert_eq!(expected, actual);
}

#[test]
fn split_with_ellipsis_succeeds_on_same_width() {
    split_with_ellipsis_succeeds_on(vec!["example"], "example", 7);
}

#[test]
fn split_with_ellipsis_succeeds_on_width_minus_1() {
    split_with_ellipsis_succeeds_on(vec!["examp…", "le"], "example", 6);
}

#[test]
fn split_with_ellipsis_succeeds_on_three_lines() {
    split_with_ellipsis_succeeds_on(vec!["exa…", "mpl…", "e"], "example", 4);
}

fn truncate_left_succeeds_on(expected: &str, text: &str, width: usize) {
    let actual = truncate_left(text, width);
    assert_eq!(expected, actual);
}

#[test]
fn truncate_left_succeeds_on_same_width() {
    truncate_left_succeeds_on("example", "example", 7);
}

#[test]
fn truncate_left_succeeds_on_width_minus_1() {
    truncate_left_succeeds_on("…ample", "example", 6);
}

#[test]
fn wide_characters_count_twice_when_truncated() {
    assert_eq!("…語", truncate_left("日本語", 3));
}

#[test]
fn a_line_that_fits_is_one_part() {
    assert_eq!(vec!["ab"], split_with_ellipsis("ab", 5));
}
