use te::row::Row;

fn row_from(s: &str) -> Row {
    Row::from_chars(s.chars().collect())
}

#[test]
fn len_counts_characters() {
    let r = row_from("hello");
    assert_eq!(r.len(), 5);
    let empty = Row::default();
    assert_eq!(empty.len(), 0);
}

#[test]
fn render_whole_row() {
    let mut r = row_from("hello");
    assert_eq!(r.render(0, 5).as_str(), "hello");
}

#[test]
fn render_clips_end_past_length() {
    let mut r = row_from("abc");
    assert_eq!(r.render(0, 100).as_str(), "abc");
    assert_eq!(r.render(1, 100).as_str(), "bc");
}

#[test]
fn render_start_past_length_is_empty() {
    let mut r = row_from("abc");
    assert_eq!(r.render(7, 9).as_str(), "");
    assert_eq!(r.render(3, 5).as_str(), "");
}

#[test]
fn render_inverted_range_is_empty() {
    let mut r = row_from("abcdef");
    assert_eq!(r.render(4, 2).as_str(), "");
    assert_eq!(r.render(2, 2).as_str(), "");
}

#[test]
fn render_middle_slice() {
    let mut r = row_from("abcdef");
    assert_eq!(r.render(2, 4).as_str(), "cd");
}

#[test]
fn render_expands_tabs() {
    let mut r = row_from("a\tb");
    assert_eq!(r.render(0, 6).as_str(), "a    b");
    assert_eq!(r.render(1, 5).as_str(), "    ");
}

#[test]
fn render_twice_uses_cache_consistently() {
    let mut r = row_from("x\ty");
    assert_eq!(r.render(0, 6).as_str(), "x    y");
    assert_eq!(r.render(0, 6).as_str(), "x    y");
    r.insert(1, 'z');
    assert_eq!(r.render(0, 7).as_str(), "xz    y");
}

#[test]
fn insert_at_position() {
    let mut r = row_from("ac");
    r.insert(1, 'b');
    assert_eq!(r.string().as_str(), "abc");
    assert_eq!(r.len(), 3);
}

#[test]
fn insert_past_end_appends() {
    let mut r = row_from("ab");
    r.insert(99, 'c');
    assert_eq!(r.string().as_str(), "abc");
}

#[test]
fn delete_in_range() {
    let mut r = row_from("abc");
    r.delete(1);
    assert_eq!(r.string().as_str(), "ac");
}

#[test]
fn delete_out_of_range_is_noop() {
    let mut r = row_from("abc");
    r.delete(3);
    assert_eq!(r.string().as_str(), "abc");
    r.delete(99);
    assert_eq!(r.string().as_str(), "abc");
}

#[test]
fn split_keeps_both_halves() {
    let mut r = row_from("abcdef");
    let rest = r.split(2);
    assert_eq!(r.string().as_str(), "ab");
    assert_eq!(rest.string().as_str(), "cdef");
}

#[test]
fn split_past_end_leaves_empty_tail() {
    let mut r = row_from("ab");
    let rest = r.split(10);
    assert_eq!(r.string().as_str(), "ab");
    assert_eq!(rest.string().as_str(), "");
}

#[test]
fn append_concatenates() {
    let mut r = row_from("ab");
    let other = row_from("cd");
    r.append(&other);
    assert_eq!(r.string().as_str(), "abcd");
    assert_eq!(other.string().as_str(), "cd");
}
