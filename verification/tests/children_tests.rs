use focus_cwd::children::{parse_children, CHILDREN_TEXT_LIMIT};

#[test]
fn empty_text_lists_no_children() {
    assert_eq!(parse_children(b""), Some(vec![]));
}

#[test]
fn white_space_alone_lists_no_children() {
    assert_eq!(parse_children(b" "), Some(vec![]));
    assert_eq!(parse_children(b" \t\n\r\x0b\x0c "), Some(vec![]));
}

#[test]
fn children_are_listed_in_order() {
    assert_eq!(parse_children(b"123 456 789 "), Some(vec![123, 456, 789]));
    assert_eq!(parse_children(b"9 8 7"), Some(vec![9, 8, 7]));
    assert_eq!(parse_children(b"42"), Some(vec![42]));
}

#[test]
fn any_white_space_separates_children() {
    assert_eq!(parse_children(b"  12\n34\t56\r\n"), Some(vec![12, 34, 56]));
    assert_eq!(parse_children(b"1  2"), Some(vec![1, 2]));
}

#[test]
fn a_child_may_be_listed_twice() {
    assert_eq!(parse_children(b"5 5 "), Some(vec![5, 5]));
}

#[test]
fn leading_zeros_do_not_count() {
    assert_eq!(parse_children(b"007 0"), Some(vec![7, 0]));
    assert_eq!(parse_children(b"0000000000000000000001"), Some(vec![1]));
}

#[test]
fn largest_process_id_is_read() {
    assert_eq!(parse_children(b"4294967295"), Some(vec![u32::MAX]));
    assert_eq!(parse_children(b"4294967295 1"), Some(vec![u32::MAX, 1]));
}

#[test]
fn a_number_over_32_bits_is_refused() {
    assert_eq!(parse_children(b"4294967296"), None);
    assert_eq!(parse_children(b"1 99999999999 2"), None);
    assert_eq!(parse_children(b"18446744073709551616"), None);
    assert_eq!(parse_children(b"184467440737095516160000000000"), None);
}

#[test]
fn a_field_that_is_no_number_is_refused() {
    assert_eq!(parse_children(b"12a"), None);
    assert_eq!(parse_children(b"a12"), None);
    assert_eq!(parse_children(b"1 -2"), None);
    assert_eq!(parse_children(b"+3"), None);
    assert_eq!(parse_children(b"1,2"), None);
    assert_eq!(parse_children(b"1\x002"), None);
    assert_eq!(parse_children(b"1 2 x"), None);
    assert_eq!(parse_children(&[0x31, 0xa0, 0x32]), None);
}

#[test]
fn text_at_the_size_limit_is_read() {
    let mut text = vec![b' '; CHILDREN_TEXT_LIMIT];
    text[0] = b'7';
    text[CHILDREN_TEXT_LIMIT - 1] = b'8';
    assert_eq!(parse_children(&text), Some(vec![7, 8]));
}

#[test]
fn text_over_the_size_limit_is_refused() {
    let text = vec![b' '; CHILDREN_TEXT_LIMIT + 1];
    assert_eq!(parse_children(&text), None);
    let mut digits = vec![b'1'; 1];
    digits.resize(CHILDREN_TEXT_LIMIT + 1, b' ');
    assert_eq!(parse_children(&digits), None);
}
