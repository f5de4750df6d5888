use qasm3_front::names::{sanitize_first, sanitize_later, sanitize_name};

#[test]
fn names_become_identifiers() {
    assert_eq!(sanitize_name(""), "circuit");
    assert_eq!(sanitize_name("abc"), "abc");
    assert_eq!(sanitize_name("_x1"), "_x1");
    assert_eq!(sanitize_name("1abc"), "_abc");
    assert_eq!(sanitize_name("-abc"), "_abc");
    assert_eq!(sanitize_name("my-name"), "my_name");
    assert_eq!(sanitize_name("a b!c.d"), "abcd");
    assert_eq!(sanitize_name("a_b-c--d"), "a_b_c__d");
    assert_eq!(sanitize_name("été2"), "été2");
    assert_eq!(sanitize_name("!"), "_");
    assert_eq!(sanitize_name("x²"), "x²");
    assert_eq!(sanitize_name("x y"), "xy");
}

#[test]
fn characters_of_identifiers() {
    assert_eq!(sanitize_first('a', true), 'a');
    assert_eq!(sanitize_first('_', false), '_');
    assert_eq!(sanitize_first('1', false), '_');
    assert_eq!(sanitize_later('-', false), Some('_'));
    assert_eq!(sanitize_later('_', false), Some('_'));
    assert_eq!(sanitize_later('1', true), Some('1'));
    assert_eq!(sanitize_later('!', false), None);
}
