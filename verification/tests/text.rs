use sps2::text::{chars_of, replace_text, string_of};

#[test]
fn chars_round_trip() {
    let v = chars_of("héllo");
    assert_eq!(v.len(), 5);
    assert_eq!(string_of(&v), "héllo");
}

#[test]
fn replace_all_occurrences() {
    assert_eq!(replace_text("aXbXc", "X", "--"), "a--b--c");
    assert_eq!(replace_text("aaa", "aa", "b"), "ba");
    assert_eq!(replace_text("abc", "", "z"), "abc");
}
