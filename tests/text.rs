use easypassword::text::{chars_range_to_string, chars_to_string, string_chars};

#[test]
fn string_and_chars_round_trip() {
    let chars = string_chars("héllo");
    assert_eq!(chars, vec!['h', 'é', 'l', 'l', 'o']);
    assert_eq!(chars_to_string(&chars), "héllo");
    assert_eq!(chars_range_to_string(&chars, 2), "llo");
    assert_eq!(chars_range_to_string(&chars, 5), "");
}
