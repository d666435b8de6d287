use nats_gateway::text::{chars_of, lower_char, to_lower};

#[test]
fn ascii_letters_are_lowered() {
    assert_eq!(lower_char('A'), 'a');
    assert_eq!(lower_char('Z'), 'z');
    assert_eq!(lower_char('m'), 'm');
    assert_eq!(lower_char('@'), '@');
    assert_eq!(lower_char('['), '[');
    assert_eq!(lower_char('É'), 'É');
}

#[test]
fn text_is_lowered_letter_by_letter() {
    assert_eq!(to_lower("Content-Type"), "content-type");
    assert_eq!(to_lower(""), "");
    assert_eq!(to_lower("ÄBC-1"), "Äbc-1");
}

#[test]
fn characters_come_in_order() {
    assert_eq!(chars_of("aé/"), vec!['a', 'é', '/']);
    assert!(chars_of("").is_empty());
}
