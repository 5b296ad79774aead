use minect::json::{create_json_text_component, escape_json};

#[test]
fn escape_json_escapes_backslashes_and_quotation_marks() {
    assert_eq!(escape_json(""), "");
    assert_eq!(escape_json("plain text"), "plain text");
    assert_eq!(escape_json("a\"b\\c"), "a\\\"b\\\\c");
    assert_eq!(escape_json("\\\""), "\\\\\\\"");
    assert_eq!(escape_json("line\nbreak"), "line\nbreak");
}

#[test]
fn json_text_component_wraps_the_escaped_text() {
    assert_eq!(create_json_text_component("Herobrine"), "{\"text\":\"Herobrine\"}");
    assert_eq!(create_json_text_component("x\"y"), "{\"text\":\"x\\\"y\"}");
}
