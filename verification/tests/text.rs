use agent_runner::text::{encode_call, visible};

#[test]
fn call_record_is_a_json_object_with_raw_arguments() {
    assert_eq!(
        encode_call("search", "{\"q\":\"rust\"}"),
        "{\"name\":\"search\",\"arguments\":{\"q\":\"rust\"}}"
    );
}

#[test]
fn call_record_does_not_escape_its_parts() {
    assert_eq!(encode_call("a\"b", "[1, 2]"), "{\"name\":\"a\"b\",\"arguments\":[1, 2]}");
    assert_eq!(encode_call("", ""), "{\"name\":\"\",\"arguments\":}");
}

#[test]
fn visible_content_is_trimmed_on_both_sides() {
    assert_eq!(visible("  hello world \n"), "hello world");
    assert_eq!(visible("\t\r\nanswer"), "answer");
    assert_eq!(visible("answer"), "answer");
}

#[test]
fn visible_content_keeps_inner_white_space() {
    assert_eq!(visible(" a  b\tc "), "a  b\tc");
}

#[test]
fn visible_content_of_white_space_is_empty() {
    assert_eq!(visible(""), "");
    assert_eq!(visible(" \n\t "), "");
}

#[test]
fn trimming_goes_by_the_unicode_property() {
    assert_eq!(visible("\u{2003}wide\u{a0}"), "wide");
    assert_eq!(visible("\u{200b}zero width\u{200b}"), "\u{200b}zero width\u{200b}");
}
