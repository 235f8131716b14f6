use contrack::codec::{decode_list, encode_list, list_or_empty, written};
use contrack::error::Error;

#[test]
fn a_list_is_kept_as_a_json_array() {
    let items = vec!["abc123".to_string(), "d4 \"e5\"".to_string(), "é\n".to_string()];
    let text = encode_list(&items).unwrap();
    assert_eq!(text, "[\"abc123\",\"d4 \\\"e5\\\"\",\"é\\n\"]");
    assert_eq!(decode_list(&text), items);
    assert_eq!(encode_list(&vec![]).unwrap(), "[]");
    assert!(decode_list("[]").is_empty());
}

#[test]
fn a_column_that_keeps_no_list_gives_the_empty_list() {
    assert!(decode_list("").is_empty());
    assert!(decode_list("not json").is_empty());
    assert!(decode_list("{\"a\":1}").is_empty());
    assert!(decode_list("[1,2]").is_empty());
    assert_eq!(decode_list(" [ \"a\" , \"b\" ] "), vec!["a", "b"]);
}

#[test]
fn what_the_codec_gave_is_passed_on() {
    assert_eq!(written(Some("[]".to_string())), Ok("[]".to_string()));
    assert_eq!(written(None), Err(Error::ListNotEncoded));
    assert_eq!(list_or_empty(Some(vec!["a".to_string()])), vec!["a"]);
    assert!(list_or_empty(None).is_empty());
    assert_eq!(Error::ListNotEncoded.message(), "Failed to encode a list");
}
