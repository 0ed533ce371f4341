use pdf_chat::codec::{decode_metadata_object, decode_string_list, encode_string_list};

fn strings(items: &[&str]) -> Vec<String> {
    items.iter().map(|s| s.to_string()).collect()
}

#[test]
fn encode_empty_list() {
    assert_eq!(encode_string_list(&strings(&[])), "[]");
}

#[test]
fn encode_two_items() {
    assert_eq!(encode_string_list(&strings(&["a", "b"])), "[\"a\",\"b\"]");
}

#[test]
fn encode_escapes_quotes_backslashes_and_controls() {
    let encoded = encode_string_list(&strings(&["a\"b\\c\nd"]));
    assert_eq!(encoded, "[\"a\\\"b\\\\c\\u000ad\"]");
}

#[test]
fn decode_tolerates_whitespace() {
    let decoded = decode_string_list(&" [ \"a\" , \"b\" ]  ".to_string());
    assert_eq!(decoded, Some(strings(&["a", "b"])));
}

#[test]
fn decode_empty_array() {
    assert_eq!(decode_string_list(&"[]".to_string()), Some(strings(&[])));
    assert_eq!(decode_string_list(&"  [ ]  ".to_string()), Some(strings(&[])));
}

#[test]
fn decode_handles_escapes() {
    let decoded = decode_string_list(&"[\"x\\n\\t\\\"\\\\\\u0041y\"]".to_string());
    assert_eq!(decoded, Some(strings(&["x\n\t\"\\Ay"])));
}

#[test]
fn decode_rejects_non_arrays() {
    assert_eq!(decode_string_list(&"not json".to_string()), None);
    assert_eq!(decode_string_list(&"{\"a\": 1}".to_string()), None);
    assert_eq!(decode_string_list(&"[\"a\"".to_string()), None);
    assert_eq!(decode_string_list(&"[\"a\"] trailing".to_string()), None);
}

#[test]
fn round_trip_of_awkward_strings() {
    let cases = vec![
        strings(&[]),
        strings(&["a", "b"]),
        strings(&["he said \"hi\"", "back\\slash", "line\nbreak", "tab\there"]),
        strings(&["caf\u{e9} r\u{e9}sum\u{e9}", "", "  spaces  "]),
        strings(&["[brackets]", "{braces}", "comma,inside", "\u{1}\u{2}\u{3}"]),
    ];
    for case in cases {
        let encoded = encode_string_list(&case);
        let decoded = decode_string_list(&encoded);
        assert_eq!(decoded, Some(case));
    }
}

#[test]
fn metadata_object_both_orders() {
    let text = "{\"keywords\": [\"a\",\"b\"], \"topics\": [\"x\"]}".to_string();
    let (kw, tp) = decode_metadata_object(&text).unwrap();
    assert_eq!(kw, strings(&["a", "b"]));
    assert_eq!(tp, strings(&["x"]));

    let flipped = "{\"topics\": [\"x\"], \"keywords\": [\"a\",\"b\"]}".to_string();
    let (kw2, tp2) = decode_metadata_object(&flipped).unwrap();
    assert_eq!(kw2, strings(&["a", "b"]));
    assert_eq!(tp2, strings(&["x"]));
}

#[test]
fn metadata_object_empty_lists() {
    let text = "{\"keywords\": [], \"topics\": []}".to_string();
    let (kw, tp) = decode_metadata_object(&text).unwrap();
    assert!(kw.is_empty());
    assert!(tp.is_empty());
}

#[test]
fn metadata_object_rejects_wrong_shapes() {
    assert_eq!(decode_metadata_object(&"{\"keywords\": [\"a\"]}".to_string()), None);
    assert_eq!(decode_metadata_object(&"[]".to_string()), None);
    assert_eq!(
        decode_metadata_object(&"{\"other\": [], \"topics\": []}".to_string()),
        None
    );
}

#[test]
fn decode_handles_general_unicode_escapes() {
    let decoded = decode_string_list(&"[\"caf\\u00e9 \\u2019quote\\u2019\"]".to_string());
    assert_eq!(decoded, Some(strings(&["caf\u{e9} \u{2019}quote\u{2019}"])));
}

#[test]
fn decode_handles_surrogate_pairs() {
    let decoded = decode_string_list(&"[\"\\ud83d\\ude00 ok\"]".to_string());
    assert_eq!(decoded, Some(strings(&["\u{1F600} ok"])));
}

#[test]
fn decode_rejects_lone_surrogates() {
    assert_eq!(decode_string_list(&"[\"\\ud83d\"]".to_string()), None);
    assert_eq!(decode_string_list(&"[\"\\ude00\"]".to_string()), None);
    assert_eq!(decode_string_list(&"[\"\\ud83d\\u0041\"]".to_string()), None);
}
