use chat_index::codec::{build_search_surface, decode_list, encode_list};

fn strings(values: &[&str]) -> Vec<String> {
    values.iter().map(|v| v.to_string()).collect()
}

#[test]
fn encode_empty_list() {
    assert_eq!(encode_list(&Vec::new()), "[]");
}

#[test]
fn encode_simple_values() {
    assert_eq!(encode_list(&strings(&["a", "b"])), "[\"a\",\"b\"]");
}

#[test]
fn round_trip_plain_values() {
    let v = strings(&["hello", "world"]);
    assert_eq!(decode_list(&encode_list(&v)), v);
}

#[test]
fn round_trip_empty_list_and_empty_value() {
    let empty: Vec<String> = Vec::new();
    assert_eq!(decode_list(&encode_list(&empty)), empty);
    let one_empty = strings(&[""]);
    assert_eq!(decode_list(&encode_list(&one_empty)), one_empty);
}

#[test]
fn round_trip_quotes_backslashes_and_control_characters() {
    let v = strings(&["say \"hi\"", "back\\slash", "line\nbreak", "tab\there", "cr\rhere"]);
    assert_eq!(decode_list(&encode_list(&v)), v);
}

#[test]
fn round_trip_unicode_values() {
    let v = strings(&["⭐", "🔥", "Пропущенные упоминания", "naïve"]);
    assert_eq!(decode_list(&encode_list(&v)), v);
}

#[test]
fn corrupt_encodings_decode_to_empty() {
    assert!(decode_list("").is_empty());
    assert!(decode_list("not json").is_empty());
    assert!(decode_list("[").is_empty());
    assert!(decode_list("[\"unterminated").is_empty());
    assert!(decode_list("[\"a\",]").is_empty());
    assert!(decode_list("[\"a\"").is_empty());
    assert!(decode_list("[\"a\"]extra").is_empty());
    assert!(decode_list("[\"bad\\escape\"]").is_empty());
    assert!(decode_list("{\"a\":1}").is_empty());
}

#[test]
fn decode_accepts_standard_escapes() {
    assert_eq!(decode_list("[\"a\\nb\"]"), strings(&["a\nb"]));
    assert_eq!(decode_list("[\"a\\\"b\"]"), strings(&["a\"b"]));
    assert_eq!(decode_list("[\"a\\/b\"]"), strings(&["a/b"]));
}

#[test]
fn search_surface_frames_tokens_with_spaces() {
    assert_eq!(build_search_surface(&strings(&["tok1", "tok2"])), " tok1 tok2 ");
    assert_eq!(build_search_surface(&strings(&["one"])), " one ");
}

#[test]
fn search_surface_of_no_tokens_is_one_frame() {
    assert_eq!(build_search_surface(&Vec::new()), "  ");
}
