use kamfw::output::{
    json_arr, json_bool, json_escape_str, json_num_i32, json_obj, json_str, join_words, kv_text,
};

#[test]
fn escapes_specials_and_controls() {
    assert_eq!(json_escape_str("a\"b\\c\nd\re\tf"), "a\\\"b\\\\c\\nd\\re\\tf");
    assert_eq!(json_escape_str("\u{1}\u{1f}\u{0}"), "\\u0001\\u001f\\u0000");
    assert_eq!(json_escape_str("héllo ✓ /"), "héllo ✓ /");
    assert_eq!(json_escape_str(""), "");
}

#[test]
fn string_literal_is_quoted() {
    assert_eq!(json_str("x\ty"), "\"x\\ty\"");
    assert_eq!(json_str(""), "\"\"");
}

#[test]
fn escaped_string_decodes_back() {
    let original = "q\"b\\n\nt\tc\u{7}\u{1b}end";
    let encoded = json_str(original);
    assert_eq!(encoded, "\"q\\\"b\\\\n\\nt\\tc\\u0007\\u001bend\"");
    assert_eq!(decode_json_string(&encoded), original);
}

// A small reader of JSON string literals, independent of the encoder.
fn decode_json_string(t: &str) -> String {
    let chars: Vec<char> = t.chars().collect();
    assert!(chars.len() >= 2 && chars[0] == '"' && chars[chars.len() - 1] == '"');
    let body = &chars[1..chars.len() - 1];
    let mut out = String::new();
    let mut i = 0;
    while i < body.len() {
        let c = body[i];
        if c == '\\' {
            let e = body[i + 1];
            match e {
                '"' => out.push('"'),
                '\\' => out.push('\\'),
                '/' => out.push('/'),
                'n' => out.push('\n'),
                'r' => out.push('\r'),
                't' => out.push('\t'),
                'b' => out.push('\u{8}'),
                'f' => out.push('\u{c}'),
                'u' => {
                    let hex: String = body[i + 2..i + 6].iter().collect();
                    let v = u32::from_str_radix(&hex, 16).unwrap();
                    out.push(char::from_u32(v).unwrap());
                    i += 4;
                }
                _ => panic!("bad escape"),
            }
            i += 2;
        } else {
            assert!(c != '"' && (c as u32) >= 0x20);
            out.push(c);
            i += 1;
        }
    }
    out
}

#[test]
fn object_keeps_field_order() {
    let fields = vec![("a", json_num_i32(1)), ("b", json_num_i32(2))];
    assert_eq!(json_obj(&fields), "{\"a\":1,\"b\":2}");
    let reversed = vec![("b", json_num_i32(2)), ("a", json_num_i32(1))];
    assert_eq!(json_obj(&reversed), "{\"b\":2,\"a\":1}");
    assert_eq!(json_obj(&[]), "{}");
}

#[test]
fn object_keys_are_escaped() {
    let fields = vec![("k\"", json_bool(true).to_string())];
    assert_eq!(json_obj(&fields), "{\"k\\\"\":true}");
}

#[test]
fn array_keeps_element_order() {
    let items = vec![json_str("z"), json_num_i32(-3), json_bool(false).to_string()];
    assert_eq!(json_arr(&items), "[\"z\",-3,false]");
    assert_eq!(json_arr(&[]), "[]");
}

#[test]
fn numbers_and_booleans() {
    assert_eq!(json_num_i32(0), "0");
    assert_eq!(json_num_i32(42), "42");
    assert_eq!(json_num_i32(-7), "-7");
    assert_eq!(json_num_i32(i32::MAX), "2147483647");
    assert_eq!(json_num_i32(i32::MIN), "-2147483648");
    assert_eq!(json_bool(true), "true");
    assert_eq!(json_bool(false), "false");
}

#[test]
fn key_value_lines() {
    let fields = vec![("A", "1".to_string()), ("B_C", "/x y".to_string())];
    assert_eq!(kv_text(&fields), "A=1\nB_C=/x y\n");
    assert_eq!(kv_text(&[]), "");
}

#[test]
fn words_joined_by_spaces() {
    let items = vec!["--flag".to_string(), "x".to_string()];
    assert_eq!(join_words(&items), "--flag x");
    assert_eq!(join_words(&[]), "");
    assert_eq!(join_words(&["one".to_string()]), "one");
}
