use dockdockgo::json::{parse_json, JsonValue};
use dockdockgo::manifest::{is_manifest_list, layer_digests, parse_token};

#[test]
fn parses_simple_object() {
    let doc = parse_json(b"{\"a\": true, \"b\": null}").expect("should parse");
    match doc.get("a") {
        Some(JsonValue::Bool(b)) => assert!(*b),
        _ => panic!("expected a bool under \"a\""),
    }
    match doc.get("b") {
        Some(JsonValue::Null) => {}
        _ => panic!("expected null under \"b\""),
    }
    assert!(doc.get("missing").is_none());
}

#[test]
fn parses_nested_arrays_and_objects() {
    let doc = parse_json(b" [ 1 , [ true , \"x\" ] , { \"k\" : [ ] } ] ").expect("should parse");
    match &doc {
        JsonValue::Arr(items) => {
            assert_eq!(items.len(), 3);
            assert!(matches!(items[0], JsonValue::Num));
            match &items[1] {
                JsonValue::Arr(inner) => {
                    assert_eq!(inner.len(), 2);
                    assert!(matches!(inner[0], JsonValue::Bool(true)));
                    match &inner[1] {
                        JsonValue::Str(s) => assert_eq!(s, "x"),
                        _ => panic!("expected a string"),
                    }
                }
                _ => panic!("expected an inner array"),
            }
            match &items[2] {
                JsonValue::Obj(fields) => {
                    assert_eq!(fields.len(), 1);
                    assert_eq!(fields[0].0, "k");
                    match &fields[0].1 {
                        JsonValue::Arr(empty) => assert_eq!(empty.len(), 0),
                        _ => panic!("expected an empty array"),
                    }
                }
                _ => panic!("expected an object"),
            }
        }
        _ => panic!("expected an array"),
    }
}

#[test]
fn decodes_string_escapes() {
    let doc = parse_json(b"\"a\\n\\t\\\"\\\\b\\/\"").expect("should parse");
    match &doc {
        JsonValue::Str(s) => assert_eq!(s, "a\n\t\"\\b/"),
        _ => panic!("expected a string"),
    }
}

#[test]
fn decodes_unicode_escape() {
    let doc = parse_json(b"\"\\u0041\\u00e9\"").expect("should parse");
    match &doc {
        JsonValue::Str(s) => assert_eq!(s, "A\u{e9}"),
        _ => panic!("expected a string"),
    }
}

#[test]
fn rejects_surrogate_escape() {
    assert!(parse_json(b"\"\\ud800\"").is_none());
}

#[test]
fn decodes_utf8_string_content() {
    let text = "caf\u{e9} \u{672c} \u{1f40b}";
    let body = format!("{{\"note\": \"{text}\"}}");
    let doc = parse_json(body.as_bytes()).expect("should parse");
    match doc.get("note") {
        Some(JsonValue::Str(s)) => assert_eq!(s, text),
        _ => panic!("expected a string"),
    }
}

#[test]
fn utf8_decoding_agrees_with_the_reference_parser() {
    let body = "\"\u{e9}\u{7ff}\u{800}\u{d7ff}\u{e000}\u{ffff}\u{10000}\u{10ffff}\"".as_bytes();
    let ours = match parse_json(body) {
        Some(JsonValue::Str(s)) => s,
        _ => panic!("expected a string"),
    };
    let v: serde_json::Value = serde_json::from_slice(body).expect("reference parser");
    assert_eq!(Some(ours.as_str()), v.as_str());
}

#[test]
fn rejects_ill_formed_utf8_in_strings() {
    // An overlong two-byte encoding of '/'.
    assert!(parse_json(b"\"\xc0\xaf\"").is_none());
    // A surrogate encoded directly in three bytes.
    assert!(parse_json(b"\"\xed\xa0\x80\"").is_none());
    // Beyond the last Unicode scalar.
    assert!(parse_json(b"\"\xf4\x90\x80\x80\"").is_none());
    // Truncated sequences.
    assert!(parse_json(b"\"\xc3\"").is_none());
    assert!(parse_json(b"\"\xe2\x82\"").is_none());
    // A bare continuation byte.
    assert!(parse_json(b"\"\xbf\"").is_none());
}

#[test]
fn rejects_malformed_documents() {
    assert!(parse_json(b"").is_none());
    assert!(parse_json(b"{").is_none());
    assert!(parse_json(b"tru").is_none());
    assert!(parse_json(b"1 2").is_none());
    assert!(parse_json(b"{\"a\" 1}").is_none());
    assert!(parse_json(b"[1,]").is_none());
    assert!(parse_json(b"01").is_none());
    assert!(parse_json(b"\"\x07\"").is_none());
    assert!(parse_json(b"\"\xff\"").is_none());
}

#[test]
fn accepts_number_grammar() {
    assert!(parse_json(b"0").is_some());
    assert!(parse_json(b"-12").is_some());
    assert!(parse_json(b"3.25").is_some());
    assert!(parse_json(b"1e5").is_some());
    assert!(parse_json(b"2.5E-3").is_some());
    assert!(parse_json(b"-0.0e+1").is_some());
    assert!(parse_json(b"1.").is_none());
    assert!(parse_json(b"-").is_none());
    assert!(parse_json(b"1e").is_none());
}

#[test]
fn last_binding_of_a_key_wins() {
    let doc = parse_json(b"{\"a\": 1, \"a\": true}").expect("should parse");
    match doc.get("a") {
        Some(JsonValue::Bool(true)) => {}
        _ => panic!("expected the last binding"),
    }
    let v: serde_json::Value = serde_json::from_slice(b"{\"a\": 1, \"a\": true}").expect("reference parser");
    assert_eq!(v.get("a"), Some(&serde_json::Value::Bool(true)));
}

const MANIFEST: &[u8] = b"{\
    \"schemaVersion\": 2,\
    \"config\": {\"digest\": \"sha256:cfg\"},\
    \"layers\": [\
        {\"mediaType\": \"application/vnd.docker.image.rootfs.diff.tar.gzip\", \"size\": 3370706, \"digest\": \"sha256:aaa\"},\
        {\"size\": 12, \"digest\": \"sha256:bbb\"},\
        {\"size\": 1},\
        {\"digest\": 7}\
    ]\
}";

#[test]
fn extracts_layer_digests() {
    let doc = parse_json(MANIFEST).expect("should parse");
    let digests = layer_digests(&doc);
    assert_eq!(digests, vec!["sha256:aaa".to_string(), "sha256:bbb".to_string()]);
}

#[test]
fn layer_digests_agree_with_reference_parser() {
    let ours = layer_digests(&parse_json(MANIFEST).expect("should parse"));
    let v: serde_json::Value = serde_json::from_slice(MANIFEST).expect("reference parser");
    let mut reference: Vec<String> = Vec::new();
    if let Some(layers) = v.get("layers").and_then(|l| l.as_array()) {
        for layer in layers {
            if let Some(d) = layer.get("digest").and_then(|d| d.as_str()) {
                reference.push(d.to_string());
            }
        }
    }
    assert_eq!(ours, reference);
}

#[test]
fn recognizes_manifest_lists() {
    assert!(is_manifest_list(b"{\"manifests\": []}"));
    assert!(!is_manifest_list(MANIFEST));
    assert!(!is_manifest_list(b"not json"));
}

#[test]
fn extracts_bearer_token() {
    assert_eq!(
        parse_token(b"{\"token\": \"tok123\", \"expires_in\": 300}"),
        Some("tok123".to_string())
    );
    assert_eq!(parse_token(b"{\"token\": 5}"), None);
    assert_eq!(parse_token(b"{}"), None);
    assert_eq!(parse_token(b"no"), None);
}
