use std::collections::HashMap;
use teraclio::{
    filter_base64_decode, filter_base64_encode, filter_bytes_to_str, filter_camel_case,
    filter_html_escape, filter_html_unescape, filter_kebab_case, filter_md5, filter_pascal_case,
    filter_sha1, filter_sha256, filter_slug, filter_snake_case, filter_str_to_bytes,
    filter_url_decode, filter_url_encode, filter_xml_escape, to_hex, Args, ErrorKind, Number,
    Value,
};

fn args() -> Args {
    HashMap::new()
}

fn text(s: &str) -> Value {
    Value::String(s.to_string())
}

fn byte_array(b: &[u8]) -> Value {
    Value::Array(b.iter().map(|x| Value::Number(Number::UInt(*x as u64))).collect())
}

fn out_text(r: Result<Value, teraclio::FilterError>) -> String {
    match r {
        Ok(Value::String(s)) => s,
        other => panic!("expected a string, got {:?}", other),
    }
}

#[test]
fn base64_encode_known_value() {
    assert_eq!(out_text(filter_base64_encode(&text("hello"), &args())), "aGVsbG8=");
    assert_eq!(out_text(filter_base64_encode(&text("hi"), &args())), "aGk=");
    assert_eq!(out_text(filter_base64_encode(&text("abc"), &args())), "YWJj");
    assert_eq!(out_text(filter_base64_encode(&text(""), &args())), "");
}

#[test]
fn base64_encode_non_string_is_empty() {
    assert_eq!(out_text(filter_base64_encode(&Value::Number(Number::UInt(42)), &args())), "");
}

#[test]
fn base64_decode_known_value() {
    let r = filter_base64_decode(&text("aGVsbG8="), &args()).unwrap();
    assert_eq!(r, byte_array(b"hello"));
}

#[test]
fn base64_decode_rejects_invalid_text() {
    let e = filter_base64_decode(&text("not-valid-base64!!"), &args()).unwrap_err();
    assert_eq!(e.kind, ErrorKind::DecodeError);
    let e = filter_base64_decode(&text("aGk"), &args()).unwrap_err();
    assert_eq!(e.kind, ErrorKind::DecodeError);
}

#[test]
fn base64_round_trip() {
    let s = "héllo wörld, 😀!";
    let enc = filter_base64_encode(&text(s), &args()).unwrap();
    let dec = filter_base64_decode(&enc, &args()).unwrap();
    assert_eq!(dec, byte_array(s.as_bytes()));
}

#[test]
fn bytes_to_str_known_value() {
    assert_eq!(out_text(filter_bytes_to_str(&byte_array(b"hi"), &args())), "hi");
}

#[test]
fn bytes_to_str_skips_and_wraps_elements() {
    let v = Value::Array(vec![
        Value::Number(Number::UInt(104)),
        text("x"),
        Value::Number(Number::Int(-1)),
        Value::Number(Number::UInt(361)),
    ]);
    assert_eq!(out_text(filter_bytes_to_str(&v, &args())), "hi");
}

#[test]
fn bytes_to_str_replaces_invalid_utf8() {
    assert_eq!(out_text(filter_bytes_to_str(&byte_array(&[104, 255]), &args())), "h\u{FFFD}");
}

#[test]
fn bytes_to_str_rejects_non_array() {
    let e = filter_bytes_to_str(&Value::Number(Number::UInt(42)), &args()).unwrap_err();
    assert_eq!(e.kind, ErrorKind::TypeError);
    let e = filter_bytes_to_str(&text("abc"), &args()).unwrap_err();
    assert_eq!(e.kind, ErrorKind::TypeError);
}

#[test]
fn str_to_bytes_known_value() {
    let r = filter_str_to_bytes(&text("hé"), &args()).unwrap();
    assert_eq!(r, byte_array(&[104, 195, 169]));
}

#[test]
fn str_to_bytes_rejects_non_string() {
    let e = filter_str_to_bytes(&Value::Number(Number::UInt(42)), &args()).unwrap_err();
    assert_eq!(e.kind, ErrorKind::TypeError);
}

#[test]
fn bytes_round_trip() {
    let s = "héllo 😀 wörld";
    let b = filter_str_to_bytes(&text(s), &args()).unwrap();
    assert_eq!(out_text(filter_bytes_to_str(&b, &args())), s);
}

#[test]
fn url_encode_known_value() {
    assert_eq!(out_text(filter_url_encode(&text("a b&c/ü"), &args())), "a%20b%26c%2F%C3%BC");
    assert_eq!(out_text(filter_url_encode(&text("A-z_0.~"), &args())), "A-z_0.~");
}

#[test]
fn url_decode_known_value() {
    assert_eq!(out_text(filter_url_decode(&text("a%20b%2fc"), &args())), "a b/c");
    assert_eq!(out_text(filter_url_decode(&text("a+b"), &args())), "a+b");
}

#[test]
fn url_decode_rejects_malformed_escape() {
    let e = filter_url_decode(&text("100%zz"), &args()).unwrap_err();
    assert_eq!(e.kind, ErrorKind::DecodeError);
    let e = filter_url_decode(&text("abc%4"), &args()).unwrap_err();
    assert_eq!(e.kind, ErrorKind::DecodeError);
}

#[test]
fn url_decode_rejects_invalid_utf8() {
    let e = filter_url_decode(&text("%FF"), &args()).unwrap_err();
    assert_eq!(e.kind, ErrorKind::DecodeError);
}

#[test]
fn url_round_trip() {
    let s = "a b/ü?x=1&y=%";
    let enc = filter_url_encode(&text(s), &args()).unwrap();
    assert_eq!(out_text(filter_url_decode(&enc, &args())), s);
}

#[test]
fn html_escape_known_value() {
    assert_eq!(out_text(filter_html_escape(&text("<b>hi</b>"), &args())), "&lt;b&gt;hi&lt;/b&gt;");
    assert_eq!(out_text(filter_html_escape(&text("\"'&"), &args())), "&quot;&#x27;&amp;");
}

#[test]
fn xml_escape_known_value() {
    assert_eq!(out_text(filter_xml_escape(&text("a<b & 'c'"), &args())), "a&lt;b &amp; &#x27;c&#x27;");
}

#[test]
fn html_unescape_known_value() {
    let r = out_text(filter_html_unescape(&text("&lt;p&gt; &amp; &quot;x&quot; &#x27;"), &args()));
    assert_eq!(r, "<p> & \"x\" '");
    assert_eq!(out_text(filter_html_unescape(&text("&copy; &#65;"), &args())), "© A");
}

#[test]
fn html_round_trip() {
    let s = "<a href=\"x\">'Tom' & \"Jerry\"</a> &amp;";
    let enc = filter_html_escape(&text(s), &args()).unwrap();
    assert_eq!(out_text(filter_html_unescape(&enc, &args())), s);
}

#[test]
fn md5_known_value() {
    assert_eq!(out_text(filter_md5(&text("hello"), &args())), "5d41402abc4b2a76b9719d911017c592");
    assert_eq!(out_text(filter_md5(&text(""), &args())), "d41d8cd98f00b204e9800998ecf8427e");
}

#[test]
fn sha1_known_value() {
    assert_eq!(
        out_text(filter_sha1(&text("hello"), &args())),
        "aaf4c61ddcc5e8a2dabede0f3b482cd9aea9434d"
    );
}

#[test]
fn sha256_known_value() {
    assert_eq!(
        out_text(filter_sha256(&text("hello"), &args())),
        "2cf24dba5fb0a30e26e83b2ac5b9e29e1b161e5c1fa7425e73043362938b9824"
    );
    assert_eq!(
        out_text(filter_sha256(&Value::Null, &args())),
        "e3b0c44298fc1c149afbf4c8996fb92427ae41e4649b934ca495991b7852b855"
    );
}

#[test]
fn digest_shapes() {
    for s in ["", "a", "héllo wörld", "secret"] {
        let m = out_text(filter_md5(&text(s), &args()));
        let s1 = out_text(filter_sha1(&text(s), &args()));
        let s2 = out_text(filter_sha256(&text(s), &args()));
        assert_eq!(m.len(), 32);
        assert_eq!(s1.len(), 40);
        assert_eq!(s2.len(), 64);
        for c in m.chars().chain(s1.chars()).chain(s2.chars()) {
            assert!(c.is_ascii_digit() || ('a'..='f').contains(&c));
        }
    }
}

#[test]
fn hex_of_bytes() {
    assert_eq!(to_hex(&[0x0f, 0xa0, 0x00, 0xff]), "0fa000ff");
}

#[test]
fn case_conversions() {
    assert_eq!(out_text(filter_snake_case(&text("HelloWorld"), &args())), "hello_world");
    assert_eq!(out_text(filter_kebab_case(&text("HelloWorld"), &args())), "hello-world");
    assert_eq!(out_text(filter_camel_case(&text("hello_world"), &args())), "helloWorld");
    assert_eq!(out_text(filter_pascal_case(&text("hello-world"), &args())), "HelloWorld");
}

#[test]
fn case_boundaries() {
    assert_eq!(out_text(filter_snake_case(&text("HTTPServer"), &args())), "http_server");
    assert_eq!(out_text(filter_kebab_case(&text("my var_name-x"), &args())), "my-var-name-x");
    assert_eq!(out_text(filter_snake_case(&Value::Bool(true), &args())), "");
    assert_eq!(out_text(filter_pascal_case(&Value::Null, &args())), "");
}

#[test]
fn slug_strips_punctuation() {
    assert_eq!(out_text(filter_slug(&text("Hello World!"), &args())), "hello-world");
    assert_eq!(out_text(filter_slug(&text("Hello, World"), &args())), "hello-world");
    assert_eq!(out_text(filter_slug(&text("a ! b"), &args())), "a-b");
    assert_eq!(out_text(filter_slug(&text("Rock & Roll_band"), &args())), "rock-roll-band");
    assert_eq!(out_text(filter_slug(&Value::Null, &args())), "");
    assert_eq!(out_text(filter_slug(&text("Jane Doe"), &args())), "jane-doe");
}
