use zenoh_plugin_rest::properties::{parse_properties, properties_to_json};
use zenoh_plugin_rest::sample::{
    html_list, json_form, json_list, kind_name, render_sample_html, render_sample_json,
    value_to_string, JsonForm,
};
use zenoh_plugin_rest::{
    sample_to_html, sample_to_json, to_html, to_json, value_to_json, Encoding, KnownEncoding,
    Sample, SampleKind, Value,
};

fn value(payload: &[u8], prefix: KnownEncoding, suffix: &str) -> Value {
    Value { payload: payload.to_vec(), encoding: Encoding { prefix, suffix: suffix.to_string() } }
}

fn sample(key: &str, v: Value, ts: Option<&str>) -> Sample {
    Sample { key_expr: key.to_string(), value: v, kind: SampleKind::Put, timestamp: ts.map(|t| t.to_string()) }
}

#[test]
fn encoding_from_mime_text() {
    let e = Encoding::from_mime("text/plain;charset=utf-8");
    assert_eq!(e.prefix, KnownEncoding::TextPlain);
    assert_eq!(e.suffix, ";charset=utf-8");
    let e = Encoding::from_mime("application/json");
    assert_eq!(e.prefix, KnownEncoding::AppJson);
    assert_eq!(e.suffix, "");
    let e = Encoding::from_mime("video/mp4");
    assert_eq!(e.prefix, KnownEncoding::Empty);
    assert_eq!(e.suffix, "video/mp4");
    let e = Encoding::from_mime("application/xhtml+xml");
    assert_eq!(e.prefix, KnownEncoding::AppXhtmlXml);
}

#[test]
fn encoding_text_round_trips() {
    for m in ["text/plain;charset=utf-8", "application/json", "video/mp4", "", "image/png", "text/htmlx"] {
        assert_eq!(Encoding::from_mime(m).to_text(), m);
    }
}

#[test]
fn encoding_refinement() {
    let e = Encoding::from_mime("text/plain;charset=utf-8");
    assert!(e.starts_with(&Encoding::exact(KnownEncoding::TextPlain)));
    assert!(e.starts_with(&Encoding::from_mime("text/plain;charset")));
    assert!(!e.starts_with(&Encoding::from_mime("text/plain;x")));
    assert!(!e.starts_with(&Encoding::exact(KnownEncoding::TextHtml)));
}

#[test]
fn json_forms() {
    assert_eq!(json_form(&Encoding::exact(KnownEncoding::TextPlain)), JsonForm::Quoted);
    assert_eq!(json_form(&Encoding::from_mime("text/plain;a")), JsonForm::Quoted);
    assert_eq!(json_form(&Encoding::exact(KnownEncoding::AppProperties)), JsonForm::Properties);
    assert_eq!(json_form(&Encoding::exact(KnownEncoding::AppJson)), JsonForm::Verbatim);
    assert_eq!(json_form(&Encoding::exact(KnownEncoding::AppInteger)), JsonForm::Verbatim);
    assert_eq!(json_form(&Encoding::exact(KnownEncoding::AppFloat)), JsonForm::Verbatim);
    assert_eq!(json_form(&Encoding::exact(KnownEncoding::TextJson)), JsonForm::Encoded);
    assert_eq!(json_form(&Encoding::exact(KnownEncoding::Empty)), JsonForm::Encoded);
}

#[test]
fn value_text_is_utf8_or_base64() {
    assert_eq!(value_to_string(&value(b"hello", KnownEncoding::TextPlain, "")), "hello");
    assert_eq!(value_to_string(&value(&[0xff, 0x00], KnownEncoding::TextPlain, "")), "/wA=");
}

#[test]
fn value_json_quotes_text() {
    let v = value(b"say \"hi\"\n\\", KnownEncoding::TextPlain, "");
    assert_eq!(value_to_json(&v), "\"say \\\"hi\\\"\\n\\\\\"");
    let v = value(b"\x01", KnownEncoding::TextPlain, "");
    assert_eq!(value_to_json(&v), "\"\\u0001\"");
}

#[test]
fn value_json_verbatim_and_base64() {
    assert_eq!(value_to_json(&value(b"{\"a\":1}", KnownEncoding::AppJson, "")), "{\"a\":1}");
    assert_eq!(value_to_json(&value(b"42", KnownEncoding::AppInteger, "")), "42");
    assert_eq!(value_to_json(&value(b"hello", KnownEncoding::AppOctetStream, "")), "\"aGVsbG8=\"");
    assert_eq!(value_to_json(&value(b"", KnownEncoding::Empty, "")), "\"\"");
}

#[test]
fn value_json_properties() {
    let v = value(b"a=1;b=x=y;;c;a=2", KnownEncoding::AppProperties, "");
    assert_eq!(value_to_json(&v), "{\"a\":\"2\",\"b\":\"x=y\",\"c\":\"\"}");
}

#[test]
fn properties_are_read_in_order() {
    let m = parse_properties("k=v;x=1;k=w;=e");
    assert_eq!(
        m,
        vec![
            ("".to_string(), "e".to_string()),
            ("k".to_string(), "w".to_string()),
            ("x".to_string(), "1".to_string()),
        ]
    );
    assert_eq!(parse_properties(""), vec![]);
    assert_eq!(parse_properties(";;"), vec![]);
}

#[test]
fn properties_are_separated_by_line_breaks() {
    let m = parse_properties("a=1\nb=2");
    assert_eq!(m, vec![("a".to_string(), "1".to_string()), ("b".to_string(), "2".to_string())]);
    let m = parse_properties("a=1\r\nb=2;c=3\r\n");
    assert_eq!(
        m,
        vec![
            ("a".to_string(), "1".to_string()),
            ("b".to_string(), "2".to_string()),
            ("c".to_string(), "3".to_string()),
        ]
    );
}

#[test]
fn a_line_break_separates_like_a_semicolon() {
    assert_eq!(parse_properties("a=1\nb=2\na=3\n#c=4"), parse_properties("a=1;b=2;a=3;#c=4"));
    assert_eq!(properties_to_json("x=1\ny=2"), properties_to_json("x=1;y=2"));
}

#[test]
fn property_keys_and_values_are_trimmed() {
    let m = parse_properties(" a = 1 ;\tb=  x y \n");
    assert_eq!(m, vec![("a".to_string(), "1".to_string()), ("b".to_string(), "x y".to_string())]);
    let m = parse_properties("\u{3000}k\u{a0}=\u{2003}v\u{85}; w ");
    assert_eq!(m, vec![("k".to_string(), "v".to_string()), ("w".to_string(), "".to_string())]);
}

#[test]
fn blank_pieces_and_comments_hold_no_property() {
    let m = parse_properties("# comment\nk=v\n\n   \n  #x=1;c;#=2");
    assert_eq!(m, vec![("c".to_string(), "".to_string()), ("k".to_string(), "v".to_string())]);
    assert_eq!(parse_properties(" \n\t;#only"), vec![]);
    let m = parse_properties("k=#v; =e");
    assert_eq!(m, vec![("".to_string(), "e".to_string()), ("k".to_string(), "#v".to_string())]);
}

#[test]
fn properties_json_of_a_configuration_text() {
    let text = "# peer settings\nmode = peer\nlisten=tcp/0.0.0.0:7447\n\nmode=client\n";
    assert_eq!(properties_to_json(text), "{\"listen\":\"tcp/0.0.0.0:7447\",\"mode\":\"client\"}");
    let v = value(b"a=1\nb=2", KnownEncoding::AppProperties, "");
    assert_eq!(value_to_json(&v), "{\"a\":\"1\",\"b\":\"2\"}");
}

#[test]
fn a_key_set_twice_keeps_its_last_value() {
    let m = parse_properties("a=1;b=2;a=3;b=4;a=5");
    assert_eq!(m, vec![("a".to_string(), "5".to_string()), ("b".to_string(), "4".to_string())]);
}

#[test]
fn properties_json_sorts_keys() {
    assert_eq!(properties_to_json("b=1;a=2"), "{\"a\":\"2\",\"b\":\"1\"}");
    assert_eq!(properties_to_json("zz=1;Z=2;z=3;é=4"), "{\"Z\":\"2\",\"z\":\"3\",\"zz\":\"1\",\"é\":\"4\"}");
}

#[test]
fn properties_json_matches_serde_json_map() {
    let text = "q=1;b=2;a=3;q=4;=5;aa=6";
    let mut map = serde_json::Map::new();
    for (k, v) in [("q", "1"), ("b", "2"), ("a", "3"), ("q", "4"), ("", "5"), ("aa", "6")] {
        map.insert(k.to_string(), serde_json::Value::String(v.to_string()));
    }
    assert_eq!(properties_to_json(text), serde_json::Value::Object(map).to_string());
}

#[test]
fn properties_json_quotes_keys_and_values() {
    assert_eq!(properties_to_json("q\"=1"), "{\"q\\\"\":\"1\"}");
    assert_eq!(properties_to_json(""), "{}");
}

#[test]
fn sample_json_layout() {
    let s = sample("/demo/a", value(b"hi", KnownEncoding::TextPlain, ";x"), Some("12345/abc"));
    assert_eq!(
        sample_to_json(&s),
        "{ \"key\": \"/demo/a\", \"value\": \"hi\", \"encoding\": \"text/plain;x\", \"time\": \"12345/abc\" }"
    );
    let s = sample("/demo/b", value(b"3.5", KnownEncoding::AppFloat, ""), None);
    assert_eq!(
        sample_to_json(&s),
        "{ \"key\": \"/demo/b\", \"value\": 3.5, \"encoding\": \"application/float\", \"time\": \"None\" }"
    );
    assert_eq!(
        render_sample_json("k", "V", "e", None),
        "{ \"key\": \"k\", \"value\": V, \"encoding\": \"e\", \"time\": \"None\" }"
    );
}

#[test]
fn json_reply_lists_samples_in_order() {
    let a = sample("/a", value(b"1", KnownEncoding::AppInteger, ""), None);
    let b = sample("/b", value(b"2", KnownEncoding::AppInteger, ""), None);
    let expected = format!("[\n{},\n{}\n]\n", sample_to_json(&a), sample_to_json(&b));
    assert_eq!(to_json(&vec![a, b]), expected);
    assert_eq!(to_json(&vec![]), "[\n\n]\n");
    assert_eq!(json_list(&vec!["x".to_string()]), "[\nx\n]\n");
}

#[test]
fn html_reply() {
    let a = sample("/a", value(b"one", KnownEncoding::TextPlain, ""), None);
    assert_eq!(sample_to_html(&a), "<dt>/a</dt>\n<dd>one</dd>\n");
    let b = sample("/b", value(&[b'x', 0xff], KnownEncoding::TextPlain, ""), None);
    assert_eq!(sample_to_html(&b), "<dt>/b</dt>\n<dd>x\u{fffd}</dd>\n");
    assert_eq!(to_html(&vec![a, b]), "<dl>\n<dt>/a</dt>\n<dd>one</dd>\n\n<dt>/b</dt>\n<dd>x\u{fffd}</dd>\n\n</dl>\n");
    assert_eq!(to_html(&vec![]), "<dl>\n\n</dl>\n");
    assert_eq!(render_sample_html("k", "t"), "<dt>k</dt>\n<dd>t</dd>\n");
    assert_eq!(html_list(&vec!["a".to_string(), "b".to_string()]), "<dl>\na\nb\n</dl>\n");
}

#[test]
fn kind_names() {
    assert_eq!(kind_name(SampleKind::Put), "PUT");
    assert_eq!(kind_name(SampleKind::Patch), "PATCH");
    assert_eq!(kind_name(SampleKind::Delete), "DELETE");
    assert_eq!(SampleKind::default(), SampleKind::Put);
}

#[test]
fn json_quoting_escapes_every_control_character() {
    let text: String = (0u8..0x20).map(|b| b as char).chain("\"\\/é".chars()).collect();
    let v = value(text.as_bytes(), KnownEncoding::TextPlain, "");
    let json = value_to_json(&v);
    assert_eq!(json, serde_json::Value::String(text.clone()).to_string());
    assert!(json.contains("\\u0000") && json.contains("\\u001f") && json.contains("\\b") && json.contains("\\f"));
    assert_eq!(serde_json::from_str::<String>(&json).unwrap(), text);
}

#[test]
fn base64_text_reads_back() {
    for payload in [&b""[..], &b"a"[..], &b"ab"[..], &b"abc"[..], &[0u8, 255, 128, 7][..]] {
        let v = value(payload, KnownEncoding::AppOctetStream, "");
        let json = value_to_json(&v);
        assert_eq!(json, format!("\"{}\"", base64::encode(payload)));
        assert_eq!(base64::decode(&json[1..json.len() - 1]).unwrap(), payload.to_vec());
    }
}
