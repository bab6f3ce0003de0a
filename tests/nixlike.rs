use fleet::telemetry::{
    Compression, ExporterSettings, OtlpProtocol, ProviderError, parse_headers, resolve_exporter,
};
use fleet::nixlike::{
    JsonValue, escape_string, replace_str, write_identifier, write_nix, write_nix_str,
    write_nix_str_singleline, write_padding,
};

fn s(v: &str) -> JsonValue {
    JsonValue::String(v.to_string())
}

fn obj(members: Vec<(&str, JsonValue)>) -> JsonValue {
    JsonValue::Object(members.into_iter().map(|(k, v)| (k.to_string(), v)).collect())
}

#[test]
fn escapes_strings() {
    assert_eq!(escape_string("plain"), "\"plain\"");
    assert_eq!(escape_string(""), "\"\"");
    assert_eq!(escape_string("a\\b\"c\nd\te\rf${x}"), "\"a\\\\b\\\"c\\nd\\te\\rf\\${x}\"");
    let mut out = String::from("x = ");
    write_nix_str_singleline("q\"", &mut out);
    assert_eq!(out, "x = \"q\\\"\"");
}

#[test]
fn identifiers() {
    let mut out = String::new();
    write_identifier("simple-name", &mut out);
    assert_eq!(out, "simple-name");
    let mut out = String::new();
    write_identifier("with.dot", &mut out);
    assert_eq!(out, "\"with.dot\"");
    let mut out = String::new();
    write_identifier("it's", &mut out);
    assert_eq!(out, "\"it's\"");
}

#[test]
fn replaces_left_to_right_without_overlap() {
    assert_eq!(replace_str("'''", "''", "'''"), "''''");
    assert_eq!(replace_str("aaaa", "aa", "b"), "bb");
    assert_eq!(replace_str("abc", "x", "y"), "abc");
    assert_eq!(replace_str("", "x", "y"), "");
}

#[test]
fn padding() {
    let mut out = String::from(">");
    write_padding(&mut out, &3);
    assert_eq!(out, ">      ");
}

#[test]
fn multiline_strings() {
    let mut out = String::new();
    let mut padding: usize = 1;
    write_nix_str("line one\n\tx ''y'' ${z}\n", &mut out, &mut padding);
    assert_eq!(padding, 1);
    assert_eq!(out, "''\n    line one\n    ''\\tx '''y''' ''${z}\n  ''");
    let mut out = String::new();
    write_nix_str("no newline", &mut out, &mut padding);
    assert_eq!(out, "\"no newline\"");
    let mut out = String::new();
    write_nix_str("\n", &mut out, &mut padding);
    assert_eq!(out, "''\n    \n  ''");
}

#[test]
fn scalars() {
    assert_eq!(write_nix(&JsonValue::Null), "null");
    assert_eq!(write_nix(&JsonValue::Boolean(true)), "true");
    assert_eq!(write_nix(&JsonValue::Boolean(false)), "false");
    assert_eq!(write_nix(&JsonValue::Number("-12.5".to_string())), "-12.5");
    assert_eq!(write_nix(&s("hi")), "\"hi\"");
    assert_eq!(write_nix(&JsonValue::Array(Vec::new())), "[ ]");
    assert_eq!(write_nix(&obj(Vec::new())), "{ }");
}

#[test]
fn nested_values() {
    let value = obj(vec![
        ("a", JsonValue::Array(vec![JsonValue::Number("1".to_string()), s("x")])),
        ("b", obj(vec![("c", obj(vec![("d", JsonValue::Boolean(true))]))])),
        ("e.f", obj(vec![("g", JsonValue::Null), ("h", JsonValue::Null)])),
    ]);
    let expected = "{\n  a = [\n    1\n    \"x\"\n  ];\n  b.c.d = true;\n  \"e.f\" = {\n    g = null;\n    h = null;\n  };\n}";
    assert_eq!(write_nix(&value), expected);
}

#[test]
fn multiline_inside_object() {
    let value = obj(vec![("text", s("a\nb\n"))]);
    assert_eq!(write_nix(&value), "{\n  text = ''\n    a\n    b\n  '';\n}");
}

#[test]
fn telemetry_headers_and_settings() {
    let h = parse_headers("a=1,b=x=y,c,");
    assert_eq!(
        h,
        vec![
            ("a".to_string(), "1".to_string()),
            ("b".to_string(), "x=y".to_string()),
            ("c".to_string(), "".to_string()),
            ("".to_string(), "".to_string()),
        ]
    );
    assert_eq!(parse_headers(""), vec![("".to_string(), "".to_string())]);
    let unset = || ExporterSettings { compression: None, endpoint: None, headers: None, protocol: None, timeout: None };
    let base = ExporterSettings {
        compression: Some(Compression::Gzip),
        endpoint: Some("http://collector:4317".to_string()),
        headers: Some("k=v".to_string()),
        protocol: Some(OtlpProtocol::Grpc),
        timeout: None,
    };
    let c = resolve_exporter(&base, &unset(), "/v1/logs").unwrap();
    assert_eq!(c.endpoint, "http://collector:4317/v1/logs");
    assert_eq!(c.timeout_ms, 10000);
    assert_eq!(c.protocol, OtlpProtocol::Grpc);
    assert_eq!(c.compression, Some(Compression::Gzip));
    assert_eq!(c.headers, vec![("k".to_string(), "v".to_string())]);
    let signal = ExporterSettings {
        compression: None,
        endpoint: Some("http://logs".to_string()),
        headers: None,
        protocol: Some(OtlpProtocol::HttpJson),
        timeout: Some(5),
    };
    let c = resolve_exporter(&base, &signal, "/v1/logs").unwrap();
    assert_eq!(c.endpoint, "http://logs");
    assert_eq!(c.timeout_ms, 5);
    assert_eq!(c.compression, None);
    assert!(matches!(resolve_exporter(&unset(), &unset(), "/v1/traces"), Err(ProviderError::EndpointUnset)));
    let only_endpoint = ExporterSettings { endpoint: Some("e".to_string()), ..unset() };
    assert!(matches!(resolve_exporter(&only_endpoint, &unset(), "/v1/traces"), Err(ProviderError::UnsetProtocol)));
    assert_eq!(OtlpProtocol::parse("http/protobuf"), Some(OtlpProtocol::HttpProtobuf));
    assert_eq!(OtlpProtocol::parse("http"), None);
    assert_eq!(Compression::parse("zstd"), Some(Compression::Zstd));
    assert_eq!(Compression::parse("lz4"), None);
}
