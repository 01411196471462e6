use base64::Engine;
use sampling::color::Color;
use sampling::response::encode_bytes;
use sampling::response::encode_color;
use sampling::response::EncodeError;
use sampling::response::Format;
use std::collections::BTreeMap;

fn rgb(red: u8, green: u8, blue: u8) -> Color {
    Color { red, green, blue }
}

fn unsupported(selector: &str) -> Result<Format, EncodeError> {
    Err(EncodeError::UnsupportedFormat { format: selector.to_string() })
}

fn cbor_entry(key: &str, value: serde_cbor::Value) -> Vec<u8> {
    let mut map = BTreeMap::new();
    map.insert(serde_cbor::Value::Text(key.to_string()), value);
    serde_cbor::to_vec(&serde_cbor::Value::Map(map)).unwrap()
}

fn json_entry(key: &str, text: &str) -> Vec<u8> {
    let mut map = serde_json::Map::new();
    map.insert(key.to_string(), serde_json::Value::String(text.to_string()));
    serde_json::to_vec(&serde_json::Value::Object(map)).unwrap()
}

#[test]
fn selects_the_two_formats() {
    assert_eq!(Format::from_selector("json"), Ok(Format::Json));
    assert_eq!(Format::from_selector("cbor"), Ok(Format::Cbor));
}

#[test]
fn refuses_other_selectors() {
    for selector in ["xml", "", "JSON", "Cbor", "json ", " json", "jso", "jsonn", "yaml", "cb\u{f6}r"] {
        assert_eq!(Format::from_selector(selector), unsupported(selector));
    }
}

#[test]
fn an_absent_selector_means_json() {
    assert_eq!(Format::from_query(None), Ok(Format::Json));
    assert_eq!(Format::from_query(Some("json")), Ok(Format::Json));
    assert_eq!(Format::from_query(Some("cbor")), Ok(Format::Cbor));
    assert_eq!(Format::from_query(Some("msgpack")), unsupported("msgpack"));
    assert_eq!(Format::from_query(Some("")), unsupported(""));
}

#[test]
fn bytes_in_json_are_base64_that_decodes_back() {
    let out = encode_bytes(vec![1, 2, 3], Format::Json);
    assert_eq!(out, b"{\"bytes\":\"AQID\"}".to_vec());
    let value: serde_json::Value = serde_json::from_slice(&out).unwrap();
    let text = value.get("bytes").unwrap().as_str().unwrap();
    let back = base64::engine::general_purpose::STANDARD.decode(text).unwrap();
    assert_eq!(back, vec![1, 2, 3]);
}

#[test]
fn bytes_in_json_are_padded() {
    assert_eq!(encode_bytes(vec![], Format::Json), b"{\"bytes\":\"\"}".to_vec());
    assert_eq!(encode_bytes(vec![0], Format::Json), b"{\"bytes\":\"AA==\"}".to_vec());
    assert_eq!(encode_bytes(vec![0, 0], Format::Json), b"{\"bytes\":\"AAA=\"}".to_vec());
    assert_eq!(encode_bytes(vec![255, 255, 255], Format::Json), b"{\"bytes\":\"////\"}".to_vec());
    assert_eq!(encode_bytes(vec![251, 239], Format::Json), b"{\"bytes\":\"++8=\"}".to_vec());
}

#[test]
fn bytes_in_json_match_the_json_writer() {
    let data: Vec<u8> = (0..=255).collect();
    let text = base64::engine::general_purpose::STANDARD.encode(&data);
    assert_eq!(encode_bytes(data, Format::Json), json_entry("bytes", &text));
}

#[test]
fn bytes_in_cbor_appear_as_they_are() {
    let out = encode_bytes(vec![1, 2, 3], Format::Cbor);
    assert_eq!(out, vec![0xA1, 0x65, b'b', b'y', b't', b'e', b's', 0x43, 1, 2, 3]);
    assert!(out.ends_with(&[1, 2, 3]));
    let value: serde_cbor::Value = serde_cbor::from_slice(&out).unwrap();
    let mut expected = BTreeMap::new();
    expected.insert(serde_cbor::Value::Text("bytes".to_string()), serde_cbor::Value::Bytes(vec![1, 2, 3]));
    assert_eq!(value, serde_cbor::Value::Map(expected));
}

#[test]
fn bytes_in_cbor_match_the_cbor_writer_at_every_length_form() {
    for len in [0usize, 1, 23, 24, 25, 255, 256, 257, 65_535, 65_536, 70_000] {
        let data: Vec<u8> = (0..len).map(|i| (i * 7 + 3) as u8).collect();
        let expected = cbor_entry("bytes", serde_cbor::Value::Bytes(data.clone()));
        let out = encode_bytes(data.clone(), Format::Cbor);
        assert_eq!(out, expected, "length {}", len);
        assert!(out.ends_with(&data));
    }
}

#[test]
fn the_head_of_a_byte_string_grows_with_its_length() {
    let head = |len: usize| -> Vec<u8> {
        let out = encode_bytes(vec![0; len], Format::Cbor);
        out[7..out.len() - len].to_vec()
    };
    assert_eq!(head(0), vec![0x40]);
    assert_eq!(head(23), vec![0x57]);
    assert_eq!(head(24), vec![0x58, 24]);
    assert_eq!(head(255), vec![0x58, 255]);
    assert_eq!(head(256), vec![0x59, 1, 0]);
    assert_eq!(head(65_535), vec![0x59, 255, 255]);
    assert_eq!(head(65_536), vec![0x5A, 0, 1, 0, 0]);
    assert_eq!(head(0x01_02_03), vec![0x5A, 0, 1, 2, 3]);
}

#[test]
fn colors_in_json() {
    assert_eq!(encode_color(rgb(255, 255, 255), Format::Json), b"{\"color\":\"white\"}".to_vec());
    assert_eq!(encode_color(rgb(0, 0, 0), Format::Json), b"{\"color\":\"black\"}".to_vec());
    assert_eq!(encode_color(rgb(10, 11, 12), Format::Json), b"{\"color\":\"#0A0B0C\"}".to_vec());
    for c in [rgb(1, 2, 3), rgb(255, 0, 255), rgb(0, 0, 0), rgb(171, 205, 239)] {
        assert_eq!(encode_color(c, Format::Json), json_entry("color", &c.to_string()));
    }
}

#[test]
fn colors_in_cbor() {
    assert_eq!(
        encode_color(rgb(255, 255, 255), Format::Cbor),
        vec![0xA1, 0x65, b'c', b'o', b'l', b'o', b'r', 0x65, b'w', b'h', b'i', b't', b'e']
    );
    assert_eq!(
        encode_color(rgb(10, 11, 12), Format::Cbor),
        vec![0xA1, 0x65, b'c', b'o', b'l', b'o', b'r', 0x67, b'#', b'0', b'A', b'0', b'B', b'0', b'C']
    );
    for c in [rgb(1, 2, 3), rgb(255, 0, 255), rgb(0, 0, 0), rgb(171, 205, 239)] {
        let expected = cbor_entry("color", serde_cbor::Value::Text(c.to_string()));
        assert_eq!(encode_color(c, Format::Cbor), expected);
    }
}

#[test]
fn an_encoded_color_reads_back() {
    let c = rgb(18, 52, 86);
    let json: serde_json::Value = serde_json::from_slice(&encode_color(c, Format::Json)).unwrap();
    assert_eq!(Color::from_str(json.get("color").unwrap().as_str().unwrap()), Ok(c));
    let cbor: serde_cbor::Value = serde_cbor::from_slice(&encode_color(c, Format::Cbor)).unwrap();
    match cbor {
        serde_cbor::Value::Map(map) => {
            assert_eq!(map.len(), 1);
            match map.get(&serde_cbor::Value::Text("color".to_string())) {
                Some(serde_cbor::Value::Text(text)) => assert_eq!(Color::from_str(text), Ok(c)),
                other => panic!("expected a text, got {:?}", other),
            }
        }
        other => panic!("expected a map, got {:?}", other),
    }
}
