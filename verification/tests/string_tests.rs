use mcclient::clientbound::json_response::JsonResponse;
use mcclient::errors::McError;
use mcclient::mcstring::MCString;
use mcclient::mctypes::MCType;

#[test]
fn mcstring_round_trips_through_its_wire_form() {
    let source = MCString::from_text("round trip").unwrap();
    let wire = MCType::to_bytes(&source);
    let decoded = MCString::from_bytes(&wire).unwrap();
    assert_eq!(decoded.bytes(), source.bytes());
    assert_eq!(decoded.size().value(), source.size().value());
}

#[test]
fn mcstring_decode_ignores_bytes_past_the_declared_count() {
    let decoded = MCString::from_bytes(&[2, b'h', b'i', 0xFF, 0xFF]).unwrap();
    assert_eq!(decoded.bytes().as_slice(), b"hi");
}

#[test]
fn mcstring_empty_string() {
    let empty = MCString::from_text("").unwrap();
    assert_eq!(MCType::size(&empty), 1);
    assert_eq!(MCType::to_bytes(&empty), vec![0]);
    let decoded = MCString::from_bytes(&[0]).unwrap();
    assert_eq!(decoded.bytes().len(), 0);
}

#[test]
fn mcstring_truncated_content_is_reported() {
    assert!(matches!(
        MCString::from_bytes(&[5, b'a', b'b']),
        Err(McError::TruncatedString)
    ));
}

#[test]
fn mcstring_invalid_utf8_is_reported() {
    assert!(matches!(
        MCString::from_bytes(&[1, 0xFF]),
        Err(McError::InvalidUtf8)
    ));
}

#[test]
fn mcstring_malformed_count_is_reported() {
    assert!(matches!(
        MCString::from_bytes(&[0x80, 0x80, 0x80, 0x80, 0x80, b'a']),
        Err(McError::MalformedVarInt)
    ));
}

#[test]
fn mcstring_negative_count_is_reported() {
    // VarInt [255, 255, 255, 255, 15] reads as -1
    assert!(matches!(
        MCString::from_bytes(&[255, 255, 255, 255, 15, b'a']),
        Err(McError::TruncatedString)
    ));
}

#[test]
fn json_response_parses_a_valid_document() {
    let text = "{\"version\":{\"name\":\"1.19.3\"},\"players\":{\"max\":20}}";
    let mut wire: Vec<u8> = vec![text.len() as u8];
    wire.extend_from_slice(text.as_bytes());
    let response = JsonResponse::from_bytes(&wire).unwrap();
    assert_eq!(response.data()["players"]["max"].as_i64(), Some(20));
    assert_eq!(response.data()["version"]["name"].as_str(), Some("1.19.3"));
}

#[test]
fn json_response_rejects_text_that_is_not_json() {
    let text = "not json at all";
    let mut wire: Vec<u8> = vec![text.len() as u8];
    wire.extend_from_slice(text.as_bytes());
    assert!(matches!(
        JsonResponse::from_bytes(&wire),
        Err(McError::InvalidJson)
    ));
}

#[test]
fn json_response_propagates_string_codec_errors() {
    assert!(matches!(
        JsonResponse::from_bytes(&[9, b'{', b'}']),
        Err(McError::TruncatedString)
    ));
    assert!(matches!(
        JsonResponse::from_bytes(&[1, 0xFF]),
        Err(McError::InvalidUtf8)
    ));
}
