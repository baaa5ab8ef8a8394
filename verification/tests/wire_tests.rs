use layer_sync::ClientMessage;
use layer_sync::ProtocolError;
use layer_sync::ServerMessage;
use layer_sync::encode_client_message;
use layer_sync::parse_server_message;

fn change_layer(new: &str) -> ClientMessage {
    ClientMessage::ChangeLayer { new: new.to_string() }
}

#[test]
fn encode_plain_name() {
    let msg = change_layer("firefox");
    assert_eq!(encode_client_message(&msg), "{\"ChangeLayer\":{\"new\":\"firefox\"}}");
}

#[test]
fn encode_default_layer() {
    let msg = change_layer("main");
    assert_eq!(encode_client_message(&msg), "{\"ChangeLayer\":{\"new\":\"main\"}}");
}

#[test]
fn encode_empty_name() {
    let msg = change_layer("");
    assert_eq!(encode_client_message(&msg), "{\"ChangeLayer\":{\"new\":\"\"}}");
}

#[test]
fn encode_escapes_quote_backslash_and_controls() {
    let msg = change_layer("a\"b\\c\nd\te\u{8}f\u{c}g\rh");
    assert_eq!(
        encode_client_message(&msg),
        "{\"ChangeLayer\":{\"new\":\"a\\\"b\\\\c\\nd\\te\\bf\\fg\\rh\"}}"
    );
}

#[test]
fn encode_escapes_other_controls_as_hex() {
    let msg = change_layer("x\u{1}y\u{1f}z");
    assert_eq!(encode_client_message(&msg), "{\"ChangeLayer\":{\"new\":\"x\\u0001y\\u001fz\"}}");
}

#[test]
fn encode_keeps_unicode_literal() {
    let msg = change_layer("schreibmaschine-\u{e9}\u{4e2d}");
    assert_eq!(
        encode_client_message(&msg),
        "{\"ChangeLayer\":{\"new\":\"schreibmaschine-\u{e9}\u{4e2d}\"}}"
    );
}

#[test]
fn parse_plain_notification() {
    let r = parse_server_message("{\"LayerChange\":{\"new\":\"browser\"}}");
    assert_eq!(r, Ok(ServerMessage::LayerChange { new: "browser".to_string() }));
}

#[test]
fn parse_empty_name() {
    let r = parse_server_message("{\"LayerChange\":{\"new\":\"\"}}");
    assert_eq!(r, Ok(ServerMessage::LayerChange { new: "".to_string() }));
}

#[test]
fn parse_unescapes_the_name() {
    let r = parse_server_message("{\"LayerChange\":{\"new\":\"a\\\"b\\\\c\\nd\\u0001e\"}}");
    assert_eq!(r, Ok(ServerMessage::LayerChange { new: "a\"b\\c\nd\u{1}e".to_string() }));
}

#[test]
fn parse_rejects_wrong_tag() {
    let r = parse_server_message("{\"ChangeLayer\":{\"new\":\"browser\"}}");
    assert_eq!(r, Err(ProtocolError::Malformed));
}

#[test]
fn parse_rejects_truncated_text() {
    assert_eq!(parse_server_message(""), Err(ProtocolError::Malformed));
    assert_eq!(parse_server_message("{\"LayerChange\":{\"new\":\""), Err(ProtocolError::Malformed));
    assert_eq!(
        parse_server_message("{\"LayerChange\":{\"new\":\"browser\"}"),
        Err(ProtocolError::Malformed)
    );
}

#[test]
fn parse_rejects_trailing_text() {
    let r = parse_server_message("{\"LayerChange\":{\"new\":\"browser\"}} ");
    assert_eq!(r, Err(ProtocolError::Malformed));
}

#[test]
fn parse_rejects_unknown_escape() {
    let r = parse_server_message("{\"LayerChange\":{\"new\":\"a\\qb\"}}");
    assert_eq!(r, Err(ProtocolError::Malformed));
}

#[test]
fn parse_rejects_bare_control_character() {
    let r = parse_server_message("{\"LayerChange\":{\"new\":\"a\u{1}b\"}}");
    assert_eq!(r, Err(ProtocolError::Malformed));
}

#[test]
fn parse_rejects_non_canonical_hex_escape() {
    // Upper-case hex digits are not the canonical form.
    let r = parse_server_message("{\"LayerChange\":{\"new\":\"a\\u001Fb\"}}");
    assert_eq!(r, Err(ProtocolError::Malformed));
    // A code with a short escape of its own must use the short form.
    let r = parse_server_message("{\"LayerChange\":{\"new\":\"a\\u0009b\"}}");
    assert_eq!(r, Err(ProtocolError::Malformed));
    // A code outside the control range must stand literally.
    let r = parse_server_message("{\"LayerChange\":{\"new\":\"a\\u0041b\"}}");
    assert_eq!(r, Err(ProtocolError::Malformed));
}

#[test]
fn from_str_matches_parse() {
    let r = ServerMessage::from_str("{\"LayerChange\":{\"new\":\"browser\"}}");
    assert_eq!(r, Ok(ServerMessage::LayerChange { new: "browser".to_string() }));
    let r = ServerMessage::from_str("not json");
    assert_eq!(r, Err(ProtocolError::Malformed));
}

#[test]
fn wire_round_trip_through_both_shapes() {
    // What goes out for a layer comes back, notification-framed, as the same
    // name: encode the command, reframe the same body as a notification, and
    // parse it.
    let name = "a\"b\\c\u{3}-\u{e9}";
    let out = encode_client_message(&change_layer(name));
    let body = out
        .strip_prefix("{\"ChangeLayer\":{\"new\":\"")
        .and_then(|rest| rest.strip_suffix("\"}}"))
        .unwrap();
    let echoed = format!("{}{}{}", "{\"LayerChange\":{\"new\":\"", body, "\"}}");
    let r = parse_server_message(&echoed);
    assert_eq!(r, Ok(ServerMessage::LayerChange { new: name.to_string() }));
}
