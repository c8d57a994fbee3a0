//! The wire codec on concrete frames: exact encodings, tolerant decoding,
//! and the round trip of every variant in both vocabularies.

use quaddlecl::codec::ClientGatewayMessage;
use quaddlecl::codec::GatewayEvent;
use quaddlecl::codec::decode_client;
use quaddlecl::codec::decode_event;
use quaddlecl::codec::encode_client;
use quaddlecl::codec::encode_event;
use quaddlecl::gateway::Error;
use quaddlecl::gateway::WsFrame;
use quaddlecl::gateway::interpret_frame;
use quaddlecl::json::JsonValue;
use quaddlecl::json::parse_text;
use quaddlecl::json::parse_u64_digits;
use quaddlecl::json::u64_to_dec;
use quaddlecl::json::write_text;
use quaddlecl::model::ChannelId;
use quaddlecl::model::Message;
use quaddlecl::model::MessageId;
use quaddlecl::model::User;
use quaddlecl::model::UserId;

fn alice() -> User {
    User { id: UserId(1), name: "alice".to_string() }
}

fn hello(content: &str) -> Message {
    Message {
        id: MessageId(175928847299117063),
        author: alice(),
        channel: ChannelId(7),
        content: content.to_string(),
    }
}

#[test]
fn encode_identify_exact() {
    let frame = encode_client(&ClientGatewayMessage::Identify { token: "tok".to_string() });
    assert_eq!(frame, "{\"op\":\"identify\",\"token\":\"tok\"}");
}

#[test]
fn encode_subscribe_exact() {
    let frame = encode_client(&ClientGatewayMessage::Subscribe { channel_id: ChannelId(7) });
    assert_eq!(frame, "{\"op\":\"subscribe\",\"channel_id\":7}");
}

#[test]
fn encode_ready_exact() {
    let frame = encode_event(&GatewayEvent::Ready {
        session_id: "s1".to_string(),
        user: alice(),
    });
    assert_eq!(
        frame,
        "{\"event\":\"ready\",\"session_id\":\"s1\",\"user\":{\"id\":1,\"name\":\"alice\"}}"
    );
}

#[test]
fn decode_ready_frame() {
    let ev = decode_event(
        "{\"event\":\"ready\",\"session_id\":\"s1\",\"user\":{\"id\":1,\"name\":\"alice\"}}",
    )
    .expect("the frame is well-formed");
    assert_eq!(ev, GatewayEvent::Ready { session_id: "s1".to_string(), user: alice() });
}

#[test]
fn decode_accepts_any_member_order_and_whitespace() {
    let ev = decode_event(
        " { \"user\" : {\"name\":\"alice\", \"id\": 1}, \"session_id\":\"s1\", \"event\":\"ready\" } ",
    )
    .expect("member order and whitespace are insignificant");
    assert_eq!(ev, GatewayEvent::Ready { session_id: "s1".to_string(), user: alice() });
}

#[test]
fn decode_skips_unknown_members() {
    let ev = decode_event(
        "{\"event\":\"error\",\"trace\":[1,true,null,{\"at\":2.5e3}],\"reason\":\"nope\"}",
    )
    .expect("unknown members are skipped");
    assert_eq!(ev, GatewayEvent::Error { reason: "nope".to_string() });
}

#[test]
fn decode_rejects_duplicate_members() {
    assert!(decode_event("{\"event\":\"error\",\"reason\":\"a\",\"reason\":\"b\"}").is_err());
}

#[test]
fn decode_rejects_missing_members() {
    assert!(decode_event("{\"event\":\"ready\",\"session_id\":\"s1\"}").is_err());
}

#[test]
fn decode_rejects_unknown_tag() {
    assert!(decode_event("{\"event\":\"typing\",\"channel_id\":7}").is_err());
}

#[test]
fn decode_rejects_malformed_json() {
    assert!(decode_event("{\"event\":\"ready\"").is_err());
    assert!(decode_event("").is_err());
    assert!(decode_event("{\"event\":\"error\",\"reason\":\"x\"} trailing").is_err());
}

#[test]
fn escaped_strings_round_trip() {
    let sent = GatewayEvent::Error { reason: "a\"b\\c\nd\u{1F600}".to_string() };
    let frame = encode_event(&sent);
    assert_eq!(frame, "{\"event\":\"error\",\"reason\":\"a\\\"b\\\\c\\u000ad\u{1F600}\"}");
    assert_eq!(decode_event(&frame).expect("own escapes decode"), sent);
}

#[test]
fn decode_escape_shorthands() {
    let ev = decode_event("{\"event\":\"error\",\"reason\":\"x\\n\\t\\/\\u0041\"}")
        .expect("standard escapes decode");
    assert_eq!(ev, GatewayEvent::Error { reason: "x\n\t/A".to_string() });
}

#[test]
fn decode_rejects_bad_strings() {
    // a surrogate escape
    assert!(decode_event("{\"event\":\"error\",\"reason\":\"\\ud800\"}").is_err());
    // an unknown escape
    assert!(decode_event("{\"event\":\"error\",\"reason\":\"\\q\"}").is_err());
    // a raw control character
    assert!(decode_event("{\"event\":\"error\",\"reason\":\"a\u{0001}b\"}").is_err());
}

#[test]
fn message_create_round_trip() {
    let sent = GatewayEvent::MessageCreate { message: hello("hi there") };
    let frame = encode_event(&sent);
    assert_eq!(decode_event(&frame).expect("own encoding decodes"), sent);
}

#[test]
fn client_round_trip() {
    for sent in [
        ClientGatewayMessage::Identify { token: "se\\cret\"".to_string() },
        ClientGatewayMessage::Subscribe { channel_id: ChannelId(u64::MAX) },
    ] {
        let frame = encode_client(&sent);
        assert_eq!(decode_client(&frame).expect("own encoding decodes"), sent);
    }
}

#[test]
fn decode_rejects_numbers_out_of_range() {
    // one past u64::MAX
    assert!(decode_client("{\"op\":\"subscribe\",\"channel_id\":18446744073709551616}").is_err());
    assert!(decode_client("{\"op\":\"subscribe\",\"channel_id\":-1}").is_err());
    assert_eq!(
        decode_client("{\"op\":\"subscribe\",\"channel_id\":18446744073709551615}")
            .expect("the largest identifier fits"),
        ClientGatewayMessage::Subscribe { channel_id: ChannelId(u64::MAX) }
    );
}

#[test]
fn encoded_frames_are_json_to_serde() {
    let frame = encode_event(&GatewayEvent::Ready {
        session_id: "s\n1".to_string(),
        user: alice(),
    });
    let v: serde_json::Value = serde_json::from_str(&frame).expect("the frame parses as JSON");
    assert_eq!(v["event"].as_str(), Some("ready"));
    assert_eq!(v["session_id"].as_str(), Some("s\n1"));
    assert_eq!(v["user"]["id"].as_u64(), Some(1));
    assert_eq!(v["user"]["name"].as_str(), Some("alice"));
}

#[test]
fn serde_written_frames_decode() {
    let mut obj = serde_json::Map::new();
    obj.insert("event".to_string(), serde_json::Value::String("error".to_string()));
    obj.insert("reason".to_string(), serde_json::Value::String("denied".to_string()));
    let frame = serde_json::to_string(&serde_json::Value::Object(obj))
        .expect("serde writes the frame");
    assert_eq!(
        decode_event(&frame).expect("a serde-written frame decodes"),
        GatewayEvent::Error { reason: "denied".to_string() }
    );
}

#[test]
fn binary_frames_are_protocol_violations() {
    assert_eq!(
        interpret_frame(WsFrame::Binary(vec![1, 2, 3])),
        Err(Error::UnexpectedBinaryMessage)
    );
}

#[test]
fn text_frames_decode_or_fail_as_serialization() {
    assert!(matches!(
        interpret_frame(WsFrame::Text("{".to_string())),
        Err(Error::Serialization(_))
    ));
    assert!(matches!(
        interpret_frame(WsFrame::Text(
            "{\"event\":\"error\",\"reason\":\"x\"}".to_string()
        )),
        Ok(GatewayEvent::Error { .. })
    ));
}

#[test]
fn json_reader_handles_general_values() {
    assert!(parse_text("[1,true,null,\"x\",{}]").is_some());
    assert!(parse_text("[1,2").is_none());
    assert!(parse_text("{} {}").is_none());
    let v = parse_text("\"a\"").expect("a bare string is a value");
    assert_eq!(v, JsonValue::Str("a".to_string()));
    assert_eq!(write_text(&v), "\"a\"");
}

#[test]
fn decimal_tokens() {
    assert_eq!(u64_to_dec(0), "0");
    assert_eq!(u64_to_dec(1234567890), "1234567890");
    assert_eq!(u64_to_dec(u64::MAX), "18446744073709551615");
    assert_eq!(parse_u64_digits("0"), Some(0));
    assert_eq!(parse_u64_digits("18446744073709551615"), Some(u64::MAX));
    assert_eq!(parse_u64_digits("18446744073709551616"), None);
    assert_eq!(parse_u64_digits(""), None);
    assert_eq!(parse_u64_digits("12a"), None);
}
