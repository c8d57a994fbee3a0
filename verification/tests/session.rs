//! The gateway channel and session supervisor on concrete runs: the upgrade
//! address, the one-shot handshake, the pump's lifecycle notifications, and
//! the command handle after teardown.

use quaddlecl::codec::ClientGatewayMessage;
use quaddlecl::codec::GatewayEvent;
use quaddlecl::gateway::Error;
use quaddlecl::gateway::connect_url;
use quaddlecl::gateway::identify_outcome;
use quaddlecl::model::ChannelId;
use quaddlecl::model::Message;
use quaddlecl::model::MessageId;
use quaddlecl::model::User;
use quaddlecl::model::UserId;
use quaddlecl::supervisor::GatewayAction;
use quaddlecl::supervisor::GatewayInput;
use quaddlecl::supervisor::GatewayMessage;
use quaddlecl::supervisor::GatewayState;
use quaddlecl::supervisor::supervisor_step;
use quaddlecl::codec::encode_client;

fn alice() -> User {
    User { id: UserId(1), name: "alice".to_string() }
}

#[test]
fn connect_url_appends_the_gateway_path() {
    assert_eq!(
        connect_url("http://localhost:8080").expect("a plain base is hierarchical"),
        "http://localhost:8080/app"
    );
    assert_eq!(
        connect_url("https://chat.example/api").expect("a path extends"),
        "https://chat.example/api/app"
    );
}

#[test]
fn connect_url_rejects_non_hierarchical_endpoints() {
    match connect_url("mailto:me@example.com") {
        Err(Error::InvalidUrl(u)) => assert_eq!(u, "mailto:me@example.com"),
        other => panic!("expected an invalid-URL error, got {other:?}"),
    }
    assert!(connect_url("not a url").is_err());
}

#[test]
fn identify_is_a_strict_one_shot_exchange() {
    // `Ready` first: the handshake succeeds with the identity
    let ok = identify_outcome(Some(Ok(GatewayEvent::Ready {
        session_id: "sid".to_string(),
        user: alice(),
    })));
    assert_eq!(ok, Ok(("sid".to_string(), alice())));

    // `Error` first: it fails with that reason
    let refused = identify_outcome(Some(Ok(GatewayEvent::Error {
        reason: "bad token".to_string(),
    })));
    assert_eq!(refused, Err(Error::GatewayError("bad token".to_string())));

    // any other event first: it fails as unexpected
    let stray = GatewayEvent::MessageCreate {
        message: Message {
            id: MessageId(3),
            author: alice(),
            channel: ChannelId(7),
            content: "hi".to_string(),
        },
    };
    assert_eq!(
        identify_outcome(Some(Ok(stray.clone()))),
        Err(Error::UnexpectedEvent(stray))
    );

    // immediate closure: it fails as an unexpected close
    assert_eq!(identify_outcome(None), Err(Error::UnexpectedSocketClose));

    // a transport failure passes through
    let failed = identify_outcome(Some(Err(Error::Websocket("reset".to_string()))));
    assert_eq!(failed, Err(Error::Websocket("reset".to_string())));
}

#[test]
fn supervisor_scenario() {
    // connect succeeds and identify returns Ready{"s1", alice}
    let identity = identify_outcome(Some(Ok(GatewayEvent::Ready {
        session_id: "s1".to_string(),
        user: alice(),
    })))
    .expect("the handshake succeeds");
    let (state, outputs, actions) = supervisor_step(
        GatewayState::Disconnected,
        GatewayInput::HandshakeSucceeded { session_id: identity.0, user: identity.1 },
    );
    assert!(actions.is_empty());
    assert_eq!(outputs.len(), 1);
    let mut conn = match outputs.into_iter().next().unwrap() {
        GatewayMessage::Connected { conn, user, session_id } => {
            assert_eq!(session_id, "s1");
            assert_eq!(user.name, "alice");
            conn
        },
        _ => panic!("expected exactly one connected notification"),
    };

    // a caller subscribes through the handle; exactly one frame reaches the sink
    assert!(conn.send(ClientGatewayMessage::Subscribe { channel_id: ChannelId(7) }));
    let mut state = state;
    let queued = match &mut state {
        GatewayState::Connected { receiver } => receiver
            .receiver
            .try_recv()
            .expect("the queue holds the command"),
        _ => panic!("expected a connected state"),
    };
    let (mut state, outputs, actions) = supervisor_step(state, GatewayInput::Command(queued));
    assert!(outputs.is_empty());
    assert_eq!(actions.len(), 1);
    match &actions[0] {
        GatewayAction::SendFrame(m) => {
            assert_eq!(encode_client(m), "{\"op\":\"subscribe\",\"channel_id\":7}")
        },
        other => panic!("expected one frame to send, got {other:?}"),
    }
    let more = match &mut state {
        GatewayState::Connected { receiver } => receiver.receiver.try_recv(),
        _ => panic!("expected a connected state"),
    };
    assert!(more.is_err(), "no further wire traffic is pending");

    // the channel yields MessageCreate{content: "hi"}
    let ev = GatewayEvent::MessageCreate {
        message: Message {
            id: MessageId(9),
            author: User { id: UserId(2), name: "bob".to_string() },
            channel: ChannelId(7),
            content: "hi".to_string(),
        },
    };
    let (state, outputs, actions) = supervisor_step(state, GatewayInput::Pulled(Some(Ok(ev))));
    assert!(actions.is_empty());
    assert_eq!(outputs.len(), 1);
    match &outputs[0] {
        GatewayMessage::Event(GatewayEvent::MessageCreate { message }) => {
            assert_eq!(message.content, "hi")
        },
        other => panic!("expected the event republished, got {other:?}"),
    }

    // the channel closes: exactly one Disconnected, then a new dial
    let (state, outputs, actions) = supervisor_step(state, GatewayInput::Pulled(None));
    assert!(matches!(state, GatewayState::Disconnected));
    assert_eq!(outputs.len(), 1);
    assert!(matches!(outputs[0], GatewayMessage::Disconnected));
    assert_eq!(actions, vec![GatewayAction::Dial]);

    // the retry is observable as a further connection error
    let (_, outputs, actions) = supervisor_step(
        state,
        GatewayInput::DialFailed(Error::Websocket("refused".to_string())),
    );
    assert_eq!(outputs.len(), 1);
    assert!(matches!(outputs[0], GatewayMessage::ConnectionError(_)));
    assert_eq!(actions, vec![GatewayAction::Dial]);
}

#[test]
fn decode_failures_do_not_tear_down() {
    let (state, outputs, _) = supervisor_step(
        GatewayState::Disconnected,
        GatewayInput::HandshakeSucceeded { session_id: "s".to_string(), user: alice() },
    );
    drop(outputs);
    let (state, outputs, actions) = supervisor_step(
        state,
        GatewayInput::Pulled(Some(Err(Error::UnexpectedBinaryMessage))),
    );
    assert!(matches!(state, GatewayState::Connected { .. }));
    assert_eq!(outputs.len(), 1);
    assert!(matches!(outputs[0], GatewayMessage::ReceiveError(_)));
    assert!(actions.is_empty());

    // a transport failure, by contrast, ends the epoch
    let (state, outputs, actions) = supervisor_step(
        state,
        GatewayInput::Pulled(Some(Err(Error::Websocket("reset".to_string())))),
    );
    assert!(matches!(state, GatewayState::Disconnected));
    assert_eq!(outputs.len(), 1);
    assert!(matches!(outputs[0], GatewayMessage::ConnectionError(_)));
    assert_eq!(actions, vec![GatewayAction::Dial]);
}

#[test]
fn send_after_teardown_returns_false() {
    let (state, outputs, _) = supervisor_step(
        GatewayState::Disconnected,
        GatewayInput::HandshakeSucceeded { session_id: "s".to_string(), user: alice() },
    );
    let mut conn = match outputs.into_iter().next().unwrap() {
        GatewayMessage::Connected { conn, .. } => conn,
        _ => panic!("expected a connected notification"),
    };
    assert!(conn.send(ClientGatewayMessage::Subscribe { channel_id: ChannelId(1) }));
    // tearing down the connection discards its queue
    drop(state);
    assert!(!conn.send(ClientGatewayMessage::Subscribe { channel_id: ChannelId(2) }));
    let mut cloned = conn.clone();
    assert!(!cloned.send(ClientGatewayMessage::Identify { token: "t".to_string() }));
}
