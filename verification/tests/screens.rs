//! The screen-side logic on concrete values: credential validation, the
//! channel edit strip, message timestamps, and the small list helpers.

use quaddlecl::auth::validate_credentials;
use quaddlecl::channel_select::ChannelEditAction;
use quaddlecl::channel_select::ChannelEditMessage;
use quaddlecl::channel_select::ChannelEditStrip;
use quaddlecl::channel_select::ChannelEditStripState;
use quaddlecl::config::Account;
use quaddlecl::config::Channel;
use quaddlecl::messageview::HistoryQMessageId;
use quaddlecl::model::ChannelId;
use quaddlecl::model::Civil;
use quaddlecl::model::Message;
use quaddlecl::model::MessageId;
use quaddlecl::model::User;
use quaddlecl::model::UserId;
use quaddlecl::model::snowflake_millis;
use quaddlecl::model::snowflake_timestamp;
use quaddlecl::supervisor::Connection;
use quaddlecl::supervisor::GatewayInput;
use quaddlecl::supervisor::GatewayMessage;
use quaddlecl::supervisor::GatewayState;
use quaddlecl::supervisor::supervisor_step;
use quaddlecl::utils::Gaps;
use quaddlecl::utils::reversed;

fn msg(id: u64, content: &str) -> Message {
    Message {
        id: MessageId(id),
        author: User { id: UserId(1), name: "alice".to_string() },
        channel: ChannelId(7),
        content: content.to_string(),
    }
}

fn fresh_connection() -> Connection {
    let (_, outputs, _) = supervisor_step(
        GatewayState::Disconnected,
        GatewayInput::HandshakeSucceeded {
            session_id: "s".to_string(),
            user: User { id: UserId(1), name: "alice".to_string() },
        },
    );
    match outputs.into_iter().next().unwrap() {
        GatewayMessage::Connected { conn, .. } => conn,
        _ => panic!("expected a connected notification"),
    }
}

#[test]
fn credentials_are_validated() {
    assert!(validate_credentials("http://localhost:8080", "alice", "hunter2"));
    assert!(!validate_credentials("http://localhost:8080", "", "hunter2"));
    assert!(!validate_credentials("http://localhost:8080", "alice", ""));
    assert!(!validate_credentials("not a url", "alice", "hunter2"));
    let long = "x".repeat(1024);
    assert!(!validate_credentials("http://localhost:8080", &long, "hunter2"));
    assert!(!validate_credentials("http://localhost:8080", "alice", &long));
    let longest_allowed = "x".repeat(1023);
    assert!(validate_credentials("http://localhost:8080", &longest_allowed, "hunter2"));
}

#[test]
fn edit_strip_adds_a_confirmed_channel() {
    let mut strip = ChannelEditStrip::default();
    assert!(strip.state.is_idle());
    let mut account = Account::default();
    let mut selected: usize = 0;
    let mut messages: Vec<Message> = Vec::new();
    let mut conn = fresh_connection();

    let act = strip.update(
        ChannelEditMessage::Expanded,
        &mut account.channels,
        &mut selected,
        &mut messages,
        &mut conn,
    );
    assert_eq!(act, ChannelEditAction::Nothing);
    assert!(strip.expanded);

    strip.update(
        ChannelEditMessage::NewChannelNameEdited("general".to_string()),
        &mut account.channels,
        &mut selected,
        &mut messages,
        &mut conn,
    );
    strip.update(
        ChannelEditMessage::NewChannelIdEdited("7".to_string()),
        &mut account.channels,
        &mut selected,
        &mut messages,
        &mut conn,
    );
    assert_eq!(strip.new_channel_id, Some(ChannelId(7)));

    // a non-numeric edit keeps the previous identifier; an empty one clears it
    strip.update(
        ChannelEditMessage::NewChannelIdEdited("7x".to_string()),
        &mut account.channels,
        &mut selected,
        &mut messages,
        &mut conn,
    );
    assert_eq!(strip.new_channel_id, Some(ChannelId(7)));

    let act = strip.update(
        ChannelEditMessage::ChannelAddRequested,
        &mut account.channels,
        &mut selected,
        &mut messages,
        &mut conn,
    );
    assert_eq!(act, ChannelEditAction::CheckChannel(ChannelId(7)));
    assert!(!strip.state.is_idle());
    assert_eq!(strip.new_channel_name, "");
    assert_eq!(strip.new_channel_id, None);

    // the server confirms: the channel is appended, selected, history shown
    let history = vec![msg(2, "newer"), msg(1, "older")];
    let act = strip.update(
        ChannelEditMessage::ChannelExists(history),
        &mut account.channels,
        &mut selected,
        &mut messages,
        &mut conn,
    );
    assert_eq!(act, ChannelEditAction::Nothing);
    assert!(strip.state.is_idle());
    assert!(!strip.expanded);
    assert_eq!(account.channels.len(), 1);
    assert_eq!(account.channels[0], Channel { id: ChannelId(7), name: "general".to_string() });
    assert_eq!(selected, 0);
    assert_eq!(messages.len(), 2);
    assert_eq!(messages[0].content, "older");
    assert_eq!(messages[1].content, "newer");
}

#[test]
fn edit_strip_reports_a_failed_check() {
    let mut strip = ChannelEditStrip::default();
    let mut channels: Vec<Channel> = Vec::new();
    let mut selected: usize = 0;
    let mut messages: Vec<Message> = Vec::new();
    let mut conn = fresh_connection();

    strip.update(
        ChannelEditMessage::NewChannelIdEdited("9".to_string()),
        &mut channels,
        &mut selected,
        &mut messages,
        &mut conn,
    );
    let act = strip.update(
        ChannelEditMessage::ChannelAddRequested,
        &mut channels,
        &mut selected,
        &mut messages,
        &mut conn,
    );
    assert_eq!(act, ChannelEditAction::CheckChannel(ChannelId(9)));
    strip.update(
        ChannelEditMessage::ChannelError("no such channel".to_string()),
        &mut channels,
        &mut selected,
        &mut messages,
        &mut conn,
    );
    match &strip.state {
        ChannelEditStripState::Idle { last_error } => {
            assert_eq!(last_error.as_deref(), Some("no such channel"))
        },
        other => panic!("expected an idle strip, got {other:?}"),
    }
    assert!(channels.is_empty());
    assert!(messages.is_empty());
}

#[test]
fn edit_strip_ignores_requests_without_an_id() {
    let mut strip = ChannelEditStrip::default();
    let mut channels: Vec<Channel> = Vec::new();
    let mut selected: usize = 0;
    let mut messages: Vec<Message> = Vec::new();
    let mut conn = fresh_connection();
    let act = strip.update(
        ChannelEditMessage::ChannelAddRequested,
        &mut channels,
        &mut selected,
        &mut messages,
        &mut conn,
    );
    assert_eq!(act, ChannelEditAction::Nothing);
    assert!(strip.state.is_idle());
}

#[test]
fn test_timestamp() {
    let ts = snowflake_timestamp(175928847299117063);
    assert_eq!(ts.year, 2025);
    assert_eq!(ts.month, 4);
    assert_eq!(ts.day, 30);
    assert_eq!(ts.hour, 11);
    assert_eq!(ts.minute, 18);
    assert_eq!(ts.second, 25);
}

#[test]
fn snowflake_epoch_is_the_first_of_2024() {
    assert_eq!(
        snowflake_timestamp(0),
        Civil { year: 2024, month: 1, day: 1, hour: 0, minute: 0, second: 0 }
    );
    assert_eq!(snowflake_millis(1 << 22), 1);
    assert_eq!(MessageId(0).timestamp().year, 2024);
    assert_eq!(ChannelId(0).timestamp().month, 1);
    assert_eq!(UserId(0).timestamp().day, 1);
}

#[test]
fn gaps_walk_the_neighbour_pairs() {
    let mut gaps = Gaps::new(vec![10u64, 20, 30]);
    assert_eq!(gaps.next(), Some((None, Some(10))));
    assert_eq!(gaps.next(), Some((Some(10), Some(20))));
    assert_eq!(gaps.next(), Some((Some(20), Some(30))));
    assert_eq!(gaps.next(), Some((Some(30), None)));
    assert_eq!(gaps.next(), None);
    assert_eq!(gaps.next(), None);
}

#[test]
fn gaps_of_nothing_are_nothing() {
    let mut gaps: Gaps<u64> = Gaps::new(Vec::new());
    assert_eq!(gaps.next(), None);
}

#[test]
fn widget_ids_are_drawn_in_order() {
    let mut counter: u32 = 0;
    let a = HistoryQMessageId::new(&mut counter);
    let b = HistoryQMessageId::new(&mut counter);
    assert_ne!(a, b);
    assert_eq!(counter, 2);
    assert_eq!(a, HistoryQMessageId(0));
    assert_eq!(b, HistoryQMessageId(1));
}

#[test]
fn reversing_a_list() {
    assert_eq!(reversed(vec![1, 2, 3]), vec![3, 2, 1]);
    assert_eq!(reversed(Vec::<u32>::new()), Vec::<u32>::new());
}
