//! The wire codec of the gateway protocol: the two closed, tagged message
//! vocabularies and their JSON encoding. Commands carry an `op` discriminator,
//! events an `event` discriminator; field names are snake case. The codec is
//! pure and stateless, and decoding accepts members in any order, skips
//! unknown members, and rejects duplicated or missing ones.

use vstd::prelude::*;
use vstd::string::StrSliceExecFns;

use crate::json::JsonMember;
use crate::json::JsonV;
use crate::json::JsonValue;
use crate::json::dec_digits;
use crate::json::digits_to_u64;
use crate::json::parse_text;
use crate::json::parse_u64_digits;
use crate::json::ser_val;
use crate::json::spec_parse_text;
use crate::json::u64_to_dec;
use crate::json::view_json;
use crate::json::view_member_list;
use crate::json::wf_json;
use crate::json::write_text;
use crate::model::ChannelId;
use crate::model::Message;
use crate::model::MessageId;
use crate::model::MessageV;
use crate::model::User;
use crate::model::UserId;
use crate::model::UserV;

verus! {

/// A gateway message made by the client.
#[derive(Clone, Debug, PartialEq, Eq)]
pub enum ClientGatewayMessage {
    Identify { token: String },
    Subscribe { channel_id: ChannelId },
}

/// Mathematical value of a [`ClientGatewayMessage`].
pub ghost enum ClientGatewayMessageV {
    Identify { token: Seq<char> },
    Subscribe { channel_id: u64 },
}

impl DeepView for ClientGatewayMessage {
    type V = ClientGatewayMessageV;

    open spec fn deep_view(&self) -> ClientGatewayMessageV {
        match self {
            ClientGatewayMessage::Identify { token } => ClientGatewayMessageV::Identify {
                token: token@,
            },
            ClientGatewayMessage::Subscribe { channel_id } => ClientGatewayMessageV::Subscribe {
                channel_id: channel_id.0,
            },
        }
    }
}

/// A gateway message made by the server.
#[derive(Clone, Debug, PartialEq, Eq)]
pub enum GatewayEvent {
    Ready { session_id: String, user: User },
    Error { reason: String },
    MessageCreate { message: Message },
}

/// Mathematical value of a [`GatewayEvent`].
pub ghost enum GatewayEventV {
    Ready { session_id: Seq<char>, user: UserV },
    Error { reason: Seq<char> },
    MessageCreate { message: MessageV },
}

impl DeepView for GatewayEvent {
    type V = GatewayEventV;

    open spec fn deep_view(&self) -> GatewayEventV {
        match self {
            GatewayEvent::Ready { session_id, user } => GatewayEventV::Ready {
                session_id: session_id@,
                user: user.deep_view(),
            },
            GatewayEvent::Error { reason } => GatewayEventV::Error { reason: reason@ },
            GatewayEvent::MessageCreate { message } => GatewayEventV::MessageCreate {
                message: message.deep_view(),
            },
        }
    }
}

/// A text frame that is not a well-formed message of the protocol.
#[derive(Clone, Copy, Debug, PartialEq, Eq, Structural)]
pub struct DecodeError;

// ---------------------------------------------------------------------------
// Object member lookup
// ---------------------------------------------------------------------------

/// How many members at or after index `k` have the given key.
pub open spec fn count_key_from(ms: Seq<(Seq<char>, JsonV)>, key: Seq<char>, k: int) -> int
    decreases ms.len() - k,
{
    if k < 0 || k >= ms.len() {
        0
    } else {
        (if ms[k].0 == key {
            1int
        } else {
            0int
        }) + count_key_from(ms, key, k + 1)
    }
}

/// The first member at or after index `k` with the given key.
pub open spec fn find_key_from(ms: Seq<(Seq<char>, JsonV)>, key: Seq<char>, k: int) -> Option<JsonV>
    decreases ms.len() - k,
{
    if k < 0 || k >= ms.len() {
        None
    } else if ms[k].0 == key {
        Some(ms[k].1)
    } else {
        find_key_from(ms, key, k + 1)
    }
}

/// The value of the member with the given key, present exactly once.
pub open spec fn the_key(ms: Seq<(Seq<char>, JsonV)>, key: Seq<char>) -> Option<JsonV> {
    if count_key_from(ms, key, 0) == 1 {
        find_key_from(ms, key, 0)
    } else {
        None
    }
}

/// Whether two text slices hold the same characters.
fn str_eq(a: &str, b: &str) -> (r: bool)
    ensures
        r == (a@ == b@),
{
    let la = a.unicode_len();
    let lb = b.unicode_len();
    if la != lb {
        return false;
    }
    let mut k: usize = 0;
    while k < la
        invariant
            a@.len() == la as int,
            b@.len() == la as int,
            0 <= k <= la,
            forall|j: int| 0 <= j < k ==> a@[j] == b@[j],
        decreases la - k,
    {
        if a.get_char(k) != b.get_char(k) {
            return false;
        }
        k = k + 1;
    }
    proof {
        assert(a@ =~= b@);
    }
    true
}

/// How many members at or after index `k` have the given key.
fn count_field(ms: &Vec<JsonMember>, key: &str, k: usize) -> (r: usize)
    requires
        k <= ms@.len(),
    ensures
        r as int == count_key_from(view_member_list(*ms), key@, k as int),
        r as int <= ms@.len() - k,
    decreases ms@.len() - k,
{
    if k == ms.len() {
        return 0;
    }
    let rest = count_field(ms, key, k + 1);
    if str_eq(ms[k].key.as_str(), key) {
        proof {
            assert(view_member_list(*ms)[k as int].0 == ms[k as int].key@);
        }
        rest + 1
    } else {
        proof {
            assert(view_member_list(*ms)[k as int].0 == ms[k as int].key@);
        }
        rest
    }
}

/// The first member at or after index `k` with the given key.
fn find_field<'a>(ms: &'a Vec<JsonMember>, key: &str, k: usize) -> (r: Option<&'a JsonValue>)
    requires
        k <= ms@.len(),
    ensures
        r matches Some(v) ==> find_key_from(view_member_list(*ms), key@, k as int) == Some(
            view_json(*v),
        ),
        r is None ==> find_key_from(view_member_list(*ms), key@, k as int) is None,
    decreases ms@.len() - k,
{
    if k == ms.len() {
        return None;
    }
    proof {
        assert(view_member_list(*ms)[k as int].0 == ms[k as int].key@);
        assert(view_member_list(*ms)[k as int].1 == view_json(ms[k as int].value));
    }
    if str_eq(ms[k].key.as_str(), key) {
        Some(&ms[k].value)
    } else {
        find_field(ms, key, k + 1)
    }
}

/// The value of the member with the given key, if it is present exactly once.
fn get_field<'a>(ms: &'a Vec<JsonMember>, key: &str) -> (r: Option<&'a JsonValue>)
    ensures
        r matches Some(v) ==> the_key(view_member_list(*ms), key@) == Some(view_json(*v)),
        r is None ==> the_key(view_member_list(*ms), key@) is None,
{
    if count_field(ms, key, 0) == 1 {
        find_field(ms, key, 0)
    } else {
        None
    }
}

/// No member at or after `k` has the key: nothing is counted or found there.
proof fn lemma_key_absent(ms: Seq<(Seq<char>, JsonV)>, key: Seq<char>, k: int)
    requires
        forall|j: int| k <= j < ms.len() ==> (#[trigger] ms[j]).0 != key,
    ensures
        count_key_from(ms, key, k) == 0,
        find_key_from(ms, key, k) is None,
    decreases ms.len() - k,
{
    if 0 <= k && k < ms.len() {
        lemma_key_absent(ms, key, k + 1);
    }
}

/// A key held by exactly one member is looked up at that member.
proof fn lemma_key_at_from(ms: Seq<(Seq<char>, JsonV)>, key: Seq<char>, idx: int, k: int)
    requires
        0 <= k <= idx < ms.len(),
        ms[idx].0 == key,
        forall|j: int| 0 <= j < ms.len() && j != idx ==> (#[trigger] ms[j]).0 != key,
    ensures
        count_key_from(ms, key, k) == 1,
        find_key_from(ms, key, k) == Some(ms[idx].1),
    decreases idx - k,
{
    if k == idx {
        lemma_key_absent(ms, key, k + 1);
    } else {
        lemma_key_at_from(ms, key, idx, k + 1);
    }
}

/// A key held by exactly one member is looked up at that member.
proof fn lemma_key_at(ms: Seq<(Seq<char>, JsonV)>, key: Seq<char>, idx: int)
    requires
        0 <= idx < ms.len(),
        ms[idx].0 == key,
        forall|j: int| 0 <= j < ms.len() && j != idx ==> (#[trigger] ms[j]).0 != key,
    ensures
        the_key(ms, key) == Some(ms[idx].1),
{
    lemma_key_at_from(ms, key, idx, 0);
}

// ---------------------------------------------------------------------------
// Encoding
// ---------------------------------------------------------------------------

/// The JSON object a user is written as.
pub open spec fn json_of_user(u: UserV) -> JsonV {
    JsonV::Obj(
        seq![("id"@, JsonV::Num(dec_digits(u.id as int))), ("name"@, JsonV::Str(u.name))],
    )
}

/// The JSON object a message is written as.
pub open spec fn json_of_message(m: MessageV) -> JsonV {
    JsonV::Obj(
        seq![
            ("id"@, JsonV::Num(dec_digits(m.id as int))),
            ("author"@, json_of_user(m.author)),
            ("channel"@, JsonV::Num(dec_digits(m.channel as int))),
            ("content"@, JsonV::Str(m.content)),
        ],
    )
}

/// The JSON object a server event is written as.
pub open spec fn json_of_event(ev: GatewayEventV) -> JsonV {
    match ev {
        GatewayEventV::Ready { session_id, user } => JsonV::Obj(
            seq![
                ("event"@, JsonV::Str("ready"@)),
                ("session_id"@, JsonV::Str(session_id)),
                ("user"@, json_of_user(user)),
            ],
        ),
        GatewayEventV::Error { reason } => JsonV::Obj(
            seq![("event"@, JsonV::Str("error"@)), ("reason"@, JsonV::Str(reason))],
        ),
        GatewayEventV::MessageCreate { message } => JsonV::Obj(
            seq![("event"@, JsonV::Str("message_create"@)), ("message"@, json_of_message(message))],
        ),
    }
}

/// The JSON object a client command is written as.
pub open spec fn json_of_client(m: ClientGatewayMessageV) -> JsonV {
    match m {
        ClientGatewayMessageV::Identify { token } => JsonV::Obj(
            seq![("op"@, JsonV::Str("identify"@)), ("token"@, JsonV::Str(token))],
        ),
        ClientGatewayMessageV::Subscribe { channel_id } => JsonV::Obj(
            seq![
                ("op"@, JsonV::Str("subscribe"@)),
                ("channel_id"@, JsonV::Num(dec_digits(channel_id as int))),
            ],
        ),
    }
}

/// The text frame a server event is written as.
pub open spec fn spec_encode_event(ev: GatewayEventV) -> Seq<char> {
    ser_val(json_of_event(ev))
}

/// The text frame a client command is written as.
pub open spec fn spec_encode_client(m: ClientGatewayMessageV) -> Seq<char> {
    ser_val(json_of_client(m))
}

/// The JSON tree a user is written as.
fn json_user(u: &User) -> (r: JsonValue)
    ensures
        view_json(r) == json_of_user(u.deep_view()),
{
    let key_id = "id".to_owned();
    let key_name = "name".to_owned();
    let mut ms: Vec<JsonMember> = Vec::new();
    ms.push(JsonMember { key: key_id, value: JsonValue::Num(u64_to_dec(u.id.0)) });
    ms.push(JsonMember { key: key_name, value: JsonValue::Str(u.name.clone()) });
    let r = JsonValue::Obj(ms);
    proof {
        assert(view_member_list(r.arrow_Obj_0()) =~= seq![
            ("id"@, JsonV::Num(dec_digits(u.id.0 as int))),
            ("name"@, JsonV::Str(u.name@)),
        ]);
    }
    r
}

/// The JSON tree a message is written as.
fn json_message(m: &Message) -> (r: JsonValue)
    ensures
        view_json(r) == json_of_message(m.deep_view()),
{
    let key_id = "id".to_owned();
    let key_author = "author".to_owned();
    let key_channel = "channel".to_owned();
    let key_content = "content".to_owned();
    let mut ms: Vec<JsonMember> = Vec::new();
    ms.push(JsonMember { key: key_id, value: JsonValue::Num(u64_to_dec(m.id.0)) });
    ms.push(JsonMember { key: key_author, value: json_user(&m.author) });
    ms.push(JsonMember { key: key_channel, value: JsonValue::Num(u64_to_dec(m.channel.0)) });
    ms.push(JsonMember { key: key_content, value: JsonValue::Str(m.content.clone()) });
    let r = JsonValue::Obj(ms);
    proof {
        assert(view_member_list(r.arrow_Obj_0()) =~= seq![
            ("id"@, JsonV::Num(dec_digits(m.id.0 as int))),
            ("author"@, json_of_user(m.author.deep_view())),
            ("channel"@, JsonV::Num(dec_digits(m.channel.0 as int))),
            ("content"@, JsonV::Str(m.content@)),
        ]);
    }
    r
}

/// Writes a server event as one text frame.
pub fn encode_event(ev: &GatewayEvent) -> (r: String)
    ensures
        r@ == spec_encode_event(ev.deep_view()),
{
    let key_event = "event".to_owned();
    let mut ms: Vec<JsonMember> = Vec::new();
    match ev {
        GatewayEvent::Ready { session_id, user } => {
            ms.push(JsonMember { key: key_event, value: JsonValue::Str("ready".to_owned()) });
            ms.push(
                JsonMember {
                    key: "session_id".to_owned(),
                    value: JsonValue::Str(session_id.clone()),
                },
            );
            ms.push(JsonMember { key: "user".to_owned(), value: json_user(user) });
            let v = JsonValue::Obj(ms);
            proof {
                assert(view_member_list(v.arrow_Obj_0()) =~= seq![
                    ("event"@, JsonV::Str("ready"@)),
                    ("session_id"@, JsonV::Str(session_id@)),
                    ("user"@, json_of_user(user.deep_view())),
                ]);
            }
            write_text(&v)
        },
        GatewayEvent::Error { reason } => {
            ms.push(JsonMember { key: key_event, value: JsonValue::Str("error".to_owned()) });
            ms.push(JsonMember { key: "reason".to_owned(), value: JsonValue::Str(reason.clone()) });
            let v = JsonValue::Obj(ms);
            proof {
                assert(view_member_list(v.arrow_Obj_0()) =~= seq![
                    ("event"@, JsonV::Str("error"@)),
                    ("reason"@, JsonV::Str(reason@)),
                ]);
            }
            write_text(&v)
        },
        GatewayEvent::MessageCreate { message } => {
            ms.push(
                JsonMember { key: key_event, value: JsonValue::Str("message_create".to_owned()) },
            );
            ms.push(JsonMember { key: "message".to_owned(), value: json_message(message) });
            let v = JsonValue::Obj(ms);
            proof {
                assert(view_member_list(v.arrow_Obj_0()) =~= seq![
                    ("event"@, JsonV::Str("message_create"@)),
                    ("message"@, json_of_message(message.deep_view())),
                ]);
            }
            write_text(&v)
        },
    }
}

/// Writes a client command as one text frame.
pub fn encode_client(m: &ClientGatewayMessage) -> (r: String)
    ensures
        r@ == spec_encode_client(m.deep_view()),
{
    let key_op = "op".to_owned();
    let mut ms: Vec<JsonMember> = Vec::new();
    match m {
        ClientGatewayMessage::Identify { token } => {
            ms.push(JsonMember { key: key_op, value: JsonValue::Str("identify".to_owned()) });
            ms.push(JsonMember { key: "token".to_owned(), value: JsonValue::Str(token.clone()) });
            let v = JsonValue::Obj(ms);
            proof {
                assert(view_member_list(v.arrow_Obj_0()) =~= seq![
                    ("op"@, JsonV::Str("identify"@)),
                    ("token"@, JsonV::Str(token@)),
                ]);
            }
            write_text(&v)
        },
        ClientGatewayMessage::Subscribe { channel_id } => {
            ms.push(JsonMember { key: key_op, value: JsonValue::Str("subscribe".to_owned()) });
            ms.push(
                JsonMember {
                    key: "channel_id".to_owned(),
                    value: JsonValue::Num(u64_to_dec(channel_id.0)),
                },
            );
            let v = JsonValue::Obj(ms);
            proof {
                assert(view_member_list(v.arrow_Obj_0()) =~= seq![
                    ("op"@, JsonV::Str("subscribe"@)),
                    ("channel_id"@, JsonV::Num(dec_digits(channel_id.0 as int))),
                ]);
            }
            write_text(&v)
        },
    }
}

// ---------------------------------------------------------------------------
// Decoding
// ---------------------------------------------------------------------------

/// The user a JSON value stands for, if any.
pub open spec fn spec_user_of_json(v: JsonV) -> Option<UserV> {
    match v {
        JsonV::Obj(ms) => match (the_key(ms, "id"@), the_key(ms, "name"@)) {
            (Some(JsonV::Num(t)), Some(JsonV::Str(name))) => match digits_to_u64(t) {
                Some(id) => Some(UserV { id, name }),
                None => None,
            },
            _ => None,
        },
        _ => None,
    }
}

/// The message a JSON value stands for, if any.
pub open spec fn spec_message_of_json(v: JsonV) -> Option<MessageV> {
    match v {
        JsonV::Obj(ms) => match (
            the_key(ms, "id"@),
            the_key(ms, "author"@),
            the_key(ms, "channel"@),
            the_key(ms, "content"@),
        ) {
            (Some(JsonV::Num(t)), Some(av), Some(JsonV::Num(c)), Some(JsonV::Str(content))) => {
                match (digits_to_u64(t), spec_user_of_json(av), digits_to_u64(c)) {
                    (Some(id), Some(author), Some(channel)) => Some(
                        MessageV { id, author, channel, content },
                    ),
                    _ => None,
                }
            },
            _ => None,
        },
        _ => None,
    }
}

/// The server event a JSON value stands for, if any.
pub open spec fn spec_event_of_json(v: JsonV) -> Option<GatewayEventV> {
    match v {
        JsonV::Obj(ms) => match the_key(ms, "event"@) {
            Some(JsonV::Str(tag)) => if tag == "ready"@ {
                match (the_key(ms, "session_id"@), the_key(ms, "user"@)) {
                    (Some(JsonV::Str(session_id)), Some(uv)) => match spec_user_of_json(uv) {
                        Some(user) => Some(GatewayEventV::Ready { session_id, user }),
                        None => None,
                    },
                    _ => None,
                }
            } else if tag == "error"@ {
                match the_key(ms, "reason"@) {
                    Some(JsonV::Str(reason)) => Some(GatewayEventV::Error { reason }),
                    _ => None,
                }
            } else if tag == "message_create"@ {
                match the_key(ms, "message"@) {
                    Some(mv) => match spec_message_of_json(mv) {
                        Some(message) => Some(GatewayEventV::MessageCreate { message }),
                        None => None,
                    },
                    None => None,
                }
            } else {
                None
            },
            _ => None,
        },
        _ => None,
    }
}

/// The client command a JSON value stands for, if any.
pub open spec fn spec_client_of_json(v: JsonV) -> Option<ClientGatewayMessageV> {
    match v {
        JsonV::Obj(ms) => match the_key(ms, "op"@) {
            Some(JsonV::Str(tag)) => if tag == "identify"@ {
                match the_key(ms, "token"@) {
                    Some(JsonV::Str(token)) => Some(ClientGatewayMessageV::Identify { token }),
                    _ => None,
                }
            } else if tag == "subscribe"@ {
                match the_key(ms, "channel_id"@) {
                    Some(JsonV::Num(t)) => match digits_to_u64(t) {
                        Some(channel_id) => Some(ClientGatewayMessageV::Subscribe { channel_id }),
                        None => None,
                    },
                    _ => None,
                }
            } else {
                None
            },
            _ => None,
        },
        _ => None,
    }
}

/// The server event a whole text frame stands for, if any.
pub open spec fn spec_decode_event(s: Seq<char>) -> Option<GatewayEventV> {
    match spec_parse_text(s) {
        Some(v) => spec_event_of_json(v),
        None => None,
    }
}

/// The client command a whole text frame stands for, if any.
pub open spec fn spec_decode_client(s: Seq<char>) -> Option<ClientGatewayMessageV> {
    match spec_parse_text(s) {
        Some(v) => spec_client_of_json(v),
        None => None,
    }
}

/// Reads a user out of a JSON tree.
fn user_of_json(v: &JsonValue) -> (r: Option<User>)
    ensures
        r matches Some(u) ==> spec_user_of_json(view_json(*v)) == Some(u.deep_view()),
        r is None ==> spec_user_of_json(view_json(*v)) is None,
{
    let ms = match v {
        JsonValue::Obj(ms) => ms,
        _ => {
            return None;
        },
    };
    let id = match get_field(ms, "id") {
        Some(JsonValue::Num(t)) => match parse_u64_digits(t.as_str()) {
            Some(n) => n,
            None => {
                return None;
            },
        },
        _ => {
            return None;
        },
    };
    let name = match get_field(ms, "name") {
        Some(JsonValue::Str(nm)) => nm.clone(),
        _ => {
            return None;
        },
    };
    Some(User { id: UserId(id), name })
}

/// Reads a message out of a JSON tree.
fn message_of_json(v: &JsonValue) -> (r: Option<Message>)
    ensures
        r matches Some(m) ==> spec_message_of_json(view_json(*v)) == Some(m.deep_view()),
        r is None ==> spec_message_of_json(view_json(*v)) is None,
{
    let ms = match v {
        JsonValue::Obj(ms) => ms,
        _ => {
            return None;
        },
    };
    let id = match get_field(ms, "id") {
        Some(JsonValue::Num(t)) => match parse_u64_digits(t.as_str()) {
            Some(n) => n,
            None => {
                return None;
            },
        },
        _ => {
            return None;
        },
    };
    let author = match get_field(ms, "author") {
        Some(av) => match user_of_json(av) {
            Some(u) => u,
            None => {
                return None;
            },
        },
        None => {
            return None;
        },
    };
    let channel = match get_field(ms, "channel") {
        Some(JsonValue::Num(t)) => match parse_u64_digits(t.as_str()) {
            Some(n) => n,
            None => {
                return None;
            },
        },
        _ => {
            return None;
        },
    };
    let content = match get_field(ms, "content") {
        Some(JsonValue::Str(c)) => c.clone(),
        _ => {
            return None;
        },
    };
    Some(
        Message {
            id: MessageId(id),
            author,
            channel: ChannelId(channel),
            content,
        },
    )
}

/// Decodes one text frame into a server event. A frame that is not exactly
/// one well-formed event of the protocol is a [`DecodeError`].
pub fn decode_event(s: &str) -> (r: Result<GatewayEvent, DecodeError>)
    ensures
        r matches Ok(ev) ==> spec_decode_event(s@) == Some(ev.deep_view()),
        r is Err ==> spec_decode_event(s@) is None,
{
    let tree = match parse_text(s) {
        Some(v) => v,
        None => {
            return Err(DecodeError);
        },
    };
    let ms = match &tree {
        JsonValue::Obj(ms) => ms,
        _ => {
            return Err(DecodeError);
        },
    };
    let tag = match get_field(ms, "event") {
        Some(JsonValue::Str(t)) => t,
        _ => {
            return Err(DecodeError);
        },
    };
    if str_eq(tag.as_str(), "ready") {
        let session_id = match get_field(ms, "session_id") {
            Some(JsonValue::Str(sid)) => sid.clone(),
            _ => {
                return Err(DecodeError);
            },
        };
        let user = match get_field(ms, "user") {
            Some(uv) => match user_of_json(uv) {
                Some(u) => u,
                None => {
                    return Err(DecodeError);
                },
            },
            None => {
                return Err(DecodeError);
            },
        };
        Ok(GatewayEvent::Ready { session_id, user })
    } else if str_eq(tag.as_str(), "error") {
        let reason = match get_field(ms, "reason") {
            Some(JsonValue::Str(r)) => r.clone(),
            _ => {
                return Err(DecodeError);
            },
        };
        Ok(GatewayEvent::Error { reason })
    } else if str_eq(tag.as_str(), "message_create") {
        let message = match get_field(ms, "message") {
            Some(mv) => match message_of_json(mv) {
                Some(m) => m,
                None => {
                    return Err(DecodeError);
                },
            },
            None => {
                return Err(DecodeError);
            },
        };
        Ok(GatewayEvent::MessageCreate { message })
    } else {
        Err(DecodeError)
    }
}

/// Decodes one text frame into a client command. A frame that is not exactly
/// one well-formed command of the protocol is a [`DecodeError`].
pub fn decode_client(s: &str) -> (r: Result<ClientGatewayMessage, DecodeError>)
    ensures
        r matches Ok(m) ==> spec_decode_client(s@) == Some(m.deep_view()),
        r is Err ==> spec_decode_client(s@) is None,
{
    let tree = match parse_text(s) {
        Some(v) => v,
        None => {
            return Err(DecodeError);
        },
    };
    let ms = match &tree {
        JsonValue::Obj(ms) => ms,
        _ => {
            return Err(DecodeError);
        },
    };
    let tag = match get_field(ms, "op") {
        Some(JsonValue::Str(t)) => t,
        _ => {
            return Err(DecodeError);
        },
    };
    if str_eq(tag.as_str(), "identify") {
        let token = match get_field(ms, "token") {
            Some(JsonValue::Str(t)) => t.clone(),
            _ => {
                return Err(DecodeError);
            },
        };
        Ok(ClientGatewayMessage::Identify { token })
    } else if str_eq(tag.as_str(), "subscribe") {
        let channel_id = match get_field(ms, "channel_id") {
            Some(JsonValue::Num(t)) => match parse_u64_digits(t.as_str()) {
                Some(n) => n,
                None => {
                    return Err(DecodeError);
                },
            },
            _ => {
                return Err(DecodeError);
            },
        };
        Ok(ClientGatewayMessage::Subscribe { channel_id: ChannelId(channel_id) })
    } else {
        Err(DecodeError)
    }
}

// ---------------------------------------------------------------------------
// The codec round trip
// ---------------------------------------------------------------------------

/// A written user is a value the reader's round trip covers.
proof fn lemma_user_json_wf(u: UserV)
    ensures
        wf_json(json_of_user(u)),
{
    crate::json::lemma_dec_digits_wf(u.id as int);
    let ms = json_of_user(u)->Obj_0;
    assert forall|k: int| 0 <= k < ms.len() implies wf_json(#[trigger] ms[k].1) by {
        if k == 0 {
            assert(ms[0].1 == JsonV::Num(dec_digits(u.id as int)));
        } else {
            assert(ms[1].1 == JsonV::Str(u.name));
        }
    }
}

/// A written message is a value the reader's round trip covers.
proof fn lemma_message_json_wf(m: MessageV)
    ensures
        wf_json(json_of_message(m)),
{
    crate::json::lemma_dec_digits_wf(m.id as int);
    crate::json::lemma_dec_digits_wf(m.channel as int);
    lemma_user_json_wf(m.author);
    let ms = json_of_message(m)->Obj_0;
    assert forall|k: int| 0 <= k < ms.len() implies wf_json(#[trigger] ms[k].1) by {
        assert(ms[0].1 == JsonV::Num(dec_digits(m.id as int)));
        assert(ms[1].1 == json_of_user(m.author));
        assert(ms[2].1 == JsonV::Num(dec_digits(m.channel as int)));
        assert(ms[3].1 == JsonV::Str(m.content));
    }
}

/// A written event is a value the reader's round trip covers.
proof fn lemma_event_json_wf(ev: GatewayEventV)
    ensures
        wf_json(json_of_event(ev)),
{
    let ms = json_of_event(ev)->Obj_0;
    match ev {
        GatewayEventV::Ready { session_id, user } => {
            lemma_user_json_wf(user);
            assert forall|k: int| 0 <= k < ms.len() implies wf_json(#[trigger] ms[k].1) by {
                assert(ms[0].1 == JsonV::Str("ready"@));
                assert(ms[1].1 == JsonV::Str(session_id));
                assert(ms[2].1 == json_of_user(user));
            }
        },
        GatewayEventV::Error { reason } => {
            assert forall|k: int| 0 <= k < ms.len() implies wf_json(#[trigger] ms[k].1) by {
                assert(ms[0].1 == JsonV::Str("error"@));
                assert(ms[1].1 == JsonV::Str(reason));
            }
        },
        GatewayEventV::MessageCreate { message } => {
            lemma_message_json_wf(message);
            assert forall|k: int| 0 <= k < ms.len() implies wf_json(#[trigger] ms[k].1) by {
                assert(ms[0].1 == JsonV::Str("message_create"@));
                assert(ms[1].1 == json_of_message(message));
            }
        },
    }
}

/// A written command is a value the reader's round trip covers.
proof fn lemma_client_json_wf(m: ClientGatewayMessageV)
    ensures
        wf_json(json_of_client(m)),
{
    let ms = json_of_client(m)->Obj_0;
    match m {
        ClientGatewayMessageV::Identify { token } => {
            assert forall|k: int| 0 <= k < ms.len() implies wf_json(#[trigger] ms[k].1) by {
                assert(ms[0].1 == JsonV::Str("identify"@));
                assert(ms[1].1 == JsonV::Str(token));
            }
        },
        ClientGatewayMessageV::Subscribe { channel_id } => {
            crate::json::lemma_dec_digits_wf(channel_id as int);
            assert forall|k: int| 0 <= k < ms.len() implies wf_json(#[trigger] ms[k].1) by {
                assert(ms[0].1 == JsonV::Str("subscribe"@));
                assert(ms[1].1 == JsonV::Num(dec_digits(channel_id as int)));
            }
        },
    }
}

/// Reading back a written user returns the user.
proof fn lemma_user_of_json_of_user(u: UserV)
    ensures
        spec_user_of_json(json_of_user(u)) == Some(u),
{
    let ms = json_of_user(u)->Obj_0;
    
    reveal_strlit("id");
    reveal_strlit("name");
    assert("id"@.len() == 2 && "name"@.len() == 4);
    lemma_key_at(ms, "id"@, 0);
    lemma_key_at(ms, "name"@, 1);
    crate::json::lemma_dec_digits_wf(u.id as int);
    crate::json::lemma_digits_val_dec(u.id as int);
    assert(digits_to_u64(dec_digits(u.id as int)) == Some(u.id));
}

/// Reading back a written message returns the message.
proof fn lemma_message_of_json_of_message(m: MessageV)
    ensures
        spec_message_of_json(json_of_message(m)) == Some(m),
{
    let ms = json_of_message(m)->Obj_0;
    
    reveal_strlit("id");
    reveal_strlit("author");
    reveal_strlit("channel");
    reveal_strlit("content");
    assert("id"@.len() == 2 && "author"@.len() == 6);
    assert("channel"@[1] == 'h' && "content"@[1] == 'o');
    lemma_key_at(ms, "id"@, 0);
    lemma_key_at(ms, "author"@, 1);
    lemma_key_at(ms, "channel"@, 2);
    lemma_key_at(ms, "content"@, 3);
    lemma_user_of_json_of_user(m.author);
    crate::json::lemma_dec_digits_wf(m.id as int);
    crate::json::lemma_digits_val_dec(m.id as int);
    crate::json::lemma_dec_digits_wf(m.channel as int);
    crate::json::lemma_digits_val_dec(m.channel as int);
    assert(digits_to_u64(dec_digits(m.id as int)) == Some(m.id));
    assert(digits_to_u64(dec_digits(m.channel as int)) == Some(m.channel));
}

/// Decoding an encoded event returns an equivalent event: one half of the
/// codec's round-trip law, stated for every event in the vocabulary.
#[verifier::rlimit(50)]
pub proof fn lemma_event_round_trip(ev: GatewayEventV)
    ensures
        spec_decode_event(spec_encode_event(ev)) == Some(ev),
{
    lemma_event_json_wf(ev);
    crate::json::lemma_parse_ser_text(json_of_event(ev));
    let ms = json_of_event(ev)->Obj_0;
    
    reveal_strlit("event");
    reveal_strlit("ready");
    reveal_strlit("error");
    reveal_strlit("message_create");
    match ev {
        GatewayEventV::Ready { session_id, user } => {
            
            reveal_strlit("session_id");
            reveal_strlit("user");
            assert("event"@.len() == 5 && "session_id"@.len() == 10 && "user"@.len() == 4);
            lemma_key_at(ms, "event"@, 0);
            lemma_key_at(ms, "session_id"@, 1);
            lemma_key_at(ms, "user"@, 2);
            lemma_user_of_json_of_user(user);
        },
        GatewayEventV::Error { reason } => {
            
            reveal_strlit("reason");
            assert("event"@.len() == 5 && "reason"@.len() == 6);
            assert("ready"@[0] == 'r' && "error"@[0] == 'e');
            lemma_key_at(ms, "event"@, 0);
            lemma_key_at(ms, "reason"@, 1);
        },
        GatewayEventV::MessageCreate { message } => {
            
            reveal_strlit("message");
            assert("event"@.len() == 5 && "message"@.len() == 7 && "message_create"@.len() == 14
                && "ready"@.len() == 5 && "error"@.len() == 5);
            assert("message_create"@[0] == 'm');
            lemma_key_at(ms, "event"@, 0);
            lemma_key_at(ms, "message"@, 1);
            lemma_message_of_json_of_message(message);
        },
    }
}

/// Re-encoding whatever a frame decoded to gives a frame that decodes to the
/// same event: the round trip is idempotent across a decode–encode cycle.
pub proof fn lemma_event_reencode(f: Seq<char>, ev: GatewayEventV)
    requires
        spec_decode_event(f) == Some(ev),
    ensures
        spec_decode_event(spec_encode_event(ev)) == Some(ev),
{
    lemma_event_round_trip(ev);
}

/// Re-encoding whatever a frame decoded to gives a frame that decodes to the
/// same command: the round trip is idempotent across a decode–encode cycle.
pub proof fn lemma_client_reencode(f: Seq<char>, m: ClientGatewayMessageV)
    requires
        spec_decode_client(f) == Some(m),
    ensures
        spec_decode_client(spec_encode_client(m)) == Some(m),
{
    lemma_client_round_trip(m);
}

/// Decoding an encoded command returns an equivalent command: the other half
/// of the codec's round-trip law, stated for every command in the vocabulary.
pub proof fn lemma_client_round_trip(m: ClientGatewayMessageV)
    ensures
        spec_decode_client(spec_encode_client(m)) == Some(m),
{
    lemma_client_json_wf(m);
    crate::json::lemma_parse_ser_text(json_of_client(m));
    let ms = json_of_client(m)->Obj_0;
    
    reveal_strlit("op");
    reveal_strlit("identify");
    reveal_strlit("subscribe");
    match m {
        ClientGatewayMessageV::Identify { token } => {
            
            reveal_strlit("token");
            assert("op"@.len() == 2 && "token"@.len() == 5 && "identify"@.len() == 8
                && "subscribe"@.len() == 9);
            lemma_key_at(ms, "op"@, 0);
            lemma_key_at(ms, "token"@, 1);
        },
        ClientGatewayMessageV::Subscribe { channel_id } => {
            
            reveal_strlit("channel_id");
            assert("op"@.len() == 2 && "channel_id"@.len() == 10 && "identify"@.len() == 8
                && "subscribe"@.len() == 9);
            lemma_key_at(ms, "op"@, 0);
            lemma_key_at(ms, "channel_id"@, 1);
            crate::json::lemma_dec_digits_wf(channel_id as int);
            crate::json::lemma_digits_val_dec(channel_id as int);
            assert(digits_to_u64(dec_digits(channel_id as int)) == Some(channel_id));
        },
    }
}

} // verus!
