//! The frames that go over the bridge.
use vstd::prelude::*;
use vstd::utf8::{decode_utf8, valid_utf8};

use crate::agent_cli::help::{
    ERR_CONNECTION_LOST, ERR_PAIRING_REJECTED, ERR_TIMEOUT, ERR_UNSUPPORTED_BY_APP,
};
use crate::agent_cli::verb::{
    Verb, VerbView, MSG_AGENT_CALL, MSG_AGENT_CALL_RESULT, MSG_AGENT_QUERY, MSG_AGENT_RESULT,
};
use crate::chance::fresh_id;
use crate::json::{entry, json_text, parsed_json, Json, JsonView, ObjectBuilder};
use crate::text::{opt_text, owned, str_eq};

verus! {

/// The version of the protocol.
pub const PROTOCOL_VERSION: u64 = 2;

/// The type of the greeting.
pub const MSG_HELLO: &'static str = "hello";

/// The type of the challenge.
pub const MSG_CHALLENGE: &'static str = "challenge";

/// The type of the frame with the proof.
pub const MSG_AUTH: &'static str = "auth";

/// The type of the answer to the proof.
pub const MSG_AUTH_OK: &'static str = "auth.ok";

/// The type of the frame that takes a token back.
pub const MSG_TOKEN_REVOKED: &'static str = "token.revoked";

/// A frame with its type, the id of the question it belongs to and what it carries.
pub open spec fn framed(kind: Seq<char>, req_id: Seq<char>, payload: JsonView) -> JsonView {
    JsonView::Object(
        seq![
            entry("type"@, JsonView::Text(kind)),
            entry("reqId"@, JsonView::Text(req_id)),
            entry("payload"@, payload),
        ],
    )
}

fn frame_of(kind: &str, req_id: &str, payload: Json) -> (r: Json)
    ensures
        r@ == framed(kind@, req_id@, payload@),
{
    let b: ObjectBuilder = ObjectBuilder::new().with_text("type", kind).with_text(
        "reqId",
        req_id,
    ).with("payload", payload);
    assert(b@ =~= seq![
        entry("type"@, JsonView::Text(kind@)),
        entry("reqId"@, JsonView::Text(req_id@)),
        entry("payload"@, payload@),
    ]);
    b.build()
}

// ── The handshake ───────────────────────────────────────────────────────────

/// The greeting.
pub open spec fn hello_frame(client_nonce: Seq<char>) -> JsonView {
    framed(
        MSG_HELLO@,
        "cli-hello"@,
        JsonView::Object(
            seq![
                entry("protocol"@, JsonView::Int(PROTOCOL_VERSION as int)),
                entry("clientNonce"@, JsonView::Text(client_nonce)),
            ],
        ),
    )
}

/// The frame with the proof.
pub open spec fn auth_frame(evidence: Seq<char>) -> JsonView {
    framed(
        MSG_AUTH@,
        "cli-auth"@,
        JsonView::Object(seq![entry("proof"@, JsonView::Text(evidence))]),
    )
}

/// The text of the greeting.
pub fn build_hello(client_nonce: &str) -> (r: String)
    ensures
        r@ == json_text(hello_frame(client_nonce@)),
{
    let payload: ObjectBuilder = ObjectBuilder::new().with_u64(
        "protocol",
        PROTOCOL_VERSION,
    ).with_text("clientNonce", client_nonce);
    assert(payload@ =~= seq![
        entry("protocol"@, JsonView::Int(PROTOCOL_VERSION as int)),
        entry("clientNonce"@, JsonView::Text(client_nonce@)),
    ]);
    let frame: Json = frame_of(MSG_HELLO, "cli-hello", payload.build());
    frame.to_text()
}

/// The text of the frame with the proof.
pub fn build_auth(evidence: &str) -> (r: String)
    ensures
        r@ == json_text(auth_frame(evidence@)),
{
    let payload: ObjectBuilder = ObjectBuilder::new().with_text("proof", evidence);
    assert(payload@ =~= seq![entry("proof"@, JsonView::Text(evidence@))]);
    let frame: Json = frame_of(MSG_AUTH, "cli-auth", payload.build());
    frame.to_text()
}

/// The text under a key of the payload of a frame, where the frame has the type.
pub open spec fn payload_text(frame: JsonView, kind: Seq<char>, key: Seq<char>) -> Option<
    Seq<char>,
> {
    if frame.text_at("type"@) == Some(kind) {
        match frame.get("payload"@) {
            Some(payload) => payload.text_at(key),
            None => None,
        }
    } else {
        None
    }
}

/// The nonce of the other side that a challenge holds.
pub open spec fn server_nonce_in(frame: JsonView) -> Option<Seq<char>> {
    payload_text(frame, MSG_CHALLENGE@, "serverNonce"@)
}

/// The proof of the other side that an answer holds.
pub open spec fn proof_in(frame: JsonView) -> Option<Seq<char>> {
    payload_text(frame, MSG_AUTH_OK@, "serverProof"@)
}

fn read_payload_text(frame: &Json, kind: &str, key: &str) -> (r: Option<String>)
    ensures
        opt_text(r) == payload_text(frame@, kind@, key@),
{
    let matches: bool = match frame.str_at("type") {
        Some(t) => str_eq(t, kind),
        None => false,
    };
    if !matches {
        return None;
    }
    match frame.get("payload") {
        Some(payload) => match payload.str_at(key) {
            Some(s) => Some(owned(s)),
            None => None,
        },
        None => None,
    }
}

/// The nonce of the other side, where the frame is a challenge and `valid` accepts the nonce.
pub fn parse_challenge<F: Fn(&str) -> bool>(frame: &Json, valid: &F) -> (r: Option<String>)
    requires
        forall|nonce: &str| valid.requires((nonce,)),
    ensures
        match r {
            Some(n) => server_nonce_in(frame@) == Some(n@) && exists|text: &str|
                text@ == n@ && #[trigger] valid.ensures((text,), true),
            None => server_nonce_in(frame@) is None || exists|text: &str|
                text@ == server_nonce_in(frame@)->0 && #[trigger] valid.ensures((text,), false),
        },
{
    match read_payload_text(frame, MSG_CHALLENGE, "serverNonce") {
        Some(nonce) => {
            let text: &str = nonce.as_str();
            let ok: bool = valid(text);
            assert(valid.ensures((text,), ok));
            if ok {
                Some(owned(text))
            } else {
                None
            }
        },
        None => None,
    }
}

/// The proof of the other side, where the frame is the answer to ours.
pub fn parse_auth_ok(frame: &Json) -> (r: Option<String>)
    ensures
        opt_text(r) == proof_in(frame@),
{
    read_payload_text(frame, MSG_AUTH_OK, "serverProof")
}

// ── What comes in ───────────────────────────────────────────────────────────

/// A message of the connection.
#[derive(Debug, PartialEq, Eq)]
pub enum Incoming {
    Text(String),
    Binary(Vec<u8>),
    /// The other side ends the connection.
    Close,
    /// A message that keeps the connection alive.
    Control,
}

/// What a message of the connection brings.
#[derive(Debug, PartialEq, Eq)]
pub enum Received {
    Frame(Json),
    /// Nothing that can be used: the wait is over.
    Nothing,
    /// Nothing yet: wait on.
    WaitOn,
}

/// [`Received`] as values.
pub enum ReceivedView {
    Frame(JsonView),
    Nothing,
    WaitOn,
}

impl View for Received {
    type V = ReceivedView;

    open spec fn view(&self) -> ReceivedView {
        match self {
            Received::Frame(j) => ReceivedView::Frame(j@),
            Received::Nothing => ReceivedView::Nothing,
            Received::WaitOn => ReceivedView::WaitOn,
        }
    }
}

/// What a text brings.
pub open spec fn received_text(text: Seq<char>) -> ReceivedView {
    match parsed_json(text) {
        Some(j) => ReceivedView::Frame(j),
        None => ReceivedView::Nothing,
    }
}

/// What a message of the connection brings. Bytes count as the text that they encode.
pub open spec fn received(m: Incoming) -> ReceivedView {
    match m {
        Incoming::Text(text) => received_text(text@),
        Incoming::Binary(bytes) => if valid_utf8(bytes@) {
            received_text(decode_utf8(bytes@))
        } else {
            ReceivedView::Nothing
        },
        Incoming::Close => ReceivedView::Nothing,
        Incoming::Control => ReceivedView::WaitOn,
    }
}

/// `String::from_utf8`: the text that the bytes encode, `None` for its error, which comes exactly
/// where the bytes are not UTF-8.
#[verifier::external_body]
fn text_of_bytes(bytes: Vec<u8>) -> (r: Option<String>)
    ensures
        match r {
            Some(text) => valid_utf8(bytes@) && text@ == decode_utf8(bytes@),
            None => !valid_utf8(bytes@),
        },
{
    String::from_utf8(bytes).ok()
}

fn receive_text(text: &str) -> (r: Received)
    ensures
        r@ == received_text(text@),
{
    match Json::parse(text) {
        Some(j) => Received::Frame(j),
        None => Received::Nothing,
    }
}

/// What a message of the connection brings.
pub fn receive(m: Incoming) -> (r: Received)
    ensures
        r@ == received(m),
{
    match m {
        Incoming::Text(text) => receive_text(text.as_str()),
        Incoming::Binary(bytes) => match text_of_bytes(bytes) {
            Some(text) => receive_text(text.as_str()),
            None => Received::Nothing,
        },
        Incoming::Close => Received::Nothing,
        Incoming::Control => Received::WaitOn,
    }
}

// ── The question and its answer ─────────────────────────────────────────────

/// The type of the frame that a verb sends.
pub open spec fn wire_type_of(verb: VerbView) -> Seq<char> {
    if verb is Call {
        MSG_AGENT_CALL@
    } else {
        MSG_AGENT_QUERY@
    }
}

/// The type of the frame that answers a verb.
pub open spec fn reply_type_of(verb: VerbView) -> Seq<char> {
    if verb is Call {
        MSG_AGENT_CALL_RESULT@
    } else {
        MSG_AGENT_RESULT@
    }
}

/// The frame of a question.
pub open spec fn query_frame(verb: VerbView, req_id: Seq<char>) -> JsonView {
    framed(wire_type_of(verb), req_id, JsonView::Object(verb.payload_entries()))
}

/// The text of the frame of a question.
pub fn build_query(verb: &Verb, req_id: &str) -> (r: String)
    ensures
        r@ == json_text(query_frame(verb@, req_id@)),
{
    let frame: Json = frame_of(verb.wire_type(), req_id, verb.payload());
    frame.to_text()
}

/// A question that can be sent, and the id by which its answer is known.
#[derive(Debug, PartialEq, Eq)]
pub struct Question {
    pub req_id: String,
    pub frame: String,
}

/// A question with a random id.
pub fn new_question(verb: &Verb) -> (r: Question)
    ensures
        r.req_id@.len() == 36,
        r.frame@ == json_text(query_frame(verb@, r.req_id@)),
{
    let req_id: String = fresh_id();
    let frame: String = build_query(verb, req_id.as_str());
    Question { req_id, frame }
}

/// What a frame means to someone who waits for the answer to a question.
#[derive(Debug, PartialEq, Eq)]
pub enum FrameVerdict {
    /// It is the answer.
    Reply(Json),
    /// No answer will come, for this reason.
    Fail(&'static str),
    /// It is for someone else: wait on.
    Ignore,
}

/// [`FrameVerdict`] as values.
pub enum VerdictView {
    Reply(JsonView),
    Fail(Seq<char>),
    Ignore,
}

impl View for FrameVerdict {
    type V = VerdictView;

    open spec fn view(&self) -> VerdictView {
        match self {
            FrameVerdict::Reply(j) => VerdictView::Reply(j@),
            FrameVerdict::Fail(reason) => VerdictView::Fail(reason@),
            FrameVerdict::Ignore => VerdictView::Ignore,
        }
    }
}

/// What a frame means to someone who waits for the answer to a question. The answer has the type
/// for the verb and the id of the question, and carries a payload. A frame that takes the token
/// back ends the wait. Any other frame with the id of the question comes from an application
/// that does not know the verb.
pub open spec fn verdict_on(verb: VerbView, req_id: Seq<char>, frame: JsonView) -> VerdictView {
    let ours = frame.text_at("reqId"@) == Some(req_id);
    let kind = frame.text_at("type"@);
    if ours && kind == Some(reply_type_of(verb)) {
        match frame.get("payload"@) {
            Some(payload) => VerdictView::Reply(payload),
            None => VerdictView::Fail(ERR_CONNECTION_LOST@),
        }
    } else if kind == Some(MSG_TOKEN_REVOKED@) {
        VerdictView::Fail(ERR_PAIRING_REJECTED@)
    } else if ours {
        VerdictView::Fail(ERR_UNSUPPORTED_BY_APP@)
    } else {
        VerdictView::Ignore
    }
}

fn text_at_is(frame: &Json, key: &str, text: &str) -> (r: bool)
    ensures
        r == (frame@.text_at(key@) == Some(text@)),
{
    match frame.str_at(key) {
        Some(s) => str_eq(s, text),
        None => false,
    }
}

/// What a frame means to someone who waits for the answer to a question.
pub fn classify_frame(verb: &Verb, req_id: &str, frame: &Json) -> (r: FrameVerdict)
    ensures
        r@ == verdict_on(verb@, req_id@, frame@),
{
    let ours: bool = text_at_is(frame, "reqId", req_id);
    if ours && text_at_is(frame, "type", verb.reply_type()) {
        return match frame.get("payload") {
            Some(payload) => FrameVerdict::Reply(payload.clone()),
            None => FrameVerdict::Fail(ERR_CONNECTION_LOST),
        };
    }
    if text_at_is(frame, "type", MSG_TOKEN_REVOKED) {
        FrameVerdict::Fail(ERR_PAIRING_REJECTED)
    } else if ours {
        FrameVerdict::Fail(ERR_UNSUPPORTED_BY_APP)
    } else {
        FrameVerdict::Ignore
    }
}

/// The error of a wait that brought no frame: the time was up, or the connection broke off before.
pub fn silence_sentinel(deadline_reached: bool) -> (r: &'static str)
    ensures
        r@ == (if deadline_reached {
            ERR_TIMEOUT@
        } else {
            ERR_CONNECTION_LOST@
        }),
{
    if deadline_reached {
        ERR_TIMEOUT
    } else {
        ERR_CONNECTION_LOST
    }
}

/// A frame without the id of the question is never taken for its answer, and ends the wait only
/// where it takes the token back.
pub proof fn foreign_frames_are_ignored(verb: VerbView, req_id: Seq<char>, frame: JsonView)
    requires
        frame.text_at("reqId"@) != Some(req_id),
    ensures
        verdict_on(verb, req_id, frame) is Ignore || verdict_on(verb, req_id, frame)
            == VerdictView::Fail(ERR_PAIRING_REJECTED@),
{
}

} // verus!
