//! The command line and the application understand each other: what a verb asks for is what is
//! looked up, and the reply is what the command line waits for.
//!
//! What is said here is said of frames. That a frame arrives as it was sent is a matter of the
//! connection and of the JSON text in between.
use vstd::prelude::*;

use crate::agent_cli::launch::exit_code;
use crate::agent_cli::verb::{VerbView, MSG_AGENT_RESULT};
use crate::agent_cli::wire::{
    framed, query_frame, reply_type_of, verdict_on, wire_type_of, VerdictView,
};
use crate::agent_read::best_matches::{
    best_matches_limit, DEFAULT_BEST_MATCHES_LIMIT, MAX_BEST_MATCHES_LIMIT,
};
use crate::agent_read::found_jobs::{
    cursor_of, found_jobs_limit, DEFAULT_FOUND_JOBS_LIMIT, MAX_FOUND_JOBS_LIMIT,
};
use crate::agent_read::query::{
    argument, replies_name_their_question, resource_asked, result_frame, result_payload,
};
use crate::agent_read::resources::resource_named;
use crate::decimal::unsigned_value;
use crate::error::ErrorView;
use crate::json::{lookup, JsonView};
use crate::text::trimmed;

verus! {

/// A limit that is no larger than the largest one.
pub open spec fn at_most(n: u64, most: usize) -> int {
    if n < most {
        n as int
    } else {
        most as int
    }
}

/// Whether a payload says what a verb asks for.
pub open spec fn understood(verb: VerbView, payload: JsonView) -> bool {
    &&& resource_asked(payload) == verb.resource()
    &&& resource_named(verb.resource()) is Some
    &&& match verb {
        VerbView::BestMatches { limit } => best_matches_limit(payload) == (match limit {
            Some(n) => at_most(n, MAX_BEST_MATCHES_LIMIT),
            None => DEFAULT_BEST_MATCHES_LIMIT as int,
        }),
        VerbView::Job { url } => argument(payload, "url"@) == trimmed(url),
        VerbView::FoundJobs { autopilot_id, limit, cursor } => {
            &&& argument(payload, "autopilotId"@) == trimmed(autopilot_id)
            &&& found_jobs_limit(payload) == (match limit {
                Some(0) => DEFAULT_FOUND_JOBS_LIMIT as int,
                Some(n) => at_most(n, MAX_FOUND_JOBS_LIMIT),
                None => DEFAULT_FOUND_JOBS_LIMIT as int,
            })
            &&& cursor_of(payload) == (match cursor {
                Some(c) => unsigned_value(c, usize::MAX as nat),
                None => Some(0nat),
            })
        },
        _ => true,
    }
}

/// What a verb sends is read as what the verb asks for, with its arguments.
pub proof fn questions_are_understood(verb: VerbView)
    requires
        !(verb is Call),
    ensures
        understood(verb, JsonView::Object(verb.payload_entries())),
{
    reveal_strlit("resource");
    reveal_strlit("limit");
    reveal_strlit("url");
    reveal_strlit("autopilotId");
    reveal_strlit("cursor");
    assert("resource"@.len() == 8 && "limit"@.len() == 5 && "url"@.len() == 3
        && "autopilotId"@.len() == 11 && "cursor"@.len() == 6);
    reveal_with_fuel(lookup, 5);
}

/// The frame of a question carries what the verb asks for, under the id of the question.
pub proof fn question_frames_carry_the_question(verb: VerbView, req_id: Seq<char>)
    ensures
        query_frame(verb, req_id).text_at("reqId"@) == Some(req_id),
        query_frame(verb, req_id).get("payload"@) == Some(
            JsonView::Object(verb.payload_entries()),
        ),
{
    frame_fields(wire_type_of(verb), req_id, JsonView::Object(verb.payload_entries()));
}

proof fn frame_fields(kind: Seq<char>, req_id: Seq<char>, payload: JsonView)
    ensures
        framed(kind, req_id, payload).text_at("type"@) == Some(kind),
        framed(kind, req_id, payload).text_at("reqId"@) == Some(req_id),
        framed(kind, req_id, payload).get("payload"@) == Some(payload),
{
    reveal_strlit("type");
    reveal_strlit("reqId");
    reveal_strlit("payload");
    assert("type"@.len() == 4 && "reqId"@.len() == 5 && "payload"@.len() == 7);
    reveal_with_fuel(lookup, 4);
}

/// A reply of the right type with the id of the question is taken for its answer.
pub proof fn own_replies_are_taken(verb: VerbView, req_id: Seq<char>, payload: JsonView)
    ensures
        verdict_on(verb, req_id, framed(reply_type_of(verb), req_id, payload))
            == VerdictView::Reply(payload),
{
    frame_fields(reply_type_of(verb), req_id, payload);
}

/// The reply of the application to a question is taken for its answer, and the command line ends
/// well exactly where there is something to hand out.
pub proof fn replies_reach_the_asker(
    verb: VerbView,
    req_id: Seq<char>,
    outcome: Result<JsonView, ErrorView>,
)
    requires
        !(verb is Call),
    ensures
        ({
            let frame = result_frame(req_id, verb.resource(), outcome);
            let payload = result_payload(verb.resource(), outcome);
            &&& verdict_on(verb, req_id, frame) == VerdictView::Reply(payload)
            &&& exit_code(verb, payload) == (if outcome is Ok {
                0int
            } else {
                1
            })
        }),
{
    replies_name_their_question(req_id, verb.resource(), outcome);
    let payload = result_payload(verb.resource(), outcome);
    let frame = result_frame(req_id, verb.resource(), outcome);
    assert(frame->Object_0 =~= framed(MSG_AGENT_RESULT@, req_id, payload)->Object_0);
    own_replies_are_taken(verb, req_id, payload);
}

} // verus!
