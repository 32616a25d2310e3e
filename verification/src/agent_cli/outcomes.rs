//! What the functions of the command line hand back, in the fields of what they take and give.
use vstd::prelude::*;

use crate::agent_cli::launch::{
    answer_ending, cli_error_value, exit_code_for_reply, is_help_request, is_mcp_mode,
    launch_ending, read_launch, usage_error_value, Ending, Launch,
};
use crate::agent_cli::mcp::{
    negotiated_version, parse_launch_args, LaunchArgs, Server, Tier, UnknownFlag,
};
use crate::agent_cli::pairing::{
    classify_pairing_failure, is_local_path, is_safe_local_data_dir, pairing_failure_sentinel,
    read_pairing_token, token_in, token_in_dir, PairingFailure, PortAttempt, PortOutcome, PortPhase,
    PortSearch, PortStep, PortStepView,
};
use crate::agent_cli::reading::{
    answers_end_by_what_they_say, first_argument_says_what_to_do, flags_count_wherever_they_stand,
    frames_are_judged_by_id_and_type, handshake_answers_are_read, missing_answers_say_why,
    ports_together_say_why, questions_carry_what_the_verb_says, usage_errors_say_what_is_wrong,
};
use crate::agent_cli::verb::{parse_verb, verb_of, Verb, VerbView};
use crate::agent_cli::wire::{
    auth_frame, build_auth, build_hello, build_query, classify_frame, hello_frame, new_question,
    parse_auth_ok, parse_challenge, query_frame, silence_sentinel, FrameVerdict, Question,
};
use crate::chance::pause_millis;
use crate::clock::stamp_millis;
use crate::error::AppError;
use crate::json::{json_text, Json, JsonView};
use crate::text::{opt_text, texts};

verus! {

// ── Verbs ───────────────────────────────────────────────────────────────────

/// What a verb sends says each thing that the verb says under its own name.
pub proof fn verbs_send_what_they_say(verb: &Verb, r: Json)
    requires
        call_ensures(Verb::payload, (verb,), r),
    ensures
        match verb {
            Verb::BestMatches { limit } => {
                &&& r@.get("resource"@) == Some(JsonView::Text("best-matches"@))
                &&& r@.get("limit"@) == (match limit {
                    Some(n) => Some(JsonView::Int(*n as int)),
                    None => None,
                })
            },
            Verb::Job { url } => {
                &&& r@.get("resource"@) == Some(JsonView::Text("job"@))
                &&& r@.get("url"@) == Some(JsonView::Text(url@))
            },
            Verb::Profile => r@.get("resource"@) == Some(JsonView::Text("profile"@)),
            Verb::Automations => r@.get("resource"@) == Some(JsonView::Text("automations"@)),
            Verb::Schema => r@.get("resource"@) == Some(JsonView::Text("schema"@)),
            Verb::FoundJobs { autopilot_id, limit, cursor } => {
                &&& r@.get("resource"@) == Some(JsonView::Text("found-jobs"@))
                &&& r@.get("autopilotId"@) == Some(JsonView::Text(autopilot_id@))
                &&& r@.get("limit"@) == (match limit {
                    Some(n) => Some(JsonView::Int(*n as int)),
                    None => None,
                })
                &&& r@.get("cursor"@) == (match cursor {
                    Some(c) => Some(JsonView::Text(c@)),
                    None => None,
                })
            },
            Verb::Call { namespace, command, input, confirm } => {
                &&& r@.get("namespace"@) == Some(JsonView::Text(namespace@))
                &&& r@.get("command"@) == Some(JsonView::Text(command@))
                &&& r@.get("input"@) == Some(input@)
                &&& r@.get("confirm"@) == (match confirm {
                    Some(c) => Some(JsonView::Text(c@)),
                    None => None,
                })
            },
        },
{
    questions_carry_what_the_verb_says(verb@, Seq::empty());
    crate::agent_read::round_trip::question_frames_carry_the_question(verb@, Seq::empty());
}

/// The types of a question and of its answer, and the name of what it asks for.
pub proof fn verbs_have_their_types(
    verb: &Verb,
    asks: &'static str,
    answers: &'static str,
    name: &'static str,
)
    requires
        call_ensures(Verb::wire_type, (verb,), asks),
        call_ensures(Verb::reply_type, (verb,), answers),
        call_ensures(Verb::resource_name, (verb,), name),
    ensures
        *verb is Call ==> asks@ == "agent.call"@ && answers@ == "agent.call.result"@ && name@
            == "call"@,
        !(*verb is Call) ==> asks@ == "agent.query"@ && answers@ == "agent.result"@,
        *verb is BestMatches ==> name@ == "best-matches"@,
        *verb is Job ==> name@ == "job"@,
        *verb is Profile ==> name@ == "profile"@,
        *verb is Automations ==> name@ == "automations"@,
        *verb is Schema ==> name@ == "schema"@,
        *verb is FoundJobs ==> name@ == "found-jobs"@,
{
}

/// Arguments are read as the verb that they say, or refused with what is wrong with them.
pub proof fn arguments_are_read_as_their_verb(args: &[String], r: Result<Verb, AppError>)
    requires
        call_ensures(parse_verb, (args,), r),
    ensures
        r is Ok <==> verb_of(texts(args@)) is Ok,
        r matches Ok(verb) ==> verb_of(texts(args@))->Ok_0 == verb@,
        r matches Err(e) ==> (e matches AppError::Validation(m) && verb_of(texts(args@)) == Err::<
            VerbView,
            Seq<char>,
        >(m@)),
{
}

/// The first argument says what an invocation does.
pub proof fn launches_are_read_by_the_first_argument(
    args: &[String],
    r: Launch,
    help: bool,
    server: bool,
)
    requires
        call_ensures(read_launch, (args,), r),
        call_ensures(is_help_request, (args,), help),
        call_ensures(is_mcp_mode, (args,), server),
    ensures
        help <==> args@.len() > 0 && (args@[0]@ == "--help"@ || args@[0]@ == "-h"@ || args@[0]@
            == "help"@),
        server <==> args@.len() > 0 && args@[0]@ == "mcp"@,
        help ==> r is Help,
        server ==> r is Mcp,
        args@.len() == 0 ==> r is Bare,
        !help && !server && args@.len() > 0 ==> r is Ask || r is Usage,
        r is Ask ==> verb_of(texts(args@)) is Ok,
        r is Usage ==> verb_of(texts(args@)) is Err,
{
    first_argument_says_what_to_do(texts(args@));
    if args@.len() > 0 {
        assert(texts(args@)[0] == args@[0]@);
    }
}

// ── Endings ─────────────────────────────────────────────────────────────────

/// The exit code of an answer: of a call 4 where it wants a confirmation, 0 where it was
/// dispatched and 2 otherwise; of any other question 0 where the answer is good, else 1.
pub proof fn exit_codes_follow_the_answer(verb: &Verb, payload: &Json, r: i32)
    requires
        call_ensures(exit_code_for_reply, (verb, payload), r),
    ensures
        ({
            let unconfirmed = payload@.get("error"@) == Some(
                JsonView::Text("confirmation_required"@),
            );
            let dispatched = payload@.get("dispatched"@) == Some(JsonView::Bool(true));
            let good = payload@.get("ok"@) == Some(JsonView::Bool(true));
            r == if *verb is Call {
                if unconfirmed {
                    4int
                } else if dispatched {
                    0
                } else {
                    2
                }
            } else if good {
                0
            } else {
                1
            }
        }),
{
    answers_end_by_what_they_say(verb@, payload@, Seq::empty());
}

/// An answer is printed to the standard output as it is. Without one, what is printed there names
/// what was asked for and why there is none, and the code is 2.
pub proof fn answers_are_printed(
    verb: &Verb,
    answer: &Result<Json, &'static str>,
    r: Ending,
    name: &'static str,
)
    requires
        call_ensures(answer_ending, (verb, answer), r),
        call_ensures(Verb::resource_name, (verb,), name),
    ensures
        r.err is None,
        match *answer {
            Ok(payload) => opt_text(r.out) == Some(json_text(payload@)),
            Err(why) => r.code == 2 && opt_text(r.out) == Some(
                json_text(crate::agent_cli::launch::cli_error(Some(name@), why@)),
            ),
        },
{
}

/// Wrong arguments and missing answers are printed with what is wrong.
pub proof fn failures_are_printed_with_their_reason(
    detail: &str,
    a: Json,
    resource: Option<&str>,
    why: &str,
    b: Json,
)
    requires
        call_ensures(usage_error_value, (detail,), a),
        call_ensures(cli_error_value, (resource, why), b),
    ensures
        a@.get("ok"@) == Some(JsonView::Bool(false)),
        a@.get("error"@) == Some(JsonView::Text("usage"@)),
        a@.get("detail"@) == Some(JsonView::Text(detail@)),
        b@.get("ok"@) == Some(JsonView::Bool(false)),
        b@.get("error"@) == Some(JsonView::Text(why@)),
        resource matches Some(name) ==> b@.get("resource"@) == Some(JsonView::Text(name@)),
        resource is None ==> b@.get("resource"@) == Some(JsonView::Null),
{
    usage_errors_say_what_is_wrong(detail@);
    missing_answers_say_why(
        match resource {
            Some(s) => Some(s@),
            None => None,
        },
        why@,
    );
}

/// Help that was asked for ends well on the standard output, help for want of arguments ends badly
/// on the errors, and a question or a server does not end yet.
pub proof fn launches_end_where_nothing_is_asked(launch: &Launch, r: Option<Ending>)
    requires
        call_ensures(launch_ending, (launch,), r),
    ensures
        *launch is Help ==> (r matches Some(e) && e.code == 0 && e.out is Some && e.err is None),
        *launch is Bare ==> (r matches Some(e) && e.code == 2 && e.out is None && e.err is Some),
        *launch is Usage ==> (r matches Some(e) && e.code == 2 && e.out is Some && e.err is None),
        *launch is Mcp || *launch is Ask ==> r is None,
{
}

// ── The wire ────────────────────────────────────────────────────────────────

/// A frame is an answer where it has the id and the type of one, and its payload is handed out.
pub proof fn frames_are_answers_by_id_and_type(
    verb: &Verb,
    req_id: &str,
    frame: &Json,
    r: FrameVerdict,
)
    requires
        call_ensures(classify_frame, (verb, req_id, frame), r),
    ensures
        ({
            let ours = frame@.get("reqId"@) == Some(JsonView::Text(req_id@));
            let answer = frame@.get("type"@) == Some(
                JsonView::Text(
                    if *verb is Call {
                        "agent.call.result"@
                    } else {
                        "agent.result"@
                    },
                ),
            );
            let taken_back = frame@.get("type"@) == Some(JsonView::Text("token.revoked"@));
            &&& ours && answer && frame@.get("payload"@) is Some ==> (
            r matches FrameVerdict::Reply(payload) && Some(payload@) == frame@.get("payload"@))
            &&& ours && answer && frame@.get("payload"@) is None ==> (
            r matches FrameVerdict::Fail(why) && why@ == "connection_lost"@)
            &&& !(ours && answer) && taken_back ==> (r matches FrameVerdict::Fail(why) && why@
                == "pairing_rejected"@)
            &&& ours && !answer && !taken_back ==> (r matches FrameVerdict::Fail(why) && why@
                == "unsupported_by_app"@)
            &&& !ours && !taken_back ==> r is Ignore
        }),
{
    frames_are_judged_by_id_and_type(verb@, req_id@, frame@);
}

/// The frames of the handshake and of a question are those of what they carry.
pub proof fn frames_are_written_as_text(
    nonce: &str,
    a: String,
    evidence: &str,
    b: String,
    verb: &Verb,
    req_id: &str,
    c: String,
)
    requires
        call_ensures(build_hello, (nonce,), a),
        call_ensures(build_auth, (evidence,), b),
        call_ensures(build_query, (verb, req_id), c),
    ensures
        a@ == json_text(hello_frame(nonce@)),
        b@ == json_text(auth_frame(evidence@)),
        c@ == json_text(query_frame(verb@, req_id@)),
{
}

/// The proof of the other side is what stands under its name in the answer to ours.
pub proof fn proof_is_read_from_the_answer(frame: &Json, r: Option<String>, s: Seq<char>)
    requires
        call_ensures(parse_auth_ok, (frame,), r),
    ensures
        opt_text(r) == Some(s) <==> frame@.get("type"@) == Some(JsonView::Text("auth.ok"@))
            && frame@.get("payload"@) is Some && frame@.get("payload"@)->0.get("serverProof"@)
            == Some(JsonView::Text(s)),
{
    handshake_answers_are_read(frame@, s);
}

/// Silence is a timeout where the deadline was reached, and otherwise a lost connection.
pub proof fn silence_has_two_reasons(deadline: bool, r: &'static str)
    requires
        call_ensures(silence_sentinel, (deadline,), r),
    ensures
        deadline ==> r@ == "timeout"@,
        !deadline ==> r@ == "connection_lost"@,
{
}

// ── The server mode ─────────────────────────────────────────────────────────

/// A server may change what can be changed back where either flag is set, and what cannot only
/// where its own flag is.
pub proof fn server_may_do_what_its_flags_say(
    reversible: bool,
    irreversible: bool,
    r: Server,
    a: bool,
    b: bool,
)
    requires
        call_ensures(Server::new, (reversible, irreversible), r),
        call_ensures(Tier::allows_reversible, (r.tier,), a),
        call_ensures(Tier::allows_irreversible, (r.tier,), b),
    ensures
        a <==> reversible || irreversible,
        b <==> irreversible,
{
}

/// Each flag of a launch counts wherever it stands, and nothing else is accepted.
pub proof fn launch_flags_are_read(args: &[String], r: Result<LaunchArgs, UnknownFlag>)
    requires
        call_ensures(parse_launch_args, (args,), r),
    ensures
        r is Ok <==> forall|i: int|
            0 <= i < args@.len() ==> (#[trigger] args@[i])@ == "--help"@ || args@[i]@
                == "--allow-reversible"@ || args@[i]@ == "--allow-irreversible"@,
        r matches Ok(asked) ==> {
            &&& asked.help <==> exists|i: int|
                0 <= i < args@.len() && (#[trigger] args@[i])@ == "--help"@
            &&& asked.allow_reversible <==> exists|i: int|
                0 <= i < args@.len() && (#[trigger] args@[i])@ == "--allow-reversible"@
            &&& asked.allow_irreversible <==> exists|i: int|
                0 <= i < args@.len() && (#[trigger] args@[i])@ == "--allow-irreversible"@
        },
{
    let t = texts(args@);
    flags_count_wherever_they_stand(t);
    assert forall|i: int| 0 <= i < args@.len() implies t[i] == (#[trigger] args@[i])@ by {}
    if r is Ok {
        assert forall|i: int| 0 <= i < args@.len() implies (#[trigger] args@[i])@ == "--help"@
            || args@[i]@ == "--allow-reversible"@ || args@[i]@ == "--allow-irreversible"@ by {
            assert(t[i] == args@[i]@);
        }
        lemma_asked_alike(args@, "--help"@);
        lemma_asked_alike(args@, "--allow-reversible"@);
        lemma_asked_alike(args@, "--allow-irreversible"@);
    } else {
        let i = choose|i: int|
            0 <= i < t.len() && !(#[trigger] t[i] == "--help"@ || t[i] == "--allow-reversible"@
                || t[i] == "--allow-irreversible"@);
        assert(t[i] == args@[i]@);
    }
}

proof fn lemma_asked_alike(args: Seq<String>, flag: Seq<char>)
    ensures
        (exists|i: int| 0 <= i < args.len() && (#[trigger] args[i])@ == flag) <==> (exists|i: int|
            0 <= i < texts(args).len() && #[trigger] texts(args)[i] == flag),
{
    if exists|i: int| 0 <= i < args.len() && (#[trigger] args[i])@ == flag {
        let i = choose|i: int| 0 <= i < args.len() && (#[trigger] args[i])@ == flag;
        assert(texts(args)[i] == flag);
    }
    if exists|i: int| 0 <= i < texts(args).len() && #[trigger] texts(args)[i] == flag {
        let i = choose|i: int| 0 <= i < texts(args).len() && #[trigger] texts(args)[i] == flag;
        assert(args[i]@ == flag);
    }
}

/// A known version that was asked for is answered, and otherwise the newest.
pub proof fn versions_are_answered_as_asked(params: &Json, r: &'static str)
    requires
        call_ensures(negotiated_version, (params,), r),
    ensures
        match params@.get("protocolVersion"@) {
            Some(JsonView::Text(v)) => {
                let known = v == "2025-11-25"@ || v == "2025-06-18"@ || v == "2025-03-26"@ || v
                    == "2024-11-05"@ || v == "2024-10-07"@;
                &&& known ==> r@ == v
                &&& !known ==> r@ == "2025-11-25"@
            },
            _ => r@ == "2025-11-25"@,
        },
{
}

// ── Pairing ─────────────────────────────────────────────────────────────────

/// Ports are tried one after the other in their order, and each once: the first is the first of
/// the list, and after a port was of no use the next one follows.
pub proof fn ports_are_tried_in_order(ports: Vec<u16>, s: PortSearch, first: Option<u16>)
    requires
        call_ensures(PortSearch::new, (ports,), s),
        call_ensures(PortSearch::next_port, (&s,), first),
    ensures
        ports@.len() > 0 ==> first == Some(ports@[0]),
        ports@.len() == 0 ==> first is None,
        s@.ports == ports@,
        s@.outcomes.len() == 0,
{
}

/// A port that was of no use is followed by the next one, and what it said is kept.
pub proof fn next_port_follows(s: &mut PortSearch, outcome: PortOutcome)
    requires
        call_ensures(PortSearch::rejected, (s, outcome), ()),
    ensures
        final(s)@.ports == old(s)@.ports,
        final(s)@.outcomes == old(s)@.outcomes.push(outcome),
        old(s)@.outcomes.len() + 1 < old(s)@.ports.len() ==> final(s)@.next() == Some(
            old(s)@.ports[old(s)@.outcomes.len() as int + 1],
        ),
        old(s)@.outcomes.len() + 1 >= old(s)@.ports.len() ==> final(s)@.next() is None,
{
}

/// Why no port was the application follows what the ports said, and is reported by its name.
pub proof fn pairing_failures_are_named(
    outcomes: &[PortOutcome],
    f: PairingFailure,
    name: &'static str,
)
    requires
        call_ensures(classify_pairing_failure, (outcomes,), f),
        call_ensures(pairing_failure_sentinel, (f,), name),
    ensures
        ({
            let silent = forall|i: int|
                0 <= i < outcomes@.len() ==> #[trigger] outcomes@[i] == PortOutcome::NoUpgrade;
            let early = exists|i: int|
                0 <= i < outcomes@.len() && #[trigger] outcomes@[i] == PortOutcome::PreAuthError;
            &&& silent ==> name@ == "app_not_running"@
            &&& early ==> name@ == "connection_error"@
            &&& !silent && !early ==> name@ == "pairing_rejected"@
        }),
{
    ports_together_say_why(outcomes@);
}

/// A path can be read where the system calls it absolute and it names no other machine.
pub proof fn only_local_paths_are_read(path: &str, absolute: bool, r: bool)
    requires
        call_ensures(is_local_path, (path, absolute), r),
    ensures
        r <==> absolute && !(path@.len() >= 2 && (path@[0] == '/' || path@[0] == '\\') && (path@[1]
            == '/' || path@[1] == '\\')),
{
}

/// The token of a directory is that of its file, and none where the directory cannot be read from
/// this machine.
pub proof fn token_comes_from_a_local_directory<R: Fn(&str) -> Option<String>>(
    data_dir: &str,
    absolute: bool,
    read: &R,
    r: Option<String>,
    text: Option<Seq<char>>,
)
    requires
        call_ensures(token_in_dir::<R>, (data_dir, absolute, read), r),
        forall|d: &str, out: Option<String>|
            d@ == data_dir@ && #[trigger] read.ensures((d,), out) ==> opt_text(out) == text,
    ensures
        ({
            let host = data_dir@.len() >= 2 && (data_dir@[0] == '/' || data_dir@[0] == '\\') && (
            data_dir@[1] == '/' || data_dir@[1] == '\\');
            &&& !absolute || host ==> r is None
            &&& absolute && !host && text is None ==> r is None
            &&& absolute && !host && text is Some ==> opt_text(r) == token_in(text->0)
        }),
{
}

/// A handshake step after the connection, the greeting, the proof and the check is the next one
/// where all went well.
pub proof fn handshake_goes_on_where_all_goes_well(p: &mut PortAttempt, r: PortStep)
    requires
        call_ensures(PortAttempt::connected, (p, true), r),
    ensures
        final(p)@ == PortPhase::Greet,
        r@ == PortStepView::SendHello,
{
}

/// The check of the other side's proof decides: the port is accepted exactly where it is right.
pub proof fn check_decides_the_handshake(p: &mut PortAttempt, verified: bool, r: PortStep)
    requires
        call_ensures(PortAttempt::checked, (p, verified), r),
    ensures
        final(p)@ == PortPhase::Over,
        verified ==> r@ == PortStepView::Accept,
        !verified ==> r@ == PortStepView::Reject(PortOutcome::ProofRejected),
{
}

/// The answer to our proof leads to the check of the proof in it; any other frame, and none,
/// rejects the token.
pub proof fn answer_leads_to_the_check(
    p: &mut PortAttempt,
    frame: Option<&Json>,
    r: PortStep,
    s: Seq<char>,
)
    requires
        call_ensures(PortAttempt::answered, (p, frame), r),
    ensures
        frame is None ==> r@ == PortStepView::Reject(PortOutcome::ProofRejected),
        frame matches Some(j) ==> j@.get("type"@) == Some(JsonView::Text("auth.ok"@)) && j@.get(
            "payload"@,
        ) is Some && j@.get("payload"@)->0.get("serverProof"@) == Some(JsonView::Text(s)) ==> r@
            == PortStepView::VerifyProof(s) && final(p)@ == PortPhase::Check,
        frame matches Some(j) ==> j@.get("type"@) != Some(JsonView::Text("auth.ok"@)) ==> r@
            == PortStepView::Reject(PortOutcome::ProofRejected),
{
    if let Some(j) = frame {
        handshake_answers_are_read(j@, s);
    }
}

// ── Times ───────────────────────────────────────────────────────────────────

/// A pause is its base and what was rolled, brought below the spread.
pub proof fn pauses_stay_below_their_spread(base: u64, spread: u64, rolled: u64, r: u64)
    requires
        call_ensures(pause_millis, (base, spread, rolled), r),
        spread > 0,
        base + spread <= u64::MAX,
    ensures
        base <= r < base + spread,
        rolled < spread ==> r == base + rolled,
        (rolled - (r - base)) % spread as int == 0,
{
    assert((rolled - rolled % spread) % spread as int == 0) by (nonlinear_arith)
        requires
            spread > 0,
    ;
    if rolled < spread {
        assert(rolled % spread == rolled) by (nonlinear_arith)
            requires
                0 <= rolled < spread,
        ;
    }
    assert(0 <= rolled % spread < spread) by (nonlinear_arith)
        requires
            spread > 0,
    ;
}

/// An instant after the epoch is stamped as it is, and one before it as the epoch.
pub proof fn stamps_are_not_negative(instant: i64, r: u64)
    requires
        call_ensures(stamp_millis, (instant,), r),
    ensures
        instant >= 0 ==> r == instant,
        instant < 0 ==> r == 0,
{
}

/// A greeting that was sent is followed by the wait for the challenge, and a proof that was sent by
/// the wait for the answer; where either could not be sent the port is of no use.
pub proof fn what_was_sent_is_waited_for(
    p: &mut PortAttempt,
    q: &mut PortAttempt,
    sent: bool,
    a: PortStep,
    b: PortStep,
)
    requires
        call_ensures(PortAttempt::hello_sent, (p, sent), a),
        call_ensures(PortAttempt::auth_sent, (q, sent), b),
    ensures
        sent ==> a@ == PortStepView::AwaitFrame && final(p)@ == PortPhase::Challenge,
        sent ==> b@ == PortStepView::AwaitFrame && final(q)@ == PortPhase::Answer,
        !sent ==> a@ == PortStepView::Reject(PortOutcome::PreAuthError),
        !sent ==> b@ == PortStepView::Reject(PortOutcome::PreAuthError),
{
}

/// A challenge with a nonce that is accepted is answered by the proof to that nonce; any other
/// frame, and none, ends the handshake before the token is tried.
pub proof fn challenge_is_answered_by_the_proof<F: Fn(&str) -> bool>(
    p: &mut PortAttempt,
    frame: Option<&Json>,
    valid: &F,
    r: PortStep,
    s: Seq<char>,
)
    requires
        call_ensures(PortAttempt::challenged::<F>, (p, frame, valid), r),
        forall|text: &str, said: bool|
            text@ == s && #[trigger] valid.ensures((text,), said) ==> said,
    ensures
        frame is None ==> r@ == PortStepView::Reject(PortOutcome::PreAuthError),
        frame matches Some(j) ==> j@.get("type"@) == Some(JsonView::Text("challenge"@)) && j@.get(
            "payload"@,
        ) is Some && j@.get("payload"@)->0.get("serverNonce"@) == Some(JsonView::Text(s)) ==> r@
            == PortStepView::SendAuth(s) && final(p)@ == PortPhase::Prove,
        frame matches Some(j) ==> j@.get("type"@) != Some(JsonView::Text("challenge"@)) ==> r@
            == PortStepView::Reject(PortOutcome::PreAuthError),
{
    if let Some(j) = frame {
        handshake_answers_are_read(j@, s);
    }
}

/// The nonce of a challenge is handed out where it is accepted, as it stands there; what is no
/// challenge holds none.
pub proof fn nonce_is_read_from_the_challenge<F: Fn(&str) -> bool>(
    frame: &Json,
    valid: &F,
    r: Option<String>,
    s: Seq<char>,
)
    requires
        call_ensures(parse_challenge::<F>, (frame, valid), r),
        forall|text: &str, said: bool|
            text@ == s && #[trigger] valid.ensures((text,), said) ==> said,
    ensures
        frame@.get("type"@) == Some(JsonView::Text("challenge"@)) && frame@.get("payload"@) is Some
            && frame@.get("payload"@)->0.get("serverNonce"@) == Some(JsonView::Text(s))
            ==> opt_text(r) == Some(s),
        frame@.get("type"@) != Some(JsonView::Text("challenge"@)) ==> r is None,
        r matches Some(nonce) ==> frame@.get("payload"@) is Some && frame@.get("payload"@)->0.get(
            "serverNonce"@,
        ) == Some(JsonView::Text(nonce@)),
{
    handshake_answers_are_read(frame@, s);
    if let Some(nonce) = r {
        handshake_answers_are_read(frame@, nonce@);
    }
}

/// A question is framed under the id by which its answer is known.
pub proof fn questions_are_framed_under_their_id(verb: &Verb, r: Question)
    requires
        call_ensures(new_question, (verb,), r),
    ensures
        r.req_id@.len() == 36,
        r.frame@ == json_text(query_frame(verb@, r.req_id@)),
{
}

/// A data directory is safe only where it begins at a root of this machine: with a separator, or
/// with a drive, and never with two separators.
pub proof fn safe_directories_begin_at_a_local_root(path: &str, r: bool)
    requires
        call_ensures(is_safe_local_data_dir, (path,), r),
    ensures
        r ==> path@.len() > 0,
        r ==> path@[0] == '/' || (path@.len() >= 3 && path@[1] == ':' && (path@[2] == '/' || path@[2]
            == '\\')),
        r ==> !(path@.len() >= 2 && (path@[0] == '/' || path@[0] == '\\') && (path@[1] == '/'
            || path@[1] == '\\')),
{
}

/// A token is read only from a directory that begins at a root of this machine, and is then what
/// the token file of that directory holds.
pub proof fn tokens_are_read_from_safe_directories<R: Fn(&str) -> Option<String>>(
    path: &str,
    read: &R,
    r: Option<String>,
    text: Option<Seq<char>>,
)
    requires
        call_ensures(read_pairing_token::<R>, (path, read), r),
        forall|d: &str, out: Option<String>|
            d@ == path@ && #[trigger] read.ensures((d,), out) ==> opt_text(out) == text,
    ensures
        r is Some ==> path@.len() > 0 && !(path@.len() >= 2 && (path@[0] == '/' || path@[0] == '\\')
            && (path@[1] == '/' || path@[1] == '\\')),
        r is Some ==> text is Some && opt_text(r) == token_in(text->0),
{
}

/// What a search over ports ends with follows from what its ports said.
pub proof fn failed_searches_say_why(s: &PortSearch, r: PairingFailure)
    requires
        call_ensures(PortSearch::failure, (s,), r),
    ensures
        ({
            let silent = forall|i: int|
                0 <= i < s@.outcomes.len() ==> #[trigger] s@.outcomes[i] == PortOutcome::NoUpgrade;
            let early = exists|i: int|
                0 <= i < s@.outcomes.len() && #[trigger] s@.outcomes[i]
                    == PortOutcome::PreAuthError;
            &&& r == PairingFailure::AppNotRunning <==> silent
            &&& r == PairingFailure::ConnectionError <==> early
        }),
{
    ports_together_say_why(s@.outcomes);
}

} // verus!
