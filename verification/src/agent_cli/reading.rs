//! How arguments are read, what goes over the wire, and how an invocation ends.
use vstd::prelude::*;

use crate::agent_cli::launch::{
    cli_error, ending_at_launch, ending_of, exit_code, launch_of, usage_error, LaunchView,
};
use crate::agent_cli::mcp::{launch_args, tier_of, tools_of, version_for, Tier};
use crate::agent_cli::pairing::{
    after_answer, after_auth, after_challenge, after_check, after_connect, after_hello,
    names_a_host, pairing_verdict, token_in, PairingFailure, PortOutcome, PortPhase, PortStepView,
};
use crate::agent_cli::verb::{
    best_matches_from, call_from, call_target, found_jobs_from, input_of, limit_of, operand,
    verb_of, VerbView,
};
use crate::agent_cli::wire::{
    auth_frame, framed, hello_frame, proof_in, query_frame, received, server_nonce_in, verdict_on,
    wire_type_of, Incoming, ReceivedView, VerdictView,
};
use crate::decimal::{decimal, decimal_reads_back};
use crate::json::{json_text, lookup, parsed_json, JsonView};
use crate::text::{
    after_first_begins_at_the_first, before_first_ends_at_the_first, trimming_cuts_off_white_ends,
    white,
};

verus! {

// ── Arguments ───────────────────────────────────────────────────────────────

proof fn lemma_flags_differ()
    ensures
        "--limit"@ != "--cursor"@,
        "--input"@ != "--confirm"@,
{
    reveal_strlit("--limit");
    reveal_strlit("--cursor");
    reveal_strlit("--input");
    reveal_strlit("--confirm");
    assert("--limit"@.len() == 7 && "--cursor"@.len() == 8 && "--input"@.len() == 7
        && "--confirm"@.len() == 9);
}

proof fn lemma_names_differ()
    ensures
        "best-matches"@.len() == 12,
        "job"@.len() == 3,
        "profile"@.len() == 7,
        "automations"@.len() == 11,
        "schema"@.len() == 6,
        "found-jobs"@.len() == 10,
        "call"@.len() == 4,
{
    reveal_strlit("best-matches");
    reveal_strlit("job");
    reveal_strlit("profile");
    reveal_strlit("automations");
    reveal_strlit("schema");
    reveal_strlit("found-jobs");
    reveal_strlit("call");
}

spec fn limit_said(verb: VerbView) -> Option<u64> {
    match verb {
        VerbView::BestMatches { limit } => limit,
        VerbView::FoundJobs { limit, .. } => limit,
        _ => None,
    }
}

proof fn lemma_best_matches_goes_on(
    args: Seq<Seq<char>>,
    more: Seq<Seq<char>>,
    i: nat,
    limit: Option<u64>,
)
    requires
        i <= args.len(),
        best_matches_from(args, i, limit) is Ok,
    ensures
        best_matches_from(args, i, limit)->Ok_0 is BestMatches,
        best_matches_from(args + more, i, limit) == best_matches_from(
            args + more,
            args.len(),
            limit_said(best_matches_from(args, i, limit)->Ok_0),
        ),
    decreases args.len() - i,
{
    if i < args.len() {
        let n = limit_of(crate::agent_cli::verb::flag_value(args, i))->Ok_0;
        assert((args + more)[i as int] == args[i as int]);
        assert((args + more)[i as int + 1] == args[i as int + 1]);
        lemma_best_matches_goes_on(args, more, i + 2, Some(n));
    }
}

proof fn lemma_found_jobs_goes_on(
    args: Seq<Seq<char>>,
    more: Seq<Seq<char>>,
    i: nat,
    id: Seq<char>,
    limit: Option<u64>,
    cursor: Option<Seq<char>>,
)
    requires
        i <= args.len(),
        found_jobs_from(args, i, id, limit, cursor) is Ok,
    ensures
        ({
            let v = found_jobs_from(args, i, id, limit, cursor)->Ok_0;
            &&& v is FoundJobs
            &&& v->autopilot_id == id
            &&& found_jobs_from(args + more, i, id, limit, cursor) == found_jobs_from(
                args + more,
                args.len(),
                id,
                limit_said(v),
                v->cursor,
            )
        }),
    decreases args.len() - i,
{
    if i < args.len() {
        assert((args + more)[i as int] == args[i as int]);
        assert((args + more)[i as int + 1] == args[i as int + 1]);
        if args[i as int] == "--limit"@ {
            let n = limit_of(crate::agent_cli::verb::flag_value(args, i))->Ok_0;
            lemma_found_jobs_goes_on(args, more, i + 2, id, Some(n), cursor);
        } else {
            lemma_found_jobs_goes_on(args, more, i + 2, id, limit, Some(args[i as int + 1]));
        }
    }
}

proof fn lemma_call_goes_on(
    args: Seq<Seq<char>>,
    more: Seq<Seq<char>>,
    i: nat,
    namespace: Seq<char>,
    command: Seq<char>,
    input: JsonView,
    confirm: Option<Seq<char>>,
)
    requires
        i <= args.len(),
        call_from(args, i, namespace, command, input, confirm) is Ok,
    ensures
        ({
            let v = call_from(args, i, namespace, command, input, confirm)->Ok_0;
            &&& v is Call
            &&& v->namespace == namespace
            &&& v->command == command
            &&& call_from(args + more, i, namespace, command, input, confirm) == call_from(
                args + more,
                args.len(),
                namespace,
                command,
                v->input,
                v->confirm,
            )
        }),
    decreases args.len() - i,
{
    if i < args.len() {
        assert((args + more)[i as int] == args[i as int]);
        assert((args + more)[i as int + 1] == args[i as int + 1]);
        if args[i as int] == "--input"@ {
            let j = input_of(crate::agent_cli::verb::flag_value(args, i))->Ok_0;
            lemma_call_goes_on(args, more, i + 2, namespace, command, j, confirm);
        } else {
            lemma_call_goes_on(args, more, i + 2, namespace, command, input, Some(args[i as int + 1]));
        }
    }
}

/// Arguments that say a verb say the one that the first of them names.
pub proof fn first_argument_names_the_verb(args: Seq<Seq<char>>)
    requires
        verb_of(args) is Ok,
    ensures
        args.len() > 0,
        verb_of(args)->Ok_0 is BestMatches <==> args[0] == "best-matches"@,
        verb_of(args)->Ok_0 is Job <==> args[0] == "job"@,
        verb_of(args)->Ok_0 is Profile <==> args[0] == "profile"@,
        verb_of(args)->Ok_0 is Automations <==> args[0] == "automations"@,
        verb_of(args)->Ok_0 is Schema <==> args[0] == "schema"@,
        verb_of(args)->Ok_0 is FoundJobs <==> args[0] == "found-jobs"@,
        verb_of(args)->Ok_0 is Call <==> args[0] == "call"@,
        verb_of(args)->Ok_0.resource() == args[0],
{
    lemma_names_differ();
    let more = Seq::<Seq<char>>::empty();
    if args[0] == "best-matches"@ {
        lemma_best_matches_goes_on(args, more, 1, None);
    } else if args[0] == "found-jobs"@ {
        lemma_found_jobs_goes_on(args, more, 2, args[1], None, None);
    } else if args[0] == "call"@ {
        let (namespace, command) = call_target(args[1])->0;
        lemma_call_goes_on(
            args,
            more,
            2,
            namespace,
            command,
            JsonView::Object(Seq::empty()),
            None,
        );
    }
}

/// The verbs that take no more than their name, or their name and one thing, are said so: without
/// limits, without a cursor, with an empty input and without a confirmation. What is said is what
/// was typed.
pub proof fn plain_arguments_say_their_verb(what: Seq<char>)
    requires
        what.len() > 0,
    ensures
        verb_of(seq!["best-matches"@]) == Ok::<VerbView, Seq<char>>(
            VerbView::BestMatches { limit: None },
        ),
        verb_of(seq!["profile"@]) == Ok::<VerbView, Seq<char>>(VerbView::Profile),
        verb_of(seq!["automations"@]) == Ok::<VerbView, Seq<char>>(VerbView::Automations),
        verb_of(seq!["schema"@]) == Ok::<VerbView, Seq<char>>(VerbView::Schema),
        verb_of(seq!["job"@, what]) == Ok::<VerbView, Seq<char>>(VerbView::Job { url: what }),
        verb_of(seq!["found-jobs"@, what]) == Ok::<VerbView, Seq<char>>(
            VerbView::FoundJobs { autopilot_id: what, limit: None, cursor: None },
        ),
{
    lemma_names_differ();
    assert(operand(seq!["job"@, what]) == Some(what));
    assert(operand(seq!["found-jobs"@, what]) == Some(what));
}

/// A target names a namespace and a command: what stands before its first colon and what stands
/// behind it, where neither is empty.
pub proof fn targets_are_split_at_the_first_colon(namespace: Seq<char>, command: Seq<char>)
    requires
        forall|i: int| 0 <= i < namespace.len() ==> #[trigger] namespace[i] != ':',
    ensures
        namespace.len() > 0 && command.len() > 0 ==> call_target(
            namespace + seq![':'] + command,
        ) == Some((namespace, command)),
        namespace.len() == 0 || command.len() == 0 ==> call_target(
            namespace + seq![':'] + command,
        ) is None,
        call_target(namespace) is None,
{
    let target = namespace + seq![':'] + command;
    let n = namespace.len() as int;
    assert(target[n] == ':');
    let a = before_first_ends_at_the_first(target, ':');
    let b = after_first_begins_at_the_first(target, ':');
    if a < n {
        assert(target[a] == namespace[a]);
    } else if a > n {
        assert(target[n] != ':');
    }
    if b < n {
        assert(target[b] == namespace[b]);
    } else if b > n {
        assert(target[n] != ':');
    }
    assert(target.subrange(0, n) =~= namespace);
    assert(target.subrange(n + 1, target.len() as int) =~= command);
    if namespace.contains(':') {
        let i = choose|i: int| 0 <= i < namespace.len() && namespace[i] == ':';
        assert(namespace[i] != ':');
    }
}

/// A call without flags has an empty input and no confirmation.
pub proof fn plain_calls_have_an_empty_input(namespace: Seq<char>, command: Seq<char>)
    requires
        forall|i: int| 0 <= i < namespace.len() ==> #[trigger] namespace[i] != ':',
        namespace.len() > 0,
        command.len() > 0,
    ensures
        verb_of(seq!["call"@, namespace + seq![':'] + command]) == Ok::<VerbView, Seq<char>>(
            VerbView::Call {
                namespace,
                command,
                input: JsonView::Object(Seq::empty()),
                confirm: None,
            },
        ),
{
    lemma_names_differ();
    targets_are_split_at_the_first_colon(namespace, command);
    let args = seq!["call"@, namespace + seq![':'] + command];
    assert(operand(args) == Some(namespace + seq![':'] + command));
}

/// A limit behind good arguments is taken over, whatever limit they had, and changes nothing else.
/// One that is no number that fits, or that is missing, is refused.
pub proof fn later_limit_counts(args: Seq<Seq<char>>, n: u64, raw: Seq<char>)
    requires
        verb_of(args) is Ok,
        args[0] == "best-matches"@ || args[0] == "found-jobs"@,
    ensures
        ({
            let after = verb_of(args + seq!["--limit"@, decimal(n as nat)]);
            match verb_of(args)->Ok_0 {
                VerbView::FoundJobs { autopilot_id, limit, cursor } => after == Ok::<
                    VerbView,
                    Seq<char>,
                >(VerbView::FoundJobs { autopilot_id, limit: Some(n), cursor }),
                _ => after == Ok::<VerbView, Seq<char>>(VerbView::BestMatches { limit: Some(n) }),
            }
        }),
        verb_of(args + seq!["--limit"@]) == Err::<VerbView, Seq<char>>(
            "--limit requires a value"@,
        ),
        crate::decimal::unsigned_value(raw, u64::MAX as nat) is None ==> verb_of(
            args + seq!["--limit"@, raw],
        ) == Err::<VerbView, Seq<char>>("--limit must be a non-negative integer"@),
{
    lemma_names_differ();
    lemma_flags_differ();
    decimal_reads_back(n as nat, u64::MAX as nat);
    let good = seq!["--limit"@, decimal(n as nat)];
    let bare = seq!["--limit"@];
    let bad = seq!["--limit"@, raw];
    let k = args.len() as int;
    assert((args + good)[0] == args[0] && (args + bare)[0] == args[0] && (args + bad)[0] == args[0]);
    assert((args + good)[k] == good[0] && (args + good)[k + 1] == good[1]);
    assert((args + bare)[k] == bare[0]);
    assert((args + bad)[k] == bad[0] && (args + bad)[k + 1] == bad[1]);
    if args[0] == "best-matches"@ {
        lemma_best_matches_goes_on(args, good, 1, None);
        lemma_best_matches_goes_on(args, bare, 1, None);
        lemma_best_matches_goes_on(args, bad, 1, None);
        reveal_with_fuel(best_matches_from, 2);
    } else {
        let id = args[1];
        assert((args + good)[1] == id && (args + bare)[1] == id && (args + bad)[1] == id);
        lemma_found_jobs_goes_on(args, good, 2, id, None, None);
        lemma_found_jobs_goes_on(args, bare, 2, id, None, None);
        lemma_found_jobs_goes_on(args, bad, 2, id, None, None);
        reveal_with_fuel(found_jobs_from, 2);
    }
}

/// A cursor behind good arguments is taken over as it is, whatever cursor they had, and changes
/// nothing else.
pub proof fn later_cursor_counts(args: Seq<Seq<char>>, raw: Seq<char>)
    requires
        verb_of(args) is Ok,
        args[0] == "found-jobs"@,
    ensures
        verb_of(args)->Ok_0 matches VerbView::FoundJobs { autopilot_id, limit, cursor } && verb_of(
            args + seq!["--cursor"@, raw],
        ) == Ok::<VerbView, Seq<char>>(
            VerbView::FoundJobs { autopilot_id, limit, cursor: Some(raw) },
        ),
        verb_of(args + seq!["--cursor"@]) == Err::<VerbView, Seq<char>>(
            "--cursor requires a value"@,
        ),
{
    lemma_names_differ();
    lemma_flags_differ();
    let good = seq!["--cursor"@, raw];
    let bare = seq!["--cursor"@];
    let k = args.len() as int;
    let id = args[1];
    assert((args + good)[0] == args[0] && (args + bare)[0] == args[0]);
    assert((args + good)[1] == id && (args + bare)[1] == id);
    assert((args + good)[k] == good[0] && (args + good)[k + 1] == good[1]);
    assert((args + bare)[k] == bare[0]);
    lemma_found_jobs_goes_on(args, good, 2, id, None, None);
    lemma_found_jobs_goes_on(args, bare, 2, id, None, None);
    reveal_with_fuel(found_jobs_from, 2);
}

/// An input or a confirmation behind a good call is taken over, whatever the call had, and changes
/// nothing else. An input that is no object is refused.
pub proof fn later_call_flags_count(args: Seq<Seq<char>>, raw: Seq<char>)
    requires
        verb_of(args) is Ok,
        args[0] == "call"@,
    ensures
        verb_of(args)->Ok_0 matches VerbView::Call { namespace, command, input, confirm } && {
            &&& verb_of(args + seq!["--confirm"@, raw]) == Ok::<VerbView, Seq<char>>(
                VerbView::Call { namespace, command, input, confirm: Some(raw) },
            )
            &&& match parsed_json(raw) {
                None => verb_of(args + seq!["--input"@, raw]) == Err::<VerbView, Seq<char>>(
                    "--input must be valid JSON"@,
                ),
                Some(JsonView::Object(e)) => verb_of(args + seq!["--input"@, raw]) == Ok::<
                    VerbView,
                    Seq<char>,
                >(VerbView::Call { namespace, command, input: JsonView::Object(e), confirm }),
                Some(_) => verb_of(args + seq!["--input"@, raw]) == Err::<VerbView, Seq<char>>(
                    "--input must be a JSON object"@,
                ),
            }
        },
{
    lemma_names_differ();
    lemma_flags_differ();
    let a = seq!["--confirm"@, raw];
    let b = seq!["--input"@, raw];
    let k = args.len() as int;
    let target = args[1];
    let (namespace, command) = call_target(target)->0;
    let empty = JsonView::Object(Seq::empty());
    assert((args + a)[0] == args[0] && (args + b)[0] == args[0]);
    assert((args + a)[1] == target && (args + b)[1] == target);
    assert((args + a)[k] == a[0] && (args + a)[k + 1] == a[1]);
    assert((args + b)[k] == b[0] && (args + b)[k + 1] == b[1]);
    lemma_call_goes_on(args, a, 2, namespace, command, empty, None);
    lemma_call_goes_on(args, b, 2, namespace, command, empty, None);
    reveal_with_fuel(call_from, 2);
}

/// Anything else behind good arguments of a verb with flags is refused with the flags that it has.
pub proof fn other_arguments_are_refused(args: Seq<Seq<char>>, other: Seq<char>)
    requires
        verb_of(args) is Ok,
    ensures
        args[0] == "best-matches"@ && other != "--limit"@ ==> verb_of(args + seq![other]) == Err::<
            VerbView,
            Seq<char>,
        >("unknown argument (expected: --limit)"@),
        args[0] == "found-jobs"@ && other != "--limit"@ && other != "--cursor"@ ==> verb_of(
            args + seq![other],
        ) == Err::<VerbView, Seq<char>>("unknown argument (expected: --limit, --cursor)"@),
        args[0] == "call"@ && other != "--input"@ && other != "--confirm"@ ==> verb_of(
            args + seq![other],
        ) == Err::<VerbView, Seq<char>>("unknown argument (expected: --input, --confirm)"@),
{
    lemma_names_differ();
    let more = seq![other];
    let k = args.len() as int;
    assert((args + more)[0] == args[0]);
    assert((args + more)[k] == other);
    if args[0] == "best-matches"@ {
        lemma_best_matches_goes_on(args, more, 1, None);
    } else if args[0] == "found-jobs"@ {
        assert((args + more)[1] == args[1]);
        lemma_found_jobs_goes_on(args, more, 2, args[1], None, None);
    } else if args[0] == "call"@ {
        assert((args + more)[1] == args[1]);
        let (namespace, command) = call_target(args[1])->0;
        lemma_call_goes_on(
            args,
            more,
            2,
            namespace,
            command,
            JsonView::Object(Seq::empty()),
            None,
        );
    }
}

/// What needs something to name is refused where it is missing or empty.
pub proof fn missing_operands_are_refused(args: Seq<Seq<char>>)
    requires
        args.len() > 0,
        args.len() == 1 || args[1].len() == 0,
    ensures
        args[0] == "job"@ ==> verb_of(args) == Err::<VerbView, Seq<char>>(
            "job requires a <url> argument"@,
        ),
        args[0] == "found-jobs"@ ==> verb_of(args) == Err::<VerbView, Seq<char>>(
            "found-jobs requires an <autopilotId> argument"@,
        ),
        args[0] == "call"@ ==> verb_of(args) == Err::<VerbView, Seq<char>>(
            "call requires a <namespace>:<command> argument"@,
        ),
{
    lemma_names_differ();
}

// ── The wire ────────────────────────────────────────────────────────────────

proof fn lemma_frame(kind: Seq<char>, req_id: Seq<char>, payload: JsonView)
    ensures
        framed(kind, req_id, payload).get("type"@) == Some(JsonView::Text(kind)),
        framed(kind, req_id, payload).get("reqId"@) == Some(JsonView::Text(req_id)),
        framed(kind, req_id, payload).get("payload"@) == Some(payload),
{
    reveal_strlit("type");
    reveal_strlit("reqId");
    reveal_strlit("payload");
    assert("type"@.len() == 4 && "reqId"@.len() == 5 && "payload"@.len() == 7);
    reveal_with_fuel(lookup, 4);
}

/// The greeting carries the version of the protocol and our nonce, and the frame that follows the
/// proof, each under its own name.
pub proof fn handshake_frames_carry_nonce_and_proof(nonce: Seq<char>, evidence: Seq<char>)
    ensures
        hello_frame(nonce).get("type"@) == Some(JsonView::Text("hello"@)),
        hello_frame(nonce).get("reqId"@) == Some(JsonView::Text("cli-hello"@)),
        auth_frame(evidence).get("reqId"@) == Some(JsonView::Text("cli-auth"@)),
        hello_frame(nonce).get("payload"@) is Some,
        hello_frame(nonce).get("payload"@)->0.get("protocol"@) == Some(JsonView::Int(2)),
        hello_frame(nonce).get("payload"@)->0.get("clientNonce"@) == Some(JsonView::Text(nonce)),
        auth_frame(evidence).get("type"@) == Some(JsonView::Text("auth"@)),
        auth_frame(evidence).get("payload"@) is Some,
        auth_frame(evidence).get("payload"@)->0.get("proof"@) == Some(JsonView::Text(evidence)),
{
    let hello = JsonView::Object(
        seq![
            crate::json::entry("protocol"@, JsonView::Int(2)),
            crate::json::entry("clientNonce"@, JsonView::Text(nonce)),
        ],
    );
    let auth = JsonView::Object(
        seq![crate::json::entry("proof"@, JsonView::Text(evidence))],
    );
    lemma_frame("hello"@, "cli-hello"@, hello);
    lemma_frame("auth"@, "cli-auth"@, auth);
    reveal_strlit("protocol");
    reveal_strlit("clientNonce");
    assert("protocol"@.len() == 8 && "clientNonce"@.len() == 11);
    reveal_with_fuel(lookup, 3);
}

/// A challenge is a frame of its type with a nonce in its payload, and the answer to our proof one
/// of its own type with a proof; what stands there is what is read, and nothing else is read.
pub proof fn handshake_answers_are_read(frame: JsonView, s: Seq<char>)
    ensures
        server_nonce_in(frame) == Some(s) <==> frame.get("type"@) == Some(
            JsonView::Text("challenge"@),
        ) && frame.get("payload"@) is Some && frame.get("payload"@)->0.get("serverNonce"@) == Some(
            JsonView::Text(s),
        ),
        proof_in(frame) == Some(s) <==> frame.get("type"@) == Some(JsonView::Text("auth.ok"@))
            && frame.get("payload"@) is Some && frame.get("payload"@)->0.get("serverProof"@)
            == Some(JsonView::Text(s)),
{
}

/// A message brings the frame that its text is. Bytes bring what the text that they encode would,
/// the end of the connection brings nothing, and a message that keeps it alive is waited over.
pub proof fn messages_bring_their_frame(text: String, bytes: Vec<u8>)
    ensures
        parsed_json(text@) matches Some(j) ==> received(Incoming::Text(text))
            == ReceivedView::Frame(j),
        parsed_json(text@) is None ==> received(Incoming::Text(text)) == ReceivedView::Nothing,
        vstd::utf8::valid_utf8(bytes@) && vstd::utf8::decode_utf8(bytes@) == text@ ==> received(
            Incoming::Binary(bytes),
        ) == received(Incoming::Text(text)),
        !vstd::utf8::valid_utf8(bytes@) ==> received(Incoming::Binary(bytes))
            == ReceivedView::Nothing,
        received(Incoming::Close) == ReceivedView::Nothing,
        received(Incoming::Control) == ReceivedView::WaitOn,
{
}

/// A question goes out as a call where it is one and as a query otherwise, with its id, and its
/// payload says each thing that the verb says under its own name. What the verb does not say is
/// not there.
pub proof fn questions_carry_what_the_verb_says(verb: VerbView, req_id: Seq<char>)
    ensures
        ({
            let frame = query_frame(verb, req_id);
            let payload = frame.get("payload"@)->0;
            &&& frame.get("reqId"@) == Some(JsonView::Text(req_id))
            &&& frame.get("payload"@) is Some
            &&& frame.get("type"@) == Some(
                JsonView::Text(
                    if verb is Call {
                        "agent.call"@
                    } else {
                        "agent.query"@
                    },
                ),
            )
            &&& match verb {
                VerbView::BestMatches { limit } => {
                    &&& payload.get("resource"@) == Some(JsonView::Text("best-matches"@))
                    &&& payload.get("limit"@) == (match limit {
                        Some(n) => Some(JsonView::Int(n as int)),
                        None => None,
                    })
                },
                VerbView::Job { url } => {
                    &&& payload.get("resource"@) == Some(JsonView::Text("job"@))
                    &&& payload.get("url"@) == Some(JsonView::Text(url))
                },
                VerbView::Profile => payload.get("resource"@) == Some(JsonView::Text("profile"@)),
                VerbView::Automations => payload.get("resource"@) == Some(
                    JsonView::Text("automations"@),
                ),
                VerbView::Schema => payload.get("resource"@) == Some(JsonView::Text("schema"@)),
                VerbView::FoundJobs { autopilot_id, limit, cursor } => {
                    &&& payload.get("resource"@) == Some(JsonView::Text("found-jobs"@))
                    &&& payload.get("autopilotId"@) == Some(JsonView::Text(autopilot_id))
                    &&& payload.get("limit"@) == (match limit {
                        Some(n) => Some(JsonView::Int(n as int)),
                        None => None,
                    })
                    &&& payload.get("cursor"@) == (match cursor {
                        Some(c) => Some(JsonView::Text(c)),
                        None => None,
                    })
                },
                VerbView::Call { namespace, command, input, confirm } => {
                    &&& payload.get("namespace"@) == Some(JsonView::Text(namespace))
                    &&& payload.get("command"@) == Some(JsonView::Text(command))
                    &&& payload.get("input"@) == Some(input)
                    &&& payload.get("confirm"@) == (match confirm {
                        Some(c) => Some(JsonView::Text(c)),
                        None => None,
                    })
                    &&& payload.get("resource"@) is None
                },
            }
        }),
{
    lemma_frame(wire_type_of(verb), req_id, JsonView::Object(verb.payload_entries()));
    reveal_strlit("resource");
    reveal_strlit("limit");
    reveal_strlit("url");
    reveal_strlit("autopilotId");
    reveal_strlit("cursor");
    reveal_strlit("namespace");
    reveal_strlit("command");
    reveal_strlit("input");
    reveal_strlit("confirm");
    assert("resource"@.len() == 8 && "limit"@.len() == 5 && "url"@.len() == 3
        && "autopilotId"@.len() == 11 && "cursor"@.len() == 6 && "namespace"@.len() == 9
        && "command"@.len() == 7 && "input"@.len() == 5 && "confirm"@.len() == 7);
    assert("limit"@[0] == 'l' && "input"@[0] == 'i');
    assert("command"@[2] == 'm' && "confirm"@[2] == 'n');
    reveal_with_fuel(lookup, 5);
}

/// An answer is a frame with the id of the question and the type for the verb; what it carries is
/// handed out. One that carries nothing is a lost connection. A frame that takes the token back
/// ends the wait whosever it is, any other frame with the id comes from an application that does
/// not know the verb, and all others are waited over.
pub proof fn frames_are_judged_by_id_and_type(verb: VerbView, req_id: Seq<char>, frame: JsonView)
    ensures
        ({
            let ours = frame.get("reqId"@) == Some(JsonView::Text(req_id));
            let kind = frame.get("type"@);
            let answer = kind == Some(
                JsonView::Text(
                    if verb is Call {
                        "agent.call.result"@
                    } else {
                        "agent.result"@
                    },
                ),
            );
            let taken_back = kind == Some(JsonView::Text("token.revoked"@));
            &&& ours && answer && frame.get("payload"@) is Some ==> verdict_on(verb, req_id, frame)
                == VerdictView::Reply(frame.get("payload"@)->0)
            &&& ours && answer && frame.get("payload"@) is None ==> verdict_on(verb, req_id, frame)
                == VerdictView::Fail("connection_lost"@)
            &&& !(ours && answer) && taken_back ==> verdict_on(verb, req_id, frame)
                == VerdictView::Fail("pairing_rejected"@)
            &&& ours && !answer && !taken_back ==> verdict_on(verb, req_id, frame)
                == VerdictView::Fail("unsupported_by_app"@)
            &&& !ours && !taken_back ==> verdict_on(verb, req_id, frame) == VerdictView::Ignore
        }),
{
}

// ── The end of an invocation ────────────────────────────────────────────────

/// Help is what the first argument asks for by any of its three names, the server mode by its own;
/// without arguments there is nothing to do, and otherwise the arguments say a verb or are wrong.
pub proof fn first_argument_says_what_to_do(args: Seq<Seq<char>>)
    ensures
        args.len() == 0 ==> launch_of(args) == LaunchView::Bare,
        args.len() > 0 ==> {
            let help = args[0] == "--help"@ || args[0] == "-h"@ || args[0] == "help"@;
            let server = args[0] == "mcp"@;
            &&& help ==> launch_of(args) == LaunchView::Help
            &&& server ==> launch_of(args) == LaunchView::Mcp
            &&& !help && !server ==> match verb_of(args) {
                Ok(verb) => launch_of(args) == LaunchView::Ask(verb),
                Err(detail) => launch_of(args) == LaunchView::Usage(detail),
            }
        },
{
    reveal_strlit("--help");
    reveal_strlit("-h");
    reveal_strlit("help");
    reveal_strlit("mcp");
    assert("--help"@.len() == 6 && "-h"@.len() == 2 && "help"@.len() == 4 && "mcp"@.len() == 3);
}

/// Help that was asked for is good and goes to the standard output, help for want of arguments is
/// a failure and goes to the errors, and wrong arguments are a failure that the standard output
/// explains. Where something is asked or served, nothing ends yet.
pub proof fn launches_end_by_what_they_ask(launch: LaunchView)
    ensures
        launch is Help ==> (ending_at_launch(launch) matches Some(e) && e.code == 0 && e.out is Some
            && e.err is None),
        launch is Bare ==> (ending_at_launch(launch) matches Some(e) && e.code == 2 && e.out is None
            && e.err == ending_at_launch(LaunchView::Help)->0.out),
        launch matches LaunchView::Usage(detail) ==> (ending_at_launch(launch) matches Some(e)
            && e.code == 2 && e.out == Some(json_text(usage_error(detail))) && e.err is None),
        launch is Mcp || launch is Ask ==> ending_at_launch(launch) is None,
{
}

/// What is printed of wrong arguments says that there is no answer, that the usage is wrong, and
/// what is wrong with it.
pub proof fn usage_errors_say_what_is_wrong(detail: Seq<char>)
    ensures
        usage_error(detail).get("ok"@) == Some(JsonView::Bool(false)),
        usage_error(detail).get("resource"@) == Some(JsonView::Null),
        usage_error(detail).get("error"@) == Some(JsonView::Text("usage"@)),
        usage_error(detail).get("detail"@) == Some(JsonView::Text(detail)),
{
    reveal_strlit("ok");
    reveal_strlit("resource");
    reveal_strlit("error");
    reveal_strlit("detail");
    assert("ok"@.len() == 2 && "resource"@.len() == 8 && "error"@.len() == 5 && "detail"@.len()
        == 6);
    reveal_with_fuel(lookup, 5);
}

/// What is printed where no answer came says so, names what was asked for where that is known, and
/// why.
pub proof fn missing_answers_say_why(resource: Option<Seq<char>>, why: Seq<char>)
    ensures
        cli_error(resource, why).get("ok"@) == Some(JsonView::Bool(false)),
        resource matches Some(name) ==> cli_error(resource, why).get("resource"@) == Some(
            JsonView::Text(name),
        ),
        resource is None ==> cli_error(resource, why).get("resource"@) == Some(JsonView::Null),
        cli_error(resource, why).get("error"@) == Some(JsonView::Text(why)),
{
    reveal_strlit("ok");
    reveal_strlit("resource");
    reveal_strlit("error");
    assert("ok"@.len() == 2 && "resource"@.len() == 8 && "error"@.len() == 5);
    reveal_with_fuel(lookup, 4);
}

/// A call ends with 4 where it wants a confirmation, else with 0 where it was dispatched and with
/// 2 where it was not; any other question ends with 0 where the answer is good and with 1 where it
/// is a refusal. The answer is printed as it is. Without an answer the end is 2, and what is
/// printed names what was asked for and why there is none.
pub proof fn answers_end_by_what_they_say(verb: VerbView, payload: JsonView, why: Seq<char>)
    ensures
        ({
            let unconfirmed = payload.get("error"@) == Some(
                JsonView::Text("confirmation_required"@),
            );
            let dispatched = payload.get("dispatched"@) == Some(JsonView::Bool(true));
            let good = payload.get("ok"@) == Some(JsonView::Bool(true));
            let e = ending_of(verb, Ok(payload));
            &&& verb is Call && unconfirmed ==> e.code == 4
            &&& verb is Call && !unconfirmed && dispatched ==> e.code == 0
            &&& verb is Call && !unconfirmed && !dispatched ==> e.code == 2
            &&& !(verb is Call) && good ==> e.code == 0
            &&& !(verb is Call) && !good ==> e.code == 1
            &&& e.code == exit_code(verb, payload)
            &&& e.out == Some(json_text(payload))
            &&& e.err is None
        }),
        ending_of(verb, Err(why)).code == 2,
        ending_of(verb, Err(why)).err is None,
        ending_of(verb, Err(why)).out == Some(
            json_text(cli_error(Some(verb.resource()), why)),
        ),
{
}

// ── The server mode ─────────────────────────────────────────────────────────

/// Either flag of a server allows what it names and what lies below: the higher flag alone allows
/// all, the lower alone what can be changed back, and neither reading alone.
pub proof fn flags_raise_the_tier(reversible: bool, irreversible: bool)
    ensures
        tier_of(reversible, irreversible) == Tier::Irreversible <==> irreversible,
        tier_of(reversible, irreversible) == Tier::Reversible <==> reversible && !irreversible,
        tier_of(reversible, irreversible) == Tier::Read <==> !reversible && !irreversible,
{
}

/// Each flag of a launch counts wherever it stands and however often, and anything else is refused.
pub proof fn flags_count_wherever_they_stand(args: Seq<Seq<char>>)
    ensures
        launch_args(args) is Ok <==> forall|i: int|
            0 <= i < args.len() ==> #[trigger] args[i] == "--help"@ || args[i]
                == "--allow-reversible"@ || args[i] == "--allow-irreversible"@,
        launch_args(args) matches Ok(asked) ==> {
            &&& asked.help <==> exists|i: int| 0 <= i < args.len() && #[trigger] args[i] == "--help"@
            &&& asked.allow_reversible <==> exists|i: int|
                0 <= i < args.len() && #[trigger] args[i] == "--allow-reversible"@
            &&& asked.allow_irreversible <==> exists|i: int|
                0 <= i < args.len() && #[trigger] args[i] == "--allow-irreversible"@
        },
{
}

/// A server offers what reads, whatever its tier.
pub proof fn servers_offer_what_reads(tier: Tier)
    ensures
        tools_of(tier).len() >= 7,
        tools_of(tier).contains("best-matches"@),
        tools_of(tier).contains("job"@),
        tools_of(tier).contains("profile"@),
        tools_of(tier).contains("automations"@),
        tools_of(tier).contains("found-jobs"@),
        tools_of(tier).contains("commands"@),
        tools_of(tier).contains("call-read"@),
{
    let t = tools_of(tier);
    assert(t[0] == "best-matches"@);
    assert(t[1] == "job"@);
    assert(t[2] == "profile"@);
    assert(t[3] == "automations"@);
    assert(t[4] == "found-jobs"@);
    assert(t[5] == "commands"@);
    assert(t[6] == "call-read"@);
}

/// The version that is answered is the one that was asked for where it is known, and otherwise the
/// newest.
pub proof fn known_versions_are_answered(params: JsonView)
    ensures
        match params.get("protocolVersion"@) {
            Some(JsonView::Text(v)) => {
                let known = v == "2025-11-25"@ || v == "2025-06-18"@ || v == "2025-03-26"@ || v
                    == "2024-11-05"@ || v == "2024-10-07"@;
                &&& known ==> version_for(params) == v
                &&& !known ==> version_for(params) == "2025-11-25"@
            },
            _ => version_for(params) == "2025-11-25"@,
        },
{
}

// ── Pairing ─────────────────────────────────────────────────────────────────

/// A handshake in which all goes well connects, greets, waits for the challenge, proves the token
/// to the nonce of the challenge, waits for the answer, checks the proof of the answer and accepts.
pub proof fn good_handshakes_are_accepted(nonce: Seq<char>, evidence: Seq<char>)
    ensures
        after_connect(true) == (PortPhase::Greet, PortStepView::SendHello),
        after_hello(true) == (PortPhase::Challenge, PortStepView::AwaitFrame),
        after_challenge(Some(nonce)) == (PortPhase::Prove, PortStepView::SendAuth(nonce)),
        after_auth(true) == (PortPhase::Answer, PortStepView::AwaitFrame),
        after_answer(Some(evidence)) == (PortPhase::Check, PortStepView::VerifyProof(evidence)),
        after_check(true) == (PortPhase::Over, PortStepView::Accept),
{
}

/// A handshake that goes wrong is over. A port that does not speak the protocol is none of ours;
/// what fails before the proof is sent says nothing of the token; what fails after it rejects it.
pub proof fn bad_handshakes_are_rejected()
    ensures
        after_connect(false) == (PortPhase::Over, PortStepView::Reject(PortOutcome::NoUpgrade)),
        after_hello(false) == (PortPhase::Over, PortStepView::Reject(PortOutcome::PreAuthError)),
        after_challenge(None) == (PortPhase::Over, PortStepView::Reject(PortOutcome::PreAuthError)),
        after_auth(false) == (PortPhase::Over, PortStepView::Reject(PortOutcome::PreAuthError)),
        after_answer(None) == (PortPhase::Over, PortStepView::Reject(PortOutcome::ProofRejected)),
        after_check(false) == (PortPhase::Over, PortStepView::Reject(PortOutcome::ProofRejected)),
{
}

/// The application is not running where no port spoke the protocol. Where one did, the pairing is
/// rejected only where no port failed before the token was tried; otherwise the connection is at
/// fault.
pub proof fn ports_together_say_why(outcomes: Seq<PortOutcome>)
    ensures
        ({
            let silent = forall|i: int|
                0 <= i < outcomes.len() ==> #[trigger] outcomes[i] == PortOutcome::NoUpgrade;
            let early = exists|i: int|
                0 <= i < outcomes.len() && #[trigger] outcomes[i] == PortOutcome::PreAuthError;
            &&& pairing_verdict(outcomes) == PairingFailure::AppNotRunning <==> silent
            &&& pairing_verdict(outcomes) == PairingFailure::ConnectionError <==> early
            &&& pairing_verdict(outcomes) == PairingFailure::PairingRejected <==> !silent && !early
        }),
{
}

/// The token of a file is its text without the white space round it, and there is none where
/// nothing is left. `r` is where it begins and ends.
pub proof fn token_is_the_text_without_white_ends(text: Seq<char>) -> (r: (int, int))
    ensures
        0 <= r.0 <= r.1 <= text.len(),
        forall|i: int| 0 <= i < r.0 ==> white(#[trigger] text[i]),
        forall|i: int| r.1 <= i < text.len() ==> white(#[trigger] text[i]),
        r.0 < r.1 ==> token_in(text) == Some(text.subrange(r.0, r.1)) && !white(text[r.0])
            && !white(text[r.1 - 1]),
        r.0 == r.1 ==> token_in(text) is None,
{
    trimming_cuts_off_white_ends(text)
}

/// A path names another machine exactly where it begins with two separators, in any mixture of the
/// two kinds.
pub proof fn hosts_are_named_by_two_separators(path: Seq<char>)
    ensures
        names_a_host(path) <==> path.len() >= 2 && (path[0] == '/' || path[0] == '\\') && (path[1]
            == '/' || path[1] == '\\'),
{
}

/// What stands behind a verb that takes nothing more, and behind the address of a posting, does
/// not count.
pub proof fn what_follows_a_plain_verb_does_not_count(args: Seq<Seq<char>>)
    requires
        args.len() > 0,
    ensures
        args[0] == "profile"@ ==> verb_of(args) == Ok::<VerbView, Seq<char>>(VerbView::Profile),
        args[0] == "automations"@ ==> verb_of(args) == Ok::<VerbView, Seq<char>>(
            VerbView::Automations,
        ),
        args[0] == "schema"@ ==> verb_of(args) == Ok::<VerbView, Seq<char>>(VerbView::Schema),
        args[0] == "job"@ && args.len() > 1 && args[1].len() > 0 ==> verb_of(args) == Ok::<
            VerbView,
            Seq<char>,
        >(VerbView::Job { url: args[1] }),
{
    lemma_names_differ();
}

} // verus!
