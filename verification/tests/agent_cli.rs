use job_hunter::agent_cli::help::{
    error_sentinels, help_text, ERR_APP_NOT_RUNNING, ERR_CONNECTION_ERROR, ERR_CONNECTION_LOST,
    ERR_PAIRING_REJECTED, ERR_TIMEOUT, ERR_UNSUPPORTED_BY_APP, ERR_USAGE,
};
use job_hunter::agent_cli::launch::{
    answer_ending, cli_error_value, exit_code_for_reply, is_help_request, is_mcp_mode,
    launch_ending, read_launch, usage_error_value, Launch,
};
use job_hunter::agent_cli::mcp::{
    negotiated_version, parse_launch_args, tool_names, LaunchArgs, Server, Tier, DEFAULT_VERSION,
};
use job_hunter::agent_cli::pairing::{
    classify_pairing_failure, is_local_path, is_safe_local_data_dir, pairing_failure_sentinel,
    pairing_token, read_pairing_token, token_in_dir, PairingFailure, PortAttempt, PortOutcome,
    PortSearch, PortStep,
};
use job_hunter::agent_cli::verb::{
    parse_verb, verb_names_joined, verb_table, Verb, MSG_AGENT_CALL, MSG_AGENT_CALL_RESULT,
    MSG_AGENT_QUERY, MSG_AGENT_RESULT,
};
use job_hunter::agent_cli::wire::{
    build_auth, build_hello, build_query, classify_frame, new_question, parse_auth_ok,
    parse_challenge, receive,
    silence_sentinel, FrameVerdict, Incoming, Received,
};
use job_hunter::json::Json;
use serde_json::Value;

fn s(v: &[&str]) -> Vec<String> {
    v.iter().map(|x| x.to_string()).collect()
}

fn json(text: &str) -> Json {
    Json::parse(text).expect("a JSON text")
}

fn value(j: &Json) -> Value {
    serde_json::from_str(&j.to_text()).expect("its own text is JSON")
}

// ── Reading the arguments ───────────────────────────────────────────────────

#[test]
fn parses_best_matches_with_no_flags() {
    assert_eq!(
        parse_verb(&s(&["best-matches"])).unwrap(),
        Verb::BestMatches { limit: None }
    );
}

#[test]
fn parses_best_matches_with_limit() {
    assert_eq!(
        parse_verb(&s(&["best-matches", "--limit", "5"])).unwrap(),
        Verb::BestMatches { limit: Some(5) }
    );
}

#[test]
fn rejects_a_non_numeric_limit() {
    assert!(parse_verb(&s(&["best-matches", "--limit", "abc"])).is_err());
}

#[test]
fn rejects_limit_missing_its_value() {
    assert!(parse_verb(&s(&["best-matches", "--limit"])).is_err());
}

#[test]
fn parses_job_with_url() {
    assert_eq!(
        parse_verb(&s(&["job", "https://example.com/1"])).unwrap(),
        Verb::Job {
            url: "https://example.com/1".to_string()
        }
    );
}

#[test]
fn rejects_job_without_a_url() {
    assert!(parse_verb(&s(&["job"])).is_err());
}

#[test]
fn parses_found_jobs_with_just_an_autopilot_id() {
    assert_eq!(
        parse_verb(&s(&["found-jobs", "ap-1"])).unwrap(),
        Verb::FoundJobs {
            autopilot_id: "ap-1".to_string(),
            limit: None,
            cursor: None,
        }
    );
}

#[test]
fn parses_found_jobs_with_limit_and_cursor() {
    assert_eq!(
        parse_verb(&s(&[
            "found-jobs",
            "ap-1",
            "--limit",
            "50",
            "--cursor",
            "100"
        ]))
        .unwrap(),
        Verb::FoundJobs {
            autopilot_id: "ap-1".to_string(),
            limit: Some(50),
            cursor: Some("100".to_string()),
        }
    );
}

#[test]
fn rejects_found_jobs_without_an_autopilot_id() {
    assert!(parse_verb(&s(&["found-jobs"])).is_err());
}

#[test]
fn rejects_found_jobs_non_numeric_limit() {
    assert!(parse_verb(&s(&["found-jobs", "ap-1", "--limit", "abc"])).is_err());
}

#[test]
fn parses_the_three_no_arg_verbs() {
    assert_eq!(parse_verb(&s(&["profile"])).unwrap(), Verb::Profile);
    assert_eq!(parse_verb(&s(&["automations"])).unwrap(), Verb::Automations);
    assert_eq!(parse_verb(&s(&["schema"])).unwrap(), Verb::Schema);
}

#[test]
fn rejects_an_unknown_verb() {
    assert!(parse_verb(&s(&["delete-everything"])).is_err());
}

#[test]
fn rejects_a_missing_verb() {
    assert!(parse_verb(&s(&[])).is_err());
}

#[test]
fn unknown_verb_error_never_echoes_the_typed_argv_token() {
    let leaky = r"C:\Users\alice\Desktop\secret-notes";
    let err = parse_verb(&s(&[leaky])).unwrap_err().to_string();
    assert!(
        !err.contains(leaky),
        "unknown-verb error must not echo argv: {err}"
    );
    assert!(
        err.contains("best-matches"),
        "must list the allowed verbs: {err}"
    );
}

#[test]
fn unknown_best_matches_flag_error_never_echoes_the_typed_argv_token() {
    let leaky = r"C:\Users\alice\Desktop\secret-notes";
    let err = parse_verb(&s(&["best-matches", leaky]))
        .unwrap_err()
        .to_string();
    assert!(
        !err.contains(leaky),
        "unknown-argument error must not echo argv: {err}"
    );
    assert!(
        err.contains("--limit"),
        "must name the flag this verb accepts: {err}"
    );
}

#[test]
fn parses_call_with_namespace_command_and_input() {
    assert_eq!(
        parse_verb(&s(&["call", "jobs:jobs_list", "--input", r#"{"a":1}"#])).unwrap(),
        Verb::Call {
            namespace: "jobs".to_string(),
            command: "jobs_list".to_string(),
            input: json(r#"{ "a": 1 }"#),
            confirm: None,
        }
    );
}

#[test]
fn parses_call_without_input_as_an_empty_object() {
    assert_eq!(
        parse_verb(&s(&["call", "jobs:jobs_list"])).unwrap(),
        Verb::Call {
            namespace: "jobs".to_string(),
            command: "jobs_list".to_string(),
            input: json("{}"),
            confirm: None,
        }
    );
}

#[test]
fn parses_call_with_confirm() {
    assert_eq!(
        parse_verb(&s(&[
            "call",
            "documents:documents_remove",
            "--confirm",
            "Resume A"
        ]))
        .unwrap(),
        Verb::Call {
            namespace: "documents".to_string(),
            command: "documents_remove".to_string(),
            input: json("{}"),
            confirm: Some("Resume A".to_string()),
        }
    );
}

#[test]
fn parses_call_with_both_input_and_confirm_in_either_order() {
    let forward = parse_verb(&s(&[
        "call",
        "documents:documents_remove",
        "--input",
        r#"{"id":"doc-1"}"#,
        "--confirm",
        "Resume A",
    ]))
    .unwrap();
    let backward = parse_verb(&s(&[
        "call",
        "documents:documents_remove",
        "--confirm",
        "Resume A",
        "--input",
        r#"{"id":"doc-1"}"#,
    ]))
    .unwrap();
    assert_eq!(forward, backward);
    assert_eq!(
        forward,
        Verb::Call {
            namespace: "documents".to_string(),
            command: "documents_remove".to_string(),
            input: json(r#"{ "id": "doc-1" }"#),
            confirm: Some("Resume A".to_string()),
        }
    );
}

#[test]
fn rejects_confirm_missing_its_value() {
    assert!(parse_verb(&s(&["call", "jobs:jobs_list", "--confirm"])).is_err());
}

#[test]
fn confirm_error_never_echoes_the_typed_value() {
    let leaky = r"C:\Users\alice\Desktop\secret-notes";
    let err = parse_verb(&s(&[
        "call",
        "jobs:jobs_list",
        "--confirm",
        leaky,
        "--bogus",
    ]))
    .unwrap_err()
    .to_string();
    assert!(!err.contains(leaky), "must not echo --confirm: {err}");
}

#[test]
fn rejects_call_missing_the_namespace_command_token() {
    assert!(parse_verb(&s(&["call"])).is_err());
}

#[test]
fn rejects_call_target_missing_a_colon() {
    assert!(parse_verb(&s(&["call", "jobs_list"])).is_err());
}

#[test]
fn rejects_call_target_with_an_empty_namespace_or_command() {
    assert!(parse_verb(&s(&["call", ":jobs_list"])).is_err());
    assert!(parse_verb(&s(&["call", "jobs:"])).is_err());
}

#[test]
fn rejects_call_input_that_is_not_valid_json() {
    let err = parse_verb(&s(&["call", "jobs:jobs_list", "--input", "{not json"]))
        .unwrap_err()
        .to_string();
    assert!(err.contains("valid JSON"));
}

#[test]
fn rejects_call_input_that_is_not_a_json_object() {
    assert!(parse_verb(&s(&["call", "jobs:jobs_list", "--input", "[1,2]"])).is_err());
    assert!(parse_verb(&s(&["call", "jobs:jobs_list", "--input", "\"x\""])).is_err());
}

#[test]
fn call_input_error_never_echoes_the_typed_value() {
    let leaky = r#"{"path":"C:\Users\alice\Desktop\secret"NOTJSON"#;
    let err = parse_verb(&s(&["call", "jobs:jobs_list", "--input", leaky]))
        .unwrap_err()
        .to_string();
    assert!(!err.contains("alice"), "must not echo --input: {err}");
}

#[test]
fn call_verb_sends_the_agent_call_wire_type_and_expects_its_own_reply_type() {
    let verb = Verb::Call {
        namespace: "jobs".to_string(),
        command: "jobs_list".to_string(),
        input: json("{}"),
        confirm: None,
    };
    assert_eq!(verb.wire_type(), MSG_AGENT_CALL);
    assert_eq!(verb.reply_type(), MSG_AGENT_CALL_RESULT);
    assert_eq!(verb.resource_name(), "call");
    let payload = value(&verb.payload());
    assert_eq!(payload["namespace"], "jobs");
    assert_eq!(payload["command"], "jobs_list");
    assert_eq!(payload["input"], value(&json("{}")));
    assert!(
        payload.get("confirm").is_none(),
        "confirm must be absent from the payload when not supplied, not null"
    );
}

#[test]
fn call_verb_payload_carries_confirm_only_when_supplied() {
    let verb = Verb::Call {
        namespace: "documents".to_string(),
        command: "documents_remove".to_string(),
        input: json(r#"{ "id": "doc-1" }"#),
        confirm: Some("Resume A".to_string()),
    };
    assert_eq!(value(&verb.payload())["confirm"], "Resume A");
}

#[test]
fn curated_verbs_still_send_agent_query_and_expect_agent_result() {
    assert_eq!(Verb::Schema.wire_type(), MSG_AGENT_QUERY);
    assert_eq!(Verb::Schema.reply_type(), MSG_AGENT_RESULT);
}

#[test]
fn exit_code_for_reply_reads_dispatched_for_call_and_ok_for_every_other_verb() {
    let call = Verb::Call {
        namespace: "jobs".to_string(),
        command: "jobs_list".to_string(),
        input: json("{}"),
        confirm: None,
    };
    assert_eq!(
        exit_code_for_reply(&call, &json(r#"{ "dispatched": true }"#)),
        0
    );
    assert_eq!(
        exit_code_for_reply(&call, &json(r#"{ "dispatched": false }"#)),
        2,
        "a call refusal is exit 2, never exit 1"
    );
    assert_eq!(
        exit_code_for_reply(&Verb::Schema, &json(r#"{ "ok": true }"#)),
        0
    );
    assert_eq!(
        exit_code_for_reply(&Verb::Schema, &json(r#"{ "ok": false }"#)),
        1
    );
}
#[test]
fn exit_code_for_reply_reports_4_for_confirmation_required_and_2_for_every_other_refusal() {
    let call = Verb::Call {
        namespace: "documents".to_string(),
        command: "documents_remove".to_string(),
        input: json("{}"),
        confirm: None,
    };
    assert_eq!(
        exit_code_for_reply(
            &call,
            &json(r#"{ "dispatched": false, "error": "confirmation_required" }"#),
        ),
        4
    );
    for other_error in [
        "confirmation_mismatch",
        "proof_unavailable",
        "unknown_command",
    ] {
        assert_eq!(
            exit_code_for_reply(
                &call,
                &json(&format!(r#"{{ "dispatched": false, "error": "{other_error}" }}"#)),
            ),
            2,
            "{other_error} must stay exit 2, not be confused with confirmation_required"
        );
    }
}

#[test]
fn verb_table_names_match_a_hand_written_literal_list() {
    let table = verb_table();
    let mut names: Vec<&str> = table.iter().map(|v| v.name).collect();
    names.sort_unstable();
    assert_eq!(
        names,
        vec![
            "automations",
            "best-matches",
            "call",
            "found-jobs",
            "job",
            "profile",
            "schema"
        ]
    );
}
#[test]
fn every_verb_in_the_table_is_parseable_with_its_minimal_args() {
    for v in verb_table() {
        let args: Vec<String> = match v.name {
            "job" => s(&["job", "https://example.com/1"]),
            "found-jobs" => s(&["found-jobs", "ap-1"]),
            "call" => s(&["call", "jobs:jobs_list"]),
            other => s(&[other]),
        };
        assert!(
            parse_verb(&args).is_ok(),
            "verb `{}` listed in VERB_TABLE must parse",
            v.name
        );
    }
}
#[test]
fn help_text_names_every_verb_in_the_table() {
    let text = help_text();
    for v in verb_table() {
        assert!(
            text.contains(v.name),
            "help text is missing verb `{}`: {text}",
            v.name
        );
    }
    assert!(text.contains("--help"));
    assert!(text.contains("EXIT CODES"));
}

#[test]
fn help_text_lists_every_error_sentinel_this_cli_can_emit() {
    let text = help_text();
    for row in error_sentinels() {
        let sentinel = row.sentinel;
        assert!(
            text.contains(sentinel),
            "help text is missing sentinel `{sentinel}`: {text}"
        );
    }
}

#[test]
fn is_help_request_recognizes_help_h_and_bare_help_verb() {
    assert!(is_help_request(&s(&["--help"])));
    assert!(is_help_request(&s(&["-h"])));
    assert!(is_help_request(&s(&["help"])));
    assert!(is_help_request(&s(&["--help", "job"])));
    assert!(!is_help_request(&s(&["job", "--help"])));
    assert!(!is_help_request(&s(&["best-matches"])));
    assert!(!is_help_request(&s(&[])));
}

#[test]
fn help_text_mentions_the_mcp_mode() {
    assert!(help_text().contains("mcp"));
}

#[test]
fn help_text_indents_the_mcp_row_like_every_verb_row() {
    let text = help_text();
    let mcp_line = text
        .lines()
        .find(|l| l.trim_start().starts_with("mcp "))
        .expect("must have an mcp row");
    assert!(
        mcp_line.starts_with("  mcp "),
        "the mcp row must be indented like every verb row: {mcp_line:?}"
    );
}

#[test]
fn is_mcp_mode_matches_only_the_exact_first_token() {
    assert!(is_mcp_mode(&s(&["mcp"])));
    assert!(is_mcp_mode(&s(&["mcp", "--allow-irreversible"])));
    assert!(!is_mcp_mode(&s(&["mcpx"])));
    assert!(!is_mcp_mode(&s(&["MCP"])));
    assert!(!is_mcp_mode(&s(&["--help", "mcp"])));
    assert!(!is_mcp_mode(&s(&[])));
}

#[test]
fn help_wins_over_mcp_when_help_is_the_first_token() {
    assert!(is_help_request(&s(&["--help", "mcp"])));
    assert!(!is_mcp_mode(&s(&["--help", "mcp"])));
}

#[test]
fn usage_error_value_carries_a_null_resource_key_like_every_other_exit_2_reply() {
    let v = value(&usage_error_value("unknown verb (run `ajh-tauri agent --help`)"));
    assert!(
        v.get("resource").is_some(),
        "usage-error JSON must carry a `resource` key (null is fine): {v}"
    );
    assert!(v["resource"].is_null());
    assert_eq!(v["ok"], false);
    assert_eq!(v["error"], ERR_USAGE);
}

#[test]
fn payload_carries_the_wire_resource_name() {
    assert_eq!(value(&Verb::Schema.payload())["resource"], "schema");
    assert_eq!(
        value(&Verb::Job { url: "https://x.example.com".to_string() }.payload())["url"],
        "https://x.example.com"
    );
    let with_limit = value(&Verb::BestMatches { limit: Some(7) }.payload());
    assert_eq!(with_limit["limit"], 7);
    let without_limit = value(&Verb::BestMatches { limit: None }.payload());
    assert!(without_limit.get("limit").is_none());
}

#[test]
fn all_ports_absent_is_app_not_running() {
    assert_eq!(
        classify_pairing_failure(&[PortOutcome::NoUpgrade, PortOutcome::NoUpgrade]),
        PairingFailure::AppNotRunning
    );
    assert_eq!(classify_pairing_failure(&[]), PairingFailure::AppNotRunning);
}

#[test]
fn every_reachable_port_rejecting_the_proof_is_pairing_rejected() {
    assert_eq!(
        classify_pairing_failure(&[PortOutcome::NoUpgrade, PortOutcome::ProofRejected]),
        PairingFailure::PairingRejected
    );
}

#[test]
fn any_pre_auth_error_is_connection_error_not_pairing_rejected() {
    assert_eq!(
        classify_pairing_failure(&[PortOutcome::PreAuthError, PortOutcome::ProofRejected]),
        PairingFailure::ConnectionError
    );
    assert_eq!(
        classify_pairing_failure(&[PortOutcome::PreAuthError]),
        PairingFailure::ConnectionError
    );
}

#[test]
fn failures_have_their_own_errors() {
    assert_eq!(pairing_failure_sentinel(PairingFailure::AppNotRunning), ERR_APP_NOT_RUNNING);
    assert_eq!(pairing_failure_sentinel(PairingFailure::PairingRejected), ERR_PAIRING_REJECTED);
    assert_eq!(pairing_failure_sentinel(PairingFailure::ConnectionError), ERR_CONNECTION_ERROR);
}

#[test]
fn ports_are_tried_in_their_order() {
    let mut search = PortSearch::new(vec![7001, 7002]);
    assert_eq!(search.next_port(), Some(7001));
    search.rejected(PortOutcome::NoUpgrade);
    assert_eq!(search.next_port(), Some(7002));
    search.rejected(PortOutcome::ProofRejected);
    assert_eq!(search.next_port(), None);
    assert_eq!(search.failure(), PairingFailure::PairingRejected);
}

#[test]
fn verb_names_are_joined_in_the_order_of_the_table() {
    assert_eq!(
        verb_names_joined(),
        "best-matches|job|profile|automations|schema|found-jobs|call"
    );
}

// ── The frames ──────────────────────────────────────────────────────────────

fn hex_nonce(nonce: &str) -> bool {
    nonce.len() == 4 && nonce.chars().all(|c| c.is_ascii_hexdigit())
}

#[test]
fn greeting_and_proof_have_their_frames() {
    let hello: Value = serde_json::from_str(&build_hello("abc")).unwrap();
    assert_eq!(hello["type"], "hello");
    assert_eq!(hello["reqId"], "cli-hello");
    assert_eq!(hello["payload"]["protocol"], 2);
    assert_eq!(hello["payload"]["clientNonce"], "abc");
    let auth: Value = serde_json::from_str(&build_auth("p")).unwrap();
    assert_eq!(auth["type"], "auth");
    assert_eq!(auth["reqId"], "cli-auth");
    assert_eq!(auth["payload"]["proof"], "p");
}

#[test]
fn challenge_and_answer_are_read() {
    let challenge = json(r#"{ "type": "challenge", "payload": { "serverNonce": "00ff" } }"#);
    assert_eq!(parse_challenge(&challenge, &hex_nonce), Some("00ff".to_string()));
    let bad = json(r#"{ "type": "challenge", "payload": { "serverNonce": "nope!" } }"#);
    assert_eq!(parse_challenge(&bad, &hex_nonce), None);
    let other = json(r#"{ "type": "auth.ok", "payload": { "serverNonce": "00ff" } }"#);
    assert_eq!(parse_challenge(&other, &hex_nonce), None);
    let answer = json(r#"{ "type": "auth.ok", "payload": { "serverProof": "sp" } }"#);
    assert_eq!(parse_auth_ok(&answer), Some("sp".to_string()));
    assert_eq!(parse_auth_ok(&challenge), None);
    assert_eq!(parse_auth_ok(&json(r#"{ "type": "auth.ok", "payload": {} }"#)), None);
    assert_eq!(parse_auth_ok(&json(r#"{ "type": "auth.ok" }"#)), None);
}

#[test]
fn messages_bring_frames() {
    assert_eq!(
        receive(Incoming::Text(r#"{"a":1}"#.to_string())),
        Received::Frame(json(r#"{"a":1}"#))
    );
    assert_eq!(receive(Incoming::Binary(b"[true]".to_vec())), Received::Frame(json("[true]")));
    assert_eq!(receive(Incoming::Text("not json".to_string())), Received::Nothing);
    assert_eq!(receive(Incoming::Binary(vec![0xff, 0xfe])), Received::Nothing);
    assert_eq!(receive(Incoming::Close), Received::Nothing);
    assert_eq!(receive(Incoming::Control), Received::WaitOn);
}

#[test]
fn question_carries_its_id_and_its_payload() {
    let verb = Verb::Job { url: "https://x.example".to_string() };
    let frame: Value = serde_json::from_str(&build_query(&verb, "r-1")).unwrap();
    assert_eq!(frame["type"], "agent.query");
    assert_eq!(frame["reqId"], "r-1");
    assert_eq!(frame["payload"]["resource"], "job");
    assert_eq!(frame["payload"]["url"], "https://x.example");
}

#[test]
fn frames_are_told_apart() {
    let verdict = |text: &str| classify_frame(&Verb::Schema, "r-1", &json(text));
    assert_eq!(
        verdict(r#"{ "type": "agent.result", "reqId": "r-1", "payload": { "ok": true } }"#),
        FrameVerdict::Reply(json(r#"{ "ok": true }"#))
    );
    assert_eq!(
        verdict(r#"{ "type": "agent.result", "reqId": "r-1" }"#),
        FrameVerdict::Fail(ERR_CONNECTION_LOST)
    );
    assert_eq!(
        verdict(r#"{ "type": "agent.result", "reqId": "r-2", "payload": {} }"#),
        FrameVerdict::Ignore
    );
    assert_eq!(
        verdict(r#"{ "type": "token.revoked" }"#),
        FrameVerdict::Fail(ERR_PAIRING_REJECTED)
    );
    assert_eq!(
        verdict(
            r#"{ "type": "import.result", "reqId": "r-1", "payload": { "error": "unknown message type 'agent.query'" } }"#
        ),
        FrameVerdict::Fail(ERR_UNSUPPORTED_BY_APP)
    );
    assert_eq!(verdict(r#"{ "reqId": "r-1" }"#), FrameVerdict::Fail(ERR_UNSUPPORTED_BY_APP));
    assert_eq!(verdict(r#"{ "type": "pulse" }"#), FrameVerdict::Ignore);
    let call = Verb::Call {
        namespace: "jobs".to_string(),
        command: "jobs_list".to_string(),
        input: json("{}"),
        confirm: None,
    };
    assert_eq!(
        classify_frame(&call, "r-1", &json(r#"{ "type": "agent.result", "reqId": "r-1" }"#)),
        FrameVerdict::Fail(ERR_UNSUPPORTED_BY_APP)
    );
    assert_eq!(silence_sentinel(true), ERR_TIMEOUT);
    assert_eq!(silence_sentinel(false), ERR_CONNECTION_LOST);
}

#[test]
fn a_port_is_accepted_only_with_its_proof() {
    let challenge = json(r#"{ "type": "challenge", "payload": { "serverNonce": "00ff" } }"#);
    let answer = json(r#"{ "type": "auth.ok", "payload": { "serverProof": "sp" } }"#);
    let mut attempt = PortAttempt::new();
    assert_eq!(attempt.connected(true), PortStep::SendHello);
    assert_eq!(attempt.hello_sent(true), PortStep::AwaitFrame);
    assert_eq!(
        attempt.challenged(Some(&challenge), &hex_nonce),
        PortStep::SendAuth("00ff".to_string())
    );
    assert_eq!(attempt.auth_sent(true), PortStep::AwaitFrame);
    assert_eq!(attempt.answered(Some(&answer)), PortStep::VerifyProof("sp".to_string()));
    assert_eq!(attempt.checked(true), PortStep::Accept);
}

#[test]
fn each_step_of_a_handshake_can_fail() {
    let challenge = json(r#"{ "type": "challenge", "payload": { "serverNonce": "00ff" } }"#);
    let answer = json(r#"{ "type": "auth.ok", "payload": { "serverProof": "sp" } }"#);
    let up_to = |steps: usize| {
        let mut attempt = PortAttempt::new();
        if steps > 0 {
            attempt.connected(true);
        }
        if steps > 1 {
            attempt.hello_sent(true);
        }
        if steps > 2 {
            attempt.challenged(Some(&challenge), &hex_nonce);
        }
        if steps > 3 {
            attempt.auth_sent(true);
        }
        if steps > 4 {
            attempt.answered(Some(&answer));
        }
        attempt
    };
    assert_eq!(up_to(0).connected(false), PortStep::Reject(PortOutcome::NoUpgrade));
    assert_eq!(up_to(1).hello_sent(false), PortStep::Reject(PortOutcome::PreAuthError));
    assert_eq!(
        up_to(2).challenged(None, &hex_nonce),
        PortStep::Reject(PortOutcome::PreAuthError)
    );
    assert_eq!(
        up_to(2).challenged(Some(&answer), &hex_nonce),
        PortStep::Reject(PortOutcome::PreAuthError)
    );
    assert_eq!(up_to(3).auth_sent(false), PortStep::Reject(PortOutcome::PreAuthError));
    assert_eq!(up_to(4).answered(None), PortStep::Reject(PortOutcome::ProofRejected));
    assert_eq!(up_to(4).answered(Some(&challenge)), PortStep::Reject(PortOutcome::ProofRejected));
    assert_eq!(up_to(5).checked(false), PortStep::Reject(PortOutcome::ProofRejected));
}

// ── The data directory and the token ────────────────────────────────────────

#[test]
fn read_pairing_token_trims_and_rejects_empty() {
    let with = |text: &'static str| move |_dir: &str| -> Option<String> { Some(text.to_string()) };
    assert_eq!(
        read_pairing_token("/data/app", &with("  abc123  \n")),
        Some("abc123".to_string())
    );
    assert_eq!(read_pairing_token("/data/app", &with("   \n")), None);
    let missing = |_dir: &str| -> Option<String> { None };
    assert_eq!(read_pairing_token("/data/app", &missing), None);
}

#[test]
fn rejects_unc_and_double_slash_data_dirs() {
    assert!(!is_safe_local_data_dir(r"\\attacker.example.com\share"));
    assert!(!is_safe_local_data_dir("//attacker.example.com/share"));
    assert!(!is_safe_local_data_dir(r"\\attacker.example.com/share"));
}

#[test]
fn rejects_a_unc_data_dir_with_mixed_leading_separators() {
    assert!(!is_safe_local_data_dir(r"\/attacker.example.com\share"));
    assert!(!is_safe_local_data_dir(r"/\attacker.example.com/share"));
}

#[test]
fn rejects_a_relative_data_dir() {
    assert!(!is_safe_local_data_dir("relative/path"));
    assert!(!is_safe_local_data_dir(""));
}

#[test]
fn accepts_a_normal_absolute_local_path() {
    assert!(is_safe_local_data_dir("/tmp/app-data"));
    assert!(is_local_path("/tmp/app-data", true));
    assert!(!is_local_path("/tmp/app-data", false));
}

#[test]
fn read_pairing_token_never_touches_the_filesystem_for_a_unc_data_dir() {
    let untouched = |_dir: &str| -> Option<String> { panic!("nothing may be read") };
    assert_eq!(read_pairing_token(r"\\attacker.example.com\share", &untouched), None);
    assert_eq!(read_pairing_token("relative/path", &untouched), None);
    assert_eq!(read_pairing_token("", &untouched), None);
    assert_eq!(token_in_dir("/data/app", false, &untouched), None);
}

#[test]
fn tokens_are_the_text_of_their_file() {
    assert_eq!(pairing_token(" t\n"), Some("t".to_string()));
    assert_eq!(pairing_token(""), None);
    let read = |dir: &str| -> Option<String> { Some(format!("token of {dir}")) };
    assert_eq!(token_in_dir("/data/app", true, &read), Some("token of /data/app".to_string()));
}

// ── How an invocation begins and ends ───────────────────────────────────────

#[test]
fn arguments_decide_what_is_done() {
    assert_eq!(read_launch(&s(&["--help", "mcp"])), Launch::Help);
    assert_eq!(read_launch(&s(&["mcp", "--help"])), Launch::Mcp);
    assert_eq!(read_launch(&s(&[])), Launch::Bare);
    assert_eq!(read_launch(&s(&["schema"])), Launch::Ask(Verb::Schema));
    assert!(matches!(read_launch(&s(&["nonsense"])), Launch::Usage(_)));
}

#[test]
fn invocations_without_a_question_end_at_once() {
    let help = launch_ending(&Launch::Help).unwrap();
    assert_eq!((help.out, help.err, help.code), (Some(help_text()), None, 0));
    let bare = launch_ending(&Launch::Bare).unwrap();
    assert_eq!((bare.out, bare.err, bare.code), (None, Some(help_text()), 2));
    let usage = launch_ending(&read_launch(&s(&["nonsense"]))).unwrap();
    assert_eq!(usage.code, 2);
    let printed: Value = serde_json::from_str(&usage.out.unwrap()).unwrap();
    assert_eq!(printed["error"], "usage");
    assert!(printed["resource"].is_null());
    assert!(launch_ending(&Launch::Mcp).is_none());
    assert!(launch_ending(&Launch::Ask(Verb::Schema)).is_none());
}

#[test]
fn answers_and_failures_are_printed_with_their_code() {
    let good = answer_ending(&Verb::Schema, &Ok(json(r#"{ "ok": true }"#)));
    assert_eq!((good.out.as_deref(), good.code), (Some(r#"{"ok":true}"#), 0));
    let refused = answer_ending(&Verb::Schema, &Ok(json(r#"{ "ok": false }"#)));
    assert_eq!(refused.code, 1);
    let failed = answer_ending(&Verb::Schema, &Err(ERR_TIMEOUT));
    assert_eq!((failed.err, failed.code), (None, 2));
    let printed: Value = serde_json::from_str(&failed.out.unwrap()).unwrap();
    assert_eq!(printed["ok"], false);
    assert_eq!(printed["resource"], "schema");
    assert_eq!(printed["error"], "timeout");
    assert!(value(&cli_error_value(None, "x"))["resource"].is_null());
}

#[test]
fn an_answer_without_its_truth_field_is_no_success() {
    assert_eq!(exit_code_for_reply(&Verb::Profile, &json("{}")), 1);
    assert_eq!(exit_code_for_reply(&Verb::Profile, &json(r#"{ "ok": "true" }"#)), 1);
    assert_eq!(exit_code_for_reply(&Verb::Profile, &json("[]")), 1);
}

// ── The server mode ─────────────────────────────────────────────────────────

fn names(list: &[&'static str]) -> Vec<&'static str> {
    let mut n: Vec<&'static str> = list.to_vec();
    n.sort_unstable();
    n
}

#[test]
fn an_unsupported_protocol_version_falls_back_to_the_default() {
    let params = json(r#"{ "protocolVersion": "2099-01-01" }"#);
    assert_eq!(negotiated_version(&params), DEFAULT_VERSION);
}

#[test]
fn every_supported_older_version_is_echoed_back_verbatim() {
    for v in ["2025-11-25", "2025-06-18", "2025-03-26", "2024-11-05", "2024-10-07"] {
        let params = json(&format!(r#"{{ "protocolVersion": "{v}" }}"#));
        assert_eq!(negotiated_version(&params), v, "must echo {v}");
    }
}

#[test]
fn a_missing_protocol_version_answers_the_default() {
    assert_eq!(negotiated_version(&json("{}")), DEFAULT_VERSION);
}

#[test]
fn initialize_never_names_2026_07_28() {
    for v in ["2025-11-25", "unknown-future-version"] {
        let params = json(&format!(r#"{{ "protocolVersion": "{v}" }}"#));
        assert_ne!(negotiated_version(&params), "2026-07-28");
    }
}

#[test]
fn tier_irreversible_always_implies_reversible() {
    assert!(Tier::Irreversible.allows_reversible());
    assert!(Tier::Reversible.allows_reversible());
    assert!(!Tier::Read.allows_reversible());
    assert!(Tier::Irreversible.allows_irreversible());
    assert!(!Tier::Reversible.allows_irreversible());
    assert!(!Tier::Read.allows_irreversible());
}

#[test]
fn from_flags_resolves_every_combination_including_irreversible_alone() {
    assert_eq!(Tier::from_flags(false, false), Tier::Read);
    assert_eq!(Tier::from_flags(true, false), Tier::Reversible);
    assert_eq!(Tier::from_flags(false, true), Tier::Irreversible);
    assert_eq!(Tier::from_flags(true, true), Tier::Irreversible);
}

#[test]
fn server_new_false_true_still_resolves_the_full_irreversible_tier() {
    let server = Server::new(false, true);
    assert_eq!(server.tier, Tier::Irreversible);
    assert_eq!(
        names(&server.tools),
        vec![
            "automations",
            "best-matches",
            "call-irreversible",
            "call-read",
            "call-reversible",
            "commands",
            "found-jobs",
            "job",
            "profile",
        ]
    );
}

#[test]
fn tool_names_by_launch_mode_match_hand_written_literal_lists() {
    assert_eq!(
        names(&tool_names(Tier::Read)),
        vec![
            "automations",
            "best-matches",
            "call-read",
            "commands",
            "found-jobs",
            "job",
            "profile"
        ],
        "default server (no flags) must be read tier + commands only"
    );
    assert_eq!(
        names(&tool_names(Tier::Reversible)),
        vec![
            "automations",
            "best-matches",
            "call-read",
            "call-reversible",
            "commands",
            "found-jobs",
            "job",
            "profile",
        ],
        "--allow-reversible must add exactly call-reversible"
    );
    assert_eq!(
        names(&tool_names(Tier::Irreversible)),
        vec![
            "automations",
            "best-matches",
            "call-irreversible",
            "call-read",
            "call-reversible",
            "commands",
            "found-jobs",
            "job",
            "profile",
        ],
        "--allow-irreversible must add call-irreversible on top of call-reversible"
    );
}

#[test]
fn parse_launch_args_accepts_any_subset_of_the_two_flags_in_any_order() {
    assert_eq!(parse_launch_args(&[]).unwrap(), LaunchArgs::default());
    assert_eq!(
        parse_launch_args(&s(&["--allow-reversible"])).unwrap(),
        LaunchArgs { help: false, allow_reversible: true, allow_irreversible: false }
    );
    assert_eq!(
        parse_launch_args(&s(&["--allow-irreversible", "--allow-reversible"])).unwrap(),
        LaunchArgs { help: false, allow_reversible: true, allow_irreversible: true },
        "order must not matter"
    );
}

#[test]
fn parse_launch_args_accepts_help_anywhere_and_rejects_anything_else() {
    assert!(parse_launch_args(&s(&["--help"])).unwrap().help);
    assert!(parse_launch_args(&s(&["--allow-reversible", "--help"])).unwrap().help);
    assert!(parse_launch_args(&s(&["not-a-flag"])).is_err());
    assert!(parse_launch_args(&s(&["--allow-reversible", "typo"])).is_err());
}

#[test]
fn each_question_has_an_id_of_its_own() {
    let verb = parse_verb(&["automations".to_string()]).expect("a verb");
    let first = new_question(&verb);
    let second = new_question(&verb);
    assert_ne!(first.req_id, second.req_id);
    assert_eq!(first.req_id.chars().count(), 36);
    assert_eq!(first.frame, build_query(&verb, &first.req_id));
    let frame: Value = serde_json::from_str(&first.frame).expect("a JSON text");
    assert_eq!(frame["reqId"], first.req_id.as_str());
}
