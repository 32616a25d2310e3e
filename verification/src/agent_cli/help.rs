//! The help text and the errors that it lists.
use vstd::prelude::*;
use vstd::string::StringExecFns;

use crate::agent_cli::verb::{help_rows, verb_rows, verb_table, HelpRow, VerbHelp};
use crate::text::{chars_of, occurs, occurs_at, owned};

verus! {

// ── Errors ──────────────────────────────────────────────────────────────────

/// The application has not said yet where its data is.
pub const ERR_APP_NOT_LOCATED: &'static str = "app_not_located";

/// There is no pairing token.
pub const ERR_PAIRING_TOKEN_UNAVAILABLE: &'static str = "pairing_token_unavailable";

/// No port answered.
pub const ERR_APP_NOT_RUNNING: &'static str = "app_not_running";

/// The token was rejected.
pub const ERR_PAIRING_REJECTED: &'static str = "pairing_rejected";

/// A handshake failed before the token was tried.
pub const ERR_CONNECTION_ERROR: &'static str = "connection_error";

/// No runtime could be started.
pub const ERR_RUNTIME_UNAVAILABLE: &'static str = "runtime_unavailable";

/// The connection broke off.
pub const ERR_CONNECTION_LOST: &'static str = "connection_lost";

/// No answer came in time.
pub const ERR_TIMEOUT: &'static str = "timeout";

/// The application does not know the verb.
pub const ERR_UNSUPPORTED_BY_APP: &'static str = "unsupported_by_app";

/// The arguments were wrong.
pub const ERR_USAGE: &'static str = "usage";

/// What the help says of an error.
pub struct ErrorHelp {
    pub sentinel: &'static str,
    pub meaning: &'static str,
}

/// A row of the errors as values.
pub struct ErrorRow {
    pub sentinel: Seq<char>,
    pub meaning: Seq<char>,
}

impl View for ErrorHelp {
    type V = ErrorRow;

    open spec fn view(&self) -> ErrorRow {
        ErrorRow { sentinel: self.sentinel@, meaning: self.meaning@ }
    }
}

/// The rows of a list of errors as values.
pub open spec fn error_help_rows(v: Seq<ErrorHelp>) -> Seq<ErrorRow> {
    Seq::new(v.len(), |i: int| v[i]@)
}

/// The errors and what they mean.
pub open spec fn error_rows() -> Seq<ErrorRow> {
    seq![
        ErrorRow { sentinel: ERR_APP_NOT_LOCATED@, meaning: "the app has not written its pointer file yet (needs a newer build, or has never launched)"@ },
        ErrorRow { sentinel: ERR_PAIRING_TOKEN_UNAVAILABLE@, meaning: "no pairing token on disk yet"@ },
        ErrorRow { sentinel: ERR_APP_NOT_RUNNING@, meaning: "nothing answered a connect on any candidate port"@ },
        ErrorRow { sentinel: ERR_PAIRING_REJECTED@, meaning: "every reachable port rejected this token — re-pair from Settings"@ },
        ErrorRow { sentinel: ERR_CONNECTION_ERROR@, meaning: "a handshake started but failed before authenticating — not evidence of a bad token"@ },
        ErrorRow { sentinel: ERR_UNSUPPORTED_BY_APP@, meaning: "the running app doesn't understand this verb yet — update it"@ },
        ErrorRow { sentinel: ERR_TIMEOUT@, meaning: "no reply within the round-trip budget, or the whole invocation ran past its overall deadline"@ },
        ErrorRow { sentinel: ERR_CONNECTION_LOST@, meaning: "the socket closed or errored mid-round-trip"@ },
        ErrorRow { sentinel: ERR_RUNTIME_UNAVAILABLE@, meaning: "could not start an async runtime"@ },
        ErrorRow { sentinel: ERR_USAGE@, meaning: "bad CLI usage — see \"detail\" for what was wrong"@ },
    ]
}

/// The errors and what they mean.
pub fn error_sentinels() -> (r: Vec<ErrorHelp>)
    ensures
        error_help_rows(r@) == error_rows(),
{
    let mut table: Vec<ErrorHelp> = Vec::new();
    table.push(ErrorHelp { sentinel: ERR_APP_NOT_LOCATED, meaning: "the app has not written its pointer file yet (needs a newer build, or has never launched)" });
    table.push(ErrorHelp { sentinel: ERR_PAIRING_TOKEN_UNAVAILABLE, meaning: "no pairing token on disk yet" });
    table.push(ErrorHelp { sentinel: ERR_APP_NOT_RUNNING, meaning: "nothing answered a connect on any candidate port" });
    table.push(ErrorHelp { sentinel: ERR_PAIRING_REJECTED, meaning: "every reachable port rejected this token — re-pair from Settings" });
    table.push(ErrorHelp { sentinel: ERR_CONNECTION_ERROR, meaning: "a handshake started but failed before authenticating — not evidence of a bad token" });
    table.push(ErrorHelp { sentinel: ERR_UNSUPPORTED_BY_APP, meaning: "the running app doesn't understand this verb yet — update it" });
    table.push(ErrorHelp { sentinel: ERR_TIMEOUT, meaning: "no reply within the round-trip budget, or the whole invocation ran past its overall deadline" });
    table.push(ErrorHelp { sentinel: ERR_CONNECTION_LOST, meaning: "the socket closed or errored mid-round-trip" });
    table.push(ErrorHelp { sentinel: ERR_RUNTIME_UNAVAILABLE, meaning: "could not start an async runtime" });
    table.push(ErrorHelp { sentinel: ERR_USAGE, meaning: "bad CLI usage — see \"detail\" for what was wrong" });
    assert(error_help_rows(table@) =~= error_rows());
    table
}

// ── The text ────────────────────────────────────────────────────────────────

/// A number of blanks.
pub open spec fn blanks(n: int) -> Seq<char> {
    Seq::new(
        if n > 0 {
            n as nat
        } else {
            0
        },
        |i: int| ' ',
    )
}

/// A text with blanks behind it up to a width.
pub open spec fn padded(s: Seq<char>, width: nat) -> Seq<char> {
    s + blanks(width - s.len())
}

/// The line of a verb.
pub open spec fn verb_line(row: HelpRow) -> Seq<char> {
    "  "@ + padded(row.name, 16) + padded(row.args, 16) + row.returns + "\n"@
}

/// The line of an error.
pub open spec fn error_line(row: ErrorRow) -> Seq<char> {
    "  "@ + padded(row.sentinel, 26) + row.meaning + "\n"@
}

/// The lines of verbs behind a text.
pub open spec fn with_verb_lines(start: Seq<char>, rows: Seq<HelpRow>) -> Seq<char>
    decreases rows.len(),
{
    if rows.len() == 0 {
        start
    } else {
        with_verb_lines(start, rows.drop_last()) + verb_line(rows.last())
    }
}

/// The lines of errors behind a text.
pub open spec fn with_error_lines(start: Seq<char>, rows: Seq<ErrorRow>) -> Seq<char>
    decreases rows.len(),
{
    if rows.len() == 0 {
        start
    } else {
        with_error_lines(start, rows.drop_last()) + error_line(rows.last())
    }
}

/// What the help begins with.
pub const HELP_START: &'static str = "ajh-tauri agent <verb> [args]\n\nA thin CLI client over the AI Job Hunter desktop app's loopback bridge.\nThe desktop app must already be running for any verb below EXCEPT --help.\n\nVERBS:\n";

/// What stands between the verbs and the errors.
pub const HELP_MIDDLE: &'static str = "  --help, -h, help                Show this help and exit (works even if the app is not running).\n  mcp [--allow-reversible] [--allow-irreversible]\nRun as an MCP (Model Context Protocol) stdio server for coding agents; read tier + `commands` only by default, --allow-reversible adds mutating-but-undoable tools, --allow-irreversible adds the rest (implies --allow-reversible). `agent mcp --help` shows its own usage.\n\nEXIT CODES:\n  0   Success — the reply is printed as JSON on stdout.\n  1   The app replied with a refusal (rate-limited, validation, not found, autofill off, ...) — still printed as JSON on stdout.\n  2   The round trip never completed, or usage was invalid — see \"error\" below.\n  4   `call` only: an Effect::Irreversible command needs --confirm '<value>' — the reply's \"detail\" names which OTHER read command/resource to read the proof from, and never the value itself (ADR-038 §4).\n\nERROR SENTINELS (the \"error\" field on an exit-2 reply):\n";

/// The help: what it begins with, a line for each verb, the exit codes and a line for each error.
pub open spec fn help_content() -> Seq<char> {
    with_error_lines(with_verb_lines(HELP_START@, verb_rows()) + HELP_MIDDLE@, error_rows())
}

fn push_padded(out: &mut String, s: &str, width: usize)
    ensures
        final(out)@ == old(out)@ + padded(s@, width as nat),
{
    let ghost start = out@;
    let len: usize = chars_of(s).len();
    out.append(s);
    let mut i: usize = len;
    assert(out@ =~= start + s@ + blanks(i - len));
    while i < width
        invariant
            len == s@.len(),
            len <= i,
            i <= width || i == len,
            out@ == start + s@ + blanks(i - len),
        decreases width - i,
    {
        let ghost before = out@;
        out.push(' ');
        assert(out@ =~= start + s@ + blanks(i - len + 1));
        i = i + 1;
    }
    assert(blanks(i - len) =~= blanks(width - s@.len()));
    assert(out@ =~= start + padded(s@, width as nat));
}

fn push_verb_line(out: &mut String, row: &VerbHelp)
    ensures
        final(out)@ == old(out)@ + verb_line(row@),
{
    out.append("  ");
    push_padded(out, row.name, 16);
    push_padded(out, row.args, 16);
    out.append(row.returns);
    out.append("\n");
    assert(out@ =~= old(out)@ + verb_line(row@));
}

fn push_error_line(out: &mut String, row: &ErrorHelp)
    ensures
        final(out)@ == old(out)@ + error_line(row@),
{
    out.append("  ");
    push_padded(out, row.sentinel, 26);
    out.append(row.meaning);
    out.append("\n");
    assert(out@ =~= old(out)@ + error_line(row@));
}

/// The help text. It comes from the table of verbs and the list of errors alone, and needs
/// nothing of the application.
pub fn help_text() -> (r: String)
    ensures
        r@ == help_content(),
{
    let mut out: String = owned(HELP_START);
    let verbs: Vec<VerbHelp> = verb_table();
    let ghost rows = help_rows(verbs@);
    let mut i: usize = 0;
    assert(rows.take(0) =~= Seq::empty());
    while i < verbs.len()
        invariant
            i <= verbs@.len(),
            rows == help_rows(verbs@),
            out@ == with_verb_lines(HELP_START@, rows.take(i as int)),
        decreases verbs@.len() - i,
    {
        assert(rows.take(i as int + 1).drop_last() =~= rows.take(i as int));
        push_verb_line(&mut out, &verbs[i]);
        i = i + 1;
    }
    assert(rows.take(rows.len() as int) =~= rows);
    out.append(HELP_MIDDLE);
    let ghost start = out@;
    let errors: Vec<ErrorHelp> = error_sentinels();
    let ghost erows = error_help_rows(errors@);
    let mut j: usize = 0;
    assert(erows.take(0) =~= Seq::empty());
    while j < errors.len()
        invariant
            j <= errors@.len(),
            erows == error_help_rows(errors@),
            out@ == with_error_lines(start, erows.take(j as int)),
        decreases errors@.len() - j,
    {
        assert(erows.take(j as int + 1).drop_last() =~= erows.take(j as int));
        push_error_line(&mut out, &errors[j]);
        j = j + 1;
    }
    assert(erows.take(erows.len() as int) =~= erows);
    out
}

// ── Laws ────────────────────────────────────────────────────────────────────

proof fn lemma_occurs_in_middle(a: Seq<char>, b: Seq<char>, c: Seq<char>)
    ensures
        occurs(a + b + c, b),
{
    let all = a + b + c;
    assert(all.subrange(a.len() as int, (a.len() + b.len()) as int) =~= b);
    assert(occurs_at(all, b, a.len() as int));
}

proof fn lemma_occurs_carries(all: Seq<char>, part: Seq<char>, s: Seq<char>, behind: Seq<char>)
    requires
        occurs(part, s),
        all == part + behind,
    ensures
        occurs(all, s),
{
    let at = choose|at: int| occurs_at(part, s, at);
    assert(all.subrange(at, at + s.len()) =~= part.subrange(at, at + s.len()));
    assert(occurs_at(all, s, at));
}

proof fn lemma_verb_line_names(start: Seq<char>, rows: Seq<HelpRow>, i: int)
    requires
        0 <= i < rows.len(),
    ensures
        occurs(with_verb_lines(start, rows), rows[i].name),
    decreases rows.len(),
{
    let before = with_verb_lines(start, rows.drop_last());
    let all = with_verb_lines(start, rows);
    if i == rows.len() - 1 {
        let row = rows[i];
        let behind = blanks(16 - row.name.len()) + padded(row.args, 16) + row.returns + "\n"@;
        lemma_occurs_in_middle(before + "  "@, row.name, behind);
        assert(all =~= before + "  "@ + row.name + behind);
    } else {
        lemma_verb_line_names(start, rows.drop_last(), i);
        lemma_occurs_carries(all, before, rows[i].name, verb_line(rows.last()));
    }
}

proof fn lemma_error_lines_carry(start: Seq<char>, rows: Seq<ErrorRow>, s: Seq<char>)
    requires
        occurs(start, s),
    ensures
        occurs(with_error_lines(start, rows), s),
    decreases rows.len(),
{
    if rows.len() > 0 {
        lemma_error_lines_carry(start, rows.drop_last(), s);
        lemma_occurs_carries(
            with_error_lines(start, rows),
            with_error_lines(start, rows.drop_last()),
            s,
            error_line(rows.last()),
        );
    }
}

proof fn lemma_error_line_names(start: Seq<char>, rows: Seq<ErrorRow>, i: int)
    requires
        0 <= i < rows.len(),
    ensures
        occurs(with_error_lines(start, rows), rows[i].sentinel),
    decreases rows.len(),
{
    let before = with_error_lines(start, rows.drop_last());
    let all = with_error_lines(start, rows);
    if i == rows.len() - 1 {
        let row = rows[i];
        let behind = blanks(26 - row.sentinel.len()) + row.meaning + "\n"@;
        lemma_occurs_in_middle(before + "  "@, row.sentinel, behind);
        assert(all =~= before + "  "@ + row.sentinel + behind);
    } else {
        lemma_error_line_names(start, rows.drop_last(), i);
        lemma_occurs_carries(all, before, rows[i].sentinel, error_line(rows.last()));
    }
}

/// The help names every verb that is read and every error of the list.
pub proof fn help_names_verbs_and_errors()
    ensures
        forall|i: int|
            0 <= i < verb_rows().len() ==> occurs(help_content(), (#[trigger] verb_rows()[i]).name),
        forall|i: int|
            0 <= i < error_rows().len() ==> occurs(
                help_content(),
                (#[trigger] error_rows()[i]).sentinel,
            ),
{
    let verbs = with_verb_lines(HELP_START@, verb_rows());
    let start = verbs + HELP_MIDDLE@;
    assert forall|i: int| 0 <= i < verb_rows().len() implies occurs(
        help_content(),
        (#[trigger] verb_rows()[i]).name,
    ) by {
        lemma_verb_line_names(HELP_START@, verb_rows(), i);
        lemma_occurs_carries(start, verbs, verb_rows()[i].name, HELP_MIDDLE@);
        lemma_error_lines_carry(start, error_rows(), verb_rows()[i].name);
    }
    assert forall|i: int| 0 <= i < error_rows().len() implies occurs(
        help_content(),
        (#[trigger] error_rows()[i]).sentinel,
    ) by {
        lemma_error_line_names(start, error_rows(), i);
    }
}

proof fn lemma_regroup(a: Seq<char>, b: Seq<char>, c: Seq<char>)
    ensures
        a + (b + c) == (a + b) + c,
{
    assert(a + (b + c) =~= (a + b) + c);
}

proof fn lemma_verb_line_says(start: Seq<char>, rows: Seq<HelpRow>, i: int)
    requires
        0 <= i < rows.len(),
    ensures
        occurs(with_verb_lines(start, rows), rows[i].args),
        occurs(with_verb_lines(start, rows), rows[i].returns + "\n"@),
    decreases rows.len(),
{
    let before = with_verb_lines(start, rows.drop_last());
    let all = with_verb_lines(start, rows);
    if i == rows.len() - 1 {
        let row = rows[i];
        let end = "\n"@;
        let name = "  "@ + padded(row.name, 16);
        let args = padded(row.args, 16);
        let fill = blanks(16 - row.args.len());
        lemma_regroup(name + args, row.returns, end);
        lemma_regroup(before, name + args, row.returns + end);
        lemma_occurs_in_middle(before + (name + args), row.returns + end, Seq::empty());
        assert(all == before + (name + args) + (row.returns + end));
        assert(all + Seq::<char>::empty() =~= all);
        lemma_regroup(before, name, args);
        lemma_regroup(before + name, row.args, fill);
        lemma_regroup(before + name + row.args, fill, row.returns + end);
        assert(all == before + name + row.args + (fill + (row.returns + end)));
        lemma_occurs_in_middle(before + name, row.args, fill + (row.returns + end));
    } else {
        lemma_verb_line_says(start, rows.drop_last(), i);
        lemma_occurs_carries(all, before, rows[i].args, verb_line(rows.last()));
        lemma_occurs_carries(all, before, rows[i].returns + "\n"@, verb_line(rows.last()));
    }
}

proof fn lemma_error_line_says(start: Seq<char>, rows: Seq<ErrorRow>, i: int)
    requires
        0 <= i < rows.len(),
    ensures
        occurs(with_error_lines(start, rows), rows[i].meaning + "\n"@),
    decreases rows.len(),
{
    let before = with_error_lines(start, rows.drop_last());
    let all = with_error_lines(start, rows);
    if i == rows.len() - 1 {
        let row = rows[i];
        let end = "\n"@;
        let name = "  "@ + padded(row.sentinel, 26);
        lemma_regroup(name, row.meaning, end);
        lemma_regroup(before, name, row.meaning + end);
        lemma_occurs_in_middle(before + name, row.meaning + end, Seq::empty());
        assert(all + Seq::<char>::empty() =~= all);
    } else {
        lemma_error_line_says(start, rows.drop_last(), i);
        lemma_occurs_carries(all, before, rows[i].meaning + "\n"@, error_line(rows.last()));
    }
}

/// The help says of every verb what it takes and what it returns, and of every error what it
/// means.
pub proof fn help_explains_verbs_and_errors()
    ensures
        forall|i: int|
            0 <= i < verb_rows().len() ==> occurs(help_content(), (#[trigger] verb_rows()[i]).args)
                && occurs(help_content(), verb_rows()[i].returns + "\n"@),
        forall|i: int|
            0 <= i < error_rows().len() ==> occurs(
                help_content(),
                (#[trigger] error_rows()[i]).meaning + "\n"@,
            ),
{
    let verbs = with_verb_lines(HELP_START@, verb_rows());
    let start = verbs + HELP_MIDDLE@;
    assert forall|i: int| 0 <= i < verb_rows().len() implies occurs(
        help_content(),
        (#[trigger] verb_rows()[i]).args,
    ) && occurs(help_content(), verb_rows()[i].returns + "\n"@) by {
        lemma_verb_line_says(HELP_START@, verb_rows(), i);
        lemma_occurs_carries(start, verbs, verb_rows()[i].args, HELP_MIDDLE@);
        lemma_occurs_carries(start, verbs, verb_rows()[i].returns + "\n"@, HELP_MIDDLE@);
        lemma_error_lines_carry(start, error_rows(), verb_rows()[i].args);
        lemma_error_lines_carry(start, error_rows(), verb_rows()[i].returns + "\n"@);
    }
    assert forall|i: int| 0 <= i < error_rows().len() implies occurs(
        help_content(),
        (#[trigger] error_rows()[i]).meaning + "\n"@,
    ) by {
        lemma_error_line_says(start, error_rows(), i);
    }
}

/// A padded text is the text and blanks behind it, as long as the width where the text is shorter.
pub proof fn padding_fills_up_with_blanks(s: Seq<char>, width: nat)
    ensures
        s.is_prefix_of(padded(s, width)),
        padded(s, width).len() == if s.len() < width {
            width
        } else {
            s.len()
        },
        forall|i: int| s.len() <= i < padded(s, width).len() ==> #[trigger] padded(s, width)[i] == ' ',
{
}

/// The list says of each error what it means.
pub proof fn list_says_what_each_error_means(row: ErrorRow)
    requires
        error_rows().contains(row),
    ensures
        row.sentinel == "app_not_located"@ ==> row.meaning == "the app has not written its pointer file yet (needs a newer build, or has never launched)"@,
        row.sentinel == "pairing_token_unavailable"@ ==> row.meaning == "no pairing token on disk yet"@,
        row.sentinel == "app_not_running"@ ==> row.meaning == "nothing answered a connect on any candidate port"@,
        row.sentinel == "pairing_rejected"@ ==> row.meaning == "every reachable port rejected this token — re-pair from Settings"@,
        row.sentinel == "connection_error"@ ==> row.meaning == "a handshake started but failed before authenticating — not evidence of a bad token"@,
        row.sentinel == "unsupported_by_app"@ ==> row.meaning == "the running app doesn't understand this verb yet — update it"@,
        row.sentinel == "timeout"@ ==> row.meaning == "no reply within the round-trip budget, or the whole invocation ran past its overall deadline"@,
        row.sentinel == "connection_lost"@ ==> row.meaning == "the socket closed or errored mid-round-trip"@,
        row.sentinel == "runtime_unavailable"@ ==> row.meaning == "could not start an async runtime"@,
        row.sentinel == "usage"@ ==> row.meaning == "bad CLI usage — see \"detail\" for what was wrong"@,
{
    reveal_strlit("app_not_located");
    reveal_strlit("pairing_token_unavailable");
    reveal_strlit("app_not_running");
    reveal_strlit("pairing_rejected");
    reveal_strlit("connection_error");
    reveal_strlit("unsupported_by_app");
    reveal_strlit("timeout");
    reveal_strlit("connection_lost");
    reveal_strlit("runtime_unavailable");
    reveal_strlit("usage");
    let i = choose|i: int| 0 <= i < error_rows().len() && error_rows()[i] == row;
    assert("app_not_located"@.len() == 15);
    assert("pairing_token_unavailable"@.len() == 25);
    assert("app_not_running"@.len() == 15);
    assert("pairing_rejected"@.len() == 16);
    assert("connection_error"@.len() == 16);
    assert("unsupported_by_app"@.len() == 18);
    assert("timeout"@.len() == 7);
    assert("connection_lost"@.len() == 15);
    assert("runtime_unavailable"@.len() == 19);
    assert("usage"@.len() == 5);
    assert("app_not_located"@[8] == 'l' && "app_not_running"@[8] == 'r');
    assert("connection_lost"@[0] == 'c' && "connection_error"@[0] == 'c');
    assert("app_not_located"@[0] == 'a' && "app_not_running"@[0] == 'a');
    assert("pairing_rejected"@[0] == 'p');
    assert(error_rows()[0].sentinel == "app_not_located"@);
    assert(error_rows()[1].sentinel == "pairing_token_unavailable"@);
    assert(error_rows()[2].sentinel == "app_not_running"@);
    assert(error_rows()[3].sentinel == "pairing_rejected"@);
    assert(error_rows()[4].sentinel == "connection_error"@);
    assert(error_rows()[5].sentinel == "unsupported_by_app"@);
    assert(error_rows()[6].sentinel == "timeout"@);
    assert(error_rows()[7].sentinel == "connection_lost"@);
    assert(error_rows()[8].sentinel == "runtime_unavailable"@);
    assert(error_rows()[9].sentinel == "usage"@);
}

} // verus!
