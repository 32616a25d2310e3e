//! What an invocation of the command line does, and how it ends.
use vstd::prelude::*;

use crate::agent_cli::help::{help_content, help_text, ERR_USAGE};
use crate::agent_cli::verb::{parse_verb, verb_of, Verb, VerbView};
use crate::error::AppError;
use crate::json::{entry, json_text, opt_str, Json, JsonView, ObjectBuilder};
use crate::text::{opt_text, owned, str_eq, texts};

verus! {

// ── How it begins ───────────────────────────────────────────────────────────

/// Whether the first argument asks for help.
pub open spec fn asks_for_help(args: Seq<Seq<char>>) -> bool {
    args.len() > 0 && (args[0] == "--help"@ || args[0] == "-h"@ || args[0] == "help"@)
}

/// Whether the first argument asks for the server mode.
pub open spec fn asks_for_mcp(args: Seq<Seq<char>>) -> bool {
    args.len() > 0 && args[0] == "mcp"@
}

/// Whether the first argument asks for help.
pub fn is_help_request(args: &[String]) -> (r: bool)
    ensures
        r == asks_for_help(texts(args@)),
{
    if args.len() == 0 {
        return false;
    }
    assert(texts(args@)[0] == args@[0]@);
    let first: &str = args[0].as_str();
    str_eq(first, "--help") || str_eq(first, "-h") || str_eq(first, "help")
}

/// Whether the first argument asks for the server mode.
pub fn is_mcp_mode(args: &[String]) -> (r: bool)
    ensures
        r == asks_for_mcp(texts(args@)),
{
    if args.len() == 0 {
        return false;
    }
    assert(texts(args@)[0] == args@[0]@);
    str_eq(args[0].as_str(), "mcp")
}

/// What an invocation does.
#[derive(Debug, PartialEq, Eq)]
pub enum Launch {
    /// Print the help and end well.
    Help,
    /// Run as a server; the arguments behind the first one are its own.
    Mcp,
    /// Print the help as an error: there are no arguments.
    Bare,
    /// Print that the arguments are wrong.
    Usage(AppError),
    /// Ask the application.
    Ask(Verb),
}

/// [`Launch`] as values.
pub enum LaunchView {
    Help,
    Mcp,
    Bare,
    Usage(Seq<char>),
    Ask(VerbView),
}

impl View for Launch {
    type V = LaunchView;

    open spec fn view(&self) -> LaunchView {
        match self {
            Launch::Help => LaunchView::Help,
            Launch::Mcp => LaunchView::Mcp,
            Launch::Bare => LaunchView::Bare,
            Launch::Usage(e) => LaunchView::Usage(e@.message()),
            Launch::Ask(verb) => LaunchView::Ask(verb@),
        }
    }
}

/// What the arguments of an invocation ask for. Help comes first, then the server mode, then the
/// verbs.
pub open spec fn launch_of(args: Seq<Seq<char>>) -> LaunchView {
    if asks_for_help(args) {
        LaunchView::Help
    } else if asks_for_mcp(args) {
        LaunchView::Mcp
    } else if args.len() == 0 {
        LaunchView::Bare
    } else {
        match verb_of(args) {
            Ok(verb) => LaunchView::Ask(verb),
            Err(m) => LaunchView::Usage(m),
        }
    }
}

/// What the arguments of an invocation ask for.
pub fn read_launch(args: &[String]) -> (r: Launch)
    ensures
        r@ == launch_of(texts(args@)),
{
    if is_help_request(args) {
        Launch::Help
    } else if is_mcp_mode(args) {
        Launch::Mcp
    } else if args.len() == 0 {
        Launch::Bare
    } else {
        match parse_verb(args) {
            Ok(verb) => Launch::Ask(verb),
            Err(e) => Launch::Usage(e),
        }
    }
}

// ── How it ends ─────────────────────────────────────────────────────────────

/// What is printed where the arguments are wrong.
pub open spec fn usage_error(detail: Seq<char>) -> JsonView {
    JsonView::Object(
        seq![
            entry("ok"@, JsonView::Bool(false)),
            entry("resource"@, JsonView::Null),
            entry("error"@, JsonView::Text(ERR_USAGE@)),
            entry("detail"@, JsonView::Text(detail)),
        ],
    )
}

/// What is printed where no answer came.
pub open spec fn cli_error(resource: Option<Seq<char>>, sentinel: Seq<char>) -> JsonView {
    JsonView::Object(
        seq![
            entry("ok"@, JsonView::Bool(false)),
            entry(
                "resource"@,
                match resource {
                    Some(name) => JsonView::Text(name),
                    None => JsonView::Null,
                },
            ),
            entry("error"@, JsonView::Text(sentinel)),
        ],
    )
}

/// What is printed where the arguments are wrong.
pub fn usage_error_value(detail: &str) -> (r: Json)
    ensures
        r@ == usage_error(detail@),
{
    let b: ObjectBuilder = ObjectBuilder::new().with_bool("ok", false).with(
        "resource",
        Json::Null,
    ).with_text("error", ERR_USAGE).with_text("detail", detail);
    assert(b@ =~= usage_error(detail@)->Object_0);
    b.build()
}

/// What is printed where no answer came. The exit code is then two.
pub fn cli_error_value(resource: Option<&str>, sentinel: &str) -> (r: Json)
    ensures
        r@ == cli_error(opt_str(resource), sentinel@),
{
    let name: Json = match resource {
        Some(name) => Json::Text(owned(name)),
        None => Json::Null,
    };
    let b: ObjectBuilder = ObjectBuilder::new().with_bool("ok", false).with(
        "resource",
        name,
    ).with_text("error", sentinel);
    assert(b@ =~= cli_error(opt_str(resource), sentinel@)->Object_0);
    b.build()
}

/// The error of an answer that asks for a confirmation.
pub const ERR_CONFIRMATION_REQUIRED: &'static str = "confirmation_required";

/// The exit code of an answer. A call exits with zero where it was dispatched, with four where it
/// wants a confirmation first, and with two otherwise. Any other verb exits with zero where the
/// answer is good and with one where it is not.
pub open spec fn exit_code(verb: VerbView, payload: JsonView) -> int {
    if verb is Call {
        if payload.text_at("error"@) == Some(ERR_CONFIRMATION_REQUIRED@) {
            4
        } else if payload.boolean_at("dispatched"@) == Some(true) {
            0
        } else {
            2
        }
    } else if payload.boolean_at("ok"@) == Some(true) {
        0
    } else {
        1
    }
}

/// The exit code of an answer.
pub fn exit_code_for_reply(verb: &Verb, payload: &Json) -> (r: i32)
    ensures
        r == exit_code(verb@, payload@),
{
    match verb {
        Verb::Call { .. } => {
            let unconfirmed: bool = match payload.str_at("error") {
                Some(e) => str_eq(e, ERR_CONFIRMATION_REQUIRED),
                None => false,
            };
            if unconfirmed {
                4
            } else if payload.bool_at("dispatched").unwrap_or(false) {
                0
            } else {
                2
            }
        },
        _ => if payload.bool_at("ok").unwrap_or(false) {
            0
        } else {
            1
        },
    }
}

/// What an invocation prints, and the code that it exits with.
#[derive(Debug, PartialEq, Eq)]
pub struct Ending {
    /// What goes to the standard output, as a line of its own.
    pub out: Option<String>,
    /// What goes to the standard error, as a line of its own.
    pub err: Option<String>,
    pub code: i32,
}

/// [`Ending`] as values.
pub struct EndingView {
    pub out: Option<Seq<char>>,
    pub err: Option<Seq<char>>,
    pub code: int,
}

impl View for Ending {
    type V = EndingView;

    open spec fn view(&self) -> EndingView {
        EndingView { out: opt_text(self.out), err: opt_text(self.err), code: self.code as int }
    }
}

/// An ending that prints a value to the standard output.
pub open spec fn prints(value: JsonView, code: int) -> EndingView {
    EndingView { out: Some(json_text(value)), err: None, code }
}

/// How an invocation ends that asks nothing, none where it goes on.
pub open spec fn ending_at_launch(launch: LaunchView) -> Option<EndingView> {
    match launch {
        LaunchView::Help => Some(EndingView { out: Some(help_content()), err: None, code: 0 }),
        LaunchView::Bare => Some(EndingView { out: None, err: Some(help_content()), code: 2 }),
        LaunchView::Usage(detail) => Some(prints(usage_error(detail), 2)),
        LaunchView::Mcp => None,
        LaunchView::Ask(_) => None,
    }
}

/// How an invocation ends that asks nothing, none where it goes on.
pub fn launch_ending(launch: &Launch) -> (r: Option<Ending>)
    ensures
        match r {
            Some(e) => ending_at_launch(launch@) == Some(e@),
            None => ending_at_launch(launch@) is None,
        },
{
    match launch {
        Launch::Help => Some(Ending { out: Some(help_text()), err: None, code: 0 }),
        Launch::Bare => Some(Ending { out: None, err: Some(help_text()), code: 2 }),
        Launch::Usage(e) => {
            let value: Json = usage_error_value(e.to_string().as_str());
            Some(Ending { out: Some(value.to_text()), err: None, code: 2 })
        },
        Launch::Mcp => None,
        Launch::Ask(_) => None,
    }
}

/// How an invocation ends that asked the application: with its answer, or with the reason why
/// there is none.
pub open spec fn ending_of(verb: VerbView, answer: Result<JsonView, Seq<char>>) -> EndingView {
    match answer {
        Ok(payload) => prints(payload, exit_code(verb, payload)),
        Err(sentinel) => prints(cli_error(Some(verb.resource()), sentinel), 2),
    }
}

/// How an invocation ends that asked the application.
pub fn answer_ending(verb: &Verb, answer: &Result<Json, &'static str>) -> (r: Ending)
    ensures
        r@ == ending_of(
            verb@,
            match *answer {
                Ok(payload) => Ok(payload@),
                Err(sentinel) => Err(sentinel@),
            },
        ),
{
    match answer {
        Ok(payload) => Ending {
            out: Some(payload.to_text()),
            err: None,
            code: exit_code_for_reply(verb, payload),
        },
        Err(sentinel) => {
            let value: Json = cli_error_value(Some(verb.resource_name()), sentinel);
            Ending { out: Some(value.to_text()), err: None, code: 2 }
        },
    }
}

// ── Laws ────────────────────────────────────────────────────────────────────

/// Help is given whatever follows it, and needs no verb.
pub proof fn help_comes_first(args: Seq<Seq<char>>)
    requires
        asks_for_help(args),
    ensures
        launch_of(args) is Help,
{
}

/// Zero is the code of help and of a good answer only; where no answer came, it is two.
pub proof fn zero_means_success(verb: VerbView, answer: Result<JsonView, Seq<char>>)
    ensures
        answer is Err ==> ending_of(verb, answer).code == 2,
        ending_of(verb, answer).code == 0 ==> answer is Ok && (if verb is Call {
            answer->Ok_0.boolean_at("dispatched"@) == Some(true)
        } else {
            answer->Ok_0.boolean_at("ok"@) == Some(true)
        }),
        ending_of(verb, answer).err is None,
{
}

/// A call never exits with the code of a refused answer, and another verb never with a code that
/// belongs to calls; only a missing confirmation exits with four.
pub proof fn exit_codes_tell_tiers_apart(verb: VerbView, payload: JsonView)
    ensures
        verb is Call ==> exit_code(verb, payload) != 1,
        !(verb is Call) ==> exit_code(verb, payload) == 0 || exit_code(verb, payload) == 1,
        exit_code(verb, payload) == 4 <==> verb is Call && payload.text_at("error"@) == Some(
            ERR_CONFIRMATION_REQUIRED@,
        ),
{
}

} // verus!
