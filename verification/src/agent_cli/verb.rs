//! The verbs of the command line: how they are read and what they send.
use vstd::prelude::*;
use vstd::string::StringExecFns;

use crate::decimal::{parse_unsigned, unsigned_value};
use crate::error::{AppError, ErrorView};
use crate::json::{entry, parsed_json, EntryView, Json, JsonView, ObjectBuilder};
use crate::text::{after_first, before_first, opt_text, owned, split_once, str_eq, texts};

verus! {

// ── Verbs ───────────────────────────────────────────────────────────────────

/// What the application is asked for.
#[derive(Debug, PartialEq, Eq)]
pub enum Verb {
    /// The strongest jobs of all autopilots.
    BestMatches { limit: Option<u64> },
    /// One posting.
    Job { url: String },
    /// The contact profile.
    Profile,
    /// Every autopilot and its status.
    Automations,
    /// The resources that can be asked for.
    Schema,
    /// One page of what an autopilot has found.
    FoundJobs { autopilot_id: String, limit: Option<u64>, cursor: Option<String> },
    /// A command of the application, with its input and, where it cannot be undone, the value
    /// that confirms it.
    Call { namespace: String, command: String, input: Json, confirm: Option<String> },
}

/// [`Verb`] as values.
pub enum VerbView {
    BestMatches { limit: Option<u64> },
    Job { url: Seq<char> },
    Profile,
    Automations,
    Schema,
    FoundJobs { autopilot_id: Seq<char>, limit: Option<u64>, cursor: Option<Seq<char>> },
    Call {
        namespace: Seq<char>,
        command: Seq<char>,
        input: JsonView,
        confirm: Option<Seq<char>>,
    },
}

impl View for Verb {
    type V = VerbView;

    open spec fn view(&self) -> VerbView {
        match self {
            Verb::BestMatches { limit } => VerbView::BestMatches { limit: *limit },
            Verb::Job { url } => VerbView::Job { url: url@ },
            Verb::Profile => VerbView::Profile,
            Verb::Automations => VerbView::Automations,
            Verb::Schema => VerbView::Schema,
            Verb::FoundJobs { autopilot_id, limit, cursor } => VerbView::FoundJobs {
                autopilot_id: autopilot_id@,
                limit: *limit,
                cursor: opt_text(*cursor),
            },
            Verb::Call { namespace, command, input, confirm } => VerbView::Call {
                namespace: namespace@,
                command: command@,
                input: input@,
                confirm: opt_text(*confirm),
            },
        }
    }
}

/// The type of a frame that asks for a resource.
pub const MSG_AGENT_QUERY: &'static str = "agent.query";

/// The type of the answer to [`MSG_AGENT_QUERY`].
pub const MSG_AGENT_RESULT: &'static str = "agent.result";

/// The type of a frame that calls a command.
pub const MSG_AGENT_CALL: &'static str = "agent.call";

/// The type of the answer to [`MSG_AGENT_CALL`].
pub const MSG_AGENT_CALL_RESULT: &'static str = "agent.call.result";

/// The entry of a limit, where there is one.
pub open spec fn limit_entries(limit: Option<u64>) -> Seq<EntryView> {
    match limit {
        Some(n) => seq![entry("limit"@, JsonView::Int(n as int))],
        None => Seq::empty(),
    }
}

/// The entry of a text, where there is one.
pub open spec fn text_entries(key: Seq<char>, text: Option<Seq<char>>) -> Seq<EntryView> {
    match text {
        Some(s) => seq![entry(key, JsonView::Text(s))],
        None => Seq::empty(),
    }
}

impl VerbView {
    /// The name of what the verb asks for.
    pub open spec fn resource(self) -> Seq<char> {
        match self {
            VerbView::BestMatches { .. } => "best-matches"@,
            VerbView::Job { .. } => "job"@,
            VerbView::Profile => "profile"@,
            VerbView::Automations => "automations"@,
            VerbView::Schema => "schema"@,
            VerbView::FoundJobs { .. } => "found-jobs"@,
            VerbView::Call { .. } => "call"@,
        }
    }

    /// The entries of what the verb sends. What was not given is not there at all.
    pub open spec fn payload_entries(self) -> Seq<EntryView> {
        match self {
            VerbView::BestMatches { limit } => seq![
                entry("resource"@, JsonView::Text(self.resource())),
            ] + limit_entries(limit),
            VerbView::Job { url } => seq![
                entry("resource"@, JsonView::Text(self.resource())),
                entry("url"@, JsonView::Text(url)),
            ],
            VerbView::FoundJobs { autopilot_id, limit, cursor } => seq![
                entry("resource"@, JsonView::Text(self.resource())),
                entry("autopilotId"@, JsonView::Text(autopilot_id)),
            ] + limit_entries(limit) + text_entries("cursor"@, cursor),
            VerbView::Call { namespace, command, input, confirm } => seq![
                entry("namespace"@, JsonView::Text(namespace)),
                entry("command"@, JsonView::Text(command)),
                entry("input"@, input),
            ] + text_entries("confirm"@, confirm),
            _ => seq![entry("resource"@, JsonView::Text(self.resource()))],
        }
    }
}

fn with_limit(builder: ObjectBuilder, limit: Option<u64>) -> (r: ObjectBuilder)
    ensures
        r@ == builder@ + limit_entries(limit),
{
    let r = match limit {
        Some(n) => builder.with_u64("limit", n),
        None => builder,
    };
    assert(r@ =~= builder@ + limit_entries(limit));
    r
}

fn with_opt_text(builder: ObjectBuilder, key: &str, text: &Option<String>) -> (r: ObjectBuilder)
    ensures
        r@ == builder@ + text_entries(key@, opt_text(*text)),
{
    let r = match text {
        Some(s) => builder.with_text(key, s.as_str()),
        None => builder,
    };
    assert(r@ =~= builder@ + text_entries(key@, opt_text(*text)));
    r
}

impl Verb {
    /// The name of what the verb asks for.
    pub fn resource_name(&self) -> (r: &'static str)
        ensures
            r@ == self@.resource(),
    {
        match self {
            Verb::BestMatches { .. } => "best-matches",
            Verb::Job { .. } => "job",
            Verb::Profile => "profile",
            Verb::Automations => "automations",
            Verb::Schema => "schema",
            Verb::FoundJobs { .. } => "found-jobs",
            Verb::Call { .. } => "call",
        }
    }

    /// The type of the frame that the verb sends.
    pub fn wire_type(&self) -> (r: &'static str)
        ensures
            r@ == (if self@ is Call {
                MSG_AGENT_CALL@
            } else {
                MSG_AGENT_QUERY@
            }),
    {
        match self {
            Verb::Call { .. } => MSG_AGENT_CALL,
            _ => MSG_AGENT_QUERY,
        }
    }

    /// The type of the frame that answers the verb.
    pub fn reply_type(&self) -> (r: &'static str)
        ensures
            r@ == (if self@ is Call {
                MSG_AGENT_CALL_RESULT@
            } else {
                MSG_AGENT_RESULT@
            }),
    {
        match self {
            Verb::Call { .. } => MSG_AGENT_CALL_RESULT,
            _ => MSG_AGENT_RESULT,
        }
    }

    /// What the verb sends.
    pub fn payload(&self) -> (r: Json)
        ensures
            r@ == JsonView::Object(self@.payload_entries()),
    {
        let named: ObjectBuilder = ObjectBuilder::new().with_text("resource", self.resource_name());
        let built: ObjectBuilder = match self {
            Verb::BestMatches { limit } => with_limit(named, *limit),
            Verb::Job { url } => named.with_text("url", url.as_str()),
            Verb::FoundJobs { autopilot_id, limit, cursor } => with_opt_text(
                with_limit(named.with_text("autopilotId", autopilot_id.as_str()), *limit),
                "cursor",
                cursor,
            ),
            Verb::Call { namespace, command, input, confirm } => with_opt_text(
                ObjectBuilder::new().with_text("namespace", namespace.as_str()).with_text(
                    "command",
                    command.as_str(),
                ).with("input", input.clone()),
                "confirm",
                confirm,
            ),
            _ => named,
        };
        assert(built@ =~= self@.payload_entries());
        built.build()
    }
}

// ── The table of verbs ──────────────────────────────────────────────────────

/// What the help says of a verb.
pub struct VerbHelp {
    pub name: &'static str,
    pub args: &'static str,
    pub returns: &'static str,
}

/// A row of the help as values.
pub struct HelpRow {
    pub name: Seq<char>,
    pub args: Seq<char>,
    pub returns: Seq<char>,
}

impl View for VerbHelp {
    type V = HelpRow;

    open spec fn view(&self) -> HelpRow {
        HelpRow { name: self.name@, args: self.args@, returns: self.returns@ }
    }
}

/// The rows of a table as values.
pub open spec fn help_rows(v: Seq<VerbHelp>) -> Seq<HelpRow> {
    Seq::new(v.len(), |i: int| v[i]@)
}

/// The names of the verbs.
pub open spec fn verb_names() -> Seq<Seq<char>> {
    seq![
        "best-matches"@,
        "job"@,
        "profile"@,
        "automations"@,
        "schema"@,
        "found-jobs"@,
        "call"@,
    ]
}

/// The names of rows.
pub open spec fn row_names(rows: Seq<HelpRow>) -> Seq<Seq<char>> {
    Seq::new(rows.len(), |i: int| rows[i].name)
}

/// The rows of the table of verbs.
pub open spec fn verb_rows() -> Seq<HelpRow> {
    seq![
        HelpRow {
            name: "best-matches"@,
            args: "[--limit <n>]"@,
            returns: "the strongest jobs across every autopilot (default 20, max 50)"@,
        },
        HelpRow {
            name: "job"@,
            args: "<url>"@,
            returns: "full detail for one posting"@,
        },
        HelpRow {
            name: "profile"@,
            args: ""@,
            returns: "contact-profile fields for autofill (same consent gate as the extension's profile.get)"@,
        },
        HelpRow {
            name: "automations"@,
            args: ""@,
            returns: "every autopilot and its status"@,
        },
        HelpRow {
            name: "schema"@,
            args: ""@,
            returns: "this resource list, as machine-readable JSON"@,
        },
        HelpRow {
            name: "found-jobs"@,
            args: "<autopilotId> [--limit <n>] [--cursor <c>]"@,
            returns: "one page of an autopilot's complete found-jobs list (default/max limit and the cursor format are documented on `agent_read::resolve_found_jobs`); repeat with the returned cursor until it comes back null to traverse the whole list"@,
        },
        HelpRow {
            name: "call"@,
            args: "<namespace>:<command> [--input '<json>'] [--confirm '<value>']"@,
            returns: "ADR-038 §2's generic dispatch tier — Read/Reversible commands dispatch directly; an Irreversible command needs --confirm '<value>' (a proof read from ANOTHER command, named but never disclosed by a --confirm-less call — exit 4); NotExposed always refuses (see `agent schema`, the MCP `commands` tool, or policy.rs for the full table)"@,
        },
    ]
}

/// The table of verbs: their names, their arguments and what they return.
pub fn verb_table() -> (r: Vec<VerbHelp>)
    ensures
        help_rows(r@) == verb_rows(),
        row_names(help_rows(r@)) == verb_names(),
{
    let mut table: Vec<VerbHelp> = Vec::new();
    table.push(
        VerbHelp {
            name: "best-matches",
            args: "[--limit <n>]",
            returns: "the strongest jobs across every autopilot (default 20, max 50)",
        },
    );
    table.push(
        VerbHelp {
            name: "job",
            args: "<url>",
            returns: "full detail for one posting",
        },
    );
    table.push(
        VerbHelp {
            name: "profile",
            args: "",
            returns: "contact-profile fields for autofill (same consent gate as the extension's profile.get)",
        },
    );
    table.push(
        VerbHelp {
            name: "automations",
            args: "",
            returns: "every autopilot and its status",
        },
    );
    table.push(
        VerbHelp {
            name: "schema",
            args: "",
            returns: "this resource list, as machine-readable JSON",
        },
    );
    table.push(
        VerbHelp {
            name: "found-jobs",
            args: "<autopilotId> [--limit <n>] [--cursor <c>]",
            returns: "one page of an autopilot's complete found-jobs list (default/max limit and the cursor format are documented on `agent_read::resolve_found_jobs`); repeat with the returned cursor until it comes back null to traverse the whole list",
        },
    );
    table.push(
        VerbHelp {
            name: "call",
            args: "<namespace>:<command> [--input '<json>'] [--confirm '<value>']",
            returns: "ADR-038 §2's generic dispatch tier — Read/Reversible commands dispatch directly; an Irreversible command needs --confirm '<value>' (a proof read from ANOTHER command, named but never disclosed by a --confirm-less call — exit 4); NotExposed always refuses (see `agent schema`, the MCP `commands` tool, or policy.rs for the full table)",
        },
    );
    assert(help_rows(table@) =~= verb_rows());
    assert(row_names(help_rows(table@)) =~= verb_names());
    table
}

/// Texts with a separator in between.
pub open spec fn joined(names: Seq<Seq<char>>, separator: Seq<char>) -> Seq<char>
    decreases names.len(),
{
    if names.len() == 0 {
        Seq::empty()
    } else if names.len() == 1 {
        names[0]
    } else {
        joined(names.drop_last(), separator) + separator + names.last()
    }
}

/// The names of the verbs with bars in between.
pub fn verb_names_joined() -> (r: String)
    ensures
        r@ == joined(verb_names(), "|"@),
{
    let table: Vec<VerbHelp> = verb_table();
    let ghost names = row_names(help_rows(table@));
    let mut out: String = String::new();
    let mut i: usize = 0;
    assert(names.take(0) =~= Seq::empty());
    while i < table.len()
        invariant
            i <= table@.len(),
            names == row_names(help_rows(table@)),
            out@ == joined(names.take(i as int), "|"@),
        decreases table@.len() - i,
    {
        assert(names.take(i as int + 1).drop_last() =~= names.take(i as int));
        if i > 0 {
            out.append("|");
        }
        out.append(table[i].name);
        proof {
            let name = table@[i as int].name@;
            if i == 0 {
                assert(out@ =~= name);
            }
            assert(names.take(i as int + 1).last() == name);
        }
        i = i + 1;
    }
    assert(names.take(names.len() as int) =~= names);
    out
}

// ── Reading the arguments ───────────────────────────────────────────────────

/// What is said where the first argument is no verb.
pub open spec fn unknown_verb_text() -> Seq<char> {
    "unknown verb (run `ajh-tauri agent --help`; expected one of: "@ + joined(verb_names(), "|"@)
        + ")"@
}

/// What is said where there are no arguments.
pub open spec fn missing_verb_text() -> Seq<char> {
    "missing verb (run `ajh-tauri agent --help`; expected one of: "@ + joined(verb_names(), "|"@)
        + ")"@
}

/// The value behind a flag.
pub open spec fn flag_value(args: Seq<Seq<char>>, i: nat) -> Option<Seq<char>> {
    if i + 1 < args.len() {
        Some(args[i as int + 1])
    } else {
        None
    }
}

/// The limit that a text denotes, or what is wrong with it.
pub open spec fn limit_of(value: Option<Seq<char>>) -> Result<u64, Seq<char>> {
    match value {
        None => Err("--limit requires a value"@),
        Some(raw) => match unsigned_value(raw, u64::MAX as nat) {
            None => Err("--limit must be a non-negative integer"@),
            Some(n) => Ok(n as u64),
        },
    }
}

/// The flags of `best-matches` from the place `i` on. The last limit counts.
pub open spec fn best_matches_from(args: Seq<Seq<char>>, i: nat, limit: Option<u64>) -> Result<
    VerbView,
    Seq<char>,
>
    decreases args.len() - i,
{
    if i >= args.len() {
        Ok(VerbView::BestMatches { limit })
    } else if args[i as int] == "--limit"@ {
        match limit_of(flag_value(args, i)) {
            Err(e) => Err(e),
            Ok(n) => best_matches_from(args, i + 2, Some(n)),
        }
    } else {
        Err("unknown argument (expected: --limit)"@)
    }
}

/// The flags of `found-jobs` from the place `i` on. The last of each flag counts.
pub open spec fn found_jobs_from(
    args: Seq<Seq<char>>,
    i: nat,
    id: Seq<char>,
    limit: Option<u64>,
    cursor: Option<Seq<char>>,
) -> Result<VerbView, Seq<char>>
    decreases args.len() - i,
{
    if i >= args.len() {
        Ok(VerbView::FoundJobs { autopilot_id: id, limit, cursor })
    } else if args[i as int] == "--limit"@ {
        match limit_of(flag_value(args, i)) {
            Err(e) => Err(e),
            Ok(n) => found_jobs_from(args, i + 2, id, Some(n), cursor),
        }
    } else if args[i as int] == "--cursor"@ {
        match flag_value(args, i) {
            None => Err("--cursor requires a value"@),
            Some(raw) => found_jobs_from(args, i + 2, id, limit, Some(raw)),
        }
    } else {
        Err("unknown argument (expected: --limit, --cursor)"@)
    }
}

/// The input that a text denotes, or what is wrong with it.
pub open spec fn input_of(value: Option<Seq<char>>) -> Result<JsonView, Seq<char>> {
    match value {
        None => Err("--input requires a value"@),
        Some(raw) => match parsed_json(raw) {
            None => Err("--input must be valid JSON"@),
            Some(j) => if j is Object {
                Ok(j)
            } else {
                Err("--input must be a JSON object"@)
            },
        },
    }
}

/// The flags of `call` from the place `i` on. The last of each flag counts.
pub open spec fn call_from(
    args: Seq<Seq<char>>,
    i: nat,
    namespace: Seq<char>,
    command: Seq<char>,
    input: JsonView,
    confirm: Option<Seq<char>>,
) -> Result<VerbView, Seq<char>>
    decreases args.len() - i,
{
    if i >= args.len() {
        Ok(VerbView::Call { namespace, command, input, confirm })
    } else if args[i as int] == "--input"@ {
        match input_of(flag_value(args, i)) {
            Err(e) => Err(e),
            Ok(j) => call_from(args, i + 2, namespace, command, j, confirm),
        }
    } else if args[i as int] == "--confirm"@ {
        match flag_value(args, i) {
            None => Err("--confirm requires a value"@),
            Some(raw) => call_from(args, i + 2, namespace, command, input, Some(raw)),
        }
    } else {
        Err("unknown argument (expected: --input, --confirm)"@)
    }
}

/// The first argument behind the verb, where it is not empty.
pub open spec fn operand(args: Seq<Seq<char>>) -> Option<Seq<char>> {
    if args.len() > 1 && args[1].len() > 0 {
        Some(args[1])
    } else {
        None
    }
}

/// The namespace and the command that a target names.
pub open spec fn call_target(target: Seq<char>) -> Option<(Seq<char>, Seq<char>)> {
    let namespace = before_first(target, ':');
    let command = after_first(target, ':');
    if target.contains(':') && namespace.len() > 0 && command.len() > 0 {
        Some((namespace, command))
    } else {
        None
    }
}

/// The verb that the arguments say, or what is wrong with them. What was typed is never part of
/// what is said.
pub open spec fn verb_of(args: Seq<Seq<char>>) -> Result<VerbView, Seq<char>> {
    if args.len() == 0 {
        Err(missing_verb_text())
    } else if args[0] == "best-matches"@ {
        best_matches_from(args, 1, None)
    } else if args[0] == "job"@ {
        match operand(args) {
            None => Err("job requires a <url> argument"@),
            Some(url) => Ok(VerbView::Job { url }),
        }
    } else if args[0] == "profile"@ {
        Ok(VerbView::Profile)
    } else if args[0] == "automations"@ {
        Ok(VerbView::Automations)
    } else if args[0] == "schema"@ {
        Ok(VerbView::Schema)
    } else if args[0] == "found-jobs"@ {
        match operand(args) {
            None => Err("found-jobs requires an <autopilotId> argument"@),
            Some(id) => found_jobs_from(args, 2, id, None, None),
        }
    } else if args[0] == "call"@ {
        match operand(args) {
            None => Err("call requires a <namespace>:<command> argument"@),
            Some(target) => match call_target(target) {
                None => Err(
                    "call's first argument must be <namespace>:<command> (see `agent schema` or the MCP `commands` tool)"@,
                ),
                Some((namespace, command)) => call_from(
                    args,
                    2,
                    namespace,
                    command,
                    JsonView::Object(Seq::empty()),
                    None,
                ),
            },
        }
    } else {
        Err(unknown_verb_text())
    }
}

/// Whether a result is what the arguments say.
pub open spec fn reads_as(r: Result<Verb, AppError>, said: Result<VerbView, Seq<char>>) -> bool {
    match r {
        Ok(verb) => said == Ok::<VerbView, Seq<char>>(verb@),
        Err(e) => e@ is Validation && said == Err::<VerbView, Seq<char>>(e@.message()),
    }
}

fn usage<T>(message: &str) -> (r: Result<T, AppError>)
    ensures
        r matches Err(e) && e@ == ErrorView::Validation(message@),
{
    Err(AppError::Validation(owned(message)))
}

fn read_limit(args: &[String], i: usize) -> (r: Result<u64, AppError>)
    requires
        i < args@.len(),
    ensures
        match r {
            Ok(n) => limit_of(flag_value(texts(args@), i as nat)) == Ok::<u64, Seq<char>>(n),
            Err(e) => e@ is Validation && limit_of(flag_value(texts(args@), i as nat)) == Err::<
                u64,
                Seq<char>,
            >(e@.message()),
        },
{
    if args.len() - i <= 1 {
        return usage("--limit requires a value");
    }
    assert(texts(args@)[i as int + 1] == args@[i as int + 1]@);
    match parse_unsigned(args[i + 1].as_str(), u64::MAX) {
        Some(n) => Ok(n),
        None => usage("--limit must be a non-negative integer"),
    }
}

fn parse_best_matches(args: &[String]) -> (r: Result<Verb, AppError>)
    requires
        args@.len() > 0,
    ensures
        reads_as(r, best_matches_from(texts(args@), 1, None)),
{
    let ghost av = texts(args@);
    let mut limit: Option<u64> = None;
    let mut i: usize = 1;
    while i < args.len()
        invariant
            av == texts(args@),
            best_matches_from(av, 1, None) == best_matches_from(av, i as nat, limit),
        decreases args@.len() - i,
    {
        assert(av[i as int] == args@[i as int]@);
        if !str_eq(args[i].as_str(), "--limit") {
            return usage("unknown argument (expected: --limit)");
        }
        match read_limit(args, i) {
            Ok(n) => {
                limit = Some(n);
            },
            Err(e) => return Err(e),
        }
        i = i + 2;
    }
    Ok(Verb::BestMatches { limit })
}

fn parse_found_jobs(args: &[String], id: String) -> (r: Result<Verb, AppError>)
    requires
        args@.len() > 1,
    ensures
        reads_as(r, found_jobs_from(texts(args@), 2, id@, None, None)),
{
    let ghost av = texts(args@);
    let mut limit: Option<u64> = None;
    let mut cursor: Option<String> = None;
    let mut i: usize = 2;
    while i < args.len()
        invariant
            av == texts(args@),
            found_jobs_from(av, 2, id@, None, None) == found_jobs_from(
                av,
                i as nat,
                id@,
                limit,
                opt_text(cursor),
            ),
        decreases args@.len() - i,
    {
        assert(av[i as int] == args@[i as int]@);
        if str_eq(args[i].as_str(), "--limit") {
            match read_limit(args, i) {
                Ok(n) => {
                    limit = Some(n);
                },
                Err(e) => return Err(e),
            }
        } else if str_eq(args[i].as_str(), "--cursor") {
            if args.len() - i <= 1 {
                return usage("--cursor requires a value");
            }
            assert(av[i as int + 1] == args@[i as int + 1]@);
            cursor = Some(args[i + 1].clone());
        } else {
            return usage("unknown argument (expected: --limit, --cursor)");
        }
        i = i + 2;
    }
    Ok(Verb::FoundJobs { autopilot_id: id, limit, cursor })
}

fn read_input(args: &[String], i: usize) -> (r: Result<Json, AppError>)
    requires
        i < args@.len(),
    ensures
        match r {
            Ok(j) => input_of(flag_value(texts(args@), i as nat)) == Ok::<JsonView, Seq<char>>(j@),
            Err(e) => e@ is Validation && input_of(flag_value(texts(args@), i as nat)) == Err::<
                JsonView,
                Seq<char>,
            >(e@.message()),
        },
{
    if args.len() - i <= 1 {
        return usage("--input requires a value");
    }
    assert(texts(args@)[i as int + 1] == args@[i as int + 1]@);
    match Json::parse(args[i + 1].as_str()) {
        None => usage("--input must be valid JSON"),
        Some(j) => match j {
            Json::Object(v) => Ok(Json::Object(v)),
            _ => usage("--input must be a JSON object"),
        },
    }
}

fn parse_call(args: &[String], namespace: String, command: String) -> (r: Result<Verb, AppError>)
    requires
        args@.len() > 1,
    ensures
        reads_as(
            r,
            call_from(
                texts(args@),
                2,
                namespace@,
                command@,
                JsonView::Object(Seq::empty()),
                None,
            ),
        ),
{
    let ghost av = texts(args@);
    let ghost said = call_from(
        av,
        2,
        namespace@,
        command@,
        JsonView::Object(Seq::empty()),
        None,
    );
    let mut input: Json = ObjectBuilder::new().build();
    let mut confirm: Option<String> = None;
    let mut i: usize = 2;
    while i < args.len()
        invariant
            av == texts(args@),
            said == call_from(
                av,
                2,
                namespace@,
                command@,
                JsonView::Object(Seq::empty()),
                None,
            ),
            said == call_from(av, i as nat, namespace@, command@, input@, opt_text(confirm)),
        decreases args@.len() - i,
    {
        assert(av[i as int] == args@[i as int]@);
        if str_eq(args[i].as_str(), "--input") {
            match read_input(args, i) {
                Ok(j) => {
                    input = j;
                },
                Err(e) => return Err(e),
            }
        } else if str_eq(args[i].as_str(), "--confirm") {
            if args.len() - i <= 1 {
                return usage("--confirm requires a value");
            }
            assert(av[i as int + 1] == args@[i as int + 1]@);
            confirm = Some(args[i + 1].clone());
        } else {
            return usage("unknown argument (expected: --input, --confirm)");
        }
        i = i + 2;
    }
    Ok(Verb::Call { namespace, command, input, confirm })
}

fn listing_error(start: &str) -> (r: AppError)
    ensures
        r@ == ErrorView::Validation(start@ + joined(verb_names(), "|"@) + ")"@),
{
    let mut message: String = owned(start);
    message.append(verb_names_joined().as_str());
    message.append(")");
    AppError::Validation(message)
}

fn read_operand(args: &[String]) -> (r: Option<String>)
    ensures
        opt_text(r) == operand(texts(args@)),
{
    if args.len() > 1 {
        assert(texts(args@)[1] == args@[1]@);
        if !args[1].as_str().is_empty() {
            return Some(args[1].clone());
        }
    }
    None
}

/// Reads the verb and its arguments.
pub fn parse_verb(args: &[String]) -> (r: Result<Verb, AppError>)
    ensures
        reads_as(r, verb_of(texts(args@))),
{
    if args.len() == 0 {
        return Err(listing_error("missing verb (run `ajh-tauri agent --help`; expected one of: "));
    }
    assert(texts(args@)[0] == args@[0]@);
    let name: &str = args[0].as_str();
    if str_eq(name, "best-matches") {
        parse_best_matches(args)
    } else if str_eq(name, "job") {
        match read_operand(args) {
            None => usage("job requires a <url> argument"),
            Some(url) => Ok(Verb::Job { url }),
        }
    } else if str_eq(name, "profile") {
        Ok(Verb::Profile)
    } else if str_eq(name, "automations") {
        Ok(Verb::Automations)
    } else if str_eq(name, "schema") {
        Ok(Verb::Schema)
    } else if str_eq(name, "found-jobs") {
        match read_operand(args) {
            None => usage("found-jobs requires an <autopilotId> argument"),
            Some(id) => parse_found_jobs(args, id),
        }
    } else if str_eq(name, "call") {
        match read_operand(args) {
            None => usage("call requires a <namespace>:<command> argument"),
            Some(target) => {
                if let Some((namespace, command)) = split_once(target.as_str(), ':') {
                    if !namespace.as_str().is_empty() && !command.as_str().is_empty() {
                        return parse_call(args, namespace, command);
                    }
                }
                usage(
                    "call's first argument must be <namespace>:<command> (see `agent schema` or the MCP `commands` tool)",
                )
            },
        }
    } else {
        Err(listing_error("unknown verb (run `ajh-tauri agent --help`; expected one of: "))
    }
}

// ── Laws ────────────────────────────────────────────────────────────────────

/// Whether a text is one of those that are said of wrong arguments. None of them depends on what
/// was typed.
pub open spec fn fixed_text(m: Seq<char>) -> bool {
    ||| m == missing_verb_text()
    ||| m == unknown_verb_text()
    ||| m == "--limit requires a value"@
    ||| m == "--limit must be a non-negative integer"@
    ||| m == "unknown argument (expected: --limit)"@
    ||| m == "job requires a <url> argument"@
    ||| m == "found-jobs requires an <autopilotId> argument"@
    ||| m == "--cursor requires a value"@
    ||| m == "unknown argument (expected: --limit, --cursor)"@
    ||| m == "call requires a <namespace>:<command> argument"@
    ||| m
        == "call's first argument must be <namespace>:<command> (see `agent schema` or the MCP `commands` tool)"@
    ||| m == "--input requires a value"@
    ||| m == "--input must be valid JSON"@
    ||| m == "--input must be a JSON object"@
    ||| m == "--confirm requires a value"@
    ||| m == "unknown argument (expected: --input, --confirm)"@
}

proof fn lemma_best_matches_text(args: Seq<Seq<char>>, i: nat, limit: Option<u64>)
    ensures
        best_matches_from(args, i, limit) matches Err(m) ==> fixed_text(m),
    decreases args.len() - i,
{
    if i < args.len() && args[i as int] == "--limit"@ {
        if let Ok(n) = limit_of(flag_value(args, i)) {
            lemma_best_matches_text(args, i + 2, Some(n));
        }
    }
}

proof fn lemma_found_jobs_text(
    args: Seq<Seq<char>>,
    i: nat,
    id: Seq<char>,
    limit: Option<u64>,
    cursor: Option<Seq<char>>,
)
    ensures
        found_jobs_from(args, i, id, limit, cursor) matches Err(m) ==> fixed_text(m),
    decreases args.len() - i,
{
    if i < args.len() {
        if args[i as int] == "--limit"@ {
            if let Ok(n) = limit_of(flag_value(args, i)) {
                lemma_found_jobs_text(args, i + 2, id, Some(n), cursor);
            }
        } else if args[i as int] == "--cursor"@ && flag_value(args, i) is Some {
            lemma_found_jobs_text(args, i + 2, id, limit, flag_value(args, i));
        }
    }
}

proof fn lemma_call_text(
    args: Seq<Seq<char>>,
    i: nat,
    namespace: Seq<char>,
    command: Seq<char>,
    input: JsonView,
    confirm: Option<Seq<char>>,
)
    ensures
        call_from(args, i, namespace, command, input, confirm) matches Err(m) ==> fixed_text(m),
    decreases args.len() - i,
{
    if i < args.len() {
        if args[i as int] == "--input"@ {
            if let Ok(j) = input_of(flag_value(args, i)) {
                lemma_call_text(args, i + 2, namespace, command, j, confirm);
            }
        } else if args[i as int] == "--confirm"@ && flag_value(args, i) is Some {
            lemma_call_text(args, i + 2, namespace, command, input, flag_value(args, i));
        }
    }
}

/// Whatever is typed, what is said of it is one of the fixed texts: an argument, which may hold a
/// path or a secret, never comes back in an error.
pub proof fn errors_never_echo_arguments(args: Seq<Seq<char>>)
    ensures
        verb_of(args) matches Err(m) ==> fixed_text(m),
{
    lemma_best_matches_text(args, 1, None);
    if operand(args) is Some {
        lemma_found_jobs_text(args, 2, operand(args)->0, None, None);
        if let Some((namespace, command)) = call_target(operand(args)->0) {
            lemma_call_text(
                args,
                2,
                namespace,
                command,
                JsonView::Object(Seq::empty()),
                None,
            );
        }
    }
}

/// A first argument that the table of verbs does not name is refused with the list of those that
/// it names.
pub proof fn only_listed_verbs_are_read(args: Seq<Seq<char>>)
    requires
        args.len() > 0,
        !verb_names().contains(args[0]),
    ensures
        verb_of(args) == Err::<VerbView, Seq<char>>(unknown_verb_text()),
{
    let names = verb_names();
    assert(names[0] == "best-matches"@);
    assert(names[1] == "job"@);
    assert(names[2] == "profile"@);
    assert(names[3] == "automations"@);
    assert(names[4] == "schema"@);
    assert(names[5] == "found-jobs"@);
    assert(names[6] == "call"@);
}

proof fn lemma_verb_names_differ()
    ensures
        "job"@ != "best-matches"@,
        "profile"@ != "best-matches"@,
        "profile"@ != "job"@,
        "automations"@ != "best-matches"@,
        "automations"@ != "job"@,
        "automations"@ != "profile"@,
        "schema"@ != "best-matches"@,
        "schema"@ != "job"@,
        "schema"@ != "profile"@,
        "schema"@ != "automations"@,
        "found-jobs"@ != "best-matches"@,
        "found-jobs"@ != "job"@,
        "found-jobs"@ != "profile"@,
        "found-jobs"@ != "automations"@,
        "found-jobs"@ != "schema"@,
        "call"@ != "best-matches"@,
        "call"@ != "job"@,
        "call"@ != "profile"@,
        "call"@ != "automations"@,
        "call"@ != "schema"@,
        "call"@ != "found-jobs"@,
{
    reveal_strlit("best-matches");
    reveal_strlit("job");
    reveal_strlit("profile");
    reveal_strlit("automations");
    reveal_strlit("schema");
    reveal_strlit("found-jobs");
    reveal_strlit("call");
    assert("best-matches"@[0] == 'b');
    assert("job"@[0] == 'j');
    assert("profile"@[0] == 'p');
    assert("automations"@[0] == 'a');
    assert("schema"@[0] == 's');
    assert("found-jobs"@[0] == 'f');
    assert("call"@[0] == 'c');
}

/// Every verb that the table names is read with no more than what it needs: alone, or with one
/// operand that is not empty, which for `call` is a namespace and a command.
pub proof fn listed_verbs_are_read(name: Seq<char>, what: Seq<char>)
    requires
        verb_names().contains(name),
        what.len() > 0,
        name == "call"@ ==> call_target(what) is Some,
    ensures
        name == "job"@ || name == "found-jobs"@ || name == "call"@ ==> verb_of(
            seq![name, what],
        ) is Ok,
        name != "job"@ && name != "found-jobs"@ && name != "call"@ ==> verb_of(seq![name]) is Ok,
        verb_of(seq![name, what]) matches Ok(v) ==> v.resource() == name,
{
    lemma_verb_names_differ();
    let i = choose|i: int| 0 <= i < verb_names().len() && verb_names()[i] == name;
    assert(verb_names()[0] == "best-matches"@);
    assert(verb_names()[1] == "job"@);
    assert(verb_names()[2] == "profile"@);
    assert(verb_names()[3] == "automations"@);
    assert(verb_names()[4] == "schema"@);
    assert(verb_names()[5] == "found-jobs"@);
    assert(verb_names()[6] == "call"@);
    let args = seq![name, what];
    assert(operand(args) == Some(what));
    lemma_best_matches_kind(args, 1, None);
}

proof fn lemma_best_matches_kind(args: Seq<Seq<char>>, i: nat, limit: Option<u64>)
    ensures
        best_matches_from(args, i, limit) matches Ok(v) ==> v is BestMatches,
    decreases args.len() - i,
{
    if i < args.len() && args[i as int] == "--limit"@ {
        if let Ok(n) = limit_of(flag_value(args, i)) {
            lemma_best_matches_kind(args, i + 2, Some(n));
        }
    }
}

/// Names are joined in their order with the separator between two of them, and at neither end.
pub proof fn joining_puts_separators_between(
    names: Seq<Seq<char>>,
    more: Seq<char>,
    separator: Seq<char>,
)
    ensures
        joined(seq![more], separator) == more,
        names.len() > 0 ==> joined(names.push(more), separator) == joined(names, separator)
            + separator + more,
{
    assert(names.push(more).drop_last() =~= names);
}

/// What is said of a missing or an unknown verb lists the verbs that there are.
pub proof fn verb_errors_list_the_verbs()
    ensures
        missing_verb_text() == "missing verb (run `ajh-tauri agent --help`; expected one of: "@
            + joined(verb_names(), "|"@) + ")"@,
        unknown_verb_text() == "unknown verb (run `ajh-tauri agent --help`; expected one of: "@
            + joined(verb_names(), "|"@) + ")"@,
        verb_of(Seq::<Seq<char>>::empty()) == Err::<VerbView, Seq<char>>(missing_verb_text()),
{
}

/// The table says of each verb what it takes and what it returns.
pub proof fn table_says_what_each_verb_returns(row: HelpRow)
    requires
        verb_rows().contains(row),
    ensures
        row.name == "best-matches"@ ==> row.args == "[--limit <n>]"@ && row.returns == "the strongest jobs across every autopilot (default 20, max 50)"@,
        row.name == "job"@ ==> row.args == "<url>"@ && row.returns == "full detail for one posting"@,
        row.name == "profile"@ ==> row.args == ""@ && row.returns == "contact-profile fields for autofill (same consent gate as the extension's profile.get)"@,
        row.name == "automations"@ ==> row.args == ""@ && row.returns == "every autopilot and its status"@,
        row.name == "schema"@ ==> row.args == ""@ && row.returns == "this resource list, as machine-readable JSON"@,
        row.name == "found-jobs"@ ==> row.args == "<autopilotId> [--limit <n>] [--cursor <c>]"@ && row.returns == "one page of an autopilot's complete found-jobs list (default/max limit and the cursor format are documented on `agent_read::resolve_found_jobs`); repeat with the returned cursor until it comes back null to traverse the whole list"@,
        row.name == "call"@ ==> row.args == "<namespace>:<command> [--input '<json>'] [--confirm '<value>']"@ && row.returns == "ADR-038 §2's generic dispatch tier — Read/Reversible commands dispatch directly; an Irreversible command needs --confirm '<value>' (a proof read from ANOTHER command, named but never disclosed by a --confirm-less call — exit 4); NotExposed always refuses (see `agent schema`, the MCP `commands` tool, or policy.rs for the full table)"@,
{
    lemma_verb_names_differ();
    let i = choose|i: int| 0 <= i < verb_rows().len() && verb_rows()[i] == row;
    assert(verb_rows()[0].name == "best-matches"@);
    assert(verb_rows()[1].name == "job"@);
    assert(verb_rows()[2].name == "profile"@);
    assert(verb_rows()[3].name == "automations"@);
    assert(verb_rows()[4].name == "schema"@);
    assert(verb_rows()[5].name == "found-jobs"@);
    assert(verb_rows()[6].name == "call"@);
}

} // verus!
