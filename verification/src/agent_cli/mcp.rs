//! The server mode: what it is allowed to do, and what it offers.
use vstd::prelude::*;

use crate::json::{Json, JsonView};
use crate::text::{str_eq, texts};

verus! {

// ── Tiers ───────────────────────────────────────────────────────────────────

/// What a server may do.
#[derive(Debug, Clone, Copy, PartialEq, Eq, Structural)]
pub enum Tier {
    /// Read.
    Read,
    /// Also change what can be changed back.
    Reversible,
    /// Also change what cannot.
    Irreversible,
}

impl Tier {
    /// Whether the server may change what can be changed back.
    pub fn allows_reversible(self) -> (r: bool)
        ensures
            r == (self != Tier::Read),
    {
        match self {
            Tier::Read => false,
            _ => true,
        }
    }

    /// Whether the server may change what cannot be changed back.
    pub fn allows_irreversible(self) -> (r: bool)
        ensures
            r == (self == Tier::Irreversible),
    {
        match self {
            Tier::Irreversible => true,
            _ => false,
        }
    }

    /// The tier of a launch with these flags. Either flag stands for itself and what lies below.
    pub fn from_flags(reversible: bool, irreversible: bool) -> (r: Self)
        ensures
            r == tier_of(reversible, irreversible),
    {
        if irreversible {
            Tier::Irreversible
        } else if reversible {
            Tier::Reversible
        } else {
            Tier::Read
        }
    }
}

/// The tier of a launch with these flags.
pub open spec fn tier_of(reversible: bool, irreversible: bool) -> Tier {
    if irreversible {
        Tier::Irreversible
    } else if reversible {
        Tier::Reversible
    } else {
        Tier::Read
    }
}

// ── Launch ──────────────────────────────────────────────────────────────────

/// What the arguments of a launch ask for.
#[derive(Debug, Clone, Copy, PartialEq, Eq, Structural)]
pub struct LaunchArgs {
    pub help: bool,
    pub allow_reversible: bool,
    pub allow_irreversible: bool,
}

impl Default for LaunchArgs {
    fn default() -> (r: Self)
        ensures
            r == (LaunchArgs { help: false, allow_reversible: false, allow_irreversible: false }),
    {
        LaunchArgs { help: false, allow_reversible: false, allow_irreversible: false }
    }
}

/// An argument that is not a flag of a launch.
#[derive(Debug, Clone, Copy, PartialEq, Eq, Structural)]
pub struct UnknownFlag;

/// Whether an argument is a flag of a launch.
pub open spec fn is_flag(arg: Seq<char>) -> bool {
    arg == "--help"@ || arg == "--allow-reversible"@ || arg == "--allow-irreversible"@
}

/// What the arguments of a launch ask for: each flag counts wherever it stands, and nothing but
/// flags is accepted.
pub open spec fn launch_args(args: Seq<Seq<char>>) -> Result<LaunchArgs, UnknownFlag> {
    if forall|i: int| 0 <= i < args.len() ==> is_flag(#[trigger] args[i]) {
        Ok(
            LaunchArgs {
                help: args.contains("--help"@),
                allow_reversible: args.contains("--allow-reversible"@),
                allow_irreversible: args.contains("--allow-irreversible"@),
            },
        )
    } else {
        Err(UnknownFlag)
    }
}

/// What the arguments of a launch ask for.
pub fn parse_launch_args(args: &[String]) -> (r: Result<LaunchArgs, UnknownFlag>)
    ensures
        r == launch_args(texts(args@)),
{
    let ghost all = texts(args@);
    let mut out: LaunchArgs = LaunchArgs::default();
    let mut i: usize = 0;
    while i < args.len()
        invariant
            i <= args@.len(),
            all == texts(args@),
            forall|k: int| 0 <= k < i ==> is_flag(#[trigger] all[k]),
            out.help == exists|k: int| 0 <= k < i && #[trigger] all[k] == "--help"@,
            out.allow_reversible == exists|k: int|
                0 <= k < i && #[trigger] all[k] == "--allow-reversible"@,
            out.allow_irreversible == exists|k: int|
                0 <= k < i && #[trigger] all[k] == "--allow-irreversible"@,
        decreases args@.len() - i,
    {
        let arg: &str = args[i].as_str();
        assert(all[i as int] == arg@);
        proof {
            flags_differ();
        }
        if str_eq(arg, "--help") {
            out.help = true;
        } else if str_eq(arg, "--allow-reversible") {
            out.allow_reversible = true;
        } else if str_eq(arg, "--allow-irreversible") {
            out.allow_irreversible = true;
        } else {
            assert(!is_flag(all[i as int]));
            return Err(UnknownFlag);
        }
        i = i + 1;
    }
    Ok(out)
}

proof fn flags_differ()
    ensures
        "--help"@ != "--allow-reversible"@,
        "--help"@ != "--allow-irreversible"@,
        "--allow-reversible"@ != "--allow-irreversible"@,
{
    reveal_strlit("--help");
    reveal_strlit("--allow-reversible");
    reveal_strlit("--allow-irreversible");
    assert("--help"@.len() == 6);
    assert("--allow-reversible"@.len() == 18);
    assert("--allow-irreversible"@.len() == 20);
}

// ── Tools ───────────────────────────────────────────────────────────────────

/// The names of the tools that a server of a tier offers.
pub open spec fn tools_of(tier: Tier) -> Seq<Seq<char>> {
    let read = seq![
        "best-matches"@,
        "job"@,
        "profile"@,
        "automations"@,
        "found-jobs"@,
        "commands"@,
        "call-read"@,
    ];
    match tier {
        Tier::Read => read,
        Tier::Reversible => read.push("call-reversible"@),
        Tier::Irreversible => read.push("call-reversible"@).push("call-irreversible"@),
    }
}

/// The names of a list as values.
pub open spec fn names_view(v: Seq<&'static str>) -> Seq<Seq<char>> {
    Seq::new(v.len(), |i: int| v[i]@)
}

/// The names of the tools that a server of a tier offers.
pub fn tool_names(tier: Tier) -> (r: Vec<&'static str>)
    ensures
        names_view(r@) == tools_of(tier),
{
    let mut v: Vec<&'static str> = Vec::new();
    v.push("best-matches");
    v.push("job");
    v.push("profile");
    v.push("automations");
    v.push("found-jobs");
    v.push("commands");
    v.push("call-read");
    if tier.allows_reversible() {
        v.push("call-reversible");
    }
    if tier.allows_irreversible() {
        v.push("call-irreversible");
    }
    assert(names_view(v@) =~= tools_of(tier));
    v
}

/// A server with what it may do and what it offers.
pub struct Server {
    pub tier: Tier,
    pub tools: Vec<&'static str>,
}

impl Server {
    /// The server of a launch with these flags.
    pub fn new(allow_reversible: bool, allow_irreversible: bool) -> (r: Self)
        ensures
            r.tier == tier_of(allow_reversible, allow_irreversible),
            names_view(r.tools@) == tools_of(r.tier),
    {
        let tier: Tier = Tier::from_flags(allow_reversible, allow_irreversible);
        Server { tier, tools: tool_names(tier) }
    }
}

// ── Versions ────────────────────────────────────────────────────────────────

/// The version of the protocol that is answered where none that is known was asked for.
pub const DEFAULT_VERSION: &'static str = "2025-11-25";

/// The version of the protocol that is answered: the one that was asked for where it is known, else
/// the default.
pub open spec fn version_for(params: JsonView) -> Seq<char> {
    match params.text_at("protocolVersion"@) {
        Some(v) => if v == "2025-06-18"@ || v == "2025-03-26"@ || v == "2024-11-05"@ || v
            == "2024-10-07"@ {
            v
        } else {
            DEFAULT_VERSION@
        },
        None => DEFAULT_VERSION@,
    }
}

/// The version of the protocol that is answered.
pub fn negotiated_version(params: &Json) -> (r: &'static str)
    ensures
        r@ == version_for(params@),
{
    match params.str_at("protocolVersion") {
        Some(v) => if str_eq(v, "2025-06-18") {
            "2025-06-18"
        } else if str_eq(v, "2025-03-26") {
            "2025-03-26"
        } else if str_eq(v, "2024-11-05") {
            "2024-11-05"
        } else if str_eq(v, "2024-10-07") {
            "2024-10-07"
        } else {
            DEFAULT_VERSION
        },
        None => DEFAULT_VERSION,
    }
}

// ── Laws ────────────────────────────────────────────────────────────────────

/// A server never offers a tool that changes something beyond its tier, and a higher tier offers
/// everything that a lower one does.
pub proof fn tools_follow_the_tier(tier: Tier)
    ensures
        tools_of(tier).contains("call-reversible"@) <==> tier != Tier::Read,
        tools_of(tier).contains("call-irreversible"@) <==> tier == Tier::Irreversible,
        forall|i: int|
            0 <= i < tools_of(Tier::Read).len() ==> #[trigger] tools_of(tier)[i] == tools_of(
                Tier::Read,
            )[i],
{
    reveal_strlit("best-matches");
    reveal_strlit("job");
    reveal_strlit("profile");
    reveal_strlit("automations");
    reveal_strlit("found-jobs");
    reveal_strlit("commands");
    reveal_strlit("call-read");
    reveal_strlit("call-reversible");
    reveal_strlit("call-irreversible");
    assert("best-matches"@.len() == 12 && "job"@.len() == 3 && "profile"@.len() == 7
        && "automations"@.len() == 11 && "found-jobs"@.len() == 10 && "commands"@.len() == 8
        && "call-read"@.len() == 9 && "call-reversible"@.len() == 15 && "call-irreversible"@.len()
        == 17);
    let t = tools_of(tier);
    if tier != Tier::Read {
        assert(t[7] == "call-reversible"@);
    }
    if tier == Tier::Irreversible {
        assert(t[8] == "call-irreversible"@);
    }
}

} // verus!
