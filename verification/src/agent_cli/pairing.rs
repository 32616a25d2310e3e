//! Finding the application: its data directory, its token and the port that it listens on.
use vstd::prelude::*;

use crate::agent_cli::help::{ERR_APP_NOT_RUNNING, ERR_CONNECTION_ERROR, ERR_PAIRING_REJECTED};
use crate::agent_cli::wire::{parse_auth_ok, parse_challenge, proof_in, server_nonce_in};
use crate::json::Json;
use crate::text::{blank, chars_of, opt_text, trim, trimmed, trimmed_empty_iff_blank};

verus! {

// ── The data directory and the token ────────────────────────────────────────

/// Whether a character separates the parts of a path, on one system or another.
pub open spec fn separator(c: char) -> bool {
    c == '\\' || c == '/'
}

/// Whether a path begins with two separators, which makes it the path of another machine.
pub open spec fn names_a_host(path: Seq<char>) -> bool {
    path.len() >= 2 && separator(path[0]) && separator(path[1])
}

/// Whether a path begins at the root of a drive, as `c:\` does.
pub open spec fn names_a_drive(path: Seq<char>) -> bool {
    path.len() >= 3 && path[1] == ':' && separator(path[2])
}

/// Whether a path begins at a root: that of the file system, of a drive or of another machine.
pub open spec fn rooted(path: Seq<char>) -> bool {
    (path.len() >= 1 && path[0] == '/') || names_a_drive(path) || names_a_host(path)
}

/// `std::path::Path::is_absolute`: whether the path is absolute on this system. On Unix such a
/// path starts with the root. On Windows it has a prefix and starts with the root, where the
/// prefix is a drive or begins with two separators. So a path that begins at no root is not
/// absolute on either. Which of the rooted paths are, differs between the two and is not said.
#[verifier::external_body]
fn path_is_absolute(path: &str) -> (r: bool)
    ensures
        r ==> rooted(path@),
{
    std::path::Path::new(path).is_absolute()
}

/// Whether a path can be read without leaving this machine, where `absolute` says whether the
/// system calls it absolute.
pub fn is_local_path(path: &str, absolute: bool) -> (r: bool)
    ensures
        r == (absolute && !names_a_host(path@)),
{
    let v: Vec<char> = chars_of(path);
    let host: bool = v.len() >= 2 && (v[0] == '\\' || v[0] == '/') && (v[1] == '\\' || v[1] == '/');
    absolute && !host
}

/// Whether a data directory is an absolute path on this machine. A path that names a host is
/// refused in every spelling before anything is read from it, and so is a relative one. Of the
/// others the system says which it calls absolute.
pub fn is_safe_local_data_dir(data_dir: &str) -> (r: bool)
    ensures
        names_a_host(data_dir@) ==> !r,
        !rooted(data_dir@) ==> !r,
{
    let absolute: bool = path_is_absolute(data_dir);
    is_local_path(data_dir, absolute)
}

/// The token that a file holds: its text without the white space round it, none where that leaves
/// nothing.
pub open spec fn token_in(text: Seq<char>) -> Option<Seq<char>> {
    if trimmed(text).len() > 0 {
        Some(trimmed(text))
    } else {
        None
    }
}

/// The token that a file holds.
pub fn pairing_token(text: &str) -> (r: Option<String>)
    ensures
        opt_text(r) == token_in(text@),
{
    let token: String = trim(text);
    if token.as_str().is_empty() {
        None
    } else {
        Some(token)
    }
}

/// Whether `out` is what `read` gave for a directory.
pub open spec fn read_as<R: Fn(&str) -> Option<String>>(
    read: R,
    data_dir: Seq<char>,
    out: Option<Seq<char>>,
) -> bool {
    exists|d: &str, text: Option<String>|
        d@ == data_dir && opt_text(text) == out && #[trigger] read.ensures((d,), text)
}

/// The token in a data directory, with `read` for the text of its token file. Where the directory
/// is not an absolute path on this machine, `absolute` saying what the system calls it, nothing
/// is read, and no other directory is read in any case: `read` is asked of no more than this one.
pub fn token_in_dir<R: Fn(&str) -> Option<String>>(
    data_dir: &str,
    absolute: bool,
    read: &R,
) -> (r: Option<String>)
    requires
        absolute && !names_a_host(data_dir@) ==> read.requires((data_dir,)),
    ensures
        if absolute && !names_a_host(data_dir@) {
            exists|text: Option<Seq<char>>| #[trigger]
                read_as(*read, data_dir@, text) && opt_text(r) == (match text {
                    Some(s) => token_in(s),
                    None => None,
                })
        } else {
            r is None
        },
{
    if !is_local_path(data_dir, absolute) {
        return None;
    }
    let text: Option<String> = read(data_dir);
    assert(read.ensures((data_dir,), text));
    assert(read_as(*read, data_dir@, opt_text(text)));
    match &text {
        Some(s) => pairing_token(s.as_str()),
        None => None,
    }
}

/// The token in a data directory, with `read` for the text of its token file. A path that names a
/// host is not read and gives none, and neither does a relative one. Which of the others the
/// system calls absolute is not known here: what is said holds either way.
pub fn read_pairing_token<R: Fn(&str) -> Option<String>>(data_dir: &str, read: &R) -> (r: Option<
    String,
>)
    requires
        rooted(data_dir@) && !names_a_host(data_dir@) ==> read.requires((data_dir,)),
    ensures
        names_a_host(data_dir@) ==> r is None,
        !rooted(data_dir@) ==> r is None,
        r is Some ==> exists|text: Option<Seq<char>>| #[trigger]
            read_as(*read, data_dir@, text) && text is Some && token_in(text->0) == opt_text(r),
{
    let absolute: bool = path_is_absolute(data_dir);
    token_in_dir(data_dir, absolute, read)
}

/// A file gives a token exactly where it is not blank.
pub proof fn token_missing_iff_blank(text: Seq<char>)
    ensures
        token_in(text) is None <==> blank(text),
{
    trimmed_empty_iff_blank(text);
}

// ── One port ────────────────────────────────────────────────────────────────

/// Why a port was of no use.
#[derive(Debug, Clone, Copy, PartialEq, Eq, Structural)]
pub enum PortOutcome {
    /// Nothing answered that speaks the protocol.
    NoUpgrade,
    /// The connection ended before the token was tried. It says nothing about the token.
    PreAuthError,
    /// The token was tried and not accepted.
    ProofRejected,
}

/// What the handshake with a port waits for.
#[derive(Debug, Clone, Copy, PartialEq, Eq, Structural)]
pub enum PortPhase {
    /// The connection.
    Connect,
    /// The greeting to be sent.
    Greet,
    /// The challenge.
    Challenge,
    /// The proof of the token to be sent.
    Prove,
    /// The answer to the proof.
    Answer,
    /// The proof of the other side to be checked.
    Check,
    /// Nothing.
    Over,
}

/// What to do next.
#[derive(Debug, PartialEq, Eq)]
pub enum PortStep {
    /// Send the greeting.
    SendHello,
    /// Wait for a frame.
    AwaitFrame,
    /// Send the proof of the token for this nonce of the other side.
    SendAuth(String),
    /// Check this proof of the other side.
    VerifyProof(String),
    /// The port is the application.
    Accept,
    /// The port is of no use.
    Reject(PortOutcome),
}

/// [`PortStep`] as values.
pub enum PortStepView {
    SendHello,
    AwaitFrame,
    SendAuth(Seq<char>),
    VerifyProof(Seq<char>),
    Accept,
    Reject(PortOutcome),
}

impl View for PortStep {
    type V = PortStepView;

    open spec fn view(&self) -> PortStepView {
        match self {
            PortStep::SendHello => PortStepView::SendHello,
            PortStep::AwaitFrame => PortStepView::AwaitFrame,
            PortStep::SendAuth(nonce) => PortStepView::SendAuth(nonce@),
            PortStep::VerifyProof(evidence) => PortStepView::VerifyProof(evidence@),
            PortStep::Accept => PortStepView::Accept,
            PortStep::Reject(outcome) => PortStepView::Reject(*outcome),
        }
    }
}

/// The handshake with one port.
pub struct PortAttempt {
    phase: PortPhase,
}

impl View for PortAttempt {
    type V = PortPhase;

    closed spec fn view(&self) -> PortPhase {
        self.phase
    }
}

/// The end of a handshake.
pub open spec fn rejected(outcome: PortOutcome) -> (PortPhase, PortStepView) {
    (PortPhase::Over, PortStepView::Reject(outcome))
}

/// The turn after the connection was tried: a port that does not speak the protocol is no use.
pub open spec fn after_connect(upgraded: bool) -> (PortPhase, PortStepView) {
    if upgraded {
        (PortPhase::Greet, PortStepView::SendHello)
    } else {
        rejected(PortOutcome::NoUpgrade)
    }
}

/// The turn after the greeting was sent.
pub open spec fn after_hello(sent: bool) -> (PortPhase, PortStepView) {
    if sent {
        (PortPhase::Challenge, PortStepView::AwaitFrame)
    } else {
        rejected(PortOutcome::PreAuthError)
    }
}

/// The turn after the wait for the challenge: `nonce` is what a proper one holds.
pub open spec fn after_challenge(nonce: Option<Seq<char>>) -> (PortPhase, PortStepView) {
    match nonce {
        Some(n) => (PortPhase::Prove, PortStepView::SendAuth(n)),
        None => rejected(PortOutcome::PreAuthError),
    }
}

/// The turn after the proof was sent. Where it could not be sent, the token was not tried.
pub open spec fn after_auth(sent: bool) -> (PortPhase, PortStepView) {
    if sent {
        (PortPhase::Answer, PortStepView::AwaitFrame)
    } else {
        rejected(PortOutcome::PreAuthError)
    }
}

/// The turn after the wait for the answer: from here on anything but a proper answer counts as a
/// rejection of the token.
pub open spec fn after_answer(evidence: Option<Seq<char>>) -> (PortPhase, PortStepView) {
    match evidence {
        Some(p) => (PortPhase::Check, PortStepView::VerifyProof(p)),
        None => rejected(PortOutcome::ProofRejected),
    }
}

/// The turn after the proof of the other side was checked.
pub open spec fn after_check(verified: bool) -> (PortPhase, PortStepView) {
    if verified {
        (PortPhase::Over, PortStepView::Accept)
    } else {
        rejected(PortOutcome::ProofRejected)
    }
}

impl PortAttempt {
    /// A handshake that waits for the connection.
    pub fn new() -> (r: Self)
        ensures
            r@ == PortPhase::Connect,
    {
        PortAttempt { phase: PortPhase::Connect }
    }

    fn end(&mut self, outcome: PortOutcome) -> (r: PortStep)
        ensures
            (final(self)@, r@) == rejected(outcome),
    {
        self.phase = PortPhase::Over;
        PortStep::Reject(outcome)
    }

    /// The connection was tried; `upgraded` says whether the port speaks the protocol.
    pub fn connected(&mut self, upgraded: bool) -> (r: PortStep)
        requires
            old(self)@ == PortPhase::Connect,
        ensures
            (final(self)@, r@) == after_connect(upgraded),
    {
        if !upgraded {
            return self.end(PortOutcome::NoUpgrade);
        }
        self.phase = PortPhase::Greet;
        PortStep::SendHello
    }

    /// The greeting was sent, or could not be.
    pub fn hello_sent(&mut self, sent: bool) -> (r: PortStep)
        requires
            old(self)@ == PortPhase::Greet,
        ensures
            (final(self)@, r@) == after_hello(sent),
    {
        if !sent {
            return self.end(PortOutcome::PreAuthError);
        }
        self.phase = PortPhase::Challenge;
        PortStep::AwaitFrame
    }

    /// A frame came, or none did. `valid` says whether a text has the form of a nonce.
    pub fn challenged<F: Fn(&str) -> bool>(&mut self, frame: Option<&Json>, valid: &F) -> (r:
        PortStep)
        requires
            old(self)@ == PortPhase::Challenge,
            forall|nonce: &str| valid.requires((nonce,)),
        ensures
            exists|nonce: Option<Seq<char>>| #[trigger]
                after_challenge(nonce) == (final(self)@, r@) && (match frame {
                    Some(j) => match nonce {
                        Some(n) => server_nonce_in(j@) == Some(n) && exists|text: &str|
                            text@ == n && #[trigger] valid.ensures((text,), true),
                        None => server_nonce_in(j@) is None || exists|text: &str|
                            text@ == server_nonce_in(j@)->0 && #[trigger] valid.ensures(
                                (text,),
                                false,
                            ),
                    },
                    None => nonce is None,
                }),
    {
        let nonce: Option<String> = match frame {
            Some(j) => parse_challenge(j, valid),
            None => None,
        };
        let ghost got = opt_text(nonce);
        let r: PortStep = match nonce {
            Some(n) => {
                self.phase = PortPhase::Prove;
                PortStep::SendAuth(n)
            },
            None => self.end(PortOutcome::PreAuthError),
        };
        assert(after_challenge(got) == (self@, r@));
        r
    }

    /// The proof was sent, or could not be.
    pub fn auth_sent(&mut self, sent: bool) -> (r: PortStep)
        requires
            old(self)@ == PortPhase::Prove,
        ensures
            (final(self)@, r@) == after_auth(sent),
    {
        if !sent {
            return self.end(PortOutcome::PreAuthError);
        }
        self.phase = PortPhase::Answer;
        PortStep::AwaitFrame
    }

    /// A frame came, or none did.
    pub fn answered(&mut self, frame: Option<&Json>) -> (r: PortStep)
        requires
            old(self)@ == PortPhase::Answer,
        ensures
            (final(self)@, r@) == after_answer(
                match frame {
                    Some(j) => proof_in(j@),
                    None => None,
                },
            ),
    {
        let evidence: Option<String> = match frame {
            Some(j) => parse_auth_ok(j),
            None => None,
        };
        match evidence {
            Some(p) => {
                self.phase = PortPhase::Check;
                PortStep::VerifyProof(p)
            },
            None => self.end(PortOutcome::ProofRejected),
        }
    }

    /// The proof of the other side was checked.
    pub fn checked(&mut self, verified: bool) -> (r: PortStep)
        requires
            old(self)@ == PortPhase::Check,
        ensures
            (final(self)@, r@) == after_check(verified),
    {
        if !verified {
            return self.end(PortOutcome::ProofRejected);
        }
        self.phase = PortPhase::Over;
        PortStep::Accept
    }
}

/// Whether a turn accepts the port or says that it rejected the token.
pub open spec fn judges_token(turn: (PortPhase, PortStepView)) -> bool {
    turn.1 == PortStepView::Accept || turn.1 == PortStepView::Reject(PortOutcome::ProofRejected)
}

/// A port is accepted only where its proof was checked and is right. The token is blamed only after
/// the proof of it was sent: nothing before that says anything about the token.
pub proof fn token_is_judged_only_after_the_proof(
    ok: bool,
    nonce: Option<Seq<char>>,
    evidence: Option<Seq<char>>,
)
    ensures
        !judges_token(after_connect(ok)),
        !judges_token(after_hello(ok)),
        !judges_token(after_challenge(nonce)),
        !judges_token(after_auth(ok)),
        after_answer(evidence).1 != PortStepView::Accept,
        after_check(ok).1 == PortStepView::Accept <==> ok,
        !ok ==> after_check(ok) == rejected(PortOutcome::ProofRejected),
        evidence is None ==> after_answer(evidence) == rejected(PortOutcome::ProofRejected),
{
}

// ── All ports ───────────────────────────────────────────────────────────────

/// Why no port was the application.
#[derive(Debug, Clone, Copy, PartialEq, Eq, Structural)]
pub enum PairingFailure {
    /// No port answered.
    AppNotRunning,
    /// Every port that answered rejected the token.
    PairingRejected,
    /// A port that answered failed before the token was tried.
    ConnectionError,
}

/// What the outcomes of all ports say together. A single port that failed before the token was
/// tried keeps the verdict off the token.
pub open spec fn pairing_verdict(outcomes: Seq<PortOutcome>) -> PairingFailure {
    if forall|i: int| 0 <= i < outcomes.len() ==> (#[trigger] outcomes[i]) == PortOutcome::NoUpgrade {
        PairingFailure::AppNotRunning
    } else if exists|i: int|
        0 <= i < outcomes.len() && (#[trigger] outcomes[i]) == PortOutcome::PreAuthError {
        PairingFailure::ConnectionError
    } else {
        PairingFailure::PairingRejected
    }
}

/// What the outcomes of all ports say together.
pub fn classify_pairing_failure(outcomes: &[PortOutcome]) -> (r: PairingFailure)
    ensures
        r == pairing_verdict(outcomes@),
{
    let mut upgraded: bool = false;
    let mut early: bool = false;
    let mut i: usize = 0;
    while i < outcomes.len()
        invariant
            i <= outcomes@.len(),
            upgraded == exists|k: int|
                0 <= k < i && (#[trigger] outcomes@[k]) != PortOutcome::NoUpgrade,
            early == exists|k: int|
                0 <= k < i && (#[trigger] outcomes@[k]) == PortOutcome::PreAuthError,
        decreases outcomes@.len() - i,
    {
        let o: PortOutcome = outcomes[i];
        if o != PortOutcome::NoUpgrade {
            assert(outcomes@[i as int] != PortOutcome::NoUpgrade);
            upgraded = true;
        }
        if o == PortOutcome::PreAuthError {
            assert(outcomes@[i as int] == PortOutcome::PreAuthError);
            early = true;
        }
        i = i + 1;
    }
    if !upgraded {
        PairingFailure::AppNotRunning
    } else if early {
        PairingFailure::ConnectionError
    } else {
        PairingFailure::PairingRejected
    }
}

/// The search for the port of the application.
pub struct PortSearch {
    ports: Vec<u16>,
    outcomes: Vec<PortOutcome>,
}

/// [`PortSearch`] as values: the ports in the order in which they are tried, and how the first of
/// them fared.
pub struct SearchView {
    pub ports: Seq<u16>,
    pub outcomes: Seq<PortOutcome>,
}

impl View for PortSearch {
    type V = SearchView;

    closed spec fn view(&self) -> SearchView {
        SearchView { ports: self.ports@, outcomes: self.outcomes@ }
    }
}

impl SearchView {
    /// The port to try next, where one is left.
    pub open spec fn next(self) -> Option<u16> {
        if self.outcomes.len() < self.ports.len() {
            Some(self.ports[self.outcomes.len() as int])
        } else {
            None
        }
    }
}

impl PortSearch {
    /// A search over these ports.
    pub fn new(ports: Vec<u16>) -> (r: Self)
        ensures
            r@ == (SearchView { ports: ports@, outcomes: Seq::empty() }),
    {
        PortSearch { ports, outcomes: Vec::new() }
    }

    /// The port to try next, where one is left.
    pub fn next_port(&self) -> (r: Option<u16>)
        ensures
            r == self@.next(),
    {
        if self.outcomes.len() < self.ports.len() {
            Some(self.ports[self.outcomes.len()])
        } else {
            None
        }
    }

    /// The port that was tried is of no use.
    pub fn rejected(&mut self, outcome: PortOutcome)
        requires
            old(self)@.next() is Some,
        ensures
            final(self)@ == (SearchView {
                ports: old(self)@.ports,
                outcomes: old(self)@.outcomes.push(outcome),
            }),
    {
        self.outcomes.push(outcome);
    }

    /// What the ports that were tried say together.
    pub fn failure(&self) -> (r: PairingFailure)
        ensures
            r == pairing_verdict(self@.outcomes),
    {
        classify_pairing_failure(self.outcomes.as_slice())
    }
}

/// The error that a failure is reported as.
pub fn pairing_failure_sentinel(f: PairingFailure) -> (r: &'static str)
    ensures
        r@ == (match f {
            PairingFailure::AppNotRunning => ERR_APP_NOT_RUNNING@,
            PairingFailure::PairingRejected => ERR_PAIRING_REJECTED@,
            PairingFailure::ConnectionError => ERR_CONNECTION_ERROR@,
        }),
{
    match f {
        PairingFailure::AppNotRunning => ERR_APP_NOT_RUNNING,
        PairingFailure::PairingRejected => ERR_PAIRING_REJECTED,
        PairingFailure::ConnectionError => ERR_CONNECTION_ERROR,
    }
}

/// The token is blamed only where some port tried it, and every port that answered rejected it.
pub proof fn token_blamed_only_when_tried(outcomes: Seq<PortOutcome>)
    requires
        pairing_verdict(outcomes) == PairingFailure::PairingRejected,
    ensures
        exists|i: int|
            0 <= i < outcomes.len() && (#[trigger] outcomes[i]) == PortOutcome::ProofRejected,
        forall|i: int|
            0 <= i < outcomes.len() ==> (#[trigger] outcomes[i]) == PortOutcome::NoUpgrade
                || outcomes[i] == PortOutcome::ProofRejected,
{
    let k = choose|k: int|
        0 <= k < outcomes.len() && (#[trigger] outcomes[k]) != PortOutcome::NoUpgrade;
    assert(outcomes[k] == PortOutcome::ProofRejected);
}

} // verus!
