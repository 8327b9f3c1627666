use vstd::prelude::*;
use crate::error::{ErrorKind, Fault, MacError};
use crate::mac::{parse_spec, render, MacAddress};
use crate::network::{CardView, NetworkCard};
use crate::text::names;

verus! {

/// The host platforms that differ in how an address is changed.
#[derive(Debug, Clone, Copy, PartialEq, Eq, Structural)]
pub enum Platform {
    Linux,
    Windows,
    /// A host for which no way of changing an address is known.
    Other,
}

/// How far a change has come. A run passes through the phases in the
/// order written here and ends in `Done` or `Aborted`.
#[derive(Debug, Clone, Copy, PartialEq, Eq, Structural)]
pub enum Phase {
    /// Nothing has been done.
    Idle,
    /// The caller holds the rights that the change needs.
    PrivilegeChecked,
    /// The interface exists and its address can be changed.
    InterfaceVerified,
    /// The network-management service was asked to stand aside.
    ServiceDrained,
    /// The link is down.
    LinkDown,
    /// The address is set.
    AddressSet,
    /// The link is up again.
    LinkUp,
    /// The network-management service was asked to come back.
    ServiceRestored,
    /// The interface reports the requested address; it is yet to be made
    /// permanent.
    Verified,
    /// The change is complete and confirmed.
    Done,
    /// The change was given up.
    Aborted,
}

/// What the host is to do next.
#[derive(Debug, Clone, Copy, PartialEq, Eq, Structural)]
pub enum Action {
    /// Find out whether the caller holds elevated rights; report `Privilege`.
    CheckPrivilege,
    /// Look the interface up among those of the host; report `Interface`.
    VerifyInterface,
    /// Ask the network-management service to stop; report `Service`.
    DrainService,
    /// Bring the link down; report `Command`.
    SetLinkDown,
    /// Wait one second, then bring the link down; report `Command`.
    PauseThenSetLinkDown,
    /// Set the requested address; report `Command`.
    SetAddress,
    /// Bring the link up; report `Command`.
    SetLinkUp,
    /// Ask the network-management service to start; report `Service`.
    RestoreService,
    /// Wait one second, then read the address of the interface; report `Address`.
    SettleThenReadAddress,
    /// Make the address permanent; report `Command`.
    PersistAddress,
    /// Nothing: the run has ended.
    Finished,
}

/// How many seconds the host waits before it carries out a step: one
/// before the link is told to go down again, one before the address is
/// read back, none otherwise.
pub open spec fn delay_of(action: Action) -> u64 {
    match action {
        Action::PauseThenSetLinkDown => 1,
        Action::SettleThenReadAddress => 1,
        _ => 0,
    }
}

impl Action {
    /// How many seconds the host waits before it carries out the step.
    pub fn delay_seconds(&self) -> (seconds: u64)
        ensures
            seconds == delay_of(*self),
    {
        match self {
            Action::PauseThenSetLinkDown => 1,
            Action::SettleThenReadAddress => 1,
            _ => 0,
        }
    }
}

/// A command that failed, with all it printed.
#[derive(Debug)]
pub struct CommandFailure {
    pub command: String,
    pub args: Vec<String>,
    pub stdout: String,
    pub stderr: String,
}

/// What a failed command says, with its texts as sequences of characters.
pub struct FailureView {
    pub command: Seq<char>,
    pub args: Seq<Seq<char>>,
    pub stdout: Seq<char>,
    pub stderr: Seq<char>,
}

impl View for CommandFailure {
    type V = FailureView;

    open spec fn view(&self) -> FailureView {
        FailureView {
            command: self.command@,
            args: names(self.args@),
            stdout: self.stdout@,
            stderr: self.stderr@,
        }
    }
}

/// What the host reports after it has done what it was asked.
#[derive(Debug)]
pub enum Event {
    /// Whether the caller holds elevated rights.
    Privilege(bool),
    /// The interface as the host knows it, or why it cannot be used.
    Interface(Result<NetworkCard, MacError>),
    /// The network-management service was asked; how that went is of no account.
    Service,
    /// How a command ended.
    Command(Result<(), CommandFailure>),
    /// The address that the interface reports, as text, or why it cannot be read.
    Address(Result<String, MacError>),
}

/// A report, with its texts as sequences of characters.
pub enum EventView {
    Privilege(bool),
    Interface(Result<CardView, Fault>),
    Service,
    Command(Result<(), FailureView>),
    Address(Result<Seq<char>, Fault>),
}

impl View for Event {
    type V = EventView;

    open spec fn view(&self) -> EventView {
        match self {
            Event::Privilege(elevated) => EventView::Privilege(*elevated),
            Event::Interface(Ok(card)) => EventView::Interface(Ok(card@)),
            Event::Interface(Err(e)) => EventView::Interface(Err(e@)),
            Event::Service => EventView::Service,
            Event::Command(Ok(_)) => EventView::Command(Ok(())),
            Event::Command(Err(f)) => EventView::Command(Err(f@)),
            Event::Address(Ok(text)) => EventView::Address(Ok(text@)),
            Event::Address(Err(e)) => EventView::Address(Err(e@)),
        }
    }
}

/// One change of one interface's address, from request to outcome.
#[derive(Debug)]
pub struct ChangeAttempt {
    platform: Platform,
    phase: Phase,
    interface: String,
    target: MacAddress,
    permanent: bool,
    can_persist: bool,
    attempts: u8,
    last_failure: Option<CommandFailure>,
    error: Option<MacError>,
    observed: Option<String>,
    persisted: bool,
}

/// The state of a change, with its texts as sequences of characters.
pub struct AttemptView {
    pub platform: Platform,
    pub phase: Phase,
    pub interface: Seq<char>,
    /// The requested address.
    pub target: MacAddress,
    /// Whether a permanent change was asked for.
    pub permanent: bool,
    /// Whether the interface can keep an address across restarts.
    pub can_persist: bool,
    /// How often the link was told to go down.
    pub attempts: nat,
    /// The last command that failed.
    pub last_failure: Option<FailureView>,
    /// Why the change was given up.
    pub error: Option<Fault>,
    /// The address text read back from the interface after the change.
    pub observed: Option<Seq<char>>,
    /// Whether the address was made permanent.
    pub persisted: bool,
}

/// How a change ended.
#[derive(Debug)]
pub enum Outcome {
    /// The interface carries the address; `permanent` says whether it was
    /// also made permanent.
    Done { applied: MacAddress, permanent: bool },
    /// The change was given up for the reason carried.
    Aborted(MacError),
}

/// How often the link is told to go down before the change is given up.
pub open spec fn link_down_tries() -> nat {
    3
}

/// The text that tells a caller which rights are missing.
pub open spec fn privilege_text(platform: Platform) -> Seq<char> {
    match platform {
        Platform::Windows =>
            "This program must be run with Administrator privileges. Please use as admin."@,
        _ => "This program must be run with root privileges. Please use sudo."@,
    }
}

/// The text that explains a host without support.
pub open spec fn unsupported_platform_text() -> Seq<char> {
    "Unsupported operating system"@
}

/// The text that explains an interface whose address cannot be changed.
pub open spec fn fixed_address_text(interface: Seq<char>) -> Seq<char> {
    "Interface "@ + interface + " does not support MAC address changes"@
}

/// The text that a failed command leaves: what it wrote to its error
/// stream, or else what it wrote to its output, or else a fixed text.
pub open spec fn output_text(stdout: Seq<char>, stderr: Seq<char>) -> Seq<char> {
    if stderr.len() > 0 {
        stderr
    } else if stdout.len() > 0 {
        stdout
    } else {
        "Unknown error"@
    }
}

/// The text that a failed command leaves.
pub open spec fn failure_text(failure: FailureView) -> Seq<char> {
    output_text(failure.stdout, failure.stderr)
}

/// The text that reports an interface whose address is not the requested
/// one after the change: both addresses are named.
pub open spec fn mismatch_text(expected: Seq<char>, found: Seq<char>) -> Seq<char> {
    "MAC address change verification failed. Expected "@ + expected + ", got "@ + found
}

/// Whether a text names the address: it reads as an address with the same
/// six octets, whatever its notation and letter case.
pub open spec fn confirms(text: Seq<char>, target: MacAddress) -> bool {
    parse_spec(text) matches Some(read) && read.0 == target.octets()
}

/// A change that has been given up for a reason.
pub open spec fn aborted(a: AttemptView, fault: Fault) -> AttemptView {
    AttemptView { phase: Phase::Aborted, error: Some(fault), ..a }
}

/// A change that has been given up because a command failed.
pub open spec fn failed(a: AttemptView, failure: FailureView) -> AttemptView {
    AttemptView {
        phase: Phase::Aborted,
        error: Some(Fault { kind: ErrorKind::SystemError, detail: failure_text(failure) }),
        last_failure: Some(failure),
        ..a
    }
}

/// A change that has reached a phase.
pub open spec fn reached(a: AttemptView, phase: Phase) -> AttemptView {
    AttemptView { phase, ..a }
}

/// The state in which every change starts.
pub open spec fn initial(
    platform: Platform,
    interface: Seq<char>,
    target: MacAddress,
    permanent: bool,
) -> AttemptView {
    AttemptView {
        platform,
        phase: if platform == Platform::Other {
            Phase::Aborted
        } else {
            Phase::Idle
        },
        interface,
        target,
        permanent,
        can_persist: false,
        attempts: 0,
        last_failure: None,
        error: if platform == Platform::Other {
            Some(
                Fault { kind: ErrorKind::UnsupportedPlatform, detail: unsupported_platform_text() },
            )
        } else {
            None
        },
        observed: None,
        persisted: false,
    }
}

/// The text that explains an address that the filter turns away.
pub open spec fn denied_text() -> Seq<char> {
    "MAC address is not allowed by the filter"@
}

/// The state in which a change starts once the filter has given its
/// verdict on the requested address: a change of a denied address has
/// ended before it starts.
pub open spec fn screened_start(
    platform: Platform,
    interface: Seq<char>,
    target: MacAddress,
    permanent: bool,
    allowed: bool,
) -> AttemptView {
    if allowed {
        initial(platform, interface, target, permanent)
    } else {
        AttemptView {
            phase: Phase::Aborted,
            error: Some(Fault { kind: ErrorKind::ValidationFailed, detail: denied_text() }),
            ..initial(platform, interface, target, permanent)
        }
    }
}

/// The state after a report. A report that does not answer what the phase
/// asks for changes nothing; neither does any report once the run has ended.
pub open spec fn advance_spec(a: AttemptView, e: EventView) -> AttemptView {
    match (a.phase, e) {
        (Phase::Idle, EventView::Privilege(elevated)) => if elevated {
            reached(a, Phase::PrivilegeChecked)
        } else {
            aborted(
                a,
                Fault { kind: ErrorKind::PermissionDenied, detail: privilege_text(a.platform) },
            )
        },
        (Phase::PrivilegeChecked, EventView::Interface(Ok(card))) => if card.supports_mac_change {
            AttemptView {
                phase: Phase::InterfaceVerified,
                can_persist: card.permanent_change_supported,
                ..a
            }
        } else {
            aborted(
                a,
                Fault {
                    kind: ErrorKind::ValidationFailed,
                    detail: fixed_address_text(a.interface),
                },
            )
        },
        (Phase::PrivilegeChecked, EventView::Interface(Err(fault))) => aborted(a, fault),
        (Phase::InterfaceVerified, EventView::Service) => reached(a, Phase::ServiceDrained),
        (Phase::ServiceDrained, EventView::Command(Ok(_))) => AttemptView {
            phase: Phase::LinkDown,
            attempts: a.attempts + 1,
            ..a
        },
        (Phase::ServiceDrained, EventView::Command(Err(failure))) => if a.attempts + 1
            >= link_down_tries() {
            AttemptView { attempts: a.attempts + 1, ..failed(a, failure) }
        } else {
            AttemptView { attempts: a.attempts + 1, last_failure: Some(failure), ..a }
        },
        (Phase::LinkDown, EventView::Command(Ok(_))) => reached(a, Phase::AddressSet),
        (Phase::LinkDown, EventView::Command(Err(failure))) => failed(a, failure),
        (Phase::AddressSet, EventView::Command(Ok(_))) => reached(a, Phase::LinkUp),
        (Phase::AddressSet, EventView::Command(Err(failure))) => failed(a, failure),
        (Phase::LinkUp, EventView::Service) => reached(a, Phase::ServiceRestored),
        (Phase::ServiceRestored, EventView::Address(Ok(text))) => if confirms(text, a.target) {
            AttemptView {
                phase: if a.permanent && a.can_persist {
                    Phase::Verified
                } else {
                    Phase::Done
                },
                observed: Some(text),
                ..a
            }
        } else {
            AttemptView {
                observed: Some(text),
                ..aborted(
                    a,
                    Fault {
                        kind: ErrorKind::ValidationFailed,
                        detail: mismatch_text(render(a.target.octets(), a.target.notation()), text),
                    },
                )
            }
        },
        (Phase::ServiceRestored, EventView::Address(Err(fault))) => aborted(a, fault),
        (Phase::Verified, EventView::Command(Ok(_))) => AttemptView {
            phase: Phase::Done,
            persisted: true,
            ..a
        },
        (Phase::Verified, EventView::Command(Err(failure))) => failed(a, failure),
        _ => a,
    }
}

/// What the host is to do in a state.
pub open spec fn pending_spec(a: AttemptView) -> Action {
    match a.phase {
        Phase::Idle => Action::CheckPrivilege,
        Phase::PrivilegeChecked => Action::VerifyInterface,
        Phase::InterfaceVerified => Action::DrainService,
        Phase::ServiceDrained => if a.attempts == 0 {
            Action::SetLinkDown
        } else {
            Action::PauseThenSetLinkDown
        },
        Phase::LinkDown => Action::SetAddress,
        Phase::AddressSet => Action::SetLinkUp,
        Phase::LinkUp => Action::RestoreService,
        Phase::ServiceRestored => Action::SettleThenReadAddress,
        Phase::Verified => Action::PersistAddress,
        Phase::Done => Action::Finished,
        Phase::Aborted => Action::Finished,
    }
}

/// What holds of every state that a run can reach. The link is told to go
/// down at most three times; a reason is recorded exactly when the change
/// is given up; the change is past verification only if the interface
/// reported the requested address; and an address is made permanent
/// exactly when that was asked for and the interface can keep it.
pub open spec fn is_sound(a: AttemptView) -> bool {
    &&& a.attempts <= link_down_tries()
    &&& (a.phase == Phase::Idle || a.phase == Phase::PrivilegeChecked || a.phase
        == Phase::InterfaceVerified || a.phase == Phase::ServiceDrained) ==> a.attempts
        < link_down_tries()
    &&& a.phase == Phase::Aborted <==> a.error is Some
    &&& (a.phase == Phase::Verified || a.phase == Phase::Done) ==> (a.observed matches Some(text)
        && confirms(text, a.target))
    &&& a.phase == Phase::Verified ==> a.permanent && a.can_persist && !a.persisted
    &&& a.phase == Phase::Done ==> (a.persisted <==> a.permanent && a.can_persist)
    &&& a.phase != Phase::Done ==> !a.persisted
}

/// The state after a run of reports, taken in order.
pub open spec fn run(a: AttemptView, events: Seq<EventView>) -> AttemptView
    decreases events.len(),
{
    if events.len() == 0 {
        a
    } else {
        advance_spec(run(a, events.drop_last()), events.last())
    }
}

/// The text that a failed command leaves, given what it wrote to its
/// output and to its error stream.
pub fn output_message(stdout: &str, stderr: &str) -> (text: String)
    ensures
        text@ == output_text(stdout@, stderr@),
{
    if !stderr.is_empty() {
        stderr.to_string()
    } else if !stdout.is_empty() {
        stdout.to_string()
    } else {
        "Unknown error".to_string()
    }
}

/// The text that a failed command leaves.
pub fn failure_message(failure: &CommandFailure) -> (text: String)
    ensures
        text@ == failure_text(failure@),
{
    output_message(failure.stdout.as_str(), failure.stderr.as_str())
}

/// The text that reports that the interface carries another address than
/// the requested one.
pub fn mismatch_message(expected: &str, found: &str) -> (text: String)
    ensures
        text@ == mismatch_text(expected@, found@),
{
    let mut text = "MAC address change verification failed. Expected ".to_string();
    text.append(expected);
    text.append(", got ");
    text.append(found);
    text
}

/// Whether a text names the address, whatever its notation and letter case.
pub fn is_confirmed_by(target: &MacAddress, text: &str) -> (same: bool)
    ensures
        same == confirms(text@, *target),
{
    match MacAddress::parse(text) {
        Ok(read) => {
            let a = read.get_bytes();
            let b = target.get_bytes();
            let same = a[0] == b[0] && a[1] == b[1] && a[2] == b[2] && a[3] == b[3] && a[4] == b[4]
                && a[5] == b[5];
            proof {
                if same {
                    assert(read.octets() =~= target.octets());
                }
            }
            same
        },
        Err(_) => false,
    }
}

impl ChangeAttempt {
    /// The state of the change.
    pub closed spec fn view(&self) -> AttemptView {
        AttemptView {
            platform: self.platform,
            phase: self.phase,
            interface: self.interface@,
            target: self.target,
            permanent: self.permanent,
            can_persist: self.can_persist,
            attempts: self.attempts as nat,
            last_failure: match self.last_failure {
                Some(f) => Some(f@),
                None => None,
            },
            error: match self.error {
                Some(e) => Some(e@),
                None => None,
            },
            observed: match self.observed {
                Some(text) => Some(text@),
                None => None,
            },
            persisted: self.persisted,
        }
    }

    /// A change that is about to start. On a host without support it has
    /// ended before it starts, as `UnsupportedPlatform`.
    pub fn new(platform: Platform, interface: &str, target: MacAddress, permanent: bool) -> (attempt:
        ChangeAttempt)
        ensures
            attempt@ == initial(platform, interface@, target, permanent),
            is_sound(attempt@),
    {
        let supported = match platform {
            Platform::Other => false,
            _ => true,
        };
        ChangeAttempt {
            platform,
            phase: if supported {
                Phase::Idle
            } else {
                Phase::Aborted
            },
            interface: interface.to_string(),
            target,
            permanent,
            can_persist: false,
            attempts: 0,
            last_failure: None,
            error: if supported {
                None
            } else {
                Some(MacError::UnsupportedPlatform("Unsupported operating system".to_string()))
            },
            observed: None,
            persisted: false,
        }
    }

    /// A change that is about to start, given the filter's verdict on the
    /// requested address. A denied address is never acted on: its change
    /// has ended before it starts, as a failed validation.
    pub fn screened(
        platform: Platform,
        interface: &str,
        target: MacAddress,
        permanent: bool,
        allowed: bool,
    ) -> (attempt: ChangeAttempt)
        ensures
            attempt@ == screened_start(platform, interface@, target, permanent, allowed),
            is_sound(attempt@),
    {
        if allowed {
            ChangeAttempt::new(platform, interface, target, permanent)
        } else {
            ChangeAttempt {
                platform,
                phase: Phase::Aborted,
                interface: interface.to_string(),
                target,
                permanent,
                can_persist: false,
                attempts: 0,
                last_failure: None,
                error: Some(
                    MacError::ValidationFailed(
                        "MAC address is not allowed by the filter".to_string(),
                    ),
                ),
                observed: None,
                persisted: false,
            }
        }
    }

    #[verifier::type_invariant]
    spec fn sound(&self) -> bool {
        is_sound(self@)
    }

    fn abort(self, error: MacError) -> (next: ChangeAttempt)
        requires
            self@.phase != Phase::Done,
        ensures
            next@ == aborted(self@, error@),
    {
        proof {
            use_type_invariant(&self);
        }
        ChangeAttempt { phase: Phase::Aborted, error: Some(error), ..self }
    }

    fn fail(self, failure: CommandFailure) -> (next: ChangeAttempt)
        requires
            self@.phase != Phase::Done,
        ensures
            next@ == failed(self@, failure@),
    {
        proof {
            use_type_invariant(&self);
        }
        ChangeAttempt {
            phase: Phase::Aborted,
            error: Some(MacError::SystemError(failure_message(&failure))),
            last_failure: Some(failure),
            ..self
        }
    }

    fn privilege_message(&self) -> (text: String)
        ensures
            text@ == privilege_text(self@.platform),
    {
        match self.platform {
            Platform::Windows =>
                "This program must be run with Administrator privileges. Please use as admin.".to_string(),
            _ => "This program must be run with root privileges. Please use sudo.".to_string(),
        }
    }

    fn fixed_address_message(&self) -> (text: String)
        ensures
            text@ == fixed_address_text(self@.interface),
    {
        let mut text = "Interface ".to_string();
        text.append(self.interface.as_str());
        text.append(" does not support MAC address changes");
        text
    }

    /// Takes a report from the host and moves the change on.
    pub fn advance(self, event: Event) -> (next: ChangeAttempt)
        ensures
            next@ == advance_spec(self@, event@),
            is_sound(next@),
    {
        proof {
            use_type_invariant(&self);
        }
        match self.phase {
            Phase::Idle => match event {
                Event::Privilege(elevated) => {
                    if elevated {
                        ChangeAttempt { phase: Phase::PrivilegeChecked, ..self }
                    } else {
                        let text = self.privilege_message();
                        self.abort(MacError::PermissionDenied(text))
                    }
                },
                _ => self,
            },
            Phase::PrivilegeChecked => match event {
                Event::Interface(Ok(card)) => {
                    if card.supports_mac_change {
                        ChangeAttempt {
                            phase: Phase::InterfaceVerified,
                            can_persist: card.permanent_change_supported,
                            ..self
                        }
                    } else {
                        let text = self.fixed_address_message();
                        self.abort(MacError::ValidationFailed(text))
                    }
                },
                Event::Interface(Err(error)) => self.abort(error),
                _ => self,
            },
            Phase::InterfaceVerified => match event {
                Event::Service => ChangeAttempt { phase: Phase::ServiceDrained, ..self },
                _ => self,
            },
            Phase::ServiceDrained => match event {
                Event::Command(Ok(_)) => ChangeAttempt {
                    phase: Phase::LinkDown,
                    attempts: self.attempts + 1,
                    ..self
                },
                Event::Command(Err(failure)) => {
                    if self.attempts + 1 >= 3 {
                        ChangeAttempt {
                            phase: Phase::Aborted,
                            attempts: self.attempts + 1,
                            error: Some(MacError::SystemError(failure_message(&failure))),
                            last_failure: Some(failure),
                            ..self
                        }
                    } else {
                        ChangeAttempt {
                            attempts: self.attempts + 1,
                            last_failure: Some(failure),
                            ..self
                        }
                    }
                },
                _ => self,
            },
            Phase::LinkDown => match event {
                Event::Command(Ok(_)) => ChangeAttempt { phase: Phase::AddressSet, ..self },
                Event::Command(Err(failure)) => self.fail(failure),
                _ => self,
            },
            Phase::AddressSet => match event {
                Event::Command(Ok(_)) => ChangeAttempt { phase: Phase::LinkUp, ..self },
                Event::Command(Err(failure)) => self.fail(failure),
                _ => self,
            },
            Phase::LinkUp => match event {
                Event::Service => ChangeAttempt { phase: Phase::ServiceRestored, ..self },
                _ => self,
            },
            Phase::ServiceRestored => match event {
                Event::Address(Ok(text)) => {
                    if is_confirmed_by(&self.target, text.as_str()) {
                        ChangeAttempt {
                            phase: if self.permanent && self.can_persist {
                                Phase::Verified
                            } else {
                                Phase::Done
                            },
                            observed: Some(text),
                            ..self
                        }
                    } else {
                        let expected = self.target.as_string();
                        let message = mismatch_message(expected.as_str(), text.as_str());
                        ChangeAttempt {
                            phase: Phase::Aborted,
                            error: Some(MacError::ValidationFailed(message)),
                            observed: Some(text),
                            ..self
                        }
                    }
                },
                Event::Address(Err(error)) => self.abort(error),
                _ => self,
            },
            Phase::Verified => match event {
                Event::Command(Ok(_)) => ChangeAttempt {
                    phase: Phase::Done,
                    persisted: true,
                    ..self
                },
                Event::Command(Err(failure)) => self.fail(failure),
                _ => self,
            },
            Phase::Done => self,
            Phase::Aborted => self,
        }
    }

    /// What the host is to do next.
    pub fn pending(&self) -> (action: Action)
        ensures
            action == pending_spec(self@),
    {
        match self.phase {
            Phase::Idle => Action::CheckPrivilege,
            Phase::PrivilegeChecked => Action::VerifyInterface,
            Phase::InterfaceVerified => Action::DrainService,
            Phase::ServiceDrained => if self.attempts == 0 {
                Action::SetLinkDown
            } else {
                Action::PauseThenSetLinkDown
            },
            Phase::LinkDown => Action::SetAddress,
            Phase::AddressSet => Action::SetLinkUp,
            Phase::LinkUp => Action::RestoreService,
            Phase::ServiceRestored => Action::SettleThenReadAddress,
            Phase::Verified => Action::PersistAddress,
            Phase::Done => Action::Finished,
            Phase::Aborted => Action::Finished,
        }
    }

    pub fn phase(&self) -> (phase: Phase)
        ensures
            phase == self@.phase,
    {
        self.phase
    }

    pub fn interface(&self) -> (interface: &String)
        ensures
            interface@ == self@.interface,
    {
        &self.interface
    }

    pub fn target(&self) -> (target: MacAddress)
        ensures
            target == self@.target,
    {
        self.target
    }

    pub fn permanent(&self) -> (permanent: bool)
        ensures
            permanent == self@.permanent,
    {
        self.permanent
    }

    /// How often the link was told to go down.
    pub fn attempts(&self) -> (attempts: u8)
        ensures
            attempts == self@.attempts,
    {
        self.attempts
    }

    /// The last command that failed, with all it printed.
    pub fn last_failure(&self) -> (failure: Option<&CommandFailure>)
        ensures
            match failure {
                Some(f) => self@.last_failure == Some(f@),
                None => self@.last_failure is None,
            },
    {
        match &self.last_failure {
            Some(f) => Some(f),
            None => None,
        }
    }

    /// The address text that the interface reported after the change.
    pub fn observed(&self) -> (observed: Option<&String>)
        ensures
            match observed {
                Some(text) => self@.observed == Some(text@),
                None => self@.observed is None,
            },
    {
        match &self.observed {
            Some(text) => Some(text),
            None => None,
        }
    }

    /// Whether the run has ended.
    pub fn is_finished(&self) -> (finished: bool)
        ensures
            finished == (self@.phase == Phase::Done || self@.phase == Phase::Aborted),
    {
        match self.phase {
            Phase::Done => true,
            Phase::Aborted => true,
            _ => false,
        }
    }

    /// How the change ended, once it has: done, with the address applied
    /// and whether it was made permanent, or given up, with the reason.
    pub fn outcome(&self) -> (outcome: Option<Outcome>)
        ensures
            outcome_matches(self@, outcome),
    {
        proof {
            use_type_invariant(self);
        }
        match &self.error {
            Some(e) => Some(Outcome::Aborted(e.clone())),
            None => match self.phase {
                Phase::Done => Some(
                    Outcome::Done { applied: self.target, permanent: self.persisted },
                ),
                _ => None,
            },
        }
    }
}

/// The outcome that belongs to a state: none while the run goes on; the
/// requested address once it is done; the recorded reason once it is given up.
pub open spec fn outcome_matches(a: AttemptView, outcome: Option<Outcome>) -> bool {
    match a.phase {
        Phase::Done => outcome matches Some(Outcome::Done { applied, permanent }) && applied
            == a.target && permanent == a.persisted,
        Phase::Aborted => outcome matches Some(Outcome::Aborted(e)) && a.error == Some(e@),
        _ => outcome is None,
    }
}

/// Every report keeps a sound state sound.
pub proof fn law_step_keeps_sound(a: AttemptView, e: EventView)
    requires
        is_sound(a),
    ensures
        is_sound(advance_spec(a, e)),
{
}

/// Every state that a run reaches from the start is sound, and the request
/// it carries is the one it started with.
pub proof fn law_run_is_sound(
    platform: Platform,
    interface: Seq<char>,
    target: MacAddress,
    permanent: bool,
    events: Seq<EventView>,
)
    ensures
        is_sound(run(initial(platform, interface, target, permanent), events)),
        run(initial(platform, interface, target, permanent), events).target == target,
        run(initial(platform, interface, target, permanent), events).interface == interface,
        run(initial(platform, interface, target, permanent), events).permanent == permanent,
        run(initial(platform, interface, target, permanent), events).platform == platform,
    decreases events.len(),
{
    if events.len() > 0 {
        law_run_is_sound(platform, interface, target, permanent, events.drop_last());
    }
}

/// Success is never reported without confirmation: whatever the host
/// reports, a run that ends in `Done` has read back from the interface a
/// text that names the six octets that were requested.
pub proof fn law_done_is_confirmed(
    platform: Platform,
    interface: Seq<char>,
    target: MacAddress,
    permanent: bool,
    events: Seq<EventView>,
)
    requires
        run(initial(platform, interface, target, permanent), events).phase == Phase::Done,
    ensures
        run(initial(platform, interface, target, permanent), events).observed matches Some(text)
            && confirms(text, target),
{
    law_run_is_sound(platform, interface, target, permanent, events);
}

/// The link is told to go down at most three times, whatever the host reports.
pub proof fn law_link_down_is_bounded(
    platform: Platform,
    interface: Seq<char>,
    target: MacAddress,
    permanent: bool,
    events: Seq<EventView>,
)
    ensures
        run(initial(platform, interface, target, permanent), events).attempts <= 3,
{
    law_run_is_sound(platform, interface, target, permanent, events);
}

/// A run that has ended stays as it is: no report moves a change out of
/// `Done` or `Aborted`, so a change that was given up is never resumed.
pub proof fn law_finished_stays(a: AttemptView, e: EventView)
    requires
        a.phase == Phase::Done || a.phase == Phase::Aborted,
    ensures
        advance_spec(a, e) == a,
{
}

/// A denied address never reaches the host: whatever is reported, the
/// run stays given up and nothing is asked of the host.
pub proof fn law_denied_never_acts(
    platform: Platform,
    interface: Seq<char>,
    target: MacAddress,
    permanent: bool,
    events: Seq<EventView>,
)
    ensures
        run(screened_start(platform, interface, target, permanent, false), events) == screened_start(
            platform,
            interface,
            target,
            permanent,
            false,
        ),
        pending_spec(run(screened_start(platform, interface, target, permanent, false), events))
            == Action::Finished,
    decreases events.len(),
{
    if events.len() > 0 {
        law_denied_never_acts(platform, interface, target, permanent, events.drop_last());
    }
}

/// Only a failure to bring the link down is retried: a failure to set the
/// address, to bring the link up or to make the address permanent ends
/// the run at once, as a system error with the text the command left.
pub proof fn law_later_failures_are_final(a: AttemptView, failure: FailureView)
    requires
        a.phase == Phase::LinkDown || a.phase == Phase::AddressSet || a.phase == Phase::Verified,
    ensures
        advance_spec(a, EventView::Command(Err(failure))).phase == Phase::Aborted,
        advance_spec(a, EventView::Command(Err(failure))).error == Some(
            Fault { kind: ErrorKind::SystemError, detail: failure_text(failure) },
        ),
        advance_spec(a, EventView::Command(Err(failure))).last_failure == Some(failure),
{
}

/// How the network-management service fares is of no account: the run
/// goes on after it was asked to stop and after it was asked to start.
pub proof fn law_service_is_best_effort(a: AttemptView)
    ensures
        a.phase == Phase::InterfaceVerified ==> advance_spec(a, EventView::Service).phase
            == Phase::ServiceDrained,
        a.phase == Phase::LinkUp ==> advance_spec(a, EventView::Service).phase
            == Phase::ServiceRestored,
{
}

/// The reports of a run in which every step succeeds at once.
pub open spec fn clean_reports(card: CardView, read_back: Seq<char>) -> Seq<EventView> {
    seq![
        EventView::Privilege(true),
        EventView::Interface(Ok(card)),
        EventView::Service,
        EventView::Command(Ok(())),
        EventView::Command(Ok(())),
        EventView::Command(Ok(())),
        EventView::Service,
        EventView::Address(Ok(read_back)),
    ]
}

proof fn lemma_run_push(a: AttemptView, events: Seq<EventView>, e: EventView)
    ensures
        run(a, events.push(e)) == advance_spec(run(a, events), e),
{
    assert(events.push(e).drop_last() =~= events);
}

proof fn lemma_run_8(a: AttemptView, e: Seq<EventView>)
    requires
        e.len() == 8,
    ensures
        run(a, e) == advance_spec(
            advance_spec(
                advance_spec(
                    advance_spec(
                        advance_spec(
                            advance_spec(advance_spec(advance_spec(a, e[0]), e[1]), e[2]),
                            e[3],
                        ),
                        e[4],
                    ),
                    e[5],
                ),
                e[6],
            ),
            e[7],
        ),
{
    let e0 = Seq::<EventView>::empty();
    assert(run(a, e0) == a);
    lemma_run_push(a, e0, e[0]);
    lemma_run_push(a, e0.push(e[0]), e[1]);
    lemma_run_push(a, e0.push(e[0]).push(e[1]), e[2]);
    lemma_run_push(a, e0.push(e[0]).push(e[1]).push(e[2]), e[3]);
    lemma_run_push(a, e0.push(e[0]).push(e[1]).push(e[2]).push(e[3]), e[4]);
    lemma_run_push(a, e0.push(e[0]).push(e[1]).push(e[2]).push(e[3]).push(e[4]), e[5]);
    lemma_run_push(a, e0.push(e[0]).push(e[1]).push(e[2]).push(e[3]).push(e[4]).push(e[5]), e[6]);
    lemma_run_push(
        a,
        e0.push(e[0]).push(e[1]).push(e[2]).push(e[3]).push(e[4]).push(e[5]).push(e[6]),
        e[7],
    );
    assert(e =~= e0.push(e[0]).push(e[1]).push(e[2]).push(e[3]).push(e[4]).push(e[5]).push(
        e[6],
    ).push(e[7]));
}

/// Where the caller is elevated, the interface exists and can change its
/// address, every command succeeds and the interface then reports the
/// requested address, the run ends in `Done`; where permanence is due, after
/// one more successful command, and it is then recorded as permanent.
pub proof fn law_clean_run_is_done(
    platform: Platform,
    interface: Seq<char>,
    target: MacAddress,
    permanent: bool,
    card: CardView,
    read_back: Seq<char>,
)
    requires
        platform != Platform::Other,
        card.supports_mac_change,
        confirms(read_back, target),
    ensures
        ({
            let end = run(
                initial(platform, interface, target, permanent),
                clean_reports(card, read_back),
            );
            if permanent && card.permanent_change_supported {
                &&& end.phase == Phase::Verified
                &&& advance_spec(end, EventView::Command(Ok(()))).phase == Phase::Done
                &&& advance_spec(end, EventView::Command(Ok(()))).persisted
                &&& advance_spec(end, EventView::Command(Ok(()))).target == target
            } else {
                &&& end.phase == Phase::Done
                &&& !end.persisted
                &&& end.target == target
                &&& end.observed == Some(read_back)
            }
        }),
{
    lemma_run_8(initial(platform, interface, target, permanent), clean_reports(card, read_back));
}

/// The state in which the link is about to be told to go down for the
/// first time.
pub open spec fn is_before_link_down(a: AttemptView) -> bool {
    a.phase == Phase::ServiceDrained && a.attempts == 0
}

/// Where the link fails to go down twice and goes down at the third try,
/// the run goes on, with three tries counted and the second failure kept.
pub proof fn law_third_try_succeeds(a: AttemptView, first: FailureView, second: FailureView)
    requires
        is_sound(a),
        is_before_link_down(a),
    ensures
        ({
            let once = advance_spec(a, EventView::Command(Err(first)));
            let twice = advance_spec(once, EventView::Command(Err(second)));
            let thrice = advance_spec(twice, EventView::Command(Ok(())));
            &&& once.phase == Phase::ServiceDrained
            &&& pending_spec(once) == Action::PauseThenSetLinkDown
            &&& twice.phase == Phase::ServiceDrained
            &&& pending_spec(twice) == Action::PauseThenSetLinkDown
            &&& thrice.phase == Phase::LinkDown
            &&& thrice.attempts == 3
            &&& thrice.error is None
            &&& thrice.last_failure == Some(second)
        }),
{
}

/// Where the link fails to go down three times, the run is given up as a
/// system error that carries what the last failed command left.
pub proof fn law_three_failures_abort(
    a: AttemptView,
    first: FailureView,
    second: FailureView,
    third: FailureView,
)
    requires
        is_sound(a),
        is_before_link_down(a),
    ensures
        ({
            let end = advance_spec(
                advance_spec(
                    advance_spec(a, EventView::Command(Err(first))),
                    EventView::Command(Err(second)),
                ),
                EventView::Command(Err(third)),
            );
            &&& end.phase == Phase::Aborted
            &&& end.attempts == 3
            &&& end.error == Some(
                Fault { kind: ErrorKind::SystemError, detail: failure_text(third) },
            )
            &&& end.last_failure == Some(third)
        }),
{
}

/// Where the interface reports another address than the requested one
/// after the change, or a text that is no address, the run is given up as
/// a failed validation whose text names both.
pub proof fn law_mismatch_aborts(a: AttemptView, read_back: Seq<char>)
    requires
        a.phase == Phase::ServiceRestored,
        !confirms(read_back, a.target),
    ensures
        ({
            let end = advance_spec(a, EventView::Address(Ok(read_back)));
            let expected = render(a.target.octets(), a.target.notation());
            &&& end.phase == Phase::Aborted
            &&& end.error == Some(
                Fault {
                    kind: ErrorKind::ValidationFailed,
                    detail: mismatch_text(expected, read_back),
                },
            )
            &&& end.observed == Some(read_back)
        }),
{
}

/// The text of a mismatch holds the requested address and the address
/// found, each in full.
pub proof fn law_mismatch_names_both(expected: Seq<char>, found: Seq<char>)
    ensures
        ({
            let text = mismatch_text(expected, found);
            let head = "MAC address change verification failed. Expected "@.len() as int;
            let middle = ", got "@.len() as int;
            &&& text.subrange(head, head + expected.len()) == expected
            &&& text.subrange(head + expected.len() + middle, text.len() as int) == found
        }),
{
    let text = mismatch_text(expected, found);
    let head = "MAC address change verification failed. Expected "@.len() as int;
    let middle = ", got "@.len() as int;
    assert(text.subrange(head, head + expected.len()) =~= expected);
    assert(text.subrange(head + expected.len() + middle, text.len() as int) =~= found);
}

/// A caller without elevated rights is turned away before anything is
/// touched, and an interface that is missing or cannot change its address
/// ends the run before any command is given.
pub proof fn law_refusals(a: AttemptView, card: CardView, fault: Fault)
    ensures
        a.phase == Phase::Idle ==> advance_spec(a, EventView::Privilege(false)).phase
            == Phase::Aborted && advance_spec(a, EventView::Privilege(false)).error == Some(
            Fault { kind: ErrorKind::PermissionDenied, detail: privilege_text(a.platform) },
        ),
        a.phase == Phase::PrivilegeChecked ==> advance_spec(
            a,
            EventView::Interface(Err(fault)),
        ).phase == Phase::Aborted && advance_spec(a, EventView::Interface(Err(fault))).error
            == Some(fault),
        a.phase == Phase::PrivilegeChecked && !card.supports_mac_change ==> advance_spec(
            a,
            EventView::Interface(Ok(card)),
        ).phase == Phase::Aborted && advance_spec(a, EventView::Interface(Ok(card))).error
            == Some(
            Fault { kind: ErrorKind::ValidationFailed, detail: fixed_address_text(a.interface) },
        ),
{
}

} // verus!
