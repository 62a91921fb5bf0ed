//! The requests of the management socket and what the daemon does on each.

use crate::ebpf::{unload_ebpf, LoadReport};
use crate::ingress::xdp_spec;
use crate::rule::{entries_of, rule_fault, rules_loadable, RuleError};
use crate::state::{
    fresh_state, overall_well_formed, status_text, OverallState, OverallView, State, StateView,
};
use crate::text::{decimal, decimal_text};
use crate::types::{ClientMessage, ClientReqType, Rule, ServerMessage};
use vstd::prelude::*;
use vstd::string::StringExecFns;

verus! {

/// Where the daemon listens for requests.
pub const SOCKET_PATH: &'static str = "/tmp/ghostwire.sock";

/// The most bytes of a request the daemon reads.
pub const REQUEST_LIMIT: usize = 1024;

/// Why a request was not carried out.
#[derive(Debug, Clone, PartialEq, Eq)]
pub enum RequestError {
    /// A request to change the rules came without rules.
    MissingRules,
    /// A request to change the rules came without an interface.
    MissingRulesInterface,
    /// A request to enable came without an interface.
    MissingEnableInterface,
    /// The firewall is enabled already.
    AlreadyEnabled,
    /// The firewall is disabled already.
    AlreadyDisabled,
    /// The hooks had to be loaded for the request and nobody tried.
    NotLoaded,
    /// The hooks could not be loaded, for the given reason.
    LoadFailed(String),
    /// The rule set was refused.
    Rules(RuleError),
}

/// The sentence that tells the user of an error.
pub open spec fn error_text(error: RequestError) -> Seq<char> {
    match error {
        RequestError::MissingRules => "request to change rules didn't include rules"@,
        RequestError::MissingRulesInterface =>
            "request to change rules didn't include the interface"@,
        RequestError::MissingEnableInterface => "enable message didn't include the interface"@,
        RequestError::AlreadyEnabled => "Firewall is already enabled"@,
        RequestError::AlreadyDisabled => "Firewall is already disabled"@,
        RequestError::NotLoaded => "Firewall could not be enabled: nothing was loaded"@,
        RequestError::LoadFailed(reason) => reason@,
        RequestError::Rules(RuleError::PrefixLength { index }) => "rule "@ + decimal_text(
            index as nat,
        ) + ": prefix length does not fit the fields"@,
        RequestError::Rules(RuleError::DuplicateId { index }) => "rule "@ + decimal_text(
            index as nat,
        ) + ": identifier is used by an earlier rule"@,
    }
}

impl RequestError {
    /// The sentence that tells the user of this error.
    pub fn message(&self) -> (text: String)
        ensures
            text@ == error_text(*self),
    {
        match self {
            RequestError::MissingRules => String::from_str(
                "request to change rules didn't include rules",
            ),
            RequestError::MissingRulesInterface => String::from_str(
                "request to change rules didn't include the interface",
            ),
            RequestError::MissingEnableInterface => String::from_str(
                "enable message didn't include the interface",
            ),
            RequestError::AlreadyEnabled => String::from_str("Firewall is already enabled"),
            RequestError::AlreadyDisabled => String::from_str("Firewall is already disabled"),
            RequestError::NotLoaded => String::from_str(
                "Firewall could not be enabled: nothing was loaded",
            ),
            RequestError::LoadFailed(reason) => reason.clone(),
            RequestError::Rules(RuleError::PrefixLength { index }) => {
                let mut text = String::from_str("rule ");
                text.append(decimal(*index as u64).as_str());
                text.append(": prefix length does not fit the fields");
                text
            },
            RequestError::Rules(RuleError::DuplicateId { index }) => {
                let mut text = String::from_str("rule ");
                text.append(decimal(*index as u64).as_str());
                text.append(": identifier is used by an earlier rule");
                text
            },
        }
    }
}

/// Whether `outcome` is the answer `text` given as a success, or the
/// error `expected`.
pub open spec fn answers_with(
    outcome: Result<ServerMessage, RequestError>,
    expected: Result<Seq<char>, RequestError>,
) -> bool {
    match expected {
        Ok(text) => outcome matches Ok(message) && message.request_success && message.message@
            == text,
        Err(error) => outcome == Err::<ServerMessage, RequestError>(error),
    }
}

/// A successful answer with the given sentence.
fn success(text: &str) -> (outcome: Result<ServerMessage, RequestError>)
    ensures
        answers_with(outcome, Ok(text@)),
{
    Ok(ServerMessage { request_success: true, message: String::from_str(text) })
}

/// Answers a status request: says whether the firewall is enabled, and
/// if it is, on which interface and with how many rules.
pub fn handle_status_request(overall: &OverallState) -> (outcome: Result<
    ServerMessage,
    RequestError,
>)
    requires
        overall.wf(),
    ensures
        answers_with(outcome, Ok(status_text(overall@))),
{
    Ok(ServerMessage { request_success: true, message: overall.fmt() })
}

/// What enabling comes to: it fails if the firewall is enabled, or if
/// the hooks were not loaded; else the firewall is enabled on the
/// interface with empty tables.
pub open spec fn enable_spec(pre: OverallView, interface: Seq<char>, report: Option<LoadReport>)
    -> (OverallView, Result<Seq<char>, RequestError>) {
    if pre.enabled {
        (pre, Err(RequestError::AlreadyEnabled))
    } else {
        match report {
            None => (pre, Err(RequestError::NotLoaded)),
            Some(LoadReport::Failed(reason)) => (pre, Err(RequestError::LoadFailed(reason))),
            Some(LoadReport::Loaded(_)) => (
                OverallView { enabled: true, state: Some(fresh_state(interface)), ..pre },
                Ok("Firewall enabled"@),
            ),
        }
    }
}

/// Enables the firewall on `interface`, given what came of loading the
/// hooks; see [`enable_spec`].
pub fn handle_enable(
    overall: &mut OverallState,
    interface: String,
    report: Option<LoadReport>,
) -> (outcome: Result<ServerMessage, RequestError>)
    requires
        old(overall).wf(),
    ensures
        final(overall).wf(),
        final(overall)@ == enable_spec(old(overall)@, interface@, report).0,
        answers_with(outcome, enable_spec(old(overall)@, interface@, report).1),
{
    if overall.enabled() {
        return Err(RequestError::AlreadyEnabled);
    }
    match report {
        None => Err(RequestError::NotLoaded),
        Some(LoadReport::Failed(reason)) => Err(RequestError::LoadFailed(reason)),
        Some(LoadReport::Loaded(_)) => {
            overall.load(State::new(interface));
            success("Firewall enabled")
        },
    }
}

/// What disabling comes to: it fails if the firewall is disabled; else
/// the firewall lets go of all it held.
pub open spec fn disable_spec(pre: OverallView) -> (OverallView, Result<Seq<char>, RequestError>) {
    if !pre.enabled {
        (pre, Err(RequestError::AlreadyDisabled))
    } else {
        (OverallView { enabled: false, state: None, ..pre }, Ok("Firewall disabled"@))
    }
}

/// Disables the firewall; see [`disable_spec`].
pub fn handle_disable(overall: &mut OverallState) -> (outcome: Result<ServerMessage, RequestError>)
    requires
        old(overall).wf(),
    ensures
        final(overall).wf(),
        final(overall)@ == disable_spec(old(overall)@).0,
        answers_with(outcome, disable_spec(old(overall)@).1),
{
    if !overall.enabled() {
        return Err(RequestError::AlreadyDisabled);
    }
    unload_ebpf(overall);
    success("Firewall disabled")
}

/// The first fault of a rule set that cannot be loaded.
pub open spec fn first_fault(rules: Seq<Rule>) -> RuleError {
    let at = choose|i: int|
        0 <= i < rules.len() && rule_fault(rules, i) is Some && forall|j: int|
            0 <= j < i ==> rule_fault(rules, j) is None;
    rule_fault(rules, at)->Some_0
}

/// What a change of rules comes to on an enabled firewall: a rule set
/// with a fault is refused and the rules stay; else the new rules take
/// the place of the old at once.
pub open spec fn reload_spec(pre: OverallView, rules: Seq<Rule>) -> (
    OverallView,
    Result<Seq<char>, RequestError>,
) {
    if rules_loadable(rules) {
        (
            OverallView {
                state: Some(StateView { rules: entries_of(rules), ..pre.state->Some_0 }),
                ..pre
            },
            Ok("Rules updated"@),
        )
    } else {
        (pre, Err(RequestError::Rules(first_fault(rules))))
    }
}

/// What a request to change the rules comes to: a disabled firewall is
/// enabled first, and if that fails, so does the request; then the rules
/// are replaced as [`reload_spec`] says.
pub open spec fn load_spec(
    pre: OverallView,
    rules: Seq<Rule>,
    interface: Seq<char>,
    report: Option<LoadReport>,
) -> (OverallView, Result<Seq<char>, RequestError>) {
    if pre.enabled {
        reload_spec(pre, rules)
    } else {
        match enable_spec(pre, interface, report).1 {
            Ok(_) => reload_spec(enable_spec(pre, interface, report).0, rules),
            Err(error) => (pre, Err(error)),
        }
    }
}

/// Replaces the rule set, enabling the firewall first if need be; see
/// [`load_spec`].
pub fn handle_load(
    overall: &mut OverallState,
    rules: Vec<Rule>,
    interface: String,
    report: Option<LoadReport>,
) -> (outcome: Result<ServerMessage, RequestError>)
    requires
        old(overall).wf(),
    ensures
        final(overall).wf(),
        final(overall)@ == load_spec(old(overall)@, rules@, interface@, report).0,
        answers_with(outcome, load_spec(old(overall)@, rules@, interface@, report).1),
{
    if !overall.enabled() {
        match handle_enable(overall, interface, report) {
            Ok(_) => {},
            Err(error) => {
                return Err(error);
            },
        }
    }
    match overall.replace_rules(&rules) {
        Some(Ok(())) => success("Rules updated"),
        Some(Err(fault)) => {
            proof {
                lemma_first_fault(rules@, fault);
            }
            Err(RequestError::Rules(fault))
        },
        None => Err(RequestError::NotLoaded),
    }
}

/// A fault that no fault precedes is the first fault.
proof fn lemma_first_fault(rules: Seq<Rule>, fault: RuleError)
    requires
        exists|i: int|
            0 <= i < rules.len() && rule_fault(rules, i) == Some(fault) && forall|j: int|
                0 <= j < i ==> rule_fault(rules, j) is None,
    ensures
        !rules_loadable(rules),
        first_fault(rules) == fault,
{
    let i = choose|i: int|
        0 <= i < rules.len() && rule_fault(rules, i) == Some(fault) && forall|j: int|
            0 <= j < i ==> rule_fault(rules, j) is None;
    let at = choose|i: int|
        0 <= i < rules.len() && rule_fault(rules, i) is Some && forall|j: int|
            0 <= j < i ==> rule_fault(rules, j) is None;
    assert(rule_fault(rules, i) is Some);
    if at < i {
        assert(rule_fault(rules, at) is None);
    } else if i < at {
        assert(rule_fault(rules, i) is None);
    }
}

/// What a request comes to; `rules` and `interface` are what the request
/// carries. A request without what it needs fails and changes nothing.
pub open spec fn request_spec(
    pre: OverallView,
    req_type: ClientReqType,
    rules: Option<Seq<Rule>>,
    interface: Option<Seq<char>>,
    report: Option<LoadReport>,
) -> (OverallView, Result<Seq<char>, RequestError>) {
    match req_type {
        ClientReqType::STATUS => (pre, Ok(status_text(pre))),
        ClientReqType::RULES => match rules {
            None => (pre, Err(RequestError::MissingRules)),
            Some(rules) => match interface {
                None => (pre, Err(RequestError::MissingRulesInterface)),
                Some(interface) => load_spec(pre, rules, interface, report),
            },
        },
        ClientReqType::ENABLE => match interface {
            None => (pre, Err(RequestError::MissingEnableInterface)),
            Some(interface) => enable_spec(pre, interface, report),
        },
        ClientReqType::DISABLE => disable_spec(pre),
    }
}

/// The rules a message carries, as a mathematical value.
pub open spec fn rules_of(message: ClientMessage) -> Option<Seq<Rule>> {
    match message.rules {
        Some(rules) => Some(rules@),
        None => None,
    }
}

/// The interface a message names, as a mathematical value.
pub open spec fn interface_of(message: ClientMessage) -> Option<Seq<char>> {
    match message.interface {
        Some(interface) => Some(interface@),
        None => None,
    }
}

/// Whether the hooks must be loaded before `message` can be carried
/// out: the firewall is disabled, and the message asks to enable it or
/// to change the rules, and carries what that takes.
pub open spec fn needs_load(pre: OverallView, message: ClientMessage) -> bool {
    !pre.enabled && match message.req_type {
        ClientReqType::ENABLE => message.interface is Some,
        ClientReqType::RULES => message.rules is Some && message.interface is Some,
        _ => false,
    }
}

/// Decides [`needs_load`].
pub fn load_needed(overall: &OverallState, message: &ClientMessage) -> (needed: bool)
    ensures
        needed == needs_load(overall@, *message),
{
    !overall.enabled() && match message.req_type {
        ClientReqType::ENABLE => message.interface.is_some(),
        ClientReqType::RULES => message.rules.is_some() && message.interface.is_some(),
        _ => false,
    }
}

/// Carries out a request, given what came of loading the hooks if they
/// had to be loaded; see [`request_spec`].
pub fn handle_server_request_fallible(
    overall: &mut OverallState,
    message: ClientMessage,
    report: Option<LoadReport>,
) -> (outcome: Result<ServerMessage, RequestError>)
    requires
        old(overall).wf(),
    ensures
        final(overall).wf(),
        final(overall)@ == request_spec(
            old(overall)@,
            message.req_type,
            rules_of(message),
            interface_of(message),
            report,
        ).0,
        answers_with(
            outcome,
            request_spec(
                old(overall)@,
                message.req_type,
                rules_of(message),
                interface_of(message),
                report,
            ).1,
        ),
{
    match message.req_type {
        ClientReqType::STATUS => handle_status_request(overall),
        ClientReqType::RULES => match message.rules {
            None => Err(RequestError::MissingRules),
            Some(rules) => match message.interface {
                None => Err(RequestError::MissingRulesInterface),
                Some(interface) => handle_load(overall, rules, interface, report),
            },
        },
        ClientReqType::ENABLE => match message.interface {
            None => Err(RequestError::MissingEnableInterface),
            Some(interface) => handle_enable(overall, interface, report),
        },
        ClientReqType::DISABLE => handle_disable(overall),
    }
}

/// The sentence a request is answered with, success or not.
pub open spec fn answer_text(answer: Result<Seq<char>, RequestError>) -> Seq<char> {
    match answer {
        Ok(text) => text,
        Err(error) => error_text(error),
    }
}

/// Carries out a request and words the answer: an error becomes an
/// answer that says the request failed and why.
pub fn handle_server_request(
    overall: &mut OverallState,
    message: ClientMessage,
    report: Option<LoadReport>,
) -> (answer: ServerMessage)
    requires
        old(overall).wf(),
    ensures
        final(overall).wf(),
        final(overall)@ == request_spec(
            old(overall)@,
            message.req_type,
            rules_of(message),
            interface_of(message),
            report,
        ).0,
        answer.request_success == request_spec(
            old(overall)@,
            message.req_type,
            rules_of(message),
            interface_of(message),
            report,
        ).1 is Ok,
        answer.message@ == answer_text(
            request_spec(
                old(overall)@,
                message.req_type,
                rules_of(message),
                interface_of(message),
                report,
            ).1,
        ),
{
    match handle_server_request_fallible(overall, message, report) {
        Ok(answer) => answer,
        Err(error) => ServerMessage { request_success: false, message: error.message() },
    }
}


/// A change of rules is all or nothing: from one frame to the next the
/// rule table is the old one or the new one, whole, and nothing else in
/// the state changes. So whatever frame arrives after the request, its
/// verdict is the one the old rules give or the one the new rules give;
/// there is no moment with an empty or half-filled table in between.
pub proof fn lemma_reload_swaps_whole_table(
    pre: OverallView,
    rules: Seq<Rule>,
    frame: Seq<u8>,
    now: u64,
)
    requires
        overall_well_formed(pre),
        pre.state is Some,
    ensures
        reload_spec(pre, rules).0.state is Some,
        overall_well_formed(reload_spec(pre, rules).0),
        ({
            let old_state = pre.state->Some_0;
            let new_state = StateView { rules: entries_of(rules), ..old_state };
            let post = reload_spec(pre, rules).0.state->Some_0;
            &&& post == old_state || post == new_state
            &&& rules_loadable(rules) ==> post == new_state
            &&& xdp_spec(post, frame, now).1 == xdp_spec(old_state, frame, now).1 || xdp_spec(
                post,
                frame,
                now,
            ).1 == xdp_spec(new_state, frame, now).1
        }),
{
    if rules_loadable(rules) {
        crate::rule::lemma_loadable_table(rules);
    }
}

} // verus!
