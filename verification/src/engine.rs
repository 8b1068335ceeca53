//! The per-URL crawl step as a state machine.
//!
//! Each URL moves through the stations of one crawl step: `Pending`
//! (hooks and domain policy not yet consulted), `PolicyChecked`,
//! `RobotsChecked`, `Fetched`, `Extracted` and finally `Dispatched`,
//! with early exits to the terminal `Skipped` state at any
//! policy/robots/status gate and to the terminal `Failed` state on a
//! transport or decode error.  [`spec_action`] names the work the
//! driver performs in each state; [`advance`] consumes the outcome of
//! that work and yields the next state.  The short-circuit law at the
//! end shows that after a before-hook denial the fetch executor is
//! never invoked.

use vstd::prelude::*;

verus! {

/// The station a URL's crawl step has reached.
#[derive(Debug, Clone, Copy, PartialEq, Eq, Structural)]
pub enum CrawlState {
    /// Hooks and domain policy not yet consulted.
    Pending,
    /// Allowed by the before-hooks and the domain policy.
    PolicyChecked,
    /// Allowed by the host's robots rules.
    RobotsChecked,
    /// Fetched with an acceptable status.
    Fetched,
    /// Links and metadata extracted.
    Extracted,
    /// Discovered links handed on; the step is complete.
    Dispatched,
    /// Stopped at a policy, robots or status gate; terminal.
    Skipped,
    /// Stopped by a transport or decode error; terminal.
    Failed,
}

/// The outcome of the work done in one state, as the driver reports
/// it.
#[derive(Debug, Clone, Copy, PartialEq, Eq, Structural)]
pub enum CrawlEvent {
    /// A before-hook denied the URL.
    HookDenied,
    /// The before-hooks and the domain policy allowed the URL.
    PolicyAllowed,
    /// The domain policy rejected the URL's host.
    PolicyDenied,
    /// The host's robots rules allow the URL.
    RobotsAllowed,
    /// The host's robots rules forbid the URL.
    RobotsDenied,
    /// The fetch returned an acceptable (2xx/3xx) status.
    StatusOk,
    /// The fetch returned an unacceptable status.
    StatusRejected,
    /// The fetch failed transport-side.
    TransportFailed,
    /// The response body was not decodable as text.
    DecodeFailed,
    /// Links and metadata were extracted.
    ExtractionDone,
    /// Every discovered link was followed or published.
    LinksHandled,
}

/// The work the driver performs next in a given state.
#[derive(Debug, Clone, Copy, PartialEq, Eq, Structural)]
pub enum CrawlAction {
    /// Run the before-hooks and the domain policy guard.
    CheckAccess,
    /// Obtain the host's robots policy and evaluate it for the URL.
    CheckRobots,
    /// Perform the HTTP fetch and classify its status.
    ExecuteFetch,
    /// Extract links and metadata, then run the after-hooks.
    ExtractContent,
    /// Follow same-host links and publish cross-host ones.
    HandleLinks,
    /// Nothing: the step has ended.
    Stop,
}

/// Whether a state ends the step.
pub open spec fn is_terminal(s: CrawlState) -> bool {
    s == CrawlState::Dispatched || s == CrawlState::Skipped || s == CrawlState::Failed
}

/// The transition table of the crawl step.  Events that do not answer
/// the state's own action leave the state unchanged; terminal states
/// absorb every event.
pub open spec fn spec_advance(s: CrawlState, e: CrawlEvent) -> CrawlState {
    match s {
        CrawlState::Pending => match e {
            CrawlEvent::HookDenied => CrawlState::Skipped,
            CrawlEvent::PolicyAllowed => CrawlState::PolicyChecked,
            CrawlEvent::PolicyDenied => CrawlState::Skipped,
            _ => CrawlState::Pending,
        },
        CrawlState::PolicyChecked => match e {
            CrawlEvent::RobotsAllowed => CrawlState::RobotsChecked,
            CrawlEvent::RobotsDenied => CrawlState::Skipped,
            _ => CrawlState::PolicyChecked,
        },
        CrawlState::RobotsChecked => match e {
            CrawlEvent::StatusOk => CrawlState::Fetched,
            CrawlEvent::StatusRejected => CrawlState::Skipped,
            CrawlEvent::TransportFailed => CrawlState::Failed,
            CrawlEvent::DecodeFailed => CrawlState::Failed,
            _ => CrawlState::RobotsChecked,
        },
        CrawlState::Fetched => match e {
            CrawlEvent::ExtractionDone => CrawlState::Extracted,
            _ => CrawlState::Fetched,
        },
        CrawlState::Extracted => match e {
            CrawlEvent::LinksHandled => CrawlState::Dispatched,
            _ => CrawlState::Extracted,
        },
        CrawlState::Dispatched => CrawlState::Dispatched,
        CrawlState::Skipped => CrawlState::Skipped,
        CrawlState::Failed => CrawlState::Failed,
    }
}

/// The work pending in each state.
pub open spec fn spec_action(s: CrawlState) -> CrawlAction {
    match s {
        CrawlState::Pending => CrawlAction::CheckAccess,
        CrawlState::PolicyChecked => CrawlAction::CheckRobots,
        CrawlState::RobotsChecked => CrawlAction::ExecuteFetch,
        CrawlState::Fetched => CrawlAction::ExtractContent,
        CrawlState::Extracted => CrawlAction::HandleLinks,
        CrawlState::Dispatched => CrawlAction::Stop,
        CrawlState::Skipped => CrawlAction::Stop,
        CrawlState::Failed => CrawlAction::Stop,
    }
}

/// Advance the step by one reported outcome.
pub fn advance(s: CrawlState, e: CrawlEvent) -> (r: CrawlState)
    ensures
        r == spec_advance(s, e),
{
    match s {
        CrawlState::Pending => match e {
            CrawlEvent::HookDenied => CrawlState::Skipped,
            CrawlEvent::PolicyAllowed => CrawlState::PolicyChecked,
            CrawlEvent::PolicyDenied => CrawlState::Skipped,
            _ => CrawlState::Pending,
        },
        CrawlState::PolicyChecked => match e {
            CrawlEvent::RobotsAllowed => CrawlState::RobotsChecked,
            CrawlEvent::RobotsDenied => CrawlState::Skipped,
            _ => CrawlState::PolicyChecked,
        },
        CrawlState::RobotsChecked => match e {
            CrawlEvent::StatusOk => CrawlState::Fetched,
            CrawlEvent::StatusRejected => CrawlState::Skipped,
            CrawlEvent::TransportFailed => CrawlState::Failed,
            CrawlEvent::DecodeFailed => CrawlState::Failed,
            _ => CrawlState::RobotsChecked,
        },
        CrawlState::Fetched => match e {
            CrawlEvent::ExtractionDone => CrawlState::Extracted,
            _ => CrawlState::Fetched,
        },
        CrawlState::Extracted => match e {
            CrawlEvent::LinksHandled => CrawlState::Dispatched,
            _ => CrawlState::Extracted,
        },
        CrawlState::Dispatched => CrawlState::Dispatched,
        CrawlState::Skipped => CrawlState::Skipped,
        CrawlState::Failed => CrawlState::Failed,
    }
}

/// The work the driver performs next in a given state.
pub fn action_of(s: CrawlState) -> (r: CrawlAction)
    ensures
        r == spec_action(s),
{
    match s {
        CrawlState::Pending => CrawlAction::CheckAccess,
        CrawlState::PolicyChecked => CrawlAction::CheckRobots,
        CrawlState::RobotsChecked => CrawlAction::ExecuteFetch,
        CrawlState::Fetched => CrawlAction::ExtractContent,
        CrawlState::Extracted => CrawlAction::HandleLinks,
        CrawlState::Dispatched => CrawlAction::Stop,
        CrawlState::Skipped => CrawlAction::Stop,
        CrawlState::Failed => CrawlAction::Stop,
    }
}

/// Gate law: the only state that asks for a fetch is `RobotsChecked`,
/// and it is entered only from `PolicyChecked` on a robots approval,
/// which in turn is entered only from `Pending` on a policy approval —
/// so every fetch was approved by the hooks, the domain policy and the
/// robots rules.
pub proof fn lemma_fetch_follows_gates(s: CrawlState, e: CrawlEvent)
    ensures
        spec_action(s) == CrawlAction::ExecuteFetch <==> s == CrawlState::RobotsChecked,
        spec_advance(s, e) == CrawlState::RobotsChecked && s != CrawlState::RobotsChecked ==> s
            == CrawlState::PolicyChecked && e == CrawlEvent::RobotsAllowed,
        spec_advance(s, e) == CrawlState::PolicyChecked && s != CrawlState::PolicyChecked ==> s
            == CrawlState::Pending && e == CrawlEvent::PolicyAllowed,
{
}

/// Whether, along a run driven by `events` from state `s`, any reached
/// state asks the driver to execute a fetch.
pub open spec fn fetch_requested(s: CrawlState, events: Seq<CrawlEvent>) -> bool
    decreases events.len(),
{
    spec_action(s) == CrawlAction::ExecuteFetch || (events.len() > 0 && fetch_requested(
        spec_advance(s, events[0]),
        events.drop_first(),
    ))
}

/// A terminal state never asks for a fetch, whatever events follow.
proof fn lemma_terminal_never_fetches(s: CrawlState, events: Seq<CrawlEvent>)
    requires
        is_terminal(s),
    ensures
        !fetch_requested(s, events),
    decreases events.len(),
{
    if events.len() > 0 {
        lemma_terminal_never_fetches(spec_advance(s, events[0]), events.drop_first());
    }
}

/// Hook short-circuit law: when the first outcome of a step is a
/// before-hook denial, no state of the whole run asks the driver to
/// invoke the fetch executor.
pub proof fn lemma_hook_denial_blocks_fetch(events: Seq<CrawlEvent>)
    requires
        events.len() > 0,
        events[0] == CrawlEvent::HookDenied,
    ensures
        !fetch_requested(CrawlState::Pending, events),
{
    lemma_terminal_never_fetches(CrawlState::Skipped, events.drop_first());
}

} // verus!
