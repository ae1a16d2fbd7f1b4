//! Control plane: low-frequency, message driven, kept apart from the data plane.

use vstd::prelude::*;

verus! {

/// Which translation directions run.
#[derive(Debug, Clone, Copy, PartialEq, Eq, Structural)]
pub enum TranslateMode {
    Bidirectional,
    UplinkOnly,
    DownlinkOnly,
}

/// Source language setting: `Auto` leaves recognition to the model.
#[derive(Debug, PartialEq, Eq)]
pub enum SourceLang {
    /// BCP-47 code such as "zh".
    Locked(String),
    Auto,
}

impl Clone for SourceLang {
    fn clone(&self) -> (r: Self)
        ensures
            r == *self,
    {
        match self {
            SourceLang::Locked(code) => SourceLang::Locked(code.clone()),
            SourceLang::Auto => SourceLang::Auto,
        }
    }
}

/// Run state of one session.
#[derive(Debug, PartialEq, Eq)]
pub enum SessionState {
    Idle,
    Starting,
    Running,
    Reconnecting { attempt: u32 },
    Paused,
    Error(String),
}

impl Clone for SessionState {
    fn clone(&self) -> (r: Self)
        ensures
            r == *self,
    {
        match self {
            SessionState::Idle => SessionState::Idle,
            SessionState::Starting => SessionState::Starting,
            SessionState::Running => SessionState::Running,
            SessionState::Reconnecting { attempt } => SessionState::Reconnecting {
                attempt: *attempt,
            },
            SessionState::Paused => SessionState::Paused,
            SessionState::Error(msg) => SessionState::Error(msg.clone()),
        }
    }
}

#[derive(Debug, Clone, Copy, PartialEq, Eq, Structural)]
pub enum PauseReason {
    AcousticLoop,
}

/// Severity of a state: Error > Paused > Reconnecting > Starting > Running > Idle.
pub open spec fn severity(s: SessionState) -> nat {
    match s {
        SessionState::Error(_) => 5,
        SessionState::Paused => 4,
        SessionState::Reconnecting { .. } => 3,
        SessionState::Starting => 2,
        SessionState::Running => 1,
        SessionState::Idle => 0,
    }
}

fn rank(s: &SessionState) -> (r: u8)
    ensures
        r == severity(*s),
{
    match s {
        SessionState::Error(_) => 5,
        SessionState::Paused => 4,
        SessionState::Reconnecting { .. } => 3,
        SessionState::Starting => 2,
        SessionState::Running => 1,
        SessionState::Idle => 0,
    }
}

/// The worse of two states, the first one on a tie.
pub open spec fn worst(up: SessionState, down: SessionState) -> SessionState {
    if severity(up) >= severity(down) {
        up
    } else {
        down
    }
}

/// Projects the uplink and downlink states onto one top-level state for the
/// UI: the worse of the two, the uplink on a tie.
pub fn worst_state(up: &SessionState, down: &SessionState) -> (r: SessionState)
    ensures
        r == worst(*up, *down),
{
    if rank(up) >= rank(down) {
        up.clone()
    } else {
        down.clone()
    }
}

/// The severity order of the states, worst first: an error, a pause, a
/// reconnect, starting up, running, idle. Of two different kinds of state the
/// projection is always the worse one, whichever link it comes from.
pub proof fn law_severity_order(msg: String, attempt: u32)
    ensures
        severity(SessionState::Error(msg)) > severity(SessionState::Paused),
        severity(SessionState::Paused) > severity(SessionState::Reconnecting { attempt }),
        severity(SessionState::Reconnecting { attempt }) > severity(SessionState::Starting),
        severity(SessionState::Starting) > severity(SessionState::Running),
        severity(SessionState::Running) > severity(SessionState::Idle),
        worst(SessionState::Running, SessionState::Starting) == SessionState::Starting,
        worst(SessionState::Starting, SessionState::Running) == SessionState::Starting,
        worst(SessionState::Idle, SessionState::Running) == SessionState::Running,
        worst(SessionState::Reconnecting { attempt }, SessionState::Starting) == (SessionState::Reconnecting {
            attempt,
        }),
        worst(SessionState::Starting, SessionState::Paused) == SessionState::Paused,
        worst(SessionState::Paused, SessionState::Error(msg)) == SessionState::Error(msg),
{
}

/// State of a link slot: a link that was not started counts as idle.
pub open spec fn slot_state(s: Option<SessionState>) -> SessionState {
    match s {
        Some(state) => state,
        None => SessionState::Idle,
    }
}

/// Top-level state from the current states of the uplink and the downlink
/// (`None` for a link that was not started): the worse of the two.
pub fn top_state_of(up: Option<SessionState>, down: Option<SessionState>) -> (r: SessionState)
    ensures
        r == worst(slot_state(up), slot_state(down)),
{
    let up = match up {
        Some(state) => state,
        None => SessionState::Idle,
    };
    let down = match down {
        Some(state) => state,
        None => SessionState::Idle,
    };
    worst_state(&up, &down)
}

/// The projection is one of the two states and as severe as the worse of
/// them; its severity does not depend on the order of the links, and a state
/// projected with itself is unchanged.
pub proof fn law_worst_is_most_severe(up: SessionState, down: SessionState)
    ensures
        worst(up, down) == up || worst(up, down) == down,
        severity(worst(up, down)) >= severity(up),
        severity(worst(up, down)) >= severity(down),
        severity(worst(up, down)) == severity(worst(down, up)),
        worst(up, up) == up,
{
}

} // verus!
