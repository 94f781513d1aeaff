//! Replay control state shared with the web front end.
use vstd::prelude::*;

verus! {

/// State of a replay run.
#[derive(Debug, Clone, Copy, PartialEq, Eq, Structural)]
pub enum ReplayState {
    Idle,
    Loading,
    Playing,
    Paused,
    Completed,
}

/// Pausing: a playing replay pauses; any other state stays.
pub open spec fn pause_state(s: ReplayState) -> ReplayState {
    if s == ReplayState::Playing {
        ReplayState::Paused
    } else {
        s
    }
}

/// Resuming: a paused replay plays; any other state stays.
pub open spec fn resume_state(s: ReplayState) -> ReplayState {
    if s == ReplayState::Paused {
        ReplayState::Playing
    } else {
        s
    }
}

impl ReplayState {
    /// Pausing: a playing replay pauses; any other state stays.
    pub fn paused(self) -> (r: Self)
        ensures
            r == pause_state(self),
    {
        match self {
            ReplayState::Playing => ReplayState::Paused,
            other => other,
        }
    }

    /// Resuming: a paused replay plays; any other state stays.
    pub fn resumed(self) -> (r: Self)
        ensures
            r == resume_state(self),
    {
        match self {
            ReplayState::Paused => ReplayState::Playing,
            other => other,
        }
    }

    /// What the replay loop does before its next event: wait while paused,
    /// stop when idle or completed, go on otherwise.
    pub fn gate(self) -> (r: ReplayGate)
        ensures
            r == match self {
                ReplayState::Paused => ReplayGate::Wait,
                ReplayState::Idle | ReplayState::Completed => ReplayGate::Stop,
                _ => ReplayGate::Proceed,
            },
    {
        match self {
            ReplayState::Paused => ReplayGate::Wait,
            ReplayState::Idle | ReplayState::Completed => ReplayGate::Stop,
            _ => ReplayGate::Proceed,
        }
    }
}

/// The replay loop's decision before an event.
#[derive(Debug, Clone, Copy, PartialEq, Eq, Structural)]
pub enum ReplayGate {
    Wait,
    Stop,
    Proceed,
}

/// Pausing then resuming a playing replay leaves it playing.
pub proof fn lemma_pause_resume(s: ReplayState)
    requires
        s == ReplayState::Playing,
    ensures
        resume_state(pause_state(s)) == s,
{
}

} // verus!
