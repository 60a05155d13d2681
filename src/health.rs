use vstd::prelude::*;

verus! {

/// The states a process can report.
#[derive(Debug, Clone, Copy, PartialEq, Eq, Structural)]
pub enum State {
    Healthy,
    Unhealthy,
    ShuttingDown,
    Unknown,
}

impl State {
    pub open spec fn text(&self) -> Seq<char> {
        match self {
            State::Healthy => "healthy"@,
            State::Unhealthy => "unhealthy"@,
            State::ShuttingDown => "shutting down"@,
            State::Unknown => "unknown"@,
        }
    }

    /// The state as it is shown to a person.
    pub fn to_string(&self) -> (r: String)
        ensures
            r@ == self.text(),
    {
        match self {
            State::Healthy => String::from_str("healthy"),
            State::Unhealthy => String::from_str("unhealthy"),
            State::ShuttingDown => String::from_str("shutting down"),
            State::Unknown => String::from_str("unknown"),
        }
    }
}

/// A state together with the time it was entered, in microseconds since the
/// Unix epoch; the time tells how long the state has lasted.
#[derive(Debug, Clone, Copy, PartialEq, Eq, Structural)]
pub struct Health {
    pub state: State,
    pub transition_time: i64,
}

impl Health {
    /// A health that entered `state` at time `now`.
    pub fn new(state: State, now: i64) -> (r: Health)
        ensures
            r.state == state,
            r.transition_time == now,
    {
        Health { state, transition_time: now }
    }

    /// The health after `new_state` is reported at time `now`: unchanged where
    /// the state is the same, else the new state entered at `now`.
    pub fn after(&self, new_state: State, now: i64) -> (r: Health)
        ensures
            self.state == new_state ==> r == *self,
            self.state != new_state ==> r.state == new_state && r.transition_time == now,
    {
        if self.state == new_state {
            *self
        } else {
            Health::new(new_state, now)
        }
    }
}

} // verus!
