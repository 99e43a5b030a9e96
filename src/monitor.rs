//! The monitor's cycle: probe the tunnel, resolve the domain, compare, and
//! restart the tunnel on drift, then wait for the next cycle.
//!
//! The monitor decides and the caller acts: each call of [`Monitor::step`]
//! takes what the last action produced and returns the next action.
use crate::text::{endpoint_of_status, status_endpoint};
use vstd::prelude::*;

verus! {

/// What the monitor waits for.
pub enum Phase {
    /// Between cycles: waits for the interval to pass.
    Idle,
    /// Waits for the tunnel's status text.
    AwaitStatus,
    /// Holds the endpoint that this cycle's status showed, and waits for
    /// the domain's resolution.
    AwaitResolution { endpoint: String },
    /// Waits for the tunnel's teardown to finish.
    AwaitDown,
    /// Waits for the tunnel's bring-up to finish.
    AwaitUp,
}

/// What the caller reports back after an action.
pub enum Event {
    /// The interval has passed.
    Wake,
    /// The tunnel's status text.
    Status(String),
    /// The domain's current address, or None where resolution gave none.
    Resolved(Option<String>),
    /// A tunnel command finished, with its exit code where it had one.
    Exited(Option<i32>),
}

/// What the caller is to do next.
pub enum Action {
    /// Query the tunnel's status.
    QueryStatus,
    /// Resolve this domain.
    Resolve(String),
    /// The tunnel's endpoint has drifted from the domain's address: log
    /// both and tear the tunnel down.
    BringDown { tunnel: String, current: String, resolved: String },
    /// Bring the tunnel up.
    BringUp(String),
    /// Wait this many seconds.
    Sleep(u64),
}

/// The monitor of one tunnel.
pub struct Monitor {
    /// The tunnel's name, as the tunnel tool addresses it.
    pub tunnel: String,
    /// The domain that names the peer.
    pub domain: String,
    /// Seconds between cycles.
    pub interval_secs: u64,
    /// What the monitor waits for now.
    pub phase: Phase,
}

/// Whether the endpoint in use and the freshly resolved address differ.
pub fn diverged(current: &String, resolved: &String) -> (r: bool)
    ensures
        r == (current@ != resolved@),
{
    !current.eq(resolved)
}

/// Whether a restart is due: both sides are known in this cycle and differ.
pub fn restart_needed(current: &Option<String>, resolved: &Option<String>) -> (r: bool)
    ensures
        r == (current is Some && resolved is Some && current->0@ != resolved->0@),
{
    match (current, resolved) {
        (Some(c), Some(a)) => diverged(c, a),
        _ => false,
    }
}

/// `n` keeps the tunnel, domain and interval of `m`.
pub open spec fn same_setup(m: Monitor, n: Monitor) -> bool {
    n.tunnel@ == m.tunnel@ && n.domain@ == m.domain@ && n.interval_secs == m.interval_secs
}

/// The cycle is over: wait the interval.
pub open spec fn ends_cycle(m: Monitor, n: Monitor, a: Action) -> bool {
    n.phase is Idle && a is Sleep && a->Sleep_0 == m.interval_secs
}

/// One step of the monitor: from `m`, on event `e`, to `n`, with action `a`.
/// An event that the phase does not wait for ends the cycle, but a teardown
/// is always followed by a bring-up.
pub open spec fn step_ok(m: Monitor, e: Event, n: Monitor, a: Action) -> bool {
    &&& same_setup(m, n)
    &&& match m.phase {
        Phase::Idle => if e is Wake {
            n.phase is AwaitStatus && a is QueryStatus
        } else {
            ends_cycle(m, n, a)
        },
        Phase::AwaitStatus => match e {
            Event::Status(text) => match status_endpoint(text@) {
                Some(ep) => {
                    &&& n.phase is AwaitResolution
                    &&& n.phase->endpoint@ == ep
                    &&& a is Resolve
                    &&& a->Resolve_0@ == m.domain@
                },
                None => ends_cycle(m, n, a),
            },
            _ => ends_cycle(m, n, a),
        },
        Phase::AwaitResolution { endpoint } => match e {
            Event::Resolved(r) => if r is Some && r->0@ != endpoint@ {
                &&& n.phase is AwaitDown
                &&& a is BringDown
                &&& a->tunnel@ == m.tunnel@
                &&& a->current@ == endpoint@
                &&& a->resolved@ == r->0@
            } else {
                ends_cycle(m, n, a)
            },
            _ => ends_cycle(m, n, a),
        },
        Phase::AwaitDown => n.phase is AwaitUp && a is BringUp && a->BringUp_0@ == m.tunnel@,
        Phase::AwaitUp => ends_cycle(m, n, a),
    }
}

/// A teardown is ordered exactly when the monitor holds this cycle's
/// endpoint, the resolution succeeded, and the two addresses differ.
pub proof fn lemma_restart_iff_drift(m: Monitor, e: Event, n: Monitor, a: Action)
    requires
        step_ok(m, e, n, a),
    ensures
        a is BringDown <==> {
            &&& m.phase is AwaitResolution
            &&& e is Resolved
            &&& e->Resolved_0 is Some
            &&& e->Resolved_0->0@ != m.phase->endpoint@
        },
{
}

/// The endpoint that a resolution is compared with was read from the status
/// text of the same cycle, and a cycle starts afresh from the idle phase.
pub proof fn lemma_endpoint_is_fresh(m: Monitor, e: Event, n: Monitor, a: Action)
    requires
        step_ok(m, e, n, a),
    ensures
        n.phase is AwaitResolution ==> {
            &&& m.phase is AwaitStatus
            &&& e is Status
            &&& status_endpoint(e->Status_0@) == Some(n.phase->endpoint@)
        },
        n.phase is AwaitStatus ==> m.phase is Idle && e is Wake,
{
}

/// No teardown is ordered on a status text that shows no endpoint, or on a
/// resolution that gave no address, whatever came before.
pub proof fn lemma_no_restart_when_unavailable(m: Monitor, e: Event, n: Monitor, a: Action)
    requires
        step_ok(m, e, n, a),
        (e is Resolved && e->Resolved_0 is None) || (e is Status && status_endpoint(
            e->Status_0@,
        ) is None),
    ensures
        !(a is BringDown),
{
}

/// A teardown is followed by a bring-up of the same tunnel, whatever the
/// teardown's exit status was.
pub proof fn lemma_down_then_up(
    m: Monitor,
    e: Event,
    n: Monitor,
    a: Action,
    e2: Event,
    n2: Monitor,
    a2: Action,
)
    requires
        step_ok(m, e, n, a),
        a is BringDown,
        step_ok(n, e2, n2, a2),
    ensures
        a2 is BringUp,
        a2->BringUp_0@ == a->tunnel@,
        a->tunnel@ == m.tunnel@,
{
}

impl Monitor {
    /// A monitor between cycles, for `tunnel`, whose peer is named by
    /// `domain`, that runs a cycle every `interval_secs` seconds.
    pub fn new(tunnel: String, domain: String, interval_secs: u64) -> (r: Monitor)
        ensures
            r.tunnel@ == tunnel@,
            r.domain@ == domain@,
            r.interval_secs == interval_secs,
            r.phase is Idle,
    {
        Monitor { tunnel, domain, interval_secs, phase: Phase::Idle }
    }

    /// Takes what the last action produced and returns the next action.
    pub fn step(&mut self, event: Event) -> (a: Action)
        ensures
            step_ok(*old(self), event, *final(self), a),
    {
        let sleep = Action::Sleep(self.interval_secs);
        match &self.phase {
            Phase::Idle => match event {
                Event::Wake => {
                    self.phase = Phase::AwaitStatus;
                    Action::QueryStatus
                },
                _ => sleep,
            },
            Phase::AwaitStatus => match event {
                Event::Status(text) => match endpoint_of_status(&text) {
                    Some(endpoint) => {
                        self.phase = Phase::AwaitResolution { endpoint };
                        Action::Resolve(self.domain.clone())
                    },
                    None => {
                        self.phase = Phase::Idle;
                        sleep
                    },
                },
                _ => {
                    self.phase = Phase::Idle;
                    sleep
                },
            },
            Phase::AwaitResolution { endpoint } => {
                let current = endpoint.clone();
                match event {
                    Event::Resolved(Some(resolved)) => {
                        if diverged(&current, &resolved) {
                            self.phase = Phase::AwaitDown;
                            Action::BringDown { tunnel: self.tunnel.clone(), current, resolved }
                        } else {
                            self.phase = Phase::Idle;
                            sleep
                        }
                    },
                    _ => {
                        self.phase = Phase::Idle;
                        sleep
                    },
                }
            },
            Phase::AwaitDown => {
                self.phase = Phase::AwaitUp;
                Action::BringUp(self.tunnel.clone())
            },
            Phase::AwaitUp => {
                self.phase = Phase::Idle;
                sleep
            },
        }
    }
}

} // verus!
