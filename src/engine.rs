//! One recovery pass as a state machine. The caller performs each returned
//! `Action` against the platform and hands back what happened as an `Event`;
//! every decision of the pass is taken here.

use vstd::prelude::*;
use crate::strategy::{filter_profiles_by_strategy, selection, ConnectStrategy};

verus! {

/// Seconds to wait after requesting a scan before reading visible networks.
pub const SCAN_SETTLE_SECS: u64 = 2;

/// Seconds to wait after enabling an adapter before listing interfaces again.
pub const ADAPTER_SETTLE_SECS: u64 = 3;

/// Seconds between two polls of the interface state.
pub const POLL_INTERVAL_SECS: u64 = 2;

/// Longest time, in seconds, one profile is given to reach "connected".
pub const POLL_MAX_WAIT_SECS: u64 = 30;

/// Number of polling rounds that fit in `max_wait` at `interval`, at least one.
pub open spec fn rounds_for(max_wait: u64, interval: u64) -> u64
    recommends
        interval > 0,
{
    if max_wait / interval >= 1 {
        (max_wait / interval) as u64
    } else {
        1
    }
}

/// Polling rounds per connect attempt.
pub open spec fn poll_budget() -> u64 {
    rounds_for(POLL_MAX_WAIT_SECS, POLL_INTERVAL_SECS)
}

/// Number of polling rounds that fit in `max_wait_secs` at `interval_secs`,
/// at least one.
pub fn poll_rounds(max_wait_secs: u64, interval_secs: u64) -> (r: u64)
    requires
        interval_secs > 0,
    ensures
        r == rounds_for(max_wait_secs, interval_secs),
{
    let q = max_wait_secs / interval_secs;
    if q >= 1 {
        q
    } else {
        1
    }
}

/// Why a pass ended without restoring the network.
#[derive(Clone, Copy, Debug, PartialEq, Eq, Structural)]
pub enum FailureReason {
    /// The wireless-management session could not be opened.
    NoSession,
    /// Listing the wireless interfaces failed.
    InterfaceQuery,
    /// No wireless interface, even after trying to enable an adapter.
    NoInterface,
    /// No interface offered a profile to attempt.
    NoCandidates,
    /// Every candidate profile was attempted, none restored the network.
    Exhausted,
}

/// How a pass ended.
#[derive(Clone, Debug, PartialEq, Eq)]
pub enum RecoveryOutcome {
    /// The network is reachable again through this profile.
    Success(String),
    /// The pass gave up, after `attempted` connect attempts.
    Failure { reason: FailureReason, attempted: u64 },
}

/// Platform work the pass asks of its caller next.
#[derive(Clone, Debug, PartialEq, Eq)]
pub enum Action {
    /// Open the wireless-management session; answer `SessionOpened`.
    OpenSession,
    /// List the wireless interfaces; answer `Interfaces`.
    ListInterfaces,
    /// Try to enable a disabled wireless adapter; answer `AdapterEnabled`.
    EnableAdapter,
    /// Wait this many seconds; answer `Waited`.
    Wait(u64),
    /// List the saved profiles of this interface; answer `SavedProfiles`.
    ListSavedProfiles(usize),
    /// Optionally request a scan and wait `settle_secs`, then list the
    /// visible networks of the interface; answer `VisibleNetworks`.
    ListVisibleNetworks { iface: usize, trigger_scan: bool, settle_secs: u64 },
    /// Request a connection with this profile; answer `ConnectRequested`.
    Connect { iface: usize, profile: String },
    /// Wait `wait_secs`, then read the interface state; answer `StateObserved`.
    PollState { iface: usize, wait_secs: u64 },
    /// Check Internet reachability; answer `Probed`.
    Probe,
    /// The pass is over: close the session and report the outcome.
    Finish(RecoveryOutcome),
    /// Nothing to do: the pass is over, or the event was not the awaited one.
    Idle,
}

/// What the caller observed while performing the last action.
#[derive(Clone, Debug, PartialEq, Eq)]
pub enum Event {
    /// Begin the pass.
    Start,
    /// Whether the session opened.
    SessionOpened(bool),
    /// How many wireless interfaces there are, or `None` if listing failed.
    Interfaces(Option<usize>),
    /// Whether an adapter was enabled.
    AdapterEnabled(bool),
    /// The requested wait is over.
    Waited,
    /// The interface's saved profile names, or `None` if listing failed.
    SavedProfiles(Option<Vec<String>>),
    /// The visible network names, or `None` if listing failed.
    VisibleNetworks(Option<Vec<String>>),
    /// Whether the platform accepted the connect request.
    ConnectRequested(bool),
    /// Whether the interface state read "connected" (an unknown state is not).
    StateObserved(bool),
    /// Whether the network is reachable.
    Probed(bool),
}

/// Where a pass stands.
#[derive(Clone, Copy, Debug, PartialEq, Eq, Structural)]
pub enum Phase {
    /// Awaiting `Start`.
    NotStarted,
    /// Awaiting `SessionOpened`.
    OpeningSession,
    /// Awaiting `Interfaces`; `retried` once an adapter was enabled.
    ListingInterfaces { retried: bool },
    /// Awaiting `AdapterEnabled`.
    EnablingAdapter,
    /// Awaiting `Waited` after an adapter was enabled.
    AdapterSettling,
    /// Awaiting `SavedProfiles` of the current interface.
    ListingProfiles,
    /// Awaiting `VisibleNetworks` of the current interface.
    ListingVisible,
    /// Awaiting `ConnectRequested` for the current candidate.
    Connecting,
    /// Awaiting the `round`-th `StateObserved` for the current candidate.
    Polling { round: u64 },
    /// Awaiting `Probed` for the current candidate.
    Probing,
    /// The pass is over.
    Done,
}

/// One recovery pass.
pub struct RecoveryPass {
    pub strategy: ConnectStrategy,
    pub phase: Phase,
    /// Number of wireless interfaces found.
    pub iface_count: usize,
    /// Index of the interface being worked on.
    pub iface: usize,
    /// Saved profiles of the current interface, awaiting the visible set.
    pub saved: Vec<String>,
    /// Profiles selected for the current interface, in attempt order.
    pub candidates: Vec<String>,
    /// Index of the candidate being attempted.
    pub next: usize,
    /// Connect attempts made so far in this pass (saturating).
    pub attempted: u64,
    /// Polling rounds per connect attempt.
    pub rounds: u64,
}

/// The abstract state of a pass.
pub ghost struct PassState {
    pub strategy: ConnectStrategy,
    pub phase: Phase,
    pub iface_count: usize,
    pub iface: usize,
    pub saved: Seq<String>,
    pub candidates: Seq<String>,
    pub next: usize,
    pub attempted: u64,
    pub rounds: u64,
}

impl View for RecoveryPass {
    type V = PassState;

    open spec fn view(&self) -> PassState {
        PassState {
            strategy: self.strategy,
            phase: self.phase,
            iface_count: self.iface_count,
            iface: self.iface,
            saved: self.saved@,
            candidates: self.candidates@,
            next: self.next,
            attempted: self.attempted,
            rounds: self.rounds,
        }
    }
}

/// The state of a pass not yet started.
pub open spec fn initial(strategy: ConnectStrategy) -> PassState {
    PassState {
        strategy,
        phase: Phase::NotStarted,
        iface_count: 0,
        iface: 0,
        saved: Seq::empty(),
        candidates: Seq::empty(),
        next: 0,
        attempted: 0,
        rounds: poll_budget(),
    }
}

/// The indices a phase works on are in range, and a poll round is within
/// the budget.
pub open spec fn inv(s: PassState) -> bool {
    &&& s.rounds == poll_budget()
    &&& match s.phase {
        Phase::ListingProfiles | Phase::ListingVisible => s.iface < s.iface_count,
        Phase::Connecting | Phase::Probing => s.iface < s.iface_count && s.next
            < s.candidates.len(),
        Phase::Polling { round } => s.iface < s.iface_count && s.next < s.candidates.len() && 1
            <= round <= s.rounds,
        _ => true,
    }
}

/// `n` plus one, staying at the largest value.
pub open spec fn bump(n: u64) -> u64 {
    if n < u64::MAX {
        (n + 1) as u64
    } else {
        n
    }
}

/// End the pass with `o`.
pub open spec fn finish(s: PassState, o: RecoveryOutcome) -> (PassState, Action) {
    (PassState { phase: Phase::Done, ..s }, Action::Finish(o))
}

/// The failure of a pass that ran out of interfaces.
pub open spec fn exhausted(s: PassState) -> RecoveryOutcome {
    RecoveryOutcome::Failure {
        reason: if s.attempted == 0 {
            FailureReason::NoCandidates
        } else {
            FailureReason::Exhausted
        },
        attempted: s.attempted,
    }
}

/// Go on with the next interface, or end the pass when there is none.
pub open spec fn next_interface(s: PassState) -> (PassState, Action) {
    if s.iface + 1 < s.iface_count {
        (
            PassState { phase: Phase::ListingProfiles, iface: (s.iface + 1) as usize, ..s },
            Action::ListSavedProfiles((s.iface + 1) as usize),
        )
    } else {
        finish(s, exhausted(s))
    }
}

/// Attempt candidate `k` of the current interface.
pub open spec fn attempt(s: PassState, k: usize) -> (PassState, Action) {
    (
        PassState { phase: Phase::Connecting, next: k, attempted: bump(s.attempted), ..s },
        Action::Connect { iface: s.iface, profile: s.candidates[k as int] },
    )
}

/// Go on with the next candidate, or with the next interface when there is none.
pub open spec fn next_candidate(s: PassState) -> (PassState, Action) {
    if s.next + 1 < s.candidates.len() {
        attempt(s, (s.next + 1) as usize)
    } else {
        next_interface(s)
    }
}

/// Attempt the candidates `c` of the current interface, first to last.
pub open spec fn try_candidates(s: PassState, c: Seq<String>) -> (PassState, Action) {
    let t = PassState { candidates: c, ..s };
    if c.len() == 0 {
        next_interface(t)
    } else {
        attempt(t, 0)
    }
}

/// The state a pass moves to on event `e`, and the action it asks for.
pub open spec fn transition(s: PassState, e: Event) -> (PassState, Action) {
    match (s.phase, e) {
        (Phase::NotStarted, Event::Start) => (
            PassState { phase: Phase::OpeningSession, ..s },
            Action::OpenSession,
        ),
        (Phase::OpeningSession, Event::SessionOpened(ok)) => if ok {
            (
                PassState { phase: Phase::ListingInterfaces { retried: false }, ..s },
                Action::ListInterfaces,
            )
        } else {
            finish(
                s,
                RecoveryOutcome::Failure {
                    reason: FailureReason::NoSession,
                    attempted: s.attempted,
                },
            )
        },
        (Phase::ListingInterfaces { retried }, Event::Interfaces(found)) => match found {
            None => finish(
                s,
                RecoveryOutcome::Failure {
                    reason: FailureReason::InterfaceQuery,
                    attempted: s.attempted,
                },
            ),
            Some(n) => if n > 0 {
                (
                    PassState { phase: Phase::ListingProfiles, iface_count: n, iface: 0, ..s },
                    Action::ListSavedProfiles(0),
                )
            } else if !retried {
                (PassState { phase: Phase::EnablingAdapter, ..s }, Action::EnableAdapter)
            } else {
                finish(
                    s,
                    RecoveryOutcome::Failure {
                        reason: FailureReason::NoInterface,
                        attempted: s.attempted,
                    },
                )
            },
        },
        (Phase::EnablingAdapter, Event::AdapterEnabled(ok)) => if ok {
            (
                PassState { phase: Phase::AdapterSettling, ..s },
                Action::Wait(ADAPTER_SETTLE_SECS),
            )
        } else {
            finish(
                s,
                RecoveryOutcome::Failure {
                    reason: FailureReason::NoInterface,
                    attempted: s.attempted,
                },
            )
        },
        (Phase::AdapterSettling, Event::Waited) => (
            PassState { phase: Phase::ListingInterfaces { retried: true }, ..s },
            Action::ListInterfaces,
        ),
        (Phase::ListingProfiles, Event::SavedProfiles(found)) => match found {
            None => next_interface(s),
            Some(saved) => match s.strategy {
                ConnectStrategy::ScanOnly => (
                    PassState { phase: Phase::ListingVisible, saved: saved@, ..s },
                    Action::ListVisibleNetworks {
                        iface: s.iface,
                        trigger_scan: true,
                        settle_secs: SCAN_SETTLE_SECS,
                    },
                ),
                _ => try_candidates(s, selection(saved@, s.strategy, None)),
            },
        },
        (Phase::ListingVisible, Event::VisibleNetworks(found)) => match found {
            None => next_interface(s),
            Some(visible) => try_candidates(s, selection(s.saved, s.strategy, Some(visible@))),
        },
        (Phase::Connecting, Event::ConnectRequested(ok)) => if ok {
            (
                PassState { phase: Phase::Polling { round: 1 }, ..s },
                Action::PollState { iface: s.iface, wait_secs: POLL_INTERVAL_SECS },
            )
        } else {
            next_candidate(s)
        },
        (Phase::Polling { round }, Event::StateObserved(connected)) => if connected {
            (PassState { phase: Phase::Probing, ..s }, Action::Probe)
        } else if round < s.rounds {
            (
                PassState { phase: Phase::Polling { round: (round + 1) as u64 }, ..s },
                Action::PollState { iface: s.iface, wait_secs: POLL_INTERVAL_SECS },
            )
        } else {
            next_candidate(s)
        },
        (Phase::Probing, Event::Probed(reachable)) => if reachable {
            finish(s, RecoveryOutcome::Success(s.candidates[s.next as int]))
        } else {
            next_candidate(s)
        },
        _ => (s, Action::Idle),
    }
}

impl RecoveryPass {
    /// The well-formedness of a pass.
    pub open spec fn wf(&self) -> bool {
        inv(self@)
    }

    /// A pass, not yet started, that will follow `strategy`.
    pub fn new(strategy: ConnectStrategy) -> (r: Self)
        ensures
            r@ == initial(strategy),
            r.wf(),
    {
        RecoveryPass {
            strategy,
            phase: Phase::NotStarted,
            iface_count: 0,
            iface: 0,
            saved: Vec::new(),
            candidates: Vec::new(),
            next: 0,
            attempted: 0,
            rounds: poll_rounds(POLL_MAX_WAIT_SECS, POLL_INTERVAL_SECS),
        }
    }

    fn finish_with(&mut self, o: RecoveryOutcome) -> (r: Action)
        ensures
            (final(self)@, r) == finish(old(self)@, o),
    {
        self.phase = Phase::Done;
        Action::Finish(o)
    }

    fn advance_interface(&mut self) -> (r: Action)
        requires
            old(self).iface < old(self).iface_count,
        ensures
            (final(self)@, r) == next_interface(old(self)@),
    {
        if self.iface + 1 < self.iface_count {
            self.iface = self.iface + 1;
            self.phase = Phase::ListingProfiles;
            Action::ListSavedProfiles(self.iface)
        } else {
            let reason = if self.attempted == 0 {
                FailureReason::NoCandidates
            } else {
                FailureReason::Exhausted
            };
            let attempted = self.attempted;
            self.finish_with(RecoveryOutcome::Failure { reason, attempted })
        }
    }

    fn begin_attempt(&mut self, k: usize) -> (r: Action)
        requires
            k < old(self).candidates@.len(),
        ensures
            (final(self)@, r) == attempt(old(self)@, k),
    {
        self.phase = Phase::Connecting;
        self.next = k;
        if self.attempted < u64::MAX {
            self.attempted = self.attempted + 1;
        }
        Action::Connect { iface: self.iface, profile: self.candidates[k].clone() }
    }

    fn advance_candidate(&mut self) -> (r: Action)
        requires
            old(self).iface < old(self).iface_count,
            old(self).next < old(self).candidates@.len(),
        ensures
            (final(self)@, r) == next_candidate(old(self)@),
    {
        if self.next < self.candidates.len() - 1 {
            self.begin_attempt(self.next + 1)
        } else {
            self.advance_interface()
        }
    }

    fn take_candidates(&mut self, c: Vec<String>) -> (r: Action)
        requires
            old(self).iface < old(self).iface_count,
        ensures
            (final(self)@, r) == try_candidates(old(self)@, c@),
    {
        self.candidates = c;
        if self.candidates.len() == 0 {
            self.advance_interface()
        } else {
            self.begin_attempt(0)
        }
    }

    /// Moves the pass on by `event` and returns the platform work it asks
    /// for next.
    pub fn step(&mut self, event: Event) -> (r: Action)
        requires
            old(self).wf(),
        ensures
            final(self).wf(),
            (final(self)@, r) == transition(old(self)@, event),
    {
        proof {
            lemma_transition_keeps_inv(self@, event);
        }
        match (self.phase, event) {
            (Phase::NotStarted, Event::Start) => {
                self.phase = Phase::OpeningSession;
                Action::OpenSession
            },
            (Phase::OpeningSession, Event::SessionOpened(ok)) => {
                if ok {
                    self.phase = Phase::ListingInterfaces { retried: false };
                    Action::ListInterfaces
                } else {
                    let attempted = self.attempted;
                    self.finish_with(
                        RecoveryOutcome::Failure { reason: FailureReason::NoSession, attempted },
                    )
                }
            },
            (Phase::ListingInterfaces { retried }, Event::Interfaces(found)) => match found {
                None => {
                    let attempted = self.attempted;
                    self.finish_with(
                        RecoveryOutcome::Failure {
                            reason: FailureReason::InterfaceQuery,
                            attempted,
                        },
                    )
                },
                Some(n) => {
                    if n > 0 {
                        self.phase = Phase::ListingProfiles;
                        self.iface_count = n;
                        self.iface = 0;
                        Action::ListSavedProfiles(0)
                    } else if !retried {
                        self.phase = Phase::EnablingAdapter;
                        Action::EnableAdapter
                    } else {
                        let attempted = self.attempted;
                        self.finish_with(
                            RecoveryOutcome::Failure {
                                reason: FailureReason::NoInterface,
                                attempted,
                            },
                        )
                    }
                },
            },
            (Phase::EnablingAdapter, Event::AdapterEnabled(ok)) => {
                if ok {
                    self.phase = Phase::AdapterSettling;
                    Action::Wait(ADAPTER_SETTLE_SECS)
                } else {
                    let attempted = self.attempted;
                    self.finish_with(
                        RecoveryOutcome::Failure { reason: FailureReason::NoInterface, attempted },
                    )
                }
            },
            (Phase::AdapterSettling, Event::Waited) => {
                self.phase = Phase::ListingInterfaces { retried: true };
                Action::ListInterfaces
            },
            (Phase::ListingProfiles, Event::SavedProfiles(found)) => match found {
                None => self.advance_interface(),
                Some(saved) => match self.strategy {
                    ConnectStrategy::ScanOnly => {
                        self.saved = saved;
                        self.phase = Phase::ListingVisible;
                        Action::ListVisibleNetworks {
                            iface: self.iface,
                            trigger_scan: true,
                            settle_secs: SCAN_SETTLE_SECS,
                        }
                    },
                    _ => {
                        let c = filter_profiles_by_strategy(saved.as_slice(), &self.strategy, None);
                        self.take_candidates(c)
                    },
                },
            },
            (Phase::ListingVisible, Event::VisibleNetworks(found)) => match found {
                None => self.advance_interface(),
                Some(visible) => {
                    let c = filter_profiles_by_strategy(
                        self.saved.as_slice(),
                        &self.strategy,
                        Some(&visible),
                    );
                    self.take_candidates(c)
                },
            },
            (Phase::Connecting, Event::ConnectRequested(ok)) => {
                if ok {
                    self.phase = Phase::Polling { round: 1 };
                    Action::PollState { iface: self.iface, wait_secs: POLL_INTERVAL_SECS }
                } else {
                    self.advance_candidate()
                }
            },
            (Phase::Polling { round }, Event::StateObserved(connected)) => {
                if connected {
                    self.phase = Phase::Probing;
                    Action::Probe
                } else if round < self.rounds {
                    self.phase = Phase::Polling { round: round + 1 };
                    Action::PollState { iface: self.iface, wait_secs: POLL_INTERVAL_SECS }
                } else {
                    self.advance_candidate()
                }
            },
            (Phase::Probing, Event::Probed(reachable)) => {
                if reachable {
                    let profile = self.candidates[self.next].clone();
                    self.finish_with(RecoveryOutcome::Success(profile))
                } else {
                    self.advance_candidate()
                }
            },
            (_, _) => Action::Idle,
        }
    }
}

/// Every step keeps the pass well formed.
pub proof fn lemma_transition_keeps_inv(s: PassState, e: Event)
    requires
        inv(s),
    ensures
        inv(transition(s, e).0),
{
}

/// The state after feeding `events` to a pass in order, and the actions it
/// asked for along the way.
pub open spec fn run(s: PassState, events: Seq<Event>) -> (PassState, Seq<Action>)
    decreases events.len(),
{
    if events.len() == 0 {
        (s, Seq::empty())
    } else {
        let first = transition(s, events[0]);
        let rest = run(first.0, events.drop_first());
        (rest.0, seq![first.1] + rest.1)
    }
}

/// An action that attempts a profile.
pub open spec fn is_attempt(a: Action) -> bool {
    a is Connect
}

/// A finished pass stays finished: whatever comes later, it asks for
/// nothing.
pub proof fn lemma_done_is_final(s: PassState, later: Seq<Event>)
    requires
        s.phase == Phase::Done,
    ensures
        run(s, later).0 == s,
        run(s, later).1 == Seq::new(later.len(), |i: int| Action::Idle),
    decreases later.len(),
{
    if later.len() > 0 {
        lemma_done_is_final(s, later.drop_first());
        assert(run(s, later).1 == Seq::new(later.len(), |i: int| Action::Idle));
    }
}

/// When the probe finds the network reachable after a profile connected, the
/// pass ends in success with that profile, and no later event makes it
/// attempt another profile.
pub proof fn lemma_success_ends_pass(s: PassState, later: Seq<Event>)
    requires
        inv(s),
        s.phase == Phase::Probing,
    ensures
        transition(s, Event::Probed(true)).1 == Action::Finish(
            RecoveryOutcome::Success(s.candidates[s.next as int]),
        ),
        forall|k: int|
            0 <= k < later.len() ==> !is_attempt(
                #[trigger] run(transition(s, Event::Probed(true)).0, later).1[k],
            ),
{
    lemma_done_is_final(transition(s, Event::Probed(true)).0, later);
}

/// With no wireless interface and an adapter that cannot be enabled, a pass
/// fails for want of an interface without attempting any profile; so it does
/// when the interface list is still empty after an adapter was enabled.
pub proof fn lemma_no_interface_no_attempt(strategy: ConnectStrategy)
    ensures
        ({
            let r = run(
                initial(strategy),
                seq![
                    Event::Start,
                    Event::SessionOpened(true),
                    Event::Interfaces(Some(0)),
                    Event::AdapterEnabled(false),
                ],
            );
            &&& r.0.phase == Phase::Done
            &&& r.1.len() == 4
            &&& r.1[3] == Action::Finish(
                RecoveryOutcome::Failure { reason: FailureReason::NoInterface, attempted: 0 },
            )
            &&& forall|k: int| 0 <= k < r.1.len() ==> !is_attempt(#[trigger] r.1[k])
        }),
        ({
            let r = run(
                initial(strategy),
                seq![
                    Event::Start,
                    Event::SessionOpened(true),
                    Event::Interfaces(Some(0)),
                    Event::AdapterEnabled(true),
                    Event::Waited,
                    Event::Interfaces(Some(0)),
                ],
            );
            &&& r.0.phase == Phase::Done
            &&& r.1.len() == 6
            &&& r.1[5] == Action::Finish(
                RecoveryOutcome::Failure { reason: FailureReason::NoInterface, attempted: 0 },
            )
            &&& forall|k: int| 0 <= k < r.1.len() ==> !is_attempt(#[trigger] r.1[k])
        }),
{
    reveal_with_fuel(run, 7);
    let e1 = seq![
        Event::Start,
        Event::SessionOpened(true),
        Event::Interfaces(Some(0)),
        Event::AdapterEnabled(false),
    ];
    assert(e1.drop_first().drop_first().drop_first().drop_first() == Seq::<Event>::empty());
    let e2 = seq![
        Event::Start,
        Event::SessionOpened(true),
        Event::Interfaces(Some(0)),
        Event::AdapterEnabled(true),
        Event::Waited,
        Event::Interfaces(Some(0)),
    ];
    assert(e2.drop_first().drop_first().drop_first().drop_first().drop_first().drop_first()
        == Seq::<Event>::empty());
}

/// `n` observations of a state that is not "connected".
pub open spec fn unconnected(n: nat) -> Seq<Event> {
    Seq::new(n, |i: int| Event::StateObserved(false))
}

/// Polling is bounded: from poll round `round`, after `rounds - round + 1`
/// observations that are not "connected" the pass has given up on the
/// profile, exactly as a rejected attempt would, having asked only for more
/// polls on the way and never for a probe.
pub proof fn lemma_poll_bound(s: PassState, round: u64)
    requires
        inv(s),
        s.phase == (Phase::Polling { round }),
    ensures
        ({
            let n = (s.rounds - round + 1) as nat;
            let r = run(s, unconnected(n));
            &&& r.0 == next_candidate(s).0
            &&& r.1.len() == n
            &&& r.1[n - 1] == next_candidate(s).1
            &&& forall|k: int|
                0 <= k < n - 1 ==> #[trigger] r.1[k] == (Action::PollState {
                    iface: s.iface,
                    wait_secs: POLL_INTERVAL_SECS,
                })
        }),
    decreases s.rounds - round,
{
    let n = (s.rounds - round + 1) as nat;
    let evs = unconnected(n);
    assert(evs[0] == Event::StateObserved(false));
    if round < s.rounds {
        let t = transition(s, Event::StateObserved(false)).0;
        assert(t == PassState { phase: Phase::Polling { round: (round + 1) as u64 }, ..s });
        assert(evs.drop_first() == unconnected((n - 1) as nat));
        lemma_poll_bound(t, (round + 1) as u64);
        assert(next_candidate(t) == next_candidate(s));
        let r = run(s, evs);
        let rt = run(t, unconnected((n - 1) as nat));
        assert(r.1 == seq![Action::PollState { iface: s.iface, wait_secs: POLL_INTERVAL_SECS }]
            + rt.1);
        assert forall|k: int|
            0 <= k < n - 1 implies #[trigger] r.1[k] == (Action::PollState {
                iface: s.iface,
                wait_secs: POLL_INTERVAL_SECS,
            }) by {
            if k > 0 {
                assert(r.1[k] == rt.1[k - 1]);
            }
        }
        assert(r.0 == rt.0);
        assert(r.1[n - 1] == rt.1[n - 2]);
    } else {
        assert(evs.drop_first() == Seq::<Event>::empty());
        reveal_with_fuel(run, 2);
        let r = run(s, evs);
        assert(r.0 == next_candidate(s).0);
        assert(r.1 == seq![next_candidate(s).1]);
    }
}

/// The polling budget of every pass: fifteen rounds, two seconds apart.
pub proof fn lemma_poll_budget()
    ensures
        poll_budget() == 15,
{
}

} // verus!
