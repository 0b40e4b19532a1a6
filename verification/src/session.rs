//! The per-connection session engine: one logical thread of control that
//! reacts to client requests and to provider completions, in strictly
//! interleaved turns.
//!
//! The engine is a state machine.  Callers feed it one `Event` at a time
//! and perform the returned `Action`s: sending a frame, starting or
//! cancelling provider work, re-initializing providers, closing the
//! connection.  Every query increments an epoch; provider work is tagged
//! with the epoch current when it was issued, and a completion whose tag
//! is no longer current is discarded without a reply.  Blocking work and
//! sockets stay outside; the engine only decides.

use vstd::prelude::*;
use crate::protocol::{
    HandleOutcome, HandleOutcomeV, MatchEntry, MatchEntryV, ProviderInfo, ProviderInfoV, Request,
    RequestV, Response, ResponseV, view_infos, view_matches,
};
use crate::registry::{
    Registry, RegistryV, ProviderSlotV, spec_initialize_all, spec_lookup,
};

verus! {

/// Where a connection stands.  `Querying` is not a separate variant: a
/// session is querying exactly when it is `Ready` with outstanding work.
#[derive(Debug, Clone, Copy, PartialEq, Eq)]
pub enum Phase {
    /// Nothing sent yet; the handshake must go out first.
    AwaitingHandshake,
    /// The handshake went out; requests and completions are served.
    Ready,
    /// Terminal.  `quit` records whether an explicit quit request closed
    /// the session, which also stops the accept loop.
    Closed { quit: bool },
}

/// An event the session engine reacts to.
#[derive(Debug)]
pub enum Event {
    /// A client request arrived.
    Client(Request),
    /// The provider at `index` finished the work it was handed for
    /// `epoch`, with its entries.
    WorkDone { epoch: u64, index: usize, entries: Vec<MatchEntry> },
    /// A provider finished handling a selection; `provider` is the
    /// descriptor the client sent with the request, carried through.
    SelectionDone { provider: ProviderInfo, outcome: HandleOutcome },
    /// The transport reached clean end-of-stream.
    EndOfStream,
}

/// Mathematical image of an `Event`.
#[verifier::ext_equal]
pub enum EventV {
    Client(RequestV),
    WorkDone { epoch: nat, index: nat, entries: Seq<MatchEntryV> },
    SelectionDone { provider: ProviderInfoV, outcome: HandleOutcomeV },
    EndOfStream,
}

impl View for Event {
    type V = EventV;

    open spec fn view(&self) -> EventV {
        match self {
            Event::Client(r) => EventV::Client(r@),
            Event::WorkDone { epoch, index, entries } => EventV::WorkDone {
                epoch: *epoch as nat,
                index: *index as nat,
                entries: view_matches(entries@),
            },
            Event::SelectionDone { provider, outcome } => EventV::SelectionDone {
                provider: provider@,
                outcome: outcome@,
            },
            Event::EndOfStream => EventV::EndOfStream,
        }
    }
}

/// What the caller must perform after a step.
#[derive(Debug, PartialEq, Eq)]
pub enum Action {
    /// Send this frame to the client.
    Reply(Response),
    /// Request cancellation of every outstanding provider call.
    CancelAll,
    /// Hand `text` to the provider at `index` on a worker that may block;
    /// report completion as a `WorkDone` event carrying `epoch`.
    StartWork { epoch: u64, index: usize, text: String },
    /// Hand the selection to the provider at `index`; report the outcome
    /// as a `SelectionDone` event that echoes `provider`, the descriptor
    /// the client sent.
    StartSelection { index: usize, provider: ProviderInfo, selection: MatchEntry },
    /// Call every provider's initialize operation again.
    InitProviders,
    /// Stop reading and writing; with `quit` the whole broker stops.
    CloseConnection { quit: bool },
}

/// Mathematical image of an `Action`.
#[verifier::ext_equal]
pub enum ActionV {
    Reply(ResponseV),
    CancelAll,
    StartWork { epoch: nat, index: nat, text: Seq<char> },
    StartSelection { index: nat, provider: ProviderInfoV, selection: MatchEntryV },
    InitProviders,
    CloseConnection { quit: bool },
}

impl View for Action {
    type V = ActionV;

    open spec fn view(&self) -> ActionV {
        match self {
            Action::Reply(r) => ActionV::Reply(r@),
            Action::CancelAll => ActionV::CancelAll,
            Action::StartWork { epoch, index, text } => ActionV::StartWork {
                epoch: *epoch as nat,
                index: *index as nat,
                text: text@,
            },
            Action::StartSelection { index, provider, selection } => ActionV::StartSelection {
                index: *index as nat,
                provider: provider@,
                selection: selection@,
            },
            Action::InitProviders => ActionV::InitProviders,
            Action::CloseConnection { quit } => ActionV::CloseConnection { quit: *quit },
        }
    }
}

/// The view of a list of actions.
pub open spec fn view_actions(v: Seq<Action>) -> Seq<ActionV> {
    v.map_values(|a: Action| a@)
}

/// The view of the pending-work list.
pub open spec fn view_pending(v: Seq<usize>) -> Seq<nat> {
    v.map_values(|u: usize| u as nat)
}

/// One connection's session: the shared registry, the connection phase,
/// the current query epoch, and the pending work set — the provider
/// indices whose work for the current epoch is still outstanding.
pub struct Session {
    pub registry: Registry,
    pub phase: Phase,
    pub epoch: u64,
    pub pending: Vec<usize>,
}

/// Mathematical image of a `Session`.
#[verifier::ext_equal]
pub struct SessionV {
    pub registry: RegistryV,
    pub phase: Phase,
    pub epoch: nat,
    pub pending: Seq<nat>,
}

impl View for Session {
    type V = SessionV;

    open spec fn view(&self) -> SessionV {
        SessionV {
            registry: self.registry@,
            phase: self.phase,
            epoch: self.epoch as nat,
            pending: view_pending(self.pending@),
        }
    }
}

impl SessionV {
    /// Well-formedness: every pending index points at a provider, and no
    /// provider has two outstanding calls for the same epoch.
    pub open spec fn wf(self) -> bool {
        &&& forall|k: int| 0 <= k < self.pending.len()
            ==> #[trigger] self.pending[k] < self.registry.slots.len()
        &&& forall|k1: int, k2: int| 0 <= k1 < k2 < self.pending.len()
            ==> self.pending[k1] != self.pending[k2]
    }
}

/// The handshake: the session becomes ready and announces every loaded
/// provider's description, before anything else is sent.
pub open spec fn spec_handshake(s: SessionV) -> (SessionV, Seq<ActionV>) {
    (
        SessionV { phase: Phase::Ready, ..s },
        seq![
            ActionV::Reply(ResponseV::Ready {
                providers: s.registry.slots.map_values(|sl: ProviderSlotV| sl.info),
            }),
        ],
    )
}

/// The reaction to a client request while the session is ready.
pub open spec fn spec_client_step(s: SessionV, req: RequestV) -> (SessionV, Seq<ActionV>) {
    match req {
        RequestV::Query(text) => {
            let n = s.registry.slots.len();
            let e = s.epoch + 1;
            (
                SessionV { epoch: e, pending: Seq::new(n, |k: int| k as nat), ..s },
                seq![ActionV::CancelAll] + Seq::new(
                    n,
                    |k: int| ActionV::StartWork { epoch: e, index: k as nat, text: text },
                ),
            )
        },
        RequestV::Handle { provider, selection } => {
            match spec_lookup(s.registry.slots, provider.name) {
                Some(i) => (
                    s,
                    seq![ActionV::StartSelection { index: i as nat, provider, selection }],
                ),
                None => (s, Seq::empty()),
            }
        },
        RequestV::Reset => {
            (
                SessionV {
                    registry: spec_initialize_all(s.registry),
                    epoch: s.epoch + 1,
                    pending: Seq::empty(),
                    ..s
                },
                seq![ActionV::CancelAll, ActionV::InitProviders],
            )
        },
        RequestV::Quit => {
            (
                SessionV { phase: Phase::Closed { quit: true }, ..s },
                seq![ActionV::CloseConnection { quit: true }],
            )
        },
    }
}

/// One turn of the event loop: what the session becomes and what the
/// caller must perform.  Events that the phase does not accept are inert.
pub open spec fn spec_step(s: SessionV, ev: EventV) -> (SessionV, Seq<ActionV>) {
    match ev {
        EventV::Client(req) => {
            if s.phase is Ready {
                spec_client_step(s, req)
            } else {
                (s, Seq::empty())
            }
        },
        EventV::WorkDone { epoch, index, entries } => {
            if s.phase is Ready && epoch == s.epoch && index < s.registry.slots.len()
                && s.pending.contains(index) {
                (
                    SessionV { pending: s.pending.remove_value(index), ..s },
                    seq![
                        ActionV::Reply(ResponseV::Matches {
                            provider: s.registry.slots[index as int].info,
                            entries: entries,
                        }),
                    ],
                )
            } else {
                (s, Seq::empty())
            }
        },
        EventV::SelectionDone { provider, outcome } => {
            if s.phase is Ready {
                (
                    s,
                    seq![
                        ActionV::Reply(ResponseV::Handled { provider: provider, outcome: outcome }),
                    ],
                )
            } else {
                (s, Seq::empty())
            }
        },
        EventV::EndOfStream => {
            if s.phase is Closed {
                (s, Seq::empty())
            } else {
                (
                    SessionV { phase: Phase::Closed { quit: false }, ..s },
                    seq![ActionV::CloseConnection { quit: false }],
                )
            }
        },
    }
}

/// Removes the first occurrence of `x`, reporting whether one was there.
fn remove_first(v: &mut Vec<usize>, x: usize) -> (found: bool)
    ensures
        found == view_pending(old(v)@).contains(x as nat),
        view_pending(final(v)@) == view_pending(old(v)@).remove_value(x as nat),
{
    let ghost pv = view_pending(v@);
    let n = v.len();
    let mut i: usize = 0;
    while i < n
        invariant
            0 <= i <= n,
            n == v@.len(),
            v@ == old(v)@,
            pv == view_pending(v@),
            forall|k: int| 0 <= k < i ==> v@[k] != x,
        decreases n - i,
    {
        if v[i] == x {
            proof {
                pv.index_of_first_ensures(x as nat);
                assert(pv[i as int] == x as nat);
                assert(forall|j: int| 0 <= j < i ==> pv[j] != x as nat);
                let idx = pv.index_of_first(x as nat)->Some_0;
                assert(!(idx < i) && !(i < idx));
                assert(idx == i);
            }
            v.remove(i);
            proof {
                assert(view_pending(v@) =~= pv.remove(i as int));
            }
            return true;
        }
        i = i + 1;
    }
    proof {
        assert forall|k: int| 0 <= k < pv.len() implies pv[k] != x as nat by {
            assert(v@[k] != x);
        }
        pv.index_of_first_ensures(x as nat);
    }
    false
}

/// Clones the descriptions of every loaded provider, in index order.
fn collect_infos(reg: &Registry) -> (r: Vec<ProviderInfo>)
    ensures
        view_infos(r@) == reg@.slots.map_values(|sl: ProviderSlotV| sl.info),
{
    let n = reg.providers.len();
    let mut out: Vec<ProviderInfo> = Vec::new();
    let mut i: usize = 0;
    while i < n
        invariant
            0 <= i <= n,
            n == reg.providers@.len(),
            out@.len() == i,
            forall|k: int| 0 <= k < i ==> #[trigger] out@[k]@ == reg@.slots[k].info,
        decreases n - i,
    {
        let info = reg.providers[i].info.clone();
        out.push(info);
        i = i + 1;
    }
    proof {
        assert(view_infos(out@) =~= reg@.slots.map_values(|sl: ProviderSlotV| sl.info));
    }
    out
}

impl Session {
    /// A fresh session over a loaded registry, before the handshake.
    pub fn begin(registry: Registry) -> (s: Session)
        ensures
            s@ == (SessionV {
                registry: registry@,
                phase: Phase::AwaitingHandshake,
                epoch: 0,
                pending: Seq::empty(),
            }),
            s@.wf(),
    {
        let s = Session {
            registry,
            phase: Phase::AwaitingHandshake,
            epoch: 0,
            pending: Vec::new(),
        };
        proof {
            assert(view_pending(s.pending@) =~= Seq::<nat>::empty());
        }
        s
    }

    /// Sends the handshake: the one `Ready` frame, enumerating every
    /// loaded provider, before any request is served.
    pub fn handshake(&mut self) -> (out: Vec<Action>)
        requires
            old(self)@.wf(),
            old(self).phase is AwaitingHandshake,
        ensures
            final(self)@ == spec_handshake(old(self)@).0,
            view_actions(out@) == spec_handshake(old(self)@).1,
            final(self)@.wf(),
    {
        self.phase = Phase::Ready;
        let infos = collect_infos(&self.registry);
        let mut out: Vec<Action> = Vec::new();
        out.push(Action::Reply(Response::Ready { providers: infos }));
        proof {
            assert(view_actions(out@) =~= spec_handshake(old(self)@).1);
            assert(self@ =~= spec_handshake(old(self)@).0);
        }
        out
    }

    /// One turn of the event loop.  The returned actions are performed by
    /// the caller in order; everything decided — what is sent, what is
    /// started, what is discarded — is fixed by `spec_step`.
    pub fn step(&mut self, ev: Event) -> (out: Vec<Action>)
        requires
            old(self)@.wf(),
            old(self).epoch < u64::MAX,
        ensures
            final(self)@ == spec_step(old(self)@, ev@).0,
            view_actions(out@) == spec_step(old(self)@, ev@).1,
            final(self)@.wf(),
    {
        match ev {
            Event::Client(req) => {
                if matches!(self.phase, Phase::Ready) {
                    self.client_step(req)
                } else {
                    let out: Vec<Action> = Vec::new();
                    proof {
                        assert(view_actions(out@) =~= spec_step(old(self)@, ev@).1);
                    }
                    out
                }
            },
            Event::WorkDone { epoch, index, entries } => {
                self.work_done(epoch, index, entries)
            },
            Event::SelectionDone { provider, outcome } => {
                self.selection_done(provider, outcome)
            },
            Event::EndOfStream => {
                let mut out: Vec<Action> = Vec::new();
                if !matches!(self.phase, Phase::Closed { .. }) {
                    self.phase = Phase::Closed { quit: false };
                    out.push(Action::CloseConnection { quit: false });
                }
                proof {
                    assert(view_actions(out@) =~= spec_step(old(self)@, ev@).1);
                    assert(self@ =~= spec_step(old(self)@, ev@).0);
                }
                out
            },
        }
    }

    /// Serves one client request in the ready phase.
    fn client_step(&mut self, req: Request) -> (out: Vec<Action>)
        requires
            old(self)@.wf(),
            old(self).epoch < u64::MAX,
            old(self).phase is Ready,
        ensures
            final(self)@ == spec_client_step(old(self)@, req@).0,
            view_actions(out@) == spec_client_step(old(self)@, req@).1,
            final(self)@.wf(),
    {
        match req {
            Request::Query(text) => self.start_query(text),
            Request::Handle { provider, selection } => {
                let mut out: Vec<Action> = Vec::new();
                let looked = self.registry.lookup(&provider.name);
                match looked {
                    Some(index) => {
                        out.push(Action::StartSelection { index, provider, selection });
                    },
                    None => {},
                }
                proof {
                    assert(view_actions(out@) =~= spec_client_step(old(self)@, req@).1);
                    assert(self@ =~= spec_client_step(old(self)@, req@).0);
                }
                out
            },
            Request::Reset => {
                let mut out: Vec<Action> = Vec::new();
                out.push(Action::CancelAll);
                out.push(Action::InitProviders);
                self.epoch = self.epoch + 1;
                self.pending = Vec::new();
                self.registry.initialize_all();
                proof {
                    assert(view_pending(self.pending@) =~= Seq::<nat>::empty());
                    assert(view_actions(out@) =~= spec_client_step(old(self)@, req@).1);
                    assert(self@ =~= spec_client_step(old(self)@, req@).0);
                }
                out
            },
            Request::Quit => {
                let mut out: Vec<Action> = Vec::new();
                self.phase = Phase::Closed { quit: true };
                out.push(Action::CloseConnection { quit: true });
                proof {
                    assert(view_actions(out@) =~= spec_client_step(old(self)@, req@).1);
                    assert(self@ =~= spec_client_step(old(self)@, req@).0);
                }
                out
            },
        }
    }

    /// Starts a new query: cancels the pending work set, moves to the next
    /// epoch, and schedules every provider under the new epoch.
    fn start_query(&mut self, text: String) -> (out: Vec<Action>)
        requires
            old(self)@.wf(),
            old(self).epoch < u64::MAX,
            old(self).phase is Ready,
        ensures
            final(self)@ == spec_client_step(old(self)@, RequestV::Query(text@)).0,
            view_actions(out@) == spec_client_step(old(self)@, RequestV::Query(text@)).1,
            final(self)@.wf(),
    {
        let mut out: Vec<Action> = Vec::new();
        out.push(Action::CancelAll);
        self.epoch = self.epoch + 1;
        self.pending = Vec::new();
        let n = self.registry.len();
        let mut k: usize = 0;
        while k < n
            invariant
                0 <= k <= n,
                n == self.registry@.slots.len(),
                self.registry == old(self).registry,
                self.phase == old(self).phase,
                self.epoch == old(self).epoch + 1,
                self.pending@.len() == k,
                forall|j: int| 0 <= j < k ==> #[trigger] self.pending@[j] == j,
                out@.len() == k + 1,
                out@[0]@ == ActionV::CancelAll,
                forall|j: int| 1 <= j <= k ==> #[trigger] out@[j]@ == (ActionV::StartWork {
                    epoch: (old(self).epoch + 1) as nat,
                    index: (j - 1) as nat,
                    text: text@,
                }),
            decreases n - k,
        {
            self.pending.push(k);
            out.push(Action::StartWork { epoch: self.epoch, index: k, text: text.clone() });
            k = k + 1;
        }
        proof {
            let target = spec_client_step(old(self)@, RequestV::Query(text@));
            assert(view_pending(self.pending@) =~= target.0.pending);
            assert(self@ =~= target.0);
            assert(view_actions(out@) =~= target.1);
        }
        out
    }

    /// Serves one provider completion: the result is delivered only when
    /// its epoch is still current and that provider's work is still
    /// pending; anything else is discarded without a reply.
    fn work_done(&mut self, epoch: u64, index: usize, entries: Vec<MatchEntry>) -> (out: Vec<
        Action,
    >)
        requires
            old(self)@.wf(),
        ensures
            final(self)@ == spec_step(old(self)@, EventV::WorkDone {
                epoch: epoch as nat,
                index: index as nat,
                entries: view_matches(entries@),
            }).0,
            view_actions(out@) == spec_step(old(self)@, EventV::WorkDone {
                epoch: epoch as nat,
                index: index as nat,
                entries: view_matches(entries@),
            }).1,
            final(self)@.wf(),
    {
        let ghost ev = EventV::WorkDone {
            epoch: epoch as nat,
            index: index as nat,
            entries: view_matches(entries@),
        };
        let mut out: Vec<Action> = Vec::new();
        if matches!(self.phase, Phase::Ready) && epoch == self.epoch
            && index < self.registry.len() {
            let found = remove_first(&mut self.pending, index);
            if found {
                let info = self.registry.providers[index].info.clone();
                out.push(Action::Reply(Response::Matches { provider: info, entries }));
                proof {
                    lemma_remove_value_wf(old(self)@, index as nat);
                    assert(view_actions(out@) =~= spec_step(old(self)@, ev).1);
                    assert(self@ =~= spec_step(old(self)@, ev).0);
                }
            } else {
                proof {
                    old(self)@.pending.index_of_first_ensures(index as nat);
                    assert(old(self)@.pending.remove_value(index as nat)
                        == old(self)@.pending);
                    assert(view_actions(out@) =~= spec_step(old(self)@, ev).1);
                    assert(self@ =~= spec_step(old(self)@, ev).0);
                }
            }
        } else {
            proof {
                assert(view_actions(out@) =~= spec_step(old(self)@, ev).1);
            }
        }
        out
    }

    /// Serves one finished selection while the session is open: exactly
    /// one `Handled` frame goes out, echoing the descriptor the client
    /// sent with its request and carrying the returned outcome.
    fn selection_done(&mut self, provider: ProviderInfo, outcome: HandleOutcome) -> (out: Vec<
        Action,
    >)
        requires
            old(self)@.wf(),
        ensures
            final(self)@ == spec_step(old(self)@, EventV::SelectionDone {
                provider: provider@,
                outcome: outcome@,
            }).0,
            view_actions(out@) == spec_step(old(self)@, EventV::SelectionDone {
                provider: provider@,
                outcome: outcome@,
            }).1,
            final(self)@.wf(),
    {
        let ghost ev = EventV::SelectionDone { provider: provider@, outcome: outcome@ };
        let mut out: Vec<Action> = Vec::new();
        if matches!(self.phase, Phase::Ready) {
            out.push(Action::Reply(Response::Handled { provider, outcome }));
            proof {
                assert(view_actions(out@) =~= spec_step(old(self)@, ev).1);
            }
        } else {
            proof {
                assert(view_actions(out@) =~= spec_step(old(self)@, ev).1);
            }
        }
        out
    }
}

/// The session state after the first `k` of the events have been served,
/// starting from `s`.
pub open spec fn state_at(s: SessionV, evs: Seq<EventV>, k: int) -> SessionV
    decreases k,
{
    if k <= 0 {
        s
    } else {
        spec_step(state_at(s, evs, k - 1), evs[k - 1]).0
    }
}

/// Everything the session emits over the events, in order.
pub open spec fn run_outputs(s: SessionV, evs: Seq<EventV>) -> Seq<ActionV>
    decreases evs.len(),
{
    if evs.len() == 0 {
        Seq::empty()
    } else {
        spec_step(s, evs[0]).1 + run_outputs(spec_step(s, evs[0]).0, evs.skip(1))
    }
}

/// Whether an action sends the handshake frame.
pub open spec fn is_ready_reply(a: ActionV) -> bool {
    a matches ActionV::Reply(ResponseV::Ready { .. })
}

/// The epoch never moves backwards in one step.
pub proof fn lemma_epoch_monotone_step(s: SessionV, ev: EventV)
    ensures
        spec_step(s, ev).0.epoch >= s.epoch,
{
}

/// The epoch never moves backwards over a run.
pub proof fn lemma_epoch_monotone(s: SessionV, evs: Seq<EventV>, a: int, b: int)
    requires
        0 <= a <= b,
    ensures
        state_at(s, evs, b).epoch >= state_at(s, evs, a).epoch,
    decreases b - a,
{
    if a < b {
        lemma_epoch_monotone(s, evs, a, b - 1);
        lemma_epoch_monotone_step(state_at(s, evs, b - 1), evs[b - 1]);
    }
}

/// A session that has left the ready phase never re-enters it.
pub proof fn lemma_not_ready_stays(s: SessionV, evs: Seq<EventV>, a: int, b: int)
    requires
        0 <= a <= b,
        !(state_at(s, evs, a).phase is Ready),
    ensures
        !(state_at(s, evs, b).phase is Ready),
    decreases b - a,
{
    if a < b {
        lemma_not_ready_stays(s, evs, a, b - 1);
    }
}

/// Staleness is strictly enforced: work tagged by one query is never
/// delivered once a later query has been issued.  Here the first query is
/// served at position `i1` and tags its work with the epoch then current;
/// a second query is served at position `i2`; a completion carrying the
/// first query's tag arrives at position `j`, after the second query.
/// Serving it emits nothing: the stale entries never reach the client.
pub proof fn lemma_stale_results_dropped(
    s: SessionV,
    evs: Seq<EventV>,
    i1: int,
    i2: int,
    j: int,
)
    requires
        0 <= i1 < i2 < j < evs.len(),
        evs[i1] matches EventV::Client(RequestV::Query(_)),
        evs[i2] matches EventV::Client(RequestV::Query(_)),
        evs[j] matches EventV::WorkDone { epoch, .. }
            && epoch == state_at(s, evs, i1 + 1).epoch,
    ensures
        spec_step(state_at(s, evs, j), evs[j]).1 == Seq::<ActionV>::empty(),
{
    let e1 = state_at(s, evs, i1 + 1).epoch;
    let sj = state_at(s, evs, j);
    if sj.phase is Ready {
        // The ready phase is never re-entered, so the session was ready at
        // the second query too, which therefore moved the epoch strictly
        // past every earlier one.
        let si2 = state_at(s, evs, i2);
        if !(si2.phase is Ready) {
            lemma_not_ready_stays(s, evs, i2, j);
            assert(false);
        }
        lemma_epoch_monotone(s, evs, i1 + 1, i2);
        assert(state_at(s, evs, i2 + 1).epoch == si2.epoch + 1);
        lemma_epoch_monotone(s, evs, i2 + 1, j);
        assert(sj.epoch > e1);
    }
}

/// Selection handling echoes the client-sent descriptor, as a selection
/// is a direct user action on an entry the client holds: serving a
/// `Handle` request whose name is registered emits exactly one
/// `StartSelection` carrying the request's own descriptor, and serving
/// that call's completion emits exactly one `Handled` frame carrying the
/// same descriptor and the returned outcome.
pub proof fn lemma_handled_echoes_descriptor(
    s: SessionV,
    provider: ProviderInfoV,
    selection: MatchEntryV,
    outcome: HandleOutcomeV,
)
    requires
        s.phase is Ready,
        spec_lookup(s.registry.slots, provider.name) is Some,
    ensures
        spec_step(s, EventV::Client(RequestV::Handle { provider, selection })).1 == seq![
            ActionV::StartSelection {
                index: spec_lookup(s.registry.slots, provider.name)->Some_0 as nat,
                provider,
                selection,
            },
        ],
        spec_step(s, EventV::SelectionDone { provider, outcome }).1 == seq![
            ActionV::Reply(ResponseV::Handled { provider, outcome }),
        ],
{
}

/// Reset is idempotent on everything a provider can observe: after a
/// second reset in a row the providers' initialization state, the pending
/// work set and the connection phase are exactly what one reset leaves.
/// Only the internal epoch counter keeps counting.
pub proof fn lemma_reset_idempotent(s: SessionV)
    ensures
        ({
            let once = spec_step(s, EventV::Client(RequestV::Reset)).0;
            let twice = spec_step(once, EventV::Client(RequestV::Reset)).0;
            &&& twice.registry == once.registry
            &&& twice.pending == once.pending
            &&& twice.phase == once.phase
        }),
{
    if s.phase is Ready {
        crate::registry::lemma_initialize_all_idempotent(s.registry);
    }
}

/// No step after the handshake ever emits the handshake frame.
pub proof fn lemma_step_no_ready_reply(s: SessionV, ev: EventV)
    ensures
        forall|k: int| 0 <= k < spec_step(s, ev).1.len()
            ==> !is_ready_reply(#[trigger] spec_step(s, ev).1[k]),
{
    let out = spec_step(s, ev).1;
    match ev {
        EventV::Client(req) => {
            if s.phase is Ready {
                match req {
                    RequestV::Query(text) => {
                        assert forall|k: int| 0 <= k < out.len() implies !is_ready_reply(
                            out[k],
                        ) by {
                            if k > 0 {
                                assert(out[k] == Seq::new(
                                    s.registry.slots.len(),
                                    |i: int| ActionV::StartWork {
                                        epoch: s.epoch + 1,
                                        index: i as nat,
                                        text: text,
                                    },
                                )[k - 1]);
                            }
                        }
                    },
                    _ => {},
                }
            }
        },
        _ => {},
    }
}

/// A whole run after the handshake emits no handshake frame.
pub proof fn lemma_run_no_ready_reply(s: SessionV, evs: Seq<EventV>)
    ensures
        forall|k: int| 0 <= k < run_outputs(s, evs).len()
            ==> !is_ready_reply(#[trigger] run_outputs(s, evs)[k]),
    decreases evs.len(),
{
    if evs.len() > 0 {
        let first = spec_step(s, evs[0]).1;
        lemma_step_no_ready_reply(s, evs[0]);
        lemma_run_no_ready_reply(spec_step(s, evs[0]).0, evs.skip(1));
        assert forall|k: int| 0 <= k < run_outputs(s, evs).len() implies !is_ready_reply(
            run_outputs(s, evs)[k],
        ) by {
            if k < first.len() {
                assert(run_outputs(s, evs)[k] == first[k]);
            } else {
                assert(run_outputs(s, evs)[k] == run_outputs(
                    spec_step(s, evs[0]).0,
                    evs.skip(1),
                )[k - first.len()]);
            }
        }
    }
}

/// The handshake frame is sent exactly once per connection, and strictly
/// before every other frame: over the handshake and any events at all,
/// the very first emitted action is the one `Ready` reply, and no later
/// action is one.
pub proof fn lemma_ready_exactly_once(reg: RegistryV, evs: Seq<EventV>)
    ensures
        ({
            let fresh = SessionV {
                registry: reg,
                phase: Phase::AwaitingHandshake,
                epoch: 0,
                pending: Seq::empty(),
            };
            let out = spec_handshake(fresh).1 + run_outputs(spec_handshake(fresh).0, evs);
            &&& out.len() > 0
            &&& is_ready_reply(out[0])
            &&& forall|k: int| 1 <= k < out.len() ==> !is_ready_reply(#[trigger] out[k])
        }),
{
    let fresh = SessionV {
        registry: reg,
        phase: Phase::AwaitingHandshake,
        epoch: 0,
        pending: Seq::empty(),
    };
    let hs = spec_handshake(fresh).1;
    let rest = run_outputs(spec_handshake(fresh).0, evs);
    lemma_run_no_ready_reply(spec_handshake(fresh).0, evs);
    assert forall|k: int| 1 <= k < (hs + rest).len() implies !is_ready_reply(
        (hs + rest)[k],
    ) by {
        assert((hs + rest)[k] == rest[k - 1]);
    }
}

/// Removing a value from the pending set keeps the session well-formed.
proof fn lemma_remove_value_wf(s: SessionV, x: nat)
    requires
        s.wf(),
    ensures
        (SessionV { pending: s.pending.remove_value(x), ..s }).wf(),
{
    let p = s.pending;
    p.index_of_first_ensures(x);
    match p.index_of_first(x) {
        Some(i) => {
            p.remove_ensures(i);
            let q = p.remove(i);
            assert forall|k: int| 0 <= k < q.len() implies #[trigger] q[k]
                < s.registry.slots.len() by {
                if k < i {
                    assert(q[k] == p[k]);
                } else {
                    assert(q[k] == p[k + 1]);
                }
            }
            assert forall|k1: int, k2: int| 0 <= k1 < k2 < q.len() implies q[k1] != q[k2] by {
                if k1 < i && k2 < i {
                    assert(q[k1] == p[k1] && q[k2] == p[k2]);
                } else if k1 < i {
                    assert(q[k1] == p[k1] && q[k2] == p[k2 + 1]);
                } else {
                    assert(q[k1] == p[k1 + 1] && q[k2] == p[k2 + 1]);
                }
            }
        },
        None => {},
    }
}

} // verus!
