//! The supervisor: per-dependency state, the next step of startup, and the
//! ordered, idempotent shutdown of the processes it owns.
//!
//! The supervisor performs no I/O itself. Its host asks it for the next
//! `Action`, performs it (a process-table scan, a launch, a readiness wait),
//! and reports the outcome back; on shutdown it receives the handles to
//! terminate.
use vstd::prelude::*;
use crate::launch::LaunchError;
use crate::registry::{DependencyKind, DependencySpec};

verus! {

/// Why a dependency failed to come up.
#[derive(Clone, Copy, Debug, PartialEq, Eq, Structural)]
pub enum FailReason {
    Launch(LaunchError),
    /// Launched, but never reported ready within its budget; the process is
    /// left running and is still terminated on shutdown.
    ReadinessTimeout,
}

/// The state of one dependency.
#[derive(Clone, Copy, Debug, PartialEq, Eq, Structural)]
pub enum DepState {
    NotStarted,
    /// The process-table scan found no running instance: it is to be launched.
    NotRunning,
    /// Launched, readiness not yet known.
    Starting,
    Ready,
    Failed(FailReason),
    /// Already running when startup began: not launched, not tracked, never stopped.
    External,
    /// Its process exited on its own while held; the handle stays held, so
    /// shutdown still signals it once, which an exited process tolerates.
    Exited,
    /// Its process was handed out for termination.
    Stopped,
}

/// A launched process as the supervisor tracks it: the host's slot for the
/// child and the OS process identifier.
#[derive(Clone, Copy, Debug, PartialEq, Eq, Structural)]
pub struct ProcHandle {
    pub slot: u64,
    pub pid: u32,
}

/// A handle held for the dependency at registry index `dep`.
#[derive(Clone, Copy, Debug, PartialEq, Eq, Structural)]
pub struct Held {
    pub dep: usize,
    pub handle: ProcHandle,
}

/// The next thing the host does during startup.
#[derive(Clone, Copy, Debug, PartialEq, Eq, Structural)]
pub enum Action {
    /// Scan the process table for a running instance of this dependency.
    CheckRunning(usize),
    /// Launch this dependency.
    Launch(usize),
    /// Wait for this dependency to report ready.
    WaitReady(usize),
    /// Startup is over.
    Done,
}

/// A state in which the supervisor holds a handle for the dependency.
pub open spec fn holds_process(s: DepState) -> bool {
    s is Starting || s is Ready || s is Exited || s == DepState::Failed(
        FailReason::ReadinessTimeout,
    )
}

/// The startup action for the first dependency, from index `i` on, that still
/// needs one: dependencies are brought up one at a time, in registry order.
pub open spec fn action_from(kinds: Seq<DependencyKind>, states: Seq<DepState>, i: int) -> Action
    decreases states.len() - i,
{
    if i < 0 || i >= states.len() {
        Action::Done
    } else {
        match states[i] {
            DepState::NotStarted => if kinds[i] == DependencyKind::Optional {
                Action::CheckRunning(i as usize)
            } else {
                Action::Launch(i as usize)
            },
            DepState::NotRunning => Action::Launch(i as usize),
            DepState::Starting => Action::WaitReady(i as usize),
            _ => action_from(kinds, states, i + 1),
        }
    }
}

/// The handles of a sequence of held entries, in the same order.
pub open spec fn handles_of(held: Seq<Held>) -> Seq<ProcHandle> {
    held.map_values(|h: Held| h.handle)
}

/// Some held entry belongs to dependency `j`.
pub open spec fn is_held_dep(held: Seq<Held>, j: int) -> bool {
    exists|k: int| 0 <= k < held.len() && #[trigger] held[k].dep == j
}

/// A dependency may be launched from this state.
pub open spec fn launchable(kind: DependencyKind, s: DepState) -> bool {
    (s is NotStarted && kind == DependencyKind::Owned) || s is NotRunning
}

/// Owns the state of every registered dependency and the handles of the
/// processes it launched, in start order.
pub struct Supervisor {
    kinds: Vec<DependencyKind>,
    states: Vec<DepState>,
    held: Vec<Held>,
    shut_down: bool,
    /// Every handle ever stored, in start order.
    stored: Ghost<Seq<ProcHandle>>,
    /// Every handle ever handed out for termination, in the order handed out.
    signalled: Ghost<Seq<ProcHandle>>,
}

impl Supervisor {
    pub closed spec fn kinds_view(&self) -> Seq<DependencyKind> {
        self.kinds@
    }

    pub closed spec fn states_view(&self) -> Seq<DepState> {
        self.states@
    }

    /// The held handles, in start order.
    pub closed spec fn held_view(&self) -> Seq<Held> {
        self.held@
    }

    pub closed spec fn is_shut_down(&self) -> bool {
        self.shut_down
    }

    pub closed spec fn stored_view(&self) -> Seq<ProcHandle> {
        self.stored@
    }

    pub closed spec fn signalled_view(&self) -> Seq<ProcHandle> {
        self.signalled@
    }

    pub open spec fn len_spec(&self) -> nat {
        self.states_view().len()
    }

    pub open spec fn next_action_spec(&self) -> Action {
        if self.is_shut_down() {
            Action::Done
        } else {
            action_from(self.kinds_view(), self.states_view(), 0)
        }
    }

    /// Well-formed: one kind per state; each dependency holds at most one
    /// handle, and only in a state that has a process; only an optional
    /// dependency can be external; before shutdown the held handles are all
    /// handles ever stored and none was signalled, after it none is held and
    /// every stored one was signalled once, in reverse start order.
    pub closed spec fn wf(&self) -> bool {
        &&& self.kinds@.len() == self.states@.len()
        &&& self.states@.len() <= usize::MAX
        &&& forall|k: int|
            0 <= k < self.held@.len() ==> #[trigger] self.held@[k].dep < self.states@.len()
                && holds_process(self.states@[self.held@[k].dep as int])
        &&& forall|a: int, b: int|
            0 <= a < b < self.held@.len() ==> self.held@[a].dep != self.held@[b].dep
        &&& forall|j: int|
            0 <= j < self.states@.len() && #[trigger] self.states@[j] is External
                ==> self.kinds@[j] == DependencyKind::Optional
        &&& !self.shut_down ==> handles_of(self.held@) == self.stored@ && self.signalled@
            == Seq::<ProcHandle>::empty()
        &&& self.shut_down ==> self.held@.len() == 0 && self.signalled@ == self.stored@.reverse()
    }

    /// What `stop_all` does: it hands out the held handles in reverse start
    /// order, holds none afterwards, marks their dependencies stopped, and
    /// leaves every other state as it was.
    pub closed spec fn stop_post(old: Supervisor, new: Supervisor, r: Seq<ProcHandle>) -> bool {
        &&& r == handles_of(old.held@).reverse()
        &&& new.held@.len() == 0
        &&& new.shut_down
        &&& new.kinds@ == old.kinds@
        &&& new.states@.len() == old.states@.len()
        &&& forall|j: int|
            0 <= j < old.states@.len() ==> #[trigger] new.states@[j] == if is_held_dep(
                old.held@,
                j,
            ) {
                DepState::Stopped
            } else {
                old.states@[j]
            }
        &&& new.stored@ == old.stored@
        &&& new.signalled@ == old.signalled@ + r
    }

    /// A supervisor for `registry`, every dependency not yet started.
    pub fn new(registry: &Vec<DependencySpec>) -> (s: Supervisor)
        ensures
            s.wf(),
            s.len_spec() == registry@.len(),
            forall|j: int|
                0 <= j < registry@.len() ==> #[trigger] s.kinds_view()[j] == registry@[j].kind
                    && s.states_view()[j] == DepState::NotStarted,
            s.held_view().len() == 0,
            !s.is_shut_down(),
            s.stored_view().len() == 0,
    {
        let mut kinds: Vec<DependencyKind> = Vec::new();
        let mut states: Vec<DepState> = Vec::new();
        let mut i: usize = 0;
        while i < registry.len()
            invariant
                i <= registry@.len(),
                kinds@.len() == i,
                states@.len() == i,
                forall|j: int|
                    0 <= j < i ==> #[trigger] kinds@[j] == registry@[j].kind && states@[j]
                        == DepState::NotStarted,
            decreases registry@.len() - i,
        {
            kinds.push(registry[i].kind);
            states.push(DepState::NotStarted);
            i = i + 1;
        }
        let s = Supervisor {
            kinds,
            states,
            held: Vec::new(),
            shut_down: false,
            stored: Ghost(Seq::empty()),
            signalled: Ghost(Seq::empty()),
        };
        assert(handles_of(s.held@) =~= Seq::<ProcHandle>::empty());
        s
    }

    /// The number of registered dependencies.
    pub fn len(&self) -> (r: usize)
        requires
            self.wf(),
        ensures
            r == self.len_spec(),
    {
        self.states.len()
    }

    /// The state of dependency `i`.
    pub fn status(&self, i: usize) -> (r: DepState)
        requires
            self.wf(),
            i < self.len_spec(),
        ensures
            r == self.states_view()[i as int],
    {
        self.states[i]
    }

    /// Whether dependency `i` reported ready, the status that gates the UI.
    pub fn is_ready(&self, i: usize) -> (r: bool)
        requires
            self.wf(),
            i < self.len_spec(),
        ensures
            r == (self.states_view()[i as int] == DepState::Ready),
    {
        match self.states[i] {
            DepState::Ready => true,
            _ => false,
        }
    }

    /// The handles held now, in start order.
    pub fn held_handles(&self) -> (r: Vec<ProcHandle>)
        requires
            self.wf(),
        ensures
            r@ == handles_of(self.held_view()),
    {
        let mut r: Vec<ProcHandle> = Vec::new();
        let mut k: usize = 0;
        while k < self.held.len()
            invariant
                k <= self.held@.len(),
                r@ =~= handles_of(self.held@.subrange(0, k as int)),
            decreases self.held@.len() - k,
        {
            r.push(self.held[k].handle);
            k = k + 1;
            assert(self.held@.subrange(0, k as int) =~= self.held@.subrange(0, k - 1).push(
                self.held@[k - 1],
            ));
        }
        assert(self.held@.subrange(0, k as int) =~= self.held@);
        r
    }

    /// Whether shutdown has begun.
    pub fn shut_down(&self) -> (r: bool)
        ensures
            r == self.is_shut_down(),
    {
        self.shut_down
    }

    /// The next startup action: the first dependency in registry order that
    /// still needs a step gets it; `Done` once all are settled, or once
    /// shutdown has begun.
    pub fn next_action(&self) -> (r: Action)
        requires
            self.wf(),
        ensures
            r == self.next_action_spec(),
            r matches Action::CheckRunning(i) ==> i < self.len_spec(),
            r matches Action::Launch(i) ==> i < self.len_spec(),
            r matches Action::WaitReady(i) ==> i < self.len_spec(),
    {
        if self.shut_down {
            return Action::Done;
        }
        let n: usize = self.states.len();
        let mut i: usize = 0;
        while i < n
            invariant
                !self.shut_down,
                n == self.states@.len(),
                self.kinds@.len() == n,
                i <= n,
                action_from(self.kinds@, self.states@, 0) == action_from(
                    self.kinds@,
                    self.states@,
                    i as int,
                ),
            decreases n - i,
        {
            match self.states[i] {
                DepState::NotStarted => {
                    assert(self.kinds@[i as int] == DependencyKind::Optional ==> action_from(
                        self.kinds@,
                        self.states@,
                        i as int,
                    ) == Action::CheckRunning(i));
                    assert(self.kinds@[i as int] == DependencyKind::Owned ==> action_from(
                        self.kinds@,
                        self.states@,
                        i as int,
                    ) == Action::Launch(i));
                    return match self.kinds[i] {
                        DependencyKind::Optional => Action::CheckRunning(i),
                        DependencyKind::Owned => Action::Launch(i),
                    };
                },
                DepState::NotRunning => {
                    assert(action_from(self.kinds@, self.states@, i as int) == Action::Launch(i));
                    return Action::Launch(i);
                },
                DepState::Starting => {
                    return Action::WaitReady(i);
                },
                _ => {},
            }
            i = i + 1;
        }
        Action::Done
    }

    /// Records the process-table scan of optional dependency `i`: a running
    /// instance makes it external, never launched and never stopped; none
    /// makes it due for launch. A dependency that is not an optional one
    /// awaiting its scan keeps its state.
    pub fn record_running_check(&mut self, i: usize, running: bool)
        requires
            old(self).wf(),
            i < old(self).len_spec(),
        ensures
            final(self).wf(),
            final(self).states_view() == if old(self).states_view()[i as int] is NotStarted
                && old(self).kinds_view()[i as int] == DependencyKind::Optional {
                old(self).states_view().update(
                    i as int,
                    if running {
                        DepState::External
                    } else {
                        DepState::NotRunning
                    },
                )
            } else {
                old(self).states_view()
            },
            final(self).kinds_view() == old(self).kinds_view(),
            final(self).held_view() == old(self).held_view(),
            final(self).is_shut_down() == old(self).is_shut_down(),
            final(self).stored_view() == old(self).stored_view(),
            final(self).signalled_view() == old(self).signalled_view(),
    {
        let awaiting = match (self.states[i], self.kinds[i]) {
            (DepState::NotStarted, DependencyKind::Optional) => true,
            _ => false,
        };
        if !awaiting {
            return;
        }
        let next = if running {
            DepState::External
        } else {
            DepState::NotRunning
        };
        self.states.set(i, next);
        proof {
            assert forall|k: int| 0 <= k < self.held@.len() implies #[trigger] self.held@[k].dep
                < self.states@.len() && holds_process(self.states@[self.held@[k].dep as int]) by {
                assert(self.held@[k].dep != i);
            }
        }
    }

    /// Records the launch of dependency `i`. A failed launch fails the
    /// dependency. A launched process is stored, in start order, and awaits
    /// readiness; if shutdown has already begun it is not stored but handed
    /// back at once, to be terminated. A launch reported for a dependency that
    /// is not due for one (external, already launched) changes nothing, and
    /// its process is handed back to be terminated.
    pub fn record_launch(&mut self, i: usize, result: Result<ProcHandle, LaunchError>) -> (orphan:
        Option<ProcHandle>)
        requires
            old(self).wf(),
            i < old(self).len_spec(),
        ensures
            final(self).wf(),
            final(self).kinds_view() == old(self).kinds_view(),
            final(self).is_shut_down() == old(self).is_shut_down(),
            final(self).signalled_view() == old(self).signalled_view(),
            !launchable(old(self).kinds_view()[i as int], old(self).states_view()[i as int]) ==> {
                &&& final(self).states_view() == old(self).states_view()
                &&& final(self).held_view() == old(self).held_view()
                &&& final(self).stored_view() == old(self).stored_view()
                &&& orphan == match result {
                    Ok(h) => Some(h),
                    Err(_) => None::<ProcHandle>,
                }
            },
            launchable(old(self).kinds_view()[i as int], old(self).states_view()[i as int]) ==> match result {
                Err(e) => {
                    &&& final(self).states_view() == old(self).states_view().update(
                        i as int,
                        DepState::Failed(FailReason::Launch(e)),
                    )
                    &&& final(self).held_view() == old(self).held_view()
                    &&& final(self).stored_view() == old(self).stored_view()
                    &&& orphan is None
                },
                Ok(h) => if old(self).is_shut_down() {
                    &&& final(self).states_view() == old(self).states_view().update(
                        i as int,
                        DepState::Stopped,
                    )
                    &&& final(self).held_view() == old(self).held_view()
                    &&& final(self).stored_view() == old(self).stored_view()
                    &&& orphan == Some(h)
                } else {
                    &&& final(self).states_view() == old(self).states_view().update(
                        i as int,
                        DepState::Starting,
                    )
                    &&& final(self).held_view() == old(self).held_view().push(
                        Held { dep: i, handle: h },
                    )
                    &&& final(self).stored_view() == old(self).stored_view().push(h)
                    &&& orphan is None
                },
            },
    {
        let due = match (self.states[i], self.kinds[i]) {
            (DepState::NotStarted, DependencyKind::Owned) => true,
            (DepState::NotRunning, _) => true,
            _ => false,
        };
        if !due {
            return match result {
                Ok(h) => Some(h),
                Err(_) => None,
            };
        }
        proof {
            assert forall|k: int| 0 <= k < self.held@.len() implies #[trigger] self.held@[k].dep
                != i by {}
        }
        match result {
            Err(e) => {
                self.states.set(i, DepState::Failed(FailReason::Launch(e)));
                None
            },
            Ok(h) => {
                if self.shut_down {
                    self.states.set(i, DepState::Stopped);
                    Some(h)
                } else {
                    self.states.set(i, DepState::Starting);
                    self.held.push(Held { dep: i, handle: h });
                    self.stored = Ghost(self.stored@.push(h));
                    proof {
                        assert(handles_of(self.held@) =~= self.stored@);
                    }
                    None
                }
            },
        }
    }

    /// Records the outcome of the readiness wait of dependency `i`: ready, or
    /// failed with its process kept for shutdown. A dependency that is no
    /// longer starting (shutdown stopped it meanwhile) keeps its state.
    pub fn record_readiness(&mut self, i: usize, ready: bool)
        requires
            old(self).wf(),
            i < old(self).len_spec(),
        ensures
            final(self).wf(),
            final(self).states_view() == if old(self).states_view()[i as int] is Starting {
                old(self).states_view().update(
                    i as int,
                    if ready {
                        DepState::Ready
                    } else {
                        DepState::Failed(FailReason::ReadinessTimeout)
                    },
                )
            } else {
                old(self).states_view()
            },
            final(self).kinds_view() == old(self).kinds_view(),
            final(self).held_view() == old(self).held_view(),
            final(self).is_shut_down() == old(self).is_shut_down(),
            final(self).stored_view() == old(self).stored_view(),
            final(self).signalled_view() == old(self).signalled_view(),
    {
        match self.states[i] {
            DepState::Starting => {
                let next = if ready {
                    DepState::Ready
                } else {
                    DepState::Failed(FailReason::ReadinessTimeout)
                };
                self.states.set(i, next);
            },
            _ => {},
        }
    }

    /// Records that the process in host slot `slot` exited on its own: the
    /// first held entry with that slot has its dependency marked exited, and
    /// its index is returned. No held entry with that slot changes nothing.
    pub fn record_exit(&mut self, slot: u64) -> (r: Option<usize>)
        requires
            old(self).wf(),
        ensures
            final(self).wf(),
            final(self).kinds_view() == old(self).kinds_view(),
            final(self).held_view() == old(self).held_view(),
            final(self).is_shut_down() == old(self).is_shut_down(),
            final(self).stored_view() == old(self).stored_view(),
            final(self).signalled_view() == old(self).signalled_view(),
            r matches Some(d) ==> exists|k: int|
                0 <= k < old(self).held_view().len() && #[trigger] old(self).held_view()[k].dep
                    == d && old(self).held_view()[k].handle.slot == slot
                    && forall|m: int| 0 <= m < k ==> old(self).held_view()[m].handle.slot != slot,
            r matches Some(d) ==> d < old(self).len_spec() && final(self).states_view() == old(
                self,
            ).states_view().update(d as int, DepState::Exited),
            r is None ==> final(self).states_view() == old(self).states_view(),
            r is None ==> forall|k: int|
                0 <= k < old(self).held_view().len() ==> #[trigger] old(
                    self,
                ).held_view()[k].handle.slot != slot,
    {
        let mut k: usize = 0;
        while k < self.held.len()
            invariant
                *self == *old(self),
                self.wf(),
                k <= self.held@.len(),
                forall|m: int| 0 <= m < k ==> #[trigger] self.held@[m].handle.slot != slot,
            decreases self.held@.len() - k,
        {
            if self.held[k].handle.slot == slot {
                let d = self.held[k].dep;
                self.states.set(d, DepState::Exited);
                proof {
                    assert(old(self).held@[k as int].dep == d);
                    assert forall|x: int|
                        0 <= x < self.held@.len() implies #[trigger] self.held@[x].dep
                        < self.states@.len() && holds_process(
                        self.states@[self.held@[x].dep as int],
                    ) by {
                        if self.held@[x].dep != d {
                            assert(old(self).held@[x] == self.held@[x]);
                        }
                    }
                    assert forall|j: int|
                        0 <= j < self.states@.len() && #[trigger] self.states@[j] is External
                            implies self.kinds@[j] == DependencyKind::Optional by {
                        assert(j != d);
                        assert(old(self).states@[j] is External);
                    }
                }
                return Some(d);
            }
            k = k + 1;
        }
        None
    }

    /// Shuts down: hands out every held handle exactly once, in reverse start
    /// order, for the host to terminate, and holds none afterwards. Calling it
    /// again hands out nothing; calling it before startup hands out nothing.
    pub fn stop_all(&mut self) -> (r: Vec<ProcHandle>)
        requires
            old(self).wf(),
        ensures
            final(self).wf(),
            Supervisor::stop_post(*old(self), *final(self), r@),
    {
        let n: usize = self.held.len();
        let mut r: Vec<ProcHandle> = Vec::new();
        let mut k: usize = n;
        while k > 0
            invariant
                k <= n,
                n == self.held@.len(),
                r@ =~= handles_of(self.held@).reverse().subrange(0, (n - k) as int),
            decreases k,
        {
            k = k - 1;
            r.push(self.held[k].handle);
        }
        assert(r@ =~= handles_of(self.held@).reverse());
        let ghost old_states = self.states@;
        let ghost old_held = self.held@;
        let mut j: usize = 0;
        while j < n
            invariant
                j <= n,
                n == self.held@.len(),
                self.held@ == old_held,
                self.states@.len() == old_states.len(),
                self.kinds@ == old(self).kinds@,
                self.shut_down == old(self).shut_down,
                self.stored@ == old(self).stored@,
                self.signalled@ == old(self).signalled@,
                r@ == handles_of(old_held).reverse(),
                forall|k: int| 0 <= k < n ==> #[trigger] old_held[k].dep < old_states.len(),
                forall|x: int|
                    0 <= x < old_states.len() ==> #[trigger] self.states@[x] == if exists|k: int|
                        0 <= k < j && #[trigger] old_held[k].dep == x {
                        DepState::Stopped
                    } else {
                        old_states[x]
                    },
            decreases n - j,
        {
            let d = self.held[j].dep;
            self.states.set(d, DepState::Stopped);
            j = j + 1;
        }
        self.held = Vec::new();
        self.shut_down = true;
        self.signalled = Ghost(self.signalled@ + r@);
        proof {
            assert(self.signalled@ =~= self.stored@.reverse());
            assert forall|x: int| 0 <= x < old_states.len() implies #[trigger] self.states@[x]
                == if is_held_dep(old_held, x) {
                DepState::Stopped
            } else {
                old_states[x]
            } by {}
            assert forall|x: int|
                0 <= x < self.states@.len() && #[trigger] self.states@[x] is External implies
                self.kinds@[x] == DependencyKind::Optional by {
                if is_held_dep(old_held, x) {
                } else {
                    assert(old_states[x] is External);
                }
            }
        }
        r
    }
}

proof fn lemma_launch_action_is_launchable(
    kinds: Seq<DependencyKind>,
    states: Seq<DepState>,
    j: int,
    i: int,
)
    requires
        0 <= i < states.len(),
        states.len() <= usize::MAX,
        kinds.len() == states.len(),
        action_from(kinds, states, j) == Action::Launch(i as usize),
    ensures
        launchable(kinds[i], states[i]),
    decreases states.len() - j,
{
    if 0 <= j < states.len() {
        match states[j] {
            DepState::NotStarted => {},
            DepState::NotRunning => {},
            DepState::Starting => {},
            _ => lemma_launch_action_is_launchable(kinds, states, j + 1, i),
        }
    }
}

/// A dependency that the process-table scan found already running is never
/// launched: no startup action names it for launch, a launch reported for it
/// changes nothing (its state stays external), and no handle is held for it,
/// so shutdown never terminates it.
pub proof fn lemma_running_instance_never_launched(s: Supervisor, i: int)
    requires
        s.wf(),
        0 <= i < s.len_spec(),
        s.states_view()[i] == DepState::External,
    ensures
        s.next_action_spec() != Action::Launch(i as usize),
        !launchable(s.kinds_view()[i], s.states_view()[i]),
        !is_held_dep(s.held_view(), i),
{
    if !s.is_shut_down() && s.next_action_spec() == Action::Launch(i as usize) {
        lemma_launch_action_is_launchable(s.kinds_view(), s.states_view(), 0, i);
    }
    if is_held_dep(s.held_view(), i) {
        let k = choose|k: int| 0 <= k < s.held_view().len() && #[trigger] s.held_view()[k].dep == i;
        assert(holds_process(s.states_view()[s.held_view()[k].dep as int]));
    }
}

/// Stopping twice in succession hands out each handle ever stored exactly
/// once over the supervisor's life, in reverse start order: the first stop
/// hands out all that were held, the second none.
pub proof fn lemma_stop_twice_signals_each_once(
    s0: Supervisor,
    s1: Supervisor,
    s2: Supervisor,
    r1: Seq<ProcHandle>,
    r2: Seq<ProcHandle>,
)
    requires
        s0.wf(),
        Supervisor::stop_post(s0, s1, r1),
        Supervisor::stop_post(s1, s2, r2),
    ensures
        r2.len() == 0,
        s2.stored_view() == s0.stored_view(),
        s2.signalled_view() == s2.stored_view().reverse(),
        !s0.is_shut_down() ==> r1 == s0.stored_view().reverse(),
        s0.is_shut_down() ==> r1.len() == 0,
{
    assert(r2 =~= Seq::<ProcHandle>::empty());
    if s0.is_shut_down() {
        assert(r1 =~= Seq::<ProcHandle>::empty());
        assert(s2.signalled_view() =~= s0.signalled_view());
    } else {
        assert(s2.signalled_view() =~= r1);
    }
}

} // verus!
