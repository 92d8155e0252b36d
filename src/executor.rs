use vstd::prelude::*;
use std::collections::{BTreeMap, VecDeque};
use crate::task::{Task, TaskId};

verus! {

broadcast use {vstd::std_specs::btree::group_btree_axioms, vstd::laws_cmp::group_laws_cmp};

/// Which queued id the scheduler polls next, and what stays queued: ids of
/// tasks that are no longer live are skipped and dropped.
pub open spec fn dispatch_spec(live: Set<u64>, ready: Seq<u64>) -> (Option<u64>, Seq<u64>)
    decreases ready.len(),
{
    if ready.len() == 0 {
        (None, ready)
    } else if live.contains(ready[0]) {
        (Some(ready[0]), ready.drop_first())
    } else {
        dispatch_spec(live, ready.drop_first())
    }
}

/// The scheduling state of the cooperative executor: the live tasks by id,
/// the ids waiting to be polled, and the next id to hand out.
pub struct Executor<F> {
    tasks: BTreeMap<u64, Task<F>>,
    ready: VecDeque<u64>,
    next_id: u64,
}

impl<F> Executor<F> {
    /// The live tasks, by id.
    pub closed spec fn tasks(&self) -> Map<u64, Task<F>> {
        self.tasks@
    }

    /// The ids waiting for a poll, oldest first; some may be stale.
    pub closed spec fn ready(&self) -> Seq<u64> {
        self.ready@
    }

    /// The id the next spawned task gets; every earlier id has been used.
    pub closed spec fn next_id(&self) -> nat {
        self.next_id as nat
    }

    pub open spec fn wf(&self) -> bool {
        forall|k: u64| #[trigger]
            self.tasks().contains_key(k) ==> self.tasks()[k].id.0 == k && k < self.next_id()
    }

    pub fn new() -> (r: Executor<F>)
        ensures
            r.wf(),
            r.tasks() == Map::<u64, Task<F>>::empty(),
            r.ready() == Seq::<u64>::empty(),
            r.next_id() == 0,
    {
        Executor { tasks: BTreeMap::new(), ready: VecDeque::new(), next_id: 0 }
    }

    /// Takes ownership of a new computation under a fresh id and queues it
    /// for a first poll. When every id has been handed out, the computation
    /// comes back unchanged.
    pub fn spawn(&mut self, future: F) -> (r: Result<TaskId, F>)
        requires
            old(self).wf(),
        ensures
            final(self).wf(),
            old(self).next_id() < u64::MAX ==> (r matches Ok(id) && {
                &&& id.0 == old(self).next_id()
                &&& !old(self).tasks().contains_key(id.0)
                &&& final(self).tasks() == old(self).tasks().insert(id.0, Task { id, future })
                &&& final(self).ready() == old(self).ready().push(id.0)
                &&& final(self).next_id() == old(self).next_id() + 1
            }),
            old(self).next_id() == u64::MAX ==> {
                &&& r == Err::<TaskId, F>(future)
                &&& final(self).tasks() == old(self).tasks()
                &&& final(self).ready() == old(self).ready()
                &&& final(self).next_id() == old(self).next_id()
            },
    {
        if self.next_id == u64::MAX {
            return Err(future);
        }
        let id = TaskId(self.next_id);
        self.next_id = self.next_id + 1;
        self.tasks.insert(id.0, Task::new(id, future));
        self.ready.push_back(id.0);
        assert forall|k: u64| #[trigger] self.tasks().contains_key(k) implies self.tasks()[k].id.0
            == k && k < self.next_id() by {
            if k != id.0 {
                assert(old(self).tasks().contains_key(k));
            }
        }
        Ok(id)
    }

    /// The effect of a readiness signal: queues `id` for another poll.
    pub fn wake(&mut self, id: TaskId)
        ensures
            final(self).tasks() == old(self).tasks(),
            final(self).ready() == old(self).ready().push(id.0),
            final(self).next_id() == old(self).next_id(),
    {
        self.ready.push_back(id.0);
    }

    /// Dequeues ids until one names a live task, and hands that task over to
    /// be polled; stale ids are dropped. `None` when no queued id is live.
    pub fn next_task(&mut self) -> (r: Option<Task<F>>)
        requires
            old(self).wf(),
        ensures
            final(self).wf(),
            final(self).next_id() == old(self).next_id(),
            final(self).ready() == dispatch_spec(old(self).tasks().dom(), old(self).ready()).1,
            match dispatch_spec(old(self).tasks().dom(), old(self).ready()).0 {
                Some(k) => {
                    &&& r == Some(old(self).tasks()[k])
                    &&& final(self).tasks() == old(self).tasks().remove(k)
                },
                None => {
                    &&& r is None
                    &&& final(self).tasks() == old(self).tasks()
                },
            },
    {
        loop
            invariant
                self.wf(),
                self.tasks@ == old(self).tasks@,
                self.next_id == old(self).next_id,
                dispatch_spec(old(self).tasks().dom(), old(self).ready()) == dispatch_spec(
                    self.tasks().dom(),
                    self.ready(),
                ),
            decreases self.ready@.len(),
        {
            let ghost before = self.ready@;
            match self.ready.pop_front() {
                None => {
                    return None;
                },
                Some(k) => {
                    if let Some(task) = self.tasks.remove(&k) {
                        return Some(task);
                    }
                    assert(self.tasks@ =~= old(self).tasks@);
                    assert(self.ready@ =~= before.drop_first());
                },
            }
        }
    }

    /// Hands a polled task that is still pending back to the executor. It is
    /// polled again only after a wake.
    pub fn park(&mut self, task: Task<F>)
        requires
            old(self).wf(),
            !old(self).tasks().contains_key(task.id.0),
            task.id.0 < old(self).next_id(),
        ensures
            final(self).wf(),
            final(self).tasks() == old(self).tasks().insert(task.id.0, task),
            final(self).ready() == old(self).ready(),
            final(self).next_id() == old(self).next_id(),
    {
        self.tasks.insert(task.id.0, task);
    }

    /// Whether `park` accepts a task with this id: one this executor handed
    /// out that is not live at the moment.
    pub fn can_park(&self, id: TaskId) -> (r: bool)
        ensures
            r == (!self.tasks().contains_key(id.0) && id.0 < self.next_id()),
    {
        id.0 < self.next_id && !self.tasks.contains_key(&id.0)
    }

    /// Whether any task is still live.
    pub fn has_tasks(&self) -> (r: bool)
        ensures
            r == !self.tasks().is_empty(),
    {
        !self.tasks.is_empty()
    }
}

/// The scheduler only ever hands out a live task: once a task has completed
/// and left the task map, no stale wake can bring it back to be polled.
pub proof fn lemma_dispatch_yields_live(live: Set<u64>, ready: Seq<u64>)
    ensures
        dispatch_spec(live, ready).0 matches Some(k) ==> live.contains(k),
    decreases ready.len(),
{
    if ready.len() > 0 && !live.contains(ready[0]) {
        lemma_dispatch_yields_live(live, ready.drop_first());
    }
}

/// When every live task has a wake pending, the scheduler runs dry only once
/// no live task is left.
pub proof fn lemma_quiescent_only_when_done(live: Set<u64>, ready: Seq<u64>)
    requires
        forall|k: u64| live.contains(k) ==> ready.contains(k),
    ensures
        dispatch_spec(live, ready).0 is None ==> live.is_empty(),
    decreases ready.len(),
{
    if ready.len() > 0 && !live.contains(ready[0]) {
        assert forall|k: u64| live.contains(k) implies ready.drop_first().contains(k) by {
            let i = choose|i: int| 0 <= i < ready.len() && ready[i] == k;
            assert(ready.drop_first()[i - 1] == k);
        }
        lemma_quiescent_only_when_done(live, ready.drop_first());
    } else if ready.len() == 0 {
        if !live.is_empty() {
            let k = live.choose();
            assert(live.contains(k));
        }
    }
}

/// The ids of the tasks that still need polls: task `i` completes on its
/// `budgets[i]`-th poll and has been polled `done[i]` times.
pub open spec fn live_ids(budgets: Seq<nat>, done: Seq<nat>) -> Set<u64> {
    Set::new(|k: u64| k < budgets.len() && done[k as int] < budgets[k as int])
}

/// One round of the run loop over such tasks: the next live task is polled
/// once, and a task that is still pending wakes itself.
pub open spec fn poll_step(budgets: Seq<nat>, state: (Seq<nat>, Seq<u64>)) -> (Seq<nat>, Seq<u64>) {
    let (done, ready) = state;
    let (next, rest) = dispatch_spec(live_ids(budgets, done), ready);
    match next {
        None => (done, rest),
        Some(k) => {
            let polled = done.update(k as int, done[k as int] + 1);
            if polled[k as int] < budgets[k as int] {
                (polled, rest.push(k))
            } else {
                (polled, rest)
            }
        },
    }
}

/// The poll counts and ready queue after `n` rounds.
pub open spec fn poll_steps(budgets: Seq<nat>, state: (Seq<nat>, Seq<u64>), n: nat) -> (
    Seq<nat>,
    Seq<u64>,
)
    decreases n,
{
    if n == 0 {
        state
    } else {
        poll_step(budgets, poll_steps(budgets, state, (n - 1) as nat))
    }
}

/// The sum of a sequence of counts.
pub open spec fn total(s: Seq<nat>) -> nat
    decreases s.len(),
{
    if s.len() == 0 {
        0
    } else {
        total(s.drop_last()) + s.last()
    }
}

/// The state right after spawning one task per budget: nothing polled yet,
/// and every id queued in spawn order.
pub open spec fn spawned(budgets: Seq<nat>) -> (Seq<nat>, Seq<u64>) {
    (Seq::new(budgets.len(), |i: int| 0nat), Seq::new(budgets.len(), |i: int| i as u64))
}

proof fn lemma_total_bump(s: Seq<nat>, k: int)
    requires
        0 <= k < s.len(),
    ensures
        total(s.update(k, s[k] + 1)) == total(s) + 1,
    decreases s.len(),
{
    let t = s.update(k, s[k] + 1);
    if k == s.len() - 1 {
        assert(t.drop_last() =~= s.drop_last());
    } else {
        lemma_total_bump(s.drop_last(), k);
        assert(t.drop_last() =~= s.drop_last().update(k, s[k] + 1));
    }
}

proof fn lemma_total_zero(n: nat)
    ensures
        total(Seq::new(n, |i: int| 0nat)) == 0,
    decreases n,
{
    if n > 0 {
        assert(Seq::new(n, |i: int| 0nat).drop_last() =~= Seq::new((n - 1) as nat, |i: int| 0nat));
        lemma_total_zero((n - 1) as nat);
    }
}

proof fn lemma_total_below(a: Seq<nat>, b: Seq<nat>)
    requires
        a.len() == b.len(),
        forall|i: int| 0 <= i < a.len() ==> a[i] <= b[i],
    ensures
        total(a) <= total(b),
        total(a) == total(b) ==> a == b,
    decreases a.len(),
{
    if a.len() > 0 {
        lemma_total_below(a.drop_last(), b.drop_last());
        if total(a) == total(b) {
            assert(a.drop_last() == b.drop_last());
            assert(a =~= b) by {
                assert forall|i: int| 0 <= i < a.len() implies a[i] == b[i] by {
                    if i < a.len() - 1 {
                        assert(a[i] == a.drop_last()[i] && b[i] == b.drop_last()[i]);
                    }
                }
            }
        }
    }
}

proof fn lemma_dispatch_keeps_others(live: Set<u64>, ready: Seq<u64>, x: u64)
    requires
        live.contains(x),
        ready.contains(x),
        dispatch_spec(live, ready).0 != Some(x),
    ensures
        dispatch_spec(live, ready).1.contains(x),
    decreases ready.len(),
{
    let i = choose|i: int| 0 <= i < ready.len() && ready[i] == x;
    if ready[0] == x {
    } else if live.contains(ready[0]) {
        assert(ready.drop_first()[i - 1] == x);
    } else {
        assert(ready.drop_first()[i - 1] == x);
        lemma_dispatch_keeps_others(live, ready.drop_first(), x);
    }
}

/// What holds of the model at every round: counts never pass the budgets,
/// and every task that still needs a poll has a wake queued.
pub open spec fn run_invariant(budgets: Seq<nat>, state: (Seq<nat>, Seq<u64>)) -> bool {
    let (done, ready) = state;
    &&& done.len() == budgets.len()
    &&& forall|i: int| 0 <= i < done.len() ==> done[i] <= budgets[i]
    &&& forall|k: u64| live_ids(budgets, done).contains(k) ==> ready.contains(k)
}

proof fn lemma_step(budgets: Seq<nat>, state: (Seq<nat>, Seq<u64>))
    requires
        budgets.len() <= u64::MAX,
        run_invariant(budgets, state),
        total(state.0) < total(budgets),
    ensures
        run_invariant(budgets, poll_step(budgets, state)),
        total(poll_step(budgets, state).0) == total(state.0) + 1,
{
    let (done, ready) = state;
    let live = live_ids(budgets, done);
    if live.is_empty() {
        assert forall|i: int| 0 <= i < done.len() implies done[i] == budgets[i] by {
            if done[i] < budgets[i] {
                assert(live.contains(i as u64));
            }
        }
        assert(done =~= budgets);
    }
    assert(!live.is_empty());
    lemma_quiescent_only_when_done(live, ready);
    let k = dispatch_spec(live, ready).0->Some_0;
    lemma_dispatch_yields_live(live, ready);
    let rest = dispatch_spec(live, ready).1;
    let polled = done.update(k as int, done[k as int] + 1);
    lemma_total_bump(done, k as int);
    let next = poll_step(budgets, state);
    assert forall|j: u64| live_ids(budgets, next.0).contains(j) implies next.1.contains(j) by {
        if j == k {
            assert(next.1.last() == k);
        } else {
            assert(polled[j as int] == done[j as int]);
            assert(live.contains(j));
            lemma_dispatch_keeps_others(live, ready, j);
            let m = choose|m: int| 0 <= m < rest.len() && rest[m] == j;
            if polled[k as int] < budgets[k as int] {
                assert(rest.push(k)[m] == j);
            }
        }
    }
}

/// Tasks that each complete after a finite number of polls, spawned
/// together and run until the scheduler is idle: after exactly as many polls
/// as the budgets add up to, every task has completed and left the live set,
/// no task was ever polled after it completed, and no live id is queued.
pub proof fn lemma_all_tasks_complete(budgets: Seq<nat>)
    requires
        budgets.len() <= u64::MAX,
        forall|i: int| 0 <= i < budgets.len() ==> budgets[i] >= 1,
    ensures
        forall|m: nat|
            m <= total(budgets) ==> #[trigger] run_invariant(
                budgets,
                poll_steps(budgets, spawned(budgets), m),
            ),
        poll_steps(budgets, spawned(budgets), total(budgets)).0 == budgets,
        live_ids(budgets, poll_steps(budgets, spawned(budgets), total(budgets)).0).is_empty(),
        dispatch_spec(
            live_ids(budgets, poll_steps(budgets, spawned(budgets), total(budgets)).0),
            poll_steps(budgets, spawned(budgets), total(budgets)).1,
        ).0 is None,
{
    let init = spawned(budgets);
    lemma_total_zero(budgets.len());
    assert forall|k: u64| live_ids(budgets, init.0).contains(k) implies init.1.contains(k) by {
        assert(init.1[k as int] == k);
    }
    assert forall|m: nat| m <= total(budgets) implies #[trigger] run_invariant(
        budgets,
        poll_steps(budgets, init, m),
    ) && total(poll_steps(budgets, init, m).0) == m by {
        lemma_run_prefix(budgets, m);
    }
    let last = poll_steps(budgets, init, total(budgets));
    lemma_run_prefix(budgets, total(budgets));
    lemma_total_below(last.0, budgets);
    let live = live_ids(budgets, last.0);
    assert forall|k: u64| !live.contains(k) by {
        if k < budgets.len() {
            assert(last.0[k as int] == budgets[k as int]);
        }
    }
    assert(live =~= Set::<u64>::empty());
    lemma_dispatch_yields_live(live, last.1);
}

proof fn lemma_run_prefix(budgets: Seq<nat>, m: nat)
    requires
        budgets.len() <= u64::MAX,
        forall|i: int| 0 <= i < budgets.len() ==> budgets[i] >= 1,
        m <= total(budgets),
    ensures
        run_invariant(budgets, poll_steps(budgets, spawned(budgets), m)),
        total(poll_steps(budgets, spawned(budgets), m).0) == m,
    decreases m,
{
    let init = spawned(budgets);
    if m == 0 {
        lemma_total_zero(budgets.len());
        assert forall|k: u64| live_ids(budgets, init.0).contains(k) implies init.1.contains(k) by {
            assert(init.1[k as int] == k);
        }
    } else {
        lemma_run_prefix(budgets, (m - 1) as nat);
        lemma_step(budgets, poll_steps(budgets, init, (m - 1) as nat));
    }
}

} // verus!
