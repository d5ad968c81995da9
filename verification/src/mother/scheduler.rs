//! Deadline-aware task scheduling: the task with the lowest priority number
//! runs first, then the one with the earliest deadline, then the one
//! scheduled first.

use vstd::prelude::*;
use crate::common::time::{Duration, Instant, saturating_sum};

verus! {

/// A task waiting in a scheduler.
pub struct ScheduledTask<T> {
    pub id: u64,
    pub priority: i32,
    pub deadline: Instant,
    pub task: T,
}

/// `a` runs strictly before `b`: a lower priority number, or the same
/// priority and an earlier deadline.
pub open spec fn runs_before<T>(a: ScheduledTask<T>, b: ScheduledTask<T>) -> bool {
    a.priority < b.priority || (a.priority == b.priority && a.deadline.since_origin@
        < b.deadline.since_origin@)
}

/// `m` is the position of the task that runs next in `tasks`: no task runs
/// before it, and it runs before every task ahead of it.
pub open spec fn is_next<T>(tasks: Seq<ScheduledTask<T>>, m: int) -> bool {
    &&& 0 <= m < tasks.len()
    &&& forall|k: int| 0 <= k < tasks.len() ==> !runs_before(#[trigger] tasks[k], tasks[m])
    &&& forall|k: int| 0 <= k < m ==> runs_before(tasks[m], #[trigger] tasks[k])
}

/// Polling `tasks` at `now` gave `r` and left `after`: when the task that
/// runs next is due at `now` it is taken out and returned; otherwise, and
/// when there is no task, nothing is returned and nothing changes.
pub open spec fn polled_at<T>(tasks: Seq<ScheduledTask<T>>, now: Instant, r: Option<T>, after: Seq<ScheduledTask<T>>) -> bool {
    &&& tasks.len() == 0 ==> r is None && after == tasks
    &&& tasks.len() > 0 ==> exists|m: int|
        #![trigger is_next(tasks, m)]
        is_next(tasks, m) && if tasks[m].deadline.since_origin@ <= now.since_origin@ {
            &&& r == Some(tasks[m].task)
            &&& after == tasks.remove(m)
        } else {
            &&& r is None
            &&& after == tasks
        }
}

impl<T> ScheduledTask<T> {
    /// Whether `self` runs strictly before `other`.
    pub fn runs_before(&self, other: &ScheduledTask<T>) -> (b: bool)
        ensures
            b == runs_before(*self, *other),
    {
        self.priority < other.priority || (self.priority == other.priority
            && self.deadline.since_origin.lt(&other.deadline.since_origin))
    }
}

/// Tasks waiting for their deadlines, in the order they were scheduled.
pub struct TaskScheduler<T> {
    tasks: Vec<ScheduledTask<T>>,
    next_id: u64,
}

impl<T> TaskScheduler<T> {
    /// Identifiers are handed out in increasing order, all below `next_id`.
    #[verifier::type_invariant]
    spec fn well_formed(self) -> bool {
        &&& forall|i: int| 0 <= i < self.tasks@.len() ==> #[trigger] self.tasks@[i].id < self.next_id
        &&& forall|i: int, j: int|
            0 <= i < j < self.tasks@.len() ==> #[trigger] self.tasks@[i].id < #[trigger] self.tasks@[j].id
    }

    /// The waiting tasks, in the order they were scheduled.
    pub closed spec fn spec_tasks(&self) -> Seq<ScheduledTask<T>> {
        self.tasks@
    }

    /// The identifier the next scheduled task gets.
    pub closed spec fn spec_next_id(&self) -> u64 {
        self.next_id
    }

    /// An empty scheduler.
    pub fn new() -> (s: TaskScheduler<T>)
        ensures
            s.spec_tasks() == Seq::<ScheduledTask<T>>::empty(),
            s.spec_next_id() == 0,
    {
        TaskScheduler { tasks: Vec::new(), next_id: 0 }
    }

    /// Schedules `task` for `deadline`; returns its identifier.
    pub fn schedule_at(&mut self, priority: i32, deadline: Instant, task: T) -> (id: u64)
        requires
            old(self).spec_next_id() < u64::MAX,
        ensures
            id == old(self).spec_next_id(),
            final(self).spec_next_id() == old(self).spec_next_id() + 1,
            forall|k: int| 0 <= k < old(self).spec_tasks().len() ==> #[trigger] old(self).spec_tasks()[k].id < id,
            final(self).spec_tasks() == old(self).spec_tasks().push(
                ScheduledTask { id, priority, deadline, task },
            ),
    {
        proof {
            use_type_invariant(&*self);
        }
        let id = self.next_id;
        let mut tasks: Vec<ScheduledTask<T>> = Vec::new();
        std::mem::swap(&mut tasks, &mut self.tasks);
        tasks.push(ScheduledTask { id, priority, deadline, task });
        self.next_id = id + 1;
        self.tasks = tasks;
        id
    }

    /// Schedules `task` to run `delay` from now (at the latest representable
    /// instant where that does not fit); returns its identifier.
    pub fn schedule(&mut self, priority: i32, delay: Duration, task: T) -> (id: u64)
        requires
            old(self).spec_next_id() < u64::MAX,
        ensures
            id == old(self).spec_next_id(),
            final(self).spec_next_id() == old(self).spec_next_id() + 1,
            final(self).spec_tasks().len() == old(self).spec_tasks().len() + 1,
            final(self).spec_tasks().drop_last() == old(self).spec_tasks(),
            final(self).spec_tasks().last().id == id,
            final(self).spec_tasks().last().priority == priority,
            final(self).spec_tasks().last().task == task,
            final(self).spec_tasks().last().deadline.since_origin@ >= delay@,
            exists|now: Instant|
                #[trigger] saturating_sum(now.since_origin@, delay@) == final(self).spec_tasks().last().deadline.since_origin@,
    {
        let now = Instant::now();
        let deadline = now.saturating_add(delay);
        let id = self.schedule_at(priority, deadline, task);
        proof {
            assert(self.spec_tasks().drop_last() =~= old(self).spec_tasks());
            assert(saturating_sum(now.since_origin@, delay@) == self.spec_tasks().last().deadline.since_origin@);
        }
        id
    }

    /// The position of the task that runs next; the scheduler is not empty.
    fn next_index(&self) -> (m: usize)
        requires
            self.spec_tasks().len() > 0,
        ensures
            is_next(self.spec_tasks(), m as int),
    {
        let mut best: usize = 0;
        let mut i: usize = 1;
        while i < self.tasks.len()
            invariant
                1 <= i <= self.tasks@.len(),
                best < i,
                forall|k: int| 0 <= k < i ==> !runs_before(#[trigger] self.tasks@[k], self.tasks@[best as int]),
                forall|k: int| 0 <= k < best ==> runs_before(self.tasks@[best as int], #[trigger] self.tasks@[k]),
            decreases self.tasks@.len() - i,
        {
            if self.tasks[i].runs_before(&self.tasks[best]) {
                best = i;
            }
            i = i + 1;
        }
        best
    }

    /// Takes the task that runs next when its deadline is at or before
    /// `now`; returns `None`, changing nothing, when the scheduler is empty
    /// or that task is not due.
    pub fn poll_at(&mut self, now: Instant) -> (r: Option<T>)
        ensures
            polled_at(old(self).spec_tasks(), now, r, final(self).spec_tasks()),
            old(self).spec_tasks().len() == 0 ==> r is None && final(self).spec_tasks() == old(
                self,
            ).spec_tasks(),
            old(self).spec_tasks().len() > 0 ==> exists|m: int|
                #![trigger is_next(old(self).spec_tasks(), m)]
                is_next(old(self).spec_tasks(), m) && if old(self).spec_tasks()[m].deadline.since_origin@
                    <= now.since_origin@ {
                    &&& r == Some(old(self).spec_tasks()[m].task)
                    &&& final(self).spec_tasks() == old(self).spec_tasks().remove(m)
                } else {
                    &&& r is None
                    &&& final(self).spec_tasks() == old(self).spec_tasks()
                },
            final(self).spec_next_id() == old(self).spec_next_id(),
    {
        proof {
            use_type_invariant(&*self);
        }
        if self.tasks.len() == 0 {
            return None;
        }
        let m = self.next_index();
        if self.tasks[m].deadline.since_origin.le(&now.since_origin) {
            let mut tasks: Vec<ScheduledTask<T>> = Vec::new();
            std::mem::swap(&mut tasks, &mut self.tasks);
            let t = tasks.remove(m);
            proof {
                assert forall|i: int, j: int| 0 <= i < j < tasks@.len() implies #[trigger] tasks@[i].id
                    < #[trigger] tasks@[j].id by {
                    let oi = if i < m { i } else { i + 1 };
                    let oj = if j < m { j } else { j + 1 };
                    assert(tasks@[i] == old(self).spec_tasks()[oi]);
                    assert(tasks@[j] == old(self).spec_tasks()[oj]);
                }
                assert forall|i: int| 0 <= i < tasks@.len() implies #[trigger] tasks@[i].id < self.next_id by {
                    let oi = if i < m { i } else { i + 1 };
                    assert(tasks@[i] == old(self).spec_tasks()[oi]);
                }
            }
            self.tasks = tasks;
            Some(t.task)
        } else {
            None
        }
    }

    /// Takes the task that runs next when it is due now: `poll_at` with the
    /// clock's reading, which can be any instant.
    pub fn poll(&mut self) -> (r: Option<T>)
        ensures
            old(self).spec_tasks().len() == 0 ==> r is None,
            r is None ==> final(self).spec_tasks() == old(self).spec_tasks(),
            r is Some ==> exists|m: int|
                #![trigger is_next(old(self).spec_tasks(), m)]
                is_next(old(self).spec_tasks(), m) && r == Some(old(self).spec_tasks()[m].task)
                    && final(self).spec_tasks() == old(self).spec_tasks().remove(m),
            exists|now: Instant| #[trigger] polled_at(old(self).spec_tasks(), now, r, final(self).spec_tasks()),
            final(self).spec_next_id() == old(self).spec_next_id(),
    {
        let now = Instant::now();
        let r = self.poll_at(now);
        assert(polled_at(old(self).spec_tasks(), now, r, self.spec_tasks()));
        r
    }

    /// How long until the task that runs next is due as of `now` (zero when
    /// it is overdue); `None` when the scheduler is empty.
    pub fn next_deadline_at(&self, now: Instant) -> (r: Option<Duration>)
        ensures
            self.spec_tasks().len() == 0 ==> r is None,
            r matches Some(d) ==> waits_at(self.spec_tasks(), now, d@),
            self.spec_tasks().len() > 0 ==> exists|m: int|
                #![trigger is_next(self.spec_tasks(), m)]
                is_next(self.spec_tasks(), m) && (r matches Some(d) && d@ == if now.since_origin@
                    < self.spec_tasks()[m].deadline.since_origin@ {
                    self.spec_tasks()[m].deadline.since_origin@ - now.since_origin@
                } else {
                    0
                }),
    {
        if self.tasks.len() == 0 {
            return None;
        }
        let m = self.next_index();
        Some(self.tasks[m].deadline.saturating_duration_since(now))
    }

    /// How long until the task that runs next is due; `None` when empty.
    /// The clock is read here, so only a bound is known of the wait: it is
    /// at most the next task's deadline measured from the clock's origin.
    pub fn next_deadline(&self) -> (r: Option<Duration>)
        ensures
            r is None <==> self.spec_tasks().len() == 0,
            r matches Some(d) ==> exists|m: int|
                #![trigger is_next(self.spec_tasks(), m)]
                is_next(self.spec_tasks(), m) && d@ <= self.spec_tasks()[m].deadline.since_origin@,
    {
        self.next_deadline_at(Instant::now())
    }

    /// Removes the task with identifier `id`; whether there was one.
    pub fn cancel(&mut self, id: u64) -> (removed: bool)
        ensures
            final(self).spec_next_id() == old(self).spec_next_id(),
            removed == exists|i: int| 0 <= i < old(self).spec_tasks().len() && #[trigger] old(self).spec_tasks()[i].id == id,
            removed ==> exists|i: int|
                0 <= i < old(self).spec_tasks().len() && #[trigger] old(self).spec_tasks()[i].id == id
                    && final(self).spec_tasks() == old(self).spec_tasks().remove(i),
            !removed ==> final(self).spec_tasks() == old(self).spec_tasks(),
            forall|k: int| 0 <= k < final(self).spec_tasks().len() ==> #[trigger] final(self).spec_tasks()[k].id != id,
    {
        proof {
            use_type_invariant(&*self);
        }
        let mut i: usize = 0;
        while i < self.tasks.len()
            invariant
                i <= self.tasks@.len(),
                self.tasks@ == old(self).spec_tasks(),
                self.next_id == old(self).spec_next_id(),
                forall|k: int| 0 <= k < i ==> #[trigger] self.tasks@[k].id != id,
            decreases self.tasks@.len() - i,
        {
            if self.tasks[i].id == id {
                proof {
                    use_type_invariant(&*self);
                }
                let mut tasks: Vec<ScheduledTask<T>> = Vec::new();
                std::mem::swap(&mut tasks, &mut self.tasks);
                let _ = tasks.remove(i);
                proof {
                    let m = i as int;
                    assert forall|a: int, b: int| 0 <= a < b < tasks@.len() implies #[trigger] tasks@[a].id
                        < #[trigger] tasks@[b].id by {
                        let oa = if a < m { a } else { a + 1 };
                        let ob = if b < m { b } else { b + 1 };
                        assert(tasks@[a] == old(self).spec_tasks()[oa]);
                        assert(tasks@[b] == old(self).spec_tasks()[ob]);
                    }
                    assert forall|a: int| 0 <= a < tasks@.len() implies #[trigger] tasks@[a].id < self.next_id by {
                        let oa = if a < m { a } else { a + 1 };
                        assert(tasks@[a] == old(self).spec_tasks()[oa]);
                    }
                    assert forall|a: int| 0 <= a < tasks@.len() implies #[trigger] tasks@[a].id != id by {
                        let oa = if a < m { a } else { a + 1 };
                        assert(tasks@[a] == old(self).spec_tasks()[oa]);
                        assert(old(self).spec_tasks()[m].id == id);
                        if oa < m {
                            assert(old(self).spec_tasks()[oa].id < old(self).spec_tasks()[m].id);
                        } else {
                            assert(old(self).spec_tasks()[m].id < old(self).spec_tasks()[oa].id);
                        }
                    }
                }
                self.tasks = tasks;
                return true;
            }
            i = i + 1;
        }
        false
    }

    /// Removes every task.
    pub fn clear(&mut self)
        ensures
            final(self).spec_tasks() == Seq::<ScheduledTask<T>>::empty(),
            final(self).spec_next_id() == old(self).spec_next_id(),
    {
        self.tasks = Vec::new();
    }

    /// The number of waiting tasks.
    pub fn len(&self) -> (n: usize)
        ensures
            n == self.spec_tasks().len(),
    {
        self.tasks.len()
    }

    /// Whether no task is waiting.
    pub fn is_empty(&self) -> (b: bool)
        ensures
            b == (self.spec_tasks().len() == 0),
    {
        self.tasks.len() == 0
    }
}

impl<T> Default for TaskScheduler<T> {
    fn default() -> (s: TaskScheduler<T>)
        ensures
            s.spec_tasks() == Seq::<ScheduledTask<T>>::empty(),
            s.spec_next_id() == 0,
    {
        TaskScheduler::new()
    }
}

/// The task that runs next is unique: no other task would be picked.
pub proof fn lemma_next_unique<T>(tasks: Seq<ScheduledTask<T>>, m: int, n: int)
    requires
        is_next(tasks, m),
        is_next(tasks, n),
    ensures
        m == n,
{
    if m < n {
        assert(runs_before(tasks[n], tasks[m]));
        assert(!runs_before(tasks[m], tasks[n]));
    } else if n < m {
        assert(runs_before(tasks[m], tasks[n]));
    }
}

/// `next_deadline_at` of `tasks` at `now` gave the wait `d`: the time from
/// `now` to the deadline of the task that runs next, zero once it is due.
pub open spec fn waits_at<T>(tasks: Seq<ScheduledTask<T>>, now: Instant, d: nat) -> bool {
    exists|m: int|
        #![trigger is_next(tasks, m)]
        is_next(tasks, m) && d == if now.since_origin@ < tasks[m].deadline.since_origin@ {
            tasks[m].deadline.since_origin@ - now.since_origin@
        } else {
            0
        }
}

/// The wait and the poll agree at the same instant: the wait is zero exactly
/// when a poll takes a task, and a poll that takes nothing changes nothing.
pub proof fn lemma_wait_zero_iff_poll_takes<T>(
    tasks: Seq<ScheduledTask<T>>,
    now: Instant,
    d: nat,
    r: Option<T>,
    after: Seq<ScheduledTask<T>>,
)
    requires
        tasks.len() > 0,
        waits_at(tasks, now, d),
        polled_at(tasks, now, r, after),
    ensures
        (d == 0) == (r is Some),
        r is None ==> after == tasks,
{
    let m = choose|m: int| #![trigger is_next(tasks, m)] is_next(tasks, m) && d == if now.since_origin@
        < tasks[m].deadline.since_origin@ {
        tasks[m].deadline.since_origin@ - now.since_origin@
    } else {
        0
    };
    let n = choose|n: int|
        #![trigger is_next(tasks, n)]
        is_next(tasks, n) && if tasks[n].deadline.since_origin@ <= now.since_origin@ {
            &&& r == Some(tasks[n].task)
            &&& after == tasks.remove(n)
        } else {
            &&& r is None
            &&& after == tasks
        };
    lemma_next_unique(tasks, m, n);
}

/// Polling respects priorities: no task left behind runs before the one
/// taken.
pub proof fn lemma_poll_takes_first<T>(tasks: Seq<ScheduledTask<T>>, m: int, k: int)
    requires
        is_next(tasks, m),
        0 <= k < tasks.remove(m).len(),
    ensures
        !runs_before(tasks.remove(m)[k], tasks[m]),
{
    let o = if k < m { k } else { k + 1 };
    assert(tasks.remove(m)[k] == tasks[o]);
}

} // verus!
