//! Round-robin cooperative scheduler.
//!
//! Each task has a step function that gets called once per scheduler turn.
//! The scheduler interleaves tasks in round-robin order, giving each task
//! exactly one step per turn. Timer ticks decrement a fuel counter that is
//! refilled on every turn; nothing reads it during a step yet.

use crate::caps::CapId;
use crate::task::{Task, TaskId, TaskIds, TaskState, TaskView};
use std::collections::VecDeque;
use vstd::prelude::*;

verus! {

/// Default fuel (timer ticks) per task slice.
/// At ~18.2 Hz, 18 ticks are about one second per task.
pub const DEFAULT_FUEL: u64 = 18;

/// The fuel counter: timer ticks left in the current slice.
pub struct FuelGauge {
    remaining: u64,
}

impl View for FuelGauge {
    type V = u64;

    closed spec fn view(&self) -> u64 {
        self.remaining
    }
}

impl FuelGauge {
    /// A full gauge.
    pub fn new() -> (gauge: FuelGauge)
        ensures
            gauge@ == DEFAULT_FUEL,
    {
        FuelGauge { remaining: DEFAULT_FUEL }
    }

    /// A gauge with `remaining` ticks left.
    pub fn with_remaining(remaining: u64) -> (gauge: FuelGauge)
        ensures
            gauge@ == remaining,
    {
        FuelGauge { remaining }
    }

    /// The ticks that are left.
    pub fn remaining(&self) -> (remaining: u64)
        ensures
            remaining == self@,
    {
        self.remaining
    }
}

/// The fuel that one timer tick leaves: one less, but never below zero.
pub open spec fn tick(fuel: u64) -> u64 {
    if fuel > 0 {
        (fuel - 1) as u64
    } else {
        0
    }
}

/// The fuel that `k` timer ticks leave.
pub open spec fn after_ticks(fuel: u64, k: nat) -> u64
    decreases k,
{
    if k == 0 {
        fuel
    } else {
        tick(after_ticks(fuel, (k - 1) as nat))
    }
}

/// Called on every timer interrupt: decrement the fuel, saturating at 0.
pub fn timer_tick(fuel: &mut FuelGauge)
    ensures
        final(fuel)@ == tick(old(fuel)@),
{
    if fuel.remaining > 0 {
        fuel.remaining = fuel.remaining - 1;
    }
}

/// Check if fuel is exhausted (for future preemptive use).
pub fn fuel_exhausted(fuel: &FuelGauge) -> (exhausted: bool)
    ensures
        exhausted == (fuel@ == 0),
{
    fuel.remaining == 0
}

/// Reset fuel for the next task slice.
pub fn refuel(fuel: &mut FuelGauge)
    ensures
        final(fuel)@ == DEFAULT_FUEL,
{
    fuel.remaining = DEFAULT_FUEL;
}

/// Fuel monotonicity under the timer: `k` ticks take `k` from the fuel, and
/// stop at zero. From a full gauge they leave `max(0, DEFAULT_FUEL - k)`.
pub proof fn lemma_fuel_after_ticks(fuel: u64, k: nat)
    ensures
        after_ticks(fuel, k) == if k >= fuel {
            0
        } else {
            fuel - k
        },
        k > 0 ==> after_ticks(fuel, k) <= after_ticks(fuel, (k - 1) as nat),
    decreases k,
{
    if k > 0 {
        lemma_fuel_after_ticks(fuel, (k - 1) as nat);
    }
}

impl<F> TaskView<F> {
    /// Steps that the task still has to run.
    pub open spec fn remaining(self) -> nat {
        if self.step < self.total {
            (self.total - self.step) as nat
        } else {
            0
        }
    }

    /// Whether a turn of the task runs a step.
    pub open spec fn runs(self) -> bool {
        self.step < self.total
    }

    /// The task after its turn: one step further, if it had one to run.
    pub open spec fn advance(self) -> TaskView<F> {
        if self.runs() {
            TaskView { step: (self.step + 1) as u64, ..self }
        } else {
            self
        }
    }

    /// Whether the task is done after its turn, and leaves the queue.
    pub open spec fn finishes(self) -> bool {
        self.advance().step >= self.total
    }
}

/// The queue after the turn of its first task: the task has left the front,
/// and stands at the back again unless it is done.
pub open spec fn rotate<F>(queue: Seq<TaskView<F>>) -> Seq<TaskView<F>>
    recommends
        queue.len() > 0,
{
    if queue[0].finishes() {
        queue.drop_first()
    } else {
        queue.drop_first().push(queue[0].advance())
    }
}

impl<F> TaskView<F> {
    /// Turns that the task takes before it leaves the queue: one for each
    /// step that is left, and one to leave if none is.
    pub open spec fn turns_owed(self) -> nat {
        if self.remaining() == 0 {
            1
        } else {
            self.remaining()
        }
    }
}

/// The steps that are left, summed over the queue.
pub open spec fn steps_left<F>(queue: Seq<TaskView<F>>) -> nat
    decreases queue.len(),
{
    if queue.len() == 0 {
        0
    } else {
        steps_left(queue.drop_last()) + queue.last().remaining()
    }
}

/// The turns that the tasks of the queue take before all have left, summed
/// over the queue.
pub open spec fn turns_owed<F>(queue: Seq<TaskView<F>>) -> nat
    decreases queue.len(),
{
    if queue.len() == 0 {
        0
    } else {
        turns_owed(queue.drop_last()) + queue.last().turns_owed()
    }
}

/// The tasks that take a turn, in the order of their turns, each as it
/// stands when its turn begins.
pub open spec fn turns<F>(queue: Seq<TaskView<F>>) -> Seq<TaskView<F>>
    decreases turns_owed(queue),
    via turns_decreases::<F>
{
    if queue.len() == 0 {
        Seq::empty()
    } else {
        seq![queue[0]] + turns(rotate(queue))
    }
}

#[via_fn]
proof fn turns_decreases<F>(queue: Seq<TaskView<F>>) {
    if queue.len() > 0 {
        lemma_rotate_sums(queue);
    }
}

/// Taking the first task out of the sums.
proof fn lemma_sums_drop_first<F>(queue: Seq<TaskView<F>>)
    requires
        queue.len() > 0,
    ensures
        turns_owed(queue) == queue[0].turns_owed() + turns_owed(queue.drop_first()),
        steps_left(queue) == queue[0].remaining() + steps_left(queue.drop_first()),
    decreases queue.len(),
{
    if queue.len() == 1 {
        assert(queue.drop_last() =~= queue.drop_first());
        assert(turns_owed(queue.drop_first()) == 0);
        assert(steps_left(queue.drop_first()) == 0);
    } else {
        lemma_sums_drop_first(queue.drop_last());
        assert(queue.drop_last().drop_first() =~= queue.drop_first().drop_last());
        assert(queue.drop_first().last() == queue.last());
        assert(queue.drop_last()[0] == queue[0]);
    }
}

/// Each turn takes one from the turns that are owed, and from the steps
/// that are left if it runs a step.
proof fn lemma_rotate_sums<F>(queue: Seq<TaskView<F>>)
    requires
        queue.len() > 0,
    ensures
        turns_owed(rotate(queue)) + 1 == turns_owed(queue),
        steps_left(rotate(queue)) + (if queue[0].runs() {
            1nat
        } else {
            0nat
        }) == steps_left(queue),
{
    lemma_sums_drop_first(queue);
    if !queue[0].finishes() {
        let rest = queue.drop_first();
        let back = queue[0].advance();
        assert(rest.push(back).drop_last() =~= rest);
        assert(rest.push(back).last() == back);
    }
}

/// How many of the given turns run a step.
pub open spec fn executed<F>(taken: Seq<TaskView<F>>) -> nat
    decreases taken.len(),
{
    if taken.len() == 0 {
        0
    } else {
        executed(taken.drop_first()) + if taken[0].runs() {
            1nat
        } else {
            0nat
        }
    }
}

/// Round-robin fairness, the count: the scheduler takes as many turns as
/// the tasks owe, and runs as many steps as are left. Where every queued
/// task has a step left, the number of turns is the sum of the steps.
pub proof fn lemma_turn_count<F>(queue: Seq<TaskView<F>>)
    ensures
        turns(queue).len() == turns_owed(queue),
        executed(turns(queue)) == steps_left(queue),
        (forall|i: int| 0 <= i < queue.len() ==> (#[trigger] queue[i]).runs()) ==> turns(
            queue,
        ).len() == steps_left(queue),
    decreases turns_owed(queue),
{
    if queue.len() > 0 {
        lemma_rotate_sums(queue);
        lemma_turn_count(rotate(queue));
        let all = turns(queue);
        assert(all.drop_first() =~= turns(rotate(queue)));
        assert(all[0] == queue[0]);
    }
    if forall|i: int| 0 <= i < queue.len() ==> (#[trigger] queue[i]).runs() {
        lemma_all_run(queue);
    }
}

/// Where every task has a step left, the turns owed are the steps left.
proof fn lemma_all_run<F>(queue: Seq<TaskView<F>>)
    requires
        forall|i: int| 0 <= i < queue.len() ==> (#[trigger] queue[i]).runs(),
    ensures
        turns_owed(queue) == steps_left(queue),
    decreases queue.len(),
{
    if queue.len() > 0 {
        let front = queue.drop_last();
        assert forall|i: int| 0 <= i < front.len() implies (#[trigger] front[i]).runs() by {
            assert(front[i] == queue[i]);
        }
        lemma_all_run(front);
        assert(queue.last() == queue[queue.len() - 1]);
    }
}

/// The queue as it stands when turn `k` begins.
pub open spec fn queue_after<F>(queue: Seq<TaskView<F>>, k: nat) -> Seq<TaskView<F>>
    decreases k,
{
    if k == 0 {
        queue
    } else {
        let before = queue_after(queue, (k - 1) as nat);
        if before.len() == 0 {
            before
        } else {
            rotate(before)
        }
    }
}

/// The tasks of `taken` as they stand after one turn each, without those
/// that are done by then.
pub open spec fn survivors<F>(taken: Seq<TaskView<F>>) -> Seq<TaskView<F>>
    decreases taken.len(),
{
    if taken.len() == 0 {
        Seq::empty()
    } else if taken.last().finishes() {
        survivors(taken.drop_last())
    } else {
        survivors(taken.drop_last()).push(taken.last().advance())
    }
}

/// The turns from turn `k` on are the turns of the queue as it stands when
/// turn `k` begins, and the task that takes turn `k` is at its front.
pub proof fn lemma_turns_from<F>(queue: Seq<TaskView<F>>, k: nat)
    requires
        k <= turns(queue).len(),
    ensures
        turns(queue).skip(k as int) == turns(queue_after(queue, k)),
        k < turns(queue).len() ==> queue_after(queue, k).len() > 0 && turns(queue)[k as int]
            == queue_after(queue, k)[0],
    decreases k,
{
    if k == 0 {
        assert(turns(queue).skip(0) =~= turns(queue));
    } else {
        lemma_turns_from(queue, (k - 1) as nat);
        let before = queue_after(queue, (k - 1) as nat);
        assert(turns(before).len() > 0);
        assert(turns(queue).skip(k as int) =~= turns(queue).skip(k - 1).skip(1));
        assert(turns(before).skip(1) =~= turns(rotate(before)));
    }
    if k < turns(queue).len() {
        let now = queue_after(queue, k);
        assert(turns(queue).skip(k as int)[0] == turns(queue)[k as int]);
        assert(turns(now).len() > 0);
    }
}

/// During the first round the queue is what is left of the tasks that
/// have not had their turn, followed by those that had it and go on.
proof fn lemma_first_round<F>(queue: Seq<TaskView<F>>, j: nat)
    requires
        j <= queue.len(),
    ensures
        queue_after(queue, j) == queue.skip(j as int) + survivors(queue.take(j as int)),
    decreases j,
{
    if j == 0 {
        assert(queue.take(0) =~= Seq::<TaskView<F>>::empty());
        assert(queue.skip(0) + survivors(queue.take(0)) =~= queue);
    } else {
        lemma_first_round(queue, (j - 1) as nat);
        let before = queue.skip(j - 1) + survivors(queue.take(j - 1));
        assert(before.len() > 0);
        assert(before[0] == queue[j - 1]);
        assert(queue.take(j as int).drop_last() =~= queue.take(j - 1));
        assert(queue.take(j as int).last() == queue[j - 1]);
        assert(before.drop_first() =~= queue.skip(j as int) + survivors(queue.take(j - 1)));
        assert(rotate(before) =~= queue.skip(j as int) + survivors(queue.take(j as int)));
    }
}

/// The survivors of a round begin with its first task, if that goes on.
proof fn lemma_survivors_first<F>(taken: Seq<TaskView<F>>)
    requires
        taken.len() > 0,
        !taken[0].finishes(),
    ensures
        survivors(taken).len() > 0,
        survivors(taken)[0] == taken[0].advance(),
    decreases taken.len(),
{
    let front = taken.drop_last();
    if taken.len() == 1 {
        assert(front.len() == 0);
        assert(survivors(front).len() == 0);
        assert(taken.last() == taken[0]);
        assert(survivors(taken) == survivors(front).push(taken[0].advance()));
    } else {
        assert(front.len() > 0);
        assert(front[0] == taken[0]);
        lemma_survivors_first(front);
        if !taken.last().finishes() {
            assert(survivors(taken) == survivors(front).push(taken.last().advance()));
        }
    }
}

/// Where every task starts with a step to run, every task that is in the
/// queue at any later time has one too: a task without goes not back in.
pub proof fn lemma_queued_tasks_run<F>(queue: Seq<TaskView<F>>, k: nat)
    requires
        forall|i: int| 0 <= i < queue.len() ==> (#[trigger] queue[i]).runs(),
    ensures
        forall|j: int|
            0 <= j < queue_after(queue, k).len() ==> (#[trigger] queue_after(queue, k)[j]).runs(),
    decreases k,
{
    if k > 0 {
        lemma_queued_tasks_run(queue, (k - 1) as nat);
        let before = queue_after(queue, (k - 1) as nat);
        let now = queue_after(queue, k);
        if before.len() > 0 {
            assert forall|j: int| 0 <= j < now.len() implies (#[trigger] now[j]).runs() by {
                if j < before.len() - 1 {
                    assert(now[j] == before[j + 1]);
                } else {
                    assert(before[0].runs());
                    assert(now[j] == before[0].advance());
                }
            }
        }
    }
}

/// Round-robin fairness, the order: whenever a turn begins, the tasks of
/// the queue take the next turns one after another in queue order, each
/// exactly one; and the task at the front, unless it is done after its
/// turn, takes its next turn right after all the others have had theirs.
/// So between two consecutive turns of a task every other queued task takes
/// exactly one turn. Where every task starts with a step to run, each of
/// these turns runs exactly one step: between two consecutive steps of a
/// task, as many steps of other tasks run as other tasks are in the
/// queue.
pub proof fn lemma_round_robin<F>(queue: Seq<TaskView<F>>, k: nat)
    requires
        k < turns(queue).len(),
    ensures
        ({
            let now = queue_after(queue, k);
            &&& now.len() > 0
            &&& k + now.len() <= turns(queue).len()
            &&& forall|j: int| 0 <= j < now.len() ==> turns(queue)[k + j] == #[trigger] now[j]
            &&& !now[0].finishes() ==> k + now.len() < turns(queue).len() && turns(queue)[(k
                + now.len()) as int] == now[0].advance()
            &&& (forall|i: int| 0 <= i < queue.len() ==> (#[trigger] queue[i]).runs())
                ==> forall|j: int| 0 <= j < now.len() ==> (#[trigger] now[j]).runs()
        }),
{
    if forall|i: int| 0 <= i < queue.len() ==> (#[trigger] queue[i]).runs() {
        lemma_queued_tasks_run(queue, k);
    }
    lemma_turns_from(queue, k);
    let now = queue_after(queue, k);
    let rest = turns(queue).skip(k as int);
    assert(rest == turns(now));
    lemma_turn_count(now);
    lemma_owed_at_least_len(now);
    assert forall|j: int| 0 <= j < now.len() implies turns(queue)[k + j] == #[trigger] now[j] by {
        lemma_turns_from(now, j as nat);
        lemma_first_round(now, j as nat);
        assert(rest[j] == turns(queue)[k + j]);
        assert(queue_after(now, j as nat)[0] == now.skip(j)[0]);
    }
    if !now[0].finishes() {
        let n = now.len();
        lemma_first_round(now, n);
        assert(now.take(n as int) =~= now);
        assert(now.skip(n as int) =~= Seq::<TaskView<F>>::empty());
        lemma_survivors_first(now);
        let next = queue_after(now, n);
        assert(next =~= survivors(now));
        assert(next.len() > 0);
        lemma_turn_count(next);
        lemma_owed_at_least_len(next);
        lemma_turns_from_len(now, n);
        lemma_turns_from(now, n);
        assert(rest[n as int] == turns(queue)[(k + n) as int]);
    }
}

/// Every queued task owes at least one turn.
proof fn lemma_owed_at_least_len<F>(queue: Seq<TaskView<F>>)
    ensures
        turns_owed(queue) >= queue.len(),
    decreases queue.len(),
{
    if queue.len() > 0 {
        lemma_owed_at_least_len(queue.drop_last());
    }
}

/// While the queue is not empty there are turns to come.
proof fn lemma_turns_from_len<F>(queue: Seq<TaskView<F>>, k: nat)
    requires
        queue_after(queue, k).len() > 0,
    ensures
        k < turns(queue).len(),
    decreases k,
{
    if k == 0 {
        lemma_turn_count(queue);
        lemma_owed_at_least_len(queue);
    } else {
        let before = queue_after(queue, (k - 1) as nat);
        assert(before.len() > 0);
        lemma_turns_from_len(queue, (k - 1) as nat);
        lemma_turns_from(queue, (k - 1) as nat);
        let now = queue_after(queue, k);
        assert(now == rotate(before));
        lemma_turn_count(now);
        lemma_owed_at_least_len(now);
        assert(turns(before) =~= seq![before[0]] + turns(now));
        assert(turns(queue).skip(k - 1).len() == turns(queue).len() - (k - 1));
    }
}

/// What the scheduler reports of one turn.
#[derive(Debug, Clone, Copy, PartialEq, Eq)]
pub struct Turn {
    /// The task whose turn it was.
    pub task: TaskId,
    /// Its name.
    pub name: &'static str,
    /// The index of the step that ran, if one did.
    pub step: Option<u64>,
    /// Whether the task was done after the turn and left the queue.
    pub finished: bool,
}

impl Turn {
    /// The report is that of a turn of task `t`.
    pub open spec fn records<F>(self, t: TaskView<F>) -> bool {
        &&& self.task@ == t.id
        &&& self.name@ == t.name
        &&& self.step == if t.runs() {
            Some(t.step)
        } else {
            None::<u64>
        }
        &&& self.finished == t.finishes()
    }
}

/// The step function of `t` may be called on each step the task still has
/// to run, with the task's capabilities.
pub open spec fn callable<F: Fn(u64, &[CapId])>(t: TaskView<F>) -> bool {
    forall|step: u64, caps: &[CapId]|
        t.step <= step < t.total && caps@ == t.caps ==> #[trigger] call_requires(
            t.step_fn,
            (step, caps),
        )
}

/// The step function of `t` was called on the task's current step and the
/// task's own capabilities, and has returned.
pub open spec fn stepped<F: Fn(u64, &[CapId])>(t: TaskView<F>) -> bool {
    exists|caps: &[CapId]|
        caps@ == t.caps && #[trigger] call_ensures(t.step_fn, (t.step, caps), ())
}

/// The cooperative round-robin scheduler.
pub struct Scheduler<F> {
    tasks: VecDeque<Task<F>>,
    ids: TaskIds,
}

impl<F: Fn(u64, &[CapId])> Scheduler<F> {
    /// The queue of tasks, front first.
    pub closed spec fn queue(&self) -> Seq<TaskView<F>> {
        self.tasks@.map_values(|t: Task<F>| t@)
    }

    /// The number that the next spawned task gets as its identifier.
    pub closed spec fn next_id(&self) -> u64 {
        self.ids@
    }

    /// Every queued task is ready, within its step count, and may be
    /// stepped; identifiers were handed out in order, none twice.
    pub closed spec fn wf(&self) -> bool {
        &&& forall|i: int|
            0 <= i < self.tasks@.len() ==> {
                &&& (#[trigger] self.tasks@[i]).state == TaskState::Ready
                &&& self.tasks@[i].wf()
                &&& callable(self.tasks@[i]@)
                &&& self.tasks@[i].id@ < self.ids@
            }
        &&& forall|i: int, j: int|
            0 <= i < j < self.tasks@.len() ==> (#[trigger] self.tasks@[i]).id@ != (
            #[trigger] self.tasks@[j]).id@
    }

    /// Task invariants: every task in the queue is ready (a task is running
    /// only inside its turn, and a task that is done has left), has not
    /// passed its total, may be stepped, and has an identifier of its own
    /// that was handed out before.
    pub proof fn lemma_queued_tasks(&self)
        requires
            self.wf(),
        ensures
            forall|i: int|
                0 <= i < self.queue().len() ==> {
                    &&& (#[trigger] self.queue()[i]).state == TaskState::Ready
                    &&& self.queue()[i].step <= self.queue()[i].total
                    &&& callable(self.queue()[i])
                    &&& self.queue()[i].id < self.next_id()
                },
            forall|i: int, j: int|
                0 <= i < j < self.queue().len() ==> (#[trigger] self.queue()[i]).id != (
                #[trigger] self.queue()[j]).id,
    {
        assert forall|i: int| 0 <= i < self.queue().len() implies {
            &&& (#[trigger] self.queue()[i]).state == TaskState::Ready
            &&& self.queue()[i].step <= self.queue()[i].total
            &&& callable(self.queue()[i])
            &&& self.queue()[i].id < self.next_id()
        } by {
            assert(self.queue()[i] == self.tasks@[i]@);
        }
        assert forall|i: int, j: int| 0 <= i < j < self.queue().len() implies (
        #[trigger] self.queue()[i]).id != (#[trigger] self.queue()[j]).id by {
            assert(self.queue()[i] == self.tasks@[i]@);
            assert(self.queue()[j] == self.tasks@[j]@);
        }
    }

    /// Whether a further task can be given a fresh identifier.
    pub open spec fn has_room(&self) -> bool {
        self.next_id() < u64::MAX
    }

    /// Create a new empty scheduler. Task identifiers start at 0.
    pub fn new() -> (sched: Scheduler<F>)
        ensures
            sched.queue() == Seq::<TaskView<F>>::empty(),
            sched.next_id() == 0,
            sched.wf(),
    {
        let sched = Scheduler { tasks: VecDeque::new(), ids: TaskIds::new() };
        assert(sched.queue() =~= Seq::<TaskView<F>>::empty());
        sched
    }

    /// Whether a further task can be spawned.
    pub fn can_spawn(&self) -> (b: bool)
        ensures
            b == self.has_room(),
    {
        self.ids.can_mint()
    }

    /// Number of tasks in the queue.
    pub fn len(&self) -> (n: usize)
        ensures
            n == self.queue().len(),
    {
        self.tasks.len()
    }

    /// Spawn a new task: a ready task with a fresh identifier is appended to
    /// the queue. Returns the identifier.
    pub fn spawn(&mut self, name: &'static str, steps: u64, caps: Vec<CapId>, step_fn: F) -> (id:
        TaskId)
        requires
            old(self).wf(),
            old(self).has_room(),
            forall|step: u64, c: &[CapId]|
                step < steps && c@ == caps@ ==> #[trigger] call_requires(step_fn, (step, c)),
        ensures
            id@ == old(self).next_id(),
            final(self).next_id() == old(self).next_id() + 1,
            final(self).queue() == old(self).queue().push(
                TaskView {
                    id: id@,
                    name: name@,
                    state: TaskState::Ready,
                    step: 0,
                    total: steps,
                    step_fn,
                    caps: caps@,
                },
            ),
            final(self).wf(),
    {
        let task = Task::new(&mut self.ids, name, steps, step_fn, caps);
        let id = task.id;
        self.tasks.push_back(task);
        assert(self.queue() =~= old(self).queue().push(task@));
        id
    }

    /// One scheduler turn: take the task at the front, refill the fuel,
    /// run one step of the task if it has one left, and put the task at
    /// the back again unless it is done. With an empty queue nothing
    /// happens, and the fuel is left as it is.
    pub fn turn(&mut self, fuel: &mut FuelGauge) -> (turn: Option<Turn>)
        requires
            old(self).wf(),
        ensures
            final(self).wf(),
            final(self).next_id() == old(self).next_id(),
            old(self).queue().len() == 0 ==> {
                &&& turn is None
                &&& final(self).queue() == old(self).queue()
                &&& final(fuel)@ == old(fuel)@
            },
            old(self).queue().len() > 0 ==> {
                &&& turn is Some
                &&& turn->Some_0.records(old(self).queue()[0])
                &&& old(self).queue()[0].runs() ==> stepped(old(self).queue()[0])
                &&& final(self).queue() == rotate(old(self).queue())
                &&& final(fuel)@ == DEFAULT_FUEL
            },
    {
        let ghost queue = self.queue();
        let mut task = match self.tasks.pop_front() {
            Some(task) => task,
            None => {
                return None;
            },
        };
        let ghost front = task@;
        assert(front == queue[0]);
        assert(self.tasks@.map_values(|t: Task<F>| t@) =~= queue.drop_first());
        task.state = TaskState::Running;
        refuel(fuel);
        let mut step: Option<u64> = None;
        if task.current_step < task.total_steps {
            (task.step_fn)(task.current_step, task.caps.as_slice());
            step = Some(task.current_step);
            task.current_step = task.current_step + 1;
            assert(stepped(front));
        }
        let finished = task.current_step >= task.total_steps;
        let turn = Turn { task: task.id, name: task.name, step, finished };
        if finished {
            task.state = TaskState::Done;
        } else {
            task.state = TaskState::Ready;
            assert(task@ == front.advance());
            self.tasks.push_back(task);
            assert(self.tasks@.map_values(|t: Task<F>| t@) =~= queue.drop_first().push(
                front.advance(),
            ));
        }
        Some(turn)
    }

    /// Run all tasks in round-robin order until all are done: one turn
    /// after the other while the queue is not empty.
    ///
    /// The report lists every turn in order; each step that it lists was
    /// run by the task's own step function on the task's own capabilities.
    /// The fuel is refilled on every turn.
    pub fn run(&mut self, fuel: &mut FuelGauge) -> (trace: Vec<Turn>)
        requires
            old(self).wf(),
        ensures
            final(self).queue() == Seq::<TaskView<F>>::empty(),
            final(self).next_id() == old(self).next_id(),
            final(self).wf(),
            trace@.len() == turns(old(self).queue()).len(),
            forall|k: int|
                0 <= k < trace@.len() ==> (#[trigger] trace@[k]).records(
                    turns(old(self).queue())[k],
                ),
            forall|k: int|
                0 <= k < trace@.len() && (#[trigger] turns(old(self).queue())[k]).runs()
                    ==> stepped(turns(old(self).queue())[k]),
            final(fuel)@ == if old(self).queue().len() > 0 {
                DEFAULT_FUEL
            } else {
                old(fuel)@
            },
    {
        let mut trace: Vec<Turn> = Vec::new();
        let ghost all = turns(self.queue());
        while self.tasks.len() > 0
            invariant
                self.wf(),
                self.next_id() == old(self).next_id(),
                all == turns(old(self).queue()),
                trace@.len() + turns(self.queue()).len() == all.len(),
                forall|k: int|
                    0 <= k < turns(self.queue()).len() ==> turns(self.queue())[k] == all[
                        trace@.len() + k],
                forall|k: int| 0 <= k < trace@.len() ==> (#[trigger] trace@[k]).records(all[k]),
                forall|k: int|
                    0 <= k < trace@.len() && (#[trigger] all[k]).runs() ==> stepped(all[k]),
                fuel@ == if trace@.len() > 0 {
                    DEFAULT_FUEL
                } else {
                    old(fuel)@
                },
                old(self).queue().len() == 0 ==> trace@.len() == 0,
                trace@.len() == 0 ==> self.queue() == old(self).queue(),
            decreases turns_owed(self.queue()),
        {
            let ghost queue = self.queue();
            let ghost done = trace@.len();
            proof {
                lemma_rotate_sums(queue);
                assert(queue.len() > 0);
                assert(turns(queue) =~= seq![queue[0]] + turns(rotate(queue)));
                assert(all[done as int] == turns(queue)[0]);
            }
            match self.turn(fuel) {
                Some(turn) => {
                    trace.push(turn);
                },
                None => {},
            }
            proof {
                assert forall|k: int| 0 <= k < turns(self.queue()).len() implies turns(
                    self.queue(),
                )[k] == all[trace@.len() + k] by {
                    assert(turns(queue)[k + 1] == turns(rotate(queue))[k]);
                }
            }
        }
        proof {
            assert(self.queue() =~= Seq::<TaskView<F>>::empty());
            assert(turns(self.queue()).len() == 0);
            if old(self).queue().len() > 0 {
                assert(turns(old(self).queue()).len() > 0);
            }
        }
        trace
    }
}

} // verus!
