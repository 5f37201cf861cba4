//! Cooperative tasks.
//!
//! A task is a step function that the scheduler calls once per turn, with
//! the index of the step and the capabilities the task holds. Tasks start
//! with the capabilities they are spawned with and get no others.

pub mod scheduler;

use crate::caps::CapId;
use crate::text::{decimal, decimal_string};
use vstd::prelude::*;
use vstd::string::StringExecFns;

verus! {

/// Unique task identifier.
#[derive(Debug, Clone, Copy, PartialEq, Eq, Structural)]
pub struct TaskId(u64);

impl View for TaskId {
    type V = u64;

    closed spec fn view(&self) -> u64 {
        self.0
    }
}

/// The counter that task identifiers are minted from. It starts at 0 and
/// only goes up, so no identifier is handed out twice.
pub struct TaskIds {
    next: u64,
}

impl View for TaskIds {
    type V = u64;

    /// The number that the next identifier gets.
    closed spec fn view(&self) -> u64 {
        self.next
    }
}

impl TaskIds {
    /// Whether the counter can still hand out a fresh identifier.
    pub open spec fn has_room(&self) -> bool {
        self@ < u64::MAX
    }

    /// A counter at 0.
    pub fn new() -> (ids: TaskIds)
        ensures
            ids@ == 0,
    {
        TaskIds { next: 0 }
    }

    /// Whether a further identifier can be minted.
    pub fn can_mint(&self) -> (b: bool)
        ensures
            b == self.has_room(),
    {
        self.next < u64::MAX
    }
}

impl TaskId {
    /// Mint a new unique task identifier: the number the counter stands
    /// at, which then moves on by one.
    pub fn new(ids: &mut TaskIds) -> (id: TaskId)
        requires
            old(ids).has_room(),
        ensures
            id@ == old(ids)@,
            final(ids)@ == old(ids)@ + 1,
    {
        let id = TaskId(ids.next);
        ids.next = ids.next + 1;
        id
    }

    /// The raw numeric identifier.
    pub fn raw(&self) -> (raw: u64)
        ensures
            raw == self@,
    {
        self.0
    }

    /// How the identifier is written: `Task#` and the number in decimal.
    pub open spec fn text(self) -> Seq<char> {
        "Task#"@ + decimal(self@ as nat)
    }

    /// The identifier as text.
    pub fn to_text(&self) -> (s: String)
        ensures
            s@ == self.text(),
    {
        let mut s = String::from_str("Task#");
        s.append(decimal_string(self.0).as_str());
        s
    }

    /// Two identifiers with the same number are the same identifier.
    pub proof fn lemma_view_injective(a: TaskId, b: TaskId)
        requires
            a@ == b@,
        ensures
            a == b,
    {
    }
}

/// Task state.
#[derive(Debug, Clone, Copy, PartialEq, Eq, Structural)]
pub enum TaskState {
    Ready,
    Running,
    Done,
}

/// A schedulable task. `F` is the type of its step function, which is
/// called with the step index and the task's capabilities.
pub struct Task<F> {
    pub id: TaskId,
    pub name: &'static str,
    pub state: TaskState,
    pub current_step: u64,
    pub total_steps: u64,
    pub step_fn: F,
    pub caps: Vec<CapId>,
}

/// What the scheduler reads of a task.
pub struct TaskView<F> {
    pub id: u64,
    pub name: Seq<char>,
    pub state: TaskState,
    pub step: u64,
    pub total: u64,
    pub step_fn: F,
    pub caps: Seq<CapId>,
}

impl<F> View for Task<F> {
    type V = TaskView<F>;

    open spec fn view(&self) -> TaskView<F> {
        TaskView {
            id: self.id@,
            name: self.name@,
            state: self.state,
            step: self.current_step,
            total: self.total_steps,
            step_fn: self.step_fn,
            caps: self.caps@,
        }
    }
}

impl<F> Task<F> {
    /// The step counter never passes the total, and a task is `Done` only
    /// when it has reached it.
    pub open spec fn wf(&self) -> bool {
        &&& self.current_step <= self.total_steps
        &&& self.state == TaskState::Done ==> self.current_step == self.total_steps
    }

    /// Create a new, ready task with the given name, number of steps, step
    /// function and capabilities. Its identifier is minted from the
    /// counter, so it differs from that of every task made from the
    /// counter before. The step function is not called.
    pub fn new(
        ids: &mut TaskIds,
        name: &'static str,
        total_steps: u64,
        step_fn: F,
        caps: Vec<CapId>,
    ) -> (task: Task<F>)
        requires
            old(ids).has_room(),
        ensures
            task.id@ == old(ids)@,
            final(ids)@ == old(ids)@ + 1,
            task.name == name,
            task.state == TaskState::Ready,
            task.current_step == 0,
            task.total_steps == total_steps,
            task.step_fn == step_fn,
            task.caps == caps,
            task.wf(),
    {
        let id = TaskId::new(ids);
        Task { id, name, state: TaskState::Ready, current_step: 0, total_steps, step_fn, caps }
    }
}

} // verus!
