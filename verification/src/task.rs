//! Long-running tasks that never call back into the host while they work.
//!
//! A task does a number of blocking steps away from the host's thread, either
//! on a thread spawned for it or on the host's worker pool, and then settles
//! its promise with one completion. This module decides the steps; doing the
//! work and settling the promise is the caller's part.

use vstd::prelude::*;
use crate::invoker::iterations;

verus! {

/// How long one step of a task blocks where nothing else is chosen, in
/// milliseconds.
pub const DEFAULT_STEP_MILLIS: u64 = 1000;

/// Where the blocking work of a task runs.
#[derive(Debug, Clone, Copy, PartialEq, Eq, Structural)]
pub enum Executor {
    /// A thread spawned for the task alone.
    NativeThread,
    /// The bounded worker pool that the host keeps.
    WorkerPool,
}

/// A task as a mathematical value.
pub struct TaskView {
    pub executor: Executor,
    pub count: i32,
    pub done: i32,
    pub step_millis: u64,
}

impl TaskView {
    /// The task that `BlockingTask::new` makes.
    pub open spec fn start(executor: Executor, count: i32, step_millis: u64) -> Self {
        TaskView { executor, count, done: 0, step_millis }
    }

    /// The number of the next step, if there is one to do.
    pub open spec fn next_index(self) -> Option<i32> {
        if self.done < self.count {
            Some(self.done)
        } else {
            None
        }
    }

    /// The task with one more step done.
    pub open spec fn worked(self) -> Self {
        TaskView {
            executor: self.executor,
            count: self.count,
            done: (self.done + 1) as i32,
            step_millis: self.step_millis,
        }
    }

    /// The task with `k` more steps done.
    pub open spec fn after_steps(self, k: nat) -> Self
        decreases k,
    {
        if k == 0 {
            self
        } else {
            self.after_steps((k - 1) as nat).worked()
        }
    }
}

/// A task: where it runs, how many steps it was asked for and how many are
/// done.
pub struct BlockingTask {
    executor: Executor,
    count: i32,
    done: i32,
    step_millis: u64,
}

/// What the task does next.
pub enum TaskStep {
    /// Block for `millis` milliseconds as step number `index`, then go on
    /// with `rest`.
    Work { index: i32, millis: u64, rest: BlockingTask },
    /// Every step is done: submit the one completion that settles the
    /// promise successfully.
    Complete,
}

impl View for BlockingTask {
    type V = TaskView;

    closed spec fn view(&self) -> TaskView {
        TaskView {
            executor: self.executor,
            count: self.count,
            done: self.done,
            step_millis: self.step_millis,
        }
    }
}

impl BlockingTask {
    #[verifier::type_invariant]
    spec fn within_count(self) -> bool {
        0 <= self.done <= iterations(self.count)
    }

    /// A task of `count` steps, none of them done. A count of zero or less
    /// asks for no step.
    pub fn new(executor: Executor, count: i32, step_millis: u64) -> (task: Self)
        ensures
            task@ == TaskView::start(executor, count, step_millis),
    {
        BlockingTask { executor, count, done: 0, step_millis }
    }

    /// Where the work of the task runs.
    pub fn executor(&self) -> (executor: Executor)
        ensures
            executor == self@.executor,
    {
        self.executor
    }

    /// The number of steps still to do.
    pub fn remaining(&self) -> (n: i32)
        ensures
            n == iterations(self@.count) - self@.done,
            n >= 0,
    {
        proof {
            use_type_invariant(self);
        }
        if self.count > 0 {
            self.count - self.done
        } else {
            0
        }
    }

    /// Decides the next step. While steps are left it is the next one in
    /// order, with the task that goes on after it; otherwise it is the
    /// completion, and the task is used up.
    pub fn step(self) -> (next: TaskStep)
        ensures
            match self@.next_index() {
                Some(i) => next matches TaskStep::Work { index, millis, rest } && index == i
                    && millis == self@.step_millis && rest@ == self@.worked(),
                None => next is Complete,
            },
    {
        proof {
            use_type_invariant(&self);
        }
        if self.done < self.count {
            TaskStep::Work {
                index: self.done,
                millis: self.step_millis,
                rest: BlockingTask {
                    executor: self.executor,
                    count: self.count,
                    done: self.done + 1,
                    step_millis: self.step_millis,
                },
            }
        } else {
            TaskStep::Complete
        }
    }
}

/// Plans a task of `count` steps on a thread of its own.
pub fn long_async_task_on_native(count: i32) -> (task: BlockingTask)
    ensures
        task@ == TaskView::start(Executor::NativeThread, count, DEFAULT_STEP_MILLIS),
{
    BlockingTask::new(Executor::NativeThread, count, DEFAULT_STEP_MILLIS)
}

/// Plans a task of `count` steps on the host's worker pool.
pub fn long_async_task_on_worker_thread(count: i32) -> (task: BlockingTask)
    ensures
        task@ == TaskView::start(Executor::WorkerPool, count, DEFAULT_STEP_MILLIS),
{
    BlockingTask::new(Executor::WorkerPool, count, DEFAULT_STEP_MILLIS)
}

/// A task does its steps in order and completes after the last: a task with
/// no step done has, after `k` steps, done exactly `k`, and next comes step
/// `k`, or the completion once `k` is the number of steps it was made for.
pub proof fn lemma_steps_in_order(task: TaskView, k: nat)
    requires
        task.done == 0,
        k <= iterations(task.count),
    ensures
        task.after_steps(k).done == k,
        task.after_steps(k).count == task.count,
        task.after_steps(k).executor == task.executor,
        task.after_steps(k).step_millis == task.step_millis,
        k < iterations(task.count) ==> task.after_steps(k).next_index() == Some(k as i32),
        k == iterations(task.count) ==> task.after_steps(k).next_index() is None,
    decreases k,
{
    if k > 0 {
        lemma_steps_in_order(task, (k - 1) as nat);
    }
}

} // verus!
