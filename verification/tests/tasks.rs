use host_dispatch::task::{
    long_async_task_on_native, long_async_task_on_worker_thread, BlockingTask, Executor, TaskStep,
};
use host_dispatch::{get_num_cpu, hello};

/// Runs a task to its completion and returns the steps it asked for.
fn run(task: BlockingTask) -> Vec<(i32, u64)> {
    let mut steps = Vec::new();
    let mut task = task;
    loop {
        match task.step() {
            TaskStep::Work { index, millis, rest } => {
                steps.push((index, millis));
                task = rest;
            }
            TaskStep::Complete => return steps,
        }
    }
}

#[test]
fn the_greeting_is_hello_node() {
    assert_eq!(hello(), "hello node");
}

#[test]
fn there_is_at_least_one_processor() {
    assert!(get_num_cpu() >= 1);
}

#[test]
fn a_native_task_of_two_steps_works_twice_and_completes() {
    let task = long_async_task_on_native(2);
    assert_eq!(task.executor(), Executor::NativeThread);
    assert_eq!(task.remaining(), 2);
    assert_eq!(run(task), vec![(0, 1000), (1, 1000)]);
}

#[test]
fn a_pooled_task_of_two_steps_works_twice_and_completes() {
    let task = long_async_task_on_worker_thread(2);
    assert_eq!(task.executor(), Executor::WorkerPool);
    assert_eq!(task.remaining(), 2);
    assert_eq!(run(task), vec![(0, 1000), (1, 1000)]);
}

#[test]
fn a_task_of_no_steps_completes_at_once() {
    for count in [0, -1, i32::MIN] {
        assert_eq!(run(long_async_task_on_native(count)), Vec::new());
        assert_eq!(run(long_async_task_on_worker_thread(count)), Vec::new());
        assert_eq!(long_async_task_on_native(count).remaining(), 0);
    }
}

#[test]
fn the_work_is_proportional_to_the_count() {
    for count in [1, 3, 10, 250] {
        let steps = run(BlockingTask::new(Executor::WorkerPool, count, 5));
        assert_eq!(steps.len(), count as usize);
        for (n, step) in steps.iter().enumerate() {
            assert_eq!(*step, (n as i32, 5));
        }
    }
}

#[test]
fn the_remaining_steps_go_down_one_by_one() {
    let mut task = BlockingTask::new(Executor::NativeThread, 3, 1);
    let mut left = Vec::new();
    loop {
        left.push(task.remaining());
        task = match task.step() {
            TaskStep::Work { rest, .. } => rest,
            TaskStep::Complete => break,
        };
    }
    assert_eq!(left, vec![3, 2, 1, 0]);
}
