use data_scraper::schedule::{
    notification_payload, notification_topic, task_step, CronTask, CronTaskExtension,
    GetSleepoverDataTask, SendDummyEventTask, StartFerienUpdateTask, TaskAction, TaskEvent,
    TaskPhase,
};

#[test]
fn tick_starts_a_run_from_waiting() {
    assert_eq!(
        task_step(TaskPhase::Waiting, TaskEvent::Tick),
        (
            TaskPhase::Running {
                cancel_requested: false
            },
            TaskAction::StartRun
        )
    );
}

#[test]
fn cancel_wins_the_race_while_waiting() {
    assert_eq!(
        task_step(TaskPhase::Waiting, TaskEvent::Cancel),
        (TaskPhase::Cancelled, TaskAction::Stop)
    );
}

#[test]
fn failed_run_does_not_stop_the_schedule() {
    let (phase, action) = task_step(
        TaskPhase::Running {
            cancel_requested: false,
        },
        TaskEvent::RunFinished { failed: true },
    );
    assert_eq!(phase, TaskPhase::Waiting);
    assert_eq!(action, TaskAction::Wait);
    // the next tick runs again at the nominal interval
    assert_eq!(
        task_step(phase, TaskEvent::Tick).1,
        TaskAction::StartRun
    );
}

#[test]
fn cancellation_during_a_run_is_cooperative() {
    let (phase, action) = task_step(
        TaskPhase::Running {
            cancel_requested: false,
        },
        TaskEvent::Cancel,
    );
    assert_eq!(
        phase,
        TaskPhase::Running {
            cancel_requested: true
        }
    );
    assert_eq!(action, TaskAction::Wait);
    // the in-flight run completes, then the task exits
    assert_eq!(
        task_step(phase, TaskEvent::RunFinished { failed: false }),
        (TaskPhase::Cancelled, TaskAction::Stop)
    );
}

#[test]
fn cancelled_is_final() {
    for event in [
        TaskEvent::Tick,
        TaskEvent::Cancel,
        TaskEvent::RunFinished { failed: false },
        TaskEvent::RunFinished { failed: true },
    ] {
        assert_eq!(
            task_step(TaskPhase::Cancelled, event),
            (TaskPhase::Cancelled, TaskAction::Stop)
        );
    }
}

#[test]
fn no_reentrant_run_on_a_tick_mid_run() {
    assert_eq!(
        task_step(
            TaskPhase::Running {
                cancel_requested: false
            },
            TaskEvent::Tick
        ),
        (
            TaskPhase::Running {
                cancel_requested: false
            },
            TaskAction::Wait
        )
    );
}

#[test]
fn tasks_carry_their_names_and_intervals() {
    assert_eq!(GetSleepoverDataTask.name(), "GetSleepoverData");
    assert_eq!(GetSleepoverDataTask.interval_secs(), 12 * 60 * 60);
    assert_eq!(SendDummyEventTask.name(), "SendDummyEvent");
    assert_eq!(SendDummyEventTask.interval_secs(), 5 * 60);
    assert_eq!(StartFerienUpdateTask.name(), "StartFerienUpdate");
    assert_eq!(StartFerienUpdateTask.interval_secs(), 7 * 24 * 60 * 60);
}

#[test]
fn boxing_keeps_the_task() {
    let boxed = GetSleepoverDataTask.into_boxed();
    assert_eq!(boxed.name(), "GetSleepoverData");
}

#[test]
fn notification_contract_is_fixed() {
    assert_eq!(notification_topic(), "new-data-added");
    assert_eq!(notification_payload(), b"new data added".to_vec());
}
