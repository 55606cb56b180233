use eml_renderer::eml_task::EmlTaskStatus;
use eml_renderer::worker_thread::mail_windows::{close_command, taskkill_args};
use eml_renderer::worker_thread::viewport_scroller::{SyncChannel, WaitEvent, WaitStep};
use eml_renderer::worker_thread::{Worker, WorkerAction, WorkerEvent};

fn received(task_id: &str) -> WorkerEvent {
    WorkerEvent::TaskReceived { task_id: task_id.to_string() }
}

fn report(task_id: &str, status: EmlTaskStatus) -> Option<WorkerAction> {
    Some(WorkerAction::Report { task_id: task_id.to_string(), status })
}

fn strings(items: &[&str]) -> Vec<String> {
    items.iter().map(|item| item.to_string()).collect()
}

#[test]
fn a_task_is_rendered_reported_and_replied_to() {
    let mut worker = Worker::new();
    for (id, succeeded) in [("first", true), ("second", false)] {
        let status = if succeeded { EmlTaskStatus::Saving } else { EmlTaskStatus::Failed };
        assert_eq!(worker.step(received(id)), Some(WorkerAction::Render));
        assert_eq!(worker.step(WorkerEvent::RenderingEnded { succeeded }), report(id, status));
        assert_eq!(worker.step(WorkerEvent::Reported), Some(WorkerAction::Reply));
        assert_eq!(worker.step(WorkerEvent::Replied), Some(WorkerAction::Rest { ms: 1000 }));
        assert_eq!(worker.step(WorkerEvent::Rested), Some(WorkerAction::Receive));
    }
    assert_eq!(worker.step(WorkerEvent::QueueClosed), Some(WorkerAction::Stop));
    assert_eq!(worker.step(received("x")), None);
    assert_eq!(worker.step(WorkerEvent::QueueClosed), None);
}

#[test]
fn a_worker_ignores_what_does_not_belong_to_its_stage() {
    let mut worker = Worker::new();
    assert_eq!(worker.step(WorkerEvent::Replied), None);
    assert_eq!(worker.step(received("x")), Some(WorkerAction::Render));
    assert_eq!(worker.step(WorkerEvent::QueueClosed), None);
    assert_eq!(worker.step(received("other")), None);
    assert_eq!(
        worker.step(WorkerEvent::RenderingEnded { succeeded: true }),
        report("x", EmlTaskStatus::Saving)
    );
}

#[test]
fn a_wait_ends_once_notified() {
    let mut channel = SyncChannel::new();
    assert_eq!(channel.wait(WaitEvent::Begin), WaitStep::Block { at_most_ms: 10_000 });
    assert_eq!(
        channel.wait(WaitEvent::Woken { elapsed_ms: 40 }),
        WaitStep::Block { at_most_ms: 9_960 }
    );
    channel.notify();
    assert_eq!(
        channel.wait(WaitEvent::Woken { elapsed_ms: 50 }),
        WaitStep::Done { timed_out: false }
    );
    assert_eq!(
        channel.wait(WaitEvent::Woken { elapsed_ms: 20_000 }),
        WaitStep::Done { timed_out: false }
    );
}

#[test]
fn a_wait_is_given_up_at_the_limit() {
    let mut channel = SyncChannel::new();
    channel.wait(WaitEvent::Begin);
    assert_eq!(
        channel.wait(WaitEvent::Woken { elapsed_ms: 9_999 }),
        WaitStep::Block { at_most_ms: 1 }
    );
    assert_eq!(
        channel.wait(WaitEvent::Woken { elapsed_ms: 10_000 }),
        WaitStep::Done { timed_out: true }
    );
}

#[test]
fn a_notification_before_the_wait_is_lost() {
    let mut channel = SyncChannel::new();
    channel.notify();
    channel.wait(WaitEvent::Begin);
    assert_eq!(
        channel.wait(WaitEvent::Woken { elapsed_ms: 0 }),
        WaitStep::Block { at_most_ms: 10_000 }
    );
}

#[test]
fn a_new_channel_has_nobody_waiting() {
    let mut channel = SyncChannel::new();
    assert_eq!(
        channel.wait(WaitEvent::Woken { elapsed_ms: 0 }),
        WaitStep::Done { timed_out: false }
    );
}

#[test]
fn every_process_is_killed_once() {
    assert_eq!(
        taskkill_args(&vec![Some(4012), None, Some(7), Some(4012), Some(0), Some(7)]),
        strings(&["/pid", "4012", "/pid", "7", "/pid", "0", "/f"])
    );
    assert_eq!(
        taskkill_args(&vec![Some(-15), Some(i32::MIN), Some(i32::MAX)]),
        strings(&["/pid", "-15", "/pid", "-2147483648", "/pid", "2147483647", "/f"])
    );
}

#[test]
fn windows_are_closed_only_if_there_are_any() {
    assert_eq!(close_command(Ok(vec![])), Ok(None));
    assert_eq!(close_command(Err(2)), Ok(None));
    assert_eq!(close_command(Err(1)), Err(1));
    assert_eq!(close_command(Err(0)), Err(0));
    assert_eq!(close_command(Ok(vec![None])), Ok(Some(strings(&["/f"]))));
    assert_eq!(
        close_command(Ok(vec![Some(12), Some(12)])),
        Ok(Some(strings(&["/pid", "12", "/f"])))
    );
}
