use axum::body::Bytes;
use eml_renderer::eml_task::{
    EmlTask, EmlTaskEnqueueError, EmlTaskEvent, EmlTaskManager, EmlTaskStatus, NextTask,
    TASK_QUEUE_CAPACITY,
};
use eml_renderer::task_id::new_task_id;
use std::time::{SystemTime, UNIX_EPOCH};
use tokio::sync::broadcast::error::TryRecvError;
use tokio::sync::{broadcast, oneshot};

fn started(next: NextTask) -> EmlTask {
    match next {
        NextTask::Started(task) => task,
        NextTask::ShuttingDown => panic!("shutting down"),
        NextTask::Wait => panic!("nothing to start"),
    }
}

fn next_update(receiver: &mut broadcast::Receiver<EmlTaskEvent>) -> (String, i64, EmlTaskStatus) {
    let event = receiver.try_recv().unwrap();
    (event.task_id, event.timestamp, event.status)
}

fn task(id: &str, enqueued_at: i64) -> EmlTask {
    let (response, _) = oneshot::channel();
    EmlTask {
        id: id.to_string(),
        enqueued_at,
        eml_content: Bytes::from_static(b"mail"),
        response,
        span: None,
    }
}

fn now_millis() -> i64 {
    SystemTime::now().duration_since(UNIX_EPOCH).unwrap().as_millis() as i64
}

#[test]
fn a_task_id_is_random_and_safe_in_a_url() {
    let id = new_task_id();
    assert_eq!(id.len(), 21);
    assert!(id.chars().all(|c| c.is_ascii_alphanumeric() || c == '_' || c == '-'));
    assert_ne!(id, new_task_id());
}

#[test]
fn a_new_manager_has_nothing_to_start() {
    let mut manager = EmlTaskManager::new();
    assert!(matches!(manager.receive_next_task(), NextTask::Wait));
    assert!(!manager.has_handled_task("x"));
}

#[test]
fn tasks_start_in_the_order_in_which_they_were_enqueued() {
    let mut manager = EmlTaskManager::new();
    let (first, _) = manager.enqueue_task(Bytes::from_static(b"one")).unwrap();
    let (second, _) = manager.enqueue_task(Bytes::from_static(b"two")).unwrap();
    let task = started(manager.receive_next_task());
    assert_eq!(task.id, first);
    assert_eq!(&task.eml_content[..], b"one");
    let task = started(manager.receive_next_task());
    assert_eq!(task.id, second);
    assert_eq!(&task.eml_content[..], b"two");
    assert!(matches!(manager.receive_next_task(), NextTask::Wait));
}

#[test]
fn a_full_queue_refuses_until_a_task_has_started() {
    let mut manager = EmlTaskManager::new();
    for _ in 0..TASK_QUEUE_CAPACITY {
        assert!(manager.enqueue_task(Bytes::new()).is_ok());
    }
    let mut updates = manager.subscribe_to_updates();
    assert!(matches!(
        manager.enqueue_task(Bytes::new()),
        Err(EmlTaskEnqueueError::TaskQueueFull)
    ));
    assert_eq!(updates.try_recv().unwrap_err(), TryRecvError::Empty);
    started(manager.receive_next_task());
    assert!(manager.enqueue_task(Bytes::new()).is_ok());
    assert!(manager.enqueue_task(Bytes::new()).is_err());
}

#[test]
fn five_tasks_may_wait() {
    assert_eq!(TASK_QUEUE_CAPACITY, 5);
}

#[test]
fn the_reply_to_a_task_reaches_the_one_who_enqueued_it() {
    let mut manager = EmlTaskManager::new();
    let (_, mut first) = manager.enqueue_task(Bytes::new()).unwrap();
    let (_, mut second) = manager.enqueue_task(Bytes::new()).unwrap();
    let task = started(manager.receive_next_task());
    assert!(task.response.send(Ok(vec![image::DynamicImage::new_rgba8(3, 2)])).is_ok());
    let captures = first.try_recv().unwrap().unwrap();
    assert_eq!(captures.len(), 1);
    assert_eq!(captures[0].width(), 3);
    assert!(second.try_recv().is_err());
}

#[test]
fn a_task_keeps_the_span_in_which_it_was_enqueued() {
    let mut manager = EmlTaskManager::new();
    manager.enqueue_task(Bytes::new()).unwrap();
    assert!(started(manager.receive_next_task()).span.is_some());
    manager.push_task(task("a", 1)).unwrap();
    assert!(started(manager.receive_next_task()).span.is_none());
}

#[test]
fn every_change_is_announced_to_those_who_subscribed_before() {
    let mut manager = EmlTaskManager::new();
    let mut early = manager.subscribe_to_updates();
    let before = now_millis();
    let (id, _) = manager.enqueue_task(Bytes::new()).unwrap();
    let mut late = manager.subscribe_to_updates();
    let task = started(manager.receive_next_task());
    manager.report_task_status(&id, EmlTaskStatus::Saving);
    let after = now_millis();

    let (task_id, enqueued_at, status) = next_update(&mut early);
    assert_eq!((task_id, status), (id.clone(), EmlTaskStatus::Enqueued));
    assert_eq!(enqueued_at, task.enqueued_at);
    assert!(before <= enqueued_at && enqueued_at <= after);
    let (task_id, started_at, status) = next_update(&mut early);
    assert_eq!((task_id, status), (id.clone(), EmlTaskStatus::Started));
    assert!(before <= started_at && started_at <= after);
    let (task_id, updated_at, status) = next_update(&mut early);
    assert_eq!((task_id, status), (id.clone(), EmlTaskStatus::Saving));
    assert!(before <= updated_at && updated_at <= after);
    assert_eq!(early.try_recv().unwrap_err(), TryRecvError::Empty);

    let (task_id, _, status) = next_update(&mut late);
    assert_eq!((task_id, status), (id, EmlTaskStatus::Started));
}

#[test]
fn a_subscriber_may_lag_sixteen_updates_behind() {
    let mut manager = EmlTaskManager::new();
    let mut updates = manager.subscribe_to_updates();
    assert!(manager.push_task(task("a", 1)).is_ok());
    manager.start_next_task(2);
    for now in 3..17 {
        manager.report_task_status_at("a", EmlTaskStatus::Saving, now);
    }
    assert_eq!(next_update(&mut updates).1, 1);
    manager.report_task_status_at("a", EmlTaskStatus::Saving, 17);
    manager.report_task_status_at("a", EmlTaskStatus::Saving, 18);
    assert!(matches!(updates.try_recv(), Err(TryRecvError::Lagged(1))));
    assert_eq!(next_update(&mut updates).1, 3);
}

#[test]
fn given_times_are_kept() {
    let mut manager = EmlTaskManager::new();
    let mut updates = manager.subscribe_to_updates();
    assert!(manager.push_task(task("a", 10)).is_ok());
    let a = manager.start_next_task(20);
    assert_eq!((a.id.as_str(), a.enqueued_at), ("a", 10));
    manager.report_task_status_at("a", EmlTaskStatus::Failed, 30);
    assert_eq!(next_update(&mut updates), ("a".to_string(), 10, EmlTaskStatus::Enqueued));
    assert_eq!(next_update(&mut updates), ("a".to_string(), 20, EmlTaskStatus::Started));
    assert_eq!(next_update(&mut updates), ("a".to_string(), 30, EmlTaskStatus::Failed));
}

#[test]
fn a_task_is_handled_once_it_has_started() {
    let mut manager = EmlTaskManager::new();
    assert!(manager.push_task(task("a", 1)).is_ok());
    assert!(!manager.has_handled_task("a"));
    manager.start_next_task(2);
    assert!(manager.has_handled_task("a"));
    assert!(!manager.has_handled_task("b"));
}

#[test]
fn a_shutdown_is_final() {
    let mut manager = EmlTaskManager::new();
    assert!(manager.push_task(task("a", 1)).is_ok());
    manager.signal_shutdown();
    assert!(matches!(manager.receive_next_task(), NextTask::ShuttingDown));
    assert!(manager.push_task(task("b", 2)).is_ok());
    assert!(matches!(manager.receive_next_task(), NextTask::ShuttingDown));
    manager.signal_shutdown();
    assert!(matches!(manager.receive_next_task(), NextTask::ShuttingDown));
    assert!(!manager.has_handled_task("a"));
}

#[test]
fn an_idle_manager_can_be_shut_down() {
    let mut manager = EmlTaskManager::new();
    assert!(matches!(manager.receive_next_task(), NextTask::Wait));
    manager.signal_shutdown();
    assert!(matches!(manager.receive_next_task(), NextTask::ShuttingDown));
}

#[test]
fn a_report_does_not_end_a_wait() {
    let mut manager = EmlTaskManager::new();
    assert!(manager.push_task(task("a", 1)).is_ok());
    manager.start_next_task(2);
    assert!(matches!(manager.receive_next_task(), NextTask::Wait));
    manager.report_task_status("a", EmlTaskStatus::Saving);
    assert!(matches!(manager.receive_next_task(), NextTask::Wait));
    assert!(manager.push_task(task("b", 3)).is_ok());
    assert_eq!(started(manager.receive_next_task()).id, "b");
}
