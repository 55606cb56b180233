use crate::channels::{
    feeds, is_only_sender, publish, published, reply_channel, same_channel, subscribe,
    subscribed_after, update_capacity, update_channel,
};
use crate::clock::{is_clock_reading, law_readings_come_from_the_clock, now_millis};
use crate::task_id::{is_drawn, is_task_id, new_task_id};
use axum::body::Bytes;
use std::collections::VecDeque;
use tokio::sync::{broadcast, oneshot};
use tracing::Span;
use vstd::prelude::*;

verus! {

/// How many tasks may wait at once.
pub const TASK_QUEUE_CAPACITY: usize = 5;

/// How many updates a subscriber may lag behind before it loses the oldest.
pub const UPDATE_CAPACITY: usize = 16;

/// Declares `axum::body::Bytes`, which is only carried.
#[verifier::external_type_specification]
#[verifier::external_body]
pub struct ExBytes(Bytes);

/// Declares `anyhow::Error`, which is only carried.
#[verifier::external_type_specification]
#[verifier::external_body]
pub struct ExAnyhowError(anyhow::Error);

/// Declares `image::DynamicImage`.
#[verifier::external_type_specification]
#[verifier::external_body]
pub struct ExDynamicImage(image::DynamicImage);

/// Declares `tracing::Span`, which is only carried.
#[verifier::external_type_specification]
#[verifier::external_body]
pub struct ExSpan(Span);

/// Calls `tracing::Span::current`. Nothing is promised of the span, since it is
/// whatever the calling thread has entered.
#[verifier::external_body]
fn current_span() -> Span {
    Span::current()
}

/// `span` is what the calling thread had entered when it was asked.
pub closed spec fn is_entered_span(span: Span) -> bool {
    call_ensures(current_span, (), span)
}

/// A span counts as entered only where `tracing` gave it as the current one.
proof fn law_entered_spans_come_from_the_thread(span: Span)
    ensures
        is_entered_span(span) <==> call_ensures(current_span, (), span),
{
}

/// What comes of a task: the captures of the rendered message, top to bottom.
pub type EmlTaskResult = anyhow::Result<Vec<image::DynamicImage>>;

/// A message that waits to be rendered.
pub struct EmlTask {
    pub id: String,
    /// In milliseconds since the Unix epoch, as all times here.
    pub enqueued_at: i64,
    pub eml_content: Bytes,
    /// Where the captures go, or the reason why there are none.
    pub response: oneshot::Sender<EmlTaskResult>,
    /// To which log lines about the task belong.
    pub span: Option<Span>,
}

/// How far a task has come.
#[derive(Clone, Copy, Debug, PartialEq, Eq, Structural)]
pub enum EmlTaskStatus {
    Enqueued,
    Started,
    Failed,
    Saving,
    Completed,
}

/// A task that has left the queue.
pub struct HandledEmlTask {
    pub id: String,
    pub enqueued_at: i64,
    pub started_at: i64,
    pub updated_at: i64,
    pub status: EmlTaskStatus,
}

/// The update that tells subscribers of a task's new status.
#[derive(Clone, Debug)]
pub struct EmlTaskEvent {
    pub task_id: String,
    pub timestamp: i64,
    pub status: EmlTaskStatus,
}

/// The tasks that wait, in the order of their arrival, and those that have left
/// the queue, in the order in which they did.
struct TaskList {
    handled_tasks: Vec<HandledEmlTask>,
    pending_tasks: VecDeque<EmlTask>,
    is_shutting_down: bool,
}

/// The task queue, the record of the tasks that left it, and the channel on which
/// every change of a task's status is announced.
pub struct EmlTaskManager {
    tasks: TaskList,
    updates_tx: broadcast::Sender<EmlTaskEvent>,
}

/// Why a task was not enqueued.
#[derive(Clone, Copy, Debug, PartialEq, Eq, Structural)]
pub enum EmlTaskEnqueueError {
    TaskQueueFull,
}

/// What the queue has for a worker that asks for its next task.
pub enum NextTask {
    /// The one that has waited longest. It counts as started.
    Started(EmlTask),
    /// Nothing, now and later.
    ShuttingDown,
    /// Nothing yet: ask again once a task was enqueued or a shutdown signaled.
    Wait,
}

/// What an `EmlTask` stands for.
pub struct TaskModel {
    pub id: Seq<char>,
    pub enqueued_at: i64,
    pub eml_content: Bytes,
    pub response: oneshot::Sender<EmlTaskResult>,
    pub span: Option<Span>,
}

/// What a `HandledEmlTask` stands for.
pub struct HandledModel {
    pub id: Seq<char>,
    pub enqueued_at: i64,
    pub started_at: i64,
    pub updated_at: i64,
    pub status: EmlTaskStatus,
}

/// What an `EmlTaskEvent` stands for.
pub struct EventModel {
    pub task_id: Seq<char>,
    pub timestamp: i64,
    pub status: EmlTaskStatus,
}

/// What an `EmlTaskManager` stands for.
#[verifier::ext_equal]
pub struct ManagerModel {
    /// The tasks that wait, the next one first.
    pub pending: Seq<TaskModel>,
    /// The tasks that have left the queue, the latest one last.
    pub handled: Seq<HandledModel>,
    pub shutting_down: bool,
    /// The updates handed to the subscribers, the latest one last.
    pub updates: Seq<EventModel>,
    /// How many updates are kept for a subscriber that lags behind.
    pub update_capacity: nat,
}

impl View for EmlTask {
    type V = TaskModel;

    open spec fn view(&self) -> TaskModel {
        TaskModel {
            id: self.id@,
            enqueued_at: self.enqueued_at,
            eml_content: self.eml_content,
            response: self.response,
            span: self.span,
        }
    }
}

impl View for HandledEmlTask {
    type V = HandledModel;

    open spec fn view(&self) -> HandledModel {
        HandledModel {
            id: self.id@,
            enqueued_at: self.enqueued_at,
            started_at: self.started_at,
            updated_at: self.updated_at,
            status: self.status,
        }
    }
}

impl View for EmlTaskEvent {
    type V = EventModel;

    open spec fn view(&self) -> EventModel {
        EventModel { task_id: self.task_id@, timestamp: self.timestamp, status: self.status }
    }
}

/// An update that is announced says which task it is about, when, and what its status
/// is, as they are.
pub proof fn law_update_says_what_it_holds(event: EmlTaskEvent)
    ensures
        event@.task_id == event.task_id@,
        event@.timestamp == event.timestamp,
        event@.status == event.status,
{
}

impl View for EmlTaskManager {
    type V = ManagerModel;

    closed spec fn view(&self) -> ManagerModel {
        ManagerModel {
            pending: self.tasks.pending_tasks@.map_values(|task: EmlTask| task@),
            handled: self.tasks.handled_tasks@.map_values(|task: HandledEmlTask| task@),
            shutting_down: self.tasks.is_shutting_down,
            updates: published(self.updates_tx),
            update_capacity: update_capacity(self.updates_tx),
        }
    }
}

impl ManagerModel {
    /// No more tasks wait than the queue has room for.
    pub open spec fn wf(self) -> bool {
        self.pending.len() <= TASK_QUEUE_CAPACITY
    }

    pub open spec fn is_full(self) -> bool {
        self.pending.len() >= TASK_QUEUE_CAPACITY
    }

    /// A worker that asks for a task now has to wait.
    pub open spec fn must_wait(self) -> bool {
        self.pending.len() == 0 && !self.shutting_down
    }

    /// The `i`th of the handled tasks is the first one with this id.
    pub open spec fn is_first_handled(self, i: int, id: Seq<char>) -> bool {
        &&& 0 <= i < self.handled.len()
        &&& self.handled[i].id == id
        &&& forall|j: int| 0 <= j < i ==> (#[trigger] self.handled[j]).id != id
    }

    /// A task with this id has left the queue.
    pub open spec fn has_handled(self, id: Seq<char>) -> bool {
        exists|i: int| 0 <= i < self.handled.len() && (#[trigger] self.handled[i]).id == id
    }

    /// One update more.
    pub open spec fn announced(
        self,
        task_id: Seq<char>,
        timestamp: i64,
        status: EmlTaskStatus,
    ) -> Self {
        ManagerModel {
            updates: self.updates.push(EventModel { task_id, timestamp, status }),
            ..self
        }
    }

    /// `task` joins the end of the queue, and this is announced as of the time at
    /// which it was enqueued.
    pub open spec fn enqueued(self, task: TaskModel) -> Self {
        ManagerModel { pending: self.pending.push(task), ..self }.announced(
            task.id,
            task.enqueued_at,
            EmlTaskStatus::Enqueued,
        )
    }

    /// The task at the head of the queue leaves it at the time `now` and is
    /// recorded as started, and this is announced.
    pub open spec fn started(self, now: i64) -> Self {
        let task = self.pending.first();
        let record = HandledModel {
            id: task.id,
            enqueued_at: task.enqueued_at,
            started_at: now,
            updated_at: now,
            status: EmlTaskStatus::Started,
        };
        ManagerModel {
            pending: self.pending.drop_first(),
            handled: self.handled.push(record),
            ..self
        }.announced(task.id, now, EmlTaskStatus::Started)
    }

    /// The first handled task with this id has this status as of the time `now`,
    /// and this is announced.
    pub open spec fn reported(self, id: Seq<char>, status: EmlTaskStatus, now: i64) -> Self {
        ManagerModel {
            handled: Seq::new(
                self.handled.len(),
                |i: int|
                    if self.is_first_handled(i, id) {
                        HandledModel { updated_at: now, status, ..self.handled[i] }
                    } else {
                        self.handled[i]
                    },
            ),
            ..self
        }.announced(id, now, status)
    }

    /// No task is handed out any more.
    pub open spec fn shut_down(self) -> Self {
        ManagerModel { shutting_down: true, ..self }
    }
}

impl EmlTaskManager {
    /// `receiver` is subscribed to the updates of this manager.
    pub closed spec fn is_subscribed(self, receiver: broadcast::Receiver<EmlTaskEvent>) -> bool {
        feeds(self.updates_tx, receiver)
    }

    /// Who was subscribed to the updates of `before` is subscribed to those of this
    /// manager.
    pub open spec fn keeps_subscribers_of(self, before: EmlTaskManager) -> bool {
        forall|receiver: broadcast::Receiver<EmlTaskEvent>| #[trigger]
            before.is_subscribed(receiver) ==> self.is_subscribed(receiver)
    }

    /// The tasks that wait in this manager, the next one first.
    pub closed spec fn waiting_tasks(self) -> Seq<EmlTask> {
        self.tasks.pending_tasks@
    }

    /// The records of this manager of the tasks that left the queue, the latest last.
    pub closed spec fn task_records(self) -> Seq<HandledEmlTask> {
        self.tasks.handled_tasks@
    }

    /// What a manager stands for is what it holds: every task that waits and every record
    /// of one that left the queue, with all that it says, and no others.
    pub proof fn law_model_is_what_the_manager_holds(self, i: int)
        ensures
            self@.pending.len() == self.waiting_tasks().len(),
            0 <= i < self@.pending.len() ==> {
                let task = self.waiting_tasks()[i];
                self@.pending[i] == TaskModel {
                    id: task.id@,
                    enqueued_at: task.enqueued_at,
                    eml_content: task.eml_content,
                    response: task.response,
                    span: task.span,
                }
            },
            self@.handled.len() == self.task_records().len(),
            0 <= i < self@.handled.len() ==> {
                let record = self.task_records()[i];
                self@.handled[i] == HandledModel {
                    id: record.id@,
                    enqueued_at: record.enqueued_at,
                    started_at: record.started_at,
                    updated_at: record.updated_at,
                    status: record.status,
                }
            },
    {
    }

    /// A manager that keeps the subscribers of another one has each of them.
    pub proof fn law_subscribers_are_kept(
        self,
        before: EmlTaskManager,
        receiver: broadcast::Receiver<EmlTaskEvent>,
    )
        requires
            self.keeps_subscribers_of(before),
            before.is_subscribed(receiver),
        ensures
            feeds(self.updates_channel(), receiver),
    {
    }

    /// The channel on which the updates of this manager go out.
    pub closed spec fn updates_channel(self) -> broadcast::Sender<EmlTaskEvent> {
        self.updates_tx
    }

    /// The updates of a manager are what was handed to its channel, each as it was, and
    /// who is subscribed to them is subscribed to that channel.
    pub proof fn law_updates_go_out_on_the_channel(
        self,
        receiver: broadcast::Receiver<EmlTaskEvent>,
    )
        ensures
            self@.updates == published(self.updates_channel()),
            self@.update_capacity == update_capacity(self.updates_channel()),
            self.is_subscribed(receiver) <==> feeds(self.updates_channel(), receiver),
    {
    }

    /// A manager without tasks.
    pub fn new() -> (manager: Self)
        ensures
            manager@.wf(),
            manager@ == (ManagerModel {
                pending: Seq::empty(),
                handled: Seq::empty(),
                shutting_down: false,
                updates: Seq::empty(),
                update_capacity: UPDATE_CAPACITY as nat,
            }),
            manager@.update_capacity == 16,
    {
        let manager = EmlTaskManager {
            tasks: TaskList {
                handled_tasks: Vec::new(),
                pending_tasks: VecDeque::new(),
                is_shutting_down: false,
            },
            updates_tx: update_channel(UPDATE_CAPACITY),
        };
        assert(manager@.pending =~= Seq::empty());
        assert(manager@.handled =~= Seq::empty());
        manager
    }

    /// Enqueues a message under a fresh id, unless the queue is full. The caller
    /// gets the id and the end at which the result will arrive. The id is drawn for this
    /// call; that it differs from all others is left to chance.
    pub fn enqueue_task(&mut self, eml_content: Bytes) -> (res: Result<
        (String, oneshot::Receiver<EmlTaskResult>),
        EmlTaskEnqueueError,
    >)
        ensures
            old(self)@.wf() ==> final(self)@.wf(),
            final(self).keeps_subscribers_of(*old(self)),
            res is Err <==> old(self)@.is_full(),
            res is Err <==> old(self)@.pending.len() >= 5,
            res is Err ==> final(self)@ == old(self)@,
            res matches Ok((id, receiver)) ==> {
                let task = final(self)@.pending.last();
                &&& is_task_id(id@)
                &&& call_ensures(new_task_id, (), id)
                &&& is_drawn(id)
                &&& task.id == id@
                &&& task.eml_content == eml_content
                &&& is_clock_reading(task.enqueued_at)
                &&& task.span is Some
                &&& is_entered_span(task.span->0)
                &&& is_only_sender(task.response, receiver)
                &&& same_channel(task.response, receiver)
                &&& forall|other: oneshot::Sender<EmlTaskResult>| #[trigger]
                    same_channel(other, receiver) ==> other == task.response
                &&& final(self)@ == old(self)@.enqueued(task)
                &&& final(self)@ == (ManagerModel {
                    pending: old(self)@.pending.push(task),
                    updates: old(self)@.updates.push(
                        EventModel {
                            task_id: id@,
                            timestamp: task.enqueued_at,
                            status: EmlTaskStatus::Enqueued,
                        },
                    ),
                    ..old(self)@
                })
            },
    {
        let (result_sender, result_receiver) = reply_channel();
        let new_id = new_task_id();
        let timestamp = now_millis();
        proof {
            law_readings_come_from_the_clock(timestamp);
        }
        let task = EmlTask {
            id: new_id.clone(),
            enqueued_at: timestamp,
            eml_content,
            response: result_sender,
            span: Some(current_span()),
        };
        match self.push_task(task) {
            Ok(()) => Ok((new_id, result_receiver)),
            Err(err) => Err(err),
        }
    }

    /// Puts `task` at the end of the queue and announces it, unless the queue is
    /// full.
    pub fn push_task(&mut self, task: EmlTask) -> (res: Result<(), EmlTaskEnqueueError>)
        ensures
            old(self)@.wf() ==> final(self)@.wf(),
            final(self).keeps_subscribers_of(*old(self)),
            res is Err <==> old(self)@.is_full(),
            res is Err <==> old(self)@.pending.len() >= 5,
            final(self)@ == if res is Err {
                old(self)@
            } else {
                old(self)@.enqueued(task@)
            },
            res is Ok ==> final(self)@ == (ManagerModel {
                pending: old(self)@.pending.push(
                    TaskModel {
                        id: task.id@,
                        enqueued_at: task.enqueued_at,
                        eml_content: task.eml_content,
                        response: task.response,
                        span: task.span,
                    },
                ),
                updates: old(self)@.updates.push(
                    EventModel {
                        task_id: task.id@,
                        timestamp: task.enqueued_at,
                        status: EmlTaskStatus::Enqueued,
                    },
                ),
                ..old(self)@
            }),
    {
        if self.tasks.pending_tasks.len() >= TASK_QUEUE_CAPACITY {
            return Err(EmlTaskEnqueueError::TaskQueueFull);
        }
        let event = EmlTaskEvent {
            task_id: task.id.clone(),
            timestamp: task.enqueued_at,
            status: EmlTaskStatus::Enqueued,
        };
        self.tasks.pending_tasks.push_back(task);
        publish(&mut self.updates_tx, event);
        assert(self@ =~= old(self)@.enqueued(task@));
        Ok(())
    }

    /// Hands out the task that has waited longest, and records and announces that
    /// it has started. There is none to hand out when the application is shutting
    /// down, nor when no task waits.
    pub fn receive_next_task(&mut self) -> (res: NextTask)
        ensures
            old(self)@.wf() ==> final(self)@.wf(),
            final(self).keeps_subscribers_of(*old(self)),
            res is ShuttingDown <==> old(self)@.shutting_down,
            res is Wait <==> old(self)@.must_wait(),
            res is Wait <==> old(self)@.pending.len() == 0 && !old(self)@.shutting_down,
            res !is Started ==> final(self)@ == old(self)@,
            res matches NextTask::Started(task) ==> {
                let now = final(self)@.handled.last().started_at;
                &&& task@ == old(self)@.pending.first()
                &&& old(self)@.pending[0] == (TaskModel {
                    id: task.id@,
                    enqueued_at: task.enqueued_at,
                    eml_content: task.eml_content,
                    response: task.response,
                    span: task.span,
                })
                &&& is_clock_reading(now)
                &&& final(self)@ == old(self)@.started(now)
                &&& final(self)@ == (ManagerModel {
                    pending: old(self)@.pending.skip(1),
                    handled: old(self)@.handled.push(
                        HandledModel {
                            id: task.id@,
                            enqueued_at: task.enqueued_at,
                            started_at: now,
                            updated_at: now,
                            status: EmlTaskStatus::Started,
                        },
                    ),
                    updates: old(self)@.updates.push(
                        EventModel {
                            task_id: task.id@,
                            timestamp: now,
                            status: EmlTaskStatus::Started,
                        },
                    ),
                    ..old(self)@
                })
            },
    {
        if self.tasks.is_shutting_down {
            return NextTask::ShuttingDown;
        }
        if self.tasks.pending_tasks.len() == 0 {
            return NextTask::Wait;
        }
        let now = now_millis();
        proof {
            law_readings_come_from_the_clock(now);
        }
        NextTask::Started(self.start_next_task(now))
    }

    /// Hands out the task that has waited longest, as one that starts at the time
    /// `now`.
    pub fn start_next_task(&mut self, now: i64) -> (task: EmlTask)
        requires
            old(self)@.pending.len() > 0,
        ensures
            old(self)@.wf() ==> final(self)@.wf(),
            final(self).keeps_subscribers_of(*old(self)),
            task@ == old(self)@.pending.first(),
            old(self)@.pending[0] == (TaskModel {
                id: task.id@,
                enqueued_at: task.enqueued_at,
                eml_content: task.eml_content,
                response: task.response,
                span: task.span,
            }),
            final(self)@ == old(self)@.started(now),
            final(self)@ == (ManagerModel {
                pending: old(self)@.pending.skip(1),
                handled: old(self)@.handled.push(
                    HandledModel {
                        id: task.id@,
                        enqueued_at: task.enqueued_at,
                        started_at: now,
                        updated_at: now,
                        status: EmlTaskStatus::Started,
                    },
                ),
                updates: old(self)@.updates.push(
                    EventModel {
                        task_id: task.id@,
                        timestamp: now,
                        status: EmlTaskStatus::Started,
                    },
                ),
                ..old(self)@
            }),
    {
        let task = self.tasks.pending_tasks.pop_front().unwrap();
        self.tasks.handled_tasks.push(
            HandledEmlTask {
                id: task.id.clone(),
                enqueued_at: task.enqueued_at,
                started_at: now,
                updated_at: now,
                status: EmlTaskStatus::Started,
            },
        );
        publish(
            &mut self.updates_tx,
            EmlTaskEvent {
                task_id: task.id.clone(),
                timestamp: now,
                status: EmlTaskStatus::Started,
            },
        );
        assert(self@ =~= old(self)@.started(now));
        task
    }

    /// From now on no task is handed out.
    pub fn signal_shutdown(&mut self)
        ensures
            old(self)@.wf() ==> final(self)@.wf(),
            final(self).keeps_subscribers_of(*old(self)),
            final(self)@ == old(self)@.shut_down(),
            final(self)@ == (ManagerModel { shutting_down: true, ..old(self)@ }),
    {
        self.tasks.is_shutting_down = true;
        assert(self@ =~= old(self)@.shut_down());
    }

    /// A receiver of the updates that are yet to come.
    pub fn subscribe_to_updates(&self) -> (receiver: broadcast::Receiver<EmlTaskEvent>)
        ensures
            self.is_subscribed(receiver),
            subscribed_after(receiver) == self@.updates.len(),
    {
        subscribe(&self.updates_tx)
    }

    /// Where the first handled task with this id stands.
    fn find_handled(&self, task_id: &str) -> (res: Option<usize>)
        ensures
            res is None <==> !self@.has_handled(task_id@),
            res matches Some(i) ==> self@.is_first_handled(i as int, task_id@),
    {
        let wanted = task_id.to_owned();
        let mut i: usize = 0;
        while i < self.tasks.handled_tasks.len()
            invariant
                wanted@ == task_id@,
                i <= self.tasks.handled_tasks.len(),
                forall|j: int|
                    0 <= j < i ==> (#[trigger] self.tasks.handled_tasks@[j]).id@ != task_id@,
            decreases self.tasks.handled_tasks.len() - i,
        {
            if self.tasks.handled_tasks[i].id == wanted {
                assert(self@.handled[i as int].id == task_id@);
                return Some(i);
            }
            i += 1;
        }
        None
    }

    /// Whether a task with this id has left the queue.
    pub fn has_handled_task(&self, task_id: &str) -> (res: bool)
        ensures
            res == self@.has_handled(task_id@),
            res <==> exists|i: int|
                0 <= i < self@.handled.len() && (#[trigger] self@.handled[i]).id == task_id@,
    {
        self.find_handled(task_id).is_some()
    }

    /// Records and announces the new status of a task that has left the queue.
    pub fn report_task_status(&mut self, task_id: &str, status: EmlTaskStatus)
        requires
            old(self)@.has_handled(task_id@),
        ensures
            old(self)@.wf() ==> final(self)@.wf(),
            final(self).keeps_subscribers_of(*old(self)),
            final(self)@ == old(self)@.reported(
                task_id@,
                status,
                final(self)@.updates.last().timestamp,
            ),
            is_clock_reading(final(self)@.updates.last().timestamp),
            final(self)@.updates == old(self)@.updates.push(
                EventModel {
                    task_id: task_id@,
                    timestamp: final(self)@.updates.last().timestamp,
                    status,
                },
            ),
            final(self)@ == (ManagerModel {
                handled: final(self)@.handled,
                updates: final(self)@.updates,
                ..old(self)@
            }),
            exists|i: int|
                {
                    &&& 0 <= i < old(self)@.handled.len()
                    &&& (#[trigger] old(self)@.handled[i]).id == task_id@
                    &&& forall|j: int|
                        0 <= j < i ==> (#[trigger] old(self)@.handled[j]).id != task_id@
                    &&& final(self)@.handled == old(self)@.handled.update(
                        i,
                        HandledModel {
                            updated_at: final(self)@.updates.last().timestamp,
                            status,
                            ..old(self)@.handled[i]
                        },
                    )
                },
    {
        let now = now_millis();
        proof {
            law_readings_come_from_the_clock(now);
        }
        self.report_task_status_at(task_id, status, now)
    }

    /// Records and announces the new status of a task that has left the queue, as
    /// of the time `now`.
    pub fn report_task_status_at(&mut self, task_id: &str, status: EmlTaskStatus, now: i64)
        requires
            old(self)@.has_handled(task_id@),
        ensures
            old(self)@.wf() ==> final(self)@.wf(),
            final(self).keeps_subscribers_of(*old(self)),
            final(self)@ == old(self)@.reported(task_id@, status, now),
            final(self)@.updates == old(self)@.updates.push(
                EventModel { task_id: task_id@, timestamp: now, status },
            ),
            final(self)@ == (ManagerModel {
                handled: final(self)@.handled,
                updates: final(self)@.updates,
                ..old(self)@
            }),
            exists|i: int|
                {
                    &&& 0 <= i < old(self)@.handled.len()
                    &&& (#[trigger] old(self)@.handled[i]).id == task_id@
                    &&& forall|j: int|
                        0 <= j < i ==> (#[trigger] old(self)@.handled[j]).id != task_id@
                    &&& final(self)@.handled == old(self)@.handled.update(
                        i,
                        HandledModel { updated_at: now, status, ..old(self)@.handled[i] },
                    )
                },
    {
        let i = self.find_handled(task_id).unwrap();
        self.tasks.handled_tasks[i].status = status;
        self.tasks.handled_tasks[i].updated_at = now;
        publish(
            &mut self.updates_tx,
            EmlTaskEvent { task_id: task_id.to_owned(), timestamp: now, status },
        );
        assert(self@ =~= old(self)@.reported(task_id@, status, now));
        assert(self@.handled =~= old(self)@.handled.update(
            i as int,
            HandledModel { updated_at: now, status, ..old(self)@.handled[i as int] },
        ));
    }
}

} // verus!
