use crate::eml_task::EmlTaskStatus;
use vstd::prelude::*;

pub mod mail_windows;
pub mod screenshot;
pub mod screenshot_laws;
pub mod viewport_scroller;

verus! {

/// How long a worker rests between two tasks, in milliseconds.
pub const REST_MS: u64 = 1000;

/// What a worker is at.
#[derive(Clone, Copy, Debug, PartialEq, Eq, Structural)]
pub enum WorkerStage {
    /// It has asked the queue for a task.
    Receiving,
    /// It renders the message of its task.
    Rendering,
    /// It reports how far the task has come.
    Reporting,
    /// It sends the captures, or the error, to whoever asked for them.
    Replying,
    Resting,
    Stopped,
}

/// What comes of what a worker is at.
#[derive(Debug, PartialEq, Eq)]
pub enum WorkerEvent {
    TaskReceived { task_id: String },
    /// There are no more tasks, since the application is shutting down.
    QueueClosed,
    /// The message was rendered, or failed to be.
    RenderingEnded { succeeded: bool },
    Reported,
    Replied,
    Rested,
}

/// What a worker does next.
#[derive(Debug, PartialEq, Eq)]
pub enum WorkerAction {
    Receive,
    Render,
    Report { task_id: String, status: EmlTaskStatus },
    Reply,
    Rest { ms: u64 },
    Stop,
}

/// A worker: it takes one task after the other out of the queue, renders its
/// message, reports how far it has come, and replies.
pub struct Worker {
    stage: WorkerStage,
    /// That of the task in hand, or of the last one.
    task_id: String,
}

/// What a `Worker` stands for.
pub struct WorkerModel {
    pub stage: WorkerStage,
    pub task_id: Seq<char>,
}

/// What a `WorkerAction` stands for.
pub enum WorkerActionModel {
    Receive,
    Render,
    Report { task_id: Seq<char>, status: EmlTaskStatus },
    Reply,
    Rest { ms: u64 },
    Stop,
}

impl View for Worker {
    type V = WorkerModel;

    closed spec fn view(&self) -> WorkerModel {
        WorkerModel { stage: self.stage, task_id: self.task_id@ }
    }
}

impl View for WorkerAction {
    type V = WorkerActionModel;

    open spec fn view(&self) -> WorkerActionModel {
        match *self {
            WorkerAction::Receive => WorkerActionModel::Receive,
            WorkerAction::Render => WorkerActionModel::Render,
            WorkerAction::Report { task_id, status } => WorkerActionModel::Report {
                task_id: task_id@,
                status,
            },
            WorkerAction::Reply => WorkerActionModel::Reply,
            WorkerAction::Rest { ms } => WorkerActionModel::Rest { ms },
            WorkerAction::Stop => WorkerActionModel::Stop,
        }
    }
}

/// The status of a task once its message was rendered, or failed to be.
pub open spec fn status_after_rendering(succeeded: bool) -> EmlTaskStatus {
    if succeeded {
        EmlTaskStatus::Saving
    } else {
        EmlTaskStatus::Failed
    }
}

impl WorkerModel {
    /// A worker that has asked for its first task.
    pub open spec fn initial() -> Self {
        WorkerModel { stage: WorkerStage::Receiving, task_id: Seq::empty() }
    }

    /// The same task in hand, at another stage.
    pub open spec fn at(self, stage: WorkerStage) -> Self {
        WorkerModel { stage, ..self }
    }

    /// Where `event` takes the worker, and what it does there. Nothing comes of an
    /// event that does not belong to the stage.
    pub open spec fn step(self, event: WorkerEvent) -> Option<(WorkerModel, WorkerActionModel)> {
        match (self.stage, event) {
            (WorkerStage::Receiving, WorkerEvent::TaskReceived { task_id }) => Some(
                (
                    WorkerModel { stage: WorkerStage::Rendering, task_id: task_id@ },
                    WorkerActionModel::Render,
                ),
            ),
            (WorkerStage::Receiving, WorkerEvent::QueueClosed) => Some(
                (self.at(WorkerStage::Stopped), WorkerActionModel::Stop),
            ),
            (WorkerStage::Rendering, WorkerEvent::RenderingEnded { succeeded }) => Some(
                (
                    self.at(WorkerStage::Reporting),
                    WorkerActionModel::Report {
                        task_id: self.task_id,
                        status: status_after_rendering(succeeded),
                    },
                ),
            ),
            (WorkerStage::Reporting, WorkerEvent::Reported) => Some(
                (self.at(WorkerStage::Replying), WorkerActionModel::Reply),
            ),
            (WorkerStage::Replying, WorkerEvent::Replied) => Some(
                (self.at(WorkerStage::Resting), WorkerActionModel::Rest { ms: REST_MS }),
            ),
            (WorkerStage::Resting, WorkerEvent::Rested) => Some(
                (self.at(WorkerStage::Receiving), WorkerActionModel::Receive),
            ),
            _ => None,
        }
    }
}

impl Worker {
    /// A worker that asks the queue for its first task.
    pub fn new() -> (worker: Self)
        ensures
            worker@ == WorkerModel::initial(),
            worker@.stage is Receiving,
    {
        let worker = Worker { stage: WorkerStage::Receiving, task_id: String::new() };
        assert(worker@.task_id =~= WorkerModel::initial().task_id);
        worker
    }

    /// What to do next, now that this came of what was done last.
    pub fn step(&mut self, event: WorkerEvent) -> (action: Option<WorkerAction>)
        ensures
            match old(self)@.step(event) {
                Some((worker, next)) => {
                    &&& final(self)@ == worker
                    &&& action matches Some(action) && action@ == next
                },
                None => final(self)@ == old(self)@ && action is None,
            },
            action matches Some(WorkerAction::Report { task_id, status }) ==> {
                &&& task_id@ == old(self)@.task_id
                &&& event is RenderingEnded
                &&& status == if event->succeeded {
                    EmlTaskStatus::Saving
                } else {
                    EmlTaskStatus::Failed
                }
            },
            action matches Some(done) ==> done@ == match done {
                WorkerAction::Receive => WorkerActionModel::Receive,
                WorkerAction::Render => WorkerActionModel::Render,
                WorkerAction::Report { task_id, status } => WorkerActionModel::Report {
                    task_id: task_id@,
                    status,
                },
                WorkerAction::Reply => WorkerActionModel::Reply,
                WorkerAction::Rest { ms } => WorkerActionModel::Rest { ms },
                WorkerAction::Stop => WorkerActionModel::Stop,
            },
    {
        let (stage, action) = match (self.stage, event) {
            (WorkerStage::Receiving, WorkerEvent::TaskReceived { task_id }) => {
                self.task_id = task_id;
                (WorkerStage::Rendering, WorkerAction::Render)
            },
            (WorkerStage::Receiving, WorkerEvent::QueueClosed) => (
                WorkerStage::Stopped,
                WorkerAction::Stop,
            ),
            (WorkerStage::Rendering, WorkerEvent::RenderingEnded { succeeded }) => {
                let status = if succeeded {
                    EmlTaskStatus::Saving
                } else {
                    EmlTaskStatus::Failed
                };
                let task_id = self.task_id.clone();
                (WorkerStage::Reporting, WorkerAction::Report { task_id, status })
            },
            (WorkerStage::Reporting, WorkerEvent::Reported) => (
                WorkerStage::Replying,
                WorkerAction::Reply,
            ),
            (WorkerStage::Replying, WorkerEvent::Replied) => (
                WorkerStage::Resting,
                WorkerAction::Rest { ms: REST_MS },
            ),
            (WorkerStage::Resting, WorkerEvent::Rested) => (
                WorkerStage::Receiving,
                WorkerAction::Receive,
            ),
            _ => return None,
        };
        self.stage = stage;
        Some(action)
    }
}

/// Where a new worker is after `events`, and what it did upon them. There is no
/// answer where one of them did not belong to its stage.
pub open spec fn worker_run(events: Seq<WorkerEvent>) -> Option<
    (WorkerModel, Seq<WorkerActionModel>),
>
    decreases events.len(),
{
    if events.len() == 0 {
        Some((WorkerModel::initial(), Seq::empty()))
    } else {
        match worker_run(events.drop_last()) {
            Some((worker, actions)) => match worker.step(events.last()) {
                Some((next, action)) => Some((next, actions.push(action))),
                None => None,
            },
            None => None,
        }
    }
}

/// The ids of the tasks received upon `events`, in order.
pub open spec fn received_ids(events: Seq<WorkerEvent>) -> Seq<Seq<char>>
    decreases events.len(),
{
    if events.len() == 0 {
        Seq::empty()
    } else {
        let before = received_ids(events.drop_last());
        match events.last() {
            WorkerEvent::TaskReceived { task_id } => before.push(task_id@),
            _ => before,
        }
    }
}

/// Whether each of the messages rendered upon `events` was a success, in order.
pub open spec fn outcomes(events: Seq<WorkerEvent>) -> Seq<bool>
    decreases events.len(),
{
    if events.len() == 0 {
        Seq::empty()
    } else {
        let before = outcomes(events.drop_last());
        match events.last() {
            WorkerEvent::RenderingEnded { succeeded } => before.push(succeeded),
            _ => before,
        }
    }
}

/// What `actions` report, in order: the id of a task and its status.
pub open spec fn worker_reports(actions: Seq<WorkerActionModel>) -> Seq<
    (Seq<char>, EmlTaskStatus),
>
    decreases actions.len(),
{
    if actions.len() == 0 {
        Seq::empty()
    } else {
        let before = worker_reports(actions.drop_last());
        match actions.last() {
            WorkerActionModel::Report { task_id, status } => before.push((task_id, status)),
            _ => before,
        }
    }
}

/// How many of `actions` are replies.
pub open spec fn count_replies(actions: Seq<WorkerActionModel>) -> nat
    decreases actions.len(),
{
    if actions.len() == 0 {
        0
    } else if actions.last() is Reply {
        count_replies(actions.drop_last()) + 1
    } else {
        count_replies(actions.drop_last())
    }
}

/// A worker never has more than one task in hand. For each one whose message it has
/// rendered it reports once, in the order in which it received them, under the id of
/// the task and as its rendering ended, and then replies once before it takes the
/// next one.
pub proof fn law_one_report_and_one_reply_per_task(events: Seq<WorkerEvent>)
    ensures
        worker_run(events) matches Some((worker, actions)) ==> {
            let reports = worker_reports(actions);
            &&& received_ids(events).len() == reports.len() + if worker.stage is Rendering {
                1nat
            } else {
                0nat
            }
            &&& outcomes(events).len() == reports.len()
            &&& forall|i: int|
                0 <= i < reports.len() ==> #[trigger] reports[i] == (
                    received_ids(events)[i],
                    status_after_rendering(outcomes(events)[i]),
                )
            &&& reports.len() == count_replies(actions) + if worker.stage is Reporting {
                1nat
            } else {
                0nat
            }
            &&& worker.stage is Rendering ==> worker.task_id == received_ids(events).last()
        },
    decreases events.len(),
{
    if events.len() > 0 {
        law_one_report_and_one_reply_per_task(events.drop_last());
        if let Some((worker, actions)) = worker_run(events.drop_last()) {
            if let Some((next, action)) = worker.step(events.last()) {
                assert(actions.push(action).drop_last() =~= actions);
            }
        }
    }
}

/// What a worker does follows from what happened: it renders a task that it received,
/// reports it as saving or failed as its rendering ended, under the id under which it
/// was received, replies, rests for a second, and asks for the next one.
pub proof fn law_what_a_worker_does_follows_from_what_happened(
    worker: WorkerModel,
    event: WorkerEvent,
)
    ensures
        worker.step(event) is Some <==> match event {
            WorkerEvent::TaskReceived { .. } | WorkerEvent::QueueClosed => worker.stage
                is Receiving,
            WorkerEvent::RenderingEnded { .. } => worker.stage is Rendering,
            WorkerEvent::Reported => worker.stage is Reporting,
            WorkerEvent::Replied => worker.stage is Replying,
            WorkerEvent::Rested => worker.stage is Resting,
        },
        worker.step(event) matches Some((next, action)) ==> {
            &&& next.task_id == if event is TaskReceived {
                event->task_id@
            } else {
                worker.task_id
            }
            &&& match action {
                WorkerActionModel::Receive => event is Rested && next.stage is Receiving,
                WorkerActionModel::Render => event is TaskReceived && next.stage is Rendering,
                WorkerActionModel::Report { task_id, status } => {
                    &&& event is RenderingEnded
                    &&& status == if event->succeeded {
                        EmlTaskStatus::Saving
                    } else {
                        EmlTaskStatus::Failed
                    }
                    &&& task_id == worker.task_id
                    &&& next.stage is Reporting
                },
                WorkerActionModel::Reply => event is Reported && next.stage is Replying,
                WorkerActionModel::Rest { ms } => event is Replied && next.stage is Resting && ms
                    == 1000,
                WorkerActionModel::Stop => event is QueueClosed && next.stage is Stopped,
            }
        },
{
}

/// A worker stops when the queue is closed, at no other time, and for good.
pub proof fn law_worker_stops_with_the_queue(worker: WorkerModel, event: WorkerEvent)
    ensures
        worker.step(event) matches Some((next, action)) ==> {
            &&& next.stage is Stopped <==> event is QueueClosed
            &&& action is Stop <==> event is QueueClosed
        },
        worker.stage is Stopped ==> worker.step(event) is None,
        worker.step(WorkerEvent::QueueClosed) is Some <==> worker.stage is Receiving,
{
}

} // verus!
