use crate::channels::{is_only_sender, same_channel};
use crate::eml_task::{
    EmlTaskResult, EmlTaskStatus, EventModel, HandledModel, ManagerModel, TaskModel,
    TASK_QUEUE_CAPACITY,
};
use tokio::sync::oneshot;
use vstd::prelude::*;

verus! {

/// One thing that happens to a task manager. The times are those at which it
/// happens.
pub enum Operation {
    /// A message asks to be enqueued.
    Enqueue(TaskModel),
    /// A worker asks for its next task.
    Receive(i64),
    /// A handled task is reported to have a new status.
    Report(Seq<char>, EmlTaskStatus, i64),
    Shutdown,
}

/// What `operation` makes of a manager that stands for `model`: a message is
/// refused where the queue is full, a worker gets nothing where there is nothing to
/// get, and nothing can be reported of a task that has not left the queue.
pub open spec fn after(model: ManagerModel, operation: Operation) -> ManagerModel {
    match operation {
        Operation::Enqueue(task) => if model.is_full() {
            model
        } else {
            model.enqueued(task)
        },
        Operation::Receive(now) => if model.shutting_down || model.must_wait() {
            model
        } else {
            model.started(now)
        },
        Operation::Report(id, status, now) => if model.has_handled(id) {
            model.reported(id, status, now)
        } else {
            model
        },
        Operation::Shutdown => model.shut_down(),
    }
}

/// What `operations`, one after the other, make of a manager.
pub open spec fn after_all(model: ManagerModel, operations: Seq<Operation>) -> ManagerModel
    decreases operations.len(),
{
    if operations.len() == 0 {
        model
    } else {
        after(after_all(model, operations.drop_last()), operations.last())
    }
}

/// The ids of all tasks that were ever accepted, in the order of their arrival:
/// first those that have left the queue, then those that wait.
pub open spec fn accepted_ids(model: ManagerModel) -> Seq<Seq<char>> {
    model.handled.map_values(|task: HandledModel| task.id) + model.pending.map_values(
        |task: TaskModel| task.id,
    )
}

/// The tasks that `operations` put into the queue of a manager, in that order.
pub open spec fn newly_accepted(model: ManagerModel, operations: Seq<Operation>) -> Seq<TaskModel>
    decreases operations.len(),
{
    if operations.len() == 0 {
        Seq::empty()
    } else {
        let before = newly_accepted(model, operations.drop_last());
        match operations.last() {
            Operation::Enqueue(task) => if after_all(model, operations.drop_last()).is_full() {
                before
            } else {
                before.push(task)
            },
            _ => before,
        }
    }
}

/// The tasks that a manager hands out upon `operations`, in that order.
pub open spec fn handed_out(model: ManagerModel, operations: Seq<Operation>) -> Seq<TaskModel>
    decreases operations.len(),
{
    if operations.len() == 0 {
        Seq::empty()
    } else {
        let before = handed_out(model, operations.drop_last());
        let mid = after_all(model, operations.drop_last());
        match operations.last() {
            Operation::Receive(now) => if mid.shutting_down || mid.must_wait() {
                before
            } else {
                before.push(mid.pending.first())
            },
            _ => before,
        }
    }
}

/// The update with which a manager announces `operation`, if it does.
pub open spec fn announcement(model: ManagerModel, operation: Operation) -> Seq<EventModel> {
    match operation {
        Operation::Enqueue(task) if !model.is_full() => seq![
            EventModel {
                task_id: task.id,
                timestamp: task.enqueued_at,
                status: EmlTaskStatus::Enqueued,
            },
        ],
        Operation::Receive(now) if !model.shutting_down && !model.must_wait() => seq![
            EventModel {
                task_id: model.pending.first().id,
                timestamp: now,
                status: EmlTaskStatus::Started,
            },
        ],
        Operation::Report(id, status, now) if model.has_handled(id) => seq![
            EventModel { task_id: id, timestamp: now, status },
        ],
        _ => Seq::empty(),
    }
}

/// The updates with which a manager announces `operations`, in that order.
pub open spec fn announcements(model: ManagerModel, operations: Seq<Operation>) -> Seq<EventModel>
    decreases operations.len(),
{
    if operations.len() == 0 {
        Seq::empty()
    } else {
        announcements(model, operations.drop_last()) + announcement(
            after_all(model, operations.drop_last()),
            operations.last(),
        )
    }
}

/// However a manager is used, never do more tasks wait than the queue has room
/// for.
pub proof fn law_queue_stays_bounded(model: ManagerModel, operations: Seq<Operation>)
    requires
        model.wf(),
    ensures
        after_all(model, operations).wf(),
        after_all(model, operations).pending.len() <= TASK_QUEUE_CAPACITY,
    decreases operations.len(),
{
    if operations.len() > 0 {
        law_queue_stays_bounded(model, operations.drop_last());
    }
}

/// Tasks leave the queue in the order in which they were accepted, as they were
/// accepted: those handed out, followed by those that wait now, are those that waited
/// before, followed by those accepted since. None is lost, changed or handed out
/// twice.
pub proof fn law_tasks_come_out_as_they_went_in(model: ManagerModel, operations: Seq<Operation>)
    ensures
        handed_out(model, operations) + after_all(model, operations).pending == model.pending
            + newly_accepted(model, operations),
    decreases operations.len(),
{
    if operations.len() == 0 {
        assert(handed_out(model, operations) + model.pending =~= model.pending + newly_accepted(
            model,
            operations,
        ));
    } else {
        let before = operations.drop_last();
        law_tasks_come_out_as_they_went_in(model, before);
        let mid = after_all(model, before);
        let end = after(mid, operations.last());
        let out = handed_out(model, before);
        match operations.last() {
            Operation::Enqueue(task) => {
                if !mid.is_full() {
                    assert(out + end.pending =~= (out + mid.pending).push(task));
                    assert(model.pending + newly_accepted(model, operations) =~= (model.pending
                        + newly_accepted(model, before)).push(task));
                }
            },
            Operation::Receive(now) => {
                assert(handed_out(model, operations) + end.pending =~= out + mid.pending);
            },
            _ => {},
        }
    }
}

/// What is sent in reply to an accepted task reaches the one who enqueued it, and
/// nothing else does. The task is handed out whole, right after those that waited
/// before it, and the reply to a task can only reach `receiver`, which its
/// `enqueue_task` returned, where it is sent through the response of that very task.
/// If no other task has its id, the one handed out under that id is this one.
pub proof fn law_reply_reaches_who_enqueued_the_task(
    model: ManagerModel,
    task: TaskModel,
    receiver: oneshot::Receiver<EmlTaskResult>,
    operations: Seq<Operation>,
)
    requires
        !model.is_full(),
        is_only_sender(task.response, receiver),
    ensures
        ({
            let out = handed_out(model.enqueued(task), operations);
            let place = model.pending.len() as int;
            let others = model.pending + newly_accepted(model.enqueued(task), operations);
            &&& out.len() > place ==> out[place] == task
            &&& same_channel(task.response, receiver)
            &&& forall|i: int|
                0 <= i < out.len() && #[trigger] same_channel(out[i].response, receiver)
                    ==> out[i].response == task.response
            &&& (forall|i: int|
                0 <= i < others.len() ==> (#[trigger] others[i]).id != task.id) ==> forall|i: int|
                0 <= i < out.len() && (#[trigger] out[i]).id == task.id ==> out[i] == task
        }),
{
    let start = model.enqueued(task);
    let out = handed_out(start, operations);
    let since = newly_accepted(start, operations);
    let others = model.pending + since;
    let place = model.pending.len() as int;
    law_tasks_come_out_as_they_went_in(start, operations);
    let all = start.pending + since;
    assert(all == out + after_all(start, operations).pending);
    assert forall|i: int| 0 <= i < out.len() implies out[i] == #[trigger] all[i] by {}
    if out.len() > place {
        assert(out[place] == all[place]);
    }
    if forall|i: int| 0 <= i < others.len() ==> (#[trigger] others[i]).id != task.id {
        assert forall|i: int| 0 <= i < out.len() && (#[trigger] out[i]).id == task.id implies out[i]
            == task by {
            assert(out[i] == all[i]);
            if i < place {
                assert(others[i] == all[i]);
            } else if i > place {
                assert(others[i - 1] == all[i]);
            }
        }
    }
}

/// The handled tasks followed by the waiting ones are at all times exactly the
/// accepted ones, in the order of their arrival.
pub proof fn law_accepted_tasks_are_recorded_in_order(
    model: ManagerModel,
    operations: Seq<Operation>,
)
    ensures
        accepted_ids(after_all(model, operations)) == accepted_ids(model) + newly_accepted(
            model,
            operations,
        ).map_values(|task: TaskModel| task.id),
    decreases operations.len(),
{
    let ids = |tasks: Seq<TaskModel>| tasks.map_values(|task: TaskModel| task.id);
    if operations.len() == 0 {
        assert(accepted_ids(model) + ids(newly_accepted(model, operations)) =~= accepted_ids(
            model,
        ));
    } else {
        let before = operations.drop_last();
        law_accepted_tasks_are_recorded_in_order(model, before);
        let mid = after_all(model, before);
        let end = after(mid, operations.last());
        match operations.last() {
            Operation::Enqueue(task) => {
                if !mid.is_full() {
                    assert(accepted_ids(end) =~= accepted_ids(mid).push(task.id));
                    assert(accepted_ids(model) + ids(newly_accepted(model, operations)) =~= (
                    accepted_ids(model) + ids(newly_accepted(model, before))).push(task.id));
                }
            },
            Operation::Receive(now) => {
                assert(accepted_ids(end) =~= accepted_ids(mid));
            },
            Operation::Report(id, status, now) => {
                assert(accepted_ids(end) =~= accepted_ids(mid));
            },
            Operation::Shutdown => {},
        }
    }
}

/// Once a shutdown was signaled it is never taken back, and no task starts any
/// more: whatever follows, the handled tasks stay the same ones.
pub proof fn law_shutdown_is_final(model: ManagerModel, operations: Seq<Operation>)
    ensures
        after_all(model.shut_down(), operations).shutting_down,
        after_all(model.shut_down(), operations).handled.map_values(|task: HandledModel| task.id)
            == model.handled.map_values(|task: HandledModel| task.id),
    decreases operations.len(),
{
    let ids = |m: ManagerModel| m.handled.map_values(|task: HandledModel| task.id);
    if operations.len() > 0 {
        law_shutdown_is_final(model, operations.drop_last());
        let mid = after_all(model.shut_down(), operations.drop_last());
        assert(ids(after(mid, operations.last())) =~= ids(mid));
    }
}

/// An accepted task, a started task and a reported status are each announced once; a
/// refusal, a fruitless request for a task and a shutdown are not.
pub proof fn law_every_change_is_announced_once(model: ManagerModel, operation: Operation)
    ensures
        after(model, operation).updates == model.updates + announcement(model, operation),
{
    assert(model.updates =~= model.updates + Seq::empty());
}

/// What a subscriber is there to receive is exactly what is announced after it
/// subscribed, each update once and in order: what came before its subscription, when
/// the manager stood for `model`, stays as it was, and what follows are the
/// announcements since.
pub proof fn law_subscriber_is_owed_what_follows(model: ManagerModel, operations: Seq<Operation>)
    ensures
        ({
            let updates = after_all(model, operations).updates;
            let subscribed_after = model.updates.len() as int;
            &&& updates == model.updates + announcements(model, operations)
            &&& updates.take(subscribed_after) == model.updates
            &&& updates.skip(subscribed_after) == announcements(model, operations)
        }),
    decreases operations.len(),
{
    let updates = after_all(model, operations).updates;
    let later = announcements(model, operations);
    if operations.len() == 0 {
        assert(model.updates + later =~= model.updates);
    } else {
        let before = operations.drop_last();
        law_subscriber_is_owed_what_follows(model, before);
        let mid = after_all(model, before);
        law_every_change_is_announced_once(mid, operations.last());
        assert(model.updates + later =~= model.updates + announcements(model, before)
            + announcement(mid, operations.last()));
    }
    assert(updates.take(model.updates.len() as int) =~= model.updates);
    assert(updates.skip(model.updates.len() as int) =~= later);
}

/// A worker that had to wait can only stop waiting because a message was accepted
/// or a shutdown signaled: these two are the only moments at which a waiting
/// worker has to be woken.
pub proof fn law_only_enqueue_and_shutdown_end_a_wait(model: ManagerModel, operation: Operation)
    requires
        model.must_wait(),
    ensures
        after(model, operation).must_wait() <==> !(operation is Enqueue || operation is Shutdown),
{
}

/// Once a task has started, its status can be reported at any later time, whatever
/// happens in between.
pub proof fn law_started_tasks_can_be_reported(
    model: ManagerModel,
    now: i64,
    operations: Seq<Operation>,
)
    requires
        model.pending.len() > 0,
    ensures
        after_all(model.started(now), operations).has_handled(model.pending.first().id),
    decreases operations.len(),
{
    let id = model.pending.first().id;
    if operations.len() == 0 {
        let end = model.started(now);
        assert(end.handled[end.handled.len() - 1].id == id);
    } else {
        law_started_tasks_can_be_reported(model, now, operations.drop_last());
        let mid = after_all(model.started(now), operations.drop_last());
        let end = after(mid, operations.last());
        let i = choose|i: int| 0 <= i < mid.handled.len() && (#[trigger] mid.handled[i]).id == id;
        assert(end.handled[i].id == id);
    }
}

/// A full queue has room again as soon as one of its tasks starts.
pub proof fn law_starting_a_task_makes_room(model: ManagerModel, now: i64)
    requires
        model.wf(),
        model.pending.len() > 0,
    ensures
        !model.started(now).is_full(),
{
}

/// Reporting changes the status of one task only, the first one with that id, and
/// of that one neither the id nor the times at which it was enqueued and started.
/// The last report stands.
pub proof fn law_last_report_stands(
    model: ManagerModel,
    id: Seq<char>,
    first: EmlTaskStatus,
    then: i64,
    second: EmlTaskStatus,
    now: i64,
)
    requires
        model.has_handled(id),
    ensures
        model.reported(id, first, then).has_handled(id),
        model.reported(id, first, then).reported(id, second, now).handled == model.reported(
            id,
            second,
            now,
        ).handled,
        exists|i: int|
            {
                &&& #[trigger] model.is_first_handled(i, id)
                &&& model.reported(id, second, now).handled == model.handled.update(
                    i,
                    HandledModel { updated_at: now, status: second, ..model.handled[i] },
                )
            },
{
    let i = lemma_first_handled_exists(model, id, 0);
    let once = model.reported(id, first, then);
    assert(once.handled[i].id == id);
    assert forall|j: int| model.is_first_handled(j, id) <==> once.is_first_handled(j, id) by {
        assert forall|k: int| 0 <= k < model.handled.len() implies once.handled[k].id
            == model.handled[k].id by {}
        if once.is_first_handled(j, id) {
            assert forall|k: int| 0 <= k < j implies model.handled[k].id != id by {
                assert(once.handled[k].id != id);
            }
        }
        if model.is_first_handled(j, id) {
            assert forall|k: int| 0 <= k < j implies once.handled[k].id != id by {
                assert(model.handled[k].id != id);
            }
        }
    }
    assert(once.reported(id, second, now).handled =~= model.reported(id, second, now).handled);
    assert(model.reported(id, second, now).handled =~= model.handled.update(
        i,
        HandledModel { updated_at: now, status: second, ..model.handled[i] },
    ));
}

/// As long as no two draws give the same id, no two tasks share one, however the manager
/// is used: what is told apart by its ids when it is accepted stays so.
pub proof fn law_tasks_with_distinct_ids_stay_apart(
    model: ManagerModel,
    operations: Seq<Operation>,
)
    requires
        ({
            let handled = model.handled.map_values(|task: HandledModel| task.id);
            let pending = model.pending.map_values(|task: TaskModel| task.id);
            let later = newly_accepted(model, operations).map_values(|task: TaskModel| task.id);
            (handled + pending + later).no_duplicates()
        }),
    ensures
        ({
            let end = after_all(model, operations);
            let handled = end.handled.map_values(|task: HandledModel| task.id);
            let pending = end.pending.map_values(|task: TaskModel| task.id);
            (handled + pending).no_duplicates()
        }),
{
    law_accepted_tasks_are_recorded_in_order(model, operations);
}

/// A report is recorded on the task that it is about, with its status and time, and on no
/// other, where no other handled task has the same id. Nothing else changes, except
/// that the report is announced.
pub proof fn law_report_is_recorded_on_its_task(
    model: ManagerModel,
    i: int,
    status: EmlTaskStatus,
    now: i64,
)
    requires
        0 <= i < model.handled.len(),
        forall|j: int|
            0 <= j < model.handled.len() && j != i ==> (#[trigger] model.handled[j]).id
                != model.handled[i].id,
    ensures
        ({
            let id = model.handled[i].id;
            let end = model.reported(id, status, now);
            &&& end.handled.len() == model.handled.len()
            &&& end.handled[i] == (HandledModel { updated_at: now, status, ..model.handled[i] })
            &&& forall|j: int|
                0 <= j < model.handled.len() && j != i ==> #[trigger] end.handled[j]
                    == model.handled[j]
            &&& end.updates == model.updates.push(
                EventModel { task_id: id, timestamp: now, status },
            )
            &&& end.pending == model.pending
            &&& end.shutting_down == model.shutting_down
            &&& end.update_capacity == model.update_capacity
        }),
{
    assert(model.is_first_handled(i, model.handled[i].id));
}

/// A message that is accepted and starts next keeps its id, content and reply channel,
/// and the two updates about it carry that id and the times at which it was enqueued
/// and started. The queue is then as it was before.
pub proof fn law_accepting_and_starting_keeps_the_task(
    model: ManagerModel,
    task: TaskModel,
    now: i64,
)
    requires
        model.pending.len() == 0,
    ensures
        ({
            let queued = model.enqueued(task);
            let end = queued.started(now);
            &&& queued.pending == seq![task]
            &&& end.pending == model.pending
            &&& end.handled == model.handled.push(
                HandledModel {
                    id: task.id,
                    enqueued_at: task.enqueued_at,
                    started_at: now,
                    updated_at: now,
                    status: EmlTaskStatus::Started,
                },
            )
            &&& end.updates == model.updates + seq![
                EventModel {
                    task_id: task.id,
                    timestamp: task.enqueued_at,
                    status: EmlTaskStatus::Enqueued,
                },
                EventModel { task_id: task.id, timestamp: now, status: EmlTaskStatus::Started },
            ]
        }),
{
    let end = model.enqueued(task).started(now);
    assert(model.enqueued(task).pending =~= seq![task]);
    assert(end.pending =~= model.pending);
    assert(end.updates =~= model.updates + seq![
        EventModel {
            task_id: task.id,
            timestamp: task.enqueued_at,
            status: EmlTaskStatus::Enqueued,
        },
        EventModel { task_id: task.id, timestamp: now, status: EmlTaskStatus::Started },
    ]);
}

/// Among the handled tasks from `from` on there is a first one with this id, where
/// none before `from` has it.
proof fn lemma_first_handled_exists(model: ManagerModel, id: Seq<char>, from: int) -> (first: int)
    requires
        0 <= from,
        model.has_handled(id),
        forall|j: int| 0 <= j < from ==> (#[trigger] model.handled[j]).id != id,
    ensures
        model.is_first_handled(first, id),
    decreases model.handled.len() - from,
{
    let i = choose|i: int| 0 <= i < model.handled.len() && (#[trigger] model.handled[i]).id == id;
    assert(from <= i);
    if model.handled[from].id == id {
        from
    } else {
        lemma_first_handled_exists(model, id, from + 1)
    }
}

} // verus!
