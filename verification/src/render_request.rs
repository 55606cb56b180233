use crate::eml_task::EmlTaskStatus;
use vstd::prelude::*;

verus! {

/// How the picture of a message is asked for.
#[derive(Clone, Copy, Debug, PartialEq, Eq, Structural)]
pub enum RequestMode {
    /// The client waits and gets the picture as the reply.
    Direct,
    /// The client is replied to at once, and the picture is saved later.
    Background,
}

/// What the client is told.
#[derive(Clone, Copy, Debug, PartialEq, Eq, Structural)]
pub enum Reply {
    /// The queue is full.
    Unavailable,
    /// The message was enqueued.
    Accepted,
    /// The picture itself.
    Picture,
    /// What went wrong.
    Failure,
}

/// What a request is at.
#[derive(Clone, Copy, Debug, PartialEq, Eq, Structural)]
pub enum RequestStage {
    /// Its message asks to be enqueued.
    Enqueuing,
    /// The client of a background request is told that it was accepted.
    Accepting,
    /// A worker has yet to come up with the captures.
    Awaiting,
    Encoding,
    Saving,
    /// The end of the task is being reported.
    Reporting { completed: bool },
    Done,
}

/// What comes of what a request is at.
#[derive(Debug, PartialEq, Eq)]
pub enum RequestEvent {
    /// The queue is full.
    Refused,
    Enqueued { task_id: String },
    Accepted,
    /// The worker went away without an answer.
    ResultLost,
    RenderingFailed,
    Rendered,
    Encoded,
    Saved,
    SavingFailed,
    Reported,
}

/// What is done next for a request.
#[derive(Debug, PartialEq, Eq)]
pub enum RequestAction {
    Reply { reply: Reply },
    AwaitResult,
    Encode,
    Save { path: String },
    Report { task_id: String, status: EmlTaskStatus },
    Stop,
}

/// A request for the picture of a message.
pub struct RenderRequest {
    mode: RequestMode,
    stage: RequestStage,
    /// That of the message, once it was enqueued.
    task_id: String,
}

/// What a `RenderRequest` stands for.
pub struct RequestModel {
    pub mode: RequestMode,
    pub stage: RequestStage,
    pub task_id: Seq<char>,
}

/// What a `RequestAction` stands for.
pub enum RequestActionModel {
    Reply { reply: Reply },
    AwaitResult,
    Encode,
    Save { path: Seq<char> },
    Report { task_id: Seq<char>, status: EmlTaskStatus },
    Stop,
}

impl View for RenderRequest {
    type V = RequestModel;

    closed spec fn view(&self) -> RequestModel {
        RequestModel { mode: self.mode, stage: self.stage, task_id: self.task_id@ }
    }
}

impl View for RequestAction {
    type V = RequestActionModel;

    open spec fn view(&self) -> RequestActionModel {
        match *self {
            RequestAction::Reply { reply } => RequestActionModel::Reply { reply },
            RequestAction::AwaitResult => RequestActionModel::AwaitResult,
            RequestAction::Encode => RequestActionModel::Encode,
            RequestAction::Save { path } => RequestActionModel::Save { path: path@ },
            RequestAction::Report { task_id, status } => RequestActionModel::Report {
                task_id: task_id@,
                status,
            },
            RequestAction::Stop => RequestActionModel::Stop,
        }
    }
}

/// The file in which the picture of a task is saved.
pub open spec fn picture_path(task_id: Seq<char>) -> Seq<char> {
    "output/"@ + task_id + ".jpg"@
}

impl RequestModel {
    /// A request whose message asks to be enqueued.
    pub open spec fn initial(mode: RequestMode) -> Self {
        RequestModel { mode, stage: RequestStage::Enqueuing, task_id: Seq::empty() }
    }

    /// The same request at another stage.
    pub open spec fn at(self, stage: RequestStage) -> Self {
        RequestModel { stage, ..self }
    }

    /// What is done where there will be no picture: a waiting client is told why,
    /// otherwise the task is reported to have failed.
    pub open spec fn give_up(self) -> (RequestModel, RequestActionModel) {
        match self.mode {
            RequestMode::Direct => (
                self.at(RequestStage::Done),
                RequestActionModel::Reply { reply: Reply::Failure },
            ),
            RequestMode::Background => (
                self.at(RequestStage::Reporting { completed: false }),
                RequestActionModel::Report {
                    task_id: self.task_id,
                    status: EmlTaskStatus::Failed,
                },
            ),
        }
    }

    /// What is done where the picture has gone where it should go.
    pub open spec fn complete(self) -> (RequestModel, RequestActionModel) {
        (
            self.at(RequestStage::Reporting { completed: true }),
            RequestActionModel::Report { task_id: self.task_id, status: EmlTaskStatus::Completed },
        )
    }

    /// Where `event` takes the request, and what is done there. Nothing comes of an
    /// event that does not belong to the stage.
    pub open spec fn step(self, event: RequestEvent) -> Option<(RequestModel, RequestActionModel)> {
        match (self.stage, event) {
            (RequestStage::Enqueuing, RequestEvent::Refused) => Some(
                (
                    self.at(RequestStage::Done),
                    RequestActionModel::Reply { reply: Reply::Unavailable },
                ),
            ),
            (RequestStage::Enqueuing, RequestEvent::Enqueued { task_id }) => {
                let enqueued = RequestModel { task_id: task_id@, ..self };
                match self.mode {
                    RequestMode::Direct => Some(
                        (enqueued.at(RequestStage::Awaiting), RequestActionModel::AwaitResult),
                    ),
                    RequestMode::Background => Some(
                        (
                            enqueued.at(RequestStage::Accepting),
                            RequestActionModel::Reply { reply: Reply::Accepted },
                        ),
                    ),
                }
            },
            (RequestStage::Accepting, RequestEvent::Accepted) => Some(
                (self.at(RequestStage::Awaiting), RequestActionModel::AwaitResult),
            ),
            (RequestStage::Awaiting, RequestEvent::ResultLost) => Some(self.give_up()),
            (RequestStage::Awaiting, RequestEvent::RenderingFailed) => Some(self.give_up()),
            (RequestStage::Awaiting, RequestEvent::Rendered) => Some(
                (self.at(RequestStage::Encoding), RequestActionModel::Encode),
            ),
            (RequestStage::Encoding, RequestEvent::Encoded) => match self.mode {
                RequestMode::Direct => Some(self.complete()),
                RequestMode::Background => Some(
                    (
                        self.at(RequestStage::Saving),
                        RequestActionModel::Save { path: picture_path(self.task_id) },
                    ),
                ),
            },
            (RequestStage::Saving, RequestEvent::Saved) => Some(self.complete()),
            (RequestStage::Saving, RequestEvent::SavingFailed) => Some(self.give_up()),
            (RequestStage::Reporting { completed }, RequestEvent::Reported) => match self.mode {
                RequestMode::Direct => Some(
                    (
                        self.at(RequestStage::Done),
                        RequestActionModel::Reply { reply: Reply::Picture },
                    ),
                ),
                RequestMode::Background => Some(
                    (self.at(RequestStage::Done), RequestActionModel::Stop),
                ),
            },
            _ => None,
        }
    }
}

impl RenderRequest {
    /// A request whose message asks to be enqueued.
    pub fn new(mode: RequestMode) -> (request: Self)
        ensures
            request@ == RequestModel::initial(mode),
            request@.mode == mode,
            request@.stage is Enqueuing,
    {
        let request = RenderRequest {
            mode,
            stage: RequestStage::Enqueuing,
            task_id: String::new(),
        };
        assert(request@.task_id =~= RequestModel::initial(mode).task_id);
        request
    }

    /// What to do next, now that this came of what was done last.
    pub fn step(&mut self, event: RequestEvent) -> (action: Option<RequestAction>)
        ensures
            match old(self)@.step(event) {
                Some((request, next)) => {
                    &&& final(self)@ == request
                    &&& action matches Some(action) && action@ == next
                },
                None => final(self)@ == old(self)@ && action is None,
            },
            action matches Some(RequestAction::Save { path }) ==> path@ == "output/"@
                + old(self)@.task_id + ".jpg"@,
            action matches Some(RequestAction::Report { task_id, status }) ==> task_id@ == old(
                self,
            )@.task_id,
            action matches Some(done) ==> done@ == match done {
                RequestAction::Reply { reply } => RequestActionModel::Reply { reply },
                RequestAction::AwaitResult => RequestActionModel::AwaitResult,
                RequestAction::Encode => RequestActionModel::Encode,
                RequestAction::Save { path } => RequestActionModel::Save { path: path@ },
                RequestAction::Report { task_id, status } => RequestActionModel::Report {
                    task_id: task_id@,
                    status,
                },
                RequestAction::Stop => RequestActionModel::Stop,
            },
    {
        let (stage, action) = match (self.stage, event) {
            (RequestStage::Enqueuing, RequestEvent::Refused) => (
                RequestStage::Done,
                RequestAction::Reply { reply: Reply::Unavailable },
            ),
            (RequestStage::Enqueuing, RequestEvent::Enqueued { task_id }) => {
                self.task_id = task_id;
                match self.mode {
                    RequestMode::Direct => (RequestStage::Awaiting, RequestAction::AwaitResult),
                    RequestMode::Background => (
                        RequestStage::Accepting,
                        RequestAction::Reply { reply: Reply::Accepted },
                    ),
                }
            },
            (RequestStage::Accepting, RequestEvent::Accepted) => (
                RequestStage::Awaiting,
                RequestAction::AwaitResult,
            ),
            (RequestStage::Awaiting, RequestEvent::ResultLost) => self.giving_up(),
            (RequestStage::Awaiting, RequestEvent::RenderingFailed) => self.giving_up(),
            (RequestStage::Awaiting, RequestEvent::Rendered) => (
                RequestStage::Encoding,
                RequestAction::Encode,
            ),
            (RequestStage::Encoding, RequestEvent::Encoded) => match self.mode {
                RequestMode::Direct => self.completing(),
                RequestMode::Background => (
                    RequestStage::Saving,
                    RequestAction::Save { path: output_path(self.task_id.as_str()) },
                ),
            },
            (RequestStage::Saving, RequestEvent::Saved) => self.completing(),
            (RequestStage::Saving, RequestEvent::SavingFailed) => self.giving_up(),
            (RequestStage::Reporting { completed: _ }, RequestEvent::Reported) => match self.mode {
                RequestMode::Direct => (
                    RequestStage::Done,
                    RequestAction::Reply { reply: Reply::Picture },
                ),
                RequestMode::Background => (RequestStage::Done, RequestAction::Stop),
            },
            _ => return None,
        };
        self.stage = stage;
        Some(action)
    }

    fn giving_up(&self) -> (res: (RequestStage, RequestAction))
        ensures
            (self@.at(res.0), res.1@) == self@.give_up(),
    {
        match self.mode {
            RequestMode::Direct => (
                RequestStage::Done,
                RequestAction::Reply { reply: Reply::Failure },
            ),
            RequestMode::Background => (
                RequestStage::Reporting { completed: false },
                RequestAction::Report {
                    task_id: self.task_id.clone(),
                    status: EmlTaskStatus::Failed,
                },
            ),
        }
    }

    fn completing(&self) -> (res: (RequestStage, RequestAction))
        ensures
            (self@.at(res.0), res.1@) == self@.complete(),
    {
        (
            RequestStage::Reporting { completed: true },
            RequestAction::Report {
                task_id: self.task_id.clone(),
                status: EmlTaskStatus::Completed,
            },
        )
    }
}

/// The HTTP status of a reply. That of a failure is left to what failed.
pub fn status_code(reply: Reply) -> (code: Option<u16>)
    ensures
        code == match reply {
            Reply::Unavailable => Some(503u16),
            Reply::Accepted => Some(200u16),
            Reply::Picture => Some(200u16),
            Reply::Failure => None,
        },
{
    match reply {
        Reply::Unavailable => Some(503),
        Reply::Accepted | Reply::Picture => Some(200),
        Reply::Failure => None,
    }
}

/// The content type of a reply that has a body of the service's own.
pub fn content_type(reply: Reply) -> (res: Option<String>)
    ensures
        res is Some <==> reply is Picture,
        res matches Some(text) ==> text@ == "image/jpeg"@,
{
    match reply {
        Reply::Picture => Some("image/jpeg".to_owned()),
        _ => None,
    }
}

/// The directory in which pictures are saved.
pub fn output_directory() -> (res: String)
    ensures
        res@ == "output"@,
{
    "output".to_owned()
}

/// The file in which the picture of a task is saved.
pub fn output_path(task_id: &str) -> (path: String)
    ensures
        path@ == picture_path(task_id@),
        path@ == "output/"@ + task_id@ + ".jpg"@,
{
    let mut path = "output/".to_owned();
    path.append(task_id);
    path.append(".jpg");
    path
}

/// Where a new request is after `events`, and what was done for it upon them. There
/// is no answer where one of them did not belong to its stage.
pub open spec fn request_run(mode: RequestMode, events: Seq<RequestEvent>) -> Option<
    (RequestModel, Seq<RequestActionModel>),
>
    decreases events.len(),
{
    if events.len() == 0 {
        Some((RequestModel::initial(mode), Seq::empty()))
    } else {
        match request_run(mode, events.drop_last()) {
            Some((request, actions)) => match request.step(events.last()) {
                Some((next, action)) => Some((next, actions.push(action))),
                None => None,
            },
            None => None,
        }
    }
}

/// The replies among `actions`, in order.
pub open spec fn replies(actions: Seq<RequestActionModel>) -> Seq<Reply>
    decreases actions.len(),
{
    if actions.len() == 0 {
        Seq::empty()
    } else {
        match actions.last() {
            RequestActionModel::Reply { reply } => replies(actions.drop_last()).push(reply),
            _ => replies(actions.drop_last()),
        }
    }
}

/// What `actions` report, in order: the id of a task and its status.
pub open spec fn reports(actions: Seq<RequestActionModel>) -> Seq<(Seq<char>, EmlTaskStatus)>
    decreases actions.len(),
{
    if actions.len() == 0 {
        Seq::empty()
    } else {
        let before = reports(actions.drop_last());
        match actions.last() {
            RequestActionModel::Report { task_id, status } => before.push((task_id, status)),
            _ => before,
        }
    }
}

/// The files in which `actions` save pictures, in order.
pub open spec fn saves(actions: Seq<RequestActionModel>) -> Seq<Seq<char>>
    decreases actions.len(),
{
    if actions.len() == 0 {
        Seq::empty()
    } else {
        match actions.last() {
            RequestActionModel::Save { path } => saves(actions.drop_last()).push(path),
            _ => saves(actions.drop_last()),
        }
    }
}

/// Upon `events` the message of a request was enqueued under the id `task_id`.
pub open spec fn is_enqueued_as(events: Seq<RequestEvent>, task_id: Seq<char>) -> bool {
    &&& events.len() > 0
    &&& events[0] matches RequestEvent::Enqueued { task_id: id } && id@ == task_id
}

/// The last event that it takes for a request to be completed: the picture was encoded
/// for a client that waits, or saved for one that does not.
pub open spec fn completing_event(mode: RequestMode) -> RequestEvent {
    match mode {
        RequestMode::Direct => RequestEvent::Encoded,
        RequestMode::Background => RequestEvent::Saved,
    }
}

/// What was done for a request that was enqueued and has come to `request` upon
/// `events`: the replies, the reports and the files saved.
spec fn done_for(request: RequestModel, events: Seq<RequestEvent>) -> (
    Seq<Reply>,
    Seq<(Seq<char>, EmlTaskStatus)>,
    Seq<Seq<char>>,
) {
    let completed = events.contains(completing_event(request.mode));
    match request.mode {
        RequestMode::Direct => (
            if request.stage is Done {
                seq![
                    if completed {
                        Reply::Picture
                    } else {
                        Reply::Failure
                    },
                ]
            } else {
                Seq::empty()
            },
            if completed {
                seq![(request.task_id, EmlTaskStatus::Completed)]
            } else {
                Seq::empty()
            },
            Seq::empty(),
        ),
        RequestMode::Background => (
            seq![Reply::Accepted],
            if request.stage is Reporting || request.stage is Done {
                seq![
                    (
                        request.task_id,
                        if completed {
                            EmlTaskStatus::Completed
                        } else {
                            EmlTaskStatus::Failed
                        },
                    ),
                ]
            } else {
                Seq::empty()
            },
            if events.contains(RequestEvent::Encoded) {
                seq![picture_path(request.task_id)]
            } else {
                Seq::empty()
            },
        ),
    }
}

proof fn lemma_done_for(mode: RequestMode, events: Seq<RequestEvent>)
    ensures
        request_run(mode, events) matches Some((request, actions)) ==> {
            let stage = request.stage;
            &&& request.mode == mode
            &&& stage is Enqueuing <==> events.len() == 0
            &&& events.len() > 0 ==> events[0] is Refused || is_enqueued_as(
                events,
                request.task_id,
            )
            &&& events.len() > 0 && events[0] is Refused ==> stage is Done && events.len() == 1
                && actions == seq![RequestActionModel::Reply { reply: Reply::Unavailable }]
            &&& is_enqueued_as(events, request.task_id) ==> (
                replies(actions),
                reports(actions),
                saves(actions),
            ) == done_for(request, events)
            &&& events.contains(RequestEvent::Encoded) ==> !(stage is Accepting || stage
                is Awaiting || stage is Encoding)
            &&& events.contains(RequestEvent::Saved) ==> mode is Background && (stage
                is Reporting || stage is Done) && events.contains(RequestEvent::Encoded)
            &&& stage is Saving ==> mode is Background && events.contains(RequestEvent::Encoded)
            &&& stage is Accepting ==> mode is Background
            &&& stage is Reporting && mode is Direct ==> events.contains(RequestEvent::Encoded)
        },
    decreases events.len(),
{
    if events.len() > 0 {
        let before = events.drop_last();
        lemma_done_for(mode, before);
        if let Some((request, actions)) = request_run(mode, before) {
            if let Some((next, action)) = request.step(events.last()) {
                let now = actions.push(action);
                assert(now.drop_last() =~= actions);
                assert(events =~= before.push(events.last()));
                broadcast use vstd::seq_lib::lemma_seq_contains_after_push;

                if before.len() == 0 {
                    assert(now =~= seq![action]);
                    assert(replies(actions) =~= Seq::empty());
                    assert(reports(actions) =~= Seq::empty());
                    assert(saves(actions) =~= Seq::empty());
                    assert(!before.contains(RequestEvent::Encoded));
                    assert(!before.contains(RequestEvent::Saved));
                } else {
                    assert(before[0] == events[0]);
                }
                if is_enqueued_as(events, next.task_id) {
                    assert(replies(now) =~= done_for(next, events).0);
                    assert(reports(now) =~= done_for(next, events).1);
                    assert(saves(now) =~= done_for(next, events).2);
                }
            }
        }
    } else {
        assert(!events.contains(RequestEvent::Encoded));
        assert(!events.contains(RequestEvent::Saved));
    }
}

/// A refused request is answered that the service is unavailable, and nothing else
/// is done for it, then or later.
pub proof fn law_refused_request_is_answered_at_once(
    mode: RequestMode,
    events: Seq<RequestEvent>,
)
    requires
        events.len() > 0,
        events[0] is Refused,
    ensures
        request_run(mode, events) matches Some((request, actions)) ==> {
            &&& request.stage is Done
            &&& actions == seq![RequestActionModel::Reply { reply: Reply::Unavailable }]
        },
        request_run(mode, events) is Some <==> events.len() == 1,
{
    lemma_done_for(mode, events);
    if events.len() == 1 {
        assert(request_run(mode, events.drop_last()) == Some(
            (RequestModel::initial(mode), Seq::<RequestActionModel>::empty()),
        ));
    }
}

/// No client is replied to twice. A client that waits has its reply when the request
/// is done: the picture where one was encoded, else the reason why there is none.
/// One that does not wait has its reply as soon as its message was enqueued.
pub proof fn law_every_client_is_replied_to_once(
    mode: RequestMode,
    events: Seq<RequestEvent>,
    task_id: Seq<char>,
)
    requires
        request_run(mode, events) is Some,
        is_enqueued_as(events, task_id),
    ensures
        request_run(mode, events) matches Some((request, actions)) ==> {
            replies(actions) == match mode {
                RequestMode::Direct => if request.stage is Done {
                    seq![
                        if events.contains(RequestEvent::Encoded) {
                            Reply::Picture
                        } else {
                            Reply::Failure
                        },
                    ]
                } else {
                    Seq::empty()
                },
                RequestMode::Background => seq![Reply::Accepted],
            }
        },
{
    lemma_done_for(mode, events);
}

/// A task is reported to be completed exactly where its picture was encoded for a
/// client that waits, or saved for one that does not. Only in the latter case is its
/// failure reported here, and then either one or the other is, once. Every report is
/// made under the id under which the message was enqueued.
pub proof fn law_completion_is_reported_once(
    mode: RequestMode,
    events: Seq<RequestEvent>,
    task_id: Seq<char>,
)
    requires
        request_run(mode, events) is Some,
        is_enqueued_as(events, task_id),
    ensures
        request_run(mode, events) matches Some((request, actions)) ==> {
            reports(actions) == match mode {
                RequestMode::Direct => if events.contains(RequestEvent::Encoded) {
                    seq![(task_id, EmlTaskStatus::Completed)]
                } else {
                    Seq::empty()
                },
                RequestMode::Background => if request.stage is Reporting || request.stage is Done {
                    seq![
                        (
                            task_id,
                            if events.contains(RequestEvent::Saved) {
                                EmlTaskStatus::Completed
                            } else {
                                EmlTaskStatus::Failed
                            },
                        ),
                    ]
                } else {
                    Seq::empty()
                },
            }
        },
        events.contains(RequestEvent::Saved) ==> events.contains(RequestEvent::Encoded),
{
    lemma_done_for(mode, events);
}

/// A picture is saved only for a client that does not wait, once it was encoded, and in
/// the file that is named after the id of the task: `output/`, the id, and `.jpg`.
pub proof fn law_picture_is_saved_under_its_task(
    mode: RequestMode,
    events: Seq<RequestEvent>,
    task_id: Seq<char>,
)
    requires
        request_run(mode, events) is Some,
        is_enqueued_as(events, task_id),
    ensures
        request_run(mode, events) matches Some((request, actions)) ==> {
            saves(actions) == if mode is Background && events.contains(RequestEvent::Encoded) {
                seq!["output/"@ + task_id + ".jpg"@]
            } else {
                Seq::empty()
            }
        },
{
    lemma_done_for(mode, events);
}

/// The file of a picture tells whose it is: its name is the id of the task, between
/// `output/` and `.jpg`. So different tasks have different files, and none overwrites
/// that of another.
pub proof fn law_every_task_has_a_file_of_its_own(task_id: Seq<char>, other: Seq<char>)
    ensures
        picture_path(task_id).len() == task_id.len() + 11,
        picture_path(task_id).subrange(0, 7) == seq!['o', 'u', 't', 'p', 'u', 't', '/'],
        picture_path(task_id).subrange(7, 7 + task_id.len() as int) == task_id,
        picture_path(task_id).skip(7 + task_id.len() as int) == seq!['.', 'j', 'p', 'g'],
        picture_path(task_id) == picture_path(other) ==> task_id == other,
{
    reveal_strlit("output/");
    reveal_strlit(".jpg");
    let path = picture_path(task_id);
    assert(path.subrange(0, 7) =~= seq!['o', 'u', 't', 'p', 'u', 't', '/']);
    assert(path.subrange(7, 7 + task_id.len() as int) =~= task_id);
    assert(path.skip(7 + task_id.len() as int) =~= seq!['.', 'j', 'p', 'g']);
    assert(picture_path(other).subrange(7, 7 + other.len() as int) =~= other);
}

/// What is done for a request follows from what happened and from how its picture was
/// asked for. A client that waits is replied to at the end, one that does not as soon as
/// its message was enqueued. The id of the task is the one under which it was enqueued,
/// for good.
pub proof fn law_what_is_done_follows_from_what_happened(
    request: RequestModel,
    event: RequestEvent,
)
    ensures
        request.step(event) matches Some((next, action)) ==> {
            let waits = request.mode is Direct;
            let gave_up = event is ResultLost || event is RenderingFailed || event is SavingFailed;
            let delivered = event is Saved || (event is Encoded && waits);
            &&& next.mode == request.mode
            &&& next.task_id == if event is Enqueued {
                event->task_id@
            } else {
                request.task_id
            }
            &&& match action {
                RequestActionModel::Reply { reply } => match reply {
                    Reply::Unavailable => event is Refused,
                    Reply::Accepted => event is Enqueued && !waits,
                    Reply::Picture => event is Reported && waits,
                    Reply::Failure => gave_up && waits,
                },
                RequestActionModel::AwaitResult => event is Accepted || (event is Enqueued
                    && waits),
                RequestActionModel::Encode => event is Rendered,
                RequestActionModel::Save { path } => {
                    &&& event is Encoded
                    &&& !waits
                    &&& path == "output/"@ + request.task_id + ".jpg"@
                },
                RequestActionModel::Report { task_id, status } => {
                    &&& task_id == request.task_id
                    &&& delivered || (gave_up && !waits)
                    &&& status == if delivered {
                        EmlTaskStatus::Completed
                    } else {
                        EmlTaskStatus::Failed
                    }
                },
                RequestActionModel::Stop => event is Reported && !waits,
            }
        },
{
}

/// A request goes on with whatever can come of what is being done for it, and with
/// nothing else, until it is done. What is being done for it is what it was last told to
/// do.
pub proof fn law_request_goes_on_until_it_is_done(request: RequestModel, event: RequestEvent)
    ensures
        request.step(event) is Some <==> match event {
            RequestEvent::Refused | RequestEvent::Enqueued { .. } => request.stage is Enqueuing,
            RequestEvent::Accepted => request.stage is Accepting,
            RequestEvent::ResultLost
            | RequestEvent::RenderingFailed
            | RequestEvent::Rendered => request.stage is Awaiting,
            RequestEvent::Encoded => request.stage is Encoding,
            RequestEvent::Saved | RequestEvent::SavingFailed => request.stage is Saving,
            RequestEvent::Reported => request.stage is Reporting,
        },
        request.step(event) matches Some((next, action)) ==> match action {
            RequestActionModel::Reply { reply } => if reply is Accepted {
                next.stage is Accepting
            } else {
                next.stage is Done
            },
            RequestActionModel::AwaitResult => next.stage is Awaiting,
            RequestActionModel::Encode => next.stage is Encoding,
            RequestActionModel::Save { path } => next.stage is Saving,
            RequestActionModel::Report { task_id, status } => next.stage is Reporting,
            RequestActionModel::Stop => next.stage is Done,
        },
{
}

} // verus!
