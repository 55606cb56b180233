use vstd::prelude::*;

verus! {

/// What the socket of a subscriber is at.
#[derive(Clone, Copy, Debug, PartialEq, Eq, Structural)]
pub enum SocketStage {
    /// The next update is awaited.
    Receiving,
    /// An update is being sent.
    Sending,
    /// The reason why there are no more updates is being sent.
    SayingWhy,
    Closed,
}

/// What comes of what the socket is at.
pub enum SocketEvent {
    /// An update came, with its text where it could be written as one.
    Update { text: Option<String> },
    /// There are no more updates, for this reason.
    UpdatesLost { reason: String },
    /// The text was sent, or failed to be.
    SendingEnded { succeeded: bool },
}

/// What is done next with the socket.
pub enum SocketAction {
    Receive,
    Send { text: String },
    Close,
}

/// The socket of one subscriber to the updates.
pub struct LiveQueueSocket {
    stage: SocketStage,
}

/// What a `SocketAction` stands for.
pub enum ActionModel {
    Receive,
    Send { text: Seq<char> },
    Close,
}

impl View for SocketAction {
    type V = ActionModel;

    open spec fn view(&self) -> ActionModel {
        match self {
            SocketAction::Receive => ActionModel::Receive,
            SocketAction::Send { text } => ActionModel::Send { text: text@ },
            SocketAction::Close => ActionModel::Close,
        }
    }
}

/// The text that is sent for an update, given its own where there is one.
pub open spec fn update_text(text: Option<String>) -> Seq<char> {
    match text {
        Some(text) => text@,
        None => "failed to serialize event"@,
    }
}

/// Where `event` takes a socket, and what is done there. Nothing comes of an event
/// that does not belong to the stage.
pub open spec fn socket_step(stage: SocketStage, event: SocketEvent) -> Option<
    (SocketStage, ActionModel),
> {
    match (stage, event) {
        (SocketStage::Receiving, SocketEvent::Update { text }) => Some(
            (SocketStage::Sending, ActionModel::Send { text: update_text(text) }),
        ),
        (SocketStage::Receiving, SocketEvent::UpdatesLost { reason }) => Some(
            (SocketStage::SayingWhy, ActionModel::Send { text: "error: "@ + reason@ }),
        ),
        (SocketStage::Sending, SocketEvent::SendingEnded { succeeded }) => if succeeded {
            Some((SocketStage::Receiving, ActionModel::Receive))
        } else {
            Some((SocketStage::Closed, ActionModel::Close))
        },
        (SocketStage::SayingWhy, SocketEvent::SendingEnded { succeeded }) => Some(
            (SocketStage::Closed, ActionModel::Close),
        ),
        _ => None,
    }
}

impl LiveQueueSocket {
    pub closed spec fn stage(self) -> SocketStage {
        self.stage
    }

    /// A socket whose first update is awaited.
    pub fn new() -> (socket: Self)
        ensures
            socket.stage() == SocketStage::Receiving,
    {
        LiveQueueSocket { stage: SocketStage::Receiving }
    }

    /// What to do next, now that this came of what was done last.
    pub fn step(&mut self, event: SocketEvent) -> (action: Option<SocketAction>)
        ensures
            match socket_step(old(self).stage(), event) {
                Some((stage, next)) => {
                    &&& final(self).stage() == stage
                    &&& action matches Some(action) && action@ == next
                },
                None => final(self).stage() == old(self).stage() && action is None,
            },
            old(self).stage() is Receiving ==> match event {
                SocketEvent::Update { text: Some(text) } => {
                    &&& final(self).stage() is Sending
                    &&& action matches Some(SocketAction::Send { text: sent }) && sent@ == text@
                },
                SocketEvent::Update { text: None } => {
                    &&& final(self).stage() is Sending
                    &&& action matches Some(SocketAction::Send { text: sent }) && sent@
                        == "failed to serialize event"@
                },
                SocketEvent::UpdatesLost { reason } => {
                    &&& final(self).stage() is SayingWhy
                    &&& action matches Some(SocketAction::Send { text: sent }) && sent@
                        == "error: "@ + reason@
                },
                SocketEvent::SendingEnded { .. } => action is None,
            },
            old(self).stage() is Sending && event is SendingEnded ==> if event->succeeded {
                final(self).stage() is Receiving && action matches Some(SocketAction::Receive)
            } else {
                final(self).stage() is Closed && action matches Some(SocketAction::Close)
            },
            old(self).stage() is SayingWhy && event is SendingEnded ==> final(self).stage()
                is Closed && action matches Some(SocketAction::Close),
            old(self).stage() is Closed ==> action is None,
            old(self).stage() !is Receiving && event !is SendingEnded ==> action is None,
            action is None ==> final(self).stage() == old(self).stage(),
    {
        let (stage, action) = match (self.stage, event) {
            (SocketStage::Receiving, SocketEvent::Update { text }) => {
                let text = match text {
                    Some(text) => text,
                    None => "failed to serialize event".to_owned(),
                };
                (SocketStage::Sending, SocketAction::Send { text })
            },
            (SocketStage::Receiving, SocketEvent::UpdatesLost { reason }) => {
                let mut text = "error: ".to_owned();
                text.append(reason.as_str());
                (SocketStage::SayingWhy, SocketAction::Send { text })
            },
            (SocketStage::Sending, SocketEvent::SendingEnded { succeeded }) => if succeeded {
                (SocketStage::Receiving, SocketAction::Receive)
            } else {
                (SocketStage::Closed, SocketAction::Close)
            },
            (SocketStage::SayingWhy, SocketEvent::SendingEnded { succeeded: _ }) => (
                SocketStage::Closed,
                SocketAction::Close,
            ),
            _ => return None,
        };
        self.stage = stage;
        Some(action)
    }
}

/// Where a new socket is after `events`, and what was done with it upon them. There
/// is no answer where one of them did not belong to its stage.
pub open spec fn socket_run(events: Seq<SocketEvent>) -> Option<(SocketStage, Seq<ActionModel>)>
    decreases events.len(),
{
    if events.len() == 0 {
        Some((SocketStage::Receiving, Seq::empty()))
    } else {
        match socket_run(events.drop_last()) {
            Some((stage, actions)) => match socket_step(stage, events.last()) {
                Some((next, action)) => Some((next, actions.push(action))),
                None => None,
            },
            None => None,
        }
    }
}

/// The texts among `actions`, in order.
pub open spec fn texts_sent(actions: Seq<ActionModel>) -> Seq<Seq<char>>
    decreases actions.len(),
{
    if actions.len() == 0 {
        Seq::empty()
    } else {
        match actions.last() {
            ActionModel::Send { text } => texts_sent(actions.drop_last()).push(text),
            _ => texts_sent(actions.drop_last()),
        }
    }
}

/// The texts of what came among `events`, in order: those of the updates, and of the
/// reason why there are no more.
pub open spec fn texts_owed(events: Seq<SocketEvent>) -> Seq<Seq<char>>
    decreases events.len(),
{
    if events.len() == 0 {
        Seq::empty()
    } else {
        let before = texts_owed(events.drop_last());
        match events.last() {
            SocketEvent::Update { text } => before.push(update_text(text)),
            SocketEvent::UpdatesLost { reason } => before.push("error: "@ + reason@),
            SocketEvent::SendingEnded { succeeded } => before,
        }
    }
}

/// A subscriber is sent every update that comes, in order and once, and at the end
/// the reason why there are no more.
pub proof fn law_every_update_is_sent_in_order(events: Seq<SocketEvent>)
    ensures
        socket_run(events) matches Some((stage, actions)) ==> texts_sent(actions) == texts_owed(
            events,
        ),
    decreases events.len(),
{
    if events.len() > 0 {
        law_every_update_is_sent_in_order(events.drop_last());
        if let Some((stage, actions)) = socket_run(events.drop_last()) {
            if let Some((next, action)) = socket_step(stage, events.last()) {
                assert(actions.push(action).drop_last() =~= actions);
            }
        }
    }
}

/// What is sent for an update is its text, character by character, whatever it is and
/// whatever came before; only an update that has none is replaced by a remark. What is
/// sent where there are no more updates is the reason. Nothing else is ever sent.
pub proof fn law_texts_are_sent_as_they_came(events: Seq<SocketEvent>, i: int)
    requires
        socket_run(events) is Some,
        0 <= i < events.len(),
    ensures
        socket_run(events) matches Some((stage, actions)) ==> {
            &&& actions.len() == events.len()
            &&& match events[i] {
                SocketEvent::Update { text: Some(text) } => actions[i] matches ActionModel::Send {
                    text: sent,
                } && sent.len() == text@.len() && forall|k: int|
                    0 <= k < text@.len() ==> #[trigger] sent[k] == text@[k],
                SocketEvent::Update { text: None } => actions[i] == (ActionModel::Send {
                    text: "failed to serialize event"@,
                }),
                SocketEvent::UpdatesLost { reason } => actions[i] == (ActionModel::Send {
                    text: "error: "@ + reason@,
                }),
                SocketEvent::SendingEnded { .. } => actions[i] !is Send,
            }
        },
    decreases events.len(),
{
    let before = events.drop_last();
    if i < before.len() {
        law_texts_are_sent_as_they_came(before, i);
    } else if before.len() > 0 {
        law_texts_are_sent_as_they_came(before, 0);
    }
    assert(i < before.len() ==> before[i] == events[i]);
}

/// A subscriber can be served for as long as sending succeeds: every update that comes
/// when the last text was sent is taken, and so is the end of every sending.
pub proof fn law_no_update_is_turned_away(stage: SocketStage, event: SocketEvent)
    ensures
        socket_step(stage, event) is Some <==> match event {
            SocketEvent::SendingEnded { .. } => stage is Sending || stage is SayingWhy,
            _ => stage is Receiving,
        },
        stage is Sending ==> socket_step(
            stage,
            SocketEvent::SendingEnded { succeeded: true },
        ) == Some((SocketStage::Receiving, ActionModel::Receive)),
{
}

/// A socket is closed exactly when a text fails to be sent, or once the reason why
/// there are no more updates was sent, and nothing is done with it after that.
pub proof fn law_socket_closes_once(stage: SocketStage, event: SocketEvent)
    ensures
        socket_step(stage, event) matches Some((next, action)) ==> {
            &&& next is Closed <==> action is Close
            &&& next is Closed <==> event is SendingEnded && (stage is SayingWhy || !(event
                matches SocketEvent::SendingEnded { succeeded } && succeeded))
        },
        socket_step(SocketStage::Closed, event) is None,
{
}

} // verus!
