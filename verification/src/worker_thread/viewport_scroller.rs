use vstd::prelude::*;

verus! {

/// How long a scroll may take, in milliseconds, before the thread that waits for
/// its end gives up.
pub const WAIT_LIMIT_MS: u64 = 10_000;

/// What the thread that sends scrolls and the thread that hears of their end share:
/// whether the former is waiting. Both hold it under one lock, and the waiting
/// thread blocks on a condition variable of that lock.
#[derive(Clone, Copy, Debug, PartialEq, Eq, Structural)]
pub struct SyncChannel {
    is_waiting: bool,
}

/// Why a waiting thread asks what to do.
#[derive(Clone, Copy, Debug, PartialEq, Eq, Structural)]
pub enum WaitEvent {
    /// It has sent a scroll and begins to wait.
    Begin,
    /// It was blocked and woke up, this long after it began to wait. It may have
    /// been notified, or have slept for as long as it was told to, or neither.
    Woken { elapsed_ms: u64 },
}

/// What a waiting thread does next.
#[derive(Clone, Copy, Debug, PartialEq, Eq, Structural)]
pub enum WaitStep {
    /// Block until notified, but no longer than this.
    Block { at_most_ms: u64 },
    /// Go on. The wait has timed out if nobody notified within the limit.
    Done { timed_out: bool },
}

/// What happens to a channel: its waiting thread asks what to do, or the end of a
/// scroll is reported.
pub enum ChannelEvent {
    Wait(WaitEvent),
    Notify,
}

/// Whether a thread waits after `event`, given whether one did before.
pub open spec fn waits_after(waiting: bool, event: ChannelEvent) -> bool {
    match event {
        ChannelEvent::Wait(WaitEvent::Begin) => true,
        ChannelEvent::Wait(WaitEvent::Woken { elapsed_ms }) => waiting,
        ChannelEvent::Notify => false,
    }
}

/// What a thread does upon `event`, given whether it still waits: a wait is over
/// once the end of the scroll was reported, and is given up at the limit.
pub open spec fn step_upon(waiting: bool, event: WaitEvent) -> WaitStep {
    match event {
        WaitEvent::Begin => WaitStep::Block { at_most_ms: WAIT_LIMIT_MS },
        WaitEvent::Woken { elapsed_ms } => if !waiting {
            WaitStep::Done { timed_out: false }
        } else if elapsed_ms >= WAIT_LIMIT_MS {
            WaitStep::Done { timed_out: true }
        } else {
            WaitStep::Block { at_most_ms: (WAIT_LIMIT_MS - elapsed_ms) as u64 }
        },
    }
}

impl SyncChannel {
    /// Whether a thread is waiting for the end of a scroll.
    pub closed spec fn waiting(self) -> bool {
        self.is_waiting
    }

    /// A channel on which nobody waits.
    pub fn new() -> (channel: Self)
        ensures
            !channel.waiting(),
    {
        SyncChannel { is_waiting: false }
    }

    /// Begins a wait, or decides how one goes on after the thread woke up.
    pub fn wait(&mut self, event: WaitEvent) -> (step: WaitStep)
        ensures
            final(self).waiting() == waits_after(old(self).waiting(), ChannelEvent::Wait(event)),
            step == step_upon(old(self).waiting(), event),
            final(self).waiting() <==> event is Begin || old(self).waiting(),
            event is Begin ==> step == (WaitStep::Block { at_most_ms: 10_000 }),
            event matches WaitEvent::Woken { elapsed_ms } ==> match step {
                WaitStep::Block { at_most_ms } => {
                    &&& old(self).waiting()
                    &&& at_most_ms > 0
                    &&& elapsed_ms + at_most_ms == 10_000
                },
                WaitStep::Done { timed_out } => {
                    &&& timed_out == old(self).waiting()
                    &&& timed_out ==> elapsed_ms >= 10_000
                },
            },
    {
        match event {
            WaitEvent::Begin => {
                self.is_waiting = true;
                WaitStep::Block { at_most_ms: WAIT_LIMIT_MS }
            },
            WaitEvent::Woken { elapsed_ms } => {
                if !self.is_waiting {
                    WaitStep::Done { timed_out: false }
                } else if elapsed_ms >= WAIT_LIMIT_MS {
                    WaitStep::Done { timed_out: true }
                } else {
                    WaitStep::Block { at_most_ms: WAIT_LIMIT_MS - elapsed_ms }
                }
            },
        }
    }

    /// Reports the end of a scroll: nobody has to wait any more.
    pub fn notify(&mut self)
        ensures
            final(self).waiting() == waits_after(old(self).waiting(), ChannelEvent::Notify),
            !final(self).waiting(),
    {
        self.is_waiting = false;
    }
}

/// Whether a thread waits on a new channel after `events`.
pub open spec fn waits_after_all(events: Seq<ChannelEvent>) -> bool
    decreases events.len(),
{
    if events.len() == 0 {
        false
    } else {
        waits_after(waits_after_all(events.drop_last()), events.last())
    }
}

/// At `i` a wait begins, and no end of a scroll is reported from then on.
pub open spec fn begins_unanswered(events: Seq<ChannelEvent>, i: int) -> bool {
    &&& 0 <= i < events.len()
    &&& events[i] == ChannelEvent::Wait(WaitEvent::Begin)
    &&& forall|j: int| i < j < events.len() ==> !(#[trigger] events[j] is Notify)
}

/// A thread counts as waiting exactly where it began to wait and no end of a scroll
/// was reported since. A report that comes before the wait begins is lost.
pub proof fn law_waiting_until_notified(events: Seq<ChannelEvent>)
    ensures
        waits_after_all(events) <==> exists|i: int| #[trigger] begins_unanswered(events, i),
    decreases events.len(),
{
    if events.len() > 0 {
        let before = events.drop_last();
        law_waiting_until_notified(before);
        if waits_after_all(events) {
            if events.last() == ChannelEvent::Wait(WaitEvent::Begin) {
                assert(begins_unanswered(events, events.len() - 1));
            } else {
                let i = choose|i: int| #[trigger] begins_unanswered(before, i);
                assert forall|j: int| i < j < events.len() implies !(#[trigger] events[j]
                    is Notify) by {
                    if j < before.len() {
                        assert(before[j] == events[j]);
                    }
                }
                assert(begins_unanswered(events, i));
            }
        }
        if exists|i: int| #[trigger] begins_unanswered(events, i) {
            let i = choose|i: int| #[trigger] begins_unanswered(events, i);
            assert(!(events[events.len() - 1] is Notify));
            if i < events.len() - 1 {
                assert forall|j: int| i < j < before.len() implies !(#[trigger] before[j]
                    is Notify) by {
                    assert(before[j] == events[j]);
                }
                assert(begins_unanswered(before, i));
            }
        }
    }
}

/// A wait goes on until the end of the scroll is reported, however often the thread wakes
/// up in between, and is over at once after that: what the thread does next does not
/// depend on anything before the wait began.
pub proof fn law_report_ends_the_wait(waiting: bool, elapsed_ms: u64, later_ms: u64)
    ensures
        ({
            let begun = waits_after(waiting, ChannelEvent::Wait(WaitEvent::Begin));
            let woken = waits_after(begun, ChannelEvent::Wait(WaitEvent::Woken { elapsed_ms }));
            let reported = waits_after(woken, ChannelEvent::Notify);
            &&& begun && woken && !reported
            &&& step_upon(waiting, WaitEvent::Begin) == (WaitStep::Block { at_most_ms: 10_000 })
            &&& elapsed_ms < 10_000 ==> step_upon(begun, WaitEvent::Woken { elapsed_ms }) == (
            WaitStep::Block { at_most_ms: (10_000 - elapsed_ms) as u64 })
            &&& elapsed_ms >= 10_000 ==> step_upon(begun, WaitEvent::Woken { elapsed_ms }) == (
            WaitStep::Done { timed_out: true })
            &&& step_upon(reported, WaitEvent::Woken { elapsed_ms: later_ms }) == (WaitStep::Done {
                timed_out: false,
            })
        }),
{
}

/// A wait ends: a thread that wakes up at the limit or later goes on in any case,
/// and one that wakes up earlier is never told to block beyond the limit. It has
/// timed out exactly where it still counts as waiting at the limit.
pub proof fn law_wait_ends_at_the_limit(waiting: bool, elapsed_ms: u64)
    ensures
        match step_upon(waiting, WaitEvent::Woken { elapsed_ms }) {
            WaitStep::Done { timed_out } => {
                &&& timed_out <==> waiting
                &&& timed_out ==> elapsed_ms >= WAIT_LIMIT_MS
            },
            WaitStep::Block { at_most_ms } => {
                &&& waiting
                &&& elapsed_ms < WAIT_LIMIT_MS
                &&& elapsed_ms + at_most_ms == WAIT_LIMIT_MS
            },
        },
{
}

} // verus!
