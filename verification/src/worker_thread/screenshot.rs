use crate::worker_thread::screenshot_laws::{law_shots_in_numbers, law_some_shot_follows};
use vstd::prelude::*;

verus! {

/// The height of the strip at the bottom of the viewport that may be covered by a
/// scroll bar or cut through a line, and is left to the next capture.
pub const BOTTOM_MARGIN: i32 = 32;

/// How many captures are taken of one message at most.
pub const MAX_SCREENSHOTS: u32 = 20;

/// A rectangle on the screen.
#[derive(Clone, Copy, Debug, PartialEq, Eq, Structural)]
pub struct Rect {
    pub left: i32,
    pub top: i32,
    pub right: i32,
    pub bottom: i32,
}

/// Where the document is shown, as seen from the corner of its window.
#[derive(Clone, Copy, Debug, PartialEq, Eq, Structural)]
pub struct Viewport {
    pub left: i32,
    pub top: i32,
    pub width: i32,
    pub height: i32,
}

/// A part of the window that is captured.
#[derive(Clone, Copy, Debug, PartialEq, Eq, Structural)]
pub struct Region {
    pub x: i32,
    pub y: i32,
    pub width: i32,
    pub height: i32,
}

/// How the share of the document that is in view compares to all of it.
#[derive(Clone, Copy, Debug, PartialEq, Eq, Structural)]
pub enum ViewSize {
    /// Less than all.
    Partial,
    /// Exactly all.
    Whole,
    /// Neither, as some documents report it.
    Other,
}

/// A capture that follows a scroll: to `scroll_top` out of `max_scroll_top`, then
/// the capture of `region`.
#[derive(Clone, Copy, Debug, PartialEq, Eq, Structural)]
pub struct Shot {
    pub scroll_top: i32,
    pub max_scroll_top: i32,
    pub region: Region,
    pub is_last: bool,
}

/// The captures that follow the first one.
pub struct ScrollPlan {
    pub shots: Vec<Shot>,
    /// The plan stops short of the end of the document, because no more captures
    /// are allowed.
    pub limit_reached: bool,
}

/// `n` is an `i32`.
pub open spec fn fits(n: int) -> bool {
    i32::MIN <= n <= i32::MAX
}

/// The differences of which a viewport is made are all `i32`.
pub open spec fn viewport_in_range(window: Rect, document: Rect) -> bool {
    &&& fits(document.top - window.top)
    &&& fits(document.bottom - window.top)
    &&& fits(document.bottom - document.top)
    &&& fits(document.left - window.left)
    &&& fits(document.right - window.left)
    &&& fits(document.right - document.left)
}

/// Whether the viewport of `document` within `window` can be computed.
pub fn viewport_fits(window: &Rect, document: &Rect) -> (res: bool)
    ensures
        res == viewport_in_range(*window, *document),
        res <==> {
            let ok = |n: int| -0x8000_0000 <= n < 0x8000_0000;
            &&& ok(document.top - window.top)
            &&& ok(document.bottom - window.top)
            &&& ok(document.bottom - document.top)
            &&& ok(document.left - window.left)
            &&& ok(document.right - window.left)
            &&& ok(document.right - document.left)
        },
{
    fit(document.top as i64 - window.top as i64)
        && fit(document.bottom as i64 - window.top as i64)
        && fit(document.bottom as i64 - document.top as i64)
        && fit(document.left as i64 - window.left as i64)
        && fit(document.right as i64 - window.left as i64)
        && fit(document.right as i64 - document.left as i64)
}

fn fit(n: i64) -> (res: bool)
    ensures
        res == fits(n as int),
{
    i32::MIN as i64 <= n && n <= i32::MAX as i64
}

impl Viewport {
    /// The place of `document` within `window`, both given by their place on the
    /// screen.
    pub fn within(window: &Rect, document: &Rect) -> (viewport: Viewport)
        requires
            viewport_in_range(*window, *document),
        ensures
            viewport.left == document.left - window.left,
            viewport.top == document.top - window.top,
            viewport.width == document.right - document.left,
            viewport.height == document.bottom - document.top,
    {
        let top: i32 = document.top - window.top;
        let bottom: i32 = document.bottom - window.top;
        let left: i32 = document.left - window.left;
        let right: i32 = document.right - window.left;
        Viewport { left, top, width: right - left, height: bottom - top }
    }
}

/// The strip at the bottom that the first capture leaves out.
pub open spec fn first_margin(viewport: Viewport, document_height: int) -> int {
    if document_height > viewport.height {
        BOTTOM_MARGIN as int
    } else {
        0
    }
}

/// Whether the first region can be computed.
pub fn first_region_fits(viewport: &Viewport, document_height: i32) -> (res: bool)
    ensures
        res == fits(viewport.height - first_margin(*viewport, document_height as int)),
        res <==> document_height <= viewport.height || viewport.height - 32 >= -0x8000_0000,
{
    document_height <= viewport.height || viewport.height >= i32::MIN + BOTTOM_MARGIN
}

/// What is captured first, before any scroll: the viewport, without the strip at
/// its bottom where the document goes on below.
pub fn first_region(viewport: &Viewport, document_height: i32) -> (region: Region)
    requires
        fits(viewport.height - first_margin(*viewport, document_height as int)),
    ensures
        region.x == viewport.left,
        region.y == viewport.top,
        region.width == viewport.width,
        region.height == viewport.height - first_margin(*viewport, document_height as int),
        document_height <= viewport.height ==> region.height == viewport.height,
        document_height > viewport.height ==> region.height == viewport.height - 32,
{
    let bottom_margin: i32 = if document_height > viewport.height {
        BOTTOM_MARGIN
    } else {
        0
    };
    Region {
        x: viewport.left,
        y: viewport.top,
        width: viewport.width,
        height: viewport.height - bottom_margin,
    }
}

/// Whether the document has to be scrolled back to its top before the first
/// capture.
pub fn needs_rewind(view: ViewSize, is_scrolled: bool) -> (res: bool)
    ensures
        res == (is_scrolled && view is Partial),
{
    is_scrolled && matches!(view, ViewSize::Partial)
}

/// Which of the `count` windows that were found is the one to use: the last one.
pub fn choose_outer_window(count: usize) -> (index: Option<usize>)
    ensures
        index == if count == 0 {
            None::<usize>
        } else {
            Some((count - 1) as usize)
        },
{
    if count == 0 {
        None
    } else {
        Some(count - 1)
    }
}

/// What a `Shot` stands for.
pub struct ShotModel {
    pub scroll_top: int,
    pub max_scroll_top: int,
    pub x: int,
    pub y: int,
    pub width: int,
    pub height: int,
    pub is_last: bool,
}

impl View for Shot {
    type V = ShotModel;

    open spec fn view(&self) -> ShotModel {
        ShotModel {
            scroll_top: self.scroll_top as int,
            max_scroll_top: self.max_scroll_top as int,
            x: self.region.x as int,
            y: self.region.y as int,
            width: self.region.width as int,
            height: self.region.height as int,
            is_last: self.is_last,
        }
    }
}

/// How far the document can be scrolled.
pub open spec fn scroll_range(viewport: Viewport, document_height: int) -> int {
    document_height - viewport.height
}

/// How far one scroll goes: all of the viewport but the strip at its bottom.
pub open spec fn scroll_increment(viewport: Viewport) -> int {
    viewport.height - BOTTOM_MARGIN
}

/// Where the scroll that follows the one to `top` goes: one increment further, but
/// no further than the document can be scrolled.
pub open spec fn next_scroll_top(viewport: Viewport, document_height: int, top: int) -> int {
    let aim = top + scroll_increment(viewport);
    let max = scroll_range(viewport, document_height);
    if aim < max {
        aim
    } else {
        max
    }
}

/// The capture that follows the one taken at `top`. It leaves out what that one
/// already shows, and the strip at the bottom unless it is the last one. It is the
/// last one where the scroll goes all the way, as every scroll does in a document
/// that is lower than the viewport.
pub open spec fn shot_after(viewport: Viewport, document_height: int, top: int) -> ShotModel {
    let max = scroll_range(viewport, document_height);
    let next = next_scroll_top(viewport, document_height, top);
    let overlap = scroll_increment(viewport) - (next - top);
    let is_last = max < 0 || next >= max;
    ShotModel {
        scroll_top: next,
        max_scroll_top: max,
        x: viewport.left as int,
        y: viewport.top + overlap,
        width: viewport.width as int,
        height: viewport.height - overlap - if is_last {
            0
        } else {
            BOTTOM_MARGIN as int
        },
        is_last,
    }
}

/// The captures that follow the one taken at `top`, which was the `taken`th: up to
/// the one that is the last, or until no more are allowed.
pub open spec fn shots_after(
    viewport: Viewport,
    document_height: int,
    top: int,
    taken: int,
) -> Seq<ShotModel>
    decreases MAX_SCREENSHOTS - taken,
{
    if taken >= MAX_SCREENSHOTS {
        Seq::empty()
    } else {
        let shot = shot_after(viewport, document_height, top);
        if shot.is_last {
            seq![shot]
        } else {
            seq![shot] + shots_after(viewport, document_height, shot.scroll_top, taken + 1)
        }
    }
}

/// The numbers of which the capture that follows the one at `top` is made are all
/// `i32`.
pub open spec fn shot_in_range(viewport: Viewport, document_height: int, top: int) -> bool {
    let shot = shot_after(viewport, document_height, top);
    let overlap = scroll_increment(viewport) - (shot.scroll_top - top);
    &&& fits(scroll_increment(viewport))
    &&& fits(top + scroll_increment(viewport))
    &&& fits(shot.scroll_top - top)
    &&& fits(overlap)
    &&& fits(viewport.top + overlap)
    &&& fits(viewport.height - overlap)
    &&& fits(shot.height)
}

/// The same of all captures that follow the one at `top`, which was the `taken`th.
pub open spec fn shots_in_range(
    viewport: Viewport,
    document_height: int,
    top: int,
    taken: int,
) -> bool
    decreases MAX_SCREENSHOTS - taken,
{
    if taken >= MAX_SCREENSHOTS {
        true
    } else {
        let shot = shot_after(viewport, document_height, top);
        &&& shot_in_range(viewport, document_height, top)
        &&& shot.is_last || shots_in_range(viewport, document_height, shot.scroll_top, taken + 1)
    }
}

/// The first capture shows all there is to see: the whole document is in view, or
/// it is at its end already.
pub open spec fn is_done_at_once(view: ViewSize, is_at_end: bool) -> bool {
    view is Whole || is_at_end
}

/// The numbers of which a plan is made are all `i32`.
pub open spec fn plan_in_range(
    viewport: Viewport,
    document_height: int,
    view: ViewSize,
    is_at_end: bool,
) -> bool {
    &&& fits(scroll_range(viewport, document_height))
    &&& is_done_at_once(view, is_at_end) || shots_in_range(viewport, document_height, 0, 1)
}

/// Whether the captures of a document of this height can be planned.
pub fn plan_fits(
    viewport: &Viewport,
    document_height: i32,
    view: ViewSize,
    is_at_end: bool,
) -> (res: bool)
    ensures
        res == plan_in_range(*viewport, document_height as int, view, is_at_end),
{
    let height: i64 = viewport.height as i64;
    let max: i64 = document_height as i64 - height;
    if !fit(max) {
        return false;
    }
    if matches!(view, ViewSize::Whole) || is_at_end {
        return true;
    }
    let increment: i64 = height - BOTTOM_MARGIN as i64;
    let mut top: i64 = 0;
    let mut taken: u32 = 1;
    while taken < MAX_SCREENSHOTS
        invariant
            1 <= taken <= MAX_SCREENSHOTS,
            fits(top as int),
            fits(max as int),
            height == viewport.height,
            max == scroll_range(*viewport, document_height as int),
            increment == scroll_increment(*viewport),
            shots_in_range(*viewport, document_height as int, 0, 1) == shots_in_range(
                *viewport,
                document_height as int,
                top as int,
                taken as int,
            ),
            is_done_at_once(view, is_at_end) == false,
        decreases MAX_SCREENSHOTS - taken,
    {
        let aim: i64 = top + increment;
        let next: i64 = if aim < max {
            aim
        } else {
            max
        };
        let overlap: i64 = increment - (next - top);
        let is_last: bool = max < 0 || next >= max;
        let margin: i64 = if is_last {
            0
        } else {
            BOTTOM_MARGIN as i64
        };
        if !(fit(increment) && fit(aim) && fit(next - top) && fit(overlap) && fit(
            viewport.top as i64 + overlap,
        ) && fit(height - overlap) && fit(height - overlap - margin)) {
            return false;
        }
        if is_last {
            return true;
        }
        top = next;
        taken += 1;
    }
    true
}

/// Shots that stand for the captures of a document, in numbers.
proof fn lemma_planned_in_numbers(viewport: Viewport, document_height: int, shots: Seq<Shot>)
    requires
        shots.map_values(|shot: Shot| shot@) == shots_after(viewport, document_height, 0, 1),
    ensures
        0 < shots.len() <= 19,
        shots.len() < 19 ==> shots.last().is_last,
        forall|i: int|
            #![trigger shots[i]]
            0 <= i < shots.len() ==> {
                let aim = (i + 1) * (viewport.height - 32);
                let range = document_height - viewport.height;
                let shot = shots[i];
                &&& shot.is_last ==> shots.len() == i + 1
                &&& shot.is_last <==> document_height < viewport.height || aim >= range
                &&& shot.max_scroll_top == range
                &&& shot.scroll_top == if aim < range {
                    aim
                } else {
                    range
                }
                &&& shot.region.x == viewport.left
                &&& shot.region.width == viewport.width
                &&& shot.region.y == viewport.top + aim - shot.scroll_top
                &&& shot.region.y + shot.region.height == viewport.top + viewport.height
                    - if shot.is_last {
                    0int
                } else {
                    32int
                }
            },
{
    let models = shots.map_values(|shot: Shot| shot@);
    law_some_shot_follows(viewport, document_height);
    law_shots_in_numbers(viewport, document_height, shots.len() - 1);
    assert(models[shots.len() - 1] == shots[shots.len() - 1]@);
    assert forall|i: int| #![trigger shots[i]] 0 <= i < shots.len() implies {
        let aim = (i + 1) * (viewport.height - 32);
        let range = document_height - viewport.height;
        let shot = shots[i];
        &&& shot.is_last ==> shots.len() == i + 1
        &&& shot.is_last <==> document_height < viewport.height || aim >= range
        &&& shot.max_scroll_top == range
        &&& shot.scroll_top == if aim < range {
            aim
        } else {
            range
        }
        &&& shot.region.x == viewport.left
        &&& shot.region.width == viewport.width
        &&& shot.region.y == viewport.top + aim - shot.scroll_top
        &&& shot.region.y + shot.region.height == viewport.top + viewport.height
            - if shot.is_last {
            0int
        } else {
            32int
        }
    } by {
        law_shots_in_numbers(viewport, document_height, i);
        assert(models[i] == shots[i]@);
    }
}

/// Plans the captures that follow the first one: none where that one shows all
/// there is to see, otherwise scroll by scroll to the end of the document, as long
/// as more captures are allowed.
pub fn plan_scroll(
    viewport: &Viewport,
    document_height: i32,
    view: ViewSize,
    is_at_end: bool,
) -> (plan: ScrollPlan)
    requires
        plan_in_range(*viewport, document_height as int, view, is_at_end),
    ensures
        plan.shots@.map_values(|shot: Shot| shot@) == if is_done_at_once(view, is_at_end) {
            Seq::empty()
        } else {
            shots_after(*viewport, document_height as int, 0, 1)
        },
        plan.limit_reached == (!is_done_at_once(view, is_at_end) && !plan.shots@.last().is_last),
        plan.shots@.len() == 0 <==> view is Whole || is_at_end,
        plan.shots@.len() <= 19,
        plan.limit_reached <==> plan.shots@.len() == 19 && !plan.shots@[18].is_last,
        0 < plan.shots@.len() < 19 ==> plan.shots@[plan.shots@.len() - 1].is_last,
        forall|i: int|
            0 <= i < plan.shots@.len() - 1 ==> !(#[trigger] plan.shots@[i]).is_last,
        forall|i: int|
            0 <= i < plan.shots@.len() ==> ((#[trigger] plan.shots@[i]).is_last <==> document_height
                < viewport.height || (i + 1) * (viewport.height - 32) >= document_height
                - viewport.height),
        forall|i: int|
            0 <= i < plan.shots@.len() ==> (#[trigger] plan.shots@[i]).max_scroll_top
                == document_height - viewport.height,
        forall|i: int|
            0 <= i < plan.shots@.len() ==> (#[trigger] plan.shots@[i]).scroll_top == if (i + 1) * (
            viewport.height - 32) < document_height - viewport.height {
                (i + 1) * (viewport.height - 32)
            } else {
                document_height - viewport.height
            },
        forall|i: int|
            0 <= i < plan.shots@.len() ==> (#[trigger] plan.shots@[i]).region.x == viewport.left
                && plan.shots@[i].region.width == viewport.width,
        forall|i: int|
            0 <= i < plan.shots@.len() ==> (#[trigger] plan.shots@[i]).region.y == viewport.top + (i
                + 1) * (viewport.height - 32) - plan.shots@[i].scroll_top,
        forall|i: int|
            0 <= i < plan.shots@.len() ==> {
                let shot = #[trigger] plan.shots@[i];
                let margin = if shot.is_last {
                    0int
                } else {
                    32int
                };
                shot.region.y + shot.region.height == viewport.top + viewport.height - margin
            },
{
    let max_scroll_top: i32 = document_height - viewport.height;
    let mut shots: Vec<Shot> = Vec::new();
    if matches!(view, ViewSize::Whole) || is_at_end {
        assert(shots@.map_values(|shot: Shot| shot@) =~= Seq::empty());
        return ScrollPlan { shots, limit_reached: false };
    }
    let ghost model = |shot: Shot| shot@;
    let ghost all = shots_after(*viewport, document_height as int, 0, 1);
    let mut scroll_top: i32 = 0;
    let mut screenshot_count: u32 = 1;
    assert(shots@.map_values(model) + all =~= all);
    while screenshot_count < MAX_SCREENSHOTS
        invariant
            1 <= screenshot_count <= MAX_SCREENSHOTS,
            screenshot_count == shots@.len() + 1,
            max_scroll_top == scroll_range(*viewport, document_height as int),
            shots_in_range(
                *viewport,
                document_height as int,
                scroll_top as int,
                screenshot_count as int,
            ),
            model == (|shot: Shot| shot@),
            all == shots_after(*viewport, document_height as int, 0, 1),
            all == shots@.map_values(model) + shots_after(
                *viewport,
                document_height as int,
                scroll_top as int,
                screenshot_count as int,
            ),
            forall|i: int|
                0 <= i < shots@.len() ==> !(#[trigger] shots@[i]).is_last,
            !is_done_at_once(view, is_at_end),
        decreases MAX_SCREENSHOTS - screenshot_count,
    {
        let scroll_increment: i32 = viewport.height - BOTTOM_MARGIN;
        let aim: i32 = scroll_top + scroll_increment;
        let next_scroll_top: i32 = if aim < max_scroll_top {
            aim
        } else {
            max_scroll_top
        };
        let scroll_difference: i32 = next_scroll_top - scroll_top;
        let overlapping_height: i32 = viewport.height - BOTTOM_MARGIN - scroll_difference;
        let is_last: bool = max_scroll_top < 0 || next_scroll_top >= max_scroll_top;
        let bottom_margin: i32 = if is_last {
            0
        } else {
            BOTTOM_MARGIN
        };
        let shot = Shot {
            scroll_top: next_scroll_top,
            max_scroll_top,
            region: Region {
                x: viewport.left,
                y: viewport.top + overlapping_height,
                width: viewport.width,
                height: viewport.height - overlapping_height - bottom_margin,
            },
            is_last,
        };
        let ghost before = shots@;
        shots.push(shot);
        assert(shots@.map_values(model) =~= before.map_values(model).push(shot@));
        assert(shot@ == shot_after(*viewport, document_height as int, scroll_top as int));
        if is_last {
            assert(shots@.map_values(model) =~= all);
            proof {
                lemma_planned_in_numbers(*viewport, document_height as int, shots@);
            }
            return ScrollPlan { shots, limit_reached: false };
        }
        assert(before.map_values(model) + (seq![shot@] + shots_after(
            *viewport,
            document_height as int,
            next_scroll_top as int,
            screenshot_count + 1,
        )) =~= shots@.map_values(model) + shots_after(
            *viewport,
            document_height as int,
            next_scroll_top as int,
            screenshot_count + 1,
        ));
        scroll_top = next_scroll_top;
        screenshot_count += 1;
    }
    assert(shots@.map_values(model) =~= all);
    proof {
        lemma_planned_in_numbers(*viewport, document_height as int, shots@);
    }
    ScrollPlan { shots, limit_reached: true }
}

} // verus!
