use crate::worker_thread::screenshot::{
    first_margin, fits, plan_in_range, scroll_increment, scroll_range, shot_after, shot_in_range,
    shots_after, shots_in_range, ShotModel, ViewSize, Viewport, BOTTOM_MARGIN, MAX_SCREENSHOTS,
};
use vstd::prelude::*;

verus! {

/// The document goes on below the viewport, and the viewport is higher than the
/// strip that a capture leaves out.
pub open spec fn is_scrollable(viewport: Viewport, document_height: int) -> bool {
    BOTTOM_MARGIN < viewport.height < document_height
}

/// The captures that follow the first one of a document that is neither wholly in
/// view nor at its end.
pub open spec fn shots_of(viewport: Viewport, document_height: int) -> Seq<ShotModel> {
    shots_after(viewport, document_height, 0, 1)
}

/// The row of the document at which a capture begins.
pub open spec fn document_top(viewport: Viewport, shot: ShotModel) -> int {
    shot.scroll_top + (shot.y - viewport.top)
}

/// The row of the document before which a capture ends.
pub open spec fn document_bottom(viewport: Viewport, shot: ShotModel) -> int {
    document_top(viewport, shot) + shot.height
}

/// The heights of the first `n` shots, added up.
pub open spec fn total_height(shots: Seq<ShotModel>, n: int) -> int
    decreases n,
{
    if n <= 0 {
        0
    } else {
        total_height(shots, n - 1) + shots[n - 1].height
    }
}

/// The `i`th of the shots that follow the one at `top` is the one after `i`
/// increments, which do not yet reach the end, and it is the last one where one
/// increment more does.
spec fn is_step(
    viewport: Viewport,
    document_height: int,
    top: int,
    shots: Seq<ShotModel>,
    i: int,
) -> bool {
    let range = scroll_range(viewport, document_height);
    let increment = scroll_increment(viewport);
    &&& top + i * increment < range
    &&& shots[i] == shot_after(viewport, document_height, top + i * increment)
    &&& shots[i].is_last <==> top + i * increment + increment >= range
    &&& shots[i].is_last ==> i == shots.len() - 1
}

proof fn lemma_shots_step_by_increments(
    viewport: Viewport,
    document_height: int,
    top: int,
    taken: int,
)
    requires
        is_scrollable(viewport, document_height),
        0 <= top < scroll_range(viewport, document_height),
        0 <= taken <= MAX_SCREENSHOTS,
    ensures
        ({
            let shots = shots_after(viewport, document_height, top, taken);
            &&& shots.len() <= MAX_SCREENSHOTS - taken
            &&& shots.len() < MAX_SCREENSHOTS - taken ==> shots.len() > 0 && shots.last().is_last
            &&& forall|i: int|
                0 <= i < shots.len() ==> #[trigger] is_step(
                    viewport,
                    document_height,
                    top,
                    shots,
                    i,
                )
        }),
    decreases MAX_SCREENSHOTS - taken,
{
    let shots = shots_after(viewport, document_height, top, taken);
    let increment = scroll_increment(viewport);
    if taken < MAX_SCREENSHOTS {
        let shot = shot_after(viewport, document_height, top);
        let next = top + increment;
        let rest = shots_after(viewport, document_height, next, taken + 1);
        if shot.is_last {
            assert(shots =~= seq![shot]);
        } else {
            lemma_shots_step_by_increments(viewport, document_height, next, taken + 1);
            assert(shots =~= seq![shot] + rest);
            if rest.len() > 0 {
                assert(shots.last() == rest.last());
            }
        }
        assert forall|i: int| 0 <= i < shots.len() implies #[trigger] is_step(
            viewport,
            document_height,
            top,
            shots,
            i,
        ) by {
            if i > 0 {
                assert(is_step(viewport, document_height, next, rest, i - 1));
                assert(shots[i] == rest[i - 1]);
                assert(next + (i - 1) * increment == top + i * increment) by (nonlinear_arith)
                    requires
                        next == top + increment,
                ;
            } else {
                assert(0 * increment == 0);
            }
        }
    }
}

/// The `i`th of `shots`, in numbers, where `start` is how far the document is scrolled
/// before the first of them.
spec fn is_numbered(
    viewport: Viewport,
    document_height: int,
    start: int,
    shots: Seq<ShotModel>,
    i: int,
) -> bool {
    let increment = viewport.height - 32;
    let range = document_height - viewport.height;
    let aim = start + (i + 1) * increment;
    let shot = shots[i];
    &&& shot.scroll_top == if aim < range {
        aim
    } else {
        range
    }
    &&& shot.max_scroll_top == range
    &&& shot.x == viewport.left
    &&& shot.width == viewport.width
    &&& shot.y == viewport.top + aim - shot.scroll_top
    &&& shot.y + shot.height == viewport.top + viewport.height - if shot.is_last {
        0int
    } else {
        32int
    }
    &&& shot.is_last <==> range < 0 || aim >= range
    &&& shot.is_last ==> i == shots.len() - 1
}

proof fn lemma_shots_in_numbers(viewport: Viewport, document_height: int, start: int, taken: int)
    requires
        taken <= MAX_SCREENSHOTS,
    ensures
        ({
            let shots = shots_after(viewport, document_height, start, taken);
            &&& shots.len() <= 20 - taken
            &&& taken < 20 ==> shots.len() > 0
            &&& shots.len() < 20 - taken ==> shots.last().is_last
            &&& forall|i: int|
                0 <= i < shots.len() ==> #[trigger] is_numbered(
                    viewport,
                    document_height,
                    start,
                    shots,
                    i,
                )
        }),
    decreases MAX_SCREENSHOTS - taken,
{
    let shots = shots_after(viewport, document_height, start, taken);
    let increment = viewport.height - 32;
    if taken < MAX_SCREENSHOTS {
        let shot = shot_after(viewport, document_height, start);
        let next = start + increment;
        let rest = shots_after(viewport, document_height, next, taken + 1);
        if shot.is_last {
            assert(shots =~= seq![shot]);
        } else {
            lemma_shots_in_numbers(viewport, document_height, next, taken + 1);
            assert(shots =~= seq![shot] + rest);
            if rest.len() > 0 {
                assert(shots.last() == rest.last());
            }
        }
        assert forall|i: int| 0 <= i < shots.len() implies #[trigger] is_numbered(
            viewport,
            document_height,
            start,
            shots,
            i,
        ) by {
            if i > 0 {
                assert(is_numbered(viewport, document_height, next, rest, i - 1));
                assert(shots[i] == rest[i - 1]);
                assert(next + ((i - 1) + 1) * increment == start + (i + 1) * increment)
                    by (nonlinear_arith)
                    requires
                        next == start + increment,
                ;
            } else {
                assert(1 * increment == increment);
            }
        }
    }
}

/// Every capture after the first one, in numbers, whatever the sizes are. The `i`th
/// scroll aims at `i + 1` times the height of the viewport without the strip of 32 rows,
/// and stops where the document ends, which is as far down as the document is higher
/// than the viewport. It is a share of just that distance. The capture leaves out the
/// rows by which the scroll fell short of its aim, since they were shown before, and the
/// strip at the bottom unless it is the last one. The last one is the first that cannot
/// go further, and there are 19 at most.
pub proof fn law_shots_in_numbers(viewport: Viewport, document_height: int, i: int)
    requires
        0 <= i < shots_after(viewport, document_height, 0, 1).len(),
    ensures
        ({
            let shots = shots_after(viewport, document_height, 0, 1);
            let range = document_height - viewport.height;
            let aim = (i + 1) * (viewport.height - 32);
            let shot = shots[i];
            &&& shots.len() <= 19
            &&& shots.len() == i + 1 && i < 18 ==> shot.is_last
            &&& shot.is_last ==> shots.len() == i + 1
            &&& shot.is_last <==> document_height < viewport.height || aim >= range
            &&& shot.scroll_top == if aim < range {
                aim
            } else {
                range
            }
            &&& shot.max_scroll_top == range
            &&& shot.x == viewport.left
            &&& shot.width == viewport.width
            &&& shot.y - viewport.top == aim - shot.scroll_top
            &&& shot.y + shot.height == viewport.top + viewport.height - if shot.is_last {
                0int
            } else {
                32int
            }
        }),
{
    lemma_shots_in_numbers(viewport, document_height, 0, 1);
    assert(is_numbered(
        viewport,
        document_height,
        0,
        shots_after(viewport, document_height, 0, 1),
        i,
    ));
}

/// At least one capture follows the first one, unless that one shows all there is to see.
pub proof fn law_some_shot_follows(viewport: Viewport, document_height: int)
    ensures
        shots_after(viewport, document_height, 0, 1).len() > 0,
{
    lemma_shots_in_numbers(viewport, document_height, 0, 1);
}

/// Every scroll is given as a share of how far the document can be scrolled, and the last
/// one of a document that goes on below its viewport goes all the way: to its end, which
/// the capture then shows.
pub proof fn law_last_scroll_goes_all_the_way(viewport: Viewport, document_height: int, i: int)
    requires
        document_height >= viewport.height,
        0 <= i < shots_after(viewport, document_height, 0, 1).len(),
    ensures
        ({
            let shot = shots_after(viewport, document_height, 0, 1)[i];
            &&& shot.max_scroll_top == document_height - viewport.height
            &&& shot.is_last <==> shot.scroll_top == shot.max_scroll_top
            &&& shot.scroll_top <= shot.max_scroll_top
            &&& shot.is_last ==> shot.scroll_top + (shot.y - viewport.top) + shot.height
                == document_height
        }),
{
    law_shots_in_numbers(viewport, document_height, i);
}

/// A capture follows where the one before it ended: seen from the top of the document,
/// the `i`th begins `i + 1` increments down, and the ones before it end there.
pub proof fn law_each_shot_begins_where_the_last_one_ended(
    viewport: Viewport,
    document_height: int,
    i: int,
)
    requires
        0 <= i < shots_after(viewport, document_height, 0, 1).len(),
    ensures
        ({
            let shots = shots_after(viewport, document_height, 0, 1);
            let begin = shots[i].scroll_top + (shots[i].y - viewport.top);
            &&& begin == (i + 1) * (viewport.height - 32)
            &&& i > 0 ==> begin == shots[i - 1].scroll_top + (shots[i - 1].y - viewport.top)
                + shots[i - 1].height
            &&& i == 0 && document_height > viewport.height ==> begin == viewport.height - 32
        }),
{
    law_shots_in_numbers(viewport, document_height, i);
    let increment = viewport.height - 32;
    assert(1 * increment == increment);
    if i > 0 {
        law_shots_in_numbers(viewport, document_height, i - 1);
        assert((i + 1) * increment == ((i - 1) + 1) * increment + increment) by (nonlinear_arith);
    }
}

/// The captures can be planned where every number of which they are made is an `i32`: how
/// far the document can be scrolled, and for each capture the increment, the aim of the
/// scroll, how far it goes, how far it falls short of its aim, and the rows of the
/// region. Where there is nothing to capture, only the first of these matters.
pub proof fn law_planned_where_the_numbers_fit(
    viewport: Viewport,
    document_height: int,
    view: ViewSize,
    is_at_end: bool,
)
    requires
        -0x8000_0000 <= document_height - viewport.height < 0x8000_0000,
        view is Whole || is_at_end || ({
            let ok = |n: int| -0x8000_0000 <= n < 0x8000_0000;
            let shots = shots_after(viewport, document_height, 0, 1);
            let increment = viewport.height - 32;
            forall|i: int|
                #![trigger shots[i]]
                0 <= i < shots.len() ==> {
                    &&& ok(increment)
                    &&& ok((i + 1) * increment)
                    &&& ok(shots[i].scroll_top - i * increment)
                    &&& ok(shots[i].y - viewport.top)
                    &&& ok(shots[i].y)
                    &&& ok(viewport.height - (shots[i].y - viewport.top))
                    &&& ok(shots[i].height)
                }
        }),
    ensures
        plan_in_range(viewport, document_height, view, is_at_end),
{
    lemma_range_of_shots(viewport, document_height, 0, 1);
    let shots = shots_after(viewport, document_height, 0, 1);
    if !(view is Whole || is_at_end) {
        assert forall|i: int| 0 <= i < shots.len() implies #[trigger] numbers_fit(
            viewport,
            0,
            shots,
            i,
        ) by {
            let shot = shots[i];
        }
    }
}

/// Where the captures can be planned, every number of which the `i`th of them is made is
/// an `i32`.
pub proof fn law_numbers_fit_where_planned(
    viewport: Viewport,
    document_height: int,
    view: ViewSize,
    is_at_end: bool,
    i: int,
)
    requires
        plan_in_range(viewport, document_height, view, is_at_end),
        !(view is Whole || is_at_end),
        0 <= i < shots_after(viewport, document_height, 0, 1).len(),
    ensures
        ({
            let ok = |n: int| -0x8000_0000 <= n < 0x8000_0000;
            let shot = shots_after(viewport, document_height, 0, 1)[i];
            let increment = viewport.height - 32;
            &&& ok(document_height - viewport.height)
            &&& ok(increment)
            &&& ok((i + 1) * increment)
            &&& ok(shot.scroll_top - i * increment)
            &&& ok(shot.y - viewport.top)
            &&& ok(shot.y)
            &&& ok(viewport.height - (shot.y - viewport.top))
            &&& ok(shot.height)
        }),
{
    lemma_range_of_shots(viewport, document_height, 0, 1);
    assert(numbers_fit(viewport, 0, shots_after(viewport, document_height, 0, 1), i));
}

/// The numbers of which the `i`th of `shots` is made are all `i32`.
spec fn numbers_fit(viewport: Viewport, start: int, shots: Seq<ShotModel>, i: int) -> bool {
    let increment = viewport.height - 32;
    &&& fits(increment)
    &&& fits(start + (i + 1) * increment)
    &&& fits(shots[i].scroll_top - (start + i * increment))
    &&& fits(shots[i].y - viewport.top)
    &&& fits(shots[i].y)
    &&& fits(viewport.height - (shots[i].y - viewport.top))
    &&& fits(shots[i].height)
}

proof fn lemma_range_of_shots(viewport: Viewport, document_height: int, start: int, taken: int)
    requires
        taken <= MAX_SCREENSHOTS,
    ensures
        ({
            let shots = shots_after(viewport, document_height, start, taken);
            shots_in_range(viewport, document_height, start, taken) <==> forall|i: int|
                0 <= i < shots.len() ==> #[trigger] numbers_fit(viewport, start, shots, i)
        }),
    decreases MAX_SCREENSHOTS - taken,
{
    if taken < MAX_SCREENSHOTS {
        let increment = viewport.height - 32;
        let shots = shots_after(viewport, document_height, start, taken);
        let shot = shot_after(viewport, document_height, start);
        let next = start + increment;
        let rest = shots_after(viewport, document_height, next, taken + 1);
        assert(shots[0] == shot);
        assert(0 * increment == 0 && 1 * increment == increment);
        assert(shot_in_range(viewport, document_height, start) <==> numbers_fit(
            viewport,
            start,
            shots,
            0,
        ));
        if !shot.is_last {
            lemma_range_of_shots(viewport, document_height, next, taken + 1);
            assert(shots =~= seq![shot] + rest);
            assert forall|i: int| 0 <= i < rest.len() implies (#[trigger] numbers_fit(
                viewport,
                next,
                rest,
                i,
            ) <==> numbers_fit(viewport, start, shots, i + 1)) by {
                assert(shots[i + 1] == rest[i]);
                assert(next + (i + 1) * increment == start + ((i + 1) + 1) * increment && next + i
                    * increment == start + (i + 1) * increment) by (nonlinear_arith)
                    requires
                        next == start + increment,
                ;
            }
            if forall|i: int|
                0 <= i < shots.len() ==> #[trigger] numbers_fit(viewport, start, shots, i) {
                assert forall|i: int| 0 <= i < rest.len() implies #[trigger] numbers_fit(
                    viewport,
                    next,
                    rest,
                    i,
                ) by {
                    assert(numbers_fit(viewport, start, shots, i + 1));
                }
            }
            if shots_in_range(viewport, document_height, start, taken) {
                assert forall|i: int| 0 <= i < shots.len() implies #[trigger] numbers_fit(
                    viewport,
                    start,
                    shots,
                    i,
                ) by {
                    if i > 0 {
                        assert(numbers_fit(viewport, next, rest, i - 1));
                    }
                }
            }
        }
    }
}

/// The captures of a document that goes on below its viewport can always be
/// planned, where the lower edge of the viewport is an `i32` as the upper one is.
pub proof fn law_scrollable_documents_can_be_planned(
    viewport: Viewport,
    document_height: int,
    view: ViewSize,
    is_at_end: bool,
)
    requires
        is_scrollable(viewport, document_height),
        fits(document_height),
        fits(viewport.top + viewport.height),
    ensures
        plan_in_range(viewport, document_height, view, is_at_end),
        fits(viewport.height - first_margin(viewport, document_height)),
{
    lemma_shots_in_range(viewport, document_height, 0, 1);
}

proof fn lemma_shots_in_range(viewport: Viewport, document_height: int, top: int, taken: int)
    requires
        is_scrollable(viewport, document_height),
        fits(document_height),
        fits(viewport.top + viewport.height),
        0 <= top < scroll_range(viewport, document_height),
    ensures
        shots_in_range(viewport, document_height, top, taken),
    decreases MAX_SCREENSHOTS - taken,
{
    if taken < MAX_SCREENSHOTS {
        let shot = shot_after(viewport, document_height, top);
        if !shot.is_last {
            lemma_shots_in_range(viewport, document_height, shot.scroll_top, taken + 1);
        }
    }
}

/// The `i`th scroll goes `i + 1` increments down, but no further than the document
/// can be scrolled.
pub proof fn law_scrolls_in_equal_steps(viewport: Viewport, document_height: int, i: int)
    requires
        is_scrollable(viewport, document_height),
        0 <= i < shots_of(viewport, document_height).len(),
    ensures
        ({
            let shot = shots_of(viewport, document_height)[i];
            let aim = (i + 1) * scroll_increment(viewport);
            let range = scroll_range(viewport, document_height);
            &&& shot.scroll_top == if aim < range {
                aim
            } else {
                range
            }
            &&& 0 < shot.scroll_top <= range
            &&& shot.is_last <==> shot.scroll_top == range
        }),
{
    lemma_shots_step_by_increments(viewport, document_height, 0, 1);
    let increment = scroll_increment(viewport);
    assert(is_step(viewport, document_height, 0, shots_of(viewport, document_height), i));
    assert(i * increment + increment == (i + 1) * increment) by (nonlinear_arith);
    assert(0 <= i * increment) by (nonlinear_arith)
        requires
            0 <= i,
            0 < increment,
    ;
}

/// There are just as many captures as it takes to reach the end of the document,
/// unless that is more than allowed.
pub proof fn law_captures_reach_the_end_or_the_limit(viewport: Viewport, document_height: int)
    requires
        is_scrollable(viewport, document_height),
    ensures
        ({
            let shots = shots_of(viewport, document_height);
            let range = scroll_range(viewport, document_height);
            let increment = scroll_increment(viewport);
            &&& 0 < shots.len() < MAX_SCREENSHOTS
            &&& (shots.len() - 1) * increment < range
            &&& shots.last().is_last <==> shots.len() * increment >= range
            &&& shots.last().is_last <==> (MAX_SCREENSHOTS - 1) * increment >= range
            &&& !shots.last().is_last ==> shots.len() == MAX_SCREENSHOTS - 1
        }),
{
    lemma_shots_step_by_increments(viewport, document_height, 0, 1);
    let shots = shots_of(viewport, document_height);
    let increment = scroll_increment(viewport);
    assert(shots.len() > 0);
    let n = shots.len() as int;
    assert(is_step(viewport, document_height, 0, shots, n - 1));
    assert((n - 1) * increment + increment == n * increment) by (nonlinear_arith);
    assert(n * increment <= (MAX_SCREENSHOTS - 1) * increment) by (nonlinear_arith)
        requires
            n <= MAX_SCREENSHOTS - 1,
            0 < increment,
    ;
}

/// The captures tile the document: the first one begins at its first row, each of
/// the others begins at the row before which the one before it ends, and the last
/// one ends with the document. No row is shown twice and none is left out.
pub proof fn law_captures_tile_the_document(viewport: Viewport, document_height: int)
    requires
        is_scrollable(viewport, document_height),
    ensures
        ({
            let shots = shots_of(viewport, document_height);
            let first_height = viewport.height - first_margin(viewport, document_height);
            &&& 0 < first_height
            &&& 0 < shots.len()
            &&& document_top(viewport, shots[0]) == first_height
            &&& forall|i: int|
                0 <= i < shots.len() ==> document_top(viewport, #[trigger] shots[i])
                    < document_bottom(viewport, shots[i])
            &&& forall|i: int, j: int|
                0 <= i < shots.len() && j == i + 1 && j < shots.len() ==> document_bottom(
                    viewport,
                    #[trigger] shots[i],
                ) == document_top(viewport, #[trigger] shots[j])
            &&& shots.last().is_last ==> document_bottom(viewport, shots.last()) == document_height
        }),
{
    lemma_shots_step_by_increments(viewport, document_height, 0, 1);
    law_captures_reach_the_end_or_the_limit(viewport, document_height);
    let shots = shots_of(viewport, document_height);
    let increment = scroll_increment(viewport);
    assert(0 * increment == 0);
    assert(is_step(viewport, document_height, 0, shots, 0));
    assert(is_step(viewport, document_height, 0, shots, shots.len() - 1));
    assert forall|i: int| 0 <= i < shots.len() implies document_top(viewport, #[trigger] shots[i])
        < document_bottom(viewport, shots[i]) by {
        assert(is_step(viewport, document_height, 0, shots, i));
    }
    assert forall|i: int, j: int|
        0 <= i < shots.len() && j == i + 1 && j < shots.len() implies document_bottom(
        viewport,
        #[trigger] shots[i],
    ) == document_top(viewport, #[trigger] shots[j]) by {
        assert(is_step(viewport, document_height, 0, shots, i));
        assert(is_step(viewport, document_height, 0, shots, j));
        assert(i * increment + increment == j * increment) by (nonlinear_arith)
            requires
                j == i + 1,
        ;
    }
}

/// Every capture lies within the viewport and is as wide as it.
pub proof fn law_captures_lie_in_the_viewport(viewport: Viewport, document_height: int, i: int)
    requires
        is_scrollable(viewport, document_height),
        0 <= i < shots_of(viewport, document_height).len(),
    ensures
        ({
            let shot = shots_of(viewport, document_height)[i];
            &&& shot.x == viewport.left
            &&& shot.width == viewport.width
            &&& viewport.top <= shot.y
            &&& 0 < shot.height
            &&& shot.y + shot.height <= viewport.top + viewport.height
        }),
{
    lemma_shots_step_by_increments(viewport, document_height, 0, 1);
    assert(is_step(viewport, document_height, 0, shots_of(viewport, document_height), i));
}

/// Put below one another, the captures are as high as the document where they
/// reach its end, and as high as the allowed number of increments where they do
/// not.
pub proof fn law_captures_add_up(viewport: Viewport, document_height: int)
    requires
        is_scrollable(viewport, document_height),
    ensures
        ({
            let shots = shots_of(viewport, document_height);
            viewport.height - first_margin(viewport, document_height) + total_height(
                shots,
                shots.len() as int,
            ) == if shots.last().is_last {
                document_height
            } else {
                MAX_SCREENSHOTS * scroll_increment(viewport)
            }
        }),
{
    law_captures_reach_the_end_or_the_limit(viewport, document_height);
    law_captures_tile_the_document(viewport, document_height);
    let shots = shots_of(viewport, document_height);
    lemma_heights_add_up(viewport, document_height, shots.len() as int);
    lemma_shots_step_by_increments(viewport, document_height, 0, 1);
    let last = shots[shots.len() - 1];
    assert(is_step(viewport, document_height, 0, shots, shots.len() - 1));
    let increment = scroll_increment(viewport);
    if !last.is_last {
        let n = MAX_SCREENSHOTS - 1;
        assert((n - 1) * increment + increment + increment == (n + 1) * increment)
            by (nonlinear_arith);
    }
}

/// The first `n` shots end as far down the document as their heights and that of
/// the first capture add up to.
proof fn lemma_heights_add_up(viewport: Viewport, document_height: int, n: int)
    requires
        is_scrollable(viewport, document_height),
        0 < n <= shots_of(viewport, document_height).len(),
    ensures
        viewport.height - first_margin(viewport, document_height) + total_height(
            shots_of(viewport, document_height),
            n,
        ) == document_bottom(viewport, shots_of(viewport, document_height)[n - 1]),
    decreases n,
{
    law_captures_tile_the_document(viewport, document_height);
    let shots = shots_of(viewport, document_height);
    reveal_with_fuel(total_height, 2);
    if n > 1 {
        lemma_heights_add_up(viewport, document_height, n - 1);
        assert(document_bottom(viewport, shots[n - 2]) == document_top(viewport, shots[n - 1]));
    }
}

} // verus!
