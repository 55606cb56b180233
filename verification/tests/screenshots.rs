use eml_renderer::worker_thread::screenshot::{
    choose_outer_window, first_region, first_region_fits, needs_rewind, plan_fits, plan_scroll,
    viewport_fits, Rect, Region, ViewSize, Viewport,
};

fn viewport(height: i32) -> Viewport {
    Viewport { left: 10, top: 100, width: 800, height }
}

#[test]
fn a_viewport_is_placed_within_its_window() {
    let window = Rect { left: 50, top: 60, right: 1650, bottom: 1492 };
    let document = Rect { left: 60, top: 260, right: 1600, bottom: 1460 };
    assert!(viewport_fits(&window, &document));
    assert_eq!(
        Viewport::within(&window, &document),
        Viewport { left: 10, top: 200, width: 1540, height: 1200 }
    );
    let far = Rect { left: i32::MIN, top: 0, right: 0, bottom: 0 };
    assert!(!viewport_fits(&window, &far));
    assert!(!viewport_fits(&far, &document));
}

#[test]
fn the_first_capture_leaves_a_strip_only_if_the_document_goes_on() {
    assert!(first_region_fits(&viewport(1000), 2500));
    assert_eq!(
        first_region(&viewport(1000), 2500),
        Region { x: 10, y: 100, width: 800, height: 968 }
    );
    assert_eq!(first_region(&viewport(1000), 1000).height, 1000);
    assert_eq!(first_region(&viewport(1000), 1001).height, 968);
    assert_eq!(first_region(&viewport(1000), 500).height, 1000);
    assert!(!first_region_fits(&viewport(i32::MIN), 0));
    assert!(first_region_fits(&viewport(i32::MIN), i32::MIN));
}

#[test]
fn a_long_document_is_captured_scroll_by_scroll() {
    let viewport = viewport(1000);
    assert!(plan_fits(&viewport, 3100, ViewSize::Partial, false));
    let plan = plan_scroll(&viewport, 3100, ViewSize::Partial, false);
    assert!(!plan.limit_reached);
    let tops: Vec<i32> = plan.shots.iter().map(|shot| shot.scroll_top).collect();
    assert_eq!(tops, vec![968, 1936, 2100]);
    let heights: Vec<i32> = plan.shots.iter().map(|shot| shot.region.height).collect();
    assert_eq!(heights, vec![968, 968, 196]);
    let rows: Vec<i32> = plan.shots.iter().map(|shot| shot.region.y).collect();
    assert_eq!(rows, vec![100, 100, 904]);
    let ends: Vec<bool> = plan.shots.iter().map(|shot| shot.is_last).collect();
    assert_eq!(ends, vec![false, false, true]);
    assert!(plan.shots.iter().all(|shot| shot.max_scroll_top == 2100));
    assert!(plan.shots.iter().all(|shot| shot.region.x == 10 && shot.region.width == 800));
    assert_eq!(first_region(&viewport, 3100).height + heights.iter().sum::<i32>(), 3100);
}

#[test]
fn captures_tile_documents_of_any_height() {
    let viewport = viewport(200);
    for document_height in 201..3393 {
        assert!(plan_fits(&viewport, document_height, ViewSize::Partial, false));
        let plan = plan_scroll(&viewport, document_height, ViewSize::Partial, false);
        assert!(!plan.limit_reached);
        let mut covered = first_region(&viewport, document_height).height;
        for shot in &plan.shots {
            assert_eq!(shot.scroll_top + shot.region.y - viewport.top, covered);
            assert!(shot.region.y >= viewport.top);
            assert!(shot.region.y + shot.region.height <= viewport.top + viewport.height);
            covered += shot.region.height;
        }
        assert_eq!(covered, document_height);
    }
}

#[test]
fn no_more_than_twenty_captures_are_taken() {
    let viewport = viewport(200);
    let plan = plan_scroll(&viewport, 3393, ViewSize::Partial, false);
    assert!(plan.limit_reached);
    assert_eq!(plan.shots.len(), 19);
    assert!(!plan.shots[18].is_last);
    assert_eq!(plan.shots[18].scroll_top, 19 * 168);
    let height: i32 = plan.shots.iter().map(|shot| shot.region.height).sum();
    assert_eq!(first_region(&viewport, 3393).height + height, 20 * 168);
    let plan = plan_scroll(&viewport, 3392, ViewSize::Partial, false);
    assert!(!plan.limit_reached);
    assert_eq!(plan.shots.len(), 19);
}

#[test]
fn nothing_follows_where_all_is_shown() {
    let viewport = viewport(1000);
    let plan = plan_scroll(&viewport, 1000, ViewSize::Whole, false);
    assert!(plan.shots.is_empty() && !plan.limit_reached);
    let plan = plan_scroll(&viewport, 3000, ViewSize::Partial, true);
    assert!(plan.shots.is_empty() && !plan.limit_reached);
}

#[test]
fn a_document_that_barely_does_not_fit_is_captured_twice() {
    let viewport = viewport(1000);
    let plan = plan_scroll(&viewport, 1000, ViewSize::Partial, false);
    assert_eq!(plan.shots.len(), 1);
    assert_eq!(plan.shots[0].scroll_top, 0);
    assert_eq!(plan.shots[0].max_scroll_top, 0);
    assert_eq!(plan.shots[0].region, Region { x: 10, y: 1068, width: 800, height: 32 });
    assert!(plan.shots[0].is_last);
}

#[test]
fn a_document_lower_than_its_viewport_takes_one_scroll() {
    let plan = plan_scroll(&viewport(1000), 900, ViewSize::Other, false);
    assert_eq!(plan.shots.len(), 1);
    assert_eq!(plan.shots[0].scroll_top, -100);
    assert!(plan.shots[0].is_last);
    assert_eq!(plan.shots[0].region.y, 100 + 968 + 100);
    assert_eq!(plan.shots[0].region.height, -68);
}

#[test]
fn a_viewport_lower_than_the_strip_scrolls_back() {
    let plan = plan_scroll(&viewport(30), 100, ViewSize::Partial, false);
    assert!(plan.limit_reached);
    assert_eq!(plan.shots.len(), 19);
    assert_eq!(plan.shots[0].scroll_top, -2);
    assert_eq!(plan.shots[18].scroll_top, -38);
}

#[test]
fn sizes_beyond_the_integer_range_cannot_be_planned() {
    assert!(!plan_fits(&viewport(1000), i32::MIN, ViewSize::Whole, false));
    assert!(!plan_fits(&viewport(i32::MIN), -1, ViewSize::Partial, false));
    assert!(plan_fits(&viewport(1000), i32::MAX, ViewSize::Partial, false));
    assert!(plan_fits(&viewport(i32::MIN), -1, ViewSize::Whole, false));
}

#[test]
fn only_a_scrolled_document_that_goes_on_is_rewound() {
    assert!(needs_rewind(ViewSize::Partial, true));
    assert!(!needs_rewind(ViewSize::Partial, false));
    assert!(!needs_rewind(ViewSize::Whole, true));
    assert!(!needs_rewind(ViewSize::Other, true));
}

#[test]
fn the_last_outer_window_is_used() {
    assert_eq!(choose_outer_window(0), None);
    assert_eq!(choose_outer_window(1), Some(0));
    assert_eq!(choose_outer_window(3), Some(2));
}
