use egui_flex::flex::{item, Flex, FlexAlign, FlexAlignContent, FlexDirection, FlexItem};
use egui_flex::geometry::{Align, Align2, Margin, Pos2, Rect, Vec2};
use egui_flex::layout::{FlexState, ItemState};
use egui_flex::pass::{reconcile, FlexPass, PassSignal};
use egui_flex::place::{grow_share_length, place_item};

const PT: i64 = 1000;

fn v(x: i64, y: i64) -> Vec2 {
    Vec2 { x, y }
}

fn p(x: i64, y: i64) -> Pos2 {
    Pos2 { x, y }
}

fn rect(x0: i64, y0: i64, x1: i64, y1: i64) -> Rect {
    Rect { min: p(x0, y0), max: p(x1, y1) }
}

fn state_of(id: u64, config: FlexItem, size: Vec2) -> ItemState {
    ItemState {
        id,
        config,
        inner_size: size,
        inner_min_size: size,
        margin: Margin::zero(),
        remeasure_widget: false,
    }
}

fn snapshot(items: Vec<ItemState>) -> FlexState {
    FlexState { items, max_item_size: v(100 * PT, 100 * PT) }
}

fn row_lengths(flex: &Flex, state: &FlexState, avail: Vec2, gap: Vec2) -> Vec<usize> {
    let axis = flex.direction.axis();
    flex.layout_rows(state, avail, gap, axis, p(0, 0)).iter().map(|r| r.items.len()).collect()
}

#[test]
fn three_basis_items_wrap_after_two() {
    let items = (0..3)
        .map(|i| state_of(i, item().basis(40 * PT), v(40 * PT, 10 * PT)))
        .collect();
    let flex = Flex::horizontal().wrap(true);
    let state = snapshot(items);
    let rows = flex.layout_rows(&state, v(100 * PT, 50 * PT), v(10 * PT, 10 * PT), 0, p(0, 0));
    assert_eq!(rows.len(), 2);
    assert_eq!(rows[0].items.len(), 2);
    assert_eq!(rows[1].items.len(), 1);
    assert_eq!(rows[0].total_size, 90 * PT);
    assert_eq!(rows[0].extra_space, 10 * PT);
    assert_eq!(rows[1].total_size, 40 * PT);
    assert_eq!(rows[1].extra_space, 60 * PT);
    assert_eq!(rows[0].rect, rect(0, 0, 100 * PT, 10 * PT));
    assert_eq!(rows[1].rect, rect(0, 20 * PT, 100 * PT, 30 * PT));
}

#[test]
fn without_wrap_one_row_however_long() {
    let items = (0..5).map(|i| state_of(i, item(), v(80 * PT, 10 * PT))).collect();
    let flex = Flex::horizontal().wrap(false);
    let lens = row_lengths(&flex, &snapshot(items), v(100 * PT, 50 * PT), v(0, 0));
    assert_eq!(lens, vec![5]);
}

#[test]
fn wrapped_rows_of_several_items_fit() {
    let widths = [30, 50, 20, 90, 10, 10, 120, 5];
    let items: Vec<ItemState> = widths
        .iter()
        .enumerate()
        .map(|(i, w)| state_of(i as u64, item(), v(w * PT, 10 * PT)))
        .collect();
    let flex = Flex::horizontal();
    let state = snapshot(items);
    let rows = flex.layout_rows(&state, v(100 * PT, 50 * PT), v(5 * PT, 5 * PT), 0, p(0, 0));
    let lens: Vec<usize> = rows.iter().map(|r| r.items.len()).collect();
    assert_eq!(lens, vec![2, 1, 1, 2, 1, 1]);
    for row in &rows {
        if row.items.len() >= 2 {
            assert!(row.total_size <= 100 * PT);
        }
    }
    assert_eq!(rows[3].total_size, 25 * PT);
    assert_eq!(rows[4].total_size, 120 * PT);
}

#[test]
fn no_items_no_rows() {
    let flex = Flex::new();
    let lens = row_lengths(&flex, &FlexState::empty(), v(100 * PT, 50 * PT), v(0, 0));
    assert!(lens.is_empty());
}

#[test]
fn vertical_rows_use_heights() {
    let items = (0..3).map(|i| state_of(i, item(), v(10 * PT, 30 * PT))).collect();
    let flex = Flex::vertical();
    let lens = row_lengths(&flex, &snapshot(items), v(50 * PT, 70 * PT), v(0, 0));
    assert_eq!(lens, vec![2, 1]);
}

#[test]
fn stretch_shares_cross_space() {
    let items = (0..3).map(|i| state_of(i, item(), v(60 * PT, 10 * PT))).collect();
    let flex = Flex::horizontal().align_content(FlexAlignContent::Stretch);
    let state = snapshot(items);
    let rows = flex.layout_rows(&state, v(100 * PT, 100 * PT), v(0, 5 * PT), 0, p(PT, 2 * PT));
    assert_eq!(rows.len(), 3);
    // (100 - 30 - 2 * 5) / 3 = 20 extra for each row
    assert_eq!(rows[0].cross_size_with_extra_space, 30 * PT);
    assert_eq!(rows[1].rect, rect(PT, 37 * PT, 101 * PT, 67 * PT));
    assert_eq!(rows[2].rect.min.y, 72 * PT);
}

#[test]
fn other_content_alignments_add_nothing() {
    let items = (0..2).map(|i| state_of(i, item(), v(60 * PT, 10 * PT))).collect();
    let flex = Flex::horizontal().align_content(FlexAlignContent::Center);
    let state = snapshot(items);
    let rows = flex.layout_rows(&state, v(100 * PT, 100 * PT), v(0, 0), 0, p(0, 0));
    assert_eq!(rows[0].cross_size_with_extra_space, 10 * PT);
    assert_eq!(rows[1].rect.min.y, 10 * PT);
}

#[test]
fn single_growing_item_gets_all_extra() {
    assert_eq!(grow_share_length(20 * PT, 0, 1000, 1000), 20 * PT);
}

#[test]
fn grow_shares_by_weight() {
    let a = grow_share_length(100, 0, 1000, 3000);
    let b = grow_share_length(100, 1000, 2000, 3000);
    assert_eq!(a, 33);
    assert_eq!(b, 67);
    assert_eq!(a + b, 100);
}

#[test]
fn small_extra_space_is_shared_in_full() {
    let shares: Vec<i64> = (0..3).map(|k| grow_share_length(2, k * 1000, 1000, 3000)).collect();
    assert_eq!(shares, vec![0, 1, 1]);
    assert_eq!(shares.iter().sum::<i64>(), 2);
}

#[test]
fn grow_never_negative_and_zero_without_weight() {
    assert_eq!(grow_share_length(-50, 0, 1000, 1000), 0);
    assert_eq!(grow_share_length(50, 0, 0, 1000), 0);
    assert_eq!(grow_share_length(50, 0, 0, 0), 0);
}

#[test]
fn unchanged_snapshot_is_accepted() {
    let a = snapshot(vec![state_of(1, item(), v(PT, PT))]);
    let b = snapshot(vec![state_of(1, item(), v(PT, PT))]);
    assert_eq!(reconcile(&a, &b), PassSignal::Accept);
}

#[test]
fn changed_snapshot_is_discarded() {
    let a = snapshot(vec![state_of(1, item(), v(PT, PT))]);
    let b = snapshot(vec![state_of(1, item(), v(2 * PT, PT))]);
    assert_eq!(reconcile(&a, &b), PassSignal::DiscardAndRepaint);
    let c = snapshot(vec![]);
    assert_eq!(reconcile(&a, &c), PassSignal::DiscardAndRepaint);
}

fn one_row(flex: &Flex, items: Vec<ItemState>, avail: Vec2) -> egui_flex::layout::RowData {
    let state = snapshot(items);
    let mut rows = flex.layout_rows(&state, avail, v(0, 0), 0, p(0, 0));
    rows.remove(0)
}

#[test]
fn stretched_item_fills_row_and_grows() {
    let flex = Flex::horizontal();
    let cfg = item().grow(1000);
    let st = state_of(7, cfg, v(20 * PT, 10 * PT));
    let other = state_of(8, item(), v(30 * PT, 16 * PT));
    let row = one_row(&flex, vec![st, other], v(100 * PT, 40 * PT));
    assert_eq!(row.extra_space, 50 * PT);
    let ui = place_item(
        cfg,
        &row,
        0,
        0,
        p(0, 0),
        rect(0, 0, 100 * PT, 16 * PT),
        v(100 * PT, 16 * PT),
        v(100 * PT, 40 * PT),
        v(100 * PT, 40 * PT),
        v(100 * PT, 40 * PT),
    );
    assert_eq!(ui.frame_rect, rect(0, 0, 70 * PT, 16 * PT));
    // content of 20x10 centered in the 70x16 frame
    assert_eq!(ui.content_rect.min, p(25 * PT, 3 * PT));
    assert_eq!(ui.content_rect.max, p(125 * PT, 40 * PT));
    assert!(!ui.remeasure_widget);
    assert_eq!(ui.last_inner_size, Some(v(20 * PT, 10 * PT)));
}

#[test]
fn aligned_item_keeps_its_cross_size() {
    let flex = Flex::horizontal();
    let cfg = item().align_self(FlexAlign::End);
    let st = state_of(1, cfg, v(20 * PT, 10 * PT));
    let row = one_row(&flex, vec![st], v(100 * PT, 40 * PT));
    let ui = place_item(
        cfg,
        &row,
        0,
        0,
        p(0, 0),
        rect(0, 0, 100 * PT, 30 * PT),
        v(100 * PT, 30 * PT),
        v(100 * PT, 40 * PT),
        v(100 * PT, 40 * PT),
        v(120 * PT, 40 * PT),
    );
    assert_eq!(ui.frame_rect, rect(0, 20 * PT, 20 * PT, 30 * PT));
    assert!(!ui.remeasure_widget);
}

#[test]
fn lone_item_is_clamped_and_basis_limits_content() {
    let flex = Flex::horizontal();
    let cfg = item().basis(150 * PT).align_self(FlexAlign::Start);
    let st = state_of(1, cfg, v(150 * PT, 10 * PT));
    let row = one_row(&flex, vec![st], v(100 * PT, 40 * PT));
    let ui = place_item(
        cfg,
        &row,
        0,
        0,
        p(0, 0),
        rect(0, 0, 100 * PT, 10 * PT),
        v(100 * PT, 10 * PT),
        v(80 * PT, 40 * PT),
        v(100 * PT, 40 * PT),
        v(90 * PT, 40 * PT),
    );
    assert_eq!(ui.frame_rect.max.x - ui.frame_rect.min.x, 100 * PT);
    assert_eq!(ui.content_rect.max.x - ui.content_rect.min.x, 80 * PT);
    assert!(ui.remeasure_widget);
}

#[test]
fn pass_walks_rows_and_records() {
    let flex = Flex::horizontal().gap(v(10 * PT, 10 * PT));
    let items: Vec<ItemState> = (0..3)
        .map(|i| state_of(i, item().basis(40 * PT), v(40 * PT, 10 * PT)))
        .collect();
    let previous = snapshot(items.clone());
    let mut pass = FlexPass::begin(
        flex,
        &previous,
        v(100 * PT, 50 * PT),
        v(10 * PT, 10 * PT),
        p(0, 0),
        Some(v(100 * PT, 100 * PT)),
    );
    assert!(pass.is_horizontal());
    assert!(!pass.is_vertical());
    assert_eq!(pass.direction(), FlexDirection::Horizontal);
    assert_eq!(pass.current_row_rect(), Some(rect(0, 0, 100 * PT, 10 * PT)));
    let placed = pass.place(item(), p(0, 0), rect(0, 0, 100 * PT, 10 * PT), v(100 * PT, 10 * PT), v(100 * PT, 50 * PT));
    assert!(placed.is_some());
    assert!(!pass.record(item().basis(40 * PT), items[0], rect(0, 0, 40 * PT, 10 * PT)));
    assert!(pass.record(item().basis(40 * PT), items[1], rect(0, 0, 90 * PT, 10 * PT)));
    assert_eq!(pass.current_row_rect(), Some(rect(0, 20 * PT, 100 * PT, 30 * PT)));
    assert!(pass.record(item().basis(40 * PT), items[2], rect(0, 20 * PT, 40 * PT, 30 * PT)));
    assert_eq!(pass.current_row_rect(), None);
    let extra = pass.place(item(), p(0, 0), rect(0, 0, 100 * PT, 10 * PT), v(100 * PT, 10 * PT), v(100 * PT, 50 * PT));
    assert!(extra.is_none());
    assert_eq!(pass.rows[0].final_rect, Some(rect(0, 0, 90 * PT, 10 * PT)));
    assert_eq!(pass.content_min_size(v(10 * PT, 10 * PT)), v(140 * PT, 10 * PT));
    assert_eq!(reconcile(&previous, &pass.state), PassSignal::Accept);
}

#[test]
fn empty_pass_min_size_subtracts_one_gap() {
    let pass = FlexPass::begin(Flex::new(), &FlexState::empty(), v(PT, PT), v(3, 4), p(0, 0), None);
    assert_eq!(pass.max_item_size, v(PT, PT));
    assert_eq!(pass.content_min_size(v(3, 4)), v(-3, 0));
}

#[test]
fn builders_set_fields() {
    let f = Flex::new();
    assert_eq!(f.direction, FlexDirection::Horizontal);
    assert!(f.wrap);
    assert_eq!(f.align_content, FlexAlignContent::Normal);
    let g = Flex::vertical().grow_items(500).align_items(FlexAlign::Center).id_salt(9).wrap(false);
    assert_eq!(g.default_item.grow, Some(500));
    assert_eq!(g.default_item.align_self, Some(FlexAlign::Center));
    assert_eq!(g.id_salt, Some(9));
    assert!(!g.wrap);
    let i = FlexItem::new().grow(2).basis(3).align_self_content(Align2 { x: Align::Min, y: Align::Max });
    assert_eq!(i.grow, Some(2));
    assert_eq!(i.basis, Some(3));
    assert_eq!(i.align_content, Some(Align2 { x: Align::Min, y: Align::Max }));
    let resolved = item().or_defaults(g.default_item);
    assert_eq!(resolved.grow, Some(500));
}

#[test]
fn nested_growing_cross_container_stretches() {
    let parent = Flex::horizontal();
    let nested = parent.nested(item().grow(1000), Flex::vertical());
    assert_eq!(nested.align_content, FlexAlignContent::Stretch);
    let same_dir = parent.nested(item().grow(1000), Flex::horizontal());
    assert_eq!(same_dir.align_content, FlexAlignContent::Normal);
    let no_grow = parent.nested(item(), Flex::vertical());
    assert_eq!(no_grow.align_content, FlexAlignContent::Normal);
}

#[test]
fn measured_state_takes_larger_minimum() {
    let s = ItemState::measured(3, item(), v(10, 20), v(15, 5), v(1, 2), p(11, 12), p(10, 10), true);
    assert_eq!(s.inner_size, v(10, 20));
    assert_eq!(s.inner_min_size, v(15, 20));
    assert_eq!(s.margin, Margin { left: 1, right: 1, top: 2, bottom: 2 });
    assert!(s.remeasure_widget);
    assert_eq!(s.min_size_with_margin(), v(17, 24));
}

#[test]
fn center_alignment_rounds_down() {
    assert_eq!(Align::Center.align_size_within_range(3, 0, 10), 3);
    assert_eq!(Align::Center.align_size_within_range(4, -5, 0), -5);
    assert_eq!(Align::Max.align_size_within_range(4, 0, 10), 6);
    let r = Align2::center_center().align_size_within_rect(v(2, 2), rect(0, 0, 10, 10));
    assert_eq!(r, rect(4, 4, 6, 6));
}

#[test]
fn share_follows_the_stored_grow() {
    let flex = Flex::horizontal();
    let stored = state_of(1, item().grow(1000), v(30 * PT, 10 * PT));
    let other = state_of(2, item(), v(50 * PT, 10 * PT));
    let row = one_row(&flex, vec![stored, other], v(100 * PT, 40 * PT));
    assert_eq!(row.extra_space, 20 * PT);
    assert_eq!(row.total_grow, 1000);
    let ui = place_item(
        item(),
        &row,
        0,
        0,
        p(0, 0),
        rect(0, 0, 100 * PT, 10 * PT),
        v(100 * PT, 10 * PT),
        v(100 * PT, 40 * PT),
        v(100 * PT, 40 * PT),
        v(100 * PT, 40 * PT),
    );
    assert_eq!(ui.frame_rect.max.x - ui.frame_rect.min.x, 50 * PT);
}

#[test]
fn pass_shares_row_space_by_stored_grow() {
    let flex = Flex::horizontal().gap(v(0, 0));
    let previous = snapshot(vec![
        state_of(1, item().grow(1000), v(20 * PT, 10 * PT)),
        state_of(2, item().grow(3000), v(20 * PT, 10 * PT)),
    ]);
    let mut pass = FlexPass::begin(flex, &previous, v(100 * PT, 50 * PT), v(0, 0), p(0, 0), None);
    let row_rect = rect(0, 0, 100 * PT, 10 * PT);
    let first = pass
        .place(item(), p(0, 0), row_rect, v(100 * PT, 10 * PT), v(100 * PT, 50 * PT))
        .unwrap();
    assert_eq!(first.frame_rect.max.x - first.frame_rect.min.x, 35 * PT);
    assert!(!pass.record(item(), previous.items[0], rect(0, 0, 35 * PT, 10 * PT)));
    let second = pass
        .place(item(), p(35 * PT, 0), row_rect, v(65 * PT, 10 * PT), v(100 * PT, 50 * PT))
        .unwrap();
    assert_eq!(second.frame_rect.max.x - second.frame_rect.min.x, 65 * PT);
    assert!(pass.record(item(), previous.items[1], rect(0, 0, 100 * PT, 10 * PT)));
    // the snapshot keeps the configuration given now, not the stored one
    assert_eq!(pass.state.items[0].config.grow, None);
    assert_eq!(reconcile(&previous, &pass.state), PassSignal::DiscardAndRepaint);
}

#[test]
fn recorded_item_takes_container_defaults() {
    let flex = Flex::horizontal().grow_items(2000).align_items(FlexAlign::End);
    let mut pass = FlexPass::begin(flex, &FlexState::empty(), v(100 * PT, 50 * PT), v(0, 0), p(0, 0), None);
    let measured = state_of(4, item(), v(PT, PT));
    assert!(pass.record(item().basis(5 * PT), measured, rect(0, 0, PT, PT)));
    let kept = pass.state.items[0];
    assert_eq!(kept.config.grow, Some(2000));
    assert_eq!(kept.config.basis, Some(5 * PT));
    assert_eq!(kept.config.align_self, Some(FlexAlign::End));
    assert_eq!(kept.inner_size, v(PT, PT));
}

#[test]
fn pass_shares_tiny_extra_space_in_full() {
    let flex = Flex::horizontal().gap(v(0, 0));
    let previous = snapshot(
        (0..3).map(|i| state_of(i, item().grow(1000), v(30, 10))).collect(),
    );
    let mut pass = FlexPass::begin(flex, &previous, v(92, 50), v(0, 0), p(0, 0), None);
    assert_eq!(pass.rows.len(), 1);
    assert_eq!(pass.rows[0].extra_space, 2);
    let mut total = 0;
    for k in 0..3 {
        let placed = pass
            .place(item().grow(1000), p(0, 0), rect(0, 0, 92, 10), v(92, 10), v(92, 50))
            .unwrap();
        total += placed.frame_rect.max.x - placed.frame_rect.min.x - 30;
        pass.record(item().grow(1000), previous.items[k], rect(0, 0, 92, 10));
    }
    assert_eq!(total, 2);
}
