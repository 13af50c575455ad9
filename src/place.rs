//! Placement of one item within its row.
use vstd::prelude::*;
use crate::flex::{FlexAlign, FlexItem};
use crate::geometry::{Align, Align2, Margin, Pos2, Rect, Vec2, aligned_start, in_range, in_span};
use crate::layout::{ItemState, RowData, items_bounded, row_grow};

verus! {

/// The largest magnitude of a length that comes from adding up a row.
pub const WIDE_LIMIT: i64 = 0x0100_0000_0000_0000;

/// Whether a value lies within the range of row sums.
pub open spec fn in_wide(v: int) -> bool {
    -WIDE_LIMIT <= v <= WIDE_LIMIT
}

/// Total grow weight of the first `k` items of a row.
pub open spec fn grow_before(items: Seq<ItemState>, k: int) -> int {
    row_grow(items.subrange(0, k))
}

/// The extra main-axis length of an item with grow weight `grow`, after items
/// of total weight `before`, in a row with `extra_space` left over and total
/// weight `total_grow`. The space is split by running weight: the item gets
/// what lies between the rounded-down shares of the items before it and of
/// those up to it, so that the shares of a row add up to its extra space.
/// Nothing when no space is left or no item grows.
pub open spec fn grow_share(extra_space: int, before: int, grow: int, total_grow: int) -> int {
    if extra_space > 0 && total_grow > 0 {
        extra_space * (before + grow) / total_grow - extra_space * before / total_grow
    } else {
        0
    }
}

/// The extra main-axis length of the item at `index` of a row of `items`
/// with `extra_space` left over.
pub open spec fn item_share(items: Seq<ItemState>, index: int, extra_space: int) -> int {
    grow_share(
        extra_space,
        grow_before(items, index),
        items[index].config.grow_weight(),
        row_grow(items),
    )
}

proof fn lemma_grow_step(items: Seq<ItemState>, k: int)
    requires
        0 <= k < items.len(),
    ensures
        grow_before(items, k + 1) == grow_before(items, k) + items[k].config.grow_weight(),
{
    assert(items.subrange(0, k + 1).drop_last() =~= items.subrange(0, k));
    assert(items.subrange(0, k + 1).last() == items[k]);
}

proof fn lemma_grow_prefix_le(items: Seq<ItemState>, j: int, n: int)
    requires
        0 <= j <= n <= items.len(),
    ensures
        0 <= grow_before(items, j) <= grow_before(items, n),
    decreases n - j,
{
    if j < n {
        lemma_grow_prefix_le(items, j, n - 1);
        lemma_grow_step(items, n - 1);
    } else {
        lemma_grow_nonneg(items.subrange(0, j));
    }
}

proof fn lemma_grow_nonneg(row: Seq<ItemState>)
    ensures
        row_grow(row) >= 0,
    decreases row.len(),
{
    if row.len() > 0 {
        lemma_grow_nonneg(row.drop_last());
    }
}

/// The weights before an item and up to it lie within the row's total.
proof fn lemma_grow_within_row(items: Seq<ItemState>, k: int)
    requires
        0 <= k < items.len(),
    ensures
        0 <= grow_before(items, k),
        grow_before(items, k + 1) == grow_before(items, k) + items[k].config.grow_weight(),
        grow_before(items, k + 1) <= row_grow(items),
        0 <= items[k].config.grow_weight(),
{
    lemma_grow_step(items, k);
    lemma_grow_prefix_le(items, k, k + 1);
    lemma_grow_prefix_le(items, k + 1, items.len() as int);
    assert(items.subrange(0, items.len() as int) =~= items);
}

impl Margin {
    /// The margin before the content along `axis`: left or top.
    pub open spec fn lead(self, axis: int) -> int {
        if axis == 0 {
            self.left as int
        } else {
            self.top as int
        }
    }

    /// The margin after the content along `axis`: right or bottom.
    pub open spec fn trail(self, axis: int) -> int {
        if axis == 0 {
            self.right as int
        } else {
            self.bottom as int
        }
    }
}

/// The main-axis length of an item's frame: its basis or minimum size with
/// the margin and its extra length; in a row of its own, at most `available`.
pub open spec fn frame_main_length(
    item: FlexItem,
    state: ItemState,
    extra: int,
    row_count: int,
    available: int,
    axis: int,
) -> int {
    let wanted = match item.basis {
        Some(b) => b + state.margin.total().at(axis),
        None => state.min_with_margin(axis),
    } + extra;
    if row_count == 1 && wanted > available {
        available
    } else {
        wanted
    }
}

/// The main-axis length of an item's content before it is placed: its basis
/// with the extra length, else its last size, and at most the available
/// length without the margin.
pub open spec fn inner_main_length(
    item: FlexItem,
    state: ItemState,
    extra: int,
    available: int,
    axis: int,
) -> int {
    let wanted = match item.basis {
        Some(b) => b + extra,
        None => state.inner_size.at(axis) as int,
    };
    let room = available - state.margin.total().at(axis);
    if wanted < room {
        wanted
    } else {
        room
    }
}

/// The one-axis alignment that an item's `align_self` asks for in the cross
/// axis; `None` for stretch, the default.
pub open spec fn cross_anchor(a: Option<FlexAlign>) -> Option<Align> {
    match a {
        Some(FlexAlign::Start) => Some(Align::Min),
        Some(FlexAlign::End) => Some(Align::Max),
        Some(FlexAlign::Center) => Some(Align::Center),
        _ => None,
    }
}

/// Where and how large an item is drawn, and what its content is told.
#[derive(Clone, Copy, Debug, PartialEq, Eq, Structural)]
pub struct FlexContainerUi {
    pub direction: usize,
    pub content_rect: Rect,
    pub frame_rect: Rect,
    pub margin: Margin,
    pub max_item_size: Vec2,
    pub remeasure_widget: bool,
    pub last_inner_size: Option<Vec2>,
}

impl FlexContainerUi {
    /// Whether a widget whose content now reports `intrinsic_size` must be
    /// drawn again with the full room: its size across the main axis changed
    /// since the last pass (it may have wrapped), and it is not being
    /// remeasured already.
    pub fn remeasure_after(&self, intrinsic_size: Vec2) -> (r: bool)
        requires
            self.direction < 2,
        ensures
            r == (self.last_inner_size is Some && self.last_inner_size->0.at(1 - self.direction as int)
                != intrinsic_size.at(1 - self.direction as int) && !self.remeasure_widget),
    {
        let cross: usize = 1 - self.direction;
        match self.last_inner_size {
            Some(last) => last.get(cross) != intrinsic_size.get(cross) && !self.remeasure_widget,
            None => false,
        }
    }
}

fn vec_on(axis: usize, main: i64, cross: i64) -> (v: Vec2)
    requires
        axis < 2,
    ensures
        v.at(axis as int) == main,
        v.at(1 - axis as int) == cross,
{
    if axis == 0 {
        Vec2 { x: main, y: cross }
    } else {
        Vec2 { x: cross, y: main }
    }
}

fn min_i64(a: i64, b: i64) -> (r: i64)
    ensures
        r == if a < b { a } else { b },
{
    if a < b {
        a
    } else {
        b
    }
}

/// `r` is how an item is laid out by `place_item` from these inputs.
pub open spec fn placed_as(
    r: FlexContainerUi,
    item: FlexItem,
    row: RowData,
    index: int,
    direction: usize,
    cursor: Pos2,
    row_rect: Rect,
    available: Vec2,
    container_available: Vec2,
    max_item_size: Vec2,
    last_max_item_size: Vec2,
) -> bool {
    let axis = direction as int;
    let cross = 1 - axis;
    let state = row.items@[index];
    let extra = item_share(row.items@, index, row.extra_space as int);
    let main_len = frame_main_length(
        item,
        state,
        extra,
        row.items@.len() as int,
        available.at(axis) as int,
        axis,
    );
    let frame = r.frame_rect;
    let inner_main = inner_main_length(item, state, extra, available.at(axis) as int, axis);
    let inner_cross = state.inner_size.at(cross) as int;
    let max_content = max_item_size.at(axis) - state.margin.total().at(axis);
    let content = r.content_rect;
    &&& r.direction == direction
    &&& r.margin == state.margin
    &&& r.last_inner_size == Some(state.inner_size)
    &&& r.max_item_size.x == max_item_size.x - state.margin.total().x
    &&& r.max_item_size.y == max_item_size.y - state.margin.total().y
    &&& r.remeasure_widget == (state.remeasure_widget || max_item_size.at(axis)
        > last_max_item_size.at(axis))
    // the frame
    &&& frame.max.at(axis) - frame.min.at(axis) == main_len
    &&& match cross_anchor(item.align_self) {
        None => {
            &&& frame.min == cursor
            &&& frame.max.at(cross) - frame.min.at(cross) == row.cross_size_with_extra_space
        },
        Some(a) => {
            &&& frame.min.at(axis) == row_rect.min.at(axis)
            &&& frame.min.at(cross) == aligned_start(
                a,
                state.min_with_margin(cross),
                row_rect.min.at(cross) as int,
                row_rect.max.at(cross) as int,
            )
            &&& frame.max.at(cross) - frame.min.at(cross) == state.min_with_margin(cross)
        },
    }
    // the content: aligned in the frame without its margin
    &&& content.min.at(axis) == aligned_start(
        or_center(item.align_content).on(axis),
        inner_main,
        frame.min.at(axis) + state.margin.lead(axis),
        frame.max.at(axis) - state.margin.trail(axis),
    )
    &&& content.min.at(cross) == aligned_start(
        or_center(item.align_content).on(cross),
        inner_cross,
        frame.min.at(cross) + state.margin.lead(cross),
        frame.max.at(cross) - state.margin.trail(cross),
    )
    // sized to the largest content in the main axis, reaching the
    // largest item size in the cross axis; with a basis, to the basis
    // and the room left in the container
    &&& match item.basis {
        None => {
            &&& content.max.at(axis) == content.min.at(axis) + max_content
            &&& content.max.at(cross) == max_item_size.at(cross)
        },
        Some(b) => {
            &&& content.max.at(axis) == content.min.at(axis) + min_of(
                b + extra,
                container_available.at(axis) - state.margin.total().at(axis),
            )
            &&& content.max.at(cross) == content.min.at(cross) + min_of(
                max_item_size.at(cross) - content.min.at(cross),
                container_available.at(cross) - state.margin.total().at(cross),
            )
        },
    }
}

/// Lay out one item in its row.
///
/// `item` is the item's configuration with the container's defaults filled
/// in, and `row.items[index]` what was measured of it in the last pass. The
/// item's share of the row's extra space follows the grow weights kept in the
/// row, the ones that the row's total counts. `cursor` is where the row's surface places its next child,
/// `row_rect` that surface's whole rectangle, `available` the room left on it,
/// and `container_available` the room left in the container.
/// `max_item_size` bounds the content of every item in this pass, and
/// `last_max_item_size` did so in the last one.
#[verifier::rlimit(80)]
pub fn place_item(
    item: FlexItem,
    row: &RowData,
    index: usize,
    direction: usize,
    cursor: Pos2,
    row_rect: Rect,
    available: Vec2,
    container_available: Vec2,
    max_item_size: Vec2,
    last_max_item_size: Vec2,
) -> (r: FlexContainerUi)
    requires
        direction < 2,
        item.bounded(),
        index < row.items@.len(),
        items_bounded(row.items@),
        row.total_grow == row_grow(row.items@),
        row.total_grow <= 0x10_0000_0000_0000,
        cursor.bounded(),
        row_rect.bounded(),
        available.bounded(),
        container_available.bounded(),
        max_item_size.bounded(),
        last_max_item_size.bounded(),
        in_wide(row.extra_space as int),
        in_wide(row.cross_size_with_extra_space as int),
    ensures
        placed_as(
            r,
            item,
            *row,
            index as int,
            direction,
            cursor,
            row_rect,
            available,
            container_available,
            max_item_size,
            last_max_item_size,
        ),
{
    let axis = direction;
    let cross: usize = 1 - direction;
    let state = &row.items[index];
    assert(state.bounded());
    let margin_sum = state.margin.sum();
    let (before, grow) = weights_at(row, index);
    let extra_length = grow_share_length(row.extra_space, before, grow, row.total_grow);
    let min_size = state.min_size_with_margin();
    let base: i64 = match item.basis {
        Some(b) => b + margin_sum.get(axis),
        None => min_size.get(axis),
    };
    let mut main_len: i64 = base + extra_length;
    if row.items.len() == 1 {
        main_len = min_i64(main_len, available.get(axis));
    }
    let frame_rect = match item.align_self {
        Some(FlexAlign::Start) => anchored(Align::Min, axis, main_len, min_size.get(cross), row_rect),
        Some(FlexAlign::End) => anchored(Align::Max, axis, main_len, min_size.get(cross), row_rect),
        Some(FlexAlign::Center) => anchored(Align::Center, axis, main_len, min_size.get(cross), row_rect),
        _ => {
            let size = vec_on(axis, main_len, row.cross_size_with_extra_space);
            Rect { min: cursor, max: Pos2 { x: cursor.x + size.x, y: cursor.y + size.y } }
        },
    };
    let content_rect = content_rect_of(
        item,
        state,
        direction,
        extra_length,
        frame_rect,
        available,
        container_available,
        max_item_size,
    );
    let max_content_size = Vec2 {
        x: max_item_size.x - margin_sum.x,
        y: max_item_size.y - margin_sum.y,
    };
    FlexContainerUi {
        direction,
        content_rect,
        frame_rect,
        margin: state.margin,
        max_item_size: max_content_size,
        remeasure_widget: state.remeasure_widget || max_item_size.get(axis) > last_max_item_size.get(axis),
        last_inner_size: Some(state.inner_size),
    }
}

/// The rectangle of an item's content inside its frame.
#[verifier::rlimit(80)]
fn content_rect_of(
    item: FlexItem,
    state: &ItemState,
    direction: usize,
    extra_length: i64,
    frame_rect: Rect,
    available: Vec2,
    container_available: Vec2,
    max_item_size: Vec2,
) -> (content: Rect)
    requires
        direction < 2,
        item.bounded(),
        state.bounded(),
        available.bounded(),
        container_available.bounded(),
        max_item_size.bounded(),
        0 <= extra_length <= WIDE_LIMIT,
        in_span(frame_rect.min.x as int) && in_span(frame_rect.min.y as int),
        in_span(frame_rect.max.x as int) && in_span(frame_rect.max.y as int),
        -0x0800_0000_0000_0000 <= frame_rect.min.x <= 0x0800_0000_0000_0000,
        -0x0800_0000_0000_0000 <= frame_rect.min.y <= 0x0800_0000_0000_0000,
        -0x0800_0000_0000_0000 <= frame_rect.max.x <= 0x0800_0000_0000_0000,
        -0x0800_0000_0000_0000 <= frame_rect.max.y <= 0x0800_0000_0000_0000,
    ensures
        ({
            let axis = direction as int;
            let cross = 1 - axis;
            let extra = extra_length as int;
            let inner_main = inner_main_length(item, *state, extra, available.at(axis) as int, axis);
            let inner_cross = state.inner_size.at(cross) as int;
            let max_content = max_item_size.at(axis) - state.margin.total().at(axis);
            let frame = frame_rect;
            &&& content.min.at(axis) == aligned_start(
                or_center(item.align_content).on(axis),
                inner_main,
                frame.min.at(axis) + state.margin.lead(axis),
                frame.max.at(axis) - state.margin.trail(axis),
            )
            &&& content.min.at(cross) == aligned_start(
                or_center(item.align_content).on(cross),
                inner_cross,
                frame.min.at(cross) + state.margin.lead(cross),
                frame.max.at(cross) - state.margin.trail(cross),
            )
            &&& match item.basis {
                None => {
                    &&& content.max.at(axis) == content.min.at(axis) + max_content
                    &&& content.max.at(cross) == max_item_size.at(cross)
                },
                Some(b) => {
                    &&& content.max.at(axis) == content.min.at(axis) + min_of(
                        b + extra,
                        container_available.at(axis) - state.margin.total().at(axis),
                    )
                    &&& content.max.at(cross) == content.min.at(cross) + min_of(
                        max_item_size.at(cross) - content.min.at(cross),
                        container_available.at(cross) - state.margin.total().at(cross),
                    )
                },
            }
        }),
{
    let axis = direction;
    let cross: usize = 1 - direction;
    let margin_sum = state.margin.sum();
    let wanted_inner: i64 = match item.basis {
        Some(b) => b + extra_length,
        None => state.inner_size.get(axis),
    };
    let inner_main = min_i64(wanted_inner, available.get(axis) - margin_sum.get(axis));
    let inner_size = vec_on(axis, inner_main, state.inner_size.get(cross));
    let content_align = match item.align_content {
        Some(a) => a,
        None => Align2::center_center(),
    };
    let frame_without_margin = Rect {
        min: Pos2 { x: frame_rect.min.x + state.margin.left, y: frame_rect.min.y + state.margin.top },
        max: Pos2 {
            x: frame_rect.max.x - state.margin.right,
            y: frame_rect.max.y - state.margin.bottom,
        },
    };
    let cx = content_align.x.align_size_within_range(
        inner_size.x,
        frame_without_margin.min.x,
        frame_without_margin.max.x,
    );
    let cy = content_align.y.align_size_within_range(
        inner_size.y,
        frame_without_margin.min.y,
        frame_without_margin.max.y,
    );
    let max_content_size = Vec2 {
        x: max_item_size.x - margin_sum.x,
        y: max_item_size.y - margin_sum.y,
    };
    let content_min = Pos2 { x: cx, y: cy };
    let mut content_max = Pos2 { x: cx + max_content_size.x, y: cy + max_content_size.y };
    if cross == 0 {
        content_max.x = max_item_size.x;
    } else {
        content_max.y = max_item_size.y;
    }
    if let Some(b) = item.basis {
        let main_size = min_i64(b + extra_length, container_available.get(axis) - margin_sum.get(axis));
        let cross_size = min_i64(
            content_max.get_along(cross) - content_min.get_along(cross),
            container_available.get(cross) - margin_sum.get(cross),
        );
        let size = vec_on(axis, main_size, cross_size);
        content_max = Pos2 { x: content_min.x + size.x, y: content_min.y + size.y };
    }
    Rect { min: content_min, max: content_max }
}

/// The extra main-axis length of an item with grow weight `grow`, after items
/// of total weight `before`, in a row with `extra_space` left over and total
/// weight `total_grow`.
pub fn grow_share_length(extra_space: i64, before: u64, grow: u64, total_grow: u64) -> (r: i64)
    requires
        in_wide(extra_space as int),
        before + grow <= total_grow <= 0x10_0000_0000_0000,
    ensures
        r == grow_share(extra_space as int, before as int, grow as int, total_grow as int),
        0 <= r,
        extra_space >= 0 ==> r <= extra_space,
{
    if extra_space > 0 && total_grow > 0 {
        let ghost e = extra_space as int;
        let ghost t = total_grow as int;
        let ghost b = before as int;
        let ghost u = (before + grow) as int;
        proof {
            assert(0 <= e * b <= e * u <= e * t) by (nonlinear_arith)
                requires
                    0 < e,
                    0 <= b <= u <= t,
            ;
            assert(e * t <= 0x0100_0000_0000_0000 * 0x10_0000_0000_0000) by (nonlinear_arith)
                requires
                    0 < e <= 0x0100_0000_0000_0000,
                    0 < t <= 0x10_0000_0000_0000,
            ;
            assert(e * b / t <= e * u / t <= e) by (nonlinear_arith)
                requires
                    0 <= e * b <= e * u <= e * t,
                    0 < t,
            ;
            assert(e * b / t >= 0) by (nonlinear_arith)
                requires
                    0 <= e * b,
                    0 < t,
            ;
        }
        let up_to: i128 = (extra_space as i128 * (before + grow) as i128) / total_grow as i128;
        let below: i128 = (extra_space as i128 * before as i128) / total_grow as i128;
        (up_to - below) as i64
    } else {
        0
    }
}

/// The total grow weight of the items before `index`, and the item's own.
fn weights_at(row: &RowData, index: usize) -> (r: (u64, u64))
    requires
        index < row.items@.len(),
        row.total_grow == row_grow(row.items@),
        row.total_grow <= 0x10_0000_0000_0000,
    ensures
        r.0 == grow_before(row.items@, index as int),
        r.1 == row.items@[index as int].config.grow_weight(),
        r.0 + r.1 <= row.total_grow,
{
    let mut before: u64 = 0;
    let mut k: usize = 0;
    while k < index
        invariant
            index < row.items@.len(),
            0 <= k <= index,
            before == grow_before(row.items@, k as int),
            row.total_grow == row_grow(row.items@),
            row.total_grow <= 0x10_0000_0000_0000,
        decreases index - k,
    {
        proof {
            lemma_grow_within_row(row.items@, k as int);
            lemma_grow_prefix_le(row.items@, k + 1, index as int);
            lemma_grow_within_row(row.items@, index as int);
        }
        let w: u64 = match row.items[k].config.grow {
            Some(g) => g as u64,
            None => 0,
        };
        before = before + w;
        k = k + 1;
    }
    proof {
        lemma_grow_within_row(row.items@, index as int);
    }
    let grow: u64 = match row.items[index].config.grow {
        Some(g) => g as u64,
        None => 0,
    };
    (before, grow)
}

/// The smaller of two values.
pub open spec fn min_of(a: int, b: int) -> int {
    if a < b {
        a
    } else {
        b
    }
}

/// The content alignment an item asks for; centered when it asks for none.
pub open spec fn or_center(a: Option<Align2>) -> Align2 {
    match a {
        Some(v) => v,
        None => Align2 { x: Align::Center, y: Align::Center },
    }
}

/// A frame of `main_len` by `cross_len`, at the start of `row_rect` in the main
/// axis and aligned by `align` in the cross axis.
fn anchored(align: Align, axis: usize, main_len: i64, cross_len: i64, row_rect: Rect) -> (r: Rect)
    requires
        axis < 2,
        row_rect.bounded(),
        -0x0400_0000_0000_0000 <= main_len <= 0x0400_0000_0000_0000,
        in_wide(cross_len as int),
    ensures
        r.min.at(axis as int) == row_rect.min.at(axis as int),
        r.max.at(axis as int) - r.min.at(axis as int) == main_len,
        r.min.at(1 - axis as int) == aligned_start(
            align,
            cross_len as int,
            row_rect.min.at(1 - axis as int) as int,
            row_rect.max.at(1 - axis as int) as int,
        ),
        r.max.at(1 - axis as int) - r.min.at(1 - axis as int) == cross_len,
{
    let cross: usize = 1 - axis;
    let start = align.align_size_within_range(
        cross_len,
        row_rect.min.get_along(cross),
        row_rect.max.get_along(cross),
    );
    let main_start = row_rect.min.get_along(axis);
    let size = vec_on(axis, main_len, cross_len);
    let min = if axis == 0 {
        Pos2 { x: main_start, y: start }
    } else {
        Pos2 { x: start, y: main_start }
    };
    Rect { min, max: Pos2 { x: min.x + size.x, y: min.y + size.y } }
}

/// Sum of the extra lengths of the first `n` items of a row.
pub open spec fn shares_up_to(items: Seq<ItemState>, n: int, extra_space: int) -> int
    decreases n,
{
    if n <= 0 {
        0
    } else {
        shares_up_to(items, n - 1, extra_space) + item_share(items, n - 1, extra_space)
    }
}

proof fn lemma_shares_telescope(items: Seq<ItemState>, n: int, extra_space: int)
    requires
        extra_space > 0,
        row_grow(items) > 0,
        0 <= n <= items.len(),
    ensures
        shares_up_to(items, n, extra_space) == extra_space * grow_before(items, n) / row_grow(items),
    decreases n,
{
    let t = row_grow(items);
    if n == 0 {
        assert(items.subrange(0, 0) =~= Seq::<ItemState>::empty());
        assert(extra_space * 0 == 0) by (nonlinear_arith);
        assert(0int / t == 0);
    } else {
        lemma_shares_telescope(items, n - 1, extra_space);
        lemma_grow_step(items, n - 1);
    }
}

/// The extra space of a row is shared out in full: the extra lengths of its
/// items add up to exactly `extra_space`, and each item's length is within
/// one unit of `extra_space * weight / total weight`.
pub proof fn lemma_grow_shares_fill_row(items: Seq<ItemState>, extra_space: int)
    requires
        extra_space >= 0,
        row_grow(items) > 0,
    ensures
        shares_up_to(items, items.len() as int, extra_space) == extra_space,
        forall|k: int|
            0 <= k < items.len() ==> {
                let t = row_grow(items);
                let w = items[k].config.grow_weight();
                &&& t * #[trigger] item_share(items, k, extra_space) > extra_space * w - t
                &&& t * item_share(items, k, extra_space) < extra_space * w + t
            },
{
    let t = row_grow(items);
    if extra_space > 0 {
        lemma_shares_telescope(items, items.len() as int, extra_space);
        assert(items.subrange(0, items.len() as int) =~= items);
        assert(extra_space * t / t == extra_space) by (nonlinear_arith)
            requires
                t > 0,
        ;
    } else {
        assert forall|n: int| 0 <= n <= items.len() implies shares_up_to(items, n, extra_space) == 0 by {
            lemma_shares_zero(items, n, extra_space);
        }
    }
    assert forall|k: int| 0 <= k < items.len() implies {
        let w = items[k].config.grow_weight();
        &&& t * #[trigger] item_share(items, k, extra_space) > extra_space * w - t
        &&& t * item_share(items, k, extra_space) < extra_space * w + t
    } by {
        let w = items[k].config.grow_weight();
        let b = grow_before(items, k);
        lemma_grow_within_row(items, k);
        if extra_space > 0 {
            let x1 = extra_space * (b + w) / t;
            let x0 = extra_space * b / t;
            assert(t * x1 <= extra_space * (b + w) && t * x1 > extra_space * (b + w) - t)
                by (nonlinear_arith)
                requires
                    x1 == extra_space * (b + w) / t,
                    t > 0,
            ;
            assert(t * x0 <= extra_space * b && t * x0 > extra_space * b - t) by (nonlinear_arith)
                requires
                    x0 == extra_space * b / t,
                    t > 0,
            ;
            assert(extra_space * (b + w) == extra_space * b + extra_space * w) by (nonlinear_arith);
            assert(t * (x1 - x0) == t * x1 - t * x0) by (nonlinear_arith);
        } else {
            assert(extra_space * w == 0) by (nonlinear_arith)
                requires
                    extra_space == 0,
            ;
            assert(t * 0 == 0) by (nonlinear_arith);
        }
    }
}

proof fn lemma_shares_zero(items: Seq<ItemState>, n: int, extra_space: int)
    requires
        extra_space <= 0,
    ensures
        shares_up_to(items, n, extra_space) == 0,
    decreases n,
{
    if n > 0 {
        lemma_shares_zero(items, n - 1, extra_space);
    }
}

} // verus!
