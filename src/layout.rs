//! Measured item state and the partition of items into rows.
use vstd::prelude::*;
use crate::flex::{Flex, FlexAlignContent, FlexItem};
use crate::geometry::{Margin, Pos2, Rect, Vec2, COORD_LIMIT, in_range};

verus! {

/// The most items that a container lays out.
pub const MAX_ITEMS: usize = 0x10_0000;

/// What was measured of an item in a pass, kept for the next pass.
#[derive(Clone, Copy, Debug, PartialEq, Eq, Structural)]
pub struct ItemState {
    pub id: u64,
    pub config: FlexItem,
    pub inner_size: Vec2,
    pub inner_min_size: Vec2,
    pub margin: Margin,
    pub remeasure_widget: bool,
}

impl ItemState {
    pub open spec fn bounded(self) -> bool {
        &&& self.config.bounded()
        &&& self.inner_size.bounded()
        &&& self.inner_min_size.bounded()
        &&& self.margin.bounded()
    }

    /// The minimum size with the margin added, along `axis`.
    pub open spec fn min_with_margin(self, axis: int) -> int {
        self.inner_min_size.at(axis) + self.margin.total().at(axis)
    }

    /// The room the item takes in the main axis `axis` when rows are formed:
    /// its basis if it has one, else its minimum size, margin included.
    pub open spec fn footprint(self, axis: int) -> int {
        match self.config.basis {
            Some(b) => b + self.margin.total().at(axis),
            None => self.min_with_margin(axis),
        }
    }

    /// What was measured of an item after its content was drawn.
    ///
    /// `child_size` is the size the content took and `reported_min` the
    /// minimum size its surface reported; the margin is the offset of the
    /// container's content from the frame (`margin_top_left`) and the offset
    /// of the container's drawn rectangle from the item's outer rectangle.
    pub fn measured(
        id: u64,
        config: FlexItem,
        child_size: Vec2,
        reported_min: Vec2,
        margin_top_left: Vec2,
        container_min: Pos2,
        outer_min: Pos2,
        remeasure_widget: bool,
    ) -> (r: ItemState)
        requires
            container_min.bounded(),
            outer_min.bounded(),
        ensures
            r.id == id,
            r.config == config,
            r.inner_size == child_size,
            r.inner_min_size.x == if reported_min.x > child_size.x {
                reported_min.x
            } else {
                child_size.x
            },
            r.inner_min_size.y == if reported_min.y > child_size.y {
                reported_min.y
            } else {
                child_size.y
            },
            r.margin == (Margin {
                top: margin_top_left.y,
                left: margin_top_left.x,
                bottom: (container_min.y - outer_min.y) as i64,
                right: (container_min.x - outer_min.x) as i64,
            }),
            r.remeasure_widget == remeasure_widget,
    {
        let inner_min_size = Vec2 {
            x: if reported_min.x > child_size.x { reported_min.x } else { child_size.x },
            y: if reported_min.y > child_size.y { reported_min.y } else { child_size.y },
        };
        ItemState {
            id,
            config,
            inner_size: child_size,
            inner_min_size,
            margin: Margin {
                top: margin_top_left.y,
                left: margin_top_left.x,
                bottom: container_min.y - outer_min.y,
                right: container_min.x - outer_min.x,
            },
            remeasure_widget,
        }
    }

    /// The minimum size with the margin added.
    pub fn min_size_with_margin(&self) -> (r: Vec2)
        requires
            self.bounded(),
        ensures
            r.x == self.min_with_margin(0),
            r.y == self.min_with_margin(1),
    {
        let m = self.margin.sum();
        Vec2 { x: self.inner_min_size.x + m.x, y: self.inner_min_size.y + m.y }
    }
}

/// Whether every item is bounded and there are not too many.
pub open spec fn items_bounded(items: Seq<ItemState>) -> bool {
    &&& items.len() <= MAX_ITEMS
    &&& forall|i: int| 0 <= i < items.len() ==> (#[trigger] items[i]).bounded()
}

/// Length of a row in the main axis: the footprints of its items and a gap
/// between each two of them.
pub open spec fn row_total(row: Seq<ItemState>, axis: int, gap: int) -> int
    decreases row.len(),
{
    if row.len() == 0 {
        0
    } else {
        row_total(row.drop_last(), axis, gap) + row.last().footprint(axis) + if row.len() > 1 {
            gap
        } else {
            0
        }
    }
}

/// Sum of the grow weights of a row's items.
pub open spec fn row_grow(row: Seq<ItemState>) -> int
    decreases row.len(),
{
    if row.len() == 0 {
        0
    } else {
        row_grow(row.drop_last()) + row.last().config.grow_weight()
    }
}

/// Size of a row in the cross axis `cross`: the largest minimum size of its
/// items, margin included, and never below zero.
pub open spec fn row_cross(row: Seq<ItemState>, cross: int) -> int
    decreases row.len(),
{
    if row.len() == 0 {
        0
    } else {
        let before = row_cross(row.drop_last(), cross);
        let m = row.last().min_with_margin(cross);
        if m > before {
            m
        } else {
            before
        }
    }
}

/// The rows that a greedy left-to-right fill forms: an item starts a new row
/// when wrapping is on, the current row has an item, and the item with a gap
/// would take the row beyond `available`.
pub open spec fn greedy_rows(
    items: Seq<ItemState>,
    axis: int,
    available: int,
    gap: int,
    wrap: bool,
) -> Seq<Seq<ItemState>>
    decreases items.len(),
{
    if items.len() == 0 {
        Seq::empty()
    } else {
        let before = greedy_rows(items.drop_last(), axis, available, gap, wrap);
        let it = items.last();
        if before.len() == 0 {
            seq![seq![it]]
        } else if wrap && it.footprint(axis) + gap + row_total(before.last(), axis, gap)
            > available {
            before.push(seq![it])
        } else {
            before.update(before.len() - 1, before.last().push(it))
        }
    }
}

/// The rows hold the items in their order, each once, and no row is empty.
pub proof fn lemma_rows_partition(
    items: Seq<ItemState>,
    axis: int,
    available: int,
    gap: int,
    wrap: bool,
)
    ensures
        greedy_rows(items, axis, available, gap, wrap).flatten() == items,
        forall|r: int|
            0 <= r < greedy_rows(items, axis, available, gap, wrap).len() ==> #[trigger] greedy_rows(
                items,
                axis,
                available,
                gap,
                wrap,
            )[r].len() > 0,
        items.len() > 0 <==> greedy_rows(items, axis, available, gap, wrap).len() > 0,
        greedy_rows(items, axis, available, gap, wrap).len() <= items.len(),
    decreases items.len(),
{
    broadcast use Seq::lemma_flatten_push;
    if items.len() > 0 {
        let pre = items.drop_last();
        lemma_rows_partition(pre, axis, available, gap, wrap);
        let before = greedy_rows(pre, axis, available, gap, wrap);
        let it = items.last();
        if before.len() == 0 {
            assert(pre.len() == 0);
            let rows = seq![seq![it]];
            assert(rows.len() == 1);
            assert(rows.flatten() == rows[0]) by {
                Seq::lemma_flatten_singleton(rows);
            }
            assert(items =~= seq![it]);
        } else if wrap && it.footprint(axis) + gap + row_total(before.last(), axis, gap)
            > available {
            assert(before.push(seq![it]).flatten() == before.flatten() + seq![it]);
            assert(items =~= pre.push(it));
        } else {
            let last = before.last();
            let init = before.drop_last();
            assert(before =~= init.push(last));
            assert(before.update(before.len() - 1, last.push(it)) =~= init.push(last.push(it)));
            assert(init.push(last.push(it)).flatten() == init.flatten() + last.push(it));
            assert(init.push(last).flatten() == init.flatten() + last);
            assert(items =~= pre.push(it));
            assert(init.flatten() + last.push(it) =~= (init.flatten() + last).push(it));
        }
    }
}

/// Without wrapping, a non-empty list of items forms exactly one row.
pub proof fn lemma_no_wrap_single_row(items: Seq<ItemState>, axis: int, available: int, gap: int)
    requires
        items.len() > 0,
    ensures
        greedy_rows(items, axis, available, gap, false).len() == 1,
    decreases items.len(),
{
    if items.len() > 1 {
        lemma_no_wrap_single_row(items.drop_last(), axis, available, gap);
    } else {
        assert(greedy_rows(items.drop_last(), axis, available, gap, false).len() == 0);
    }
}

/// With wrapping, every row of two or more items fits in `available`; only a
/// row of a single item can be longer.
pub proof fn lemma_wrapped_rows_fit(items: Seq<ItemState>, axis: int, available: int, gap: int)
    ensures
        forall|r: int|
            0 <= r < greedy_rows(items, axis, available, gap, true).len() && #[trigger] greedy_rows(
                items,
                axis,
                available,
                gap,
                true,
            )[r].len() >= 2 ==> row_total(
                greedy_rows(items, axis, available, gap, true)[r],
                axis,
                gap,
            ) <= available,
    decreases items.len(),
{
    if items.len() > 0 {
        let pre = items.drop_last();
        lemma_wrapped_rows_fit(pre, axis, available, gap);
        let before = greedy_rows(pre, axis, available, gap, true);
        let it = items.last();
        if before.len() > 0 {
            let last = before.last();
            let rows = greedy_rows(items, axis, available, gap, true);
            if !(it.footprint(axis) + gap + row_total(last, axis, gap) > available) {
                let grown = last.push(it);
                assert(grown.drop_last() =~= last);
                assert(row_total(grown, axis, gap) == row_total(last, axis, gap) + it.footprint(axis)
                    + if grown.len() > 1 { gap } else { 0 });
                assert forall|r: int| 0 <= r < rows.len() && #[trigger] rows[r].len() >= 2 implies row_total(
                    rows[r],
                    axis,
                    gap,
                ) <= available by {
                    if r < before.len() - 1 {
                        assert(rows[r] == before[r]);
                    }
                }
            } else {
                assert forall|r: int| 0 <= r < rows.len() && #[trigger] rows[r].len() >= 2 implies row_total(
                    rows[r],
                    axis,
                    gap,
                ) <= available by {
                    assert(rows[r] == before[r]);
                }
            }
        }
    }
}

/// A row of the layout: its items, its lengths, and where it stands.
#[derive(Debug)]
pub struct RowData {
    pub items: Vec<ItemState>,
    pub total_size: i64,
    pub total_grow: u64,
    pub extra_space: i64,
    pub cross_size: i64,
    pub cross_size_with_extra_space: i64,
    pub rect: Rect,
    pub final_rect: Option<Rect>,
}

/// The measured items of a container, and the largest size an item could have.
#[derive(Clone, Debug)]
pub struct FlexState {
    pub items: Vec<ItemState>,
    pub max_item_size: Vec2,
}

impl RowData {
    /// The aggregates of the row agree with its items.
    pub open spec fn sums_agree(self, axis: int, gap: int) -> bool {
        &&& self.total_size == row_total(self.items@, axis, gap)
        &&& self.total_grow == row_grow(self.items@)
        &&& self.cross_size == row_cross(self.items@, 1 - axis)
    }

    /// The aggregates are small enough to compute with.
    pub open spec fn bounded_sums(self) -> bool {
        &&& -0x10_0000_0000_0000 <= self.total_size <= 0x10_0000_0000_0000
        &&& self.total_grow <= 0x10_0000_0000_0000
        &&& 0 <= self.cross_size <= 0xC000_0000
    }

    /// A row with no items.
    pub fn empty() -> (r: RowData)
        ensures
            r.items@.len() == 0,
            r.total_size == 0 && r.total_grow == 0 && r.cross_size == 0,
            r.extra_space == 0 && r.cross_size_with_extra_space == 0,
            r.final_rect is None,
    {
        RowData {
            items: Vec::new(),
            total_size: 0,
            total_grow: 0,
            extra_space: 0,
            cross_size: 0,
            cross_size_with_extra_space: 0,
            rect: Rect { min: Pos2 { x: 0, y: 0 }, max: Pos2 { x: 0, y: 0 } },
            final_rect: None,
        }
    }
}

proof fn lemma_row_bounds(row: Seq<ItemState>, axis: int, gap: int)
    requires
        forall|i: int| 0 <= i < row.len() ==> (#[trigger] row[i]).bounded(),
        in_range(gap),
        0 <= axis < 2,
    ensures
        -0x1_0000_0000 * row.len() <= row_total(row, axis, gap) <= 0x1_0000_0000 * row.len(),
        0 <= row_grow(row) <= 0xFFFF_FFFF * row.len(),
        0 <= row_cross(row, 1 - axis) <= 0xC000_0000,
    decreases row.len(),
{
    if row.len() > 0 {
        let pre = row.drop_last();
        assert forall|i: int| 0 <= i < pre.len() implies (#[trigger] pre[i]).bounded() by {
            assert(pre[i] == row[i]);
        }
        lemma_row_bounds(pre, axis, gap);
        assert(row.last() == row[row.len() - 1]);
    }
}

proof fn lemma_greedy_extend(
    items: Seq<ItemState>,
    n: int,
    axis: int,
    available: int,
    gap: int,
    wrap: bool,
)
    requires
        0 <= n < items.len(),
    ensures
        ({
            let before = greedy_rows(items.subrange(0, n), axis, available, gap, wrap);
            let it = items[n];
            greedy_rows(items.subrange(0, n + 1), axis, available, gap, wrap) == if before.len()
                == 0 {
                seq![seq![it]]
            } else if wrap && it.footprint(axis) + gap + row_total(before.last(), axis, gap)
                > available {
                before.push(seq![it])
            } else {
                before.update(before.len() - 1, before.last().push(it))
            }
        }),
{
    assert(items.subrange(0, n + 1).drop_last() =~= items.subrange(0, n));
    assert(items.subrange(0, n + 1).last() == items[n]);
}

/// The room `it` takes in the main axis `axis` when rows are formed.
fn footprint(it: &ItemState, axis: usize) -> (r: i64)
    requires
        it.bounded(),
        axis < 2,
    ensures
        r == it.footprint(axis as int),
{
    match it.config.basis {
        Some(b) => b + it.margin.sum().get(axis),
        None => it.min_size_with_margin().get(axis),
    }
}

/// Split the items into rows by a greedy left-to-right fill.
#[verifier::rlimit(40)]
fn partition_rows(items: &Vec<ItemState>, axis: usize, available: i64, gap: i64, wrap: bool) -> (rows:
    Vec<RowData>)
    requires
        items_bounded(items@),
        axis < 2,
        in_range(available as int),
        in_range(gap as int),
    ensures
        rows@.len() == greedy_rows(items@, axis as int, available as int, gap as int, wrap).len(),
        forall|r: int|
            0 <= r < rows@.len() ==> (#[trigger] rows@[r]).items@ == greedy_rows(
                items@,
                axis as int,
                available as int,
                gap as int,
                wrap,
            )[r] && rows@[r].sums_agree(axis as int, gap as int) && rows@[r].final_rect is None
                && rows@[r].bounded_sums() && items_bounded(rows@[r].items@),
{
    let ghost ax = axis as int;
    let ghost g = gap as int;
    let ghost av = available as int;
    let mut rows: Vec<RowData> = Vec::new();
    let mut current = RowData::empty();
    let mut i: usize = 0;
    while i < items.len()
        invariant
            0 <= i <= items@.len(),
            items_bounded(items@),
            axis < 2,
            in_range(available as int),
            in_range(gap as int),
            ax == axis as int && g == gap as int && av == available as int,
            current.items@.len() <= i,
            rows@.len() <= i,
            i == 0 ==> rows@.len() == 0 && current.items@.len() == 0,
            current.sums_agree(ax, g),
            current.final_rect is None,
            items_bounded(current.items@),
            i > 0 ==> current.items@.len() > 0 && greedy_rows(items@.subrange(0, i as int), ax, av, g, wrap)
                == rows@.map_values(|r: RowData| r.items@).push(current.items@),
            forall|r: int|
                0 <= r < rows@.len() ==> (#[trigger] rows@[r]).sums_agree(ax, g)
                    && rows@[r].final_rect is None && rows@[r].bounded_sums()
                    && items_bounded(rows@[r].items@),
        decreases items@.len() - i,
    {
        let it = items[i];
        assert(it.bounded());
        let len = footprint(&it, axis);
        proof {
            lemma_row_bounds(current.items@, ax, g);
        }
        let ghost prefix = items@.subrange(0, i as int);
        let ghost before_rows = rows@.map_values(|r: RowData| r.items@);
        let ghost cur = current.items@;
        if wrap && current.items.len() > 0 && len + gap + current.total_size > available {
            proof {
                assert(current.bounded_sums()) by (nonlinear_arith)
                    requires
                        -0x1_0000_0000 * current.items@.len() <= current.total_size
                            <= 0x1_0000_0000 * current.items@.len(),
                        0 <= current.total_grow <= 0xFFFF_FFFF * current.items@.len(),
                        0 <= current.cross_size <= 0xC000_0000,
                        current.items@.len() <= MAX_ITEMS,
                ;
            }
            rows.push(current);
            current = RowData::empty();
            proof {
                assert(rows@.map_values(|r: RowData| r.items@) =~= before_rows.push(cur));
            }
        }
        let ghost row_before = current.items@;
        let ghost rows_now = rows@.map_values(|r: RowData| r.items@);
        proof {
            lemma_row_bounds(row_before, ax, g);
        }
        current.total_size = current.total_size + len;
        if current.items.len() > 0 {
            current.total_size = current.total_size + gap;
        }
        let grow: u64 = match it.config.grow {
            Some(w) => w as u64,
            None => 0,
        };
        current.total_grow = current.total_grow + grow;
        let cross = it.min_size_with_margin().get(1 - axis);
        if cross > current.cross_size {
            current.cross_size = cross;
        }
        current.items.push(it);
        proof {
            let grown = current.items@;
            assert(grown.drop_last() =~= row_before);
            assert(grown.last() == it);
            lemma_greedy_extend(items@, i as int, ax, av, g, wrap);
            assert forall|k: int| 0 <= k < grown.len() implies (#[trigger] grown[k]).bounded() by {
                if k < row_before.len() {
                    assert(grown[k] == row_before[k]);
                }
            }
            if i > 0 {
                let before = greedy_rows(prefix, ax, av, g, wrap);
                assert(before == before_rows.push(cur));
                assert(before.last() == cur);
                if wrap && len + gap + row_total(cur, ax, g) > available {
                    assert(row_before.len() == 0);
                    assert(grown =~= seq![it]);
                    assert(rows_now.push(grown) =~= before.push(seq![it]));
                } else {
                    assert(row_before == cur);
                    assert(rows_now == before_rows);
                    assert(rows_now.push(grown) =~= before.update(before.len() - 1, cur.push(it)));
                }
            } else {
                assert(prefix.len() == 0);
                assert(grown =~= seq![it]);
                assert(rows_now.push(grown) =~= seq![seq![it]]);
            }
        }
        i = i + 1;
    }
    if current.items.len() > 0 {
        proof {
            lemma_row_bounds(current.items@, ax, g);
            assert(current.bounded_sums()) by (nonlinear_arith)
                requires
                    -0x1_0000_0000 * current.items@.len() <= current.total_size
                        <= 0x1_0000_0000 * current.items@.len(),
                    0 <= current.total_grow <= 0xFFFF_FFFF * current.items@.len(),
                    0 <= current.cross_size <= 0xC000_0000,
                    current.items@.len() <= MAX_ITEMS,
            ;
        }
        rows.push(current);
    }
    proof {
        assert(items@.subrange(0, items@.len() as int) =~= items@);
        lemma_rows_partition(items@, ax, av, g, wrap);
    }
    rows
}

/// Sum of the cross sizes of the first `k` rows.
pub open spec fn cross_before(rows: Seq<Seq<ItemState>>, k: int, cross: int) -> int
    decreases k,
{
    if k <= 0 {
        0
    } else {
        cross_before(rows, k - 1, cross) + row_cross(rows[k - 1], cross)
    }
}

/// The cross-axis space given to each row on top of its own size: with
/// `Stretch`, what is left of the available cross size after the rows and the
/// gaps between them, shared equally; else nothing.
pub open spec fn extra_cross_per_row(
    align: FlexAlignContent,
    n: int,
    available_cross: int,
    total_cross: int,
    gap_cross: int,
) -> int {
    if align == FlexAlignContent::Stretch && n > 0 {
        let left = available_cross - total_cross - (n - 1) * gap_cross;
        if left > 0 {
            left / n
        } else {
            0
        }
    } else {
        0
    }
}

/// Distance along the cross axis from the first row to row `k`: the rows
/// before it with their extra space, and a gap after each.
pub open spec fn row_offset(
    rows: Seq<Seq<ItemState>>,
    k: int,
    cross: int,
    extra: int,
    gap_cross: int,
) -> int
    decreases k,
{
    if k <= 0 {
        0
    } else {
        row_offset(rows, k - 1, cross, extra, gap_cross) + row_cross(rows[k - 1], cross) + extra
            + gap_cross
    }
}

impl RowData {
    /// The row is row `r` of `rows`, laid out from `min_position` with rows
    /// of full length `main_length` and `extra` cross space each.
    pub open spec fn placed(
        self,
        rows: Seq<Seq<ItemState>>,
        r: int,
        axis: int,
        main_length: int,
        gap: Vec2,
        extra: int,
        min_position: Pos2,
    ) -> bool {
        let cross = 1 - axis;
        &&& self.items@ == rows[r]
        &&& self.sums_agree(axis, gap.at(axis) as int)
        &&& self.final_rect is None
        &&& self.extra_space == main_length - self.total_size
        &&& self.cross_size_with_extra_space == self.cross_size + extra
        &&& self.rect.min.at(axis) == min_position.at(axis)
        &&& self.rect.min.at(cross) == min_position.at(cross) + row_offset(
            rows,
            r,
            cross,
            extra,
            gap.at(cross) as int,
        )
        &&& self.rect.max.at(axis) == self.rect.min.at(axis) + main_length
        &&& self.rect.max.at(cross) == self.rect.min.at(cross) + self.cross_size_with_extra_space
    }
}

fn pos_on(axis: usize, main: i64, cross: i64) -> (p: Pos2)
    requires
        axis < 2,
    ensures
        p.at(axis as int) == main,
        p.at(1 - axis as int) == cross,
{
    if axis == 0 {
        Pos2 { x: main, y: cross }
    } else {
        Pos2 { x: cross, y: main }
    }
}

impl Flex {
    /// The rows of this container for the items measured in the last pass.
    ///
    /// Items fill rows greedily along `direction` (the main axis), each row
    /// spanning the whole available length; the rows stack along the cross
    /// axis from `min_position` with the gap between them. With `Stretch`
    /// content alignment, the cross space left over is shared by the rows.
    pub fn layout_rows(
        &self,
        state: &FlexState,
        available_size: Vec2,
        gap: Vec2,
        direction: usize,
        min_position: Pos2,
    ) -> (rows: Vec<RowData>)
        requires
            items_bounded(state.items@),
            direction < 2,
            available_size.bounded(),
            gap.bounded(),
            min_position.bounded(),
        ensures
            ({
                let axis = direction as int;
                let cross = 1 - axis;
                let spec_rows = greedy_rows(
                    state.items@,
                    axis,
                    available_size.at(axis) as int,
                    gap.at(axis) as int,
                    self.wrap,
                );
                let extra = extra_cross_per_row(
                    self.align_content,
                    spec_rows.len() as int,
                    available_size.at(cross) as int,
                    cross_before(spec_rows, spec_rows.len() as int, cross),
                    gap.at(cross) as int,
                );
                &&& rows@.len() == spec_rows.len()
                &&& 0 <= extra <= COORD_LIMIT
                &&& forall|r: int|
                    0 <= r < rows@.len() ==> (#[trigger] rows@[r]).bounded_sums() && items_bounded(
                        rows@[r].items@,
                    )
                &&& forall|r: int|
                    0 <= r < rows@.len() ==> (#[trigger] rows@[r]).placed(
                        spec_rows,
                        r,
                        axis,
                        available_size.at(axis) as int,
                        gap,
                        extra,
                        min_position,
                    )
            }),
    {
        let cross_direction: usize = 1 - direction;
        let available_length = available_size.get(direction);
        let gap_direction = gap.get(direction);
        let mut rows = partition_rows(&state.items, direction, available_length, gap_direction, self.wrap);
        let ghost axis = direction as int;
        let ghost cross = cross_direction as int;
        let ghost spec_rows = greedy_rows(
            state.items@,
            axis,
            available_length as int,
            gap_direction as int,
            self.wrap,
        );
        proof {
            lemma_rows_partition(state.items@, axis, available_length as int, gap_direction as int, self.wrap);
        }
        let n = rows.len();
        let mut total_row_cross_size: i64 = 0;
        let mut k: usize = 0;
        while k < n
            invariant
                n == rows@.len(),
                n == spec_rows.len(),
                n <= MAX_ITEMS,
                0 <= k <= n,
                cross == 1 - axis,
                forall|r: int| 0 <= r < n ==> (#[trigger] rows@[r]).items@ == spec_rows[r]
                    && rows@[r].sums_agree(axis, gap_direction as int) && rows@[r].bounded_sums()
                    && items_bounded(rows@[r].items@),
                total_row_cross_size == cross_before(spec_rows, k as int, cross),
                0 <= total_row_cross_size <= 0xC000_0000 * k,
            decreases n - k,
        {
            assert(rows@[k as int].cross_size == row_cross(spec_rows[k as int], cross));
            total_row_cross_size = total_row_cross_size + rows[k].cross_size;
            k = k + 1;
        }
        let available_cross_size = available_size.get(cross_direction);
        let gap_cross = gap.get(cross_direction);
        let extra_cross_space_per_row: i64 = match self.align_content {
            FlexAlignContent::Stretch => {
                if n > 0 {
                    let between: i64 = (n - 1) as i64;
                    proof {
                        assert(-0x4000_0000 * between <= between * gap_cross <= 0x4000_0000 * between)
                            by (nonlinear_arith)
                            requires
                                in_range(gap_cross as int),
                                between >= 0,
                        ;
                    }
                    let gaps: i64 = between * gap_cross;
                    let left = available_cross_size - total_row_cross_size - gaps;
                    if left > 0 {
                        proof {
                            assert((left as int) / (n as int) <= 0x4000_0000) by (nonlinear_arith)
                                requires
                                    left <= 0x4000_0000 * n,
                                    n >= 1,
                            ;
                        }
                        left / n as i64
                    } else {
                        0
                    }
                } else {
                    0
                }
            },
            _ => 0,
        };
        assert(0 <= extra_cross_space_per_row <= 0x4000_0000);
        let mut row_position = min_position.get_along(cross_direction);
        let main_start = min_position.get_along(direction);
        let ghost unplaced = rows@;
        let mut r: usize = 0;
        while r < n
            invariant
                n == rows@.len(),
                n == unplaced.len(),
                n == spec_rows.len(),
                n <= MAX_ITEMS,
                0 <= r <= n,
                cross == 1 - axis,
                axis == direction as int,
                direction < 2,
                cross_direction == 1 - direction,
                main_start == min_position.at(axis),
                available_size.bounded(),
                gap.bounded(),
                min_position.bounded(),
                gap_cross == gap.at(cross),
                available_length == available_size.at(axis),
                gap_direction == gap.at(axis),
                0 <= extra_cross_space_per_row <= 0x4000_0000,
                forall|j: int| 0 <= j < n ==> (#[trigger] unplaced[j]).items@ == spec_rows[j]
                    && unplaced[j].sums_agree(axis, gap_direction as int) && unplaced[j].bounded_sums()
                    && unplaced[j].final_rect is None && items_bounded(unplaced[j].items@),
                forall|j: int| r <= j < n ==> #[trigger] rows@[j] == unplaced[j],
                forall|j: int| 0 <= j < r ==> (#[trigger] rows@[j]).placed(
                    spec_rows,
                    j,
                    axis,
                    available_length as int,
                    gap,
                    extra_cross_space_per_row as int,
                    min_position,
                ) && rows@[j].bounded_sums() && items_bounded(rows@[j].items@),
                row_position == min_position.at(cross) + row_offset(
                    spec_rows,
                    r as int,
                    cross,
                    extra_cross_space_per_row as int,
                    gap_cross as int,
                ),
                -0x4000_0000 * r <= row_position - min_position.at(cross) <= 0x1_4000_0000 * r,
            decreases n - r,
        {
            let row_cross_size = rows[r].cross_size + extra_cross_space_per_row;
            let rect = Rect {
                min: pos_on(direction, main_start, row_position),
                max: pos_on(direction, main_start + available_length, row_position + row_cross_size),
            };
            {
                let row = &mut rows[r];
                row.cross_size_with_extra_space = row_cross_size;
                row.rect = rect;
                row.extra_space = available_length - row.total_size;
            }
            row_position = row_position + row_cross_size + gap_cross;
            proof {
                assert(unplaced[r as int].cross_size == row_cross(spec_rows[r as int], cross));
                assert(rows@[r as int].placed(
                    spec_rows,
                    r as int,
                    axis,
                    available_length as int,
                    gap,
                    extra_cross_space_per_row as int,
                    min_position,
                ));
            }
            r = r + 1;
        }
        rows
    }
}

} // verus!
