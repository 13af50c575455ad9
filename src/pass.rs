//! One layout pass of a container: the cursor that walks the rows as items
//! are added, the snapshot that the pass builds, and the decision whether the
//! pass must be run again.
use vstd::prelude::*;
use crate::flex::{Flex, FlexDirection, FlexItem};
use crate::geometry::{Pos2, Rect, Vec2, in_range};
use crate::layout::{
    FlexState, ItemState, RowData, MAX_ITEMS, cross_before, extra_cross_per_row, greedy_rows,
    items_bounded, row_cross, row_grow,
};
use crate::place::{FlexContainerUi, in_wide, place_item, placed_as};

verus! {

/// What the host is told at the end of a pass.
#[derive(Clone, Copy, Debug, PartialEq, Eq, Structural)]
pub enum PassSignal {
    /// The snapshot equals the last one: the pass stands.
    Accept,
    /// The snapshot changed: throw the pass away, run it again, and repaint.
    DiscardAndRepaint,
}

impl FlexState {
    /// Two snapshots are the same: equal items in the same order, and the
    /// same largest item size.
    pub open spec fn same(self, other: FlexState) -> bool {
        self.items@ == other.items@ && self.max_item_size == other.max_item_size
    }

    /// The snapshot of a container that has not been shown yet.
    pub fn empty() -> (r: FlexState)
        ensures
            r.items@.len() == 0,
            r.max_item_size == (Vec2 { x: 0, y: 0 }),
    {
        FlexState { items: Vec::new(), max_item_size: Vec2::zero() }
    }

    /// Whether two snapshots are the same.
    pub fn same_as(&self, other: &FlexState) -> (r: bool)
        ensures
            r == self.same(*other),
    {
        if self.items.len() != other.items.len() || self.max_item_size != other.max_item_size {
            return false;
        }
        let mut i: usize = 0;
        while i < self.items.len()
            invariant
                self.items@.len() == other.items@.len(),
                0 <= i <= self.items@.len(),
                forall|k: int| 0 <= k < i ==> self.items@[k] == other.items@[k],
            decreases self.items@.len() - i,
        {
            if self.items[i] != other.items[i] {
                return false;
            }
            i = i + 1;
        }
        proof {
            assert(self.items@ =~= other.items@);
        }
        true
    }
}

/// What the host is told once a pass has built its snapshot `current` after
/// the last pass left `previous`: the pass is discarded and repainted exactly
/// when the two differ.
pub fn reconcile(previous: &FlexState, current: &FlexState) -> (r: PassSignal)
    ensures
        r == (if previous.same(*current) {
            PassSignal::Accept
        } else {
            PassSignal::DiscardAndRepaint
        }),
{
    if previous.same_as(current) {
        PassSignal::Accept
    } else {
        PassSignal::DiscardAndRepaint
    }
}

/// Sum of the items' minimum sizes in the main axis, margins included.
pub open spec fn min_main_sum(items: Seq<ItemState>, axis: int) -> int
    decreases items.len(),
{
    if items.len() == 0 {
        0
    } else {
        min_main_sum(items.drop_last(), axis) + items.last().min_with_margin(axis)
    }
}

/// Where the cursor goes after an item was added at (`row`, `index`) in a row
/// of `row_len` items: on in the row, or to the start of the next one.
pub open spec fn advanced(row: int, index: int, row_len: int) -> (int, int) {
    if index + 1 >= row_len {
        (row + 1, 0)
    } else {
        (row, index + 1)
    }
}

/// The state of a container while its items are added one by one.
pub struct FlexPass {
    pub flex: Flex,
    pub direction: usize,
    pub rows: Vec<RowData>,
    pub current_row: usize,
    pub current_row_index: usize,
    pub state: FlexState,
    pub max_item_size: Vec2,
    pub last_max_item_size: Vec2,
}

impl FlexPass {
    pub open spec fn wf(self) -> bool {
        &&& self.direction == self.flex.direction.main_axis()
        &&& self.max_item_size.bounded()
        &&& self.last_max_item_size.bounded()
        &&& self.state.max_item_size == self.max_item_size
        &&& items_bounded(self.state.items@)
        &&& self.current_row <= self.state.items@.len()
        &&& self.current_row < self.rows@.len() ==> self.current_row_index
            < self.rows@[self.current_row as int].items@.len()
        &&& self.current_row >= self.rows@.len() ==> self.current_row_index == 0
        &&& forall|r: int|
            0 <= r < self.rows@.len() ==> {
                &&& items_bounded((#[trigger] self.rows@[r]).items@)
                &&& in_wide(self.rows@[r].extra_space as int)
                &&& in_wide(self.rows@[r].cross_size_with_extra_space as int)
                &&& self.rows@[r].items@.len() > 0
                &&& self.rows@[r].total_grow == row_grow(self.rows@[r].items@)
                &&& self.rows@[r].bounded_sums()
            }
        &&& self.flex.default_item.bounded()
    }

    /// Start a pass from the snapshot of the last one.
    ///
    /// The rows come from the last pass's items; the new snapshot starts empty
    /// with `max_item_size`, or the available size when that is unset.
    pub fn begin(
        flex: Flex,
        previous: &FlexState,
        available_size: Vec2,
        gap: Vec2,
        min_position: Pos2,
        max_item_size: Option<Vec2>,
    ) -> (p: FlexPass)
        requires
            items_bounded(previous.items@),
            previous.max_item_size.bounded(),
            available_size.bounded(),
            gap.bounded(),
            min_position.bounded(),
            max_item_size is Some ==> max_item_size->0.bounded(),
            flex.default_item.bounded(),
        ensures
            p.wf(),
            p.flex == flex,
            p.current_row == 0 && p.current_row_index == 0,
            p.state.items@.len() == 0,
            p.max_item_size == (match max_item_size {
                Some(m) => m,
                None => available_size,
            }),
            p.last_max_item_size == previous.max_item_size,
            ({
                let axis = flex.direction.main_axis();
                let cross = 1 - axis;
                let spec_rows = greedy_rows(
                    previous.items@,
                    axis,
                    available_size.at(axis) as int,
                    gap.at(axis) as int,
                    flex.wrap,
                );
                let extra = extra_cross_per_row(
                    flex.align_content,
                    spec_rows.len() as int,
                    available_size.at(cross) as int,
                    cross_before(spec_rows, spec_rows.len() as int, cross),
                    gap.at(cross) as int,
                );
                &&& p.rows@.len() == spec_rows.len()
                &&& forall|r: int|
                    0 <= r < p.rows@.len() ==> (#[trigger] p.rows@[r]).placed(
                        spec_rows,
                        r,
                        axis,
                        available_size.at(axis) as int,
                        gap,
                        extra,
                        min_position,
                    ) && p.rows@[r].bounded_sums()
            }),
    {
        let direction = flex.direction.axis();
        let rows = flex.layout_rows(previous, available_size, gap, direction, min_position);
        proof {
            crate::layout::lemma_rows_partition(
                previous.items@,
                direction as int,
                available_size.at(direction as int) as int,
                gap.at(direction as int) as int,
                flex.wrap,
            );
        }
        let max_item_size = match max_item_size {
            Some(m) => m,
            None => available_size,
        };
        FlexPass {
            flex,
            direction,
            rows,
            current_row: 0,
            current_row_index: 0,
            state: FlexState { items: Vec::new(), max_item_size },
            max_item_size,
            last_max_item_size: previous.max_item_size,
        }
    }

    /// The direction of the container.
    pub fn direction(&self) -> (r: FlexDirection)
        ensures
            r == self.flex.direction,
    {
        self.flex.direction
    }

    /// Whether the container is horizontal.
    pub fn is_horizontal(&self) -> (r: bool)
        ensures
            r == (self.flex.direction == FlexDirection::Horizontal),
    {
        self.flex.direction == FlexDirection::Horizontal
    }

    /// Whether the container is vertical.
    pub fn is_vertical(&self) -> (r: bool)
        ensures
            r == (self.flex.direction == FlexDirection::Vertical),
    {
        self.flex.direction == FlexDirection::Vertical
    }

    /// The rectangle of the row that the next item goes to, if there is one.
    pub fn current_row_rect(&self) -> (r: Option<Rect>)
        ensures
            r == (if self.current_row < self.rows@.len() {
                Some(self.rows@[self.current_row as int].rect)
            } else {
                None
            }),
    {
        if self.current_row < self.rows.len() {
            Some(self.rows[self.current_row].rect)
        } else {
            None
        }
    }

    /// Lay out the next item.
    ///
    /// Gives `None` when the item belongs to no row of the last pass (it is
    /// new); else the placement of the item with the container's defaults
    /// filled in, from what the last pass measured of it.
    pub fn place(
        &self,
        item: FlexItem,
        cursor: Pos2,
        row_rect: Rect,
        available: Vec2,
        container_available: Vec2,
    ) -> (r: Option<FlexContainerUi>)
        requires
            self.wf(),
            item.bounded(),
            cursor.bounded(),
            row_rect.bounded(),
            available.bounded(),
            container_available.bounded(),
        ensures
            ({
                let resolved = item.resolved(self.flex.default_item);
                let row = self.rows@[self.current_row as int];
                if self.current_row < self.rows@.len() {
                    &&& r is Some
                    &&& placed_as(
                        r->0,
                        resolved,
                        row,
                        self.current_row_index as int,
                        self.direction,
                        cursor,
                        row_rect,
                        available,
                        container_available,
                        self.max_item_size,
                        self.last_max_item_size,
                    )
                } else {
                    r is None
                }
            }),
    {
        let resolved = item.or_defaults(self.flex.default_item);
        if self.current_row >= self.rows.len() {
            return None;
        }
        let row = &self.rows[self.current_row];
        Some(
            place_item(
                resolved,
                row,
                self.current_row_index,
                self.direction,
                cursor,
                row_rect,
                available,
                container_available,
                self.max_item_size,
                self.last_max_item_size,
            ),
        )
    }

    /// Record what was measured of the item just added, and the rectangle its
    /// row now covers; move the cursor on. The item is kept with its
    /// configuration `item`, the container's defaults filled in. Returns
    /// whether a new row starts.
    pub fn record(&mut self, item: FlexItem, measured: ItemState, row_final_rect: Rect) -> (new_row:
        bool)
        requires
            old(self).wf(),
            item.bounded(),
            measured.bounded(),
            old(self).state.items@.len() < MAX_ITEMS,
        ensures
            final(self).wf(),
            final(self).state.items@ == old(self).state.items@.push(
                ItemState { config: item.resolved(old(self).flex.default_item), ..measured },
            ),
            final(self).flex == old(self).flex,
            final(self).max_item_size == old(self).max_item_size,
            final(self).rows@.len() == old(self).rows@.len(),
            ({
                let row_len = if old(self).current_row < old(self).rows@.len() {
                    old(self).rows@[old(self).current_row as int].items@.len() as int
                } else {
                    0
                };
                let next = advanced(
                    old(self).current_row as int,
                    old(self).current_row_index as int,
                    row_len,
                );
                &&& final(self).current_row == next.0
                &&& final(self).current_row_index == next.1
                &&& new_row == (next.0 != old(self).current_row)
            }),
            forall|r: int|
                0 <= r < old(self).rows@.len() ==> #[trigger] final(self).rows@[r] == if r
                    == old(self).current_row {
                    RowData { final_rect: Some(row_final_rect), ..old(self).rows@[r] }
                } else {
                    old(self).rows@[r]
                },
    {
        let ghost before = self.rows@;
        let mut row_len: usize = 0;
        if self.current_row < self.rows.len() {
            let row = &mut self.rows[self.current_row];
            row.final_rect = Some(row_final_rect);
            row_len = row.items.len();
        }
        assert(forall|r: int|
            0 <= r < before.len() && r != self.current_row ==> #[trigger] self.rows@[r] == before[r]);
        let config = item.or_defaults(self.flex.default_item);
        self.state.items.push(ItemState { config, ..measured });
        self.current_row_index = self.current_row_index + 1;
        if self.current_row_index >= row_len {
            self.current_row = self.current_row + 1;
            self.current_row_index = 0;
            true
        } else {
            false
        }
    }

    /// The smallest size that holds the items of this pass laid out in one
    /// line: their minimum sizes and the gaps in the main axis, the largest
    /// of them in the cross axis.
    pub fn content_min_size(&self, gap: Vec2) -> (r: Vec2)
        requires
            self.wf(),
            gap.bounded(),
        ensures
            ({
                let axis = self.direction as int;
                let items = self.state.items@;
                &&& r.at(axis) == min_main_sum(items, axis) + gap.at(axis) * (items.len() - 1)
                &&& r.at(1 - axis) == row_cross(items, 1 - axis)
            }),
    {
        let axis = self.direction;
        let cross: usize = 1 - axis;
        let items = &self.state.items;
        let mut main: i64 = 0;
        let mut widest: i64 = 0;
        let mut i: usize = 0;
        while i < items.len()
            invariant
                axis == self.direction,
                axis < 2,
                cross == 1 - axis,
                items_bounded(items@),
                0 <= i <= items@.len(),
                main == min_main_sum(items@.subrange(0, i as int), axis as int),
                widest == row_cross(items@.subrange(0, i as int), cross as int),
                -0xC000_0000 * i <= main <= 0xC000_0000 * i,
            decreases items@.len() - i,
        {
            let m = items[i].min_size_with_margin();
            proof {
                let pre = items@.subrange(0, i as int);
                let next = items@.subrange(0, i + 1);
                assert(next.drop_last() =~= pre);
                assert(next.last() == items@[i as int]);
                assert(items@[i as int].bounded());
            }
            main = main + m.get(axis);
            if m.get(cross) > widest {
                widest = m.get(cross);
            }
            i = i + 1;
        }
        proof {
            assert(items@.subrange(0, items@.len() as int) =~= items@);
        }
        let n = items.len() as i64;
        proof {
            let g = gap.at(axis as int) as int;
            assert(-0x4000_0000 * 0x10_0000 <= g * (n - 1) <= 0x4000_0000 * 0x10_0000)
                by (nonlinear_arith)
                requires
                    in_range(g),
                    0 <= n <= 0x10_0000,
            ;
        }
        let total_main = main + gap.get(axis) * (n - 1);
        let mut r = Vec2::zero();
        r.set(axis, total_main);
        r.set(cross, widest);
        r
    }
}

} // verus!
