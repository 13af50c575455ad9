//! Configuration of a flex container and of its items.
use vstd::prelude::*;
use crate::geometry::{Align2, Vec2, in_range};

verus! {

/// The direction in which the flex container lays out its children.
#[derive(Clone, Copy, Debug, PartialEq, Eq, Structural)]
pub enum FlexDirection {
    Horizontal,
    Vertical,
}

/// How to justify the content (alignment in the main axis).
#[derive(Clone, Copy, Debug, PartialEq, Eq, Structural)]
pub enum FlexJustify {
    Start,
    End,
    Center,
    SpaceBetween,
    SpaceAround,
    SpaceEvenly,
}

/// How to align an item in the cross axis on its row.
#[derive(Clone, Copy, Debug, PartialEq, Eq, Structural)]
pub enum FlexAlign {
    Start,
    End,
    Center,
    Stretch,
}

/// How to distribute the rows in the cross axis across the whole container.
///
/// Only `Normal` and `Stretch` change the layout; the others behave as `Normal`.
#[derive(Clone, Copy, Debug, PartialEq, Eq, Structural)]
pub enum FlexAlignContent {
    Normal,
    Start,
    End,
    Center,
    Stretch,
    SpaceBetween,
    SpaceAround,
}

impl FlexDirection {
    /// The index of the main axis: 0 for horizontal, 1 for vertical.
    pub open spec fn main_axis(self) -> int {
        match self {
            FlexDirection::Horizontal => 0,
            FlexDirection::Vertical => 1,
        }
    }

    /// The index of the main axis.
    pub fn axis(self) -> (r: usize)
        ensures
            r == self.main_axis(),
            r < 2,
    {
        match self {
            FlexDirection::Horizontal => 0,
            FlexDirection::Vertical => 1,
        }
    }
}

/// Configuration of a flex item. Lengths are in thousandths of a point; the
/// grow factor is a weight, also in thousandths.
#[derive(Clone, Copy, Debug, PartialEq, Eq, Structural)]
pub struct FlexItem {
    pub grow: Option<u32>,
    pub basis: Option<i64>,
    pub align_self: Option<FlexAlign>,
    pub align_content: Option<Align2>,
}

/// Create a new flex item with nothing set.
pub fn item() -> (r: FlexItem)
    ensures
        r == FlexItem::empty(),
{
    FlexItem::new()
}

/// `a` if it is set, else `b`.
pub open spec fn or_else<T>(a: Option<T>, b: Option<T>) -> Option<T> {
    if a is Some {
        a
    } else {
        b
    }
}

impl FlexItem {
    pub open spec fn empty() -> FlexItem {
        FlexItem { grow: None, basis: None, align_self: None, align_content: None }
    }

    /// Whether the basis, if set, lies within the range that the layout takes.
    pub open spec fn bounded(self) -> bool {
        self.basis is Some ==> in_range(self.basis->0 as int)
    }

    /// The grow weight; 0 when unset.
    pub open spec fn grow_weight(self) -> int {
        match self.grow {
            Some(g) => g as int,
            None => 0,
        }
    }

    /// Each setting of `self`, or the one of `defaults` where `self` sets none.
    pub open spec fn resolved(self, defaults: FlexItem) -> FlexItem {
        FlexItem {
            grow: or_else(self.grow, defaults.grow),
            basis: or_else(self.basis, defaults.basis),
            align_self: or_else(self.align_self, defaults.align_self),
            align_content: or_else(self.align_content, defaults.align_content),
        }
    }

    /// Create a new flex item with nothing set.
    pub fn new() -> (r: FlexItem)
        ensures
            r == FlexItem::empty(),
    {
        FlexItem { grow: None, basis: None, align_self: None, align_content: None }
    }

    /// How much this item grows compared to the other items. By default items
    /// do not grow.
    pub fn grow(self, grow: u32) -> (r: FlexItem)
        ensures
            r == (FlexItem { grow: Some(grow), ..self }),
    {
        FlexItem { grow: Some(grow), ..self }
    }

    /// The length of the item in the main axis before it grows. Unset, the
    /// item's measured size is used.
    pub fn basis(self, basis: i64) -> (r: FlexItem)
        ensures
            r == (FlexItem { basis: Some(basis), ..self }),
    {
        FlexItem { basis: Some(basis), ..self }
    }

    /// How the item is aligned in the cross axis. Unset, it stretches.
    pub fn align_self(self, align_self: FlexAlign) -> (r: FlexItem)
        ensures
            r == (FlexItem { align_self: Some(align_self), ..self }),
    {
        FlexItem { align_self: Some(align_self), ..self }
    }

    /// How the content is aligned inside a stretched item. Unset, it is centered.
    pub fn align_self_content(self, align_self_content: Align2) -> (r: FlexItem)
        ensures
            r == (FlexItem { align_content: Some(align_self_content), ..self }),
    {
        FlexItem { align_content: Some(align_self_content), ..self }
    }

    /// Each setting of `self`, or the one of `defaults` where `self` sets none.
    pub fn or_defaults(self, defaults: FlexItem) -> (r: FlexItem)
        ensures
            r == self.resolved(defaults),
    {
        FlexItem {
            grow: if self.grow.is_some() { self.grow } else { defaults.grow },
            basis: if self.basis.is_some() { self.basis } else { defaults.basis },
            align_self: if self.align_self.is_some() { self.align_self } else { defaults.align_self },
            align_content: if self.align_content.is_some() {
                self.align_content
            } else {
                defaults.align_content
            },
        }
    }
}

/// A flex container: its direction, policies, gap, wrapping, and the defaults
/// of its items. `id_salt` distinguishes sibling containers.
#[derive(Clone, Copy, Debug, PartialEq, Eq, Structural)]
pub struct Flex {
    pub id_salt: Option<u64>,
    pub direction: FlexDirection,
    pub justify: FlexJustify,
    pub align_content: FlexAlignContent,
    pub gap: Option<Vec2>,
    pub default_item: FlexItem,
    pub wrap: bool,
}

impl Flex {
    /// The configuration that `new` returns.
    pub open spec fn initial() -> Flex {
        Flex {
            id_salt: None,
            direction: FlexDirection::Horizontal,
            justify: FlexJustify::Start,
            align_content: FlexAlignContent::Normal,
            gap: None,
            default_item: FlexItem::empty(),
            wrap: true,
        }
    }

    /// A horizontal container that wraps, with start justification, normal
    /// content alignment, the host's gap, and no item defaults.
    pub fn new() -> (r: Flex)
        ensures
            r == Flex::initial(),
    {
        Flex {
            id_salt: None,
            direction: FlexDirection::Horizontal,
            justify: FlexJustify::Start,
            align_content: FlexAlignContent::Normal,
            gap: None,
            default_item: FlexItem::new(),
            wrap: true,
        }
    }

    /// A new horizontal container.
    pub fn horizontal() -> (r: Flex)
        ensures
            r == (Flex { direction: FlexDirection::Horizontal, ..Flex::initial() }),
    {
        Flex::new().direction(FlexDirection::Horizontal)
    }

    /// A new vertical container.
    pub fn vertical() -> (r: Flex)
        ensures
            r == (Flex { direction: FlexDirection::Vertical, ..Flex::initial() }),
    {
        Flex::new().direction(FlexDirection::Vertical)
    }

    /// Set the direction.
    pub fn direction(self, direction: FlexDirection) -> (r: Flex)
        ensures
            r == (Flex { direction, ..self }),
    {
        Flex { direction, ..self }
    }

    /// Set how the content is justified in the main axis.
    pub fn justify(self, justify: FlexJustify) -> (r: Flex)
        ensures
            r == (Flex { justify, ..self }),
    {
        Flex { justify, ..self }
    }

    /// Set the default cross-axis alignment of the items.
    pub fn align_items(self, align_items: FlexAlign) -> (r: Flex)
        ensures
            r == (Flex {
                default_item: FlexItem { align_self: Some(align_items), ..self.default_item },
                ..self
            }),
    {
        Flex { default_item: self.default_item.align_self(align_items), ..self }
    }

    /// Set the default alignment of the content inside stretched items.
    pub fn align_items_content(self, align_item_content: Align2) -> (r: Flex)
        ensures
            r == (Flex {
                default_item: FlexItem {
                    align_content: Some(align_item_content),
                    ..self.default_item
                },
                ..self
            }),
    {
        Flex { default_item: self.default_item.align_self_content(align_item_content), ..self }
    }

    /// Set how the rows are distributed in the cross axis.
    pub fn align_content(self, align_content: FlexAlignContent) -> (r: Flex)
        ensures
            r == (Flex { align_content, ..self }),
    {
        Flex { align_content, ..self }
    }

    /// Set the default grow weight of the items.
    pub fn grow_items(self, grow: u32) -> (r: Flex)
        ensures
            r == (Flex { default_item: FlexItem { grow: Some(grow), ..self.default_item }, ..self }),
    {
        Flex { default_item: self.default_item.grow(grow), ..self }
    }

    /// Set the gap between items and between rows.
    pub fn gap(self, gap: Vec2) -> (r: Flex)
        ensures
            r == (Flex { gap: Some(gap), ..self }),
    {
        Flex { gap: Some(gap), ..self }
    }

    /// Set whether the content wraps into several rows. Without wrapping the
    /// content may overflow the available space.
    pub fn wrap(self, wrap: bool) -> (r: Flex)
        ensures
            r == (Flex { wrap, ..self }),
    {
        Flex { wrap, ..self }
    }

    /// Set the salt that tells this container apart from its siblings.
    pub fn id_salt(self, id_salt: u64) -> (r: Flex)
        ensures
            r == (Flex { id_salt: Some(id_salt), ..self }),
    {
        Flex { id_salt: Some(id_salt), ..self }
    }

    /// The configuration of a container nested in an item of `self`: where the
    /// item grows and the nested container runs across `self`, its rows stretch
    /// to fill the item.
    pub fn nested(&self, item: FlexItem, nested: Flex) -> (r: Flex)
        ensures
            r == (if or_else(item.grow, self.default_item.grow) is Some
                && or_else(item.grow, self.default_item.grow)->0 > 0
                && self.direction != nested.direction {
                Flex { align_content: FlexAlignContent::Stretch, ..nested }
            } else {
                nested
            }),
    {
        let grow = if item.grow.is_some() { item.grow } else { self.default_item.grow };
        let grows = match grow {
            Some(g) => g > 0,
            None => false,
        };
        if grows && self.direction != nested.direction {
            Flex { align_content: FlexAlignContent::Stretch, ..nested }
        } else {
            nested
        }
    }
}

} // verus!
