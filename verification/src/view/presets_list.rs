//! The row of saved presets.

use vstd::prelude::*;
use crate::app::{Context, ContextView};
use crate::font::Fonts;
use crate::framebuffer::UpdateMode;
use crate::geom::{Point, Rectangle};
use crate::settings::LightPreset;
use crate::view::preset::{Preset, PresetKind, PresetKindView};
use crate::view::{lemma_view, views, Bus, Event, Hub, Node, NodeView, Reaction, Widget};

verus! {

#[derive(Debug, PartialEq, Eq)]
pub struct PresetsList {
    pub rect: Rectangle,
    pub children: Vec<Node>,
}

impl View for PresetsList {
    type V = NodeView;

    open spec fn view(&self) -> NodeView {
        Node::PresetsList(*self)@
    }
}

/// The distance from the left edge of a row of width `width` at which the
/// cell `index` of `count` cells of equal width begins. A row without width
/// has all its cells at its left edge.
pub open spec fn cell_offset(width: int, count: int, index: int) -> int {
    if width > 0 && count > 0 {
        (width * index) / count
    } else {
        0
    }
}

/// The rectangle of the cell `index` when `rect` is cut into `count` cells
/// of equal width, from left to right.
pub open spec fn cell(rect: Rectangle, count: int, index: int) -> Rectangle {
    Rectangle {
        min: Point {
            x: (rect.min.x + cell_offset(rect.width_spec(), count, index)) as i32,
            y: rect.min.y,
        },
        max: Point {
            x: (rect.min.x + cell_offset(rect.width_spec(), count, index + 1)) as i32,
            y: rect.max.y,
        },
    }
}

/// A cell begins within the row.
pub proof fn lemma_cell_offset(width: int, count: int, index: int)
    requires
        0 <= index <= count,
    ensures
        0 <= cell_offset(width, count, index),
        width > 0 ==> cell_offset(width, count, index) <= width,
{
    if width > 0 && count > 0 {
        assert(0 <= (width * index) / count <= width) by (nonlinear_arith)
            requires
                0 <= index <= count,
                0 < count,
                0 < width,
        ;
    }
}

/// The cell for one preset: its rectangle, the name of the preset and its
/// place among the presets.
pub open spec fn preset_cell(rect: Rectangle, presets: Seq<LightPreset>, index: int) -> NodeView {
    NodeView {
        rect: cell(rect, presets.len() as int, index),
        children: Seq::empty(),
        widget: Widget::Preset {
            kind: PresetKindView::Normal(presets[index].name_spec(), index as usize),
            active: false,
        },
    }
}

/// The cells for the presets, one for each, in their order.
pub open spec fn preset_cells(rect: Rectangle, presets: Seq<LightPreset>) -> Seq<NodeView> {
    Seq::new(presets.len(), |i: int| preset_cell(rect, presets, i))
}

/// Computes where the cell `index` of `count` begins in a row of width
/// `width`.
fn offset_of_cell(width: u32, count: usize, index: usize) -> (offset: u32)
    requires
        index <= count,
    ensures
        offset == cell_offset(width as int, count as int, index as int),
{
    if width > 0 && count > 0 {
        proof {
            lemma_cell_offset(width as int, count as int, index as int);
            assert(0 <= width * index <= 0xFFFF_FFFF * 0xFFFF_FFFF_FFFF_FFFF) by (nonlinear_arith)
                requires
                    0 <= width <= 0xFFFF_FFFF,
                    0 <= index <= 0xFFFF_FFFF_FFFF_FFFF,
            ;
        }
        let product: u128 = (width as u128) * (index as u128);
        (product / (count as u128)) as u32
    } else {
        0
    }
}

impl PresetsList {
    /// A row without presets.
    pub fn new(rect: Rectangle) -> (list: PresetsList)
        ensures
            list@ == (NodeView { rect, children: Seq::empty(), widget: Widget::PresetsList }),
            list.rect == rect,
    {
        let list = PresetsList { rect, children: Vec::new() };
        proof {
            lemma_view(Node::PresetsList(list));
            assert(list@.children =~= Seq::empty());
        }
        list
    }

    /// Fills the row with one cell for each preset, the cells of equal width
    /// from left to right, and asks for the row to be painted.
    pub fn update(&mut self, presets: &Vec<LightPreset>, hub: &mut Hub, _fonts: &Fonts)
        ensures
            final(self)@ == (NodeView {
                rect: old(self).rect,
                children: preset_cells(old(self).rect, presets@),
                widget: Widget::PresetsList,
            }),
            final(self).rect == old(self).rect,
            final(hub)@ == old(hub)@.sent(seq![Event::Render(old(self).rect, UpdateMode::Gui)]),
    {
        let n = presets.len();
        let span: i64 = self.rect.max.x as i64 - self.rect.min.x as i64;
        let width: u32 = if span > 0 {
            span as u32
        } else {
            0
        };
        let mut cells: Vec<Node> = Vec::new();
        let mut i: usize = 0;
        while i < n
            invariant
                0 <= i <= n,
                n == presets@.len(),
                *self == *old(self),
                width == if self.rect.width_spec() > 0 {
                    self.rect.width_spec()
                } else {
                    0
                },
                cells@.len() == i,
                forall|j: int| 0 <= j < i ==> (#[trigger] cells@[j])@ == preset_cell(self.rect, presets@, j),
            decreases n - i,
        {
            let from = offset_of_cell(width, n, i);
            let to = offset_of_cell(width, n, i + 1);
            proof {
                lemma_cell_offset(width as int, n as int, i as int);
                lemma_cell_offset(width as int, n as int, i + 1);
            }
            let rect = Rectangle {
                min: Point { x: (self.rect.min.x as i64 + from as i64) as i32, y: self.rect.min.y },
                max: Point { x: (self.rect.min.x as i64 + to as i64) as i32, y: self.rect.max.y },
            };
            let preset = Preset::new(rect, PresetKind::Normal(presets[i].name(), i));
            cells.push(Node::Preset(preset));
            i += 1;
        }
        self.children = cells;
        hub.send(Event::Render(self.rect, UpdateMode::Gui));
        proof {
            lemma_view(Node::PresetsList(*self));
            assert(self@.children =~= preset_cells(old(self).rect, presets@));
        }
    }

    /// The row lets every event pass: its cells answer for themselves.
    pub fn handle_event(
        &mut self,
        _evt: &Event,
        _hub: &mut Hub,
        _bus: &mut Bus,
        _context: &mut Context,
    ) -> (consumed: bool)
        ensures
            Reaction::declined(old(self)@, old(_context)@).took_place(
                final(self)@,
                final(_context)@,
                old(_hub)@,
                final(_hub)@,
                old(_bus)@,
                final(_bus)@,
                consumed,
            ),
            *final(self) == *old(self),
    {
        assert(_bus@ + Seq::<Event>::empty() =~= _bus@);
        assert(_hub@.queue + Seq::<Event>::empty() =~= _hub@.queue);
        false
    }
}

} // verus!
