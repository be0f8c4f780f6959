//! A line of text.

use vstd::prelude::*;
use crate::app::{Context, ContextView};
use crate::font::{Fonts, RenderPlan};
use crate::color::{text_normal, Scheme};
use crate::framebuffer::{Framebuffer, Paint, UpdateMode};
use crate::geom::{fits_i32, Point, Rectangle};
use crate::view::{lemma_view, Bus, Event, Hub, Node, NodeView, Reaction, Widget};

verus! {

/// Where a run of text stands within the width given to it.
#[derive(Clone, Copy, Debug, PartialEq, Eq, Structural)]
pub enum Align {
    /// At a distance from the left edge.
    Left(i32),
    /// At a distance from the right edge.
    Right(i32),
    Center,
}

/// Half of `v`, rounded towards zero.
pub open spec fn half(v: int) -> int {
    if v >= 0 {
        v / 2
    } else {
        -((-v) / 2)
    }
}

/// Halves `v`, rounding towards zero.
pub fn halve(v: i64) -> (h: i64)
    ensures
        h == half(v as int),
{
    v / 2
}

impl Align {
    /// The distance from the left edge of a container of width
    /// `container_width` at which a run of width `width` begins.
    pub open spec fn offset_spec(self, width: int, container_width: int) -> int {
        match self {
            Align::Left(dx) => dx as int,
            Align::Right(dx) => container_width - width - dx,
            Align::Center => half(container_width - width),
        }
    }

    /// Tells whether `offset` may be called with `width` and
    /// `container_width`: whether the distance is an `i32`.
    pub fn has_offset(&self, width: i32, container_width: i32) -> (b: bool)
        ensures
            b == fits_i32(self.offset_spec(width as int, container_width as int)),
    {
        let dx: i64 = match *self {
            Align::Left(dx) => dx as i64,
            Align::Right(dx) => container_width as i64 - width as i64 - dx as i64,
            Align::Center => halve(container_width as i64 - width as i64),
        };
        i32::MIN as i64 <= dx && dx <= i32::MAX as i64
    }

    pub fn offset(&self, width: i32, container_width: i32) -> (dx: i32)
        requires
            fits_i32(self.offset_spec(width as int, container_width as int)),
        ensures
            dx == self.offset_spec(width as int, container_width as int),
    {
        match *self {
            Align::Left(dx) => dx,
            Align::Right(dx) => (container_width as i64 - width as i64 - dx as i64) as i32,
            Align::Center => halve(container_width as i64 - width as i64) as i32,
        }
    }

    fn offset_wide(&self, width: i64, container_width: i64) -> (dx: i64)
        requires
            0 <= width <= u32::MAX,
            0 <= container_width <= u32::MAX,
        ensures
            dx == self.offset_spec(width as int, container_width as int),
    {
        match *self {
            Align::Left(dx) => dx as i64,
            Align::Right(dx) => container_width - width - dx as i64,
            Align::Center => halve(container_width - width),
        }
    }
}

#[derive(Debug, PartialEq, Eq)]
pub struct Label {
    pub rect: Rectangle,
    pub children: Vec<Node>,
    pub text: String,
    pub align: Align,
}

impl View for Label {
    type V = NodeView;

    open spec fn view(&self) -> NodeView {
        Node::Label(*self)@
    }
}

/// The width within which a text is laid out in a rectangle, a margin of
/// `padding` left free; zero where the rectangle is narrower than that.
pub open spec fn text_width_limit(rect: Rectangle, padding: int) -> int {
    if rect.width_spec() - padding > 0 {
        rect.width_spec() - padding
    } else {
        0
    }
}

/// Computes the width within which a text is laid out in `rect`.
pub fn max_text_width(rect: &Rectangle, fonts: &Fonts) -> (w: u32)
    requires
        rect.wf(),
    ensures
        w == text_width_limit(*rect, fonts.em as int),
{
    let width = rect.width() as i64 - fonts.em as i64;
    if width > 0 {
        width as u32
    } else {
        0
    }
}

impl Label {
    /// Where the baseline of a run of width `width` begins in `rect`.
    pub open spec fn text_origin(rect: Rectangle, align: Align, width: int, x_height: int) -> (
        int,
        int,
    ) {
        (
            rect.min.x + align.offset_spec(width, rect.width_spec()),
            rect.max.y - half(rect.height_spec() - x_height),
        )
    }

    /// Whether the label can be painted: its rectangle is well formed and
    /// the place of its text is a point.
    pub open spec fn can_render(&self, context: ContextView, plan: RenderPlan) -> bool {
        let fonts = context.fonts;
        let origin = Label::text_origin(
            self.rect,
            self.align,
            plan.width as int,
            fonts.x_height as int,
        );
        self.rect.wf() && fits_i32(origin.0) && fits_i32(origin.1)
    }

    /// What painting the label adds to the surface.
    pub open spec fn paints(&self, context: ContextView, plan: RenderPlan) -> Seq<Paint> {
        let fonts = context.fonts;
        let origin = Label::text_origin(
            self.rect,
            self.align,
            plan.width as int,
            fonts.x_height as int,
        );
        seq![
            Paint::Rectangle { rect: self.rect, color: Scheme::normal().background },
            Paint::Text {
                handle: plan.handle,
                origin: Point { x: origin.0 as i32, y: origin.1 as i32 },
                color: Scheme::normal().foreground,
            },
        ]
    }

    /// A label without children.
    pub fn new(rect: Rectangle, text: String, align: Align) -> (label: Label)
        ensures
            label@ == (NodeView {
                rect,
                children: Seq::empty(),
                widget: Widget::Label { text: text@, align },
            }),
            label.rect == rect,
            label.text == text,
            label.align == align,
            label.children@.len() == 0,
    {
        let label = Label { rect, children: Vec::new(), text, align };
        proof {
            lemma_view(Node::Label(label));
            assert(label@.children =~= Seq::empty());
        }
        label
    }

    /// Replaces the text and asks for the rectangle to be painted anew.
    pub fn update(&mut self, text: String, hub: &mut Hub)
        ensures
            final(self)@ == (NodeView {
                widget: Widget::Label { text: text@, align: old(self).align },
                ..old(self)@
            }),
            final(self).text == text,
            final(hub)@ == old(hub)@.sent(seq![Event::Render(old(self).rect, UpdateMode::Gui)]),
    {
        proof {
            lemma_view(Node::Label(*old(self)));
        }
        self.text = text;
        hub.send(Event::Render(self.rect, UpdateMode::Gui));
        proof {
            lemma_view(Node::Label(*self));
        }
    }

    /// A label lets every event pass.
    pub fn handle_event(
        &mut self,
        _evt: &Event,
        _hub: &mut Hub,
        _bus: &mut Bus,
        _context: &mut Context,
    ) -> (consumed: bool)
        ensures
            Reaction::declined(old(self)@, old(_context)@).took_place(
                final(self)@,
                final(_context)@,
                old(_hub)@,
                final(_hub)@,
                old(_bus)@,
                final(_bus)@,
                consumed,
            ),
            *final(self) == *old(self),
    {
        assert(_bus@ + Seq::<Event>::empty() =~= _bus@);
        assert(_hub@.queue + Seq::<Event>::empty() =~= _hub@.queue);
        false
    }

    /// Tells whether `render` may be called with `context` and `plan`.
    pub fn renderable(&self, context: &Context, plan: &RenderPlan) -> (b: bool)
        ensures
            b == self.can_render(context@, *plan),
    {
        if !(self.rect.min.x <= self.rect.max.x && self.rect.min.y <= self.rect.max.y) {
            return false;
        }
        let x_height = context.fonts.x_height as i64;
        let dx = self.align.offset_wide(plan.width as i64, self.rect.width() as i64);
        let dy = halve(self.rect.height() as i64 - x_height);
        let x: i64 = self.rect.min.x as i64 + dx;
        let y: i64 = self.rect.max.y as i64 - dy;
        i32::MIN as i64 <= x && x <= i32::MAX as i64 && i32::MIN as i64 <= y && y <= i32::MAX as i64
    }

    /// Paints the ground of the label and, on it, the text as `plan` lays
    /// it out. The plan is that of the text of the label, laid out within
    /// `max_text_width`.
    pub fn render(&self, fb: &mut Framebuffer, context: &Context, plan: &RenderPlan)
        requires
            self.can_render(context@, *plan),
        ensures
            final(fb)@ == old(fb)@ + self.paints(context@, *plan),
    {
        let fonts = &context.fonts;
        let scheme = text_normal();
        fb.draw_rectangle(&self.rect, scheme.background);
        let x_height = fonts.x_height as i64;
        let dx = self.align.offset_wide(plan.width as i64, self.rect.width() as i64);
        let dy = halve(self.rect.height() as i64 - x_height);
        let pt = Point { x: (self.rect.min.x as i64 + dx) as i32, y: (self.rect.max.y as i64 - dy) as i32 };
        fb.draw_text(plan.handle, &pt, scheme.foreground);
        assert(fb@ =~= old(fb)@ + self.paints(context@, *plan));
    }

    pub fn rect(&self) -> (r: &Rectangle)
        ensures
            *r == self.rect,
    {
        &self.rect
    }

    pub fn rect_mut(&mut self) -> (r: &mut Rectangle)
        ensures
            *r == old(self).rect,
            *final(self) == (Label { rect: *final(r), ..*old(self) }),
    {
        &mut self.rect
    }

    pub fn children(&self) -> (c: &Vec<Node>)
        ensures
            *c == self.children,
    {
        &self.children
    }

    pub fn children_mut(&mut self) -> (c: &mut Vec<Node>)
        ensures
            *c == old(self).children,
            *final(self) == (Label { children: *final(c), ..*old(self) }),
    {
        &mut self.children
    }
}

} // verus!
