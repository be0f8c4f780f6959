//! One cell of the list of presets: a preset, or the turn to another page.

use vstd::prelude::*;
use crate::app::{Context, ContextView};
use crate::font::RenderPlan;
use crate::color::{text_inverted_hard, text_normal, Scheme};
use crate::framebuffer::{Framebuffer, Paint, UpdateMode};
use crate::geom::{fits_i32, CornerSpec, CycleDir, Point, Rectangle};
use crate::gesture::GestureEvent;
use crate::input::{DeviceEvent, FingerStatus};
use crate::unit::{scale_by_dpi, scaled};
use crate::view::label::{half, halve};
use crate::view::{
    lemma_view, Bus, Event, Hub, Node, NodeView, Reaction, Widget, BORDER_RADIUS_MEDIUM,
};

verus! {

#[derive(Clone, Debug, PartialEq, Eq)]
pub enum PresetKind {
    /// A preset, by its name and its place among the stored presets.
    Normal(String, usize),
    /// The turn to the next or to the previous page of presets.
    Page(CycleDir),
}

pub ghost enum PresetKindView {
    Normal(Seq<char>, usize),
    Page(CycleDir),
}

impl View for PresetKind {
    type V = PresetKindView;

    open spec fn view(&self) -> PresetKindView {
        match self {
            PresetKind::Normal(name, index) => PresetKindView::Normal(name@, *index),
            PresetKind::Page(dir) => PresetKindView::Page(*dir),
        }
    }
}

#[derive(Debug, PartialEq, Eq)]
pub struct Preset {
    pub rect: Rectangle,
    pub children: Vec<Node>,
    pub kind: PresetKind,
    pub active: bool,
}

impl View for Preset {
    type V = NodeView;

    open spec fn view(&self) -> NodeView {
        Node::Preset(*self)@
    }
}

impl PresetKindView {
    /// The text that a cell of this kind shows: the name of its preset, or
    /// an ellipsis where the cell turns the page.
    pub open spec fn caption(self) -> Seq<char> {
        match self {
            PresetKindView::Normal(name, _) => name,
            PresetKindView::Page(_) => seq!['\u{2026}'],
        }
    }
}

impl Preset {
    /// What a cell with the rectangle `rect`, of the kind `kind` and pressed
    /// or not, does with `evt`.
    ///
    /// A finger that comes down on the cell presses it, and the cell is
    /// painted at once; a finger that leaves the screen releases a pressed
    /// cell. A tap on the cell asks for its preset to be loaded, or for the
    /// page to be turned; a finger held on a preset asks for the menu of that
    /// preset. Whatever else happens passes.
    pub open spec fn reaction(node: NodeView, evt: Event, context: ContextView) -> Reaction
        recommends
            node.widget is Preset,
    {
        let rect = node.rect;
        let kind = node.widget->Preset_kind;
        let active = node.widget->Preset_active;
        match evt {
            Event::Device(DeviceEvent::Finger { status, position, .. }) => {
                if status == FingerStatus::Down && rect.includes_spec(position) {
                    Reaction::consumed(
                        NodeView { widget: Widget::Preset { kind, active: true }, ..node },
                        context,
                        seq![Event::Render(rect, UpdateMode::Fast)],
                        Seq::empty(),
                    )
                } else if status == FingerStatus::Up && active {
                    Reaction::consumed(
                        NodeView { widget: Widget::Preset { kind, active: false }, ..node },
                        context,
                        seq![Event::Render(rect, UpdateMode::Gui)],
                        Seq::empty(),
                    )
                } else {
                    Reaction::declined(node, context)
                }
            },
            Event::Gesture(GestureEvent::Tap(center)) => {
                if rect.includes_spec(center) {
                    Reaction::consumed(
                        node,
                        context,
                        Seq::empty(),
                        match kind {
                            PresetKindView::Normal(_, index) => seq![Event::LoadPreset(index)],
                            PresetKindView::Page(dir) => seq![Event::Page(dir)],
                        },
                    )
                } else {
                    Reaction::declined(node, context)
                }
            },
            Event::Gesture(GestureEvent::HoldFinger(center)) => {
                if rect.includes_spec(center) {
                    Reaction::consumed(
                        node,
                        context,
                        Seq::empty(),
                        match kind {
                            PresetKindView::Normal(_, index) => seq![
                                Event::TogglePresetMenu(rect, index),
                            ],
                            PresetKindView::Page(_) => Seq::empty(),
                        },
                    )
                } else {
                    Reaction::declined(node, context)
                }
            },
            _ => Reaction::declined(node, context),
        }
    }

    /// Where the baseline of a run of width `width` begins when the run is
    /// centred in `rect`.
    pub open spec fn text_origin(rect: Rectangle, width: int, x_height: int) -> (int, int) {
        (
            rect.min.x + half(rect.width_spec() - width),
            rect.max.y - half(rect.height_spec() - x_height),
        )
    }

    /// Whether the cell can be painted: its rectangle is well formed and the
    /// place of its text is a point.
    pub open spec fn can_render(&self, context: ContextView, plan: RenderPlan) -> bool {
        let origin = Preset::text_origin(
            self.rect,
            plan.width as int,
            context.fonts.x_height as int,
        );
        self.rect.wf() && fits_i32(origin.0) && fits_i32(origin.1)
    }

    /// What painting the cell adds to the surface: its ground, dark and
    /// rounded while the cell is pressed, and on it the text.
    pub open spec fn paints(&self, context: ContextView, plan: RenderPlan) -> Seq<Paint> {
        let origin = Preset::text_origin(
            self.rect,
            plan.width as int,
            context.fonts.x_height as int,
        );
        let scheme = if self.active {
            Scheme::inverted_hard()
        } else {
            Scheme::normal()
        };
        let radius = if self.active {
            scaled(BORDER_RADIUS_MEDIUM, context.device.dpi)
        } else {
            0
        };
        seq![
            Paint::RoundedRectangle {
                rect: self.rect,
                corners: CornerSpec::Uniform(radius as i32),
                color: scheme.background,
            },
            Paint::Text {
                handle: plan.handle,
                origin: Point { x: origin.0 as i32, y: origin.1 as i32 },
                color: scheme.foreground,
            },
        ]
    }

    /// A cell that is not pressed.
    pub fn new(rect: Rectangle, kind: PresetKind) -> (preset: Preset)
        ensures
            preset@ == (NodeView {
                rect,
                children: Seq::empty(),
                widget: Widget::Preset { kind: kind@, active: false },
            }),
            preset.rect == rect,
            preset.kind == kind,
            !preset.active,
            preset.children@.len() == 0,
    {
        let preset = Preset { rect, children: Vec::new(), kind, active: false };
        proof {
            lemma_view(Node::Preset(preset));
            assert(preset@.children =~= Seq::empty());
        }
        preset
    }

    pub fn handle_event(
        &mut self,
        evt: &Event,
        hub: &mut Hub,
        bus: &mut Bus,
        _context: &mut Context,
    ) -> (consumed: bool)
        ensures
            Preset::reaction(old(self)@, *evt, old(_context)@).took_place(
                final(self)@,
                final(_context)@,
                old(hub)@,
                final(hub)@,
                old(bus)@,
                final(bus)@,
                consumed,
            ),
            final(self).children == old(self).children,
            final(self).rect == old(self).rect,
            final(self).kind == old(self).kind,
    {
        proof {
            lemma_view(Node::Preset(*old(self)));
            assert(bus@ + Seq::<Event>::empty() =~= bus@);
            assert(hub@.queue + Seq::<Event>::empty() =~= hub@.queue);
        }
        let consumed = match *evt {
            Event::Device(DeviceEvent::Finger { status, ref position, .. }) => {
                match status {
                    FingerStatus::Down => {
                        if self.rect.includes(position) {
                            self.active = true;
                            hub.send(Event::Render(self.rect, UpdateMode::Fast));
                            true
                        } else {
                            false
                        }
                    },
                    FingerStatus::Up => {
                        if self.active {
                            self.active = false;
                            hub.send(Event::Render(self.rect, UpdateMode::Gui));
                            true
                        } else {
                            false
                        }
                    },
                    _ => false,
                }
            },
            Event::Gesture(GestureEvent::Tap(ref center)) => {
                if self.rect.includes(center) {
                    match &self.kind {
                        PresetKind::Normal(_, index) => bus.push_back(Event::LoadPreset(*index)),
                        PresetKind::Page(dir) => bus.push_back(Event::Page(*dir)),
                    }
                    true
                } else {
                    false
                }
            },
            Event::Gesture(GestureEvent::HoldFinger(ref center)) => {
                if self.rect.includes(center) {
                    if let PresetKind::Normal(_, index) = &self.kind {
                        bus.push_back(Event::TogglePresetMenu(self.rect, *index));
                    }
                    true
                } else {
                    false
                }
            },
            _ => false,
        };
        proof {
            lemma_view(Node::Preset(*self));
            let r = Preset::reaction(old(self)@, *evt, old(_context)@);
            assert(bus@ =~= old(bus)@ + r.bus);
        }
        consumed
    }

    /// The text that the cell shows: the name of its preset, or an ellipsis
    /// where the cell turns the page. It is laid out within `max_text_width`
    /// of the rectangle of the cell, and the plan of that is what `render`
    /// takes.
    pub fn caption(&self) -> (text: &str)
        ensures
            text@ == self.kind@.caption(),
    {
        match &self.kind {
            PresetKind::Normal(name, _) => name.as_str(),
            PresetKind::Page(_) => {
                proof {
                    reveal_strlit("\u{2026}");
                    assert("\u{2026}"@ =~= seq!['\u{2026}']);
                }
                "\u{2026}"
            },
        }
    }

    /// Tells whether `render` may be called with `context` and `plan`.
    pub fn renderable(&self, context: &Context, plan: &RenderPlan) -> (b: bool)
        ensures
            b == self.can_render(context@, *plan),
    {
        if !(self.rect.min.x <= self.rect.max.x && self.rect.min.y <= self.rect.max.y) {
            return false;
        }
        let x_height = context.fonts.x_height as i64;
        let dx = halve(self.rect.width() as i64 - plan.width as i64);
        let dy = halve(self.rect.height() as i64 - x_height);
        let x: i64 = self.rect.min.x as i64 + dx;
        let y: i64 = self.rect.max.y as i64 - dy;
        i32::MIN as i64 <= x && x <= i32::MAX as i64 && i32::MIN as i64 <= y && y <= i32::MAX as i64
    }

    /// Paints the ground of the cell, dark and rounded while the cell is
    /// pressed, and on it the caption as `plan` lays it out.
    pub fn render(&self, fb: &mut Framebuffer, context: &Context, plan: &RenderPlan)
        requires
            self.can_render(context@, *plan),
        ensures
            final(fb)@ == old(fb)@ + self.paints(context@, *plan),
    {
        let dpi = context.device.dpi;
        let (scheme, border_radius) = if self.active {
            (text_inverted_hard(), scale_by_dpi(BORDER_RADIUS_MEDIUM, dpi))
        } else {
            (text_normal(), 0)
        };
        fb.draw_rounded_rectangle(&self.rect, &CornerSpec::Uniform(border_radius), scheme.background);
        let x_height = context.fonts.x_height as i64;
        let dx = halve(self.rect.width() as i64 - plan.width as i64);
        let dy = halve(self.rect.height() as i64 - x_height);
        let pt = Point {
            x: (self.rect.min.x as i64 + dx) as i32,
            y: (self.rect.max.y as i64 - dy) as i32,
        };
        fb.draw_text(plan.handle, &pt, scheme.foreground);
        assert(fb@ =~= old(fb)@ + self.paints(context@, *plan));
    }

    pub fn rect(&self) -> (r: &Rectangle)
        ensures
            *r == self.rect,
    {
        &self.rect
    }

    pub fn rect_mut(&mut self) -> (r: &mut Rectangle)
        ensures
            *r == old(self).rect,
            *final(self) == (Preset { rect: *final(r), ..*old(self) }),
    {
        &mut self.rect
    }

    pub fn children(&self) -> (c: &Vec<Node>)
        ensures
            *c == self.children,
    {
        &self.children
    }

    pub fn children_mut(&mut self) -> (c: &mut Vec<Node>)
        ensures
            *c == old(self).children,
            *final(self) == (Preset { children: *final(c), ..*old(self) }),
    {
        &mut self.children
    }
}

} // verus!
