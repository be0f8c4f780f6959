//! A continuous control between 0 and 100.

use vstd::prelude::*;
use crate::app::{Context, ContextView};
use crate::framebuffer::UpdateMode;
use crate::geom::Rectangle;
use crate::input::{DeviceEvent, FingerStatus};
use crate::view::{lemma_view, Bus, Event, Hub, Node, NodeView, Reaction, SliderId, Widget};

verus! {

#[derive(Debug, PartialEq, Eq)]
pub struct Slider {
    pub rect: Rectangle,
    pub children: Vec<Node>,
    pub id: SliderId,
    pub value: u8,
    pub active: bool,
}

impl View for Slider {
    type V = NodeView;

    open spec fn view(&self) -> NodeView {
        Node::Slider(*self)@
    }
}

/// The value that a finger at the abscissa `x` gives a slider that occupies
/// `rect`: 0 at the left edge and before it, 100 at the right edge and
/// beyond, and in proportion between the two.
pub open spec fn value_at(rect: Rectangle, x: int) -> int {
    if x <= rect.min.x {
        0
    } else if x >= rect.max.x {
        100
    } else {
        ((x - rect.min.x) * 100) / (rect.max.x - rect.min.x)
    }
}

/// The value of a slider is a percentage.
pub proof fn lemma_value_at(rect: Rectangle, x: int)
    ensures
        0 <= value_at(rect, x) <= 100,
{
    if rect.min.x < x < rect.max.x {
        let width = rect.max.x - rect.min.x;
        let run = x - rect.min.x;
        assert(0 <= (run * 100) / width <= 100) by (nonlinear_arith)
            requires
                0 < run < width,
        ;
    }
}

impl Slider {
    /// What a slider does with `evt`.
    ///
    /// A finger that comes down on the slider takes hold of it; while the
    /// slider is held, each move of the finger and its leaving the screen
    /// set the value by the abscissa of the finger. Each time the slider is
    /// painted and queues the new value. Whatever else happens passes.
    pub open spec fn reaction(node: NodeView, evt: Event, context: ContextView) -> Reaction
        recommends
            node.widget is Slider,
    {
        let rect = node.rect;
        let slider = node.widget->Slider_slider;
        let active = node.widget->Slider_active;
        match evt {
            Event::Device(DeviceEvent::Finger { status, position, .. }) => {
                let value = value_at(rect, position.x as int) as u8;
                if status == FingerStatus::Down && rect.includes_spec(position) || status
                    == FingerStatus::Motion && active {
                    Reaction::consumed(
                        NodeView { widget: Widget::Slider { slider, value, active: true }, ..node },
                        context,
                        seq![Event::Render(rect, UpdateMode::Fast)],
                        seq![Event::Slider(slider, value, status)],
                    )
                } else if status == FingerStatus::Up && active {
                    Reaction::consumed(
                        NodeView {
                            widget: Widget::Slider { slider, value, active: false },
                            ..node
                        },
                        context,
                        seq![Event::Render(rect, UpdateMode::Gui)],
                        seq![Event::Slider(slider, value, status)],
                    )
                } else {
                    Reaction::declined(node, context)
                }
            },
            _ => Reaction::declined(node, context),
        }
    }

    /// A slider that no finger holds.
    pub fn new(rect: Rectangle, id: SliderId, value: u8) -> (slider: Slider)
        ensures
            slider@ == (NodeView {
                rect,
                children: Seq::empty(),
                widget: Widget::Slider { slider: id, value, active: false },
            }),
    {
        let slider = Slider { rect, children: Vec::new(), id, value, active: false };
        proof {
            lemma_view(Node::Slider(slider));
            assert(slider@.children =~= Seq::empty());
        }
        slider
    }

    /// Sets the value by the abscissa `x` of a finger.
    fn update_value(&mut self, x: i32)
        ensures
            *final(self) == (Slider { value: value_at(old(self).rect, x as int) as u8, ..*old(self) }),
    {
        proof {
            lemma_value_at(self.rect, x as int);
        }
        if x <= self.rect.min.x {
            self.value = 0;
        } else if x >= self.rect.max.x {
            self.value = 100;
        } else {
            let width: i64 = self.rect.max.x as i64 - self.rect.min.x as i64;
            let run: i64 = x as i64 - self.rect.min.x as i64;
            assert(0 <= run * 100 <= 0x7FFF_FFFF_FFFF) by (nonlinear_arith)
                requires
                    0 <= run <= 0xFFFF_FFFF,
            ;
            self.value = ((run * 100) / width) as u8;
        }
    }

    pub fn handle_event(
        &mut self,
        evt: &Event,
        hub: &mut Hub,
        bus: &mut Bus,
        _context: &mut Context,
    ) -> (consumed: bool)
        ensures
            Slider::reaction(old(self)@, *evt, old(_context)@).took_place(
                final(self)@,
                final(_context)@,
                old(hub)@,
                final(hub)@,
                old(bus)@,
                final(bus)@,
                consumed,
            ),
    {
        proof {
            lemma_view(Node::Slider(*old(self)));
            assert(bus@ + Seq::<Event>::empty() =~= bus@);
            assert(hub@.queue + Seq::<Event>::empty() =~= hub@.queue);
        }
        let consumed = match *evt {
            Event::Device(DeviceEvent::Finger { status, ref position, .. }) => {
                let held = match status {
                    FingerStatus::Down => self.rect.includes(position),
                    _ => self.active,
                };
                if held {
                    self.update_value(position.x);
                    match status {
                        FingerStatus::Up => {
                            self.active = false;
                            hub.send(Event::Render(self.rect, UpdateMode::Gui));
                        },
                        _ => {
                            self.active = true;
                            hub.send(Event::Render(self.rect, UpdateMode::Fast));
                        },
                    }
                    bus.push_back(Event::Slider(self.id, self.value, status));
                    true
                } else {
                    false
                }
            },
            _ => false,
        };
        proof {
            lemma_view(Node::Slider(*self));
            let r = Slider::reaction(old(self)@, *evt, old(_context)@);
            assert(bus@ =~= old(bus)@ + r.bus);
        }
        consumed
    }
}

} // verus!
