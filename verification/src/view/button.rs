//! A labelled control that makes a request when it is tapped.

use vstd::prelude::*;
use crate::app::{Context, ContextView};
use crate::framebuffer::UpdateMode;
use crate::geom::Rectangle;
use crate::gesture::GestureEvent;
use crate::input::{DeviceEvent, FingerStatus};
use crate::view::{lemma_view, Bus, Event, Hub, Node, NodeView, Reaction, Widget};

verus! {

#[derive(Debug, PartialEq, Eq)]
pub struct Button {
    pub rect: Rectangle,
    pub children: Vec<Node>,
    pub event: Event,
    pub text: String,
    pub active: bool,
    pub disabled: bool,
}

impl View for Button {
    type V = NodeView;

    open spec fn view(&self) -> NodeView {
        Node::Button(*self)@
    }
}

impl Button {
    /// What a button does with `evt`.
    ///
    /// A button that is not disabled is pressed by a finger that comes down
    /// on it and released by a finger that leaves the screen, and is painted
    /// each time. A tap on a button is consumed, and queues the request of
    /// the button unless the button is disabled. Whatever else happens
    /// passes.
    pub open spec fn reaction(node: NodeView, evt: Event, context: ContextView) -> Reaction
        recommends
            node.widget is Button,
    {
        let rect = node.rect;
        let event = node.widget->Button_event;
        let text = node.widget->Button_text;
        let active = node.widget->Button_active;
        let disabled = node.widget->Button_disabled;
        match evt {
            Event::Device(DeviceEvent::Finger { status, position, .. }) => {
                if !disabled && status == FingerStatus::Down && rect.includes_spec(position) {
                    Reaction::consumed(
                        NodeView {
                            widget: Widget::Button { event, text, active: true, disabled },
                            ..node
                        },
                        context,
                        seq![Event::Render(rect, UpdateMode::Fast)],
                        Seq::empty(),
                    )
                } else if !disabled && status == FingerStatus::Up && active {
                    Reaction::consumed(
                        NodeView {
                            widget: Widget::Button { event, text, active: false, disabled },
                            ..node
                        },
                        context,
                        seq![Event::Render(rect, UpdateMode::Gui)],
                        Seq::empty(),
                    )
                } else {
                    Reaction::declined(node, context)
                }
            },
            Event::Gesture(GestureEvent::Tap(center)) => {
                if rect.includes_spec(center) {
                    Reaction::consumed(
                        node,
                        context,
                        Seq::empty(),
                        if disabled {
                            Seq::empty()
                        } else {
                            seq![event]
                        },
                    )
                } else {
                    Reaction::declined(node, context)
                }
            },
            _ => Reaction::declined(node, context),
        }
    }

    /// A button that is neither pressed nor disabled.
    pub fn new(rect: Rectangle, event: Event, text: String) -> (button: Button)
        ensures
            button@ == (NodeView {
                rect,
                children: Seq::empty(),
                widget: Widget::Button { event, text: text@, active: false, disabled: false },
            }),
    {
        let button = Button {
            rect,
            children: Vec::new(),
            event,
            text,
            active: false,
            disabled: false,
        };
        proof {
            lemma_view(Node::Button(button));
            assert(button@.children =~= Seq::empty());
        }
        button
    }

    /// The same button, disabled or not.
    pub fn disabled(self, value: bool) -> (button: Button)
        ensures
            button@ == (NodeView {
                widget: Widget::Button {
                    event: self.event,
                    text: self.text@,
                    active: self.active,
                    disabled: value,
                },
                ..self@
            }),
    {
        proof {
            lemma_view(Node::Button(self));
        }
        let mut button = self;
        button.disabled = value;
        proof {
            lemma_view(Node::Button(button));
        }
        button
    }

    pub fn handle_event(
        &mut self,
        evt: &Event,
        hub: &mut Hub,
        bus: &mut Bus,
        _context: &mut Context,
    ) -> (consumed: bool)
        ensures
            Button::reaction(old(self)@, *evt, old(_context)@).took_place(
                final(self)@,
                final(_context)@,
                old(hub)@,
                final(hub)@,
                old(bus)@,
                final(bus)@,
                consumed,
            ),
    {
        proof {
            lemma_view(Node::Button(*old(self)));
            assert(bus@ + Seq::<Event>::empty() =~= bus@);
            assert(hub@.queue + Seq::<Event>::empty() =~= hub@.queue);
        }
        let consumed = match *evt {
            Event::Device(DeviceEvent::Finger { status, ref position, .. }) => {
                if self.disabled {
                    false
                } else {
                    match status {
                        FingerStatus::Down => {
                            if self.rect.includes(position) {
                                self.active = true;
                                hub.send(Event::Render(self.rect, UpdateMode::Fast));
                                true
                            } else {
                                false
                            }
                        },
                        FingerStatus::Up => {
                            if self.active {
                                self.active = false;
                                hub.send(Event::Render(self.rect, UpdateMode::Gui));
                                true
                            } else {
                                false
                            }
                        },
                        _ => false,
                    }
                }
            },
            Event::Gesture(GestureEvent::Tap(ref center)) => {
                if self.rect.includes(center) {
                    if !self.disabled {
                        bus.push_back(self.event);
                    }
                    true
                } else {
                    false
                }
            },
            _ => false,
        };
        proof {
            lemma_view(Node::Button(*self));
            let r = Button::reaction(old(self)@, *evt, old(_context)@);
            assert(bus@ =~= old(bus)@ + r.bus);
        }
        consumed
    }
}

} // verus!
