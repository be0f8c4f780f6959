//! A pictogram that makes a request when it is tapped.

use vstd::prelude::*;
use crate::app::{Context, ContextView};
use crate::framebuffer::UpdateMode;
use crate::geom::{CornerSpec, Rectangle};
use crate::gesture::GestureEvent;
use crate::input::{DeviceEvent, FingerStatus};
use crate::view::{lemma_view, Bus, Event, Hub, Node, NodeView, Reaction, Widget};

verus! {

#[derive(Debug, PartialEq, Eq)]
pub struct Icon {
    pub rect: Rectangle,
    pub children: Vec<Node>,
    pub name: String,
    pub corners: Option<CornerSpec>,
    pub event: Event,
    pub active: bool,
}

impl View for Icon {
    type V = NodeView;

    open spec fn view(&self) -> NodeView {
        Node::Icon(*self)@
    }
}

impl Icon {
    /// What an icon does with `evt`.
    ///
    /// An icon is pressed by a finger that comes down on it and released by
    /// a finger that leaves the screen, and is painted each time. A tap on
    /// an icon queues its request. Whatever else happens passes.
    pub open spec fn reaction(node: NodeView, evt: Event, context: ContextView) -> Reaction
        recommends
            node.widget is Icon,
    {
        let rect = node.rect;
        let name = node.widget->Icon_name;
        let corners = node.widget->Icon_corners;
        let event = node.widget->Icon_event;
        let active = node.widget->Icon_active;
        match evt {
            Event::Device(DeviceEvent::Finger { status, position, .. }) => {
                if status == FingerStatus::Down && rect.includes_spec(position) {
                    Reaction::consumed(
                        NodeView {
                            widget: Widget::Icon { name, corners, event, active: true },
                            ..node
                        },
                        context,
                        seq![Event::Render(rect, UpdateMode::Fast)],
                        Seq::empty(),
                    )
                } else if status == FingerStatus::Up && active {
                    Reaction::consumed(
                        NodeView {
                            widget: Widget::Icon { name, corners, event, active: false },
                            ..node
                        },
                        context,
                        seq![Event::Render(rect, UpdateMode::Gui)],
                        Seq::empty(),
                    )
                } else {
                    Reaction::declined(node, context)
                }
            },
            Event::Gesture(GestureEvent::Tap(center)) => {
                if rect.includes_spec(center) {
                    Reaction::consumed(node, context, Seq::empty(), seq![event])
                } else {
                    Reaction::declined(node, context)
                }
            },
            _ => Reaction::declined(node, context),
        }
    }

    /// An icon that is not pressed and has square corners.
    pub fn new(name: &str, rect: Rectangle, event: Event) -> (icon: Icon)
        ensures
            icon@ == (NodeView {
                rect,
                children: Seq::empty(),
                widget: Widget::Icon { name: name@, corners: None, event, active: false },
            }),
    {
        let icon = Icon {
            rect,
            children: Vec::new(),
            name: name.to_owned(),
            corners: None,
            event,
            active: false,
        };
        proof {
            lemma_view(Node::Icon(icon));
            assert(icon@.children =~= Seq::empty());
        }
        icon
    }

    /// The same icon with its corners rounded as `corners` says.
    pub fn corners(self, corners: Option<CornerSpec>) -> (icon: Icon)
        ensures
            icon@ == (NodeView {
                widget: Widget::Icon {
                    name: self.name@,
                    corners,
                    event: self.event,
                    active: self.active,
                },
                ..self@
            }),
    {
        proof {
            lemma_view(Node::Icon(self));
        }
        let mut icon = self;
        icon.corners = corners;
        proof {
            lemma_view(Node::Icon(icon));
        }
        icon
    }

    pub fn handle_event(
        &mut self,
        evt: &Event,
        hub: &mut Hub,
        bus: &mut Bus,
        _context: &mut Context,
    ) -> (consumed: bool)
        ensures
            Icon::reaction(old(self)@, *evt, old(_context)@).took_place(
                final(self)@,
                final(_context)@,
                old(hub)@,
                final(hub)@,
                old(bus)@,
                final(bus)@,
                consumed,
            ),
    {
        proof {
            lemma_view(Node::Icon(*old(self)));
            assert(bus@ + Seq::<Event>::empty() =~= bus@);
            assert(hub@.queue + Seq::<Event>::empty() =~= hub@.queue);
        }
        let consumed = match *evt {
            Event::Device(DeviceEvent::Finger { status, ref position, .. }) => {
                match status {
                    FingerStatus::Down => {
                        if self.rect.includes(position) {
                            self.active = true;
                            hub.send(Event::Render(self.rect, UpdateMode::Fast));
                            true
                        } else {
                            false
                        }
                    },
                    FingerStatus::Up => {
                        if self.active {
                            self.active = false;
                            hub.send(Event::Render(self.rect, UpdateMode::Gui));
                            true
                        } else {
                            false
                        }
                    },
                    _ => false,
                }
            },
            Event::Gesture(GestureEvent::Tap(ref center)) => {
                if self.rect.includes(center) {
                    bus.push_back(self.event);
                    true
                } else {
                    false
                }
            },
            _ => false,
        };
        proof {
            lemma_view(Node::Icon(*self));
            let r = Icon::reaction(old(self)@, *evt, old(_context)@);
            assert(bus@ =~= old(bus)@ + r.bus);
        }
        consumed
    }
}

} // verus!
