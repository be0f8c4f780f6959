//! A list of entries laid over the rest of the interface.

use vstd::prelude::*;
use crate::app::{Context, ContextView};
use crate::framebuffer::UpdateMode;
use crate::geom::Rectangle;
use crate::gesture::GestureEvent;
use crate::view::{lemma_view, Bus, EntryId, Event, Hub, Node, NodeView, Reaction, ViewId, Widget};

verus! {

#[derive(Clone, Copy, Debug, PartialEq, Eq, Structural)]
pub enum MenuKind {
    DropDown,
    Contextual,
}

#[derive(Clone, Debug, PartialEq, Eq)]
pub enum EntryKind {
    Command(String, EntryId),
    CheckBox(String, EntryId, bool),
    Separator,
}

pub ghost enum EntryKindView {
    Command(Seq<char>, EntryId),
    CheckBox(Seq<char>, EntryId, bool),
    Separator,
}

impl View for EntryKind {
    type V = EntryKindView;

    open spec fn view(&self) -> EntryKindView {
        match self {
            EntryKind::Command(text, id) => EntryKindView::Command(text@, *id),
            EntryKind::CheckBox(text, id, checked) => EntryKindView::CheckBox(text@, *id, *checked),
            EntryKind::Separator => EntryKindView::Separator,
        }
    }
}

impl EntryKindView {
    /// The entry after the network came up or went down: the switch of the
    /// network shows the state of the network, every other entry stays.
    pub open spec fn with_network(self, up: bool) -> EntryKindView {
        match self {
            EntryKindView::CheckBox(text, EntryId::ToggleWifi, _) => EntryKindView::CheckBox(
                text,
                EntryId::ToggleWifi,
                up,
            ),
            _ => self,
        }
    }
}

/// The entries after the network came up or went down.
pub open spec fn with_network(entries: Seq<EntryKindView>, up: bool) -> Seq<EntryKindView> {
    Seq::new(entries.len(), |i: int| entries[i].with_network(up))
}

/// The entry `entry` after the network came up or went down.
fn entry_with_network(entry: EntryKind, up: bool) -> (set: EntryKind)
    ensures
        set@ == entry@.with_network(up),
{
    match entry {
        EntryKind::CheckBox(text, EntryId::ToggleWifi, _) => EntryKind::CheckBox(
            text,
            EntryId::ToggleWifi,
            up,
        ),
        other => other,
    }
}

/// The views of the entries of a list, in their order.
pub open spec fn entry_views(entries: Seq<EntryKind>) -> Seq<EntryKindView> {
    Seq::new(entries.len(), |i: int| entries[i]@)
}

#[derive(Debug, PartialEq, Eq)]
pub struct Menu {
    pub rect: Rectangle,
    pub children: Vec<Node>,
    pub id: ViewId,
    pub kind: MenuKind,
    pub entries: Vec<EntryKind>,
}

impl View for Menu {
    type V = NodeView;

    open spec fn view(&self) -> NodeView {
        Node::Menu(*self)@
    }
}

impl Menu {
    /// The entries as the contracts see them.
    pub open spec fn entries_view(&self) -> Seq<EntryKindView> {
        entry_views(self.entries@)
    }

    /// What a menu does with `evt`.
    ///
    /// A menu takes every gesture for itself; a tap beside the menu asks for
    /// the menu to be closed. When the network comes up or goes down, the
    /// switch of the network shows it and the menu is painted. Whatever else
    /// happens passes.
    pub open spec fn reaction(node: NodeView, evt: Event, context: ContextView) -> Reaction
        recommends
            node.widget is Menu,
    {
        match evt {
            Event::Gesture(GestureEvent::Tap(center)) => {
                if !node.rect.includes_spec(center) {
                    Reaction::consumed(
                        node,
                        context,
                        Seq::empty(),
                        seq![Event::Close(node.widget->Menu_id)],
                    )
                } else {
                    Reaction::consumed(node, context, Seq::empty(), Seq::empty())
                }
            },
            Event::Gesture(_) => Reaction::consumed(node, context, Seq::empty(), Seq::empty()),
            Event::Network(up) => Reaction::consumed(
                NodeView {
                    widget: Widget::Menu {
                        id: node.widget->Menu_id,
                        style: node.widget->Menu_style,
                        entries: with_network(node.widget->Menu_entries, up),
                    },
                    ..node
                },
                context,
                seq![Event::Render(node.rect, UpdateMode::Gui)],
                Seq::empty(),
            ),
            _ => Reaction::declined(node, context),
        }
    }

    /// Makes the switch of the network show whether the network is up.
    fn show_network(&mut self, up: bool)
        ensures
            entry_views(final(self).entries@) == with_network(entry_views(old(self).entries@), up),
            final(self).rect == old(self).rect,
            final(self).children == old(self).children,
            final(self).id == old(self).id,
            final(self).kind == old(self).kind,
    {
        let n = self.entries.len();
        let mut i: usize = 0;
        while i < n
            invariant
                0 <= i <= n,
                n == self.entries@.len(),
                n == old(self).entries@.len(),
                self.rect == old(self).rect,
                self.children == old(self).children,
                self.id == old(self).id,
                self.kind == old(self).kind,
                forall|j: int|
                    0 <= j < i ==> (#[trigger] self.entries@[j])@ == old(
                        self,
                    ).entries@[j]@.with_network(up),
                forall|j: int| i <= j < n ==> self.entries@[j] == old(self).entries@[j],
            decreases n - i,
        {
            let entry = self.entries.remove(i);
            let set = entry_with_network(entry, up);
            self.entries.insert(i, set);
            i += 1;
        }
        assert(entry_views(self.entries@) =~= with_network(entry_views(old(self).entries@), up));
    }

    /// A menu with the given entries.
    pub fn new(rect: Rectangle, id: ViewId, kind: MenuKind, entries: Vec<EntryKind>) -> (menu: Menu)
        ensures
            menu@ == (NodeView {
                rect,
                children: Seq::empty(),
                widget: Widget::Menu { id, style: kind, entries: entry_views(entries@) },
            }),
    {
        let menu = Menu { rect, children: Vec::new(), id, kind, entries };
        proof {
            lemma_view(Node::Menu(menu));
            assert(menu@.children =~= Seq::empty());
        }
        menu
    }

    pub fn handle_event(
        &mut self,
        evt: &Event,
        hub: &mut Hub,
        bus: &mut Bus,
        _context: &mut Context,
    ) -> (consumed: bool)
        ensures
            Menu::reaction(old(self)@, *evt, old(_context)@).took_place(
                final(self)@,
                final(_context)@,
                old(hub)@,
                final(hub)@,
                old(bus)@,
                final(bus)@,
                consumed,
            ),
    {
        proof {
            lemma_view(Node::Menu(*old(self)));
            assert(bus@ + Seq::<Event>::empty() =~= bus@);
            assert(hub@.queue + Seq::<Event>::empty() =~= hub@.queue);
        }
        let consumed = match *evt {
            Event::Gesture(GestureEvent::Tap(ref center)) => {
                if !self.rect.includes(center) {
                    bus.push_back(Event::Close(self.id));
                }
                true
            },
            Event::Gesture(_) => true,
            Event::Network(up) => {
                self.show_network(up);
                hub.send(Event::Render(self.rect, UpdateMode::Gui));
                true
            },
            _ => false,
        };
        proof {
            lemma_view(Node::Menu(*self));
            let r = Menu::reaction(old(self)@, *evt, old(_context)@);
            assert(bus@ =~= old(bus)@ + r.bus);
        }
        consumed
    }
}

} // verus!
