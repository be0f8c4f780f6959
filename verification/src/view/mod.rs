//! The nodes of the view tree and what moves between them.

pub mod button;
pub mod common;
pub mod dispatch;
pub mod event;
pub mod frontlight;
pub mod icon;
pub mod label;
pub mod menu;
pub mod preset;
pub mod presets_list;
pub mod slider;

pub use self::event::{Bus, EntryId, Event, Hub, HubView, SliderId, ViewId};

use vstd::prelude::*;
use crate::app::{Context, ContextView};
use crate::geom::{CornerSpec, Rectangle};
use crate::view::button::Button;
use crate::view::common::lemma_bounds_cover;
use crate::view::frontlight::{lemma_window_exposes_lost_children, FrontlightWindow};
use crate::view::icon::Icon;
use crate::view::label::{Align, Label};
use crate::view::menu::{EntryKindView, Menu, MenuKind};
use crate::view::preset::{Preset, PresetKindView};
use crate::view::presets_list::PresetsList;
use crate::view::slider::Slider;

verus! {

/// The thickness of a heavy border, at the reference density.
pub const THICKNESS_LARGE: u16 = 3;

/// The radius of a rounded corner of middle size, at the reference density.
pub const BORDER_RADIUS_MEDIUM: u16 = 9;

/// A node of the view tree: one of the widgets, whatever its kind.
///
/// A node owns its children; the tree has no cycle and no node has two
/// parents. Every kind of widget is a variant here. What works on trees,
/// the operations of `common` and the dispatcher, reaches a node through
/// its rectangle, its children, its kind, its identity and `handle_event`
/// alone; what is particular to a kind is reached by matching on the
/// variant, or through `as_slider` and its like.
#[derive(Debug, PartialEq, Eq)]
pub enum Node {
    Label(Label),
    Preset(Preset),
    FrontlightWindow(FrontlightWindow),
    Slider(Slider),
    Button(Button),
    Icon(Icon),
    PresetsList(PresetsList),
    Menu(Menu),
}

/// The kinds of node.
#[derive(Clone, Copy, Debug, PartialEq, Eq, Structural)]
pub enum Kind {
    Label,
    Preset,
    FrontlightWindow,
    Slider,
    Button,
    Icon,
    PresetsList,
    Menu,
}

/// What is particular to a node of one kind.
pub ghost enum Widget {
    Label { text: Seq<char>, align: Align },
    Preset { kind: PresetKindView, active: bool },
    FrontlightWindow,
    Slider { slider: SliderId, value: u8, active: bool },
    Button { event: Event, text: Seq<char>, active: bool, disabled: bool },
    Icon { name: Seq<char>, corners: Option<CornerSpec>, event: Event, active: bool },
    PresetsList,
    Menu { id: ViewId, style: MenuKind, entries: Seq<EntryKindView> },
}

/// A node as the contracts see it: its rectangle, its children in their
/// order, and what is particular to its kind.
pub ghost struct NodeView {
    pub rect: Rectangle,
    pub children: Seq<NodeView>,
    pub widget: Widget,
}

/// What one node did with one event: what became of the node and of the
/// context, what it sent on the hub and what it queued on the bus, each in
/// the order of sending, and whether it consumed the event.
pub ghost struct Reaction {
    pub node: NodeView,
    pub context: ContextView,
    pub hub: Seq<Event>,
    pub bus: Seq<Event>,
    pub consumed: bool,
}

impl Reaction {
    /// The reaction of a node that lets the event pass: nothing changes and
    /// nothing is sent.
    pub open spec fn declined(node: NodeView, context: ContextView) -> Reaction {
        Reaction { node, context, hub: Seq::empty(), bus: Seq::empty(), consumed: false }
    }

    /// The reaction of a node that consumes the event and changes nothing
    /// but itself.
    pub open spec fn consumed(
        node: NodeView,
        context: ContextView,
        hub: Seq<Event>,
        bus: Seq<Event>,
    ) -> Reaction {
        Reaction { node, context, hub, bus, consumed: true }
    }

    /// Whether a turn that began with `hub` and `bus` and ended with the
    /// given node, context, hub, bus and result is this reaction.
    pub open spec fn took_place(
        self,
        node: NodeView,
        context: ContextView,
        hub: HubView,
        hub_after: HubView,
        bus: Seq<Event>,
        bus_after: Seq<Event>,
        consumed: bool,
    ) -> bool {
        &&& node == self.node
        &&& context == self.context
        &&& hub_after == hub.sent(self.hub)
        &&& bus_after == bus + self.bus
        &&& consumed == self.consumed
    }
}

impl Widget {
    pub open spec fn kind(self) -> Kind {
        match self {
            Widget::Label { .. } => Kind::Label,
            Widget::Preset { .. } => Kind::Preset,
            Widget::FrontlightWindow => Kind::FrontlightWindow,
            Widget::Slider { .. } => Kind::Slider,
            Widget::Button { .. } => Kind::Button,
            Widget::Icon { .. } => Kind::Icon,
            Widget::PresetsList => Kind::PresetsList,
            Widget::Menu { .. } => Kind::Menu,
        }
    }

    /// The logical identity of the node, if it has one.
    pub open spec fn id(self) -> Option<ViewId> {
        match self {
            Widget::Menu { id, .. } => Some(id),
            _ => None,
        }
    }
}

impl Node {
    pub open spec fn rect_spec(&self) -> Rectangle {
        match self {
            Node::Label(v) => v.rect,
            Node::Preset(v) => v.rect,
            Node::FrontlightWindow(v) => v.rect,
            Node::Slider(v) => v.rect,
            Node::Button(v) => v.rect,
            Node::Icon(v) => v.rect,
            Node::PresetsList(v) => v.rect,
            Node::Menu(v) => v.rect,
        }
    }

    pub open spec fn children_spec(&self) -> Vec<Node> {
        match self {
            Node::Label(v) => v.children,
            Node::Preset(v) => v.children,
            Node::FrontlightWindow(v) => v.children,
            Node::Slider(v) => v.children,
            Node::Button(v) => v.children,
            Node::Icon(v) => v.children,
            Node::PresetsList(v) => v.children,
            Node::Menu(v) => v.children,
        }
    }

    pub open spec fn widget_spec(&self) -> Widget {
        match self {
            Node::Label(v) => Widget::Label { text: v.text@, align: v.align },
            Node::Preset(v) => Widget::Preset { kind: v.kind@, active: v.active },
            Node::FrontlightWindow(_) => Widget::FrontlightWindow,
            Node::Slider(v) => Widget::Slider { slider: v.id, value: v.value, active: v.active },
            Node::Button(v) => Widget::Button {
                event: v.event,
                text: v.text@,
                active: v.active,
                disabled: v.disabled,
            },
            Node::Icon(v) => Widget::Icon {
                name: v.name@,
                corners: v.corners,
                event: v.event,
                active: v.active,
            },
            Node::PresetsList(_) => Widget::PresetsList,
            Node::Menu(v) => Widget::Menu { id: v.id, style: v.kind, entries: v.entries_view() },
        }
    }

    /// This node with another rectangle.
    pub open spec fn with_rect(self, rect: Rectangle) -> Node {
        match self {
            Node::Label(v) => Node::Label(Label { rect, ..v }),
            Node::Preset(v) => Node::Preset(Preset { rect, ..v }),
            Node::FrontlightWindow(v) => Node::FrontlightWindow(FrontlightWindow { rect, ..v }),
            Node::Slider(v) => Node::Slider(Slider { rect, ..v }),
            Node::Button(v) => Node::Button(Button { rect, ..v }),
            Node::Icon(v) => Node::Icon(Icon { rect, ..v }),
            Node::PresetsList(v) => Node::PresetsList(PresetsList { rect, ..v }),
            Node::Menu(v) => Node::Menu(Menu { rect, ..v }),
        }
    }

    /// This node with other children.
    pub open spec fn with_children(self, children: Vec<Node>) -> Node {
        match self {
            Node::Label(v) => Node::Label(Label { children, ..v }),
            Node::Preset(v) => Node::Preset(Preset { children, ..v }),
            Node::FrontlightWindow(v) => Node::FrontlightWindow(
                FrontlightWindow { children, ..v },
            ),
            Node::Slider(v) => Node::Slider(Slider { children, ..v }),
            Node::Button(v) => Node::Button(Button { children, ..v }),
            Node::Icon(v) => Node::Icon(Icon { children, ..v }),
            Node::PresetsList(v) => Node::PresetsList(PresetsList { children, ..v }),
            Node::Menu(v) => Node::Menu(Menu { children, ..v }),
        }
    }

    /// The node as the contracts see it.
    pub open spec fn model(self) -> NodeView
        decreases self,
    {
        let children = self.children_spec();
        NodeView {
            rect: self.rect_spec(),
            children: Seq::new(
                children.len() as nat,
                |i: int|
                    if 0 <= i < children.len() {
                        children[i].model()
                    } else {
                        arbitrary()
                    },
            ),
            widget: self.widget_spec(),
        }
    }
}

impl View for Node {
    type V = NodeView;

    open spec fn view(&self) -> NodeView {
        self.model()
    }
}

/// The views of the nodes of a list, in their order.
pub open spec fn views(nodes: Seq<Node>) -> Seq<NodeView> {
    Seq::new(nodes.len(), |i: int| nodes[i]@)
}

/// The view of a node, part by part.
pub proof fn lemma_view(node: Node)
    ensures
        node@.rect == node.rect_spec(),
        node@.widget == node.widget_spec(),
        node@.children == views(node.children_spec()@),
{
    assert(node@.children =~= views(node.children_spec()@));
}

impl Node {
    /// The rectangle that the node occupies.
    pub fn rect(&self) -> (r: &Rectangle)
        ensures
            *r == self.rect_spec(),
            *r == self@.rect,
    {
        proof {
            lemma_view(*self);
        }
        match self {
            Node::Label(v) => &v.rect,
            Node::Preset(v) => &v.rect,
            Node::FrontlightWindow(v) => &v.rect,
            Node::Slider(v) => &v.rect,
            Node::Button(v) => &v.rect,
            Node::Icon(v) => &v.rect,
            Node::PresetsList(v) => &v.rect,
            Node::Menu(v) => &v.rect,
        }
    }

    /// The rectangle of the node, to be changed. Changing it moves no child.
    pub fn rect_mut(&mut self) -> (r: &mut Rectangle)
        ensures
            *r == old(self).rect_spec(),
            *final(self) == old(self).with_rect(*final(r)),
    {
        match self {
            Node::Label(v) => &mut v.rect,
            Node::Preset(v) => &mut v.rect,
            Node::FrontlightWindow(v) => &mut v.rect,
            Node::Slider(v) => &mut v.rect,
            Node::Button(v) => &mut v.rect,
            Node::Icon(v) => &mut v.rect,
            Node::PresetsList(v) => &mut v.rect,
            Node::Menu(v) => &mut v.rect,
        }
    }

    /// The children of the node, in their order. A leaf has none.
    pub fn children(&self) -> (c: &Vec<Node>)
        ensures
            *c == self.children_spec(),
            views(c@) == self@.children,
    {
        proof {
            lemma_view(*self);
        }
        match self {
            Node::Label(v) => &v.children,
            Node::Preset(v) => &v.children,
            Node::FrontlightWindow(v) => &v.children,
            Node::Slider(v) => &v.children,
            Node::Button(v) => &v.children,
            Node::Icon(v) => &v.children,
            Node::PresetsList(v) => &v.children,
            Node::Menu(v) => &v.children,
        }
    }

    /// The children of the node, to be changed.
    pub fn children_mut(&mut self) -> (c: &mut Vec<Node>)
        ensures
            *c == old(self).children_spec(),
            *final(self) == old(self).with_children(*final(c)),
    {
        match self {
            Node::Label(v) => &mut v.children,
            Node::Preset(v) => &mut v.children,
            Node::FrontlightWindow(v) => &mut v.children,
            Node::Slider(v) => &mut v.children,
            Node::Button(v) => &mut v.children,
            Node::Icon(v) => &mut v.children,
            Node::PresetsList(v) => &mut v.children,
            Node::Menu(v) => &mut v.children,
        }
    }

    /// The number of children.
    pub fn len(&self) -> (n: usize)
        ensures
            n == self@.children.len(),
    {
        self.children().len()
    }

    /// The child at `index`.
    pub fn child(&self, index: usize) -> (c: &Node)
        requires
            index < self@.children.len(),
        ensures
            c@ == self@.children[index as int],
            *c == self.children_spec()[index as int],
    {
        &self.children()[index]
    }

    /// The kind of the node.
    pub fn kind(&self) -> (k: Kind)
        ensures
            k == self@.widget.kind(),
    {
        proof {
            lemma_view(*self);
        }
        match self {
            Node::Label(_) => Kind::Label,
            Node::Preset(_) => Kind::Preset,
            Node::FrontlightWindow(_) => Kind::FrontlightWindow,
            Node::Slider(_) => Kind::Slider,
            Node::Button(_) => Kind::Button,
            Node::Icon(_) => Kind::Icon,
            Node::PresetsList(_) => Kind::PresetsList,
            Node::Menu(_) => Kind::Menu,
        }
    }

    /// Tells whether the node is of the kind `kind`.
    pub fn is(&self, kind: Kind) -> (b: bool)
        ensures
            b == (self@.widget.kind() == kind),
    {
        self.kind() == kind
    }

    /// The logical identity of the node. Most nodes have none.
    pub fn id(&self) -> (id: Option<ViewId>)
        ensures
            id == self@.widget.id(),
    {
        proof {
            lemma_view(*self);
        }
        match self {
            Node::Menu(v) => Some(v.id),
            _ => None,
        }
    }

    /// The node as a slider, if it is one.
    pub fn as_slider(&self) -> (slider: Option<&Slider>)
        ensures
            match slider {
                Some(s) => *self == Node::Slider(*s),
                None => !(self is Slider),
            },
    {
        match self {
            Node::Slider(v) => Some(v),
            _ => None,
        }
    }

    /// The node as a button, if it is one.
    pub fn as_button(&self) -> (button: Option<&Button>)
        ensures
            match button {
                Some(b) => *self == Node::Button(*b),
                None => !(self is Button),
            },
    {
        match self {
            Node::Button(v) => Some(v),
            _ => None,
        }
    }

    /// The node as a row of presets, if it is one.
    pub fn as_presets_list(&self) -> (list: Option<&PresetsList>)
        ensures
            match list {
                Some(l) => *self == Node::PresetsList(*l),
                None => !(self is PresetsList),
            },
    {
        match self {
            Node::PresetsList(v) => Some(v),
            _ => None,
        }
    }

    /// Tells whether the node is painted as an opaque ground for its children.
    pub fn is_background(&self) -> (b: bool)
        ensures
            b == (self@.widget is FrontlightWindow),
    {
        proof {
            lemma_view(*self);
        }
        match self {
            Node::FrontlightWindow(_) => true,
            _ => false,
        }
    }
}

/// A node with another rectangle, and a node with other children, as the
/// contracts see them.
pub proof fn lemma_view_with(node: Node, rect: Rectangle, children: Vec<Node>)
    ensures
        node.with_rect(rect)@ == (NodeView { rect, ..node@ }),
        node.with_children(children)@ == (NodeView { children: views(children@), ..node@ }),
        node.with_rect(rect).children_spec() == node.children_spec(),
        node.with_children(children).rect_spec() == node.rect_spec(),
{
    lemma_view(node);
    lemma_view(node.with_rect(rect));
    lemma_view(node.with_children(children));
}

impl NodeView {
    /// What the node does with `evt`, by its kind. A label and a row of
    /// presets let every event pass.
    pub open spec fn reaction(self, evt: Event, context: ContextView) -> Reaction {
        match self.widget {
            Widget::Label { .. } => Reaction::declined(self, context),
            Widget::Preset { .. } => Preset::reaction(self, evt, context),
            Widget::FrontlightWindow => FrontlightWindow::reaction(self, evt, context),
            Widget::Slider { .. } => Slider::reaction(self, evt, context),
            Widget::Button { .. } => Button::reaction(self, evt, context),
            Widget::Icon { .. } => Icon::reaction(self, evt, context),
            Widget::PresetsList => Reaction::declined(self, context),
            Widget::Menu { .. } => Menu::reaction(self, evt, context),
        }
    }
}

impl Node {
    /// Lets the node handle `evt`, and tells whether the node consumed it.
    ///
    /// The node may change itself and the context, send events on the hub,
    /// and queue on the bus the events that follow from this one.
    pub fn handle_event(
        &mut self,
        evt: &Event,
        hub: &mut Hub,
        bus: &mut Bus,
        context: &mut Context,
    ) -> (consumed: bool)
        ensures
            old(self)@.reaction(*evt, old(context)@).took_place(
                final(self)@,
                final(context)@,
                old(hub)@,
                final(hub)@,
                old(bus)@,
                final(bus)@,
                consumed,
            ),
    {
        proof {
            lemma_view(*old(self));
        }
        match self {
            Node::Label(v) => v.handle_event(evt, hub, bus, context),
            Node::Preset(v) => v.handle_event(evt, hub, bus, context),
            Node::FrontlightWindow(v) => v.handle_event(evt, hub, bus, context),
            Node::Slider(v) => v.handle_event(evt, hub, bus, context),
            Node::Button(v) => v.handle_event(evt, hub, bus, context),
            Node::Icon(v) => v.handle_event(evt, hub, bus, context),
            Node::PresetsList(v) => v.handle_event(evt, hub, bus, context),
            Node::Menu(v) => v.handle_event(evt, hub, bus, context),
        }
    }
}

/// A node that does not consume an event leaves no trace of it: the node and
/// the context are what they were, and nothing was sent or queued.
pub proof fn lemma_declined_changes_nothing(node: NodeView, evt: Event, context: ContextView)
    ensures
        !node.reaction(evt, context).consumed ==> node.reaction(evt, context)
            == Reaction::declined(node, context),
{
}

/// No child leaves a node unexposed: if a node has fewer children after it
/// handled an event than before, the first request that it sent asks to
/// erase a rectangle that covers every child that it had, with all that lay
/// below it.
pub proof fn lemma_lost_children_are_exposed(node: NodeView, evt: Event, context: ContextView)
    requires
        node.children.len() <= usize::MAX,
    ensures
        node.reaction(evt, context).node.children.len() < node.children.len() ==> {
            &&& node.reaction(evt, context).hub.len() > 0
            &&& node.reaction(evt, context).hub[0] == Event::Expose(node.bounds())
            &&& forall|i: int|
                0 <= i < node.children.len() ==> node.bounds().covers(
                    (#[trigger] node.children[i]).bounds(),
                )
        },
{
    lemma_bounds_cover(node);
    if node.widget is FrontlightWindow {
        lemma_window_exposes_lost_children(node, evt, context);
    }
}

} // verus!
