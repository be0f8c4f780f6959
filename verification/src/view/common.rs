//! Operations on a subtree that hold for nodes of every kind.

use vstd::prelude::*;
use crate::app::{Context, ContextView};
use crate::framebuffer::UpdateMode;
use crate::geom::{fits_i32, lemma_absorb_translate, Point, Rectangle};
use crate::view::menu::{entry_views, EntryKind, EntryKindView, Menu, MenuKind};
use crate::view::{
    lemma_view, lemma_view_with, views, EntryId, Event, Hub, Kind, Node, NodeView, ViewId, Widget,
};

verus! {

/// `acc` grown until it covers each rectangle of `rects`.
pub open spec fn absorb_all(acc: Rectangle, rects: Seq<Rectangle>) -> Rectangle
    decreases rects.len(),
{
    if rects.len() == 0 {
        acc
    } else {
        absorb_all(acc, rects.drop_last()).absorbed(rects.last())
    }
}

impl NodeView {
    /// Whether every rectangle of the subtree can be moved by `delta`.
    pub open spec fn can_shift(self, delta: Point) -> bool
        decreases self,
    {
        &&& self.rect.can_translate(delta)
        &&& forall|i: int|
            0 <= i < self.children.len() ==> (#[trigger] self.children[i]).can_shift(delta)
    }

    /// The subtree with every rectangle moved by `delta`, and nothing else
    /// changed.
    pub open spec fn shifted(self, delta: Point) -> NodeView
        decreases self,
    {
        NodeView {
            rect: self.rect.translated(delta),
            children: Seq::new(
                self.children.len(),
                |i: int|
                    if 0 <= i < self.children.len() {
                        self.children[i].shifted(delta)
                    } else {
                        arbitrary()
                    },
            ),
            widget: self.widget,
        }
    }

    /// The covering rectangles of the children, in their order.
    pub open spec fn child_bounds(self) -> Seq<Rectangle>
        decreases self, 0nat,
    {
        Seq::new(
            self.children.len(),
            |i: int|
                if 0 <= i < self.children.len() {
                    self.children[i].bounds()
                } else {
                    arbitrary()
                },
        )
    }

    /// The smallest rectangle that covers the rectangle of the node and that
    /// of each of its descendants.
    pub open spec fn bounds(self) -> Rectangle
        decreases self, 1nat,
    {
        absorb_all(self.rect, self.child_bounds())
    }

    /// The place of the first child of the kind `kind`.
    pub open spec fn locate(self, kind: Kind) -> Option<usize> {
        first_match(self.children, |c: NodeView| c.widget.kind() == kind)
    }

    /// The place of the first child whose logical identity is `id`.
    pub open spec fn locate_by_id(self, id: ViewId) -> Option<usize> {
        first_match(self.children, |c: NodeView| c.widget.id() == Some(id))
    }
}

/// The least index below `upto` at which `pred` holds in `nodes`, or `upto`
/// if it holds at none below.
pub open spec fn least(nodes: Seq<NodeView>, pred: spec_fn(NodeView) -> bool, upto: int) -> int
    decreases upto,
{
    if upto <= 0 {
        0
    } else {
        let before = least(nodes, pred, upto - 1);
        if before < upto - 1 || pred(nodes[upto - 1]) {
            before
        } else {
            upto
        }
    }
}

/// The least index at which `pred` holds in `nodes`, if it holds anywhere.
pub open spec fn first_match(nodes: Seq<NodeView>, pred: spec_fn(NodeView) -> bool) -> Option<
    usize,
> {
    let index = least(nodes, pred, nodes.len() as int);
    if index < nodes.len() {
        Some(index as usize)
    } else {
        None
    }
}

/// `least` is an index at which `pred` holds and before which it does not,
/// or the bound itself.
pub proof fn lemma_least(nodes: Seq<NodeView>, pred: spec_fn(NodeView) -> bool, upto: int)
    requires
        0 <= upto <= nodes.len(),
    ensures
        0 <= least(nodes, pred, upto) <= upto,
        least(nodes, pred, upto) < upto ==> pred(nodes[least(nodes, pred, upto)]),
        forall|j: int| 0 <= j < least(nodes, pred, upto) ==> !pred(#[trigger] nodes[j]),
    decreases upto,
{
    if upto > 0 {
        lemma_least(nodes, pred, upto - 1);
    }
}

/// `first_match` finds `upto` if `pred` holds there and nowhere before, and
/// finds nothing if `pred` holds nowhere.
pub proof fn lemma_first_match(nodes: Seq<NodeView>, pred: spec_fn(NodeView) -> bool, upto: int)
    requires
        0 <= upto <= nodes.len(),
        forall|j: int| 0 <= j < upto ==> !pred(nodes[j]),
        nodes.len() <= usize::MAX,
    ensures
        upto < nodes.len() && pred(nodes[upto]) ==> first_match(nodes, pred) == Some(upto as usize),
        upto == nodes.len() ==> first_match(nodes, pred) is None,
{
    lemma_least(nodes, pred, nodes.len() as int);
}

/// What `first_match` finds is the least index at which `pred` holds; it
/// finds nothing only if `pred` holds nowhere.
pub proof fn lemma_first_match_found(nodes: Seq<NodeView>, pred: spec_fn(NodeView) -> bool)
    requires
        nodes.len() <= usize::MAX,
    ensures
        match first_match(nodes, pred) {
            Some(index) => index < nodes.len() && pred(nodes[index as int]) && forall|j: int|
                0 <= j < index ==> !pred(#[trigger] nodes[j]),
            None => forall|j: int| 0 <= j < nodes.len() ==> !pred(#[trigger] nodes[j]),
        },
{
    lemma_least(nodes, pred, nodes.len() as int);
}

/// Moves the rectangle of `view` and of each of its descendants by `delta`.
pub fn shift(view: &mut Node, delta: &Point)
    requires
        old(view)@.can_shift(*delta),
    ensures
        final(view)@ == old(view)@.shifted(*delta),
    decreases *old(view), 2nat,
{
    proof {
        lemma_view(*old(view));
    }
    view.rect_mut().translate(delta);
    let ghost moved = *view;
    let children = view.children_mut();
    shift_children(children, delta);
    proof {
        lemma_view_with(*old(view), moved.rect_spec(), old(view).children_spec());
        lemma_view_with(moved, moved.rect_spec(), *children);
        assert(final(view)@.children =~= old(view)@.shifted(*delta).children);
    }
}

/// The subtrees of `nodes`, each moved by `delta`.
pub open spec fn all_shifted(nodes: Seq<NodeView>, delta: Point) -> Seq<NodeView> {
    Seq::new(nodes.len(), |i: int| nodes[i].shifted(delta))
}

/// Whether each subtree of `nodes` can be moved by `delta`.
pub open spec fn all_can_shift(nodes: Seq<NodeView>, delta: Point) -> bool {
    forall|i: int| 0 <= i < nodes.len() ==> (#[trigger] nodes[i]).can_shift(delta)
}

/// Moves each of the subtrees `children` by `delta`.
pub fn shift_children(children: &mut Vec<Node>, delta: &Point)
    requires
        all_can_shift(views(old(children)@), *delta),
    ensures
        views(final(children)@) == all_shifted(views(old(children)@), *delta),
    decreases *old(children), 1nat,
{
    shift_children_from(children, 0, delta);
    assert(views(children@) =~= all_shifted(views(old(children)@), *delta));
}

/// The subtrees of `nodes` from the place `from` on, each moved by `delta`,
/// after those before `from` as they are.
pub open spec fn shifted_from(nodes: Seq<NodeView>, from: int, delta: Point) -> Seq<NodeView> {
    Seq::new(
        nodes.len(),
        |i: int|
            if i >= from {
                nodes[i].shifted(delta)
            } else {
                nodes[i]
            },
    )
}

/// Whether each subtree of `nodes` from the place `from` on can be moved by
/// `delta`.
pub open spec fn can_shift_from(nodes: Seq<NodeView>, from: int, delta: Point) -> bool {
    forall|i: int| from <= i < nodes.len() && 0 <= i ==> (#[trigger] nodes[i]).can_shift(delta)
}

/// Moves each of the subtrees `children` from the place `from` on by `delta`.
pub fn shift_children_from(children: &mut Vec<Node>, from: usize, delta: &Point)
    requires
        can_shift_from(views(old(children)@), from as int, *delta),
    ensures
        views(final(children)@) == shifted_from(views(old(children)@), from as int, *delta),
        final(children)@.len() == old(children)@.len(),
        forall|j: int| 0 <= j < from && j < old(children)@.len() ==> final(children)@[j] == old(
            children,
        )@[j],
    decreases *old(children), 0nat,
{
    let n = children.len();
    let mut i: usize = from;
    while i < n
        invariant
            from <= i,
            n == children.len(),
            n == old(children).len(),
            forall|j: int| 0 <= j < from && j < n ==> children[j] == old(children)[j],
            forall|j: int|
                from <= j < i && j < n ==> (#[trigger] children[j])@ == old(children)[j]@.shifted(
                    *delta,
                ),
            forall|j: int| i <= j < n ==> children[j] == old(children)[j],
            can_shift_from(views(old(children)@), from as int, *delta),
        decreases n - i,
    {
        assert(views(old(children)@)[i as int].can_shift(*delta));
        shift(&mut children[i], delta);
        i += 1;
    }
    assert(views(children@) =~= shifted_from(views(old(children)@), from as int, *delta));
}

/// Tells whether `shift` may be called on `view` with `delta`.
pub fn shiftable(view: &Node, delta: &Point) -> (b: bool)
    ensures
        b == view@.can_shift(*delta),
    decreases *view, 2nat,
{
    proof {
        lemma_view(*view);
    }
    view.rect().translatable(delta) && children_shiftable(view.children(), delta)
}

/// Tells whether `shift_children` may be called on `children` with `delta`.
pub fn children_shiftable(children: &Vec<Node>, delta: &Point) -> (b: bool)
    ensures
        b == all_can_shift(views(children@), *delta),
    decreases *children, 1nat,
{
    children_shiftable_from(children, 0, delta)
}

/// Tells whether `shift_children_from` may be called on `children` with
/// `from` and `delta`.
pub fn children_shiftable_from(children: &Vec<Node>, from: usize, delta: &Point) -> (b: bool)
    ensures
        b == can_shift_from(views(children@), from as int, *delta),
    decreases *children, 0nat,
{
    let n = children.len();
    let mut i: usize = from;
    while i < n
        invariant
            from <= i,
            n == children.len(),
            forall|j: int| from <= j < i && j < n ==> (#[trigger] views(children@)[j]).can_shift(*delta),
        decreases n - i,
    {
        if !shiftable(&children[i], delta) {
            assert(!views(children@)[i as int].can_shift(*delta));
            return false;
        }
        i += 1;
    }
    true
}

/// Finds the first child of `view` that is of the kind `kind`. The search
/// does not descend into the children.
pub fn locate(view: &Node, kind: Kind) -> (found: Option<usize>)
    ensures
        found == view@.locate(kind),
        match found {
            Some(index) => index < view@.children.len()
                && view@.children[index as int].widget.kind() == kind
                && forall|j: int| 0 <= j < index ==> view@.children[j].widget.kind() != kind,
            None => forall|j: int|
                0 <= j < view@.children.len() ==> view@.children[j].widget.kind() != kind,
        },
{
    locate_in(view.children(), kind)
}

/// Finds the first of `children` that is of the kind `kind`.
pub fn locate_in(children: &Vec<Node>, kind: Kind) -> (found: Option<usize>)
    ensures
        found == first_match(views(children@), |c: NodeView| c.widget.kind() == kind),
        match found {
            Some(index) => index < children@.len() && children@[index as int]@.widget.kind()
                == kind && forall|j: int|
                0 <= j < index ==> views(children@)[j].widget.kind() != kind,
            None => forall|j: int|
                0 <= j < children@.len() ==> views(children@)[j].widget.kind() != kind,
        },
{
    let ghost pred = |c: NodeView| c.widget.kind() == kind;
    let mut index: usize = 0;
    while index < children.len()
        invariant
            0 <= index <= children.len(),
            pred == (|c: NodeView| c.widget.kind() == kind),
            forall|j: int| 0 <= j < index ==> !pred(views(children@)[j]),
        decreases children.len() - index,
    {
        if children[index].is(kind) {
            proof {
                lemma_first_match(views(children@), pred, index as int);
            }
            return Some(index);
        }
        index += 1;
    }
    proof {
        lemma_first_match(views(children@), pred, index as int);
    }
    None
}

/// Finds the first child of `view` whose logical identity is `id`. Where
/// several children have that identity, the first of them is found.
pub fn locate_by_id(view: &Node, id: ViewId) -> (found: Option<usize>)
    ensures
        found == view@.locate_by_id(id),
        match found {
            Some(index) => index < view@.children.len()
                && view@.children[index as int].widget.id() == Some(id)
                && forall|j: int| 0 <= j < index ==> view@.children[j].widget.id() != Some(id),
            None => forall|j: int|
                0 <= j < view@.children.len() ==> view@.children[j].widget.id() != Some(id),
        },
{
    let children = view.children();
    let ghost pred = |c: NodeView| c.widget.id() == Some(id);
    let mut index: usize = 0;
    while index < children.len()
        invariant
            0 <= index <= children.len(),
            views(children@) == view@.children,
            pred == (|c: NodeView| c.widget.id() == Some(id)),
            forall|j: int| 0 <= j < index ==> !pred(view@.children[j]),
        decreases children.len() - index,
    {
        let child_id = children[index].id();
        if child_id == Some(id) {
            proof {
                lemma_first_match(view@.children, pred, index as int);
            }
            return Some(index);
        }
        index += 1;
    }
    proof {
        lemma_first_match(view@.children, pred, index as int);
    }
    None
}

/// Computes the rectangle that covers `view` and all its descendants, also
/// where a child reaches beyond its parent.
pub fn overlapping_rectangle(view: &Node) -> (rect: Rectangle)
    ensures
        rect == view@.bounds(),
    decreases *view, 1nat,
{
    proof {
        lemma_view(*view);
        lemma_bounds(view@);
    }
    covering_rectangle(*view.rect(), view.children())
}

/// The covering rectangles of the subtrees `nodes`, in their order.
pub open spec fn all_bounds(nodes: Seq<NodeView>) -> Seq<Rectangle> {
    Seq::new(nodes.len(), |i: int| nodes[i].bounds())
}

/// Computes the rectangle that covers `rect` and each of the subtrees
/// `children`.
pub fn covering_rectangle(rect: Rectangle, children: &Vec<Node>) -> (covering: Rectangle)
    ensures
        covering == absorb_all(rect, all_bounds(views(children@))),
    decreases *children, 0nat,
{
    let mut covering = rect;
    let n = children.len();
    let mut i: usize = 0;
    let ghost bounds = all_bounds(views(children@));
    while i < n
        invariant
            0 <= i <= n,
            n == children.len(),
            bounds == all_bounds(views(children@)),
            covering == absorb_all(rect, bounds.take(i as int)),
        decreases n - i,
    {
        let child_rect = overlapping_rectangle(&children[i]);
        covering.absorb(&child_rect);
        proof {
            assert(bounds.take(i + 1).drop_last() =~= bounds.take(i as int));
            assert(bounds.take(i + 1).last() == views(children@)[i as int].bounds());
        }
        i += 1;
    }
    proof {
        assert(bounds.take(n as int) =~= bounds);
    }
    covering
}

/// The covering rectangle of a node is its own rectangle grown over the
/// covering rectangle of each child.
pub proof fn lemma_bounds(node: NodeView)
    ensures
        node.bounds() == absorb_all(node.rect, all_bounds(node.children)),
{
    assert(node.child_bounds() =~= all_bounds(node.children));
}

/// Absorbing rectangles that were all moved by one displacement gives the
/// rectangle that absorbing the unmoved ones gives, moved by it.
pub proof fn lemma_absorb_all_translate(
    acc: Rectangle,
    rects: Seq<Rectangle>,
    moved: Seq<Rectangle>,
    delta: Point,
)
    requires
        acc.can_translate(delta),
        rects.len() == moved.len(),
        forall|i: int|
            0 <= i < rects.len() ==> (#[trigger] rects[i]).can_translate(delta) && moved[i]
                == rects[i].translated(delta),
    ensures
        absorb_all(acc, rects).can_translate(delta),
        absorb_all(acc.translated(delta), moved) == absorb_all(acc, rects).translated(delta),
    decreases rects.len(),
{
    if rects.len() > 0 {
        lemma_absorb_all_translate(acc, rects.drop_last(), moved.drop_last(), delta);
        lemma_absorb_translate(absorb_all(acc, rects.drop_last()), rects.last(), delta);
    }
}

/// Shifting commutes with the covering rectangle: the subtree moved by
/// `delta` is covered by the rectangle that covered it before, moved by
/// `delta`.
pub proof fn lemma_shift_bounds(tree: NodeView, delta: Point)
    requires
        tree.can_shift(delta),
    ensures
        tree.bounds().can_translate(delta),
        tree.shifted(delta).bounds() == tree.bounds().translated(delta),
    decreases tree,
{
    let rects = tree.child_bounds();
    let moved = tree.shifted(delta).child_bounds();
    assert forall|i: int| 0 <= i < rects.len() implies (#[trigger] rects[i]).can_translate(delta)
        && moved[i] == rects[i].translated(delta) by {
        lemma_shift_bounds(tree.children[i], delta);
    }
    lemma_absorb_all_translate(tree.rect, rects, moved, delta);
}

/// Shifting by a displacement and then by its opposite restores the subtree.
pub proof fn lemma_shift_back(tree: NodeView, delta: Point)
    requires
        tree.can_shift(delta),
        delta.x > i32::MIN,
        delta.y > i32::MIN,
    ensures
        tree.shifted(delta).can_shift(delta.negated()),
        tree.shifted(delta).shifted(delta.negated()) == tree,
    decreases tree,
{
    let there = tree.shifted(delta);
    let back = there.shifted(delta.negated());
    assert forall|i: int| 0 <= i < tree.children.len() implies (#[trigger] there.children[i]).can_shift(
        delta.negated(),
    ) && back.children[i] == tree.children[i] by {
        lemma_shift_back(tree.children[i], delta);
    }
    assert(back.children =~= tree.children);
}

/// Every rectangle that was absorbed is covered by the result.
pub proof fn lemma_absorb_all_covers(acc: Rectangle, rects: Seq<Rectangle>)
    ensures
        absorb_all(acc, rects).covers(acc),
        forall|i: int| 0 <= i < rects.len() ==> absorb_all(acc, rects).covers(#[trigger] rects[i]),
    decreases rects.len(),
{
    if rects.len() > 0 {
        lemma_absorb_all_covers(acc, rects.drop_last());
        assert forall|i: int| 0 <= i < rects.len() implies absorb_all(acc, rects).covers(
            #[trigger] rects[i],
        ) by {
            if i < rects.len() - 1 {
                assert(rects.drop_last()[i] == rects[i]);
            }
        }
    }
}

/// The covering rectangle of a node covers the rectangle of the node and
/// the covering rectangle of each of its children.
pub proof fn lemma_bounds_cover(node: NodeView)
    ensures
        node.bounds().covers(node.rect),
        forall|i: int|
            0 <= i < node.children.len() ==> node.bounds().covers(
                (#[trigger] node.children[i]).bounds(),
            ),
        forall|i: int|
            0 <= i < node.children.len() ==> node.bounds().covers((#[trigger] node.children[i]).rect),
{
    lemma_absorb_all_covers(node.rect, node.child_bounds());
    assert forall|i: int| 0 <= i < node.children.len() implies node.bounds().covers(
        (#[trigger] node.children[i]).bounds(),
    ) && node.bounds().covers(node.children[i].rect) by {
        assert(node.child_bounds()[i] == node.children[i].bounds());
        lemma_absorb_all_covers(node.children[i].rect, node.children[i].child_bounds());
    }
}

impl NodeView {
    /// The node without the child at `index`.
    pub open spec fn without_child(self, index: int) -> NodeView {
        NodeView { children: self.children.remove(index), ..self }
    }
}

/// Takes the child at `index` out of `view`, and first asks for the
/// rectangle that the child covered to be erased. Where there is no such
/// child, nothing changes and nothing is sent.
pub fn remove_child(view: &mut Node, index: usize, hub: &mut Hub) -> (child: Option<Node>)
    ensures
        index < old(view)@.children.len() ==> child is Some && child.unwrap()@ == old(
            view,
        )@.children[index as int] && final(view)@ == old(view)@.without_child(index as int)
            && final(hub)@ == old(hub)@.sent(
            seq![Event::Expose(old(view)@.children[index as int].bounds())],
        ),
        index >= old(view)@.children.len() ==> child is None && final(view)@ == old(view)@
            && final(hub)@ == old(hub)@,
{
    proof {
        lemma_view(*old(view));
    }
    if index >= view.len() {
        return None;
    }
    let exposed = overlapping_rectangle(view.child(index));
    hub.send(Event::Expose(exposed));
    let children = view.children_mut();
    let child = children.remove(index);
    proof {
        lemma_view_with(*old(view), old(view).rect_spec(), *children);
        assert(views(children@) =~= old(view)@.children.remove(index as int));
    }
    Some(child)
}

/// When a child leaves a node, the request sent asks to erase a rectangle
/// that covers the rectangle of the child and of everything below it.
pub proof fn lemma_removed_child_is_exposed(node: NodeView, index: int)
    requires
        0 <= index < node.children.len(),
    ensures
        node.children[index].bounds().covers(node.children[index].rect),
        forall|i: int|
            0 <= i < node.children[index].children.len() ==> node.children[index].bounds().covers(
                (#[trigger] node.children[index].children[i]).bounds(),
            ),
{
    lemma_bounds_cover(node.children[index]);
}

/// The entries of the main menu: the three switches, the command that takes
/// a screenshot and, last, the commands that leave the interface.
pub open spec fn main_menu_entries(context: ContextView) -> Seq<EntryKindView> {
    seq![
        EntryKindView::CheckBox("Invert Colors"@, EntryId::ToggleInverted, context.inverted),
        EntryKindView::CheckBox("Make Bitonal"@, EntryId::ToggleMonochrome, context.monochrome),
        EntryKindView::CheckBox("Enable WiFi"@, EntryId::ToggleWifi, context.settings.wifi),
        EntryKindView::Separator,
        EntryKindView::Command("Take Screenshot"@, EntryId::TakeScreenshot),
        EntryKindView::Separator,
    ] + (if context.standalone {
        seq![
            EntryKindView::Command("Start Nickel"@, EntryId::StartNickel),
            EntryKindView::Command("Reboot"@, EntryId::Reboot),
        ]
    } else {
        seq![EntryKindView::Command("Quit"@, EntryId::Quit)]
    })
}

/// The main menu, occupying `rect`.
pub open spec fn main_menu(rect: Rectangle, context: ContextView) -> NodeView {
    NodeView {
        rect,
        children: Seq::empty(),
        widget: Widget::Menu {
            id: ViewId::MainMenu,
            style: MenuKind::DropDown,
            entries: main_menu_entries(context),
        },
    }
}

/// The node after its main menu was toggled, and what was sent on the hub.
///
/// Where the node has a main menu among its children, the menu leaves them
/// and the rectangle that the menu covered is to be erased, unless the menu
/// was to be shown. Where it has none, a main menu that occupies `rect`
/// becomes its last child and is to be painted, unless the menu was to be
/// hidden.
pub open spec fn main_menu_toggled(
    node: NodeView,
    rect: Rectangle,
    enable: Option<bool>,
    context: ContextView,
) -> (NodeView, Seq<Event>) {
    match node.locate_by_id(ViewId::MainMenu) {
        Some(index) => {
            if enable == Some(true) {
                (node, Seq::empty())
            } else {
                (
                    NodeView { children: node.children.remove(index as int), ..node },
                    seq![Event::Expose(node.children[index as int].bounds())],
                )
            }
        },
        None => {
            if enable == Some(false) {
                (node, Seq::empty())
            } else {
                (
                    NodeView { children: node.children.push(main_menu(rect, context)), ..node },
                    seq![Event::Render(rect, UpdateMode::Gui)],
                )
            }
        },
    }
}

fn make_main_menu_entries(context: &Context) -> (entries: Vec<EntryKind>)
    ensures
        entry_views(entries@) == main_menu_entries(context@),
{
    let mut entries: Vec<EntryKind> = Vec::new();
    entries.push(
        EntryKind::CheckBox("Invert Colors".to_owned(), EntryId::ToggleInverted, context.inverted),
    );
    entries.push(
        EntryKind::CheckBox(
            "Make Bitonal".to_owned(),
            EntryId::ToggleMonochrome,
            context.monochrome,
        ),
    );
    entries.push(
        EntryKind::CheckBox("Enable WiFi".to_owned(), EntryId::ToggleWifi, context.settings.wifi),
    );
    entries.push(EntryKind::Separator);
    entries.push(EntryKind::Command("Take Screenshot".to_owned(), EntryId::TakeScreenshot));
    entries.push(EntryKind::Separator);
    if context.standalone {
        entries.push(EntryKind::Command("Start Nickel".to_owned(), EntryId::StartNickel));
        entries.push(EntryKind::Command("Reboot".to_owned(), EntryId::Reboot));
    } else {
        entries.push(EntryKind::Command("Quit".to_owned(), EntryId::Quit));
    }
    assert(entry_views(entries@) =~= main_menu_entries(context@));
    entries
}

/// Shows the main menu of `view` in `rect`, or hides it: shows it if
/// `enable` is `Some(true)`, hides it if `enable` is `Some(false)`, and does
/// the one that changes something if `enable` is `None`.
pub fn toggle_main_menu(
    view: &mut Node,
    rect: Rectangle,
    enable: Option<bool>,
    hub: &mut Hub,
    context: &mut Context,
)
    ensures
        final(view)@ == main_menu_toggled(old(view)@, rect, enable, old(context)@).0,
        final(hub)@ == old(hub)@.sent(main_menu_toggled(old(view)@, rect, enable, old(context)@).1),
        *final(context) == *old(context),
{
    proof {
        lemma_view(*old(view));
        assert(hub@.queue + Seq::<Event>::empty() =~= hub@.queue);
    }
    if let Some(index) = locate_by_id(view, ViewId::MainMenu) {
        if let Some(true) = enable {
            return ;
        }
        remove_child(view, index, hub);
    } else {
        if let Some(false) = enable {
            return ;
        }
        let entries = make_main_menu_entries(context);
        let main_menu = Menu::new(rect, ViewId::MainMenu, MenuKind::DropDown, entries);
        hub.send(Event::Render(main_menu.rect, UpdateMode::Gui));
        let children = view.children_mut();
        children.push(Node::Menu(main_menu));
        proof {
            lemma_view_with(*old(view), old(view).rect_spec(), *children);
            assert(views(children@) =~= old(view)@.children.push(main_menu@));
        }
    }
}

/// The height of a rectangle.
pub open spec fn height_of(rect: Rectangle) -> int {
    rect.max.y - rect.min.y
}

/// `rect` with its lower edge moved down by `by`.
pub open spec fn grown(rect: Rectangle, by: int) -> Rectangle {
    Rectangle { min: rect.min, max: Point { x: rect.max.x, y: (rect.max.y + by) as i32 } }
}

/// The displacement by `by` downwards.
pub open spec fn down(by: int) -> Point {
    Point { x: 0, y: by as i32 }
}

impl NodeView {
    /// Whether `section` can become the child at `index`: the place exists,
    /// the height of the section is a length, every child from that place on
    /// can be moved down by that height, and the node can grow by it.
    pub open spec fn can_insert_section(self, index: int, section: NodeView) -> bool {
        let height = height_of(section.rect);
        &&& 0 <= index <= self.children.len()
        &&& 0 <= height <= i32::MAX
        &&& can_shift_from(self.children, index, down(height))
        &&& fits_i32(self.rect.max.y + height)
    }

    /// The node with `section` as the child at `index`: every child from
    /// that place on moved down by the height of the section, and the node
    /// grown by that height.
    pub open spec fn with_section(self, index: int, section: NodeView) -> NodeView {
        let height = height_of(section.rect);
        NodeView {
            rect: grown(self.rect, height),
            children: shifted_from(self.children, index, down(height)).insert(index, section),
            widget: self.widget,
        }
    }

    /// Whether the child at `index` can leave the node: there is such a
    /// child, its height is a length, every child after it can be moved up
    /// by that height, and the node can shrink by it.
    pub open spec fn can_remove_section(self, index: int) -> bool {
        &&& 0 <= index < self.children.len()
        &&& 0 <= height_of(self.children[index].rect) <= i32::MAX
        &&& can_shift_from(
            self.children.remove(index),
            index,
            down(-height_of(self.children[index].rect)),
        )
        &&& fits_i32(self.rect.max.y - height_of(self.children[index].rect))
    }

    /// The node without the child at `index`: every child after it moved up
    /// by the height of that child, and the node shrunk by that height.
    pub open spec fn without_section(self, index: int) -> NodeView {
        let height = height_of(self.children[index].rect);
        NodeView {
            rect: grown(self.rect, -height),
            children: shifted_from(self.children.remove(index), index, down(-height)),
            widget: self.widget,
        }
    }

    /// What is sent on the hub when the node changes into `after` by gaining
    /// or losing a section: a request to erase what the node covered, then a
    /// request to paint the rectangle that the node has now.
    pub open spec fn section_requests(self, after: NodeView) -> Seq<Event> {
        seq![Event::Expose(self.bounds()), Event::Render(after.rect, UpdateMode::Gui)]
    }
}

/// The height of `rect`, where it is a length that a displacement can hold.
fn section_height(rect: &Rectangle) -> (height: Option<i32>)
    ensures
        height is Some == (0 <= height_of(*rect) <= i32::MAX),
        height matches Some(h) ==> h == height_of(*rect),
{
    let height: i64 = rect.max.y as i64 - rect.min.y as i64;
    if 0 <= height && height <= i32::MAX as i64 {
        Some(height as i32)
    } else {
        None
    }
}

/// Makes `section` the child of `view` at `index`, moving down what stands
/// below and growing `view` by the height of the section. Where that cannot
/// be done, nothing changes and the section is handed back.
pub fn insert_section(view: &mut Node, index: usize, section: Node, hub: &mut Hub) -> (rejected:
    Option<Node>)
    ensures
        old(view)@.can_insert_section(index as int, section@) ==> rejected is None && final(view)@
            == old(view)@.with_section(index as int, section@) && final(hub)@ == old(hub)@.sent(
            old(view)@.section_requests(final(view)@),
        ),
        !old(view)@.can_insert_section(index as int, section@) ==> rejected == Some(section)
            && final(view)@ == old(view)@ && final(hub)@ == old(hub)@,
{
    proof {
        lemma_view(*old(view));
    }
    let height = match section_height(section.rect()) {
        Some(height) => height,
        None => {
            return Some(section);
        },
    };
    let delta = Point { x: 0, y: height };
    if index > view.len() || !children_shiftable_from(view.children(), index, &delta) {
        return Some(section);
    }
    let max_y = match view.rect().max.y.checked_add(height) {
        Some(max_y) => max_y,
        None => {
            return Some(section);
        },
    };
    let exposed = overlapping_rectangle(view);
    view.rect_mut().max.y = max_y;
    let ghost resized = *view;
    let children = view.children_mut();
    shift_children_from(children, index, &delta);
    children.insert(index, section);
    proof {
        lemma_view_with(*old(view), resized.rect_spec(), old(view).children_spec());
        lemma_view_with(resized, resized.rect_spec(), *children);
        assert(views(children@) =~= old(view)@.with_section(index as int, section@).children);
    }
    hub.send(Event::Expose(exposed));
    hub.send(Event::Render(*view.rect(), UpdateMode::Gui));
    proof {
        assert(old(hub)@.queue + seq![Event::Expose(exposed)] + seq![
            Event::Render(view@.rect, UpdateMode::Gui),
        ] =~= old(hub)@.queue + old(view)@.section_requests(view@));
    }
    None
}

/// Takes the child at `index` out of `view`, moving up what stands below and
/// shrinking `view` by the height of that child. Where that cannot be done,
/// nothing changes and nothing is returned.
pub fn remove_section(view: &mut Node, index: usize, hub: &mut Hub) -> (section: Option<Node>)
    ensures
        old(view)@.can_remove_section(index as int) ==> section is Some && section.unwrap()@
            == old(view)@.children[index as int] && final(view)@ == old(view)@.without_section(
            index as int,
        ) && final(hub)@ == old(hub)@.sent(old(view)@.section_requests(final(view)@)),
        !old(view)@.can_remove_section(index as int) ==> section is None && final(view)@ == old(
            view,
        )@ && final(hub)@ == old(hub)@,
{
    proof {
        lemma_view(*old(view));
    }
    if index >= view.len() {
        return None;
    }
    let height = match section_height(view.child(index).rect()) {
        Some(height) => height,
        None => {
            return None;
        },
    };
    let delta = Point { x: 0, y: -height };
    let max_y = match view.rect().max.y.checked_sub(height) {
        Some(max_y) => max_y,
        None => {
            return None;
        },
    };
    let exposed = overlapping_rectangle(view);
    let children = view.children_mut();
    let section = children.remove(index);
    proof {
        assert(views(children@) =~= old(view)@.children.remove(index as int));
    }
    if !children_shiftable_from(children, index, &delta) {
        children.insert(index, section);
        proof {
            assert(children@ =~= old(view).children_spec()@);
            lemma_view_with(*old(view), old(view).rect_spec(), *children);
            assert(views(children@) =~= old(view)@.children);
        }
        return None;
    }
    shift_children_from(children, index, &delta);
    let ghost emptied = *view;
    proof {
        lemma_view_with(*old(view), old(view).rect_spec(), emptied.children_spec());
    }
    view.rect_mut().max.y = max_y;
    proof {
        lemma_view_with(emptied, view.rect_spec(), emptied.children_spec());
    }
    hub.send(Event::Expose(exposed));
    hub.send(Event::Render(*view.rect(), UpdateMode::Gui));
    proof {
        assert(old(hub)@.queue + seq![Event::Expose(exposed)] + seq![
            Event::Render(view@.rect, UpdateMode::Gui),
        ] =~= old(hub)@.queue + old(view)@.section_requests(view@));
    }
    Some(section)
}

/// Inserting a section and removing it again restores the node: its
/// rectangle, and every node below it with its rectangle, are what they
/// were.
pub proof fn lemma_insert_then_remove(node: NodeView, index: int, section: NodeView)
    requires
        node.can_insert_section(index, section),
    ensures
        node.with_section(index, section).can_remove_section(index),
        node.with_section(index, section).without_section(index) == node,
{
    let height = height_of(section.rect);
    let there = node.with_section(index, section);
    let moved = shifted_from(node.children, index, down(height));
    assert(there.children[index] == section);
    assert(there.children.remove(index) =~= moved);
    assert(down(-height) == down(height).negated());
    assert forall|i: int| index <= i < moved.len() implies (#[trigger] moved[i]).can_shift(
        down(-height),
    ) && moved[i].shifted(down(-height)) == node.children[i] by {
        lemma_shift_back(node.children[i], down(height));
    }
    assert(shifted_from(moved, index, down(-height)) =~= node.children);
}

/// When a section leaves a node, the first request sent asks to erase a
/// rectangle that covers what the section covered.
pub proof fn lemma_removed_section_is_exposed(node: NodeView, index: int)
    requires
        0 <= index < node.children.len(),
    ensures
        node.section_requests(node.without_section(index))[0] == Event::Expose(node.bounds()),
        node.bounds().covers(node.children[index].bounds()),
        node.bounds().covers(node.children[index].rect),
{
    lemma_bounds_cover(node);
}

/// When the main menu of a node is hidden, the one request sent asks to
/// erase a rectangle that covers the rectangle of the menu.
pub proof fn lemma_hidden_menu_is_exposed(
    node: NodeView,
    rect: Rectangle,
    enable: Option<bool>,
    context: ContextView,
)
    requires
        node.children.len() <= usize::MAX,
        node.locate_by_id(ViewId::MainMenu) is Some,
        enable != Some(true),
    ensures
        ({
            let index = node.locate_by_id(ViewId::MainMenu).unwrap() as int;
            let menu = node.children[index];
            &&& 0 <= index < node.children.len()
            &&& main_menu_toggled(node, rect, enable, context).0.children == node.children.remove(
                index,
            )
            &&& main_menu_toggled(node, rect, enable, context).1 == seq![
                Event::Expose(menu.bounds()),
            ]
            &&& menu.bounds().covers(menu.rect)
        }),
{
    lemma_first_match_found(node.children, |c: NodeView| c.widget.id() == Some(ViewId::MainMenu));
    let index = node.locate_by_id(ViewId::MainMenu).unwrap() as int;
    lemma_bounds_cover(node.children[index]);
}

} // verus!
