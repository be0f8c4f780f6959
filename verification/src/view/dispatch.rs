//! The dispatch of one event through the tree.
//!
//! A pass begins at the root and goes depth first. The children of a node
//! are offered the event before the node itself, the child added last
//! first; a child is passed over, with all below it, if the event has a
//! position and the rectangle of the child does not include it. Which nodes
//! are offered the event, and in which order, is settled when the pass
//! begins. The pass ends with the first node that consumes the event,
//! unless the event is one that every node hears of.
//!
//! When a node has had its turn, the events that it queued on its bus are
//! dispatched from the root, in the order of queueing and each to its end,
//! before the next node is offered the first event. A queued event that no
//! node consumes goes out on the hub, and so does one that does not rank
//! below the event that caused it.

use std::collections::VecDeque;
use vstd::prelude::*;
use crate::app::{Context, ContextView};
use crate::view::{
    lemma_declined_changes_nothing, lemma_view, lemma_view_with, views, Bus, Event, Hub, Node,
    NodeView, Reaction,
};
use crate::view::event::lemma_sent_sent;

verus! {

/// How a pass, or a part of one, ended: what became of the tree and of the
/// context, what went out on the hub, in the order of sending, and whether a
/// node consumed the event.
pub ghost struct Outcome {
    pub root: NodeView,
    pub context: ContextView,
    pub hub: Seq<Event>,
    pub consumed: bool,
}

/// The paths `paths`, each after `prefix`.
pub open spec fn prefixed(prefix: Seq<usize>, paths: Seq<Seq<usize>>) -> Seq<Seq<usize>> {
    Seq::new(paths.len(), |k: int| prefix + paths[k])
}

/// The paths held by `order`, in their order.
pub open spec fn paths_of(order: Seq<Vec<usize>>) -> Seq<Seq<usize>> {
    Seq::new(order.len(), |k: int| order[k]@)
}

impl NodeView {
    /// Whether the node, and what lies below it, is offered `evt`: always,
    /// unless the event has a position outside the rectangle of the node.
    pub open spec fn admits(self, evt: Event) -> bool {
        match evt.position_spec() {
            Some(position) => self.rect.includes_spec(position),
            None => true,
        }
    }

    /// The nodes of the subtree that are offered `evt`, in the order in
    /// which they are offered it, each by the path that leads to it from
    /// this node: the places of the children to go through, one after the
    /// other.
    pub open spec fn visits(self, evt: Event) -> Seq<Seq<usize>>
        decreases self, self.children.len() + 1,
    {
        self.child_visits(evt, 0).push(Seq::empty())
    }

    /// The part of `visits` that lies below the children from the place
    /// `from` on: the last child first.
    pub open spec fn child_visits(self, evt: Event, from: int) -> Seq<Seq<usize>>
        decreases self, self.children.len() - from,
    {
        if from < 0 || from >= self.children.len() {
            Seq::empty()
        } else {
            self.child_visits(evt, from + 1) + (if self.children[from].admits(evt) {
                prefixed(seq![from as usize], self.children[from].visits(evt))
            } else {
                Seq::empty()
            })
        }
    }

    /// What the node at the end of `path` does with `evt`, seen from this
    /// node; `None` if no node stands there.
    pub open spec fn reaction_at(self, path: Seq<usize>, evt: Event, context: ContextView) -> Option<
        Reaction,
    >
        decreases path.len(),
    {
        if path.len() == 0 {
            Some(self.reaction(evt, context))
        } else if path[0] < self.children.len() {
            match self.children[path[0] as int].reaction_at(path.skip(1), evt, context) {
                Some(r) => Some(
                    Reaction {
                        node: NodeView {
                            children: self.children.update(path[0] as int, r.node),
                            ..self
                        },
                        ..r
                    },
                ),
                None => None,
            }
        } else {
            None
        }
    }

    /// How the pass that dispatches `evt` from this node ends.
    pub open spec fn pass(self, evt: Event, context: ContextView) -> Outcome
        decreases evt.rank_spec(), 2nat, 0nat,
    {
        offered(self, self.visits(evt), evt, context)
    }
}

/// How offering `evt` to the nodes at `paths`, one after the other, ends.
///
/// A path at which no node stands any more is passed over. After the turn
/// of a node, what it queued is drained. The offering ends with a node that
/// consumes the event, unless every node hears of the event.
pub open spec fn offered(
    root: NodeView,
    paths: Seq<Seq<usize>>,
    evt: Event,
    context: ContextView,
) -> Outcome
    decreases evt.rank_spec(), 1nat, paths.len(),
{
    if paths.len() == 0 {
        Outcome { root, context, hub: Seq::empty(), consumed: false }
    } else {
        match root.reaction_at(paths[0], evt, context) {
            None => offered(root, paths.skip(1), evt, context),
            Some(r) => {
                let after = drained(r.node, r.bus, evt, r.context);
                if r.consumed && !evt.is_broadcast_spec() {
                    Outcome {
                        root: after.root,
                        context: after.context,
                        hub: r.hub + after.hub,
                        consumed: true,
                    }
                } else {
                    let rest = offered(after.root, paths.skip(1), evt, after.context);
                    Outcome {
                        root: rest.root,
                        context: rest.context,
                        hub: r.hub + after.hub + rest.hub,
                        consumed: r.consumed || rest.consumed,
                    }
                }
            },
        }
    }
}

/// How dispatching one queued event ends: it is dispatched from the root if
/// it ranks below `cause`, and goes out on the hub if it does not, or if no
/// node consumed it.
pub open spec fn followed(root: NodeView, evt: Event, cause: Event, context: ContextView) -> Outcome
    decreases cause.rank_spec(), 0nat, 0nat,
{
    if evt.rank_spec() < cause.rank_spec() {
        let pass = root.pass(evt, context);
        if pass.consumed {
            pass
        } else {
            Outcome { hub: pass.hub.push(evt), ..pass }
        }
    } else {
        Outcome { root, context, hub: seq![evt], consumed: false }
    }
}

/// How dispatching the events `bus`, queued while `cause` was handled, one
/// after the other, ends.
pub open spec fn drained(root: NodeView, bus: Seq<Event>, cause: Event, context: ContextView) -> Outcome
    decreases cause.rank_spec(), 0nat, bus.len() + 1,
{
    if bus.len() == 0 {
        Outcome { root, context, hub: Seq::empty(), consumed: false }
    } else {
        let first = followed(root, bus[0], cause, context);
        let rest = drained(first.root, bus.skip(1), cause, first.context);
        Outcome {
            root: rest.root,
            context: rest.context,
            hub: first.hub + rest.hub,
            consumed: false,
        }
    }
}

/// Copies a path.
fn copy_path(path: &Vec<usize>) -> (copy: Vec<usize>)
    ensures
        copy@ == path@,
{
    let mut copy: Vec<usize> = Vec::new();
    let mut i: usize = 0;
    while i < path.len()
        invariant
            0 <= i <= path.len(),
            copy@ == path@.take(i as int),
        decreases path.len() - i,
    {
        copy.push(path[i]);
        assert(path@.take(i + 1) =~= path@.take(i as int).push(path@[i as int]));
        i += 1;
    }
    assert(path@.take(path.len() as int) =~= path@);
    copy
}

/// Tells whether `node` is offered `evt`.
fn admits(node: &Node, evt: &Event) -> (b: bool)
    ensures
        b == node@.admits(*evt),
{
    match evt.position() {
        Some(position) => node.rect().includes(&position),
        None => true,
    }
}

/// Adds to `order` the nodes below `node` that are offered `evt`, in the
/// order in which they are offered it. `stack` is the path that leads to
/// `node`.
fn collect_visits(node: &Node, evt: &Event, stack: &mut Vec<usize>, order: &mut Vec<Vec<usize>>)
    ensures
        final(stack)@ == old(stack)@,
        paths_of(final(order)@) == paths_of(old(order)@) + prefixed(
            old(stack)@,
            node@.visits(*evt),
        ),
    decreases *node,
{
    let children = node.children();
    let n = children.len();
    let ghost before = paths_of(order@);
    let ghost prefix = stack@;
    let mut i: usize = n;
    while i > 0
        invariant
            0 <= i <= n,
            n == children.len(),
            *children == node.children_spec(),
            views(children@) == node@.children,
            stack@ == prefix,
            paths_of(order@) == before + prefixed(prefix, node@.child_visits(*evt, i as int)),
        decreases i,
    {
        i -= 1;
        let ghost done = paths_of(order@);
        if admits(&children[i], evt) {
            stack.push(i);
            collect_visits(&children[i], evt, stack, order);
            stack.pop();
            proof {
                let child = node@.children[i as int];
                assert(stack@ =~= prefix);
                assert(prefixed(prefix.push(i), child.visits(*evt)) =~= prefixed(
                    prefix,
                    prefixed(seq![i], child.visits(*evt)),
                )) by {
                    assert forall|k: int| 0 <= k < child.visits(*evt).len() implies prefix.push(i)
                        + child.visits(*evt)[k] == prefix + (seq![i] + child.visits(*evt)[k]) by {
                        assert(prefix.push(i) + child.visits(*evt)[k] =~= prefix + (seq![i]
                            + child.visits(*evt)[k]));
                    }
                }
            }
        }
        proof {
            let child = node@.children[i as int];
            let below = node@.child_visits(*evt, i + 1);
            let here = if child.admits(*evt) {
                prefixed(seq![i], child.visits(*evt))
            } else {
                Seq::empty()
            };
            assert(node@.child_visits(*evt, i as int) == below + here);
            assert(prefixed(prefix, below + here) =~= prefixed(prefix, below) + prefixed(
                prefix,
                here,
            ));
            assert(paths_of(order@) =~= before + prefixed(
                prefix,
                node@.child_visits(*evt, i as int),
            ));
        }
    }
    let path = copy_path(stack);
    let ghost listed = paths_of(order@);
    order.push(path);
    proof {
        assert(paths_of(order@) =~= listed.push(prefix));
        let below = node@.child_visits(*evt, 0);
        assert(prefixed(prefix, below.push(Seq::empty())) =~= prefixed(prefix, below).push(prefix))
            by {
            assert(prefix + Seq::<usize>::empty() =~= prefix);
        }
        assert(paths_of(order@) =~= before + prefixed(prefix, node@.visits(*evt)));
    }
}

/// Lists the nodes of the tree below `root` that are offered `evt`, in the
/// order in which they are offered it, each by its path from `root`.
pub fn visit_order(root: &Node, evt: &Event) -> (order: Vec<Vec<usize>>)
    ensures
        paths_of(order@) == root@.visits(*evt),
{
    let mut stack: Vec<usize> = Vec::new();
    let mut order: Vec<Vec<usize>> = Vec::new();
    collect_visits(root, evt, &mut stack, &mut order);
    proof {
        let visits = root@.visits(*evt);
        assert(prefixed(Seq::empty(), visits) =~= visits) by {
            assert forall|k: int| 0 <= k < visits.len() implies Seq::<usize>::empty() + visits[k]
                == visits[k] by {
                assert(Seq::<usize>::empty() + visits[k] =~= visits[k]);
            }
        }
        assert(paths_of(order@) =~= visits);
    }
    order
}

/// Lets the node at the end of `path`, from the place `depth` of the path
/// on, handle `evt`. Returns whether that node consumed the event, or
/// `None` if no node stands there.
fn offer_at(
    node: &mut Node,
    path: &Vec<usize>,
    depth: usize,
    evt: &Event,
    hub: &mut Hub,
    bus: &mut Bus,
    context: &mut Context,
) -> (consumed: Option<bool>)
    requires
        depth <= path@.len(),
    ensures
        match old(node)@.reaction_at(path@.skip(depth as int), *evt, old(context)@) {
            Some(r) => consumed == Some(r.consumed) && r.took_place(
                final(node)@,
                final(context)@,
                old(hub)@,
                final(hub)@,
                old(bus)@,
                final(bus)@,
                r.consumed,
            ),
            None => consumed is None && final(node)@ == old(node)@ && final(context)@ == old(
                context,
            )@ && final(hub)@ == old(hub)@ && final(bus)@ == old(bus)@,
        },
    decreases path@.len() - depth,
{
    if depth == path.len() {
        Some(node.handle_event(evt, hub, bus, context))
    } else {
        let index = path[depth];
        proof {
            lemma_view(*old(node));
            assert(path@.skip(depth as int).skip(1) =~= path@.skip(depth + 1));
        }
        let children = node.children_mut();
        if index < children.len() {
            let ghost child = children@[index as int];
            let consumed = offer_at(&mut children[index], path, depth + 1, evt, hub, bus, context);
            proof {
                lemma_view_with(*old(node), old(node).rect_spec(), *children);
                assert(views(children@) =~= old(node)@.children.update(
                    index as int,
                    children@[index as int]@,
                ));
                if consumed is None {
                    assert(views(children@) =~= old(node)@.children);
                }
            }
            consumed
        } else {
            proof {
                lemma_view_with(*old(node), old(node).rect_spec(), *children);
            }
            None
        }
    }
}

/// Dispatches `evt`, which was queued while `cause` was handled: from
/// `root` if it ranks below `cause`, and on to the hub if it does not or if
/// no node consumed it.
fn follow(root: &mut Node, evt: Event, cause: &Event, hub: &mut Hub, context: &mut Context)
    ensures
        final(root)@ == followed(old(root)@, evt, *cause, old(context)@).root,
        final(context)@ == followed(old(root)@, evt, *cause, old(context)@).context,
        final(hub)@ == old(hub)@.sent(followed(old(root)@, evt, *cause, old(context)@).hub),
    decreases cause.rank_spec(), 0nat,
{
    if evt.rank() < cause.rank() {
        let consumed = dispatch(root, &evt, hub, context);
        if !consumed {
            hub.send(evt);
            proof {
                let pass = old(root)@.pass(evt, old(context)@);
                lemma_sent_sent(old(hub)@, pass.hub, seq![evt]);
                assert(pass.hub + seq![evt] =~= pass.hub.push(evt));
            }
        }
    } else {
        hub.send(evt);
    }
}

/// Dispatches the events of `bus`, which were queued while `cause` was
/// handled, from `root`, in their order.
fn drain(root: &mut Node, bus: &Bus, cause: &Event, hub: &mut Hub, context: &mut Context)
    ensures
        final(root)@ == drained(old(root)@, bus@, *cause, old(context)@).root,
        final(context)@ == drained(old(root)@, bus@, *cause, old(context)@).context,
        final(hub)@ == old(hub)@.sent(drained(old(root)@, bus@, *cause, old(context)@).hub),
    decreases cause.rank_spec(), 1nat,
{
    let ghost total = drained(old(root)@, bus@, *cause, old(context)@);
    let ghost mut sent: Seq<Event> = Seq::empty();
    let n = bus.len();
    let mut k: usize = 0;
    proof {
        lemma_sent_sent(old(hub)@, Seq::empty(), Seq::empty());
        assert(bus@.skip(0) =~= bus@);
        assert(sent + total.hub =~= total.hub);
    }
    while k < n
        invariant
            0 <= k <= n,
            n == bus@.len(),
            hub@ == old(hub)@.sent(sent),
            total.root == drained(root@, bus@.skip(k as int), *cause, context@).root,
            total.context == drained(root@, bus@.skip(k as int), *cause, context@).context,
            total.hub == sent + drained(root@, bus@.skip(k as int), *cause, context@).hub,
        decreases n - k,
    {
        let evt = bus[k];
        let ghost first = followed(root@, evt, *cause, context@);
        proof {
            assert(bus@.skip(k as int)[0] == evt);
            assert(bus@.skip(k as int).skip(1) =~= bus@.skip(k + 1));
            let rest = drained(first.root, bus@.skip(k + 1), *cause, first.context);
            assert(sent + (first.hub + rest.hub) =~= (sent + first.hub) + rest.hub);
            lemma_sent_sent(old(hub)@, sent, first.hub);
        }
        follow(root, evt, cause, hub, context);
        proof {
            sent = sent + first.hub;
        }
        k += 1;
    }
    proof {
        assert(sent + Seq::<Event>::empty() =~= sent);
    }
}

/// Dispatches `evt` from `root`, and tells whether a node consumed it.
pub fn dispatch(root: &mut Node, evt: &Event, hub: &mut Hub, context: &mut Context) -> (consumed:
    bool)
    ensures
        final(root)@ == old(root)@.pass(*evt, old(context)@).root,
        final(context)@ == old(root)@.pass(*evt, old(context)@).context,
        final(hub)@ == old(hub)@.sent(old(root)@.pass(*evt, old(context)@).hub),
        consumed == old(root)@.pass(*evt, old(context)@).consumed,
    decreases evt.rank_spec(), 2nat,
{
    let order = visit_order(root, evt);
    let ghost paths = paths_of(order@);
    let ghost total = offered(old(root)@, paths, *evt, old(context)@);
    let ghost mut sent: Seq<Event> = Seq::empty();
    let n = order.len();
    let mut k: usize = 0;
    let mut consumed = false;
    let mut done = false;
    proof {
        lemma_sent_sent(old(hub)@, Seq::empty(), Seq::empty());
        assert(paths.skip(0) =~= paths);
        assert(sent + total.hub =~= total.hub);
    }
    while k < n && !done
        invariant
            0 <= k <= n,
            n == order@.len(),
            paths == paths_of(order@),
            hub@ == old(hub)@.sent(sent),
            done ==> total == (Outcome { root: root@, context: context@, hub: sent, consumed }),
            !done ==> {
                let rest = offered(root@, paths.skip(k as int), *evt, context@);
                &&& total.root == rest.root
                &&& total.context == rest.context
                &&& total.hub == sent + rest.hub
                &&& total.consumed == (consumed || rest.consumed)
            },
        decreases n - k,
    {
        let ghost here = root@;
        let ghost ctx = context@;
        let ghost was_sent = sent;
        proof {
            assert(paths.skip(k as int)[0] == order@[k as int]@);
            assert(paths.skip(k as int).skip(1) =~= paths.skip(k + 1));
            assert(order@[k as int]@.skip(0) =~= order@[k as int]@);
        }
        let mut bus: Bus = VecDeque::new();
        match offer_at(root, &order[k], 0, evt, hub, &mut bus, context) {
            None => {},
            Some(took) => {
                let ghost r = here.reaction_at(order@[k as int]@, *evt, ctx).unwrap();
                proof {
                    assert(bus@ =~= r.bus);
                }
                drain(root, &bus, evt, hub, context);
                let ghost after = drained(r.node, r.bus, *evt, r.context);
                proof {
                    lemma_sent_sent(old(hub)@, was_sent, r.hub);
                    lemma_sent_sent(old(hub)@, was_sent + r.hub, after.hub);
                    sent = was_sent + r.hub + after.hub;
                }
                if took && !evt.is_broadcast() {
                    consumed = true;
                    done = true;
                    proof {
                        assert(was_sent + (r.hub + after.hub) =~= sent);
                    }
                } else {
                    if took {
                        consumed = true;
                    }
                    proof {
                        let rest = offered(after.root, paths.skip(k + 1), *evt, after.context);
                        assert(was_sent + (r.hub + after.hub + rest.hub) =~= sent + rest.hub);
                    }
                }
            },
        }
        k += 1;
    }
    proof {
        if !done {
            assert(sent + Seq::<Event>::empty() =~= sent);
        }
    }
    consumed
}

/// How offering an event to views that lie one over the other ended: what
/// became of the views and of the context, what went out on the hub, and
/// whether a node consumed the event.
pub ghost struct Round {
    pub layers: Seq<NodeView>,
    pub context: ContextView,
    pub hub: Seq<Event>,
    pub consumed: bool,
}

/// How dispatching `evt` through the first `upto` of `layers` ends: each is
/// the root of a pass, the last of them, which lies on top, first. The
/// round ends with the first pass in which a node consumes the event, unless
/// every node hears of the event.
pub open spec fn passed_through(
    layers: Seq<NodeView>,
    upto: int,
    evt: Event,
    context: ContextView,
) -> Round
    decreases upto,
{
    if upto <= 0 || upto > layers.len() {
        Round { layers, context, hub: Seq::empty(), consumed: false }
    } else {
        let pass = layers[upto - 1].pass(evt, context);
        let after = layers.update(upto - 1, pass.root);
        if pass.consumed && !evt.is_broadcast_spec() {
            Round { layers: after, context: pass.context, hub: pass.hub, consumed: true }
        } else {
            let rest = passed_through(after, upto - 1, evt, pass.context);
            Round {
                layers: rest.layers,
                context: rest.context,
                hub: pass.hub + rest.hub,
                consumed: pass.consumed || rest.consumed,
            }
        }
    }
}

/// Dispatches `evt` through views that lie one over the other, the last of
/// `layers` on top, and tells whether a node consumed it.
pub fn dispatch_through(
    layers: &mut Vec<Node>,
    evt: &Event,
    hub: &mut Hub,
    context: &mut Context,
) -> (consumed: bool)
    ensures
        views(final(layers)@) == passed_through(
            views(old(layers)@),
            old(layers)@.len() as int,
            *evt,
            old(context)@,
        ).layers,
        final(context)@ == passed_through(
            views(old(layers)@),
            old(layers)@.len() as int,
            *evt,
            old(context)@,
        ).context,
        final(hub)@ == old(hub)@.sent(
            passed_through(
                views(old(layers)@),
                old(layers)@.len() as int,
                *evt,
                old(context)@,
            ).hub,
        ),
        consumed == passed_through(
            views(old(layers)@),
            old(layers)@.len() as int,
            *evt,
            old(context)@,
        ).consumed,
{
    let ghost total = passed_through(
        views(old(layers)@),
        old(layers)@.len() as int,
        *evt,
        old(context)@,
    );
    let ghost mut sent: Seq<Event> = Seq::empty();
    let n = layers.len();
    let mut i: usize = n;
    let mut consumed = false;
    let mut done = false;
    proof {
        lemma_sent_sent(old(hub)@, Seq::empty(), Seq::empty());
        assert(sent + total.hub =~= total.hub);
    }
    while i > 0 && !done
        invariant
            0 <= i <= n,
            n == layers@.len(),
            hub@ == old(hub)@.sent(sent),
            done ==> total == (Round {
                layers: views(layers@),
                context: context@,
                hub: sent,
                consumed,
            }),
            !done ==> {
                let rest = passed_through(views(layers@), i as int, *evt, context@);
                &&& total.layers == rest.layers
                &&& total.context == rest.context
                &&& total.hub == sent + rest.hub
                &&& total.consumed == (consumed || rest.consumed)
            },
        decreases i,
    {
        i -= 1;
        let ghost before = views(layers@);
        let ghost pass = before[i as int].pass(*evt, context@);
        let ghost was_sent = sent;
        let took = dispatch(&mut layers[i], evt, hub, context);
        proof {
            assert(views(layers@) =~= before.update(i as int, pass.root));
            lemma_sent_sent(old(hub)@, was_sent, pass.hub);
            sent = was_sent + pass.hub;
        }
        if took && !evt.is_broadcast() {
            consumed = true;
            done = true;
        } else {
            if took {
                consumed = true;
            }
            proof {
                let rest = passed_through(views(layers@), i as int, *evt, context@);
                assert(was_sent + (pass.hub + rest.hub) =~= sent + rest.hub);
            }
        }
    }
    proof {
        if !done {
            assert(sent + Seq::<Event>::empty() =~= sent);
        }
    }
    consumed
}

/// A node that does not consume an event leaves no trace of it, wherever in
/// the tree it stands.
pub proof fn lemma_declined_at(root: NodeView, path: Seq<usize>, evt: Event, context: ContextView)
    ensures
        match root.reaction_at(path, evt, context) {
            Some(r) => !r.consumed ==> r == Reaction::declined(root, context),
            None => true,
        },
    decreases path.len(),
{
    if path.len() == 0 {
        lemma_declined_changes_nothing(root, evt, context);
    } else if path[0] < root.children.len() {
        let child = root.children[path[0] as int];
        lemma_declined_at(child, path.skip(1), evt, context);
        match child.reaction_at(path.skip(1), evt, context) {
            Some(r) => {
                if !r.consumed {
                    assert(root.children.update(path[0] as int, child) =~= root.children);
                }
            },
            None => {},
        }
    }
}

/// Offering an event that no node consumes changes nothing and sends
/// nothing.
pub proof fn lemma_offered_unconsumed(
    root: NodeView,
    paths: Seq<Seq<usize>>,
    evt: Event,
    context: ContextView,
)
    requires
        !offered(root, paths, evt, context).consumed,
    ensures
        offered(root, paths, evt, context) == (Outcome {
            root,
            context,
            hub: Seq::empty(),
            consumed: false,
        }),
    decreases paths.len(),
{
    if paths.len() > 0 {
        lemma_declined_at(root, paths[0], evt, context);
        match root.reaction_at(paths[0], evt, context) {
            None => {
                lemma_offered_unconsumed(root, paths.skip(1), evt, context);
            },
            Some(r) => {
                assert(!r.consumed);
                assert(drained(root, Seq::empty(), evt, context).hub == Seq::<Event>::empty());
                lemma_offered_unconsumed(root, paths.skip(1), evt, context);
                assert(Seq::<Event>::empty() + Seq::<Event>::empty() + Seq::<Event>::empty()
                    =~= Seq::<Event>::empty());
            },
        }
    }
}

/// A pass in which no node consumes the event leaves the tree as it was,
/// with every node in its place, leaves the context as it was, and sends
/// nothing.
pub proof fn lemma_unconsumed_pass(root: NodeView, evt: Event, context: ContextView)
    requires
        !root.pass(evt, context).consumed,
    ensures
        root.pass(evt, context).root == root,
        root.pass(evt, context).context == context,
        root.pass(evt, context).hub == Seq::<Event>::empty(),
{
    lemma_offered_unconsumed(root, root.visits(evt), evt, context);
}

/// What a node sends on the hub in its turn goes out in the pass, before
/// all that is sent after its turn: no request of a node is lost.
pub proof fn lemma_offered_keeps_requests(
    root: NodeView,
    paths: Seq<Seq<usize>>,
    evt: Event,
    context: ContextView,
)
    requires
        paths.len() > 0,
        root.reaction_at(paths[0], evt, context) is Some,
    ensures
        root.reaction_at(paths[0], evt, context).unwrap().hub.is_prefix_of(
            offered(root, paths, evt, context).hub,
        ),
{
    let r = root.reaction_at(paths[0], evt, context).unwrap();
    let after = drained(r.node, r.bus, evt, r.context);
    if r.consumed && !evt.is_broadcast_spec() {
        assert(r.hub.is_prefix_of(r.hub + after.hub));
    } else {
        let rest = offered(after.root, paths.skip(1), evt, after.context);
        assert(r.hub.is_prefix_of(r.hub + after.hub + rest.hub));
    }
}

/// The paths below the children from `from` on go through no child that is
/// not offered the event.
proof fn lemma_child_visits_skip(node: NodeView, evt: Event, index: int, from: int)
    requires
        0 <= index < node.children.len() <= usize::MAX,
        0 <= from,
        !node.children[index].admits(evt),
    ensures
        forall|k: int|
            0 <= k < node.child_visits(evt, from).len() ==> (#[trigger] node.child_visits(
                evt,
                from,
            )[k]).len() > 0 && node.child_visits(evt, from)[k][0] != index,
    decreases node.children.len() - from,
{
    if from < node.children.len() {
        lemma_child_visits_skip(node, evt, index, from + 1);
        let below = node.child_visits(evt, from + 1);
        let child = node.children[from];
        let visits = node.child_visits(evt, from);
        assert forall|k: int| 0 <= k < visits.len() implies (#[trigger] visits[k]).len() > 0
            && visits[k][0] != index by {
            if k < below.len() {
                assert(visits[k] == below[k]);
            } else {
                let path = child.visits(evt)[k - below.len()];
                assert(visits[k] == seq![from as usize] + path);
                assert(visits[k][0] == from);
            }
        }
    }
}

/// An event with a position is offered to no child whose rectangle does not
/// include the position, nor to anything below such a child: no path of the
/// pass goes through that child.
pub proof fn lemma_outside_is_not_visited(node: NodeView, evt: Event, index: int)
    requires
        0 <= index < node.children.len() <= usize::MAX,
        !node.children[index].admits(evt),
    ensures
        forall|k: int|
            0 <= k < node.visits(evt).len() ==> (#[trigger] node.visits(evt)[k]).len() == 0
                || node.visits(evt)[k][0] != index,
{
    lemma_child_visits_skip(node, evt, index, 0);
    let below = node.child_visits(evt, 0);
    assert forall|k: int| 0 <= k < node.visits(evt).len() implies (#[trigger] node.visits(
        evt,
    )[k]).len() == 0 || node.visits(evt)[k][0] != index by {
        if k < below.len() {
            assert(node.visits(evt)[k] == below[k]);
        }
    }
}

} // verus!
