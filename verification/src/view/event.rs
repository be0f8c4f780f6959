//! Events, and the two channels that carry them: the hub, which lives as long
//! as the process, and the bus, which lives for one turn of one node.

use std::collections::VecDeque;
use vstd::prelude::*;
use crate::framebuffer::{Reason, UpdateMode};
use crate::geom::{CycleDir, Point, Rectangle};
use crate::gesture::GestureEvent;
use crate::input::{DeviceEvent, FingerStatus};

verus! {

/// The logical identity of a node, by which it is found wherever it stands.
#[derive(Clone, Copy, Debug, PartialEq, Eq, Structural)]
pub enum ViewId {
    Frontlight,
    MainMenu,
    PresetMenu,
}

/// The identity of a menu entry.
#[derive(Clone, Copy, Debug, PartialEq, Eq, Structural)]
pub enum EntryId {
    ToggleInverted,
    ToggleMonochrome,
    ToggleWifi,
    TakeScreenshot,
    StartNickel,
    Reboot,
    Quit,
    RemovePreset(usize),
}

/// The identity of a continuous control.
#[derive(Clone, Copy, Debug, PartialEq, Eq, Structural)]
pub enum SliderId {
    LightIntensity,
    LightWarmth,
}

impl SliderId {
    /// The name of the control, as it is shown beside it.
    pub open spec fn label_spec(self) -> Seq<char> {
        match self {
            SliderId::LightIntensity => "Intensity"@,
            SliderId::LightWarmth => "Warmth"@,
        }
    }

    pub fn label(&self) -> (text: String)
        ensures
            text@ == self.label_spec(),
    {
        match self {
            SliderId::LightIntensity => "Intensity".to_owned(),
            SliderId::LightWarmth => "Warmth".to_owned(),
        }
    }
}

/// A raw input, a gesture, or a request made by the application.
#[derive(Clone, Copy, Debug, PartialEq, Eq, Structural)]
pub enum Event {
    Device(DeviceEvent),
    Gesture(GestureEvent),
    /// The network came up or went down. Every node hears of it.
    Network(bool),
    /// Set a continuous control to a value between 0 and 100.
    Slider(SliderId, u8, FingerStatus),
    Select(EntryId),
    Page(CycleDir),
    Save,
    Guess,
    LoadPreset(usize),
    TogglePresetMenu(Rectangle, usize),
    Open(ViewId),
    Close(ViewId),
    /// Paint a rectangle anew, in the given class of update.
    Render(Rectangle, UpdateMode),
    /// Erase a rectangle: repaint what lies beneath what was removed.
    Expose(Rectangle),
}

impl Event {
    /// The place where a raw input or a gesture occurred.
    pub open spec fn position_spec(self) -> Option<Point> {
        match self {
            Event::Device(DeviceEvent::Finger { position, .. }) => Some(position),
            Event::Gesture(gesture) => Some(gesture.origin()),
            _ => None,
        }
    }

    /// Whether every node is offered this event, consumed or not.
    pub open spec fn is_broadcast_spec(self) -> bool {
        self is Network
    }

    /// The rank of an event. What a node queues while it handles an event is
    /// dispatched within the same pass only if it ranks below that event:
    /// inputs rank above commands, commands above the opening and closing
    /// of overlays, and those above refresh requests.
    pub open spec fn rank_spec(self) -> nat {
        match self {
            Event::Device(_) | Event::Gesture(_) => 3,
            Event::Network(_)
            | Event::Slider(_, _, _)
            | Event::Select(_)
            | Event::Page(_)
            | Event::Save
            | Event::Guess
            | Event::LoadPreset(_)
            | Event::TogglePresetMenu(_, _) => 2,
            Event::Open(_) | Event::Close(_) => 1,
            Event::Render(_, _) | Event::Expose(_) => 0,
        }
    }

    /// The rectangle that a refresh request asks the display to commit.
    pub open spec fn region_spec(self) -> Option<Rectangle> {
        match self {
            Event::Render(rect, _) => Some(rect),
            Event::Expose(rect) => Some(rect),
            _ => None,
        }
    }

    /// The request that refreshes `rect` for the reason `reason`: none for
    /// a rectangle without area, which shows nothing; else a request to
    /// erase the rectangle where something was removed, and a request to
    /// paint it in the class of update that suits the reason in the other
    /// cases.
    pub open spec fn refresh_spec(rect: Rectangle, reason: Reason) -> Option<Event> {
        if rect.min.x < rect.max.x && rect.min.y < rect.max.y {
            Some(
                match reason {
                    Reason::Content => Event::Render(rect, UpdateMode::Gui),
                    Reason::Feedback => Event::Render(rect, UpdateMode::Fast),
                    Reason::Removal => Event::Expose(rect),
                    Reason::Redraw => Event::Render(rect, UpdateMode::Full),
                },
            )
        } else {
            None
        }
    }

    /// Makes the request that refreshes `rect` for the reason `reason`.
    pub fn refresh(rect: Rectangle, reason: Reason) -> (request: Option<Event>)
        ensures
            request == Event::refresh_spec(rect, reason),
    {
        if rect.min.x < rect.max.x && rect.min.y < rect.max.y {
            Some(
                match reason {
                    Reason::Content => Event::Render(rect, UpdateMode::Gui),
                    Reason::Feedback => Event::Render(rect, UpdateMode::Fast),
                    Reason::Removal => Event::Expose(rect),
                    Reason::Redraw => Event::Render(rect, UpdateMode::Full),
                },
            )
        } else {
            None
        }
    }

    /// What the display is to commit for this event: for a request to paint
    /// a rectangle, that rectangle in the class of the request; for a
    /// request to erase one, that rectangle in the high-fidelity class, once
    /// what lies beneath is painted; nothing for any other event.
    pub open spec fn commit_spec(self) -> Option<(Rectangle, UpdateMode)> {
        match self {
            Event::Render(rect, mode) => Some((rect, mode)),
            Event::Expose(rect) => Some((rect, UpdateMode::Gui)),
            _ => None,
        }
    }

    /// Tells what the display is to commit for this event.
    pub fn commit(&self) -> (region: Option<(Rectangle, UpdateMode)>)
        ensures
            region == self.commit_spec(),
    {
        match self {
            Event::Render(rect, mode) => Some((*rect, *mode)),
            Event::Expose(rect) => Some((*rect, UpdateMode::Gui)),
            _ => None,
        }
    }

    pub fn position(&self) -> (p: Option<Point>)
        ensures
            p == self.position_spec(),
    {
        match self {
            Event::Device(DeviceEvent::Finger { position, .. }) => Some(*position),
            Event::Gesture(GestureEvent::Tap(center)) => Some(*center),
            Event::Gesture(GestureEvent::HoldFinger(center)) => Some(*center),
            Event::Gesture(GestureEvent::Swipe { start, .. }) => Some(*start),
            _ => None,
        }
    }

    pub fn is_broadcast(&self) -> (b: bool)
        ensures
            b == self.is_broadcast_spec(),
    {
        match self {
            Event::Network(_) => true,
            _ => false,
        }
    }

    pub fn rank(&self) -> (r: u8)
        ensures
            r == self.rank_spec(),
    {
        match self {
            Event::Device(_) | Event::Gesture(_) => 3,
            Event::Open(_) | Event::Close(_) => 1,
            Event::Render(_, _) | Event::Expose(_) => 0,
            _ => 2,
        }
    }

    pub fn region(&self) -> (r: Option<Rectangle>)
        ensures
            r == self.region_spec(),
    {
        match self {
            Event::Render(rect, _) => Some(*rect),
            Event::Expose(rect) => Some(*rect),
            _ => None,
        }
    }
}

/// The queue on which a node, while it handles one event, leaves the events
/// that follow from it.
pub type Bus = VecDeque<Event>;

/// The sending end of the channel that carries events to the root of the tree.
///
/// Sending never blocks and never fails: what is sent while nothing listens
/// is dropped.
#[derive(Clone, Debug, PartialEq, Eq)]
pub struct Hub {
    pub queue: VecDeque<Event>,
    pub listening: bool,
}

/// What a hub holds: the events sent and not yet received, oldest first, and
/// whether anything listens.
pub ghost struct HubView {
    pub queue: Seq<Event>,
    pub listening: bool,
}

impl HubView {
    /// The hub after `events` were sent on it, in their order.
    pub open spec fn sent(self, events: Seq<Event>) -> HubView {
        if self.listening {
            HubView { queue: self.queue + events, listening: true }
        } else {
            self
        }
    }
}

impl View for Hub {
    type V = HubView;

    open spec fn view(&self) -> HubView {
        HubView { queue: self.queue@, listening: self.listening }
    }
}

impl Hub {
    /// A hub with a listener and nothing under way.
    pub fn new() -> (hub: Hub)
        ensures
            hub@ == (HubView { queue: Seq::empty(), listening: true }),
    {
        Hub { queue: VecDeque::new(), listening: true }
    }

    /// Sends `evt`. Without a listener the event is dropped.
    pub fn send(&mut self, evt: Event)
        ensures
            final(self)@ == old(self)@.sent(seq![evt]),
    {
        if self.listening {
            self.queue.push_back(evt);
            assert(self.queue@ =~= old(self).queue@ + seq![evt]);
        }
    }

    /// Takes the oldest event that was sent and not yet received.
    pub fn recv(&mut self) -> (evt: Option<Event>)
        ensures
            final(self)@.listening == old(self)@.listening,
            old(self)@.queue.len() == 0 ==> evt.is_none() && final(self)@ == old(self)@,
            old(self)@.queue.len() > 0 ==> evt == Some(old(self)@.queue[0])
                && final(self)@.queue == old(self)@.queue.skip(1),
    {
        let evt = self.queue.pop_front();
        proof {
            if old(self)@.queue.len() > 0 {
                assert(self.queue@ =~= old(self)@.queue.skip(1));
            }
        }
        evt
    }

    /// Marks the receiving side as gone: from now on sends are dropped.
    pub fn disconnect(&mut self)
        ensures
            final(self)@ == (HubView { queue: old(self)@.queue, listening: false }),
    {
        self.listening = false;
    }
}

/// Sending two batches one after the other is sending them joined.
pub proof fn lemma_sent_sent(hub: HubView, first: Seq<Event>, second: Seq<Event>)
    ensures
        hub.sent(first).sent(second) == hub.sent(first + second),
        hub.sent(Seq::empty()) == hub,
{
    assert(hub.queue + first + second =~= hub.queue + (first + second));
    assert(hub.queue + Seq::<Event>::empty() =~= hub.queue);
}

/// Sending takes nothing back: what was under way on the hub before is
/// still under way after, ahead of what was sent.
pub proof fn lemma_sent_keeps(hub: HubView, events: Seq<Event>)
    ensures
        hub.queue.is_prefix_of(hub.sent(events).queue),
        hub.listening ==> hub.sent(events).queue.skip(hub.queue.len() as int) == events,
{
    if hub.listening {
        assert(hub.sent(events).queue.skip(hub.queue.len() as int) =~= events);
    }
}

} // verus!
