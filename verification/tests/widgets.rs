use std::collections::VecDeque;
use viewtree::app::Context;
use viewtree::device::Device;
use viewtree::font::{Fonts, RenderPlan};
use viewtree::framebuffer::{Framebuffer, Paint, Reason, UpdateMode};
use viewtree::geom::{CornerSpec, CycleDir, Point, Rectangle};
use viewtree::gesture::GestureEvent;
use viewtree::input::{DeviceEvent, FingerStatus};
use viewtree::frontlight::{Frontlight, LightLevels};
use viewtree::settings::{LightPreset, Settings};
use viewtree::view::button::Button;
use viewtree::view::icon::Icon;
use viewtree::view::label::{max_text_width, Align, Label};
use viewtree::view::menu::{EntryKind, Menu, MenuKind};
use viewtree::view::preset::{Preset, PresetKind};
use viewtree::view::presets_list::PresetsList;
use viewtree::view::slider::Slider;
use viewtree::view::{Bus, EntryId, Event, Hub, Node, SliderId, ViewId};

fn context() -> Context {
    Context {
        device: Device {
            width: 1404,
            height: 1872,
            dpi: 200,
            small_height: 120,
            natural_light: true,
            lightsensor: true,
        },
        fonts: Fonts { x_height: 20, em: 40, slider_label_width: 150, button_label_width: 100 },
        settings: Settings { frontlight_presets: vec![], wifi: true },
        frontlight: Frontlight { levels: LightLevels { intensity: 30, warmth: 60 } },
        lightsensor: Some(120),
        now: 1000,
        inverted: false,
        monochrome: false,
        standalone: false,
    }
}

fn sent(hub: &Hub) -> Vec<Event> {
    hub.queue.iter().cloned().collect()
}

fn queued(bus: &Bus) -> Vec<Event> {
    bus.iter().cloned().collect()
}

fn finger(status: FingerStatus, x: i32, y: i32) -> Event {
    Event::Device(DeviceEvent::Finger { id: 1, status, position: Point::new(x, y) })
}

fn tap(x: i32, y: i32) -> Event {
    Event::Gesture(GestureEvent::Tap(Point::new(x, y)))
}

fn hold(x: i32, y: i32) -> Event {
    Event::Gesture(GestureEvent::HoldFinger(Point::new(x, y)))
}

#[test]
fn label_new_has_no_children_test() {
    let label = Label::new(Rectangle::from_coords(1, 2, 3, 4), "text".to_string(), Align::Left(2));
    assert_eq!(label.rect, Rectangle::from_coords(1, 2, 3, 4));
    assert_eq!(label.text, "text");
    assert_eq!(label.align, Align::Left(2));
    assert!(label.children.is_empty());
    assert_eq!(*label.rect(), Rectangle::from_coords(1, 2, 3, 4));
    assert!(label.children().is_empty());
}

#[test]
fn label_update_replaces_the_text_and_asks_for_one_render_test() {
    let mut label = Label::new(Rectangle::from_coords(1, 2, 3, 4), "old".to_string(), Align::Center);
    let mut hub = Hub::new();
    label.update("new".to_string(), &mut hub);
    assert_eq!(label.text, "new");
    assert_eq!(label.rect, Rectangle::from_coords(1, 2, 3, 4));
    assert_eq!(
        sent(&hub),
        vec![Event::Render(Rectangle::from_coords(1, 2, 3, 4), UpdateMode::Gui)]
    );
}

#[test]
fn label_lets_every_event_pass_test() {
    let mut label = Label::new(Rectangle::from_coords(0, 0, 9, 9), "l".to_string(), Align::Center);
    let mut hub = Hub::new();
    let mut bus = Bus::new();
    let mut ctx = context();
    for evt in [tap(1, 1), finger(FingerStatus::Down, 1, 1), Event::Save, Event::Network(true)].iter() {
        assert!(!label.handle_event(evt, &mut hub, &mut bus, &mut ctx));
    }
    assert_eq!(label, Label::new(Rectangle::from_coords(0, 0, 9, 9), "l".to_string(), Align::Center));
    assert!(sent(&hub).is_empty());
    assert!(queued(&bus).is_empty());
    assert_eq!(ctx, context());
}

#[test]
fn label_render_paints_the_ground_and_the_text_test() {
    let label = Label::new(Rectangle::from_coords(100, 200, 300, 260), "l".to_string(), Align::Center);
    let mut fb = Framebuffer::new();
    let ctx = context();
    label.render(&mut fb, &ctx, &RenderPlan { width: 50, handle: 7 });
    assert_eq!(
        fb.paints,
        vec![
            Paint::Rectangle { rect: Rectangle::from_coords(100, 200, 300, 260), color: 0xFF },
            Paint::Text { handle: 7, origin: Point::new(175, 240), color: 0x00 },
        ]
    );
    let right =
        Label::new(Rectangle::from_coords(100, 200, 300, 261), "r".to_string(), Align::Right(20));
    let mut fb = Framebuffer::new();
    right.render(&mut fb, &ctx, &RenderPlan { width: 50, handle: 8 });
    assert_eq!(fb.paints[1], Paint::Text { handle: 8, origin: Point::new(230, 241), color: 0x00 });
}

#[test]
fn max_text_width_leaves_a_margin_test() {
    let ctx = context();
    assert_eq!(max_text_width(&Rectangle::from_coords(100, 0, 300, 10), &ctx.fonts), 160);
    assert_eq!(max_text_width(&Rectangle::from_coords(100, 0, 140, 10), &ctx.fonts), 0);
    assert_eq!(max_text_width(&Rectangle::from_coords(100, 0, 120, 10), &ctx.fonts), 0);
}

#[test]
fn preset_new_is_not_pressed_test() {
    let preset =
        Preset::new(Rectangle::from_coords(0, 0, 10, 10), PresetKind::Normal("p".to_string(), 3));
    assert!(!preset.active);
    assert!(preset.children.is_empty());
    assert_eq!(preset.kind, PresetKind::Normal("p".to_string(), 3));
    assert_eq!(*preset.rect(), Rectangle::from_coords(0, 0, 10, 10));
}

#[test]
fn preset_is_pressed_and_released_by_a_finger_test() {
    let rect = Rectangle::from_coords(0, 0, 10, 10);
    let mut preset = Preset::new(rect, PresetKind::Normal("p".to_string(), 3));
    let mut hub = Hub::new();
    let mut bus = Bus::new();
    let mut ctx = context();
    assert!(!preset.handle_event(&finger(FingerStatus::Down, 11, 5), &mut hub, &mut bus, &mut ctx));
    assert!(!preset.active);
    assert!(!preset.handle_event(&finger(FingerStatus::Up, 5, 5), &mut hub, &mut bus, &mut ctx));
    assert!(sent(&hub).is_empty());
    assert!(preset.handle_event(&finger(FingerStatus::Down, 10, 10), &mut hub, &mut bus, &mut ctx));
    assert!(preset.active);
    assert_eq!(sent(&hub), vec![Event::Render(rect, UpdateMode::Fast)]);
    assert!(!preset.handle_event(&finger(FingerStatus::Motion, 5, 5), &mut hub, &mut bus, &mut ctx));
    assert!(preset.handle_event(&finger(FingerStatus::Up, 500, 500), &mut hub, &mut bus, &mut ctx));
    assert!(!preset.active);
    assert_eq!(
        sent(&hub),
        vec![Event::Render(rect, UpdateMode::Fast), Event::Render(rect, UpdateMode::Gui)]
    );
    assert!(queued(&bus).is_empty());
}

#[test]
fn preset_tap_asks_for_the_preset_or_the_page_test() {
    let rect = Rectangle::from_coords(0, 0, 10, 10);
    let mut hub = Hub::new();
    let mut bus = Bus::new();
    let mut ctx = context();
    let mut normal = Preset::new(rect, PresetKind::Normal("p".to_string(), 3));
    assert!(normal.handle_event(&tap(5, 5), &mut hub, &mut bus, &mut ctx));
    assert!(!normal.handle_event(&tap(5, 11), &mut hub, &mut bus, &mut ctx));
    let mut page = Preset::new(rect, PresetKind::Page(CycleDir::Next));
    assert!(page.handle_event(&tap(0, 0), &mut hub, &mut bus, &mut ctx));
    assert_eq!(queued(&bus), vec![Event::LoadPreset(3), Event::Page(CycleDir::Next)]);
    assert!(sent(&hub).is_empty());
}

#[test]
fn preset_hold_asks_for_the_menu_of_a_preset_test() {
    let rect = Rectangle::from_coords(0, 0, 10, 10);
    let mut hub = Hub::new();
    let mut bus = Bus::new();
    let mut ctx = context();
    let mut normal = Preset::new(rect, PresetKind::Normal("p".to_string(), 3));
    assert!(normal.handle_event(&hold(5, 5), &mut hub, &mut bus, &mut ctx));
    assert_eq!(queued(&bus), vec![Event::TogglePresetMenu(rect, 3)]);
    let mut page = Preset::new(rect, PresetKind::Page(CycleDir::Previous));
    assert!(page.handle_event(&hold(5, 5), &mut hub, &mut bus, &mut ctx));
    assert!(!page.handle_event(&hold(50, 5), &mut hub, &mut bus, &mut ctx));
    assert_eq!(queued(&bus).len(), 1);
    let swipe = Event::Gesture(GestureEvent::Swipe { start: Point::new(5, 5), end: Point::new(9, 9) });
    assert!(!normal.handle_event(&swipe, &mut hub, &mut bus, &mut ctx));
}

#[test]
fn preset_render_inverts_a_pressed_cell_test() {
    let rect = Rectangle::from_coords(100, 200, 300, 260);
    let mut preset = Preset::new(rect, PresetKind::Normal("p".to_string(), 0));
    let ctx = context();
    let mut fb = Framebuffer::new();
    preset.render(&mut fb, &ctx, &RenderPlan { width: 51, handle: 9 });
    assert_eq!(
        fb.paints,
        vec![
            Paint::RoundedRectangle { rect, corners: CornerSpec::Uniform(0), color: 0xFF },
            Paint::Text { handle: 9, origin: Point::new(174, 240), color: 0x00 },
        ]
    );
    preset.active = true;
    let mut fb = Framebuffer::new();
    preset.render(&mut fb, &ctx, &RenderPlan { width: 300, handle: 9 });
    assert_eq!(
        fb.paints,
        vec![
            Paint::RoundedRectangle { rect, corners: CornerSpec::Uniform(6), color: 0x00 },
            Paint::Text { handle: 9, origin: Point::new(50, 240), color: 0xFF },
        ]
    );
}

#[test]
fn button_tap_queues_its_request_unless_disabled_test() {
    let rect = Rectangle::from_coords(0, 0, 10, 10);
    let mut hub = Hub::new();
    let mut bus = Bus::new();
    let mut ctx = context();
    let mut button = Button::new(rect, Event::Save, "Save".to_string());
    assert!(!button.disabled);
    assert!(button.handle_event(&tap(5, 5), &mut hub, &mut bus, &mut ctx));
    assert_eq!(queued(&bus), vec![Event::Save]);
    assert!(!button.handle_event(&tap(15, 5), &mut hub, &mut bus, &mut ctx));
    let mut disabled = Button::new(rect, Event::Guess, "Guess".to_string()).disabled(true);
    assert!(disabled.disabled);
    assert!(disabled.handle_event(&tap(5, 5), &mut hub, &mut bus, &mut ctx));
    assert!(!disabled.handle_event(&finger(FingerStatus::Down, 5, 5), &mut hub, &mut bus, &mut ctx));
    assert!(!disabled.active);
    assert_eq!(queued(&bus), vec![Event::Save]);
    assert!(sent(&hub).is_empty());
    assert!(button.handle_event(&finger(FingerStatus::Down, 5, 5), &mut hub, &mut bus, &mut ctx));
    assert!(button.active);
    assert!(button.handle_event(&finger(FingerStatus::Up, 5, 5), &mut hub, &mut bus, &mut ctx));
    assert!(!button.active);
    assert_eq!(
        sent(&hub),
        vec![Event::Render(rect, UpdateMode::Fast), Event::Render(rect, UpdateMode::Gui)]
    );
}

#[test]
fn icon_tap_queues_its_request_test() {
    let rect = Rectangle::from_coords(0, 0, 10, 10);
    let mut hub = Hub::new();
    let mut bus = Bus::new();
    let mut ctx = context();
    let mut icon = Icon::new("close", rect, Event::Close(ViewId::Frontlight))
        .corners(Some(CornerSpec::Uniform(4)));
    assert_eq!(icon.name, "close");
    assert_eq!(icon.corners, Some(CornerSpec::Uniform(4)));
    assert!(icon.handle_event(&tap(5, 5), &mut hub, &mut bus, &mut ctx));
    assert!(!icon.handle_event(&tap(5, 15), &mut hub, &mut bus, &mut ctx));
    assert_eq!(queued(&bus), vec![Event::Close(ViewId::Frontlight)]);
    assert!(icon.handle_event(&finger(FingerStatus::Down, 1, 1), &mut hub, &mut bus, &mut ctx));
    assert!(icon.active);
    assert!(icon.handle_event(&finger(FingerStatus::Up, 1, 1), &mut hub, &mut bus, &mut ctx));
    assert!(!icon.handle_event(&finger(FingerStatus::Up, 1, 1), &mut hub, &mut bus, &mut ctx));
    assert_eq!(sent(&hub).len(), 2);
}

#[test]
fn slider_follows_the_finger_that_holds_it_test() {
    let rect = Rectangle::from_coords(100, 0, 300, 10);
    let mut hub = Hub::new();
    let mut bus = Bus::new();
    let mut ctx = context();
    let mut slider = Slider::new(rect, SliderId::LightIntensity, 30);
    assert!(!slider.handle_event(&finger(FingerStatus::Motion, 150, 5), &mut hub, &mut bus, &mut ctx));
    assert!(!slider.handle_event(&finger(FingerStatus::Down, 150, 11), &mut hub, &mut bus, &mut ctx));
    assert_eq!(slider.value, 30);
    assert!(slider.handle_event(&finger(FingerStatus::Down, 150, 5), &mut hub, &mut bus, &mut ctx));
    assert_eq!(slider.value, 25);
    assert!(slider.active);
    assert!(slider.handle_event(&finger(FingerStatus::Motion, 299, 50), &mut hub, &mut bus, &mut ctx));
    assert_eq!(slider.value, 99);
    assert!(slider.handle_event(&finger(FingerStatus::Motion, 5000, 50), &mut hub, &mut bus, &mut ctx));
    assert_eq!(slider.value, 100);
    assert!(slider.handle_event(&finger(FingerStatus::Up, -7, 50), &mut hub, &mut bus, &mut ctx));
    assert_eq!(slider.value, 0);
    assert!(!slider.active);
    assert!(!slider.handle_event(&finger(FingerStatus::Up, 150, 5), &mut hub, &mut bus, &mut ctx));
    assert!(!slider.handle_event(&tap(150, 5), &mut hub, &mut bus, &mut ctx));
    assert_eq!(
        queued(&bus),
        vec![
            Event::Slider(SliderId::LightIntensity, 25, FingerStatus::Down),
            Event::Slider(SliderId::LightIntensity, 99, FingerStatus::Motion),
            Event::Slider(SliderId::LightIntensity, 100, FingerStatus::Motion),
            Event::Slider(SliderId::LightIntensity, 0, FingerStatus::Up),
        ]
    );
    assert_eq!(
        sent(&hub),
        vec![
            Event::Render(rect, UpdateMode::Fast),
            Event::Render(rect, UpdateMode::Fast),
            Event::Render(rect, UpdateMode::Fast),
            Event::Render(rect, UpdateMode::Gui),
        ]
    );
}

#[test]
fn slider_without_width_stands_at_an_end_test() {
    let rect = Rectangle::from_coords(100, 0, 100, 10);
    let mut hub = Hub::new();
    let mut bus = Bus::new();
    let mut ctx = context();
    let mut slider = Slider::new(rect, SliderId::LightWarmth, 30);
    assert!(slider.handle_event(&finger(FingerStatus::Down, 100, 5), &mut hub, &mut bus, &mut ctx));
    assert_eq!(slider.value, 0);
    assert!(slider.handle_event(&finger(FingerStatus::Motion, 101, 5), &mut hub, &mut bus, &mut ctx));
    assert_eq!(slider.value, 100);
}

#[test]
fn menu_takes_gestures_and_closes_on_a_tap_beside_it_test() {
    let rect = Rectangle::from_coords(0, 0, 10, 10);
    let mut hub = Hub::new();
    let mut bus = Bus::new();
    let mut ctx = context();
    let mut menu = Menu::new(rect, ViewId::PresetMenu, MenuKind::Contextual, vec![]);
    assert!(menu.handle_event(&tap(5, 5), &mut hub, &mut bus, &mut ctx));
    assert!(queued(&bus).is_empty());
    assert!(menu.handle_event(&tap(50, 5), &mut hub, &mut bus, &mut ctx));
    assert!(menu.handle_event(&hold(50, 5), &mut hub, &mut bus, &mut ctx));
    assert_eq!(queued(&bus), vec![Event::Close(ViewId::PresetMenu)]);
    assert!(!menu.handle_event(&finger(FingerStatus::Down, 5, 5), &mut hub, &mut bus, &mut ctx));
    assert!(!menu.handle_event(&Event::Save, &mut hub, &mut bus, &mut ctx));
    assert!(sent(&hub).is_empty());
}

#[test]
fn menu_shows_the_state_of_the_network_test() {
    let rect = Rectangle::from_coords(0, 0, 10, 10);
    let entries = vec![
        EntryKind::CheckBox("Invert Colors".to_string(), EntryId::ToggleInverted, false),
        EntryKind::CheckBox("Enable WiFi".to_string(), EntryId::ToggleWifi, false),
        EntryKind::Separator,
        EntryKind::Command("Quit".to_string(), EntryId::Quit),
    ];
    let mut hub = Hub::new();
    let mut bus = Bus::new();
    let mut ctx = context();
    let mut menu = Menu::new(rect, ViewId::MainMenu, MenuKind::DropDown, entries);
    assert!(menu.handle_event(&Event::Network(true), &mut hub, &mut bus, &mut ctx));
    assert_eq!(
        menu.entries,
        vec![
            EntryKind::CheckBox("Invert Colors".to_string(), EntryId::ToggleInverted, false),
            EntryKind::CheckBox("Enable WiFi".to_string(), EntryId::ToggleWifi, true),
            EntryKind::Separator,
            EntryKind::Command("Quit".to_string(), EntryId::Quit),
        ]
    );
    assert_eq!(sent(&hub), vec![Event::Render(rect, UpdateMode::Gui)]);
    assert!(menu.handle_event(&Event::Network(false), &mut hub, &mut bus, &mut ctx));
    assert_eq!(
        menu.entries[1],
        EntryKind::CheckBox("Enable WiFi".to_string(), EntryId::ToggleWifi, false)
    );
    assert!(queued(&bus).is_empty());
}

#[test]
fn presets_list_update_lays_out_cells_of_equal_width_test() {
    let rect = Rectangle::from_coords(100, 50, 200, 80);
    let mut list = PresetsList::new(rect);
    assert!(list.children.is_empty());
    let presets = vec![
        LightPreset {
            lightsensor_level: Some(40),
            frontlight_levels: LightLevels { intensity: 1, warmth: 2 },
            timestamp: 5,
        },
        LightPreset {
            lightsensor_level: None,
            frontlight_levels: LightLevels { intensity: 3, warmth: 4 },
            timestamp: 3600 * 8 + 60 * 5,
        },
        LightPreset {
            lightsensor_level: Some(7),
            frontlight_levels: LightLevels { intensity: 5, warmth: 6 },
            timestamp: 9,
        },
    ];
    let mut hub = Hub::new();
    let ctx = context();
    list.update(&presets, &mut hub, &ctx.fonts);
    assert_eq!(
        list.children,
        vec![
            Node::Preset(Preset::new(
                Rectangle::from_coords(100, 50, 133, 80),
                PresetKind::Normal("40 lx".to_string(), 0),
            )),
            Node::Preset(Preset::new(
                Rectangle::from_coords(133, 50, 166, 80),
                PresetKind::Normal("08:05".to_string(), 1),
            )),
            Node::Preset(Preset::new(
                Rectangle::from_coords(166, 50, 200, 80),
                PresetKind::Normal("7 lx".to_string(), 2),
            )),
        ]
    );
    assert_eq!(list.rect, rect);
    assert_eq!(sent(&hub), vec![Event::Render(rect, UpdateMode::Gui)]);
    list.update(&vec![], &mut hub, &ctx.fonts);
    assert!(list.children.is_empty());
    assert_eq!(sent(&hub).len(), 2);
}

#[test]
fn presets_list_without_width_keeps_its_cells_at_its_edge_test() {
    let rect = Rectangle::from_coords(100, 50, 90, 80);
    let mut list = PresetsList::new(rect);
    let presets = vec![
        LightPreset {
            lightsensor_level: Some(1),
            frontlight_levels: LightLevels { intensity: 1, warmth: 2 },
            timestamp: 5,
        };
        2
    ];
    let mut hub = Hub::new();
    list.update(&presets, &mut hub, &context().fonts);
    assert_eq!(list.children.len(), 2);
    assert_eq!(*list.children[1].rect(), Rectangle::from_coords(100, 50, 100, 80));
    let mut bus = Bus::new();
    let mut ctx = context();
    assert!(!list.handle_event(&tap(100, 60), &mut hub, &mut bus, &mut ctx));
}

#[test]
fn node_handle_event_goes_by_the_kind_test() {
    let rect = Rectangle::from_coords(0, 0, 10, 10);
    let mut hub = Hub::new();
    let mut bus = Bus::new();
    let mut ctx = context();
    let mut button = Node::Button(Button::new(rect, Event::Guess, "Guess".to_string()));
    let mut label = Node::Label(Label::new(rect, "l".to_string(), Align::Center));
    let mut preset = Node::Preset(Preset::new(rect, PresetKind::Normal("p".to_string(), 1)));
    assert!(button.handle_event(&tap(1, 1), &mut hub, &mut bus, &mut ctx));
    assert!(!label.handle_event(&tap(1, 1), &mut hub, &mut bus, &mut ctx));
    assert!(preset.handle_event(&tap(1, 1), &mut hub, &mut bus, &mut ctx));
    assert_eq!(queued(&bus), vec![Event::Guess, Event::LoadPreset(1)]);
}

#[test]
fn hub_drops_what_is_sent_while_nothing_listens_test() {
    let mut hub = Hub::new();
    hub.send(Event::Save);
    hub.send(Event::Guess);
    assert_eq!(hub.recv(), Some(Event::Save));
    hub.disconnect();
    hub.send(Event::Open(ViewId::MainMenu));
    assert_eq!(hub.recv(), Some(Event::Guess));
    assert_eq!(hub.recv(), None);
    assert_eq!(hub.recv(), None);
    let mut deaf = Hub { queue: VecDeque::new(), listening: false };
    deaf.send(Event::Save);
    assert!(deaf.queue.is_empty());
}

#[test]
fn refresh_picks_the_request_by_the_reason_test() {
    let rect = Rectangle::from_coords(0, 0, 10, 10);
    assert_eq!(Event::refresh(rect, Reason::Content), Some(Event::Render(rect, UpdateMode::Gui)));
    assert_eq!(Event::refresh(rect, Reason::Feedback), Some(Event::Render(rect, UpdateMode::Fast)));
    assert_eq!(Event::refresh(rect, Reason::Removal), Some(Event::Expose(rect)));
    assert_eq!(Event::refresh(rect, Reason::Redraw), Some(Event::Render(rect, UpdateMode::Full)));
    assert_eq!(Event::refresh(Rectangle::from_coords(0, 0, 0, 10), Reason::Content), None);
    assert_eq!(Event::refresh(Rectangle::from_coords(0, 0, 10, 0), Reason::Removal), None);
    assert_eq!(Event::refresh(Rectangle::from_coords(5, 5, 1, 1), Reason::Redraw), None);
}

#[test]
fn event_position_rank_and_region_test() {
    assert_eq!(tap(1, 2).position(), Some(Point::new(1, 2)));
    assert_eq!(hold(3, 4).position(), Some(Point::new(3, 4)));
    assert_eq!(finger(FingerStatus::Motion, 5, 6).position(), Some(Point::new(5, 6)));
    let swipe = Event::Gesture(GestureEvent::Swipe { start: Point::new(7, 8), end: Point::new(9, 9) });
    assert_eq!(swipe.position(), Some(Point::new(7, 8)));
    assert_eq!(Event::Save.position(), None);
    assert_eq!(tap(1, 2).rank(), 3);
    assert_eq!(finger(FingerStatus::Up, 1, 2).rank(), 3);
    assert_eq!(Event::Save.rank(), 2);
    assert_eq!(Event::LoadPreset(1).rank(), 2);
    assert_eq!(Event::Network(true).rank(), 2);
    assert_eq!(Event::Close(ViewId::MainMenu).rank(), 1);
    assert_eq!(Event::Open(ViewId::MainMenu).rank(), 1);
    let rect = Rectangle::from_coords(0, 0, 1, 1);
    assert_eq!(Event::Expose(rect).rank(), 0);
    assert_eq!(Event::Render(rect, UpdateMode::Full).rank(), 0);
    assert_eq!(Event::Expose(rect).region(), Some(rect));
    assert_eq!(Event::Render(rect, UpdateMode::Fast).region(), Some(rect));
    assert_eq!(Event::Guess.region(), None);
    assert!(Event::Network(false).is_broadcast());
    assert!(!Event::Save.is_broadcast());
    assert!(!tap(0, 0).is_broadcast());
}

#[test]
fn slider_label_names_the_control_test() {
    assert_eq!(SliderId::LightIntensity.label(), "Intensity");
    assert_eq!(SliderId::LightWarmth.label(), "Warmth");
}

#[test]
fn framebuffer_keeps_the_operations_in_order_test() {
    let mut fb = Framebuffer::new();
    let rect = Rectangle::from_coords(0, 0, 1, 1);
    fb.draw_rectangle(&rect, 3);
    fb.update(&rect, UpdateMode::Gui);
    fb.draw_text(5, &Point::new(1, 1), 0);
    fb.update(&rect, UpdateMode::Fast);
    assert_eq!(
        fb.paints,
        vec![
            Paint::Rectangle { rect, color: 3 },
            Paint::Update { rect, mode: UpdateMode::Gui },
            Paint::Text { handle: 5, origin: Point::new(1, 1), color: 0 },
            Paint::Update { rect, mode: UpdateMode::Fast },
        ]
    );
}

#[test]
fn preset_caption_is_the_name_or_an_ellipsis_test() {
    let r = Rectangle::from_coords(0, 0, 10, 10);
    assert_eq!(Preset::new(r, PresetKind::Normal("120 lx".to_string(), 3)).caption(), "120 lx");
    assert_eq!(Preset::new(r, PresetKind::Normal(String::new(), 0)).caption(), "");
    assert_eq!(Preset::new(r, PresetKind::Page(CycleDir::Next)).caption(), "\u{2026}");
    assert_eq!(Preset::new(r, PresetKind::Page(CycleDir::Previous)).caption().chars().count(), 1);
}

#[test]
fn renderable_tells_whether_the_text_has_a_place_test() {
    let ctx = context();
    let plan = RenderPlan { width: 50, handle: 1 };
    let label = Label::new(Rectangle::from_coords(100, 200, 300, 260), "l".to_string(), Align::Center);
    assert!(label.renderable(&ctx, &plan));
    let upside = Label::new(Rectangle::from_coords(100, 200, 300, 199), "l".to_string(), Align::Center);
    assert!(!upside.renderable(&ctx, &plan));
    let far = Label::new(
        Rectangle::from_coords(i32::MAX - 10, 0, i32::MAX, 60),
        "l".to_string(),
        Align::Left(11),
    );
    assert!(!far.renderable(&ctx, &plan));
    let near = Label::new(
        Rectangle::from_coords(i32::MAX - 10, 0, i32::MAX, 60),
        "l".to_string(),
        Align::Left(10),
    );
    assert!(near.renderable(&ctx, &plan));
    let preset = Preset::new(Rectangle::from_coords(100, 200, 300, 260), PresetKind::Page(CycleDir::Next));
    assert!(preset.renderable(&ctx, &plan));
    let wide = RenderPlan { width: u32::MAX, handle: 1 };
    assert!(preset.renderable(&ctx, &wide));
    let low = Preset::new(Rectangle::from_coords(i32::MIN, 0, i32::MIN + 10, 60), PresetKind::Page(CycleDir::Next));
    assert!(!low.renderable(&ctx, &wide));
    let flat = Preset::new(Rectangle::from_coords(0, 0, -1, 60), PresetKind::Page(CycleDir::Next));
    assert!(!flat.renderable(&ctx, &plan));
}

#[test]
fn has_offset_tells_whether_the_distance_is_a_number_test() {
    assert!(Align::Left(i32::MIN).has_offset(0, 0));
    assert!(Align::Right(0).has_offset(30, 100));
    assert!(!Align::Right(-1).has_offset(0, i32::MAX));
    assert!(Align::Right(0).has_offset(0, i32::MAX));
    assert!(!Align::Right(1).has_offset(i32::MAX, i32::MIN));
    assert!(Align::Center.has_offset(i32::MAX, i32::MIN));
    assert!(Align::Center.has_offset(i32::MIN, i32::MAX));
}

#[test]
fn commit_tells_what_the_display_is_to_commit_test() {
    let r = Rectangle::from_coords(0, 0, 10, 10);
    assert_eq!(Event::Render(r, UpdateMode::Fast).commit(), Some((r, UpdateMode::Fast)));
    assert_eq!(Event::Render(r, UpdateMode::Full).commit(), Some((r, UpdateMode::Full)));
    assert_eq!(Event::Expose(r).commit(), Some((r, UpdateMode::Gui)));
    assert_eq!(Event::Save.commit(), None);
    assert_eq!(tap(1, 1).commit(), None);
}
