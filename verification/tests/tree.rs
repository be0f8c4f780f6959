use viewtree::app::Context;
use viewtree::device::Device;
use viewtree::font::Fonts;
use viewtree::framebuffer::UpdateMode;
use viewtree::geom::{Point, Rectangle};
use viewtree::frontlight::{Frontlight, LightLevels};
use viewtree::settings::Settings;
use viewtree::view::common::{
    children_shiftable, covering_rectangle, insert_section, locate, locate_by_id, locate_in,
    overlapping_rectangle, remove_child, remove_section, shift, shift_children, shiftable,
    toggle_main_menu,
};
use viewtree::view::frontlight::FrontlightWindow;
use viewtree::view::label::{Align, Label};
use viewtree::view::menu::{EntryKind, Menu, MenuKind};
use viewtree::view::presets_list::PresetsList;
use viewtree::view::slider::Slider;
use viewtree::view::{EntryId, Event, Hub, Kind, Node, SliderId, ViewId};

fn label(x0: i32, y0: i32, x1: i32, y1: i32, text: &str) -> Node {
    Node::Label(Label::new(Rectangle::from_coords(x0, y0, x1, y1), text.to_string(), Align::Center))
}

fn window(x0: i32, y0: i32, x1: i32, y1: i32, children: Vec<Node>) -> Node {
    Node::FrontlightWindow(FrontlightWindow { rect: Rectangle::from_coords(x0, y0, x1, y1), children })
}

fn list(x0: i32, y0: i32, x1: i32, y1: i32, children: Vec<Node>) -> Node {
    Node::PresetsList(PresetsList { rect: Rectangle::from_coords(x0, y0, x1, y1), children })
}

fn context() -> Context {
    Context {
        device: Device {
            width: 1404,
            height: 1872,
            dpi: 300,
            small_height: 120,
            natural_light: true,
            lightsensor: true,
        },
        fonts: Fonts { x_height: 20, em: 40, slider_label_width: 150, button_label_width: 100 },
        settings: Settings { frontlight_presets: vec![], wifi: true },
        frontlight: Frontlight { levels: LightLevels { intensity: 30, warmth: 60 } },
        lightsensor: Some(120),
        now: 1000,
        inverted: false,
        monochrome: true,
        standalone: false,
    }
}

fn sent(hub: &Hub) -> Vec<Event> {
    hub.queue.iter().cloned().collect()
}

#[test]
fn shift_moves_every_rectangle_of_the_subtree_test() {
    let mut tree = window(
        0,
        0,
        100,
        100,
        vec![
            label(10, 10, 20, 20, "a"),
            list(30, 30, 90, 90, vec![label(40, 40, 50, 50, "b"), label(60, 60, 130, 70, "c")]),
        ],
    );
    let delta = Point::new(5, -7);
    assert!(shiftable(&tree, &delta));
    shift(&mut tree, &delta);
    let expected = window(
        5,
        -7,
        105,
        93,
        vec![
            label(15, 3, 25, 13, "a"),
            list(35, 23, 95, 83, vec![label(45, 33, 55, 43, "b"), label(65, 53, 135, 63, "c")]),
        ],
    );
    assert_eq!(tree, expected);
}

#[test]
fn shift_commutes_with_the_overlapping_rectangle_test() {
    let mut tree = window(
        0,
        0,
        100,
        100,
        vec![
            label(-10, 10, 20, 20, "a"),
            list(30, 30, 90, 90, vec![label(40, 40, 50, 50, "b"), label(60, 60, 130, 170, "c")]),
        ],
    );
    let before = overlapping_rectangle(&tree);
    assert_eq!(before, Rectangle::from_coords(-10, 0, 130, 170));
    let delta = Point::new(-3, 11);
    shift(&mut tree, &delta);
    let mut moved = before;
    moved.translate(&delta);
    assert_eq!(overlapping_rectangle(&tree), moved);
    assert_eq!(moved, Rectangle::from_coords(-13, 11, 127, 181));
}

#[test]
fn shift_by_nothing_changes_nothing_test() {
    let mut tree = window(0, 0, 10, 10, vec![label(1, 1, 2, 2, "a")]);
    shift(&mut tree, &Point::new(0, 0));
    assert_eq!(tree, window(0, 0, 10, 10, vec![label(1, 1, 2, 2, "a")]));
}

#[test]
fn shiftable_finds_the_rectangle_that_would_leave_the_range_test() {
    let tree = window(
        0,
        0,
        100,
        100,
        vec![list(0, 0, 10, 10, vec![label(0, 0, 10, i32::MAX - 4, "deep")])],
    );
    assert!(shiftable(&tree, &Point::new(0, 4)));
    assert!(!shiftable(&tree, &Point::new(0, 5)));
    assert!(shiftable(&tree, &Point::new(i32::MAX - 100, 0)));
    assert!(!shiftable(&tree, &Point::new(i32::MAX - 99, 0)));
    let children = vec![label(0, 0, 1, 1, "a"), label(i32::MIN, 0, 1, 1, "b")];
    assert!(!children_shiftable(&children, &Point::new(-1, 0)));
    assert!(children_shiftable(&children, &Point::new(1, 0)));
}

#[test]
fn shift_children_leaves_the_parent_alone_test() {
    let mut children = vec![label(0, 0, 1, 1, "a"), label(5, 5, 6, 6, "b")];
    shift_children(&mut children, &Point::new(2, 3));
    assert_eq!(children, vec![label(2, 3, 3, 4, "a"), label(7, 8, 8, 9, "b")]);
}

#[test]
fn overlapping_rectangle_of_a_leaf_is_its_rectangle_test() {
    let leaf = label(3, 4, 5, 6, "leaf");
    assert_eq!(overlapping_rectangle(&leaf), Rectangle::from_coords(3, 4, 5, 6));
    assert_eq!(
        covering_rectangle(Rectangle::from_coords(0, 0, 1, 1), &vec![]),
        Rectangle::from_coords(0, 0, 1, 1)
    );
}

#[test]
fn overlapping_rectangle_includes_children_that_overflow_test() {
    let tree = window(
        10,
        10,
        20,
        20,
        vec![label(0, 12, 15, 14, "left"), list(12, 12, 14, 14, vec![label(13, 13, 40, 50, "deep")])],
    );
    assert_eq!(overlapping_rectangle(&tree), Rectangle::from_coords(0, 10, 40, 50));
}

#[test]
fn locate_finds_the_first_child_of_a_kind_test() {
    let tree = window(
        0,
        0,
        10,
        10,
        vec![
            label(0, 0, 1, 1, "a"),
            Node::Slider(Slider::new(Rectangle::from_coords(0, 0, 1, 1), SliderId::LightWarmth, 3)),
            label(0, 0, 1, 1, "b"),
            Node::Slider(Slider::new(Rectangle::from_coords(0, 0, 1, 1), SliderId::LightIntensity, 4)),
            list(0, 0, 1, 1, vec![Node::Menu(Menu::new(
                Rectangle::from_coords(0, 0, 1, 1),
                ViewId::MainMenu,
                MenuKind::DropDown,
                vec![],
            ))]),
        ],
    );
    assert_eq!(locate(&tree, Kind::Label), Some(0));
    assert_eq!(locate(&tree, Kind::Slider), Some(1));
    assert_eq!(locate(&tree, Kind::PresetsList), Some(4));
    assert_eq!(locate(&tree, Kind::Menu), None);
    assert_eq!(locate(&tree, Kind::Button), None);
    assert_eq!(locate(&label(0, 0, 1, 1, "leaf"), Kind::Label), None);
    assert_eq!(locate_in(tree.children(), Kind::Slider), Some(1));
}

#[test]
fn locate_by_id_finds_the_first_match_test() {
    let menu = |id: ViewId, x: i32| {
        Node::Menu(Menu::new(Rectangle::from_coords(x, 0, x + 1, 1), id, MenuKind::Contextual, vec![]))
    };
    let tree = window(
        0,
        0,
        10,
        10,
        vec![
            label(0, 0, 1, 1, "a"),
            menu(ViewId::PresetMenu, 1),
            menu(ViewId::MainMenu, 2),
            menu(ViewId::MainMenu, 3),
        ],
    );
    assert_eq!(locate_by_id(&tree, ViewId::MainMenu), Some(2));
    assert_eq!(locate_by_id(&tree, ViewId::PresetMenu), Some(1));
    assert_eq!(locate_by_id(&tree, ViewId::Frontlight), None);
    assert_eq!(tree.child(0).id(), None);
    assert_eq!(tree.child(3).id(), Some(ViewId::MainMenu));
}

#[test]
fn node_answers_for_its_kind_test() {
    let tree = window(0, 0, 10, 10, vec![label(0, 0, 1, 1, "a")]);
    assert_eq!(tree.kind(), Kind::FrontlightWindow);
    assert!(tree.is(Kind::FrontlightWindow));
    assert!(!tree.is(Kind::Label));
    assert!(tree.is_background());
    assert!(!tree.child(0).is_background());
    assert_eq!(tree.len(), 1);
    assert_eq!(tree.child(0).len(), 0);
    assert_eq!(*tree.rect(), Rectangle::from_coords(0, 0, 10, 10));
}

#[test]
fn node_is_taken_as_its_kind_only_test() {
    let slider =
        Node::Slider(Slider::new(Rectangle::from_coords(0, 0, 1, 1), SliderId::LightWarmth, 3));
    assert_eq!(slider.as_slider().map(|s| s.value), Some(3));
    assert!(slider.as_button().is_none());
    assert!(slider.as_presets_list().is_none());
    let row = list(0, 0, 1, 1, vec![label(0, 0, 1, 1, "a")]);
    assert_eq!(row.as_presets_list().map(|l| l.children.len()), Some(1));
    assert!(row.as_slider().is_none());
    assert!(label(0, 0, 1, 1, "a").as_button().is_none());
}

#[test]
fn rect_mut_moves_no_child_test() {
    let mut tree = window(0, 0, 10, 10, vec![label(1, 1, 2, 2, "a")]);
    *tree.rect_mut() = Rectangle::from_coords(5, 5, 6, 6);
    tree.children_mut().push(label(7, 7, 8, 8, "b"));
    assert_eq!(tree, window(5, 5, 6, 6, vec![label(1, 1, 2, 2, "a"), label(7, 7, 8, 8, "b")]));
}

#[test]
fn inserting_a_section_shifts_what_is_below_and_grows_the_window_test() {
    let mut tree = window(0, 0, 100, 60, vec![label(0, 10, 100, 30, "a"), label(0, 30, 100, 50, "b")]);
    let mut hub = Hub::new();
    let rejected = insert_section(&mut tree, 1, label(0, 30, 100, 50, "section"), &mut hub);
    assert_eq!(rejected, None);
    assert_eq!(
        tree,
        window(
            0,
            0,
            100,
            80,
            vec![
                label(0, 10, 100, 30, "a"),
                label(0, 30, 100, 50, "section"),
                label(0, 50, 100, 70, "b"),
            ],
        )
    );
    assert_eq!(
        sent(&hub),
        vec![
            Event::Expose(Rectangle::from_coords(0, 0, 100, 60)),
            Event::Render(Rectangle::from_coords(0, 0, 100, 80), UpdateMode::Gui),
        ]
    );
}

#[test]
fn removing_the_section_again_restores_the_window_test() {
    let mut tree = window(0, 0, 100, 60, vec![label(0, 10, 100, 30, "a"), label(0, 30, 100, 50, "b")]);
    let mut hub = Hub::new();
    insert_section(&mut tree, 1, label(0, 30, 100, 50, "section"), &mut hub);
    let mut hub = Hub::new();
    let section = remove_section(&mut tree, 1, &mut hub);
    assert_eq!(section, Some(label(0, 30, 100, 50, "section")));
    assert_eq!(
        tree,
        window(0, 0, 100, 60, vec![label(0, 10, 100, 30, "a"), label(0, 30, 100, 50, "b")])
    );
    assert_eq!(
        sent(&hub),
        vec![
            Event::Expose(Rectangle::from_coords(0, 0, 100, 80)),
            Event::Render(Rectangle::from_coords(0, 0, 100, 60), UpdateMode::Gui),
        ]
    );
}

#[test]
fn a_section_that_cannot_be_inserted_is_handed_back_test() {
    let mut tree = window(0, 0, 100, i32::MAX - 5, vec![label(0, 10, 100, 30, "a")]);
    let mut hub = Hub::new();
    let rejected = insert_section(&mut tree, 0, label(0, 0, 100, 6, "tall"), &mut hub);
    assert_eq!(rejected, Some(label(0, 0, 100, 6, "tall")));
    assert_eq!(tree, window(0, 0, 100, i32::MAX - 5, vec![label(0, 10, 100, 30, "a")]));
    assert_eq!(sent(&hub), vec![]);
    let rejected = insert_section(&mut tree, 2, label(0, 0, 100, 1, "beyond"), &mut hub);
    assert_eq!(rejected, Some(label(0, 0, 100, 1, "beyond")));
    let rejected = insert_section(&mut tree, 0, label(0, 5, 100, 1, "upside down"), &mut hub);
    assert_eq!(rejected, Some(label(0, 5, 100, 1, "upside down")));
    let mut low = window(0, 0, 100, 50, vec![label(0, i32::MAX - 3, 100, i32::MAX, "low")]);
    let rejected = insert_section(&mut low, 0, label(0, 0, 100, 4, "push"), &mut hub);
    assert_eq!(rejected, Some(label(0, 0, 100, 4, "push")));
    assert_eq!(sent(&hub), vec![]);
    let accepted = insert_section(&mut low, 1, label(0, 0, 100, 4, "after"), &mut hub);
    assert_eq!(accepted, None);
    assert_eq!(low.len(), 2);
    assert_eq!(*low.rect(), Rectangle::from_coords(0, 0, 100, 54));
}

#[test]
fn remove_section_without_such_a_child_changes_nothing_test() {
    let mut tree = window(0, 0, 100, 60, vec![label(0, 10, 100, 30, "a")]);
    let mut hub = Hub::new();
    assert_eq!(remove_section(&mut tree, 1, &mut hub), None);
    assert_eq!(tree, window(0, 0, 100, 60, vec![label(0, 10, 100, 30, "a")]));
    assert_eq!(sent(&hub), vec![]);
    let mut tight = window(0, i32::MIN, 100, i32::MIN + 5, vec![label(0, 0, 100, 6, "a")]);
    assert_eq!(remove_section(&mut tight, 0, &mut hub), None);
    assert_eq!(tight.len(), 1);
    assert_eq!(sent(&hub), vec![]);
}

#[test]
fn remove_child_exposes_what_the_child_covered_test() {
    let mut tree = window(
        0,
        0,
        100,
        100,
        vec![
            label(10, 10, 20, 20, "a"),
            list(30, 30, 90, 90, vec![label(40, 40, 50, 50, "b"), label(60, 60, 130, 70, "c")]),
        ],
    );
    let mut hub = Hub::new();
    let child = remove_child(&mut tree, 1, &mut hub);
    assert_eq!(
        child,
        Some(list(30, 30, 90, 90, vec![label(40, 40, 50, 50, "b"), label(60, 60, 130, 70, "c")]))
    );
    assert_eq!(tree, window(0, 0, 100, 100, vec![label(10, 10, 20, 20, "a")]));
    assert_eq!(sent(&hub), vec![Event::Expose(Rectangle::from_coords(30, 30, 130, 90))]);
    assert_eq!(remove_child(&mut tree, 1, &mut hub), None);
    assert_eq!(sent(&hub).len(), 1);
}

#[test]
fn toggle_main_menu_shows_the_menu_test() {
    let mut tree = window(0, 0, 100, 100, vec![label(10, 10, 20, 20, "a")]);
    let mut hub = Hub::new();
    let mut ctx = context();
    let rect = Rectangle::from_coords(50, 0, 100, 40);
    toggle_main_menu(&mut tree, rect, None, &mut hub, &mut ctx);
    let entries = vec![
        EntryKind::CheckBox("Invert Colors".to_string(), EntryId::ToggleInverted, false),
        EntryKind::CheckBox("Make Bitonal".to_string(), EntryId::ToggleMonochrome, true),
        EntryKind::CheckBox("Enable WiFi".to_string(), EntryId::ToggleWifi, true),
        EntryKind::Separator,
        EntryKind::Command("Take Screenshot".to_string(), EntryId::TakeScreenshot),
        EntryKind::Separator,
        EntryKind::Command("Quit".to_string(), EntryId::Quit),
    ];
    assert_eq!(
        tree,
        window(
            0,
            0,
            100,
            100,
            vec![
                label(10, 10, 20, 20, "a"),
                Node::Menu(Menu::new(rect, ViewId::MainMenu, MenuKind::DropDown, entries)),
            ],
        )
    );
    assert_eq!(sent(&hub), vec![Event::Render(rect, UpdateMode::Gui)]);
    assert_eq!(ctx, context());
}

#[test]
fn toggle_main_menu_standalone_offers_to_leave_the_interface_test() {
    let mut tree = window(0, 0, 100, 100, vec![]);
    let mut hub = Hub::new();
    let mut ctx = context();
    ctx.standalone = true;
    ctx.inverted = true;
    ctx.settings.wifi = false;
    toggle_main_menu(&mut tree, Rectangle::from_coords(0, 0, 1, 1), Some(true), &mut hub, &mut ctx);
    match tree.child(0) {
        Node::Menu(menu) => {
            assert_eq!(menu.entries.len(), 8);
            assert_eq!(
                menu.entries[0],
                EntryKind::CheckBox("Invert Colors".to_string(), EntryId::ToggleInverted, true)
            );
            assert_eq!(
                menu.entries[2],
                EntryKind::CheckBox("Enable WiFi".to_string(), EntryId::ToggleWifi, false)
            );
            assert_eq!(
                menu.entries[6],
                EntryKind::Command("Start Nickel".to_string(), EntryId::StartNickel)
            );
            assert_eq!(menu.entries[7], EntryKind::Command("Reboot".to_string(), EntryId::Reboot));
        },
        _ => panic!("the child is no menu"),
    }
}

#[test]
fn toggle_main_menu_hides_the_menu_and_exposes_it_test() {
    let mut tree = window(0, 0, 100, 100, vec![label(10, 10, 20, 20, "a")]);
    let mut hub = Hub::new();
    let mut ctx = context();
    let rect = Rectangle::from_coords(50, 0, 100, 40);
    toggle_main_menu(&mut tree, rect, Some(true), &mut hub, &mut ctx);
    toggle_main_menu(&mut tree, rect, Some(true), &mut hub, &mut ctx);
    assert_eq!(tree.len(), 2);
    assert_eq!(sent(&hub).len(), 1);
    let mut hub = Hub::new();
    toggle_main_menu(&mut tree, Rectangle::from_coords(0, 0, 1, 1), None, &mut hub, &mut ctx);
    assert_eq!(tree, window(0, 0, 100, 100, vec![label(10, 10, 20, 20, "a")]));
    assert_eq!(sent(&hub), vec![Event::Expose(rect)]);
    toggle_main_menu(&mut tree, rect, Some(false), &mut hub, &mut ctx);
    assert_eq!(tree.len(), 1);
    assert_eq!(sent(&hub).len(), 1);
}
