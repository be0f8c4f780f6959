//! The window in which the frontlight is set.

use std::collections::VecDeque;
use vstd::prelude::*;
use crate::app::{Context, ContextView};
use crate::frontlight::{percent, LightLevels};
use crate::settings::SettingsView;
use crate::view::event::lemma_sent_sent;
use crate::color::{BLACK, WHITE};
use crate::framebuffer::{Framebuffer, Paint, UpdateMode};
use crate::geom::{fits_i32, BorderSpec, CornerSpec, Point, Rectangle};
use crate::gesture::GestureEvent;
use crate::input::FingerStatus;
use crate::settings::{by_timestamp, guess_frontlight, guessed, sort_by_timestamp, LightPreset};
use crate::unit::{scale_by_dpi, scaled};
use crate::view::button::Button;
use crate::view::common::{
    can_shift_from, children_shiftable_from, covering_rectangle, first_match, lemma_bounds,
    lemma_bounds_cover, lemma_first_match, lemma_first_match_found, locate_in, shift_children_from,
    shifted_from,
};
use crate::view::icon::Icon;
use crate::view::label::{Align, Label};
use crate::view::presets_list::{preset_cells, PresetsList};
use crate::view::slider::Slider;
use crate::view::{
    lemma_view, views, Bus, EntryId, Event, Hub, Kind, Node, NodeView, Reaction, SliderId, ViewId,
    Widget, BORDER_RADIUS_MEDIUM, THICKNESS_LARGE,
};

verus! {

#[derive(Debug, PartialEq, Eq)]
pub struct FrontlightWindow {
    pub rect: Rectangle,
    pub children: Vec<Node>,
}

impl View for FrontlightWindow {
    type V = NodeView;

    open spec fn view(&self) -> NodeView {
        Node::FrontlightWindow(*self)@
    }
}

/// Removes the node at `index` from `children` if each of those that stand
/// after it can be moved by `delta`, and tells whether it did.
fn remove_if_rest_shiftable(children: &mut Vec<Node>, index: usize, delta: &Point) -> (removed: bool)
    requires
        index < old(children)@.len(),
    ensures
        removed == can_shift_from(
            views(old(children)@).remove(index as int),
            index as int,
            *delta,
        ),
        removed ==> views(final(children)@) == views(old(children)@).remove(index as int),
        !removed ==> final(children)@ == old(children)@,
{
    let node = children.remove(index);
    assert(views(old(children)@).remove(index as int) =~= views(children@));
    if children_shiftable_from(children, index, delta) {
        true
    } else {
        children.insert(index, node);
        assert(children@ =~= old(children)@);
        false
    }
}

/// The slider `node` set to `value`.
fn slider_with_value(node: Node, value: u8) -> (set: Node)
    requires
        node is Slider,
    ensures
        set@ == (NodeView {
            widget: Widget::Slider {
                slider: node@.widget->Slider_slider,
                value,
                active: node@.widget->Slider_active,
            },
            ..node@
        }),
{
    proof {
        lemma_view(node);
    }
    match node {
        Node::Slider(slider) => {
            let set = Node::Slider(Slider { value, ..slider });
            proof {
                lemma_view(set);
            }
            set
        },
        other => other,
    }
}

/// The button `node`, disabled or not.
fn button_with_disabled(node: Node, disabled: bool) -> (set: Node)
    requires
        node is Button,
    ensures
        set@ == (NodeView {
            widget: Widget::Button {
                event: node@.widget->Button_event,
                text: node@.widget->Button_text,
                active: node@.widget->Button_active,
                disabled,
            },
            ..node@
        }),
{
    proof {
        lemma_view(node);
    }
    match node {
        Node::Button(button) => {
            let set = Node::Button(Button { disabled, ..button });
            proof {
                lemma_view(set);
            }
            set
        },
        other => other,
    }
}

/// A third of `v`, rounded towards zero.
pub open spec fn third(v: int) -> int {
    if v >= 0 {
        v / 3
    } else {
        -((-v) / 3)
    }
}

/// The lengths by which the window is laid out on a screen.
pub ghost struct Measures {
    /// The height of a row of controls.
    pub row: int,
    /// The margin around texts: the width of an em.
    pub padding: int,
    /// The thickness of the border of the window.
    pub thickness: int,
    /// The radius of the corners of the window.
    pub radius: int,
    /// The height of a button.
    pub button: int,
    /// The width of the widest name of a slider.
    pub slider_label: int,
    /// The width of the widest label of a button.
    pub button_label: int,
}

impl Measures {
    pub open spec fn of(context: ContextView) -> Measures {
        Measures {
            row: context.device.small_height as int,
            padding: context.fonts.em as int,
            thickness: scaled(THICKNESS_LARGE, context.device.dpi),
            radius: scaled(BORDER_RADIUS_MEDIUM, context.device.dpi),
            button: 4 * context.fonts.x_height,
            slider_label: context.fonts.slider_label_width as int,
            button_label: context.fonts.button_label_width as int,
        }
    }
}

impl FrontlightWindow {
    /// The height of the window: three rows and the margins, a row more
    /// where the warmth can be set, and a row more where presets are shown.
    pub open spec fn window_height(context: ContextView) -> int {
        let m = Measures::of(context);
        m.row * 3 + 2 * m.padding + (if context.device.natural_light {
            m.row
        } else {
            0
        }) + (if context.settings.frontlight_presets.len() > 0 {
            m.row
        } else {
            0
        })
    }

    /// The rectangle of the window: as wide as the screen but for a margin
    /// on each side, and a third of the way down what the window leaves free.
    pub open spec fn window_rect(context: ContextView) -> Rectangle {
        let m = Measures::of(context);
        let window_width = context.device.width - 2 * m.padding;
        let window_height = FrontlightWindow::window_height(context);
        let dx = (context.device.width - window_width) / 2;
        let dy = third(context.device.height - window_height);
        Rectangle::at(dx, dy, dx + window_width, dy + window_height)
    }

    /// The icon that closes the window, in its upper right corner.
    pub open spec fn close_icon(rect: Rectangle, context: ContextView) -> NodeView {
        let m = Measures::of(context);
        NodeView {
            rect: Rectangle::at(
                rect.max.x - m.row,
                rect.min.y + m.thickness,
                rect.max.x - m.thickness,
                rect.min.y + m.row,
            ),
            children: Seq::empty(),
            widget: Widget::Icon {
                name: "close"@,
                corners: Some(CornerSpec::Uniform((m.radius - m.thickness) as i32)),
                event: Event::Close(ViewId::Frontlight),
                active: false,
            },
        }
    }

    /// The title, in the first row.
    pub open spec fn title(rect: Rectangle, context: ContextView) -> NodeView {
        let m = Measures::of(context);
        NodeView {
            rect: Rectangle::at(
                rect.min.x + m.row,
                rect.min.y + m.thickness,
                rect.max.x - m.row,
                rect.min.y + m.row,
            ),
            children: Seq::empty(),
            widget: Widget::Label { text: "Frontlight"@, align: Align::Center },
        }
    }

    /// The name of the slider `id`, at the left of the row `row`.
    pub open spec fn slider_name(rect: Rectangle, context: ContextView, row: int, id: SliderId) -> NodeView {
        let m = Measures::of(context);
        let min_y = rect.min.y + row * m.row;
        NodeView {
            rect: Rectangle::at(
                rect.min.x + m.padding,
                min_y,
                rect.min.x + 2 * m.padding + m.slider_label,
                min_y + m.row,
            ),
            children: Seq::empty(),
            widget: Widget::Label { text: id.label_spec(), align: Align::Right((m.padding / 2) as i32) },
        }
    }

    /// The value at which the slider `id` stands when the window opens.
    pub open spec fn opening_value(context: ContextView, id: SliderId) -> u8 {
        match id {
            SliderId::LightIntensity => context.frontlight.intensity,
            SliderId::LightWarmth => context.frontlight.warmth,
        }
    }

    /// The slider `id` in the row `row`, right of its name.
    pub open spec fn named_slider(rect: Rectangle, context: ContextView, row: int, id: SliderId) -> NodeView {
        let m = Measures::of(context);
        let min_y = rect.min.y + row * m.row;
        NodeView {
            rect: Rectangle::at(
                rect.min.x + m.slider_label + 3 * m.padding,
                min_y,
                rect.max.x - m.padding,
                min_y + m.row,
            ),
            children: Seq::empty(),
            widget: Widget::Slider {
                slider: id,
                value: FrontlightWindow::opening_value(context, id),
                active: false,
            },
        }
    }

    /// The slider of the intensity, alone in the second row.
    pub open spec fn lone_slider(rect: Rectangle, context: ContextView) -> NodeView {
        let m = Measures::of(context);
        let min_y = rect.min.y + m.row;
        NodeView {
            rect: Rectangle::at(
                rect.min.x + m.padding,
                min_y,
                rect.max.x - m.padding,
                min_y + m.row,
            ),
            children: Seq::empty(),
            widget: Widget::Slider {
                slider: SliderId::LightIntensity,
                value: context.frontlight.intensity,
                active: false,
            },
        }
    }

    /// The ordinate of the row of buttons.
    pub open spec fn button_y(rect: Rectangle, context: ContextView) -> int {
        let m = Measures::of(context);
        rect.min.y + 2 * m.row + (if context.device.natural_light {
            m.row
        } else {
            0
        })
    }

    /// The button that saves the levels as a preset, at the left.
    pub open spec fn save_button(rect: Rectangle, context: ContextView) -> NodeView {
        let m = Measures::of(context);
        let button_y = FrontlightWindow::button_y(rect, context);
        NodeView {
            rect: Rectangle::at(
                rect.min.x + 3 * m.padding,
                button_y + m.row - m.button,
                rect.min.x + 5 * m.padding + m.button_label,
                button_y + m.row,
            ),
            children: Seq::empty(),
            widget: Widget::Button {
                event: Event::Save,
                text: "Save"@,
                active: false,
                disabled: false,
            },
        }
    }

    /// The button that guesses the levels, at the right. It is disabled
    /// while there are fewer than two presets to judge by.
    pub open spec fn guess_button(rect: Rectangle, context: ContextView) -> NodeView {
        let m = Measures::of(context);
        let button_y = FrontlightWindow::button_y(rect, context);
        NodeView {
            rect: Rectangle::at(
                rect.max.x - 5 * m.padding - m.button_label,
                button_y + m.row - m.button,
                rect.max.x - 3 * m.padding,
                button_y + m.row,
            ),
            children: Seq::empty(),
            widget: Widget::Button {
                event: Event::Guess,
                text: "Guess"@,
                active: false,
                disabled: context.settings.frontlight_presets.len() < 2,
            },
        }
    }

    /// The corners of the row of presets in a window that occupies `rect`:
    /// the last row, within the border and the margins.
    pub open spec fn presets_corners(rect: Rectangle, context: ContextView) -> (int, int, int, int) {
        let m = Measures::of(context);
        (
            rect.min.x + m.thickness + 4 * m.padding,
            rect.max.y - m.row - 2 * m.padding,
            rect.max.x - m.thickness - 4 * m.padding,
            rect.max.y - m.thickness - 2 * m.padding,
        )
    }

    /// The row of presets in a window that occupies `rect`.
    pub open spec fn presets_list(rect: Rectangle, context: ContextView) -> NodeView {
        let c = FrontlightWindow::presets_corners(rect, context);
        let list_rect = Rectangle::at(c.0, c.1, c.2, c.3);
        NodeView {
            rect: list_rect,
            children: preset_cells(list_rect, context.settings.frontlight_presets),
            widget: Widget::PresetsList,
        }
    }

    /// The sliders, with their names where there are two of them.
    pub open spec fn sliders(rect: Rectangle, context: ContextView) -> Seq<NodeView> {
        if context.device.natural_light {
            seq![
                FrontlightWindow::slider_name(rect, context, 1, SliderId::LightIntensity),
                FrontlightWindow::named_slider(rect, context, 1, SliderId::LightIntensity),
                FrontlightWindow::slider_name(rect, context, 2, SliderId::LightWarmth),
                FrontlightWindow::named_slider(rect, context, 2, SliderId::LightWarmth),
            ]
        } else {
            seq![FrontlightWindow::lone_slider(rect, context)]
        }
    }

    /// The window as it opens: the icon that closes it, the title, the
    /// sliders, the two buttons and, where there are presets, their row.
    pub open spec fn layout(context: ContextView) -> NodeView {
        let rect = FrontlightWindow::window_rect(context);
        NodeView {
            rect,
            children: seq![
                FrontlightWindow::close_icon(rect, context),
                FrontlightWindow::title(rect, context),
            ] + FrontlightWindow::sliders(rect, context) + seq![
                FrontlightWindow::save_button(rect, context),
                FrontlightWindow::guess_button(rect, context),
            ] + (if context.settings.frontlight_presets.len() > 0 {
                seq![FrontlightWindow::presets_list(rect, context)]
            } else {
                Seq::empty()
            }),
            widget: Widget::FrontlightWindow,
        }
    }

    /// Whether the corners of `rect` lie within half a million pixels of
    /// the origin, as those of a window laid out on a screen do.
    pub open spec fn near(rect: Rectangle) -> bool {
        &&& -0x8_0000 <= rect.min.x <= 0x8_0000
        &&& -0x8_0000 <= rect.min.y <= 0x8_0000
        &&& -0x8_0000 <= rect.max.x <= 0x8_0000
        &&& -0x8_0000 <= rect.max.y <= 0x8_0000
    }

    fn make_rect(context: &Context) -> (rect: Rectangle)
        ensures
            rect == FrontlightWindow::window_rect(context@),
            FrontlightWindow::near(rect),
    {
        let width = context.device.width as i32;
        let height = context.device.height as i32;
        let small_height = context.device.small_height as i32;
        let padding = context.fonts.em as i32;
        let window_width = width - 2 * padding;
        let mut window_height = small_height * 3 + 2 * padding;
        if context.device.has_natural_light() {
            window_height += small_height;
        }
        if context.settings.frontlight_presets.len() > 0 {
            window_height += small_height;
        }
        let dx = (width - window_width) / 2;
        let dy = (height - window_height) / 3;
        Rectangle::from_coords(dx, dy, dx + window_width, dy + window_height)
    }

    fn make_close_icon(rect: &Rectangle, context: &Context) -> (icon: Icon)
        requires
            FrontlightWindow::near(*rect),
        ensures
            icon@ == FrontlightWindow::close_icon(*rect, context@),
    {
        let dpi = context.device.dpi;
        let small_height = context.device.small_height as i32;
        let thickness = scale_by_dpi(THICKNESS_LARGE, dpi);
        let border_radius = scale_by_dpi(BORDER_RADIUS_MEDIUM, dpi);
        Icon::new(
            "close",
            Rectangle::from_coords(
                rect.max.x - small_height,
                rect.min.y + thickness,
                rect.max.x - thickness,
                rect.min.y + small_height,
            ),
            Event::Close(ViewId::Frontlight),
        ).corners(Some(CornerSpec::Uniform(border_radius - thickness)))
    }

    fn make_title(rect: &Rectangle, context: &Context) -> (label: Label)
        requires
            FrontlightWindow::near(*rect),
        ensures
            label@ == FrontlightWindow::title(*rect, context@),
    {
        let small_height = context.device.small_height as i32;
        let thickness = scale_by_dpi(THICKNESS_LARGE, context.device.dpi);
        Label::new(
            Rectangle::from_coords(
                rect.min.x + small_height,
                rect.min.y + thickness,
                rect.max.x - small_height,
                rect.min.y + small_height,
            ),
            "Frontlight".to_owned(),
            Align::Center,
        )
    }

    fn make_slider_name(rect: &Rectangle, context: &Context, row: u8, id: SliderId) -> (label: Label)
        requires
            FrontlightWindow::near(*rect),
            row <= 2,
        ensures
            label@ == FrontlightWindow::slider_name(*rect, context@, row as int, id),
    {
        let small_height = context.device.small_height as i32;
        let padding = context.fonts.em as i32;
        let max_label_width = context.fonts.slider_label_width as i32;
        assert(0 <= row * small_height <= 2 * 0xFFFF) by (nonlinear_arith)
            requires
                0 <= row <= 2,
                0 <= small_height <= 0xFFFF,
        ;
        let min_y = rect.min.y + (row as i32) * small_height;
        Label::new(
            Rectangle::from_coords(
                rect.min.x + padding,
                min_y,
                rect.min.x + 2 * padding + max_label_width,
                min_y + small_height,
            ),
            id.label(),
            Align::Right(padding / 2),
        )
    }

    fn make_named_slider(rect: &Rectangle, context: &Context, row: u8, id: SliderId) -> (slider:
        Slider)
        requires
            FrontlightWindow::near(*rect),
            row <= 2,
        ensures
            slider@ == FrontlightWindow::named_slider(*rect, context@, row as int, id),
    {
        let small_height = context.device.small_height as i32;
        let padding = context.fonts.em as i32;
        let max_label_width = context.fonts.slider_label_width as i32;
        assert(0 <= row * small_height <= 2 * 0xFFFF) by (nonlinear_arith)
            requires
                0 <= row <= 2,
                0 <= small_height <= 0xFFFF,
        ;
        let min_y = rect.min.y + (row as i32) * small_height;
        let levels = context.frontlight.levels();
        let value = if id == SliderId::LightIntensity {
            levels.intensity
        } else {
            levels.warmth
        };
        Slider::new(
            Rectangle::from_coords(
                rect.min.x + max_label_width + 3 * padding,
                min_y,
                rect.max.x - padding,
                min_y + small_height,
            ),
            id,
            value,
        )
    }

    fn make_lone_slider(rect: &Rectangle, context: &Context) -> (slider: Slider)
        requires
            FrontlightWindow::near(*rect),
        ensures
            slider@ == FrontlightWindow::lone_slider(*rect, context@),
    {
        let small_height = context.device.small_height as i32;
        let padding = context.fonts.em as i32;
        let min_y = rect.min.y + small_height;
        Slider::new(
            Rectangle::from_coords(
                rect.min.x + padding,
                min_y,
                rect.max.x - padding,
                min_y + small_height,
            ),
            SliderId::LightIntensity,
            context.frontlight.levels().intensity,
        )
    }

    fn make_button_y(rect: &Rectangle, context: &Context) -> (y: i32)
        requires
            FrontlightWindow::near(*rect),
        ensures
            y == FrontlightWindow::button_y(*rect, context@),
            -0x10_0000 <= y <= 0x10_0000,
    {
        let small_height = context.device.small_height as i32;
        let mut button_y = rect.min.y + 2 * small_height;
        if context.device.has_natural_light() {
            button_y += small_height;
        }
        button_y
    }

    fn make_save_button(rect: &Rectangle, context: &Context) -> (button: Button)
        requires
            FrontlightWindow::near(*rect),
        ensures
            button@ == FrontlightWindow::save_button(*rect, context@),
    {
        let small_height = context.device.small_height as i32;
        let padding = context.fonts.em as i32;
        let max_label_width = context.fonts.button_label_width as i32;
        let button_height = 4 * (context.fonts.x_height as i32);
        let button_y = FrontlightWindow::make_button_y(rect, context);
        Button::new(
            Rectangle::from_coords(
                rect.min.x + 3 * padding,
                button_y + small_height - button_height,
                rect.min.x + 5 * padding + max_label_width,
                button_y + small_height,
            ),
            Event::Save,
            "Save".to_owned(),
        )
    }

    fn make_guess_button(rect: &Rectangle, context: &Context) -> (button: Button)
        requires
            FrontlightWindow::near(*rect),
        ensures
            button@ == FrontlightWindow::guess_button(*rect, context@),
    {
        let small_height = context.device.small_height as i32;
        let padding = context.fonts.em as i32;
        let max_label_width = context.fonts.button_label_width as i32;
        let button_height = 4 * (context.fonts.x_height as i32);
        let button_y = FrontlightWindow::make_button_y(rect, context);
        Button::new(
            Rectangle::from_coords(
                rect.max.x - 5 * padding - max_label_width,
                button_y + small_height - button_height,
                rect.max.x - 3 * padding,
                button_y + small_height,
            ),
            Event::Guess,
            "Guess".to_owned(),
        ).disabled(context.settings.frontlight_presets.len() < 2)
    }

    /// Whether the row of presets has a place in a window that occupies
    /// `rect`: its corners are points.
    pub open spec fn has_room(rect: Rectangle, context: ContextView) -> bool {
        let c = FrontlightWindow::presets_corners(rect, context);
        fits_i32(c.0) && fits_i32(c.1) && fits_i32(c.2) && fits_i32(c.3)
    }

    /// Makes the row of presets for a window that occupies `rect`, where it
    /// has a place there.
    fn make_presets_list(rect: &Rectangle, context: &Context) -> (list: Option<PresetsList>)
        ensures
            list is Some == FrontlightWindow::has_room(*rect, context@),
            list matches Some(l) ==> l@ == FrontlightWindow::presets_list(*rect, context@),
    {
        let small_height = context.device.small_height as i64;
        let padding = context.fonts.em as i64;
        let thickness = scale_by_dpi(THICKNESS_LARGE, context.device.dpi) as i64;
        let x0: i64 = rect.min.x as i64 + thickness + 4 * padding;
        let y0: i64 = rect.max.y as i64 - small_height - 2 * padding;
        let x1: i64 = rect.max.x as i64 - thickness - 4 * padding;
        let y1: i64 = rect.max.y as i64 - thickness - 2 * padding;
        if x0 > i32::MAX as i64 || y0 < i32::MIN as i64 || x1 < i32::MIN as i64 || y1 < i32::MIN as i64 {
            return None;
        }
        let presets_rect = Rectangle::from_coords(x0 as i32, y0 as i32, x1 as i32, y1 as i32);
        let mut presets_list = PresetsList::new(presets_rect);
        let mut unheard = Hub { queue: VecDeque::new(), listening: false };
        presets_list.update(&context.settings.frontlight_presets, &mut unheard, &context.fonts);
        Some(presets_list)
    }

    /// Lays the window out for the device, the fonts, the levels of the
    /// frontlight and the presets of `context`.
    pub fn new(context: &mut Context) -> (window: FrontlightWindow)
        ensures
            window@ == FrontlightWindow::layout(old(context)@),
            *final(context) == *old(context),
    {
        let mut children: Vec<Node> = Vec::new();
        let ghost ctx = context@;
        let rect = FrontlightWindow::make_rect(context);

        let close_icon = FrontlightWindow::make_close_icon(&rect, context);
        children.push(Node::Icon(close_icon));
        let label = FrontlightWindow::make_title(&rect, context);
        children.push(Node::Label(label));
        let ghost top = views(children@);
        assert(top =~= seq![
            FrontlightWindow::close_icon(rect, ctx),
            FrontlightWindow::title(rect, ctx),
        ]);

        if context.device.has_natural_light() {
            let ids = [SliderId::LightIntensity, SliderId::LightWarmth];
            let mut index: u8 = 0;
            while index < 2
                invariant
                    0 <= index <= 2,
                    ids@ == seq![SliderId::LightIntensity, SliderId::LightWarmth],
                    ctx == context@,
                    *context == *old(context),
                    FrontlightWindow::near(rect),
                    ctx.device.natural_light,
                    views(children@) == top + FrontlightWindow::sliders(rect, ctx).take(
                        2 * index,
                    ),
                decreases 2 - index,
            {
                let slider_id = ids[index as usize];
                let ghost before = views(children@);
                let label = FrontlightWindow::make_slider_name(&rect, context, index + 1, slider_id);
                children.push(Node::Label(label));
                let slider = FrontlightWindow::make_named_slider(
                    &rect,
                    context,
                    index + 1,
                    slider_id,
                );
                children.push(Node::Slider(slider));
                proof {
                    let after = views(children@);
                    assert(after =~= before.push(label@).push(slider@));
                    assert(after =~= top + FrontlightWindow::sliders(rect, ctx).take(
                        2 * (index + 1),
                    ));
                }
                index += 1;
            }
            proof {
                assert(FrontlightWindow::sliders(rect, ctx).take(4) =~= FrontlightWindow::sliders(
                    rect,
                    ctx,
                ));
            }
        } else {
            let slider = FrontlightWindow::make_lone_slider(&rect, context);
            children.push(Node::Slider(slider));
            assert(views(children@) =~= top + FrontlightWindow::sliders(rect, ctx));
        }
        let ghost upper = views(children@);

        let button_save = FrontlightWindow::make_save_button(&rect, context);
        children.push(Node::Button(button_save));
        let button_guess = FrontlightWindow::make_guess_button(&rect, context);
        children.push(Node::Button(button_guess));
        let ghost middle = views(children@);
        assert(middle =~= upper + seq![
            FrontlightWindow::save_button(rect, ctx),
            FrontlightWindow::guess_button(rect, ctx),
        ]);

        if context.settings.frontlight_presets.len() > 0 {
            proof {
                crate::unit::lemma_scaled_bounds(THICKNESS_LARGE, ctx.device.dpi);
            }
            let made = FrontlightWindow::make_presets_list(&rect, context);
            assert(FrontlightWindow::has_room(rect, ctx));
            if let Some(presets_list) = made {
                children.push(Node::PresetsList(presets_list));
                assert(views(children@) =~= middle + seq![
                    FrontlightWindow::presets_list(rect, ctx),
                ]);
            }
        } else {
            assert(views(children@) =~= middle + Seq::<NodeView>::empty());
        }

        let window = FrontlightWindow { rect, children };
        proof {
            lemma_view(Node::FrontlightWindow(window));
        }
        window
    }

    /// The displacement of what stands below the row of presets when the
    /// row leaves the window: a row upwards.
    pub open spec fn row_up(context: ContextView) -> Point {
        Point { x: 0, y: (-context.device.small_height) as i32 }
    }

    /// `rect` with its lower edge moved by `rows` rows.
    pub open spec fn stretched(rect: Rectangle, context: ContextView, rows: int) -> Rectangle {
        Rectangle {
            min: rect.min,
            max: Point { x: rect.max.x, y: (rect.max.y + rows * context.device.small_height) as i32 },
        }
    }

    /// Whether the row of presets can join the window: the window has none,
    /// the window can grow by a row, and the row of presets has a place in
    /// the grown window.
    pub open spec fn can_show_presets(node: NodeView, context: ContextView) -> bool {
        &&& node.locate(Kind::PresetsList) is None
        &&& fits_i32(node.rect.max.y + context.device.small_height)
        &&& FrontlightWindow::has_room(FrontlightWindow::stretched(node.rect, context, 1), context)
    }

    /// The window with the row of presets: grown by a row at its lower edge,
    /// and the row of presets its last child. The row joins below every
    /// other child, so that each of them keeps its rectangle.
    pub open spec fn with_presets(node: NodeView, context: ContextView) -> NodeView {
        let rect = FrontlightWindow::stretched(node.rect, context, 1);
        NodeView {
            rect,
            children: node.children.push(FrontlightWindow::presets_list(rect, context)),
            widget: node.widget,
        }
    }

    /// Whether the row of presets can leave the window: the window has one,
    /// the window can shrink by a row, and every child that stands after the
    /// row can be moved up by a row.
    pub open spec fn can_hide_presets(node: NodeView, context: ContextView) -> bool {
        &&& node.locate(Kind::PresetsList) matches Some(index)
        &&& fits_i32(node.rect.max.y - context.device.small_height)
        &&& can_shift_from(
            node.children.remove(index as int),
            index as int,
            FrontlightWindow::row_up(context),
        )
    }

    /// The window without the row of presets: shrunk by a row at its lower
    /// edge, and every child that stood after the row moved up by a row.
    pub open spec fn without_presets(node: NodeView, context: ContextView) -> NodeView {
        let index = node.locate(Kind::PresetsList).unwrap();
        NodeView {
            rect: FrontlightWindow::stretched(node.rect, context, -1),
            children: shifted_from(
                node.children.remove(index as int),
                index as int,
                FrontlightWindow::row_up(context),
            ),
            widget: node.widget,
        }
    }

    /// The window after the row of presets was asked to join it or to leave
    /// it, and what was sent on the hub: where the row can do so, a request
    /// to erase what the window covered and a request to paint the rectangle
    /// of the window as it is now, in that order; else nothing changes and
    /// nothing is sent.
    pub open spec fn toggled(node: NodeView, enable: bool, context: ContextView) -> (
        NodeView,
        Seq<Event>,
    ) {
        if enable && FrontlightWindow::can_show_presets(node, context) {
            let shown = FrontlightWindow::with_presets(node, context);
            (shown, seq![Event::Expose(node.bounds()), Event::Render(shown.rect, UpdateMode::Gui)])
        } else if !enable && FrontlightWindow::can_hide_presets(node, context) {
            let hidden = FrontlightWindow::without_presets(node, context);
            (
                hidden,
                seq![Event::Expose(node.bounds()), Event::Render(hidden.rect, UpdateMode::Gui)],
            )
        } else {
            (node, Seq::empty())
        }
    }

    /// The children among which the slider `id` is looked for.
    pub open spec fn is_slider(id: SliderId) -> spec_fn(NodeView) -> bool {
        |c: NodeView| c.widget is Slider && c.widget->Slider_slider == id
    }

    /// The children among which the button that guesses is looked for.
    pub open spec fn is_guess() -> spec_fn(NodeView) -> bool {
        |c: NodeView| c.widget is Button && c.widget->Button_event == Event::Guess
    }

    /// The window after the first slider `id` among its children, if there
    /// is one, was set to `value`, and the request to paint that slider.
    pub open spec fn slider_set(node: NodeView, id: SliderId, value: u8) -> (NodeView, Seq<Event>) {
        match first_match(node.children, FrontlightWindow::is_slider(id)) {
            Some(index) => {
                let child = node.children[index as int];
                let set = NodeView {
                    widget: Widget::Slider {
                        slider: id,
                        value,
                        active: child.widget->Slider_active,
                    },
                    ..child
                };
                (
                    NodeView { children: node.children.update(index as int, set), ..node },
                    seq![Event::Render(child.rect, UpdateMode::Gui)],
                )
            },
            None => (node, Seq::empty()),
        }
    }

    /// The window after the first button that guesses among its children, if
    /// there is one, was disabled or enabled, and the request to paint that
    /// button.
    pub open spec fn guess_set(node: NodeView, disabled: bool) -> (NodeView, Seq<Event>) {
        match first_match(node.children, FrontlightWindow::is_guess()) {
            Some(index) => {
                let child = node.children[index as int];
                let set = NodeView {
                    widget: Widget::Button {
                        event: Event::Guess,
                        text: child.widget->Button_text,
                        active: child.widget->Button_active,
                        disabled,
                    },
                    ..child
                };
                (
                    NodeView { children: node.children.update(index as int, set), ..node },
                    seq![Event::Render(child.rect, UpdateMode::Gui)],
                )
            },
            None => (node, Seq::empty()),
        }
    }

    /// The window after its row of presets, if it has one, was filled anew
    /// from `presets`, and the request to paint that row.
    pub open spec fn presets_updated(node: NodeView, presets: Seq<LightPreset>) -> (
        NodeView,
        Seq<Event>,
    ) {
        match node.locate(Kind::PresetsList) {
            Some(index) => {
                let child = node.children[index as int];
                let filled = NodeView { children: preset_cells(child.rect, presets), ..child };
                (
                    NodeView { children: node.children.update(index as int, filled), ..node },
                    seq![Event::Render(child.rect, UpdateMode::Gui)],
                )
            },
            None => (node, Seq::empty()),
        }
    }

    /// The window and the context after the frontlight was set to `levels`,
    /// taken as percentages, and the requests to paint the sliders that show
    /// them: the slider of the intensity and, where the warmth can be set,
    /// that of the warmth.
    pub open spec fn levels_set(node: NodeView, levels: LightLevels, context: ContextView) -> (
        NodeView,
        ContextView,
        Seq<Event>,
    ) {
        let lit = context.with_intensity(levels.intensity).with_warmth(levels.warmth);
        let first = FrontlightWindow::slider_set(
            node,
            SliderId::LightIntensity,
            percent(levels.intensity),
        );
        if context.device.natural_light {
            let second = FrontlightWindow::slider_set(
                first.0,
                SliderId::LightWarmth,
                percent(levels.warmth),
            );
            (second.0, lit, first.1 + second.1)
        } else {
            (first.0, lit, first.1)
        }
    }

    fn locate_slider(children: &Vec<Node>, id: SliderId) -> (found: Option<usize>)
        ensures
            found == first_match(views(children@), FrontlightWindow::is_slider(id)),
            found matches Some(index) ==> index < children@.len() && children@[index as int] is Slider,
    {
        let ghost pred = FrontlightWindow::is_slider(id);
        let mut index: usize = 0;
        while index < children.len()
            invariant
                0 <= index <= children.len(),
                pred == FrontlightWindow::is_slider(id),
                forall|j: int| 0 <= j < index ==> !pred(views(children@)[j]),
            decreases children.len() - index,
        {
            proof {
                lemma_view(children@[index as int]);
            }
            let hit = match children[index].as_slider() {
                Some(slider) => slider.id == id,
                None => false,
            };
            if hit {
                proof {
                    lemma_first_match(views(children@), pred, index as int);
                }
                return Some(index);
            }
            index += 1;
        }
        proof {
            lemma_first_match(views(children@), pred, index as int);
        }
        None
    }

    fn locate_guess(children: &Vec<Node>) -> (found: Option<usize>)
        ensures
            found == first_match(views(children@), FrontlightWindow::is_guess()),
            found matches Some(index) ==> index < children@.len() && children@[index as int] is Button,
    {
        let ghost pred = FrontlightWindow::is_guess();
        let mut index: usize = 0;
        while index < children.len()
            invariant
                0 <= index <= children.len(),
                pred == FrontlightWindow::is_guess(),
                forall|j: int| 0 <= j < index ==> !pred(views(children@)[j]),
            decreases children.len() - index,
        {
            proof {
                lemma_view(children@[index as int]);
            }
            let hit = match children[index].as_button() {
                Some(button) => button.event == Event::Guess,
                None => false,
            };
            if hit {
                proof {
                    lemma_first_match(views(children@), pred, index as int);
                }
                return Some(index);
            }
            index += 1;
        }
        proof {
            lemma_first_match(views(children@), pred, index as int);
        }
        None
    }

    fn set_slider(&mut self, id: SliderId, value: u8, hub: &mut Hub)
        ensures
            final(self)@ == FrontlightWindow::slider_set(old(self)@, id, value).0,
            final(hub)@ == old(hub)@.sent(FrontlightWindow::slider_set(old(self)@, id, value).1),
    {
        proof {
            lemma_view(Node::FrontlightWindow(*old(self)));
            assert(hub@.queue + Seq::<Event>::empty() =~= hub@.queue);
        }
        if let Some(index) = FrontlightWindow::locate_slider(&self.children, id) {
            proof {
                lemma_first_match_found(old(self)@.children, FrontlightWindow::is_slider(id));
            }
            let node = self.children.remove(index);
            let rect = *node.rect();
            let set = slider_with_value(node, value);
            self.children.insert(index, set);
            hub.send(Event::Render(rect, UpdateMode::Gui));
            proof {
                lemma_view(Node::FrontlightWindow(*self));
                assert(views(self.children@) =~= views(old(self).children@).update(
                    index as int,
                    set@,
                ));
            }
        }
    }

    fn set_guess_disabled(&mut self, disabled: bool, hub: &mut Hub)
        ensures
            final(self)@ == FrontlightWindow::guess_set(old(self)@, disabled).0,
            final(hub)@ == old(hub)@.sent(FrontlightWindow::guess_set(old(self)@, disabled).1),
    {
        proof {
            lemma_view(Node::FrontlightWindow(*old(self)));
            assert(hub@.queue + Seq::<Event>::empty() =~= hub@.queue);
        }
        if let Some(index) = FrontlightWindow::locate_guess(&self.children) {
            proof {
                lemma_first_match_found(old(self)@.children, FrontlightWindow::is_guess());
            }
            let node = self.children.remove(index);
            let rect = *node.rect();
            let set = button_with_disabled(node, disabled);
            self.children.insert(index, set);
            hub.send(Event::Render(rect, UpdateMode::Gui));
            proof {
                lemma_view(Node::FrontlightWindow(*self));
                assert(views(self.children@) =~= views(old(self).children@).update(
                    index as int,
                    set@,
                ));
            }
        }
    }

    /// Sets the frontlight to `frontlight_levels` and moves the sliders of
    /// the window to them.
    pub fn set_frontlight_levels(
        &mut self,
        frontlight_levels: &LightLevels,
        hub: &mut Hub,
        context: &mut Context,
    )
        ensures
            final(self)@ == FrontlightWindow::levels_set(
                old(self)@,
                *frontlight_levels,
                old(context)@,
            ).0,
            final(context)@ == FrontlightWindow::levels_set(
                old(self)@,
                *frontlight_levels,
                old(context)@,
            ).1,
            final(hub)@ == old(hub)@.sent(
                FrontlightWindow::levels_set(old(self)@, *frontlight_levels, old(context)@).2,
            ),
    {
        let LightLevels { intensity, warmth } = *frontlight_levels;
        context.frontlight.set_intensity(intensity);
        context.frontlight.set_warmth(warmth);
        let LightLevels { intensity, warmth } = context.frontlight.levels();
        self.set_slider(SliderId::LightIntensity, intensity, hub);
        if context.device.has_natural_light() {
            let ghost first = FrontlightWindow::slider_set(
                old(self)@,
                SliderId::LightIntensity,
                intensity,
            );
            self.set_slider(SliderId::LightWarmth, warmth, hub);
            proof {
                let second = FrontlightWindow::slider_set(first.0, SliderId::LightWarmth, warmth);
                crate::view::event::lemma_sent_sent(old(hub)@, first.1, second.1);
            }
        }
    }

    /// Fills the row of presets, if the window has one, from the presets of
    /// `context`.
    pub fn update_presets(&mut self, hub: &mut Hub, context: &mut Context)
        ensures
            final(self)@ == FrontlightWindow::presets_updated(
                old(self)@,
                old(context)@.settings.frontlight_presets,
            ).0,
            final(hub)@ == old(hub)@.sent(
                FrontlightWindow::presets_updated(
                    old(self)@,
                    old(context)@.settings.frontlight_presets,
                ).1,
            ),
            *final(context) == *old(context),
    {
        proof {
            lemma_view(Node::FrontlightWindow(*old(self)));
            assert(hub@.queue + Seq::<Event>::empty() =~= hub@.queue);
        }
        if let Some(index) = locate_in(&self.children, Kind::PresetsList) {
            proof {
                lemma_view(old(self).children@[index as int]);
            }
            let mut node = self.children.remove(index);
            if let Node::PresetsList(presets_list) = &mut node {
                presets_list.update(&context.settings.frontlight_presets, hub, &context.fonts);
            }
            proof {
                lemma_view(node);
            }
            self.children.insert(index, node);
            proof {
                lemma_view(Node::FrontlightWindow(*self));
                assert(self@.children =~= FrontlightWindow::presets_updated(
                    old(self)@,
                    old(context)@.settings.frontlight_presets,
                ).0.children);
            }
        }
    }

    /// Lets the row of presets join the window (`enable`) or leave it.
    pub fn toggle_presets(&mut self, enable: bool, hub: &mut Hub, context: &mut Context)
        ensures
            final(self)@ == FrontlightWindow::toggled(old(self)@, enable, old(context)@).0,
            final(hub)@ == old(hub)@.sent(
                FrontlightWindow::toggled(old(self)@, enable, old(context)@).1,
            ),
            *final(context) == *old(context),
    {
        if enable {
            self.show_presets(hub, context);
        } else {
            self.hide_presets(hub, context);
        }
    }

    /// Lets the row of presets join the window, and tells whether it did.
    fn show_presets(&mut self, hub: &mut Hub, context: &Context) -> (shown: bool)
        ensures
            shown == FrontlightWindow::can_show_presets(old(self)@, context@),
            final(self)@ == FrontlightWindow::toggled(old(self)@, true, context@).0,
            final(hub)@ == old(hub)@.sent(FrontlightWindow::toggled(old(self)@, true, context@).1),
            !shown ==> final(self)@ == old(self)@ && final(hub)@ == old(hub)@,
    {
        proof {
            lemma_view(Node::FrontlightWindow(*old(self)));
            lemma_bounds(old(self)@);
            assert(hub@.queue + Seq::<Event>::empty() =~= hub@.queue);
        }
        let small_height = context.device.small_height as i32;
        if locate_in(&self.children, Kind::PresetsList).is_some() {
            return false;
        }
        let max_y = match self.rect.max.y.checked_add(small_height) {
            Some(max_y) => max_y,
            None => {
                return false;
            },
        };
        let mut rect = self.rect;
        rect.max.y = max_y;
        assert(rect == FrontlightWindow::stretched(old(self).rect, context@, 1));
        let presets_list = match FrontlightWindow::make_presets_list(&rect, context) {
            Some(list) => list,
            None => {
                return false;
            },
        };
        let exposed = covering_rectangle(self.rect, &self.children);
        self.rect = rect;
        self.children.push(Node::PresetsList(presets_list));
        hub.send(Event::Expose(exposed));
        hub.send(Event::Render(self.rect, UpdateMode::Gui));
        proof {
            lemma_view(Node::FrontlightWindow(*self));
            assert(views(self.children@) =~= views(old(self).children@).push(presets_list@));
            assert(old(hub)@.queue + seq![Event::Expose(exposed)] + seq![
                Event::Render(self.rect, UpdateMode::Gui),
            ] =~= old(hub)@.queue + seq![
                Event::Expose(exposed),
                Event::Render(self.rect, UpdateMode::Gui),
            ]);
        }
        true
    }

    /// Lets the row of presets leave the window, and tells whether it did.
    fn hide_presets(&mut self, hub: &mut Hub, context: &Context) -> (hidden: bool)
        ensures
            hidden == FrontlightWindow::can_hide_presets(old(self)@, context@),
            final(self)@ == FrontlightWindow::toggled(old(self)@, false, context@).0,
            final(hub)@ == old(hub)@.sent(FrontlightWindow::toggled(old(self)@, false, context@).1),
            !hidden ==> final(self)@ == old(self)@ && final(hub)@ == old(hub)@,
    {
        proof {
            lemma_view(Node::FrontlightWindow(*old(self)));
            lemma_bounds(old(self)@);
            assert(hub@.queue + Seq::<Event>::empty() =~= hub@.queue);
        }
        let small_height = context.device.small_height as i32;
        let delta = Point { x: 0, y: -small_height };
        assert(delta == FrontlightWindow::row_up(context@));
        let index = match locate_in(&self.children, Kind::PresetsList) {
            Some(index) => index,
            None => {
                return false;
            },
        };
        let max_y = match self.rect.max.y.checked_sub(small_height) {
            Some(max_y) => max_y,
            None => {
                return false;
            },
        };
        let exposed = covering_rectangle(self.rect, &self.children);
        if !remove_if_rest_shiftable(&mut self.children, index, &delta) {
            return false;
        }
        shift_children_from(&mut self.children, index, &delta);
        self.rect.max.y = max_y;
        hub.send(Event::Expose(exposed));
        hub.send(Event::Render(self.rect, UpdateMode::Gui));
        proof {
            lemma_view(Node::FrontlightWindow(*self));
            assert(old(hub)@.queue + seq![Event::Expose(exposed)] + seq![
                Event::Render(self.rect, UpdateMode::Gui),
            ] =~= old(hub)@.queue + seq![
                Event::Expose(exposed),
                Event::Render(self.rect, UpdateMode::Gui),
            ]);
        }
        true
    }

    /// The reading of the light sensor, where the device has one.
    pub open spec fn sensed(context: ContextView) -> Option<u16> {
        if context.device.lightsensor {
            context.lightsensor
        } else {
            None
        }
    }

    /// `context` with other presets.
    pub open spec fn keeping(context: ContextView, presets: Seq<LightPreset>) -> ContextView {
        ContextView {
            settings: SettingsView { frontlight_presets: presets, ..context.settings },
            ..context
        }
    }

    /// What the window does when the levels are to be saved.
    ///
    /// The levels of the frontlight become a preset, with the reading of the
    /// light sensor and the time, and the preset takes its place among the
    /// presets by its time. If it is the only preset, the row of presets
    /// joins the window, where it can. In every other case the row, if there
    /// is one, is filled anew; before that, if there are now two presets,
    /// the button that guesses is enabled.
    pub open spec fn saved(node: NodeView, context: ContextView) -> Reaction {
        let preset = LightPreset {
            lightsensor_level: FrontlightWindow::sensed(context),
            frontlight_levels: context.frontlight,
            timestamp: context.now,
        };
        let presets = by_timestamp(context.settings.frontlight_presets.push(preset));
        let kept = FrontlightWindow::keeping(context, presets);
        if presets.len() == 1 && FrontlightWindow::can_show_presets(node, kept) {
            let shown = FrontlightWindow::toggled(node, true, kept);
            Reaction::consumed(shown.0, kept, shown.1, Seq::empty())
        } else {
            let enabled = if presets.len() == 2 {
                FrontlightWindow::guess_set(node, false)
            } else {
                (node, Seq::empty())
            };
            let filled = FrontlightWindow::presets_updated(enabled.0, presets);
            Reaction::consumed(filled.0, kept, enabled.1 + filled.1, Seq::empty())
        }
    }

    /// What the window does when the preset at `index` is to be removed.
    ///
    /// Where there is no such preset, nothing changes. Else the preset
    /// leaves the presets. If none is left, the row of presets leaves the
    /// window, where it can. In every other case the row, if there is one,
    /// is filled anew, so that it never shows a preset that is gone; before
    /// that, if one preset is left, the button that guesses is disabled.
    pub open spec fn removed(node: NodeView, index: usize, context: ContextView) -> Reaction {
        let stored = context.settings.frontlight_presets;
        if index < stored.len() {
            let presets = stored.remove(index as int);
            let kept = FrontlightWindow::keeping(context, presets);
            if presets.len() == 0 && FrontlightWindow::can_hide_presets(node, kept) {
                let hidden = FrontlightWindow::toggled(node, false, kept);
                Reaction::consumed(hidden.0, kept, hidden.1, Seq::empty())
            } else {
                let disabled = if presets.len() == 1 {
                    FrontlightWindow::guess_set(node, true)
                } else {
                    (node, Seq::empty())
                };
                let filled = FrontlightWindow::presets_updated(disabled.0, presets);
                Reaction::consumed(filled.0, kept, disabled.1 + filled.1, Seq::empty())
            }
        } else {
            Reaction::consumed(node, context, Seq::empty(), Seq::empty())
        }
    }

    /// What the window does with `evt`.
    ///
    /// A slider that was let go sets the intensity or the warmth of the
    /// frontlight, as a percentage. A tap beside the window asks for the window to be closed;
    /// every gesture is consumed, so that none reaches what lies beneath.
    /// The requests to save, remove, load and guess do what their names say;
    /// a request to load a preset that is not there changes nothing.
    /// Whatever else happens passes.
    pub open spec fn reaction(node: NodeView, evt: Event, context: ContextView) -> Reaction {
        match evt {
            Event::Slider(SliderId::LightIntensity, value, FingerStatus::Up) => Reaction::consumed(
                node,
                context.with_intensity(value),
                Seq::empty(),
                Seq::empty(),
            ),
            Event::Slider(SliderId::LightWarmth, value, FingerStatus::Up) => Reaction::consumed(
                node,
                context.with_warmth(value),
                Seq::empty(),
                Seq::empty(),
            ),
            Event::Gesture(GestureEvent::Tap(center)) => Reaction::consumed(
                node,
                context,
                if node.rect.includes_spec(center) {
                    Seq::empty()
                } else {
                    seq![Event::Close(ViewId::Frontlight)]
                },
                Seq::empty(),
            ),
            Event::Gesture(_) => Reaction::consumed(node, context, Seq::empty(), Seq::empty()),
            Event::Save => FrontlightWindow::saved(node, context),
            Event::Select(EntryId::RemovePreset(index)) => FrontlightWindow::removed(
                node,
                index,
                context,
            ),
            Event::LoadPreset(index) => {
                if index < context.settings.frontlight_presets.len() {
                    let set = FrontlightWindow::levels_set(
                        node,
                        context.settings.frontlight_presets[index as int].frontlight_levels,
                        context,
                    );
                    Reaction::consumed(set.0, set.1, set.2, Seq::empty())
                } else {
                    Reaction::consumed(node, context, Seq::empty(), Seq::empty())
                }
            },
            Event::Guess => match guessed(
                FrontlightWindow::sensed(context),
                context.settings.frontlight_presets,
            ) {
                Some(levels) => {
                    let set = FrontlightWindow::levels_set(node, levels, context);
                    Reaction::consumed(set.0, set.1, set.2, Seq::empty())
                },
                None => Reaction::consumed(node, context, Seq::empty(), Seq::empty()),
            },
            _ => Reaction::declined(node, context),
        }
    }

    /// Reads the light sensor, where the device has one.
    fn read_lightsensor(context: &Context) -> (level: Option<u16>)
        ensures
            level == FrontlightWindow::sensed(context@),
    {
        if context.device.has_lightsensor() {
            context.lightsensor
        } else {
            None
        }
    }

    fn save(&mut self, hub: &mut Hub, context: &mut Context)
        ensures
            final(self)@ == FrontlightWindow::saved(old(self)@, old(context)@).node,
            final(context)@ == FrontlightWindow::saved(old(self)@, old(context)@).context,
            final(hub)@ == old(hub)@.sent(FrontlightWindow::saved(old(self)@, old(context)@).hub),
    {
        let lightsensor_level = FrontlightWindow::read_lightsensor(context);
        let light_preset = LightPreset {
            lightsensor_level,
            frontlight_levels: context.frontlight.levels(),
            timestamp: context.now,
        };
        context.settings.frontlight_presets.push(light_preset);
        sort_by_timestamp(&mut context.settings.frontlight_presets);
        let ghost presets = context@.settings.frontlight_presets;
        assert(context@ == FrontlightWindow::keeping(old(context)@, presets));
        if context.settings.frontlight_presets.len() == 1 && self.show_presets(hub, context) {
        } else {
            let ghost enabled = if presets.len() == 2 {
                FrontlightWindow::guess_set(old(self)@, false)
            } else {
                (old(self)@, Seq::<Event>::empty())
            };
            if context.settings.frontlight_presets.len() == 2 {
                self.set_guess_disabled(false, hub);
            }
            proof {
                lemma_sent_sent(old(hub)@, Seq::empty(), Seq::empty());
            }
            self.update_presets(hub, context);
            proof {
                let filled = FrontlightWindow::presets_updated(enabled.0, presets);
                lemma_sent_sent(old(hub)@, enabled.1, filled.1);
            }
        }
    }

    fn remove_preset(&mut self, index: usize, hub: &mut Hub, context: &mut Context)
        ensures
            final(self)@ == FrontlightWindow::removed(old(self)@, index, old(context)@).node,
            final(context)@ == FrontlightWindow::removed(old(self)@, index, old(context)@).context,
            final(hub)@ == old(hub)@.sent(
                FrontlightWindow::removed(old(self)@, index, old(context)@).hub,
            ),
    {
        proof {
            lemma_sent_sent(old(hub)@, Seq::empty(), Seq::empty());
        }
        if index < context.settings.frontlight_presets.len() {
            context.settings.frontlight_presets.remove(index);
            let ghost presets = context@.settings.frontlight_presets;
            assert(context@ == FrontlightWindow::keeping(old(context)@, presets));
            if context.settings.frontlight_presets.len() == 0 && self.hide_presets(hub, context) {
            } else {
                let ghost disabled = if presets.len() == 1 {
                    FrontlightWindow::guess_set(old(self)@, true)
                } else {
                    (old(self)@, Seq::<Event>::empty())
                };
                if context.settings.frontlight_presets.len() == 1 {
                    self.set_guess_disabled(true, hub);
                }
                self.update_presets(hub, context);
                proof {
                    let filled = FrontlightWindow::presets_updated(disabled.0, presets);
                    lemma_sent_sent(old(hub)@, disabled.1, filled.1);
                }
            }
        }
    }

    pub fn handle_event(
        &mut self,
        evt: &Event,
        hub: &mut Hub,
        _bus: &mut Bus,
        context: &mut Context,
    ) -> (consumed: bool)
        ensures
            FrontlightWindow::reaction(old(self)@, *evt, old(context)@).took_place(
                final(self)@,
                final(context)@,
                old(hub)@,
                final(hub)@,
                old(_bus)@,
                final(_bus)@,
                consumed,
            ),
    {
        proof {
            lemma_sent_sent(old(hub)@, Seq::empty(), Seq::empty());
            assert(_bus@ + Seq::<Event>::empty() =~= _bus@);
            lemma_view(Node::FrontlightWindow(*old(self)));
        }
        match *evt {
            Event::Slider(SliderId::LightIntensity, value, FingerStatus::Up) => {
                context.frontlight.set_intensity(value);
                true
            },
            Event::Slider(SliderId::LightWarmth, value, FingerStatus::Up) => {
                context.frontlight.set_warmth(value);
                true
            },
            Event::Gesture(GestureEvent::Tap(ref center)) => {
                if !self.rect.includes(center) {
                    hub.send(Event::Close(ViewId::Frontlight));
                }
                true
            },
            Event::Gesture(_) => true,
            Event::Save => {
                self.save(hub, context);
                true
            },
            Event::Select(EntryId::RemovePreset(index)) => {
                self.remove_preset(index, hub, context);
                true
            },
            Event::LoadPreset(index) => {
                if index < context.settings.frontlight_presets.len() {
                    let frontlight_levels =
                        context.settings.frontlight_presets[index].frontlight_levels;
                    self.set_frontlight_levels(&frontlight_levels, hub, context);
                }
                true
            },
            Event::Guess => {
                let lightsensor_level = FrontlightWindow::read_lightsensor(context);
                if let Some(ref frontlight_levels) = guess_frontlight(
                    lightsensor_level,
                    &context.settings.frontlight_presets,
                ) {
                    self.set_frontlight_levels(frontlight_levels, hub, context);
                }
                true
            },
            _ => false,
        }
    }

    /// What painting the window adds to the surface: a white ground with
    /// rounded corners and a black border.
    pub open spec fn paints(&self, context: ContextView) -> Seq<Paint> {
        seq![
            Paint::BorderedRectangle {
                rect: self.rect,
                corners: CornerSpec::Uniform(
                    scaled(BORDER_RADIUS_MEDIUM, context.device.dpi) as i32,
                ),
                border: BorderSpec {
                    thickness: scaled(THICKNESS_LARGE, context.device.dpi) as u16,
                    color: BLACK,
                },
                color: WHITE,
            },
        ]
    }

    /// Paints the ground of the window.
    pub fn render(&self, fb: &mut Framebuffer, context: &Context)
        ensures
            final(fb)@ == old(fb)@ + self.paints(context@),
    {
        let dpi = context.device.dpi;
        let border_radius = scale_by_dpi(BORDER_RADIUS_MEDIUM, dpi);
        let border_thickness = scale_by_dpi(THICKNESS_LARGE, dpi) as u16;
        fb.draw_rounded_rectangle_with_border(
            &self.rect,
            &CornerSpec::Uniform(border_radius),
            &BorderSpec { thickness: border_thickness, color: BLACK },
            WHITE,
        );
        assert(fb@ =~= old(fb)@ + self.paints(context@));
    }

    /// The window is painted as an opaque ground for its children.
    pub fn is_background(&self) -> (b: bool)
        ensures
            b,
    {
        true
    }

    pub fn rect(&self) -> (r: &Rectangle)
        ensures
            *r == self.rect,
    {
        &self.rect
    }

    pub fn rect_mut(&mut self) -> (r: &mut Rectangle)
        ensures
            *r == old(self).rect,
            *final(self) == (FrontlightWindow { rect: *final(r), ..*old(self) }),
    {
        &mut self.rect
    }

    pub fn children(&self) -> (c: &Vec<Node>)
        ensures
            *c == self.children,
    {
        &self.children
    }

    pub fn children_mut(&mut self) -> (c: &mut Vec<Node>)
        ensures
            *c == old(self).children,
            *final(self) == (FrontlightWindow { children: *final(c), ..*old(self) }),
    {
        &mut self.children
    }
}

/// Showing the row of presets and hiding it again restores the window: its
/// rectangle, and every node below it with its rectangle, are what they were.
pub proof fn lemma_toggle_restores(node: NodeView, context: ContextView)
    requires
        FrontlightWindow::can_show_presets(node, context),
        node.children.len() < usize::MAX,
    ensures
        FrontlightWindow::can_hide_presets(FrontlightWindow::with_presets(node, context), context),
        FrontlightWindow::toggled(
            FrontlightWindow::toggled(node, true, context).0,
            false,
            context,
        ).0 == node,
{
    let up = FrontlightWindow::row_up(context);
    let shown = FrontlightWindow::with_presets(node, context);
    let is_list = |c: NodeView| c.widget.kind() == Kind::PresetsList;
    let n = node.children.len() as int;
    lemma_first_match_found(node.children, is_list);
    assert forall|j: int| 0 <= j < n implies !is_list(#[trigger] shown.children[j]) by {
        assert(!is_list(node.children[j]));
    }
    lemma_first_match(shown.children, is_list, n);
    assert(shown.locate(Kind::PresetsList) == Some(n as usize));
    assert(shown.children.remove(n) =~= node.children);
    assert(shifted_from(node.children, n, up) =~= node.children);
}

/// When the row of presets joins the window, the lower edge of the window
/// moves down by a row, the other edges stay, and every child that the
/// window had keeps its place and its rectangle.
pub proof fn lemma_shown_row_grows_the_window(node: NodeView, context: ContextView)
    requires
        FrontlightWindow::can_show_presets(node, context),
    ensures
        ({
            let shown = FrontlightWindow::toggled(node, true, context).0;
            &&& shown.rect.min == node.rect.min
            &&& shown.rect.max.x == node.rect.max.x
            &&& shown.rect.max.y == node.rect.max.y + context.device.small_height
            &&& shown.children.len() == node.children.len() + 1
            &&& shown.children.take(node.children.len() as int) == node.children
            &&& shown.children.last() == FrontlightWindow::presets_list(shown.rect, context)
        }),
{
    let shown = FrontlightWindow::toggled(node, true, context).0;
    assert(shown.children.take(node.children.len() as int) =~= node.children);
}

/// When the row of presets leaves the window, the window shrinks by a row
/// at its lower edge, the children before the row keep their rectangles, and
/// two requests are sent: the first asks to erase a rectangle that covers
/// what the row covered, and is the rectangle that the window had where no
/// child reached beyond the window; the second asks to paint the rectangle
/// that the window has now, which does not cover the row where the row
/// reached below the new lower edge.
pub proof fn lemma_hidden_row_is_exposed(node: NodeView, context: ContextView)
    requires
        node.children.len() <= usize::MAX,
        FrontlightWindow::can_hide_presets(node, context),
    ensures
        ({
            let index = node.locate(Kind::PresetsList).unwrap() as int;
            let row = node.children[index];
            let hidden = FrontlightWindow::toggled(node, false, context).0;
            let sent = FrontlightWindow::toggled(node, false, context).1;
            &&& 0 <= index < node.children.len()
            &&& row.widget is PresetsList
            &&& hidden.rect.min == node.rect.min
            &&& hidden.rect.max.x == node.rect.max.x
            &&& hidden.rect.max.y == node.rect.max.y - context.device.small_height
            &&& hidden.children.len() == node.children.len() - 1
            &&& hidden.children.take(index) == node.children.take(index)
            &&& index == node.children.len() - 1 ==> hidden.children == node.children.drop_last()
            &&& sent == seq![
                Event::Expose(node.bounds()),
                Event::Render(hidden.rect, UpdateMode::Gui),
            ]
            &&& node.bounds().covers(row.bounds())
            &&& node.bounds().covers(row.rect)
            &&& (forall|i: int|
                0 <= i < node.children.len() ==> node.rect.covers(
                    (#[trigger] node.children[i]).bounds(),
                )) ==> node.bounds() == node.rect
            &&& row.rect.max.y > hidden.rect.max.y ==> !hidden.rect.covers(row.rect)
        }),
{
    lemma_first_match_found(node.children, |c: NodeView| c.widget.kind() == Kind::PresetsList);
    lemma_bounds_cover(node);
    let index = node.locate(Kind::PresetsList).unwrap() as int;
    let hidden = FrontlightWindow::toggled(node, false, context).0;
    assert(hidden.children.take(index) =~= node.children.take(index));
    if index == node.children.len() - 1 {
        assert(hidden.children =~= node.children.drop_last());
    }
    if forall|i: int|
        0 <= i < node.children.len() ==> node.rect.covers((#[trigger] node.children[i]).bounds()) {
        lemma_bounds_within(node);
    }
}

/// What removing the only preset does to the window: the event is consumed,
/// no preset is left, and the row of presets leaves the window once, as
/// `lemma_hidden_row_is_exposed` says of its leaving; nothing is queued on
/// the bus. This holds where the row can leave.
pub proof fn lemma_removing_the_only_preset(node: NodeView, context: ContextView)
    requires
        node.children.len() <= usize::MAX,
        context.settings.frontlight_presets.len() == 1,
        FrontlightWindow::can_hide_presets(
            node,
            FrontlightWindow::keeping(context, Seq::empty()),
        ),
    ensures
        ({
            let r = FrontlightWindow::reaction(
                node,
                Event::Select(EntryId::RemovePreset(0)),
                context,
            );
            let left = FrontlightWindow::keeping(context, Seq::empty());
            &&& r.consumed
            &&& r.context == left
            &&& r.context.settings.frontlight_presets.len() == 0
            &&& r.node == FrontlightWindow::without_presets(node, left)
            &&& r.node.children.len() == node.children.len() - 1
            &&& r.node.rect == FrontlightWindow::stretched(node.rect, context, -1)
            &&& r.hub == seq![
                Event::Expose(node.bounds()),
                Event::Render(r.node.rect, UpdateMode::Gui),
            ]
            &&& r.bus == Seq::<Event>::empty()
        }),
{
    assert(context.settings.frontlight_presets.remove(0) =~= Seq::<LightPreset>::empty());
    lemma_hidden_row_is_exposed(node, FrontlightWindow::keeping(context, Seq::empty()));
}

/// Where no child of a node reaches beyond the rectangle of the node, the
/// rectangle that covers the node and all below it is that of the node.
pub proof fn lemma_bounds_within(node: NodeView)
    requires
        forall|i: int|
            0 <= i < node.children.len() ==> node.rect.covers(
                (#[trigger] node.children[i]).bounds(),
            ),
    ensures
        node.bounds() == node.rect,
{
    lemma_absorbing_the_covered(node.rect, node.child_bounds());
}

/// Absorbing rectangles that a rectangle covers leaves the rectangle as it
/// is.
pub proof fn lemma_absorbing_the_covered(acc: Rectangle, rects: Seq<Rectangle>)
    requires
        forall|i: int| 0 <= i < rects.len() ==> acc.covers(#[trigger] rects[i]),
    ensures
        crate::view::common::absorb_all(acc, rects) == acc,
    decreases rects.len(),
{
    if rects.len() > 0 {
        assert forall|i: int| 0 <= i < rects.drop_last().len() implies acc.covers(
            #[trigger] rects.drop_last()[i],
        ) by {
            assert(rects.drop_last()[i] == rects[i]);
        }
        lemma_absorbing_the_covered(acc, rects.drop_last());
        assert(acc.covers(rects.last()));
    }
}

/// What the window asks of the frontlight is a percentage: if the levels of
/// the frontlight were percentages before the window handled an event, they
/// are percentages after it.
pub proof fn lemma_levels_stay_percentages(node: NodeView, evt: Event, context: ContextView)
    requires
        context.frontlight.intensity <= 100,
        context.frontlight.warmth <= 100,
    ensures
        FrontlightWindow::reaction(node, evt, context).context.frontlight.intensity <= 100,
        FrontlightWindow::reaction(node, evt, context).context.frontlight.warmth <= 100,
{
}

/// Setting a slider, enabling or disabling the button that guesses, and
/// filling the row of presets anew leave the window as many children as it
/// had.
pub proof fn lemma_updates_keep_the_children(
    node: NodeView,
    id: SliderId,
    value: u8,
    disabled: bool,
    presets: Seq<LightPreset>,
)
    requires
        node.children.len() <= usize::MAX,
    ensures
        FrontlightWindow::slider_set(node, id, value).0.children.len() == node.children.len(),
        FrontlightWindow::guess_set(node, disabled).0.children.len() == node.children.len(),
        FrontlightWindow::presets_updated(node, presets).0.children.len() == node.children.len(),
{
    lemma_first_match_found(node.children, FrontlightWindow::is_slider(id));
    lemma_first_match_found(node.children, FrontlightWindow::is_guess());
    lemma_first_match_found(node.children, |c: NodeView| c.widget.kind() == Kind::PresetsList);
}

/// If the window has fewer children after it handled an event than before,
/// the first request that it sent asks to erase the rectangle that covered
/// the window and all its children.
pub proof fn lemma_window_exposes_lost_children(node: NodeView, evt: Event, context: ContextView)
    requires
        node.children.len() <= usize::MAX,
    ensures
        FrontlightWindow::reaction(node, evt, context).node.children.len() < node.children.len()
            ==> {
            &&& FrontlightWindow::reaction(node, evt, context).hub.len() > 0
            &&& FrontlightWindow::reaction(node, evt, context).hub[0] == Event::Expose(
                node.bounds(),
            )
        },
{
    match evt {
        Event::Save => {
            let preset = LightPreset {
                lightsensor_level: FrontlightWindow::sensed(context),
                frontlight_levels: context.frontlight,
                timestamp: context.now,
            };
            let presets = by_timestamp(context.settings.frontlight_presets.push(preset));
            let enabled = FrontlightWindow::guess_set(node, false);
            lemma_updates_keep_the_children(node, SliderId::LightIntensity, 0, false, presets);
            lemma_updates_keep_the_children(enabled.0, SliderId::LightIntensity, 0, false, presets);
        },
        Event::Select(EntryId::RemovePreset(index)) => {
            if index < context.settings.frontlight_presets.len() {
                let presets = context.settings.frontlight_presets.remove(index as int);
                let disabled = FrontlightWindow::guess_set(node, true);
                lemma_updates_keep_the_children(node, SliderId::LightIntensity, 0, true, presets);
                lemma_updates_keep_the_children(
                    disabled.0,
                    SliderId::LightIntensity,
                    0,
                    true,
                    presets,
                );
            }
        },
        Event::LoadPreset(index) => {
            if index < context.settings.frontlight_presets.len() {
                lemma_levels_keep_the_children(
                    node,
                    context.settings.frontlight_presets[index as int].frontlight_levels,
                    context,
                );
            }
        },
        Event::Guess => {
            match guessed(FrontlightWindow::sensed(context), context.settings.frontlight_presets) {
                Some(levels) => {
                    lemma_levels_keep_the_children(node, levels, context);
                },
                None => {},
            }
        },
        _ => {},
    }
}

/// Setting the levels of the frontlight leaves the window as many children
/// as it had.
pub proof fn lemma_levels_keep_the_children(
    node: NodeView,
    levels: LightLevels,
    context: ContextView,
)
    requires
        node.children.len() <= usize::MAX,
    ensures
        FrontlightWindow::levels_set(node, levels, context).0.children.len()
            == node.children.len(),
{
    let first = FrontlightWindow::slider_set(
        node,
        SliderId::LightIntensity,
        percent(levels.intensity),
    );
    lemma_updates_keep_the_children(
        node,
        SliderId::LightIntensity,
        percent(levels.intensity),
        false,
        Seq::empty(),
    );
    lemma_updates_keep_the_children(
        first.0,
        SliderId::LightWarmth,
        percent(levels.warmth),
        false,
        Seq::empty(),
    );
}

} // verus!
