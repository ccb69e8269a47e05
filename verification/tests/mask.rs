use greycard_ui::panel::edit::{
    current_turn, develop_now, develop_soon, edit_to_develop, fold_names, lists, read_edit,
    read_folds, save_edit, show_edit, show_folds, time_sharpen, write_sidecar, Control, Lens,
    Timed, Work, Write,
};
use greycard_ui::panel::frame::{
    basis, capture_ready, chosen_shape, object_shown, patch_handles, patch_outlined,
    placeholder_landed, white_drawn, At, Basis, Landed, Pending,
};
use greycard_ui::panel::color::WhiteKey;
use greycard_ui::panel::history::{take_current, Taken};
use greycard_ui::panel::learned::{
    ask_for, bake_locals, edit_wants, fetch_failed, mask_live, model_for, step, still_live, Key, Local, Model, Part,
    Raster, Step, Want,
};
use greycard_ui::panel::mask::{
    add_adjustment, add_shape, adjustment_toggled, arm_range_pick, component_changed,
    component_names, delete_adjustment, delete_shape_at, made_at_once, made_hint, mask_dragged, mask_dropped, mask_grabbed,
    place_dragged, place_pressed, place_released, placing_hint, renamed, shape_toggled,
    show_mask_toggled, stop_placing, tab_changed, target_changed, tool_down, Editing, Next, Press,
    Travel,
};
use greycard_ui::panel::model::{
    Adjustment, Blank, Brush, ColorRange, Component, Edit, Kind, Look, LuminanceRange, Mask, Method,
    Mode, Patch, Point, Shape, Window,
};
use greycard_ui::panel::retouch::{
    delete_patch, method_of, patch_at, patch_changed, patch_dragged, patch_dropped, patch_edited, patch_grabbed,
    retouch_toggled, show_patches, Pin, Toggled,
};

/// A slider's value, by its bits.
const fn level(v: f32) -> i32 {
    v.to_bits() as i32
}

type State = Editing<f32, u32, u32>;
type Pane = Window<f32, u32, u32>;

const ADD: Mode = Mode { code: 0, sign: '+' };
const INTERSECT: Mode = Mode { code: 2, sign: '&' };

const LOOK: Look<u32> = Look {
    tone: true,
    sliders: 0,
};

const LUMINANCE: LuminanceRange = LuminanceRange {
    low: level(0.7),
    high: level(1.0),
    low_feather: level(0.1),
    high_feather: level(0.1),
};

const SKIN: ColorRange = ColorRange {
    hue: level(55.0),
    width: level(30.0),
    hue_feather: level(15.0),
    chroma: level(0.02),
    chroma_feather: level(0.02),
};

fn pane() -> Pane {
    Window {
        status: String::new(),
        panel_tab: "Masks".into(),
        placing: String::new(),
        placing_into: false,
        picking: String::new(),
        retouch_mode: String::new(),
        show_mask: false,
        shapes_open: false,
        target: 0,
        target_name: String::new(),
        adjustment_names: Vec::new(),
        adjustment_on: Vec::new(),
        adjustment_enabled: true,
        adjustment_name: String::new(),
        mask_invert: false,
        component: 0,
        component_names: Vec::new(),
        component_on: Vec::new(),
        component_invert: false,
        component_kind: String::new(),
        has_feather: false,
        mask_feather: level(0.0),
        luminance: LUMINANCE,
        color: SKIN,
        hue_round: level(0.0),
        look: LOOK,
        picture: 0,
        patch_names: Vec::new(),
        patch: -1,
        patch_size: level(0.1),
        patch_feather: level(0.5),
        patch_opacity: level(1.0),
        blank: Blank {
            zero: 0.0,
            feather: level(0.5),
            luminance: LUMINANCE,
            color: SKIN,
        },
    }
}

fn state() -> State {
    Editing {
        edit: Edit {
            look: LOOK,
            adjustments: Vec::new(),
            patches: Vec::new(),
            picture: 0,
        },
        target: None,
        placing: None,
        retouching: None,
        patch_stroke: None,
        picking: false,
        show_mask_kept: None,
    }
}

fn press(x: f32, y: f32, right: bool) -> Press<f32, u32> {
    Press {
        at: Point { x, y },
        right,
        brush: Brush {
            op: 0,
            size: level(0.1),
            feather: level(0.5),
            flow: level(1.0),
        },
        id: 7,
        look: LOOK,
        patch_id: 9,
    }
}

fn travel(x: f32, y: f32) -> Travel<f32> {
    Travel {
        at: Point { x, y },
        step: true,
        patch_step: true,
        far: true,
        radius: Point { x: 0.1, y: 0.2 },
    }
}

fn add(st: &mut State, w: &mut Pane, kind: &str) -> Next {
    add_adjustment(st, w, kind, 16, 1, LOOK, ADD)
}

/// A stroke just drawn does not stay selected: the sliders and the
/// wheel go back to setting the brush for the next repair, and
/// only choosing a repair from the list edits it again.
#[test]
fn changing_the_brush_size_after_a_stroke_leaves_the_stroke_alone() {
    let (mut st, mut w) = (state(), pane());

    retouch_toggled(&mut st, &mut w, "Heal", true, false);
    assert_eq!(w.retouch_mode, "Heal");
    assert_eq!(w.patch, -1, "the brush is in hand, nothing chosen");

    // A first stroke, drawn and released.
    place_pressed(&mut st, &mut w, &press(10.0, 10.0, false));
    place_dragged(&mut st, &travel(20.0, 10.0));
    place_released(&mut st, &mut w, true);
    assert_eq!(
        w.patch, -1,
        "the stroke just drawn does not stay selected"
    );
    assert_eq!(st.edit.patches.len(), 1);
    let first_radius = st.edit.patches[0].radius;

    // The brush size changed for the next repair, with nothing
    // selected: the first stroke is untouched.
    w.patch_size = level(0.2);
    patch_edited(&mut st, &w);
    assert_eq!(
        st.edit.patches[0].radius, first_radius,
        "a size change with nothing selected must not touch the last stroke"
    );

    // A second stroke takes the brush's new size.
    place_pressed(&mut st, &mut w, &press(30.0, 10.0, false));
    place_dragged(&mut st, &travel(40.0, 10.0));
    place_released(&mut st, &mut w, true);
    assert_eq!(st.edit.patches.len(), 2);
    assert_eq!(st.edit.patches[1].radius, level(0.2));

    // Choosing the first stroke from the list selects it: the
    // sliders show its own size, and changing it now does edit
    // it, as choosing a repair has always done.
    patch_changed(&st, &mut w, 0);
    assert_eq!(w.patch, 0);
    assert_eq!(w.patch_size, first_radius);
    w.patch_size = level(0.05);
    patch_edited(&mut st, &w);
    assert_eq!(st.edit.patches[0].radius, level(0.05));
    assert_eq!(
        st.edit.patches[1].radius, level(0.2),
        "editing the first stroke leaves the second alone"
    );
}

#[test]
fn escape_lets_go_of_a_chosen_repair() {
    let (mut st, mut w) = (state(), pane());
    retouch_toggled(&mut st, &mut w, "Heal", true, false);
    place_pressed(&mut st, &mut w, &press(10.0, 10.0, false));
    place_released(&mut st, &mut w, true);
    assert_eq!(st.edit.patches.len(), 1);
    assert_eq!(w.patch, -1);

    patch_changed(&st, &mut w, 0);
    assert_eq!(w.patch, 0, "chosen from the list");
    // Escape chooses none.
    patch_changed(&st, &mut w, -1);
    assert_eq!(w.patch, -1, "Esc lets go of it");
}

#[test]
fn a_repair_is_moved_deleted_and_offered() {
    let (mut st, mut w) = (state(), pane());
    assert_eq!(method_of("Fill"), Some(Method::Fill));
    assert_eq!(method_of("Smear"), None);
    assert_eq!(patch_at(2, 2), None);
    assert!(matches!(
        retouch_toggled(&mut st, &mut w, "Fill", false, false),
        Toggled::Offer
    ));
    assert!(matches!(
        retouch_toggled(&mut st, &mut w, "Fill", false, true),
        Toggled::Wait
    ));
    retouch_toggled(&mut st, &mut w, "Clone", true, false);
    place_pressed(&mut st, &mut w, &press(0.1, 0.1, false));
    place_released(&mut st, &mut w, true);
    patch_changed(&st, &mut w, 0);
    assert!(matches!(patch_grabbed(&st, &w, 0), Some(Pin::Center)));
    assert!(patch_handles(&st.edit, true, 0).is_some());
    assert_eq!(patch_handles(&st.edit, false, 0), None);
    w.panel_tab = "Retouch".into();
    assert_eq!(patch_outlined(&st.edit, &w), Some(0));
    let moved = Patch {
        id: 9,
        method: Method::Clone,
        points: vec![Point { x: 0.3, y: 0.3 }],
        radius: level(0.1),
        feather: level(0.5),
        opacity: level(1.0),
        source: Some(Point { x: 0.1, y: 0.0 }),
    };
    // With no pin held nothing moves.
    let still = Patch { points: moved.points.clone(), ..moved };
    assert_eq!(patch_dragged(&mut st, &w, None, still), Next::Nothing);
    assert_eq!(st.edit.patches[0].points[0].x, 0.1);
    // A handle below the first is the center still, on a repair with a
    // source; without one it is none.
    assert_eq!(patch_grabbed(&st, &w, -1), st.edit.patches[0].source.map(|_| Pin::Center));
    let mut pin = patch_grabbed(&st, &w, 0);
    assert_eq!(patch_dragged(&mut st, &w, pin, moved), Next::Redraw);
    assert_eq!(st.edit.patches[0].points[0].x, 0.3);
    assert_eq!(patch_grabbed(&st, &w, -1), Some(Pin::Center));
    assert_eq!(patch_grabbed(&st, &w, 1), Some(Pin::Source));
    st.edit.patches[0].source = None;
    assert_eq!(patch_grabbed(&st, &w, -1), None);
    assert_eq!(patch_grabbed(&st, &w, 0), Some(Pin::Center));
    st.edit.patches[0].source = Some(Point { x: 0.1, y: 0.0 });
    assert_eq!(patch_dropped(&mut pin), Next::DevelopSoon);
    assert!(pin.is_none());
    assert_eq!(patch_dropped(&mut pin), Next::Nothing);
    show_patches(&st.edit, &mut w);
    assert_eq!(w.patch_names, ["Clone 9"]);
    assert_eq!(patch_handles(&st.edit, true, 0), Some((0, true)));
    delete_patch(&mut st, &mut w);
    assert!(st.edit.patches.is_empty());
    assert_eq!(w.patch, -1);
}

/// Sky from its button is made whole, like Subject; on a chosen sky
/// the same button is Pick, which puts the tool in hand and takes
/// clicks as picks on that sky, a right click a negative one,
/// rather than adding a second sky; and the button again puts the
/// tool down.
#[test]
fn a_sky_comes_from_its_button_and_takes_picks() {
    let (mut st, mut w) = (state(), pane());
    assert_eq!(add(&mut st, &mut w, "Sky"), Next::Made);
    arm_range_pick(&mut w, "Sky");
    assert_eq!(st.target, Some(0));
    {
        let components = &st.edit.adjustments[0].mask.components;
        assert_eq!(components.len(), 1);
        let c = &components[0];
        assert!(matches!(&c.shape, Shape::Sky { picks } if picks.is_empty()));
        assert!(c.mode == ADD && !c.invert && c.enabled);
    }
    assert!(st.placing.is_none());
    assert_eq!(w.component_kind, "Sky");
    assert_eq!(w.status, "finding the sky");

    add_shape(&mut st, &mut w, "Sky", ADD);
    assert_eq!(w.placing, "Sky");
    assert!(w.placing_into);
    place_pressed(&mut st, &mut w, &press(300.0, 200.0, false));
    place_released(&mut st, &mut w, true);
    place_pressed(&mut st, &mut w, &press(320.0, 260.0, true));
    place_released(&mut st, &mut w, true);
    {
        let components = &st.edit.adjustments[0].mask.components;
        assert_eq!(components.len(), 1, "a pick is not a second sky");
        match &components[0].shape {
            Shape::Sky { picks } => assert_eq!(
                picks.iter().map(|p| p.positive).collect::<Vec<_>>(),
                vec![true, false]
            ),
            other => panic!("{other:?}"),
        }
        assert!(st.placing.is_some(), "the tool stays in hand");
    }
    add_shape(&mut st, &mut w, "Sky", ADD);
    assert!(w.placing.is_empty());
    assert!(st.placing.is_none());
}

fn read(st: &mut State, w: &Pane) {
    let target = st.target;
    read_edit(w, &mut st.edit, target);
}

fn luminance(st: &State, i: usize) -> LuminanceRange {
    match &st.edit.adjustments[0].mask.components[i].shape {
        Shape::Luminance { range } => *range,
        other => panic!("{other:?}"),
    }
}

fn color(st: &State, i: usize) -> ColorRange {
    match &st.edit.adjustments[0].mask.components[i].shape {
        Shape::Color { range } => *range,
        other => panic!("{other:?}"),
    }
}

/// The range masks from the panel: a button makes one whole, its
/// sliders are its window both ways, a color one puts the dropper
/// in hand, and Skin puts the window at the skin hue.
#[test]
fn the_range_masks_come_from_their_buttons_and_live_in_their_sliders() {
    let (mut st, mut w) = (state(), pane());
    add(&mut st, &mut w, "Luminance");
    arm_range_pick(&mut w, "Luminance");
    assert_eq!(st.target, Some(0));
    assert_eq!(luminance(&st, 0), LUMINANCE);
    assert_eq!(w.component_kind, "Luminance");
    assert!(w.shapes_open);
    assert!(w.picking.is_empty(), "no dropper for a luminance");
    assert_eq!(w.luminance.low, level(0.7));
    // The sliders are the shape.
    w.luminance.low = level(0.5);
    w.luminance.high_feather = level(0.2);
    read(&mut st, &w);
    let l = luminance(&st, 0);
    assert_eq!(
        (l.low, l.high, l.low_feather, l.high_feather),
        (level(0.5), level(1.0), level(0.1), level(0.2))
    );
    // A color range intersected with it: at the skin, with the
    // dropper in hand to move it.
    w.luminance.low = level(0.5);
    add_shape(&mut st, &mut w, "Color", INTERSECT);
    arm_range_pick(&mut w, "Color");
    assert_eq!(w.picking, "Range");
    assert_eq!(w.component, 1);
    assert_eq!(w.component_kind, "Color");
    read(&mut st, &w);
    assert_eq!(color(&st, 1), SKIN);
    assert_eq!(st.edit.adjustments[0].mask.components[1].mode, INTERSECT);
    // The luminance kept what its sliders said when it was left.
    assert_eq!(luminance(&st, 0).low, level(0.5));
    // The hue slider moves it; its default (the skin hue) is the
    // way back.
    w.color.hue = level(200.0);
    read(&mut st, &w);
    assert_eq!(color(&st, 1).hue, level(200.0));
    w.color.hue = SKIN.hue;
    read(&mut st, &w);
    assert_eq!(color(&st, 1), SKIN);
    // A fade longer than the floor is read as the floor: it cannot run
    // under no chroma.
    w.color.chroma = level(0.02);
    w.color.chroma_feather = level(0.05);
    read(&mut st, &w);
    let c = color(&st, 1);
    assert_eq!((c.chroma, c.chroma_feather), (level(0.02), level(0.02)));
    // Back to the luminance: its own numbers on the sliders.
    component_changed(&mut st, &mut w, 0);
    assert_eq!(w.component_kind, "Luminance");
    assert_eq!(w.luminance.low, level(0.5));
    assert_eq!(w.luminance.high_feather, level(0.2));
    // High under Low is read as High at Low.
    w.luminance.low = level(0.8);
    w.luminance.high = level(0.2);
    read(&mut st, &w);
    let l = luminance(&st, 0);
    assert_eq!((l.low, l.high), (level(0.8), level(0.8)));
}

#[test]
fn the_sliders_are_held_to_what_each_takes() {
    let (mut st, mut w) = (state(), pane());
    add(&mut st, &mut w, "Luminance");
    assert_eq!(w.mask_feather, level(0.5), "a shape with no feather shows the middle");
    w.luminance.low = level(-0.5);
    w.luminance.high = level(1.5);
    read(&mut st, &w);
    assert_eq!(luminance(&st, 0).low, level(0.0));
    assert_eq!(luminance(&st, 0).high, level(1.0));
    add_shape(&mut st, &mut w, "Color", ADD);
    w.color.width = level(400.0);
    w.color.hue_feather = level(200.0);
    w.color.chroma = level(-1.0);
    read(&mut st, &w);
    let c = color(&st, 1);
    assert_eq!((c.width, c.hue_feather), (level(360.0), level(180.0)));
    assert_eq!((c.chroma, c.chroma_feather), (level(0.0), level(0.0)));
    // A hue off the circle comes round it; what is no number stays none.
    w.color.hue = level(400.0);
    w.hue_round = level(40.0);
    w.color.width = level(f32::NAN);
    read(&mut st, &w);
    assert_eq!(color(&st, 1).hue, level(40.0));
    assert!(f32::from_bits(color(&st, 1).width as u32).is_nan());
    w.color.width = level(30.0);
    // A brush and a repair.
    let mut p = press(0.1, 0.1, false);
    p.brush.size = level(0.9);
    p.brush.flow = level(-1.0);
    add(&mut st, &mut w, "Brush");
    place_pressed(&mut st, &mut w, &p);
    match &st.edit.adjustments[1].mask.components[0].shape {
        Shape::Brush { strokes } => {
            assert_eq!(strokes[0].brush.size, level(0.5));
            assert_eq!(strokes[0].brush.flow, level(0.0));
        }
        other => panic!("{other:?}"),
    }
    retouch_toggled(&mut st, &mut w, "Heal", true, false);
    w.patch_size = level(0.0);
    place_pressed(&mut st, &mut w, &p);
    assert_eq!(st.edit.patches[0].radius, level(0.002));
    assert_eq!(w.patch_size, level(0.002));
    w.patch_size = level(0.9);
    patch_edited(&mut st, &w);
    assert_eq!(st.edit.patches[0].radius, level(0.3));
}

#[test]
fn a_shape_dragged_from_its_press_is_placed() {
    let (mut st, mut w) = (state(), pane());
    add(&mut st, &mut w, "Linear");
    assert_eq!(w.placing, "Linear");
    assert!(w.show_mask);
    assert_eq!(w.status, placing_hint("Linear"));
    place_pressed(&mut st, &mut w, &press(0.1, 0.2, false));
    place_dragged(&mut st, &travel(0.5, 0.6));
    place_released(&mut st, &mut w, true);
    assert!(st.placing.is_none());
    match &st.edit.adjustments[0].mask.components[0].shape {
        Shape::Linear { from, to } => {
            assert_eq!((from.x, from.y, to.x, to.y), (0.1, 0.2, 0.5, 0.6));
        }
        other => panic!("{other:?}"),
    }
    // The toggle comes back once the tool is down.
    tool_down(&mut st, &mut w);
    assert!(!w.show_mask);
    // A press that came to nothing is taken back.
    add(&mut st, &mut w, "Radial");
    place_pressed(&mut st, &mut w, &press(0.1, 0.2, false));
    place_released(&mut st, &mut w, false);
    assert_eq!(st.edit.adjustments.len(), 1);
    assert_eq!(w.status, "nothing placed");
    // The handles are the chosen shape's.
    st.target = Some(0);
    assert_eq!(
        chosen_shape(&st, &st.edit, false, 0),
        Some(At {
            adjustment: 0,
            component: 0
        })
    );
    assert_eq!(chosen_shape(&st, &st.edit, true, 0), None);
    assert_eq!(chosen_shape(&st, &st.edit, false, 1), None);
    assert_eq!(object_shown(&st, &st.edit, Some(At { adjustment: 0, component: 0 })), None);
}

#[test]
fn an_object_takes_picks_and_boxes() {
    let (mut st, mut w) = (state(), pane());
    add(&mut st, &mut w, "Object");
    place_pressed(&mut st, &mut w, &press(0.1, 0.1, false));
    place_dragged(&mut st, &travel(0.4, 0.4));
    place_released(&mut st, &mut w, true);
    place_pressed(&mut st, &mut w, &press(0.2, 0.2, true));
    place_released(&mut st, &mut w, true);
    match &st.edit.adjustments[0].mask.components[0].shape {
        Shape::Object { picks, boxes } => {
            assert_eq!(boxes.len(), 1, "a press that travels is a box");
            assert_eq!(picks.len(), 1);
            assert!(!picks[0].positive);
        }
        other => panic!("{other:?}"),
    }
    assert_eq!(
        object_shown(&st, &st.edit, None),
        Some(At {
            adjustment: 0,
            component: 0
        })
    );
    stop_placing(&mut st, &mut w);
    assert!(st.placing.is_none());
}

#[test]
fn the_list_of_shapes_is_kept() {
    let (mut st, mut w) = (state(), pane());
    add(&mut st, &mut w, "Subject");
    add_shape(&mut st, &mut w, "Luminance", INTERSECT);
    assert_eq!(component_names(&st.edit.adjustments[0].mask).len(), 2);
    shape_toggled(&mut st, &mut w, 0);
    assert!(!st.edit.adjustments[0].mask.components[0].enabled);
    adjustment_toggled(&mut st, &mut w, 0);
    assert!(!st.edit.adjustments[0].enabled);
    delete_shape_at(&mut st, &mut w, 0);
    assert_eq!(st.edit.adjustments[0].mask.components.len(), 1);
    let line = || Shape::Linear {
        from: Point { x: 0.0, y: 0.0 },
        to: Point { x: 1.0, y: 1.0 },
    };
    // With no handle held nothing moves; and a handle past the shape's
    // own is not taken.
    let mut held = None;
    assert_eq!(mask_dragged(&mut st, &w, held, line()), Next::Nothing);
    mask_grabbed(&st, &w, 2, 2, &mut held);
    assert!(held.is_none());
    mask_grabbed(&st, &w, 1, 2, &mut held);
    assert_eq!(held.map(|h| (h.adjustment, h.component, h.handle)), Some((0, 0, 1)));
    assert_eq!(mask_dragged(&mut st, &w, held, line()), Next::Redraw);
    assert_eq!(mask_dropped(&mut held), Next::ViewChanged);
    assert_eq!(mask_dropped(&mut held), Next::Nothing);
    assert_eq!(
        st.edit.adjustments[0].mask.components[0].shape.kind(),
        Kind::Linear
    );
    w.adjustment_name = "Face".into();
    renamed(&st, &mut w);
    target_changed(&mut st, &mut w, 0);
    assert_eq!(st.target, None);
    tab_changed(&mut st, &mut w, "Light");
    target_changed(&mut st, &mut w, 1);
    assert_eq!(st.target, Some(0));
    delete_adjustment(&mut st, &mut w);
    assert!(st.edit.adjustments.is_empty());
    // Past the most there can be, it says so.
    add_adjustment(&mut st, &mut w, "Subject", 0, 1, LOOK, ADD);
    assert_eq!(w.status, "at most 0 adjustments");
    st.show_mask_kept = Some(true);
    show_mask_toggled(&mut st);
    assert_eq!(st.show_mask_kept, None);
    assert!(made_at_once("Sky") && !made_at_once("Brush"));
    assert_eq!(made_hint("Subject"), "finding the subject");
}

#[test]
fn what_is_shown_reads_back() {
    let (mut st, mut w) = (state(), pane());
    add(&mut st, &mut w, "Luminance");
    w.look.sliders = 5;
    read(&mut st, &w);
    let mut other = pane();
    show_edit(&st.edit, &mut other, st.target);
    assert_eq!(other.look.sliders, 5);
    let target = st.target;
    read_edit(&other, &mut st.edit, target);
    assert_eq!(st.edit.adjustments[0].look.sliders, 5);
    assert_eq!(st.edit.look.sliders, 0);
}

/// The model a shape would use, and the step for it.
fn next(
    kind: Kind,
    have: &[Model],
    webgpu: bool,
    declined: &[Model],
    failed: &[Model],
    free: bool,
    fell_back: bool,
) -> Option<Step> {
    let (have, declined, failed) = (have.to_vec(), declined.to_vec(), failed.to_vec());
    let model = model_for(kind, webgpu, &have, &declined, &failed, fell_back);
    step(kind == Kind::Subject, model, &have, &declined, &failed, free)
}

/// A Subject on a WebGPU machine with neither model: the GPU file is
/// offered; its fetch fails, and the original is offered next; declining
/// the original leaves the shape waiting; the original arriving is asked
/// for. Declining the GPU file also turns to the original rather than
/// blocking it.
#[test]
fn a_subject_turns_to_the_original_when_the_gpu_model_cannot_be_had() {
    let subject = Kind::Subject;
    let (mut declined, mut failed) = (Vec::new(), Vec::new());
    assert_eq!(
        next(subject, &[], true, &declined, &failed, true, false),
        Some(Step::Offer(Model::SubjectWebGpu, false))
    );
    // The sheet is up or a fetch is on its way: wait.
    assert_eq!(
        next(subject, &[], true, &declined, &failed, false, false),
        Some(Step::Wait)
    );
    let status = fetch_failed(&mut failed, Model::SubjectWebGpu, "Subject, WebGPU", "404");
    assert!(
        status.contains("GPU Subject model could not be fetched"),
        "{status}"
    );
    assert!(status.contains("original"), "{status}");
    assert_eq!(
        next(subject, &[], true, &declined, &failed, true, false),
        Some(Step::Offer(Model::Subject, false))
    );
    // Offline, the original fails too: no third offer.
    {
        let mut failed = failed.clone();
        fetch_failed(&mut failed, Model::Subject, "Subject", "offline");
        assert_eq!(
            next(subject, &[], true, &declined, &failed, true, false),
            Some(Step::Wait)
        );
        // Once it is in the store after all, it is asked for.
        assert_eq!(
            next(subject, &[Model::Subject], true, &declined, &failed, true, false),
            Some(Step::Ask(Model::Subject))
        );
    }
    declined.push(Model::Subject);
    assert_eq!(
        next(subject, &[], true, &declined, &failed, true, false),
        Some(Step::Wait)
    );
    assert_eq!(
        next(subject, &[Model::Subject], true, &declined, &failed, true, false),
        Some(Step::Ask(Model::Subject))
    );

    // Declined, not failed: the same turn to the original.
    assert_eq!(
        next(subject, &[], true, &[Model::SubjectWebGpu], &[], true, false),
        Some(Step::Offer(Model::Subject, false))
    );
    // And on a CPU-only machine the original from the start.
    assert_eq!(
        next(subject, &[], false, &[], &[], true, false),
        Some(Step::Offer(Model::Subject, false))
    );
}

#[test]
fn a_subject_already_in_the_store_offers_the_rewrite_when_it_falls_back() {
    let subject = Kind::Subject;
    let original = [Model::Subject];
    assert_eq!(
        next(subject, &original, true, &[], &[], true, true),
        Some(Step::Offer(Model::SubjectWebGpu, true)),
        "the store's original falls back to the CPU here: the rewrite is offered"
    );
    // Declined: the original stands, asked for rather than waited on.
    assert_eq!(
        next(subject, &original, true, &[Model::SubjectWebGpu], &[], true, true),
        Some(Step::Ask(Model::Subject))
    );
    // Nothing on record: the original stands from the start.
    assert_eq!(
        next(subject, &original, true, &[], &[], true, false),
        Some(Step::Ask(Model::Subject))
    );
    // Another sheet up, or a fetch already running: nothing can be
    // offered this round, but the original already runs, so it is
    // asked for rather than left waiting on an offer that is not
    // coming.
    assert_eq!(
        next(subject, &original, true, &[], &[], false, true),
        Some(Step::Ask(Model::Subject))
    );
}

#[test]
fn a_sky_is_offered_the_prior_then_sam_and_runs_without_sam_if_it_must() {
    let sky = Kind::Sky;
    assert_eq!(
        next(sky, &[], true, &[], &[], true, false),
        Some(Step::Offer(Model::Sky, false))
    );
    assert_eq!(
        next(sky, &[Model::Sky], true, &[], &[], true, false),
        Some(Step::Offer(Model::Sam, false))
    );
    assert_eq!(
        next(sky, &[Model::Sky, Model::Sam], true, &[], &[], true, false),
        Some(Step::Ask(Model::Sky))
    );
    assert_eq!(
        next(sky, &[Model::Sky], true, &[Model::Sam], &[], true, false),
        Some(Step::Ask(Model::Sky))
    );
    assert_eq!(
        next(sky, &[Model::Sky], true, &[], &[Model::Sam], true, false),
        Some(Step::Ask(Model::Sky))
    );
    // The prior declined: the shape waits, whatever else the store
    // has; the Subject original is never asked for in its place.
    let subject_too = [Model::Subject, Model::Sam];
    assert_eq!(
        next(sky, &subject_too, true, &[Model::Sky], &[], true, false),
        Some(Step::Wait)
    );
    assert_eq!(
        next(sky, &subject_too, true, &[], &[], false, false),
        Some(Step::Wait)
    );
}

#[test]
fn an_object_waiting_on_sam_is_not_given_the_subject_model() {
    assert_eq!(
        next(Kind::Object, &[Model::Subject], false, &[], &[], false, false),
        Some(Step::Wait)
    );
    assert_eq!(
        next(Kind::Brush, &[Model::Subject], false, &[], &[], true, false),
        None
    );
}

#[test]
fn one_offer_at_a_time() {
    let want = |component: usize, asked: bool| Want {
        key: Key { id: 1, component },
        asked,
        subject: false,
        model: Some(Model::Sky),
    };
    let steps = ask_for(
        &vec![want(0, true), want(1, false), want(2, false)],
        &Vec::new(),
        &Vec::new(),
        &Vec::new(),
        true,
    );
    assert_eq!(
        steps,
        vec![
            None,
            Some(Step::Offer(Model::Sky, false)),
            Some(Step::Wait)
        ]
    );
}

#[test]
fn the_masks_are_baked_with_what_is_made() {
    let part = |learned: bool, brush: bool, enabled: bool, made: bool| Part {
        learned,
        brush,
        enabled,
        prompted: true,
        made,
    };
    let locals = vec![
        Local {
            id: 4,
            parts: vec![
                part(true, false, true, false),
                part(true, false, false, false),
                part(true, false, true, true),
                part(false, true, true, false),
                part(false, false, true, false),
            ],
        },
        Local {
            id: 5,
            parts: vec![part(true, false, true, false)],
        },
    ];
    let b = bake_locals(&locals, 1);
    assert_eq!(b.rasters.len(), 1);
    assert_eq!(
        b.rasters[0],
        vec![
            Raster::Bare,
            Raster::Bare,
            Raster::Made,
            Raster::Brushed,
            Raster::Bare
        ]
    );
    assert_eq!(b.wants, vec![Key { id: 4, component: 0 }]);
    assert_eq!(b.live.len(), 4);
    let kept = vec![Key { id: 4, component: 3 }, Key { id: 5, component: 0 }];
    assert_eq!(still_live(&kept, &b.live), vec![true, false]);
}

/// The defringe's dropper needs the fringes on screen to aim at, so while
/// it is out the picture is developed with the pass off. The edit itself
/// is not touched, and every other dropper leaves the develop alone.
#[test]
fn the_defringe_dropper_takes_the_pass_off_the_picture() {
    let lens = Lens {
        defringe: true,
        rest: 3.0f32,
    };
    assert!(edit_to_develop("", lens).defringe);
    let shown = edit_to_develop("Defringe", lens);
    assert!(!shown.defringe, "the pass is off while picking");
    // Only the defringe: the rest goes as it is.
    assert_eq!(shown.rest, 3.0);
    assert!(lens.defringe, "the edit itself is untouched");
    // Another dropper changes nothing about the develop.
    assert!(edit_to_develop("White", lens).defringe);
    // And putting it down puts the pass back.
    assert!(edit_to_develop("", lens).defringe);
}

#[test]
fn an_edit_is_kept_when_there_is_something_to_keep() {
    assert_eq!(current_turn(Some(1), &vec![0, 3]), 3);
    assert_eq!(current_turn(Some(2), &vec![0, 3]), 0);
    assert_eq!(save_edit(Some(1), true, true), Some(1));
    assert_eq!(save_edit(Some(1), false, true), None);
    assert_eq!(save_edit(Some(1), true, false), None);
    assert!(write_sidecar(false, true, false).is_empty());
    let both = write_sidecar(true, true, true);
    assert_eq!(both.len(), 2);
    assert!(matches!(write_sidecar(true, false, false)[..], [Write::Sidecar]));
    assert!(matches!(develop_soon(true), Control::LeaveCulling));
    assert!(matches!(develop_soon(false), Control::Rest));
    let mut work = Work {
        generation: 4,
        busy: false,
        status: String::new(),
        status_after_develop: None,
    };
    let job = develop_now(&mut work, 2);
    assert_eq!((job.generation, job.turn), (5, 2));
    assert_eq!((work.generation, work.busy), (5, true));
    assert_eq!(work.status, "developing...");
    assert!(matches!(time_sharpen(&mut work, 0, 2), Timed::Done));
    assert_eq!(work.generation, 5);
    work.busy = false;
    match time_sharpen(&mut work, 3, 2) {
        Timed::Move { left, wide, job } => {
            assert_eq!((left, wide), (2, false));
            assert_eq!((job.generation, job.turn), (6, 2));
        }
        Timed::Done => panic!("three are left"),
    }
    assert_eq!((work.generation, work.busy), (6, true));
    assert!(matches!(time_sharpen(&mut work, 2, 2), Timed::Move { left: 1, wide: true, .. }));
}

#[test]
fn folds_come_back() {
    let names = fold_names();
    let mut flags = vec![false; names.len()];
    flags[1] = true;
    flags[3] = true;
    let kept = read_folds(&flags);
    assert_eq!(kept, vec![names[1].to_string(), names[3].to_string()]);
    assert!(lists(&kept, names[3]) && !lists(&kept, names[2]));
    assert_eq!(show_folds(&kept), flags);
}

#[test]
fn a_frame_is_drawn_from_what_is_on_screen() {
    assert!(matches!(basis(true, true), Basis::Held));
    assert!(matches!(basis(false, true), Basis::Peeked));
    assert!(matches!(basis(false, false), Basis::Panel));
    let panel = WhiteKey {
        as_shot: true,
        temperature: 5000.0,
        tint: 0.0,
    };
    assert!(white_drawn(true, None, panel).is_none());
    assert!(white_drawn(false, None, panel).unwrap().as_shot);
    let ready = Pending {
        has_image: true,
        quiet: true,
        grid_filled: true,
        awaiting_turn: false,
        awaiting_index: false,
        placeholder: false,
    };
    assert!(capture_ready(ready));
    assert!(!capture_ready(Pending { awaiting_turn: true, ..ready }));
    assert!(matches!(placeholder_landed(true, true, true), Landed::Steps));
    assert!(matches!(placeholder_landed(true, false, true), Landed::Ends));
    assert!(matches!(placeholder_landed(false, true, true), Landed::Nothing));
}

#[test]
fn a_mask_found_is_of_a_shape_still_on() {
    let subject = |enabled: bool| Component::<f32> {
        shape: Shape::Subject,
        mode: ADD,
        invert: false,
        enabled,
    };
    let adjustments: Vec<Adjustment<f32, u32>> = vec![Adjustment {
        id: 7,
        name: "Subject 7".into(),
        enabled: true,
        mask: Mask {
            components: vec![subject(false), subject(true)],
            invert: false,
        },
        look: LOOK,
    }];
    let key = |id: u64, component: usize| Key { id, component };
    assert!(mask_live(&adjustments, key(7, 1)));
    assert!(!mask_live(&adjustments, key(7, 0)), "switched off meanwhile");
    assert!(!mask_live(&adjustments, key(7, 2)));
    assert!(!mask_live(&adjustments, key(8, 1)), "the adjustment is gone");
}

#[test]
fn a_model_fetched_is_for_what_waits_on_it() {
    let patch = |method: Method| Patch::<f32> {
        id: 1,
        method,
        points: Vec::new(),
        radius: level(0.1),
        feather: level(0.5),
        opacity: level(1.0),
        source: None,
    };
    let fill = vec![patch(Method::Heal), patch(Method::Fill)];
    assert!(edit_wants(Model::Fill, None, true, &fill));
    assert!(!edit_wants(Model::Fill, None, false, &fill), "repairs are off");
    assert!(!edit_wants(Model::Fill, None, true, &vec![patch(Method::Heal)]));
    assert!(!edit_wants(Model::Sky, None, true, &fill));
    let tier = Model::Denoiser(2);
    assert!(edit_wants(tier, Some(tier), false, &fill));
    assert!(!edit_wants(tier, Some(Model::Denoiser(1)), true, &fill));
}

#[test]
fn an_undo_leaves_nothing_behind() {
    let (mut st, mut w) = (state(), pane());
    let mut work = Work {
        generation: 2,
        busy: false,
        status: String::new(),
        status_after_develop: Some("Warm laid over 2 frames".into()),
    };
    add(&mut st, &mut w, "Luminance");
    assert_eq!(st.target, Some(0));
    // Undone: the mask is gone, from the edit as well as the panel.
    let before = || state().edit;
    let t = take_current(Some(0), false, true, before(), &mut st, &mut w, &mut work, 1);
    assert!(matches!(t, Taken::Redraw));
    assert!(st.edit.adjustments.is_empty());
    assert_eq!((st.target, w.target), (None, 0));
    assert_eq!(w.adjustment_names, ["Global"]);
    read(&mut st, &w);
    assert!(st.edit.adjustments.is_empty());
    assert_eq!(work.generation, 2);
    let t = take_current(Some(0), false, false, before(), &mut st, &mut w, &mut work, 1);
    assert!(matches!(t, Taken::Develop(d) if d.generation == 3 && d.turn == 1));
    assert!(work.busy && work.status_after_develop.is_none());
    let t = take_current(None, false, true, before(), &mut st, &mut w, &mut work, 1);
    assert!(matches!(t, Taken::Nothing));
    let t = take_current(Some(0), true, true, before(), &mut st, &mut w, &mut work, 1);
    assert!(matches!(t, Taken::LeaveCulling));
}
