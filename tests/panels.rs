use kawa::button::{Behavior, Button};
use kawa::canvas::Canvas;
use kawa::control::{after_flush, flush_needed, App, FlushAction};
use kawa::geometry::{extend_rect_to_cover, Point, Size};
use kawa::input::{Command, InputDeviceId, PanelId, Param, Value};
use kawa::knob::Knob;
use kawa::panel::Panel;
use kawa::{panel_bow, panel_res, panel_strike};

fn union(a: (Point, Size), b: (Point, Size)) -> (Point, Size) {
    let (mut p, mut s) = a;
    extend_rect_to_cover(&mut p, &mut s, &b.0, &b.1);
    (p, s)
}

fn empty() -> (Point, Size) {
    (Point::new(i32::MAX, i32::MAX), Size::new(0, 0))
}

#[test]
fn union_is_commutative_and_associative() {
    let a = (Point::new(10, 5), Size::new(5, 3));
    let b = (Point::new(0, 20), Size::new(3, 4));
    let c = (Point::new(-4, 7), Size::new(2, 30));
    assert_eq!(union(a, b), (Point::new(0, 5), Size::new(15, 19)));
    assert_eq!(union(a, b), union(b, a));
    assert_eq!(union(union(a, b), c), union(a, union(b, c)));
    assert_eq!(union(union(empty(), c), a), union(union(empty(), a), c));
    assert_eq!(union(empty(), a), a);
    assert_eq!(union(a, empty()), a);
    assert_eq!(union(empty(), empty()), empty());
}

#[test]
fn union_keeps_earlier_far_edge() {
    let a = (Point::new(10, 0), Size::new(5, 5));
    let b = (Point::new(0, 0), Size::new(3, 5));
    assert_eq!(union(a, b), (Point::new(0, 0), Size::new(15, 5)));
}

#[test]
fn panel_render_covers_exactly_dirty_widgets() {
    let mut canvas = Canvas::new();
    let buttons = vec![
        Button::new(Point::new(0, 0), "Bow", 0, Behavior::Redraw),
        Button::new(Point::new(26, 0), "Blw", 1, Behavior::Redraw),
    ];
    let knobs = vec![Knob::new(Point::new(64, 40), "Lvl", 5, Param::ExcBowLevel)];
    let mut panel = Panel::new((buttons, knobs));
    panel.render(&mut canvas);
    assert!(!panel.is_dirty());
    let mut cmds = Vec::new();
    panel.input_update(1, Value::Bool(true), &mut cmds);
    panel.input_update(5, Value::Int(10), &mut cmds);
    panel.input_update(5, Value::Int(12), &mut cmds);
    assert!(panel.is_dirty());
    let r = panel.render(&mut canvas);
    assert_eq!(r, (Point::new(26, 0), Size::new(68, 64)));
    assert!(!panel.is_dirty());
    assert_eq!(cmds, vec![Command::SetParam(Param::ExcBowLevel, 2)]);
}

#[test]
fn clean_panel_renders_empty_rect() {
    let mut canvas = Canvas::new();
    let mut panel = Panel::new(panel_bow::setup());
    panel.render(&mut canvas);
    let n = canvas.ops.len();
    let (_, size) = panel.render(&mut canvas);
    assert_eq!(size.width, 0);
    assert_eq!(size.height, 0);
    assert_eq!(canvas.ops.len(), n);
}

#[test]
fn panel_reset_marks_every_widget() {
    let mut canvas = Canvas::new();
    let mut panel = Panel::new(panel_res::setup());
    let full = panel.render(&mut canvas);
    panel.input_reset();
    assert!(panel.buttons.iter().all(|b| b.is_dirty()));
    assert!(panel.knobs.iter().all(|k| k.is_dirty()));
    assert_eq!(panel.render(&mut canvas), full);
}

#[test]
fn end_to_end_button_and_knob() {
    let buttons = vec![Button::new(Point::new(0, 0), "Bow", 0, Behavior::Redraw)];
    let knobs = vec![Knob::new(Point::new(0, 40), "Lvl", 1, Param::ExcBowLevel)];
    let mut panel = Panel::new((buttons, knobs));
    let mut canvas = Canvas::new();
    let mut cmds = Vec::new();
    panel.input_update(0, Value::Bool(true), &mut cmds);
    let (pos, size) = panel.render(&mut canvas);
    assert!(size.width > 0 && size.height > 0);
    assert!(pos.x <= 0 && pos.y <= 0);
    assert!(pos.x + size.width as i32 >= 18 && pos.y + size.height as i32 >= 12);
    assert!(!panel.buttons[0].is_dirty());
    let (_, size) = panel.render(&mut canvas);
    assert_eq!(size, Size::new(0, 0));
}

#[test]
fn layouts_are_as_drawn() {
    let (b, k) = panel_bow::setup();
    let captions: Vec<&str> = b.iter().map(|b| b.caption).collect();
    assert_eq!(captions, vec!["*Bow", " Blw", " Str", "Res", "Sys"]);
    assert_eq!(k.len(), 3);
    let (b, k) = panel_strike::setup();
    assert_eq!(b[2].caption, "*Str");
    assert_eq!(k[2].input_id, InputDeviceId::Knob4.input_id());
    assert_eq!(k[2].param, Param::ExcStrikeMeta);
    let b = panel_res::setup_resonator_buttons(1);
    assert_eq!(b[1].caption, "*Res2");
    assert_eq!(b[2].pos, Point::new(77, 0));
    assert_eq!(panel_res::setup_knobs().len(), 4);
    assert_eq!(panel_bow::setup_knobs()[1].caption, "Tmbr");
    assert_eq!(panel_bow::setup_exciter_buttons(1)[1].caption, "*Blw");
}

#[test]
fn switching_panel_repaints_everything() {
    let mut app = App::new();
    app.setup_ui();
    let mut canvas = Canvas::new();
    let mut engine = Vec::new();
    let first = app.update(&Vec::new(), &mut canvas, &mut engine);
    assert_eq!(first, (Point::new(0, 0), Size::new(120, 64)));
    let quiet = app.update(&Vec::new(), &mut canvas, &mut engine);
    assert_eq!(quiet.1, Size::new(0, 0));
    app.change_panel(PanelId::PanelRes);
    let r = app.update(&Vec::new(), &mut canvas, &mut engine);
    assert_eq!(r, (Point::new(0, 0), Size::new(126, 64)));
    assert_eq!(app.active, PanelId::PanelRes);
    assert!(engine.is_empty());
}

#[test]
fn navigation_button_switches_panel() {
    let mut app = App::new();
    app.setup_ui();
    let mut canvas = Canvas::new();
    let mut engine = Vec::new();
    app.update(&Vec::new(), &mut canvas, &mut engine);
    let readings = vec![
        (InputDeviceId::Knob1.input_id(), Value::Int(0)),
        (InputDeviceId::Button3.input_id(), Value::Bool(true)),
        (InputDeviceId::Button1.input_id(), Value::Bool(false)),
    ];
    let r = app.update(&readings, &mut canvas, &mut engine);
    assert_eq!(app.active, PanelId::PanelStrike);
    assert_eq!(r, (Point::new(0, 0), Size::new(126, 64)));
    assert_eq!(engine, vec![Command::TriggerNote(true), Command::TriggerNote(false)]);
    let panel = app.panel.as_ref().unwrap();
    assert_eq!(panel.buttons[2].caption, "*Str");
}

#[test]
fn panel_without_layout_leaves_slot() {
    let mut app = App::new();
    app.change_panel(PanelId::PanelBlow);
    assert!(app.panel.is_none());
    let mut canvas = Canvas::new();
    let mut engine = Vec::new();
    let r = app.update(&vec![(0, Value::Bool(true))], &mut canvas, &mut engine);
    assert_eq!(r.1, Size::new(0, 0));
    app.setup_ui();
    app.change_panel(PanelId::PanelOutput);
    assert_eq!(app.active, PanelId::PanelBow);
}

#[test]
fn flush_policy_retries_once() {
    assert!(!flush_needed(empty()));
    assert!(!flush_needed((Point::new(0, 0), Size::new(0, 12))));
    assert!(flush_needed((Point::new(0, 0), Size::new(18, 12))));
    assert_eq!(after_flush(1, true), FlushAction::Done);
    assert_eq!(after_flush(1, false), FlushAction::Retry);
    assert_eq!(after_flush(2, false), FlushAction::SkipFrame);
    assert_eq!(after_flush(2, true), FlushAction::Done);
}

#[test]
fn knob_values_survive_panel_switches() {
    let mut app = App::new();
    app.setup_ui();
    let mut canvas = Canvas::new();
    let mut engine = Vec::new();
    let knob1 = InputDeviceId::Knob1.input_id();
    app.update(&vec![(knob1, Value::Int(0)), (knob1, Value::Int(20))], &mut canvas, &mut engine);
    assert_eq!(engine, vec![Command::SetParam(Param::ExcBowLevel, 20)]);
    app.update(&vec![(InputDeviceId::Button3.input_id(), Value::Bool(true))], &mut canvas, &mut engine);
    assert_eq!(app.active, PanelId::PanelStrike);
    assert_eq!(app.panel.as_ref().unwrap().knobs[0].value, 0);
    app.update(
        &vec![
            (InputDeviceId::Button3.input_id(), Value::Bool(false)),
            (InputDeviceId::Button1.input_id(), Value::Bool(true)),
        ],
        &mut canvas,
        &mut engine,
    );
    assert_eq!(app.active, PanelId::PanelBow);
    let knob = app.panel.as_ref().unwrap().knobs[0];
    assert_eq!(knob.param, Param::ExcBowLevel);
    assert_eq!(knob.value, 20);
    assert!(!knob.is_dirty());
    assert_eq!(app.params[Param::ExcBowLevel.index()], 20);
}

#[test]
fn render_is_least_box_of_dirty_widgets() {
    let buttons = vec![
        Button::new(Point::new(40, 3), "Ab", 0, Behavior::Redraw),
        Button::new(Point::new(10, 30), "Abcd", 1, Behavior::Redraw),
        Button::new(Point::new(0, 0), "Zzzzzzzz", 2, Behavior::Redraw),
    ];
    let mut panel = Panel::new((buttons, Vec::new()));
    let mut canvas = Canvas::new();
    panel.render(&mut canvas);
    panel.buttons[0].input_reset();
    panel.buttons[1].input_reset();
    let r = panel.render(&mut canvas);
    assert_eq!(r, (Point::new(10, 3), Size::new(42, 39)));
}
