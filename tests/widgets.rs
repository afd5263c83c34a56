use kawa::button::{Behavior, Button};
use kawa::canvas::{Canvas, DrawOp};
use kawa::geometry::{Point, Size};
use kawa::input::{Command, PanelId, Param, Value};
use kawa::knob::{wrap_delta, Knob, ENCODER_WRAP, KNOB_HEIGHT, KNOB_WIDTH, PARAM_MAX};

#[test]
fn button_starts_dirty_and_render_clears_it() {
    let mut b = Button::new(Point::new(3, 4), "Bow", 0, Behavior::Redraw);
    assert!(b.is_dirty());
    let mut canvas = Canvas::new();
    let r = b.render(&mut canvas);
    assert!(!b.is_dirty());
    let r2 = b.render(&mut canvas);
    assert!(!b.is_dirty());
    assert_eq!(r, r2);
}

#[test]
fn button_render_box_is_caption_extent() {
    let mut b = Button::new(Point::new(26, 0), "Bow", 0, Behavior::Redraw);
    let mut canvas = Canvas::new();
    let (pos, size) = b.render(&mut canvas);
    assert_eq!(pos, Point::new(26, 0));
    assert_eq!(size, Size::new(18, 12));
    assert_eq!(
        canvas.ops,
        vec![DrawOp::Text { pos: Point::new(26, 0), text: "Bow", inverted: false }]
    );
}

#[test]
fn empty_caption_paints_nothing() {
    let mut b = Button::new(Point::new(0, 0), "", 0, Behavior::Redraw);
    let mut canvas = Canvas::new();
    let (_, size) = b.render(&mut canvas);
    assert_eq!(size, Size::new(0, 0));
}

#[test]
fn input_reset_marks_dirty_even_when_dirty() {
    let mut b = Button::new(Point::new(0, 0), "Sys", 4, Behavior::Redraw);
    b.input_reset();
    assert!(b.is_dirty());
    let mut canvas = Canvas::new();
    b.render(&mut canvas);
    b.input_reset();
    b.input_reset();
    assert!(b.is_dirty());

    let mut k = Knob::new(Point::new(0, 40), "Lvl", 5, Param::ExcBowLevel);
    k.render(&mut canvas);
    assert!(!k.is_dirty());
    k.input_reset();
    assert!(k.is_dirty());
}

#[test]
fn pressed_button_highlights_and_asks() {
    let mut b = Button::new(Point::new(0, 0), "Str", 2, Behavior::NavigateAndGate(PanelId::PanelStrike));
    let mut canvas = Canvas::new();
    b.render(&mut canvas);
    let mut cmds = Vec::new();
    b.input_update(2, Value::Bool(true), &mut cmds);
    assert!(b.is_dirty());
    assert!(b.highlight);
    assert_eq!(cmds, vec![Command::SwitchTo(PanelId::PanelStrike), Command::TriggerNote(true)]);
    b.render(&mut canvas);
    assert_eq!(
        canvas.ops[1],
        DrawOp::Text { pos: Point::new(0, 0), text: "Str", inverted: true }
    );
    cmds.clear();
    b.input_update(2, Value::Bool(false), &mut cmds);
    assert_eq!(cmds, vec![Command::TriggerNote(false)]);
    assert!(!b.highlight);
}

#[test]
fn button_ignores_other_ids_and_counts() {
    let mut b = Button::new(Point::new(0, 0), "Bow", 0, Behavior::Gate);
    let mut canvas = Canvas::new();
    b.render(&mut canvas);
    let mut cmds = Vec::new();
    b.input_update(1, Value::Bool(true), &mut cmds);
    b.input_update(0, Value::Int(7), &mut cmds);
    assert!(!b.is_dirty());
    assert!(cmds.is_empty());
}

#[test]
fn inert_button_never_dirty_after_render() {
    let mut b = Button::new(Point::new(0, 0), "Nop", 3, Behavior::Inert);
    let mut canvas = Canvas::new();
    b.render(&mut canvas);
    let mut cmds = Vec::new();
    for i in 0..10 {
        b.input_update(3, Value::Bool(i % 2 == 0), &mut cmds);
        assert!(!b.is_dirty());
    }
    assert!(cmds.is_empty());
}

#[test]
fn wrap_delta_takes_the_short_way() {
    assert_eq!(wrap_delta(5, 6, 256), 1);
    assert_eq!(wrap_delta(6, 250, 256), -12);
    assert_eq!(wrap_delta(250, 251, 256), 1);
    assert_eq!(wrap_delta(255, 0, 256), 1);
    assert_eq!(wrap_delta(0, 255, 256), -1);
    assert_eq!(wrap_delta(0, 128, 256), 128);
    assert_eq!(wrap_delta(128, 0, 256), -128);
    assert_eq!(wrap_delta(200, 72, 256), -128);
    assert_eq!(wrap_delta(72, 200, 256), 128);
    assert_eq!(wrap_delta(i32::MIN, 0, 0x1_0000_0000), 0x8000_0000);
    assert_eq!(wrap_delta(0, i32::MIN, 0x1_0000_0000), -0x8000_0000);
    assert_eq!(wrap_delta(0, 127, 256), 127);
    assert_eq!(wrap_delta(65535, 0, ENCODER_WRAP), 1);
    assert_eq!(wrap_delta(i32::MAX, i32::MIN, 0x1_0000_0000), 1);
    assert_eq!(wrap_delta(i32::MIN, i32::MAX, 0x1_0000_0000), -1);
    assert_eq!(wrap_delta(3, 9, 1), 0);
}

#[test]
fn knob_follows_wrapping_encoder() {
    let mut k = Knob::new(Point::new(0, 40), "Lvl", 5, Param::ExcBowLevel)
        .with_wrap(256)
        .with_value(64);
    let mut canvas = Canvas::new();
    k.render(&mut canvas);
    let mut cmds = Vec::new();
    k.input_update(5, Value::Int(5), &mut cmds);
    assert_eq!(k.value, 64);
    assert!(!k.is_dirty());
    k.input_update(5, Value::Int(6), &mut cmds);
    assert_eq!(k.value, 65);
    k.input_update(5, Value::Int(250), &mut cmds);
    assert_eq!(k.value, 53);
    k.input_update(5, Value::Int(251), &mut cmds);
    assert_eq!(k.value, 54);
    assert!(k.is_dirty());
    assert_eq!(
        cmds,
        vec![
            Command::SetParam(Param::ExcBowLevel, 65),
            Command::SetParam(Param::ExcBowLevel, 53),
            Command::SetParam(Param::ExcBowLevel, 54),
        ]
    );
}

#[test]
fn knob_half_turn_goes_the_raw_way() {
    let mut k = Knob::new(Point::new(0, 40), "Lvl", 5, Param::ExcBowLevel).with_wrap(256);
    let mut cmds = Vec::new();
    k.input_update(5, Value::Int(0), &mut cmds);
    k.input_update(5, Value::Int(100), &mut cmds);
    assert_eq!(k.value, 100);
    k.input_update(5, Value::Int(228), &mut cmds);
    assert_eq!(k.value, PARAM_MAX);
    let mut k = Knob::new(Point::new(0, 40), "Lvl", 5, Param::ExcBowLevel).with_wrap(256);
    k.input_update(5, Value::Int(0), &mut cmds);
    k.input_update(5, Value::Int(128), &mut cmds);
    assert_eq!(k.value, 127);
}

#[test]
fn knob_clamps_to_range() {
    let mut k = Knob::new(Point::new(0, 40), "Lvl", 5, Param::ExcBowLevel).with_value(250);
    assert_eq!(k.value, PARAM_MAX);
    let mut canvas = Canvas::new();
    k.render(&mut canvas);
    let mut cmds = Vec::new();
    k.input_update(5, Value::Int(100), &mut cmds);
    k.input_update(5, Value::Int(110), &mut cmds);
    assert_eq!(k.value, PARAM_MAX);
    assert!(!k.is_dirty());
    assert!(cmds.is_empty());
    k.input_update(5, Value::Int(0), &mut cmds);
    assert_eq!(k.value, PARAM_MAX - 110);
    k.input_update(5, Value::Int(-200), &mut cmds);
    assert_eq!(k.value, 0);
}

#[test]
fn knob_ignores_levels_and_other_ids() {
    let mut k = Knob::new(Point::new(0, 40), "Lvl", 5, Param::ExcBowLevel);
    let mut canvas = Canvas::new();
    let r = k.render(&mut canvas);
    assert_eq!(r, (Point::new(0, 40), Size::new(KNOB_WIDTH, KNOB_HEIGHT)));
    let mut cmds = Vec::new();
    k.input_update(5, Value::Bool(true), &mut cmds);
    k.input_update(6, Value::Int(3), &mut cmds);
    assert_eq!(k.last, None);
    k.input_update(5, Value::Int(3), &mut cmds);
    k.input_update(6, Value::Int(9), &mut cmds);
    assert_eq!(k.value, 0);
    assert!(!k.is_dirty());
    assert!(cmds.is_empty());
}
