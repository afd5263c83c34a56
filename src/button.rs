//! A push button bound to one digital input.

use vstd::prelude::*;
use vstd::string::StringSliceAdditionalSpecFns;
use crate::canvas::{Canvas, DrawOp};
use crate::geometry::{fits, Point, Size};
use crate::input::{Command, InputId, PanelId, Value};
use crate::text::{caption_size, text_extent};

verus! {

/// What pressing or releasing a button does. Each behaviour decides whether
/// the button repaints and which commands it hands to the device.
#[derive(Clone, Copy, Debug, PartialEq, Eq, Structural)]
pub enum Behavior {
    /// Nothing happens and the button never repaints.
    Inert,
    /// The button repaints to follow its level; nothing else happens.
    Redraw,
    /// The note gate follows the level, and the button repaints.
    Gate,
    /// A press asks for the panel, and the button repaints.
    Navigate(PanelId),
    /// A press asks for the panel, the note gate follows the level, and the
    /// button repaints.
    NavigateAndGate(PanelId),
}

/// Whether `b` asks for a repaint.
pub open spec fn behavior_redraws(b: Behavior) -> bool {
    !(b is Inert)
}

/// The commands that `b` hands out for a reading of `pressed`.
pub open spec fn behavior_commands(b: Behavior, pressed: bool) -> Seq<Command> {
    match b {
        Behavior::Inert => seq![],
        Behavior::Redraw => seq![],
        Behavior::Gate => seq![Command::TriggerNote(pressed)],
        Behavior::Navigate(p) => if pressed { seq![Command::SwitchTo(p)] } else { seq![] },
        Behavior::NavigateAndGate(p) => if pressed {
            seq![Command::SwitchTo(p), Command::TriggerNote(pressed)]
        } else {
            seq![Command::TriggerNote(pressed)]
        },
    }
}

impl Behavior {
    /// Carries out the behaviour for a reading of `pressed`: appends its
    /// commands and tells whether the button has to repaint.
    pub fn react(self, pressed: bool, commands: &mut Vec<Command>) -> (redraw: bool)
        ensures
            redraw == behavior_redraws(self),
            final(commands)@ == old(commands)@ + behavior_commands(self, pressed),
    {
        let ghost before = commands@;
        match self {
            Behavior::Inert => false,
            Behavior::Redraw => true,
            Behavior::Gate => {
                commands.push(Command::TriggerNote(pressed));
                true
            },
            Behavior::Navigate(p) => {
                if pressed {
                    commands.push(Command::SwitchTo(p));
                }
                assert(commands@ =~= before + behavior_commands(self, pressed));
                true
            },
            Behavior::NavigateAndGate(p) => {
                if pressed {
                    commands.push(Command::SwitchTo(p));
                }
                commands.push(Command::TriggerNote(pressed));
                assert(commands@ =~= before + behavior_commands(self, pressed));
                true
            },
        }
    }
}

/// A button: its caption at `pos`, highlighted while pressed if its
/// behaviour repaints it.
#[derive(Clone, Copy, Debug)]
pub struct Button<'a> {
    pub pos: Point,
    pub caption: &'a str,
    pub input_id: InputId,
    pub highlight: bool,
    pub dirty: bool,
    pub behavior: Behavior,
}

/// The caption can be measured and its box ends on the surface.
pub open spec fn caption_fits(pos: Point, caption: &str) -> bool {
    &&& 6 * caption.spec_bytes().len() <= u32::MAX
    &&& fits((pos, text_extent(caption)))
}

/// The box a button paints: its caption's extent at its position.
pub open spec fn button_rect(b: Button) -> (Point, Size) {
    (b.pos, text_extent(b.caption))
}

/// The button after a reading of `value` from input `id`: only a level from
/// its own input reaches the behaviour, and only a repainting behaviour
/// changes the highlight and marks the button dirty.
pub open spec fn button_updated<'a>(b: Button<'a>, id: InputId, value: Value) -> Button<'a> {
    match value {
        Value::Bool(pressed) => if id == b.input_id && behavior_redraws(b.behavior) {
            Button { highlight: pressed, dirty: true, ..b }
        } else {
            b
        },
        Value::Int(_) => b,
    }
}

/// The commands a button hands out for a reading of `value` from input `id`.
pub open spec fn button_commands(b: Button, id: InputId, value: Value) -> Seq<Command> {
    match value {
        Value::Bool(pressed) => if id == b.input_id {
            behavior_commands(b.behavior, pressed)
        } else {
            seq![]
        },
        Value::Int(_) => seq![],
    }
}

/// A button as built: not highlighted and due for its first paint.
pub open spec fn fresh_button<'a>(pos: Point, caption: &'a str, input_id: InputId, behavior: Behavior) -> Button<'a> {
    Button { pos, caption, input_id, highlight: false, dirty: true, behavior }
}

/// The button after a sequence of readings, taken in order.
pub open spec fn button_after_readings<'a>(b: Button<'a>, rs: Seq<(InputId, Value)>) -> Button<'a>
    decreases rs.len(),
{
    if rs.len() == 0 {
        b
    } else {
        button_updated(button_after_readings(b, rs.drop_last()), rs.last().0, rs.last().1)
    }
}

/// A button whose behaviour never asks for a repaint is left exactly as it
/// is by any readings whatever: once painted, presses never make it dirty
/// again, and it hands out no commands.
pub proof fn lemma_inert_button_unchanged(b: Button, rs: Seq<(InputId, Value)>)
    requires
        b.behavior is Inert,
    ensures
        button_after_readings(b, rs) == b,
        forall|i: int| 0 <= i < rs.len() ==> button_commands(b, (#[trigger] rs[i]).0, rs[i].1) == Seq::<Command>::empty(),
    decreases rs.len(),
{
    if rs.len() > 0 {
        lemma_inert_button_unchanged(b, rs.drop_last());
    }
    assert forall|i: int| 0 <= i < rs.len() implies button_commands(b, (#[trigger] rs[i]).0, rs[i].1) == Seq::<Command>::empty() by {
        assert(behavior_commands(Behavior::Inert, true) =~= Seq::<Command>::empty());
        assert(behavior_commands(Behavior::Inert, false) =~= Seq::<Command>::empty());
    }
}

impl<'a> Button<'a> {
    pub open spec fn wf(&self) -> bool {
        caption_fits(self.pos, self.caption)
    }

    /// A new button, not highlighted and due for its first paint.
    pub fn new(pos: Point, caption: &'a str, input_id: InputId, behavior: Behavior) -> (r: Button<'a>)
        requires
            caption_fits(pos, caption),
        ensures
            r == fresh_button(pos, caption, input_id, behavior),
            r.wf(),
    {
        Button { pos, caption, input_id, highlight: false, dirty: true, behavior }
    }

    /// Paints the caption (inverted while highlighted), clears the dirty
    /// flag, and returns the box painted.
    pub fn render(&mut self, canvas: &mut Canvas<'a>) -> (r: (Point, Size))
        requires
            old(self).wf(),
        ensures
            *final(self) == (Button { dirty: false, ..*old(self) }),
            r == button_rect(*old(self)),
            final(canvas).ops@ == old(canvas).ops@.push(
                DrawOp::Text { pos: old(self).pos, text: old(self).caption, inverted: old(self).highlight },
            ),
    {
        let size = caption_size(self.caption);
        canvas.draw(DrawOp::Text { pos: self.pos, text: self.caption, inverted: self.highlight });
        self.dirty = false;
        (self.pos, size)
    }

    pub fn is_dirty(&self) -> (r: bool)
        ensures
            r == self.dirty,
    {
        self.dirty
    }

    /// Marks the button for repainting.
    pub fn input_reset(&mut self)
        ensures
            *final(self) == (Button { dirty: true, ..*old(self) }),
    {
        self.dirty = true;
    }

    /// Applies a reading of input `input_id`, appending what the behaviour
    /// asks of the device to `commands`.
    pub fn input_update(&mut self, input_id: InputId, value: Value, commands: &mut Vec<Command>)
        ensures
            *final(self) == button_updated(*old(self), input_id, value),
            final(commands)@ == old(commands)@ + button_commands(*old(self), input_id, value),
    {
        let ghost before = commands@;
        if let Value::Bool(pressed) = value {
            if input_id == self.input_id {
                if self.behavior.react(pressed, commands) {
                    self.highlight = pressed;
                    self.dirty = true;
                }
                return;
            }
        }
        assert(commands@ =~= before + button_commands(*old(self), input_id, value));
    }
}

} // verus!
