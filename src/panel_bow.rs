//! The bow exciter panel, and the exciter buttons that every exciter panel
//! shares.

use vstd::prelude::*;
use crate::button::{fresh_button, Behavior, Button};
use crate::input::{device_input_id, InputDeviceId, Param, PanelId};
use crate::panel::widgets_wf;
use crate::knob::{fresh_knob, Knob};
use crate::layout::{button_pos, button_pos_spec, knob_pos, knob_pos_spec, lemma_short_caption_fits};

verus! {

/// The bow panel's knobs: level, timbre and envelope contour.
pub open spec fn bow_knobs() -> Seq<Knob<'static>> {
    seq![
        fresh_knob(knob_pos_spec(0), "Lvl", device_input_id(InputDeviceId::Knob1), Param::ExcBowLevel),
        fresh_knob(knob_pos_spec(1), "Tmbr", device_input_id(InputDeviceId::Knob2), Param::ExcBowTimbre),
        fresh_knob(knob_pos_spec(2), "Cntr", device_input_id(InputDeviceId::Knob3), Param::ExcEnvShape),
    ]
}

/// The exciter buttons with entry `active` marked by a leading star: one
/// per exciter panel and one for the resonator panels, each of which opens
/// its panel and plays the note while held, and an inert system button.
pub open spec fn exciter_buttons(active: i8) -> Seq<Button<'static>> {
    seq![
        fresh_button(button_pos_spec(0), if active == 0 { "*Bow" } else { " Bow" },
            device_input_id(InputDeviceId::Button1), Behavior::NavigateAndGate(PanelId::PanelBow)),
        fresh_button(button_pos_spec(1), if active == 1 { "*Blw" } else { " Blw" },
            device_input_id(InputDeviceId::Button2), Behavior::NavigateAndGate(PanelId::PanelBlow)),
        fresh_button(button_pos_spec(2), if active == 2 { "*Str" } else { " Str" },
            device_input_id(InputDeviceId::Button3), Behavior::NavigateAndGate(PanelId::PanelStrike)),
        fresh_button(button_pos_spec(3), "Res",
            device_input_id(InputDeviceId::Button4), Behavior::NavigateAndGate(PanelId::PanelRes)),
        fresh_button(button_pos_spec(4), "Sys",
            device_input_id(InputDeviceId::Button5), Behavior::Redraw),
    ]
}

/// The exciter buttons fit their slots, whichever entry is marked.
pub proof fn lemma_exciter_buttons_wf(active: i8)
    ensures
        forall|i: int| 0 <= i < exciter_buttons(active).len() ==> (#[trigger] exciter_buttons(active)[i]).wf(),
{
    reveal_strlit("*Bow");
    reveal_strlit(" Bow");
    reveal_strlit("*Blw");
    reveal_strlit(" Blw");
    reveal_strlit("*Str");
    reveal_strlit(" Str");
    reveal_strlit("Res");
    reveal_strlit("Sys");
    lemma_short_caption_fits(if active == 0 { "*Bow" } else { " Bow" }, 0);
    lemma_short_caption_fits(if active == 1 { "*Blw" } else { " Blw" }, 1);
    lemma_short_caption_fits(if active == 2 { "*Str" } else { " Str" }, 2);
    lemma_short_caption_fits("Res", 3);
    lemma_short_caption_fits("Sys", 4);
}

pub fn setup_knobs() -> (r: Vec<Knob<'static>>)
    ensures
        r@ == bow_knobs(),
        forall|i: int| 0 <= i < r@.len() ==> (#[trigger] r@[i]).wf(),
{
    let mut knobs: Vec<Knob<'static>> = Vec::new();
    knobs.push(Knob::new(knob_pos(0), "Lvl", InputDeviceId::Knob1.input_id(), Param::ExcBowLevel));
    knobs.push(Knob::new(knob_pos(1), "Tmbr", InputDeviceId::Knob2.input_id(), Param::ExcBowTimbre));
    knobs.push(Knob::new(knob_pos(2), "Cntr", InputDeviceId::Knob3.input_id(), Param::ExcEnvShape));
    assert(knobs@ =~= bow_knobs());
    knobs
}

pub fn setup_exciter_buttons(active: i8) -> (r: Vec<Button<'static>>)
    ensures
        r@ == exciter_buttons(active),
        forall|i: int| 0 <= i < r@.len() ==> (#[trigger] r@[i]).wf(),
{
    let mut buttons: Vec<Button<'static>> = Vec::new();
    let c0 = if active == 0 { "*Bow" } else { " Bow" };
    let c1 = if active == 1 { "*Blw" } else { " Blw" };
    let c2 = if active == 2 { "*Str" } else { " Str" };
    proof {
        lemma_exciter_buttons_wf(active);
        assert(exciter_buttons(active)[0].wf());
        assert(exciter_buttons(active)[1].wf());
        assert(exciter_buttons(active)[2].wf());
        assert(exciter_buttons(active)[3].wf());
        assert(exciter_buttons(active)[4].wf());
    }
    buttons.push(Button::new(button_pos(0), c0, InputDeviceId::Button1.input_id(),
        Behavior::NavigateAndGate(PanelId::PanelBow)));
    buttons.push(Button::new(button_pos(1), c1, InputDeviceId::Button2.input_id(),
        Behavior::NavigateAndGate(PanelId::PanelBlow)));
    buttons.push(Button::new(button_pos(2), c2, InputDeviceId::Button3.input_id(),
        Behavior::NavigateAndGate(PanelId::PanelStrike)));
    buttons.push(Button::new(button_pos(3), "Res", InputDeviceId::Button4.input_id(),
        Behavior::NavigateAndGate(PanelId::PanelRes)));
    buttons.push(Button::new(button_pos(4), "Sys", InputDeviceId::Button5.input_id(),
        Behavior::Redraw));
    assert(buttons@ =~= exciter_buttons(active));
    buttons
}

/// The bow panel's widgets, with the bow entry marked.
pub fn setup() -> (r: (Vec<Button<'static>>, Vec<Knob<'static>>))
    ensures
        r.0@ == exciter_buttons(0),
        widgets_wf(r.0@, r.1@),
        r.1@ == bow_knobs(),
{
    (setup_exciter_buttons(0), setup_knobs())
}

} // verus!
