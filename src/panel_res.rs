//! The resonator panel.

use vstd::prelude::*;
use crate::button::{fresh_button, Behavior, Button};
use crate::input::{device_input_id, InputDeviceId, Param, PanelId};
use crate::panel::widgets_wf;
use crate::knob::{fresh_knob, Knob};
use crate::layout::{button_pos, button_pos_spec, knob_pos, knob_pos_spec, lemma_short_caption_fits};

verus! {

/// The resonator panel's knobs: geometry, brightness, damping and position.
pub open spec fn res_knobs() -> Seq<Knob<'static>> {
    seq![
        fresh_knob(knob_pos_spec(0), "Geo", device_input_id(InputDeviceId::Knob1), Param::ResGeometry),
        fresh_knob(knob_pos_spec(1), "Bri", device_input_id(InputDeviceId::Knob2), Param::ResBrightness),
        fresh_knob(knob_pos_spec(2), "Damp", device_input_id(InputDeviceId::Knob3), Param::ResDamping),
        fresh_knob(knob_pos_spec(3), "Pos", device_input_id(InputDeviceId::Knob4), Param::ResPosition),
    ]
}

/// The resonator buttons with entry `active` marked by a leading star: the
/// two resonator pages, a way back to the exciters, and an inert system
/// button. The third slot stays empty.
pub open spec fn resonator_buttons(active: i8) -> Seq<Button<'static>> {
    seq![
        fresh_button(button_pos_spec(0), if active == 0 { "*Res1" } else { " Res1" },
            device_input_id(InputDeviceId::Button1), Behavior::Navigate(PanelId::PanelRes)),
        fresh_button(button_pos_spec(1), if active == 1 { "*Res2" } else { " Res2" },
            device_input_id(InputDeviceId::Button2), Behavior::Navigate(PanelId::PanelOutput)),
        fresh_button(button_pos_spec(3), "Exc",
            device_input_id(InputDeviceId::Button4), Behavior::Navigate(PanelId::PanelBow)),
        fresh_button(button_pos_spec(4), "Sys",
            device_input_id(InputDeviceId::Button5), Behavior::Redraw),
    ]
}

/// The resonator buttons fit their slots, whichever entry is marked.
pub proof fn lemma_resonator_buttons_wf(active: i8)
    ensures
        forall|i: int| 0 <= i < resonator_buttons(active).len() ==> (#[trigger] resonator_buttons(active)[i]).wf(),
{
    reveal_strlit("*Res1");
    reveal_strlit(" Res1");
    reveal_strlit("*Res2");
    reveal_strlit(" Res2");
    reveal_strlit("Exc");
    reveal_strlit("Sys");
    lemma_short_caption_fits(if active == 0 { "*Res1" } else { " Res1" }, 0);
    lemma_short_caption_fits(if active == 1 { "*Res2" } else { " Res2" }, 1);
    lemma_short_caption_fits("Exc", 3);
    lemma_short_caption_fits("Sys", 4);
}

pub fn setup_knobs() -> (r: Vec<Knob<'static>>)
    ensures
        r@ == res_knobs(),
        forall|i: int| 0 <= i < r@.len() ==> (#[trigger] r@[i]).wf(),
{
    let mut knobs: Vec<Knob<'static>> = Vec::new();
    knobs.push(Knob::new(knob_pos(0), "Geo", InputDeviceId::Knob1.input_id(), Param::ResGeometry));
    knobs.push(Knob::new(knob_pos(1), "Bri", InputDeviceId::Knob2.input_id(), Param::ResBrightness));
    knobs.push(Knob::new(knob_pos(2), "Damp", InputDeviceId::Knob3.input_id(), Param::ResDamping));
    knobs.push(Knob::new(knob_pos(3), "Pos", InputDeviceId::Knob4.input_id(), Param::ResPosition));
    assert(knobs@ =~= res_knobs());
    knobs
}

pub fn setup_resonator_buttons(active: i8) -> (r: Vec<Button<'static>>)
    ensures
        r@ == resonator_buttons(active),
        forall|i: int| 0 <= i < r@.len() ==> (#[trigger] r@[i]).wf(),
{
    let mut buttons: Vec<Button<'static>> = Vec::new();
    let c0 = if active == 0 { "*Res1" } else { " Res1" };
    let c1 = if active == 1 { "*Res2" } else { " Res2" };
    proof {
        lemma_resonator_buttons_wf(active);
        assert(resonator_buttons(active)[0].wf());
        assert(resonator_buttons(active)[1].wf());
        assert(resonator_buttons(active)[2].wf());
        assert(resonator_buttons(active)[3].wf());
    }
    buttons.push(Button::new(button_pos(0), c0, InputDeviceId::Button1.input_id(),
        Behavior::Navigate(PanelId::PanelRes)));
    buttons.push(Button::new(button_pos(1), c1, InputDeviceId::Button2.input_id(),
        Behavior::Navigate(PanelId::PanelOutput)));
    buttons.push(Button::new(button_pos(3), "Exc", InputDeviceId::Button4.input_id(),
        Behavior::Navigate(PanelId::PanelBow)));
    buttons.push(Button::new(button_pos(4), "Sys", InputDeviceId::Button5.input_id(),
        Behavior::Redraw));
    assert(buttons@ =~= resonator_buttons(active));
    buttons
}

/// The resonator panel's widgets, with the first page marked.
pub fn setup() -> (r: (Vec<Button<'static>>, Vec<Knob<'static>>))
    ensures
        r.0@ == resonator_buttons(0),
        widgets_wf(r.0@, r.1@),
        r.1@ == res_knobs(),
{
    (setup_resonator_buttons(0), setup_knobs())
}

} // verus!
