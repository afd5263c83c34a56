//! The strike exciter panel.

use vstd::prelude::*;
use crate::button::Button;
use crate::input::{device_input_id, InputDeviceId, Param};
use crate::panel::widgets_wf;
use crate::knob::{fresh_knob, Knob};
use crate::layout::{knob_pos, knob_pos_spec};
use crate::panel_bow::{exciter_buttons, setup_exciter_buttons};

verus! {

/// The strike panel's knobs: level, timbre and mallet, the third encoder
/// left unbound.
pub open spec fn strike_knobs() -> Seq<Knob<'static>> {
    seq![
        fresh_knob(knob_pos_spec(0), "Lvl", device_input_id(InputDeviceId::Knob1), Param::ExcStrikeLevel),
        fresh_knob(knob_pos_spec(1), "Tmbr", device_input_id(InputDeviceId::Knob2), Param::ExcStrikeTimbre),
        fresh_knob(knob_pos_spec(3), "Mllt", device_input_id(InputDeviceId::Knob4), Param::ExcStrikeMeta),
    ]
}

pub fn setup_knobs() -> (r: Vec<Knob<'static>>)
    ensures
        r@ == strike_knobs(),
        forall|i: int| 0 <= i < r@.len() ==> (#[trigger] r@[i]).wf(),
{
    let mut knobs: Vec<Knob<'static>> = Vec::new();
    knobs.push(Knob::new(knob_pos(0), "Lvl", InputDeviceId::Knob1.input_id(), Param::ExcStrikeLevel));
    knobs.push(Knob::new(knob_pos(1), "Tmbr", InputDeviceId::Knob2.input_id(), Param::ExcStrikeTimbre));
    knobs.push(Knob::new(knob_pos(3), "Mllt", InputDeviceId::Knob4.input_id(), Param::ExcStrikeMeta));
    assert(knobs@ =~= strike_knobs());
    knobs
}

/// The strike panel's widgets, with the strike entry marked.
pub fn setup() -> (r: (Vec<Button<'static>>, Vec<Knob<'static>>))
    ensures
        r.0@ == exciter_buttons(2),
        widgets_wf(r.0@, r.1@),
        r.1@ == strike_knobs(),
{
    (setup_exciter_buttons(2), setup_knobs())
}

} // verus!
