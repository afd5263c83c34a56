//! The vocabulary of physical inputs and of what the widgets ask of the
//! rest of the device.

use vstd::prelude::*;

verus! {

/// Identifies one physical input source, a button or an encoder.
pub type InputId = u8;

/// The reading of one input: a digital level (true = pressed) or an
/// absolute encoder count, which wraps as the hardware counter does.
#[derive(Clone, Copy, Debug, PartialEq, Eq, Structural)]
pub enum Value {
    Bool(bool),
    Int(i32),
}

/// The physical controls of the device.
#[derive(Clone, Copy, Debug, PartialEq, Eq, Structural)]
pub enum InputDeviceId {
    Button1,
    Button2,
    Button3,
    Button4,
    Button5,
    Knob1,
    Knob2,
    Knob3,
    Knob4,
}

pub open spec fn device_input_id(d: InputDeviceId) -> InputId {
    match d {
        InputDeviceId::Button1 => 0,
        InputDeviceId::Button2 => 1,
        InputDeviceId::Button3 => 2,
        InputDeviceId::Button4 => 3,
        InputDeviceId::Button5 => 4,
        InputDeviceId::Knob1 => 5,
        InputDeviceId::Knob2 => 6,
        InputDeviceId::Knob3 => 7,
        InputDeviceId::Knob4 => 8,
    }
}

impl InputDeviceId {
    /// The input id under which this control reports, in enumeration order.
    pub fn input_id(self) -> (r: InputId)
        ensures
            r == device_input_id(self),
    {
        match self {
            InputDeviceId::Button1 => 0,
            InputDeviceId::Button2 => 1,
            InputDeviceId::Button3 => 2,
            InputDeviceId::Button4 => 3,
            InputDeviceId::Button5 => 4,
            InputDeviceId::Knob1 => 5,
            InputDeviceId::Knob2 => 6,
            InputDeviceId::Knob3 => 7,
            InputDeviceId::Knob4 => 8,
        }
    }
}

/// A parameter of the synthesis engine.
#[derive(Clone, Copy, Debug, PartialEq, Eq, Structural)]
pub enum Param {
    ExcBowLevel,
    ExcBowTimbre,
    ExcEnvShape,
    ExcStrikeLevel,
    ExcStrikeTimbre,
    ExcStrikeMeta,
    ResGeometry,
    ResBrightness,
    ResDamping,
    ResPosition,
}

/// The number of synthesis parameters.
pub const PARAM_COUNT: usize = 10;

/// The position of `p` in the declaration order of `Param`.
pub open spec fn param_index(p: Param) -> int {
    match p {
        Param::ExcBowLevel => 0,
        Param::ExcBowTimbre => 1,
        Param::ExcEnvShape => 2,
        Param::ExcStrikeLevel => 3,
        Param::ExcStrikeTimbre => 4,
        Param::ExcStrikeMeta => 5,
        Param::ResGeometry => 6,
        Param::ResBrightness => 7,
        Param::ResDamping => 8,
        Param::ResPosition => 9,
    }
}

impl Param {
    /// The position of this parameter in declaration order, below
    /// `PARAM_COUNT`.
    pub fn index(self) -> (r: usize)
        ensures
            r == param_index(self),
            r < PARAM_COUNT,
    {
        match self {
            Param::ExcBowLevel => 0,
            Param::ExcBowTimbre => 1,
            Param::ExcEnvShape => 2,
            Param::ExcStrikeLevel => 3,
            Param::ExcStrikeTimbre => 4,
            Param::ExcStrikeMeta => 5,
            Param::ResGeometry => 6,
            Param::ResBrightness => 7,
            Param::ResDamping => 8,
            Param::ResPosition => 9,
        }
    }
}

/// The panels that navigation buttons can ask for.
#[derive(Clone, Copy, Debug, PartialEq, Eq, Structural)]
pub enum PanelId {
    PanelBow,
    PanelBlow,
    PanelStrike,
    PanelRes,
    PanelOutput,
}

/// What an input asks of the rest of the device, carried out by the loop
/// that owns the active panel and the synthesis engine.
#[derive(Clone, Copy, Debug, PartialEq, Eq, Structural)]
pub enum Command {
    /// Replace the active panel.
    SwitchTo(PanelId),
    /// Open (true) or close (false) the note gate of the synthesis engine.
    TriggerNote(bool),
    /// Set a parameter of the synthesis engine to a value in `0..=PARAM_MAX`.
    SetParam(Param, u8),
}

} // verus!
