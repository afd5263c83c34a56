//! Retained-mode widget layer of a hardware control surface: buttons and
//! rotary encoders drive a small monochrome display organised into
//! switchable panels of on-screen controls.

pub mod geometry;
pub mod input;
pub mod canvas;
pub mod text;
pub mod button;
pub mod knob;
pub mod panel;
pub mod layout;
pub mod panel_bow;
pub mod panel_res;
pub mod panel_strike;
pub mod control;
