//! The drawing surface widgets paint into: an ordered list of drawing
//! operations that the display driver rasterises.

use vstd::prelude::*;
use crate::geometry::Point;

verus! {

/// One drawing operation.
#[derive(Clone, Copy, Debug, PartialEq, Eq)]
pub enum DrawOp<'a> {
    /// A caption in the 6x12 font at `pos`; `inverted` swaps fill and
    /// stroke colours (a highlighted button).
    Text { pos: Point, text: &'a str, inverted: bool },
    /// A knob cell at `pos`: its caption above a gauge of `value` out of
    /// `PARAM_MAX`.
    Gauge { pos: Point, caption: &'a str, value: u8 },
}

/// A surface that records what is painted into it, in order.
pub struct Canvas<'a> {
    pub ops: Vec<DrawOp<'a>>,
}

impl<'a> Canvas<'a> {
    pub fn new() -> (r: Canvas<'a>)
        ensures
            r.ops@ == Seq::<DrawOp<'a>>::empty(),
    {
        Canvas { ops: Vec::new() }
    }

    /// Paints one operation on top of what is already there.
    pub fn draw(&mut self, op: DrawOp<'a>)
        ensures
            final(self).ops@ == old(self).ops@.push(op),
    {
        self.ops.push(op);
    }

    /// Forgets what was painted, once it has been sent to the display.
    pub fn clear(&mut self)
        ensures
            final(self).ops@ == Seq::<DrawOp<'a>>::empty(),
    {
        self.ops.clear();
    }
}

} // verus!
