//! A knob bound to one rotary encoder and one synthesis parameter.

use vstd::prelude::*;
use vstd::arithmetic::div_mod::{lemma_fundamental_div_mod, lemma_fundamental_div_mod_converse};
use crate::canvas::{Canvas, DrawOp};
use crate::geometry::{fits, Point, Size};
use crate::input::{Command, InputId, Param, Value};

verus! {

/// The largest value of a synthesis parameter.
pub const PARAM_MAX: u8 = 127;

/// The wrap modulus of the encoder counters: they count in 16 bits.
pub const ENCODER_WRAP: u64 = 65536;

/// The largest wrap modulus a counter read as `i32` can have.
pub const MAX_WRAP: u64 = 0x1_0000_0000;

/// Width of the cell a knob paints.
pub const KNOB_WIDTH: u32 = 30;

/// Height of the cell a knob paints: a caption line and a gauge line.
pub const KNOB_HEIGHT: u32 = 24;

/// The signed distance from encoder count `prev` to `cur` on a counter that
/// wraps modulo `m`: the representative of `cur - prev` modulo `m` that lies
/// in `[-m/2, m/2]`, so that the shorter way round wins. A jump of exactly
/// half the modulus is taken in the direction of the raw difference.
pub open spec fn wrap_delta_spec(prev: int, cur: int, m: int) -> int {
    let d = (cur - prev) % m;
    if 2 * d > m || (2 * d == m && cur < prev) { d - m } else { d }
}

/// The change in encoder count from `prev` to `cur` on a counter that wraps
/// modulo `modulus`, taken the shorter way round.
pub fn wrap_delta(prev: i32, cur: i32, modulus: u64) -> (r: i64)
    requires
        1 <= modulus <= MAX_WRAP,
    ensures
        r == wrap_delta_spec(prev as int, cur as int, modulus as int),
        (r - (cur - prev)) % (modulus as int) == 0,
        -(modulus as int) <= 2 * r <= modulus as int,
{
    let diff: i64 = cur as i64 - prev as i64;
    let ghost m = modulus as int;
    let d: u64 = if diff >= 0 {
        (diff as u64) % modulus
    } else {
        let n: u64 = ((-diff) as u64) % modulus;
        proof {
            let x = diff as int;
            let nn = -x;
            lemma_fundamental_div_mod(nn, m);
            let q = nn / m;
            if n == 0 {
                assert(x == (-q) * m + 0) by (nonlinear_arith)
                    requires nn == m * q + 0, x == -nn;
                lemma_fundamental_div_mod_converse(x, m, -q, 0);
            } else {
                assert(x == (-q - 1) * m + (m - n)) by (nonlinear_arith)
                    requires nn == m * q + n, x == -nn;
                lemma_fundamental_div_mod_converse(x, m, -q - 1, m - n);
            }
        }
        if n == 0 { 0 } else { modulus - n }
    };
    proof {
        let x = diff as int;
        assert(d as int == x % m);
        lemma_fundamental_div_mod(x, m);
        let q = x / m;
        if 2 * d > m || (2 * d == m && cur < prev) {
            assert((d - m) - x == m * (-q - 1)) by (nonlinear_arith)
                requires x == m * q + d;
            lemma_fundamental_div_mod_converse((d - m) - x, m, -q - 1, 0);
        } else {
            assert(d - x == m * (-q)) by (nonlinear_arith)
                requires x == m * q + d;
            lemma_fundamental_div_mod_converse(d - x, m, -q, 0);
        }
    }
    if 2 * d > modulus || (2 * d == modulus && cur < prev) {
        d as i64 - modulus as i64
    } else {
        d as i64
    }
}

/// `v + delta`, held to `0..=PARAM_MAX`.
pub open spec fn clamp_param(v: int, delta: int) -> int {
    if v + delta < 0 {
        0
    } else if v + delta > PARAM_MAX {
        PARAM_MAX as int
    } else {
        v + delta
    }
}

/// A knob: its caption and a gauge of its parameter's value, in a fixed
/// cell at `pos`. It moves its value by one for each encoder count.
#[derive(Clone, Copy, Debug)]
pub struct Knob<'a> {
    pub pos: Point,
    pub caption: &'a str,
    pub input_id: InputId,
    pub param: Param,
    /// The value last handed to the synthesis engine.
    pub value: u8,
    /// The last encoder count seen; none before the first reading.
    pub last: Option<i32>,
    /// The wrap modulus of the encoder counter.
    pub wrap: u64,
    pub dirty: bool,
}

/// The cell a knob paints.
pub open spec fn knob_rect(k: Knob) -> (Point, Size) {
    (k.pos, Size { width: KNOB_WIDTH, height: KNOB_HEIGHT })
}

/// The knob after a reading of `value` from input `id`. Only a count from
/// its own input counts. The first count only sets the reference point;
/// each later one moves the value by the wrapped distance, held to range,
/// and the knob is dirty when the value changed.
pub open spec fn knob_updated<'a>(k: Knob<'a>, id: InputId, value: Value) -> Knob<'a> {
    match value {
        Value::Int(c) => if id != k.input_id {
            k
        } else {
            match k.last {
                None => Knob { last: Some(c), ..k },
                Some(p) => {
                    let nv = clamp_param(k.value as int, wrap_delta_spec(p as int, c as int, k.wrap as int));
                    if nv == k.value {
                        Knob { last: Some(c), ..k }
                    } else {
                        Knob { last: Some(c), value: nv as u8, dirty: true, ..k }
                    }
                },
            }
        },
        Value::Bool(_) => k,
    }
}

/// What a knob hands to the synthesis engine for a reading: the new value of
/// its parameter, when the value changed.
pub open spec fn knob_commands(k: Knob, id: InputId, value: Value) -> Seq<Command> {
    let n = knob_updated(k, id, value);
    if n.value != k.value { seq![Command::SetParam(k.param, n.value)] } else { seq![] }
}

/// A knob as built: at value zero, with no count seen yet, on a counter of
/// `ENCODER_WRAP`, due for its first paint.
pub open spec fn fresh_knob<'a>(pos: Point, caption: &'a str, input_id: InputId, param: Param) -> Knob<'a> {
    Knob { pos, caption, input_id, param, value: 0, last: None, wrap: ENCODER_WRAP, dirty: true }
}

impl<'a> Knob<'a> {
    pub open spec fn wf(&self) -> bool {
        &&& fits(knob_rect(*self))
        &&& self.value <= PARAM_MAX
        &&& 1 <= self.wrap <= MAX_WRAP
    }

    /// A new knob at value zero, on a counter of `ENCODER_WRAP`, due for its
    /// first paint.
    pub fn new(pos: Point, caption: &'a str, input_id: InputId, param: Param) -> (r: Knob<'a>)
        requires
            fits((pos, Size { width: KNOB_WIDTH, height: KNOB_HEIGHT })),
        ensures
            r == fresh_knob(pos, caption, input_id, param),
            r.wf(),
    {
        Knob { pos, caption, input_id, param, value: 0, last: None, wrap: ENCODER_WRAP, dirty: true }
    }

    /// The same knob on a counter that wraps modulo `modulus`.
    pub fn with_wrap(self, modulus: u64) -> (r: Knob<'a>)
        requires
            1 <= modulus <= MAX_WRAP,
        ensures
            r == (Knob { wrap: modulus, ..self }),
    {
        Knob { wrap: modulus, ..self }
    }

    /// The same knob starting from `value`, the parameter's current value,
    /// held to `PARAM_MAX`.
    pub fn with_value(self, value: u8) -> (r: Knob<'a>)
        ensures
            r == (Knob { value: if value > PARAM_MAX { PARAM_MAX } else { value }, ..self }),
    {
        Knob { value: if value > PARAM_MAX { PARAM_MAX } else { value }, ..self }
    }

    /// Paints the caption and gauge, clears the dirty flag, and returns the
    /// knob's cell.
    pub fn render(&mut self, canvas: &mut Canvas<'a>) -> (r: (Point, Size))
        ensures
            *final(self) == (Knob { dirty: false, ..*old(self) }),
            r == knob_rect(*old(self)),
            final(canvas).ops@ == old(canvas).ops@.push(
                DrawOp::Gauge { pos: old(self).pos, caption: old(self).caption, value: old(self).value },
            ),
    {
        canvas.draw(DrawOp::Gauge { pos: self.pos, caption: self.caption, value: self.value });
        self.dirty = false;
        (self.pos, Size { width: KNOB_WIDTH, height: KNOB_HEIGHT })
    }

    pub fn is_dirty(&self) -> (r: bool)
        ensures
            r == self.dirty,
    {
        self.dirty
    }

    /// Marks the knob for repainting.
    pub fn input_reset(&mut self)
        ensures
            *final(self) == (Knob { dirty: true, ..*old(self) }),
    {
        self.dirty = true;
    }

    /// Applies a reading of input `input_id`, appending the parameter change,
    /// if any, to `commands`.
    pub fn input_update(&mut self, input_id: InputId, value: Value, commands: &mut Vec<Command>)
        requires
            old(self).wf(),
        ensures
            *final(self) == knob_updated(*old(self), input_id, value),
            final(self).wf(),
            final(commands)@ == old(commands)@ + knob_commands(*old(self), input_id, value),
    {
        let ghost before = commands@;
        if let Value::Int(count) = value {
            if input_id == self.input_id {
                match self.last {
                    None => {
                        self.last = Some(count);
                    },
                    Some(prev) => {
                        let delta = wrap_delta(prev, count, self.wrap);
                        let sum: i64 = self.value as i64 + delta;
                        let nv: u8 = if sum < 0 {
                            0
                        } else if sum > PARAM_MAX as i64 {
                            PARAM_MAX
                        } else {
                            sum as u8
                        };
                        self.last = Some(count);
                        if nv != self.value {
                            self.value = nv;
                            self.dirty = true;
                            commands.push(Command::SetParam(self.param, nv));
                        }
                    },
                }
            }
        }
        assert(commands@ =~= before + knob_commands(*old(self), input_id, value));
    }
}

} // verus!
