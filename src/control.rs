//! The active panel slot and one pass of the poll-render loop: readings go
//! to the active panel, navigation replaces it, and what changed is painted.

use vstd::prelude::*;
use crate::button::{button_rect, button_updated, Button};
use crate::canvas::Canvas;
use crate::geometry::{all_fit, cover, fits, is_blank, lemma_cover_blank, Point, Size};
use crate::input::{param_index, Command, InputId, Param, PanelId, Value, PARAM_COUNT};
use crate::knob::{knob_rect, knob_updated, Knob, PARAM_MAX};
use crate::panel::{
    button_damage, buttons_commands, knob_damage, knobs_commands, widgets_wf,
    Panel,
};
use crate::panel_bow::{bow_knobs, exciter_buttons, lemma_exciter_buttons_wf};
use crate::panel_res::{lemma_resonator_buttons_wf, res_knobs, resonator_buttons};
use crate::panel_strike::strike_knobs;

verus! {

/// The panels that have a layout in this build.
pub open spec fn has_layout(id: PanelId) -> bool {
    id is PanelBow || id is PanelStrike || id is PanelRes
}

pub open spec fn layout_buttons(id: PanelId) -> Seq<Button<'static>> {
    match id {
        PanelId::PanelBow => exciter_buttons(0),
        PanelId::PanelStrike => exciter_buttons(2),
        PanelId::PanelRes => resonator_buttons(0),
        _ => seq![],
    }
}

pub open spec fn layout_knobs(id: PanelId) -> Seq<Knob<'static>> {
    match id {
        PanelId::PanelBow => bow_knobs(),
        PanelId::PanelStrike => strike_knobs(),
        PanelId::PanelRes => res_knobs(),
        _ => seq![],
    }
}

/// Builds the widgets of panel `id`, if it has a layout.
pub fn layout(id: PanelId) -> (r: Option<(Vec<Button<'static>>, Vec<Knob<'static>>)>)
    ensures
        r is Some <==> has_layout(id),
        r matches Some(e) ==> e.0@ == layout_buttons(id) && e.1@ == layout_knobs(id)
            && widgets_wf(e.0@, e.1@),
{
    match id {
        PanelId::PanelBow => Some(crate::panel_bow::setup()),
        PanelId::PanelStrike => Some(crate::panel_strike::setup()),
        PanelId::PanelRes => Some(crate::panel_res::setup()),
        _ => None,
    }
}

/// Every layout is made of well-formed widgets, all due for painting, with
/// at least one knob.
pub proof fn lemma_layout_fresh(id: PanelId, params: Seq<u8>)
    requires
        has_layout(id),
    ensures
        widgets_wf(layout_buttons(id), layout_knobs(id)),
        widgets_wf(layout_buttons(id), restored(layout_knobs(id), params)),
        forall|i: int| 0 <= i < layout_buttons(id).len() ==> (#[trigger] layout_buttons(id)[i]).dirty,
        forall|i: int|
            0 <= i < layout_knobs(id).len() ==> (#[trigger] restored(layout_knobs(id), params)[i]).dirty,
        layout_knobs(id).len() > 0,
{
    lemma_exciter_buttons_wf(0);
    lemma_exciter_buttons_wf(2);
    lemma_resonator_buttons_wf(0);
    let ks = layout_knobs(id);
    let rk = restored(ks, params);
    assert forall|i: int| 0 <= i < rk.len() implies (#[trigger] rk[i]).wf() by {
        assert(ks[i].wf());
    }
}

/// The contents of the active panel slot: which panel, and its widgets.
pub type SlotView = Option<(PanelId, Seq<Button<'static>>, Seq<Knob<'static>>)>;

/// The whole interface: the slot, and the value last handed to the synthesis
/// engine for each parameter, by `param_index`.
pub type UiView = (SlotView, Seq<u8>);

/// The value a knob bound to `p` starts from: the one last handed to the
/// engine, held to `PARAM_MAX`.
pub open spec fn stored_value(params: Seq<u8>, p: Param) -> u8 {
    let v = params[param_index(p)];
    if v > PARAM_MAX { PARAM_MAX } else { v }
}

/// Knobs that start from the values last handed to the engine.
pub open spec fn restored(ks: Seq<Knob<'static>>, params: Seq<u8>) -> Seq<Knob<'static>> {
    ks.map_values(|k: Knob<'static>| Knob { value: stored_value(params, k.param), ..k })
}

/// The slot after a request for panel `id`: a fresh panel, whose knobs
/// start from the values in `params`, when `id` has a layout; the slot
/// unchanged otherwise.
pub open spec fn switched(v: SlotView, params: Seq<u8>, id: PanelId) -> SlotView {
    if has_layout(id) {
        Some((id, layout_buttons(id), restored(layout_knobs(id), params)))
    } else {
        v
    }
}

/// The commands the active panel hands out for one reading.
pub open spec fn reading_commands(v: SlotView, id: InputId, value: Value) -> Seq<Command> {
    match v {
        None => seq![],
        Some((_, bs, ks)) => buttons_commands(bs, id, value) + knobs_commands(ks, id, value),
    }
}

/// The slot after its panel has taken one reading, before any switch.
pub open spec fn updated_view(v: SlotView, id: InputId, value: Value) -> SlotView {
    match v {
        None => None,
        Some((a, bs, ks)) => Some(
            (
                a,
                bs.map_values(|b: Button<'static>| button_updated(b, id, value)),
                ks.map_values(|k: Knob<'static>| knob_updated(k, id, value)),
            ),
        ),
    }
}

/// The interface after the commands `cmds`, in order: a switch request
/// replaces the panel, a parameter value is remembered.
pub open spec fn apply_commands(u: UiView, cmds: Seq<Command>) -> UiView
    decreases cmds.len(),
{
    if cmds.len() == 0 {
        u
    } else {
        let w = apply_commands(u, cmds.drop_last());
        match cmds.last() {
            Command::SwitchTo(p) => (switched(w.0, w.1, p), w.1),
            Command::SetParam(p, x) => (w.0, w.1.update(param_index(p), x)),
            Command::TriggerNote(_) => w,
        }
    }
}

/// The commands of `cmds` meant for the synthesis engine, in order.
pub open spec fn engine_part(cmds: Seq<Command>) -> Seq<Command>
    decreases cmds.len(),
{
    if cmds.len() == 0 {
        seq![]
    } else {
        engine_part(cmds.drop_last()) + match cmds.last() {
            Command::SwitchTo(_) => seq![],
            c => seq![c],
        }
    }
}

/// The interface after one reading: the panel takes it, then what it asks
/// for is carried out.
pub open spec fn after_reading(u: UiView, id: InputId, value: Value) -> UiView {
    apply_commands((updated_view(u.0, id, value), u.1), reading_commands(u.0, id, value))
}

/// The interface after a sequence of readings, taken in order.
pub open spec fn after_readings(u: UiView, rs: Seq<(InputId, Value)>) -> UiView
    decreases rs.len(),
{
    if rs.len() == 0 {
        u
    } else {
        after_reading(after_readings(u, rs.drop_last()), rs.last().0, rs.last().1)
    }
}

/// What a sequence of readings hands to the synthesis engine, in order.
pub open spec fn readings_engine(u: UiView, rs: Seq<(InputId, Value)>) -> Seq<Command>
    decreases rs.len(),
{
    if rs.len() == 0 {
        seq![]
    } else {
        let w = after_readings(u, rs.drop_last());
        readings_engine(u, rs.drop_last()) + engine_part(reading_commands(w.0, rs.last().0, rs.last().1))
    }
}

/// What each widget of the slot's panel contributes to the next repaint.
pub open spec fn view_damage(v: SlotView) -> Seq<(Point, Size)> {
    match v {
        None => seq![],
        Some((_, bs, ks)) => bs.map_values(|b: Button<'static>| button_damage(b)) + ks.map_values(
            |k: Knob<'static>| knob_damage(k),
        ),
    }
}

/// The boxes of all widgets of the slot's panel.
pub open spec fn view_rects(v: SlotView) -> Seq<(Point, Size)> {
    match v {
        None => seq![],
        Some((_, bs, ks)) => bs.map_values(|b: Button<'static>| button_rect(b)) + ks.map_values(
            |k: Knob<'static>| knob_rect(k),
        ),
    }
}

/// The slot once its panel has been painted.
pub open spec fn painted(v: SlotView) -> SlotView {
    match v {
        None => None,
        Some((a, bs, ks)) => Some(
            (
                a,
                bs.map_values(|b: Button<'static>| Button { dirty: false, ..b }),
                ks.map_values(|k: Knob<'static>| Knob { dirty: false, ..k }),
            ),
        ),
    }
}

pub open spec fn view_wf(v: SlotView) -> bool {
    match v {
        None => true,
        Some((_, bs, ks)) => widgets_wf(bs, ks),
    }
}

/// Switching to a panel that has a layout makes the next render paint every
/// one of its widgets: what it contributes is the box of each widget, and
/// their union is not blank.
pub proof fn lemma_switch_repaints_all(v: SlotView, params: Seq<u8>, id: PanelId)
    requires
        has_layout(id),
    ensures
        view_damage(switched(v, params, id)) == view_rects(switched(v, params, id)),
        all_fit(view_rects(switched(v, params, id))),
        !is_blank(cover(view_damage(switched(v, params, id))).1),
{
    lemma_layout_fresh(id, params);
    let bs = layout_buttons(id);
    let ks = restored(layout_knobs(id), params);
    assert(bs.map_values(|b: Button<'static>| button_damage(b)) =~= bs.map_values(
        |b: Button<'static>| button_rect(b),
    ));
    assert(ks.map_values(|k: Knob<'static>| knob_damage(k)) =~= ks.map_values(
        |k: Knob<'static>| knob_rect(k),
    ));
    let rs = view_rects(switched(v, params, id));
    assert(all_fit(rs)) by {
        assert forall|i: int| 0 <= i < rs.len() implies fits(#[trigger] rs[i]) by {
            if i < bs.len() {
                assert(bs[i].wf());
            } else {
                assert(ks[i - bs.len()].wf());
            }
        }
    }
    lemma_cover_blank(rs);
    assert(!is_blank(rs[bs.len() as int].1));
}

/// What the loop does after an attempt to flush a region to the display.
#[derive(Clone, Copy, Debug, PartialEq, Eq, Structural)]
pub enum FlushAction {
    /// The region reached the display.
    Done,
    /// Try the same region again.
    Retry,
    /// Give the frame up and go on polling.
    SkipFrame,
}

/// Whether the rectangle a render returned has to be sent to the display:
/// only one with both sides non-zero does.
pub fn flush_needed(r: (Point, Size)) -> (b: bool)
    ensures
        b == !is_blank(r.1),
{
    r.1.width != 0 && r.1.height != 0
}

/// The decision after flush attempt number `attempt` (counting from one)
/// ended in `ok`: a failed flush is retried once, then the frame is skipped.
pub fn after_flush(attempt: u8, ok: bool) -> (a: FlushAction)
    ensures
        ok ==> a == FlushAction::Done,
        !ok && attempt < 2 ==> a == FlushAction::Retry,
        !ok && attempt >= 2 ==> a == FlushAction::SkipFrame,
{
    if ok {
        FlushAction::Done
    } else if attempt < 2 {
        FlushAction::Retry
    } else {
        FlushAction::SkipFrame
    }
}

/// The device's user interface: the active panel slot, empty until
/// `setup_ui`, and the value last handed to the synthesis engine for each
/// parameter, which outlives panel switches.
pub struct App {
    pub active: PanelId,
    pub panel: Option<Panel<'static>>,
    pub params: Vec<u8>,
}

impl App {
    pub open spec fn view(&self) -> UiView {
        (
            match self.panel {
                None => None,
                Some(p) => Some((self.active, p.buttons@, p.knobs@)),
            },
            self.params@,
        )
    }

    pub open spec fn wf(&self) -> bool {
        view_wf(self.view().0) && self.params@.len() == PARAM_COUNT
    }

    /// An interface with no panel yet, every parameter at zero.
    pub fn new() -> (r: App)
        ensures
            r.view().0 is None,
            r.view().1 == Seq::new(PARAM_COUNT as nat, |i: int| 0u8),
            r.wf(),
    {
        let mut params: Vec<u8> = Vec::new();
        while params.len() < PARAM_COUNT
            invariant
                params@.len() <= PARAM_COUNT,
                forall|i: int| 0 <= i < params@.len() ==> params@[i] == 0u8,
            decreases PARAM_COUNT - params@.len(),
        {
            params.push(0);
        }
        assert(params@ =~= Seq::new(PARAM_COUNT as nat, |i: int| 0u8));
        App { active: PanelId::PanelBow, panel: None, params }
    }

    /// Installs the first panel, the bow exciter.
    pub fn setup_ui(&mut self)
        requires
            old(self).wf(),
        ensures
            final(self).view() == (switched(old(self).view().0, old(self).view().1, PanelId::PanelBow),
                old(self).view().1),
            final(self).view().0 is Some,
            final(self).wf(),
    {
        self.change_panel(PanelId::PanelBow);
    }

    /// Replaces the active panel by a freshly built panel `id`, whose widgets
    /// are all due for painting and whose knobs start from the values last
    /// handed to the engine; a panel without a layout leaves the slot as it
    /// is.
    pub fn change_panel(&mut self, id: PanelId)
        requires
            old(self).wf(),
        ensures
            final(self).view() == (switched(old(self).view().0, old(self).view().1, id), old(self).view().1),
            final(self).wf(),
    {
        match layout(id) {
            Some(elements) => {
                let (buttons, mut knobs) = elements;
                let ghost ks0 = knobs@;
                let mut i: usize = 0;
                while i < knobs.len()
                    invariant
                        0 <= i <= knobs@.len(),
                        knobs@.len() == ks0.len(),
                        self.params@.len() == PARAM_COUNT,
                        forall|j: int| 0 <= j < i ==> #[trigger] knobs@[j] == (Knob {
                            value: stored_value(self.params@, ks0[j].param),
                            ..ks0[j]
                        }),
                        forall|j: int| i <= j < ks0.len() ==> #[trigger] knobs@[j] == ks0[j],
                    decreases ks0.len() - i,
                {
                    let k = knobs[i];
                    knobs[i] = k.with_value(self.params[k.param.index()]);
                    i = i + 1;
                }
                proof {
                    lemma_layout_fresh(id, self.params@);
                }
                assert(knobs@ =~= restored(ks0, self.params@));
                self.panel = Some(Panel::new((buttons, knobs)));
                self.active = id;
            },
            None => {},
        }
    }

    /// Hands one reading to the active panel, carries out the panel switches
    /// it asks for, remembers the parameter values it sets, and appends what
    /// is meant for the synthesis engine to `engine`.
    pub fn input_update(&mut self, input_id: InputId, value: Value, engine: &mut Vec<Command>)
        requires
            old(self).wf(),
        ensures
            final(self).view() == after_reading(old(self).view(), input_id, value),
            final(self).wf(),
            final(engine)@ == old(engine)@ + engine_part(reading_commands(old(self).view().0, input_id, value)),
    {
        let ghost v0 = self.view();
        let mut commands: Vec<Command> = Vec::new();
        match &mut self.panel {
            Some(panel) => {
                panel.input_update(input_id, value, &mut commands);
            },
            None => {},
        }
        assert(commands@ =~= reading_commands(v0.0, input_id, value));
        assert(self.view() =~= (updated_view(v0.0, input_id, value), v0.1));
        let ghost v1 = self.view();
        let ghost e0 = engine@;
        assert(commands@.take(0) =~= Seq::<Command>::empty());
        let mut i: usize = 0;
        while i < commands.len()
            invariant
                0 <= i <= commands@.len(),
                self.wf(),
                self.view() == apply_commands(v1, commands@.take(i as int)),
                engine@ == e0 + engine_part(commands@.take(i as int)),
            decreases commands@.len() - i,
        {
            assert(commands@.take(i + 1).drop_last() =~= commands@.take(i as int));
            let c = commands[i];
            match c {
                Command::SwitchTo(p) => {
                    self.change_panel(p);
                },
                Command::SetParam(p, x) => {
                    self.params.set(p.index(), x);
                    engine.push(c);
                },
                Command::TriggerNote(_) => {
                    engine.push(c);
                },
            }
            assert(engine@ =~= e0 + engine_part(commands@.take(i + 1)));
            i = i + 1;
        }
        assert(commands@.take(commands@.len() as int) =~= commands@);
    }

    /// One pass of the poll-render loop: takes the readings in order, then
    /// paints what changed and returns the rectangle to send to the display,
    /// blank when nothing changed.
    pub fn update(
        &mut self,
        readings: &Vec<(InputId, Value)>,
        canvas: &mut Canvas<'static>,
        engine: &mut Vec<Command>,
    ) -> (r: (Point, Size))
        requires
            old(self).wf(),
        ensures
            r == cover(view_damage(after_readings(old(self).view(), readings@).0)),
            final(self).view() == (painted(after_readings(old(self).view(), readings@).0), after_readings(
                old(self).view(),
                readings@,
            ).1),
            final(self).wf(),
            final(engine)@ == old(engine)@ + readings_engine(old(self).view(), readings@),
    {
        let ghost v0 = self.view();
        let ghost e0 = engine@;
        assert(readings@.take(0) =~= Seq::<(InputId, Value)>::empty());
        let mut i: usize = 0;
        while i < readings.len()
            invariant
                0 <= i <= readings@.len(),
                self.wf(),
                self.view() == after_readings(v0, readings@.take(i as int)),
                engine@ == e0 + readings_engine(v0, readings@.take(i as int)),
            decreases readings@.len() - i,
        {
            assert(readings@.take(i + 1).drop_last() =~= readings@.take(i as int));
            let (id, value) = readings[i];
            self.input_update(id, value, engine);
            assert(engine@ =~= e0 + readings_engine(v0, readings@.take(i + 1)));
            i = i + 1;
        }
        assert(readings@.take(readings@.len() as int) =~= readings@);
        let ghost mid = self.view();
        match &mut self.panel {
            Some(panel) => {
                let r = panel.render(canvas);
                assert(panel.buttons@ =~= painted(mid.0)->Some_0.1);
                r
            },
            None => (Point { x: i32::MAX, y: i32::MAX }, Size { width: 0, height: 0 }),
        }
    }
}

} // verus!
