//! A panel: one screen of buttons and knobs, and the rectangle that covers
//! what changed since it was last painted.

use vstd::prelude::*;
use crate::button::{button_commands, button_rect, button_updated, Button};
use crate::canvas::{Canvas, DrawOp};
use crate::geometry::{
    all_fit, cover, cover_contains_all, cover_edges_attained, empty_rect, extend_rect_to_cover, fits,
    is_blank, lemma_cover_append, lemma_cover_blank, lemma_cover_bounds, lemma_cover_fits,
    lemma_cover_normal, Point, Size,
};
use crate::input::{Command, InputId, Value};
use crate::knob::{knob_commands, knob_rect, knob_updated, Knob};

verus! {

/// What a button contributes to the next repaint: its box if it is dirty,
/// nothing otherwise.
pub open spec fn button_damage(b: Button) -> (Point, Size) {
    if b.dirty { button_rect(b) } else { empty_rect() }
}

/// What a knob contributes to the next repaint.
pub open spec fn knob_damage(k: Knob) -> (Point, Size) {
    if k.dirty { knob_rect(k) } else { empty_rect() }
}

/// The drawing operations that painting the dirty buttons of `bs`, in order,
/// produces.
pub open spec fn button_ops<'a>(bs: Seq<Button<'a>>) -> Seq<DrawOp<'a>>
    decreases bs.len(),
{
    if bs.len() == 0 {
        seq![]
    } else {
        let b = bs.last();
        button_ops(bs.drop_last()) + if b.dirty {
            seq![DrawOp::Text { pos: b.pos, text: b.caption, inverted: b.highlight }]
        } else {
            seq![]
        }
    }
}

/// The drawing operations that painting the dirty knobs of `ks`, in order,
/// produces.
pub open spec fn knob_ops<'a>(ks: Seq<Knob<'a>>) -> Seq<DrawOp<'a>>
    decreases ks.len(),
{
    if ks.len() == 0 {
        seq![]
    } else {
        let k = ks.last();
        knob_ops(ks.drop_last()) + if k.dirty {
            seq![DrawOp::Gauge { pos: k.pos, caption: k.caption, value: k.value }]
        } else {
            seq![]
        }
    }
}

/// The commands that the buttons of `bs` hand out, in order, for one reading.
pub open spec fn buttons_commands(bs: Seq<Button>, id: InputId, value: Value) -> Seq<Command>
    decreases bs.len(),
{
    if bs.len() == 0 {
        seq![]
    } else {
        buttons_commands(bs.drop_last(), id, value) + button_commands(bs.last(), id, value)
    }
}

/// The commands that the knobs of `ks` hand out, in order, for one reading.
pub open spec fn knobs_commands(ks: Seq<Knob>, id: InputId, value: Value) -> Seq<Command>
    decreases ks.len(),
{
    if ks.len() == 0 {
        seq![]
    } else {
        knobs_commands(ks.drop_last(), id, value) + knob_commands(ks.last(), id, value)
    }
}

/// The boxes of the dirty buttons of `bs`, in order.
pub open spec fn dirty_button_rects(bs: Seq<Button>) -> Seq<(Point, Size)>
    decreases bs.len(),
{
    if bs.len() == 0 {
        seq![]
    } else {
        let rest = dirty_button_rects(bs.drop_last());
        if bs.last().dirty { rest.push(button_rect(bs.last())) } else { rest }
    }
}

/// The boxes of the dirty knobs of `ks`, in order.
pub open spec fn dirty_knob_rects(ks: Seq<Knob>) -> Seq<(Point, Size)>
    decreases ks.len(),
{
    if ks.len() == 0 {
        seq![]
    } else {
        let rest = dirty_knob_rects(ks.drop_last());
        if ks.last().dirty { rest.push(knob_rect(ks.last())) } else { rest }
    }
}

proof fn lemma_button_damage_cover(bs: Seq<Button>)
    requires
        forall|i: int| 0 <= i < bs.len() ==> (#[trigger] bs[i]).wf(),
    ensures
        all_fit(bs.map_values(|b: Button| button_damage(b))),
        all_fit(dirty_button_rects(bs)),
        cover(bs.map_values(|b: Button| button_damage(b))) == cover(dirty_button_rects(bs)),
        dirty_button_rects(bs).len() == 0 <==> forall|i: int| 0 <= i < bs.len() ==> !(#[trigger] bs[i]).dirty,
    decreases bs.len(),
{
    let d = bs.map_values(|b: Button| button_damage(b));
    assert(all_fit(d)) by {
        assert forall|i: int| 0 <= i < d.len() implies fits(#[trigger] d[i]) by {
            assert(bs[i].wf());
        }
    }
    if bs.len() > 0 {
        let init = bs.drop_last();
        lemma_button_damage_cover(init);
        assert(d.drop_last() =~= init.map_values(|b: Button| button_damage(b)));
        lemma_cover_normal(d.drop_last());
        let rest = dirty_button_rects(init);
        assert(bs.last().wf());
        assert(d.last() == button_damage(bs.last()));
        assert(forall|i: int| 0 <= i < init.len() ==> #[trigger] init[i] == bs[i]);
        if bs.last().dirty {
            assert(rest.push(button_rect(bs.last())).drop_last() =~= rest);
            assert(dirty_button_rects(bs).len() > 0);
            assert(!(forall|i: int| 0 <= i < bs.len() ==> !(#[trigger] bs[i]).dirty)) by {
                assert(bs[bs.len() - 1].dirty);
            }
        } else {
            assert(dirty_button_rects(bs) == rest);
            if forall|i: int| 0 <= i < init.len() ==> !(#[trigger] init[i]).dirty {
                assert forall|i: int| 0 <= i < bs.len() implies !(#[trigger] bs[i]).dirty by {
                    if i < init.len() {
                        assert(init[i] == bs[i]);
                    }
                }
            }
        }
        assert(all_fit(dirty_button_rects(bs))) by {
            assert forall|i: int| 0 <= i < dirty_button_rects(bs).len() implies fits(#[trigger] dirty_button_rects(bs)[i]) by {
                if i < rest.len() {
                    assert(dirty_button_rects(bs)[i] == rest[i]);
                }
            }
        }
    }
}

proof fn lemma_knob_damage_cover(ks: Seq<Knob>)
    requires
        forall|i: int| 0 <= i < ks.len() ==> (#[trigger] ks[i]).wf(),
    ensures
        all_fit(ks.map_values(|k: Knob| knob_damage(k))),
        all_fit(dirty_knob_rects(ks)),
        cover(ks.map_values(|k: Knob| knob_damage(k))) == cover(dirty_knob_rects(ks)),
        dirty_knob_rects(ks).len() == 0 <==> forall|i: int| 0 <= i < ks.len() ==> !(#[trigger] ks[i]).dirty,
    decreases ks.len(),
{
    let d = ks.map_values(|k: Knob| knob_damage(k));
    assert(all_fit(d)) by {
        assert forall|i: int| 0 <= i < d.len() implies fits(#[trigger] d[i]) by {
            assert(ks[i].wf());
        }
    }
    if ks.len() > 0 {
        let init = ks.drop_last();
        lemma_knob_damage_cover(init);
        assert(d.drop_last() =~= init.map_values(|k: Knob| knob_damage(k)));
        lemma_cover_normal(d.drop_last());
        let rest = dirty_knob_rects(init);
        assert(ks.last().wf());
        assert(d.last() == knob_damage(ks.last()));
        assert(forall|i: int| 0 <= i < init.len() ==> #[trigger] init[i] == ks[i]);
        if ks.last().dirty {
            assert(rest.push(knob_rect(ks.last())).drop_last() =~= rest);
            assert(dirty_knob_rects(ks).len() > 0);
            assert(!(forall|i: int| 0 <= i < ks.len() ==> !(#[trigger] ks[i]).dirty)) by {
                assert(ks[ks.len() - 1].dirty);
            }
        } else {
            assert(dirty_knob_rects(ks) == rest);
            if forall|i: int| 0 <= i < init.len() ==> !(#[trigger] init[i]).dirty {
                assert forall|i: int| 0 <= i < ks.len() implies !(#[trigger] ks[i]).dirty by {
                    if i < init.len() {
                        assert(init[i] == ks[i]);
                    }
                }
            }
        }
        assert(all_fit(dirty_knob_rects(ks))) by {
            assert forall|i: int| 0 <= i < dirty_knob_rects(ks).len() implies fits(#[trigger] dirty_knob_rects(ks)[i]) by {
                if i < rest.len() {
                    assert(dirty_knob_rects(ks)[i] == rest[i]);
                }
            }
        }
    }
}

/// One screen of controls. The panel owns its widgets; buttons are visited
/// before knobs.
pub struct Panel<'a> {
    pub buttons: Vec<Button<'a>>,
    pub knobs: Vec<Knob<'a>>,
}

/// Every widget of the two sequences is well formed.
pub open spec fn widgets_wf(bs: Seq<Button>, ks: Seq<Knob>) -> bool {
    &&& forall|i: int| 0 <= i < bs.len() ==> (#[trigger] bs[i]).wf()
    &&& forall|i: int| 0 <= i < ks.len() ==> (#[trigger] ks[i]).wf()
}

impl<'a> Panel<'a> {
    pub open spec fn wf(&self) -> bool {
        widgets_wf(self.buttons@, self.knobs@)
    }

    /// The boxes of all widgets, buttons first.
    pub open spec fn rects(&self) -> Seq<(Point, Size)> {
        self.buttons@.map_values(|b: Button<'a>| button_rect(b)) + self.knobs@.map_values(
            |k: Knob<'a>| knob_rect(k),
        )
    }

    /// What each widget contributes to the next repaint, buttons first.
    pub open spec fn damage(&self) -> Seq<(Point, Size)> {
        self.buttons@.map_values(|b: Button<'a>| button_damage(b)) + self.knobs@.map_values(
            |k: Knob<'a>| knob_damage(k),
        )
    }

    /// The boxes of exactly the dirty widgets, buttons first.
    pub open spec fn dirty_rects(&self) -> Seq<(Point, Size)> {
        dirty_button_rects(self.buttons@) + dirty_knob_rects(self.knobs@)
    }

    /// Rendering a panel returns the union of the boxes of exactly its dirty
    /// widgets: the clean ones add nothing to it.
    pub proof fn lemma_render_covers_dirty(&self)
        requires
            self.wf(),
        ensures
            cover(self.damage()) == cover(self.dirty_rects()),
            fits(cover(self.damage())),
    {
        lemma_button_damage_cover(self.buttons@);
        lemma_knob_damage_cover(self.knobs@);
        lemma_cover_append(
            self.buttons@.map_values(|b: Button<'a>| button_damage(b)),
            self.knobs@.map_values(|k: Knob<'a>| knob_damage(k)),
        );
        lemma_cover_append(dirty_button_rects(self.buttons@), dirty_knob_rects(self.knobs@));
        lemma_cover_fits(self.dirty_rects());
    }

    /// When some dirty widget has a box that is not blank, rendering the panel
    /// returns the smallest rectangle holding the box of every dirty widget:
    /// its left and top edges are the least of those boxes', its right and
    /// bottom edges the greatest. Blank boxes (an empty caption) cover no
    /// pixel and take no part.
    pub proof fn lemma_render_is_bounding_box(&self)
        requires
            self.wf(),
            exists|i: int|
                0 <= i < self.dirty_rects().len() && !is_blank((#[trigger] self.dirty_rects()[i]).1),
        ensures
            cover_contains_all(self.dirty_rects(), cover(self.damage())),
            cover_edges_attained(self.dirty_rects(), cover(self.damage())),
    {
        self.lemma_render_covers_dirty();
        lemma_button_damage_cover(self.buttons@);
        lemma_knob_damage_cover(self.knobs@);
        let rs = self.dirty_rects();
        assert(all_fit(rs)) by {
            let a = dirty_button_rects(self.buttons@);
            let b = dirty_knob_rects(self.knobs@);
            assert forall|i: int| 0 <= i < rs.len() implies fits(#[trigger] rs[i]) by {
                if i < a.len() {
                    assert(rs[i] == a[i]);
                } else {
                    assert(rs[i] == b[i - a.len()]);
                }
            }
        }
        lemma_cover_blank(rs);
        lemma_cover_bounds(rs);
    }

    /// Rendering a panel none of whose widgets is dirty returns a rectangle
    /// of zero width and zero height.
    pub proof fn lemma_render_clean_is_empty(&self)
        requires
            self.wf(),
            !self.any_dirty(),
        ensures
            cover(self.damage()) == empty_rect(),
    {
        self.lemma_render_covers_dirty();
        lemma_button_damage_cover(self.buttons@);
        lemma_knob_damage_cover(self.knobs@);
        assert(self.dirty_rects() =~= Seq::<(Point, Size)>::empty());
    }

    /// Some widget waits to be painted.
    pub open spec fn any_dirty(&self) -> bool {
        (exists|i: int| 0 <= i < self.buttons@.len() && (#[trigger] self.buttons@[i]).dirty)
            || (exists|i: int| 0 <= i < self.knobs@.len() && (#[trigger] self.knobs@[i]).dirty)
    }

    /// Every widget waits to be painted.
    pub open spec fn all_dirty(&self) -> bool {
        &&& forall|i: int| 0 <= i < self.buttons@.len() ==> (#[trigger] self.buttons@[i]).dirty
        &&& forall|i: int| 0 <= i < self.knobs@.len() ==> (#[trigger] self.knobs@[i]).dirty
    }

    pub fn new(elements: (Vec<Button<'a>>, Vec<Knob<'a>>)) -> (r: Panel<'a>)
        ensures
            r.buttons@ == elements.0@,
            r.knobs@ == elements.1@,
    {
        Panel { buttons: elements.0, knobs: elements.1 }
    }

    /// Whether some widget waits to be painted.
    pub fn is_dirty(&self) -> (r: bool)
        ensures
            r == self.any_dirty(),
    {
        let mut i: usize = 0;
        while i < self.buttons.len()
            invariant
                0 <= i <= self.buttons@.len(),
                forall|j: int| 0 <= j < i ==> !(#[trigger] self.buttons@[j]).dirty,
            decreases self.buttons@.len() - i,
        {
            if self.buttons[i].is_dirty() {
                return true;
            }
            i = i + 1;
        }
        let mut k: usize = 0;
        while k < self.knobs.len()
            invariant
                0 <= k <= self.knobs@.len(),
                forall|j: int| 0 <= j < self.buttons@.len() ==> !(#[trigger] self.buttons@[j]).dirty,
                forall|j: int| 0 <= j < k ==> !(#[trigger] self.knobs@[j]).dirty,
            decreases self.knobs@.len() - k,
        {
            if self.knobs[k].is_dirty() {
                return true;
            }
            k = k + 1;
        }
        false
    }

    /// Paints every dirty widget, buttons first, and returns the union of the
    /// boxes painted: `empty_rect()` when nothing was dirty. Afterwards no
    /// widget is dirty.
    pub fn render(&mut self, canvas: &mut Canvas<'a>) -> (r: (Point, Size))
        requires
            old(self).wf(),
        ensures
            r == cover(old(self).damage()),
            fits(r),
            final(self).buttons@ == old(self).buttons@.map_values(
                |b: Button<'a>| Button { dirty: false, ..b },
            ),
            final(self).knobs@ == old(self).knobs@.map_values(|k: Knob<'a>| Knob { dirty: false, ..k }),
            final(self).wf(),
            !final(self).any_dirty(),
            final(canvas).ops@ == old(canvas).ops@ + button_ops(old(self).buttons@) + knob_ops(
                old(self).knobs@,
            ),
    {
        let mut panel_pos = Point { x: i32::MAX, y: i32::MAX };
        let mut panel_size = Size { width: 0, height: 0 };
        let ghost bd = self.buttons@.map_values(|b: Button<'a>| button_damage(b));
        let ghost kd = self.knobs@.map_values(|k: Knob<'a>| knob_damage(k));
        assert(self.damage() == bd + kd);
        assert(all_fit(self.damage()));
        assert(bd.take(0) =~= Seq::<(Point, Size)>::empty());
        assert(bd.take(bd.len() as int) =~= bd);
        assert(bd + kd.take(0) =~= bd);
        assert(all_fit(bd)) by {
            assert forall|j: int| 0 <= j < bd.len() implies fits(#[trigger] bd[j]) by {
                assert(bd[j] == self.damage()[j]);
            }
        }
        self.render_buttons(canvas, &mut panel_pos, &mut panel_size, Ghost(Seq::empty()));
        assert(Seq::<(Point, Size)>::empty() + bd =~= bd);
        self.render_knobs(canvas, &mut panel_pos, &mut panel_size, Ghost(bd));
        (panel_pos, panel_size)
    }

    #[verifier::rlimit(40)]
    fn render_buttons(
        &mut self,
        canvas: &mut Canvas<'a>,
        pos: &mut Point,
        size: &mut Size,
        Ghost(prefix): Ghost<Seq<(Point, Size)>>,
    )
        requires
            old(self).wf(),
            all_fit(prefix),
            (*old(pos), *old(size)) == cover(prefix),
        ensures
            (*final(pos), *final(size)) == cover(
                prefix + old(self).buttons@.map_values(|b: Button<'a>| button_damage(b)),
            ),
            final(self).buttons@ == old(self).buttons@.map_values(
                |b: Button<'a>| Button { dirty: false, ..b },
            ),
            final(self).knobs@ == old(self).knobs@,
            final(self).wf(),
            final(canvas).ops@ == old(canvas).ops@ + button_ops(old(self).buttons@),
    {
        let ghost old_buttons = self.buttons@;
        let ghost rs = prefix + old_buttons.map_values(|b: Button<'a>| button_damage(b));
        let ghost np = prefix.len() as int;
        let ghost nb = old_buttons.len() as int;
        let ghost ops0 = canvas.ops@;
        assert(rs.take(np) =~= prefix);
        assert(old_buttons.take(0) =~= Seq::<Button<'a>>::empty());
        assert(ops0 + button_ops(old_buttons.take(0)) =~= ops0);
        proof {
            lemma_cover_normal(prefix);
        }
        let mut i: usize = 0;
        while i < self.buttons.len()
            invariant
                0 <= i <= nb,
                self.buttons@.len() == nb,
                nb == old_buttons.len(),
                self.knobs@ == old(self).knobs@,
                rs.len() == np + nb,
                rs == prefix + old_buttons.map_values(|b: Button<'a>| button_damage(b)),
                forall|j: int| 0 <= j < nb ==> (#[trigger] old_buttons[j]).wf(),
                all_fit(prefix),
                forall|j: int|
                    0 <= j < i ==> #[trigger] self.buttons@[j] == (Button { dirty: false, ..old_buttons[j] }),
                forall|j: int| i <= j < nb ==> #[trigger] self.buttons@[j] == old_buttons[j],
                (*pos, *size) == cover(rs.take(np + i)),
                fits((*pos, *size)),
                canvas.ops@ == ops0 + button_ops(old_buttons.take(i as int)),
            decreases nb - i,
        {
            let ghost ii = i as int;
            assert(rs.take(np + ii + 1).drop_last() =~= rs.take(np + ii));
            assert(rs[np + ii] == button_damage(old_buttons[ii]));
            assert(old_buttons.take(ii + 1).drop_last() =~= old_buttons.take(ii));
            assert(old_buttons.take(ii + 1).last() == old_buttons[ii]);
            proof {
                assert(all_fit(rs.take(np + ii))) by {
                    assert forall|j: int| 0 <= j < np + ii implies fits(#[trigger] rs.take(np + ii)[j]) by {
                        if j >= np {
                            assert(old_buttons[j - np].wf());
                        }
                    }
                }
                lemma_cover_normal(rs.take(np + ii));
                assert(fits(button_rect(old_buttons[ii])));
            }
            if self.buttons[i].is_dirty() {
                let (p, s) = self.buttons[i].render(canvas);
                extend_rect_to_cover(pos, size, &p, &s);
            }
            assert(canvas.ops@ =~= ops0 + button_ops(old_buttons.take(ii + 1)));
            i = i + 1;
        }
        assert(rs.take(np + nb) =~= rs);
        assert(old_buttons.take(nb as int) =~= old_buttons);
        assert(self.buttons@ =~= old_buttons.map_values(|b: Button<'a>| Button { dirty: false, ..b }));
    }

    #[verifier::rlimit(40)]
    fn render_knobs(
        &mut self,
        canvas: &mut Canvas<'a>,
        pos: &mut Point,
        size: &mut Size,
        Ghost(prefix): Ghost<Seq<(Point, Size)>>,
    )
        requires
            old(self).wf(),
            all_fit(prefix),
            (*old(pos), *old(size)) == cover(prefix),
        ensures
            (*final(pos), *final(size)) == cover(
                prefix + old(self).knobs@.map_values(|k: Knob<'a>| knob_damage(k)),
            ),
            fits((*final(pos), *final(size))),
            final(self).knobs@ == old(self).knobs@.map_values(|k: Knob<'a>| Knob { dirty: false, ..k }),
            final(self).buttons@ == old(self).buttons@,
            final(self).wf(),
            final(canvas).ops@ == old(canvas).ops@ + knob_ops(old(self).knobs@),
    {
        let ghost old_knobs = self.knobs@;
        let ghost rs = prefix + old_knobs.map_values(|k: Knob<'a>| knob_damage(k));
        let ghost np = prefix.len() as int;
        let ghost nk = old_knobs.len() as int;
        let ghost ops0 = canvas.ops@;
        assert(rs.take(np) =~= prefix);
        assert(old_knobs.take(0) =~= Seq::<Knob<'a>>::empty());
        assert(ops0 + knob_ops(old_knobs.take(0)) =~= ops0);
        proof {
            lemma_cover_normal(prefix);
        }
        let mut k: usize = 0;
        while k < self.knobs.len()
            invariant
                0 <= k <= nk,
                self.knobs@.len() == nk,
                nk == old_knobs.len(),
                self.buttons@ == old(self).buttons@,
                rs.len() == np + nk,
                rs == prefix + old_knobs.map_values(|k: Knob<'a>| knob_damage(k)),
                forall|j: int| 0 <= j < nk ==> (#[trigger] old_knobs[j]).wf(),
                all_fit(prefix),
                forall|j: int|
                    0 <= j < k ==> #[trigger] self.knobs@[j] == (Knob { dirty: false, ..old_knobs[j] }),
                forall|j: int| k <= j < nk ==> #[trigger] self.knobs@[j] == old_knobs[j],
                (*pos, *size) == cover(rs.take(np + k)),
                fits((*pos, *size)),
                canvas.ops@ == ops0 + knob_ops(old_knobs.take(k as int)),
            decreases nk - k,
        {
            let ghost kk = k as int;
            assert(rs.take(np + kk + 1).drop_last() =~= rs.take(np + kk));
            assert(rs[np + kk] == knob_damage(old_knobs[kk]));
            assert(old_knobs.take(kk + 1).drop_last() =~= old_knobs.take(kk));
            assert(old_knobs.take(kk + 1).last() == old_knobs[kk]);
            proof {
                assert(all_fit(rs.take(np + kk))) by {
                    assert forall|j: int| 0 <= j < np + kk implies fits(#[trigger] rs.take(np + kk)[j]) by {
                        if j >= np {
                            assert(old_knobs[j - np].wf());
                        }
                    }
                }
                lemma_cover_normal(rs.take(np + kk));
            }
            if self.knobs[k].is_dirty() {
                let (p, s) = self.knobs[k].render(canvas);
                extend_rect_to_cover(pos, size, &p, &s);
            }
            assert(canvas.ops@ =~= ops0 + knob_ops(old_knobs.take(kk + 1)));
            k = k + 1;
        }
        assert(rs.take(np + nk) =~= rs);
        assert(old_knobs.take(nk as int) =~= old_knobs);
        assert(self.knobs@ =~= old_knobs.map_values(|k: Knob<'a>| Knob { dirty: false, ..k }));
    }

    /// Marks every widget for repainting.
    pub fn input_reset(&mut self)
        ensures
            final(self).buttons@ == old(self).buttons@.map_values(
                |b: Button<'a>| Button { dirty: true, ..b },
            ),
            final(self).knobs@ == old(self).knobs@.map_values(|k: Knob<'a>| Knob { dirty: true, ..k }),
            final(self).all_dirty(),
    {
        let ghost old_buttons = self.buttons@;
        let ghost old_knobs = self.knobs@;
        let mut i: usize = 0;
        while i < self.buttons.len()
            invariant
                0 <= i <= self.buttons@.len(),
                self.buttons@.len() == old_buttons.len(),
                self.knobs@ == old_knobs,
                forall|j: int|
                    0 <= j < i ==> #[trigger] self.buttons@[j] == (Button { dirty: true, ..old_buttons[j] }),
                forall|j: int| i <= j < old_buttons.len() ==> #[trigger] self.buttons@[j] == old_buttons[j],
            decreases old_buttons.len() - i,
        {
            self.buttons[i].input_reset();
            i = i + 1;
        }
        let mut k: usize = 0;
        while k < self.knobs.len()
            invariant
                0 <= k <= self.knobs@.len(),
                self.knobs@.len() == old_knobs.len(),
                self.buttons@ == old_buttons.map_values(|b: Button<'a>| Button { dirty: true, ..b }),
                forall|j: int|
                    0 <= j < k ==> #[trigger] self.knobs@[j] == (Knob { dirty: true, ..old_knobs[j] }),
                forall|j: int| k <= j < old_knobs.len() ==> #[trigger] self.knobs@[j] == old_knobs[j],
            decreases old_knobs.len() - k,
        {
            self.knobs[k].input_reset();
            k = k + 1;
        }
        assert(self.buttons@ =~= old_buttons.map_values(|b: Button<'a>| Button { dirty: true, ..b }));
        assert(self.knobs@ =~= old_knobs.map_values(|k: Knob<'a>| Knob { dirty: true, ..k }));
    }

    /// Hands a reading to every widget, buttons first; each one keeps it
    /// only if it is bound to `input_id`. What the widgets ask of the
    /// device is appended to `commands`.
    pub fn input_update(&mut self, input_id: InputId, value: Value, commands: &mut Vec<Command>)
        requires
            old(self).wf(),
        ensures
            final(self).buttons@ == old(self).buttons@.map_values(
                |b: Button<'a>| button_updated(b, input_id, value),
            ),
            final(self).knobs@ == old(self).knobs@.map_values(
                |k: Knob<'a>| knob_updated(k, input_id, value),
            ),
            final(self).wf(),
            final(commands)@ == old(commands)@ + buttons_commands(old(self).buttons@, input_id, value)
                + knobs_commands(old(self).knobs@, input_id, value),
    {
        let ghost old_buttons = self.buttons@;
        let ghost old_knobs = self.knobs@;
        let ghost cmds0 = commands@;
        let mut i: usize = 0;
        while i < self.buttons.len()
            invariant
                0 <= i <= self.buttons@.len(),
                self.buttons@.len() == old_buttons.len(),
                self.knobs@ == old_knobs,
                forall|j: int| 0 <= j < old_buttons.len() ==> (#[trigger] old_buttons[j]).wf(),
                forall|j: int|
                    0 <= j < i ==> #[trigger] self.buttons@[j] == button_updated(old_buttons[j], input_id, value),
                forall|j: int| i <= j < old_buttons.len() ==> #[trigger] self.buttons@[j] == old_buttons[j],
                commands@ == cmds0 + buttons_commands(old_buttons.take(i as int), input_id, value),
            decreases old_buttons.len() - i,
        {
            assert(old_buttons.take(i + 1).drop_last() =~= old_buttons.take(i as int));
            self.buttons[i].input_update(input_id, value, commands);
            assert(commands@ =~= cmds0 + buttons_commands(old_buttons.take(i + 1), input_id, value));
            i = i + 1;
        }
        assert(old_buttons.take(old_buttons.len() as int) =~= old_buttons);
        let ghost cmds1 = commands@;
        let mut k: usize = 0;
        while k < self.knobs.len()
            invariant
                0 <= k <= self.knobs@.len(),
                self.knobs@.len() == old_knobs.len(),
                self.buttons@ == old_buttons.map_values(|b: Button<'a>| button_updated(b, input_id, value)),
                forall|j: int| 0 <= j < old_knobs.len() ==> (#[trigger] old_knobs[j]).wf(),
                forall|j: int|
                    0 <= j < k ==> #[trigger] self.knobs@[j] == knob_updated(old_knobs[j], input_id, value),
                forall|j: int| 0 <= j < k ==> (#[trigger] self.knobs@[j]).wf(),
                forall|j: int| k <= j < old_knobs.len() ==> #[trigger] self.knobs@[j] == old_knobs[j],
                commands@ == cmds1 + knobs_commands(old_knobs.take(k as int), input_id, value),
            decreases old_knobs.len() - k,
        {
            assert(old_knobs.take(k + 1).drop_last() =~= old_knobs.take(k as int));
            self.knobs[k].input_update(input_id, value, commands);
            assert(commands@ =~= cmds1 + knobs_commands(old_knobs.take(k + 1), input_id, value));
            k = k + 1;
        }
        assert(old_knobs.take(old_knobs.len() as int) =~= old_knobs);
        assert(self.buttons@ =~= old_buttons.map_values(|b: Button<'a>| button_updated(b, input_id, value)));
        assert(self.knobs@ =~= old_knobs.map_values(|k: Knob<'a>| knob_updated(k, input_id, value)));
    }
}

} // verus!
