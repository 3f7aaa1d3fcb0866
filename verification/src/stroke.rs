//! The freehand stroke canvas: pointer positions are appended to the current
//! stroke while the pointer is down; a release seals the stroke and opens a
//! fresh one; strokes with at least two points are rendered as polylines.

use vstd::prelude::*;
use crate::Rgb;

verus! {

/// A point in canvas coordinates. The canvas is resolution independent: the
/// GUI shell maps its surface coordinates into this space and back.
#[derive(Clone, Copy, PartialEq, Eq, Structural, Debug)]
pub struct Point {
    pub x: i64,
    pub y: i64,
}

/// The visual style a stroke is drawn with.
#[derive(Clone, Copy, PartialEq, Eq, Structural, Debug)]
pub struct StrokeStyle {
    /// Line width in canvas units.
    pub width: u32,
    pub color: Rgb,
}

/// One freehand stroke: its recorded points and the style it was started
/// with.
pub struct Line {
    pub pos: Vec<Point>,
    pub stroke: StrokeStyle,
}

/// The canvas: the stroke history plus the style given to newly started
/// strokes. The last stroke of `lines` is the one open for further points;
/// all earlier ones are sealed history.
pub struct StrokeCanvas {
    pub lines: Vec<Line>,
    pub stroke: StrokeStyle,
}

/// The mathematical content of one stroke: its point sequence and its style.
pub open spec fn line_model(l: Line) -> (Seq<Point>, StrokeStyle) {
    (l.pos@, l.stroke)
}

/// The mathematical content of a stroke list.
pub open spec fn lines_model(ls: Seq<Line>) -> Seq<(Seq<Point>, StrokeStyle)> {
    ls.map_values(|l: Line| line_model(l))
}

/// The stroke list with a current stroke guaranteed: an empty history gains
/// one fresh empty stroke of style `st`.
pub open spec fn with_current(m: Seq<(Seq<Point>, StrokeStyle)>, st: StrokeStyle) -> Seq<
    (Seq<Point>, StrokeStyle),
> {
    if m.len() == 0 {
        seq![(Seq::<Point>::empty(), st)]
    } else {
        m
    }
}

/// One pointer event applied to the stroke list. While the pointer is down,
/// its position is appended to the current stroke unless it repeats that
/// stroke's last point; when it is up, a non-empty current stroke is sealed
/// and a fresh empty stroke of style `st` becomes current.
pub open spec fn pointer_step(
    m: Seq<(Seq<Point>, StrokeStyle)>,
    st: StrokeStyle,
    pos: Option<Point>,
) -> Seq<(Seq<Point>, StrokeStyle)> {
    let m0 = with_current(m, st);
    let cur = m0.last();
    match pos {
        Some(p) => if cur.0.len() > 0 && cur.0.last() == p {
            m0
        } else {
            m0.update(m0.len() - 1, (cur.0.push(p), cur.1))
        },
        None => if cur.0.len() == 0 {
            m0
        } else {
            m0.push((Seq::<Point>::empty(), st))
        },
    }
}

/// The strokes that get drawn: exactly those with at least two points, in
/// their original order. Shorter strokes stay in the history but render
/// nothing.
pub open spec fn render_of(m: Seq<(Seq<Point>, StrokeStyle)>) -> Seq<(Seq<Point>, StrokeStyle)>
    decreases m.len(),
{
    if m.len() == 0 {
        m
    } else {
        let rest = render_of(m.drop_last());
        if m.last().0.len() >= 2 {
            rest.push(m.last())
        } else {
            rest
        }
    }
}

/// A deep copy of a stroke (`Point` is `Copy`, so the points are copied one
/// by one).
fn copy_line(l: &Line) -> (r: Line)
    ensures
        r.pos@ == l.pos@,
        r.stroke == l.stroke,
{
    let mut pts: Vec<Point> = Vec::new();
    let mut i: usize = 0;
    while i < l.pos.len()
        invariant
            i <= l.pos@.len(),
            pts@ == l.pos@.subrange(0, i as int),
        decreases l.pos@.len() - i,
    {
        pts.push(l.pos[i]);
        proof {
            assert(pts@ =~= l.pos@.subrange(0, i as int + 1));
        }
        i = i + 1;
    }
    proof {
        assert(l.pos@.subrange(0, l.pos@.len() as int) =~= l.pos@);
    }
    Line { pos: pts, stroke: l.stroke }
}

impl StrokeCanvas {
    /// An empty canvas whose first stroke will use `style`.
    pub fn new(style: StrokeStyle) -> (r: Self)
        ensures
            r.lines@ == Seq::<Line>::empty(),
            r.stroke == style,
    {
        StrokeCanvas { lines: Vec::new(), stroke: style }
    }

    /// Applies one pointer event, as `pointer_step` describes; the style for
    /// new strokes is unchanged.
    pub fn on_pointer(&mut self, pos: Option<Point>)
        ensures
            final(self).stroke == old(self).stroke,
            lines_model(final(self).lines@) == pointer_step(
                lines_model(old(self).lines@),
                old(self).stroke,
                pos,
            ),
    {
        let ghost m = lines_model(old(self).lines@);
        let ghost st = old(self).stroke;
        if self.lines.len() == 0 {
            let style = self.stroke;
            self.lines.push(Line { pos: Vec::new(), stroke: style });
        }
        proof {
            assert(lines_model(self.lines@) =~~= with_current(m, st));
        }
        let ghost m0 = with_current(m, st);
        match pos {
            Some(p) => {
                let mut cur = self.lines.pop().unwrap();
                let n = cur.pos.len();
                if n == 0 || !(cur.pos[n - 1] == p) {
                    cur.pos.push(p);
                }
                self.lines.push(cur);
                proof {
                    assert(lines_model(self.lines@) =~~= pointer_step(m, st, pos));
                }
            },
            None => {
                let n = self.lines.len();
                if self.lines[n - 1].pos.len() > 0 {
                    let style = self.stroke;
                    self.lines.push(Line { pos: Vec::new(), stroke: style });
                }
                proof {
                    assert(lines_model(self.lines@) =~~= pointer_step(m, st, pos));
                }
            },
        }
    }

    /// Changes the style applied to strokes created from now on; already
    /// recorded strokes keep theirs.
    pub fn set_style(&mut self, style: StrokeStyle)
        ensures
            final(self).stroke == style,
            final(self).lines@ == old(self).lines@,
    {
        self.stroke = style;
    }

    /// Removes every stroke; the current style is kept.
    pub fn clear(&mut self)
        ensures
            final(self).lines@ == Seq::<Line>::empty(),
            final(self).stroke == old(self).stroke,
    {
        self.lines.clear();
        proof {
            assert(self.lines@ =~= Seq::<Line>::empty());
        }
    }

    /// The strokes to draw this frame: deep copies of exactly the strokes
    /// with at least two points, in order.
    pub fn render_list(&self) -> (r: Vec<Line>)
        ensures
            lines_model(r@) == render_of(lines_model(self.lines@)),
    {
        let ghost mm = lines_model(self.lines@);
        let mut r: Vec<Line> = Vec::new();
        let mut i: usize = 0;
        while i < self.lines.len()
            invariant
                i <= self.lines@.len(),
                mm == lines_model(self.lines@),
                lines_model(r@) == render_of(mm.subrange(0, i as int)),
            decreases self.lines@.len() - i,
        {
            let l = &self.lines[i];
            proof {
                let t = mm.subrange(0, i as int + 1);
                assert(t.drop_last() =~= mm.subrange(0, i as int));
                assert(t.last() == mm[i as int]);
            }
            if l.pos.len() >= 2 {
                let copy = copy_line(l);
                r.push(copy);
                proof {
                    assert(lines_model(r@) =~~= render_of(mm.subrange(0, i as int + 1)));
                }
            } else {
                proof {
                    assert(lines_model(r@) =~~= render_of(mm.subrange(0, i as int + 1)));
                }
            }
            i = i + 1;
        }
        proof {
            assert(mm.subrange(0, mm.len() as int) =~= mm);
        }
        r
    }
}

/// Law: a pointer release on a non-empty current stroke seals it and opens
/// exactly one fresh stroke: the list grows by one, every recorded stroke is
/// unchanged, and the new current stroke is empty with the current style.
pub proof fn lemma_release_seals(m: Seq<(Seq<Point>, StrokeStyle)>, st: StrokeStyle)
    requires
        m.len() > 0,
        m.last().0.len() > 0,
    ensures
        pointer_step(m, st, None::<Point>).len() == m.len() + 1,
        pointer_step(m, st, None::<Point>).subrange(0, m.len() as int) == m,
        pointer_step(m, st, None::<Point>).last() == (Seq::<Point>::empty(), st),
{
    assert(pointer_step(m, st, None::<Point>).subrange(0, m.len() as int) =~= m);
}

/// Law: the render list never contains a stroke with fewer than two points,
/// whatever the history of pointer events that produced the canvas.
pub proof fn lemma_render_min_points(m: Seq<(Seq<Point>, StrokeStyle)>)
    ensures
        forall|i: int|
            0 <= i < render_of(m).len() ==> (#[trigger] render_of(m)[i]).0.len() >= 2,
    decreases m.len(),
{
    if m.len() > 0 {
        lemma_render_min_points(m.drop_last());
        let r = render_of(m);
        let rp = render_of(m.drop_last());
        assert forall|i: int| 0 <= i < r.len() implies (#[trigger] r[i]).0.len() >= 2 by {
            if !(m.last().0.len() >= 2 && i == r.len() - 1) {
                assert(r[i] == rp[i]);
            }
        }
    }
}

/// Law: after `clear` nothing is rendered: the render list of an empty
/// stroke history is empty.
pub proof fn lemma_render_empty()
    ensures
        render_of(lines_model(Seq::<Line>::empty())) == Seq::<(Seq<Point>, StrokeStyle)>::empty(),
{
    assert(lines_model(Seq::<Line>::empty()) =~= Seq::<(Seq<Point>, StrokeStyle)>::empty());
}

/// Law: the canvas works normally after `clear`: the first pointer press on
/// an empty history starts one fresh current stroke holding that single
/// point.
pub proof fn lemma_press_after_clear(st: StrokeStyle, p: Point)
    ensures
        pointer_step(Seq::<(Seq<Point>, StrokeStyle)>::empty(), st, Some(p)) == seq![
            (seq![p], st),
        ],
{
    assert(pointer_step(Seq::<(Seq<Point>, StrokeStyle)>::empty(), st, Some(p)) =~~= seq![
        (seq![p], st),
    ]);
}

} // verus!
