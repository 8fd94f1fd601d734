//! The annotation canvas: which kinds of annotation the user can draw, and
//! the history of drawn annotations with undo and redo.
//!
//! The canvas keeps its annotations as values of the types its user chooses
//! (lines, arrows, circles, rectangles, texts, and the pixel outline of each
//! arrow); the history only orders them.
use vstd::prelude::*;

verus! {

/// The drawing tools.
#[derive(Debug, Clone, Copy, PartialEq, Eq, Structural)]
pub enum PpOptions {
    Arrow,
    Circle,
    Square,
    Text,
    Painting,
    Cut,
}

/// The tools whose annotations the history records.
pub open spec fn is_shape_kind(k: PpOptions) -> bool {
    k == PpOptions::Arrow || k == PpOptions::Circle || k == PpOptions::Square || k
        == PpOptions::Text
}

/// How often `k` occurs in `s`.
pub open spec fn kind_count(s: Seq<PpOptions>, k: PpOptions) -> nat
    decreases s.len(),
{
    if s.len() == 0 {
        0
    } else {
        kind_count(s.drop_last(), k) + if s.last() == k {
            1nat
        } else {
            0nat
        }
    }
}

pub proof fn lemma_kind_count_push(s: Seq<PpOptions>, x: PpOptions, k: PpOptions)
    ensures
        kind_count(s.push(x), k) == kind_count(s, k) + if x == k {
            1nat
        } else {
            0nat
        },
{
    assert(s.push(x).drop_last() =~= s);
}

pub proof fn lemma_kind_count_empty(k: PpOptions)
    ensures
        kind_count(Seq::<PpOptions>::empty(), k) == 0,
{
}

/// What the canvas holds: the kinds of the drawn annotations in drawing
/// order (`added`) and of the undone ones in undoing order (`removed`), the
/// annotations of each kind, drawn and undone, the free-hand lines and the
/// arrow outlines.
#[verifier::ext_equal]
pub struct PaintingView<L, A, C, S, T, P> {
    pub added: Seq<PpOptions>,
    pub removed: Seq<PpOptions>,
    pub lines: Seq<L>,
    pub arrows: Seq<A>,
    pub removed_arrows: Seq<A>,
    pub arrows_pixels: Seq<P>,
    pub circles: Seq<C>,
    pub removed_circles: Seq<C>,
    pub squares: Seq<S>,
    pub removed_squares: Seq<S>,
    pub texts: Seq<T>,
    pub removed_texts: Seq<T>,
}

/// Each annotation kind occurs in the drawn and in the undone history as
/// often as there are drawn and undone annotations of that kind.
pub open spec fn counts_match<L, A, C, S, T, P>(v: PaintingView<L, A, C, S, T, P>) -> bool {
    &&& kind_count(v.added, PpOptions::Arrow) == v.arrows.len()
    &&& kind_count(v.added, PpOptions::Circle) == v.circles.len()
    &&& kind_count(v.added, PpOptions::Square) == v.squares.len()
    &&& kind_count(v.added, PpOptions::Text) == v.texts.len()
    &&& kind_count(v.removed, PpOptions::Arrow) == v.removed_arrows.len()
    &&& kind_count(v.removed, PpOptions::Circle) == v.removed_circles.len()
    &&& kind_count(v.removed, PpOptions::Square) == v.removed_squares.len()
    &&& kind_count(v.removed, PpOptions::Text) == v.removed_texts.len()
}

/// The history is consistent: it records only annotation kinds, and the
/// counts of each kind match (`counts_match`).
pub open spec fn history_wf<L, A, C, S, T, P>(v: PaintingView<L, A, C, S, T, P>) -> bool {
    &&& forall|i: int| 0 <= i < v.added.len() ==> is_shape_kind(#[trigger] v.added[i])
    &&& forall|i: int| 0 <= i < v.removed.len() ==> is_shape_kind(#[trigger] v.removed[i])
    &&& counts_match(v)
}

/// The canvas after undoing the last drawn annotation: it moves to the
/// undone ones, and an undone arrow loses its last outline.
pub open spec fn undone<L, A, C, S, T, P>(v: PaintingView<L, A, C, S, T, P>) -> PaintingView<
    L,
    A,
    C,
    S,
    T,
    P,
> {
    let k = v.added.last();
    let w = PaintingView { added: v.added.drop_last(), ..v };
    if k == PpOptions::Arrow {
        PaintingView {
            arrows: v.arrows.drop_last(),
            removed_arrows: v.removed_arrows.push(v.arrows.last()),
            arrows_pixels: v.arrows_pixels.drop_last(),
            removed: v.removed.push(k),
            ..w
        }
    } else if k == PpOptions::Circle {
        PaintingView {
            circles: v.circles.drop_last(),
            removed_circles: v.removed_circles.push(v.circles.last()),
            removed: v.removed.push(k),
            ..w
        }
    } else if k == PpOptions::Square {
        PaintingView {
            squares: v.squares.drop_last(),
            removed_squares: v.removed_squares.push(v.squares.last()),
            removed: v.removed.push(k),
            ..w
        }
    } else if k == PpOptions::Text {
        PaintingView {
            texts: v.texts.drop_last(),
            removed_texts: v.removed_texts.push(v.texts.last()),
            removed: v.removed.push(k),
            ..w
        }
    } else {
        w
    }
}

/// The canvas after redoing the last undone annotation: it moves back to
/// the drawn ones.
pub open spec fn redone<L, A, C, S, T, P>(v: PaintingView<L, A, C, S, T, P>) -> PaintingView<
    L,
    A,
    C,
    S,
    T,
    P,
> {
    let k = v.removed.last();
    let w = PaintingView { removed: v.removed.drop_last(), ..v };
    if k == PpOptions::Arrow {
        PaintingView {
            arrows: v.arrows.push(v.removed_arrows.last()),
            removed_arrows: v.removed_arrows.drop_last(),
            added: v.added.push(k),
            ..w
        }
    } else if k == PpOptions::Circle {
        PaintingView {
            circles: v.circles.push(v.removed_circles.last()),
            removed_circles: v.removed_circles.drop_last(),
            added: v.added.push(k),
            ..w
        }
    } else if k == PpOptions::Square {
        PaintingView {
            squares: v.squares.push(v.removed_squares.last()),
            removed_squares: v.removed_squares.drop_last(),
            added: v.added.push(k),
            ..w
        }
    } else if k == PpOptions::Text {
        PaintingView {
            texts: v.texts.push(v.removed_texts.last()),
            removed_texts: v.removed_texts.drop_last(),
            added: v.added.push(k),
            ..w
        }
    } else {
        w
    }
}

/// The history of a canvas (see `PaintingView`).
pub struct Painting<L, A, C, S, T, P> {
    last_type_added: Vec<PpOptions>,
    last_type_removed: Vec<PpOptions>,
    lines: Vec<L>,
    arrows: Vec<A>,
    removed_arrows: Vec<A>,
    arrows_pixels: Vec<P>,
    circles: Vec<C>,
    removed_circles: Vec<C>,
    squares: Vec<S>,
    removed_squares: Vec<S>,
    texts: Vec<T>,
    removed_texts: Vec<T>,
}

impl<L, A, C, S, T, P> View for Painting<L, A, C, S, T, P> {
    type V = PaintingView<L, A, C, S, T, P>;

    closed spec fn view(&self) -> PaintingView<L, A, C, S, T, P> {
        PaintingView {
            added: self.last_type_added@,
            removed: self.last_type_removed@,
            lines: self.lines@,
            arrows: self.arrows@,
            removed_arrows: self.removed_arrows@,
            arrows_pixels: self.arrows_pixels@,
            circles: self.circles@,
            removed_circles: self.removed_circles@,
            squares: self.squares@,
            removed_squares: self.removed_squares@,
            texts: self.texts@,
            removed_texts: self.removed_texts@,
        }
    }
}

/// A canvas with nothing drawn and nothing undone.
pub open spec fn empty_painting<L, A, C, S, T, P>() -> PaintingView<L, A, C, S, T, P> {
    PaintingView {
        added: Seq::empty(),
        removed: Seq::empty(),
        lines: Seq::empty(),
        arrows: Seq::empty(),
        removed_arrows: Seq::empty(),
        arrows_pixels: Seq::empty(),
        circles: Seq::empty(),
        removed_circles: Seq::empty(),
        squares: Seq::empty(),
        removed_squares: Seq::empty(),
        texts: Seq::empty(),
        removed_texts: Seq::empty(),
    }
}

/// The canvas after a save: the drawn annotations, their history, the lines
/// and the arrow outlines are dropped; what was undone stays redoable.
pub open spec fn cleared<L, A, C, S, T, P>(v: PaintingView<L, A, C, S, T, P>) -> PaintingView<
    L,
    A,
    C,
    S,
    T,
    P,
> {
    PaintingView {
        added: Seq::empty(),
        lines: Seq::empty(),
        arrows: Seq::empty(),
        arrows_pixels: Seq::empty(),
        circles: Seq::empty(),
        squares: Seq::empty(),
        texts: Seq::empty(),
        ..v
    }
}

impl<L, A, C, S, T, P> Painting<L, A, C, S, T, P> {
    pub open spec fn wf(&self) -> bool {
        history_wf(self@)
    }

    pub fn new() -> (p: Self)
        ensures
            p@ == empty_painting::<L, A, C, S, T, P>(),
            p.wf(),
    {
        let p = Painting {
            last_type_added: Vec::new(),
            last_type_removed: Vec::new(),
            lines: Vec::new(),
            arrows: Vec::new(),
            removed_arrows: Vec::new(),
            arrows_pixels: Vec::new(),
            circles: Vec::new(),
            removed_circles: Vec::new(),
            squares: Vec::new(),
            removed_squares: Vec::new(),
            texts: Vec::new(),
            removed_texts: Vec::new(),
        };
        proof {
            assert(p@ =~= empty_painting::<L, A, C, S, T, P>());
        }
        p
    }

    /// Undoes the last drawn annotation.
    pub fn undo(&mut self)
        requires
            old(self).wf(),
            old(self)@.added.len() > 0,
            old(self)@.added.last() == PpOptions::Arrow ==> old(self)@.arrows_pixels.len() > 0,
        ensures
            final(self).wf(),
            final(self)@ == undone(old(self)@),
    {
        let ghost v = self@;
        proof {
            lemma_undone_wf(v);
        }
        let last = self.last_type_added[self.last_type_added.len() - 1];
        match last {
            PpOptions::Arrow => {
                let rem = self.arrows.pop().unwrap();
                self.removed_arrows.push(rem);
                let n = self.arrows_pixels.len();
                self.arrows_pixels.remove(n - 1);
                self.last_type_removed.push(PpOptions::Arrow);
            },
            PpOptions::Circle => {
                let rem = self.circles.pop().unwrap();
                self.removed_circles.push(rem);
                self.last_type_removed.push(PpOptions::Circle);
            },
            PpOptions::Square => {
                let rem = self.squares.pop().unwrap();
                self.removed_squares.push(rem);
                self.last_type_removed.push(PpOptions::Square);
            },
            PpOptions::Text => {
                let rem = self.texts.pop().unwrap();
                self.removed_texts.push(rem);
                self.last_type_removed.push(PpOptions::Text);
            },
            _ => {},
        }
        self.last_type_added.pop();
        proof {
            assert(self@ =~= undone(v));
        }
    }

    /// Redoes the last undone annotation.
    pub fn redo(&mut self)
        requires
            old(self).wf(),
            old(self)@.removed.len() > 0,
        ensures
            final(self).wf(),
            final(self)@ == redone(old(self)@),
    {
        let ghost v = self@;
        proof {
            lemma_redone_wf(v);
        }
        let last = self.last_type_removed[self.last_type_removed.len() - 1];
        match last {
            PpOptions::Arrow => {
                let rem = self.removed_arrows.pop().unwrap();
                self.arrows.push(rem);
                self.last_type_added.push(PpOptions::Arrow);
            },
            PpOptions::Circle => {
                let rem = self.removed_circles.pop().unwrap();
                self.circles.push(rem);
                self.last_type_added.push(PpOptions::Circle);
            },
            PpOptions::Square => {
                let rem = self.removed_squares.pop().unwrap();
                self.squares.push(rem);
                self.last_type_added.push(PpOptions::Square);
            },
            PpOptions::Text => {
                let rem = self.removed_texts.pop().unwrap();
                self.texts.push(rem);
                self.last_type_added.push(PpOptions::Text);
            },
            _ => {},
        }
        self.last_type_removed.pop();
        proof {
            assert(self@ =~= redone(v));
        }
    }
}

impl<L, A, C, S, T, P> Painting<L, A, C, S, T, P> {
    /// Records a finished arrow.
    pub fn add_arrow(&mut self, a: A)
        requires
            old(self).wf(),
        ensures
            final(self).wf(),
            final(self)@ == drawn_arrow(old(self)@, a),
    {
        let ghost v = self@;
        self.arrows.push(a);
        self.last_type_added.push(PpOptions::Arrow);
        proof {
            lemma_drawn_wf_arrow(v, a);
            assert(self@ =~= drawn_arrow(v, a));
        }
    }

    /// Records a finished circle.
    pub fn add_circle(&mut self, c: C)
        requires
            old(self).wf(),
        ensures
            final(self).wf(),
            final(self)@ == drawn_circle(old(self)@, c),
    {
        let ghost v = self@;
        self.circles.push(c);
        self.last_type_added.push(PpOptions::Circle);
        proof {
            lemma_drawn_wf_circle(v, c);
            assert(self@ =~= drawn_circle(v, c));
        }
    }

    /// Records a finished rectangle.
    pub fn add_square(&mut self, q: S)
        requires
            old(self).wf(),
        ensures
            final(self).wf(),
            final(self)@ == drawn_square(old(self)@, q),
    {
        let ghost v = self@;
        self.squares.push(q);
        self.last_type_added.push(PpOptions::Square);
        proof {
            lemma_drawn_wf_square(v, q);
            assert(self@ =~= drawn_square(v, q));
        }
    }

    /// Records a written text.
    pub fn add_text(&mut self, t: T)
        requires
            old(self).wf(),
        ensures
            final(self).wf(),
            final(self)@ == drawn_text(old(self)@, t),
    {
        let ghost v = self@;
        self.texts.push(t);
        self.last_type_added.push(PpOptions::Text);
        proof {
            lemma_drawn_wf_text(v, t);
            assert(self@ =~= drawn_text(v, t));
        }
    }

    /// Records the outline of an arrow.
    pub fn push_arrow_pixels(&mut self, pixels: P)
        requires
            old(self).wf(),
        ensures
            final(self).wf(),
            final(self)@ == (PaintingView {
                arrows_pixels: old(self)@.arrows_pixels.push(pixels),
                ..old(self)@
            }),
    {
        let ghost v = self@;
        self.arrows_pixels.push(pixels);
        proof {
            assert(self@ =~= (PaintingView { arrows_pixels: v.arrows_pixels.push(pixels), ..v }));
        }
    }

    /// Starts a new free-hand line, or puts back the one being drawn.
    pub fn push_line(&mut self, line: L)
        requires
            old(self).wf(),
        ensures
            final(self).wf(),
            final(self)@ == (PaintingView { lines: old(self)@.lines.push(line), ..old(self)@ }),
    {
        let ghost v = self@;
        self.lines.push(line);
        proof {
            assert(self@ =~= (PaintingView { lines: v.lines.push(line), ..v }));
        }
    }

    /// Takes out the last free-hand line.
    pub fn pop_line(&mut self) -> (line: Option<L>)
        requires
            old(self).wf(),
        ensures
            final(self).wf(),
            old(self)@.lines.len() == 0 ==> line is None && final(self)@ == old(self)@,
            old(self)@.lines.len() > 0 ==> line == Some(old(self)@.lines.last()) && final(self)@
                == (PaintingView { lines: old(self)@.lines.drop_last(), ..old(self)@ }),
    {
        let ghost v = self@;
        let line = self.lines.pop();
        proof {
            if v.lines.len() > 0 {
                assert(self@ =~= (PaintingView { lines: v.lines.drop_last(), ..v }));
            } else {
                assert(self@ =~= v);
            }
        }
        line
    }

    /// Drops all free-hand lines ("Clear Painting").
    pub fn clear_lines(&mut self)
        requires
            old(self).wf(),
        ensures
            final(self).wf(),
            final(self)@ == (PaintingView { lines: Seq::empty(), ..old(self)@ }),
    {
        let ghost v = self@;
        self.lines.clear();
        proof {
            assert(self@ =~= (PaintingView { lines: Seq::empty(), ..v }));
        }
    }

    /// Drops what was drawn once the image is saved (see `cleared`).
    pub fn clear_on_save(&mut self)
        requires
            old(self).wf(),
        ensures
            final(self).wf(),
            final(self)@ == cleared(old(self)@),
    {
        let ghost v = self@;
        self.last_type_added.clear();
        self.lines.clear();
        self.arrows.clear();
        self.arrows_pixels.clear();
        self.circles.clear();
        self.squares.clear();
        self.texts.clear();
        proof {
            lemma_cleared_wf(v);
            assert(self@ =~= cleared(v));
        }
    }

    /// Whether there is a drawn annotation to undo.
    pub fn can_undo(&self) -> (r: bool)
        ensures
            r == (self@.added.len() > 0),
    {
        self.last_type_added.len() > 0
    }

    /// Whether there is an undone annotation to redo.
    pub fn can_redo(&self) -> (r: bool)
        ensures
            r == (self@.removed.len() > 0),
    {
        self.last_type_removed.len() > 0
    }

    /// The kind of the last drawn annotation.
    pub fn last_added(&self) -> (r: Option<PpOptions>)
        ensures
            r == if self@.added.len() > 0 {
                Some(self@.added.last())
            } else {
                None::<PpOptions>
            },
    {
        let n = self.last_type_added.len();
        if n > 0 {
            Some(self.last_type_added[n - 1])
        } else {
            None
        }
    }

    /// The kind of the last undone annotation.
    pub fn last_removed(&self) -> (r: Option<PpOptions>)
        ensures
            r == if self@.removed.len() > 0 {
                Some(self@.removed.last())
            } else {
                None::<PpOptions>
            },
    {
        let n = self.last_type_removed.len();
        if n > 0 {
            Some(self.last_type_removed[n - 1])
        } else {
            None
        }
    }

    pub fn lines(&self) -> (r: &Vec<L>)
        ensures
            r@ == self@.lines,
    {
        &self.lines
    }

    pub fn arrows(&self) -> (r: &Vec<A>)
        ensures
            r@ == self@.arrows,
    {
        &self.arrows
    }

    pub fn arrows_pixels(&self) -> (r: &Vec<P>)
        ensures
            r@ == self@.arrows_pixels,
    {
        &self.arrows_pixels
    }

    pub fn circles(&self) -> (r: &Vec<C>)
        ensures
            r@ == self@.circles,
    {
        &self.circles
    }

    pub fn squares(&self) -> (r: &Vec<S>)
        ensures
            r@ == self@.squares,
    {
        &self.squares
    }

    pub fn texts(&self) -> (r: &Vec<T>)
        ensures
            r@ == self@.texts,
    {
        &self.texts
    }
}

/// Undoing keeps the history consistent.
pub proof fn lemma_undone_wf<L, A, C, S, T, P>(v: PaintingView<L, A, C, S, T, P>)
    requires
        history_wf(v),
        v.added.len() > 0,
    ensures
        history_wf(undone(v)),
        v.added.last() == PpOptions::Arrow ==> v.arrows.len() > 0,
        v.added.last() == PpOptions::Circle ==> v.circles.len() > 0,
        v.added.last() == PpOptions::Square ==> v.squares.len() > 0,
        v.added.last() == PpOptions::Text ==> v.texts.len() > 0,
{
    let k = v.added.last();
    let rest = v.added.drop_last();
    assert(rest.push(k) =~= v.added);
    assert(is_shape_kind(v.added[v.added.len() - 1]));
    lemma_kind_count_push_all(rest, k);
    lemma_kind_count_push_all(v.removed, k);
    let u = undone(v);
    assert forall|i: int| 0 <= i < u.added.len() implies is_shape_kind(#[trigger] u.added[i]) by {
        assert(u.added[i] == v.added[i]);
    }
    assert forall|i: int| 0 <= i < u.removed.len() implies is_shape_kind(
        #[trigger] u.removed[i],
    ) by {
        if i < v.removed.len() {
            assert(u.removed[i] == v.removed[i]);
        }
    }
}

/// Redoing keeps the history consistent.
pub proof fn lemma_redone_wf<L, A, C, S, T, P>(v: PaintingView<L, A, C, S, T, P>)
    requires
        history_wf(v),
        v.removed.len() > 0,
    ensures
        history_wf(redone(v)),
        v.removed.last() == PpOptions::Arrow ==> v.removed_arrows.len() > 0,
        v.removed.last() == PpOptions::Circle ==> v.removed_circles.len() > 0,
        v.removed.last() == PpOptions::Square ==> v.removed_squares.len() > 0,
        v.removed.last() == PpOptions::Text ==> v.removed_texts.len() > 0,
{
    let k = v.removed.last();
    let rest = v.removed.drop_last();
    assert(rest.push(k) =~= v.removed);
    assert(is_shape_kind(v.removed[v.removed.len() - 1]));
    lemma_kind_count_push_all(rest, k);
    lemma_kind_count_push_all(v.added, k);
    let u = redone(v);
    assert forall|i: int| 0 <= i < u.removed.len() implies is_shape_kind(
        #[trigger] u.removed[i],
    ) by {
        assert(u.removed[i] == v.removed[i]);
    }
    assert forall|i: int| 0 <= i < u.added.len() implies is_shape_kind(#[trigger] u.added[i]) by {
        if i < v.added.len() {
            assert(u.added[i] == v.added[i]);
        }
    }
}

/// The canvas after drawing an arrow.
pub open spec fn drawn_arrow<L, A, C, S, T, P>(v: PaintingView<L, A, C, S, T, P>, a: A) -> PaintingView<
    L,
    A,
    C,
    S,
    T,
    P,
> {
    PaintingView { arrows: v.arrows.push(a), added: v.added.push(PpOptions::Arrow), ..v }
}

/// The canvas after drawing a circle.
pub open spec fn drawn_circle<L, A, C, S, T, P>(v: PaintingView<L, A, C, S, T, P>, c: C) -> PaintingView<
    L,
    A,
    C,
    S,
    T,
    P,
> {
    PaintingView { circles: v.circles.push(c), added: v.added.push(PpOptions::Circle), ..v }
}

/// The canvas after drawing a rectangle.
pub open spec fn drawn_square<L, A, C, S, T, P>(v: PaintingView<L, A, C, S, T, P>, q: S) -> PaintingView<
    L,
    A,
    C,
    S,
    T,
    P,
> {
    PaintingView { squares: v.squares.push(q), added: v.added.push(PpOptions::Square), ..v }
}

/// The canvas after writing a text.
pub open spec fn drawn_text<L, A, C, S, T, P>(v: PaintingView<L, A, C, S, T, P>, t: T) -> PaintingView<
    L,
    A,
    C,
    S,
    T,
    P,
> {
    PaintingView { texts: v.texts.push(t), added: v.added.push(PpOptions::Text), ..v }
}

proof fn lemma_push_shape_kind(added: Seq<PpOptions>, k: PpOptions)
    requires
        forall|i: int| 0 <= i < added.len() ==> is_shape_kind(#[trigger] added[i]),
        is_shape_kind(k),
    ensures
        forall|i: int| 0 <= i < added.len() + 1 ==> is_shape_kind(#[trigger] added.push(k)[i]),
        kind_count(added.push(k), PpOptions::Arrow) == kind_count(added, PpOptions::Arrow) + if k
            == PpOptions::Arrow {
            1nat
        } else {
            0nat
        },
        kind_count(added.push(k), PpOptions::Circle) == kind_count(added, PpOptions::Circle) + if k
            == PpOptions::Circle {
            1nat
        } else {
            0nat
        },
        kind_count(added.push(k), PpOptions::Square) == kind_count(added, PpOptions::Square) + if k
            == PpOptions::Square {
            1nat
        } else {
            0nat
        },
        kind_count(added.push(k), PpOptions::Text) == kind_count(added, PpOptions::Text) + if k
            == PpOptions::Text {
            1nat
        } else {
            0nat
        },
{
    lemma_kind_count_push_all(added, k);
    assert forall|i: int| 0 <= i < added.len() + 1 implies is_shape_kind(
        #[trigger] added.push(k)[i],
    ) by {
        if i < added.len() {
            assert(added.push(k)[i] == added[i]);
        }
    }
}

/// Drawing an arrow keeps the history consistent.
pub proof fn lemma_drawn_wf_arrow<L, A, C, S, T, P>(v: PaintingView<L, A, C, S, T, P>, a: A)
    requires
        history_wf(v),
    ensures
        history_wf(drawn_arrow(v, a)),
{
    lemma_push_shape_kind(v.added, PpOptions::Arrow);
}

/// Drawing a circle keeps the history consistent.
pub proof fn lemma_drawn_wf_circle<L, A, C, S, T, P>(v: PaintingView<L, A, C, S, T, P>, c: C)
    requires
        history_wf(v),
    ensures
        history_wf(drawn_circle(v, c)),
{
    lemma_push_shape_kind(v.added, PpOptions::Circle);
}

/// Drawing a rectangle keeps the history consistent.
pub proof fn lemma_drawn_wf_square<L, A, C, S, T, P>(v: PaintingView<L, A, C, S, T, P>, q: S)
    requires
        history_wf(v),
    ensures
        history_wf(drawn_square(v, q)),
{
    lemma_push_shape_kind(v.added, PpOptions::Square);
}

/// Writing a text keeps the history consistent.
pub proof fn lemma_drawn_wf_text<L, A, C, S, T, P>(v: PaintingView<L, A, C, S, T, P>, t: T)
    requires
        history_wf(v),
    ensures
        history_wf(drawn_text(v, t)),
{
    lemma_push_shape_kind(v.added, PpOptions::Text);
}

/// Clearing keeps the history consistent.
pub proof fn lemma_cleared_wf<L, A, C, S, T, P>(v: PaintingView<L, A, C, S, T, P>)
    requires
        history_wf(v),
    ensures
        history_wf(cleared(v)),
{
    lemma_kind_count_empty(PpOptions::Arrow);
    lemma_kind_count_empty(PpOptions::Circle);
    lemma_kind_count_empty(PpOptions::Square);
    lemma_kind_count_empty(PpOptions::Text);
}

/// Redo takes back an undo: undoing the last annotation and redoing it
/// gives the canvas back, but for the outline of an undone arrow, which
/// stays dropped.
pub proof fn law_redo_after_undo<L, A, C, S, T, P>(v: PaintingView<L, A, C, S, T, P>)
    requires
        history_wf(v),
        v.added.len() > 0,
    ensures
        redone(undone(v)) == (PaintingView { arrows_pixels: undone(v).arrows_pixels, ..v }),
{
    lemma_undone_wf(v);
    let u = undone(v);
    let r = redone(u);
    assert(v.added.drop_last().push(v.added.last()) =~= v.added);
    assert(v.arrows.len() > 0 ==> v.arrows.drop_last().push(v.arrows.last()) =~= v.arrows);
    assert(v.circles.len() > 0 ==> v.circles.drop_last().push(v.circles.last()) =~= v.circles);
    assert(v.squares.len() > 0 ==> v.squares.drop_last().push(v.squares.last()) =~= v.squares);
    assert(v.texts.len() > 0 ==> v.texts.drop_last().push(v.texts.last()) =~= v.texts);
    assert(v.removed.push(v.added.last()).drop_last() =~= v.removed);
    assert(v.removed_arrows.push(v.arrows.last()).drop_last() =~= v.removed_arrows);
    assert(v.removed_circles.push(v.circles.last()).drop_last() =~= v.removed_circles);
    assert(v.removed_squares.push(v.squares.last()).drop_last() =~= v.removed_squares);
    assert(v.removed_texts.push(v.texts.last()).drop_last() =~= v.removed_texts);
    assert(r =~= PaintingView { arrows_pixels: u.arrows_pixels, ..v });
}

/// Undo takes back a redo: redoing the last undone annotation and undoing
/// it again gives the canvas back, but for the last arrow outline, which an
/// undone arrow drops.
pub proof fn law_undo_after_redo<L, A, C, S, T, P>(v: PaintingView<L, A, C, S, T, P>)
    requires
        history_wf(v),
        v.removed.len() > 0,
    ensures
        undone(redone(v)) == (PaintingView {
            arrows_pixels: if v.removed.last() == PpOptions::Arrow {
                v.arrows_pixels.drop_last()
            } else {
                v.arrows_pixels
            },
            ..v
        }),
{
    lemma_redone_wf(v);
    let u = redone(v);
    let r = undone(u);
    assert(is_shape_kind(v.removed[v.removed.len() - 1]));
    assert(v.removed.drop_last().push(v.removed.last()) =~= v.removed);
    assert(v.removed_arrows.len() > 0 ==> v.removed_arrows.drop_last().push(
        v.removed_arrows.last(),
    ) =~= v.removed_arrows);
    assert(v.removed_circles.len() > 0 ==> v.removed_circles.drop_last().push(
        v.removed_circles.last(),
    ) =~= v.removed_circles);
    assert(v.removed_squares.len() > 0 ==> v.removed_squares.drop_last().push(
        v.removed_squares.last(),
    ) =~= v.removed_squares);
    assert(v.removed_texts.len() > 0 ==> v.removed_texts.drop_last().push(v.removed_texts.last())
        =~= v.removed_texts);
    assert(v.added.push(v.removed.last()).drop_last() =~= v.added);
    assert(v.arrows.push(v.removed_arrows.last()).drop_last() =~= v.arrows);
    assert(v.circles.push(v.removed_circles.last()).drop_last() =~= v.circles);
    assert(v.squares.push(v.removed_squares.last()).drop_last() =~= v.squares);
    assert(v.texts.push(v.removed_texts.last()).drop_last() =~= v.texts);
}

/// Undo takes back a drawing: the annotation just drawn becomes the last
/// undone one and the canvas is otherwise as before, but an undone arrow
/// drops the last arrow outline.
pub proof fn law_undo_after_draw<L, A, C, S, T, P>(
    v: PaintingView<L, A, C, S, T, P>,
    a: A,
    c: C,
    q: S,
    t: T,
)
    requires
        history_wf(v),
    ensures
        undone(drawn_arrow(v, a)) == (PaintingView {
            removed_arrows: v.removed_arrows.push(a),
            removed: v.removed.push(PpOptions::Arrow),
            arrows_pixels: v.arrows_pixels.drop_last(),
            ..v
        }),
        undone(drawn_circle(v, c)) == (PaintingView {
            removed_circles: v.removed_circles.push(c),
            removed: v.removed.push(PpOptions::Circle),
            ..v
        }),
        undone(drawn_square(v, q)) == (PaintingView {
            removed_squares: v.removed_squares.push(q),
            removed: v.removed.push(PpOptions::Square),
            ..v
        }),
        undone(drawn_text(v, t)) == (PaintingView {
            removed_texts: v.removed_texts.push(t),
            removed: v.removed.push(PpOptions::Text),
            ..v
        }),
{
    assert(v.added.push(PpOptions::Arrow).drop_last() =~= v.added);
    assert(v.added.push(PpOptions::Circle).drop_last() =~= v.added);
    assert(v.added.push(PpOptions::Square).drop_last() =~= v.added);
    assert(v.added.push(PpOptions::Text).drop_last() =~= v.added);
    assert(v.arrows.push(a).drop_last() =~= v.arrows);
    assert(v.circles.push(c).drop_last() =~= v.circles);
    assert(v.squares.push(q).drop_last() =~= v.squares);
    assert(v.texts.push(t).drop_last() =~= v.texts);
    assert(undone(drawn_arrow(v, a)) =~= PaintingView {
        removed_arrows: v.removed_arrows.push(a),
        removed: v.removed.push(PpOptions::Arrow),
        arrows_pixels: v.arrows_pixels.drop_last(),
        ..v
    });
    assert(undone(drawn_circle(v, c)) =~= PaintingView {
        removed_circles: v.removed_circles.push(c),
        removed: v.removed.push(PpOptions::Circle),
        ..v
    });
    assert(undone(drawn_square(v, q)) =~= PaintingView {
        removed_squares: v.removed_squares.push(q),
        removed: v.removed.push(PpOptions::Square),
        ..v
    });
    assert(undone(drawn_text(v, t)) =~= PaintingView {
        removed_texts: v.removed_texts.push(t),
        removed: v.removed.push(PpOptions::Text),
        ..v
    });
}

/// The counts of each kind in the history match the annotations on a new
/// canvas, and every operation keeps them matching: undoing, redoing,
/// drawing each kind of annotation and clearing on save. This holds of any
/// history whose counts match, whatever else it records.
pub proof fn law_kind_counts_kept<L, A, C, S, T, P>(
    v: PaintingView<L, A, C, S, T, P>,
    a: A,
    c: C,
    q: S,
    t: T,
)
    requires
        counts_match(v),
    ensures
        counts_match(empty_painting::<L, A, C, S, T, P>()),
        v.added.len() > 0 ==> counts_match(undone(v)),
        v.removed.len() > 0 ==> counts_match(redone(v)),
        counts_match(drawn_arrow(v, a)),
        counts_match(drawn_circle(v, c)),
        counts_match(drawn_square(v, q)),
        counts_match(drawn_text(v, t)),
        counts_match(cleared(v)),
{
    lemma_kind_count_empty(PpOptions::Arrow);
    lemma_kind_count_empty(PpOptions::Circle);
    lemma_kind_count_empty(PpOptions::Square);
    lemma_kind_count_empty(PpOptions::Text);
    lemma_kind_count_push_all(v.added, PpOptions::Arrow);
    lemma_kind_count_push_all(v.added, PpOptions::Circle);
    lemma_kind_count_push_all(v.added, PpOptions::Square);
    lemma_kind_count_push_all(v.added, PpOptions::Text);
    if v.added.len() > 0 {
        let k = v.added.last();
        let rest = v.added.drop_last();
        assert(rest.push(k) =~= v.added);
        lemma_kind_count_push_all(rest, k);
        lemma_kind_count_push_all(v.removed, k);
    }
    if v.removed.len() > 0 {
        let k = v.removed.last();
        let rest = v.removed.drop_last();
        assert(rest.push(k) =~= v.removed);
        lemma_kind_count_push_all(rest, k);
        lemma_kind_count_push_all(v.added, k);
    }
}

/// How pushing one kind changes the count of every annotation kind.
proof fn lemma_kind_count_push_all(s: Seq<PpOptions>, x: PpOptions)
    ensures
        kind_count(s.push(x), PpOptions::Arrow) == kind_count(s, PpOptions::Arrow) + if x
            == PpOptions::Arrow {
            1nat
        } else {
            0nat
        },
        kind_count(s.push(x), PpOptions::Circle) == kind_count(s, PpOptions::Circle) + if x
            == PpOptions::Circle {
            1nat
        } else {
            0nat
        },
        kind_count(s.push(x), PpOptions::Square) == kind_count(s, PpOptions::Square) + if x
            == PpOptions::Square {
            1nat
        } else {
            0nat
        },
        kind_count(s.push(x), PpOptions::Text) == kind_count(s, PpOptions::Text) + if x
            == PpOptions::Text {
            1nat
        } else {
            0nat
        },
{
    lemma_kind_count_push(s, x, PpOptions::Arrow);
    lemma_kind_count_push(s, x, PpOptions::Circle);
    lemma_kind_count_push(s, x, PpOptions::Square);
    lemma_kind_count_push(s, x, PpOptions::Text);
}

/// Saving burns the drawn annotations into the image: whatever was drawn,
/// afterwards nothing is drawn and nothing is left to undo, the lines,
/// arrows, arrow outlines, circles, rectangles and texts are gone, and the
/// undone annotations stay as they were, ready to be redone.
pub proof fn law_save_leaves_nothing_drawn<L, A, C, S, T, P>(v: PaintingView<L, A, C, S, T, P>)
    ensures
        cleared(v).added.len() == 0,
        cleared(v).lines.len() == 0,
        cleared(v).arrows.len() == 0,
        cleared(v).arrows_pixels.len() == 0,
        cleared(v).circles.len() == 0,
        cleared(v).squares.len() == 0,
        cleared(v).texts.len() == 0,
        cleared(v).removed == v.removed,
        cleared(v).removed_arrows == v.removed_arrows,
        cleared(v).removed_circles == v.removed_circles,
        cleared(v).removed_squares == v.removed_squares,
        cleared(v).removed_texts == v.removed_texts,
{
}

} // verus!
