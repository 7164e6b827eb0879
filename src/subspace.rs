use vstd::prelude::*;

use crate::primitives::{HorizontalSplit, PostioningType, VerticalSplit};
use crate::rect::{lemma_horizontal_partition, lemma_vertical_partition, Rect};
use crate::space::{lemma_row_major_before_row, lemma_row_major_in_block, row_major, Space};

verus! {

/// A read-only view of a rectangle of a space.
#[derive(Clone, Debug)]
pub struct SubSpace<'a, T> {
    parent: &'a Space<T>,
    rect: Rect,
}

impl<T> Space<T> {
    /// A read-only view of the whole space.
    pub fn as_subspace(&self) -> (r: SubSpace<'_, T>)
        requires
            self.wf(),
        ensures
            r.wf(),
            r.is_full_view_of(*self),
    {
        SubSpace { parent: self, rect: Rect { x: 0, y: 0, width: self.width(), height: self.height() } }
    }
}

impl<'a, T> SubSpace<'a, T> {
    /// The space the view reads.
    pub closed spec fn parent(&self) -> Space<T> {
        *self.parent
    }

    /// The rectangle of the parent space that the view covers.
    pub closed spec fn rect(&self) -> Rect {
        self.rect
    }

    /// The rectangle lies inside a well-formed parent.
    pub open spec fn wf(&self) -> bool {
        &&& self.parent().wf()
        &&& self.rect().wf()
        &&& self.rect().fits_in(self.parent().spec_width() as int, self.parent().spec_height() as int)
    }

    /// (x, y), measured from the origin, is a cell of the view.
    pub open spec fn in_view(&self, x: int, y: int) -> bool {
        0 <= x < self.rect().width && 0 <= y < self.rect().height
    }

    /// The value at (x, y), measured from the view's origin.
    pub open spec fn value(&self, x: int, y: int) -> T {
        self.parent().cell(self.rect().x + x, self.rect().y + y)
    }

    /// The view covers all of `space`.
    pub open spec fn is_full_view_of(&self, space: Space<T>) -> bool {
        &&& self.parent() == space
        &&& self.rect().x == 0
        &&& self.rect().y == 0
        &&& self.rect().width == space.spec_width()
        &&& self.rect().height == space.spec_height()
    }

    /// `copy` has the view's dimensions and holds a clone of each of its cells
    /// at the same place.
    pub open spec fn copies_to(&self, copy: Space<T>) -> bool where T: Clone {
        &&& copy.wf()
        &&& copy.spec_width() == self.rect().width
        &&& copy.spec_height() == self.rect().height
        &&& forall|x: int, y: int| #[trigger] self.in_view(x, y) ==> cloned(self.value(x, y), copy.cell(x, y))
    }

    /// `left` and `right` read the columns of `self` before and from the cut
    /// that `pos_type` and `x_value` name.
    pub open spec fn splits_horizontally_into(
        &self,
        pos_type: PostioningType,
        x_value: int,
        left: SubSpace<'a, T>,
        right: SubSpace<'a, T>,
    ) -> bool {
        &&& left.wf()
        &&& right.wf()
        &&& left.parent() == self.parent()
        &&& right.parent() == self.parent()
        &&& left.rect() == self.rect().left_part(pos_type, x_value)
        &&& right.rect() == self.rect().right_part(pos_type, x_value)
    }

    /// `above` and `below` read the rows of `self` before and from the cut
    /// that `pos_type` and `y_value` name.
    pub open spec fn splits_vertically_into(
        &self,
        pos_type: PostioningType,
        y_value: int,
        above: SubSpace<'a, T>,
        below: SubSpace<'a, T>,
    ) -> bool {
        &&& above.wf()
        &&& below.wf()
        &&& above.parent() == self.parent()
        &&& below.parent() == self.parent()
        &&& above.rect() == self.rect().above_part(pos_type, y_value)
        &&& below.rect() == self.rect().below_part(pos_type, y_value)
    }

    /// Number of columns of the view.
    pub fn width(&self) -> (r: usize)
        ensures
            r == self.rect().width,
    {
        self.rect.width
    }

    /// Number of rows of the view.
    pub fn height(&self) -> (r: usize)
        ensures
            r == self.rect().height,
    {
        self.rect.height
    }

    /// Resolves the query against the view, then reads the parent space at the
    /// absolute coordinate found. A relative query one past the far edge is
    /// accepted by the resolver and so reads the parent's cell there, if any.
    pub fn get(&self, pos_type: PostioningType, x: usize, y: usize) -> (r: Option<&'a T>)
        requires
            self.wf(),
        ensures
            ({
                let found = self.rect().spec_resolve(pos_type, x as int, y as int);
                &&& r.is_some() == (found.is_some() && self.parent().in_bounds(found.unwrap().0, found.unwrap().1))
                &&& r.is_some() ==> *r.unwrap() == self.parent().cell(found.unwrap().0, found.unwrap().1)
            }),
    {
        match self.rect.resolve(pos_type, x, y) {
            Some((ax, ay)) => self.parent.get(ax, ay),
            None => None,
        }
    }

    /// The value at (x, y), measured from the origin, of a cell of the view.
    fn value_at(&self, x: usize, y: usize) -> (r: &'a T)
        requires
            self.wf(),
            self.in_view(x as int, y as int),
        ensures
            *r == self.value(x as int, y as int),
    {
        self.parent.get(self.rect.x + x, self.rect.y + y).unwrap()
    }

    /// The cells of the view in row-major order.
    pub fn values(&self) -> (r: Vec<&'a T>)
        requires
            self.wf(),
        ensures
            r@.len() == self.rect().width * self.rect().height,
            forall|x: int, y: int| #[trigger]
                self.in_view(x, y) ==> *r@[row_major(x, y, self.rect().width as int)] == self.value(x, y),
    {
        let width = self.rect.width;
        let height = self.rect.height;
        let mut out: Vec<&'a T> = Vec::new();
        let mut y: usize = 0;
        while y < height
            invariant
                self.wf(),
                width == self.rect().width,
                height == self.rect().height,
                y <= height,
                out@.len() == y * width,
                forall|i: int, j: int|
                    0 <= i < width && 0 <= j < y ==> *#[trigger] out@[row_major(i, j, width as int)] == self.value(i, j),
            decreases height - y,
        {
            let mut x: usize = 0;
            while x < width
                invariant
                    self.wf(),
                    width == self.rect().width,
                    height == self.rect().height,
                    y < height,
                    x <= width,
                    out@.len() == y * width + x,
                    forall|i: int, j: int|
                        0 <= i < width && 0 <= j < y ==> *#[trigger] out@[row_major(i, j, width as int)] == self.value(i, j),
                    forall|i: int| 0 <= i < x ==> *#[trigger] out@[row_major(i, y as int, width as int)] == self.value(i, y as int),
                decreases width - x,
            {
                let ghost prev = out@;
                let cell = self.value_at(x, y);
                out.push(cell);
                assert forall|i: int, j: int|
                    0 <= i < width && 0 <= j < y implies *#[trigger] out@[row_major(i, j, width as int)] == self.value(i, j) by {
                    lemma_row_major_before_row(i, j, width as int, y as int);
                    assert(out@[row_major(i, j, width as int)] == prev[row_major(i, j, width as int)]);
                }
                assert forall|i: int| 0 <= i < x + 1 implies *#[trigger] out@[row_major(i, y as int, width as int)] == self.value(i, y as int) by {
                    if i < x {
                        assert(out@[row_major(i, y as int, width as int)] == prev[row_major(i, y as int, width as int)]);
                    }
                }
                x = x + 1;
            }
            assert((y + 1) * width == y * width + width) by (nonlinear_arith);
            y = y + 1;
        }
        assert(height * width == width * height) by (nonlinear_arith);
        out
    }

    /// Walks the view's cells in row-major order.
    pub fn iter(&self) -> (r: SubSpaceIter<'a, T>)
        requires
            self.wf(),
        ensures
            r.wf(),
            r.view() == *self,
            r.position() == (if self.rect().width > 0 { (0int, 0int) } else { (0int, self.rect().height as int) }),
    {
        let start_y = if self.rect.width > 0 { 0 } else { self.rect.height };
        SubSpaceIter { view: SubSpace { parent: self.parent, rect: self.rect }, x: 0, y: start_y }
    }

    /// A new space holding a clone of each cell of the view, in the same places.
    pub fn as_space(&self) -> (r: Space<T>) where T: Clone
        requires
            self.wf(),
        ensures
            self.copies_to(r),
    {
        let width = self.rect.width;
        let height = self.rect.height;
        let cells = self.values();
        let mut data: Vec<T> = Vec::new();
        let mut i: usize = 0;
        while i < cells.len()
            invariant
                i <= cells@.len(),
                data@.len() == i,
                forall|k: int| 0 <= k < i ==> cloned(*cells@[k], #[trigger] data@[k]),
            decreases cells@.len() - i,
        {
            let c = cells[i].clone();
            data.push(c);
            i = i + 1;
        }
        let r = Space::from_sequence(&mut data, width, height).unwrap();
        assert forall|x: int, y: int| #[trigger] self.in_view(x, y) implies cloned(self.value(x, y), r.cell(x, y)) by {
            lemma_row_major_in_block(x, y, width as int, height as int);
        }
        r
    }

    /// Splits the view at a column into the columns before it and the columns
    /// from it on. The cut must lie within the view's own columns.
    pub fn split_horizontal(&self, pos_type: PostioningType, x_value: usize) -> (r: HorizontalSplit<
        SubSpace<'a, T>,
    >)
        requires
            self.wf(),
            self.rect().can_split_horizontal(pos_type, x_value as int),
        ensures
            self.splits_horizontally_into(pos_type, x_value as int, r.left, r.right),
    {
        proof {
            lemma_horizontal_partition(
                self.rect,
                pos_type,
                x_value as int,
                self.parent().spec_width() as int,
                self.parent().spec_height() as int,
            );
        }
        let parts = self.rect.split_horizontal(pos_type, x_value);
        HorizontalSplit {
            left: SubSpace { parent: self.parent, rect: parts.left },
            right: SubSpace { parent: self.parent, rect: parts.right },
        }
    }

    /// Splits the view at a row into the rows before it and the rows from it
    /// on. The cut must lie within the view's own rows.
    pub fn split_vertical(&self, pos_type: PostioningType, y_value: usize) -> (r: VerticalSplit<
        SubSpace<'a, T>,
    >)
        requires
            self.wf(),
            self.rect().can_split_vertical(pos_type, y_value as int),
        ensures
            self.splits_vertically_into(pos_type, y_value as int, r.above, r.below),
    {
        proof {
            lemma_vertical_partition(
                self.rect,
                pos_type,
                y_value as int,
                self.parent().spec_width() as int,
                self.parent().spec_height() as int,
            );
        }
        let parts = self.rect.split_vertical(pos_type, y_value);
        VerticalSplit {
            above: SubSpace { parent: self.parent, rect: parts.above },
            below: SubSpace { parent: self.parent, rect: parts.below },
        }
    }
}

/// Walks the cells of a read-only view in row-major order: x varies fastest,
/// then y.
pub struct SubSpaceIter<'a, T> {
    view: SubSpace<'a, T>,
    x: usize,
    y: usize,
}

impl<'a, T> SubSpaceIter<'a, T> {
    /// The view walked.
    pub closed spec fn view(&self) -> SubSpace<'a, T> {
        self.view
    }

    /// The cell, measured from the view's origin, that the next call yields;
    /// a row at or past the view's height means the walk is over.
    pub closed spec fn position(&self) -> (int, int) {
        (self.x as int, self.y as int)
    }

    pub open spec fn wf(&self) -> bool {
        &&& self.view().wf()
        &&& 0 <= self.position().1 <= self.view().rect().height
        &&& self.position().1 < self.view().rect().height ==> 0 <= self.position().0
            < self.view().rect().width
    }

    /// Yields the value at the current cell and moves to the next one, or
    /// yields `None` once every cell has been walked.
    pub fn next(&mut self) -> (r: Option<&'a T>)
        requires
            old(self).wf(),
        ensures
            final(self).wf(),
            final(self).view() == old(self).view(),
            ({
                let (x, y) = old(self).position();
                if y < old(self).view().rect().height {
                    &&& r.is_some()
                    &&& *r.unwrap() == old(self).view().value(x, y)
                    &&& final(self).position() == if x + 1 == old(self).view().rect().width {
                        (0, y + 1)
                    } else {
                        (x + 1, y)
                    }
                } else {
                    r.is_none() && final(self).position() == old(self).position()
                }
            }),
    {
        if self.y >= self.view.rect.height {
            return None;
        }
        let r = self.view.value_at(self.x, self.y);
        if self.x + 1 == self.view.rect.width {
            self.x = 0;
            self.y = self.y + 1;
        } else {
            self.x = self.x + 1;
        }
        Some(r)
    }
}

/// Copying the full view of a space gives a space of the same dimensions that
/// holds a clone of each cell at the same place; where cloning gives back an
/// equal value, the copy holds exactly the cells of the original.
pub proof fn lemma_full_view_round_trip<'a, T: Clone>(space: Space<T>, view: SubSpace<'a, T>, copy: Space<T>)
    requires
        space.wf(),
        view.is_full_view_of(space),
        view.copies_to(copy),
    ensures
        copy.spec_width() == space.spec_width(),
        copy.spec_height() == space.spec_height(),
        forall|x: int, y: int| #[trigger] space.in_bounds(x, y) ==> cloned(space.cell(x, y), copy.cell(x, y)),
        (forall|a: T, b: T| #[trigger] cloned(a, b) ==> a == b) ==> copy.cells() == space.cells(),
{
    assert forall|x: int, y: int| #[trigger] space.in_bounds(x, y) implies cloned(space.cell(x, y), copy.cell(x, y)) by {
        assert(view.in_view(x, y));
    }
    if forall|a: T, b: T| #[trigger] cloned(a, b) ==> a == b {
        let w = space.spec_width() as int;
        let h = space.spec_height() as int;
        assert forall|i: int| 0 <= i < space.cells().len() implies #[trigger] copy.cells()[i] == space.cells()[i] by {
            let x = i % w;
            let y = i / w;
            assert(w > 0) by (nonlinear_arith)
                requires
                    0 <= i < w * h,
                    0 <= h,
            ;
            vstd::arithmetic::div_mod::lemma_fundamental_div_mod(i, w);
            vstd::arithmetic::div_mod::lemma_mod_bound(i, w);
            assert(0 <= y < h) by (nonlinear_arith)
                requires
                    i == w * y + x,
                    0 <= x < w,
                    0 <= i < w * h,
            ;
            assert(i == row_major(x, y, w));
            assert(space.in_bounds(x, y));
            assert(cloned(space.cell(x, y), copy.cell(x, y)));
        }
        assert(copy.cells() =~= space.cells());
    }
}

/// A horizontal split of a read-only view keeps its width and reaches every
/// cell of the view exactly once: the left part at the same coordinates, the
/// right part shifted left by the left part's width.
pub proof fn lemma_horizontal_split_cells<'a, T>(
    view: SubSpace<'a, T>,
    pos_type: PostioningType,
    x_value: int,
    left: SubSpace<'a, T>,
    right: SubSpace<'a, T>,
)
    requires
        view.wf(),
        view.rect().can_split_horizontal(pos_type, x_value),
        view.splits_horizontally_into(pos_type, x_value, left, right),
    ensures
        left.rect().width + right.rect().width == view.rect().width,
        left.rect().height == view.rect().height,
        right.rect().height == view.rect().height,
        forall|x: int, y: int| #[trigger]
            view.in_view(x, y) ==> if x < left.rect().width {
                left.in_view(x, y) && left.value(x, y) == view.value(x, y)
            } else {
                right.in_view(x - left.rect().width, y) && right.value(x - left.rect().width, y) == view.value(x, y)
            },
        forall|x: int, y: int| #[trigger] left.in_view(x, y) ==> view.in_view(x, y) && x < left.rect().width,
        forall|x: int, y: int| #[trigger]
            right.in_view(x, y) ==> view.in_view(x + left.rect().width, y) && x + left.rect().width >= left.rect().width,
{
    lemma_horizontal_partition(view.rect(), pos_type, x_value, 0, 0);
}

/// A vertical split of a read-only view keeps its height and reaches every
/// cell of the view exactly once: the part above at the same coordinates, the
/// part below shifted up by the height of the part above.
pub proof fn lemma_vertical_split_cells<'a, T>(
    view: SubSpace<'a, T>,
    pos_type: PostioningType,
    y_value: int,
    above: SubSpace<'a, T>,
    below: SubSpace<'a, T>,
)
    requires
        view.wf(),
        view.rect().can_split_vertical(pos_type, y_value),
        view.splits_vertically_into(pos_type, y_value, above, below),
    ensures
        above.rect().height + below.rect().height == view.rect().height,
        above.rect().width == view.rect().width,
        below.rect().width == view.rect().width,
        forall|x: int, y: int| #[trigger]
            view.in_view(x, y) ==> if y < above.rect().height {
                above.in_view(x, y) && above.value(x, y) == view.value(x, y)
            } else {
                below.in_view(x, y - above.rect().height) && below.value(x, y - above.rect().height) == view.value(x, y)
            },
        forall|x: int, y: int| #[trigger] above.in_view(x, y) ==> view.in_view(x, y) && y < above.rect().height,
        forall|x: int, y: int| #[trigger]
            below.in_view(x, y) ==> view.in_view(x, y + above.rect().height) && y + above.rect().height >= above.rect().height,
{
    lemma_vertical_partition(view.rect(), pos_type, y_value, 0, 0);
}

} // verus!
