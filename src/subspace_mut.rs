use vstd::prelude::*;

use crate::partition::{split_columns, split_rows};
use crate::primitives::{HorizontalSplit, PostioningType, VerticalSplit};
use crate::rect::Rect;
use crate::space::{lemma_row_major_in_block, lemma_row_major_injective, row_major, Space};

verus! {

/// A mutable view of a rectangle of a space. It holds one mutable reference
/// per cell of its rectangle and nothing else, so views produced by splitting
/// can never reach each other's cells. Queries resolve as for a read-only
/// view, but reach only cells of the view's own rectangle: a relative query
/// one past the far edge, which would name a neighbour's cell, finds nothing.
pub struct SubSpaceMut<'a, T> {
    /// The cells of the rectangle, row-major.
    cells: Vec<&'a mut T>,
    rect: Rect,
}

impl<'a, T> SubSpaceMut<'a, T> {
    /// The rectangle of the parent space that the view covers.
    pub closed spec fn rect(&self) -> Rect {
        self.rect
    }

    /// The reference through which the view reaches its cell (x, y), measured
    /// from its origin.
    pub closed spec fn slot(&self, x: int, y: int) -> &'a mut T {
        self.cells@[row_major(x, y, self.rect.width as int)]
    }

    /// The reference through which the view reaches the absolute cell (ax, ay).
    pub open spec fn slot_at(&self, ax: int, ay: int) -> &'a mut T {
        self.slot(ax - self.rect().x, ay - self.rect().y)
    }

    /// The value the view shows at (x, y), measured from its origin.
    pub open spec fn value(&self, x: int, y: int) -> T {
        *self.slot(x, y)
    }

    /// (x, y), measured from the origin, is a cell of the view.
    pub open spec fn in_view(&self, x: int, y: int) -> bool {
        0 <= x < self.rect().width && 0 <= y < self.rect().height
    }

    /// One reference per cell of a rectangle whose coordinates and cell count
    /// fit in a `usize`.
    pub closed spec fn wf(&self) -> bool {
        &&& self.rect.wf()
        &&& self.cells@.len() == self.rect.width * self.rect.height
        &&& self.rect.width * self.rect.height <= usize::MAX
    }

    /// `left` and `right` are the columns of `self` before and from the cut
    /// that `pos_type` and `x_value` name, each with the references of `self`
    /// for its cells.
    pub open spec fn splits_horizontally_into(
        &self,
        pos_type: PostioningType,
        x_value: int,
        left: SubSpaceMut<'a, T>,
        right: SubSpaceMut<'a, T>,
    ) -> bool {
        &&& left.wf()
        &&& right.wf()
        &&& left.rect() == self.rect().left_part(pos_type, x_value)
        &&& right.rect() == self.rect().right_part(pos_type, x_value)
        &&& forall|x: int, y: int| #[trigger] left.in_view(x, y) ==> left.slot(x, y) == self.slot(x, y)
        &&& forall|x: int, y: int|
            #[trigger] right.in_view(x, y) ==> right.slot(x, y) == self.slot(x + left.rect().width, y)
    }

    /// `above` and `below` are the rows of `self` before and from the cut that
    /// `pos_type` and `y_value` name, each with the references of `self` for
    /// its cells.
    pub open spec fn splits_vertically_into(
        &self,
        pos_type: PostioningType,
        y_value: int,
        above: SubSpaceMut<'a, T>,
        below: SubSpaceMut<'a, T>,
    ) -> bool {
        &&& above.wf()
        &&& below.wf()
        &&& above.rect() == self.rect().above_part(pos_type, y_value)
        &&& below.rect() == self.rect().below_part(pos_type, y_value)
        &&& forall|x: int, y: int| #[trigger] above.in_view(x, y) ==> above.slot(x, y) == self.slot(x, y)
        &&& forall|x: int, y: int|
            #[trigger] below.in_view(x, y) ==> below.slot(x, y) == self.slot(x, y + above.rect().height)
    }

    /// Number of columns of the view.
    pub fn width(&self) -> (r: usize)
        ensures
            r == self.rect().width,
    {
        self.rect.width
    }

    /// Number of rows of the view.
    pub fn height(&self) -> (r: usize)
        ensures
            r == self.rect().height,
    {
        self.rect.height
    }

    /// The value that a query names, when it names a cell of the view.
    pub fn get(&self, pos_type: PostioningType, x: usize, y: usize) -> (r: Option<&T>)
        requires
            self.wf(),
        ensures
            r.is_some() == self.rect().locate(pos_type, x as int, y as int).is_some(),
            r.is_some() ==> {
                let (lx, ly) = self.rect().locate(pos_type, x as int, y as int).unwrap();
                *r.unwrap() == self.value(lx, ly)
            },
    {
        match self.rect.local(pos_type, x, y) {
            Some((lx, ly)) => {
                proof {
                    lemma_row_major_in_block(lx as int, ly as int, self.rect.width as int, self.rect.height as int);
                }
                let cell: &&'a mut T = &self.cells[ly * self.rect.width + lx];
                Some(&**cell)
            },
            None => None,
        }
    }

    /// Writes `value` to the cell that a query names and returns `true`; when
    /// the query names no cell of the view, changes nothing and returns `false`.
    pub fn set(&mut self, pos_type: PostioningType, x: usize, y: usize, value: T) -> (r: bool)
        requires
            old(self).wf(),
        ensures
            r == old(self).rect().locate(pos_type, x as int, y as int).is_some(),
            final(self).wf(),
            final(self).rect() == old(self).rect(),
            forall|i: int, j: int| #[trigger]
                old(self).in_view(i, j) ==> *final(final(self).slot(i, j)) == *final(old(self).slot(i, j)),
            forall|i: int, j: int| #[trigger]
                old(self).in_view(i, j) ==> final(self).value(i, j) == if r && old(self).rect().locate(
                    pos_type,
                    x as int,
                    y as int,
                ) == Some((i, j)) {
                    value
                } else {
                    old(self).value(i, j)
                },
    {
        match self.rect.local(pos_type, x, y) {
            Some((lx, ly)) => {
                proof {
                    lemma_row_major_in_block(lx as int, ly as int, self.rect.width as int, self.rect.height as int);
                }
                let index = ly * self.rect.width + lx;
                let ghost before = self.cells@;
                *self.cells[index] = value;
                assert(self.cells@.len() == before.len());
                assert(*self.cells@[index as int] == value);
                assert(*final(self.cells@[index as int]) == *final(before[index as int]));
                assert(forall|k: int| 0 <= k < before.len() && k != index ==> self.cells@[k] == before[k]);
                assert forall|i: int, j: int| #[trigger] old(self).in_view(i, j) implies {
                    &&& *final(self.slot(i, j)) == *final(old(self).slot(i, j))
                    &&& *self.slot(i, j) == if (i, j) == (lx as int, ly as int) { value } else { old(self).value(i, j) }
                } by {
                    lemma_row_major_in_block(i, j, self.rect.width as int, self.rect.height as int);
                    if row_major(i, j, self.rect.width as int) == index {
                        lemma_row_major_injective(i, j, lx as int, ly as int, self.rect.width as int);
                    }
                }
                true
            },
            None => false,
        }
    }

    /// Splits the view at a column into the columns before it and the columns
    /// from it on. The cut must lie within the view's own columns.
    pub fn split_horizontal(self, pos_type: PostioningType, x_value: usize) -> (r: HorizontalSplit<
        SubSpaceMut<'a, T>,
    >)
        requires
            self.wf(),
            self.rect().can_split_horizontal(pos_type, x_value as int),
        ensures
            self.splits_horizontally_into(pos_type, x_value as int, r.left, r.right),
    {
        let SubSpaceMut { cells, rect } = self;
        let parts = rect.split_horizontal(pos_type, x_value);
        let (left_cells, right_cells) = split_columns(cells, rect.width, rect.height, parts.left.width);
        assert(parts.left.width * rect.height <= rect.width * rect.height && parts.right.width * rect.height
            <= rect.width * rect.height) by (nonlinear_arith)
            requires
                parts.left.width <= rect.width,
                parts.right.width <= rect.width,
        ;
        let left = SubSpaceMut { cells: left_cells, rect: parts.left };
        let right = SubSpaceMut { cells: right_cells, rect: parts.right };
        assert forall|x: int, y: int| #[trigger] right.in_view(x, y) implies right.slot(x, y) == self.slot(
            x + left.rect().width,
            y,
        ) by {}
        HorizontalSplit { left, right }
    }

    /// Splits the view at a row into the rows before it and the rows from it
    /// on. The cut must lie within the view's own rows.
    pub fn split_vertical(self, pos_type: PostioningType, y_value: usize) -> (r: VerticalSplit<
        SubSpaceMut<'a, T>,
    >)
        requires
            self.wf(),
            self.rect().can_split_vertical(pos_type, y_value as int),
        ensures
            self.splits_vertically_into(pos_type, y_value as int, r.above, r.below),
    {
        let SubSpaceMut { cells, rect } = self;
        let parts = rect.split_vertical(pos_type, y_value);
        let (above_cells, below_cells) = split_rows(cells, rect.width, rect.height, parts.above.height);
        assert(rect.width * parts.above.height == parts.above.width * parts.above.height);
        assert(rect.width * parts.above.height <= rect.width * rect.height && rect.width * parts.below.height
            <= rect.width * rect.height) by (nonlinear_arith)
            requires
                parts.above.height <= rect.height,
                parts.below.height <= rect.height,
        ;
        let above = SubSpaceMut { cells: above_cells, rect: parts.above };
        let below = SubSpaceMut { cells: below_cells, rect: parts.below };
        assert(rect.width * (rect.height - parts.above.height) == parts.below.width * parts.below.height);
        VerticalSplit { above, below }
    }
}

impl<T> Space<T> {
    /// A mutable view of the whole space. While it, or any view split from it,
    /// is alive, the space can be reached through the views alone; what they
    /// hold when the last of them is given up is what the space holds.
    pub fn as_subspace_mut(&mut self) -> (r: SubSpaceMut<'_, T>)
        requires
            old(self).wf(),
        ensures
            r.wf(),
            r.rect().x == 0,
            r.rect().y == 0,
            r.rect().width == old(self).spec_width(),
            r.rect().height == old(self).spec_height(),
            forall|x: int, y: int| #[trigger] old(self).in_bounds(x, y) ==> r.value(x, y) == old(self).cell(x, y),
            final(self).wf(),
            final(self).spec_width() == old(self).spec_width(),
            final(self).spec_height() == old(self).spec_height(),
            forall|x: int, y: int| #[trigger]
                old(self).in_bounds(x, y) ==> final(self).cell(x, y) == *final(r.slot(x, y)),
    {
        let width = self.width();
        let height = self.height();
        let cells = self.cell_refs();
        let r = SubSpaceMut { cells, rect: Rect { x: 0, y: 0, width, height } };
        assert forall|x: int, y: int| #[trigger] old(self).in_bounds(x, y) implies r.value(x, y) == old(self).cell(x, y) by {
            lemma_row_major_in_block(x, y, width as int, height as int);
        }
        r
    }
}

/// Once a view will not be written through again, each of its cells holds
/// the value that ends up in the space.
pub proof fn lemma_settled<'a, T>(view: SubSpaceMut<'a, T>)
    requires
        view.wf(),
        has_resolved(view),
    ensures
        forall|x: int, y: int| #[trigger] view.in_view(x, y) ==> *final(view.slot(x, y)) == view.value(x, y),
{
    assert forall|x: int, y: int| #[trigger] view.in_view(x, y) implies *final(view.slot(x, y)) == view.value(x, y) by {
        lemma_row_major_in_block(x, y, view.rect.width as int, view.rect.height as int);
        assert(has_resolved(view.cells));
        assert(has_resolved(view.cells@[row_major(x, y, view.rect.width as int)]));
    }
}

/// A horizontal split of a mutable view hands each cell of the view to exactly
/// one of the two halves, through the very reference the view held for it; no
/// cell outside the view is reachable from either half. So what is written
/// through one half can never be seen through the other.
pub proof fn lemma_horizontal_split_disjoint<'a, T>(
    view: SubSpaceMut<'a, T>,
    pos_type: PostioningType,
    x_value: int,
    left: SubSpaceMut<'a, T>,
    right: SubSpaceMut<'a, T>,
)
    requires
        view.wf(),
        view.rect().can_split_horizontal(pos_type, x_value),
        view.splits_horizontally_into(pos_type, x_value, left, right),
    ensures
        left.rect().width + right.rect().width == view.rect().width,
        forall|ax: int, ay: int| #[trigger]
            view.rect().contains(ax, ay) ==> (left.rect().contains(ax, ay) != right.rect().contains(ax, ay)),
        forall|ax: int, ay: int| #[trigger]
            left.rect().contains(ax, ay) ==> view.rect().contains(ax, ay) && left.slot_at(ax, ay) == view.slot_at(ax, ay),
        forall|ax: int, ay: int| #[trigger]
            right.rect().contains(ax, ay) ==> view.rect().contains(ax, ay) && right.slot_at(ax, ay) == view.slot_at(ax, ay),
{
    crate::rect::lemma_horizontal_partition(view.rect(), pos_type, x_value, 0, 0);
    assert forall|ax: int, ay: int| #[trigger]
        left.rect().contains(ax, ay) implies view.rect().contains(ax, ay) && left.slot_at(ax, ay) == view.slot_at(ax, ay) by {
        assert(left.in_view(ax - left.rect().x, ay - left.rect().y));
    }
    assert forall|ax: int, ay: int| #[trigger]
        right.rect().contains(ax, ay) implies view.rect().contains(ax, ay) && right.slot_at(ax, ay) == view.slot_at(ax, ay) by {
        assert(right.in_view(ax - right.rect().x, ay - right.rect().y));
    }
}

/// A vertical split of a mutable view hands each cell of the view to exactly
/// one of the two halves, through the very reference the view held for it; no
/// cell outside the view is reachable from either half. So what is written
/// through one half can never be seen through the other.
pub proof fn lemma_vertical_split_disjoint<'a, T>(
    view: SubSpaceMut<'a, T>,
    pos_type: PostioningType,
    y_value: int,
    above: SubSpaceMut<'a, T>,
    below: SubSpaceMut<'a, T>,
)
    requires
        view.wf(),
        view.rect().can_split_vertical(pos_type, y_value),
        view.splits_vertically_into(pos_type, y_value, above, below),
    ensures
        above.rect().height + below.rect().height == view.rect().height,
        forall|ax: int, ay: int| #[trigger]
            view.rect().contains(ax, ay) ==> (above.rect().contains(ax, ay) != below.rect().contains(ax, ay)),
        forall|ax: int, ay: int| #[trigger]
            above.rect().contains(ax, ay) ==> view.rect().contains(ax, ay) && above.slot_at(ax, ay) == view.slot_at(ax, ay),
        forall|ax: int, ay: int| #[trigger]
            below.rect().contains(ax, ay) ==> view.rect().contains(ax, ay) && below.slot_at(ax, ay) == view.slot_at(ax, ay),
{
    crate::rect::lemma_vertical_partition(view.rect(), pos_type, y_value, 0, 0);
    assert forall|ax: int, ay: int| #[trigger]
        above.rect().contains(ax, ay) implies view.rect().contains(ax, ay) && above.slot_at(ax, ay) == view.slot_at(ax, ay) by {
        assert(above.in_view(ax - above.rect().x, ay - above.rect().y));
    }
    assert forall|ax: int, ay: int| #[trigger]
        below.rect().contains(ax, ay) implies view.rect().contains(ax, ay) && below.slot_at(ax, ay) == view.slot_at(ax, ay) by {
        assert(below.in_view(ax - below.rect().x, ay - below.rect().y));
    }
}

} // verus!
