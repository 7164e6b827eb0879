use vstd::prelude::*;

use crate::primitives::{HorizontalSplit, PostioningType, VerticalSplit};
use crate::space::Space;
use crate::subspace_mut::SubSpaceMut;

verus! {

/// A mutable view of a rectangle of a space, reached from
/// [`Space::as_slice_mut`]. It behaves as a [`SubSpaceMut`] over the same cells.
pub struct SpaceSliceMut<'a, T> {
    inner: SubSpaceMut<'a, T>,
}

impl<T> Space<T> {
    /// A mutable view of the whole space; see [`Space::as_subspace_mut`].
    pub fn as_slice_mut(&mut self) -> (r: SpaceSliceMut<'_, T>)
        requires
            old(self).wf(),
        ensures
            r.view().wf(),
            r.view().rect().x == 0,
            r.view().rect().y == 0,
            r.view().rect().width == old(self).spec_width(),
            r.view().rect().height == old(self).spec_height(),
            forall|x: int, y: int| #[trigger]
                old(self).in_bounds(x, y) ==> r.view().value(x, y) == old(self).cell(x, y),
            final(self).wf(),
            final(self).spec_width() == old(self).spec_width(),
            final(self).spec_height() == old(self).spec_height(),
            forall|x: int, y: int| #[trigger]
                old(self).in_bounds(x, y) ==> final(self).cell(x, y) == *final(r.view().slot(x, y)),
    {
        SpaceSliceMut { inner: self.as_subspace_mut() }
    }
}

impl<'a, T> SpaceSliceMut<'a, T> {
    /// The view over the same cells.
    pub closed spec fn view(&self) -> SubSpaceMut<'a, T> {
        self.inner
    }

    /// Number of columns of the view.
    pub fn width(&self) -> (r: usize)
        ensures
            r == self.view().rect().width,
    {
        self.inner.width()
    }

    /// Number of rows of the view.
    pub fn height(&self) -> (r: usize)
        ensures
            r == self.view().rect().height,
    {
        self.inner.height()
    }

    /// The value that a query names, when it names a cell of the view.
    pub fn get(&self, pos_type: PostioningType, x: usize, y: usize) -> (r: Option<&T>)
        requires
            self.view().wf(),
        ensures
            r.is_some() == self.view().rect().locate(pos_type, x as int, y as int).is_some(),
            r.is_some() ==> {
                let (lx, ly) = self.view().rect().locate(pos_type, x as int, y as int).unwrap();
                *r.unwrap() == self.view().value(lx, ly)
            },
    {
        self.inner.get(pos_type, x, y)
    }

    /// Writes `value` to the cell that a query names and returns `true`; when
    /// the query names no cell of the view, changes nothing and returns `false`.
    pub fn set(&mut self, pos_type: PostioningType, x: usize, y: usize, value: T) -> (r: bool)
        requires
            old(self).view().wf(),
        ensures
            r == old(self).view().rect().locate(pos_type, x as int, y as int).is_some(),
            final(self).view().wf(),
            final(self).view().rect() == old(self).view().rect(),
            forall|i: int, j: int| #[trigger]
                old(self).view().in_view(i, j) ==> *final(final(self).view().slot(i, j)) == *final(
                    old(self).view().slot(i, j)),
            forall|i: int, j: int| #[trigger]
                old(self).view().in_view(i, j) ==> final(self).view().value(i, j) == if r && old(
                    self,
                ).view().rect().locate(pos_type, x as int, y as int) == Some((i, j)) {
                    value
                } else {
                    old(self).view().value(i, j)
                },
    {
        self.inner.set(pos_type, x, y, value)
    }

    /// Splits the view at a column into the columns before it and the columns
    /// from it on. The cut must lie within the view's own columns.
    pub fn split_horizontal(self, pos_type: PostioningType, x_value: usize) -> (r: HorizontalSplit<
        SpaceSliceMut<'a, T>,
    >)
        requires
            self.view().wf(),
            self.view().rect().can_split_horizontal(pos_type, x_value as int),
        ensures
            self.view().splits_horizontally_into(pos_type, x_value as int, r.left.view(), r.right.view()),
    {
        let parts = self.inner.split_horizontal(pos_type, x_value);
        HorizontalSplit {
            left: SpaceSliceMut { inner: parts.left },
            right: SpaceSliceMut { inner: parts.right },
        }
    }

    /// Splits the view at a row into the rows before it and the rows from it
    /// on. The cut must lie within the view's own rows.
    pub fn split_vertical(self, pos_type: PostioningType, y_value: usize) -> (r: VerticalSplit<
        SpaceSliceMut<'a, T>,
    >)
        requires
            self.view().wf(),
            self.view().rect().can_split_vertical(pos_type, y_value as int),
        ensures
            self.view().splits_vertically_into(pos_type, y_value as int, r.above.view(), r.below.view()),
    {
        let parts = self.inner.split_vertical(pos_type, y_value);
        VerticalSplit {
            above: SpaceSliceMut { inner: parts.above },
            below: SpaceSliceMut { inner: parts.below },
        }
    }
}

} // verus!
