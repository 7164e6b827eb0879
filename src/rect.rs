use vstd::prelude::*;

use crate::primitives::{HorizontalSplit, PostioningType, VerticalSplit};

verus! {

/// The rectangle a view covers, in the coordinates of its parent space.
#[derive(Clone, Copy, Debug, PartialEq, Eq, Structural)]
pub struct Rect {
    /// Column of the top-left cell.
    pub x: usize,
    /// Row of the top-left cell.
    pub y: usize,
    pub width: usize,
    pub height: usize,
}

impl Rect {
    /// Every coordinate of the rectangle, and one past its far edges, fits in a `usize`.
    pub open spec fn wf(&self) -> bool {
        self.x + self.width <= usize::MAX && self.y + self.height <= usize::MAX
    }

    /// The rectangle lies inside a space of the given size.
    pub open spec fn fits_in(&self, width: int, height: int) -> bool {
        self.x + self.width <= width && self.y + self.height <= height
    }

    /// The absolute cell (ax, ay) lies in the rectangle.
    pub open spec fn contains(&self, ax: int, ay: int) -> bool {
        self.x <= ax < self.x + self.width && self.y <= ay < self.y + self.height
    }

    /// What the coordinate resolver makes of a query: an absolute coordinate, or
    /// nothing. Absolute queries must lie in the rectangle; relative ones are
    /// offset by the origin and accepted up to and including the far edges.
    pub open spec fn spec_resolve(&self, pos_type: PostioningType, x: int, y: int) -> Option<(int, int)> {
        match pos_type {
            PostioningType::Absolute => if self.contains(x, y) {
                Some((x, y))
            } else {
                None
            },
            PostioningType::Relative => if 0 <= x <= self.width && 0 <= y <= self.height {
                Some((self.x + x, self.y + y))
            } else {
                None
            },
        }
    }

    /// The cell of the rectangle that a query names, measured from its origin,
    /// when the query names a cell inside it.
    pub open spec fn locate(&self, pos_type: PostioningType, x: int, y: int) -> Option<(int, int)> {
        match pos_type {
            PostioningType::Absolute => if self.contains(x, y) {
                Some((x - self.x, y - self.y))
            } else {
                None
            },
            PostioningType::Relative => if 0 <= x < self.width && 0 <= y < self.height {
                Some((x, y))
            } else {
                None
            },
        }
    }

    /// The absolute column at which a horizontal split cuts.
    pub open spec fn split_column(&self, pos_type: PostioningType, x_value: int) -> int {
        match pos_type {
            PostioningType::Absolute => x_value,
            PostioningType::Relative => self.x + x_value,
        }
    }

    /// The absolute row at which a vertical split cuts.
    pub open spec fn split_row(&self, pos_type: PostioningType, y_value: int) -> int {
        match pos_type {
            PostioningType::Absolute => y_value,
            PostioningType::Relative => self.y + y_value,
        }
    }

    /// The cut of a horizontal split lies within the rectangle's own columns.
    pub open spec fn can_split_horizontal(&self, pos_type: PostioningType, x_value: int) -> bool {
        self.x <= self.split_column(pos_type, x_value) <= self.x + self.width
    }

    /// The cut of a vertical split lies within the rectangle's own rows.
    pub open spec fn can_split_vertical(&self, pos_type: PostioningType, y_value: int) -> bool {
        self.y <= self.split_row(pos_type, y_value) <= self.y + self.height
    }

    /// The columns before the cut.
    pub open spec fn left_part(&self, pos_type: PostioningType, x_value: int) -> Rect {
        Rect {
            x: self.x,
            y: self.y,
            width: (self.split_column(pos_type, x_value) - self.x) as usize,
            height: self.height,
        }
    }

    /// The columns from the cut on.
    pub open spec fn right_part(&self, pos_type: PostioningType, x_value: int) -> Rect {
        Rect {
            x: self.split_column(pos_type, x_value) as usize,
            y: self.y,
            width: (self.x + self.width - self.split_column(pos_type, x_value)) as usize,
            height: self.height,
        }
    }

    /// The rows before the cut.
    pub open spec fn above_part(&self, pos_type: PostioningType, y_value: int) -> Rect {
        Rect {
            x: self.x,
            y: self.y,
            width: self.width,
            height: (self.split_row(pos_type, y_value) - self.y) as usize,
        }
    }

    /// The rows from the cut on.
    pub open spec fn below_part(&self, pos_type: PostioningType, y_value: int) -> Rect {
        Rect {
            x: self.x,
            y: self.split_row(pos_type, y_value) as usize,
            width: self.width,
            height: (self.y + self.height - self.split_row(pos_type, y_value)) as usize,
        }
    }

    /// Translates a query into an absolute coordinate of the parent space.
    pub fn resolve(&self, pos_type: PostioningType, x: usize, y: usize) -> (r: Option<(usize, usize)>)
        requires
            self.wf(),
        ensures
            r.is_some() == self.spec_resolve(pos_type, x as int, y as int).is_some(),
            r.is_some() ==> self.spec_resolve(pos_type, x as int, y as int) == Some(
                (r.unwrap().0 as int, r.unwrap().1 as int),
            ),
    {
        match pos_type {
            PostioningType::Absolute => {
                if x < self.x || x >= self.x + self.width || y < self.y || y >= self.y + self.height {
                    None
                } else {
                    Some((x, y))
                }
            },
            PostioningType::Relative => {
                if x > self.width || y > self.height {
                    None
                } else {
                    Some((self.x + x, self.y + y))
                }
            },
        }
    }

    /// Finds the cell of the rectangle, measured from its origin, that a query names.
    pub fn local(&self, pos_type: PostioningType, x: usize, y: usize) -> (r: Option<(usize, usize)>)
        requires
            self.wf(),
        ensures
            r.is_some() == self.locate(pos_type, x as int, y as int).is_some(),
            r.is_some() ==> self.locate(pos_type, x as int, y as int) == Some(
                (r.unwrap().0 as int, r.unwrap().1 as int),
            ),
    {
        match self.resolve(pos_type, x, y) {
            Some((ax, ay)) => {
                if ax >= self.x && ay >= self.y && ax - self.x < self.width && ay - self.y < self.height {
                    Some((ax - self.x, ay - self.y))
                } else {
                    None
                }
            },
            None => None,
        }
    }

    /// Cuts the rectangle at a column into the part before it and the part from it on.
    pub fn split_horizontal(&self, pos_type: PostioningType, x_value: usize) -> (r: HorizontalSplit<Rect>)
        requires
            self.wf(),
            self.can_split_horizontal(pos_type, x_value as int),
        ensures
            r.left == self.left_part(pos_type, x_value as int),
            r.right == self.right_part(pos_type, x_value as int),
            r.left.wf(),
            r.right.wf(),
    {
        let right_x = match pos_type {
            PostioningType::Absolute => x_value,
            PostioningType::Relative => self.x + x_value,
        };
        let left_width = right_x - self.x;
        let right_width = self.width - left_width;
        HorizontalSplit {
            left: Rect { x: self.x, y: self.y, width: left_width, height: self.height },
            right: Rect { x: right_x, y: self.y, width: right_width, height: self.height },
        }
    }

    /// Cuts the rectangle at a row into the part before it and the part from it on.
    pub fn split_vertical(&self, pos_type: PostioningType, y_value: usize) -> (r: VerticalSplit<Rect>)
        requires
            self.wf(),
            self.can_split_vertical(pos_type, y_value as int),
        ensures
            r.above == self.above_part(pos_type, y_value as int),
            r.below == self.below_part(pos_type, y_value as int),
            r.above.wf(),
            r.below.wf(),
    {
        let below_y = match pos_type {
            PostioningType::Absolute => y_value,
            PostioningType::Relative => self.y + y_value,
        };
        let above_height = below_y - self.y;
        let below_height = self.height - above_height;
        VerticalSplit {
            above: Rect { x: self.x, y: self.y, width: self.width, height: above_height },
            below: Rect { x: self.x, y: below_y, width: self.width, height: below_height },
        }
    }
}

/// A horizontal split keeps the total width, and every cell of the rectangle
/// lies in exactly one of the two parts; each part also lies inside any space
/// that holds the whole.
pub proof fn lemma_horizontal_partition(r: Rect, pos_type: PostioningType, x_value: int, sw: int, sh: int)
    requires
        r.wf(),
        r.can_split_horizontal(pos_type, x_value),
    ensures
        r.left_part(pos_type, x_value).width + r.right_part(pos_type, x_value).width == r.width,
        r.left_part(pos_type, x_value).height == r.height,
        r.right_part(pos_type, x_value).height == r.height,
        forall|ax: int, ay: int|
            #[trigger] r.contains(ax, ay) <==> (r.left_part(pos_type, x_value).contains(ax, ay)
                || r.right_part(pos_type, x_value).contains(ax, ay)),
        forall|ax: int, ay: int|
            !(#[trigger] r.left_part(pos_type, x_value).contains(ax, ay) && r.right_part(
                pos_type,
                x_value,
            ).contains(ax, ay)),
        r.fits_in(sw, sh) ==> r.left_part(pos_type, x_value).fits_in(sw, sh) && r.right_part(
            pos_type,
            x_value,
        ).fits_in(sw, sh),
{
}

/// A vertical split keeps the total height, and every cell of the rectangle
/// lies in exactly one of the two parts; each part also lies inside any space
/// that holds the whole.
pub proof fn lemma_vertical_partition(r: Rect, pos_type: PostioningType, y_value: int, sw: int, sh: int)
    requires
        r.wf(),
        r.can_split_vertical(pos_type, y_value),
    ensures
        r.above_part(pos_type, y_value).height + r.below_part(pos_type, y_value).height == r.height,
        r.above_part(pos_type, y_value).width == r.width,
        r.below_part(pos_type, y_value).width == r.width,
        forall|ax: int, ay: int|
            #[trigger] r.contains(ax, ay) <==> (r.above_part(pos_type, y_value).contains(ax, ay)
                || r.below_part(pos_type, y_value).contains(ax, ay)),
        forall|ax: int, ay: int|
            !(#[trigger] r.above_part(pos_type, y_value).contains(ax, ay) && r.below_part(
                pos_type,
                y_value,
            ).contains(ax, ay)),
        r.fits_in(sw, sh) ==> r.above_part(pos_type, y_value).fits_in(sw, sh) && r.below_part(
            pos_type,
            y_value,
        ).fits_in(sw, sh),
{
}

} // verus!
