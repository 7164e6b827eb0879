use vstd::prelude::*;

use crate::space::{lemma_row_major_before_row, lemma_row_major_in_block, row_major};

verus! {

/// The items of `v` in the opposite order.
fn reversed<R>(v: Vec<R>) -> (r: Vec<R>)
    ensures
        r@.len() == v@.len(),
        forall|i: int| 0 <= i < v@.len() ==> #[trigger] r@[i] == v@[v@.len() - 1 - i],
{
    let mut src = v;
    let mut out: Vec<R> = Vec::new();
    while src.len() > 0
        invariant
            src@.len() + out@.len() == v@.len(),
            forall|i: int| 0 <= i < src@.len() ==> #[trigger] src@[i] == v@[i],
            forall|i: int| 0 <= i < out@.len() ==> #[trigger] out@[i] == v@[v@.len() - 1 - i],
        decreases src@.len(),
    {
        let item = src.pop().unwrap();
        out.push(item);
    }
    out
}

/// Splits a row-major block `width` cells wide into its first `top` rows and the rest.
pub(crate) fn split_rows<R>(cells: Vec<R>, width: usize, height: usize, top: usize) -> (r: (Vec<R>, Vec<R>))
    requires
        cells@.len() == width * height,
        top <= height,
    ensures
        r.0@.len() == width * top,
        r.1@.len() == width * (height - top),
        forall|x: int, y: int|
            0 <= x < width && 0 <= y < top ==> #[trigger] r.0@[row_major(x, y, width as int)]
                == cells@[row_major(x, y, width as int)],
        forall|x: int, y: int|
            0 <= x < width && 0 <= y < height - top ==> #[trigger] r.1@[row_major(x, y, width as int)]
                == cells@[row_major(x, y + top, width as int)],
{
    let total = cells.len();
    let mut upper = cells;
    assert(top * width <= height * width && width * height == height * width
        && top * width == width * top && width * (height - top) == width * height - width * top)
        by (nonlinear_arith)
        requires
            top <= height,
    ;
    let lower = upper.split_off(top * width);
    assert forall|x: int, y: int|
        0 <= x < width && 0 <= y < top implies #[trigger] upper@[row_major(x, y, width as int)]
            == cells@[row_major(x, y, width as int)] by {
        lemma_row_major_in_block(x, y, width as int, top as int);
    }
    assert forall|x: int, y: int|
        0 <= x < width && 0 <= y < height - top implies #[trigger] lower@[row_major(x, y, width as int)]
            == cells@[row_major(x, y + top, width as int)] by {
        lemma_row_major_in_block(x, y, width as int, (height - top) as int);
        assert(row_major(x, y + top, width as int) == top * width + row_major(x, y, width as int))
            by (nonlinear_arith);
    }
    (upper, lower)
}

/// Splits a row-major block `width` cells wide into the block of its first
/// `left_width` columns and the block of the remaining columns, both row-major.
pub(crate) fn split_columns<R>(cells: Vec<R>, width: usize, height: usize, left_width: usize) -> (r: (
    Vec<R>,
    Vec<R>,
))
    requires
        cells@.len() == width * height,
        left_width <= width,
    ensures
        r.0@.len() == left_width * height,
        r.1@.len() == (width - left_width) * height,
        forall|x: int, y: int|
            0 <= x < left_width && 0 <= y < height ==> #[trigger] r.0@[row_major(x, y, left_width as int)]
                == cells@[row_major(x, y, width as int)],
        forall|x: int, y: int|
            0 <= x < width - left_width && 0 <= y < height ==> #[trigger] r.1@[row_major(
                x,
                y,
                (width - left_width) as int,
            )] == cells@[row_major(x + left_width, y, width as int)],
{
    let ghost n = cells@.len();
    let right_width = width - left_width;
    let mut pending = reversed(cells);
    let mut left: Vec<R> = Vec::new();
    let mut right: Vec<R> = Vec::new();
    let mut y: usize = 0;
    while y < height
        invariant
            y <= height,
            right_width == width - left_width,
            n == width * height,
            pending@.len() == n - y * width,
            forall|i: int| 0 <= i < pending@.len() ==> #[trigger] pending@[i] == cells@[n - 1 - i],
            left@.len() == y * left_width,
            right@.len() == y * right_width,
            forall|i: int, j: int|
                0 <= i < left_width && 0 <= j < y ==> #[trigger] left@[row_major(i, j, left_width as int)]
                    == cells@[row_major(i, j, width as int)],
            forall|i: int, j: int|
                0 <= i < right_width && 0 <= j < y ==> #[trigger] right@[row_major(i, j, right_width as int)]
                    == cells@[row_major(i + left_width, j, width as int)],
        decreases height - y,
    {
        assert(y * width + width <= width * height) by (nonlinear_arith)
            requires
                y < height,
        ;
        let mut x: usize = 0;
        while x < width
            invariant
                x <= width,
                y < height,
                right_width == width - left_width,
                n == width * height,
                y * width + width <= n,
                pending@.len() == n - (y * width + x),
                forall|i: int| 0 <= i < pending@.len() ==> #[trigger] pending@[i] == cells@[n - 1 - i],
                left@.len() == y * left_width + if x < left_width { x as int } else { left_width as int },
                right@.len() == y * right_width + if x < left_width { 0 } else { x - left_width },
                forall|i: int, j: int|
                    0 <= i < left_width && 0 <= j < y ==> #[trigger] left@[row_major(i, j, left_width as int)]
                        == cells@[row_major(i, j, width as int)],
                forall|i: int, j: int|
                    0 <= i < right_width && 0 <= j < y ==> #[trigger] right@[row_major(i, j, right_width as int)]
                        == cells@[row_major(i + left_width, j, width as int)],
                forall|i: int|
                    0 <= i < x && i < left_width ==> #[trigger] left@[row_major(i, y as int, left_width as int)]
                        == cells@[row_major(i, y as int, width as int)],
                forall|i: int|
                    left_width <= i < x ==> #[trigger] right@[row_major(i - left_width, y as int, right_width as int)]
                        == cells@[row_major(i, y as int, width as int)],
            decreases width - x,
        {
            let ghost prev_left = left@;
            let ghost prev_right = right@;
            let item = pending.pop().unwrap();
            assert(item == cells@[row_major(x as int, y as int, width as int)]);
            if x < left_width {
                left.push(item);
                assert forall|i: int, j: int|
                    0 <= i < left_width && 0 <= j < y implies #[trigger] left@[row_major(i, j, left_width as int)]
                        == cells@[row_major(i, j, width as int)] by {
                    lemma_row_major_before_row(i, j, left_width as int, y as int);
                    assert(left@[row_major(i, j, left_width as int)] == prev_left[row_major(i, j, left_width as int)]);
                }
                assert forall|i: int|
                    0 <= i < x + 1 && i < left_width implies #[trigger] left@[row_major(i, y as int, left_width as int)]
                        == cells@[row_major(i, y as int, width as int)] by {
                    if i < x {
                        assert(left@[row_major(i, y as int, left_width as int)] == prev_left[row_major(i, y as int, left_width as int)]);
                    }
                }
            } else {
                right.push(item);
                assert forall|i: int, j: int|
                    0 <= i < right_width && 0 <= j < y implies #[trigger] right@[row_major(i, j, right_width as int)]
                        == cells@[row_major(i + left_width, j, width as int)] by {
                    lemma_row_major_before_row(i, j, right_width as int, y as int);
                    assert(right@[row_major(i, j, right_width as int)] == prev_right[row_major(i, j, right_width as int)]);
                }
                assert forall|i: int|
                    left_width <= i < x + 1 implies #[trigger] right@[row_major(i - left_width, y as int, right_width as int)]
                        == cells@[row_major(i, y as int, width as int)] by {
                    if i < x {
                        assert(right@[row_major(i - left_width, y as int, right_width as int)] == prev_right[row_major(i - left_width, y as int, right_width as int)]);
                    }
                }
            }
            x = x + 1;
        }
        assert((y + 1) * left_width == y * left_width + left_width && (y + 1) * right_width == y * right_width
            + right_width && (y + 1) * width == y * width + width) by (nonlinear_arith);
        assert forall|i: int, j: int|
            0 <= i < left_width && 0 <= j < y + 1 implies #[trigger] left@[row_major(i, j, left_width as int)]
                == cells@[row_major(i, j, width as int)] by {
            if j == y {
            }
        }
        assert forall|i: int, j: int|
            0 <= i < right_width && 0 <= j < y + 1 implies #[trigger] right@[row_major(i, j, right_width as int)]
                == cells@[row_major(i + left_width, j, width as int)] by {
            if j == y {
                assert(right@[row_major((i + left_width) - left_width, y as int, right_width as int)]
                    == cells@[row_major(i + left_width, y as int, width as int)]);
            }
        }
        y = y + 1;
    }
    assert(height * left_width == left_width * height && height * right_width == right_width * height)
        by (nonlinear_arith);
    (left, right)
}

} // verus!
