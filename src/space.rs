use vstd::prelude::*;

verus! {

/// Row-major position of cell (x, y) in a block `width` cells wide.
pub open spec fn row_major(x: int, y: int, width: int) -> int {
    y * width + x
}

/// A cell inside a `width` × `height` block has its row-major position inside
/// the block's storage, within the span of its own row.
pub proof fn lemma_row_major_in_block(x: int, y: int, width: int, height: int)
    requires
        0 <= x < width,
        0 <= y < height,
    ensures
        0 <= row_major(x, y, width) < width * height,
        row_major(x, y, width) + 1 <= width * height,
        y * width <= row_major(x, y, width),
        row_major(x, y, width) < (y + 1) * width,
{
    assert(0 <= y * width) by (nonlinear_arith)
        requires
            0 <= y,
            0 <= width,
    ;
    assert((y + 1) * width <= width * height) by (nonlinear_arith)
        requires
            y + 1 <= height,
            0 <= width,
    ;
    assert((y + 1) * width == y * width + width) by (nonlinear_arith);
}

/// A cell in a row before `row` comes before that row's first cell.
pub proof fn lemma_row_major_before_row(x: int, y: int, width: int, row: int)
    requires
        0 <= x < width,
        0 <= y < row,
    ensures
        row_major(x, y, width) < row * width,
{
    assert((y + 1) * width <= row * width) by (nonlinear_arith)
        requires
            y + 1 <= row,
            0 <= width,
    ;
    assert((y + 1) * width == y * width + width) by (nonlinear_arith);
}

/// Row-major positions of two cells of one block agree only when the cells do.
pub proof fn lemma_row_major_injective(x1: int, y1: int, x2: int, y2: int, width: int)
    requires
        0 <= x1 < width,
        0 <= x2 < width,
        0 <= y1,
        0 <= y2,
        row_major(x1, y1, width) == row_major(x2, y2, width),
    ensures
        x1 == x2 && y1 == y2,
{
    if y1 < y2 {
        assert(y1 * width + width <= y2 * width) by (nonlinear_arith)
            requires
                y1 < y2,
                0 <= width,
        ;
    } else if y2 < y1 {
        assert(y2 * width + width <= y1 * width) by (nonlinear_arith)
            requires
                y2 < y1,
                0 <= width,
        ;
    }
}

/// A rectangular grid of `width` × `height` cells held in one contiguous
/// row-major buffer.
#[derive(Clone, Debug, PartialEq, Eq)]
pub struct Space<T> {
    data: Vec<T>,
    width: usize,
    height: usize,
}

impl<T> Space<T> {
    /// Number of columns.
    pub closed spec fn spec_width(&self) -> nat {
        self.width as nat
    }

    /// Number of rows.
    pub closed spec fn spec_height(&self) -> nat {
        self.height as nat
    }

    /// The cells in row-major order.
    pub closed spec fn cells(&self) -> Seq<T> {
        self.data@
    }

    /// The buffer holds exactly one cell per position, and every position
    /// fits in a `usize`.
    pub open spec fn wf(&self) -> bool {
        &&& self.cells().len() == self.spec_width() * self.spec_height()
        &&& self.spec_width() * self.spec_height() <= usize::MAX
    }

    pub open spec fn in_bounds(&self, x: int, y: int) -> bool {
        0 <= x < self.spec_width() && 0 <= y < self.spec_height()
    }

    /// The value at absolute position (x, y).
    pub open spec fn cell(&self, x: int, y: int) -> T {
        self.cells()[row_major(x, y, self.spec_width() as int)]
    }

    /// `after` has the dimensions of `self` and its cells, but for the cell at
    /// (x, y), which holds `value`.
    pub open spec fn sets_to(&self, after: Space<T>, x: int, y: int, value: T) -> bool {
        &&& after.spec_width() == self.spec_width()
        &&& after.spec_height() == self.spec_height()
        &&& after.cells() == self.cells().update(row_major(x, y, self.spec_width() as int), value)
    }

    /// Creates a space of the given dimensions with every cell a clone of `value`.
    pub fn new_flat(value: T, width: usize, height: usize) -> (r: Self) where T: Clone
        requires
            width * height <= usize::MAX,
        ensures
            r.wf(),
            r.spec_width() == width,
            r.spec_height() == height,
            forall|x: int, y: int| #[trigger] r.in_bounds(x, y) ==> cloned(value, r.cell(x, y)),
    {
        let data = vec![value; width * height];
        let r = Space { data, width, height };
        assert forall|x: int, y: int| #[trigger] r.in_bounds(x, y) implies cloned(value, r.cell(x, y)) by {
            lemma_row_major_in_block(x, y, width as int, height as int);
        }
        r
    }

    /// Creates a space of the given dimensions whose cell (x, y) holds `func(x, y)`;
    /// `func` is called once per cell, in row-major order.
    pub fn new_mapped<F: Fn(usize, usize) -> T>(func: F, width: usize, height: usize) -> (r: Self)
        requires
            width * height <= usize::MAX,
            forall|x: usize, y: usize| x < width && y < height ==> #[trigger] func.requires((x, y)),
        ensures
            r.wf(),
            r.spec_width() == width,
            r.spec_height() == height,
            forall|x: int, y: int| #[trigger]
                r.in_bounds(x, y) ==> func.ensures((x as usize, y as usize), r.cell(x, y)),
    {
        let mut data: Vec<T> = Vec::with_capacity(width * height);
        let mut y: usize = 0;
        while y < height
            invariant
                y <= height,
                width * height <= usize::MAX,
                forall|x: usize, y: usize| x < width && y < height ==> #[trigger] func.requires((x, y)),
                data@.len() == y * width,
                forall|i: int, j: int|
                    0 <= i < width && 0 <= j < y ==> func.ensures(
                        (i as usize, j as usize),
                        #[trigger] data@[row_major(i, j, width as int)],
                    ),
            decreases height - y,
        {
            let mut x: usize = 0;
            while x < width
                invariant
                    x <= width,
                    y < height,
                    width * height <= usize::MAX,
                    forall|x: usize, y: usize| x < width && y < height ==> #[trigger] func.requires((x, y)),
                    data@.len() == y * width + x,
                    forall|i: int, j: int|
                        0 <= i < width && 0 <= j < y ==> func.ensures(
                            (i as usize, j as usize),
                            #[trigger] data@[row_major(i, j, width as int)],
                        ),
                    forall|i: int|
                        0 <= i < x ==> func.ensures((i as usize, y), #[trigger] data@[row_major(i, y as int, width as int)]),
                decreases width - x,
            {
                let v = func(x, y);
                proof {
                    lemma_row_major_in_block(x as int, y as int, width as int, height as int);
                }
                let ghost prev = data@;
                data.push(v);
                assert forall|i: int, j: int|
                    0 <= i < width && 0 <= j < y implies func.ensures(
                        (i as usize, j as usize),
                        #[trigger] data@[row_major(i, j, width as int)],
                    ) by {
                    lemma_row_major_before_row(i, j, width as int, y as int);
                    assert(data@[row_major(i, j, width as int)] == prev[row_major(i, j, width as int)]);
                }
                assert forall|i: int|
                    0 <= i < x + 1 implies func.ensures((i as usize, y), #[trigger] data@[row_major(i, y as int, width as int)]) by {
                    if i < x {
                        assert(data@[row_major(i, y as int, width as int)] == prev[row_major(i, y as int, width as int)]);
                    }
                }
                x = x + 1;
            }
            assert((y + 1) * width == y * width + width) by (nonlinear_arith);
            assert forall|i: int, j: int|
                0 <= i < width && 0 <= j < y + 1 implies func.ensures(
                    (i as usize, j as usize),
                    #[trigger] data@[row_major(i, j, width as int)],
                ) by {
                if j == y {
                    assert(j as usize == y);
                }
            }
            y = y + 1;
        }
        assert(height * width == width * height) by (nonlinear_arith);
        let r = Space { data, width, height };
        assert forall|x: int, y: int| #[trigger]
            r.in_bounds(x, y) implies func.ensures((x as usize, y as usize), r.cell(x, y)) by {
        }
        r
    }

    /// Creates a space of the given dimensions from the first `width * height`
    /// items of `items`, in row-major order, and leaves the rest in `items`.
    /// When `items` holds fewer, it returns `None` and leaves `items` as it was.
    pub fn from_sequence(items: &mut Vec<T>, width: usize, height: usize) -> (r: Option<Self>)
        ensures
            r.is_some() == (old(items)@.len() >= width * height),
            r.is_some() ==> {
                let s = r.unwrap();
                &&& s.wf()
                &&& s.spec_width() == width
                &&& s.spec_height() == height
                &&& s.cells() == old(items)@.subrange(0, width * height)
                &&& final(items)@ == old(items)@.subrange(width * height, old(items)@.len() as int)
            },
            r.is_none() ==> final(items)@ == old(items)@,
    {
        let available = items.len();
        let count = match width.checked_mul(height) {
            Some(n) => n,
            None => {
                return None;
            },
        };
        if available < count {
            return None;
        }
        let mut data = items.split_off(count);
        std::mem::swap(items, &mut data);
        Some(Space { data, width, height })
    }

    /// Number of columns.
    pub fn width(&self) -> (r: usize)
        ensures
            r == self.spec_width(),
    {
        self.width
    }

    /// Number of rows.
    pub fn height(&self) -> (r: usize)
        ensures
            r == self.spec_height(),
    {
        self.height
    }

    /// The value at absolute position (x, y), or `None` when (x, y) lies outside the space.
    pub fn get(&self, x: usize, y: usize) -> (r: Option<&T>)
        requires
            self.wf(),
        ensures
            r.is_some() == self.in_bounds(x as int, y as int),
            r.is_some() ==> *r.unwrap() == self.cell(x as int, y as int),
    {
        if x < self.width && y < self.height {
            proof {
                lemma_row_major_in_block(x as int, y as int, self.width as int, self.height as int);
            }
            Some(&self.data[y * self.width + x])
        } else {
            None
        }
    }

    /// A mutable reference to the value at absolute position (x, y), or `None`
    /// when (x, y) lies outside the space.
    pub fn get_mut(&mut self, x: usize, y: usize) -> (r: Option<&mut T>)
        requires
            old(self).wf(),
        ensures
            r.is_some() == old(self).in_bounds(x as int, y as int),
            r.is_some() ==> *r.unwrap() == old(self).cell(x as int, y as int) && old(self).sets_to(
                *final(self),
                x as int,
                y as int,
                *final(r.unwrap()),
            ),
            r.is_none() ==> *final(self) == *old(self),
    {
        if x < self.width && y < self.height {
            proof {
                lemma_row_major_in_block(x as int, y as int, self.width as int, self.height as int);
            }
            let i = y * self.width + x;
            Some(&mut self.data[i])
        } else {
            None
        }
    }

    /// Overwrites the value at absolute position (x, y) and returns `true`; when
    /// (x, y) lies outside the space, changes nothing and returns `false`.
    pub fn set(&mut self, x: usize, y: usize, value: T) -> (r: bool)
        requires
            old(self).wf(),
        ensures
            r == old(self).in_bounds(x as int, y as int),
            r ==> old(self).sets_to(*final(self), x as int, y as int, value),
            !r ==> *final(self) == *old(self),
            final(self).wf(),
    {
        if x < self.width && y < self.height {
            proof {
                lemma_row_major_in_block(x as int, y as int, self.width as int, self.height as int);
            }
            let i = y * self.width + x;
            self.data.set(i, value);
            true
        } else {
            false
        }
    }

    /// Overwrites every cell (x, y) with `func(x, y)`.
    pub fn map<F: Fn(usize, usize) -> T>(&mut self, func: F)
        requires
            old(self).wf(),
            forall|x: usize, y: usize|
                x < old(self).spec_width() && y < old(self).spec_height() ==> #[trigger] func.requires((x, y)),
        ensures
            final(self).wf(),
            final(self).spec_width() == old(self).spec_width(),
            final(self).spec_height() == old(self).spec_height(),
            forall|x: int, y: int| #[trigger]
                final(self).in_bounds(x, y) ==> func.ensures((x as usize, y as usize), final(self).cell(x, y)),
    {
        let width = self.width;
        let height = self.height;
        let mut y: usize = 0;
        while y < height
            invariant
                y <= height,
                width == self.width,
                height == self.height,
                width * height <= usize::MAX,
                self.data@.len() == width * height,
                forall|x: usize, y: usize| x < width && y < height ==> #[trigger] func.requires((x, y)),
                forall|i: int, j: int|
                    0 <= i < width && 0 <= j < y ==> func.ensures(
                        (i as usize, j as usize),
                        #[trigger] self.data@[row_major(i, j, width as int)],
                    ),
            decreases height - y,
        {
            let mut x: usize = 0;
            while x < width
                invariant
                    x <= width,
                    y < height,
                    width == self.width,
                    height == self.height,
                    width * height <= usize::MAX,
                    self.data@.len() == width * height,
                    forall|x: usize, y: usize| x < width && y < height ==> #[trigger] func.requires((x, y)),
                    forall|i: int, j: int|
                        0 <= i < width && 0 <= j < y ==> func.ensures(
                            (i as usize, j as usize),
                            #[trigger] self.data@[row_major(i, j, width as int)],
                        ),
                    forall|i: int|
                        0 <= i < x ==> func.ensures((i as usize, y), #[trigger] self.data@[row_major(i, y as int, width as int)]),
                decreases width - x,
            {
                let v = func(x, y);
                proof {
                    lemma_row_major_in_block(x as int, y as int, width as int, height as int);
                }
                let ghost prev = self.data@;
                self.data.set(y * width + x, v);
                assert forall|i: int, j: int|
                    0 <= i < width && 0 <= j < y implies func.ensures(
                        (i as usize, j as usize),
                        #[trigger] self.data@[row_major(i, j, width as int)],
                    ) by {
                    lemma_row_major_before_row(i, j, width as int, y as int);
                    assert(self.data@[row_major(i, j, width as int)] == prev[row_major(i, j, width as int)]);
                }
                assert forall|i: int|
                    0 <= i < x + 1 implies func.ensures((i as usize, y), #[trigger] self.data@[row_major(i, y as int, width as int)]) by {
                    if i < x {
                        assert(self.data@[row_major(i, y as int, width as int)] == prev[row_major(i, y as int, width as int)]);
                    }
                }
                x = x + 1;
            }
            assert forall|i: int, j: int|
                0 <= i < width && 0 <= j < y + 1 implies func.ensures(
                    (i as usize, j as usize),
                    #[trigger] self.data@[row_major(i, j, width as int)],
                ) by {
                if j == y {
                    assert(j as usize == y);
                }
            }
            y = y + 1;
        }
    }

    /// Replaces every cell (x, y) by `func(&current, x, y)`, where `current` is
    /// the value the cell held before.
    pub fn update<F: Fn(&T, usize, usize) -> T>(&mut self, func: F)
        requires
            old(self).wf(),
            forall|x: usize, y: usize|
                x < old(self).spec_width() && y < old(self).spec_height() ==> #[trigger] func.requires(
                    (&old(self).cell(x as int, y as int), x, y),
                ),
        ensures
            final(self).wf(),
            final(self).spec_width() == old(self).spec_width(),
            final(self).spec_height() == old(self).spec_height(),
            forall|x: int, y: int| #[trigger]
                final(self).in_bounds(x, y) ==> func.ensures(
                    (&old(self).cell(x, y), x as usize, y as usize),
                    final(self).cell(x, y),
                ),
    {
        let width = self.width;
        let height = self.height;
        let ghost before = self.data@;
        let mut y: usize = 0;
        while y < height
            invariant
                y <= height,
                width == self.width,
                height == self.height,
                width * height <= usize::MAX,
                self.data@.len() == width * height,
                before.len() == width * height,
                before == old(self).data@,
                width == old(self).width,
                forall|x: usize, y: usize| x < width && y < height ==> #[trigger] func.requires(
                    (&old(self).cell(x as int, y as int), x, y),
                ),
                forall|i: int, j: int|
                    0 <= i < width && 0 <= j < y ==> func.ensures(
                        (&old(self).cell(i, j), i as usize, j as usize),
                        #[trigger] self.data@[row_major(i, j, width as int)],
                    ),
                forall|k: int| y * width <= k < width * height ==> #[trigger] self.data@[k] == before[k],
            decreases height - y,
        {
            let mut x: usize = 0;
            while x < width
                invariant
                    x <= width,
                    y < height,
                    width == self.width,
                    height == self.height,
                    width * height <= usize::MAX,
                    self.data@.len() == width * height,
                    before.len() == width * height,
                before == old(self).data@,
                width == old(self).width,
                    forall|x: usize, y: usize| x < width && y < height ==> #[trigger] func.requires(
                        (&old(self).cell(x as int, y as int), x, y),
                    ),
                    forall|i: int, j: int|
                        0 <= i < width && 0 <= j < y ==> func.ensures(
                            (&old(self).cell(i, j), i as usize, j as usize),
                            #[trigger] self.data@[row_major(i, j, width as int)],
                        ),
                    forall|i: int|
                        0 <= i < x ==> func.ensures(
                            (&old(self).cell(i, y as int), i as usize, y),
                            #[trigger] self.data@[row_major(i, y as int, width as int)],
                        ),
                    forall|k: int| y * width + x <= k < width * height ==> #[trigger] self.data@[k] == before[k],
                decreases width - x,
            {
                proof {
                    lemma_row_major_in_block(x as int, y as int, width as int, height as int);
                }
                let index = y * width + x;
                assert(self.data@[index as int] == before[index as int]);
                assert(old(self).cell(x as int, y as int) == self.data@[index as int]);
                assert(func.requires((&old(self).cell(x as int, y as int), x, y)));
                let v = func(&self.data[index], x, y);
                assert(func.ensures((&old(self).cell(x as int, y as int), x, y), v));
                let ghost prev = self.data@;
                self.data.set(index, v);
                assert forall|k: int| y * width + x + 1 <= k < width * height implies #[trigger] self.data@[k] == before[k] by {
                    assert(self.data@[k] == prev[k]);
                }
                assert forall|i: int, j: int|
                    0 <= i < width && 0 <= j < y implies func.ensures(
                        (&old(self).cell(i, j), i as usize, j as usize),
                        #[trigger] self.data@[row_major(i, j, width as int)],
                    ) by {
                    lemma_row_major_before_row(i, j, width as int, y as int);
                    assert(self.data@[row_major(i, j, width as int)] == prev[row_major(i, j, width as int)]);
                }
                assert forall|i: int|
                    0 <= i < x + 1 implies func.ensures(
                        (&old(self).cell(i, y as int), i as usize, y),
                        #[trigger] self.data@[row_major(i, y as int, width as int)],
                    ) by {
                    if i < x {
                        assert(self.data@[row_major(i, y as int, width as int)] == prev[row_major(i, y as int, width as int)]);
                    }
                }
                x = x + 1;
            }
            assert((y + 1) * width == y * width + width) by (nonlinear_arith);
            assert forall|i: int, j: int|
                0 <= i < width && 0 <= j < y + 1 implies func.ensures(
                    (&old(self).cell(i, j), i as usize, j as usize),
                    #[trigger] self.data@[row_major(i, j, width as int)],
                ) by {
                if j == y {
                    assert(j as usize == y);
                }
            }
            y = y + 1;
        }
    }

    /// One mutable reference per cell, in row-major order. What is written
    /// through them is what the space holds once they are given up.
    pub(crate) fn cell_refs(&mut self) -> (r: Vec<&mut T>)
        requires
            old(self).wf(),
        ensures
            r@.len() == old(self).cells().len(),
            forall|i: int| 0 <= i < r@.len() ==> *#[trigger] r@[i] == old(self).cells()[i],
            final(self).spec_width() == old(self).spec_width(),
            final(self).spec_height() == old(self).spec_height(),
            final(self).cells().len() == old(self).cells().len(),
            forall|x: int, y: int| #[trigger]
                old(self).in_bounds(x, y) ==> final(self).cell(x, y)
                    == *final(r@[row_major(x, y, old(self).spec_width() as int)]),
    {
        let mut refs: Vec<&mut T> = Vec::new();
        let mut rest: &mut [T] = self.data.as_mut_slice();
        let ghost orig = old(self).data@;
        while rest.len() > 0
            invariant
                refs@.len() + rest@.len() == orig.len(),
                forall|i: int| 0 <= i < refs@.len() ==> *#[trigger] refs@[i] == orig[i],
                forall|i: int| 0 <= i < rest@.len() ==> #[trigger] rest@[i] == orig[refs@.len() + i],
                after_borrow(self.data)@.len() == refs@.len() + final(rest)@.len(),
                forall|i: int| 0 <= i < refs@.len() ==> after_borrow(self.data)@[i] == *final(#[trigger] refs@[i]),
                forall|i: int|
                    0 <= i < final(rest)@.len() ==> after_borrow(self.data)@[refs@.len() + i] == #[trigger] final(rest)@[i],
            decreases rest@.len(),
        {
            let ghost old_refs = refs@;
            let ghost fin_rest = final(rest)@;
            let ghost whole = after_borrow(self.data)@;
            let (head, tail) = <[T]>::split_at_mut(rest, 1);
            let ghost fin_head = final(head)@;
            let cell = <[T]>::first_mut(head).unwrap();
            assert(fin_rest == fin_head + final(tail)@);
            assert(fin_head == seq![*final(cell)]);
            assert(whole[old_refs.len() as int] == fin_rest[0]);
            refs.push(cell);
            rest = tail;
            assert forall|i: int| 0 <= i < refs@.len() implies whole[i] == *final(#[trigger] refs@[i]) by {
                if i < old_refs.len() {
                    assert(refs@[i] == old_refs[i]);
                }
            }
            assert forall|i: int| 0 <= i < final(rest)@.len() implies whole[refs@.len() + i] == #[trigger] final(rest)@[i] by {
                assert(fin_rest[1 + i] == final(rest)@[i]);
                assert(whole[old_refs.len() + (1 + i)] == fin_rest[1 + i]);
            }
        }
        assert forall|x: int, y: int| #[trigger] old(self).in_bounds(x, y) implies after_borrow(self.data)@[row_major(
            x,
            y,
            self.width as int,
        )] == *final(refs@[row_major(x, y, self.width as int)]) by {
            lemma_row_major_in_block(x, y, self.width as int, self.height as int);
        }
        refs
    }
}

/// Reading a cell after writing it gives the value written, and leaves every
/// other cell as it was.
pub proof fn lemma_get_after_set<T>(before: Space<T>, after: Space<T>, x: int, y: int, value: T)
    requires
        before.wf(),
        before.in_bounds(x, y),
        before.sets_to(after, x, y, value),
    ensures
        after.wf(),
        after.in_bounds(x, y),
        after.cell(x, y) == value,
        forall|i: int, j: int|
            #[trigger] after.in_bounds(i, j) && (i != x || j != y) ==> after.cell(i, j) == before.cell(i, j),
{
    let w = before.spec_width() as int;
    lemma_row_major_in_block(x, y, w, before.spec_height() as int);
    assert forall|i: int, j: int|
        #[trigger] after.in_bounds(i, j) && (i != x || j != y) implies after.cell(i, j) == before.cell(i, j) by {
        lemma_row_major_in_block(i, j, w, before.spec_height() as int);
        if row_major(i, j, w) == row_major(x, y, w) {
            lemma_row_major_injective(i, j, x, y, w);
        }
    }
}

} // verus!
