//! A rectangular grid of cells, used for colour and depth.
use vstd::prelude::*;
use crate::vectors::Vector2;

verus! {

/// Mathematical form of a buffer: its dimensions and its cells, row after
/// row.
pub ghost struct BufferView<T> {
    pub width: int,
    pub height: int,
    pub cells: Seq<T>,
}

impl<T> BufferView<T> {
    /// Dimensions positive, one cell for each position.
    pub open spec fn wf(self) -> bool {
        self.width > 0 && self.height > 0 && self.cells.len() == self.width * self.height
    }

    pub open spec fn contains(self, x: int, y: int) -> bool {
        0 <= x < self.width && 0 <= y < self.height
    }

    /// Position of cell (x, y) in `cells`.
    pub open spec fn index(self, x: int, y: int) -> int {
        x + y * self.width
    }

    pub open spec fn get(self, x: int, y: int) -> T {
        self.cells[self.index(x, y)]
    }

    /// The same buffer with cell (x, y) holding `v`.
    pub open spec fn set(self, x: int, y: int, v: T) -> Self {
        BufferView { cells: self.cells.update(self.index(x, y), v), ..self }
    }
}

/// A cell lies inside the sequence of cells, and two distinct positions have
/// distinct cells.
pub proof fn lemma_index_in_range<T>(b: BufferView<T>, x: int, y: int)
    requires
        b.wf(),
        b.contains(x, y),
    ensures
        0 <= b.index(x, y) < b.cells.len(),
{
    assert(0 <= x + y * b.width < b.width * b.height) by (nonlinear_arith)
        requires
            0 <= x < b.width,
            0 <= y < b.height,
    ;
}

proof fn lemma_index_injective<T>(b: BufferView<T>, x1: int, y1: int, x2: int, y2: int)
    requires
        b.wf(),
        b.contains(x1, y1),
        b.contains(x2, y2),
        b.index(x1, y1) == b.index(x2, y2),
    ensures
        x1 == x2 && y1 == y2,
{
    assert(y1 == y2) by (nonlinear_arith)
        requires
            0 <= x1 < b.width,
            0 <= x2 < b.width,
            x1 + y1 * b.width == x2 + y2 * b.width,
    ;
}

/// Writing `v` to a cell and then reading that cell gives `v`; every other
/// cell keeps its value.
pub proof fn lemma_set_then_get<T>(b: BufferView<T>, x: int, y: int, v: T, qx: int, qy: int)
    requires
        b.wf(),
        b.contains(x, y),
        b.contains(qx, qy),
    ensures
        b.set(x, y, v).wf(),
        b.set(x, y, v).get(x, y) == v,
        (qx != x || qy != y) ==> b.set(x, y, v).get(qx, qy) == b.get(qx, qy),
{
    lemma_index_in_range(b, x, y);
    lemma_index_in_range(b, qx, qy);
    if qx != x || qy != y {
        if b.index(x, y) == b.index(qx, qy) {
            lemma_index_injective(b, x, y, qx, qy);
        }
    }
}

pub struct Buffer<T> {
    data: Vec<T>,
    size: Vector2<i32>,
}

impl<T> View for Buffer<T> {
    type V = BufferView<T>;

    closed spec fn view(&self) -> BufferView<T> {
        BufferView { width: self.size.x as int, height: self.size.y as int, cells: self.data@ }
    }
}

impl<T: Copy> Buffer<T> {
    /// A `size.x` × `size.y` buffer with every cell `init`, or `None` where a
    /// dimension is not positive.
    pub fn new(size: Vector2<i32>, init: T) -> (r: Option<Self>)
        requires
            size.x * size.y <= usize::MAX,
        ensures
            r.is_some() <==> (size.x > 0 && size.y > 0),
            r.is_some() ==> {
                let b = r.unwrap()@;
                &&& b.wf()
                &&& b.width == size.x
                &&& b.height == size.y
                &&& forall|i: int| 0 <= i < b.cells.len() ==> b.cells[i] == init
            },
    {
        if size.x <= 0 || size.y <= 0 {
            return None;
        }
        let n: usize = (size.x as usize) * (size.y as usize);
        let mut data: Vec<T> = Vec::new();
        let mut i: usize = 0;
        while i < n
            invariant
                i <= n,
                data@.len() == i,
                forall|j: int| 0 <= j < i ==> data@[j] == init,
            decreases n - i,
        {
            data.push(init);
            i = i + 1;
        }
        Some(Self { data, size })
    }

    /// Writes `value` at `position`, which must lie inside the buffer; an
    /// access outside it stops the program.
    pub fn set_pixel(&mut self, position: Vector2<i32>, value: T)
        requires
            old(self)@.wf(),
            old(self)@.contains(position.x as int, position.y as int),
        ensures
            final(self)@ == old(self)@.set(position.x as int, position.y as int, value),
            final(self)@.wf(),
    {
        proof {
            lemma_index_in_range(self@, position.x as int, position.y as int);
        }
        let i = self.index(position);
        self.data.set(i, value);
    }

    /// The value at `position`, which must lie inside the buffer; an access
    /// outside it stops the program.
    pub fn get_pixel(&self, position: Vector2<i32>) -> (r: T)
        requires
            self@.wf(),
            self@.contains(position.x as int, position.y as int),
        ensures
            r == self@.get(position.x as int, position.y as int),
    {
        proof {
            lemma_index_in_range(self@, position.x as int, position.y as int);
        }
        self.data[self.index(position)]
    }

    fn index(&self, position: Vector2<i32>) -> (r: usize)
        requires
            self@.wf(),
            self@.contains(position.x as int, position.y as int),
        ensures
            r == self@.index(position.x as int, position.y as int),
    {
        // An access outside the buffer is a broken contract: stop here rather
        // than touch another cell.
        vstd::pervasive::runtime_assert(
            0 <= position.x && position.x < self.size.x && 0 <= position.y && position.y
                < self.size.y,
        );
        let n = self.data.len();
        proof {
            lemma_index_in_range(self@, position.x as int, position.y as int);
            assert(0 <= position.y * self.size.x) by (nonlinear_arith)
                requires
                    position.y >= 0,
                    self.size.x > 0,
            ;
        }
        let row = position.y as usize * self.size.x as usize;
        position.x as usize + row
    }

    /// Sets every cell to `value`.
    pub fn clear(&mut self, value: T)
        requires
            old(self)@.wf(),
        ensures
            final(self)@.width == old(self)@.width,
            final(self)@.height == old(self)@.height,
            final(self)@.wf(),
            forall|i: int| 0 <= i < final(self)@.cells.len() ==> final(self)@.cells[i] == value,
    {
        let n = self.data.len();
        let mut i: usize = 0;
        while i < n
            invariant
                i <= n,
                n == self.data@.len(),
                self@.width == old(self)@.width,
                self@.height == old(self)@.height,
                self@.wf(),
                forall|j: int| 0 <= j < i ==> self.data@[j] == value,
            decreases n - i,
        {
            self.data.set(i, value);
            i = i + 1;
        }
    }

    pub fn width(&self) -> (r: u32)
        requires
            self@.wf(),
        ensures
            r == self@.width,
            r <= i32::MAX,
    {
        self.size.x as u32
    }

    pub fn height(&self) -> (r: u32)
        requires
            self@.wf(),
        ensures
            r == self@.height,
            r <= i32::MAX,
    {
        self.size.y as u32
    }
}

} // verus!
