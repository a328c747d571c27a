use vstd::prelude::*;

verus! {

/// A grid of scalars, `m[row][col]`, with the size it is meant to have. The
/// scalar type is the caller's: nothing here computes with the entries, they
/// are only placed and moved.
#[derive(Debug, Clone)]
pub struct Matrix<T> {
    pub rows: usize,
    pub cols: usize,
    pub m: Vec<Vec<T>>,
}

/// The index in a grid from which the entry at index `i` of the grid with
/// line `cut` taken out comes.
pub open spec fn skipping(cut: int, i: int) -> int {
    if i < cut {
        i
    } else {
        i + 1
    }
}

impl<T: Copy> Matrix<T> {
    /// The grid has `rows` rows of `cols` entries each.
    pub open spec fn wf(&self) -> bool {
        &&& self.m@.len() == self.rows
        &&& forall|r: int| 0 <= r < self.m@.len() ==> (#[trigger] self.m@[r])@.len() == self.cols
    }

    /// The entry in row `r`, column `c`.
    pub open spec fn at(&self, r: int, c: int) -> T {
        self.m@[r]@[c]
    }

    /// A matrix of `rows` rows and `cols` columns with `fill` in every place.
    pub fn new(cols: usize, rows: usize, fill: T) -> (a: Self)
        ensures
            a.wf(),
            a.rows == rows,
            a.cols == cols,
            forall|r: int, c: int| 0 <= r < rows && 0 <= c < cols ==> a.at(r, c) == fill,
    {
        let mut m: Vec<Vec<T>> = Vec::new();
        let mut r: usize = 0;
        while r < rows
            invariant
                r <= rows,
                m@.len() == r,
                forall|i: int| 0 <= i < r ==> (#[trigger] m@[i])@.len() == cols,
                forall|i: int, j: int| 0 <= i < r && 0 <= j < cols ==> m@[i]@[j] == fill,
            decreases rows - r,
        {
            let mut line: Vec<T> = Vec::new();
            let mut c: usize = 0;
            while c < cols
                invariant
                    c <= cols,
                    line@.len() == c,
                    forall|j: int| 0 <= j < c ==> line@[j] == fill,
                decreases cols - c,
            {
                line.push(fill);
                c += 1;
            }
            m.push(line);
            r += 1;
        }
        Matrix { cols, rows, m }
    }

    /// The 4 by 4 matrix with `one` along the diagonal and `zero` elsewhere.
    pub fn identity(zero: T, one: T) -> (a: Self)
        ensures
            a.wf(),
            a.rows == 4,
            a.cols == 4,
            forall|r: int, c: int|
                0 <= r < 4 && 0 <= c < 4 ==> a.at(r, c) == (if r == c {
                    one
                } else {
                    zero
                }),
    {
        let mut a = Self::new(4, 4, zero);
        let mut k: usize = 0;
        while k < 4
            invariant
                k <= 4,
                a.wf(),
                a.rows == 4,
                a.cols == 4,
                forall|r: int, c: int|
                    0 <= r < 4 && 0 <= c < 4 ==> a.at(r, c) == (if r == c && r < k {
                        one
                    } else {
                        zero
                    }),
            decreases 4 - k,
        {
            let ghost prev = a;
            a.set(k, k, one);
            assert forall|r: int, c: int| 0 <= r < 4 && 0 <= c < 4 implies a.at(r, c) == (if r == c
                && r < k + 1 {
                one
            } else {
                zero
            }) by {
                assert(prev.at(r, c) == (if r == c && r < k {
                    one
                } else {
                    zero
                }));
                if r != k {
                    assert(a.m@[r] == prev.m@[r]);
                }
            }
            k += 1;
        }
        a
    }

    pub fn get(&self, row: usize, col: usize) -> (val: T)
        requires
            row < self.m@.len(),
            col < self.m@[row as int]@.len(),
        ensures
            val == self.at(row as int, col as int),
    {
        self.m[row][col]
    }

    /// Puts `val` in row `row`, column `col`; every other entry and the shape
    /// of the grid stay.
    pub fn set(&mut self, row: usize, col: usize, val: T)
        requires
            row < old(self).m@.len(),
            col < old(self).m@[row as int]@.len(),
        ensures
            final(self).rows == old(self).rows,
            final(self).cols == old(self).cols,
            final(self).m@.len() == old(self).m@.len(),
            final(self).m@[row as int]@ == old(self).m@[row as int]@.update(col as int, val),
            forall|r: int|
                0 <= r < old(self).m@.len() && r != row ==> final(self).m@[r] == old(self).m@[r],
            old(self).wf() ==> final(self).wf(),
    {
        self.m[row][col] = val;
    }

    /// Whether `a` is this matrix with rows and columns exchanged.
    pub open spec fn is_transposed_to(&self, a: Self) -> bool {
        &&& a.wf()
        &&& a.rows == self.cols
        &&& a.cols == self.rows
        &&& forall|r: int, c: int|
            0 <= r < self.cols && 0 <= c < self.rows ==> a.at(r, c) == self.at(c, r)
    }

    /// The matrix with rows and columns exchanged.
    pub fn transpose(&self) -> (a: Self)
        requires
            self.wf(),
        ensures
            self.is_transposed_to(a),
    {
        let mut m: Vec<Vec<T>> = Vec::new();
        let mut row: usize = 0;
        while row < self.cols
            invariant
                self.wf(),
                row <= self.cols,
                m@.len() == row,
                forall|i: int| 0 <= i < row ==> (#[trigger] m@[i])@.len() == self.rows,
                forall|i: int, j: int|
                    0 <= i < row && 0 <= j < self.rows ==> m@[i]@[j] == self.at(j, i),
            decreases self.cols - row,
        {
            let mut line: Vec<T> = Vec::new();
            let mut col: usize = 0;
            while col < self.rows
                invariant
                    self.wf(),
                    row < self.cols,
                    col <= self.rows,
                    line@.len() == col,
                    forall|j: int| 0 <= j < col ==> line@[j] == self.at(j, row as int),
                decreases self.rows - col,
            {
                line.push(self.get(col, row));
                col += 1;
            }
            m.push(line);
            row += 1;
        }
        Matrix { rows: self.cols, cols: self.rows, m }
    }

    /// The matrix without row `row` and column `col`.
    pub fn submatrix(&self, row: usize, col: usize) -> (a: Self)
        requires
            self.wf(),
            row < self.rows,
            col < self.cols,
        ensures
            a.wf(),
            a.rows == self.rows - 1,
            a.cols == self.cols - 1,
            forall|r: int, c: int|
                0 <= r < self.rows - 1 && 0 <= c < self.cols - 1 ==> a.at(r, c) == self.at(
                    skipping(row as int, r),
                    skipping(col as int, c),
                ),
    {
        let mut m: Vec<Vec<T>> = Vec::new();
        let mut r: usize = 0;
        while r < self.rows
            invariant
                self.wf(),
                row < self.rows,
                col < self.cols,
                r <= self.rows,
                m@.len() == (if r <= row {
                    r as int
                } else {
                    r - 1
                }),
                forall|i: int| 0 <= i < m@.len() ==> (#[trigger] m@[i])@.len() == self.cols - 1,
                forall|i: int, j: int|
                    0 <= i < m@.len() && 0 <= j < self.cols - 1 ==> m@[i]@[j] == self.at(
                        skipping(row as int, i),
                        skipping(col as int, j),
                    ),
            decreases self.rows - r,
        {
            if r != row {
                let mut line: Vec<T> = Vec::new();
                let mut c: usize = 0;
                while c < self.cols
                    invariant
                        self.wf(),
                        r < self.rows,
                        col < self.cols,
                        c <= self.cols,
                        line@.len() == (if c <= col {
                            c as int
                        } else {
                            c - 1
                        }),
                        forall|j: int|
                            0 <= j < line@.len() ==> line@[j] == self.at(
                                r as int,
                                skipping(col as int, j),
                            ),
                    decreases self.cols - c,
                {
                    if c != col {
                        line.push(self.get(r, c));
                    }
                    c += 1;
                }
                m.push(line);
            }
            r += 1;
        }
        Matrix { rows: self.rows - 1, cols: self.cols - 1, m }
    }

    /// Exchanging rows and columns twice gives back the size and every
    /// entry of the matrix.
    pub proof fn lemma_transpose_twice(a: Self, b: Self, c: Self)
        requires
            a.wf(),
            a.is_transposed_to(b),
            b.is_transposed_to(c),
        ensures
            c.rows == a.rows,
            c.cols == a.cols,
            forall|i: int, j: int| 0 <= i < a.rows && 0 <= j < a.cols ==> c.at(i, j) == a.at(i, j),
    {
        assert forall|i: int, j: int| 0 <= i < a.rows && 0 <= j < a.cols implies c.at(i, j) == a.at(
            i,
            j,
        ) by {
            assert(c.at(i, j) == b.at(j, i));
            assert(b.at(j, i) == a.at(i, j));
        }
    }

    /// Whether the cofactor at row `row`, column `col` is the minor there
    /// with its sign changed: it is where `row + col` is odd.
    pub fn cofactor_negates(row: usize, col: usize) -> (odd: bool)
        ensures
            odd == ((row + col) % 2 != 0),
    {
        (row % 2) != (col % 2)
    }
}

} // verus!
