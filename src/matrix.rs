use vstd::prelude::*;

verus! {

/// The rows of `rows`, each seen as a sequence.
pub open spec fn grid_of<T>(rows: Seq<Vec<T>>) -> Seq<Seq<T>> {
    rows.map_values(|r: Vec<T>| r@)
}

/// `g` has `h` rows of `w` elements each.
pub open spec fn has_shape<T>(g: Seq<Seq<T>>, w: nat, h: nat) -> bool {
    &&& g.len() == h
    &&& forall|i: int| 0 <= i < h ==> #[trigger] g[i].len() == w
}

/// Every row of `rows` is as long as the first one.
pub open spec fn is_rectangular<T>(rows: Seq<Vec<T>>) -> bool {
    forall|i: int| 0 <= i < rows.len() ==> #[trigger] rows[i]@.len() == rows[0]@.len()
}

/// Column `c` of `g`, top to bottom.
pub open spec fn column<T>(g: Seq<Seq<T>>, c: int) -> Seq<T> {
    Seq::new(g.len(), |i: int| g[i][c])
}

/// The `w` columns of `g`, each turned into a row.
pub open spec fn transposed<T>(g: Seq<Seq<T>>, w: nat) -> Seq<Seq<T>> {
    Seq::new(w, |j: int| column(g, j))
}

/// Index in the original of line `i` of a grid from which line `skip` was removed.
pub open spec fn skip_index(i: int, skip: int) -> int {
    if i < skip {
        i
    } else {
        i + 1
    }
}

/// `g` without row `r` and without column `c`.
pub open spec fn without_row_col<T>(g: Seq<Seq<T>>, w: nat, r: int, c: int) -> Seq<Seq<T>> {
    Seq::new(
        (g.len() - 1) as nat,
        |i: int| Seq::new((w - 1) as nat, |j: int| g[skip_index(i, r)][skip_index(j, c)]),
    )
}

/// A `w` by `h` grid holding `v` everywhere.
pub open spec fn filled<T>(w: nat, h: nat, v: T) -> Seq<Seq<T>> {
    Seq::new(h, |i: int| Seq::new(w, |j: int| v))
}

/// The `n` by `n` grid with `one` on the diagonal and `zero` elsewhere.
pub open spec fn identity_grid<T>(n: nat, zero: T, one: T) -> Seq<Seq<T>> {
    Seq::new(n, |i: int| Seq::new(n, |j: int| if i == j { one } else { zero }))
}

/// A rectangular grid of elements, stored row by row, with its width and height.
#[derive(Debug, Clone, PartialEq)]
pub struct Matrix<T> {
    width: usize,
    height: usize,
    rows: Vec<Vec<T>>,
}

impl<T> View for Matrix<T> {
    type V = Seq<Seq<T>>;

    closed spec fn view(&self) -> Seq<Seq<T>> {
        grid_of(self.rows@)
    }
}

impl<T> Matrix<T> {
    proof fn lemma_rows(&self)
        ensures
            self@.len() == self.rows@.len(),
            forall|i: int| 0 <= i < self.rows@.len() ==> #[trigger] self@[i] == self.rows@[i]@,
    {
    }

    /// Number of columns.
    pub closed spec fn num_cols(&self) -> nat {
        self.width as nat
    }

    /// Number of rows.
    pub closed spec fn num_rows(&self) -> nat {
        self.height as nat
    }

    /// Every row holds exactly `num_cols()` elements, and there are `num_rows()` rows.
    pub open spec fn wf(&self) -> bool {
        has_shape(self@, self.num_cols(), self.num_rows())
    }

    /// Builds a matrix from rows of equal length; its width is the length of the
    /// first row (zero when there is none).
    pub fn new(rows: Vec<Vec<T>>) -> (m: Self)
        requires
            is_rectangular(rows@),
        ensures
            m.wf(),
            m@ == grid_of(rows@),
            m.num_rows() == rows@.len(),
            m.num_cols() == if rows@.len() > 0 { rows@[0]@.len() } else { 0 },
    {
        let height = rows.len();
        let width = if height > 0 { rows[0].len() } else { 0 };
        Matrix { width, height, rows }
    }

    pub fn width(&self) -> (w: usize)
        ensures
            w == self.num_cols(),
    {
        self.width
    }

    pub fn height(&self) -> (h: usize)
        ensures
            h == self.num_rows(),
    {
        self.height
    }

    /// The element at row `r`, column `c`.
    pub fn get(&self, r: usize, c: usize) -> (v: &T)
        requires
            self.wf(),
            r < self.num_rows(),
            c < self.num_cols(),
        ensures
            *v == self@[r as int][c as int],
    {
        proof {
            self.lemma_rows();
            assert(self@[r as int].len() == self.width);
        }
        &self.rows[r][c]
    }

    /// Overwrites the element at row `r`, column `c`.
    pub fn set(&mut self, r: usize, c: usize, v: T)
        requires
            old(self).wf(),
            r < old(self).num_rows(),
            c < old(self).num_cols(),
        ensures
            final(self).wf(),
            final(self).num_rows() == old(self).num_rows(),
            final(self).num_cols() == old(self).num_cols(),
            final(self)@ == old(self)@.update(r as int, old(self)@[r as int].update(c as int, v)),
    {
        proof {
            self.lemma_rows();
            assert(self@[r as int].len() == self.width);
        }
        self.rows[r].set(c, v);
        proof {
            self.lemma_rows();
        }
        assert(self@ =~= old(self)@.update(r as int, old(self)@[r as int].update(c as int, v)));
    }
}

impl<T: Copy> Matrix<T> {
    /// A matrix `w` wide and `h` high whose element at row `i`, column `j` is
    /// what `f(i, j)` returns.
    pub fn from_fn<F: Fn(usize, usize) -> T>(w: usize, h: usize, f: F) -> (m: Self)
        requires
            forall|i: usize, j: usize| i < h && j < w ==> #[trigger] f.requires((i, j)),
        ensures
            m.wf(),
            m.num_cols() == w,
            m.num_rows() == h,
            forall|i: int, j: int|
                0 <= i < h && 0 <= j < w ==> f.ensures((i as usize, j as usize), #[trigger] m@[i][j]),
    {
        let mut rows: Vec<Vec<T>> = Vec::new();
        let mut i: usize = 0;
        while i < h
            invariant
                i <= h,
                forall|a: usize, b: usize| a < h && b < w ==> #[trigger] f.requires((a, b)),
                rows@.len() == i,
                forall|k: int| 0 <= k < i ==> (#[trigger] rows@[k])@.len() == w,
                forall|k: int, j: int|
                    0 <= k < i && 0 <= j < w ==> f.ensures((k as usize, j as usize), #[trigger] rows@[k]@[j]),
            decreases h - i,
        {
            let mut row: Vec<T> = Vec::new();
            let mut j: usize = 0;
            while j < w
                invariant
                    i < h,
                    j <= w,
                    forall|a: usize, b: usize| a < h && b < w ==> #[trigger] f.requires((a, b)),
                    row@.len() == j,
                    forall|b: int| 0 <= b < j ==> f.ensures((i, b as usize), #[trigger] row@[b]),
                decreases w - j,
            {
                let v = f(i, j);
                row.push(v);
                j += 1;
            }
            rows.push(row);
            i += 1;
        }
        let m = Matrix { width: w, height: h, rows };
        proof {
            m.lemma_rows();
        }
        m
    }

    /// Applies `f` to every element; the result has the same shape.
    pub fn map<U: Copy, F: Fn(T) -> U>(&self, f: F) -> (m: Matrix<U>)
        requires
            self.wf(),
            forall|x: T| #[trigger] f.requires((x,)),
        ensures
            m.wf(),
            m.num_cols() == self.num_cols(),
            m.num_rows() == self.num_rows(),
            forall|i: int, j: int|
                0 <= i < self.num_rows() && 0 <= j < self.num_cols() ==> f.ensures(
                    (self@[i][j],),
                    #[trigger] m@[i][j],
                ),
    {
        proof {
            self.lemma_rows();
        }
        let mut rows: Vec<Vec<U>> = Vec::new();
        let mut i: usize = 0;
        while i < self.height
            invariant
                self.wf(),
                self@.len() == self.rows@.len(),
                forall|k: int| 0 <= k < self.rows@.len() ==> #[trigger] self@[k] == self.rows@[k]@,
                forall|x: T| #[trigger] f.requires((x,)),
                i <= self.height,
                rows@.len() == i,
                forall|k: int| 0 <= k < i ==> (#[trigger] rows@[k])@.len() == self.width,
                forall|k: int, j: int|
                    0 <= k < i && 0 <= j < self.width ==> f.ensures(
                        (self@[k][j],),
                        #[trigger] rows@[k]@[j],
                    ),
            decreases self.height - i,
        {
            assert(self@[i as int].len() == self.width);
            let mut row: Vec<U> = Vec::new();
            let mut j: usize = 0;
            while j < self.width
                invariant
                    self.wf(),
                    i < self.height,
                    self@[i as int] == self.rows@[i as int]@,
                    self.rows@[i as int]@.len() == self.width,
                    forall|x: T| #[trigger] f.requires((x,)),
                    j <= self.width,
                    row@.len() == j,
                    forall|b: int| 0 <= b < j ==> f.ensures((self@[i as int][b],), #[trigger] row@[b]),
                decreases self.width - j,
            {
                let v = f(self.rows[i][j]);
                row.push(v);
                j += 1;
            }
            rows.push(row);
            i += 1;
        }
        let m = Matrix { width: self.width, height: self.height, rows };
        proof {
            m.lemma_rows();
        }
        m
    }

    /// Row `r`, left to right.
    pub fn row(&self, r: usize) -> (v: Vec<T>)
        requires
            self.wf(),
            r < self.num_rows(),
        ensures
            v@ == self@[r as int],
    {
        proof {
            self.lemma_rows();
        }
        let src = &self.rows[r];
        let mut v: Vec<T> = Vec::new();
        let mut j: usize = 0;
        while j < src.len()
            invariant
                j <= src@.len(),
                v@ == src@.take(j as int),
            decreases src@.len() - j,
        {
            v.push(src[j]);
            j += 1;
            assert(v@ =~= src@.take(j as int));
        }
        assert(v@ =~= src@);
        v
    }

    /// A matrix `w` wide and `h` high with every element `fill`.
    pub fn with_dimension(w: usize, h: usize, fill: T) -> (m: Self)
        ensures
            m.wf(),
            m.num_cols() == w,
            m.num_rows() == h,
            m@ == filled(w as nat, h as nat, fill),
    {
        let mut rows: Vec<Vec<T>> = Vec::new();
        let mut i: usize = 0;
        while i < h
            invariant
                i <= h,
                rows@.len() == i,
                forall|k: int| 0 <= k < i ==> #[trigger] rows@[k]@ == Seq::new(w as nat, |j: int| fill),
            decreases h - i,
        {
            let mut row: Vec<T> = Vec::new();
            let mut j: usize = 0;
            while j < w
                invariant
                    j <= w,
                    row@ == Seq::new(j as nat, |k: int| fill),
                decreases w - j,
            {
                row.push(fill);
                j += 1;
                assert(row@ =~= Seq::new(j as nat, |k: int| fill));
            }
            rows.push(row);
            i += 1;
        }
        let m = Matrix { width: w, height: h, rows };
        assert(m@ =~= filled(w as nat, h as nat, fill));
        m
    }

    /// The 4 by 4 identity: `one` on the diagonal, `zero` elsewhere.
    pub fn identity(zero: T, one: T) -> (m: Self)
        ensures
            m.wf(),
            m.num_cols() == 4,
            m.num_rows() == 4,
            m@ == identity_grid(4, zero, one),
    {
        let mut m = Matrix::with_dimension(4, 4, zero);
        m.set(0, 0, one);
        m.set(1, 1, one);
        m.set(2, 2, one);
        m.set(3, 3, one);
        assert(m@ =~~= identity_grid(4, zero, one));
        m
    }

    /// Column `c`, top to bottom.
    pub fn col(&self, c: usize) -> (v: Vec<T>)
        requires
            self.wf(),
            c < self.num_cols(),
        ensures
            v@ == column(self@, c as int),
    {
        proof {
            self.lemma_rows();
        }
        let mut v: Vec<T> = Vec::new();
        let mut i: usize = 0;
        while i < self.height
            invariant
                self.wf(),
                self@.len() == self.rows@.len(),
                forall|k: int| 0 <= k < self.rows@.len() ==> #[trigger] self@[k] == self.rows@[k]@,
                c < self.num_cols(),
                i <= self.height,
                v@ == column(self@, c as int).take(i as int),
            decreases self.height - i,
        {
            assert(self@[i as int].len() == self.width);
            v.push(self.rows[i][c]);
            i += 1;
            assert(v@ =~= column(self@, c as int).take(i as int));
        }
        assert(v@ =~= column(self@, c as int));
        v
    }

    /// Rows and columns swapped: the result is `num_rows()` wide and `num_cols()` high.
    pub fn transpose(&self) -> (t: Self)
        requires
            self.wf(),
        ensures
            t.wf(),
            t.num_cols() == self.num_rows(),
            t.num_rows() == self.num_cols(),
            t@ == transposed(self@, self.num_cols()),
    {
        let mut rows: Vec<Vec<T>> = Vec::new();
        let mut j: usize = 0;
        while j < self.width
            invariant
                self.wf(),
                j <= self.width,
                rows@.len() == j,
                forall|k: int| 0 <= k < j ==> #[trigger] rows@[k]@ == column(self@, k),
            decreases self.width - j,
        {
            let c = self.col(j);
            rows.push(c);
            j += 1;
        }
        let t = Matrix { width: self.height, height: self.width, rows };
        assert(t@ =~= transposed(self@, self.num_cols()));
        t
    }

    /// The matrix without row `r` and column `c`: one narrower and one lower.
    pub fn submatrix(&self, r: usize, c: usize) -> (s: Self)
        requires
            self.wf(),
            r < self.num_rows(),
            c < self.num_cols(),
        ensures
            s.wf(),
            s.num_rows() == self.num_rows() - 1,
            s.num_cols() == self.num_cols() - 1,
            s@ == without_row_col(self@, self.num_cols(), r as int, c as int),
    {
        let ghost target = without_row_col(self@, self.num_cols(), r as int, c as int);
        proof {
            self.lemma_rows();
        }
        let mut rows: Vec<Vec<T>> = Vec::new();
        let mut i: usize = 0;
        while i < self.height
            invariant
                self.wf(),
                r < self.height,
                c < self.width,
                i <= self.height,
                self@.len() == self.rows@.len(),
                forall|k: int| 0 <= k < self.rows@.len() ==> #[trigger] self@[k] == self.rows@[k]@,
                target == without_row_col(self@, self.num_cols(), r as int, c as int),
                rows@.len() == if i <= r { i as int } else { i - 1 },
                forall|k: int| 0 <= k < rows@.len() ==> #[trigger] rows@[k]@ == target[k],
            decreases self.height - i,
        {
            if i != r {
                let ghost ti: int = if i < r { i as int } else { i - 1 };
                let mut row: Vec<T> = Vec::new();
                let mut j: usize = 0;
                while j < self.width
                    invariant
                        self.wf(),
                        self@.len() == self.rows@.len(),
                        forall|k: int|
                            0 <= k < self.rows@.len() ==> #[trigger] self@[k] == self.rows@[k]@,
                        c < self.width,
                        i < self.height,
                        0 <= ti < target.len(),
                        skip_index(ti, r as int) == i,
                        target == without_row_col(self@, self.num_cols(), r as int, c as int),
                        j <= self.width,
                        row@ == target[ti].take(if j <= c { j as int } else { j - 1 }),
                    decreases self.width - j,
                {
                    if j != c {
                        row.push(self.rows[i][j]);
                    }
                    j += 1;
                    assert(row@ =~= target[ti].take(if j <= c { j as int } else { j - 1 }));
                }
                rows.push(row);
            }
            i += 1;
        }
        let s = Matrix { width: self.width - 1, height: self.height - 1, rows };
        assert(s@ =~= target);
        s
    }
}

} // verus!

verus! {

/// Whether the cofactor at row `r`, column `c` is the negated minor: the sign
/// alternates like a checkerboard, negative where `r + c` is odd.
pub fn cofactor_is_negated(r: usize, c: usize) -> (b: bool)
    ensures
        b == ((r + c) % 2 == 1),
{
    r % 2 != c % 2
}

/// Transposing twice gives back the matrix: the transpose of the transpose of
/// any well-formed matrix is the matrix itself.
pub proof fn transpose_twice<T>(m: &Matrix<T>)
    requires
        m.wf(),
    ensures
        transposed(transposed(m@, m.num_cols()), m.num_rows()) == m@,
{
    let t = transposed(m@, m.num_cols());
    assert(transposed(t, m.num_rows()) =~~= m@);
}

/// The identity is its own transpose.
pub proof fn identity_transpose<T>(zero: T, one: T)
    ensures
        transposed(identity_grid(4, zero, one), 4) == identity_grid(4, zero, one),
{
    assert(transposed(identity_grid(4, zero, one), 4) =~~= identity_grid(4, zero, one));
}

} // verus!
