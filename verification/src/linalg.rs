//! Shape-only matrix operations on row-major matrices (`Vec` of rows).
use vstd::prelude::*;

verus! {

/// The rows of a matrix as sequences.
pub open spec fn rows<T>(a: Seq<Vec<T>>) -> Seq<Seq<T>> {
    a.map_values(|r: Vec<T>| r@)
}

/// Every row is at least as long as the first one, so that each of the
/// first row's columns exists in every row.
pub open spec fn columns_available<T>(m: Seq<Seq<T>>) -> bool {
    forall|i: int| 0 <= i < m.len() ==> #[trigger] m[i].len() >= m[0].len()
}

/// All rows have the same length.
pub open spec fn is_rectangular<T>(m: Seq<Seq<T>>) -> bool {
    forall|i: int| 0 <= i < m.len() ==> #[trigger] m[i].len() == m[0].len()
}

/// The transpose: as many rows as the first row has columns, entry (j, i)
/// being entry (i, j) of `m`; no rows when `m` has none.
pub open spec fn transposed<T>(m: Seq<Seq<T>>) -> Seq<Seq<T>> {
    if m.len() == 0 {
        Seq::empty()
    } else {
        Seq::new(m[0].len(), |j: int| Seq::new(m.len(), |i: int| m[i][j]))
    }
}

/// Transposing twice gives back a rectangular matrix that has at least one
/// column (or no rows).
pub proof fn lemma_transpose_involution<T>(m: Seq<Seq<T>>)
    requires
        is_rectangular(m),
        m.len() == 0 || m[0].len() > 0,
    ensures
        transposed(transposed(m)) == m,
{
    if m.len() > 0 {
        let t = transposed(m);
        let tt = transposed(t);
        assert(tt.len() == m.len());
        assert forall|i: int| 0 <= i < m.len() implies tt[i] =~= m[i] by {}
        assert(tt =~= m);
    }
}

/// `a` is an `n` × `n` matrix: `n` rows of `n` entries each.
pub open spec fn is_square_of_size<T>(a: Seq<Seq<T>>, n: nat) -> bool {
    &&& a.len() == n
    &&& forall|i: int| 0 <= i < a.len() ==> #[trigger] a[i].len() == n
}

/// An `n` × `n` matrix is rectangular with exactly `n` columns, and its
/// transpose is again `n` × `n`.
pub proof fn lemma_square_shape<T>(m: Seq<Seq<T>>, n: nat)
    requires
        is_square_of_size(m, n),
    ensures
        is_rectangular(m),
        m.len() == n,
        n > 0 ==> m[0].len() == n,
        forall|i: int, j: int| 0 <= i < m.len() && 0 <= j < m.len() ==> #[trigger] m[i].len() == #[trigger] m[j].len(),
        is_square_of_size(transposed(m), n),
{
    if n > 0 {
        assert(m[0].len() == n);
    }
}

/// A matrix with a row whose length differs from the number of rows is not
/// square of any size.
pub proof fn lemma_uneven_row_not_square<T>(m: Seq<Seq<T>>, r: int, n: nat)
    requires
        0 <= r < m.len(),
        m[r].len() != m.len(),
    ensures
        !is_square_of_size(m, n),
{
}

/// Whether the linear system with matrix `a` and a right-hand side of
/// `n` entries has the shape a solver accepts: `a` is `n` × `n`.
pub fn is_square_system<T>(a: &[Vec<T>], n: usize) -> (ok: bool)
    ensures
        ok == is_square_of_size(rows(a@), n as nat),
        ok == (a@.len() == n && forall|i: int| 0 <= i < a@.len() ==> (#[trigger] a@[i])@.len() == n),
{
    if a.len() != n {
        return false;
    }
    let mut i: usize = 0;
    while i < a.len()
        invariant
            i <= a@.len(),
            forall|r: int| 0 <= r < i ==> (#[trigger] a@[r])@.len() == n,
        decreases a@.len() - i,
    {
        if a[i].len() != n {
            assert(rows(a@)[i as int].len() != n);
            return false;
        }
        i = i + 1;
    }
    assert forall|r: int| 0 <= r < a@.len() implies #[trigger] rows(a@)[r].len() == n by {
        assert(rows(a@)[r] == a@[r]@);
    }
    true
}

/// Transpose a matrix.
pub fn transpose<T: Copy>(a: &[Vec<T>]) -> (t: Vec<Vec<T>>)
    requires
        columns_available(rows(a@)),
    ensures
        rows(t@) == transposed(rows(a@)),
{
    let ghost m = rows(a@);
    let mut t: Vec<Vec<T>> = Vec::new();
    if a.len() == 0 {
        assert(rows(t@) =~= transposed(m));
        return t;
    }
    let n_rows = a.len();
    let n_cols = a[0].len();
    let mut j: usize = 0;
    while j < n_cols
        invariant
            n_rows == a@.len(),
            n_rows > 0,
            n_cols == a@[0]@.len(),
            m == rows(a@),
            columns_available(m),
            j <= n_cols,
            t@.len() == j,
            forall|c: int|
                0 <= c < j ==> (#[trigger] t@[c])@ == Seq::new(n_rows as nat, |i: int| m[i][c]),
        decreases n_cols - j,
    {
        let mut column: Vec<T> = Vec::new();
        let mut i: usize = 0;
        while i < n_rows
            invariant
                n_rows == a@.len(),
                n_cols == a@[0]@.len(),
                m == rows(a@),
                columns_available(m),
                j < n_cols,
                i <= n_rows,
                column@ == Seq::new(i as nat, |r: int| m[r][j as int]),
            decreases n_rows - i,
        {
            assert(m[i as int] == a@[i as int]@);
            assert(m[i as int].len() >= m[0].len());
            column.push(a[i][j]);
            i = i + 1;
            assert(column@ =~= Seq::new(i as nat, |r: int| m[r][j as int]));
        }
        t.push(column);
        j = j + 1;
    }
    assert(rows(t@) =~= transposed(m));
    t
}

} // verus!
