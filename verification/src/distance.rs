//! Edit distance between two words.
//!
//! The distance is the least number of single-character insertions,
//! deletions and substitutions turning one word into the other, computed
//! by the usual dynamic program over a table of prefix-to-prefix
//! distances.

use vstd::prelude::*;
use vstd::string::StrSliceExecFns;

verus! {

/// The least of three numbers.
pub open spec fn spec_min3(x: int, y: int, z: int) -> int {
    if x <= y && x <= z {
        x
    } else if y <= z {
        y
    } else {
        z
    }
}

/// Edit distance of two character sequences.
pub open spec fn spec_edit_distance(a: Seq<char>, b: Seq<char>) -> int
    decreases a.len() + b.len(),
{
    if a.len() == 0 {
        b.len() as int
    } else if b.len() == 0 {
        a.len() as int
    } else {
        let cost: int = if a.last() == b.last() {
            0
        } else {
            1
        };
        spec_min3(
            spec_edit_distance(a.drop_last(), b) + 1,
            spec_edit_distance(a, b.drop_last()) + 1,
            spec_edit_distance(a.drop_last(), b.drop_last()) + cost,
        )
    }
}

/// The distance never exceeds the two lengths together.
proof fn lemma_edit_distance_bound(a: Seq<char>, b: Seq<char>)
    ensures
        0 <= spec_edit_distance(a, b) <= a.len() + b.len(),
    decreases a.len() + b.len(),
{
    if a.len() > 0 && b.len() > 0 {
        lemma_edit_distance_bound(a.drop_last(), b);
        lemma_edit_distance_bound(a, b.drop_last());
        lemma_edit_distance_bound(a.drop_last(), b.drop_last());
    }
}

/// One dynamic-programming step: the distance of the prefixes one longer
/// on each side is the least of a deletion, an insertion and a
/// substitution (free on matching characters).
proof fn lemma_edit_step(a: Seq<char>, b: Seq<char>, x: int, y: int)
    requires
        0 <= x < a.len(),
        0 <= y < b.len(),
    ensures
        spec_edit_distance(a.take(x + 1), b.take(y + 1)) == spec_min3(
            spec_edit_distance(a.take(x), b.take(y + 1)) + 1,
            spec_edit_distance(a.take(x + 1), b.take(y)) + 1,
            spec_edit_distance(a.take(x), b.take(y)) + (if a[x] == b[y] {
                0int
            } else {
                1int
            }),
        ),
{
    let ax = a.take(x + 1);
    let by = b.take(y + 1);
    assert(ax.last() == a[x]);
    assert(by.last() == b[y]);
    assert(ax.drop_last() =~= a.take(x));
    assert(by.drop_last() =~= b.take(y));
}

/// A prefix against the empty word costs its own length.
proof fn lemma_edit_empty(a: Seq<char>, b: Seq<char>, i: int, j: int)
    requires
        0 <= i <= a.len(),
        0 <= j <= b.len(),
    ensures
        spec_edit_distance(a.take(i), b.take(0)) == i,
        spec_edit_distance(a.take(0), b.take(j)) == j,
{
    assert(b.take(0).len() == 0);
    assert(a.take(0).len() == 0);
}

/// A flat table of distance cells; the cell (x, y) lives at
/// `y * width + x`, with `x` running over the first word's prefixes.
pub struct Matrix {
    pub vec: Vec<usize>,
    pub width: usize,
}

impl Matrix {
    /// A zeroed table of the given numbers of columns and rows.
    pub fn new(columns: usize, rows: usize) -> (m: Matrix)
        requires
            columns * rows <= usize::MAX,
        ensures
            m.width == rows,
            m.vec@.len() == columns * rows,
            forall|i: int| 0 <= i < m.vec@.len() ==> m.vec@[i] == 0,
    {
        proof {
            assert(columns * rows >= 0) by (nonlinear_arith);
        }
        let n = columns * rows;
        let mut vec: Vec<usize> = Vec::new();
        let mut i: usize = 0;
        while i < n
            invariant
                i <= n,
                vec@.len() == i,
                forall|j: int| 0 <= j < i ==> vec@[j] == 0,
            decreases n - i,
        {
            vec.push(0);
            i = i + 1;
        }
        Matrix { vec, width: rows }
    }

    /// The cell at (x, y).
    fn get(&self, x: usize, y: usize) -> (v: usize)
        requires
            x < self.width,
            (y + 1) * self.width <= self.vec@.len(),
        ensures
            v == self.vec@[y * self.width + x],
    {
        proof {
            assert(0 <= y * self.width && y * self.width + x < (y + 1) * self.width)
                by (nonlinear_arith)
                requires
                    x < self.width,
                    y >= 0,
            ;
            broadcast use vstd::std_specs::vec::axiom_spec_len;

            assert(vstd::std_specs::vec::spec_vec_len(&self.vec) == self.vec@.len());
        }
        self.vec[y * self.width + x]
    }

    /// Writes the cell at (x, y).
    fn set(&mut self, x: usize, y: usize, v: usize)
        requires
            x < old(self).width,
            (y + 1) * old(self).width <= old(self).vec@.len(),
        ensures
            final(self).width == old(self).width,
            final(self).vec@ == old(self).vec@.update(y * old(self).width + x, v),
    {
        proof {
            assert(0 <= y * self.width && y * self.width + x < (y + 1) * self.width)
                by (nonlinear_arith)
                requires
                    x < self.width,
                    y >= 0,
            ;
            broadcast use vstd::std_specs::vec::axiom_spec_len;

            assert(vstd::std_specs::vec::spec_vec_len(&self.vec) == self.vec@.len());
        }
        let idx = y * self.width + x;
        self.vec.set(idx, v);
    }
}

/// The cell (x, y) holds the distance of the prefixes of lengths x and y.
spec fn cell_ok(m: Seq<usize>, width: int, a: Seq<char>, b: Seq<char>, x: int, y: int) -> bool {
    m[y * width + x] == spec_edit_distance(a.take(x), b.take(y))
}

/// A cell's flat index stays within the table.
proof fn lemma_cell_index(width: int, la: int, lb: int, i: int, j: int)
    requires
        width == la + 1,
        0 <= i <= la,
        0 <= j <= lb,
    ensures
        0 <= j * width + i,
        j * width + i < (lb + 1) * width,
        (j + 1) * width <= (lb + 1) * width,
{
    assert(0 <= j * width + i && j * width + i < (lb + 1) * width && (j + 1) * width <= (lb + 1)
        * width) by (nonlinear_arith)
        requires
            width == la + 1,
            0 <= i <= la,
            0 <= j <= lb,
    ;
}

/// A write to one cell leaves every other cell's fact standing.
proof fn lemma_cells_untouched(
    before: Seq<usize>,
    after: Seq<usize>,
    width: int,
    a: Seq<char>,
    b: Seq<char>,
    xw: int,
    yw: int,
)
    requires
        width >= 1,
        0 <= xw < width,
        0 <= yw,
        0 <= yw * width + xw < before.len(),
        after == before.update(yw * width + xw, after[yw * width + xw]),
    ensures
        forall|i: int, j: int|
            0 <= i < width && 0 <= j && 0 <= j * width + i < before.len() && !(i == xw && j == yw)
                && cell_ok(before, width, a, b, i, j) ==> #[trigger] cell_ok(after, width, a, b, i, j),
{
    assert forall|i: int, j: int|
        0 <= i < width && 0 <= j && 0 <= j * width + i < before.len() && !(i == xw && j == yw)
            && cell_ok(before, width, a, b, i, j) implies #[trigger] cell_ok(
            after,
            width,
            a,
            b,
            i,
            j,
        ) by {
        if j == yw {
            // Same row: a different column gives a different index.
            assert(j * width + i != yw * width + xw);
        } else if j > yw {
            // A later row starts past the written cell's index.
            assert(j * width >= yw * width + width) by (nonlinear_arith)
                requires
                    j >= yw + 1,
                    width >= 1,
            ;
        } else {
            assert(yw * width >= j * width + width) by (nonlinear_arith)
                requires
                    yw >= j + 1,
                    width >= 1,
            ;
        }
        assert(j * width + i != yw * width + xw);
    }
}

/// The characters of a word, in order.
fn chars_of(s: &str) -> (v: Vec<char>)
    ensures
        v@ == s@,
{
    let n = s.unicode_len();
    let mut v: Vec<char> = Vec::new();
    let mut i: usize = 0;
    while i < n
        invariant
            i <= n,
            n == s@.len(),
            v@ == s@.take(i as int),
        decreases n - i,
    {
        let c = s.get_char(i);
        v.push(c);
        proof {
            assert(v@ =~= s@.take(i + 1));
        }
        i = i + 1;
    }
    proof {
        assert(s@.take(n as int) =~= s@);
    }
    v
}

/// Computes the edit distance of the two words.
pub fn levenshtein_distance(word_a: &str, word_b: &str) -> (d: usize)
    requires
        (word_a@.len() + 1) * (word_b@.len() + 1) <= usize::MAX,
    ensures
        d == spec_edit_distance(word_a@, word_b@),
{
    let ghost a = word_a@;
    let ghost b = word_b@;
    let len_a = word_a.unicode_len();
    let len_b = word_b.unicode_len();
    if len_a == 0 {
        proof {
            assert(b.take(len_b as int) =~= b);
            lemma_edit_empty(a, b, 0, len_b as int);
        }
        return len_b;
    }
    if len_b == 0 {
        proof {
            assert(a.take(len_a as int) =~= a);
            lemma_edit_empty(a, b, len_a as int, 0);
        }
        return len_a;
    }
    let av = chars_of(word_a);
    let bv = chars_of(word_b);
    proof {
        // The table size, and every per-cell bound below, stays within the
        // machine word because the requires caps the product of the two
        // lengths plus one.
        assert(((len_b as int) + 1) * ((len_a as int) + 1) == (a.len() + 1) * (b.len() + 1)
            && (a.len() + 1) * (b.len() + 1) >= a.len() + b.len() + 2) by (nonlinear_arith)
            requires
                len_a == a.len(),
                len_b == b.len(),
                a.len() >= 1,
                b.len() >= 1,
        ;
    }
    let mut matrix = Matrix::new(len_b + 1, len_a + 1);
    let width: usize = len_a + 1;
    let ghost mlen = matrix.vec@.len() as int;
    proof {
        lemma_cell_index(width as int, len_a as int, len_b as int, 0, 0);
        assert((0 + 1) * (width as int) <= mlen);
    }
    // Left border: each prefix of the first word against the empty prefix
    // of the second costs its own length.
    let mut x: usize = 0;
    while x < len_a
        invariant
            x <= len_a,
            matrix.width == width,
            width == len_a + 1,
            matrix.vec@.len() == mlen,
            mlen == ((len_b + 1) as int) * ((len_a + 1) as int),
            width <= mlen,
            len_a >= 1,
            len_b >= 1,
            forall|i: int| 0 <= i <= x ==> #[trigger] matrix.vec@[i] == i,
        decreases len_a - x,
    {
        let prev = matrix.get(x, 0);
        matrix.set(x + 1, 0, prev + 1);
        x = x + 1;
    }
    // Top border: the empty prefix of the first word against each prefix
    // of the second.
    let mut y: usize = 0;
    while y < len_b
        invariant
            y <= len_b,
            matrix.width == width,
            width == len_a + 1,
            matrix.vec@.len() == mlen,
            mlen == ((len_b + 1) as int) * ((len_a + 1) as int),
            width <= mlen,
            len_a >= 1,
            len_b >= 1,
            forall|i: int| 0 <= i <= len_a ==> #[trigger] matrix.vec@[i] == i,
            forall|j: int| 0 <= j <= y ==> #[trigger] matrix.vec@[j * width] == j,
        decreases len_b - y,
    {
        proof {
            lemma_cell_index(width as int, len_a as int, len_b as int, 0, y as int);
            lemma_cell_index(width as int, len_a as int, len_b as int, 0, y + 1);
        }
        let prev = matrix.get(0, y);
        matrix.set(0, y + 1, prev + 1);
        proof {
            assert forall|i: int| 0 <= i <= len_a implies #[trigger] matrix.vec@[i] == i by {
                assert((y + 1) * (width as int) >= width) by (nonlinear_arith)
                    requires
                        y >= 0,
                        width >= 1,
                ;
            }
            assert forall|j: int| 0 <= j <= y + 1 implies #[trigger] matrix.vec@[j * width]
                == j by {
                if j < y + 1 {
                    assert(0 <= j * (width as int) && j * (width as int) < (y + 1) * (
                    width as int)) by (nonlinear_arith)
                        requires
                            0 <= j < y + 1,
                            width >= 1,
                    ;
                }
            }
        }
        y = y + 1;
    }
    proof {
        lemma_cells_from_borders(matrix.vec@, width as int, a, b, len_a as int, len_b as int);
    }
    // Body: each new cell from its three neighbours.
    let mut x: usize = 0;
    while x < len_a
        invariant
            x <= len_a,
            matrix.width == width,
            width == len_a + 1,
            matrix.vec@.len() == mlen,
            mlen == ((len_b + 1) as int) * ((len_a + 1) as int),
            mlen >= len_a + len_b + 2,
            mlen <= usize::MAX,
            width <= mlen,
            a.len() == len_a,
            b.len() == len_b,
            av@ == a,
            bv@ == b,
            len_a >= 1,
            len_b >= 1,
            a == word_a@,
            b == word_b@,
            forall|i: int, j: int|
                0 <= i <= x && 0 <= j <= len_b ==> #[trigger] cell_ok(
                    matrix.vec@,
                    width as int,
                    a,
                    b,
                    i,
                    j,
                ),
            forall|i: int|
                0 <= i <= len_a ==> #[trigger] cell_ok(matrix.vec@, width as int, a, b, i, 0),
        decreases len_a - x,
    {
        let mut y: usize = 0;
        while y < len_b
            invariant
                x < len_a,
                y <= len_b,
                matrix.width == width,
                width == len_a + 1,
                matrix.vec@.len() == mlen,
                mlen == ((len_b + 1) as int) * ((len_a + 1) as int),
                mlen >= len_a + len_b + 2,
                mlen <= usize::MAX,
                width <= mlen,
                a.len() == len_a,
                b.len() == len_b,
                av@ == a,
                bv@ == b,
                len_a >= 1,
                len_b >= 1,
                a == word_a@,
                b == word_b@,
                forall|i: int, j: int|
                    0 <= i <= x && 0 <= j <= len_b ==> #[trigger] cell_ok(
                        matrix.vec@,
                        width as int,
                        a,
                        b,
                        i,
                        j,
                    ),
                forall|i: int|
                    0 <= i <= len_a ==> #[trigger] cell_ok(matrix.vec@, width as int, a, b, i, 0),
                forall|j: int|
                    0 <= j <= y ==> #[trigger] cell_ok(matrix.vec@, width as int, a, b, x + 1, j),
            decreases len_b - y,
        {
            proof {
                lemma_cell_index(width as int, len_a as int, len_b as int, x as int, y as int);
                lemma_cell_index(width as int, len_a as int, len_b as int, x + 1, y as int);
                lemma_cell_index(width as int, len_a as int, len_b as int, x as int, y + 1);
                lemma_cell_index(width as int, len_a as int, len_b as int, x + 1, y + 1);
            }
            let up = matrix.get(x + 1, y);
            let left = matrix.get(x, y + 1);
            let diag = matrix.get(x, y);
            proof {
                lemma_edit_distance_bound(a.take(x + 1), b.take(y as int));
                lemma_edit_distance_bound(a.take(x as int), b.take(y + 1));
                lemma_edit_distance_bound(a.take(x as int), b.take(y as int));
                assert(cell_ok(matrix.vec@, width as int, a, b, x + 1, y as int));
                assert(cell_ok(matrix.vec@, width as int, a, b, x as int, y + 1));
                assert(cell_ok(matrix.vec@, width as int, a, b, x as int, y as int));
                assert(up <= len_a + len_b && left <= len_a + len_b && diag <= len_a + len_b);
            }
            let cost: usize = if av[x] == bv[y] {
                0
            } else {
                1
            };
            let through_up = up + 1;
            let through_left = left + 1;
            let through_diag = diag + cost;
            let mut cell = through_up;
            if through_left < cell {
                cell = through_left;
            }
            if through_diag < cell {
                cell = through_diag;
            }
            proof {
                lemma_edit_step(a, b, x as int, y as int);
                assert(cell == spec_edit_distance(a.take(x + 1), b.take(y + 1)));
            }
            let ghost before = matrix.vec@;
            matrix.set(x + 1, y + 1, cell);
            proof {
                lemma_cells_untouched(before, matrix.vec@, width as int, a, b, x + 1, y + 1);
                assert(cell_ok(matrix.vec@, width as int, a, b, x + 1, y + 1));
                assert forall|i: int, j: int| 0 <= i <= x && 0 <= j <= len_b implies #[trigger] cell_ok(
                    matrix.vec@,
                    width as int,
                    a,
                    b,
                    i,
                    j,
                ) by {
                    lemma_cell_index(width as int, len_a as int, len_b as int, i, j);
                    assert(cell_ok(before, width as int, a, b, i, j));
                }
                assert forall|i: int| 0 <= i <= len_a implies #[trigger] cell_ok(
                    matrix.vec@,
                    width as int,
                    a,
                    b,
                    i,
                    0,
                ) by {
                    lemma_cell_index(width as int, len_a as int, len_b as int, i, 0);
                    assert(cell_ok(before, width as int, a, b, i, 0));
                }
                assert forall|j: int| 0 <= j <= y + 1 implies #[trigger] cell_ok(
                    matrix.vec@,
                    width as int,
                    a,
                    b,
                    x + 1,
                    j,
                ) by {
                    if j < y + 1 {
                        lemma_cell_index(width as int, len_a as int, len_b as int, x + 1, j);
                        assert(cell_ok(before, width as int, a, b, x + 1, j));
                    }
                }
            }
            y = y + 1;
        }
        x = x + 1;
    }
    proof {
        lemma_cell_index(width as int, len_a as int, len_b as int, len_a as int, len_b as int);
        assert(cell_ok(matrix.vec@, width as int, a, b, len_a as int, len_b as int));
        assert(a.take(len_a as int) =~= a);
        assert(b.take(len_b as int) =~= b);
    }
    matrix.get(len_a, len_b)
}

/// Rewrites the border facts (cells of row zero and column zero) as
/// prefix-distance facts.
proof fn lemma_cells_from_borders(
    m: Seq<usize>,
    width: int,
    a: Seq<char>,
    b: Seq<char>,
    la: int,
    lb: int,
)
    requires
        width == la + 1,
        la >= 1,
        lb >= 1,
        a.len() == la,
        b.len() == lb,
        forall|i: int| 0 <= i <= la ==> #[trigger] m[i] == i,
        forall|j: int| 0 <= j <= lb ==> #[trigger] m[j * width] == j,
    ensures
        forall|i: int, j: int|
            0 <= i <= 0 && 0 <= j <= lb ==> #[trigger] cell_ok(m, width, a, b, i, j),
        forall|i: int| 0 <= i <= la ==> #[trigger] cell_ok(m, width, a, b, i, 0),
{
    assert forall|i: int, j: int| 0 <= i <= 0 && 0 <= j <= lb implies #[trigger] cell_ok(
        m,
        width,
        a,
        b,
        i,
        j,
    ) by {
        lemma_edit_empty(a, b, 0, j);
        assert(m[j * width] == j);
    }
    assert forall|i: int| 0 <= i <= la implies #[trigger] cell_ok(m, width, a, b, i, 0) by {
        lemma_edit_empty(a, b, i, 0);
        assert(m[0 * width + i] == i);
    }
}

} // verus!
