use vstd::prelude::*;

use crate::sums::{
    column_total, is_rectangular, lemma_column_le_total, lemma_column_prefix_step,
    lemma_elem_le_sum, lemma_prefix_sum_le, lemma_prefix_sum_step, lemma_table_prefix_le,
    lemma_table_prefix_step, seq_sum, table_total,
};
use crate::StatError;

verus! {

/// Sum of a slice of counts.
pub fn sum_counts(x: &[usize]) -> (s: usize)
    requires
        seq_sum(x@) <= usize::MAX,
    ensures
        s == seq_sum(x@),
{
    let mut s: usize = 0;
    let mut i: usize = 0;
    while i < x.len()
        invariant
            i <= x@.len(),
            s == seq_sum(x@.take(i as int)),
            seq_sum(x@) <= usize::MAX,
        decreases x@.len() - i,
    {
        proof {
            lemma_prefix_sum_step(x@, i as int);
            lemma_prefix_sum_le(x@, i as int + 1);
        }
        s = s + x[i];
        i = i + 1;
    }
    assert(x@.take(i as int) =~= x@);
    s
}

/// An owned copy of a slice of counts.
pub fn copy_counts(x: &[usize]) -> (r: Vec<usize>)
    ensures
        r@ == x@,
{
    let mut r: Vec<usize> = Vec::new();
    let mut i: usize = 0;
    while i < x.len()
        invariant
            i <= x@.len(),
            r@ == x@.take(i as int),
        decreases x@.len() - i,
    {
        r.push(x[i]);
        i = i + 1;
        assert(r@ =~= x@.take(i as int));
    }
    assert(x@.take(i as int) =~= x@);
    r
}

/// Chi-squared goodness-of-fit engine over category counts.
///
/// The statistic is `Q = sum_i (x_i - n p_i)^2 / (n p_i)` for hypothesised
/// probabilities `p`, and is referred to a chi-squared law with `k - 1`
/// degrees of freedom.
pub struct Chi2Fit {
    x: Vec<usize>,
    n: usize,
    k: usize,
}

impl Chi2Fit {
    /// The counts the engine was built from.
    pub closed spec fn counts(&self) -> Seq<usize> {
        self.x@
    }

    /// The totals agree with the counts, and there are at least two categories.
    #[verifier::type_invariant]
    closed spec fn inv(&self) -> bool {
        &&& self.n == seq_sum(self.x@)
        &&& self.k == self.x@.len()
        &&& self.k >= 2
        &&& self.n > 0
    }

    /// Builds the engine from a copy of `x`.
    ///
    /// Fewer than two categories leave no degree of freedom:
    /// `InvalidParameter`. All counts zero make every expected count zero:
    /// `DegenerateInput`.
    pub fn new(x: &[usize]) -> (r: Result<Chi2Fit, StatError>)
        requires
            seq_sum(x@) <= usize::MAX,
        ensures
            x@.len() < 2 ==> r == Err::<Chi2Fit, StatError>(StatError::InvalidParameter),
            x@.len() >= 2 && seq_sum(x@) == 0 ==> r == Err::<Chi2Fit, StatError>(
                StatError::DegenerateInput,
            ),
            x@.len() >= 2 && seq_sum(x@) > 0 ==> (r matches Ok(f) && f.counts() == x@),
    {
        if x.len() < 2 {
            return Err(StatError::InvalidParameter);
        }
        let n = sum_counts(x);
        if n == 0 {
            return Err(StatError::DegenerateInput);
        }
        let k = x.len();
        let x = copy_counts(x);
        Ok(Chi2Fit { x, n, k })
    }

    /// The counts, in the order given.
    pub fn observed(&self) -> (r: &[usize])
        ensures
            r@ == self.counts(),
    {
        self.x.as_slice()
    }

    /// Total of the counts, `n`; positive.
    pub fn n(&self) -> (r: usize)
        ensures
            r == seq_sum(self.counts()),
            r > 0,
    {
        proof {
            use_type_invariant(self);
        }
        self.n
    }

    /// Number of categories, `k`; at least two.
    pub fn k(&self) -> (r: usize)
        ensures
            r == self.counts().len(),
            r >= 2,
    {
        proof {
            use_type_invariant(self);
        }
        self.k
    }

    /// Degrees of freedom of the reference chi-squared law: `k - 1`.
    pub fn degrees_of_freedom(&self) -> (r: usize)
        ensures
            r == self.counts().len() - 1,
            r >= 1,
    {
        proof {
            use_type_invariant(self);
        }
        self.k - 1
    }

    /// Checks that `m` hypothesised probabilities match the categories.
    pub fn check_probabilities(&self, m: usize) -> (r: Result<(), StatError>)
        ensures
            m == self.counts().len() <==> r is Ok,
            m != self.counts().len() ==> r == Err::<(), StatError>(StatError::DimensionMismatch),
    {
        proof {
            use_type_invariant(self);
        }
        if m == self.k {
            Ok(())
        } else {
            Err(StatError::DimensionMismatch)
        }
    }
}

} // verus!

verus! {

/// The counts of a table, row by row.
pub open spec fn rows_view(t: Seq<Vec<usize>>) -> Seq<Seq<usize>> {
    Seq::new(t.len(), |i: int| t[i]@)
}

/// Some row or some column of `t` sums to zero.
pub open spec fn has_zero_margin(t: Seq<Seq<usize>>) -> bool {
    ||| exists|i: int| 0 <= i < t.len() && #[trigger] seq_sum(t[i]) == 0
    ||| exists|j: int| 0 <= j < t[0].len() && #[trigger] column_total(t, j) == 0
}

/// Why a table cannot be tested for independence, if it cannot.
///
/// It needs at least two rows and two columns, rows of one length, and no
/// row or column whose total is zero.
pub open spec fn table_error(t: Seq<Seq<usize>>) -> Option<StatError> {
    if t.len() == 0 || t[0].len() == 0 {
        Some(StatError::InvalidParameter)
    } else if !is_rectangular(t, t[0].len() as int) {
        Some(StatError::DimensionMismatch)
    } else if t.len() == 1 || t[0].len() == 1 {
        Some(StatError::InvalidParameter)
    } else if has_zero_margin(t) {
        Some(StatError::DegenerateInput)
    } else {
        None
    }
}

/// Numerator of the expected frequency of cell `(i, j)`; its denominator is
/// the grand total.
pub open spec fn expected_numerator(t: Seq<Seq<usize>>, i: int, j: int) -> nat {
    seq_sum(t[i]) * column_total(t, j)
}

/// `n * |observed - expected|` in cell `(i, j)`, for the grand total `n`.
pub open spec fn cell_deviation(t: Seq<Seq<usize>>, i: int, j: int) -> nat {
    let d = table_total(t) * t[i][j] - expected_numerator(t, i, j);
    if d >= 0 {
        d as nat
    } else {
        (-d) as nat
    }
}

/// One cell's share of the independence statistic, held exactly: with `n`
/// the grand total it is `deviation^2 / (n * expected_numerator)`, which is
/// `(observed - expected)^2 / expected`.
#[derive(Debug, Clone, Copy, PartialEq, Eq, Structural)]
pub struct ChiTerm {
    pub deviation: u128,
    pub expected_numerator: u128,
}

proof fn lemma_total_ge_row(t: Seq<Seq<usize>>, i: int)
    requires
        0 <= i < t.len(),
    ensures
        seq_sum(t[i]) <= table_total(t),
{
    lemma_table_prefix_step(t, i);
    lemma_table_prefix_le(t, i + 1);
}

/// Chi-squared independence engine over a two-way contingency table.
///
/// Expected frequencies are `row_total[i] * column_total[j] / n`; the
/// reference law has `(r - 1)(c - 1)` degrees of freedom.
pub struct Chi2Indep {
    cross: Vec<Vec<usize>>,
    xi: Vec<usize>,
    xj: Vec<usize>,
    n: usize,
    r: usize,
    c: usize,
}

impl Chi2Indep {
    /// The table the engine was built from.
    pub closed spec fn table(&self) -> Seq<Seq<usize>> {
        rows_view(self.cross@)
    }

    #[verifier::type_invariant]
    closed spec fn inv(&self) -> bool {
        let t = rows_view(self.cross@);
        &&& table_error(t) is None
        &&& self.r == t.len()
        &&& self.c == t[0].len()
        &&& self.n == table_total(t)
        &&& self.xi@.len() == self.r
        &&& self.xj@.len() == self.c
        &&& forall|i: int| 0 <= i < self.r ==> #[trigger] self.xi@[i] == seq_sum(t[i])
        &&& forall|j: int| 0 <= j < self.c ==> #[trigger] self.xj@[j] == column_total(t, j)
    }

    /// Builds the engine from a copy of `cross`, or says why the table
    /// cannot be tested (see `table_error`).
    pub fn new(cross: &[Vec<usize>]) -> (r: Result<Chi2Indep, StatError>)
        requires
            table_total(rows_view(cross@)) <= usize::MAX,
        ensures
            match table_error(rows_view(cross@)) {
                Some(e) => r == Err::<Chi2Indep, StatError>(e),
                None => r matches Ok(e) && e.table() == rows_view(cross@),
            },
    {
        let ghost t = rows_view(cross@);
        if cross.len() == 0 {
            return Err(StatError::InvalidParameter);
        }
        let c = cross[0].len();
        if c == 0 {
            return Err(StatError::InvalidParameter);
        }
        let r = cross.len();
        let mut i: usize = 0;
        while i < r
            invariant
                r == cross@.len(),
                t == rows_view(cross@),
                c == t[0].len(),
                c > 0,
                i <= r,
                forall|k: int| 0 <= k < i ==> #[trigger] t[k].len() == c,
            decreases r - i,
        {
            if cross[i].len() != c {
                assert(t[i as int].len() != c);
                assert(!is_rectangular(t, t[0].len() as int));
                return Err(StatError::DimensionMismatch);
            }
            i = i + 1;
        }
        assert(is_rectangular(t, c as int));
        if r == 1 || c == 1 {
            return Err(StatError::InvalidParameter);
        }
        let mut xi: Vec<usize> = Vec::new();
        let mut n: usize = 0;
        let mut i: usize = 0;
        while i < r
            invariant
                r == cross@.len(),
                t == rows_view(cross@),
                table_total(t) <= usize::MAX,
                i <= r,
                n == table_total(t.take(i as int)),
                xi@.len() == i,
                forall|k: int| 0 <= k < i ==> #[trigger] xi@[k] == seq_sum(t[k]),
            decreases r - i,
        {
            proof {
                lemma_table_prefix_step(t, i as int);
                lemma_table_prefix_le(t, i as int + 1);
            }
            let s = sum_counts(cross[i].as_slice());
            xi.push(s);
            n = n + s;
            i = i + 1;
        }
        assert(t.take(r as int) =~= t);
        let mut xj: Vec<usize> = Vec::new();
        let mut j: usize = 0;
        while j < c
            invariant
                r == cross@.len(),
                t == rows_view(cross@),
                r == t.len(),
                r > 0,
                c == t[0].len(),
                is_rectangular(t, c as int),
                table_total(t) <= usize::MAX,
                j <= c,
                xj@.len() == j,
                forall|k: int| 0 <= k < j ==> #[trigger] xj@[k] == column_total(t, k),
            decreases c - j,
        {
            let mut s: usize = 0;
            let mut i: usize = 0;
            while i < r
                invariant
                    r == cross@.len(),
                    t == rows_view(cross@),
                    r == t.len(),
                    r > 0,
                    c == t[0].len(),
                    is_rectangular(t, c as int),
                    table_total(t) <= usize::MAX,
                    j < c,
                    i <= r,
                    s == column_total(t.take(i as int), j as int),
                decreases r - i,
            {
                proof {
                    let u = t.take(i as int + 1);
                    lemma_column_prefix_step(t, i as int, j as int);
                    assert forall|k: int| 0 <= k < u.len() implies j < #[trigger] u[k].len() by {
                        assert(u[k] == t[k]);
                    }
                    lemma_column_le_total(u, j as int);
                    lemma_table_prefix_le(t, i as int + 1);
                }
                s = s + cross[i][j];
                i = i + 1;
            }
            assert(t.take(r as int) =~= t);
            xj.push(s);
            j = j + 1;
        }
        let mut i: usize = 0;
        while i < r
            invariant
                t == rows_view(cross@),
                r == t.len(),
                r > 1,
                c == t[0].len(),
                c > 1,
                is_rectangular(t, c as int),
                xi@.len() == r,
                forall|k: int| 0 <= k < r ==> #[trigger] xi@[k] == seq_sum(t[k]),
                i <= r,
                forall|k: int| 0 <= k < i ==> #[trigger] seq_sum(t[k]) != 0,
            decreases r - i,
        {
            if xi[i] == 0 {
                assert(seq_sum(t[i as int]) == 0);
                return Err(StatError::DegenerateInput);
            }
            i = i + 1;
        }
        let mut j: usize = 0;
        while j < c
            invariant
                t == rows_view(cross@),
                r == t.len(),
                r > 1,
                c == t[0].len(),
                c > 1,
                is_rectangular(t, c as int),
                xj@.len() == c,
                forall|k: int| 0 <= k < c ==> #[trigger] xj@[k] == column_total(t, k),
                j <= c,
                forall|k: int| 0 <= k < j ==> #[trigger] column_total(t, k) != 0,
            decreases c - j,
        {
            if xj[j] == 0 {
                assert(column_total(t, j as int) == 0);
                return Err(StatError::DegenerateInput);
            }
            j = j + 1;
        }
        let mut copy: Vec<Vec<usize>> = Vec::new();
        let mut i: usize = 0;
        while i < r
            invariant
                r == cross@.len(),
                i <= r,
                copy@.len() == i,
                forall|k: int| 0 <= k < i ==> #[trigger] copy@[k]@ == cross@[k]@,
            decreases r - i,
        {
            let row = copy_counts(cross[i].as_slice());
            copy.push(row);
            i = i + 1;
        }
        assert(rows_view(copy@) =~= t);
        Ok(Chi2Indep { cross: copy, xi, xj, n, r, c })
    }

    /// Grand total `n`; positive.
    pub fn n(&self) -> (r: usize)
        ensures
            r == table_total(self.table()),
            r > 0,
    {
        proof {
            use_type_invariant(self);
            lemma_total_ge_row(self.table(), 0);
        }
        self.n
    }

    /// Number of rows; at least two.
    pub fn r(&self) -> (r: usize)
        ensures
            r == self.table().len(),
            r >= 2,
    {
        proof {
            use_type_invariant(self);
        }
        self.r
    }

    /// Number of columns; at least two, and every row has that many.
    pub fn c(&self) -> (r: usize)
        ensures
            r == self.table()[0].len(),
            r >= 2,
            is_rectangular(self.table(), r as int),
    {
        proof {
            use_type_invariant(self);
        }
        self.c
    }

    /// Degrees of freedom of the reference chi-squared law: `(r - 1)(c - 1)`.
    pub fn degrees_of_freedom(&self) -> (r: u128)
        ensures
            r == (self.table().len() - 1) * (self.table()[0].len() - 1),
            r >= 1,
    {
        proof {
            use_type_invariant(self);
        }
        let a = (self.r - 1) as u128;
        let b = (self.c - 1) as u128;
        assert(a * b <= u128::MAX && a * b >= 1) by (nonlinear_arith)
            requires
                1 <= a <= u64::MAX,
                1 <= b <= u64::MAX,
        ;
        a * b
    }

    /// Total of row `i`.
    pub fn row_total(&self, i: usize) -> (r: usize)
        requires
            i < self.table().len(),
        ensures
            r == seq_sum(self.table()[i as int]),
            r > 0,
    {
        proof {
            use_type_invariant(self);
        }
        self.xi[i]
    }

    /// Total of column `j`.
    pub fn column_total(&self, j: usize) -> (r: usize)
        requires
            j < self.table()[0].len(),
        ensures
            r == column_total(self.table(), j as int),
            r > 0,
    {
        proof {
            use_type_invariant(self);
        }
        self.xj[j]
    }

    /// Count observed in cell `(i, j)`.
    pub fn observed(&self, i: usize, j: usize) -> (r: usize)
        requires
            i < self.table().len(),
            j < self.table()[0].len(),
        ensures
            r == self.table()[i as int][j as int],
    {
        proof {
            use_type_invariant(self);
            assert(self.table()[i as int] == self.cross@[i as int]@);
        }
        self.cross[i][j]
    }

    /// Numerator of the expected frequency of cell `(i, j)`: row total times
    /// column total. The expected frequency is this over `n`, and positive.
    pub fn expected_numerator(&self, i: usize, j: usize) -> (r: u128)
        requires
            i < self.table().len(),
            j < self.table()[0].len(),
        ensures
            r == expected_numerator(self.table(), i as int, j as int),
            r > 0,
    {
        proof {
            use_type_invariant(self);
        }
        let a = self.xi[i] as u128;
        let b = self.xj[j] as u128;
        assert(a * b <= u128::MAX && a * b >= 1) by (nonlinear_arith)
            requires
                1 <= a <= u64::MAX,
                1 <= b <= u64::MAX,
        ;
        a * b
    }

    /// Exact share of cell `(i, j)` in the statistic
    /// `Q = sum (observed - expected)^2 / expected`.
    pub fn cell_term(&self, i: usize, j: usize) -> (r: ChiTerm)
        requires
            i < self.table().len(),
            j < self.table()[0].len(),
        ensures
            r.deviation == cell_deviation(self.table(), i as int, j as int),
            r.expected_numerator == expected_numerator(self.table(), i as int, j as int),
            r.expected_numerator > 0,
    {
        let e = self.expected_numerator(i, j);
        let o = self.observed(i, j) as u128;
        let n = self.n() as u128;
        assert(n * o <= u128::MAX) by (nonlinear_arith)
            requires
                n <= u64::MAX,
                o <= u64::MAX,
        ;
        let scaled = n * o;
        let deviation = if scaled >= e {
            scaled - e
        } else {
            e - scaled
        };
        ChiTerm { deviation, expected_numerator: e }
    }
}

} // verus!

verus! {

/// Sum of a sequence of naturals.
pub open spec fn nat_sum(s: Seq<nat>) -> nat
    decreases s.len(),
{
    if s.len() == 0 {
        0
    } else {
        nat_sum(s.drop_last()) + s.last()
    }
}

proof fn lemma_scaled_row_sum(s: Seq<usize>, k: nat, b: Seq<nat>)
    requires
        s.len() == b.len(),
        forall|j: int| 0 <= j < s.len() ==> #[trigger] s[j] == k * b[j],
    ensures
        seq_sum(s) == k * nat_sum(b),
    decreases s.len(),
{
    if s.len() > 0 {
        let s2 = s.drop_last();
        let b2 = b.drop_last();
        assert forall|j: int| 0 <= j < s2.len() implies #[trigger] s2[j] == k * b2[j] by {
            assert(s[j] == k * b[j]);
        }
        lemma_scaled_row_sum(s2, k, b2);
        assert(s[s.len() - 1] == k * b[s.len() - 1]);
        assert(k * nat_sum(b2) + k * b.last() == k * (nat_sum(b2) + b.last())) by (nonlinear_arith);
        assert(seq_sum(s) == seq_sum(s2) + s.last());
        assert(nat_sum(b) == nat_sum(b2) + b.last());
    } else {
        assert(k * 0 == 0) by (nonlinear_arith);
    }
}

/// `t` is the outer product of `a` and `b`: each row is a multiple of `b`.
pub open spec fn is_outer_product(t: Seq<Seq<usize>>, a: Seq<nat>, b: Seq<nat>) -> bool {
    &&& t.len() == a.len()
    &&& forall|i: int| 0 <= i < t.len() ==> #[trigger] t[i].len() == b.len()
    &&& forall|i: int, j: int|
        0 <= i < t.len() && 0 <= j < b.len() ==> #[trigger] t[i][j] == a[i] * b[j]
}

proof fn lemma_outer_product_drop_last(t: Seq<Seq<usize>>, a: Seq<nat>, b: Seq<nat>)
    requires
        is_outer_product(t, a, b),
        t.len() > 0,
    ensures
        is_outer_product(t.drop_last(), a.drop_last(), b),
{
    let t2 = t.drop_last();
    let a2 = a.drop_last();
    assert forall|i: int| 0 <= i < t2.len() implies #[trigger] t2[i].len() == b.len() by {
        assert(t2[i] == t[i]);
    }
    assert forall|i: int, j: int| 0 <= i < t2.len() && 0 <= j < b.len() implies #[trigger] t2[i][j]
        == a2[i] * b[j] by {
        assert(t2[i] == t[i]);
        assert(t[i][j] == a[i] * b[j]);
    }
}

proof fn lemma_outer_product_row(t: Seq<Seq<usize>>, a: Seq<nat>, b: Seq<nat>, i: int)
    requires
        is_outer_product(t, a, b),
        0 <= i < t.len(),
    ensures
        seq_sum(t[i]) == a[i] * nat_sum(b),
{
    assert(t[i].len() == b.len());
    assert forall|j: int| 0 <= j < t[i].len() implies #[trigger] t[i][j] == a[i] * b[j] by {
        assert(t[i][j] == a[i] * b[j]);
    }
    lemma_scaled_row_sum(t[i], a[i], b);
}

proof fn lemma_outer_product_totals(t: Seq<Seq<usize>>, a: Seq<nat>, b: Seq<nat>, j: int)
    requires
        is_outer_product(t, a, b),
        0 <= j < b.len(),
    ensures
        table_total(t) == nat_sum(a) * nat_sum(b),
        column_total(t, j) == nat_sum(a) * b[j],
    decreases t.len(),
{
    if t.len() > 0 {
        let t2 = t.drop_last();
        let a2 = a.drop_last();
        let last = t.len() - 1;
        lemma_outer_product_drop_last(t, a, b);
        lemma_outer_product_totals(t2, a2, b, j);
        lemma_outer_product_row(t, a, b, last);
        assert(t[last][j] == a[last] * b[j]);
        let (sa, sb, al, bj) = (nat_sum(a2), nat_sum(b), a.last(), b[j]);
        assert(sa * sb + al * sb == (sa + al) * sb) by (nonlinear_arith);
        assert(sa * bj + al * bj == (sa + al) * bj) by (nonlinear_arith);
        assert(table_total(t) == table_total(t2) + seq_sum(t.last()));
        assert(column_total(t, j) == column_total(t2, j) + t.last()[j]);
        assert(nat_sum(a) == sa + al);
    } else {
        assert(0 * nat_sum(b) == 0 && 0 * b[j] == 0) by (nonlinear_arith);
    }
}

/// A table whose rows are all multiples of one distribution matches its
/// expected frequencies exactly: every cell has zero deviation, so each
/// term of the independence statistic, and the statistic, is zero.
pub proof fn lemma_scaled_rows_match_expected(t: Seq<Seq<usize>>, a: Seq<nat>, b: Seq<nat>)
    requires
        is_outer_product(t, a, b),
    ensures
        forall|i: int, j: int|
            0 <= i < t.len() && 0 <= j < b.len() ==> #[trigger] cell_deviation(t, i, j) == 0,
{
    assert forall|i: int, j: int| 0 <= i < t.len() && 0 <= j < b.len() implies #[trigger]
        cell_deviation(t, i, j) == 0 by {
        lemma_outer_product_row(t, a, b, i);
        lemma_outer_product_totals(t, a, b, j);
        assert(t[i][j] == a[i] * b[j]);
        let (sa, sb, ai, bj) = (nat_sum(a), nat_sum(b), a[i], b[j]);
        assert((sa * sb) * (ai * bj) == (ai * sb) * (sa * bj)) by (nonlinear_arith);
    }
}

} // verus!

verus! {

/// Two independence engines built from the same table agree on every
/// quantity their queries return: grand total, marginal totals, expected
/// frequencies and cell deviations. Nothing but the table decides them.
pub proof fn lemma_same_table_same_answers(e1: &Chi2Indep, e2: &Chi2Indep)
    requires
        e1.table() == e2.table(),
    ensures
        table_total(e1.table()) == table_total(e2.table()),
        forall|i: int| seq_sum(#[trigger] e1.table()[i]) == seq_sum(e2.table()[i]),
        forall|j: int| column_total(e1.table(), j) == #[trigger] column_total(e2.table(), j),
        forall|i: int, j: int|
            #[trigger] expected_numerator(e1.table(), i, j) == expected_numerator(e2.table(), i, j)
                && cell_deviation(e1.table(), i, j) == cell_deviation(e2.table(), i, j),
{
}

} // verus!
