use vstd::prelude::*;

verus! {

/// Sum of a sequence of counts.
pub open spec fn seq_sum(s: Seq<usize>) -> nat
    decreases s.len(),
{
    if s.len() == 0 {
        0
    } else {
        (seq_sum(s.drop_last()) + s.last()) as nat
    }
}

/// Sum of every count of a table, row by row.
pub open spec fn table_total(t: Seq<Seq<usize>>) -> nat
    decreases t.len(),
{
    if t.len() == 0 {
        0
    } else {
        table_total(t.drop_last()) + seq_sum(t.last())
    }
}

/// Sum of column `j` of a table.
pub open spec fn column_total(t: Seq<Seq<usize>>, j: int) -> nat
    decreases t.len(),
{
    if t.len() == 0 {
        0
    } else {
        (column_total(t.drop_last(), j) + t.last()[j]) as nat
    }
}

/// Every row of `t` has `c` entries.
pub open spec fn is_rectangular(t: Seq<Seq<usize>>, c: int) -> bool {
    forall|i: int| 0 <= i < t.len() ==> #[trigger] t[i].len() == c
}

pub proof fn lemma_prefix_sum_le(s: Seq<usize>, i: int)
    requires
        0 <= i <= s.len(),
    ensures
        seq_sum(s.take(i)) <= seq_sum(s),
    decreases s.len(),
{
    if i == s.len() {
        assert(s.take(i) =~= s);
    } else {
        lemma_prefix_sum_le(s.drop_last(), i);
        assert(s.drop_last().take(i) =~= s.take(i));
    }
}

pub proof fn lemma_prefix_sum_step(s: Seq<usize>, i: int)
    requires
        0 <= i < s.len(),
    ensures
        seq_sum(s.take(i + 1)) == seq_sum(s.take(i)) + s[i],
{
    assert(s.take(i + 1).drop_last() =~= s.take(i));
}

pub proof fn lemma_elem_le_sum(s: Seq<usize>, j: int)
    requires
        0 <= j < s.len(),
    ensures
        s[j] <= seq_sum(s),
{
    lemma_prefix_sum_step(s, j);
    lemma_prefix_sum_le(s, j + 1);
}

pub proof fn lemma_table_prefix_le(t: Seq<Seq<usize>>, i: int)
    requires
        0 <= i <= t.len(),
    ensures
        table_total(t.take(i)) <= table_total(t),
    decreases t.len(),
{
    if i == t.len() {
        assert(t.take(i) =~= t);
    } else {
        lemma_table_prefix_le(t.drop_last(), i);
        assert(t.drop_last().take(i) =~= t.take(i));
    }
}

pub proof fn lemma_table_prefix_step(t: Seq<Seq<usize>>, i: int)
    requires
        0 <= i < t.len(),
    ensures
        table_total(t.take(i + 1)) == table_total(t.take(i)) + seq_sum(t[i]),
{
    assert(t.take(i + 1).drop_last() =~= t.take(i));
}

pub proof fn lemma_column_prefix_step(t: Seq<Seq<usize>>, i: int, j: int)
    requires
        0 <= i < t.len(),
    ensures
        column_total(t.take(i + 1), j) == column_total(t.take(i), j) + t[i][j],
{
    assert(t.take(i + 1).drop_last() =~= t.take(i));
}

pub proof fn lemma_column_le_total(t: Seq<Seq<usize>>, j: int)
    requires
        0 <= j,
        forall|i: int| 0 <= i < t.len() ==> j < #[trigger] t[i].len(),
    ensures
        column_total(t, j) <= table_total(t),
    decreases t.len(),
{
    if t.len() > 0 {
        let u = t.drop_last();
        assert forall|i: int| 0 <= i < u.len() implies j < #[trigger] u[i].len() by {
            assert(u[i] == t[i]);
        }
        lemma_column_le_total(u, j);
        lemma_elem_le_sum(t.last(), j);
    }
}

} // verus!
