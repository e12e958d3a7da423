use vstd::prelude::*;

use crate::chunks::{
    chunk_ranges, lemma_chunk_ranges_bounded, lemma_chunk_ranges_full, lemma_chunk_ranges_partition, spec_chunk_ranges,
};
use crate::models::IndexerBatch;

verus! {

/// Rows of the `checkpoints` table inserted by one statement at most.
pub const CHECKPOINT_CHUNK: usize = 200;

/// Rows of the `transactions` table inserted by one statement at most.
pub const TRANSACTION_CHUNK: usize = 2000;

/// Rows of the `object_changes` table inserted by one statement at most.
pub const OBJECT_CHANGE_CHUNK: usize = 3000;

/// A table that a batch writes to.
#[derive(Debug, Clone, Copy, PartialEq, Eq, Structural)]
pub enum Table {
    /// Inserted rows that clash on `sequence_number` are skipped.
    Checkpoints,
    /// Inserted rows that clash on `transaction_digest` are skipped.
    Transactions,
    /// Every row is inserted.
    ObjectChanges,
}

/// One statement of a commit.
#[derive(Debug, Clone, Copy, PartialEq, Eq, Structural)]
pub enum CommitStep {
    /// Insert rows `start..end` of `table` from batch number `batch`.
    Insert { table: Table, batch: usize, start: usize, end: usize },
    /// Set this pipeline's `checkpoint_hi_inclusive` watermark.
    AdvanceWatermark { checkpoint_hi_inclusive: i64 },
}

/// The statements that insert `len` rows of `table` from batch `batch`,
/// `size` rows at most per statement.
pub open spec fn insert_steps(table: Table, batch: int, len: int, size: int) -> Seq<CommitStep> {
    spec_chunk_ranges(len, size).map_values(
        |r: (int, int)| CommitStep::Insert { table, batch: batch as usize, start: r.0 as usize, end: r.1 as usize },
    )
}

/// The watermark statement of a batch: to its last checkpoint's sequence
/// number, and none when it has no checkpoint.
pub open spec fn watermark_steps(b: IndexerBatch) -> Seq<CommitStep> {
    if b.checkpoints@.len() > 0 {
        seq![CommitStep::AdvanceWatermark { checkpoint_hi_inclusive: b.checkpoints@.last().sequence_number as i64 }]
    } else {
        Seq::empty()
    }
}

/// The statements for batch number `idx`: its checkpoints, then its
/// transactions, then its object changes, then its watermark.
pub open spec fn batch_steps(b: IndexerBatch, idx: int) -> Seq<CommitStep> {
    insert_steps(Table::Checkpoints, idx, b.checkpoints@.len() as int, CHECKPOINT_CHUNK as int)
        + insert_steps(Table::Transactions, idx, b.transactions@.len() as int, TRANSACTION_CHUNK as int)
        + insert_steps(Table::ObjectChanges, idx, b.object_changes@.len() as int, OBJECT_CHANGE_CHUNK as int)
        + watermark_steps(b)
}

/// The statements that commit `values`, batch after batch.
pub open spec fn spec_commit_plan(values: Seq<IndexerBatch>) -> Seq<CommitStep>
    decreases values.len(),
{
    if values.len() == 0 {
        Seq::empty()
    } else {
        spec_commit_plan(values.drop_last()) + batch_steps(values.last(), values.len() - 1)
    }
}

/// Appends the statements that insert `len` rows of `table` from batch
/// `batch`, `size` rows at most per statement.
fn push_inserts(steps: &mut Vec<CommitStep>, table: Table, batch: usize, len: usize, size: usize)
    requires
        size > 0,
    ensures
        final(steps)@ == old(steps)@ + insert_steps(table, batch as int, len as int, size as int),
{
    let ranges = chunk_ranges(len, size);
    let ghost before = steps@;
    let ghost spec = insert_steps(table, batch as int, len as int, size as int);
    let mut k: usize = 0;
    while k < ranges.len()
        invariant
            k <= ranges@.len(),
            ranges@.len() == spec.len(),
            spec == insert_steps(table, batch as int, len as int, size as int),
            forall|m: int| 0 <= m < ranges@.len() ==> (#[trigger] ranges@[m]).0 as int
                == spec_chunk_ranges(len as int, size as int)[m].0 && ranges@[m].1 as int
                == spec_chunk_ranges(len as int, size as int)[m].1,
            steps@ == before + spec.take(k as int),
        decreases ranges.len() - k,
    {
        let (start, end) = ranges[k];
        steps.push(CommitStep::Insert { table, batch, start, end });
        assert(spec.take(k + 1) =~= spec.take(k as int).push(spec[k as int]));
        k = k + 1;
    }
    assert(spec.take(k as int) =~= spec);
}

/// Plans the statements that commit `values`: for each batch, its
/// checkpoint rows 200 at a time, its transaction rows 2000 at a time, its
/// object change rows 3000 at a time, and then the watermark to its last
/// checkpoint.
pub fn commit_plan(values: &Vec<IndexerBatch>) -> (steps: Vec<CommitStep>)
    ensures
        steps@ == spec_commit_plan(values@),
{
    let mut steps: Vec<CommitStep> = Vec::new();
    let mut i: usize = 0;
    assert(values@.take(0) =~= Seq::<IndexerBatch>::empty());
    while i < values.len()
        invariant
            i <= values.len(),
            steps@ == spec_commit_plan(values@.take(i as int)),
        decreases values.len() - i,
    {
        let batch = &values[i];
        let ghost before = steps@;
        push_inserts(&mut steps, Table::Checkpoints, i, batch.checkpoints.len(), CHECKPOINT_CHUNK);
        push_inserts(&mut steps, Table::Transactions, i, batch.transactions.len(), TRANSACTION_CHUNK);
        push_inserts(&mut steps, Table::ObjectChanges, i, batch.object_changes.len(), OBJECT_CHANGE_CHUNK);
        let n = batch.checkpoints.len();
        if n > 0 {
            let last = batch.checkpoints[n - 1].sequence_number as i64;
            steps.push(CommitStep::AdvanceWatermark { checkpoint_hi_inclusive: last });
        }
        proof {
            let prefix = values@.take(i + 1);
            assert(prefix.drop_last() =~= values@.take(i as int));
            assert(prefix.last() == values@[i as int]);
            assert(steps@ =~= before + batch_steps(values@[i as int], i as int));
        }
        i = i + 1;
    }
    assert(values@.take(values.len() as int) =~= values@);
    steps
}

/// The insert statements for one table of one batch submit each of its
/// rows exactly once, in order, never more than `size` rows at a time.
pub proof fn lemma_insert_steps_tile(table: Table, batch: int, len: int, size: int)
    requires
        size > 0,
        len >= 0,
    ensures
        ({
            let s = insert_steps(table, batch, len, size);
            let c = spec_chunk_ranges(len, size);
            &&& s.len() == c.len()
            &&& forall|k: int| 0 <= k < c.len() ==> (#[trigger] c[k]).0 < c[k].1 && c[k].1 - c[k].0 <= size
            &&& forall|k: int| 0 < k < c.len() ==> (#[trigger] c[k]).0 == c[k - 1].1
            &&& c.len() == 0 <==> len == 0
            &&& c.len() > 0 ==> c[0].0 == 0 && c[c.len() - 1].1 == len
        }),
{
    lemma_chunk_ranges_partition(len, size);
}

/// A batch's statements end with the watermark to its last checkpoint
/// exactly when it has a checkpoint, so the watermark moves only after
/// all of that batch's rows were submitted.
pub proof fn lemma_watermark_after_rows(b: IndexerBatch, idx: int)
    ensures
        b.checkpoints@.len() > 0 ==> batch_steps(b, idx).last() == (CommitStep::AdvanceWatermark {
            checkpoint_hi_inclusive: b.checkpoints@.last().sequence_number as i64,
        }),
        b.checkpoints@.len() == 0 ==> forall|k: int| 0 <= k < batch_steps(b, idx).len()
            ==> #[trigger] batch_steps(b, idx)[k] is Insert,
{
    let ins = insert_steps(Table::Checkpoints, idx, b.checkpoints@.len() as int, CHECKPOINT_CHUNK as int)
        + insert_steps(Table::Transactions, idx, b.transactions@.len() as int, TRANSACTION_CHUNK as int)
        + insert_steps(Table::ObjectChanges, idx, b.object_changes@.len() as int, OBJECT_CHANGE_CHUNK as int);
    assert(batch_steps(b, idx) == ins + watermark_steps(b));
    if b.checkpoints@.len() == 0 {
        assert(batch_steps(b, idx) =~= ins);
    }
}

/// Number of rows of table `t` that batch `b` holds.
pub open spec fn rows_in(b: IndexerBatch, t: Table) -> int {
    match t {
        Table::Checkpoints => b.checkpoints@.len() as int,
        Table::Transactions => b.transactions@.len() as int,
        Table::ObjectChanges => b.object_changes@.len() as int,
    }
}

/// Most rows of table `t` that one statement may insert.
pub open spec fn chunk_limit(t: Table) -> int {
    match t {
        Table::Checkpoints => 200,
        Table::Transactions => 2000,
        Table::ObjectChanges => 3000,
    }
}

/// Whether a statement inserts rows of table `t` from batch number `i`.
pub open spec fn inserts_into(t: Table, i: int) -> spec_fn(CommitStep) -> bool {
    |s: CommitStep| s matches CommitStep::Insert { table, batch, .. } && table == t && batch as int == i
}

/// The statements of `plan` that insert rows of table `t` from batch `i`,
/// in plan order.
pub open spec fn inserts_of(plan: Seq<CommitStep>, t: Table, i: int) -> Seq<CommitStep> {
    plan.filter(inserts_into(t, i))
}

proof fn lemma_filter_all<A>(s: Seq<A>, p: spec_fn(A) -> bool)
    requires
        forall|k: int| 0 <= k < s.len() ==> p(#[trigger] s[k]),
    ensures
        s.filter(p) == s,
    decreases s.len(),
{
    reveal_with_fuel(Seq::<_>::filter, 1);
    if s.len() > 0 {
        lemma_filter_all(s.drop_last(), p);
        assert(p(s[s.len() - 1]));
        assert(s.drop_last().push(s.last()) =~= s);
    }
}

proof fn lemma_filter_none<A>(s: Seq<A>, p: spec_fn(A) -> bool)
    requires
        forall|k: int| 0 <= k < s.len() ==> !p(#[trigger] s[k]),
    ensures
        s.filter(p) == Seq::<A>::empty(),
    decreases s.len(),
{
    reveal_with_fuel(Seq::<_>::filter, 1);
    if s.len() > 0 {
        lemma_filter_none(s.drop_last(), p);
        assert(!p(s[s.len() - 1]));
    }
}

/// Filtering one table's insert statements of one batch keeps them all
/// when they are the ones asked for, and none otherwise.
proof fn lemma_inserts_of_insert_steps(t0: Table, idx: int, len: int, size: int, t: Table, i: int)
    requires
        0 <= idx <= usize::MAX,
        size > 0,
    ensures
        inserts_of(insert_steps(t0, idx, len, size), t, i) == if t0 == t && idx == i {
            insert_steps(t0, idx, len, size)
        } else {
            Seq::<CommitStep>::empty()
        },
{
    let s = insert_steps(t0, idx, len, size);
    if t0 == t && idx == i {
        assert forall|k: int| 0 <= k < s.len() implies inserts_into(t, i)(#[trigger] s[k]) by {}
        lemma_filter_all(s, inserts_into(t, i));
    } else {
        assert forall|k: int| 0 <= k < s.len() implies !inserts_into(t, i)(#[trigger] s[k]) by {}
        lemma_filter_none(s, inserts_into(t, i));
    }
}

/// The insert statements of batch `idx`'s own statements for table `t`.
proof fn lemma_inserts_of_batch_steps(b: IndexerBatch, idx: int, t: Table, i: int)
    requires
        0 <= idx <= usize::MAX,
    ensures
        inserts_of(batch_steps(b, idx), t, i) == if idx == i {
            insert_steps(t, idx, rows_in(b, t), chunk_limit(t))
        } else {
            Seq::<CommitStep>::empty()
        },
{
    let p = inserts_into(t, i);
    let a = insert_steps(Table::Checkpoints, idx, b.checkpoints@.len() as int, CHECKPOINT_CHUNK as int);
    let c = insert_steps(Table::Transactions, idx, b.transactions@.len() as int, TRANSACTION_CHUNK as int);
    let d = insert_steps(Table::ObjectChanges, idx, b.object_changes@.len() as int, OBJECT_CHANGE_CHUNK as int);
    let w = watermark_steps(b);
    assert(batch_steps(b, idx) == a + c + d + w);
    Seq::filter_distributes_over_add(a + c + d, w, p);
    Seq::filter_distributes_over_add(a + c, d, p);
    Seq::filter_distributes_over_add(a, c, p);
    lemma_inserts_of_insert_steps(Table::Checkpoints, idx, b.checkpoints@.len() as int, CHECKPOINT_CHUNK as int, t, i);
    lemma_inserts_of_insert_steps(Table::Transactions, idx, b.transactions@.len() as int, TRANSACTION_CHUNK as int, t, i);
    lemma_inserts_of_insert_steps(
        Table::ObjectChanges,
        idx,
        b.object_changes@.len() as int,
        OBJECT_CHANGE_CHUNK as int,
        t,
        i,
    );
    assert forall|k: int| 0 <= k < w.len() implies !p(#[trigger] w[k]) by {}
    lemma_filter_none(w, p);
    assert(inserts_of(batch_steps(b, idx), t, i) =~= if idx == i {
        insert_steps(t, idx, rows_in(b, t), chunk_limit(t))
    } else {
        Seq::<CommitStep>::empty()
    });
}

/// The statements of a whole plan that insert one table's rows of one
/// batch are exactly that batch's statements for that table.
proof fn lemma_inserts_of_plan(values: Seq<IndexerBatch>, t: Table, i: int)
    requires
        0 <= i < values.len(),
        values.len() <= usize::MAX + 1,
    ensures
        inserts_of(spec_commit_plan(values), t, i) == insert_steps(t, i, rows_in(values[i], t), chunk_limit(t)),
    decreases values.len(),
{
    let n = values.len() - 1;
    let init = values.drop_last();
    let p = inserts_into(t, i);
    let pa = spec_commit_plan(init);
    let pb = batch_steps(values.last(), n);
    assert(spec_commit_plan(values) == pa + pb);
    Seq::filter_distributes_over_add(pa, pb, p);
    lemma_inserts_of_batch_steps(values.last(), n, t, i);
    let target = insert_steps(t, i, rows_in(values[i], t), chunk_limit(t));
    if i < n {
        lemma_inserts_of_plan(init, t, i);
        assert(init[i] == values[i]);
        assert(pb.filter(p) == Seq::<CommitStep>::empty());
        assert(pa.filter(p) + Seq::<CommitStep>::empty() =~= pa.filter(p));
    } else {
        lemma_inserts_of_plan_before(init, t, i);
        assert(pa.filter(p) == Seq::<CommitStep>::empty());
        assert(Seq::<CommitStep>::empty() + pb.filter(p) =~= pb.filter(p));
    }
}

/// A plan for the batches before number `i` holds no statement for batch `i`.
proof fn lemma_inserts_of_plan_before(values: Seq<IndexerBatch>, t: Table, i: int)
    requires
        values.len() <= i,
        values.len() <= usize::MAX + 1,
    ensures
        inserts_of(spec_commit_plan(values), t, i) == Seq::<CommitStep>::empty(),
    decreases values.len(),
{
    if values.len() > 0 {
        let n = values.len() - 1;
        let init = values.drop_last();
        let p = inserts_into(t, i);
        let pa = spec_commit_plan(init);
        let pb = batch_steps(values.last(), n);
        assert(spec_commit_plan(values) == pa + pb);
        Seq::filter_distributes_over_add(pa, pb, p);
        lemma_inserts_of_batch_steps(values.last(), n, t, i);
        lemma_inserts_of_plan_before(init, t, i);
        assert(Seq::<CommitStep>::empty() + Seq::<CommitStep>::empty() =~= Seq::<CommitStep>::empty());
    } else {
        reveal_with_fuel(Seq::<_>::filter, 1);
    }
}

/// A commit plan inserts every row of every table of every batch exactly
/// once: the statements that insert rows of table `t` from batch `i` take,
/// in plan order, consecutive non-empty ranges of at most the table's
/// chunk size that start at row 0 and end at the batch's last row; there
/// are none exactly when the batch has no row of that table.
pub proof fn lemma_plan_inserts_each_row_once(values: Seq<IndexerBatch>, i: int, t: Table)
    requires
        0 <= i < values.len(),
        values.len() <= usize::MAX,
        rows_in(values[i], t) <= usize::MAX,
    ensures
        ({
            let f = inserts_of(spec_commit_plan(values), t, i);
            let n = rows_in(values[i], t);
            &&& f.len() == 0 <==> n == 0
            &&& forall|k: int| 0 <= k < f.len() ==> ((#[trigger] f[k]) matches CommitStep::Insert { table, batch, start, end }
                && table == t && batch == i && start < end && end - start <= chunk_limit(t))
            &&& f.len() > 0 ==> f[0]->start == 0 && f[f.len() - 1]->end == n
            &&& forall|k: int| 0 < k < f.len() ==> (#[trigger] f[k])->start == f[k - 1]->end
            &&& forall|k: int| 0 <= k < f.len() - 1 ==> (#[trigger] f[k])->end - f[k]->start == chunk_limit(t)
        }),
{
    let n = rows_in(values[i], t);
    lemma_inserts_of_plan(values, t, i);
    lemma_chunk_ranges_partition(n, chunk_limit(t));
    lemma_chunk_ranges_bounded(n, chunk_limit(t));
    lemma_chunk_ranges_full(n, chunk_limit(t));
    let f = inserts_of(spec_commit_plan(values), t, i);
    let c = spec_chunk_ranges(n, chunk_limit(t));
    assert(f == insert_steps(t, i, n, chunk_limit(t)));
    assert forall|k: int| 0 <= k < f.len() implies ((#[trigger] f[k]) matches CommitStep::Insert { table, batch, start, end }
        && table == t && batch == i && start < end && end - start <= chunk_limit(t)) by {
        assert(0 <= c[k].0 && c[k].1 <= n);
    }
    assert forall|k: int| 0 < k < f.len() implies (#[trigger] f[k])->start == f[k - 1]->end by {
        assert(0 <= c[k].0 && c[k].1 <= n);
        assert(0 <= c[k - 1].0 && c[k - 1].1 <= n);
    }
    assert forall|k: int| 0 <= k < f.len() - 1 implies (#[trigger] f[k])->end - f[k]->start == chunk_limit(t) by {
        assert(0 <= c[k].0 && c[k].1 <= n);
    }
    if f.len() > 0 {
        assert(0 <= c[0].0 && c[0].1 <= n);
        assert(0 <= c[f.len() - 1].0 && c[f.len() - 1].1 <= n);
    }
}

} // verus!
