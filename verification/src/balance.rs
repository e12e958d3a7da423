use vstd::prelude::*;

use crate::checkpoint::copy_bytes;
use crate::sampling::{is_sampled, sampled};

verus! {

/// Rows of the `balance_changes` table inserted by one statement at most.
pub const BALANCE_CHUNK: usize = 1000;

/// A balance change derived from a transaction's effects and its input and
/// output objects: the coin type rendered as text and the signed amount.
#[derive(Debug, Clone)]
pub struct DerivedBalanceChange {
    pub coin_type: String,
    pub amount: i128,
}

/// The balance changes of one transaction, in derivation order.
#[derive(Debug, Clone)]
pub struct TransactionBalanceChanges {
    pub digest: Vec<u8>,
    pub changes: Vec<DerivedBalanceChange>,
}

/// A checkpoint as the balance indexer reads it: its sequence number and
/// the balance changes of its transactions in execution order.
#[derive(Debug, Clone)]
pub struct BalanceCheckpoint {
    pub sequence_number: u64,
    pub transactions: Vec<TransactionBalanceChanges>,
}

/// A balance change tagged with the transaction that made it, at full
/// width.
#[derive(Debug, Clone)]
pub struct IndexedBalanceChange {
    pub tx_digest: Vec<u8>,
    pub coin_type: String,
    pub amount: i128,
}

impl View for IndexedBalanceChange {
    type V = (Seq<u8>, Seq<char>, i128);

    open spec fn view(&self) -> (Seq<u8>, Seq<char>, i128) {
        (self.tx_digest@, self.coin_type@, self.amount)
    }
}

/// The balance changes that one sampled checkpoint contributes.
#[derive(Debug, Clone)]
pub struct IndexerBatch {
    pub checkpoint_sequence_number: i64,
    pub balance_changes: Vec<IndexedBalanceChange>,
}

/// A row of the `balance_changes` table as inserted; the database assigns
/// the id.
#[derive(Debug, Clone)]
pub struct NewBalanceChange {
    pub tx_digest: Vec<u8>,
    pub coin_type: String,
    pub amount: i64,
}

impl View for NewBalanceChange {
    type V = (Seq<u8>, Seq<char>, i64);

    open spec fn view(&self) -> (Seq<u8>, Seq<char>, i64) {
        (self.tx_digest@, self.coin_type@, self.amount)
    }
}

/// A row of the `balance_changes` table as read back.
#[derive(Debug, Clone)]
pub struct BalanceChange {
    pub id: i64,
    pub tx_digest: Vec<u8>,
    pub coin_type: String,
    pub amount: i64,
}

/// Whether the pipeline should commit the rows gathered so far.
#[derive(Debug, Clone, Copy, PartialEq, Eq, Structural)]
pub enum BatchStatus {
    Pending,
    Ready,
}

/// Why a commit was refused.
#[derive(Debug, Clone)]
pub enum CommitError {
    /// The amount of a balance change does not fit the 64-bit column.
    AmountOverflow { coin_type: String, amount: i128 },
}

/// Indexes the balance changes of sampled checkpoints.
/// `end_checkpoint == 0` leaves the range open.
pub struct CheckpointHandler {
    pub start_checkpoint: u64,
    pub end_checkpoint: u64,
}

/// The rows of the balance changes of `txs`, in order, each tagged with
/// its transaction's digest.
pub open spec fn flat_balance_rows(txs: Seq<TransactionBalanceChanges>) -> Seq<(Seq<u8>, Seq<char>, i128)>
    decreases txs.len(),
{
    if txs.len() == 0 {
        Seq::empty()
    } else {
        flat_balance_rows(txs.drop_last()) + txs.last().changes@.map_values(
            |c: DerivedBalanceChange| (txs.last().digest@, c.coin_type@, c.amount),
        )
    }
}

/// The balance changes of `values`, batch after batch.
pub open spec fn flat_batches(values: Seq<IndexerBatch>) -> Seq<IndexedBalanceChange>
    decreases values.len(),
{
    if values.len() == 0 {
        Seq::empty()
    } else {
        flat_batches(values.drop_last()) + values.last().balance_changes@
    }
}

/// Whether an amount fits the 64-bit `amount` column.
pub open spec fn fits_i64(a: i128) -> bool {
    i64::MIN <= a <= i64::MAX
}

/// Appends the rows of the balance changes of one transaction.
fn push_transaction_rows(rows: &mut Vec<IndexedBalanceChange>, tx: &TransactionBalanceChanges)
    ensures
        final(rows)@.len() == old(rows)@.len() + tx.changes@.len(),
        forall|k: int| 0 <= k < old(rows)@.len() ==> final(rows)@[k] == old(rows)@[k],
        forall|j: int| 0 <= j < tx.changes@.len() ==> (#[trigger] final(rows)@[old(rows)@.len() + j])@
            == (tx.digest@, tx.changes@[j].coin_type@, tx.changes@[j].amount),
{
    let ghost start = rows@.len();
    let ghost before = rows@;
    let mut j: usize = 0;
    while j < tx.changes.len()
        invariant
            j <= tx.changes.len(),
            rows@.len() == start + j,
            forall|k: int| 0 <= k < start ==> rows@[k] == before[k],
            forall|m: int| 0 <= m < j ==> (#[trigger] rows@[start + m])@
                == (tx.digest@, tx.changes@[m].coin_type@, tx.changes@[m].amount),
        decreases tx.changes.len() - j,
    {
        let bc = &tx.changes[j];
        rows.push(IndexedBalanceChange {
            tx_digest: copy_bytes(&tx.digest),
            coin_type: bc.coin_type.clone(),
            amount: bc.amount,
        });
        j = j + 1;
    }
}

impl CheckpointHandler {
    /// Whether this handler indexes the checkpoint with sequence number `seq`.
    pub open spec fn samples(&self, seq: u64) -> bool {
        sampled(seq, self.start_checkpoint, self.end_checkpoint)
    }

    /// Gathers the balance changes of a checkpoint: nothing when it is not
    /// sampled, otherwise one batch with every balance change of every
    /// transaction, in order, tagged with its transaction's digest.
    pub fn process_inner(&self, checkpoint: &BalanceCheckpoint) -> (r: Vec<IndexerBatch>)
        ensures
            !self.samples(checkpoint.sequence_number) ==> r@.len() == 0,
            self.samples(checkpoint.sequence_number) ==> {
                &&& r@.len() == 1
                &&& r@[0].checkpoint_sequence_number == checkpoint.sequence_number as i64
                &&& r@[0].balance_changes@.len() == flat_balance_rows(checkpoint.transactions@).len()
                &&& forall|k: int| 0 <= k < r@[0].balance_changes@.len() ==> (#[trigger] r@[0].balance_changes@[k])@
                    == flat_balance_rows(checkpoint.transactions@)[k]
            },
    {
        let seq_number = checkpoint.sequence_number;
        if !is_sampled(seq_number, self.start_checkpoint, self.end_checkpoint) {
            return Vec::new();
        }
        let txs = &checkpoint.transactions;
        let mut rows: Vec<IndexedBalanceChange> = Vec::new();
        let mut i: usize = 0;
        assert(txs@.take(0) =~= Seq::<TransactionBalanceChanges>::empty());
        while i < txs.len()
            invariant
                i <= txs.len(),
                rows@.len() == flat_balance_rows(txs@.take(i as int)).len(),
                forall|k: int| 0 <= k < rows@.len() ==> (#[trigger] rows@[k])@ == flat_balance_rows(txs@.take(i as int))[k],
            decreases txs.len() - i,
        {
            let ghost before = rows@;
            push_transaction_rows(&mut rows, &txs[i]);
            proof {
                let prefix = txs@.take(i + 1);
                assert(prefix.drop_last() =~= txs@.take(i as int));
                assert(prefix.last() == txs@[i as int]);
                let flat = flat_balance_rows(prefix);
                assert forall|k: int| 0 <= k < rows@.len() implies (#[trigger] rows@[k])@ == flat[k] by {
                    if k >= before.len() {
                        let j = k - before.len();
                        assert(rows@[before.len() + j] == rows@[k]);
                    }
                }
            }
            i = i + 1;
        }
        assert(txs@.take(txs.len() as int) =~= txs@);
        let mut batches: Vec<IndexerBatch> = Vec::new();
        batches.push(IndexerBatch { checkpoint_sequence_number: seq_number as i64, balance_changes: rows });
        batches
    }

    /// Settles a processing attempt that may have timed out: a run that
    /// finished gives its batches, one that ran out of time gives nothing,
    /// so the checkpoint is skipped.
    pub fn finish_process(&self, outcome: Option<Vec<IndexerBatch>>) -> (r: Vec<IndexerBatch>)
        ensures
            match outcome {
                Some(batches) => r == batches,
                None => r@.len() == 0,
            },
    {
        match outcome {
            Some(batches) => batches,
            None => Vec::new(),
        }
    }

    /// Adds the balance changes of every value, in order, to the pending
    /// batch; the batch is never reported ready, so the pipeline commits it
    /// on its own schedule.
    pub fn batch(&self, batch: &mut Vec<IndexedBalanceChange>, values: Vec<IndexerBatch>) -> (r: BatchStatus)
        ensures
            final(batch)@ == old(batch)@ + flat_batches(values@),
            r == BatchStatus::Pending,
    {
        let ghost start = batch@;
        let ghost all = values@;
        assert(all.take(all.len() as int) =~= all);
        for value in it: values.into_iter()
            invariant
                it.seq() == all,
                batch@ == start + flat_batches(all.take(it.index())),
        {
            let mut value = value;
            proof {
                let i = it.index();
                assert(all.take(i + 1).drop_last() =~= all.take(i));
            }
            batch.append(&mut value.balance_changes);
        }
        BatchStatus::Pending
    }

    /// Narrows the pending balance changes to the rows of the
    /// `balance_changes` table, in order. The first change whose amount
    /// does not fit in 64 bits refuses the whole commit with its coin type
    /// and amount.
    pub fn commit_rows(&self, batch: &Vec<IndexedBalanceChange>) -> (r: Result<Vec<NewBalanceChange>, CommitError>)
        ensures
            match r {
                Ok(rows) => {
                    &&& forall|k: int| 0 <= k < batch@.len() ==> fits_i64(#[trigger] batch@[k].amount)
                    &&& rows@.len() == batch@.len()
                    &&& forall|k: int| 0 <= k < rows@.len() ==> (#[trigger] rows@[k])@
                        == (batch@[k].tx_digest@, batch@[k].coin_type@, batch@[k].amount as i64)
                },
                Err(CommitError::AmountOverflow { coin_type, amount }) => exists|k: int| {
                    &&& 0 <= k < batch@.len()
                    &&& !fits_i64(#[trigger] batch@[k].amount)
                    &&& forall|j: int| 0 <= j < k ==> fits_i64(#[trigger] batch@[j].amount)
                    &&& coin_type@ == batch@[k].coin_type@
                    &&& amount == batch@[k].amount
                },
            },
    {
        let mut rows: Vec<NewBalanceChange> = Vec::new();
        let mut i: usize = 0;
        while i < batch.len()
            invariant
                i <= batch@.len(),
                rows@.len() == i,
                forall|k: int| 0 <= k < i ==> fits_i64(#[trigger] batch@[k].amount),
                forall|k: int| 0 <= k < i ==> (#[trigger] rows@[k])@
                    == (batch@[k].tx_digest@, batch@[k].coin_type@, batch@[k].amount as i64),
            decreases batch.len() - i,
        {
            let row = &batch[i];
            if row.amount < i64::MIN as i128 || row.amount > i64::MAX as i128 {
                let ghost k = i as int;
                assert(!fits_i64(batch@[k].amount));
                return Err(CommitError::AmountOverflow { coin_type: row.coin_type.clone(), amount: row.amount });
            }
            rows.push(NewBalanceChange {
                tx_digest: copy_bytes(&row.tx_digest),
                coin_type: row.coin_type.clone(),
                amount: row.amount as i64,
            });
            i = i + 1;
        }
        Ok(rows)
    }
}

/// Gathering the values in two calls of `batch` leaves the same pending
/// rows as gathering them all in one call.
pub proof fn lemma_flat_batches_concat(a: Seq<IndexerBatch>, b: Seq<IndexerBatch>)
    ensures
        flat_batches(a + b) == flat_batches(a) + flat_batches(b),
    decreases b.len(),
{
    if b.len() == 0 {
        assert(a + b =~= a);
        assert(flat_batches(b) =~= Seq::<IndexedBalanceChange>::empty());
        assert(flat_batches(a) + flat_batches(b) =~= flat_batches(a));
    } else {
        lemma_flat_batches_concat(a, b.drop_last());
        assert((a + b).drop_last() =~= a + b.drop_last());
        assert((a + b).last() == b.last());
        assert(flat_batches(a + b) =~= flat_batches(a) + flat_batches(b));
    }
}

/// Every row that a checkpoint contributes carries the digest of one of
/// its transactions.
pub proof fn lemma_flat_balance_rows_origin(txs: Seq<TransactionBalanceChanges>)
    ensures
        forall|k: int| 0 <= k < flat_balance_rows(txs).len() ==> exists|i: int|
            0 <= i < txs.len() && (#[trigger] flat_balance_rows(txs)[k]).0 == (#[trigger] txs[i]).digest@,
    decreases txs.len(),
{
    if txs.len() > 0 {
        let init = txs.drop_last();
        lemma_flat_balance_rows_origin(init);
        let last = txs.last();
        let tail = last.changes@.map_values(|c: DerivedBalanceChange| (last.digest@, c.coin_type@, c.amount));
        let flat = flat_balance_rows(txs);
        assert(flat == flat_balance_rows(init) + tail);
        assert forall|k: int| 0 <= k < flat.len() implies exists|i: int|
            0 <= i < txs.len() && (#[trigger] flat[k]).0 == (#[trigger] txs[i]).digest@ by {
            if k < flat_balance_rows(init).len() {
                let i = choose|i: int| 0 <= i < init.len() && (#[trigger] flat_balance_rows(init)[k]).0
                    == (#[trigger] init[i]).digest@;
                assert(txs[i] == init[i]);
            } else {
                let j = k - flat_balance_rows(init).len();
                assert(flat[k] == tail[j]);
                assert(txs[txs.len() - 1] == last);
            }
        }
    }
}

/// Total number of balance changes of `txs`.
pub open spec fn total_changes(txs: Seq<TransactionBalanceChanges>) -> nat
    decreases txs.len(),
{
    if txs.len() == 0 {
        0
    } else {
        total_changes(txs.drop_last()) + txs.last().changes@.len()
    }
}

/// The changes of the first transactions never outnumber those of more of
/// them.
proof fn lemma_total_changes_prefix(txs: Seq<TransactionBalanceChanges>, i: int)
    requires
        0 <= i <= txs.len(),
    ensures
        total_changes(txs.take(i)) <= total_changes(txs),
        i < txs.len() ==> total_changes(txs.take(i)) + txs[i].changes@.len() <= total_changes(txs),
    decreases txs.len(),
{
    if i == txs.len() {
        assert(txs.take(i) =~= txs);
    } else {
        let init = txs.drop_last();
        assert(init.take(i) =~= txs.take(i));
        if i < init.len() {
            lemma_total_changes_prefix(init, i);
            assert(init[i] == txs[i]);
        } else {
            assert(txs.take(i) =~= init);
        }
    }
}

/// A sampled checkpoint gives one row per derived balance change, in
/// order: there are as many rows as changes over all its transactions,
/// and change `j` of transaction `i` is the row right after the changes
/// of the transactions before `i`, tagged with transaction `i`'s digest
/// and carrying its coin type and amount unchanged.
pub proof fn lemma_balance_rows_one_per_change(txs: Seq<TransactionBalanceChanges>)
    ensures
        flat_balance_rows(txs).len() == total_changes(txs),
        forall|i: int, j: int|
            #![trigger txs[i].changes@[j]]
            0 <= i < txs.len() && 0 <= j < txs[i].changes@.len() ==> flat_balance_rows(txs)[total_changes(
                txs.take(i),
            ) + j] == (txs[i].digest@, txs[i].changes@[j].coin_type@, txs[i].changes@[j].amount),
    decreases txs.len(),
{
    if txs.len() > 0 {
        let n = txs.len() - 1;
        let init = txs.drop_last();
        lemma_balance_rows_one_per_change(init);
        let last = txs.last();
        let tail = last.changes@.map_values(|c: DerivedBalanceChange| (last.digest@, c.coin_type@, c.amount));
        let flat = flat_balance_rows(txs);
        assert(flat == flat_balance_rows(init) + tail);
        assert(txs.take(n) =~= init);
        assert forall|i: int, j: int|
            #![trigger txs[i].changes@[j]]
            0 <= i < txs.len() && 0 <= j < txs[i].changes@.len() implies flat[total_changes(txs.take(i)) + j] == (
                txs[i].digest@,
                txs[i].changes@[j].coin_type@,
                txs[i].changes@[j].amount,
            ) by {
            if i < n {
                assert(init[i] == txs[i]);
                assert(init.take(i) =~= txs.take(i));
                lemma_total_changes_prefix(init, i);
                assert(init[i].changes@[j] == txs[i].changes@[j]);
                assert(flat[total_changes(txs.take(i)) + j] == flat_balance_rows(init)[total_changes(init.take(i)) + j]);
            } else {
                assert(txs[i] == last);
                assert(flat[total_changes(txs.take(i)) + j] == tail[j]);
            }
        }
    }
}

/// An amount fits the 64-bit column exactly when narrowing it to 64 bits
/// and widening it back gives the same amount, so a row that is written
/// never holds a different amount.
pub proof fn lemma_fits_i64_is_lossless(a: i128)
    ensures
        fits_i64(a) <==> ((a as i64) as i128 == a),
{
    assert(((-9223372036854775808i128 <= a && a <= 9223372036854775807i128) <==> ((a as i64) as i128 == a)))
        by (bit_vector);
}

/// Gathering one value adds exactly its balance changes, and nothing is
/// added for no values.
pub proof fn lemma_flat_batches_single(v: IndexerBatch)
    ensures
        flat_batches(Seq::empty()) == Seq::<IndexedBalanceChange>::empty(),
        flat_batches(seq![v]) == v.balance_changes@,
{
    let one = seq![v];
    assert(one.drop_last() =~= Seq::<IndexerBatch>::empty());
    assert(one.last() == v);
    assert(flat_batches(one) == flat_batches(one.drop_last()) + one.last().balance_changes@);
    assert(Seq::<IndexedBalanceChange>::empty() + v.balance_changes@ =~= v.balance_changes@);
}

} // verus!
