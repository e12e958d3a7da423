use sui_checkpoint_indexer::chunks::chunk_ranges;
use sui_checkpoint_indexer::commit::{commit_plan, CommitStep, Table};
use sui_checkpoint_indexer::models::{ChangeType, IndexerBatch, ObjectChange, StoredCheckpoint};

fn stored_checkpoint(seq: i32) -> StoredCheckpoint {
    StoredCheckpoint {
        sequence_number: seq,
        digest: vec![],
        timestamp_ms: 0,
        epoch_id: 0,
        user_tx_count: 0,
        system_tx_count: 0,
    }
}

fn object_change() -> ObjectChange {
    ObjectChange {
        address: vec![],
        transaction_digest: vec![],
        change_type: ChangeType::Created,
        input_version: 0,
        input_digest: vec![],
        output_version: 0,
        output_digest: vec![],
    }
}

#[test]
fn chunk_ranges_tile_the_rows() {
    assert!(chunk_ranges(0, 200).is_empty());
    assert_eq!(chunk_ranges(1, 200), vec![(0, 1)]);
    assert_eq!(chunk_ranges(200, 200), vec![(0, 200)]);
    assert_eq!(chunk_ranges(450, 200), vec![(0, 200), (200, 400), (400, 450)]);
    for len in 0..50usize {
        for size in 1..7usize {
            let expected: Vec<(usize, usize)> = (0..len)
                .collect::<Vec<_>>()
                .chunks(size)
                .map(|c| (c[0], c[c.len() - 1] + 1))
                .collect();
            assert_eq!(chunk_ranges(len, size), expected);
        }
    }
}

#[test]
fn plan_inserts_in_chunks_then_moves_the_watermark() {
    let batch = IndexerBatch {
        checkpoints: vec![stored_checkpoint(3455), stored_checkpoint(6910)],
        transactions: vec![],
        object_changes: vec![object_change(); 3001],
    };
    let plan = commit_plan(&vec![batch]);
    assert_eq!(
        plan,
        vec![
            CommitStep::Insert { table: Table::Checkpoints, batch: 0, start: 0, end: 2 },
            CommitStep::Insert { table: Table::ObjectChanges, batch: 0, start: 0, end: 3000 },
            CommitStep::Insert { table: Table::ObjectChanges, batch: 0, start: 3000, end: 3001 },
            CommitStep::AdvanceWatermark { checkpoint_hi_inclusive: 6910 },
        ]
    );
}

#[test]
fn plan_without_checkpoints_keeps_the_watermark() {
    let empty = IndexerBatch { checkpoints: vec![], transactions: vec![], object_changes: vec![] };
    assert!(commit_plan(&vec![empty.clone(), empty]).is_empty());
    assert!(commit_plan(&vec![]).is_empty());
}

#[test]
fn plan_covers_batches_in_order() {
    let a = IndexerBatch {
        checkpoints: vec![stored_checkpoint(-5); 201],
        transactions: vec![],
        object_changes: vec![],
    };
    let b = IndexerBatch { checkpoints: vec![stored_checkpoint(7)], transactions: vec![], object_changes: vec![] };
    let plan = commit_plan(&vec![a, b]);
    assert_eq!(
        plan,
        vec![
            CommitStep::Insert { table: Table::Checkpoints, batch: 0, start: 0, end: 200 },
            CommitStep::Insert { table: Table::Checkpoints, batch: 0, start: 200, end: 201 },
            CommitStep::AdvanceWatermark { checkpoint_hi_inclusive: -5 },
            CommitStep::Insert { table: Table::Checkpoints, batch: 1, start: 0, end: 1 },
            CommitStep::AdvanceWatermark { checkpoint_hi_inclusive: 7 },
        ]
    );
}
