use sui_checkpoint_indexer::balance::{
    BalanceCheckpoint, BatchStatus, CheckpointHandler, CommitError, DerivedBalanceChange,
    IndexedBalanceChange, IndexerBatch, TransactionBalanceChanges, BALANCE_CHUNK,
};

fn derived(coin: &str, amount: i128) -> DerivedBalanceChange {
    DerivedBalanceChange { coin_type: coin.to_string(), amount }
}

fn balance_checkpoint(seq: u64) -> BalanceCheckpoint {
    BalanceCheckpoint {
        sequence_number: seq,
        transactions: vec![
            TransactionBalanceChanges {
                digest: vec![1],
                changes: vec![derived("0x2::sui::SUI", -100), derived("0xabc::usdc::USDC", 42)],
            },
            TransactionBalanceChanges { digest: vec![2], changes: vec![] },
            TransactionBalanceChanges { digest: vec![3], changes: vec![derived("0x2::sui::SUI", 7)] },
        ],
    }
}

fn indexed(digest: u8, coin: &str, amount: i128) -> IndexedBalanceChange {
    IndexedBalanceChange { tx_digest: vec![digest], coin_type: coin.to_string(), amount }
}

#[test]
fn unsampled_checkpoint_has_no_balance_rows() {
    let handler = CheckpointHandler { start_checkpoint: 0, end_checkpoint: 0 };
    assert!(handler.process_inner(&balance_checkpoint(3454)).is_empty());
    let bounded = CheckpointHandler { start_checkpoint: 0, end_checkpoint: 3454 };
    assert!(bounded.process_inner(&balance_checkpoint(3455)).is_empty());
}

#[test]
fn sampled_checkpoint_flattens_balance_changes() {
    let handler = CheckpointHandler { start_checkpoint: 0, end_checkpoint: u64::MAX };
    let out = handler.process_inner(&balance_checkpoint(6910));
    assert_eq!(out.len(), 1);
    assert_eq!(out[0].checkpoint_sequence_number, 6910);
    let rows = &out[0].balance_changes;
    assert_eq!(rows.len(), 3);
    assert_eq!(rows[0].tx_digest, vec![1]);
    assert_eq!(rows[0].coin_type, "0x2::sui::SUI");
    assert_eq!(rows[0].amount, -100);
    assert_eq!(rows[1].coin_type, "0xabc::usdc::USDC");
    assert_eq!(rows[1].amount, 42);
    assert_eq!(rows[2].tx_digest, vec![3]);
    assert_eq!(rows[2].amount, 7);
}

#[test]
fn timed_out_processing_skips_the_checkpoint() {
    let handler = CheckpointHandler { start_checkpoint: 0, end_checkpoint: 0 };
    assert!(handler.finish_process(None).is_empty());
    let done = handler.process_inner(&balance_checkpoint(0));
    let kept = handler.finish_process(Some(done));
    assert_eq!(kept.len(), 1);
    assert_eq!(kept[0].balance_changes.len(), 3);
}

#[test]
fn batch_appends_every_value_in_order() {
    let handler = CheckpointHandler { start_checkpoint: 0, end_checkpoint: 0 };
    let mut pending = vec![indexed(0, "a", 1)];
    let values = vec![
        IndexerBatch { checkpoint_sequence_number: 0, balance_changes: vec![indexed(1, "b", 2), indexed(1, "c", 3)] },
        IndexerBatch { checkpoint_sequence_number: 3455, balance_changes: vec![] },
        IndexerBatch { checkpoint_sequence_number: 6910, balance_changes: vec![indexed(2, "d", 4)] },
    ];
    assert_eq!(handler.batch(&mut pending, values), BatchStatus::Pending);
    let coins: Vec<&str> = pending.iter().map(|r| r.coin_type.as_str()).collect();
    assert_eq!(coins, vec!["a", "b", "c", "d"]);
    let amounts: Vec<i128> = pending.iter().map(|r| r.amount).collect();
    assert_eq!(amounts, vec![1, 2, 3, 4]);
}

#[test]
fn commit_rows_narrow_amounts() {
    let handler = CheckpointHandler { start_checkpoint: 0, end_checkpoint: 0 };
    let batch = vec![indexed(1, "x", i64::MIN as i128), indexed(2, "y", i64::MAX as i128), indexed(3, "z", 0)];
    let rows = match handler.commit_rows(&batch) {
        Ok(rows) => rows,
        Err(_) => panic!("amounts fit"),
    };
    assert_eq!(rows.len(), 3);
    assert_eq!(rows[0].amount, i64::MIN);
    assert_eq!(rows[1].amount, i64::MAX);
    assert_eq!(rows[1].tx_digest, vec![2]);
    assert_eq!(rows[2].coin_type, "z");
    assert_eq!(BALANCE_CHUNK, 1000);
    match handler.commit_rows(&vec![]) {
        Ok(rows) => assert!(rows.is_empty()),
        Err(_) => panic!("empty batch commits"),
    }
}

#[test]
fn commit_rows_refuse_the_first_wide_amount() {
    let handler = CheckpointHandler { start_checkpoint: 0, end_checkpoint: 0 };
    let batch = vec![
        indexed(1, "ok", 5),
        indexed(2, "too_big", i64::MAX as i128 + 1),
        indexed(3, "too_small", i64::MIN as i128 - 1),
    ];
    match handler.commit_rows(&batch) {
        Err(CommitError::AmountOverflow { coin_type, amount }) => {
            assert_eq!(coin_type, "too_big");
            assert_eq!(amount, i64::MAX as i128 + 1);
        },
        Ok(_) => panic!("overflow must be refused"),
    }
}

#[test]
fn batch_in_two_calls_equals_batch_in_one() {
    let handler = CheckpointHandler { start_checkpoint: 0, end_checkpoint: 0 };
    let make = || {
        vec![
            IndexerBatch { checkpoint_sequence_number: 0, balance_changes: vec![indexed(1, "b", 2)] },
            IndexerBatch { checkpoint_sequence_number: 3455, balance_changes: vec![indexed(2, "c", 3), indexed(2, "d", 4)] },
        ]
    };
    let mut once = Vec::new();
    let mut all = make();
    all.extend(make());
    handler.batch(&mut once, all);
    let mut twice = Vec::new();
    handler.batch(&mut twice, make());
    handler.batch(&mut twice, make());
    let a: Vec<(Vec<u8>, String, i128)> = once.into_iter().map(|r| (r.tx_digest, r.coin_type, r.amount)).collect();
    let b: Vec<(Vec<u8>, String, i128)> = twice.into_iter().map(|r| (r.tx_digest, r.coin_type, r.amount)).collect();
    assert_eq!(a, b);
    assert_eq!(a.len(), 6);
}
