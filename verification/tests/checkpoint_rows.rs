use sui_checkpoint_indexer::chain::{
    CallArg, CheckpointData, CheckpointTransaction, Command, EffectsObjectChange, ExecutionStatus,
    GasCostSummary, IDOperation, ObjectArg, ProgrammableTransaction, SharedObjectMutability,
    TransactionKind,
};
use sui_checkpoint_indexer::checkpoint::{
    classify_change, classify_kind, gas_fits_check, gas_used, tally_commands, tally_inputs,
    within_limits_check, CheckpointHandler,
};
use sui_checkpoint_indexer::models::{ChangeType, Status, TxKind};

fn gas(c: u64, s: u64, r: u64) -> GasCostSummary {
    GasCostSummary { computation_cost: c, storage_cost: s, storage_rebate: r }
}

fn change(id: u8, op: IDOperation, iv: Option<u64>, ov: Option<u64>) -> EffectsObjectChange {
    EffectsObjectChange {
        id: vec![id; 4],
        id_operation: op,
        input_version: iv,
        input_digest: iv.map(|v| vec![v as u8; 2]),
        output_version: ov,
        output_digest: ov.map(|v| vec![v as u8; 3]),
    }
}

fn user_tx() -> CheckpointTransaction {
    CheckpointTransaction {
        digest: vec![0xaa, 0xbb],
        kind: TransactionKind::ProgrammableTransaction(ProgrammableTransaction {
            inputs: vec![
                CallArg::Pure,
                CallArg::Pure,
                CallArg::Object(ObjectArg::ImmOrOwnedObject),
                CallArg::Object(ObjectArg::Receiving),
                CallArg::Object(ObjectArg::SharedObject { mutability: SharedObjectMutability::Mutable }),
                CallArg::Object(ObjectArg::SharedObject { mutability: SharedObjectMutability::NonExclusiveWrite }),
                CallArg::Object(ObjectArg::SharedObject { mutability: SharedObjectMutability::Immutable }),
                CallArg::FundsWithdrawal,
            ],
            commands: vec![
                Command::MoveCall,
                Command::MoveCall,
                Command::SplitCoins,
                Command::TransferObjects,
                Command::Upgrade,
            ],
        }),
        gas_price: 750,
        status: ExecutionStatus::Failure { error: "InsufficientGas".to_string() },
        gas_cost: gas(1_000_000, 2_000_000, 500_000),
        object_changes: vec![
            change(1, IDOperation::Created, None, Some(7)),
            change(2, IDOperation::Unchanged, Some(5), Some(7)),
        ],
    }
}

fn system_tx() -> CheckpointTransaction {
    CheckpointTransaction {
        digest: vec![0x01],
        kind: TransactionKind::ConsensusCommitPrologueV3,
        gas_price: 1,
        status: ExecutionStatus::Success,
        gas_cost: gas(0, 0, 0),
        object_changes: vec![change(3, IDOperation::Deleted, Some(9), None)],
    }
}

fn checkpoint(seq: u64) -> CheckpointData {
    CheckpointData {
        sequence_number: seq,
        digest: vec![9, 8, 7],
        timestamp_ms: 1_700_000_000_123,
        epoch: 950,
        transactions: vec![system_tx(), user_tx()],
    }
}

#[test]
fn unsampled_checkpoint_yields_nothing() {
    let handler = CheckpointHandler { start_checkpoint: 0, end_checkpoint: 0 };
    assert!(handler.process(&checkpoint(3456)).is_empty());
    let bounded = CheckpointHandler { start_checkpoint: 10_000, end_checkpoint: 20_000 };
    assert!(bounded.process(&checkpoint(6910)).is_empty());
    assert!(bounded.process(&checkpoint(24185)).is_empty());
}

#[test]
fn sampled_checkpoint_becomes_one_batch() {
    let handler = CheckpointHandler { start_checkpoint: 0, end_checkpoint: 0 };
    let cp = checkpoint(6910);
    let out = handler.process(&cp);
    assert_eq!(out.len(), 1);
    let b = &out[0];

    assert_eq!(b.checkpoints.len(), 1);
    let c = &b.checkpoints[0];
    assert_eq!(c.sequence_number, 6910);
    assert_eq!(c.digest, vec![9, 8, 7]);
    assert_eq!(c.timestamp_ms, 1_700_000_000_123);
    assert_eq!(c.epoch_id, 950);
    assert_eq!(c.system_tx_count, 1);
    assert_eq!(c.user_tx_count, 1);

    assert_eq!(b.transactions.len(), 2);
    let sys = &b.transactions[0];
    assert_eq!(sys.transaction_digest, vec![0x01]);
    assert_eq!(sys.kind, TxKind::ConsensusCommitPrologueTransactionV3);
    assert_eq!(sys.checkpoint_sequence, 6910);
    assert_eq!(sys.status, Status::Success);
    assert_eq!(sys.error, None);
    assert_eq!(sys.inputs_pure, 0);
    assert_eq!(sys.command_move_call, 0);
    assert_eq!(sys.gas_used, 0);
    assert_eq!(sys.gas_price, 1);

    let user = &b.transactions[1];
    assert_eq!(user.transaction_digest, vec![0xaa, 0xbb]);
    assert_eq!(user.kind, TxKind::ProgrammableTransaction);
    assert_eq!(user.status, Status::Failure);
    assert_eq!(user.error, Some(b"InsufficientGas".to_vec()));
    assert_eq!(user.inputs_imm_or_owned, 1);
    assert_eq!(user.inputs_pure, 2);
    assert_eq!(user.inputs_receiving, 1);
    assert_eq!(user.inputs_shared_mut, 2);
    assert_eq!(user.inputs_shared_ro, 1);
    assert_eq!(user.inputs_funds_withdrawal, 1);
    assert_eq!(user.command_move_call, 2);
    assert_eq!(user.command_transfer_objects, 1);
    assert_eq!(user.command_split_coins, 1);
    assert_eq!(user.command_merge_coins, 0);
    assert_eq!(user.command_publish, 0);
    assert_eq!(user.command_make_move_vec, 0);
    assert_eq!(user.command_upgrade, 1);
    assert_eq!(user.sui_transferred, 0);
    assert_eq!(user.gas_used, 2_500_000);
    assert_eq!(user.gas_price, 750);

    assert_eq!(b.object_changes.len(), 3);
    let o0 = &b.object_changes[0];
    assert_eq!(o0.transaction_digest, vec![0x01]);
    assert_eq!(o0.address, vec![3; 4]);
    assert_eq!(o0.change_type, ChangeType::Deleted);
    assert_eq!(o0.input_version, 9);
    assert_eq!(o0.input_digest, vec![9; 2]);
    assert_eq!(o0.output_version, 0);
    assert!(o0.output_digest.is_empty());
    let o1 = &b.object_changes[1];
    assert_eq!(o1.transaction_digest, vec![0xaa, 0xbb]);
    assert_eq!(o1.change_type, ChangeType::Created);
    assert_eq!(o1.input_version, 0);
    assert!(o1.input_digest.is_empty());
    assert_eq!(o1.output_version, 7);
    assert_eq!(o1.output_digest, vec![7; 3]);
    let o2 = &b.object_changes[2];
    assert_eq!(o2.change_type, ChangeType::Mutated);
    assert_eq!(o2.address, vec![2; 4]);
}

#[test]
fn wide_numbers_are_narrowed_to_32_bits() {
    let handler = CheckpointHandler { start_checkpoint: 0, end_checkpoint: 0 };
    let seq = 3455u64 * 1_300_000; // beyond i32::MAX
    let mut cp = checkpoint(seq);
    cp.epoch = (1u64 << 32) + 17;
    cp.transactions[1].gas_price = (1u64 << 32) + 5;
    let out = handler.process(&cp);
    assert_eq!(out[0].checkpoints[0].sequence_number, seq as i32);
    assert_eq!(out[0].checkpoints[0].epoch_id, 17);
    assert_eq!(out[0].transactions[0].checkpoint_sequence, seq as i32);
    assert_eq!(out[0].transactions[1].gas_price, 5);
}

#[test]
fn change_types_follow_the_table() {
    let cases = [
        (IDOperation::Created, None, None, ChangeType::Created),
        (IDOperation::Created, Some(1), Some(2), ChangeType::Created),
        (IDOperation::Deleted, None, None, ChangeType::UnwrappedThenDeleted),
        (IDOperation::Deleted, Some(1), None, ChangeType::Deleted),
        (IDOperation::Deleted, None, Some(2), ChangeType::Deleted),
        (IDOperation::Unchanged, Some(1), Some(2), ChangeType::Mutated),
        (IDOperation::Unchanged, None, Some(2), ChangeType::Unwrapped),
        (IDOperation::Unchanged, Some(1), None, ChangeType::Wrapped),
        (IDOperation::Unchanged, None, None, ChangeType::Unknown),
    ];
    for (op, iv, ov, expected) in cases.iter() {
        assert_eq!(classify_change(&change(0, *op, *iv, *ov)), *expected);
    }
}

#[test]
fn kinds_map_one_to_one() {
    assert_eq!(classify_kind(&TransactionKind::Genesis), TxKind::GenesisTransaction);
    assert_eq!(classify_kind(&TransactionKind::ChangeEpoch), TxKind::ChangeEpochTransaction);
    assert_eq!(
        classify_kind(&TransactionKind::ProgrammableSystemTransaction),
        TxKind::ProgrammableSystemTransaction
    );
    assert_eq!(classify_kind(&TransactionKind::EndOfEpochTransaction), TxKind::EndOfEpochTransaction);
    assert!(TransactionKind::ProgrammableSystemTransaction.is_system_tx());
    assert!(TransactionKind::Genesis.is_system_tx());
    assert!(!TransactionKind::ProgrammableTransaction(ProgrammableTransaction {
        inputs: vec![],
        commands: vec![],
    })
    .is_system_tx());
}

#[test]
fn gas_used_is_cost_less_rebate() {
    assert_eq!(gas_used(&gas(1000, 500, 300)), 1200);
    assert_eq!(gas_used(&gas(0, 0, 300)), -300);
    // the sum is narrowed to 32 bits before the rebate is taken off
    assert_eq!(gas_used(&gas((1u64 << 32) + 5, 0, 0)), 5);
}

#[test]
fn gas_overflow_is_detected() {
    assert!(gas_fits_check(&gas(1000, 500, 300)));
    assert!(!gas_fits_check(&gas(u64::MAX, 1, 0)));
    // 0x7fffffff - (-1) overflows a 32-bit difference
    assert!(!gas_fits_check(&gas(0x7fff_ffff, 0, 0xffff_ffff)));
    let mut cp = checkpoint(3455);
    assert!(within_limits_check(&cp));
    cp.transactions[1].gas_cost = gas(u64::MAX, 1, 0);
    assert!(!within_limits_check(&cp));
}

#[test]
fn input_and_command_tallies() {
    let inputs = vec![CallArg::Pure; 40_000];
    let counts = tally_inputs(&vec![CallArg::Pure, CallArg::FundsWithdrawal]);
    assert_eq!(counts.pure_values, 1);
    assert_eq!(counts.funds_withdrawal, 1);
    assert_eq!(counts.imm_or_owned, 0);
    let cmds = tally_commands(&vec![Command::Publish, Command::MergeCoins, Command::MakeMoveVec, Command::MakeMoveVec]);
    assert_eq!(cmds.publish, 1);
    assert_eq!(cmds.merge_coins, 1);
    assert_eq!(cmds.make_move_vec, 2);
    assert_eq!(cmds.move_call, 0);
    let mut cp = checkpoint(3455);
    cp.transactions[1].kind = TransactionKind::ProgrammableTransaction(ProgrammableTransaction {
        inputs,
        commands: vec![],
    });
    assert!(!within_limits_check(&cp));
}
