use vstd::prelude::*;
use vstd::slice::slice_to_vec;
use vstd::utf8::encode_utf8;

use crate::chain::{
    CallArg, CheckpointData, CheckpointTransaction, Command, EffectsObjectChange,
    ExecutionStatus, GasCostSummary, IDOperation, ObjectArg,
    SharedObjectMutability, TransactionKind,
};
use crate::counting::{
    count_where, lemma_count_where_bounds, lemma_count_where_complement, lemma_count_where_pointwise,
    lemma_count_where_step,
};
use crate::models::{ChangeType, IndexerBatch, ObjectChange, Status, StoredCheckpoint, StoredTransaction, TxKind};
use crate::sampling::{is_sampled, sampled};

verus! {

/// The stored kind that stands for an on-chain transaction kind.
pub open spec fn tx_kind_of(kind: TransactionKind) -> TxKind {
    match kind {
        TransactionKind::ProgrammableTransaction(_) => TxKind::ProgrammableTransaction,
        TransactionKind::Genesis => TxKind::GenesisTransaction,
        TransactionKind::ConsensusCommitPrologue => TxKind::ConsensusCommitPrologueTransaction,
        TransactionKind::ConsensusCommitPrologueV2 => TxKind::ConsensusCommitPrologueTransactionV2,
        TransactionKind::ConsensusCommitPrologueV3 => TxKind::ConsensusCommitPrologueTransactionV3,
        TransactionKind::ConsensusCommitPrologueV4 => TxKind::ConsensusCommitPrologueTransactionV4,
        TransactionKind::ChangeEpoch => TxKind::ChangeEpochTransaction,
        TransactionKind::RandomnessStateUpdate => TxKind::RandomnessStateUpdateTransaction,
        TransactionKind::AuthenticatorStateUpdate => TxKind::AuthenticatorStateUpdateTransaction,
        TransactionKind::EndOfEpochTransaction => TxKind::EndOfEpochTransaction,
        TransactionKind::ProgrammableSystemTransaction => TxKind::ProgrammableSystemTransaction,
    }
}

/// Maps an on-chain transaction kind to its stored kind.
pub fn classify_kind(kind: &TransactionKind) -> (k: TxKind)
    ensures
        k == tx_kind_of(*kind),
{
    match kind {
        TransactionKind::ProgrammableTransaction(_) => TxKind::ProgrammableTransaction,
        TransactionKind::Genesis => TxKind::GenesisTransaction,
        TransactionKind::ConsensusCommitPrologue => TxKind::ConsensusCommitPrologueTransaction,
        TransactionKind::ConsensusCommitPrologueV2 => TxKind::ConsensusCommitPrologueTransactionV2,
        TransactionKind::ConsensusCommitPrologueV3 => TxKind::ConsensusCommitPrologueTransactionV3,
        TransactionKind::ConsensusCommitPrologueV4 => TxKind::ConsensusCommitPrologueTransactionV4,
        TransactionKind::ChangeEpoch => TxKind::ChangeEpochTransaction,
        TransactionKind::RandomnessStateUpdate => TxKind::RandomnessStateUpdateTransaction,
        TransactionKind::AuthenticatorStateUpdate => TxKind::AuthenticatorStateUpdateTransaction,
        TransactionKind::EndOfEpochTransaction => TxKind::EndOfEpochTransaction,
        TransactionKind::ProgrammableSystemTransaction => TxKind::ProgrammableSystemTransaction,
    }
}

/// Net gas of a transaction: computation plus storage cost, less the
/// storage rebate, each narrowed to 32 bits as the `gas_used` column is.
pub open spec fn spec_gas_used(g: GasCostSummary) -> int {
    ((g.computation_cost + g.storage_cost) as i32) - (g.storage_rebate as i32)
}

/// The net gas can be computed without overflow: the two costs add up
/// within 64 bits and the 32-bit difference stays within 32 bits.
pub open spec fn gas_fits(g: GasCostSummary) -> bool {
    &&& g.computation_cost + g.storage_cost <= u64::MAX
    &&& i32::MIN <= spec_gas_used(g) <= i32::MAX
}

/// Computes the net gas stored for a transaction.
pub fn gas_used(g: &GasCostSummary) -> (r: i32)
    requires
        gas_fits(*g),
    ensures
        r == spec_gas_used(*g),
{
    let total: u64 = g.computation_cost + g.storage_cost;
    total as i32 - g.storage_rebate as i32
}

/// Whether an input counts as a mutable use of a shared object. A
/// non-exclusive write counts as mutable.
pub open spec fn is_shared_mut(a: CallArg) -> bool {
    match a {
        CallArg::Object(ObjectArg::SharedObject { mutability }) => !(mutability is Immutable),
        _ => false,
    }
}

/// Whether an input is a read-only use of a shared object.
pub open spec fn is_shared_ro(a: CallArg) -> bool {
    a == CallArg::Object(ObjectArg::SharedObject { mutability: SharedObjectMutability::Immutable })
}

/// Number of owned or immutable object inputs.
pub open spec fn count_imm_or_owned(s: Seq<CallArg>) -> nat {
    count_where(s, |a: CallArg| a == CallArg::Object(ObjectArg::ImmOrOwnedObject))
}

/// Number of pure-value inputs.
pub open spec fn count_pure(s: Seq<CallArg>) -> nat {
    count_where(s, |a: CallArg| a == CallArg::Pure)
}

/// Number of receiving-object inputs.
pub open spec fn count_receiving(s: Seq<CallArg>) -> nat {
    count_where(s, |a: CallArg| a == CallArg::Object(ObjectArg::Receiving))
}

/// Number of mutable shared-object inputs.
pub open spec fn count_shared_mut(s: Seq<CallArg>) -> nat {
    count_where(s, |a: CallArg| is_shared_mut(a))
}

/// Number of read-only shared-object inputs.
pub open spec fn count_shared_ro(s: Seq<CallArg>) -> nat {
    count_where(s, |a: CallArg| is_shared_ro(a))
}

/// Number of funds-withdrawal inputs.
pub open spec fn count_funds_withdrawal(s: Seq<CallArg>) -> nat {
    count_where(s, |a: CallArg| a == CallArg::FundsWithdrawal)
}

/// Number of commands equal to `c`.
pub open spec fn count_command(s: Seq<Command>, c: Command) -> nat {
    count_where(s, |x: Command| x == c)
}

/// How many inputs of each class a programmable transaction has.
pub struct InputCounts {
    pub imm_or_owned: i16,
    pub pure_values: i16,
    pub receiving: i16,
    pub shared_mut: i16,
    pub shared_ro: i16,
    pub funds_withdrawal: i16,
}

/// Every input class occurs at most `i16::MAX` times, as the 16-bit
/// columns require.
pub open spec fn inputs_fit(s: Seq<CallArg>) -> bool {
    &&& count_imm_or_owned(s) <= i16::MAX
    &&& count_pure(s) <= i16::MAX
    &&& count_receiving(s) <= i16::MAX
    &&& count_shared_mut(s) <= i16::MAX
    &&& count_shared_ro(s) <= i16::MAX
    &&& count_funds_withdrawal(s) <= i16::MAX
}

/// The counts are those of the inputs `s`.
pub open spec fn input_counts_match(c: InputCounts, s: Seq<CallArg>) -> bool {
    &&& c.imm_or_owned == count_imm_or_owned(s)
    &&& c.pure_values == count_pure(s)
    &&& c.receiving == count_receiving(s)
    &&& c.shared_mut == count_shared_mut(s)
    &&& c.shared_ro == count_shared_ro(s)
    &&& c.funds_withdrawal == count_funds_withdrawal(s)
}

/// Counts the inputs of a programmable transaction by class.
pub fn tally_inputs(inputs: &Vec<CallArg>) -> (c: InputCounts)
    requires
        inputs_fit(inputs@),
    ensures
        input_counts_match(c, inputs@),
{
    let mut c = InputCounts {
        imm_or_owned: 0,
        pure_values: 0,
        receiving: 0,
        shared_mut: 0,
        shared_ro: 0,
        funds_withdrawal: 0,
    };
    let mut i: usize = 0;
    assert(inputs@.take(0) =~= Seq::<CallArg>::empty());
    while i < inputs.len()
        invariant
            i <= inputs.len(),
            inputs_fit(inputs@),
            input_counts_match(c, inputs@.take(i as int)),
        decreases inputs.len() - i,
    {
        proof {
            let s = inputs@;
            let ii = i as int;
            lemma_count_where_step(s, |a: CallArg| a == CallArg::Object(ObjectArg::ImmOrOwnedObject), ii);
            lemma_count_where_step(s, |a: CallArg| a == CallArg::Pure, ii);
            lemma_count_where_step(s, |a: CallArg| a == CallArg::Object(ObjectArg::Receiving), ii);
            lemma_count_where_step(s, |a: CallArg| is_shared_mut(a), ii);
            lemma_count_where_step(s, |a: CallArg| is_shared_ro(a), ii);
            lemma_count_where_step(s, |a: CallArg| a == CallArg::FundsWithdrawal, ii);
            lemma_count_where_bounds(s, |a: CallArg| a == CallArg::Object(ObjectArg::ImmOrOwnedObject), ii + 1);
            lemma_count_where_bounds(s, |a: CallArg| a == CallArg::Pure, ii + 1);
            lemma_count_where_bounds(s, |a: CallArg| a == CallArg::Object(ObjectArg::Receiving), ii + 1);
            lemma_count_where_bounds(s, |a: CallArg| is_shared_mut(a), ii + 1);
            lemma_count_where_bounds(s, |a: CallArg| is_shared_ro(a), ii + 1);
            lemma_count_where_bounds(s, |a: CallArg| a == CallArg::FundsWithdrawal, ii + 1);
        }
        match &inputs[i] {
            CallArg::Pure => {
                c.pure_values = c.pure_values + 1;
            },
            CallArg::Object(obj) => {
                match obj {
                    ObjectArg::ImmOrOwnedObject => {
                        c.imm_or_owned = c.imm_or_owned + 1;
                    },
                    ObjectArg::Receiving => {
                        c.receiving = c.receiving + 1;
                    },
                    ObjectArg::SharedObject { mutability } => {
                        match mutability {
                            SharedObjectMutability::Mutable => {
                                c.shared_mut = c.shared_mut + 1;
                            },
                            SharedObjectMutability::Immutable => {
                                c.shared_ro = c.shared_ro + 1;
                            },
                            SharedObjectMutability::NonExclusiveWrite => {
                                c.shared_mut = c.shared_mut + 1;
                            },
                        }
                    },
                }
            },
            CallArg::FundsWithdrawal => {
                c.funds_withdrawal = c.funds_withdrawal + 1;
            },
        }
        i = i + 1;
    }
    assert(inputs@.take(inputs.len() as int) =~= inputs@);
    c
}

/// How many commands of each kind a programmable transaction has.
pub struct CommandCounts {
    pub move_call: i16,
    pub transfer_objects: i16,
    pub split_coins: i16,
    pub merge_coins: i16,
    pub publish: i16,
    pub make_move_vec: i16,
    pub upgrade: i16,
}

/// Every command kind occurs at most `i16::MAX` times.
pub open spec fn commands_fit(s: Seq<Command>) -> bool {
    &&& count_command(s, Command::MoveCall) <= i16::MAX
    &&& count_command(s, Command::TransferObjects) <= i16::MAX
    &&& count_command(s, Command::SplitCoins) <= i16::MAX
    &&& count_command(s, Command::MergeCoins) <= i16::MAX
    &&& count_command(s, Command::Publish) <= i16::MAX
    &&& count_command(s, Command::MakeMoveVec) <= i16::MAX
    &&& count_command(s, Command::Upgrade) <= i16::MAX
}

/// The counts are those of the commands `s`.
pub open spec fn command_counts_match(c: CommandCounts, s: Seq<Command>) -> bool {
    &&& c.move_call == count_command(s, Command::MoveCall)
    &&& c.transfer_objects == count_command(s, Command::TransferObjects)
    &&& c.split_coins == count_command(s, Command::SplitCoins)
    &&& c.merge_coins == count_command(s, Command::MergeCoins)
    &&& c.publish == count_command(s, Command::Publish)
    &&& c.make_move_vec == count_command(s, Command::MakeMoveVec)
    &&& c.upgrade == count_command(s, Command::Upgrade)
}

/// Counts the commands of a programmable transaction by kind.
pub fn tally_commands(commands: &Vec<Command>) -> (c: CommandCounts)
    requires
        commands_fit(commands@),
    ensures
        command_counts_match(c, commands@),
{
    let mut c = CommandCounts {
        move_call: 0,
        transfer_objects: 0,
        split_coins: 0,
        merge_coins: 0,
        publish: 0,
        make_move_vec: 0,
        upgrade: 0,
    };
    let mut i: usize = 0;
    assert(commands@.take(0) =~= Seq::<Command>::empty());
    while i < commands.len()
        invariant
            i <= commands.len(),
            commands_fit(commands@),
            command_counts_match(c, commands@.take(i as int)),
        decreases commands.len() - i,
    {
        proof {
            let s = commands@;
            let ii = i as int;
            assert forall|k: Command| count_command(s.take(ii + 1), k) == count_command(s.take(ii), k)
                + if s[ii] == k { 1nat } else { 0nat } && count_command(s.take(ii + 1), k) <= count_command(s, k) by {
                lemma_count_where_step(s, |x: Command| x == k, ii);
                lemma_count_where_bounds(s, |x: Command| x == k, ii + 1);
            }
        }
        match &commands[i] {
            Command::MoveCall => c.move_call = c.move_call + 1,
            Command::TransferObjects => c.transfer_objects = c.transfer_objects + 1,
            Command::SplitCoins => c.split_coins = c.split_coins + 1,
            Command::MergeCoins => c.merge_coins = c.merge_coins + 1,
            Command::Publish => c.publish = c.publish + 1,
            Command::MakeMoveVec => c.make_move_vec = c.make_move_vec + 1,
            Command::Upgrade => c.upgrade = c.upgrade + 1,
        }
        i = i + 1;
    }
    assert(commands@.take(commands.len() as int) =~= commands@);
    c
}

/// How an object change is classified, by its identity operation and by
/// which of its versions are present.
pub open spec fn spec_change_type(op: IDOperation, has_input: bool, has_output: bool) -> ChangeType {
    match (op, has_input, has_output) {
        (IDOperation::Created, _, _) => ChangeType::Created,
        (IDOperation::Deleted, false, false) => ChangeType::UnwrappedThenDeleted,
        (IDOperation::Deleted, _, _) => ChangeType::Deleted,
        (IDOperation::Unchanged, true, true) => ChangeType::Mutated,
        (IDOperation::Unchanged, false, true) => ChangeType::Unwrapped,
        (IDOperation::Unchanged, true, false) => ChangeType::Wrapped,
        (IDOperation::Unchanged, false, false) => ChangeType::Unknown,
    }
}

/// Classifies an object change.
pub fn classify_change(ch: &EffectsObjectChange) -> (t: ChangeType)
    ensures
        t == spec_change_type(ch.id_operation, ch.input_version is Some, ch.output_version is Some),
{
    if ch.id_operation == IDOperation::Created {
        ChangeType::Created
    } else if ch.id_operation == IDOperation::Deleted && ch.input_version.is_none()
        && ch.output_version.is_none() {
        ChangeType::UnwrappedThenDeleted
    } else if ch.id_operation == IDOperation::Deleted {
        ChangeType::Deleted
    } else if ch.input_version.is_some() && ch.output_version.is_some() {
        ChangeType::Mutated
    } else if ch.input_version.is_none() && ch.output_version.is_some() {
        ChangeType::Unwrapped
    } else if ch.input_version.is_some() && ch.output_version.is_none() {
        ChangeType::Wrapped
    } else {
        ChangeType::Unknown
    }
}

/// A created identity is always stored as created, a deleted one always as
/// deleted or unwrapped-then-deleted, and only a change that keeps its
/// identity and has neither version is stored as unknown.
pub proof fn lemma_change_type_follows_identity(op: IDOperation, has_input: bool, has_output: bool)
    ensures
        (spec_change_type(op, has_input, has_output) is Created) <==> (op is Created),
        (spec_change_type(op, has_input, has_output) is Deleted
            || spec_change_type(op, has_input, has_output) is UnwrappedThenDeleted) <==> (op is Deleted),
        (spec_change_type(op, has_input, has_output) is Unknown) <==> (op is Unchanged && !has_input && !has_output),
{
}

/// The stored form of an optional version: narrowed to 32 bits, zero when
/// absent.
pub open spec fn stored_version(v: Option<u64>) -> i32 {
    match v {
        Some(x) => x as i32,
        None => 0,
    }
}

/// The stored form of an optional digest: its bytes, empty when absent.
pub open spec fn stored_digest(d: Option<Vec<u8>>) -> Seq<u8> {
    match d {
        Some(x) => x@,
        None => Seq::empty(),
    }
}

/// The row is the one stored for object change `ch` of the transaction
/// with digest `tx_digest`.
pub open spec fn object_change_row_matches(row: ObjectChange, ch: EffectsObjectChange, tx_digest: Seq<u8>) -> bool {
    &&& row.address@ == ch.id@
    &&& row.transaction_digest@ == tx_digest
    &&& row.change_type == spec_change_type(ch.id_operation, ch.input_version is Some, ch.output_version is Some)
    &&& row.input_version == stored_version(ch.input_version)
    &&& row.input_digest@ == stored_digest(ch.input_digest)
    &&& row.output_version == stored_version(ch.output_version)
    &&& row.output_digest@ == stored_digest(ch.output_digest)
}

/// Copies a byte string.
pub fn copy_bytes(v: &Vec<u8>) -> (r: Vec<u8>)
    ensures
        r@ == v@,
{
    let r = v.clone();
    assert(r@ =~= v@);
    r
}

/// Narrows an optional version to the stored column.
fn version_column(v: Option<u64>) -> (r: i32)
    ensures
        r == stored_version(v),
{
    match v {
        Some(x) => x as i32,
        None => 0,
    }
}

/// Copies an optional digest into the stored column.
fn digest_column(d: &Option<Vec<u8>>) -> (r: Vec<u8>)
    ensures
        r@ == stored_digest(*d),
{
    match d {
        Some(x) => copy_bytes(x),
        None => Vec::new(),
    }
}

/// Builds the row stored for object change `ch` of the transaction whose
/// digest is `tx_digest`.
pub fn object_change_row(ch: &EffectsObjectChange, tx_digest: &Vec<u8>) -> (row: ObjectChange)
    ensures
        object_change_row_matches(row, *ch, tx_digest@),
{
    ObjectChange {
        address: copy_bytes(&ch.id),
        transaction_digest: copy_bytes(tx_digest),
        change_type: classify_change(ch),
        input_version: version_column(ch.input_version),
        input_digest: digest_column(&ch.input_digest),
        output_version: version_column(ch.output_version),
        output_digest: digest_column(&ch.output_digest),
    }
}

/// The input and command columns of a row: the counts of a programmable
/// transaction, zero for every other kind.
pub open spec fn row_counts_match(row: StoredTransaction, kind: TransactionKind) -> bool {
    match kind {
        TransactionKind::ProgrammableTransaction(pt) => {
            &&& row.inputs_imm_or_owned == count_imm_or_owned(pt.inputs@)
            &&& row.inputs_pure == count_pure(pt.inputs@)
            &&& row.inputs_receiving == count_receiving(pt.inputs@)
            &&& row.inputs_shared_mut == count_shared_mut(pt.inputs@)
            &&& row.inputs_shared_ro == count_shared_ro(pt.inputs@)
            &&& row.inputs_funds_withdrawal == count_funds_withdrawal(pt.inputs@)
            &&& row.command_move_call == count_command(pt.commands@, Command::MoveCall)
            &&& row.command_transfer_objects == count_command(pt.commands@, Command::TransferObjects)
            &&& row.command_split_coins == count_command(pt.commands@, Command::SplitCoins)
            &&& row.command_merge_coins == count_command(pt.commands@, Command::MergeCoins)
            &&& row.command_publish == count_command(pt.commands@, Command::Publish)
            &&& row.command_make_move_vec == count_command(pt.commands@, Command::MakeMoveVec)
            &&& row.command_upgrade == count_command(pt.commands@, Command::Upgrade)
        },
        _ => {
            &&& row.inputs_imm_or_owned == 0
            &&& row.inputs_pure == 0
            &&& row.inputs_receiving == 0
            &&& row.inputs_shared_mut == 0
            &&& row.inputs_shared_ro == 0
            &&& row.inputs_funds_withdrawal == 0
            &&& row.command_move_call == 0
            &&& row.command_transfer_objects == 0
            &&& row.command_split_coins == 0
            &&& row.command_merge_coins == 0
            &&& row.command_publish == 0
            &&& row.command_make_move_vec == 0
            &&& row.command_upgrade == 0
        },
    }
}

/// The status and error columns of a row: success with no error, or
/// failure with the UTF-8 bytes of the rendered error.
pub open spec fn row_status_matches(row: StoredTransaction, status: ExecutionStatus) -> bool {
    match status {
        ExecutionStatus::Success => row.status == Status::Success && row.error is None,
        ExecutionStatus::Failure { error } => {
            &&& row.status == Status::Failure
            &&& row.error matches Some(bytes) && bytes@ == encode_utf8(error@)
        },
    }
}

/// The row is the one stored for transaction `tx` of the checkpoint whose
/// narrowed sequence number is `seq`.
pub open spec fn transaction_row_matches(row: StoredTransaction, tx: CheckpointTransaction, seq: i32) -> bool {
    &&& row.transaction_digest@ == tx.digest@
    &&& row.kind == tx_kind_of(tx.kind)
    &&& row.checkpoint_sequence == seq
    &&& row_status_matches(row, tx.status)
    &&& row_counts_match(row, tx.kind)
    &&& row.sui_transferred == 0
    &&& row.gas_used == spec_gas_used(tx.gas_cost)
    &&& row.gas_price == tx.gas_price as i32
}

/// A transaction can be stored without overflow: its gas fits and, for a
/// programmable transaction, each input class and command kind fits in
/// 16 bits.
pub open spec fn tx_within_limits(tx: CheckpointTransaction) -> bool {
    &&& gas_fits(tx.gas_cost)
    &&& match tx.kind {
        TransactionKind::ProgrammableTransaction(pt) => inputs_fit(pt.inputs@) && commands_fit(pt.commands@),
        _ => true,
    }
}

/// Builds the row stored for transaction `tx` of the checkpoint whose
/// narrowed sequence number is `seq`.
pub fn transaction_row(tx: &CheckpointTransaction, seq: i32) -> (row: StoredTransaction)
    requires
        tx_within_limits(*tx),
    ensures
        transaction_row_matches(row, *tx, seq),
{
    let kind = classify_kind(&tx.kind);
    let (status, error) = match &tx.status {
        ExecutionStatus::Success => (Status::Success, None),
        ExecutionStatus::Failure { error } => (Status::Failure, Some(slice_to_vec(error.as_str().as_bytes()))),
    };
    let (inputs, commands) = match &tx.kind {
        TransactionKind::ProgrammableTransaction(pt) => (tally_inputs(&pt.inputs), tally_commands(&pt.commands)),
        _ => (
            InputCounts {
                imm_or_owned: 0,
                pure_values: 0,
                receiving: 0,
                shared_mut: 0,
                shared_ro: 0,
                funds_withdrawal: 0,
            },
            CommandCounts {
                move_call: 0,
                transfer_objects: 0,
                split_coins: 0,
                merge_coins: 0,
                publish: 0,
                make_move_vec: 0,
                upgrade: 0,
            },
        ),
    };
    StoredTransaction {
        transaction_digest: copy_bytes(&tx.digest),
        kind,
        checkpoint_sequence: seq,
        status,
        error,
        inputs_imm_or_owned: inputs.imm_or_owned,
        inputs_pure: inputs.pure_values,
        inputs_receiving: inputs.receiving,
        inputs_shared_mut: inputs.shared_mut,
        inputs_shared_ro: inputs.shared_ro,
        inputs_funds_withdrawal: inputs.funds_withdrawal,
        command_move_call: commands.move_call,
        command_transfer_objects: commands.transfer_objects,
        command_split_coins: commands.split_coins,
        command_merge_coins: commands.merge_coins,
        command_publish: commands.publish,
        command_make_move_vec: commands.make_move_vec,
        command_upgrade: commands.upgrade,
        sui_transferred: 0,
        gas_used: gas_used(&tx.gas_cost),
        gas_price: tx.gas_price as i32,
    }
}

/// Number of system transactions.
pub open spec fn count_system(txs: Seq<CheckpointTransaction>) -> nat {
    count_where(txs, |t: CheckpointTransaction| t.kind.spec_is_system_tx())
}

/// Number of user transactions.
pub open spec fn count_user(txs: Seq<CheckpointTransaction>) -> nat {
    count_where(txs, |t: CheckpointTransaction| !t.kind.spec_is_system_tx())
}

/// The row is the one stored for checkpoint `cp`.
pub open spec fn checkpoint_row_matches(row: StoredCheckpoint, cp: CheckpointData) -> bool {
    &&& row.sequence_number == cp.sequence_number as i32
    &&& row.digest@ == cp.digest@
    &&& row.timestamp_ms == cp.timestamp_ms
    &&& row.epoch_id == cp.epoch as i32
    &&& row.system_tx_count == count_system(cp.transactions@)
    &&& row.user_tx_count == count_user(cp.transactions@)
}

/// A checkpoint can be stored without overflow: each of its transaction
/// counts fits in 16 bits and each transaction can be stored.
pub open spec fn within_limits(cp: CheckpointData) -> bool {
    &&& count_system(cp.transactions@) <= i16::MAX
    &&& count_user(cp.transactions@) <= i16::MAX
    &&& forall|i: int| 0 <= i < cp.transactions.len() ==> tx_within_limits(#[trigger] cp.transactions@[i])
}

/// The object changes of `txs`, in order, each paired with the digest of
/// the transaction that made it.
pub open spec fn flat_object_changes(txs: Seq<CheckpointTransaction>) -> Seq<(Seq<u8>, EffectsObjectChange)>
    decreases txs.len(),
{
    if txs.len() == 0 {
        Seq::empty()
    } else {
        flat_object_changes(txs.drop_last()) + txs.last().object_changes@.map_values(
            |c: EffectsObjectChange| (txs.last().digest@, c),
        )
    }
}

/// The object change rows are those stored for `changes`, one for one.
pub open spec fn object_rows_match(rows: Seq<ObjectChange>, changes: Seq<(Seq<u8>, EffectsObjectChange)>) -> bool {
    &&& rows.len() == changes.len()
    &&& forall|k: int| 0 <= k < rows.len() ==> object_change_row_matches(#[trigger] rows[k], changes[k].1, changes[k].0)
}

/// The batch holds exactly the rows stored for checkpoint `cp`: its
/// checkpoint row, one transaction row per transaction in order, and one
/// object change row per object change in order.
pub open spec fn batch_matches(b: IndexerBatch, cp: CheckpointData) -> bool {
    &&& b.checkpoints.len() == 1
    &&& checkpoint_row_matches(b.checkpoints@[0], cp)
    &&& b.transactions.len() == cp.transactions.len()
    &&& forall|i: int| 0 <= i < b.transactions.len() ==> transaction_row_matches(
        #[trigger] b.transactions@[i],
        cp.transactions@[i],
        cp.sequence_number as i32,
    )
    &&& object_rows_match(b.object_changes@, flat_object_changes(cp.transactions@))
}

/// Appends the rows stored for the object changes of `tx`.
pub fn push_object_changes(rows: &mut Vec<ObjectChange>, tx: &CheckpointTransaction)
    ensures
        final(rows)@.len() == old(rows)@.len() + tx.object_changes@.len(),
        forall|k: int| 0 <= k < old(rows)@.len() ==> final(rows)@[k] == old(rows)@[k],
        forall|j: int| 0 <= j < tx.object_changes@.len() ==> object_change_row_matches(
            #[trigger] final(rows)@[old(rows)@.len() + j],
            tx.object_changes@[j],
            tx.digest@,
        ),
{
    let ghost start = rows@.len();
    let ghost before = rows@;
    let mut j: usize = 0;
    while j < tx.object_changes.len()
        invariant
            j <= tx.object_changes.len(),
            rows@.len() == start + j,
            forall|k: int| 0 <= k < start ==> rows@[k] == before[k],
            forall|m: int| 0 <= m < j ==> object_change_row_matches(
                #[trigger] rows@[start + m],
                tx.object_changes@[m],
                tx.digest@,
            ),
        decreases tx.object_changes.len() - j,
    {
        let row = object_change_row(&tx.object_changes[j], &tx.digest);
        rows.push(row);
        j = j + 1;
    }
}

/// Indexes sampled checkpoints into the `checkpoints`, `transactions` and
/// `object_changes` tables. `end_checkpoint == 0` leaves the range open.
pub struct CheckpointHandler {
    pub start_checkpoint: u64,
    pub end_checkpoint: u64,
}

impl CheckpointHandler {
    /// Whether this handler indexes the checkpoint with sequence number `seq`.
    pub open spec fn samples(&self, seq: u64) -> bool {
        sampled(seq, self.start_checkpoint, self.end_checkpoint)
    }

    /// Turns a checkpoint into the rows to insert: nothing when the
    /// checkpoint is not sampled, otherwise one batch with its checkpoint
    /// row, its transaction rows and its object change rows.
    pub fn process(&self, checkpoint: &CheckpointData) -> (r: Vec<IndexerBatch>)
        requires
            self.samples(checkpoint.sequence_number) ==> within_limits(*checkpoint),
        ensures
            !self.samples(checkpoint.sequence_number) ==> r@.len() == 0,
            self.samples(checkpoint.sequence_number) ==> r@.len() == 1 && batch_matches(r@[0], *checkpoint),
    {
        if !is_sampled(checkpoint.sequence_number, self.start_checkpoint, self.end_checkpoint) {
            return Vec::new();
        }
        let seq_number = checkpoint.sequence_number as i32;
        let epoch_number = checkpoint.epoch as i32;
        let txs = &checkpoint.transactions;

        let mut system_tx_count: i16 = 0;
        let mut user_tx_count: i16 = 0;
        let mut i: usize = 0;
        assert(txs@.take(0) =~= Seq::<CheckpointTransaction>::empty());
        while i < txs.len()
            invariant
                i <= txs.len(),
                within_limits(*checkpoint),
                txs == checkpoint.transactions,
                system_tx_count == count_system(txs@.take(i as int)),
                user_tx_count == count_user(txs@.take(i as int)),
            decreases txs.len() - i,
        {
            proof {
                let sys = |t: CheckpointTransaction| t.kind.spec_is_system_tx();
                let usr = |t: CheckpointTransaction| !t.kind.spec_is_system_tx();
                lemma_count_where_step(txs@, sys, i as int);
                lemma_count_where_step(txs@, usr, i as int);
                lemma_count_where_bounds(txs@, sys, i + 1);
                lemma_count_where_bounds(txs@, usr, i + 1);
            }
            if txs[i].kind.is_system_tx() {
                system_tx_count = system_tx_count + 1;
            } else {
                user_tx_count = user_tx_count + 1;
            }
            i = i + 1;
        }
        assert(txs@.take(txs.len() as int) =~= txs@);

        let stored_checkpoint = StoredCheckpoint {
            sequence_number: seq_number,
            digest: copy_bytes(&checkpoint.digest),
            timestamp_ms: checkpoint.timestamp_ms,
            epoch_id: epoch_number,
            user_tx_count,
            system_tx_count,
        };

        let mut transactions_vec: Vec<StoredTransaction> = Vec::new();
        let mut object_changes_vec: Vec<ObjectChange> = Vec::new();
        let mut i: usize = 0;
        while i < txs.len()
            invariant
                i <= txs.len(),
                within_limits(*checkpoint),
                txs == checkpoint.transactions,
                transactions_vec@.len() == i,
                forall|k: int| 0 <= k < i ==> transaction_row_matches(
                    #[trigger] transactions_vec@[k],
                    txs@[k],
                    seq_number,
                ),
                object_rows_match(object_changes_vec@, flat_object_changes(txs@.take(i as int))),
            decreases txs.len() - i,
        {
            let tx = &txs[i];
            assert(tx_within_limits(txs@[i as int]));
            transactions_vec.push(transaction_row(tx, seq_number));
            let ghost before = object_changes_vec@;
            push_object_changes(&mut object_changes_vec, tx);
            proof {
                let prefix = txs@.take(i + 1);
                assert(prefix.drop_last() =~= txs@.take(i as int));
                assert(prefix.last() == txs@[i as int]);
                let flat = flat_object_changes(prefix);
                assert(flat == flat_object_changes(txs@.take(i as int)) + txs@[i as int].object_changes@.map_values(
                    |c: EffectsObjectChange| (txs@[i as int].digest@, c),
                ));
                assert forall|k: int| 0 <= k < object_changes_vec@.len() implies object_change_row_matches(
                    #[trigger] object_changes_vec@[k],
                    flat[k].1,
                    flat[k].0,
                ) by {
                    if k >= before.len() {
                        let j = k - before.len();
                        assert(object_changes_vec@[before.len() + j] == object_changes_vec@[k]);
                    }
                }
            }
            i = i + 1;
        }
        assert(txs@.take(txs.len() as int) =~= txs@);

        let mut checkpoints_vec: Vec<StoredCheckpoint> = Vec::new();
        checkpoints_vec.push(stored_checkpoint);
        let mut batches: Vec<IndexerBatch> = Vec::new();
        batches.push(IndexerBatch {
            checkpoints: checkpoints_vec,
            transactions: transactions_vec,
            object_changes: object_changes_vec,
        });
        batches
    }
}

/// Every transaction of a checkpoint is counted once, either as a system
/// or as a user transaction.
pub proof fn lemma_system_and_user_cover(txs: Seq<CheckpointTransaction>)
    ensures
        count_system(txs) + count_user(txs) == txs.len(),
{
    let sys = |t: CheckpointTransaction| t.kind.spec_is_system_tx();
    let usr = |t: CheckpointTransaction| !t.kind.spec_is_system_tx();
    lemma_count_where_complement(txs, sys, usr);
}

/// Every input of a programmable transaction falls in exactly one of the
/// six counted classes, so the six counts add up to the number of inputs.
pub proof fn lemma_input_classes_cover(s: Seq<CallArg>)
    ensures
        count_imm_or_owned(s) + count_pure(s) + count_receiving(s) + count_shared_mut(s)
            + count_shared_ro(s) + count_funds_withdrawal(s) == s.len(),
    decreases s.len(),
{
    if s.len() > 0 {
        lemma_input_classes_cover(s.drop_last());
        let a = s.last();
        match a {
            CallArg::Object(ObjectArg::SharedObject { mutability }) => {
                match mutability {
                    SharedObjectMutability::Immutable => {},
                    _ => {},
                }
            },
            _ => {},
        }
    }
}

/// Every command of a programmable transaction is counted once, under its
/// own kind, so the seven counts add up to the number of commands.
pub proof fn lemma_command_kinds_cover(s: Seq<Command>)
    ensures
        count_command(s, Command::MoveCall) + count_command(s, Command::TransferObjects)
            + count_command(s, Command::SplitCoins) + count_command(s, Command::MergeCoins)
            + count_command(s, Command::Publish) + count_command(s, Command::MakeMoveVec)
            + count_command(s, Command::Upgrade) == s.len(),
    decreases s.len(),
{
    if s.len() > 0 {
        lemma_command_kinds_cover(s.drop_last());
    }
}

/// Each entry of the flattened object changes belongs to one of the
/// transactions, under that transaction's digest, and there is one entry
/// per object change.
pub proof fn lemma_flat_object_changes_origin(txs: Seq<CheckpointTransaction>)
    ensures
        forall|k: int| 0 <= k < flat_object_changes(txs).len() ==> exists|i: int|
            0 <= i < txs.len() && (#[trigger] flat_object_changes(txs)[k]).0 == (#[trigger] txs[i]).digest@
                && txs[i].object_changes@.contains(flat_object_changes(txs)[k].1),
    decreases txs.len(),
{
    if txs.len() > 0 {
        let init = txs.drop_last();
        lemma_flat_object_changes_origin(init);
        let last = txs.last();
        let tail = last.object_changes@.map_values(|c: EffectsObjectChange| (last.digest@, c));
        let flat = flat_object_changes(txs);
        assert(flat == flat_object_changes(init) + tail);
        assert forall|k: int| 0 <= k < flat.len() implies exists|i: int|
            0 <= i < txs.len() && (#[trigger] flat[k]).0 == (#[trigger] txs[i]).digest@
                && txs[i].object_changes@.contains(flat[k].1) by {
            if k < flat_object_changes(init).len() {
                let i = choose|i: int| 0 <= i < init.len() && (#[trigger] flat_object_changes(init)[k]).0
                    == (#[trigger] init[i]).digest@ && init[i].object_changes@.contains(flat_object_changes(init)[k].1);
                assert(txs[i] == init[i]);
            } else {
                let j = k - flat_object_changes(init).len();
                assert(flat[k] == tail[j]);
                assert(last.object_changes@[j] == flat[k].1);
                assert(txs[txs.len() - 1] == last);
            }
        }
    }
}

/// Within a batch every transaction row points at the batch's checkpoint
/// row, every object change row points at one of the batch's transaction
/// rows, and the checkpoint row counts each transaction row once.
pub proof fn lemma_batch_rows_join(b: IndexerBatch, cp: CheckpointData)
    requires
        batch_matches(b, cp),
    ensures
        forall|i: int| 0 <= i < b.transactions@.len() ==> (#[trigger] b.transactions@[i]).checkpoint_sequence
            == b.checkpoints@[0].sequence_number,
        forall|k: int| 0 <= k < b.object_changes@.len() ==> exists|i: int|
            0 <= i < b.transactions@.len() && (#[trigger] b.object_changes@[k]).transaction_digest@
                == (#[trigger] b.transactions@[i]).transaction_digest@,
        b.checkpoints@[0].system_tx_count + b.checkpoints@[0].user_tx_count == b.transactions@.len(),
{
    lemma_system_and_user_cover(cp.transactions@);
    lemma_flat_object_changes_origin(cp.transactions@);
    let flat = flat_object_changes(cp.transactions@);
    assert forall|k: int| 0 <= k < b.object_changes@.len() implies exists|i: int|
        0 <= i < b.transactions@.len() && (#[trigger] b.object_changes@[k]).transaction_digest@
            == (#[trigger] b.transactions@[i]).transaction_digest@ by {
        assert(object_change_row_matches(b.object_changes@[k], flat[k].1, flat[k].0));
        let i = choose|i: int| 0 <= i < cp.transactions@.len() && (#[trigger] flat[k]).0
            == (#[trigger] cp.transactions@[i]).digest@ && cp.transactions@[i].object_changes@.contains(flat[k].1);
        assert(transaction_row_matches(b.transactions@[i], cp.transactions@[i], cp.sequence_number as i32));
    }
}

/// Decides whether the net gas of a transaction can be computed without
/// overflow.
pub fn gas_fits_check(g: &GasCostSummary) -> (r: bool)
    ensures
        r == gas_fits(*g),
{
    match g.computation_cost.checked_add(g.storage_cost) {
        None => false,
        Some(total) => {
            let net: i64 = (total as i32) as i64 - (g.storage_rebate as i32) as i64;
            net >= i32::MIN as i64 && net <= i32::MAX as i64
        },
    }
}

/// Decides whether every input class of `inputs` fits in 16 bits.
pub fn inputs_fit_check(inputs: &Vec<CallArg>) -> (r: bool)
    ensures
        r == inputs_fit(inputs@),
{
    let mut counts: [usize; 6] = [0, 0, 0, 0, 0, 0];
    let mut i: usize = 0;
    assert(inputs@.take(0) =~= Seq::<CallArg>::empty());
    while i < inputs.len()
        invariant
            i <= inputs.len(),
            counts[0] == count_imm_or_owned(inputs@.take(i as int)),
            counts[1] == count_pure(inputs@.take(i as int)),
            counts[2] == count_receiving(inputs@.take(i as int)),
            counts[3] == count_shared_mut(inputs@.take(i as int)),
            counts[4] == count_shared_ro(inputs@.take(i as int)),
            counts[5] == count_funds_withdrawal(inputs@.take(i as int)),
            counts[0] <= i && counts[1] <= i && counts[2] <= i && counts[3] <= i && counts[4] <= i && counts[5] <= i,
        decreases inputs.len() - i,
    {
        proof {
            let s = inputs@;
            let ii = i as int;
            lemma_count_where_step(s, |a: CallArg| a == CallArg::Object(ObjectArg::ImmOrOwnedObject), ii);
            lemma_count_where_step(s, |a: CallArg| a == CallArg::Pure, ii);
            lemma_count_where_step(s, |a: CallArg| a == CallArg::Object(ObjectArg::Receiving), ii);
            lemma_count_where_step(s, |a: CallArg| is_shared_mut(a), ii);
            lemma_count_where_step(s, |a: CallArg| is_shared_ro(a), ii);
            lemma_count_where_step(s, |a: CallArg| a == CallArg::FundsWithdrawal, ii);
        }
        let slot: usize = match &inputs[i] {
            CallArg::Pure => 1,
            CallArg::Object(ObjectArg::ImmOrOwnedObject) => 0,
            CallArg::Object(ObjectArg::Receiving) => 2,
            CallArg::Object(ObjectArg::SharedObject { mutability: SharedObjectMutability::Immutable }) => 4,
            CallArg::Object(ObjectArg::SharedObject { .. }) => 3,
            CallArg::FundsWithdrawal => 5,
        };
        counts[slot] = counts[slot] + 1;
        i = i + 1;
    }
    assert(inputs@.take(inputs.len() as int) =~= inputs@);
    let limit = i16::MAX as usize;
    counts[0] <= limit && counts[1] <= limit && counts[2] <= limit && counts[3] <= limit && counts[4] <= limit
        && counts[5] <= limit
}

/// Decides whether every command kind of `commands` fits in 16 bits.
pub fn commands_fit_check(commands: &Vec<Command>) -> (r: bool)
    ensures
        r == commands_fit(commands@),
{
    let mut counts: [usize; 7] = [0, 0, 0, 0, 0, 0, 0];
    let mut i: usize = 0;
    assert(commands@.take(0) =~= Seq::<Command>::empty());
    while i < commands.len()
        invariant
            i <= commands.len(),
            counts[0] == count_command(commands@.take(i as int), Command::MoveCall),
            counts[1] == count_command(commands@.take(i as int), Command::TransferObjects),
            counts[2] == count_command(commands@.take(i as int), Command::SplitCoins),
            counts[3] == count_command(commands@.take(i as int), Command::MergeCoins),
            counts[4] == count_command(commands@.take(i as int), Command::Publish),
            counts[5] == count_command(commands@.take(i as int), Command::MakeMoveVec),
            counts[6] == count_command(commands@.take(i as int), Command::Upgrade),
            forall|m: int| 0 <= m < 7 ==> counts[m] <= i,
        decreases commands.len() - i,
    {
        proof {
            let s = commands@;
            let ii = i as int;
            assert forall|k: Command| count_command(s.take(ii + 1), k) == count_command(s.take(ii), k)
                + if s[ii] == k { 1nat } else { 0nat } by {
                lemma_count_where_step(s, |x: Command| x == k, ii);
            }
        }
        let slot: usize = match &commands[i] {
            Command::MoveCall => 0,
            Command::TransferObjects => 1,
            Command::SplitCoins => 2,
            Command::MergeCoins => 3,
            Command::Publish => 4,
            Command::MakeMoveVec => 5,
            Command::Upgrade => 6,
        };
        counts[slot] = counts[slot] + 1;
        i = i + 1;
    }
    assert(commands@.take(commands.len() as int) =~= commands@);
    let limit = i16::MAX as usize;
    counts[0] <= limit && counts[1] <= limit && counts[2] <= limit && counts[3] <= limit && counts[4] <= limit
        && counts[5] <= limit && counts[6] <= limit
}

/// Decides whether a transaction can be stored without overflow.
pub fn tx_within_limits_check(tx: &CheckpointTransaction) -> (r: bool)
    ensures
        r == tx_within_limits(*tx),
{
    if !gas_fits_check(&tx.gas_cost) {
        return false;
    }
    match &tx.kind {
        TransactionKind::ProgrammableTransaction(pt) => inputs_fit_check(&pt.inputs) && commands_fit_check(&pt.commands),
        _ => true,
    }
}

/// Decides whether a checkpoint can be stored without overflow, which is
/// what `CheckpointHandler::process` asks of a sampled checkpoint.
pub fn within_limits_check(cp: &CheckpointData) -> (r: bool)
    ensures
        r == within_limits(*cp),
{
    let txs = &cp.transactions;
    let mut system: usize = 0;
    let mut user: usize = 0;
    let mut i: usize = 0;
    assert(txs@.take(0) =~= Seq::<CheckpointTransaction>::empty());
    while i < txs.len()
        invariant
            i <= txs.len(),
            txs == cp.transactions,
            system == count_system(txs@.take(i as int)),
            user == count_user(txs@.take(i as int)),
            system + user == i,
            forall|k: int| 0 <= k < i ==> tx_within_limits(#[trigger] txs@[k]),
        decreases txs.len() - i,
    {
        proof {
            lemma_count_where_step(txs@, |t: CheckpointTransaction| t.kind.spec_is_system_tx(), i as int);
            lemma_count_where_step(txs@, |t: CheckpointTransaction| !t.kind.spec_is_system_tx(), i as int);
        }
        if !tx_within_limits_check(&txs[i]) {
            return false;
        }
        if txs[i].kind.is_system_tx() {
            system = system + 1;
        } else {
            user = user + 1;
        }
        i = i + 1;
    }
    assert(txs@.take(txs.len() as int) =~= txs@);
    let limit = i16::MAX as usize;
    system <= limit && user <= limit
}

/// The checkpoint row's user and system counts agree with its
/// transaction rows: as many user transactions as rows of kind
/// `ProgrammableTransaction`, and as many system transactions as rows of
/// any other kind.
pub proof fn lemma_tx_counts_match_rows(b: IndexerBatch, cp: CheckpointData)
    requires
        batch_matches(b, cp),
    ensures
        b.checkpoints@[0].user_tx_count == count_where(
            b.transactions@,
            |r: StoredTransaction| r.kind == TxKind::ProgrammableTransaction,
        ),
        b.checkpoints@[0].system_tx_count == count_where(
            b.transactions@,
            |r: StoredTransaction| r.kind != TxKind::ProgrammableTransaction,
        ),
{
    let txs = cp.transactions@;
    let rows = b.transactions@;
    assert forall|i: int| 0 <= i < txs.len() implies (!(#[trigger] txs[i]).kind.spec_is_system_tx()) == (rows[i].kind
        == TxKind::ProgrammableTransaction) by {
        assert(transaction_row_matches(rows[i], txs[i], cp.sequence_number as i32));
    }
    lemma_count_where_pointwise(
        txs,
        |t: CheckpointTransaction| !t.kind.spec_is_system_tx(),
        rows,
        |r: StoredTransaction| r.kind == TxKind::ProgrammableTransaction,
    );
    lemma_count_where_pointwise(
        txs,
        |t: CheckpointTransaction| t.kind.spec_is_system_tx(),
        rows,
        |r: StoredTransaction| r.kind != TxKind::ProgrammableTransaction,
    );
}

/// Distinct on-chain kinds are stored as distinct kinds: two transactions
/// whose stored kinds agree are of the same on-chain kind.
pub proof fn lemma_stored_kind_injective(a: TransactionKind, b: TransactionKind)
    requires
        tx_kind_of(a) == tx_kind_of(b),
    ensures
        ({
            &&& (a is ProgrammableTransaction <==> b is ProgrammableTransaction)
            &&& (a is Genesis <==> b is Genesis)
            &&& (a is ConsensusCommitPrologue <==> b is ConsensusCommitPrologue)
            &&& (a is ConsensusCommitPrologueV2 <==> b is ConsensusCommitPrologueV2)
            &&& (a is ConsensusCommitPrologueV3 <==> b is ConsensusCommitPrologueV3)
            &&& (a is ConsensusCommitPrologueV4 <==> b is ConsensusCommitPrologueV4)
            &&& (a is ChangeEpoch <==> b is ChangeEpoch)
            &&& (a is RandomnessStateUpdate <==> b is RandomnessStateUpdate)
            &&& (a is AuthenticatorStateUpdate <==> b is AuthenticatorStateUpdate)
            &&& (a is EndOfEpochTransaction <==> b is EndOfEpochTransaction)
            &&& (a is ProgrammableSystemTransaction <==> b is ProgrammableSystemTransaction)
        }),
{
}

/// A stored kind is `ProgrammableTransaction` exactly for a user
/// transaction, and every stored code carries the word `Transaction`
/// right after the on-chain kind's base name, keeping any version suffix:
/// a consensus commit prologue of version `Vn` is stored under a code that
/// ends in `Vn`, and the unversioned one under a code ending in
/// `Transaction`.
pub proof fn lemma_stored_kind_names(k: TransactionKind)
    ensures
        (tx_kind_of(k) == TxKind::ProgrammableTransaction) <==> !k.spec_is_system_tx(),
        k is ConsensusCommitPrologue ==> tx_kind_of(k).sql_code() == "ConsensusCommitPrologue"@ + "Transaction"@,
        k is ConsensusCommitPrologueV2 ==> tx_kind_of(k).sql_code() == "ConsensusCommitPrologueTransaction"@ + "V2"@,
        k is ConsensusCommitPrologueV3 ==> tx_kind_of(k).sql_code() == "ConsensusCommitPrologueTransaction"@ + "V3"@,
        k is ConsensusCommitPrologueV4 ==> tx_kind_of(k).sql_code() == "ConsensusCommitPrologueTransaction"@ + "V4"@,
        k is Genesis ==> tx_kind_of(k).sql_code() == "Genesis"@ + "Transaction"@,
        k is ChangeEpoch ==> tx_kind_of(k).sql_code() == "ChangeEpoch"@ + "Transaction"@,
        k is RandomnessStateUpdate ==> tx_kind_of(k).sql_code() == "RandomnessStateUpdate"@ + "Transaction"@,
        k is AuthenticatorStateUpdate ==> tx_kind_of(k).sql_code() == "AuthenticatorStateUpdate"@ + "Transaction"@,
        k is ProgrammableTransaction ==> tx_kind_of(k).sql_code() == "ProgrammableTransaction"@,
        k is EndOfEpochTransaction ==> tx_kind_of(k).sql_code() == "EndOfEpochTransaction"@,
        k is ProgrammableSystemTransaction ==> tx_kind_of(k).sql_code() == "ProgrammableSystemTransaction"@,
{
    reveal_strlit("Transaction");
    reveal_strlit("V2");
    reveal_strlit("V3");
    reveal_strlit("V4");
    reveal_strlit("ConsensusCommitPrologue");
    reveal_strlit("ConsensusCommitPrologueTransaction");
    reveal_strlit("ConsensusCommitPrologueTransactionV2");
    reveal_strlit("ConsensusCommitPrologueTransactionV3");
    reveal_strlit("ConsensusCommitPrologueTransactionV4");
    reveal_strlit("Genesis");
    reveal_strlit("GenesisTransaction");
    reveal_strlit("ChangeEpoch");
    reveal_strlit("ChangeEpochTransaction");
    reveal_strlit("RandomnessStateUpdate");
    reveal_strlit("RandomnessStateUpdateTransaction");
    reveal_strlit("AuthenticatorStateUpdate");
    reveal_strlit("AuthenticatorStateUpdateTransaction");
    match k {
        TransactionKind::ConsensusCommitPrologue => {
            assert(tx_kind_of(k).sql_code() =~= "ConsensusCommitPrologue"@ + "Transaction"@);
        },
        TransactionKind::ConsensusCommitPrologueV2 => {
            assert(tx_kind_of(k).sql_code() =~= "ConsensusCommitPrologueTransaction"@ + "V2"@);
        },
        TransactionKind::ConsensusCommitPrologueV3 => {
            assert(tx_kind_of(k).sql_code() =~= "ConsensusCommitPrologueTransaction"@ + "V3"@);
        },
        TransactionKind::ConsensusCommitPrologueV4 => {
            assert(tx_kind_of(k).sql_code() =~= "ConsensusCommitPrologueTransaction"@ + "V4"@);
        },
        TransactionKind::Genesis => {
            assert(tx_kind_of(k).sql_code() =~= "Genesis"@ + "Transaction"@);
        },
        TransactionKind::ChangeEpoch => {
            assert(tx_kind_of(k).sql_code() =~= "ChangeEpoch"@ + "Transaction"@);
        },
        TransactionKind::RandomnessStateUpdate => {
            assert(tx_kind_of(k).sql_code() =~= "RandomnessStateUpdate"@ + "Transaction"@);
        },
        TransactionKind::AuthenticatorStateUpdate => {
            assert(tx_kind_of(k).sql_code() =~= "AuthenticatorStateUpdate"@ + "Transaction"@);
        },
        _ => {},
    }
}

/// When the costs and the rebate are small enough that nothing is
/// narrowed, the stored gas is exactly computation plus storage cost less
/// the rebate, whatever their relative sizes (a rebate larger than the
/// storage cost gives a smaller, possibly negative, figure).
pub proof fn lemma_gas_used_is_cost_less_rebate(g: GasCostSummary)
    requires
        g.computation_cost + g.storage_cost <= i32::MAX,
        g.storage_rebate <= i32::MAX,
    ensures
        gas_fits(g),
        spec_gas_used(g) == g.computation_cost + g.storage_cost - g.storage_rebate,
{
}

/// Raising the rebate by one lowers the stored gas by one, and raising the
/// computation or storage cost by one raises it by one, as long as nothing
/// is narrowed.
pub proof fn lemma_gas_used_steps(c: u64, s: u64, r: u64)
    requires
        c + s + 1 <= i32::MAX,
        r + 1 <= i32::MAX,
    ensures
        spec_gas_used(GasCostSummary { computation_cost: c, storage_cost: s, storage_rebate: (r + 1) as u64 })
            == spec_gas_used(GasCostSummary { computation_cost: c, storage_cost: s, storage_rebate: r }) - 1,
        spec_gas_used(GasCostSummary { computation_cost: (c + 1) as u64, storage_cost: s, storage_rebate: r })
            == spec_gas_used(GasCostSummary { computation_cost: c, storage_cost: s, storage_rebate: r }) + 1,
        spec_gas_used(GasCostSummary { computation_cost: c, storage_cost: (s + 1) as u64, storage_rebate: r })
            == spec_gas_used(GasCostSummary { computation_cost: c, storage_cost: s, storage_rebate: r }) + 1,
{
    lemma_gas_used_is_cost_less_rebate(GasCostSummary { computation_cost: c, storage_cost: s, storage_rebate: r });
    lemma_gas_used_is_cost_less_rebate(
        GasCostSummary { computation_cost: c, storage_cost: s, storage_rebate: (r + 1) as u64 },
    );
    lemma_gas_used_is_cost_less_rebate(
        GasCostSummary { computation_cost: (c + 1) as u64, storage_cost: s, storage_rebate: r },
    );
    lemma_gas_used_is_cost_less_rebate(
        GasCostSummary { computation_cost: c, storage_cost: (s + 1) as u64, storage_rebate: r },
    );
}

/// The stored gas depends on the costs only through their sum: moving an
/// amount from computation to storage cost leaves it unchanged.
pub proof fn lemma_gas_used_depends_on_total_cost(g: GasCostSummary, h: GasCostSummary)
    requires
        g.computation_cost + g.storage_cost == h.computation_cost + h.storage_cost,
        g.storage_rebate == h.storage_rebate,
    ensures
        spec_gas_used(g) == spec_gas_used(h),
{
}

/// Each column of an object change row comes from the matching field of
/// the change alone: the input version and digest from the input side, the
/// output version and digest from the output side, the address from the
/// object id, and the transaction digest from the transaction. A version
/// that fits in 32 bits is stored as is, an absent one as 0; a present
/// digest is stored byte for byte, an absent one as no bytes.
pub proof fn lemma_object_change_columns(row: ObjectChange, ch: EffectsObjectChange, tx_digest: Seq<u8>)
    requires
        object_change_row_matches(row, ch, tx_digest),
    ensures
        row.address@ == ch.id@,
        row.transaction_digest@ == tx_digest,
        ch.input_version is None ==> row.input_version == 0,
        ch.output_version is None ==> row.output_version == 0,
        forall|v: u64| ch.input_version == Some(v) && v <= i32::MAX ==> row.input_version == v,
        forall|v: u64| ch.output_version == Some(v) && v <= i32::MAX ==> row.output_version == v,
        ch.input_digest is None ==> row.input_digest@.len() == 0,
        ch.output_digest is None ==> row.output_digest@.len() == 0,
        forall|d: Vec<u8>| ch.input_digest == Some(d) ==> row.input_digest@ == d@,
        forall|d: Vec<u8>| ch.output_digest == Some(d) ==> row.output_digest@ == d@,
{
}

/// Two changes that agree on their input side get the same input columns,
/// and two that agree on their output side get the same output columns,
/// whatever the rest of the change holds.
pub proof fn lemma_object_change_sides_independent(
    r1: ObjectChange,
    c1: EffectsObjectChange,
    r2: ObjectChange,
    c2: EffectsObjectChange,
    tx_digest: Seq<u8>,
)
    requires
        object_change_row_matches(r1, c1, tx_digest),
        object_change_row_matches(r2, c2, tx_digest),
    ensures
        c1.input_version == c2.input_version ==> r1.input_version == r2.input_version,
        c1.output_version == c2.output_version ==> r1.output_version == r2.output_version,
        c1.input_digest == c2.input_digest ==> r1.input_digest@ == r2.input_digest@,
        c1.output_digest == c2.output_digest ==> r1.output_digest@ == r2.output_digest@,
{
}

/// For a change that keeps its identity, the stored type says which
/// versions it has: mutated when it has both an input and an output
/// version, unwrapped when it only has an output version, wrapped when it
/// only has an input version. A deleted object is stored as
/// unwrapped-then-deleted exactly when it has neither version.
pub proof fn lemma_change_type_follows_versions(op: IDOperation, has_input: bool, has_output: bool)
    ensures
        op is Unchanged ==> ((spec_change_type(op, has_input, has_output) is Mutated) <==> (has_input && has_output)),
        op is Unchanged ==> ((spec_change_type(op, has_input, has_output) is Unwrapped) <==> (!has_input && has_output)),
        op is Unchanged ==> ((spec_change_type(op, has_input, has_output) is Wrapped) <==> (has_input && !has_output)),
        op is Deleted ==> ((spec_change_type(op, has_input, has_output) is UnwrappedThenDeleted) <==> (!has_input
            && !has_output)),
        (spec_change_type(op, has_input, has_output) is Mutated || spec_change_type(op, has_input, has_output) is Unwrapped
            || spec_change_type(op, has_input, has_output) is Wrapped) ==> op is Unchanged,
{
}

/// How each input moves the counts: a pure value, an owned or immutable
/// object, a receiving object, a read-only shared object and a funds
/// withdrawal each add one to their own count; a shared object taken
/// mutably or for non-exclusive writing adds one to the mutable shared
/// count. No input changes any other count, and no input counts nothing.
pub proof fn lemma_input_counts_push(s: Seq<CallArg>, x: CallArg)
    ensures
        count_pure(Seq::empty()) == 0 && count_imm_or_owned(Seq::empty()) == 0 && count_receiving(Seq::empty()) == 0
            && count_shared_mut(Seq::empty()) == 0 && count_shared_ro(Seq::empty()) == 0
            && count_funds_withdrawal(Seq::empty()) == 0,
        count_pure(s.push(x)) == count_pure(s) + if x == CallArg::Pure { 1int } else { 0int },
        count_imm_or_owned(s.push(x)) == count_imm_or_owned(s) + if x == CallArg::Object(ObjectArg::ImmOrOwnedObject) {
            1int
        } else {
            0int
        },
        count_receiving(s.push(x)) == count_receiving(s) + if x == CallArg::Object(ObjectArg::Receiving) {
            1int
        } else {
            0int
        },
        count_shared_mut(s.push(x)) == count_shared_mut(s) + if x == CallArg::Object(
            ObjectArg::SharedObject { mutability: SharedObjectMutability::Mutable },
        ) || x == CallArg::Object(ObjectArg::SharedObject { mutability: SharedObjectMutability::NonExclusiveWrite }) {
            1int
        } else {
            0int
        },
        count_shared_ro(s.push(x)) == count_shared_ro(s) + if x == CallArg::Object(
            ObjectArg::SharedObject { mutability: SharedObjectMutability::Immutable },
        ) {
            1int
        } else {
            0int
        },
        count_funds_withdrawal(s.push(x)) == count_funds_withdrawal(s) + if x == CallArg::FundsWithdrawal {
            1int
        } else {
            0int
        },
{
    assert(s.push(x).drop_last() =~= s);
}

/// Each command adds one to the count of its own kind and to no other.
pub proof fn lemma_command_counts_push(s: Seq<Command>, c: Command, k: Command)
    ensures
        count_command(Seq::empty(), k) == 0,
        count_command(s.push(c), k) == count_command(s, k) + if c == k { 1int } else { 0int },
{
    assert(s.push(c).drop_last() =~= s);
}

/// The columns of a transaction row, each from its own source: the digest
/// and the checkpoint it belongs to; success with no error or failure with
/// the error's UTF-8 bytes; the gas price when it fits in 32 bits; the net
/// gas when nothing is narrowed; for a programmable transaction each input
/// column counting its own input class and each command column its own
/// command kind, adding up to the numbers of inputs and commands; for any
/// other kind every count zero.
pub proof fn lemma_transaction_row_columns(row: StoredTransaction, tx: CheckpointTransaction, seq: i32)
    requires
        transaction_row_matches(row, tx, seq),
    ensures
        row.transaction_digest@ == tx.digest@,
        row.checkpoint_sequence == seq,
        (row.kind == TxKind::ProgrammableTransaction) <==> (tx.kind is ProgrammableTransaction),
        (row.status == Status::Success) <==> (tx.status is Success),
        (row.error is None) <==> (tx.status is Success),
        tx.status matches ExecutionStatus::Failure { error } ==> (row.error matches Some(b) && b@ == encode_utf8(error@)),
        tx.gas_price <= i32::MAX ==> row.gas_price == tx.gas_price,
        tx.gas_cost.computation_cost + tx.gas_cost.storage_cost <= i32::MAX && tx.gas_cost.storage_rebate <= i32::MAX
            ==> row.gas_used == tx.gas_cost.computation_cost + tx.gas_cost.storage_cost - tx.gas_cost.storage_rebate,
        row.sui_transferred == 0,
        tx.kind matches TransactionKind::ProgrammableTransaction(pt) ==> {
            &&& row.inputs_pure == count_pure(pt.inputs@)
            &&& row.inputs_imm_or_owned == count_imm_or_owned(pt.inputs@)
            &&& row.inputs_receiving == count_receiving(pt.inputs@)
            &&& row.inputs_shared_mut == count_shared_mut(pt.inputs@)
            &&& row.inputs_shared_ro == count_shared_ro(pt.inputs@)
            &&& row.inputs_funds_withdrawal == count_funds_withdrawal(pt.inputs@)
            &&& row.command_move_call == count_command(pt.commands@, Command::MoveCall)
            &&& row.command_transfer_objects == count_command(pt.commands@, Command::TransferObjects)
            &&& row.command_split_coins == count_command(pt.commands@, Command::SplitCoins)
            &&& row.command_merge_coins == count_command(pt.commands@, Command::MergeCoins)
            &&& row.command_publish == count_command(pt.commands@, Command::Publish)
            &&& row.command_make_move_vec == count_command(pt.commands@, Command::MakeMoveVec)
            &&& row.command_upgrade == count_command(pt.commands@, Command::Upgrade)
            &&& row.inputs_pure + row.inputs_imm_or_owned + row.inputs_receiving + row.inputs_shared_mut
                + row.inputs_shared_ro + row.inputs_funds_withdrawal == pt.inputs@.len()
            &&& row.command_move_call + row.command_transfer_objects + row.command_split_coins
                + row.command_merge_coins + row.command_publish + row.command_make_move_vec + row.command_upgrade
                == pt.commands@.len()
        },
        !(tx.kind is ProgrammableTransaction) ==> {
            &&& row.inputs_pure == 0 && row.inputs_imm_or_owned == 0 && row.inputs_receiving == 0
            &&& row.inputs_shared_mut == 0 && row.inputs_shared_ro == 0 && row.inputs_funds_withdrawal == 0
            &&& row.command_move_call == 0 && row.command_transfer_objects == 0 && row.command_split_coins == 0
            &&& row.command_merge_coins == 0 && row.command_publish == 0 && row.command_make_move_vec == 0
            &&& row.command_upgrade == 0
        },
{
    if tx.gas_cost.computation_cost + tx.gas_cost.storage_cost <= i32::MAX && tx.gas_cost.storage_rebate <= i32::MAX {
        lemma_gas_used_is_cost_less_rebate(tx.gas_cost);
    }
    match tx.kind {
        TransactionKind::ProgrammableTransaction(pt) => {
            lemma_input_classes_cover(pt.inputs@);
            lemma_command_kinds_cover(pt.commands@);
        },
        _ => {},
    }
}

/// The columns of a checkpoint row: its digest and timestamp unchanged,
/// its sequence number and epoch unchanged when they fit in 32 bits, and
/// its system and user counts adding up to its number of transactions.
pub proof fn lemma_checkpoint_row_columns(row: StoredCheckpoint, cp: CheckpointData)
    requires
        checkpoint_row_matches(row, cp),
    ensures
        row.digest@ == cp.digest@,
        row.timestamp_ms == cp.timestamp_ms,
        cp.sequence_number <= i32::MAX ==> row.sequence_number == cp.sequence_number,
        cp.epoch <= i32::MAX ==> row.epoch_id == cp.epoch,
        row.system_tx_count + row.user_tx_count == cp.transactions@.len(),
{
    lemma_system_and_user_cover(cp.transactions@);
}

/// Total number of object changes of `txs`.
pub open spec fn total_object_changes(txs: Seq<CheckpointTransaction>) -> nat
    decreases txs.len(),
{
    if txs.len() == 0 {
        0
    } else {
        total_object_changes(txs.drop_last()) + txs.last().object_changes@.len()
    }
}

proof fn lemma_total_object_changes_prefix(txs: Seq<CheckpointTransaction>, i: int)
    requires
        0 <= i <= txs.len(),
    ensures
        total_object_changes(txs.take(i)) <= total_object_changes(txs),
        i < txs.len() ==> total_object_changes(txs.take(i)) + txs[i].object_changes@.len() <= total_object_changes(txs),
    decreases txs.len(),
{
    if i == txs.len() {
        assert(txs.take(i) =~= txs);
    } else {
        let init = txs.drop_last();
        assert(init.take(i) =~= txs.take(i));
        if i < init.len() {
            lemma_total_object_changes_prefix(init, i);
            assert(init[i] == txs[i]);
        } else {
            assert(txs.take(i) =~= init);
        }
    }
}

/// A checkpoint gives one object change row per object change, in order:
/// as many rows as object changes over all its transactions, and change
/// `j` of transaction `i` comes right after the changes of the
/// transactions before `i`, under transaction `i`'s digest.
pub proof fn lemma_object_rows_one_per_change(txs: Seq<CheckpointTransaction>)
    ensures
        flat_object_changes(txs).len() == total_object_changes(txs),
        forall|i: int, j: int|
            #![trigger txs[i].object_changes@[j]]
            0 <= i < txs.len() && 0 <= j < txs[i].object_changes@.len() ==> flat_object_changes(txs)[total_object_changes(
                txs.take(i),
            ) + j] == (txs[i].digest@, txs[i].object_changes@[j]),
    decreases txs.len(),
{
    if txs.len() > 0 {
        let n = txs.len() - 1;
        let init = txs.drop_last();
        lemma_object_rows_one_per_change(init);
        let last = txs.last();
        let tail = last.object_changes@.map_values(|c: EffectsObjectChange| (last.digest@, c));
        let flat = flat_object_changes(txs);
        assert(flat == flat_object_changes(init) + tail);
        assert(txs.take(n) =~= init);
        assert forall|i: int, j: int|
            #![trigger txs[i].object_changes@[j]]
            0 <= i < txs.len() && 0 <= j < txs[i].object_changes@.len() implies flat[total_object_changes(txs.take(i)) + j]
            == (txs[i].digest@, txs[i].object_changes@[j]) by {
            if i < n {
                assert(init[i] == txs[i]);
                assert(init.take(i) =~= txs.take(i));
                lemma_total_object_changes_prefix(init, i);
                assert(init[i].object_changes@[j] == txs[i].object_changes@[j]);
                assert(flat[total_object_changes(txs.take(i)) + j] == flat_object_changes(init)[total_object_changes(
                    init.take(i),
                ) + j]);
            } else {
                assert(txs[i] == last);
                assert(flat[total_object_changes(txs.take(i)) + j] == tail[j]);
            }
        }
    }
}

/// Inputs and commands never overflow their 16-bit columns when there are
/// at most `i16::MAX` of them, whatever their classes.
pub proof fn lemma_short_lists_fit(inputs: Seq<CallArg>, commands: Seq<Command>)
    ensures
        inputs.len() <= i16::MAX ==> inputs_fit(inputs),
        commands.len() <= i16::MAX ==> commands_fit(commands),
{
    lemma_input_classes_cover(inputs);
    lemma_command_kinds_cover(commands);
}

} // verus!
