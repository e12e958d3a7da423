use vstd::prelude::*;

verus! {

/// What an object argument of a programmable transaction refers to.
#[derive(Debug, Clone, Copy, PartialEq, Eq, Structural)]
pub enum SharedObjectMutability {
    Immutable,
    Mutable,
    NonExclusiveWrite,
}

/// An object input of a programmable transaction.
#[derive(Debug, Clone, Copy, PartialEq, Eq, Structural)]
pub enum ObjectArg {
    ImmOrOwnedObject,
    Receiving,
    SharedObject { mutability: SharedObjectMutability },
}

/// An input of a programmable transaction.
#[derive(Debug, Clone, Copy, PartialEq, Eq, Structural)]
pub enum CallArg {
    Pure,
    Object(ObjectArg),
    FundsWithdrawal,
}

/// A command of a programmable transaction.
#[derive(Debug, Clone, Copy, PartialEq, Eq, Structural)]
pub enum Command {
    MoveCall,
    TransferObjects,
    SplitCoins,
    MergeCoins,
    Publish,
    MakeMoveVec,
    Upgrade,
}

/// The inputs and commands of a programmable transaction.
#[derive(Debug, Clone)]
pub struct ProgrammableTransaction {
    pub inputs: Vec<CallArg>,
    pub commands: Vec<Command>,
}

/// The kind of a transaction on chain; only a programmable transaction
/// carries the inputs and commands that the indexer counts.
#[derive(Debug, Clone)]
pub enum TransactionKind {
    ProgrammableTransaction(ProgrammableTransaction),
    Genesis,
    ConsensusCommitPrologue,
    ConsensusCommitPrologueV2,
    ConsensusCommitPrologueV3,
    ConsensusCommitPrologueV4,
    ChangeEpoch,
    RandomnessStateUpdate,
    AuthenticatorStateUpdate,
    EndOfEpochTransaction,
    ProgrammableSystemTransaction,
}

impl TransactionKind {
    /// Every kind but a user's programmable transaction is issued by the
    /// system.
    pub open spec fn spec_is_system_tx(&self) -> bool {
        !(self is ProgrammableTransaction)
    }

    /// Whether the transaction was issued by the system rather than a user.
    #[verifier::when_used_as_spec(spec_is_system_tx)]
    pub fn is_system_tx(&self) -> (r: bool)
        ensures
            r == self.spec_is_system_tx(),
    {
        match self {
            TransactionKind::ProgrammableTransaction(_) => false,
            _ => true,
        }
    }
}

/// Outcome of executing a transaction; a failure carries the rendered
/// error.
#[derive(Debug, Clone)]
pub enum ExecutionStatus {
    Success,
    Failure { error: String },
}

/// Gas charged to a transaction, in MIST.
#[derive(Debug, Clone, Copy, PartialEq, Eq, Structural)]
pub struct GasCostSummary {
    pub computation_cost: u64,
    pub storage_cost: u64,
    pub storage_rebate: u64,
}

/// What a transaction did to an object's identity.
#[derive(Debug, Clone, Copy, PartialEq, Eq, Structural)]
pub enum IDOperation {
    /// The object kept its identity (called `None` on chain).
    Unchanged,
    Created,
    Deleted,
}

/// One object change recorded in a transaction's effects.
#[derive(Debug, Clone)]
pub struct EffectsObjectChange {
    pub id: Vec<u8>,
    pub id_operation: IDOperation,
    pub input_version: Option<u64>,
    pub input_digest: Option<Vec<u8>>,
    pub output_version: Option<u64>,
    pub output_digest: Option<Vec<u8>>,
}

/// One executed transaction of a checkpoint, with what the indexer reads
/// of its data and effects.
#[derive(Debug, Clone)]
pub struct CheckpointTransaction {
    pub digest: Vec<u8>,
    pub kind: TransactionKind,
    pub gas_price: u64,
    pub status: ExecutionStatus,
    pub gas_cost: GasCostSummary,
    pub object_changes: Vec<EffectsObjectChange>,
}

/// A checkpoint: its summary and its transactions in execution order.
#[derive(Debug, Clone)]
pub struct CheckpointData {
    pub sequence_number: u64,
    pub digest: Vec<u8>,
    pub timestamp_ms: u64,
    pub epoch: u64,
    pub transactions: Vec<CheckpointTransaction>,
}

} // verus!
