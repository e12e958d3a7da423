use vstd::prelude::*;
use vstd::string::StringExecFns;

verus! {

/// The kind of a transaction as stored in the `transactions.kind` column.
#[derive(Debug, Clone, Copy, PartialEq, Eq, Structural)]
pub enum TxKind {
    ProgrammableTransaction,
    GenesisTransaction,
    ConsensusCommitPrologueTransaction,
    ConsensusCommitPrologueTransactionV2,
    ConsensusCommitPrologueTransactionV3,
    ConsensusCommitPrologueTransactionV4,
    ChangeEpochTransaction,
    RandomnessStateUpdateTransaction,
    AuthenticatorStateUpdateTransaction,
    EndOfEpochTransaction,
    ProgrammableSystemTransaction,
}

/// Execution outcome as stored in the `transactions.status` column.
#[derive(Debug, Clone, Copy, PartialEq, Eq, Structural)]
pub enum Status {
    Success,
    Failure,
}

/// How a transaction changed an object, as stored in the
/// `object_changes.change_type` column.
#[derive(Debug, Clone, Copy, PartialEq, Eq, Structural)]
pub enum ChangeType {
    Created,
    Deleted,
    Mutated,
    Wrapped,
    Unwrapped,
    UnwrappedThenDeleted,
    Unknown,
}

impl TxKind {
    /// The text that stands for this kind in the database: the variant's name.
    pub open spec fn sql_code(self) -> Seq<char> {
        match self {
            TxKind::ProgrammableTransaction => "ProgrammableTransaction"@,
            TxKind::GenesisTransaction => "GenesisTransaction"@,
            TxKind::ConsensusCommitPrologueTransaction => "ConsensusCommitPrologueTransaction"@,
            TxKind::ConsensusCommitPrologueTransactionV2 => "ConsensusCommitPrologueTransactionV2"@,
            TxKind::ConsensusCommitPrologueTransactionV3 => "ConsensusCommitPrologueTransactionV3"@,
            TxKind::ConsensusCommitPrologueTransactionV4 => "ConsensusCommitPrologueTransactionV4"@,
            TxKind::ChangeEpochTransaction => "ChangeEpochTransaction"@,
            TxKind::RandomnessStateUpdateTransaction => "RandomnessStateUpdateTransaction"@,
            TxKind::AuthenticatorStateUpdateTransaction => "AuthenticatorStateUpdateTransaction"@,
            TxKind::EndOfEpochTransaction => "EndOfEpochTransaction"@,
            TxKind::ProgrammableSystemTransaction => "ProgrammableSystemTransaction"@,
        }
    }

    /// Encodes the kind as the text written to the database.
    pub fn to_sql(&self) -> (s: &'static str)
        ensures
            s@ == self.sql_code(),
    {
        match self {
            TxKind::ProgrammableTransaction => "ProgrammableTransaction",
            TxKind::GenesisTransaction => "GenesisTransaction",
            TxKind::ConsensusCommitPrologueTransaction => "ConsensusCommitPrologueTransaction",
            TxKind::ConsensusCommitPrologueTransactionV2 => "ConsensusCommitPrologueTransactionV2",
            TxKind::ConsensusCommitPrologueTransactionV3 => "ConsensusCommitPrologueTransactionV3",
            TxKind::ConsensusCommitPrologueTransactionV4 => "ConsensusCommitPrologueTransactionV4",
            TxKind::ChangeEpochTransaction => "ChangeEpochTransaction",
            TxKind::RandomnessStateUpdateTransaction => "RandomnessStateUpdateTransaction",
            TxKind::AuthenticatorStateUpdateTransaction => "AuthenticatorStateUpdateTransaction",
            TxKind::EndOfEpochTransaction => "EndOfEpochTransaction",
            TxKind::ProgrammableSystemTransaction => "ProgrammableSystemTransaction",
        }
    }
}

/// The length of a kind's code and its last character, which tell the
/// eleven codes apart.
proof fn lemma_tx_kind_code_shape(k: TxKind)
    ensures
        k.sql_code().len() == match k {
            TxKind::ProgrammableTransaction => 23int,
            TxKind::GenesisTransaction => 18,
            TxKind::ConsensusCommitPrologueTransaction => 34,
            TxKind::ConsensusCommitPrologueTransactionV2 => 36,
            TxKind::ConsensusCommitPrologueTransactionV3 => 36,
            TxKind::ConsensusCommitPrologueTransactionV4 => 36,
            TxKind::ChangeEpochTransaction => 22,
            TxKind::RandomnessStateUpdateTransaction => 32,
            TxKind::AuthenticatorStateUpdateTransaction => 35,
            TxKind::EndOfEpochTransaction => 21,
            TxKind::ProgrammableSystemTransaction => 29,
        },
        k.sql_code()[k.sql_code().len() - 1] == match k {
            TxKind::ConsensusCommitPrologueTransactionV2 => '2',
            TxKind::ConsensusCommitPrologueTransactionV3 => '3',
            TxKind::ConsensusCommitPrologueTransactionV4 => '4',
            _ => 'n',
        },
{
    match k {
        TxKind::ProgrammableTransaction => reveal_strlit("ProgrammableTransaction"),
        TxKind::GenesisTransaction => reveal_strlit("GenesisTransaction"),
        TxKind::ConsensusCommitPrologueTransaction => reveal_strlit("ConsensusCommitPrologueTransaction"),
        TxKind::ConsensusCommitPrologueTransactionV2 => reveal_strlit("ConsensusCommitPrologueTransactionV2"),
        TxKind::ConsensusCommitPrologueTransactionV3 => reveal_strlit("ConsensusCommitPrologueTransactionV3"),
        TxKind::ConsensusCommitPrologueTransactionV4 => reveal_strlit("ConsensusCommitPrologueTransactionV4"),
        TxKind::ChangeEpochTransaction => reveal_strlit("ChangeEpochTransaction"),
        TxKind::RandomnessStateUpdateTransaction => reveal_strlit("RandomnessStateUpdateTransaction"),
        TxKind::AuthenticatorStateUpdateTransaction => reveal_strlit("AuthenticatorStateUpdateTransaction"),
        TxKind::EndOfEpochTransaction => reveal_strlit("EndOfEpochTransaction"),
        TxKind::ProgrammableSystemTransaction => reveal_strlit("ProgrammableSystemTransaction"),
    }
}

/// Distinct kinds are stored as distinct texts, so a stored kind names
/// exactly one kind.
pub proof fn lemma_tx_kind_code_injective(a: TxKind, b: TxKind)
    requires
        a.sql_code() == b.sql_code(),
    ensures
        a == b,
{
    lemma_tx_kind_code_shape(a);
    lemma_tx_kind_code_shape(b);
}

/// Compares two string slices with std's `==`; the result is true exactly
/// when both hold the same characters.
#[verifier::external_body]
fn str_equals(a: &str, b: &str) -> (eq: bool)
    ensures
        eq == (a@ == b@),
{
    a == b
}

/// Builds the message `prefix` followed by `text`.
fn message_with(prefix: &str, text: &str) -> (m: String)
    ensures
        m@ == prefix@ + text@,
{
    let mut m = String::from_str(prefix);
    m.append(text);
    m
}

impl Status {
    /// The text that stands for this status in the database.
    pub open spec fn sql_code(self) -> Seq<char> {
        match self {
            Status::Success => "success"@,
            Status::Failure => "failure"@,
        }
    }

    /// The status that a stored text stands for, if any.
    pub open spec fn parse_code(s: Seq<char>) -> Option<Status> {
        if s == "success"@ {
            Some(Status::Success)
        } else if s == "failure"@ {
            Some(Status::Failure)
        } else {
            None
        }
    }

    /// Encodes the status as the text written to the database.
    pub fn to_sql(&self) -> (s: &'static str)
        ensures
            s@ == self.sql_code(),
    {
        match self {
            Status::Success => "success",
            Status::Failure => "failure",
        }
    }

    /// Decodes a stored text; any text other than the two codes is refused
    /// with the message `Unknown Status: <text>`.
    pub fn from_sql(s: &str) -> (r: Result<Status, String>)
        ensures
            match r {
                Ok(st) => Status::parse_code(s@) == Some(st),
                Err(m) => Status::parse_code(s@) is None && m@ == "Unknown Status: "@ + s@,
            },
    {
        if str_equals(s, "success") {
            Ok(Status::Success)
        } else if str_equals(s, "failure") {
            Ok(Status::Failure)
        } else {
            Err(message_with("Unknown Status: ", s))
        }
    }
}

/// Reading back what was written gives the same status, and a text that
/// reads as a status is exactly that status's code.
pub proof fn lemma_status_code_round_trip(st: Status, s: Seq<char>)
    ensures
        Status::parse_code(st.sql_code()) == Some(st),
        Status::parse_code(s) == Some(st) ==> st.sql_code() == s,
{
    reveal_strlit("success");
    reveal_strlit("failure");
    assert("success"@[0] != "failure"@[0]);
}

impl ChangeType {
    /// The text that stands for this change type in the database.
    pub open spec fn sql_code(self) -> Seq<char> {
        match self {
            ChangeType::Created => "created"@,
            ChangeType::Deleted => "deleted"@,
            ChangeType::Mutated => "mutated"@,
            ChangeType::Wrapped => "wrapped"@,
            ChangeType::Unwrapped => "unwrapped"@,
            ChangeType::UnwrappedThenDeleted => "unwrapped_then_deleted"@,
            ChangeType::Unknown => "unknown"@,
        }
    }

    /// The change type that a stored text stands for, if any.
    pub open spec fn parse_code(s: Seq<char>) -> Option<ChangeType> {
        if s == "created"@ {
            Some(ChangeType::Created)
        } else if s == "deleted"@ {
            Some(ChangeType::Deleted)
        } else if s == "mutated"@ {
            Some(ChangeType::Mutated)
        } else if s == "wrapped"@ {
            Some(ChangeType::Wrapped)
        } else if s == "unwrapped"@ {
            Some(ChangeType::Unwrapped)
        } else if s == "unwrapped_then_deleted"@ {
            Some(ChangeType::UnwrappedThenDeleted)
        } else if s == "unknown"@ {
            Some(ChangeType::Unknown)
        } else {
            None
        }
    }

    /// Encodes the change type as the text written to the database.
    pub fn to_sql(&self) -> (s: &'static str)
        ensures
            s@ == self.sql_code(),
    {
        match self {
            ChangeType::Created => "created",
            ChangeType::Deleted => "deleted",
            ChangeType::Mutated => "mutated",
            ChangeType::Wrapped => "wrapped",
            ChangeType::Unwrapped => "unwrapped",
            ChangeType::UnwrappedThenDeleted => "unwrapped_then_deleted",
            ChangeType::Unknown => "unknown",
        }
    }

    /// Decodes a stored text; any text other than the seven codes is
    /// refused with the message `Unknown ChangeType: <text>`.
    pub fn from_sql(s: &str) -> (r: Result<ChangeType, String>)
        ensures
            match r {
                Ok(ct) => ChangeType::parse_code(s@) == Some(ct),
                Err(m) => ChangeType::parse_code(s@) is None && m@ == "Unknown ChangeType: "@ + s@,
            },
    {
        if str_equals(s, "created") {
            Ok(ChangeType::Created)
        } else if str_equals(s, "deleted") {
            Ok(ChangeType::Deleted)
        } else if str_equals(s, "mutated") {
            Ok(ChangeType::Mutated)
        } else if str_equals(s, "wrapped") {
            Ok(ChangeType::Wrapped)
        } else if str_equals(s, "unwrapped") {
            Ok(ChangeType::Unwrapped)
        } else if str_equals(s, "unwrapped_then_deleted") {
            Ok(ChangeType::UnwrappedThenDeleted)
        } else if str_equals(s, "unknown") {
            Ok(ChangeType::Unknown)
        } else {
            Err(message_with("Unknown ChangeType: ", s))
        }
    }
}

/// Reading back what was written gives the same change type, and a text
/// that reads as a change type is exactly that type's code.
pub proof fn lemma_change_type_code_round_trip(ct: ChangeType, s: Seq<char>)
    ensures
        ChangeType::parse_code(ct.sql_code()) == Some(ct),
        ChangeType::parse_code(s) == Some(ct) ==> ct.sql_code() == s,
{
    reveal_strlit("created");
    reveal_strlit("deleted");
    reveal_strlit("mutated");
    reveal_strlit("wrapped");
    reveal_strlit("unwrapped");
    reveal_strlit("unwrapped_then_deleted");
    reveal_strlit("unknown");
    assert("created"@.len() == 7 && "created"@[0] == 'c');
    assert("deleted"@.len() == 7 && "deleted"@[0] == 'd');
    assert("mutated"@.len() == 7 && "mutated"@[0] == 'm');
    assert("wrapped"@.len() == 7 && "wrapped"@[0] == 'w');
    assert("unwrapped"@.len() == 9 && "unwrapped"@[0] == 'u');
    assert("unwrapped_then_deleted"@.len() == 22);
    assert("unknown"@.len() == 7 && "unknown"@[0] == 'u');
}

/// Status and change-type codes are the variant names in lower case, with
/// `_` between words; the unwrapped-then-deleted code is the unwrapped code
/// and the deleted code joined by `_then_`. Distinct change types never
/// share a code.
pub proof fn lemma_lowercase_codes(st: Status, ct: ChangeType, other: ChangeType)
    ensures
        st is Success ==> st.sql_code() == "success"@,
        st is Failure ==> st.sql_code() == "failure"@,
        ct is Created ==> ct.sql_code() == "created"@,
        ct is Deleted ==> ct.sql_code() == "deleted"@,
        ct is Mutated ==> ct.sql_code() == "mutated"@,
        ct is Wrapped ==> ct.sql_code() == "wrapped"@,
        ct is Unwrapped ==> ct.sql_code() == "unwrapped"@,
        ct is Unknown ==> ct.sql_code() == "unknown"@,
        ct is UnwrappedThenDeleted ==> ct.sql_code() == ChangeType::Unwrapped.sql_code() + "_then_"@
            + ChangeType::Deleted.sql_code(),
        ct.sql_code() == other.sql_code() ==> ct == other,
{
    reveal_strlit("unwrapped_then_deleted");
    reveal_strlit("unwrapped");
    reveal_strlit("_then_");
    reveal_strlit("deleted");
    assert("unwrapped_then_deleted"@ =~= "unwrapped"@ + "_then_"@ + "deleted"@);
    lemma_change_type_code_round_trip(ct, other.sql_code());
    lemma_change_type_code_round_trip(other, other.sql_code());
}

/// A row of the `checkpoints` table. The timestamp is kept in milliseconds
/// since the Unix epoch.
#[derive(Debug, Clone)]
pub struct StoredCheckpoint {
    pub sequence_number: i32,
    pub digest: Vec<u8>,
    pub timestamp_ms: u64,
    pub epoch_id: i32,
    pub user_tx_count: i16,
    pub system_tx_count: i16,
}

/// A row of the `transactions` table.
#[derive(Debug, Clone)]
pub struct StoredTransaction {
    pub transaction_digest: Vec<u8>,
    pub kind: TxKind,
    pub checkpoint_sequence: i32,
    pub status: Status,
    pub error: Option<Vec<u8>>,
    pub inputs_imm_or_owned: i16,
    pub inputs_pure: i16,
    pub inputs_receiving: i16,
    pub inputs_shared_mut: i16,
    pub inputs_shared_ro: i16,
    pub inputs_funds_withdrawal: i16,
    pub command_move_call: i16,
    pub command_transfer_objects: i16,
    pub command_split_coins: i16,
    pub command_merge_coins: i16,
    pub command_publish: i16,
    pub command_make_move_vec: i16,
    pub command_upgrade: i16,
    pub sui_transferred: i16,
    pub gas_used: i32,
    pub gas_price: i32,
}

/// A row of the `object_changes` table as read back, with its serial id.
#[derive(Debug, Clone)]
pub struct StoredObjectChange {
    pub object_id: i64,
    pub address: Vec<u8>,
    pub transaction_digest: Vec<u8>,
    pub change_type: ChangeType,
    pub input_version: i32,
    pub input_digest: Vec<u8>,
    pub output_version: i32,
    pub output_digest: Vec<u8>,
}

/// A row of the `object_changes` table as inserted; the database assigns
/// the id.
#[derive(Debug, Clone)]
pub struct ObjectChange {
    pub address: Vec<u8>,
    pub transaction_digest: Vec<u8>,
    pub change_type: ChangeType,
    pub input_version: i32,
    pub input_digest: Vec<u8>,
    pub output_version: i32,
    pub output_digest: Vec<u8>,
}

/// The rows that one sampled checkpoint contributes to the three tables.
#[derive(Debug, Clone)]
pub struct IndexerBatch {
    pub checkpoints: Vec<StoredCheckpoint>,
    pub transactions: Vec<StoredTransaction>,
    pub object_changes: Vec<ObjectChange>,
}

} // verus!
