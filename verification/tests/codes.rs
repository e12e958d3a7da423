use sui_checkpoint_indexer::models::{ChangeType, Status, TxKind};
use sui_checkpoint_indexer::sampling::{is_sampled, SAMPLE_INTERVAL};

#[test]
fn sampling_takes_multiples_of_the_interval() {
    assert_eq!(SAMPLE_INTERVAL, 3455);
    assert!(is_sampled(0, 0, 0));
    assert!(is_sampled(3455, 0, 0));
    assert!(is_sampled(6910, 0, 0));
    assert!(!is_sampled(3456, 0, 0));
    assert!(!is_sampled(3454, 0, 0));
}

#[test]
fn sampling_respects_start_and_end() {
    assert!(!is_sampled(3455, 3456, 0));
    assert!(is_sampled(6910, 3456, 0));
    assert!(is_sampled(6910, 6910, 6910));
    assert!(!is_sampled(10365, 0, 6910));
    assert!(is_sampled(10365, 0, u64::MAX));
    // end == 0 leaves the range open
    assert!(is_sampled(3455 * 1_000_000, 0, 0));
}

#[test]
fn inverted_range_samples_nothing() {
    for seq in [0u64, 3455, 6910, 10365] {
        assert!(!is_sampled(seq, 6910, 3455));
    }
}

#[test]
fn spaced_samples() {
    let sampled: Vec<u64> = (0..20_000u64).filter(|s| is_sampled(*s, 100, 0)).collect();
    assert_eq!(sampled, vec![3455, 6910, 10365, 13820, 17275]);
}

#[test]
fn tx_kind_codes_are_variant_names() {
    let all = [
        (TxKind::ProgrammableTransaction, "ProgrammableTransaction"),
        (TxKind::GenesisTransaction, "GenesisTransaction"),
        (TxKind::ConsensusCommitPrologueTransaction, "ConsensusCommitPrologueTransaction"),
        (TxKind::ConsensusCommitPrologueTransactionV2, "ConsensusCommitPrologueTransactionV2"),
        (TxKind::ConsensusCommitPrologueTransactionV3, "ConsensusCommitPrologueTransactionV3"),
        (TxKind::ConsensusCommitPrologueTransactionV4, "ConsensusCommitPrologueTransactionV4"),
        (TxKind::ChangeEpochTransaction, "ChangeEpochTransaction"),
        (TxKind::RandomnessStateUpdateTransaction, "RandomnessStateUpdateTransaction"),
        (TxKind::AuthenticatorStateUpdateTransaction, "AuthenticatorStateUpdateTransaction"),
        (TxKind::EndOfEpochTransaction, "EndOfEpochTransaction"),
        (TxKind::ProgrammableSystemTransaction, "ProgrammableSystemTransaction"),
    ];
    for (kind, code) in all.iter() {
        assert_eq!(kind.to_sql(), *code);
    }
    let mut codes: Vec<&str> = all.iter().map(|(k, _)| k.to_sql()).collect();
    codes.sort();
    codes.dedup();
    assert_eq!(codes.len(), 11);
}

#[test]
fn status_codes_round_trip() {
    assert_eq!(Status::Success.to_sql(), "success");
    assert_eq!(Status::Failure.to_sql(), "failure");
    for st in [Status::Success, Status::Failure] {
        assert_eq!(Status::from_sql(st.to_sql()), Ok(st));
    }
}

#[test]
fn status_unknown_text_is_refused() {
    assert_eq!(Status::from_sql("Success"), Err("Unknown Status: Success".to_string()));
    assert_eq!(Status::from_sql(""), Err("Unknown Status: ".to_string()));
    assert_eq!(Status::from_sql("failed"), Err("Unknown Status: failed".to_string()));
}

#[test]
fn change_type_codes_round_trip() {
    let all = [
        (ChangeType::Created, "created"),
        (ChangeType::Deleted, "deleted"),
        (ChangeType::Mutated, "mutated"),
        (ChangeType::Wrapped, "wrapped"),
        (ChangeType::Unwrapped, "unwrapped"),
        (ChangeType::UnwrappedThenDeleted, "unwrapped_then_deleted"),
        (ChangeType::Unknown, "unknown"),
    ];
    for (ct, code) in all.iter() {
        assert_eq!(ct.to_sql(), *code);
        assert_eq!(ChangeType::from_sql(code), Ok(*ct));
    }
}

#[test]
fn change_type_unknown_text_is_refused() {
    assert_eq!(ChangeType::from_sql("Created"), Err("Unknown ChangeType: Created".to_string()));
    assert_eq!(ChangeType::from_sql("unwrapped "), Err("Unknown ChangeType: unwrapped ".to_string()));
}
