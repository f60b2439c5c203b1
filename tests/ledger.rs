use rsync_publish::codec::{decode_ledger, encode_ledger};
use rsync_publish::error::RsyncError;
use rsync_publish::ledger::RsyncDirState;
use rsync_publish::revision::{DeprecatedRsyncRevision, RsyncRevision};

fn rev(serial: u64) -> RsyncRevision {
    RsyncRevision { session_id: 0xfeedface_0000_0000_0000_0000_0000_0001, serial }
}

fn dep(serial: u64, since: u64) -> DeprecatedRsyncRevision {
    DeprecatedRsyncRevision { since, revision: rev(serial) }
}

#[test]
fn update_current_on_empty_ledger() {
    let mut s = RsyncDirState::empty();
    s.update_current(rev(1), 100);
    assert_eq!(s.current, Some(rev(1)));
    assert!(s.old.is_empty());
}

#[test]
fn update_current_deprecates_previous() {
    let mut s = RsyncDirState::empty();
    s.update_current(rev(1), 100);
    s.update_current(rev(2), 200);
    assert_eq!(s.current, Some(rev(2)));
    assert_eq!(s.old, vec![dep(1, 200)]);
}

#[test]
fn clean_old_threshold() {
    // retention 100 at time 1000: entries deprecated before 900 expire
    let mut s = RsyncDirState { current: Some(rev(9)), old: vec![dep(1, 899), dep(2, 901), dep(3, 900)] };
    let removed = s.clean_old(1000, 100);
    assert_eq!(removed, vec![rev(1)]);
    assert_eq!(s.old, vec![dep(2, 901), dep(3, 900)]);
    assert_eq!(s.current, Some(rev(9)));
}

#[test]
fn clean_old_with_retention_longer_than_time() {
    let mut s = RsyncDirState { current: None, old: vec![dep(1, 0)] };
    let removed = s.clean_old(10, u64::MAX);
    assert!(removed.is_empty());
    assert_eq!(s.old, vec![dep(1, 0)]);
}

#[test]
fn contains_and_check_wf() {
    let s = RsyncDirState { current: Some(rev(3)), old: vec![dep(1, 5), dep(2, 6)] };
    assert!(s.contains(&rev(3)));
    assert!(s.contains(&rev(1)));
    assert!(!s.contains(&rev(4)));
    assert!(s.check_wf());
    let dup = RsyncDirState { current: None, old: vec![dep(1, 5), dep(1, 6)] };
    assert!(!dup.check_wf());
    let cur_in_old = RsyncDirState { current: Some(rev(1)), old: vec![dep(1, 5)] };
    assert!(!cur_in_old.check_wf());
}

#[test]
fn encode_empty_ledger() {
    assert_eq!(encode_ledger(&RsyncDirState::empty()), b"-\n".to_vec());
}

#[test]
fn encode_exact_text() {
    let s = RsyncDirState {
        current: Some(RsyncRevision { session_id: 0xab, serial: 0x10 }),
        old: vec![DeprecatedRsyncRevision { since: 255, revision: RsyncRevision { session_id: 1, serial: 2 } }],
    };
    let text = String::from_utf8(s.persist()).unwrap();
    let expected = format!(
        "+{}ab {}10\n~{}ff {}01 {}02\n",
        "0".repeat(30),
        "0".repeat(14),
        "0".repeat(14),
        "0".repeat(30),
        "0".repeat(14)
    );
    assert_eq!(text, expected);
}

#[test]
fn round_trip_empty() {
    let s = RsyncDirState::empty();
    assert_eq!(RsyncDirState::recover(Some(&s.persist())), Ok(s));
}

#[test]
fn round_trip_current_only() {
    let s = RsyncDirState { current: Some(rev(u64::MAX)), old: vec![] };
    assert_eq!(RsyncDirState::recover(Some(&s.persist())), Ok(s));
}

#[test]
fn round_trip_with_old() {
    let s = RsyncDirState {
        current: Some(RsyncRevision { session_id: u128::MAX, serial: 5 }),
        old: vec![dep(1, 10), dep(2, u64::MAX), dep(3, 0)],
    };
    assert_eq!(RsyncDirState::recover(Some(&s.persist())), Ok(s));
}

#[test]
fn round_trip_old_without_current() {
    let s = RsyncDirState { current: None, old: vec![dep(4, 44)] };
    assert_eq!(RsyncDirState::recover(Some(&s.persist())), Ok(s));
}

#[test]
fn recover_without_file_is_empty() {
    assert_eq!(RsyncDirState::recover(None), Ok(RsyncDirState::empty()));
}

#[test]
fn recover_rejects_garbage() {
    assert_eq!(RsyncDirState::recover(Some(&b"{\"current\": null}".to_vec())), Err(RsyncError::CorruptLedger));
    assert_eq!(RsyncDirState::recover(Some(&Vec::new())), Err(RsyncError::CorruptLedger));
}

#[test]
fn recover_rejects_truncated_file() {
    let s = RsyncDirState { current: Some(rev(1)), old: vec![dep(2, 3)] };
    let mut bytes = s.persist();
    bytes.pop();
    assert_eq!(RsyncDirState::recover(Some(&bytes)), Err(RsyncError::CorruptLedger));
}

#[test]
fn recover_rejects_upper_case_digits() {
    let s = RsyncDirState { current: Some(RsyncRevision { session_id: 0xa, serial: 1 }), old: vec![] };
    let bytes: Vec<u8> = s.persist().iter().map(|b| b.to_ascii_uppercase()).collect();
    assert_eq!(decode_ledger(&bytes), None);
}

#[test]
fn recover_rejects_duplicate_revisions() {
    let s = RsyncDirState { current: None, old: vec![dep(1, 5), dep(1, 6)] };
    assert_eq!(RsyncDirState::recover(Some(&s.persist())), Err(RsyncError::CorruptLedger));
    let t = RsyncDirState { current: Some(rev(1)), old: vec![dep(1, 5)] };
    assert_eq!(RsyncDirState::recover(Some(&t.persist())), Err(RsyncError::CorruptLedger));
}
