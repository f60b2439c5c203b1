use rsync_publish::error::RsyncError;
use rsync_publish::ledger::RsyncDirState;
use rsync_publish::publish::{
    rename_new_revision_dir_to_current, symlink_current_to_new_revision_dir, update_from_rrdp_state,
    write_rsync_content, Config, CurrentObject, FsAction, RrdpState,
};
use rsync_publish::revision::{DeprecatedRsyncRevision, RsyncRevision};

const SESSION: u128 = 0x0123456789abcdef0123456789abcdef;
const DIR1: &str = "/srv/rsync/session_01234567-89ab-cdef-0123-456789abcdef_serial_1";
const DIR2: &str = "/srv/rsync/session_01234567-89ab-cdef-0123-456789abcdef_serial_2";

fn config(use_symlinks: bool) -> Config {
    Config { rsync_dir: "/srv/rsync".to_string(), use_symlinks, cleanup_after: 600 }
}

fn snapshot(serial: u64, uri: &str, data: &[u8]) -> RrdpState {
    RrdpState {
        session_id: SESSION,
        serial,
        elements: vec![CurrentObject { uri: uri.to_string(), data: data.to_vec() }],
    }
}

fn write(path: &str, data: &[u8]) -> FsAction {
    FsAction::WriteFile { path: path.to_string(), data: data.to_vec() }
}

fn symlink_steps(target: &str) -> Vec<FsAction> {
    vec![
        FsAction::RemoveFileIfExists { path: "/srv/rsync/current.tmp".to_string() },
        FsAction::Symlink { target: target.to_string(), link: "/srv/rsync/current.tmp".to_string() },
        FsAction::Rename { from: "/srv/rsync/current.tmp".to_string(), to: "/srv/rsync/current".to_string() },
    ]
}

#[test]
fn content_paths_drop_the_module() {
    let elements = vec![
        CurrentObject { uri: "rsync://x/module/y.cer".to_string(), data: b"abc".to_vec() },
        CurrentObject { uri: "rsync://host/repo/ca/sub/z.roa".to_string(), data: vec![] },
    ];
    let actions = write_rsync_content("/out", &elements).unwrap();
    assert_eq!(actions, vec![write("/out/y.cer", b"abc"), write("/out/ca/sub/z.roa", b"")]);
}

#[test]
fn content_rejects_invalid_uri() {
    let elements = vec![CurrentObject { uri: "https://x/module/y.cer".to_string(), data: vec![] }];
    assert_eq!(write_rsync_content("/out", &elements), None);
}

#[test]
fn symlink_switch_steps() {
    let r = RsyncRevision { session_id: SESSION, serial: 2 };
    assert_eq!(
        symlink_current_to_new_revision_dir(&r, &config(true)),
        symlink_steps("session_01234567-89ab-cdef-0123-456789abcdef_serial_2")
    );
}

#[test]
fn rename_switch_backs_up_current_first() {
    let r = RsyncRevision { session_id: SESSION, serial: 2 };
    let state = RsyncDirState { current: Some(RsyncRevision { session_id: SESSION, serial: 1 }), old: vec![] };
    assert_eq!(
        rename_new_revision_dir_to_current(&r, &state, &config(false)),
        vec![
            FsAction::RenameIfExists { from: "/srv/rsync/current".to_string(), to: DIR1.to_string() },
            FsAction::Rename { from: DIR2.to_string(), to: "/srv/rsync/current".to_string() },
        ]
    );
}

#[test]
fn rename_switch_without_current() {
    let r = RsyncRevision { session_id: SESSION, serial: 1 };
    assert_eq!(
        rename_new_revision_dir_to_current(&r, &RsyncDirState::empty(), &config(false)),
        vec![FsAction::Rename { from: DIR1.to_string(), to: "/srv/rsync/current".to_string() }]
    );
}

#[test]
fn first_run_publishes_new_revision() {
    let cfg = config(true);
    let plan = update_from_rrdp_state(None, &snapshot(1, "rsync://x/module/y.cer", b"..."), true, &cfg, 1000).unwrap();
    let new = RsyncRevision { session_id: SESSION, serial: 1 };
    assert_eq!(plan.state.current, Some(new));
    assert!(plan.state.old.is_empty());
    let mut expected = vec![write(&format!("{}/y.cer", DIR1), b"...")];
    expected.extend(symlink_steps("session_01234567-89ab-cdef-0123-456789abcdef_serial_1"));
    expected.push(write("/srv/rsync/.rsync_state", &plan.state.persist()));
    assert_eq!(plan.actions, expected);
}

#[test]
fn second_run_deprecates_prior_revision() {
    let cfg = config(true);
    let first = update_from_rrdp_state(None, &snapshot(1, "rsync://x/module/y.cer", b"one"), true, &cfg, 1000).unwrap();
    let ledger = first.state.persist();
    let plan = update_from_rrdp_state(Some(&ledger), &snapshot(2, "rsync://x/module/y.cer", b"two"), true, &cfg, 2000)
        .unwrap();
    let prior = RsyncRevision { session_id: SESSION, serial: 1 };
    assert_eq!(plan.state.current, Some(RsyncRevision { session_id: SESSION, serial: 2 }));
    assert_eq!(plan.state.old, vec![DeprecatedRsyncRevision { since: 2000, revision: prior }]);
    let mut expected = vec![write(&format!("{}/y.cer", DIR2), b"two")];
    expected.extend(symlink_steps("session_01234567-89ab-cdef-0123-456789abcdef_serial_2"));
    expected.push(write("/srv/rsync/.rsync_state", &plan.state.persist()));
    // the prior revision's directory is not removed yet
    assert_eq!(plan.actions, expected);
}

#[test]
fn second_run_with_renames() {
    let cfg = config(false);
    let first = update_from_rrdp_state(None, &snapshot(1, "rsync://x/module/y.cer", b"one"), true, &cfg, 1000).unwrap();
    let ledger = first.state.persist();
    let plan = update_from_rrdp_state(Some(&ledger), &snapshot(2, "rsync://x/module/y.cer", b"two"), true, &cfg, 2000)
        .unwrap();
    let expected = vec![
        write(&format!("{}/y.cer", DIR2), b"two"),
        FsAction::RenameIfExists { from: "/srv/rsync/current".to_string(), to: DIR1.to_string() },
        FsAction::Rename { from: DIR2.to_string(), to: "/srv/rsync/current".to_string() },
        write("/srv/rsync/.rsync_state", &plan.state.persist()),
    ];
    assert_eq!(plan.actions, expected);
}

#[test]
fn cleanup_run_removes_expired_revision() {
    let cfg = config(true);
    let current = RsyncRevision { session_id: SESSION, serial: 2 };
    let prior = RsyncRevision { session_id: SESSION, serial: 1 };
    let ledger = RsyncDirState { current: Some(current), old: vec![DeprecatedRsyncRevision { since: 1000, revision: prior }] };
    let plan = update_from_rrdp_state(Some(&ledger.persist()), &snapshot(2, "rsync://x/module/y.cer", b""), false, &cfg, 1601)
        .unwrap();
    assert_eq!(plan.state.current, Some(current));
    assert!(plan.state.old.is_empty());
    assert_eq!(
        plan.actions,
        vec![
            FsAction::RemoveDirAllIfExists { path: DIR1.to_string() },
            write("/srv/rsync/.rsync_state", &plan.state.persist()),
        ]
    );
}

#[test]
fn unchanged_run_keeps_revision_within_retention() {
    let cfg = config(true);
    let current = RsyncRevision { session_id: SESSION, serial: 2 };
    let prior = RsyncRevision { session_id: SESSION, serial: 1 };
    let ledger = RsyncDirState { current: Some(current), old: vec![DeprecatedRsyncRevision { since: 1000, revision: prior }] };
    let plan = update_from_rrdp_state(Some(&ledger.persist()), &snapshot(3, "not a uri", b""), false, &cfg, 1599).unwrap();
    assert_eq!(plan.state, ledger);
    assert_eq!(plan.actions, vec![write("/srv/rsync/.rsync_state", &ledger.persist())]);
}

#[test]
fn corrupt_ledger_stops_cycle() {
    let cfg = config(true);
    let r = update_from_rrdp_state(Some(&b"garbage".to_vec()), &snapshot(1, "rsync://x/m/y.cer", b""), false, &cfg, 5);
    assert_eq!(r, Err(RsyncError::CorruptLedger));
}

#[test]
fn known_revision_is_refused() {
    let cfg = config(true);
    let ledger = RsyncDirState { current: Some(RsyncRevision { session_id: SESSION, serial: 1 }), old: vec![] };
    let r = update_from_rrdp_state(Some(&ledger.persist()), &snapshot(1, "rsync://x/m/y.cer", b""), true, &cfg, 5);
    assert_eq!(r, Err(RsyncError::RevisionExists));
}

#[test]
fn invalid_uri_stops_cycle() {
    let cfg = config(true);
    let r = update_from_rrdp_state(None, &snapshot(1, "rsync://x/y.cer", b""), true, &cfg, 5);
    assert_eq!(r, Err(RsyncError::InvalidUri));
}

#[test]
fn config_paths() {
    let cfg = config(false);
    assert_eq!(cfg.rsync_dir_current(), "/srv/rsync/current");
    assert_eq!(cfg.rsync_dir_current_tmp(), "/srv/rsync/current.tmp");
    assert_eq!(cfg.rsync_state_path(), "/srv/rsync/.rsync_state");
    assert!(!cfg.rsync_dir_use_symlinks());
}
