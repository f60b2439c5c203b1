use rsync_publish::revision::{decimal, RsyncRevision};

const SESSION: u128 = 0x0123456789abcdef0123456789abcdef;

#[test]
fn decimal_writes_digits() {
    assert_eq!(decimal(0), "0");
    assert_eq!(decimal(7), "7");
    assert_eq!(decimal(10), "10");
    assert_eq!(decimal(1234), "1234");
    assert_eq!(decimal(u64::MAX), "18446744073709551615");
}

#[test]
fn dir_name_holds_session_and_serial() {
    let r = RsyncRevision { session_id: SESSION, serial: 42 };
    assert_eq!(r.dir_name(), "session_01234567-89ab-cdef-0123-456789abcdef_serial_42");
}

#[test]
fn path_joins_base_and_dir_name() {
    let r = RsyncRevision { session_id: 0, serial: 1 };
    assert_eq!(r.path("/srv/rsync"), "/srv/rsync/session_00000000-0000-0000-0000-000000000000_serial_1");
}

#[test]
fn same_session_and_serial_give_same_name() {
    let a = RsyncRevision { session_id: SESSION, serial: 9 };
    let b = RsyncRevision { session_id: SESSION, serial: 9 };
    assert_eq!(a.dir_name(), b.dir_name());
}

#[test]
fn different_serials_give_different_names() {
    let a = RsyncRevision { session_id: SESSION, serial: 1 };
    let b = RsyncRevision { session_id: SESSION, serial: 11 };
    assert_ne!(a.dir_name(), b.dir_name());
}

#[test]
fn deprecate_records_time() {
    let r = RsyncRevision { session_id: SESSION, serial: 3 };
    let d = r.deprecate(1_700_000_000);
    assert_eq!(d.revision, r);
    assert_eq!(d.since, 1_700_000_000);
}
