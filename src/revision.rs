use vstd::prelude::*;

verus! {

/// The character of a decimal digit.
pub open spec fn digit_char(d: nat) -> char {
    if d == 0 {
        '0'
    } else if d == 1 {
        '1'
    } else if d == 2 {
        '2'
    } else if d == 3 {
        '3'
    } else if d == 4 {
        '4'
    } else if d == 5 {
        '5'
    } else if d == 6 {
        '6'
    } else if d == 7 {
        '7'
    } else if d == 8 {
        '8'
    } else {
        '9'
    }
}

/// The decimal notation of `n`, without leading zeros.
pub open spec fn decimal_of(n: nat) -> Seq<char>
    decreases n,
{
    if n < 10 {
        seq![digit_char(n)]
    } else {
        decimal_of(n / 10).push(digit_char(n % 10))
    }
}

/// The hyphenated lower-case text form of a UUID given by its 128-bit value.
pub uninterp spec fn uuid_text(id: u128) -> Seq<char>;

/// Relies on `uuid::Uuid::from_u128` and the `Display` impl of `uuid::Uuid`:
/// the text depends on the value alone.
#[verifier::external_body]
fn session_text(id: u128) -> (r: String)
    ensures
        r@ == uuid_text(id),
{
    uuid::Uuid::from_u128(id).to_string()
}

/// One published snapshot: the session it belongs to and its serial number.
#[derive(Clone, Copy, Debug, PartialEq, Eq, Structural)]
pub struct RsyncRevision {
    pub session_id: u128,
    pub serial: u64,
}

/// A revision that stopped being current at time `since` (seconds).
#[derive(Clone, Copy, Debug, PartialEq, Eq, Structural)]
pub struct DeprecatedRsyncRevision {
    pub since: u64,
    pub revision: RsyncRevision,
}

/// The directory name of a revision: `session_<uuid>_serial_<serial>`.
pub open spec fn dir_name_of(r: RsyncRevision) -> Seq<char> {
    "session_"@ + uuid_text(r.session_id) + "_serial_"@ + decimal_of(r.serial as nat)
}

/// The path of a revision's directory under `base`.
pub open spec fn revision_path_of(base: Seq<char>, r: RsyncRevision) -> Seq<char> {
    base + "/"@ + dir_name_of(r)
}

fn digit_str(d: u64) -> (r: &'static str)
    requires
        d < 10,
    ensures
        r@ == seq![digit_char(d as nat)],
{
    proof {
        reveal_strlit("0");
        reveal_strlit("1");
        reveal_strlit("2");
        reveal_strlit("3");
        reveal_strlit("4");
        reveal_strlit("5");
        reveal_strlit("6");
        reveal_strlit("7");
        reveal_strlit("8");
        reveal_strlit("9");
    }
    if d == 0 {
        "0"
    } else if d == 1 {
        "1"
    } else if d == 2 {
        "2"
    } else if d == 3 {
        "3"
    } else if d == 4 {
        "4"
    } else if d == 5 {
        "5"
    } else if d == 6 {
        "6"
    } else if d == 7 {
        "7"
    } else if d == 8 {
        "8"
    } else {
        "9"
    }
}

/// Writes `n` in decimal.
pub fn decimal(n: u64) -> (r: String)
    ensures
        r@ == decimal_of(n as nat),
    decreases n,
{
    if n < 10 {
        String::from_str(digit_str(n))
    } else {
        let mut s = decimal(n / 10);
        s.append(digit_str(n % 10));
        s
    }
}

proof fn lemma_decimal_len(n: nat)
    ensures
        decimal_of(n).len() >= 1,
        n >= 10 ==> decimal_of(n).len() >= 2,
    decreases n,
{
    if n >= 10 {
        lemma_decimal_len(n / 10);
    }
}

/// Distinct numbers have distinct decimal notations.
pub proof fn lemma_decimal_injective(a: nat, b: nat)
    requires
        decimal_of(a) == decimal_of(b),
    ensures
        a == b,
    decreases a,
{
    lemma_decimal_len(a);
    lemma_decimal_len(b);
    let da = decimal_of(a);
    let db = decimal_of(b);
    if a < 10 && b < 10 {
        assert(da[0] == db[0]);
    } else if a >= 10 && b >= 10 {
        assert(da.drop_last() =~= decimal_of(a / 10));
        assert(db.drop_last() =~= decimal_of(b / 10));
        assert(da.last() == db.last());
        lemma_decimal_injective(a / 10, b / 10);
    } else {
        assert(da.len() != db.len());
    }
}

/// Revisions with the same session and serial share a directory name; within
/// one session, revisions with different serials have different directory
/// names.
pub proof fn lemma_dir_name_by_serial(a: RsyncRevision, b: RsyncRevision)
    requires
        a.session_id == b.session_id,
    ensures
        a.serial == b.serial ==> dir_name_of(a) == dir_name_of(b),
        a.serial != b.serial ==> dir_name_of(a) != dir_name_of(b),
{
    let prefix = "session_"@ + uuid_text(a.session_id) + "_serial_"@;
    assert(dir_name_of(a) == prefix + decimal_of(a.serial as nat));
    assert(dir_name_of(b) == prefix + decimal_of(b.serial as nat));
    if a.serial != b.serial && dir_name_of(a) == dir_name_of(b) {
        let n = dir_name_of(a);
        assert(n.subrange(prefix.len() as int, n.len() as int) =~= decimal_of(a.serial as nat));
        assert(dir_name_of(b).subrange(prefix.len() as int, n.len() as int) =~= decimal_of(
            b.serial as nat,
        ));
        lemma_decimal_injective(a.serial as nat, b.serial as nat);
    }
}

impl RsyncRevision {
    /// The name of this revision's directory.
    pub fn dir_name(&self) -> (r: String)
        ensures
            r@ == dir_name_of(*self),
    {
        let mut s = String::from_str("session_");
        let id = session_text(self.session_id);
        s.append(id.as_str());
        s.append("_serial_");
        let serial = decimal(self.serial);
        s.append(serial.as_str());
        s
    }

    /// The path of this revision's directory under `base`.
    pub fn path(&self, base: &str) -> (r: String)
        ensures
            r@ == revision_path_of(base@, *self),
    {
        let mut s = String::from_str(base);
        s.append("/");
        let name = self.dir_name();
        s.append(name.as_str());
        s
    }

    /// Marks this revision as deprecated at time `now`.
    pub fn deprecate(self, now: u64) -> (r: DeprecatedRsyncRevision)
        ensures
            r.revision == self,
            r.since == now,
    {
        DeprecatedRsyncRevision { since: now, revision: self }
    }
}

} // verus!
