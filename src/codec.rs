//! The ledger file: one header line for the current revision, then one line
//! per deprecated revision, every number in fixed-width lower-case hex.
//!
//! ```text
//! -                                   no current revision
//! +<session:32> <serial:16>           the current revision
//! ~<since:16> <session:32> <serial:16>   one deprecated revision
//! ```
use vstd::prelude::*;
use crate::ledger::{ledger_wf, RsyncDirState};
use crate::revision::{DeprecatedRsyncRevision, RsyncRevision};

verus! {

pub const NEWLINE: u8 = 10;

pub const SPACE: u8 = 32;

pub const NO_CURRENT: u8 = 45;

pub const HAS_CURRENT: u8 = 43;

pub const DEPRECATED: u8 = 126;

/// Length of a header line that names a current revision.
pub const CURRENT_LINE_LEN: usize = 51;

/// Length of a line for a deprecated revision.
pub const ENTRY_LINE_LEN: usize = 68;

pub open spec fn pow16(n: nat) -> nat
    decreases n,
{
    if n == 0 {
        1
    } else {
        16 * pow16((n - 1) as nat)
    }
}

/// The lower-case hex digit for `v < 16`.
pub open spec fn hex_digit(v: nat) -> u8 {
    if v < 10 {
        (48 + v) as u8
    } else {
        (87 + v) as u8
    }
}

pub open spec fn is_hex(b: u8) -> bool {
    (48 <= b <= 57) || (97 <= b <= 102)
}

pub open spec fn hex_value(b: u8) -> nat {
    if b <= 57 {
        (b - 48) as nat
    } else {
        (b - 87) as nat
    }
}

pub open spec fn all_hex(s: Seq<u8>) -> bool {
    forall|i: int| 0 <= i < s.len() ==> is_hex(s[i])
}

/// The last `w` hex digits of `n`, most significant first.
pub open spec fn hex_of(n: nat, w: nat) -> Seq<u8>
    decreases w,
{
    if w == 0 {
        Seq::empty()
    } else {
        hex_of(n / 16, (w - 1) as nat).push(hex_digit(n % 16))
    }
}

/// The number that the hex digits `s` denote.
pub open spec fn hex_number(s: Seq<u8>) -> nat
    decreases s.len(),
{
    if s.len() == 0 {
        0
    } else {
        hex_number(s.drop_last()) * 16 + hex_value(s.last())
    }
}

pub open spec fn revision_bytes(r: RsyncRevision) -> Seq<u8> {
    hex_of(r.session_id as nat, 32) + seq![SPACE] + hex_of(r.serial as nat, 16)
}

pub open spec fn revision_ok(s: Seq<u8>) -> bool {
    &&& s.len() == 49
    &&& all_hex(s.subrange(0, 32))
    &&& s[32] == SPACE
    &&& all_hex(s.subrange(33, 49))
}

pub open spec fn revision_from(s: Seq<u8>) -> RsyncRevision {
    RsyncRevision {
        session_id: hex_number(s.subrange(0, 32)) as u128,
        serial: hex_number(s.subrange(33, 49)) as u64,
    }
}

pub open spec fn entry_bytes(d: DeprecatedRsyncRevision) -> Seq<u8> {
    seq![DEPRECATED] + hex_of(d.since as nat, 16) + seq![SPACE] + revision_bytes(d.revision) + seq![
        NEWLINE,
    ]
}

pub open spec fn entry_ok(s: Seq<u8>) -> bool {
    &&& s.len() == 68
    &&& s[0] == DEPRECATED
    &&& all_hex(s.subrange(1, 17))
    &&& s[17] == SPACE
    &&& revision_ok(s.subrange(18, 67))
    &&& s[67] == NEWLINE
}

pub open spec fn entry_from(s: Seq<u8>) -> DeprecatedRsyncRevision {
    DeprecatedRsyncRevision {
        since: hex_number(s.subrange(1, 17)) as u64,
        revision: revision_from(s.subrange(18, 67)),
    }
}

pub open spec fn current_bytes(c: Option<RsyncRevision>) -> Seq<u8> {
    match c {
        None => seq![NO_CURRENT, NEWLINE],
        Some(r) => seq![HAS_CURRENT] + revision_bytes(r) + seq![NEWLINE],
    }
}

pub open spec fn entries_bytes(old: Seq<DeprecatedRsyncRevision>) -> Seq<u8>
    decreases old.len(),
{
    if old.len() == 0 {
        Seq::empty()
    } else {
        entries_bytes(old.drop_last()) + entry_bytes(old.last())
    }
}

/// The file contents for a ledger.
pub open spec fn ledger_bytes(current: Option<RsyncRevision>, old: Seq<DeprecatedRsyncRevision>) -> Seq<u8> {
    current_bytes(current) + entries_bytes(old)
}

/// The current revision that the header of `b` records, and where the header ends.
pub open spec fn header_of(b: Seq<u8>) -> Option<(Option<RsyncRevision>, int)> {
    if b.len() >= 2 && b[0] == NO_CURRENT && b[1] == NEWLINE {
        Some((None, 2))
    } else if b.len() >= 51 && b[0] == HAS_CURRENT && revision_ok(b.subrange(1, 50)) && b[50] == NEWLINE {
        Some((Some(revision_from(b.subrange(1, 50))), 51))
    } else {
        None
    }
}

/// The `i`-th entry line of `b` after a header ending at `start`.
pub open spec fn entry_line(b: Seq<u8>, start: int, i: int) -> Seq<u8> {
    b.subrange(start + 68 * i, start + 68 * i + 68)
}

/// The ledger that the file contents `b` record, if `b` is well formed and
/// the ledger it records holds the ledger invariant.
pub open spec fn ledger_from(b: Seq<u8>) -> Option<(Option<RsyncRevision>, Seq<DeprecatedRsyncRevision>)> {
    match header_of(b) {
        None => None,
        Some((current, start)) => {
            let n = (b.len() - start) / 68;
            let old = Seq::new(n as nat, |i: int| entry_from(entry_line(b, start, i)));
            if (b.len() - start) % 68 == 0 && (forall|i: int|
                0 <= i < n ==> entry_ok(#[trigger] entry_line(b, start, i))) && ledger_wf(current, old) {
                Some((current, old))
            } else {
                None
            }
        },
    }
}

pub proof fn lemma_pow16_mono(a: nat, b: nat)
    requires
        a <= b,
    ensures
        1 <= pow16(a) <= pow16(b),
    decreases b,
{
    if b > 0 {
        if a == b {
            lemma_pow16_mono(0, (b - 1) as nat);
        } else {
            lemma_pow16_mono(a, (b - 1) as nat);
        }
    }
}

proof fn lemma_pow16_bounds()
    ensures
        pow16(16) == 0x1_0000_0000_0000_0000,
        pow16(32) == 0x1_0000_0000_0000_0000_0000_0000_0000_0000,
{
    reveal_with_fuel(pow16, 33);
}

/// Writing `n < 16^w` in `w` hex digits and reading them back gives `n`.
pub proof fn lemma_hex_round_trip(n: nat, w: nat)
    requires
        n < pow16(w),
    ensures
        hex_of(n, w).len() == w,
        all_hex(hex_of(n, w)),
        hex_number(hex_of(n, w)) == n,
    decreases w,
{
    if w > 0 {
        let p = pow16((w - 1) as nat);
        assert(n / 16 < p) by (nonlinear_arith)
            requires
                n < 16 * p,
        ;
        lemma_hex_round_trip(n / 16, (w - 1) as nat);
        let s = hex_of(n, w);
        assert(s.drop_last() =~= hex_of(n / 16, (w - 1) as nat));
        assert(n == (n / 16) * 16 + n % 16) by (nonlinear_arith);
    }
}

proof fn lemma_revision_round_trip(r: RsyncRevision)
    ensures
        revision_bytes(r).len() == 49,
        revision_ok(revision_bytes(r)),
        revision_from(revision_bytes(r)) == r,
{
    lemma_pow16_bounds();
    lemma_hex_round_trip(r.session_id as nat, 32);
    lemma_hex_round_trip(r.serial as nat, 16);
    let s = revision_bytes(r);
    assert(s.subrange(0, 32) =~= hex_of(r.session_id as nat, 32));
    assert(s.subrange(33, 49) =~= hex_of(r.serial as nat, 16));
}

proof fn lemma_entry_round_trip(d: DeprecatedRsyncRevision)
    ensures
        entry_bytes(d).len() == 68,
        entry_ok(entry_bytes(d)),
        entry_from(entry_bytes(d)) == d,
{
    lemma_pow16_bounds();
    lemma_hex_round_trip(d.since as nat, 16);
    lemma_revision_round_trip(d.revision);
    let s = entry_bytes(d);
    assert(s.subrange(1, 17) =~= hex_of(d.since as nat, 16));
    assert(s.subrange(18, 67) =~= revision_bytes(d.revision));
}

proof fn lemma_entries_layout(old: Seq<DeprecatedRsyncRevision>)
    ensures
        entries_bytes(old).len() == 68 * old.len(),
        forall|i: int|
            0 <= i < old.len() ==> #[trigger] entries_bytes(old).subrange(68 * i, 68 * i + 68)
                == entry_bytes(old[i]),
    decreases old.len(),
{
    if old.len() > 0 {
        let rest = old.drop_last();
        lemma_entries_layout(rest);
        lemma_entry_round_trip(old.last());
        let b = entries_bytes(old);
        let rb = entries_bytes(rest);
        assert forall|i: int| 0 <= i < old.len() implies #[trigger] b.subrange(68 * i, 68 * i + 68)
            == entry_bytes(old[i]) by {
            if i < rest.len() {
                assert(rb.subrange(68 * i, 68 * i + 68) == entry_bytes(rest[i]));
                assert(b.subrange(68 * i, 68 * i + 68) =~= rb.subrange(68 * i, 68 * i + 68));
            } else {
                assert(b.subrange(68 * i, 68 * i + 68) =~= entry_bytes(old.last()));
            }
        }
    }
}

/// Reading back the file contents written for a ledger that holds the ledger
/// invariant gives that ledger.
pub proof fn lemma_ledger_round_trip(current: Option<RsyncRevision>, old: Seq<DeprecatedRsyncRevision>)
    requires
        ledger_wf(current, old),
    ensures
        ledger_from(ledger_bytes(current, old)) == Some((current, old)),
{
    let b = ledger_bytes(current, old);
    let h = current_bytes(current);
    lemma_entries_layout(old);
    let start = h.len() as int;
    match current {
        None => {},
        Some(r) => {
            lemma_revision_round_trip(r);
            assert(b.subrange(1, 50) =~= revision_bytes(r));
        },
    }
    assert(header_of(b) == Some((current, start)));
    let e = entries_bytes(old);
    assert((b.len() - start) == 68 * old.len());
    assert((68 * old.len()) / 68 == old.len()) by (nonlinear_arith);
    assert((68 * old.len()) % 68 == 0) by (nonlinear_arith);
    assert forall|i: int| 0 <= i < old.len() implies #[trigger] entry_line(b, start, i) == entry_bytes(old[i]) by {
        assert(0 <= 68 * i && 68 * i + 68 <= 68 * old.len()) by (nonlinear_arith)
            requires
                0 <= i < old.len(),
        ;
        assert(entry_line(b, start, i) =~= e.subrange(68 * i, 68 * i + 68));
        lemma_entry_round_trip(old[i]);
    }
    assert forall|i: int| 0 <= i < old.len() implies entry_ok(#[trigger] entry_line(b, start, i)) by {
        lemma_entry_round_trip(old[i]);
    }
    let decoded = Seq::new(old.len(), |i: int| entry_from(entry_line(b, start, i)));
    assert forall|i: int| 0 <= i < old.len() implies decoded[i] == old[i] by {
        lemma_entry_round_trip(old[i]);
        assert(entry_line(b, start, i) == entry_bytes(old[i]));
    }
    assert(decoded =~= old);
}

fn hex_digit_exec(v: u128) -> (r: u8)
    requires
        v < 16,
    ensures
        r == hex_digit(v as nat),
{
    if v < 10 {
        48 + v as u8
    } else {
        87 + v as u8
    }
}

/// Appends the last `w` hex digits of `n`.
fn push_hex(out: &mut Vec<u8>, n: u128, w: usize)
    ensures
        final(out)@ == old(out)@ + hex_of(n as nat, w as nat),
    decreases w,
{
    if w > 0 {
        push_hex(out, n / 16, w - 1);
        out.push(hex_digit_exec(n % 16));
    }
}

fn push_revision(out: &mut Vec<u8>, r: &RsyncRevision)
    ensures
        final(out)@ == old(out)@ + revision_bytes(*r),
{
    push_hex(out, r.session_id, 32);
    out.push(SPACE);
    push_hex(out, r.serial as u128, 16);
    assert(final(out)@ =~= old(out)@ + revision_bytes(*r));
}

/// The file contents that record `state`.
pub fn encode_ledger(state: &RsyncDirState) -> (r: Vec<u8>)
    ensures
        r@ == ledger_bytes(state.current, state.old@),
{
    let mut out: Vec<u8> = Vec::new();
    match &state.current {
        None => {
            out.push(NO_CURRENT);
            out.push(NEWLINE);
        },
        Some(c) => {
            out.push(HAS_CURRENT);
            push_revision(&mut out, c);
            out.push(NEWLINE);
        },
    }
    assert(out@ =~= current_bytes(state.current));
    let mut i: usize = 0;
    while i < state.old.len()
        invariant
            i <= state.old@.len(),
            out@ == current_bytes(state.current) + entries_bytes(state.old@.subrange(0, i as int)),
        decreases state.old@.len() - i,
    {
        let d = &state.old[i];
        let ghost before = out@;
        out.push(DEPRECATED);
        push_hex(&mut out, d.since as u128, 16);
        out.push(SPACE);
        push_revision(&mut out, &d.revision);
        out.push(NEWLINE);
        proof {
            let s = state.old@.subrange(0, i as int + 1);
            assert(s.drop_last() =~= state.old@.subrange(0, i as int));
            assert(out@ =~= before + entry_bytes(*d));
            assert(out@ =~= current_bytes(state.current) + entries_bytes(s));
        }
        i = i + 1;
    }
    assert(state.old@.subrange(0, state.old@.len() as int) =~= state.old@);
    out
}

fn hex_value_exec(b: u8) -> (r: Option<u128>)
    ensures
        r is Some <==> is_hex(b),
        r matches Some(v) ==> v == hex_value(b) && v < 16,
{
    if 48 <= b && b <= 57 {
        Some((b - 48) as u128)
    } else if 97 <= b && b <= 102 {
        Some((b - 87) as u128)
    } else {
        None
    }
}

/// Reads the `w` hex digits at `off`.
fn read_hex(b: &Vec<u8>, off: usize, w: usize) -> (r: Option<u128>)
    requires
        off + w <= b@.len(),
        w <= 32,
    ensures
        r is Some <==> all_hex(b@.subrange(off as int, off + w)),
        r matches Some(v) ==> v == hex_number(b@.subrange(off as int, off + w)),
{
    proof {
        lemma_pow16_bounds();
    }
    let len = b.len();
    let mut acc: u128 = 0;
    let mut i: usize = 0;
    while i < w
        invariant
            off + w <= b@.len(),
            len == b@.len(),
            w <= 32,
            i <= w,
            all_hex(b@.subrange(off as int, off + i)),
            acc == hex_number(b@.subrange(off as int, off + i)),
            acc < pow16(i as nat),
            pow16(32) == 0x1_0000_0000_0000_0000_0000_0000_0000_0000,
        decreases w - i,
    {
        let ghost prev = b@.subrange(off as int, off + i);
        let ghost next = b@.subrange(off as int, off + i + 1);
        match hex_value_exec(b[off + i]) {
            None => {
                assert(next[i as int] == b@[off + i]);
                return None;
            },
            Some(v) => {
                proof {
                    lemma_pow16_mono(i as nat + 1, 32);
                    let p = pow16(i as nat);
                    assert(acc * 16 + v < 16 * p) by (nonlinear_arith)
                        requires
                            acc < p,
                            v < 16,
                    ;
                    assert(next.drop_last() =~= prev);
                    assert(next.last() == b@[off + i]);
                    assert forall|k: int| 0 <= k < next.len() implies is_hex(next[k]) by {
                        if k < i {
                            assert(next[k] == prev[k]);
                        }
                    }
                }
                acc = acc * 16 + v;
            },
        }
        i = i + 1;
    }
    Some(acc)
}

fn read_revision(b: &Vec<u8>, off: usize) -> (r: Option<RsyncRevision>)
    requires
        off + 49 <= b@.len(),
    ensures
        r is Some <==> revision_ok(b@.subrange(off as int, off + 49)),
        r matches Some(v) ==> v == revision_from(b@.subrange(off as int, off + 49)),
{
    let ghost s = b@.subrange(off as int, off + 49);
    let len = b.len();
    proof {
        assert(s.subrange(0, 32) =~= b@.subrange(off as int, off + 32));
        assert(s.subrange(33, 49) =~= b@.subrange(off + 33, off + 49));
        assert(s[32] == b@[off + 32]);
        lemma_pow16_bounds();
    }
    let session_id = match read_hex(b, off, 32) {
        Some(v) => v,
        None => return None,
    };
    if b[off + 32] != SPACE {
        return None;
    }
    let serial = match read_hex(b, off + 33, 16) {
        Some(v) => v,
        None => return None,
    };
    proof {
        let digits = b@.subrange(off + 33, off + 49);
        lemma_hex_bound(digits);
    }
    Some(RsyncRevision { session_id, serial: serial as u64 })
}

/// A number of `w` hex digits is below `16^w`.
pub proof fn lemma_hex_bound(s: Seq<u8>)
    requires
        all_hex(s),
    ensures
        hex_number(s) < pow16(s.len()),
    decreases s.len(),
{
    if s.len() > 0 {
        let rest = s.drop_last();
        assert(all_hex(rest)) by {
            assert forall|k: int| 0 <= k < rest.len() implies is_hex(rest[k]) by {
                assert(rest[k] == s[k]);
            }
        }
        lemma_hex_bound(rest);
        assert(is_hex(s[s.len() - 1]));
        let p = pow16(rest.len());
        let v = hex_value(s.last());
        let h = hex_number(rest);
        assert(h * 16 + v < 16 * p) by (nonlinear_arith)
            requires
                h < p,
                v < 16,
        ;
    }
}

fn read_entry(b: &Vec<u8>, off: usize) -> (r: Option<DeprecatedRsyncRevision>)
    requires
        off + 68 <= b@.len(),
    ensures
        r is Some <==> entry_ok(b@.subrange(off as int, off + 68)),
        r matches Some(v) ==> v == entry_from(b@.subrange(off as int, off + 68)),
{
    let ghost s = b@.subrange(off as int, off + 68);
    let len = b.len();
    proof {
        assert(s.subrange(1, 17) =~= b@.subrange(off + 1, off + 17));
        assert(s.subrange(18, 67) =~= b@.subrange(off + 18, off + 67));
        assert(s[0] == b@[off as int]);
        assert(s[17] == b@[off + 17]);
        assert(s[67] == b@[off + 67]);
        lemma_pow16_bounds();
    }
    if b[off] != DEPRECATED || b[off + 17] != SPACE || b[off + 67] != NEWLINE {
        return None;
    }
    let since = match read_hex(b, off + 1, 16) {
        Some(v) => v,
        None => return None,
    };
    let revision = match read_revision(b, off + 18) {
        Some(r) => r,
        None => return None,
    };
    proof {
        lemma_hex_bound(b@.subrange(off + 1, off + 17));
    }
    Some(DeprecatedRsyncRevision { since: since as u64, revision })
}

/// Reads the ledger that the file contents `b` record.
pub fn decode_ledger(b: &Vec<u8>) -> (r: Option<RsyncDirState>)
    ensures
        r matches Some(st) ==> ledger_from(b@) == Some((st.current, st.old@)),
        r is None ==> ledger_from(b@) is None,
{
    let len = b.len();
    let current: Option<RsyncRevision>;
    let start: usize;
    if len >= 2 && b[0] == NO_CURRENT && b[1] == NEWLINE {
        current = None;
        start = 2;
    } else if len >= 51 && b[0] == HAS_CURRENT && b[50] == NEWLINE {
        match read_revision(b, 1) {
            Some(rev) => {
                current = Some(rev);
                start = 51;
            },
            None => return None,
        }
    } else {
        return None;
    }
    assert(header_of(b@) == Some((current, start as int)));
    let rest = len - start;
    if rest % 68 != 0 {
        return None;
    }
    let n = rest / 68;
    assert(68 * n == rest) by (nonlinear_arith)
        requires
            rest % 68 == 0,
            n == rest / 68,
    ;
    let ghost decoded = Seq::new(n as nat, |i: int| entry_from(entry_line(b@, start as int, i)));
    let mut old: Vec<DeprecatedRsyncRevision> = Vec::new();
    let mut i: usize = 0;
    while i < n
        invariant
            len == b@.len(),
            start + 68 * n == len,
            n == (b@.len() - start) / 68,
            (b@.len() - start) % 68 == 0,
            header_of(b@) == Some((current, start as int)),
            decoded.len() == n,
            decoded == Seq::new(n as nat, |k: int| entry_from(entry_line(b@, start as int, k))),
            i <= n,
            old@.len() == i,
            forall|k: int| 0 <= k < i ==> entry_ok(#[trigger] entry_line(b@, start as int, k)),
            forall|k: int| 0 <= k < i ==> old@[k] == decoded[k],
        decreases n - i,
    {
        proof {
            assert(start + 68 * i + 68 <= len) by (nonlinear_arith)
                requires
                    i < n,
                    start + 68 * n == len,
            ;
        }
        let off = start + 68 * i;
        match read_entry(b, off) {
            Some(d) => {
                old.push(d);
            },
            None => {
                assert(entry_line(b@, start as int, i as int) == b@.subrange(off as int, off + 68));
                assert(!entry_ok(entry_line(b@, start as int, i as int)));
                return None;
            },
        }
        i = i + 1;
    }
    assert(old@ =~= decoded);
    let state = RsyncDirState { current, old };
    if state.check_wf() {
        Some(state)
    } else {
        None
    }
}

} // verus!
