use vstd::prelude::*;
use crate::codec::{decode_ledger, encode_ledger, ledger_bytes, ledger_from, lemma_ledger_round_trip};
use crate::error::RsyncError;
use crate::revision::{DeprecatedRsyncRevision, RsyncRevision};

verus! {

/// Whether a revision deprecated at `since` has outlived the retention period
/// `retention` at time `now`.
pub open spec fn is_expired(since: u64, now: u64, retention: u64) -> bool {
    (since as int) < (now as int) - (retention as int)
}

/// The entries of `old` that are kept by pruning, in their order.
pub open spec fn kept_entries(old: Seq<DeprecatedRsyncRevision>, now: u64, retention: u64) -> Seq<
    DeprecatedRsyncRevision,
>
    decreases old.len(),
{
    if old.len() == 0 {
        old
    } else {
        let rest = kept_entries(old.drop_last(), now, retention);
        if is_expired(old.last().since, now, retention) {
            rest
        } else {
            rest.push(old.last())
        }
    }
}

/// The revisions of the entries of `old` that pruning removes, in their order.
pub open spec fn expired_revisions(old: Seq<DeprecatedRsyncRevision>, now: u64, retention: u64) -> Seq<
    RsyncRevision,
>
    decreases old.len(),
{
    if old.len() == 0 {
        Seq::empty()
    } else {
        let rest = expired_revisions(old.drop_last(), now, retention);
        if is_expired(old.last().since, now, retention) {
            rest.push(old.last().revision)
        } else {
            rest
        }
    }
}

/// Whether `r` is the revision of some entry of `old`.
pub open spec fn is_listed(old: Seq<DeprecatedRsyncRevision>, r: RsyncRevision) -> bool {
    exists|i: int| 0 <= i < old.len() && old[i].revision == r
}

/// No revision is listed twice.
pub open spec fn revisions_distinct(old: Seq<DeprecatedRsyncRevision>) -> bool {
    forall|i: int, j: int|
        0 <= i < j < old.len() ==> old[i].revision != old[j].revision
}

/// The ledger invariant: deprecated revisions are listed once, and the
/// current revision is not among them.
pub open spec fn ledger_wf(current: Option<RsyncRevision>, old: Seq<DeprecatedRsyncRevision>) -> bool {
    &&& revisions_distinct(old)
    &&& (current matches Some(c) ==> !is_listed(old, c))
}

/// The deprecated entries after making `new` current at time `now`.
pub open spec fn old_after_update(
    current: Option<RsyncRevision>,
    old: Seq<DeprecatedRsyncRevision>,
    now: u64,
) -> Seq<DeprecatedRsyncRevision> {
    match current {
        Some(c) => old.push(DeprecatedRsyncRevision { since: now, revision: c }),
        None => old,
    }
}

/// The contents of a file that may be missing.
pub open spec fn file_contents(file: Option<&Vec<u8>>) -> Option<Seq<u8>> {
    match file {
        Some(b) => Some(b@),
        None => None,
    }
}

/// The ledger that the contents of its file record; no file records the
/// empty ledger.
pub open spec fn recovered_ledger(file: Option<Seq<u8>>) -> Option<(Option<RsyncRevision>, Seq<DeprecatedRsyncRevision>)> {
    match file {
        None => Some((None, Seq::empty())),
        Some(b) => ledger_from(b),
    }
}

/// The record of which revision is current and which are deprecated.
#[derive(Clone, Debug, PartialEq, Eq)]
pub struct RsyncDirState {
    pub current: Option<RsyncRevision>,
    pub old: Vec<DeprecatedRsyncRevision>,
}

impl RsyncDirState {
    pub open spec fn wf(&self) -> bool {
        ledger_wf(self.current, self.old@)
    }

    /// Whether `r` is the current revision or one of the deprecated ones.
    pub open spec fn knows(&self, r: RsyncRevision) -> bool {
        self.current == Some(r) || is_listed(self.old@, r)
    }

    /// The ledger of a repository where nothing was published yet.
    pub fn empty() -> (r: Self)
        ensures
            r.current is None,
            r.old@.len() == 0,
            r.wf(),
    {
        RsyncDirState { current: None, old: Vec::new() }
    }

    /// Reads the ledger from the contents of its file, or starts an empty one
    /// where there is no file yet. Contents that are not a well-formed ledger
    /// are an error.
    pub fn recover(file: Option<&Vec<u8>>) -> (r: Result<Self, RsyncError>)
        ensures
            r matches Ok(st) ==> st.wf() && recovered_ledger(file_contents(file)) == Some((st.current, st.old@)),
            r matches Err(e) ==> e == RsyncError::CorruptLedger && recovered_ledger(file_contents(file)) is None,
    {
        match file {
            None => Ok(Self::empty()),
            Some(b) => match decode_ledger(b) {
                Some(st) => Ok(st),
                None => Err(RsyncError::CorruptLedger),
            },
        }
    }

    /// The contents of the ledger's file.
    pub fn persist(&self) -> (r: Vec<u8>)
        ensures
            r@ == ledger_bytes(self.current, self.old@),
    {
        encode_ledger(self)
    }

    /// Whether `r` is the current revision or one of the deprecated ones.
    pub fn contains(&self, r: &RsyncRevision) -> (b: bool)
        ensures
            b == self.knows(*r),
    {
        if let Some(c) = &self.current {
            if *c == *r {
                return true;
            }
        }
        let mut i: usize = 0;
        while i < self.old.len()
            invariant
                i <= self.old@.len(),
                forall|k: int| 0 <= k < i ==> self.old@[k].revision != *r,
                self.current != Some(*r),
            decreases self.old@.len() - i,
        {
            if self.old[i].revision == *r {
                return true;
            }
            i = i + 1;
        }
        false
    }

    /// Whether the ledger invariant holds.
    pub fn check_wf(&self) -> (b: bool)
        ensures
            b == self.wf(),
    {
        let n = self.old.len();
        let mut i: usize = 0;
        while i < n
            invariant
                n == self.old@.len(),
                i <= n,
                forall|a: int, b: int| 0 <= a < b < n && a < i ==> self.old@[a].revision != self.old@[b].revision,
                self.current matches Some(c) ==> forall|a: int| 0 <= a < i ==> self.old@[a].revision != c,
            decreases n - i,
        {
            if let Some(c) = &self.current {
                if self.old[i].revision == *c {
                    return false;
                }
            }
            let mut j: usize = i + 1;
            while j < n
                invariant
                    n == self.old@.len(),
                    i < n,
                    i < j <= n,
                    forall|b: int| i < b < j ==> self.old@[i as int].revision != self.old@[b].revision,
                decreases n - j,
            {
                if self.old[i].revision == self.old[j].revision {
                    return false;
                }
                j = j + 1;
            }
            i = i + 1;
        }
        true
    }

    /// Makes `new` the current revision; the previous current revision, if
    /// any, is listed as deprecated since `now`.
    pub fn update_current(&mut self, new: RsyncRevision, now: u64)
        requires
            old(self).wf(),
            !old(self).knows(new),
        ensures
            final(self).current == Some(new),
            final(self).old@ == old_after_update(old(self).current, old(self).old@, now),
            final(self).wf(),
    {
        let existing = self.current;
        self.current = Some(new);
        if let Some(existing) = existing {
            self.old.push(existing.deprecate(now));
        }
        proof {
            let o = self.old@;
            if let Some(e) = existing {
                assert forall|i: int| 0 <= i < o.len() implies o[i].revision != new by {
                    if i < o.len() - 1 {
                        assert(old(self).old@[i] == o[i]);
                    }
                }
            }
        }
    }

    /// Forgets the deprecated revisions that have outlived the retention
    /// period `retention` at time `now`, and returns them, so that their
    /// directories can be removed.
    pub fn clean_old(&mut self, now: u64, retention: u64) -> (removed: Vec<RsyncRevision>)
        requires
            old(self).wf(),
        ensures
            final(self).current == old(self).current,
            final(self).old@ == kept_entries(old(self).old@, now, retention),
            removed@ == expired_revisions(old(self).old@, now, retention),
            final(self).wf(),
    {
        let ghost before = self.old@;
        let mut kept: Vec<DeprecatedRsyncRevision> = Vec::new();
        let mut removed: Vec<RsyncRevision> = Vec::new();
        let mut i: usize = 0;
        while i < self.old.len()
            invariant
                self.old@ == before,
                i <= before.len(),
                kept@ == kept_entries(before.subrange(0, i as int), now, retention),
                removed@ == expired_revisions(before.subrange(0, i as int), now, retention),
            decreases before.len() - i,
        {
            let d = self.old[i];
            proof {
                assert(before.subrange(0, i as int + 1).drop_last() =~= before.subrange(0, i as int));
            }
            if d.since < now && now - d.since > retention {
                removed.push(d.revision);
            } else {
                kept.push(d);
            }
            i = i + 1;
        }
        proof {
            assert(before.subrange(0, before.len() as int) =~= before);
            lemma_kept_wf(self.current, before, now, retention);
        }
        self.old = kept;
        removed
    }
}

/// Recovering from the file contents that `persist` gives for a ledger that
/// holds the ledger invariant yields that same ledger.
pub proof fn lemma_persist_recover(state: RsyncDirState)
    requires
        state.wf(),
    ensures
        recovered_ledger(Some(ledger_bytes(state.current, state.old@))) == Some((state.current, state.old@)),
{
    lemma_ledger_round_trip(state.current, state.old@);
}

/// Every kept entry is an entry of `old` that has not expired.
pub proof fn lemma_kept_members(old: Seq<DeprecatedRsyncRevision>, now: u64, retention: u64, d: DeprecatedRsyncRevision)
    ensures
        kept_entries(old, now, retention).contains(d) <==> (old.contains(d) && !is_expired(d.since, now, retention)),
    decreases old.len(),
{
    if old.len() > 0 {
        let rest = old.drop_last();
        let k = kept_entries(rest, now, retention);
        lemma_kept_members(rest, now, retention, d);
        if old.contains(d) && d != old.last() {
            let i = choose|i: int| 0 <= i < old.len() && old[i] == d;
            assert(rest[i] == d);
        }
        if rest.contains(d) {
            let i = choose|i: int| 0 <= i < rest.len() && rest[i] == d;
            assert(old[i] == d);
        }
        assert(old[old.len() - 1] == old.last());
        if !is_expired(old.last().since, now, retention) {
            let kk = k.push(old.last());
            assert(kk[k.len() as int] == old.last());
            if kk.contains(d) {
                let i = choose|i: int| 0 <= i < kk.len() && kk[i] == d;
                if i < k.len() {
                    assert(k[i] == d);
                }
            }
            if k.contains(d) {
                let i = choose|i: int| 0 <= i < k.len() && k[i] == d;
                assert(kk[i] == d);
            }
        }
    }
}

/// The revisions that pruning removes are those of the expired entries of `old`.
pub proof fn lemma_expired_members(old: Seq<DeprecatedRsyncRevision>, now: u64, retention: u64, d: DeprecatedRsyncRevision)
    requires
        old.contains(d),
    ensures
        is_expired(d.since, now, retention) ==> expired_revisions(old, now, retention).contains(d.revision),
    decreases old.len(),
{
    let e = expired_revisions(old, now, retention);
    if d == old.last() {
        if is_expired(d.since, now, retention) {
            assert(e.last() == d.revision);
        }
    } else {
        let i = choose|i: int| 0 <= i < old.len() && old[i] == d;
        assert(old.drop_last()[i] == d);
        lemma_expired_members(old.drop_last(), now, retention, d);
        if is_expired(d.since, now, retention) {
            let r = expired_revisions(old.drop_last(), now, retention);
            let k = choose|k: int| 0 <= k < r.len() && r[k] == d.revision;
            if is_expired(old.last().since, now, retention) {
                assert(e[k] == d.revision);
            }
        }
    }
}

proof fn lemma_kept_wf(current: Option<RsyncRevision>, old: Seq<DeprecatedRsyncRevision>, now: u64, retention: u64)
    requires
        ledger_wf(current, old),
    ensures
        ledger_wf(current, kept_entries(old, now, retention)),
    decreases old.len(),
{
    if old.len() > 0 {
        let rest = old.drop_last();
        assert(ledger_wf(current, rest)) by {
            if let Some(c) = current {
                if is_listed(rest, c) {
                    let i = choose|i: int| 0 <= i < rest.len() && rest[i].revision == c;
                    assert(old[i].revision == c);
                }
            }
        }
        lemma_kept_wf(current, rest, now, retention);
        let k = kept_entries(rest, now, retention);
        if !is_expired(old.last().since, now, retention) {
            let kk = k.push(old.last());
            assert forall|i: int| 0 <= i < k.len() implies k[i].revision != old.last().revision by {
                assert(k.contains(k[i]));
                lemma_kept_members(rest, now, retention, k[i]);
                let j = choose|j: int| 0 <= j < rest.len() && rest[j] == k[i];
                assert(old[j] == k[i]);
            }
            assert(revisions_distinct(kk)) by {
                assert forall|i: int, j: int| 0 <= i < j < kk.len() implies kk[i].revision != kk[j].revision by {
                    if j == kk.len() - 1 {
                        assert(kk[i] == k[i]);
                    } else {
                        assert(kk[i] == k[i] && kk[j] == k[j]);
                    }
                }
            }
            if let Some(c) = current {
                assert(!is_listed(old, c));
                assert(old.last().revision != c);
                if is_listed(kk, c) {
                    let i = choose|i: int| 0 <= i < kk.len() && kk[i].revision == c;
                    if i < k.len() {
                        assert(kk[i] == k[i]);
                        assert(is_listed(k, c));
                    }
                }
            }
        }
    }
}

/// Every removed revision belongs to an expired entry of `old`.
pub proof fn lemma_expired_origin(old: Seq<DeprecatedRsyncRevision>, now: u64, retention: u64, r: RsyncRevision)
    requires
        expired_revisions(old, now, retention).contains(r),
    ensures
        exists|i: int| 0 <= i < old.len() && old[i].revision == r && is_expired(old[i].since, now, retention),
    decreases old.len(),
{
    let rest = old.drop_last();
    let e = expired_revisions(rest, now, retention);
    if e.contains(r) {
        lemma_expired_origin(rest, now, retention, r);
        let i = choose|i: int| 0 <= i < rest.len() && rest[i].revision == r && is_expired(rest[i].since, now, retention);
        assert(old[i] == rest[i]);
    } else {
        let k = choose|k: int| 0 <= k < expired_revisions(old, now, retention).len() && expired_revisions(old, now, retention)[k] == r;
        if !is_expired(old.last().since, now, retention) || k < e.len() {
            assert(e[k] == r);
        }
        assert(old[old.len() - 1] == old.last());
    }
}

/// Pruning at time `now` with retention period `retention` drops an entry
/// deprecated one second before `now - retention` and reports its revision for
/// removal, and keeps an entry deprecated one second after `now - retention`
/// without reporting it.
pub proof fn lemma_prune_threshold(state: RsyncDirState, now: u64, retention: u64, d: DeprecatedRsyncRevision)
    requires
        state.wf(),
        state.old@.contains(d),
    ensures
        d.since as int == now as int - retention as int - 1 ==> !kept_entries(state.old@, now, retention).contains(d)
            && expired_revisions(state.old@, now, retention).contains(d.revision),
        d.since as int == now as int - retention as int + 1 ==> kept_entries(state.old@, now, retention).contains(d)
            && !expired_revisions(state.old@, now, retention).contains(d.revision),
{
    let old = state.old@;
    lemma_kept_members(old, now, retention, d);
    lemma_expired_members(old, now, retention, d);
    if expired_revisions(old, now, retention).contains(d.revision) {
        lemma_expired_origin(old, now, retention, d.revision);
        let i = choose|i: int| 0 <= i < old.len() && old[i].revision == d.revision && is_expired(old[i].since, now, retention);
        let j = choose|j: int| 0 <= j < old.len() && old[j] == d;
        if i != j {
            assert(i < j || j < i);
        }
    }
}

} // verus!
