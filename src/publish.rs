//! One publication cycle, planned as an ordered list of filesystem steps.
//!
//! The plan writes a new revision's objects into the revision's own
//! directory, makes that directory the one that readers see at `current`,
//! removes the directories of deprecated revisions that have outlived the
//! retention period, and finally writes the ledger file. Whoever carries out
//! the plan performs the steps in order and stops at the first failure, so a
//! ledger file is only written once everything before it has succeeded.
//!
//! A revision directory written by a cycle that failed before its ledger
//! write is named by no ledger and is left where it is: later cycles do not
//! look for such directories.
use vstd::prelude::*;
use crate::codec::ledger_bytes;
use crate::error::RsyncError;
use crate::ledger::{
    expired_revisions, file_contents, is_listed, kept_entries, old_after_update, recovered_ledger,
    RsyncDirState,
};
use crate::revision::{dir_name_of, revision_path_of, DeprecatedRsyncRevision, RsyncRevision};

verus! {

/// Where and how revisions are published.
#[derive(Clone, Debug, PartialEq, Eq)]
pub struct Config {
    /// The directory that holds the revision directories, `current` and the
    /// ledger file.
    pub rsync_dir: String,
    /// Publish by swapping a symbolic link (otherwise by renaming directories).
    pub use_symlinks: bool,
    /// How long, in seconds, a deprecated revision's directory is kept.
    pub cleanup_after: u64,
}

pub open spec fn current_path_of(base: Seq<char>) -> Seq<char> {
    base + "/current"@
}

pub open spec fn tmp_link_path_of(base: Seq<char>) -> Seq<char> {
    current_path_of(base) + ".tmp"@
}

pub open spec fn state_path_of(base: Seq<char>) -> Seq<char> {
    base + "/.rsync_state"@
}

impl Config {
    /// The stable path that readers use.
    pub fn rsync_dir_current(&self) -> (r: String)
        ensures
            r@ == current_path_of(self.rsync_dir@),
    {
        let mut s = String::from_str(self.rsync_dir.as_str());
        s.append("/current");
        s
    }

    /// Where a new symbolic link is made before it replaces `current`.
    pub fn rsync_dir_current_tmp(&self) -> (r: String)
        ensures
            r@ == tmp_link_path_of(self.rsync_dir@),
    {
        let mut s = self.rsync_dir_current();
        s.append(".tmp");
        s
    }

    /// The path of the ledger file.
    pub fn rsync_state_path(&self) -> (r: String)
        ensures
            r@ == state_path_of(self.rsync_dir@),
    {
        let mut s = String::from_str(self.rsync_dir.as_str());
        s.append("/.rsync_state");
        s
    }

    pub fn rsync_dir_use_symlinks(&self) -> (r: bool)
        ensures
            r == self.use_symlinks,
    {
        self.use_symlinks
    }
}

/// One object of a snapshot: its rsync URI and its contents.
#[derive(Clone, Debug, PartialEq, Eq)]
pub struct CurrentObject {
    pub uri: String,
    pub data: Vec<u8>,
}

/// A snapshot to publish.
#[derive(Clone, Debug, PartialEq, Eq)]
pub struct RrdpState {
    pub session_id: u128,
    pub serial: u64,
    pub elements: Vec<CurrentObject>,
}

/// A filesystem step of a plan.
#[derive(Clone, Debug, PartialEq, Eq)]
pub enum FsAction {
    /// Write `data` to `path`, creating parent directories; the file appears
    /// under its name only once complete.
    WriteFile { path: String, data: Vec<u8> },
    /// Remove the file or link at `path` if there is one.
    RemoveFileIfExists { path: String },
    /// Make a symbolic link at `link` that points to `target`.
    Symlink { target: String, link: String },
    /// Rename `from` to `to`.
    Rename { from: String, to: String },
    /// Rename `from` to `to` if `from` exists.
    RenameIfExists { from: String, to: String },
    /// Remove the directory tree at `path` if there is one.
    RemoveDirAllIfExists { path: String },
}

/// What a step does, on plain values.
pub ghost enum FsStep {
    WriteFile { path: Seq<char>, data: Seq<u8> },
    RemoveFileIfExists { path: Seq<char> },
    Symlink { target: Seq<char>, link: Seq<char> },
    Rename { from: Seq<char>, to: Seq<char> },
    RenameIfExists { from: Seq<char>, to: Seq<char> },
    RemoveDirAllIfExists { path: Seq<char> },
}

impl View for FsAction {
    type V = FsStep;

    open spec fn view(&self) -> FsStep {
        match self {
            FsAction::WriteFile { path, data } => FsStep::WriteFile { path: path@, data: data@ },
            FsAction::RemoveFileIfExists { path } => FsStep::RemoveFileIfExists { path: path@ },
            FsAction::Symlink { target, link } => FsStep::Symlink { target: target@, link: link@ },
            FsAction::Rename { from, to } => FsStep::Rename { from: from@, to: to@ },
            FsAction::RenameIfExists { from, to } => FsStep::RenameIfExists { from: from@, to: to@ },
            FsAction::RemoveDirAllIfExists { path } => FsStep::RemoveDirAllIfExists { path: path@ },
        }
    }
}

pub open spec fn steps_of(actions: Seq<FsAction>) -> Seq<FsStep> {
    actions.map_values(|a: FsAction| a@)
}

/// The repository path of an rsync URI: what follows its module.
pub uninterp spec fn rsync_path_of(uri: Seq<char>) -> Option<Seq<char>>;

/// Relies on `rpki::uri::Rsync::from_slice`, which parses an rsync URI, and
/// `rpki::uri::Rsync::path`, the part after the module: both depend on the
/// URI text alone.
#[verifier::external_body]
fn make_rsync_repo_path(uri: &str) -> (r: Option<String>)
    ensures
        r matches Some(p) ==> rsync_path_of(uri@) == Some(p@),
        r is None ==> rsync_path_of(uri@) is None,
{
    match rpki::uri::Rsync::from_slice(uri.as_bytes()) {
        Ok(u) => Some(u.path().to_string()),
        Err(_) => None,
    }
}

/// Whether every object's URI is a valid rsync URI.
pub open spec fn uris_valid(elements: Seq<CurrentObject>) -> bool {
    forall|i: int| 0 <= i < elements.len() ==> (#[trigger] rsync_path_of(elements[i].uri@)) is Some
}

/// The steps that write the objects into the directory `out`.
pub open spec fn content_steps(out: Seq<char>, elements: Seq<CurrentObject>) -> Seq<FsStep>
    decreases elements.len(),
{
    if elements.len() == 0 {
        Seq::empty()
    } else {
        let e = elements.last();
        content_steps(out, elements.drop_last()).push(
            FsStep::WriteFile { path: out + "/"@ + rsync_path_of(e.uri@)->0, data: e.data@ },
        )
    }
}

/// The steps that point the symbolic link `current` at `new`'s directory.
pub open spec fn symlink_steps(base: Seq<char>, new: RsyncRevision) -> Seq<FsStep> {
    seq![
        FsStep::RemoveFileIfExists { path: tmp_link_path_of(base) },
        FsStep::Symlink { target: dir_name_of(new), link: tmp_link_path_of(base) },
        FsStep::Rename { from: tmp_link_path_of(base), to: current_path_of(base) },
    ]
}

/// The steps that move the directory at `current` back to its revision's own
/// name and then move `new`'s directory to `current`.
pub open spec fn rename_steps(base: Seq<char>, new: RsyncRevision, current: Option<RsyncRevision>) -> Seq<FsStep> {
    let back_up = match current {
        Some(c) => seq![FsStep::RenameIfExists { from: current_path_of(base), to: revision_path_of(base, c) }],
        None => Seq::empty(),
    };
    back_up.push(FsStep::Rename { from: revision_path_of(base, new), to: current_path_of(base) })
}

/// The steps that remove the directories of the revisions `revs`.
pub open spec fn prune_steps(base: Seq<char>, revs: Seq<RsyncRevision>) -> Seq<FsStep> {
    revs.map_values(|r: RsyncRevision| FsStep::RemoveDirAllIfExists { path: revision_path_of(base, r) })
}

/// The steps that write a new revision's objects and publish its directory.
pub open spec fn publication_steps(
    base: Seq<char>,
    use_symlinks: bool,
    new: RsyncRevision,
    elements: Seq<CurrentObject>,
    current: Option<RsyncRevision>,
) -> Seq<FsStep> {
    content_steps(revision_path_of(base, new), elements) + if use_symlinks {
        symlink_steps(base, new)
    } else {
        rename_steps(base, new, current)
    }
}

/// The steps that prune the deprecated entries `old` and then write the ledger.
pub open spec fn closing_steps(
    base: Seq<char>,
    current: Option<RsyncRevision>,
    old: Seq<DeprecatedRsyncRevision>,
    retention: u64,
    now: u64,
) -> Seq<FsStep> {
    prune_steps(base, expired_revisions(old, now, retention)) + seq![
        FsStep::WriteFile { path: state_path_of(base), data: ledger_bytes(current, kept_entries(old, now, retention)) },
    ]
}

/// The outcome of a cycle: the ledger after it and its steps, or the error
/// that stops it.
pub open spec fn cycle_outcome(
    file: Option<Seq<u8>>,
    session_id: u128,
    serial: u64,
    elements: Seq<CurrentObject>,
    changed: bool,
    base: Seq<char>,
    use_symlinks: bool,
    retention: u64,
    now: u64,
) -> Result<(Option<RsyncRevision>, Seq<DeprecatedRsyncRevision>, Seq<FsStep>), RsyncError> {
    let new = RsyncRevision { session_id, serial };
    match recovered_ledger(file) {
        None => Err(RsyncError::CorruptLedger),
        Some((current, old)) => {
            if changed && (current == Some(new) || is_listed(old, new)) {
                Err(RsyncError::RevisionExists)
            } else if changed && !uris_valid(elements) {
                Err(RsyncError::InvalidUri)
            } else {
                let next_current = if changed { Some(new) } else { current };
                let next_old = if changed { old_after_update(current, old, now) } else { old };
                let publish = if changed {
                    publication_steps(base, use_symlinks, new, elements, current)
                } else {
                    Seq::empty()
                };
                let kept = kept_entries(next_old, now, retention);
                let steps = publish + closing_steps(base, next_current, next_old, retention, now);
                Ok((next_current, kept, steps))
            }
        },
    }
}

/// The result of planning a cycle: the ledger it leaves and its steps.
#[derive(Clone, Debug, PartialEq, Eq)]
pub struct CyclePlan {
    pub state: RsyncDirState,
    pub actions: Vec<FsAction>,
}

fn copy_bytes(v: &Vec<u8>) -> (r: Vec<u8>)
    ensures
        r@ == v@,
{
    let mut r: Vec<u8> = Vec::new();
    let mut i: usize = 0;
    while i < v.len()
        invariant
            i <= v@.len(),
            r@ == v@.subrange(0, i as int),
        decreases v@.len() - i,
    {
        r.push(v[i]);
        proof {
            assert(r@ =~= v@.subrange(0, i as int + 1));
        }
        i = i + 1;
    }
    assert(v@.subrange(0, v@.len() as int) =~= v@);
    r
}

/// The steps that write every object into `out_path`, at the path its URI
/// names below the module; `None` if a URI is not a valid rsync URI.
pub fn write_rsync_content(out_path: &str, elements: &Vec<CurrentObject>) -> (r: Option<Vec<FsAction>>)
    ensures
        r is Some <==> uris_valid(elements@),
        r matches Some(actions) ==> steps_of(actions@) == content_steps(out_path@, elements@),
{
    let mut actions: Vec<FsAction> = Vec::new();
    let mut i: usize = 0;
    while i < elements.len()
        invariant
            i <= elements@.len(),
            uris_valid(elements@.subrange(0, i as int)),
            steps_of(actions@) == content_steps(out_path@, elements@.subrange(0, i as int)),
        decreases elements@.len() - i,
    {
        let element = &elements[i];
        let ghost prefix = elements@.subrange(0, i as int + 1);
        proof {
            assert(prefix.drop_last() =~= elements@.subrange(0, i as int));
        }
        let repo_path = match make_rsync_repo_path(element.uri.as_str()) {
            Some(p) => p,
            None => {
                proof {
                    assert(elements@[i as int] == *element);
                }
                return None;
            },
        };
        let mut path = String::from_str(out_path);
        path.append("/");
        path.append(repo_path.as_str());
        let data = copy_bytes(&element.data);
        let ghost before = actions@;
        actions.push(FsAction::WriteFile { path, data });
        proof {
            assert(steps_of(actions@) =~= steps_of(before).push(actions@.last()@));
            assert forall|k: int| 0 <= k < prefix.len() implies (#[trigger] rsync_path_of(prefix[k].uri@)) is Some by {
                if k < i {
                    assert(prefix[k] == elements@.subrange(0, i as int)[k]);
                }
            }
        }
        i = i + 1;
    }
    proof {
        assert(elements@.subrange(0, elements@.len() as int) =~= elements@);
    }
    Some(actions)
}

/// The steps that point the symbolic link `current` at the new revision's
/// directory: a link is made under a temporary name and then renamed over
/// `current`, so that readers see either the old or the new target.
pub fn symlink_current_to_new_revision_dir(new_revision: &RsyncRevision, config: &Config) -> (r: Vec<FsAction>)
    ensures
        steps_of(r@) == symlink_steps(config.rsync_dir@, *new_revision),
{
    let current_path = config.rsync_dir_current();
    let tmp_name = config.rsync_dir_current_tmp();
    let mut actions: Vec<FsAction> = Vec::new();
    actions.push(FsAction::RemoveFileIfExists { path: config.rsync_dir_current_tmp() });
    actions.push(FsAction::Symlink { target: new_revision.dir_name(), link: tmp_name });
    actions.push(FsAction::Rename { from: config.rsync_dir_current_tmp(), to: current_path });
    assert(steps_of(actions@) =~= symlink_steps(config.rsync_dir@, *new_revision));
    actions
}

/// The steps that move the directory at `current`, if the ledger has a current
/// revision and the directory exists, back to that revision's own name, and
/// then move the new revision's directory to `current`. Between the two
/// renames `current` does not exist.
pub fn rename_new_revision_dir_to_current(
    new_revision: &RsyncRevision,
    rsync_state: &RsyncDirState,
    config: &Config,
) -> (r: Vec<FsAction>)
    ensures
        steps_of(r@) == rename_steps(config.rsync_dir@, *new_revision, rsync_state.current),
{
    let mut actions: Vec<FsAction> = Vec::new();
    if let Some(current) = &rsync_state.current {
        actions.push(
            FsAction::RenameIfExists {
                from: config.rsync_dir_current(),
                to: current.path(config.rsync_dir.as_str()),
            },
        );
    }
    actions.push(
        FsAction::Rename {
            from: new_revision.path(config.rsync_dir.as_str()),
            to: config.rsync_dir_current(),
        },
    );
    assert(steps_of(actions@) =~= rename_steps(config.rsync_dir@, *new_revision, rsync_state.current));
    actions
}

/// The steps that write the new revision's objects and publish its
/// directory, if the revision is new to the ledger and every URI is valid.
fn plan_publication(
    rsync_state: &RsyncDirState,
    new_revision: &RsyncRevision,
    elements: &Vec<CurrentObject>,
    config: &Config,
) -> (r: Result<Vec<FsAction>, RsyncError>)
    ensures
        r matches Ok(a) ==> !rsync_state.knows(*new_revision) && uris_valid(elements@) && steps_of(a@)
            == publication_steps(config.rsync_dir@, config.use_symlinks, *new_revision, elements@, rsync_state.current),
        r matches Err(e) ==> (rsync_state.knows(*new_revision) && e == RsyncError::RevisionExists) || (
        !rsync_state.knows(*new_revision) && !uris_valid(elements@) && e == RsyncError::InvalidUri),
{
    if rsync_state.contains(new_revision) {
        return Err(RsyncError::RevisionExists);
    }
    let out_path = new_revision.path(config.rsync_dir.as_str());
    let mut actions = match write_rsync_content(out_path.as_str(), elements) {
        Some(a) => a,
        None => return Err(RsyncError::InvalidUri),
    };
    let mut switch = if config.rsync_dir_use_symlinks() {
        symlink_current_to_new_revision_dir(new_revision, config)
    } else {
        rename_new_revision_dir_to_current(new_revision, rsync_state, config)
    };
    let ghost content = actions@;
    let ghost sw = switch@;
    actions.append(&mut switch);
    proof {
        assert(steps_of(actions@) =~= steps_of(content) + steps_of(sw));
    }
    Ok(actions)
}

/// Prunes the ledger and returns the steps that remove the pruned revisions'
/// directories and then write the ledger file.
fn plan_closing(rsync_state: &mut RsyncDirState, config: &Config, now: u64) -> (r: Vec<FsAction>)
    requires
        old(rsync_state).wf(),
    ensures
        final(rsync_state).wf(),
        final(rsync_state).current == old(rsync_state).current,
        final(rsync_state).old@ == kept_entries(old(rsync_state).old@, now, config.cleanup_after),
        steps_of(r@) == closing_steps(
            config.rsync_dir@,
            old(rsync_state).current,
            old(rsync_state).old@,
            config.cleanup_after,
            now,
        ),
{
    let base = config.rsync_dir.as_str();
    let removed = rsync_state.clean_old(now, config.cleanup_after);
    let mut actions: Vec<FsAction> = Vec::new();
    let mut i: usize = 0;
    while i < removed.len()
        invariant
            i <= removed@.len(),
            steps_of(actions@) == prune_steps(config.rsync_dir@, removed@.subrange(0, i as int)),
            base@ == config.rsync_dir@,
        decreases removed@.len() - i,
    {
        let ghost before = actions@;
        actions.push(FsAction::RemoveDirAllIfExists { path: removed[i].path(base) });
        proof {
            assert(removed@.subrange(0, i as int + 1) =~= removed@.subrange(0, i as int).push(removed@[i as int]));
            assert(steps_of(actions@) =~= steps_of(before).push(actions@.last()@));
            assert(prune_steps(config.rsync_dir@, removed@.subrange(0, i as int + 1)) =~= prune_steps(
                config.rsync_dir@,
                removed@.subrange(0, i as int),
            ).push(FsStep::RemoveDirAllIfExists { path: revision_path_of(config.rsync_dir@, removed@[i as int]) }));
        }
        i = i + 1;
    }
    proof {
        assert(removed@.subrange(0, removed@.len() as int) =~= removed@);
    }
    let ledger = rsync_state.persist();
    let ghost before = actions@;
    actions.push(FsAction::WriteFile { path: config.rsync_state_path(), data: ledger });
    proof {
        assert(steps_of(actions@) =~= steps_of(before).push(actions@.last()@));
    }
    actions
}

/// Plans one publication cycle.
///
/// `ledger_file` is the contents of the ledger file, if there is one;
/// `changed` says whether the snapshot differs from the published one; `now`
/// is the time in seconds. With `changed` the snapshot's objects are written
/// into the new revision's directory, that directory is published, and the
/// revision becomes current. In any case the deprecated revisions past the
/// retention period are removed, and the ledger is written last.
pub fn update_from_rrdp_state(
    ledger_file: Option<&Vec<u8>>,
    rrdp_state: &RrdpState,
    changed: bool,
    config: &Config,
    now: u64,
) -> (r: Result<CyclePlan, RsyncError>)
    ensures
        r matches Ok(plan) ==> plan.state.wf() && cycle_outcome(
            file_contents(ledger_file),
            rrdp_state.session_id,
            rrdp_state.serial,
            rrdp_state.elements@,
            changed,
            config.rsync_dir@,
            config.use_symlinks,
            config.cleanup_after,
            now,
        ) == Ok::<_, RsyncError>((plan.state.current, plan.state.old@, steps_of(plan.actions@))),
        r matches Err(e) ==> cycle_outcome(
            file_contents(ledger_file),
            rrdp_state.session_id,
            rrdp_state.serial,
            rrdp_state.elements@,
            changed,
            config.rsync_dir@,
            config.use_symlinks,
            config.cleanup_after,
            now,
        ) == Err::<(Option<RsyncRevision>, Seq<DeprecatedRsyncRevision>, Seq<FsStep>), _>(e),
{
    let mut rsync_state = match RsyncDirState::recover(ledger_file) {
        Ok(st) => st,
        Err(e) => return Err(e),
    };
    let new_revision = RsyncRevision { session_id: rrdp_state.session_id, serial: rrdp_state.serial };
    let mut actions: Vec<FsAction> = Vec::new();
    if changed {
        actions = match plan_publication(&rsync_state, &new_revision, &rrdp_state.elements, config) {
            Ok(a) => a,
            Err(e) => return Err(e),
        };
        rsync_state.update_current(new_revision, now);
    }
    let ghost publish = steps_of(actions@);
    let mut closing = plan_closing(&mut rsync_state, config, now);
    let ghost c = closing@;
    let ghost p = actions@;
    actions.append(&mut closing);
    proof {
        assert(steps_of(actions@) =~= steps_of(p) + steps_of(c));
        if !changed {
            assert(publish =~= Seq::empty());
        }
    }
    Ok(CyclePlan { state: rsync_state, actions })
}

/// A cycle for unchanged content fails only on a corrupt ledger; otherwise it
/// keeps the current revision, still prunes the deprecated ones, and its
/// steps only remove pruned revisions' directories before writing the ledger
/// file: no revision directory is written, renamed or linked.
pub proof fn lemma_unchanged_cycle(
    file: Option<Seq<u8>>,
    session_id: u128,
    serial: u64,
    elements: Seq<CurrentObject>,
    base: Seq<char>,
    use_symlinks: bool,
    retention: u64,
    now: u64,
)
    ensures
        match cycle_outcome(file, session_id, serial, elements, false, base, use_symlinks, retention, now) {
            Ok((current, old, steps)) => recovered_ledger(file) matches Some((c0, o0)) && current == c0
                && old == kept_entries(o0, now, retention) && steps.len() >= 1
                && steps.last() == (FsStep::WriteFile { path: state_path_of(base), data: ledger_bytes(current, old) })
                && forall|i: int| 0 <= i < steps.len() - 1 ==> #[trigger] steps[i] == (FsStep::RemoveDirAllIfExists {
                    path: revision_path_of(base, expired_revisions(o0, now, retention)[i]),
                }),
            Err(e) => e == RsyncError::CorruptLedger && recovered_ledger(file) is None,
        },
{
    if let Some((c0, o0)) = recovered_ledger(file) {
        let steps = Seq::<FsStep>::empty() + closing_steps(base, c0, o0, retention, now);
        assert(steps =~= closing_steps(base, c0, o0, retention, now));
        let prune = prune_steps(base, expired_revisions(o0, now, retention));
        assert forall|i: int| 0 <= i < steps.len() - 1 implies #[trigger] steps[i] == (FsStep::RemoveDirAllIfExists {
            path: revision_path_of(base, expired_revisions(o0, now, retention)[i]),
        }) by {
            assert(steps[i] == prune[i]);
        }
    }
}

} // verus!
