//! What to do with each entry of a downloaded archive.
//!
//! The installer decides; it writes nothing itself. Given the directory to
//! install into, the name of the subtree that an installation must leave
//! alone, and the entries of the archive in the order the archive lists
//! them, it says for each entry whether to skip it, to create a directory
//! or to write a file, and where. After the entries it names the reserved
//! directory, which must exist afterwards, and the version marker with the
//! text to write into it.

use vstd::prelude::*;
use crate::paths::{
    child,
    is_descendant,
    is_reserved,
    kept_components,
    lemma_sanitized_is_descendant,
    sanitize_zip_path,
    sanitized,
    touches_reserved,
};
use crate::text::{clone_strings, same_ignoring_ascii_case, trim, trimmed};

verus! {

/// What an archive says of one entry.
#[derive(Clone, Debug, PartialEq, Eq)]
pub struct ArchiveEntry {
    /// The path as stored: text from outside, not to be trusted.
    pub name: String,
    pub is_dir: bool,
    /// Unix permission bits, if the archive records them.
    pub unix_mode: Option<u32>,
}

pub struct EntryModel {
    pub name: Seq<char>,
    pub is_dir: bool,
    pub unix_mode: Option<u32>,
}

impl View for ArchiveEntry {
    type V = EntryModel;

    open spec fn view(&self) -> EntryModel {
        EntryModel { name: self.name@, is_dir: self.is_dir, unix_mode: self.unix_mode }
    }
}

/// What is done for one entry.
#[derive(Clone, Debug, PartialEq, Eq)]
pub enum EntryAction {
    /// Nothing: the entry lies in the reserved subtree.
    Skip,
    /// Create the directory and its parents.
    CreateDir { path: Vec<String> },
    /// Create the parents, write the entry's content to the file, and set
    /// the permission bits where there are any and the platform has them.
    WriteFile { path: Vec<String>, unix_mode: Option<u32> },
}

pub enum ActionModel {
    Skip,
    CreateDir { path: Seq<Seq<char>> },
    WriteFile { path: Seq<Seq<char>>, unix_mode: Option<u32> },
}

impl View for EntryAction {
    type V = ActionModel;

    open spec fn view(&self) -> ActionModel {
        match self {
            EntryAction::Skip => ActionModel::Skip,
            EntryAction::CreateDir { path } => ActionModel::CreateDir { path: path.deep_view() },
            EntryAction::WriteFile { path, unix_mode } => ActionModel::WriteFile {
                path: path.deep_view(),
                unix_mode: *unix_mode,
            },
        }
    }
}

impl ActionModel {
    /// The place that the action creates or writes, if any.
    pub open spec fn touched(self) -> Option<Seq<Seq<char>>> {
        match self {
            ActionModel::Skip => None,
            ActionModel::CreateDir { path } => Some(path),
            ActionModel::WriteFile { path, .. } => Some(path),
        }
    }
}

/// The name of the file that holds the installed version.
pub open spec fn version_marker_name() -> Seq<char> {
    ".version"@
}

/// The name of the file that marks an installation with its version.
pub fn version_marker() -> (name: &'static str)
    ensures
        name@ == version_marker_name(),
{
    ".version"
}

/// The subtree that holds what the player saved, which an installation
/// leaves alone unless told of another.
pub fn saves_subtree() -> (name: &'static str)
    ensures
        name@ == "Saves"@,
{
    "Saves"
}

/// The action for `entry` when installing into `target`.
pub open spec fn action_for(
    target: Seq<Seq<char>>,
    reserved: Seq<char>,
    entry: EntryModel,
) -> ActionModel {
    let path = sanitized(target, entry.name);
    if touches_reserved(path, reserved) {
        ActionModel::Skip
    } else if entry.is_dir {
        ActionModel::CreateDir { path }
    } else {
        ActionModel::WriteFile { path, unix_mode: entry.unix_mode }
    }
}

/// The actions for `entries`, one for each, in their order.
pub open spec fn actions_for(
    target: Seq<Seq<char>>,
    reserved: Seq<char>,
    entries: Seq<EntryModel>,
) -> Seq<ActionModel> {
    Seq::new(entries.len(), |i: int| action_for(target, reserved, entries[i]))
}

/// How many of `actions` write a file.
pub open spec fn files_written(actions: Seq<ActionModel>) -> nat
    decreases actions.len(),
{
    if actions.len() == 0 {
        0
    } else {
        files_written(actions.drop_last()) + if actions.last() is WriteFile {
            1nat
        } else {
            0nat
        }
    }
}

/// The models of `entries`.
pub open spec fn entry_models(entries: Seq<ArchiveEntry>) -> Seq<EntryModel> {
    Seq::new(entries.len(), |i: int| entries[i]@)
}

/// The models of `actions`.
pub open spec fn action_models(actions: Seq<EntryAction>) -> Seq<ActionModel> {
    Seq::new(actions.len(), |i: int| actions[i]@)
}

/// All that an installation does, in order: the target directory is made
/// sure of, each entry has its action, the reserved directory is made sure
/// of, and the version is marked.
#[derive(Clone, Debug, PartialEq, Eq)]
pub struct InstallPlan {
    /// The directory to install into: created, with its parents, unless it
    /// is there already.
    pub target_dir: Vec<String>,
    /// One action for each entry, in the archive's order.
    pub actions: Vec<EntryAction>,
    /// Number of files that the actions write.
    pub extracted: u64,
    /// The reserved directory: created, empty, unless it is there already.
    pub reserved_dir: Vec<String>,
    /// The file that takes the version text.
    pub version_file: Vec<String>,
    /// The version without white space around it.
    pub version_text: String,
}

pub struct PlanModel {
    pub target_dir: Seq<Seq<char>>,
    pub actions: Seq<ActionModel>,
    pub extracted: nat,
    pub reserved_dir: Seq<Seq<char>>,
    pub version_file: Seq<Seq<char>>,
    pub version_text: Seq<char>,
}

impl View for InstallPlan {
    type V = PlanModel;

    open spec fn view(&self) -> PlanModel {
        PlanModel {
            target_dir: self.target_dir.deep_view(),
            actions: action_models(self.actions@),
            extracted: self.extracted as nat,
            reserved_dir: self.reserved_dir.deep_view(),
            version_file: self.version_file.deep_view(),
            version_text: self.version_text@,
        }
    }
}

/// The plan for installing `entries` into `target`.
pub open spec fn plan_for(
    target: Seq<Seq<char>>,
    reserved: Seq<char>,
    version: Seq<char>,
    entries: Seq<EntryModel>,
) -> PlanModel {
    PlanModel {
        target_dir: target,
        actions: actions_for(target, reserved, entries),
        extracted: files_written(actions_for(target, reserved, entries)),
        reserved_dir: target.push(reserved),
        version_file: target.push(version_marker_name()),
        version_text: trimmed(version),
    }
}

/// Decides what is done for one entry: nothing if its sanitized path has
/// the reserved name among its components, else a directory or a file at
/// that path.
pub fn plan_entry(target: &Vec<String>, reserved: &str, entry: &ArchiveEntry) -> (action:
    EntryAction)
    ensures
        action@ == action_for(target.deep_view(), reserved@, entry@),
{
    let path = sanitize_zip_path(target, entry.name.as_str());
    if is_reserved(&path, reserved) {
        EntryAction::Skip
    } else if entry.is_dir {
        EntryAction::CreateDir { path }
    } else {
        EntryAction::WriteFile { path, unix_mode: entry.unix_mode }
    }
}

/// The version as it is written into the marker: without white space at
/// either end.
pub fn version_marker_text(version: &str) -> (text: String)
    ensures
        text@ == trimmed(version@),
{
    trim(version)
}

/// Plans the installation of an archive with these entries into `target`.
pub fn plan_install(
    target: &Vec<String>,
    reserved: &str,
    version: &str,
    entries: &Vec<ArchiveEntry>,
) -> (plan: InstallPlan)
    ensures
        plan@ == plan_for(target.deep_view(), reserved@, version@, entry_models(entries@)),
{
    let ghost wanted = actions_for(target.deep_view(), reserved@, entry_models(entries@));
    let mut actions: Vec<EntryAction> = Vec::new();
    let mut extracted: u64 = 0;
    let mut i: usize = 0;
    while i < entries.len()
        invariant
            i <= entries.len(),
            wanted == actions_for(target.deep_view(), reserved@, entry_models(entries@)),
            action_models(actions@) == wanted.take(i as int),
            extracted == files_written(wanted.take(i as int)),
            extracted <= i,
        decreases entries.len() - i,
    {
        let action = plan_entry(target, reserved, &entries[i]);
        proof {
            assert(entry_models(entries@)[i as int] == entries[i as int]@);
            assert(wanted[i as int] == action@);
            assert(wanted.take(i + 1).drop_last() == wanted.take(i as int));
            assert(wanted.take(i + 1).last() == action@);
        }
        let writes = match &action {
            EntryAction::WriteFile { .. } => true,
            _ => false,
        };
        if writes {
            extracted = extracted + 1;
        }
        let ghost before = action_models(actions@);
        actions.push(action);
        assert(action_models(actions@) =~= before.push(wanted[i as int]));
        assert(wanted.take(i + 1) == wanted.take(i as int).push(wanted[i as int]));
        i = i + 1;
    }
    assert(wanted.take(entries.len() as int) == wanted);
    InstallPlan {
        target_dir: clone_strings(target),
        actions,
        extracted,
        reserved_dir: child(target, reserved),
        version_file: child(target, version_marker()),
        version_text: version_marker_text(version),
    }
}

/// An entry is skipped exactly when its sanitized path has the reserved
/// name among its components; no other entry's action touches a place with
/// the reserved name in it, and every place touched lies below the target.
pub proof fn lemma_reserved_is_never_touched(
    target: Seq<Seq<char>>,
    reserved: Seq<char>,
    entry: EntryModel,
)
    ensures
        action_for(target, reserved, entry) is Skip <==> touches_reserved(
            sanitized(target, entry.name),
            reserved,
        ),
        action_for(target, reserved, entry).touched() matches Some(path) ==> {
            &&& path == sanitized(target, entry.name)
            &&& !touches_reserved(path, reserved)
            &&& is_descendant(path, target)
        },
{
    lemma_sanitized_is_descendant(target, entry.name);
}

/// An entry with the reserved name among the components kept of its stored
/// name is skipped, whatever the target is.
pub proof fn lemma_entry_under_reserved_is_skipped(
    target: Seq<Seq<char>>,
    reserved: Seq<char>,
    entry: EntryModel,
)
    requires
        touches_reserved(kept_components(entry.name), reserved),
    ensures
        action_for(target, reserved, entry) is Skip,
{
    let kept = kept_components(entry.name);
    let i = choose|i: int| 0 <= i < kept.len() && same_ignoring_ascii_case(#[trigger] kept[i], reserved);
    let path = sanitized(target, entry.name);
    assert(path[target.len() + i] == kept[i]);
}

/// Nothing in a whole plan touches the reserved subtree, and the count it
/// reports is the number of files it writes.
pub proof fn lemma_plan_spares_reserved(
    target: Seq<Seq<char>>,
    reserved: Seq<char>,
    version: Seq<char>,
    entries: Seq<EntryModel>,
)
    ensures
        plan_for(target, reserved, version, entries).actions.len() == entries.len(),
        forall|i: int|
            0 <= i < entries.len() ==> (#[trigger] plan_for(
                target,
                reserved,
                version,
                entries,
            ).actions[i].touched() matches Some(path) ==> !touches_reserved(path, reserved)
                && is_descendant(path, target)),
        plan_for(target, reserved, version, entries).extracted <= entries.len(),
{
    let plan = plan_for(target, reserved, version, entries);
    assert forall|i: int| 0 <= i < entries.len() implies (#[trigger] plan.actions[i].touched() matches Some(
        path,
    ) ==> !touches_reserved(path, reserved) && is_descendant(path, target)) by {
        lemma_reserved_is_never_touched(target, reserved, entries[i]);
    }
    lemma_files_written_bound(plan.actions);
}

proof fn lemma_files_written_bound(actions: Seq<ActionModel>)
    ensures
        files_written(actions) <= actions.len(),
    decreases actions.len(),
{
    if actions.len() > 0 {
        lemma_files_written_bound(actions.drop_last());
    }
}

} // verus!
