//! Finding the game on disk.
//!
//! Walking directories is the caller's part. What it found comes here as a
//! list of entries in the order of the walk, and this module picks from it:
//! the game's executable by its file name, or the first sign of an
//! installation below one of the places where one is likely.

use vstd::prelude::*;
use crate::config::{base_model, platform_data_local_dir, Manifest};
use crate::install::{version_marker, version_marker_name};
use crate::paths::child;
use crate::text::{clone_strings, same_text};

verus! {

/// One entry of a directory walk.
#[derive(Clone, Debug, PartialEq, Eq)]
pub struct WalkedEntry {
    /// Components of the entry's path.
    pub path: Vec<String>,
    /// The last component, if the path ends in a name that is Unicode.
    pub file_name: Option<String>,
    /// Components of the directory that holds the entry, if it has one.
    pub parent: Option<Vec<String>>,
}

pub struct WalkedModel {
    pub path: Seq<Seq<char>>,
    pub file_name: Option<Seq<char>>,
    pub parent: Option<Seq<Seq<char>>>,
}

impl View for WalkedEntry {
    type V = WalkedModel;

    open spec fn view(&self) -> WalkedModel {
        WalkedModel {
            path: self.path.deep_view(),
            file_name: match self.file_name {
                Some(n) => Some(n@),
                None => None,
            },
            parent: base_model(self.parent),
        }
    }
}

pub open spec fn walked_models(walked: Seq<WalkedEntry>) -> Seq<WalkedModel> {
    Seq::new(walked.len(), |i: int| walked[i]@)
}

/// The name of the executable when the manifest names none.
pub open spec fn default_game_exe() -> Seq<char> {
    "Pokemon New World.exe"@
}

/// The first entry that satisfies `wanted`, if any.
pub open spec fn first_where(
    walked: Seq<WalkedModel>,
    wanted: spec_fn(WalkedModel) -> bool,
) -> Option<WalkedModel>
    decreases walked.len(),
{
    if walked.len() == 0 {
        None
    } else if wanted(walked[0]) {
        Some(walked[0])
    } else {
        first_where(walked.drop_first(), wanted)
    }
}

/// The entry is called `name`.
pub open spec fn is_named(entry: WalkedModel, name: Seq<char>) -> bool {
    entry.file_name == Some(name)
}

/// The entry is a sign of an installation: the executable or the version
/// marker.
pub open spec fn is_install_marker(entry: WalkedModel, exe_name: Seq<char>) -> bool {
    is_named(entry, exe_name) || is_named(entry, version_marker_name())
}

/// Where the executable is: directly in `dir` if it is there, else at the
/// first walked entry with its name; an error that names it if nowhere.
pub open spec fn game_exe_at(
    dir: Seq<Seq<char>>,
    exe_name: Seq<char>,
    directly: bool,
    walked: Seq<WalkedModel>,
) -> Result<Seq<Seq<char>>, Seq<char>> {
    if directly {
        Ok(dir.push(exe_name))
    } else {
        match first_where(walked, |e: WalkedModel| is_named(e, exe_name)) {
            Some(e) => Ok(e.path),
            None => Err(exe_name + " non trouvé"@),
        }
    }
}

/// What a walk below one root shows.
#[derive(Clone, Debug, PartialEq, Eq)]
pub enum Scan {
    /// No sign of an installation.
    NoMarker,
    /// A sign of one, in `dir`; the search is over, even if the entry that
    /// showed it has no directory.
    Marker { dir: Option<Vec<String>> },
}

pub enum ScanModel {
    NoMarker,
    Marker { dir: Option<Seq<Seq<char>>> },
}

impl View for Scan {
    type V = ScanModel;

    open spec fn view(&self) -> ScanModel {
        match self {
            Scan::NoMarker => ScanModel::NoMarker,
            Scan::Marker { dir } => ScanModel::Marker { dir: base_model(*dir) },
        }
    }
}

/// The scan of `walked`: the directory of its first install marker.
pub open spec fn scan_of(walked: Seq<WalkedModel>, exe_name: Seq<char>) -> ScanModel {
    match first_where(walked, |e: WalkedModel| is_install_marker(e, exe_name)) {
        Some(e) => ScanModel::Marker { dir: e.parent },
        None => ScanModel::NoMarker,
    }
}

/// The places where an installation is looked for, in order: the user's
/// directories that the platform knows, three usual places for programs,
/// and the launcher's own folder for local data.
pub open spec fn roots_of(
    data_local: Option<Seq<Seq<char>>>,
    document: Option<Seq<Seq<char>>>,
    download: Option<Seq<Seq<char>>>,
    desktop: Option<Seq<Seq<char>>>,
) -> Seq<Seq<Seq<char>>> {
    some_or_none(data_local) + some_or_none(document) + some_or_none(download) + some_or_none(
        desktop,
    ) + seq![
        seq!["C:"@, "\\"@, "Program Files"@],
        seq!["C:"@, "\\"@, "Program Files (x86)"@],
        seq!["C:"@, "\\"@, "Games"@],
    ] + match data_local {
        Some(base) => seq![base.push("PNW"@)],
        None => Seq::empty(),
    }
}

/// The one element of `o`, or none.
pub open spec fn some_or_none(o: Option<Seq<Seq<char>>>) -> Seq<Seq<Seq<char>>> {
    match o {
        Some(p) => seq![p],
        None => Seq::empty(),
    }
}

fn has_name(entry: &WalkedEntry, name: &str) -> (r: bool)
    ensures
        r == is_named(entry@, name@),
{
    match &entry.file_name {
        Some(n) => same_text(n.as_str(), name),
        None => false,
    }
}

/// The name of the game's executable: the one the manifest gives, else
/// the usual one.
pub fn exe_name_for(manifest: Option<&Manifest>) -> (name: String)
    ensures
        name@ == match manifest {
            Some(m) => match m.game_exe {
                Some(exe) => exe@,
                None => default_game_exe(),
            },
            None => default_game_exe(),
        },
{
    match manifest {
        Some(m) => match &m.game_exe {
            Some(exe) => exe.clone(),
            None => "Pokemon New World.exe".to_owned(),
        },
        None => "Pokemon New World.exe".to_owned(),
    }
}

/// Picks the game's executable. `directly` says whether a file of that name
/// lies in `dir` itself; `walked` is what a walk below `dir` found, and is
/// looked at only if it does not.
pub fn find_game_exe(
    dir: &Vec<String>,
    exe_name: &str,
    directly: bool,
    walked: &Vec<WalkedEntry>,
) -> (r: Result<Vec<String>, String>)
    ensures
        crate::config::dir_model(r) == game_exe_at(
            dir.deep_view(),
            exe_name@,
            directly,
            walked_models(walked@),
        ),
{
    if directly {
        return Ok(child(dir, exe_name));
    }
    let ghost all = walked_models(walked@);
    let ghost wanted = |e: WalkedModel| is_named(e, exe_name@);
    let mut i: usize = 0;
    assert(all.skip(0) == all);
    while i < walked.len()
        invariant
            i <= walked.len(),
            !directly,
            all == walked_models(walked@),
            wanted == (|e: WalkedModel| is_named(e, exe_name@)),
            first_where(all, wanted) == first_where(all.skip(i as int), wanted),
        decreases walked.len() - i,
    {
        proof {
            assert(all.skip(i as int)[0] == walked[i as int]@);
            assert(all.skip(i as int).drop_first() == all.skip(i + 1));
        }
        if has_name(&walked[i], exe_name) {
            return Ok(clone_strings(&walked[i].path));
        }
        i = i + 1;
    }
    let mut message = exe_name.to_owned();
    message.append(" non trouvé");
    Err(message)
}

/// Looks through what a walk below one root found for the first sign of an
/// installation: the executable or a version marker.
pub fn scan_root(walked: &Vec<WalkedEntry>, exe_name: &str) -> (scan: Scan)
    ensures
        scan@ == scan_of(walked_models(walked@), exe_name@),
{
    let ghost all = walked_models(walked@);
    let ghost wanted = |e: WalkedModel| is_install_marker(e, exe_name@);
    let mut i: usize = 0;
    assert(all.skip(0) == all);
    while i < walked.len()
        invariant
            i <= walked.len(),
            all == walked_models(walked@),
            wanted == (|e: WalkedModel| is_install_marker(e, exe_name@)),
            first_where(all, wanted) == first_where(all.skip(i as int), wanted),
        decreases walked.len() - i,
    {
        proof {
            assert(all.skip(i as int)[0] == walked[i as int]@);
            assert(all.skip(i as int).drop_first() == all.skip(i + 1));
        }
        if has_name(&walked[i], exe_name) || has_name(&walked[i], version_marker()) {
            let dir = match &walked[i].parent {
                Some(p) => Some(clone_strings(p)),
                None => None,
            };
            return Scan::Marker { dir };
        }
        i = i + 1;
    }
    Scan::NoMarker
}

fn push_some(roots: &mut Vec<Vec<String>>, dir: &Option<Vec<String>>)
    ensures
        final(roots).deep_view() == old(roots).deep_view() + some_or_none(base_model(*dir)),
{
    match dir {
        Some(p) => {
            roots.push(clone_strings(p));
            assert(roots.deep_view() =~= old(roots).deep_view() + seq![p.deep_view()]);
        },
        None => {
            assert(roots.deep_view() =~= old(roots).deep_view() + Seq::empty());
        },
    }
}

fn push_program_root(roots: &mut Vec<Vec<String>>, folder: &str)
    ensures
        final(roots).deep_view() == old(roots).deep_view().push(seq!["C:"@, "\\"@, folder@]),
{
    let mut root: Vec<String> = Vec::new();
    root.push("C:".to_owned());
    root.push("\\".to_owned());
    root.push(folder.to_owned());
    assert(root.deep_view() =~= seq!["C:"@, "\\"@, folder@]);
    roots.push(root);
    assert(roots.deep_view() =~= old(roots).deep_view().push(seq!["C:"@, "\\"@, folder@]));
}

/// The places to search, given the directories that the platform names.
pub fn candidate_roots_from(
    data_local: &Option<Vec<String>>,
    document: &Option<Vec<String>>,
    download: &Option<Vec<String>>,
    desktop: &Option<Vec<String>>,
) -> (roots: Vec<Vec<String>>)
    ensures
        roots.deep_view() == roots_of(
            base_model(*data_local),
            base_model(*document),
            base_model(*download),
            base_model(*desktop),
        ),
{
    let mut roots: Vec<Vec<String>> = Vec::new();
    assert(roots.deep_view() =~= Seq::empty());
    push_some(&mut roots, data_local);
    push_some(&mut roots, document);
    push_some(&mut roots, download);
    push_some(&mut roots, desktop);
    let ghost users = roots.deep_view();
    push_program_root(&mut roots, "Program Files");
    push_program_root(&mut roots, "Program Files (x86)");
    push_program_root(&mut roots, "Games");
    assert(roots.deep_view() =~= users + seq![
        seq!["C:"@, "\\"@, "Program Files"@],
        seq!["C:"@, "\\"@, "Program Files (x86)"@],
        seq!["C:"@, "\\"@, "Games"@],
    ]);
    let ghost fixed = roots.deep_view();
    match data_local {
        Some(base) => {
            roots.push(child(base, "PNW"));
            assert(roots.deep_view() =~= fixed + seq![base.deep_view().push("PNW"@)]);
        },
        None => {
            assert(roots.deep_view() =~= fixed + Seq::empty());
        },
    }
    roots
}

/// The places to search, with whatever the platform names as the directory
/// for local data.
pub fn candidate_roots(
    document: &Option<Vec<String>>,
    download: &Option<Vec<String>>,
    desktop: &Option<Vec<String>>,
) -> (roots: Vec<Vec<String>>)
    ensures
        exists|data_local: Option<Seq<Seq<char>>>|
            roots.deep_view() == roots_of(
                data_local,
                base_model(*document),
                base_model(*download),
                base_model(*desktop),
            ),
{
    let data_local = platform_data_local_dir();
    let roots = candidate_roots_from(&data_local, document, download, desktop);
    assert(roots.deep_view() == roots_of(
        base_model(data_local),
        base_model(*document),
        base_model(*download),
        base_model(*desktop),
    ));
    roots
}

} // verus!
