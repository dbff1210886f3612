//! Where the launcher keeps its own files and where it installs the game.
//!
//! The platform says where a user's configuration and local data live; the
//! launcher puts a folder of its own below each. Every function that asks
//! the platform has a companion that takes the platform's answer as an
//! argument and says exactly what comes of it.

use vstd::prelude::*;
use vstd::string::to_string_from_display_ensures;
use crate::paths::child;
use crate::text::clone_strings;

verus! {

/// What the launcher remembers between runs.
#[derive(Clone, Debug, PartialEq, Eq)]
pub struct LauncherConfig {
    /// Components of the directory chosen for the game, if one was chosen.
    pub install_dir: Option<Vec<String>>,
}

/// Describes the archive to fetch and the version it holds.
#[derive(Clone, Debug, PartialEq, Eq)]
pub struct Manifest {
    pub version: String,
    pub zip_url: String,
    pub game_exe: Option<String>,
    pub folder: Option<String>,
}

/// A directory, or the reason why there is none, as contracts see it.
pub type DirModel = Result<Seq<Seq<char>>, Seq<char>>;

pub open spec fn dir_model(r: Result<Vec<String>, String>) -> DirModel {
    match r {
        Ok(p) => Ok(p.deep_view()),
        Err(e) => Err(e@),
    }
}

pub open spec fn base_model(base: Option<Vec<String>>) -> Option<Seq<Seq<char>>> {
    match base {
        Some(p) => Some(p.deep_view()),
        None => None,
    }
}

/// The launcher's folder below the platform's configuration directory.
pub open spec fn config_dir_of(base: Option<Seq<Seq<char>>>) -> DirModel {
    match base {
        Some(b) => Ok(b.push("PNW"@)),
        None => Err("config_dir introuvable"@),
    }
}

/// The file that holds the launcher's configuration.
pub open spec fn config_path_of(base: Option<Seq<Seq<char>>>) -> DirModel {
    match config_dir_of(base) {
        Ok(d) => Ok(d.push("launcher.json"@)),
        Err(e) => Err(e),
    }
}

/// The file that a download is written to, and resumed from.
pub open spec fn temp_zip_path_of(base: Option<Seq<Seq<char>>>) -> DirModel {
    match config_dir_of(base) {
        Ok(d) => Ok(d.push("download.tmp"@)),
        Err(e) => Err(e),
    }
}

/// Where the game goes when no directory was chosen: below the platform's
/// directory for local data.
pub open spec fn default_install_dir_of(base: Option<Seq<Seq<char>>>) -> DirModel {
    match base {
        Some(b) => Ok(b.push("PNW"@).push("Game"@)),
        None => Err("data_local_dir introuvable"@),
    }
}

/// Where the game goes: the directory chosen, else the default one.
pub open spec fn install_dir_of(
    chosen: Option<Seq<Seq<char>>>,
    base: Option<Seq<Seq<char>>>,
) -> DirModel {
    match chosen {
        Some(p) => Ok(p),
        None => default_install_dir_of(base),
    }
}

/// Calls `dirs::config_dir` and hands on the components of the path it
/// gives, each as text (a component that is not Unicode loses what is not).
/// The answer depends on the platform and on how the user has set it up:
/// nothing is claimed of it.
#[verifier::external_body]
fn platform_config_dir() -> (base: Option<Vec<String>>) {
    dirs::config_dir().map(
        |p| p.components().map(|c| c.as_os_str().to_string_lossy().into_owned()).collect(),
    )
}

/// Calls `dirs::data_local_dir` and hands on the components of the path it
/// gives, each as text (a component that is not Unicode loses what is not).
/// The answer depends on the platform and on how the user has set it up:
/// nothing is claimed of it.
#[verifier::external_body]
pub(crate) fn platform_data_local_dir() -> (base: Option<Vec<String>>) {
    dirs::data_local_dir().map(
        |p| p.components().map(|c| c.as_os_str().to_string_lossy().into_owned()).collect(),
    )
}

/// The launcher's folder below `base`, the platform's configuration
/// directory.
pub fn config_dir_under(base: Option<Vec<String>>) -> (r: Result<Vec<String>, String>)
    ensures
        dir_model(r) == config_dir_of(base_model(base)),
{
    match base {
        Some(b) => Ok(child(&b, "PNW")),
        None => Err("config_dir introuvable".to_owned()),
    }
}

/// The launcher's folder, below whatever the platform names as the
/// configuration directory.
pub fn config_dir() -> (r: Result<Vec<String>, String>)
    ensures
        exists|base: Option<Seq<Seq<char>>>| dir_model(r) == config_dir_of(base),
{
    let base = platform_config_dir();
    let ghost b = base_model(base);
    let r = config_dir_under(base);
    assert(dir_model(r) == config_dir_of(b));
    r
}

/// The configuration file below `base`.
pub fn config_path_under(base: Option<Vec<String>>) -> (r: Result<Vec<String>, String>)
    ensures
        dir_model(r) == config_path_of(base_model(base)),
{
    match config_dir_under(base) {
        Ok(d) => Ok(child(&d, "launcher.json")),
        Err(e) => Err(e),
    }
}

/// The launcher's configuration file.
pub fn config_path() -> (r: Result<Vec<String>, String>)
    ensures
        exists|base: Option<Seq<Seq<char>>>| dir_model(r) == config_path_of(base),
{
    let base = platform_config_dir();
    let ghost b = base_model(base);
    let r = config_path_under(base);
    assert(dir_model(r) == config_path_of(b));
    r
}

/// The download's temporary file below `base`.
pub fn temp_zip_path_under(base: Option<Vec<String>>) -> (r: Result<Vec<String>, String>)
    ensures
        dir_model(r) == temp_zip_path_of(base_model(base)),
{
    match config_dir_under(base) {
        Ok(d) => Ok(child(&d, "download.tmp")),
        Err(e) => Err(e),
    }
}

/// The file that a download is written to. It is always the same one, so
/// that what an interrupted download left can be resumed.
pub fn temp_zip_path() -> (r: Result<Vec<String>, String>)
    ensures
        exists|base: Option<Seq<Seq<char>>>| dir_model(r) == temp_zip_path_of(base),
{
    let base = platform_config_dir();
    let ghost b = base_model(base);
    let r = temp_zip_path_under(base);
    assert(dir_model(r) == temp_zip_path_of(b));
    r
}

/// The default directory for the game below `base`, the platform's
/// directory for local data.
pub fn default_install_dir_under(base: Option<Vec<String>>) -> (r: Result<Vec<String>, String>)
    ensures
        dir_model(r) == default_install_dir_of(base_model(base)),
{
    match base {
        Some(b) => {
            let folder = child(&b, "PNW");
            Ok(child(&folder, "Game"))
        },
        None => Err("data_local_dir introuvable".to_owned()),
    }
}

/// The default directory for the game.
pub fn default_install_dir() -> (r: Result<Vec<String>, String>)
    ensures
        exists|base: Option<Seq<Seq<char>>>| dir_model(r) == default_install_dir_of(base),
{
    let base = platform_data_local_dir();
    let ghost b = base_model(base);
    let r = default_install_dir_under(base);
    assert(dir_model(r) == default_install_dir_of(b));
    r
}

/// Where the game goes, given the platform's directory for local data: the
/// directory that the configuration names, else the default one.
pub fn install_dir_under(cfg: &LauncherConfig, base: Option<Vec<String>>) -> (r: Result<
    Vec<String>,
    String,
>)
    ensures
        dir_model(r) == install_dir_of(base_model(cfg.install_dir), base_model(base)),
{
    match &cfg.install_dir {
        Some(p) => Ok(clone_strings(p)),
        None => default_install_dir_under(base),
    }
}

/// Where the game goes: the directory that the configuration names, else
/// the default one. The platform is asked only when none is named.
pub fn install_dir(cfg: &LauncherConfig) -> (r: Result<Vec<String>, String>)
    ensures
        exists|base: Option<Seq<Seq<char>>>|
            dir_model(r) == install_dir_of(base_model(cfg.install_dir), base),
        cfg.install_dir matches Some(p) ==> dir_model(r) == Ok::<Seq<Seq<char>>, Seq<char>>(
            p.deep_view(),
        ),
{
    match &cfg.install_dir {
        Some(p) => {
            let r = Ok(clone_strings(p));
            assert(dir_model(r) == install_dir_of(base_model(cfg.install_dir), None));
            r
        },
        None => {
            let base = platform_data_local_dir();
            let ghost b = base_model(base);
            let r = default_install_dir_under(base);
            assert(dir_model(r) == install_dir_of(base_model(cfg.install_dir), b));
            r
        },
    }
}

/// The message of an error: what it displays as.
pub fn err<E: core::fmt::Display>(e: E) -> (message: String)
    ensures
        to_string_from_display_ensures::<E>(&e, message),
{
    e.to_string()
}

impl LauncherConfig {
    /// The configuration of a launcher that has chosen nothing yet.
    pub fn new() -> (cfg: Self)
        ensures
            cfg.install_dir is None,
    {
        LauncherConfig { install_dir: None }
    }

    /// The configuration with `dir` as the directory for the game.
    pub fn with_install_dir(self, dir: Vec<String>) -> (cfg: Self)
        ensures
            cfg.install_dir == Some(dir),
    {
        LauncherConfig { install_dir: Some(dir) }
    }
}

} // verus!
