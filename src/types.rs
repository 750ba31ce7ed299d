//! The data the installer works on.
use vstd::prelude::*;

verus! {

/// The operating system whose conventions the installer follows.
#[derive(Clone, Copy, Debug, PartialEq, Eq, Structural)]
pub enum Os {
    Windows,
    MacOs,
    Linux,
    Other,
}

/// A release channel of the Discord client.
#[derive(Clone, Copy, Debug, PartialEq, Eq, Structural)]
pub enum Branch {
    Stable,
    PTB,
    Canary,
    Development,
}

/// A release channel of the moonlight bundle.
#[derive(Clone, Copy, Debug, PartialEq, Eq, Structural)]
pub enum MoonlightBranch {
    Stable,
    Nightly,
}

/// One installation found on disk.
#[derive(Clone, Debug)]
pub struct DetectedInstall {
    pub branch: Branch,
    /// The installation's root directory.
    pub path: String,
    /// The sandbox identifier, for an installation packaged with Flatpak.
    pub flatpak_id: Option<String>,
}

/// An installation together with what was found in it.
#[derive(Clone, Debug)]
pub struct InstallInfo {
    pub install: DetectedInstall,
    pub patched: bool,
    pub has_config: bool,
}

/// A downloadable file of a release.
#[derive(Clone, Debug)]
pub struct GitHubAsset {
    pub name: String,
    pub browser_download_url: String,
}

/// The metadata of a release: its name is the version.
#[derive(Clone, Debug)]
pub struct GitHubRelease {
    pub name: String,
    pub assets: Vec<GitHubAsset>,
}

#[derive(Clone, Copy, Debug, PartialEq, Eq, Structural)]
pub enum FlatpakFilesystemOverridePermission {
    ReadOnly,
    ReadWrite,
}

/// One `filesystems` entry of a Flatpak override file.
#[derive(Clone, Debug)]
pub struct FlatpakFilesystemOverride {
    pub path: String,
    pub permission: FlatpakFilesystemOverridePermission,
}

/// A section of an override file that the installer does not read, kept
/// as it was: its name and its keys with their values.
#[derive(Clone, Debug)]
pub struct IniSection {
    pub name: String,
    pub entries: Vec<(String, String)>,
}

/// The `[Context]` section of a Flatpak override file.
#[derive(Clone, Debug)]
pub struct FlatpakOverridesContext {
    pub filesystems: Option<Vec<FlatpakFilesystemOverride>>,
    /// The section's other keys with their values, kept as they were.
    pub other_keys: Vec<(String, String)>,
}

/// A Flatpak override file.
#[derive(Clone, Debug)]
pub struct FlatpakOverrides {
    pub context: Option<FlatpakOverridesContext>,
    /// The sections other than `[Context]`, kept as they were.
    pub other_sections: Vec<IniSection>,
}

/// What the installer refuses. Failures of the network and of the disk
/// belong to the caller that performs those calls.
#[derive(Clone, Copy, Debug, PartialEq, Eq, Structural)]
pub enum InstallerError {
    /// A required directory of the environment is unknown.
    Configuration,
    /// The release does not carry the bundle archive.
    MissingAsset,
    /// An unpatch was asked of an installation that holds `app.asar`.
    AlreadyUnpatched,
}

impl FlatpakFilesystemOverride {
    pub open spec fn view_entry(&self) -> (Seq<char>, FlatpakFilesystemOverridePermission) {
        (self.path@, self.permission)
    }
}

/// The entries of a `filesystems` list, as path and permission pairs.
pub open spec fn entries_view(v: Seq<FlatpakFilesystemOverride>) -> Seq<(Seq<char>, FlatpakFilesystemOverridePermission)> {
    v.map_values(|e: FlatpakFilesystemOverride| e.view_entry())
}

/// An override file seen as: no `[Context]` section, a section without
/// `filesystems`, or a section with these entries.
pub enum OverridesView {
    NoContext,
    NoFilesystems,
    Filesystems(Seq<(Seq<char>, FlatpakFilesystemOverridePermission)>),
}

impl FlatpakOverrides {
    pub open spec fn view_overrides(&self) -> OverridesView {
        match self.context {
            None => OverridesView::NoContext,
            Some(c) => match c.filesystems {
                None => OverridesView::NoFilesystems,
                Some(v) => OverridesView::Filesystems(entries_view(v@)),
            },
        }
    }
}

} // verus!
