//! Locating installations of the Discord desktop client, and patching them so
//! that the moonlight runtime loads beside the client's own code.
//!
//! The library decides; the caller touches the disk. Each operation that
//! changes the filesystem comes back as a list of [`fs_model::FsOp`] steps,
//! whose effect is given by a model of the filesystem, and the laws of the
//! installer are proved over that model.
pub mod types;
pub mod paths;
pub mod json;
pub mod fs_model;
pub mod release;
pub mod flatpak;
pub mod detect;
pub mod installer;

pub use types::{
    Branch, DetectedInstall, FlatpakFilesystemOverride, FlatpakFilesystemOverridePermission,
    FlatpakOverrides, FlatpakOverridesContext, GitHubAsset, GitHubRelease, InstallInfo,
    IniSection, InstallerError, MoonlightBranch, Os,
};
pub use paths::PlatformDirs;
pub use fs_model::FsOp;
pub use installer::Installer;
