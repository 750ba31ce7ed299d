//! Where things live: the directories of the environment and the paths the
//! installer derives from them.
use vstd::prelude::*;
use crate::types::{Branch, Os};

verus! {

/// `a/b`.
pub open spec fn path_join(a: Seq<char>, b: Seq<char>) -> Seq<char> {
    a + seq!['/'] + b
}

/// Whether `p` names something inside the directory `dir`.
pub open spec fn is_under(p: Seq<char>, dir: Seq<char>) -> bool {
    p.len() > dir.len() + 1 && p.subrange(0, dir.len() + 1int) == dir + seq!['/']
}

/// `a/b`.
pub fn join(a: &str, b: &str) -> (r: String)
    ensures
        r@ == path_join(a@, b@),
{
    let mut r = String::from_str(a);
    proof {
        reveal_strlit("/");
    }
    r.append("/");
    r.append(b);
    r
}

/// The directories of the environment that every other location derives from.
#[derive(Clone, Debug)]
pub struct PlatformDirs {
    pub os: Os,
    /// The user's home directory.
    pub home: String,
    /// Per-user application data: `%LocalAppData%` on Windows, the XDG data
    /// directory (`~/.local/share`) on Linux.
    pub data_root: String,
    /// Per-user configuration: `%AppData%` on Windows, the XDG configuration
    /// directory (`~/.config`) on Linux, `~/Library/Application Support` on macOS.
    pub config_root: String,
}

impl PlatformDirs {
    /// moonlight's own directory: its settings and the installed-version marker.
    pub open spec fn moonlight_dir_spec(&self) -> Seq<char> {
        path_join(self.config_root@, "moonlight-mod"@)
    }

    /// The scratch directory that downloads unpack into.
    pub open spec fn download_dir_spec(&self) -> Seq<char> {
        path_join(self.moonlight_dir_spec(), "dist"@)
    }

    pub open spec fn installed_version_file_spec(&self) -> Seq<char> {
        path_join(self.moonlight_dir_spec(), ".moonlight-installed-version"@)
    }

    pub open spec fn flatpak_overrides_file_spec(&self, id: Seq<char>) -> Seq<char> {
        path_join(path_join(path_join(self.data_root@, "flatpak"@), "overrides"@), id)
    }

    pub open spec fn config_file_spec(&self, branch: Branch) -> Seq<char> {
        path_join(self.moonlight_dir_spec(), config_file_name(branch))
    }

    pub fn moonlight_dir(&self) -> (r: String)
        ensures
            r@ == self.moonlight_dir_spec(),
    {
        join(self.config_root.as_str(), "moonlight-mod")
    }

    pub fn download_dir(&self) -> (r: String)
        ensures
            r@ == self.download_dir_spec(),
    {
        join(self.moonlight_dir().as_str(), "dist")
    }

    pub fn installed_version_file(&self) -> (r: String)
        ensures
            r@ == self.installed_version_file_spec(),
    {
        join(self.moonlight_dir().as_str(), ".moonlight-installed-version")
    }

    /// The override file of the Flatpak application `id`.
    pub fn flatpak_overrides_file(&self, id: &str) -> (r: String)
        ensures
            r@ == self.flatpak_overrides_file_spec(id@),
    {
        let overrides = join(join(self.data_root.as_str(), "flatpak").as_str(), "overrides");
        join(overrides.as_str(), id)
    }

    /// The settings file of `branch`.
    pub fn config_file(&self, branch: Branch) -> (r: String)
        ensures
            r@ == self.config_file_spec(branch),
    {
        join(self.moonlight_dir().as_str(), branch.config_name().as_str())
    }
}

/// The name of a branch's settings file, without its extension.
pub open spec fn config_stem_spec(branch: Branch) -> Seq<char> {
    match branch {
        Branch::Stable => "stable"@,
        Branch::PTB => "ptb"@,
        Branch::Canary => "canary"@,
        Branch::Development => "development"@,
    }
}

/// The name of a branch's settings file.
pub open spec fn config_file_name(branch: Branch) -> Seq<char> {
    config_stem_spec(branch) + ".json"@
}

/// The package name of a branch's client.
pub open spec fn dashed_name_spec(branch: Branch) -> Seq<char> {
    match branch {
        Branch::Stable => "discord"@,
        Branch::PTB => "discord-ptb"@,
        Branch::Canary => "discord-canary"@,
        Branch::Development => "discord-development"@,
    }
}

impl Branch {
    pub fn config_stem(self) -> (r: &'static str)
        ensures
            r@ == config_stem_spec(self),
    {
        match self {
            Branch::Stable => "stable",
            Branch::PTB => "ptb",
            Branch::Canary => "canary",
            Branch::Development => "development",
        }
    }

    pub fn config_name(self) -> (r: String)
        ensures
            r@ == config_file_name(self),
    {
        let mut r = String::from_str(self.config_stem());
        r.append(".json");
        r
    }

    pub fn dashed_name(self) -> (r: &'static str)
        ensures
            r@ == dashed_name_spec(self),
    {
        match self {
            Branch::Stable => "discord",
            Branch::PTB => "discord-ptb",
            Branch::Canary => "discord-canary",
            Branch::Development => "discord-development",
        }
    }
}

} // verus!
