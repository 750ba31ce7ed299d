//! Where moonlight's releases come from, and what their answers mean.
use vstd::prelude::*;
use crate::types::{GitHubRelease, InstallerError, MoonlightBranch};

verus! {

/// The answer to a query for the newest release of a channel.
#[derive(Clone, Debug)]
pub enum LatestRelease {
    /// The release metadata of the stable channel.
    Stable(GitHubRelease),
    /// The text of the nightly channel's version marker.
    Nightly(String),
}

/// The index of the first `\n` at or after `i`, or the length.
pub open spec fn line_end(s: Seq<char>, i: int) -> int
    decreases s.len() - i,
{
    if i < 0 || i >= s.len() || s[i] == '\n' {
        if i < 0 { 0 } else { i }
    } else {
        line_end(s, i + 1)
    }
}

/// The first line of `s`, without its line ending (`\n` or `\r\n`); empty
/// for an empty text.
pub open spec fn first_line(s: Seq<char>) -> Seq<char> {
    let end = line_end(s, 0);
    if end < s.len() && end > 0 && s[end - 1] == '\r' {
        s.subrange(0, end - 1)
    } else {
        s.subrange(0, end)
    }
}

/// The version that an answer names.
pub open spec fn latest_version_spec(r: LatestRelease) -> Seq<char> {
    match r {
        LatestRelease::Stable(rel) => rel.name@,
        LatestRelease::Nightly(marker) => first_line(marker@),
    }
}

/// The name of the archive asset of a stable release.
pub open spec fn artifact_name() -> Seq<char> {
    "dist.tar.gz"@
}

/// The first asset of `rel` named like the archive, if any.
pub open spec fn archive_asset_index(rel: GitHubRelease) -> Option<int> {
    if exists|i: int| 0 <= i < rel.assets@.len() && rel.assets@[i].name@ == artifact_name() {
        Some(choose|i: int| 0 <= i < rel.assets@.len() && rel.assets@[i].name@ == artifact_name()
            && forall|j: int| 0 <= j < i ==> rel.assets@[j].name@ != artifact_name())
    } else {
        None
    }
}

/// The URL to query for the newest version of `branch`: the release API for
/// stable, the version marker for nightly.
pub open spec fn version_url_spec(branch: MoonlightBranch) -> Seq<char> {
    match branch {
        MoonlightBranch::Stable => "https://api.github.com/repos/moonlight-mod/moonlight/releases/latest"@,
        MoonlightBranch::Nightly => "https://moonlight-mod.github.io/moonlight/ref"@,
    }
}

/// The archive of the nightly channel.
pub open spec fn nightly_archive_url() -> Seq<char> {
    "https://moonlight-mod.github.io/moonlight/dist.tar.gz"@
}

pub fn version_url(branch: MoonlightBranch) -> (r: &'static str)
    ensures
        r@ == version_url_spec(branch),
{
    match branch {
        MoonlightBranch::Stable => "https://api.github.com/repos/moonlight-mod/moonlight/releases/latest",
        MoonlightBranch::Nightly => "https://moonlight-mod.github.io/moonlight/ref",
    }
}

pub fn nightly_archive() -> (r: &'static str)
    ensures
        r@ == nightly_archive_url(),
{
    "https://moonlight-mod.github.io/moonlight/dist.tar.gz"
}

/// The first line of `s`.
pub fn first_line_of(s: &str) -> (r: String)
    ensures
        r@ == first_line(s@),
{
    let n = s.unicode_len();
    let mut i: usize = 0;
    while i < n && s.get_char(i) != '\n'
        invariant
            n == s@.len(),
            i <= n,
            line_end(s@, 0) == line_end(s@, i as int),
        decreases n - i,
    {
        i = i + 1;
    }
    let end = if i < n && i > 0 && s.get_char(i - 1) == '\r' { i - 1 } else { i };
    String::from_str(s.substring_char(0, end))
}

/// The download URL of the archive asset of `rel`.
pub fn archive_url(rel: &GitHubRelease) -> (r: Result<String, InstallerError>)
    ensures
        match archive_asset_index(*rel) {
            Some(i) => r matches Ok(u) && u@ == rel.assets@[i].browser_download_url@,
            None => r == Err::<String, InstallerError>(InstallerError::MissingAsset),
        },
{
    let mut i: usize = 0;
    while i < rel.assets.len()
        invariant
            i <= rel.assets.len(),
            forall|j: int| 0 <= j < i ==> rel.assets@[j].name@ != artifact_name(),
        decreases rel.assets.len() - i,
    {
        if str_eq(rel.assets[i].name.as_str(), "dist.tar.gz") {
            let ghost k = archive_asset_index(*rel)->0;
            assert(rel.assets@[i as int].name@ == artifact_name());
            assert(k == i) by {
                if k < i {
                } else if k > i {
                }
            }
            return Ok(rel.assets[i].browser_download_url.clone());
        }
        i = i + 1;
    }
    Err(InstallerError::MissingAsset)
}

/// Whether two texts are equal.
pub fn str_eq(a: &str, b: &str) -> (r: bool)
    ensures
        r == (a@ == b@),
{
    let n = a.unicode_len();
    if n != b.unicode_len() {
        return false;
    }
    let mut i: usize = 0;
    while i < n
        invariant
            n == a@.len(),
            n == b@.len(),
            i <= n,
            a@.subrange(0, i as int) == b@.subrange(0, i as int),
        decreases n - i,
    {
        if a.get_char(i) != b.get_char(i) {
            assert(a@[i as int] != b@[i as int]);
            return false;
        }
        assert(a@.subrange(0, i as int + 1) =~= a@.subrange(0, i as int).push(a@[i as int]));
        assert(b@.subrange(0, i as int + 1) =~= b@.subrange(0, i as int).push(b@[i as int]));
        i = i + 1;
    }
    assert(a@ =~= a@.subrange(0, n as int));
    assert(b@ =~= b@.subrange(0, n as int));
    true
}

} // verus!
