//! The installer: what it reports of installations, and the steps that
//! download moonlight and patch or unpatch an installation.
use vstd::prelude::*;
use crate::detect::opt_view;
use crate::fs_model::{apply_op, apply_ops, is_dir, is_file, is_tree, ops_view, FsOp, FsOpView, Node};
use crate::json::{injector_script, injector_script_spec, package_json, package_json_spec};
use crate::paths::{config_stem_spec, dashed_name_spec, is_under, join, path_join, PlatformDirs};
use crate::release::{archive_url, archive_asset_index, first_line_of, latest_version_spec, nightly_archive, nightly_archive_url, LatestRelease};
use crate::types::{Branch, DetectedInstall, InstallInfo, InstallerError, Os};

verus! {

/// Downloads moonlight and patches installations of the client.
pub struct Installer;

impl Default for Installer {
    fn default() -> (r: Installer)
        ensures
            r == Installer,
    {
        Installer::new()
    }
}

/// The steps of a patch, and the Flatpak application whose override must
/// then be ensured.
#[derive(Clone, Debug)]
pub struct PatchPlan {
    pub ops: Vec<FsOp>,
    pub flatpak_id: Option<String>,
}

/// A download: unpack the gzip compressed tar archive at `archive_url`
/// into `target_dir`; `version` is then the downloaded version.
#[derive(Clone, Debug)]
pub struct DownloadPlan {
    pub archive_url: String,
    pub target_dir: String,
    pub version: String,
}

/// What the disk says of one installation.
#[derive(Clone, Debug)]
pub struct InstallProbe {
    /// The names in its resource directory, `None` where it could not be read.
    pub resources: Option<Vec<String>>,
    /// Whether its branch's settings file exists.
    pub config_exists: bool,
}

/// The directory that holds the client's `app.asar`.
pub open spec fn resource_dir_spec(os: Os, install: Seq<char>) -> Seq<char> {
    if os == Os::MacOs {
        install
    } else {
        path_join(install, "resources"@)
    }
}

pub open spec fn asar_path(res: Seq<char>) -> Seq<char> {
    path_join(res, "app.asar"@)
}

/// Where a patch moves the client's archive.
pub open spec fn patched_asar_path(res: Seq<char>) -> Seq<char> {
    path_join(res, "_app.asar"@)
}

/// The entry package that a patch puts in place of the archive.
pub open spec fn entry_dir(res: Seq<char>) -> Seq<char> {
    path_join(res, "app"@)
}

/// Whether an installation whose resource directory is `res` is patched.
pub open spec fn patched_in(fs: Map<Seq<char>, Node>, res: Seq<char>) -> bool {
    !fs.contains_key(asar_path(res))
}

/// The steps of a patch of the resource directory `res`, for a client
/// package called `name`, loading moonlight from `download`.
pub open spec fn patch_ops_spec(res: Seq<char>, name: Seq<char>, download: Seq<char>, payload: Seq<char>) -> Seq<FsOpView> {
    seq![
        FsOpView::Rename { from: asar_path(res), to: patched_asar_path(res) },
        FsOpView::CreateDir { path: entry_dir(res) },
        FsOpView::WriteFile { path: path_join(entry_dir(res), "package.json"@), contents: package_json_spec(name) },
        FsOpView::WriteFile {
            path: path_join(entry_dir(res), "injector.js"@),
            contents: injector_script_spec(path_join(download, "injector.js"@), payload),
        },
    ]
}

/// The steps of an unpatch of the resource directory `res`.
pub open spec fn unpatch_ops_spec(res: Seq<char>) -> Seq<FsOpView> {
    seq![
        FsOpView::Rename { from: patched_asar_path(res), to: asar_path(res) },
        FsOpView::RemoveDirAll { path: entry_dir(res) },
    ]
}

/// The steps that prepare the scratch directory `dir` for a download.
pub open spec fn download_ops_spec(dir: Seq<char>, exists: bool) -> Seq<FsOpView> {
    if exists {
        seq![FsOpView::RemoveDirAll { path: dir }, FsOpView::CreateDirAll { path: dir }]
    } else {
        seq![FsOpView::CreateDirAll { path: dir }]
    }
}

pub open spec fn names_view(v: Seq<String>) -> Seq<Seq<char>> {
    v.map_values(|s: String| s@)
}

/// Whether the probe of the `i`-th installation shows it patched.
pub open spec fn probe_patched(probes: Seq<InstallProbe>, i: int) -> bool {
    0 <= i < probes.len() && match probes[i].resources {
        Some(l) => !names_view(l@).contains("app.asar"@),
        None => false,
    }
}

fn contains_name(v: &Vec<String>, name: &str) -> (r: bool)
    ensures
        r == names_view(v@).contains(name@),
{
    let mut i: usize = 0;
    while i < v.len()
        invariant
            i <= v.len(),
            forall|j: int| 0 <= j < i ==> names_view(v@)[j] != name@,
        decreases v.len() - i,
    {
        if crate::release::str_eq(v[i].as_str(), name) {
            assert(names_view(v@)[i as int] == name@);
            return true;
        }
        i = i + 1;
    }
    false
}

impl Installer {
    pub fn new() -> (r: Installer)
        ensures
            r == Installer,
    {
        Installer
    }

    /// The newest version that `latest` names: the release's name for the
    /// stable channel, the marker's first line for the nightly channel.
    pub fn get_latest_moonlight_version(&self, latest: &LatestRelease) -> (r: String)
        ensures
            r@ == latest_version_spec(*latest),
    {
        match latest {
            LatestRelease::Stable(rel) => rel.name.clone(),
            LatestRelease::Nightly(marker) => first_line_of(marker.as_str()),
        }
    }

    /// The directory that holds the client's `app.asar`: the installation's
    /// `resources` directory, or on macOS the installation path itself.
    pub fn resource_dir(&self, os: Os, install: &DetectedInstall) -> (r: String)
        ensures
            r@ == resource_dir_spec(os, install.path@),
    {
        if os == Os::MacOs {
            install.path.clone()
        } else {
            join(install.path.as_str(), "resources")
        }
    }

    /// Whether an installation is patched: its resource directory, whose
    /// names are `resources`, holds no `app.asar`.
    pub fn is_install_patched(&self, resources: &Vec<String>) -> (r: bool)
        ensures
            r == !names_view(resources@).contains("app.asar"@),
    {
        !contains_name(resources, "app.asar")
    }

    /// The installations with what the disk says of each: `probes[i]`
    /// belongs to `installs[i]`. An installation whose resource directory
    /// could not be read counts as not patched; one without a probe too, and
    /// as having no settings.
    pub fn get_installs(&self, installs: Vec<DetectedInstall>, probes: &Vec<InstallProbe>) -> (r: Vec<InstallInfo>)
        ensures
            r.len() == installs.len(),
            forall|i: int| #![trigger r@[i]] 0 <= i < r.len() ==> {
                &&& r@[i].install.view_install() == installs@[i].view_install()
                &&& r@[i].patched == probe_patched(probes@, i)
                &&& r@[i].has_config == (i < probes.len() && probes@[i].config_exists)
            },
    {
        let mut r: Vec<InstallInfo> = Vec::new();
        let mut i: usize = 0;
        while i < installs.len()
            invariant
                i <= installs.len(),
                r.len() == i,
                forall|k: int| #![trigger r@[k]] 0 <= k < i ==> {
                    &&& r@[k].install.view_install() == installs@[k].view_install()
                    &&& r@[k].patched == probe_patched(probes@, k)
                    &&& r@[k].has_config == (k < probes.len() && probes@[k].config_exists)
                },
            decreases installs.len() - i,
        {
            let d = &installs[i];
            let install = DetectedInstall {
                branch: d.branch,
                path: d.path.clone(),
                flatpak_id: match &d.flatpak_id {
                    Some(id) => Some(id.clone()),
                    None => None,
                },
            };
            let (patched, has_config) = if i < probes.len() {
                let patched = match &probes[i].resources {
                    Some(l) => self.is_install_patched(l),
                    None => false,
                };
                (patched, probes[i].config_exists)
            } else {
                (false, false)
            };
            r.push(InstallInfo { install, patched, has_config });
            i = i + 1;
        }
        r
    }

    /// The steps that patch `install`, loading moonlight from
    /// `override_download_dir`, else from the scratch directory; `payload` is
    /// the body of the loader script. The client's `app.asar` is moved to
    /// `_app.asar`, and a new entry package `app` holds a `package.json`
    /// whose `main` is `./injector.js`, and that script. A Flatpak
    /// installation also needs its override ensured.
    pub fn patch_install(
        &self,
        dirs: &PlatformDirs,
        install: &DetectedInstall,
        override_download_dir: Option<String>,
        payload: &str,
    ) -> (r: PatchPlan)
        ensures
            ops_view(r.ops@) == patch_ops_spec(
                resource_dir_spec(dirs.os, install.path@),
                dashed_name_spec(install.branch),
                match override_download_dir {
                    Some(d) => d@,
                    None => dirs.download_dir_spec(),
                },
                payload@,
            ),
            opt_view(r.flatpak_id) == opt_view(install.flatpak_id),
    {
        let download_dir = match override_download_dir {
            Some(d) => d,
            None => dirs.download_dir(),
        };
        let res = self.resource_dir(dirs.os, install);
        let entry = join(res.as_str(), "app");
        let injector = join(download_dir.as_str(), "injector.js");
        let mut ops: Vec<FsOp> = Vec::new();
        ops.push(FsOp::Rename { from: join(res.as_str(), "app.asar"), to: join(res.as_str(), "_app.asar") });
        ops.push(FsOp::CreateDir { path: entry.clone() });
        ops.push(FsOp::WriteFile {
            path: join(entry.as_str(), "package.json"),
            contents: package_json(install.branch.dashed_name()),
        });
        ops.push(FsOp::WriteFile {
            path: join(entry.as_str(), "injector.js"),
            contents: injector_script(injector.as_str(), payload),
        });
        assert(ops_view(ops@) =~= patch_ops_spec(res@, dashed_name_spec(install.branch), download_dir@, payload@));
        let flatpak_id = match &install.flatpak_id {
            Some(id) => Some(id.clone()),
            None => None,
        };
        PatchPlan { ops, flatpak_id }
    }

    /// The steps that unpatch `install`, whose resource directory holds the
    /// names `resources`: `_app.asar` goes back to `app.asar`, and the entry
    /// package is removed. An installation that holds `app.asar` is not
    /// patched, and its `app.asar` is not to be replaced: that is refused.
    pub fn unpatch_install(
        &self,
        dirs: &PlatformDirs,
        install: &DetectedInstall,
        resources: &Vec<String>,
    ) -> (r: Result<Vec<FsOp>, InstallerError>)
        ensures
            names_view(resources@).contains("app.asar"@) ==> r == Err::<Vec<FsOp>, InstallerError>(
                InstallerError::AlreadyUnpatched,
            ),
            !names_view(resources@).contains("app.asar"@) ==> (r matches Ok(ops) && ops_view(ops@)
                == unpatch_ops_spec(resource_dir_spec(dirs.os, install.path@))),
    {
        if contains_name(resources, "app.asar") {
            return Err(InstallerError::AlreadyUnpatched);
        }
        let res = self.resource_dir(dirs.os, install);
        let mut ops: Vec<FsOp> = Vec::new();
        ops.push(FsOp::Rename { from: join(res.as_str(), "_app.asar"), to: join(res.as_str(), "app.asar") });
        ops.push(FsOp::RemoveDirAll { path: join(res.as_str(), "app") });
        assert(ops_view(ops@) =~= unpatch_ops_spec(res@));
        Ok(ops)
    }

    /// The steps that empty the scratch directory before a download, which
    /// exists where `scratch_exists`: it is removed, then created anew. They
    /// come first, before the release is resolved.
    pub fn prepare_download_dir(&self, dirs: &PlatformDirs, scratch_exists: bool) -> (r: Vec<FsOp>)
        ensures
            ops_view(r@) == download_ops_spec(dirs.download_dir_spec(), scratch_exists),
    {
        let dir = dirs.download_dir();
        let mut ops: Vec<FsOp> = Vec::new();
        if scratch_exists {
            ops.push(FsOp::RemoveDirAll { path: dir.clone() });
        }
        ops.push(FsOp::CreateDirAll { path: dir });
        assert(ops_view(ops@) =~= download_ops_spec(dirs.download_dir_spec(), scratch_exists));
        ops
    }

    /// The download of the release that `latest` describes into the scratch
    /// directory, once [`Installer::prepare_download_dir`]'s steps are done.
    /// A stable release must carry the `dist.tar.gz` asset; the nightly
    /// archive has a fixed URL.
    pub fn download_moonlight(&self, dirs: &PlatformDirs, latest: &LatestRelease) -> (r: Result<DownloadPlan, InstallerError>)
        ensures
            match latest {
                LatestRelease::Stable(rel) => match archive_asset_index(*rel) {
                    Some(i) => r matches Ok(p) && p.archive_url@ == rel.assets@[i].browser_download_url@,
                    None => r == Err::<DownloadPlan, InstallerError>(InstallerError::MissingAsset),
                },
                LatestRelease::Nightly(_) => r matches Ok(p) && p.archive_url@ == nightly_archive_url(),
            },
            r matches Ok(p) ==> {
                &&& p.target_dir@ == dirs.download_dir_spec()
                &&& p.version@ == latest_version_spec(*latest)
            },
    {
        let url = match latest {
            LatestRelease::Stable(rel) => match archive_url(rel) {
                Ok(u) => u,
                Err(e) => return Err(e),
            },
            LatestRelease::Nightly(_) => String::from_str(nightly_archive()),
        };
        Ok(DownloadPlan { archive_url: url, target_dir: dirs.download_dir(), version: self.get_latest_moonlight_version(latest) })
    }

    /// The step that records `version` as the downloaded one.
    pub fn set_downloaded_version(&self, dirs: &PlatformDirs, version: &str) -> (r: FsOp)
        ensures
            r.view_op() == (FsOpView::WriteFile { path: dirs.installed_version_file_spec(), contents: version@ }),
    {
        FsOp::WriteFile { path: dirs.installed_version_file(), contents: String::from_str(version) }
    }

    /// The step that sets `branch`'s settings aside, renamed to
    /// `<stem>-backup-<now_secs>.json` beside it; `now_secs` is the time in
    /// seconds since the Unix epoch. Its failure is of no consequence.
    pub fn reset_config(&self, dirs: &PlatformDirs, branch: Branch, now_secs: u64) -> (r: FsOp)
        ensures
            r.view_op() == (FsOpView::Rename {
                from: dirs.config_file_spec(branch),
                to: path_join(dirs.moonlight_dir_spec(), backup_name(branch, now_secs as nat)),
            }),
    {
        let mut name = String::from_str(branch.config_stem());
        name.append("-backup-");
        name.append(decimal_of(now_secs).as_str());
        name.append(".json");
        FsOp::Rename { from: dirs.config_file(branch), to: join(dirs.moonlight_dir().as_str(), name.as_str()) }
    }
}

/// Performing one more step after a list of steps.
pub proof fn lemma_apply_ops_push(fs: Map<Seq<char>, Node>, ops: Seq<FsOpView>, op: FsOpView)
    ensures
        apply_ops(fs, ops.push(op)) == match apply_ops(fs, ops) {
            None => None,
            Some(f) => apply_op(f, op),
        },
{
    assert(ops.push(op).drop_last() =~= ops);
}

proof fn lemma_join_under(dir: Seq<char>, name: Seq<char>)
    requires
        name.len() > 0,
    ensures
        is_under(path_join(dir, name), dir),
{
    assert(path_join(dir, name).subrange(0, dir.len() + 1int) =~= dir + seq!['/']);
}

proof fn lemma_name_lengths()
    ensures
        "app.asar"@.len() == 8,
        "_app.asar"@.len() == 9,
        "app"@.len() == 3,
        "package.json"@.len() == 12,
        "injector.js"@.len() == 11,
{
    reveal_strlit("app.asar");
    reveal_strlit("_app.asar");
    reveal_strlit("app");
    reveal_strlit("package.json");
    reveal_strlit("injector.js");
}

/// Patching, then unpatching, gives back the resource directory as it was:
/// `app.asar` in its place with its contents, no `_app.asar` and no entry
/// package. Both succeed on an unpatched installation that holds neither,
/// on a disk where every path's enclosing directories exist. On
/// the way, the patch leaves the installation patched.
pub proof fn lemma_patch_unpatch_round_trip(
    fs: Map<Seq<char>, Node>,
    res: Seq<char>,
    name: Seq<char>,
    download: Seq<char>,
    payload: Seq<char>,
)
    requires
        is_file(fs, asar_path(res)),
        !fs.contains_key(patched_asar_path(res)),
        !fs.contains_key(entry_dir(res)),
        is_tree(fs),
    ensures
        apply_ops(fs, patch_ops_spec(res, name, download, payload)) matches Some(f1) && patched_in(f1, res)
            && apply_ops(f1, unpatch_ops_spec(res)) == Some(fs),
{
    lemma_name_lengths();
    let a = asar_path(res);
    let p = patched_asar_path(res);
    let d = entry_dir(res);
    assert forall|k: Seq<char>| #[trigger] fs.contains_key(k) implies !is_under(k, d) by {
        if is_under(k, d) {
            assert(is_dir(fs, d));
        }
    }
    let dp = path_join(d, "package.json"@);
    let di = path_join(d, "injector.js"@);
    lemma_join_under(d, "package.json"@);
    lemma_join_under(d, "injector.js"@);
    let ops = patch_ops_spec(res, name, download, payload);
    let c1 = package_json_spec(name);
    let c2 = injector_script_spec(path_join(download, "injector.js"@), payload);
    let s1 = fs.remove(a).insert(p, fs[a]);
    let s2 = s1.insert(d, Node::Dir);
    let s3 = s2.insert(dp, Node::File(c1));
    let s4 = s3.insert(di, Node::File(c2));
    assert(!fs.contains_key(dp));
    assert(!fs.contains_key(di));
    let q1 = Seq::<FsOpView>::empty().push(ops[0]);
    let q2 = q1.push(ops[1]);
    let q3 = q2.push(ops[2]);
    let q4 = q3.push(ops[3]);
    lemma_apply_ops_push(fs, Seq::empty(), ops[0]);
    lemma_apply_ops_push(fs, q1, ops[1]);
    lemma_apply_ops_push(fs, q2, ops[2]);
    lemma_apply_ops_push(fs, q3, ops[3]);
    assert(apply_ops(fs, q1) == Some(s1));
    assert(apply_ops(fs, q2) == Some(s2));
    assert(apply_ops(fs, q3) == Some(s3));
    assert(ops =~= q4);
    assert(apply_ops(fs, ops) == Some(s4));
    let un = unpatch_ops_spec(res);
    let t1 = s4.remove(p).insert(a, s4[p]);
    let u1 = Seq::<FsOpView>::empty().push(un[0]);
    let u2 = u1.push(un[1]);
    lemma_apply_ops_push(s4, Seq::empty(), un[0]);
    lemma_apply_ops_push(s4, u1, un[1]);
    assert(apply_ops(s4, u1) == Some(t1));
    assert(un =~= u2);
    let t2 = crate::fs_model::remove_tree(t1, d);
    assert(apply_ops(s4, un) == Some(t2));
    assert forall|k: Seq<char>| #[trigger] t2.contains_key(k) == fs.contains_key(k) by {
        if fs.contains_key(k) {
            assert(k != d);
        }
    }
    assert(t2 =~= fs);
}

/// A patch that succeeds leaves the installation patched.
pub proof fn lemma_patch_marks_patched(
    fs: Map<Seq<char>, Node>,
    res: Seq<char>,
    name: Seq<char>,
    download: Seq<char>,
    payload: Seq<char>,
)
    ensures
        apply_ops(fs, patch_ops_spec(res, name, download, payload)) matches Some(f) ==> patched_in(f, res),
{
    lemma_name_lengths();
    let ops = patch_ops_spec(res, name, download, payload);
    let a = asar_path(res);
    let q1 = Seq::<FsOpView>::empty().push(ops[0]);
    let q2 = q1.push(ops[1]);
    let q3 = q2.push(ops[2]);
    let q4 = q3.push(ops[3]);
    lemma_apply_ops_push(fs, Seq::empty(), ops[0]);
    lemma_apply_ops_push(fs, q1, ops[1]);
    lemma_apply_ops_push(fs, q2, ops[2]);
    lemma_apply_ops_push(fs, q3, ops[3]);
    assert(ops =~= q4);
    let p = patched_asar_path(res);
    let d = entry_dir(res);
    assert(a.len() != p.len() && a.len() != d.len());
    assert(a.len() != path_join(d, "package.json"@).len() && a.len() != path_join(d, "injector.js"@).len());
    if let Some(f1) = apply_ops(fs, q1) {
        assert(f1 == fs.remove(a).insert(p, fs[a]));
        assert(!f1.contains_key(a));
        if let Some(f2) = apply_ops(fs, q2) {
            assert(!f2.contains_key(a));
            if let Some(f3) = apply_ops(fs, q3) {
                assert(!f3.contains_key(a));
            }
        }
    }
}

/// An unpatch that succeeds leaves the installation unpatched.
pub proof fn lemma_unpatch_marks_unpatched(fs: Map<Seq<char>, Node>, res: Seq<char>)
    ensures
        apply_ops(fs, unpatch_ops_spec(res)) matches Some(f) ==> !patched_in(f, res),
{
    lemma_name_lengths();
    let un = unpatch_ops_spec(res);
    let a = asar_path(res);
    let d = entry_dir(res);
    let u1 = Seq::<FsOpView>::empty().push(un[0]);
    let u2 = u1.push(un[1]);
    lemma_apply_ops_push(fs, Seq::empty(), un[0]);
    lemma_apply_ops_push(fs, u1, un[1]);
    assert(un =~= u2);
    if let Some(f) = apply_ops(fs, un) {
        let f1 = apply_ops(fs, u1)->0;
        assert(f1 == fs.remove(patched_asar_path(res)).insert(a, fs[patched_asar_path(res)]));
        assert(f == crate::fs_model::remove_tree(f1, d));
        assert(a != d);
        assert(!is_under(a, d)) by {
            if is_under(a, d) {
                assert(a[res.len() + 4int] == '.') by {
                    reveal_strlit("app.asar");
                    assert(a[res.len() + 4int] == "app.asar"@[3]);
                }
                assert(a.subrange(0, d.len() + 1int)[res.len() + 4int] == '/');
            }
        }
    }
}

/// Unpatching an installation that holds no `_app.asar` fails: the move of
/// the archive back has nothing to move.
pub proof fn lemma_unpatch_needs_patched_archive(fs: Map<Seq<char>, Node>, res: Seq<char>)
    requires
        !fs.contains_key(patched_asar_path(res)),
    ensures
        apply_ops(fs, unpatch_ops_spec(res)) is None,
{
    let un = unpatch_ops_spec(res);
    let u1 = Seq::<FsOpView>::empty().push(un[0]);
    let u2 = u1.push(un[1]);
    lemma_apply_ops_push(fs, Seq::empty(), un[0]);
    lemma_apply_ops_push(fs, u1, un[1]);
    assert(un =~= u2);
    assert(apply_ops(fs, u1) is None);
}

/// The decimal digit `d` (below 10).
pub open spec fn digit(d: nat) -> char {
    "0123456789"@[d as int]
}

/// The decimal numeral of `n`.
pub open spec fn decimal(n: nat) -> Seq<char>
    decreases n,
{
    if n < 10 {
        seq![digit(n)]
    } else {
        decimal(n / 10) + seq![digit(n % 10)]
    }
}

/// The name that a branch's settings are set aside under.
pub open spec fn backup_name(branch: Branch, secs: nat) -> Seq<char> {
    config_stem_spec(branch) + "-backup-"@ + decimal(secs) + ".json"@
}

/// The decimal numeral of `n`.
pub fn decimal_of(n: u64) -> (r: String)
    ensures
        r@ == decimal(n as nat),
    decreases n,
{
    let d = (n % 10) as usize;
    proof {
        reveal_strlit("0123456789");
    }
    let ds = "0123456789".substring_char(d, d + 1);
    assert(ds@ =~= seq![digit(d as nat)]);
    if n < 10 {
        String::from_str(ds)
    } else {
        let mut r = decimal_of(n / 10);
        r.append(ds);
        r
    }
}

/// The archive `a`, whose keys are paths relative to its root, unpacked
/// into `dir`: its entries are added, replacing what stood at their paths.
pub open spec fn unpack(fs: Map<Seq<char>, Node>, dir: Seq<char>, a: Map<Seq<char>, Node>) -> Map<Seq<char>, Node> {
    Map::new(
        |k: Seq<char>| fs.contains_key(k) || (is_under(k, dir) && a.contains_key(k.subrange(dir.len() + 1int, k.len() as int))),
        |k: Seq<char>| if is_under(k, dir) && a.contains_key(k.subrange(dir.len() + 1int, k.len() as int)) {
            a[k.subrange(dir.len() + 1int, k.len() as int)]
        } else {
            fs[k]
        },
    )
}

/// What lies inside the directory `dir`.
pub open spec fn within(fs: Map<Seq<char>, Node>, dir: Seq<char>) -> Map<Seq<char>, Node> {
    Map::new(|k: Seq<char>| is_under(k, dir) && fs.contains_key(k), |k: Seq<char>| fs[k])
}

/// A whole download of the archive `a` into the scratch directory `dir`:
/// its steps, then the unpacking.
pub open spec fn download_into(fs: Map<Seq<char>, Node>, dir: Seq<char>, a: Map<Seq<char>, Node>) -> Option<Map<Seq<char>, Node>> {
    match apply_ops(fs, download_ops_spec(dir, fs.contains_key(dir))) {
        Some(f) => Some(unpack(f, dir, a)),
        None => None,
    }
}

/// Two downloads in a row leave in the scratch directory exactly what the
/// second one unpacked: nothing of the first remains. Both succeed where the
/// scratch path is not a file.
pub proof fn lemma_second_download_replaces_first(
    fs: Map<Seq<char>, Node>,
    dir: Seq<char>,
    a1: Map<Seq<char>, Node>,
    a2: Map<Seq<char>, Node>,
)
    requires
        !is_file(fs, dir),
    ensures
        download_into(fs, dir, a1) matches Some(g1) && download_into(g1, dir, a2) matches Some(g2)
            && within(g2, dir) == within(unpack(Map::empty(), dir, a2), dir),
{
    let ops1 = download_ops_spec(dir, fs.contains_key(dir));
    lemma_apply_ops_push(fs, Seq::empty(), ops1[0]);
    if fs.contains_key(dir) {
        lemma_apply_ops_push(fs, Seq::<FsOpView>::empty().push(ops1[0]), ops1[1]);
        assert(ops1 =~= Seq::<FsOpView>::empty().push(ops1[0]).push(ops1[1]));
    } else {
        assert(ops1 =~= Seq::<FsOpView>::empty().push(ops1[0]));
    }
    let f1 = apply_ops(fs, ops1)->0;
    assert(is_dir(f1, dir));
    let g1 = unpack(f1, dir, a1);
    assert(!is_under(dir, dir));
    assert(is_dir(g1, dir));
    let ops2 = download_ops_spec(dir, true);
    lemma_apply_ops_push(g1, Seq::empty(), ops2[0]);
    lemma_apply_ops_push(g1, Seq::<FsOpView>::empty().push(ops2[0]), ops2[1]);
    assert(ops2 =~= Seq::<FsOpView>::empty().push(ops2[0]).push(ops2[1]));
    let h = crate::fs_model::remove_tree(g1, dir).insert(dir, Node::Dir);
    assert(apply_ops(g1, ops2) == Some(h));
    let g2 = unpack(h, dir, a2);
    assert(within(g2, dir) =~= within(unpack(Map::empty(), dir, a2), dir));
}

/// Recording a version and reading the marker back gives that version.
pub proof fn lemma_downloaded_version_round_trip(fs: Map<Seq<char>, Node>, dirs: PlatformDirs, version: Seq<char>)
    requires
        !is_dir(fs, dirs.installed_version_file_spec()),
    ensures
        apply_op(fs, FsOpView::WriteFile { path: dirs.installed_version_file_spec(), contents: version })
            matches Some(f) && f[dirs.installed_version_file_spec()] == Node::File(version),
{
}

} // verus!
