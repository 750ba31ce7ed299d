//! Finding installations: which directories to look at on each operating
//! system, and what the answers of the disk make of them.
use vstd::prelude::*;
use crate::paths::{join, path_join, PlatformDirs};
use crate::types::{Branch, DetectedInstall, Os};

verus! {

/// A place where an installation may be.
#[derive(Clone, Debug)]
pub struct Candidate {
    pub branch: Branch,
    /// What must exist for the installation to be there.
    pub probe: String,
    /// The installation's path, when `probe` exists.
    pub path: String,
    pub flatpak_id: Option<String>,
    /// The installation is the newest `app-<version>` directory inside `path`.
    pub pick_app_dir: bool,
}

pub ghost struct CandidateView {
    pub branch: Branch,
    pub probe: Seq<char>,
    pub path: Seq<char>,
    pub flatpak_id: Option<Seq<char>>,
    pub pick_app_dir: bool,
}

pub ghost struct InstallView {
    pub branch: Branch,
    pub path: Seq<char>,
    pub flatpak_id: Option<Seq<char>>,
}

pub open spec fn opt_view(o: Option<String>) -> Option<Seq<char>> {
    match o {
        Some(s) => Some(s@),
        None => None,
    }
}

impl Candidate {
    pub open spec fn view_candidate(&self) -> CandidateView {
        CandidateView {
            branch: self.branch,
            probe: self.probe@,
            path: self.path@,
            flatpak_id: opt_view(self.flatpak_id),
            pick_app_dir: self.pick_app_dir,
        }
    }
}

impl DetectedInstall {
    pub open spec fn view_install(&self) -> InstallView {
        InstallView { branch: self.branch, path: self.path@, flatpak_id: opt_view(self.flatpak_id) }
    }
}

pub open spec fn candidates_view(v: Seq<Candidate>) -> Seq<CandidateView> {
    v.map_values(|c: Candidate| c.view_candidate())
}

pub open spec fn installs_view(v: Seq<DetectedInstall>) -> Seq<InstallView> {
    v.map_values(|d: DetectedInstall| d.view_install())
}

/// What a directory listing holds, by name; `None` where the path does not exist.
pub open spec fn listing_view(l: Option<Vec<String>>) -> Option<Seq<Seq<char>>> {
    match l {
        Some(v) => Some(v@.map_values(|s: String| s@)),
        None => None,
    }
}

pub open spec fn listings_view(v: Seq<Option<Vec<String>>>) -> Seq<Option<Seq<Seq<char>>>> {
    v.map_values(|l: Option<Vec<String>>| listing_view(l))
}

/// The branches, in the order they are searched.
pub open spec fn branch_at(i: int) -> Branch {
    if i == 0 {
        Branch::Stable
    } else if i == 1 {
        Branch::PTB
    } else if i == 2 {
        Branch::Canary
    } else {
        Branch::Development
    }
}

/// The directory name of a branch on Windows and Linux.
pub open spec fn dir_name(b: Branch) -> Seq<char> {
    match b {
        Branch::Stable => "Discord"@,
        Branch::PTB => "DiscordPTB"@,
        Branch::Canary => "DiscordCanary"@,
        Branch::Development => "DiscordDevelopment"@,
    }
}

/// The application bundle of a branch on macOS.
pub open spec fn bundle_name(b: Branch) -> Seq<char> {
    match b {
        Branch::Stable => "Discord.app"@,
        Branch::PTB => "Discord PTB.app"@,
        Branch::Canary => "Discord Canary.app"@,
        Branch::Development => "Discord Development.app"@,
    }
}

pub open spec fn plain_candidate(b: Branch, p: Seq<char>, pick: bool) -> CandidateView {
    CandidateView { branch: b, probe: p, path: p, flatpak_id: None, pick_app_dir: pick }
}

pub open spec fn bundle_candidate(b: Branch, bundle: Seq<char>) -> CandidateView {
    CandidateView {
        branch: b,
        probe: path_join(bundle, "Contents/Resources"@),
        path: path_join(bundle, "Contents/Resources"@),
        flatpak_id: None,
        pick_app_dir: false,
    }
}

pub open spec fn flatpak_candidate(data_root: Seq<char>, b: Branch, rel: Seq<char>, id: Seq<char>) -> CandidateView {
    CandidateView {
        branch: b,
        probe: path_join(data_root, rel),
        path: path_join(data_root, rel),
        flatpak_id: Some(id),
        pick_app_dir: false,
    }
}

/// Where installations may be on the system that `d` describes, in search order.
pub open spec fn candidates_spec(d: PlatformDirs) -> Seq<CandidateView> {
    match d.os {
        Os::Windows => Seq::new(
            4,
            |i: int| plain_candidate(branch_at(i), path_join(d.data_root@, dir_name(branch_at(i))), true),
        ),
        Os::MacOs => Seq::new(
            8,
            |i: int|
                bundle_candidate(
                    branch_at(i % 4),
                    path_join(
                        if i < 4 { "/Applications"@ } else { path_join(d.home@, "Applications"@) },
                        bundle_name(branch_at(i % 4)),
                    ),
                ),
        ),
        Os::Linux => Seq::new(
            4,
            |i: int| plain_candidate(branch_at(i), path_join(d.data_root@, dir_name(branch_at(i))), false),
        ) + seq![
            flatpak_candidate(
                d.data_root@,
                Branch::Stable,
                "flatpak/app/com.discordapp.Discord/current/active/files/discord"@,
                "com.discordapp.Discord"@,
            ),
            flatpak_candidate(
                d.data_root@,
                Branch::Canary,
                "flatpak/app/com.discordapp.DiscordCanary/current/active/files/discord-canary"@,
                "com.discordapp.DiscordCanary"@,
            ),
        ],
        Os::Other => seq![],
    }
}

fn branch_of_index(i: usize) -> (r: Branch)
    ensures
        r == branch_at(i as int),
{
    if i == 0 {
        Branch::Stable
    } else if i == 1 {
        Branch::PTB
    } else if i == 2 {
        Branch::Canary
    } else {
        Branch::Development
    }
}

fn dir_name_of(b: Branch) -> (r: &'static str)
    ensures
        r@ == dir_name(b),
{
    match b {
        Branch::Stable => "Discord",
        Branch::PTB => "DiscordPTB",
        Branch::Canary => "DiscordCanary",
        Branch::Development => "DiscordDevelopment",
    }
}

fn bundle_name_of(b: Branch) -> (r: &'static str)
    ensures
        r@ == bundle_name(b),
{
    match b {
        Branch::Stable => "Discord.app",
        Branch::PTB => "Discord PTB.app",
        Branch::Canary => "Discord Canary.app",
        Branch::Development => "Discord Development.app",
    }
}

fn flatpak_candidate_of(data_root: &str, b: Branch, rel: &str, id: &str) -> (r: Candidate)
    ensures
        r.view_candidate() == flatpak_candidate(data_root@, b, rel@, id@),
{
    let p = join(data_root, rel);
    Candidate {
        branch: b,
        probe: p.clone(),
        path: p,
        flatpak_id: Some(String::from_str(id)),
        pick_app_dir: false,
    }
}

/// Where installations may be on the system that `dirs` describes: one
/// directory per branch on Windows and Linux, plus the two Flatpak packages
/// on Linux; on macOS the `Contents/Resources` directory of one bundle per branch, in `/Applications` and in
/// `~/Applications`; nothing elsewhere.
pub fn install_candidates(dirs: &PlatformDirs) -> (r: Vec<Candidate>)
    ensures
        candidates_view(r@) == candidates_spec(*dirs),
{
    let mut r: Vec<Candidate> = Vec::new();
    match dirs.os {
        Os::Windows | Os::Linux => {
            let pick = dirs.os == Os::Windows;
            let mut i: usize = 0;
            while i < 4
                invariant
                    i <= 4,
                    pick == (dirs.os == Os::Windows),
                    candidates_view(r@) =~= Seq::new(
                        i as nat,
                        |k: int| plain_candidate(branch_at(k), path_join(dirs.data_root@, dir_name(branch_at(k))), pick),
                    ),
                decreases 4 - i,
            {
                let b = branch_of_index(i);
                let p = join(dirs.data_root.as_str(), dir_name_of(b));
                let c = Candidate { branch: b, probe: p.clone(), path: p, flatpak_id: None, pick_app_dir: pick };
                assert(c.view_candidate() == plain_candidate(branch_at(i as int), path_join(dirs.data_root@, dir_name(branch_at(i as int))), pick));
                let ghost old_r = r@;
                r.push(c);
                assert(candidates_view(r@) =~= candidates_view(old_r).push(c.view_candidate()));
                i = i + 1;
            }
            if dirs.os == Os::Linux {
                r.push(flatpak_candidate_of(
                    dirs.data_root.as_str(),
                    Branch::Stable,
                    "flatpak/app/com.discordapp.Discord/current/active/files/discord",
                    "com.discordapp.Discord",
                ));
                r.push(flatpak_candidate_of(
                    dirs.data_root.as_str(),
                    Branch::Canary,
                    "flatpak/app/com.discordapp.DiscordCanary/current/active/files/discord-canary",
                    "com.discordapp.DiscordCanary",
                ));
            }
        },
        Os::MacOs => {
            let user_apps = join(dirs.home.as_str(), "Applications");
            let mut i: usize = 0;
            while i < 8
                invariant
                    i <= 8,
                    dirs.os == Os::MacOs,
                    user_apps@ == path_join(dirs.home@, "Applications"@),
                    candidates_view(r@) =~= candidates_spec(*dirs).subrange(0, i as int),
                decreases 8 - i,
            {
                let b = branch_of_index(i % 4);
                let bundle = if i < 4 {
                    join("/Applications", bundle_name_of(b))
                } else {
                    join(user_apps.as_str(), bundle_name_of(b))
                };
                let path = join(bundle.as_str(), "Contents/Resources");
                let c = Candidate { branch: b, probe: path.clone(), path, flatpak_id: None, pick_app_dir: false };
                assert(c.view_candidate() == candidates_spec(*dirs)[i as int]);
                let ghost old_r = r@;
                r.push(c);
                assert(candidates_view(r@) =~= candidates_view(old_r).push(c.view_candidate()));
                i = i + 1;
            }
        },
        Os::Other => {},
    }
    assert(candidates_view(r@) =~= candidates_spec(*dirs));
    r
}

/// Whether `a` comes no later than `b` in character order, comparing from index `i` on.
pub open spec fn lex_le_from(a: Seq<char>, b: Seq<char>, i: int) -> bool
    decreases a.len() - i,
{
    if i < 0 || i >= a.len() {
        true
    } else if i >= b.len() {
        false
    } else if a[i] != b[i] {
        (a[i] as u32) < (b[i] as u32)
    } else {
        lex_le_from(a, b, i + 1)
    }
}

/// Lexicographic order of names, character by character.
pub open spec fn lex_le(a: Seq<char>, b: Seq<char>) -> bool {
    lex_le_from(a, b, 0)
}

/// Whether `name` is that of a versioned directory, `app-<version>`.
pub open spec fn is_app_dir_name(name: Seq<char>) -> bool {
    name.len() >= 4 && name.subrange(0, 4) == "app-"@
}

/// The greatest `app-<version>` name of a listing, the last one among equals.
pub open spec fn latest_app_dir(l: Seq<Seq<char>>) -> Option<Seq<char>>
    decreases l.len(),
{
    if l.len() == 0 {
        None
    } else {
        let prev = latest_app_dir(l.drop_last());
        let e = l.last();
        if is_app_dir_name(e) && (prev is None || lex_le(prev->0, e)) {
            Some(e)
        } else {
            prev
        }
    }
}

/// What one candidate contributes, given the listing of its probe path.
pub open spec fn detect_one(c: CandidateView, listing: Option<Seq<Seq<char>>>) -> Option<InstallView> {
    match listing {
        None => None,
        Some(l) => if c.pick_app_dir {
            match latest_app_dir(l) {
                None => None,
                Some(e) => Some(InstallView { branch: c.branch, path: path_join(c.path, e), flatpak_id: c.flatpak_id }),
            }
        } else {
            Some(InstallView { branch: c.branch, path: c.path, flatpak_id: c.flatpak_id })
        },
    }
}

pub open spec fn listing_at(ls: Seq<Option<Seq<Seq<char>>>>, i: int) -> Option<Seq<Seq<char>>> {
    if 0 <= i < ls.len() {
        ls[i]
    } else {
        None
    }
}

/// The installations found among the first candidates, in candidate order.
pub open spec fn detect_spec(cs: Seq<CandidateView>, ls: Seq<Option<Seq<Seq<char>>>>) -> Seq<InstallView>
    decreases cs.len(),
{
    if cs.len() == 0 {
        seq![]
    } else {
        let rest = detect_spec(cs.drop_last(), ls);
        match detect_one(cs.last(), listing_at(ls, cs.len() - 1)) {
            Some(v) => rest.push(v),
            None => rest,
        }
    }
}

fn is_app_dir(name: &str) -> (r: bool)
    ensures
        r == is_app_dir_name(name@),
{
    proof {
        reveal_strlit("app-");
    }
    if name.unicode_len() < 4 {
        return false;
    }
    let r = name.get_char(0) == 'a' && name.get_char(1) == 'p' && name.get_char(2) == 'p'
        && name.get_char(3) == '-';
    assert("app-"@ =~= seq!['a', 'p', 'p', '-']);
    assert(r ==> name@.subrange(0, 4) =~= "app-"@);
    assert(name@.subrange(0, 4) == "app-"@ ==> {
        &&& name@[0] == name@.subrange(0, 4)[0]
        &&& name@[1] == name@.subrange(0, 4)[1]
        &&& name@[2] == name@.subrange(0, 4)[2]
        &&& name@[3] == name@.subrange(0, 4)[3]
    });
    r
}

/// Whether `a` comes no later than `b` in character order.
pub fn name_le(a: &str, b: &str) -> (r: bool)
    ensures
        r == lex_le(a@, b@),
{
    let la = a.unicode_len();
    let lb = b.unicode_len();
    let mut i: usize = 0;
    while i < la
        invariant
            la == a@.len(),
            lb == b@.len(),
            i <= la,
            lex_le(a@, b@) == lex_le_from(a@, b@, i as int),
        decreases la - i,
    {
        if i >= lb {
            return false;
        }
        let ca = a.get_char(i);
        let cb = b.get_char(i);
        if ca != cb {
            return (ca as u32) < (cb as u32);
        }
        i = i + 1;
    }
    true
}

/// The greatest `app-<version>` directory name of a listing.
pub fn latest_app_dir_of(l: &Vec<String>) -> (r: Option<String>)
    ensures
        opt_view(r) == latest_app_dir(l@.map_values(|s: String| s@)),
{
    let ghost names = l@.map_values(|s: String| s@);
    let mut best: Option<String> = None;
    let mut i: usize = 0;
    while i < l.len()
        invariant
            i <= l.len(),
            names == l@.map_values(|s: String| s@),
            opt_view(best) == latest_app_dir(names.subrange(0, i as int)),
        decreases l.len() - i,
    {
        assert(names.subrange(0, i as int + 1).drop_last() =~= names.subrange(0, i as int));
        let e = &l[i];
        if is_app_dir(e.as_str()) {
            let take = match &best {
                None => true,
                Some(b) => name_le(b.as_str(), e.as_str()),
            };
            if take {
                best = Some(e.clone());
            }
        }
        i = i + 1;
    }
    assert(names.subrange(0, l.len() as int) =~= names);
    best
}

/// The installations present among `candidates`, in their order.
/// `listings[i]` is what the disk says of `candidates[i].probe`: `None` where
/// it does not exist, else the names inside it (only read for a candidate
/// that picks its newest `app-<version>` directory). A candidate without a
/// listing is absent.
pub fn detect_installs(candidates: &Vec<Candidate>, listings: &Vec<Option<Vec<String>>>) -> (r: Vec<DetectedInstall>)
    ensures
        installs_view(r@) == detect_spec(candidates_view(candidates@), listings_view(listings@)),
{
    let ghost cs = candidates_view(candidates@);
    let ghost ls = listings_view(listings@);
    let mut r: Vec<DetectedInstall> = Vec::new();
    let mut i: usize = 0;
    while i < candidates.len()
        invariant
            i <= candidates.len(),
            cs == candidates_view(candidates@),
            ls == listings_view(listings@),
            installs_view(r@) == detect_spec(cs.subrange(0, i as int), ls),
        decreases candidates.len() - i,
    {
        let c = &candidates[i];
        assert(cs.subrange(0, i as int + 1).drop_last() =~= cs.subrange(0, i as int));
        let ghost old_r = r@;
        if i < listings.len() {
            match &listings[i] {
                None => {},
                Some(l) => {
                    if c.pick_app_dir {
                        match latest_app_dir_of(l) {
                            None => {},
                            Some(e) => {
                                let d = DetectedInstall {
                                    branch: c.branch,
                                    path: join(c.path.as_str(), e.as_str()),
                                    flatpak_id: c.flatpak_id.clone(),
                                };
                                r.push(d);
                                assert(installs_view(r@) =~= installs_view(old_r).push(d.view_install()));
                            },
                        }
                    } else {
                        let d = DetectedInstall {
                            branch: c.branch,
                            path: c.path.clone(),
                            flatpak_id: c.flatpak_id.clone(),
                        };
                        r.push(d);
                        assert(installs_view(r@) =~= installs_view(old_r).push(d.view_install()));
                    }
                },
            }
        }
        i = i + 1;
    }
    assert(cs.subrange(0, candidates.len() as int) =~= cs);
    r
}

/// The newest `app-<version>` name of a listing is one of its names, and an
/// `app-<version>` name.
pub proof fn lemma_latest_app_dir_listed(l: Seq<Seq<char>>)
    ensures
        latest_app_dir(l) matches Some(e) ==> l.contains(e) && is_app_dir_name(e),
    decreases l.len(),
{
    if l.len() > 0 {
        lemma_latest_app_dir_listed(l.drop_last());
        if let Some(e) = latest_app_dir(l.drop_last()) {
            if l.drop_last().contains(e) {
                let k = choose|k: int| 0 <= k < l.drop_last().len() && l.drop_last()[k] == e;
                assert(l[k] == e);
            }
        }
        assert(l[l.len() - 1] == l.last());
    }
}

/// Whether the disk showed `v` through candidate `c`: its probe path was
/// listed as present, and `v`'s path is the candidate's path, or for a
/// versioned layout an `app-<version>` entry of that listing inside it.
pub open spec fn shown_by(v: InstallView, c: CandidateView, listing: Option<Seq<Seq<char>>>) -> bool {
    listing is Some && v.branch == c.branch && v.flatpak_id == c.flatpak_id
        && (if c.pick_app_dir {
            exists|e: Seq<char>| listing->0.contains(e) && is_app_dir_name(e) && v.path == path_join(c.path, e)
        } else {
            v.path == c.path
        })
}

/// Each candidate probes the very path it records: what detection reports
/// is a path that the disk showed to exist, or an entry listed inside one.
pub proof fn lemma_candidates_probe_their_path(d: PlatformDirs)
    ensures
        forall|i: int| 0 <= i < candidates_spec(d).len() ==> #[trigger] candidates_spec(d)[i].probe
            == candidates_spec(d)[i].path,
{
}

/// Whether one of the candidates `cs` showed `v`.
pub open spec fn shown_by_some(v: InstallView, cs: Seq<CandidateView>, ls: Seq<Option<Seq<Seq<char>>>>) -> bool {
    exists|i: int| 0 <= i < cs.len() && #[trigger] shown_by(v, cs[i], listing_at(ls, i))
}

/// Detection reports only what exists: each installation found was shown by
/// one of the candidates.
pub proof fn lemma_detected_installs_exist(cs: Seq<CandidateView>, ls: Seq<Option<Seq<Seq<char>>>>)
    ensures
        forall|k: int| 0 <= k < detect_spec(cs, ls).len() ==> #[trigger] shown_by_some(detect_spec(cs, ls)[k], cs, ls),
    decreases cs.len(),
{
    if cs.len() > 0 {
        let prev = cs.drop_last();
        lemma_detected_installs_exist(prev, ls);
        let n = cs.len() - 1;
        if let Some(l) = listing_at(ls, n) {
            lemma_latest_app_dir_listed(l);
        }
        assert forall|k: int| 0 <= k < detect_spec(cs, ls).len() implies #[trigger] shown_by_some(detect_spec(cs, ls)[k], cs, ls) by {
            if k < detect_spec(prev, ls).len() {
                assert(shown_by_some(detect_spec(prev, ls)[k], prev, ls));
                let i = choose|i: int| 0 <= i < prev.len() && #[trigger] shown_by(detect_spec(prev, ls)[k], prev[i], listing_at(ls, i));
                assert(prev[i] == cs[i]);
                assert(detect_spec(cs, ls)[k] == detect_spec(prev, ls)[k]);
                assert(shown_by(detect_spec(cs, ls)[k], cs[i], listing_at(ls, i)));
            } else {
                let l = listing_at(ls, n)->0;
                if cs[n].pick_app_dir {
                    let e = latest_app_dir(l)->0;
                    assert(l.contains(e) && is_app_dir_name(e) && detect_spec(cs, ls)[k].path == path_join(cs[n].path, e));
                }
                assert(shown_by(detect_spec(cs, ls)[k], cs[n], listing_at(ls, n)));
            }
        }
    }
}

} // verus!
