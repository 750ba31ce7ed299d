//! The Flatpak override that lets a sandboxed client reach moonlight's
//! configuration directory.
use vstd::prelude::*;
use crate::release::str_eq;
use crate::types::{
    entries_view, FlatpakFilesystemOverride, FlatpakFilesystemOverridePermission, FlatpakOverrides,
    FlatpakOverridesContext, IniSection, OverridesView,
};

verus! {

/// The entry that grants the sandbox read-write access to moonlight's settings.
pub open spec fn access_entry() -> (Seq<char>, FlatpakFilesystemOverridePermission) {
    ("xdg-config/moonlight-mod"@, FlatpakFilesystemOverridePermission::ReadWrite)
}

/// An override file that is missing or could not be read counts as empty.
pub open spec fn current_view(o: Option<FlatpakOverrides>) -> OverridesView {
    match o {
        None => OverridesView::NoContext,
        Some(x) => x.view_overrides(),
    }
}

pub open spec fn has_access(v: OverridesView) -> bool {
    match v {
        OverridesView::Filesystems(es) => es.contains(access_entry()),
        _ => false,
    }
}

/// `v` with the access entry appended, creating the section and the list
/// where they are missing.
pub open spec fn with_access(v: OverridesView) -> OverridesView {
    match v {
        OverridesView::Filesystems(es) => OverridesView::Filesystems(es.push(access_entry())),
        _ => OverridesView::Filesystems(seq![access_entry()]),
    }
}

/// What to write back: nothing where access is granted already.
pub open spec fn ensured(v: OverridesView) -> Option<OverridesView> {
    if has_access(v) {
        None
    } else {
        Some(with_access(v))
    }
}

/// The override file's contents after one ensure.
pub open spec fn file_after(v: OverridesView) -> OverridesView {
    match ensured(v) {
        None => v,
        Some(w) => w,
    }
}

fn has_access_entry(v: &Vec<FlatpakFilesystemOverride>) -> (r: bool)
    ensures
        r == entries_view(v@).contains(access_entry()),
{
    let mut i: usize = 0;
    while i < v.len()
        invariant
            i <= v.len(),
            forall|j: int| 0 <= j < i ==> entries_view(v@)[j] != access_entry(),
        decreases v.len() - i,
    {
        if str_eq(v[i].path.as_str(), "xdg-config/moonlight-mod")
            && v[i].permission == FlatpakFilesystemOverridePermission::ReadWrite {
            assert(entries_view(v@)[i as int] == access_entry());
            return true;
        }
        i = i + 1;
    }
    false
}

/// The sections other than `[Context]` of an override file as read.
pub open spec fn kept_sections(o: Option<FlatpakOverrides>) -> Seq<IniSection> {
    match o {
        Some(x) => x.other_sections@,
        None => seq![],
    }
}

/// The keys of `[Context]` other than `filesystems` of an override file as read.
pub open spec fn kept_keys(o: Option<FlatpakOverrides>) -> Seq<(String, String)> {
    match o {
        Some(x) => match x.context {
            Some(c) => c.other_keys@,
            None => seq![],
        },
        None => seq![],
    }
}

/// Grants the sandbox access to moonlight's settings. `current` is the
/// override file as read, `None` where it is missing or malformed. Returns
/// `None` where it already grants that access and nothing is to be written,
/// else the whole file to write: `current` with the access entry appended to
/// its `filesystems` list, which is created where missing. No entry is
/// removed or repeated, and the other keys and sections stay as they were.
pub fn ensure_access(current: Option<FlatpakOverrides>) -> (r: Option<FlatpakOverrides>)
    ensures
        match ensured(current_view(current)) {
            None => r is None,
            Some(w) => r matches Some(o) && o.view_overrides() == w,
        },
        r matches Some(o) ==> (o.other_sections@ == kept_sections(current)
            && (o.context matches Some(c) && c.other_keys@ == kept_keys(current))),
{
    let entry = FlatpakFilesystemOverride {
        path: String::from_str("xdg-config/moonlight-mod"),
        permission: FlatpakFilesystemOverridePermission::ReadWrite,
    };
    proof {
        reveal_strlit("xdg-config/moonlight-mod");
    }
    let (other_sections, other_keys, filesystems) = match current {
        None => (Vec::new(), Vec::new(), None),
        Some(FlatpakOverrides { context: None, other_sections }) => (other_sections, Vec::new(), None),
        Some(FlatpakOverrides { context: Some(FlatpakOverridesContext { filesystems, other_keys }), other_sections }) => {
            (other_sections, other_keys, filesystems)
        },
    };
    assert(other_sections@ == kept_sections(current));
    assert(other_keys@ == kept_keys(current));
    let v = match filesystems {
        Some(mut v) => {
            if has_access_entry(&v) {
                return None;
            }
            let ghost old_v = v@;
            v.push(entry);
            assert(entries_view(v@) =~= entries_view(old_v).push(access_entry()));
            v
        },
        None => {
            let mut v: Vec<FlatpakFilesystemOverride> = Vec::new();
            v.push(entry);
            assert(entries_view(v@) =~= seq![access_entry()]);
            v
        },
    };
    Some(FlatpakOverrides {
        context: Some(FlatpakOverridesContext { filesystems: Some(v), other_keys }),
        other_sections,
    })
}

/// Ensuring twice is ensuring once: after the first ensure the file grants
/// the access, the second writes nothing, and the file stays as it is. The
/// first appends the one entry and keeps all the others.
pub proof fn lemma_ensure_idempotent(v: OverridesView)
    ensures
        has_access(file_after(v)),
        ensured(file_after(v)) is None,
        file_after(file_after(v)) == file_after(v),
        !has_access(v) ==> file_after(v) == with_access(v),
{
    match v {
        OverridesView::Filesystems(es) => {
            if !es.contains(access_entry()) {
                assert(es.push(access_entry())[es.len() as int] == access_entry());
            }
        },
        _ => {
            assert(seq![access_entry()][0] == access_entry());
        },
    }
}

/// Whether `p` ends with `suffix`.
pub open spec fn ends_with(p: Seq<char>, suffix: Seq<char>) -> bool {
    p.len() >= suffix.len() && p.subrange(p.len() - suffix.len(), p.len() as int) == suffix
}

/// One `filesystems` entry as written: a path, then `:ro` for read-only
/// access or optionally `:rw` for read-write access.
pub open spec fn entry_of_text(p: Seq<char>) -> (Seq<char>, FlatpakFilesystemOverridePermission) {
    if ends_with(p, ":ro"@) {
        (p.subrange(0, p.len() - 3), FlatpakFilesystemOverridePermission::ReadOnly)
    } else if ends_with(p, ":rw"@) {
        (p.subrange(0, p.len() - 3), FlatpakFilesystemOverridePermission::ReadWrite)
    } else {
        (p, FlatpakFilesystemOverridePermission::ReadWrite)
    }
}

/// `acc`, with the entry written as `p` where `p` is not empty.
pub open spec fn add_piece(
    acc: Seq<(Seq<char>, FlatpakFilesystemOverridePermission)>,
    p: Seq<char>,
) -> Seq<(Seq<char>, FlatpakFilesystemOverridePermission)> {
    if p.len() == 0 {
        acc
    } else {
        acc.push(entry_of_text(p))
    }
}

/// The entries of `s` from index `i` on, where the current piece began at
/// `start` and `acc` holds those before it.
pub open spec fn parse_from(
    s: Seq<char>,
    i: int,
    start: int,
    acc: Seq<(Seq<char>, FlatpakFilesystemOverridePermission)>,
) -> Seq<(Seq<char>, FlatpakFilesystemOverridePermission)>
    decreases s.len() - i,
{
    if i < 0 || i >= s.len() {
        add_piece(acc, s.subrange(start, s.len() as int))
    } else if s[i] == ';' {
        parse_from(s, i + 1, i + 1, add_piece(acc, s.subrange(start, i)))
    } else {
        parse_from(s, i + 1, start, acc)
    }
}

/// The entries of a `filesystems` value: its `;`-separated pieces, empty
/// ones skipped.
pub open spec fn parse_filesystems_spec(s: Seq<char>) -> Seq<(Seq<char>, FlatpakFilesystemOverridePermission)> {
    parse_from(s, 0, 0, seq![])
}

/// How an entry is written, with its terminating `;`.
pub open spec fn entry_text(e: (Seq<char>, FlatpakFilesystemOverridePermission)) -> Seq<char> {
    match e.1 {
        FlatpakFilesystemOverridePermission::ReadOnly => e.0 + ":ro;"@,
        FlatpakFilesystemOverridePermission::ReadWrite => e.0 + ";"@,
    }
}

pub open spec fn format_filesystems_spec(es: Seq<(Seq<char>, FlatpakFilesystemOverridePermission)>) -> Seq<char>
    decreases es.len(),
{
    if es.len() == 0 {
        seq![]
    } else {
        format_filesystems_spec(es.drop_last()) + entry_text(es.last())
    }
}

fn entry_from_text(p: &str) -> (r: FlatpakFilesystemOverride)
    ensures
        r.view_entry() == entry_of_text(p@),
{
    proof {
        reveal_strlit(":ro");
        reveal_strlit(":rw");
    }
    let n = p.unicode_len();
    if n >= 3 && p.get_char(n - 3) == ':' && p.get_char(n - 2) == 'r' {
        let c = p.get_char(n - 1);
        assert(p@.subrange(n - 3, n as int) =~= seq![':', 'r', c]);
        assert(":ro"@ =~= seq![':', 'r', 'o']);
        assert(":rw"@ =~= seq![':', 'r', 'w']);
        if c == 'o' || c == 'w' {
            let permission = if c == 'o' {
                FlatpakFilesystemOverridePermission::ReadOnly
            } else {
                assert(!ends_with(p@, ":ro"@)) by {
                    assert(p@.subrange(n - 3, n as int)[2] != ":ro"@[2]);
                }
                FlatpakFilesystemOverridePermission::ReadWrite
            };
            return FlatpakFilesystemOverride { path: String::from_str(p.substring_char(0, n - 3)), permission };
        }
    }
    assert(!ends_with(p@, ":ro"@) && !ends_with(p@, ":rw"@)) by {
        if n >= 3 {
            let t = p@.subrange(n - 3, n as int);
            assert(t[0] == p@[n - 3] && t[1] == p@[n - 2] && t[2] == p@[n - 1]);
        }
    }
    FlatpakFilesystemOverride {
        path: String::from_str(p),
        permission: FlatpakFilesystemOverridePermission::ReadWrite,
    }
}

/// The entries of a `filesystems` value of an override file.
pub fn parse_filesystems(s: &str) -> (r: Vec<FlatpakFilesystemOverride>)
    ensures
        entries_view(r@) == parse_filesystems_spec(s@),
{
    let n = s.unicode_len();
    let mut r: Vec<FlatpakFilesystemOverride> = Vec::new();
    let mut start: usize = 0;
    let mut i: usize = 0;
    assert(entries_view(r@) =~= seq![]);
    while i < n
        invariant
            n == s@.len(),
            start <= i <= n,
            parse_filesystems_spec(s@) == parse_from(s@, i as int, start as int, entries_view(r@)),
        decreases n - i,
    {
        if s.get_char(i) == ';' {
            if start < i {
                let e = entry_from_text(s.substring_char(start, i));
                let ghost old_r = r@;
                r.push(e);
                assert(entries_view(r@) =~= entries_view(old_r).push(e.view_entry()));
            }
            start = i + 1;
        }
        i = i + 1;
    }
    if start < n {
        let e = entry_from_text(s.substring_char(start, n));
        let ghost old_r = r@;
        r.push(e);
        assert(entries_view(r@) =~= entries_view(old_r).push(e.view_entry()));
    }
    r
}

/// The `filesystems` value that holds the entries `v`.
pub fn format_filesystems(v: &Vec<FlatpakFilesystemOverride>) -> (r: String)
    ensures
        r@ == format_filesystems_spec(entries_view(v@)),
{
    let mut r = String::new();
    let mut i: usize = 0;
    while i < v.len()
        invariant
            i <= v.len(),
            r@ == format_filesystems_spec(entries_view(v@).subrange(0, i as int)),
        decreases v.len() - i,
    {
        assert(entries_view(v@).subrange(0, i as int + 1).drop_last() =~= entries_view(v@).subrange(0, i as int));
        r.append(v[i].path.as_str());
        match v[i].permission {
            FlatpakFilesystemOverridePermission::ReadOnly => r.append(":ro;"),
            FlatpakFilesystemOverridePermission::ReadWrite => r.append(";"),
        }
        i = i + 1;
    }
    assert(entries_view(v@).subrange(0, v.len() as int) =~= entries_view(v@));
    r
}

/// A path that the `filesystems` encoding writes and reads back unchanged.
pub open spec fn plain_path(p: Seq<char>) -> bool {
    p.len() > 0 && !p.contains(';') && !ends_with(p, ":ro"@) && !ends_with(p, ":rw"@)
}

proof fn lemma_scan(
    s: Seq<char>,
    i: int,
    k: int,
    start: int,
    acc: Seq<(Seq<char>, FlatpakFilesystemOverridePermission)>,
)
    requires
        0 <= i <= k <= s.len(),
        forall|j: int| i <= j < k ==> s[j] != ';',
    ensures
        parse_from(s, i, start, acc) == parse_from(s, k, start, acc),
    decreases k - i,
{
    if i < k {
        lemma_scan(s, i + 1, k, start, acc);
    }
}

proof fn lemma_step_entry(
    s: Seq<char>,
    at: int,
    acc: Seq<(Seq<char>, FlatpakFilesystemOverridePermission)>,
    e: (Seq<char>, FlatpakFilesystemOverridePermission),
)
    requires
        plain_path(e.0),
        0 <= at,
        at + entry_text(e).len() <= s.len(),
        s.subrange(at, at + entry_text(e).len()) == entry_text(e),
    ensures
        parse_from(s, at, at, acc) == parse_from(s, at + entry_text(e).len(), at + entry_text(e).len(), acc.push(e)),
{
    reveal_strlit(":ro;");
    reveal_strlit(";");
    reveal_strlit(":ro");
    reveal_strlit(":rw");
    let t = entry_text(e);
    let m = at + t.len() - 1;
    let piece = t.subrange(0, t.len() - 1);
    assert forall|j: int| at <= j < m implies s[j] != ';' by {
        assert(s[j] == s.subrange(at, at + t.len())[j - at]);
        if j - at < e.0.len() {
            assert(t[j - at] == e.0[j - at]);
        }
    }
    lemma_scan(s, at, m, at, acc);
    assert(s[m] == s.subrange(at, at + t.len())[m - at]);
    assert(s.subrange(at, m) =~= piece);
    match e.1 {
        FlatpakFilesystemOverridePermission::ReadOnly => {
            assert(piece =~= e.0 + ":ro"@);
            assert(piece.subrange(piece.len() - 3, piece.len() as int) =~= ":ro"@);
            assert(piece.subrange(0, piece.len() - 3) =~= e.0);
        },
        FlatpakFilesystemOverridePermission::ReadWrite => {
            assert(piece =~= e.0);
        },
    }
    assert(entry_of_text(piece) == e);
}

proof fn lemma_parse_prefix(s: Seq<char>, es: Seq<(Seq<char>, FlatpakFilesystemOverridePermission)>)
    requires
        forall|i: int| 0 <= i < es.len() ==> plain_path(#[trigger] es[i].0),
        format_filesystems_spec(es).len() <= s.len(),
        s.subrange(0, format_filesystems_spec(es).len() as int) == format_filesystems_spec(es),
    ensures
        parse_from(s, 0, 0, seq![]) == parse_from(
            s,
            format_filesystems_spec(es).len() as int,
            format_filesystems_spec(es).len() as int,
            es,
        ),
    decreases es.len(),
{
    if es.len() > 0 {
        let prev = es.drop_last();
        let f = format_filesystems_spec(prev);
        let t = entry_text(es.last());
        assert(format_filesystems_spec(es) == f + t);
        assert((f + t).subrange(0, f.len() as int) =~= f);
        assert((f + t).subrange(f.len() as int, (f.len() + t.len()) as int) =~= t);
        assert(s.subrange(0, f.len() as int) =~= s.subrange(0, (f + t).len() as int).subrange(0, f.len() as int));
        assert forall|i: int| 0 <= i < prev.len() implies plain_path(#[trigger] prev[i].0) by {
            assert(prev[i] == es[i]);
        }
        lemma_parse_prefix(s, prev);
        assert(s.subrange(f.len() as int, (f.len() + t.len()) as int) =~= s.subrange(0, (f + t).len() as int).subrange(f.len() as int, (f.len() + t.len()) as int));
        assert(es[es.len() - 1] == es.last());
        lemma_step_entry(s, f.len() as int, prev, es.last());
        assert(prev.push(es.last()) =~= es);
    } else {
        assert(seq![] =~= es);
    }
}

/// Writing entries into a `filesystems` value and reading it back gives the
/// same entries, for paths that are not empty, hold no `;` and do not end
/// in a permission suffix.
pub proof fn lemma_filesystems_round_trip(es: Seq<(Seq<char>, FlatpakFilesystemOverridePermission)>)
    requires
        forall|i: int| 0 <= i < es.len() ==> plain_path(#[trigger] es[i].0),
    ensures
        parse_filesystems_spec(format_filesystems_spec(es)) == es,
{
    let s = format_filesystems_spec(es);
    assert(s.subrange(0, s.len() as int) =~= s);
    lemma_parse_prefix(s, es);
    assert(s.subrange(s.len() as int, s.len() as int) =~= Seq::<char>::empty());
}

} // verus!
