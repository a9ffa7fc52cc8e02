use vstd::prelude::*;

use vstd::string::StrSliceExecFns;

use crate::error::Error;

verus! {

// ---------------------------------------------------------------------------
// Path model
//
// A path is a string; '/' separates its components.  The directory part of
// a path is everything before its last separator, its file name everything
// after.  A path without a separator has no directory part.
// ---------------------------------------------------------------------------

/// The character sequences of a sequence of paths.
pub open spec fn views(s: Seq<String>) -> Seq<Seq<char>> {
    s.map_values(|p: String| p@)
}

/// Index of the last '/' in `p`, or -1 when `p` has none.
pub open spec fn last_sep(p: Seq<char>) -> int
    decreases p.len(),
{
    if p.len() == 0 {
        -1
    } else if p[p.len() - 1] == '/' {
        p.len() - 1
    } else {
        last_sep(p.drop_last())
    }
}

/// The directory containing the file at `p`: everything before the last
/// '/', or "/" itself when that separator is the leading character.  A
/// path without a separator has no containing directory.
pub open spec fn parent_of(p: Seq<char>) -> Option<Seq<char>> {
    let i = last_sep(p);
    if i < 0 {
        None
    } else if i == 0 {
        Some(seq!['/'])
    } else {
        Some(p.subrange(0, i))
    }
}

/// The file-name part of `p`: everything after the last '/', or all of
/// `p` when it has none.
pub open spec fn base_name_of(p: Seq<char>) -> Seq<char> {
    p.subrange(last_sep(p) + 1, p.len() as int)
}

/// `dir` and `name` joined with a separator; no separator is added when
/// `dir` already ends with one.
pub open spec fn join_of(dir: Seq<char>, name: Seq<char>) -> Seq<char> {
    if dir.len() > 0 && dir[dir.len() - 1] == '/' {
        dir + name
    } else {
        dir + seq!['/'] + name
    }
}

proof fn lemma_last_sep_at(p: Seq<char>, i: int)
    requires
        0 <= i < p.len(),
        p[i] == '/',
        forall|k: int| i < k < p.len() ==> p[k] != '/',
    ensures
        last_sep(p) == i,
    decreases p.len(),
{
    if p[p.len() - 1] != '/' {
        assert(forall|k: int| i < k < p.drop_last().len() ==> p.drop_last()[k] != '/');
        lemma_last_sep_at(p.drop_last(), i);
    }
}

proof fn lemma_last_sep_none(p: Seq<char>)
    requires
        forall|k: int| 0 <= k < p.len() ==> p[k] != '/',
    ensures
        last_sep(p) == -1,
    decreases p.len(),
{
    if p.len() > 0 {
        lemma_last_sep_none(p.drop_last());
    }
}

/// The directory containing the file at `path`, if the path names one.
pub fn parent(path: &String) -> (r: Option<String>)
    ensures
        r matches Some(d) ==> parent_of(path@) == Some(d@),
        r is None ==> parent_of(path@) is None,
{
    let s = path.as_str();
    let n = s.unicode_len();
    let mut j: usize = n;
    loop
        invariant
            s@ == path@,
            n == s@.len(),
            0 <= j <= n,
            forall|k: int| j <= k < n ==> s@[k] != '/',
        decreases j,
    {
        if j == 0 {
            proof {
                lemma_last_sep_none(path@);
            }
            return None;
        }
        let c = s.get_char(j - 1);
        if c == '/' {
            proof {
                lemma_last_sep_at(path@, j - 1);
            }
            if j == 1 {
                let root = "/".to_owned();
                proof {
                    reveal_strlit("/");
                    assert(root@ =~= seq!['/']);
                }
                return Some(root);
            }
            let d = s.substring_char(0, j - 1).to_owned();
            return Some(d);
        }
        j = j - 1;
    }
}

/// The file-name part of `path`: everything after the last '/'.
pub fn file_name(path: &String) -> (r: String)
    ensures
        r@ == base_name_of(path@),
{
    let s = path.as_str();
    let n = s.unicode_len();
    let mut j: usize = n;
    loop
        invariant
            s@ == path@,
            n == s@.len(),
            0 <= j <= n,
            forall|k: int| j <= k < n ==> s@[k] != '/',
        decreases j,
    {
        if j == 0 {
            proof {
                lemma_last_sep_none(path@);
            }
            return s.substring_char(0, n).to_owned();
        }
        let c = s.get_char(j - 1);
        if c == '/' {
            proof {
                lemma_last_sep_at(path@, j - 1);
            }
            return s.substring_char(j, n).to_owned();
        }
        j = j - 1;
    }
}

/// `dir` and `name` joined with a separator.
pub fn join(dir: &String, name: &String) -> (r: String)
    ensures
        r@ == join_of(dir@, name@),
{
    let s = dir.as_str();
    let n = s.unicode_len();
    let mut out = dir.clone();
    if n == 0 || s.get_char(n - 1) != '/' {
        let sep = "/";
        proof {
            reveal_strlit("/");
            assert(sep@ =~= seq!['/']);
        }
        out.append(sep);
    }
    out.append(name.as_str());
    proof {
        assert(out@ =~= join_of(dir@, name@));
    }
    out
}

// ---------------------------------------------------------------------------
// Folders
// ---------------------------------------------------------------------------

/// True when some path in `files` has `d` as its containing directory.
pub open spec fn is_folder_of(d: Seq<char>, files: Seq<Seq<char>>) -> bool {
    exists|i: int| 0 <= i < files.len() && parent_of(#[trigger] files[i]) == Some(d)
}

/// True when `p` occurs, character for character, in `v`.
fn contains_path(v: &Vec<String>, p: &String) -> (r: bool)
    ensures
        r == views(v@).contains(p@),
{
    let mut i: usize = 0;
    while i < v.len()
        invariant
            0 <= i <= v@.len(),
            forall|k: int| 0 <= k < i ==> views(v@)[k] != p@,
        decreases v@.len() - i,
    {
        if v[i].eq(p) {
            proof {
                assert(views(v@)[i as int] == p@);
            }
            return true;
        }
        i = i + 1;
    }
    proof {
        assert forall|k: int| 0 <= k < views(v@).len() implies views(v@)[k] != p@ by {}
    }
    false
}

/// The directories containing the given files, each listed once.
///
/// The watch subscribes to these directories rather than to the files
/// themselves, so that creating or deleting a watched file is observable.
pub fn folders(files: &Vec<String>) -> (r: Vec<String>)
    ensures
        forall|d: Seq<char>| #[trigger] views(r@).contains(d) <==> is_folder_of(d, views(files@)),
        forall|k1: int, k2: int| 0 <= k1 < k2 < r@.len() ==> r@[k1]@ != r@[k2]@,
{
    let ghost all = views(files@);
    let mut r: Vec<String> = Vec::new();
    let mut i: usize = 0;
    while i < files.len()
        invariant
            0 <= i <= files@.len(),
            all == views(files@),
            forall|d: Seq<char>| #[trigger] views(r@).contains(d) <==> is_folder_of(
                d,
                all.take(i as int),
            ),
            forall|k1: int, k2: int| 0 <= k1 < k2 < r@.len() ==> r@[k1]@ != r@[k2]@,
        decreases files@.len() - i,
    {
        let ghost r_before = r@;
        match parent(&files[i]) {
            Some(d) => {
                if !contains_path(&r, &d) {
                    r.push(d);
                    proof {
                        assert forall|k1: int, k2: int| 0 <= k1 < k2 < r@.len() implies r@[k1]@
                            != r@[k2]@ by {
                            if k2 == r@.len() - 1 {
                                assert(views(r_before)[k1] == r_before[k1]@);
                            }
                        }
                    }
                }
            }
            None => {},
        }
        proof {
            all.lemma_take_succ_push(i as int);
            assert(all[i as int] == files@[i as int]@);
            assert forall|d: Seq<char>| #[trigger] views(r@).contains(d) <==> is_folder_of(
                d,
                all.take(i + 1),
            ) by {
                lemma_is_folder_of_push(d, all.take(i as int), all[i as int]);
                if r@ != r_before {
                    r_before.lemma_push_map_commute(|p: String| p@, r@.last());
                    lemma_contains_push(views(r_before), r@.last()@, d);
                }
                if views(r@).contains(d) {
                    let k = choose|k: int|
                        0 <= k < views(r@).len() && views(r@)[k] == d;
                    assert(views(r@)[k] == r@[k]@);
                }
                if is_folder_of(d, all.take(i + 1)) && !is_folder_of(d, all.take(i as int))
                    && r@ == r_before {
                    assert(parent_of(files@[i as int]@) == Some(d));
                }
            }
        }
        i = i + 1;
    }
    proof {
        assert(all.take(files@.len() as int) =~= all);
    }
    r
}

proof fn lemma_is_folder_of_push(d: Seq<char>, files: Seq<Seq<char>>, p: Seq<char>)
    ensures
        is_folder_of(d, files.push(p)) <==> (is_folder_of(d, files) || parent_of(p) == Some(d)),
{
    if is_folder_of(d, files) {
        let i = choose|i: int| 0 <= i < files.len() && parent_of(files[i]) == Some(d);
        assert(files.push(p)[i] == files[i]);
    }
    if parent_of(p) == Some(d) {
        assert(files.push(p)[files.len() as int] == p);
    }
    if is_folder_of(d, files.push(p)) {
        let i = choose|i: int| 0 <= i < files.push(p).len() && parent_of(files.push(p)[i]) == Some(d);
        if i < files.len() {
            assert(files[i] == files.push(p)[i]);
        }
    }
}

proof fn lemma_contains_push<A>(s: Seq<A>, x: A, y: A)
    ensures
        s.push(x).contains(y) <==> (s.contains(y) || x == y),
{
    if s.contains(y) {
        let i = choose|i: int| 0 <= i < s.len() && s[i] == y;
        assert(s.push(x)[i] == y);
    }
    if x == y {
        assert(s.push(x)[s.len() as int] == y);
    }
    if s.push(x).contains(y) {
        let i = choose|i: int| 0 <= i < s.push(x).len() && s.push(x)[i] == y;
        if i < s.len() {
            assert(s[i] == y);
        }
    }
}

// ---------------------------------------------------------------------------
// Matching changed paths against the watched set
//
// Paths are compared by their canonical forms, so that symlinked spellings
// of the same file match.  Canonicalization consults the disk and is held
// apart: the matching itself is a pure function of the canonical forms.
// ---------------------------------------------------------------------------

/// True when `c` occurs among the defined canonical forms in `changed`.
pub open spec fn has_canon(changed: Seq<Option<String>>, c: Seq<char>) -> bool {
    exists|j: int|
        0 <= j < changed.len() && ((#[trigger] changed[j]) matches Some(d) && d@ == c)
}

/// True when the canonical form `wc` of a watched path is defined and
/// equals the canonical form of some changed path.
pub open spec fn canon_match(wc: Option<String>, changed: Seq<Option<String>>) -> bool {
    wc matches Some(c) && has_canon(changed, c@)
}

/// The watched paths whose canonical form equals that of a changed path,
/// in watched order.  `wc[i]` is the canonical form of `watched[i]`;
/// `None` stands for a form that could not be computed.
pub open spec fn matched_seq(
    watched: Seq<String>,
    wc: Seq<Option<String>>,
    changed: Seq<Option<String>>,
) -> Seq<String>
    decreases watched.len(),
{
    if watched.len() == 0 || watched.len() != wc.len() {
        Seq::empty()
    } else {
        let rest = matched_seq(watched.drop_last(), wc.drop_last(), changed);
        if canon_match(wc.last(), changed) {
            rest.push(watched.last())
        } else {
            rest
        }
    }
}

fn contains_canon(changed: &Vec<Option<String>>, c: &String) -> (r: bool)
    ensures
        r == has_canon(changed@, c@),
{
    let mut j: usize = 0;
    while j < changed.len()
        invariant
            0 <= j <= changed@.len(),
            forall|k: int|
                0 <= k < j ==> !((#[trigger] changed@[k]) matches Some(d) && d@ == c@),
        decreases changed@.len() - j,
    {
        match &changed[j] {
            Some(d) => {
                if d.eq(c) {
                    assert(changed@[j as int] matches Some(e) && e@ == c@);
                    return true;
                }
            }
            None => {},
        }
        j = j + 1;
    }
    false
}

/// The watched paths matched by the given canonical forms.
///
/// `watched_canon[i]` must be the canonical form computed for
/// `watched_files[i]`; `changed_canon` holds the canonical forms of the
/// changed paths.  The result is exactly `matched_seq` over those forms.
pub fn matching_by_canon(
    watched_files: &Vec<String>,
    watched_canon: &Vec<Option<String>>,
    changed_canon: &Vec<Option<String>>,
) -> (r: Vec<String>)
    requires
        watched_files@.len() == watched_canon@.len(),
    ensures
        r@ == matched_seq(watched_files@, watched_canon@, changed_canon@),
{
    let mut r: Vec<String> = Vec::new();
    let mut i: usize = 0;
    while i < watched_files.len()
        invariant
            0 <= i <= watched_files@.len(),
            watched_files@.len() == watched_canon@.len(),
            r@ == matched_seq(
                watched_files@.take(i as int),
                watched_canon@.take(i as int),
                changed_canon@,
            ),
        decreases watched_files@.len() - i,
    {
        let ghost wt = watched_files@.take(i + 1);
        let ghost ct = watched_canon@.take(i + 1);
        proof {
            assert(wt.drop_last() =~= watched_files@.take(i as int));
            assert(ct.drop_last() =~= watched_canon@.take(i as int));
            assert(wt.last() == watched_files@[i as int]);
            assert(ct.last() == watched_canon@[i as int]);
        }
        match &watched_canon[i] {
            Some(c) => {
                if contains_canon(changed_canon, c) {
                    r.push(watched_files[i].clone());
                }
            }
            None => {},
        }
        i = i + 1;
    }
    proof {
        assert(watched_files@.take(watched_files@.len() as int) =~= watched_files@);
        assert(watched_canon@.take(watched_canon@.len() as int) =~= watched_canon@);
    }
    r
}

/// Path matching is sound and complete.
///
/// Law: the matched sequence contains only watched paths; it contains
/// every watched path whose canonical form is defined and equals the
/// canonical form of some changed path; and every path it contains got
/// there because of such a canonical-form equality.
pub proof fn lemma_matching_sound_complete(
    watched: Seq<String>,
    wc: Seq<Option<String>>,
    changed: Seq<Option<String>>,
)
    requires
        wc.len() == watched.len(),
    ensures
        forall|p: String|
            #[trigger] matched_seq(watched, wc, changed).contains(p) ==> watched.contains(p),
        forall|i: int|
            0 <= i < watched.len() && canon_match(#[trigger] wc[i], changed) ==> matched_seq(
                watched,
                wc,
                changed,
            ).contains(watched[i]),
        forall|p: String|
            #[trigger] matched_seq(watched, wc, changed).contains(p) ==> exists|i: int|
                0 <= i < watched.len() && watched[i] == p && canon_match(wc[i], changed),
    decreases watched.len(),
{
    if watched.len() > 0 {
        let wd = watched.drop_last();
        let cd = wc.drop_last();
        lemma_matching_sound_complete(wd, cd, changed);
        let m = matched_seq(watched, wc, changed);
        let rest = matched_seq(wd, cd, changed);
        assert forall|p: String| #[trigger] m.contains(p) implies watched.contains(p) by {
            if canon_match(wc.last(), changed) {
                lemma_contains_push(rest, watched.last(), p);
            }
            if rest.contains(p) {
                let i = choose|i: int| 0 <= i < wd.len() && wd[i] == p;
                assert(watched[i] == p);
                assert(watched.contains(p));
            } else {
                assert(p == watched.last());
                assert(watched[watched.len() - 1] == p);
                assert(watched.contains(p));
            }
        }
        assert forall|i: int|
            0 <= i < watched.len() && canon_match(#[trigger] wc[i], changed) implies m.contains(
            watched[i],
        ) by {
            if i < watched.len() - 1 {
                assert(cd[i] == wc[i]);
                assert(rest.contains(wd[i]));
                if canon_match(wc.last(), changed) {
                    lemma_contains_push(rest, watched.last(), watched[i]);
                } else {
                    assert(m == rest);
                }
            } else {
                assert(wc[i] == wc.last());
                assert(m == rest.push(watched.last()));
                lemma_contains_push(rest, watched.last(), watched[i]);
            }
        }
        assert forall|p: String| #[trigger] m.contains(p) implies exists|i: int|
            0 <= i < watched.len() && watched[i] == p && canon_match(wc[i], changed) by {
            if canon_match(wc.last(), changed) {
                lemma_contains_push(rest, watched.last(), p);
            }
            if rest.contains(p) {
                let i = choose|i: int| 0 <= i < wd.len() && wd[i] == p && canon_match(cd[i], changed);
                assert(watched[i] == p && canon_match(wc[i], changed));
            } else {
                assert(p == watched.last());
                assert(watched[watched.len() - 1] == p && canon_match(
                    wc[watched.len() - 1],
                    changed,
                ));
            }
        }
    }
}

// ---------------------------------------------------------------------------
// Canonicalization
// ---------------------------------------------------------------------------

/// Relies on std::path::Path::canonicalize: it resolves symlinks and
/// relative segments against the file system, so the result depends on the
/// state of the disk.  `None` stands for a failure or a non-UTF-8 result.
#[verifier::external_body]
fn fs_canonical(path: &String) -> (r: Option<String>) {
    match std::path::Path::new(path.as_str()).canonicalize() {
        Ok(p) => p.to_str().map(|s| s.to_string()),
        Err(_) => None,
    }
}

/// The canonical form of `path`, for comparing paths that may reach the
/// same file through symlinks or relative segments.
///
/// When the path itself cannot be canonicalized — typically because the
/// file was just deleted — its directory is canonicalized instead and the
/// file name is joined back on, so a deleted file still matches.  A path
/// without a directory part is returned unchanged.  What the disk answers
/// is not promised — the matching that consumes canonical forms carries
/// the exact contract — but the skeleton of the fallback is: the only
/// failure is a directory part that itself cannot be canonicalized, so a
/// path without one always yields a form.
pub fn canonicalize(path: &String) -> (r: Option<String>)
    ensures
        r is None ==> parent_of(path@) is Some,
        parent_of(path@) is None ==> r is Some,
{
    match fs_canonical(path) {
        Some(p) => Some(p),
        None => {
            match parent(path) {
                Some(dir) => {
                    let name = file_name(path);
                    match fs_canonical(&dir) {
                        Some(cd) => Some(join(&cd, &name)),
                        None => None,
                    }
                }
                None => Some(path.clone()),
            }
        }
    }
}

/// The watched paths whose canonical form equals the canonical form of
/// some changed path.
///
/// Only watched paths are ever returned, whatever the disk holds; which
/// ones is decided by `matching_by_canon` over the canonical forms.  An
/// empty result means the changes concern none of the watched files and
/// no notification is owed.
pub fn matching_files(watched_files: &Vec<String>, changed_files: &Vec<String>) -> (r: Vec<String>)
    ensures
        forall|k: int| 0 <= k < r@.len() ==> watched_files@.contains(#[trigger] r@[k]),
        changed_files@.len() == 0 ==> r@.len() == 0,
        watched_files@.len() == 0 ==> r@.len() == 0,
{
    let mut watched_canon: Vec<Option<String>> = Vec::new();
    let mut i: usize = 0;
    while i < watched_files.len()
        invariant
            watched_canon@.len() == i,
            0 <= i <= watched_files@.len(),
        decreases watched_files@.len() - i,
    {
        watched_canon.push(canonicalize(&watched_files[i]));
        i = i + 1;
    }
    let mut changed_canon: Vec<Option<String>> = Vec::new();
    let mut j: usize = 0;
    while j < changed_files.len()
        invariant
            changed_canon@.len() == j,
            0 <= j <= changed_files@.len(),
        decreases changed_files@.len() - j,
    {
        changed_canon.push(canonicalize(&changed_files[j]));
        j = j + 1;
    }
    let r = matching_by_canon(watched_files, &watched_canon, &changed_canon);
    proof {
        lemma_matching_sound_complete(watched_files@, watched_canon@, changed_canon@);
        assert forall|k: int| 0 <= k < r@.len() implies watched_files@.contains(
            #[trigger] r@[k],
        ) by {
            assert(r@.contains(r@[k]));
        }
        if changed_files@.len() == 0 && r@.len() > 0 {
            assert(r@.contains(r@[0]));
        }
    }
    r
}

/// A path no longer in the watched set is never reported again.
///
/// Law: after the watched set is replaced, matching runs against the new
/// set, so a path spelled like no entry of it — in particular any path
/// that was only in the old set — appears in no matched sequence,
/// whatever the canonical forms turn out to be.
pub proof fn lemma_dropped_path_not_matched(
    p: String,
    watched: Seq<String>,
    wc: Seq<Option<String>>,
    changed: Seq<Option<String>>,
)
    requires
        wc.len() == watched.len(),
        forall|i: int| 0 <= i < watched.len() ==> (#[trigger] watched[i])@ != p@,
    ensures
        !matched_seq(watched, wc, changed).contains(p),
        forall|k: int|
            0 <= k < matched_seq(watched, wc, changed).len() ==> (#[trigger] matched_seq(
                watched,
                wc,
                changed,
            )[k])@ != p@,
{
    lemma_matching_sound_complete(watched, wc, changed);
    let m = matched_seq(watched, wc, changed);
    assert forall|k: int| 0 <= k < m.len() implies (#[trigger] m[k])@ != p@ by {
        assert(m.contains(m[k]));
        let i = choose|i: int| 0 <= i < watched.len() && watched[i] == m[k] && canon_match(wc[i], changed);
        assert(watched[i]@ != p@);
    }
    if m.contains(p) {
        let i = choose|i: int| 0 <= i < m.len() && m[i] == p;
        assert(m[i]@ != p@);
    }
}

// ---------------------------------------------------------------------------
// Helpers shared with the event thread
// ---------------------------------------------------------------------------

/// A copy of a path list, character for character.
pub(crate) fn clone_paths(v: &Vec<String>) -> (r: Vec<String>)
    ensures
        r@ == v@,
{
    let mut r: Vec<String> = Vec::new();
    let mut i: usize = 0;
    while i < v.len()
        invariant
            0 <= i <= v@.len(),
            r@ =~= v@.take(i as int),
        decreases v@.len() - i,
    {
        r.push(v[i].clone());
        i = i + 1;
    }
    proof {
        assert(v@.take(v@.len() as int) =~= v@);
    }
    r
}

/// Relies on std::path::Path::to_str: the path as text when it is valid
/// UTF-8, `None` otherwise.
#[verifier::external_body]
fn path_string(p: &std::path::PathBuf) -> Option<String> {
    p.to_str().map(|s| s.to_string())
}

/// The library's error for a subscription failure, from its description.
fn from_notify(message: String) -> (r: Error)
    ensures
        r is WatchError,
{
    Error::WatchError(message)
}

/// A handle to the path list shared with the event thread.  Two handles of
/// a pair reach the same list: the watcher publishes through one, the
/// event thread reads through the other.
#[verifier::external_body]
struct SharedPathList {
    cell: std::sync::Arc<arc_swap::ArcSwap<Vec<String>>>,
}

impl SharedPathList {
    /// Relies on arc_swap::ArcSwap::from_pointee and std::sync::Arc::clone:
    /// a fresh, empty list with two handles to it.
    #[verifier::external_body]
    fn new_pair() -> (SharedPathList, SharedPathList) {
        let cell = std::sync::Arc::new(arc_swap::ArcSwap::from_pointee(Vec::new()));
        let other = SharedPathList { cell: cell.clone() };
        (SharedPathList { cell }, other)
    }

    /// Relies on arc_swap::ArcSwapAny::store: atomically replaces the list;
    /// loads running concurrently see the old list or the new one whole.
    #[verifier::external_body]
    fn store(&self, files: Vec<String>) {
        self.cell.store(std::sync::Arc::new(files));
    }

    /// Relies on arc_swap::ArcSwapAny::load_full: a snapshot of the list as
    /// it was at some instant during the call.
    #[verifier::external_body]
    fn load(&self) -> Vec<String> {
        let loaded = self.cell.load_full();
        loaded.as_ref().clone()
    }
}

// ---------------------------------------------------------------------------
// The watcher
// ---------------------------------------------------------------------------

/// Receives each matched batch of changes, or a subscription error, on the
/// thread of the OS event source.
pub trait ChangeHandler {
    /// `Ok` carries the watched paths whose files changed, never empty;
    /// `Err` carries a subscription failure.
    fn on_change(&mut self, changes: Result<Vec<String>, Error>);
}

/// The state carried into the event thread: the shared watched-path list
/// and the handler to notify.
struct ChangeDispatcher<C> {
    shared: SharedPathList,
    on_change: C,
}

impl<C: ChangeHandler> ChangeDispatcher<C> {
    /// One delivery from the OS source: keep the changed paths that match
    /// the watched set current at this instant and pass them on; stay
    /// silent when none match.
    fn dispatch_paths(&mut self, paths: Vec<std::path::PathBuf>) {
        let mut changed: Vec<String> = Vec::new();
        let mut i: usize = 0;
        while i < paths.len()
            decreases paths@.len() - i,
        {
            match path_string(&paths[i]) {
                Some(s) => changed.push(s),
                None => {},
            }
            i = i + 1;
        }
        let watched = self.shared.load();
        let matched = matching_files(&watched, &changed);
        if matched.len() > 0 {
            self.on_change.on_change(Ok(matched));
        }
    }

    /// A failure reported by the OS source, already rendered as text.
    fn dispatch_error(&mut self, message: String) {
        self.on_change.on_change(Err(from_notify(message)));
    }
}

/// The OS watcher itself: plain, or behind the debouncing layer.
enum Backend {
    Plain(notify::RecommendedWatcher),
    Debounced(crate::outside::DebouncedWatcher),
}

/// Relies on notify::recommended_watcher: the returned watcher delivers
/// filesystem events for the subscribed directories to the handler on a
/// background thread, each event carrying the paths it concerns.  A
/// failure is returned as its description.
#[verifier::external_body]
fn backend_watcher<C: ChangeHandler + Send + 'static>(dispatcher: ChangeDispatcher<C>) -> Result<
    notify::RecommendedWatcher,
    String,
> {
    let mut d = dispatcher;
    notify::recommended_watcher(
        move |res: Result<notify::Event, notify::Error>|
            match res {
                Ok(event) => d.dispatch_paths(event.paths),
                Err(err) => d.dispatch_error(err.to_string()),
            },
    ).map_err(|e| e.to_string())
}

/// Relies on notify_debouncer_mini::new_debouncer: events within the given
/// window are merged, and each flush hands the handler the deduplicated
/// paths of the burst, no sooner than the window after its first event.  A
/// failure is returned as its description.
#[verifier::external_body]
fn backend_debouncer<C: ChangeHandler + Send + 'static>(
    debounce_ms: u64,
    dispatcher: ChangeDispatcher<C>,
) -> Result<crate::outside::DebouncedWatcher, String> {
    let mut d = dispatcher;
    notify_debouncer_mini::new_debouncer(
        core::time::Duration::from_millis(debounce_ms),
        move |res: notify_debouncer_mini::DebounceEventResult|
            match res {
                Ok(events) => d.dispatch_paths(events.into_iter().map(|e| e.path).collect()),
                Err(err) => d.dispatch_error(err.to_string()),
            },
    ).map(|inner| crate::outside::DebouncedWatcher { inner }).map_err(|e| e.to_string())
}

/// Relies on notify::Watcher::watch with RecursiveMode::NonRecursive (for
/// the debounced form, reached through Debouncer::watcher): subscribes the
/// directory, so events for it and its immediate children are delivered.
/// A failure is returned as its description.
#[verifier::external_body]
fn backend_watch(backend: &mut Backend, folder: &String) -> Result<(), String> {
    let path = std::path::Path::new(folder.as_str());
    let r = match backend {
        Backend::Plain(w) => notify::Watcher::watch(w, path, notify::RecursiveMode::NonRecursive),
        Backend::Debounced(d) => d.inner.watcher().watch(path, notify::RecursiveMode::NonRecursive),
    };
    r.map_err(|e| e.to_string())
}

/// Relies on notify::Watcher::unwatch (for the debounced form, reached
/// through Debouncer::watcher): drops the subscription for the directory.
/// A failure is returned as its description.
#[verifier::external_body]
fn backend_unwatch(backend: &mut Backend, folder: &String) -> Result<(), String> {
    let path = std::path::Path::new(folder.as_str());
    let r = match backend {
        Backend::Plain(w) => notify::Watcher::unwatch(w, path),
        Backend::Debounced(d) => d.inner.watcher().unwatch(path),
    };
    r.map_err(|e| e.to_string())
}

/// Watches a set of files for changes by subscribing to the directories
/// that contain them, so that creating or deleting a watched file is
/// observed as well as modifying it.
pub struct FileWatcher {
    /// The files being watched.
    files: Vec<String>,
    /// The directories currently subscribed, each once.
    folders: Vec<String>,
    /// The watcher's handle on the list the event thread matches against.
    shared: SharedPathList,
    /// The OS watcher.
    backend: Backend,
}

impl FileWatcher {
    /// The files being watched.
    pub closed spec fn spec_files(self) -> Seq<String> {
        self.files@
    }

    /// The directories currently subscribed.
    pub closed spec fn subscribed(self) -> Seq<Seq<char>> {
        views(self.folders@)
    }

    /// No directory is subscribed twice.
    pub closed spec fn wf(self) -> bool {
        forall|k1: int, k2: int|
            0 <= k1 < k2 < self.folders@.len() ==> self.folders@[k1]@ != self.folders@[k2]@
    }

    /// Begin watching `files`, delivering matched changes to `on_change`.
    ///
    /// The files need not exist yet; their directories must, or the
    /// subscription fails.  With a debounce window, changes within the
    /// window arrive merged into one batch.
    pub fn create<C: ChangeHandler + Send + 'static>(
        files: Vec<String>,
        debounce_ms: Option<u64>,
        on_change: C,
    ) -> (r: Result<FileWatcher, Error>)
        ensures
            r matches Ok(fw) ==> fw.wf() && fw.spec_files() == files@ && (forall|d: Seq<char>|
                #[trigger] fw.subscribed().contains(d) <==> is_folder_of(d, views(files@))),
            r matches Err(e) ==> e is WatchError,
    {
        let (shared, shared_reader) = SharedPathList::new_pair();
        let dispatcher = ChangeDispatcher { shared: shared_reader, on_change };
        let backend = match debounce_ms {
            None => match backend_watcher(dispatcher) {
                Ok(w) => Backend::Plain(w),
                Err(e) => {
                    return Err(from_notify(e));
                }
            },
            Some(ms) => match backend_debouncer(ms, dispatcher) {
                Ok(d) => Backend::Debounced(d),
                Err(e) => {
                    return Err(from_notify(e));
                }
            },
        };
        let mut fw = FileWatcher { files: Vec::new(), folders: Vec::new(), shared, backend };
        match fw.update_files(files) {
            Ok(_) => Ok(fw),
            Err(e) => Err(e),
        }
    }

    /// The files being watched, as last published.
    pub fn watched_files(&self) -> (r: Vec<String>)
        ensures
            r@ == self.spec_files(),
    {
        clone_paths(&self.files)
    }

    /// Replace the set of watched files.
    ///
    /// The new list is published for matching before any subscription
    /// changes, so events racing with this call already see it.  Then the
    /// directories of the new files are subscribed and the directories no
    /// longer needed are dropped; a failure to unsubscribe is swallowed —
    /// the directory may already be gone — but a failure to subscribe is
    /// returned, with the already-established subscriptions left in place.
    /// When nothing new must be subscribed — every directory of the new
    /// list is already covered, in particular when the list is empty —
    /// the call owes success.
    pub fn update_files(&mut self, files: Vec<String>) -> (r: Result<(), Error>)
        requires
            old(self).wf(),
        ensures
            final(self).wf(),
            final(self).spec_files() == files@,
            (forall|d: Seq<char>|
                #[trigger] is_folder_of(d, views(files@)) ==> old(self).subscribed().contains(
                    d,
                )) ==> r is Ok,
            views(files@).len() == 0 ==> r is Ok,
            r is Ok ==> (forall|d: Seq<char>|
                #[trigger] final(self).subscribed().contains(d) <==> is_folder_of(
                    d,
                    views(files@),
                )),
            r is Err ==> (forall|d: Seq<char>|
                #[trigger] old(self).subscribed().contains(d) ==> final(self).subscribed().contains(
                    d,
                )),
            r is Err ==> (forall|d: Seq<char>|
                #[trigger] final(self).subscribed().contains(d) ==> old(self).subscribed().contains(
                    d,
                ) || is_folder_of(d, views(files@))),
            r is Err ==> (r matches Err(e) && e is WatchError),
    {
        let ghost old_sub = self.subscribed();

        // Publish the new list first, so events racing with this call
        // already match against the updated set.
        self.shared.store(clone_paths(&files));
        self.files = files;

        let new_folders = folders(&self.files);

        // Subscribe to the directories that are newly needed.
        let mut i: usize = 0;
        while i < new_folders.len()
            invariant
                0 <= i <= new_folders@.len(),
                old_sub == old(self).subscribed(),
                self.wf(),
                self.files@ == files@,
                forall|d: Seq<char>| #[trigger]
                    views(new_folders@).contains(d) <==> is_folder_of(d, views(files@)),
                forall|k1: int, k2: int|
                    0 <= k1 < k2 < new_folders@.len() ==> new_folders@[k1]@ != new_folders@[k2]@,
                forall|d: Seq<char>|
                    #[trigger] self.subscribed().contains(d) <==> (old_sub.contains(d) || views(
                        new_folders@,
                    ).take(i as int).contains(d)),
            decreases new_folders@.len() - i,
        {
            let ghost sub_before = self.subscribed();
            if !contains_path(&self.folders, &new_folders[i]) {
                match backend_watch(&mut self.backend, &new_folders[i]) {
                    Ok(_) => {
                        let ghost fb = self.folders@;
                        self.folders.push(new_folders[i].clone());
                        proof {
                            fb.lemma_push_map_commute(|p: String| p@, self.folders@.last());
                            assert forall|k1: int, k2: int|
                                0 <= k1 < k2 < self.folders@.len() implies self.folders@[k1]@
                                != self.folders@[k2]@ by {
                                if k2 == self.folders@.len() - 1 {
                                    assert(views(fb)[k1] == fb[k1]@);
                                }
                            }
                        }
                    }
                    Err(e) => {
                        proof {
                            assert forall|d: Seq<char>|
                                #[trigger] self.subscribed().contains(d) implies old_sub.contains(
                                d,
                            ) || is_folder_of(d, views(files@)) by {
                                if views(new_folders@).take(i as int).contains(d) {
                                    let k = choose|k: int|
                                        0 <= k < i && views(new_folders@).take(i as int)[k] == d;
                                    assert(views(new_folders@)[k] == d);
                                    assert(views(new_folders@).contains(d));
                                }
                            }
                            // A directory did need subscribing, so success
                            // was not owed: it is a folder of the new list
                            // and was not subscribed before the call.
                            assert(views(new_folders@)[i as int] == new_folders@[i as int]@);
                            assert(views(new_folders@).contains(new_folders@[i as int]@));
                            assert(is_folder_of(new_folders@[i as int]@, views(files@)));
                            assert(!old_sub.contains(new_folders@[i as int]@));
                        }
                        return Err(from_notify(e));
                    }
                }
            }
            proof {
                views(new_folders@).lemma_take_succ_push(i as int);
                assert(views(new_folders@)[i as int] == new_folders@[i as int]@);
                assert forall|d: Seq<char>|
                    #[trigger] self.subscribed().contains(d) <==> (old_sub.contains(d) || views(
                        new_folders@,
                    ).take(i + 1).contains(d)) by {
                    lemma_contains_push(
                        views(new_folders@).take(i as int),
                        views(new_folders@)[i as int],
                        d,
                    );
                    if self.subscribed() != sub_before {
                        lemma_contains_push(sub_before, new_folders@[i as int]@, d);
                    }
                }
            }
            i = i + 1;
        }

        // Drop the directories no longer needed; an unsubscribe failure is
        // swallowed, since the directory may simply be gone.
        proof {
            assert(views(new_folders@).take(new_folders@.len() as int) =~= views(new_folders@));
        }
        let ghost mid_folders = self.folders@;
        proof {
            assert forall|d: Seq<char>|
                #[trigger] views(mid_folders).contains(d) <==> (old_sub.contains(d) || views(
                    new_folders@,
                ).contains(d)) by {
                assert(views(mid_folders) == self.subscribed());
                assert(views(new_folders@).take(i as int) == views(new_folders@));
                assert(self.subscribed().contains(d) <==> (old_sub.contains(d) || views(
                    new_folders@,
                ).take(i as int).contains(d)));
            }
        }
        let mut kept: Vec<String> = Vec::new();
        let mut j: usize = 0;
        while j < self.folders.len()
            invariant
                0 <= j <= self.folders@.len(),
                self.files@ == files@,
                self.folders@ == mid_folders,
                forall|d: Seq<char>|
                    #[trigger] views(mid_folders).contains(d) <==> (old_sub.contains(d) || views(
                        new_folders@,
                    ).contains(d)),
                forall|k1: int, k2: int|
                    0 <= k1 < k2 < mid_folders.len() ==> mid_folders[k1]@ != mid_folders[k2]@,
                forall|d: Seq<char>| #[trigger]
                    views(new_folders@).contains(d) <==> is_folder_of(d, views(files@)),
                forall|d: Seq<char>|
                    #[trigger] views(kept@).contains(d) <==> (views(mid_folders).take(
                        j as int,
                    ).contains(d) && views(new_folders@).contains(d)),
                forall|k1: int, k2: int| 0 <= k1 < k2 < kept@.len() ==> kept@[k1]@ != kept@[k2]@,
            decreases self.folders@.len() - j,
        {
            let ghost kept_before = kept@;
            if contains_path(&new_folders, &self.folders[j]) {
                kept.push(self.folders[j].clone());
                proof {
                    kept_before.lemma_push_map_commute(|p: String| p@, kept@.last());
                    assert forall|k1: int, k2: int|
                        0 <= k1 < k2 < kept@.len() implies kept@[k1]@ != kept@[k2]@ by {
                        if k2 == kept@.len() - 1 {
                            assert(views(kept_before)[k1] == kept_before[k1]@);
                            if views(kept_before).contains(kept@[k2]@) {
                                let t = choose|t: int|
                                    0 <= t < kept_before.len() && views(kept_before)[t] == kept@[k2]@;
                                let u = choose|u: int|
                                    0 <= u < j && views(mid_folders).take(j as int)[u]
                                        == kept@[k2]@;
                                assert(mid_folders[u]@ == mid_folders[j as int]@);
                            }
                            assert(!views(kept_before).contains(kept@[k2]@));
                        }
                    }
                }
            } else {
                let _ = backend_unwatch(&mut self.backend, &self.folders[j]);
            }
            proof {
                views(mid_folders).lemma_take_succ_push(j as int);
                assert(views(mid_folders)[j as int] == mid_folders[j as int]@);
                assert forall|d: Seq<char>|
                    #[trigger] views(kept@).contains(d) <==> (views(mid_folders).take(
                        j + 1,
                    ).contains(d) && views(new_folders@).contains(d)) by {
                    lemma_contains_push(
                        views(mid_folders).take(j as int),
                        views(mid_folders)[j as int],
                        d,
                    );
                    if kept@ != kept_before {
                        lemma_contains_push(views(kept_before), mid_folders[j as int]@, d);
                    }
                }
            }
            j = j + 1;
        }
        proof {
            assert(views(mid_folders).take(mid_folders.len() as int) =~= views(mid_folders));
        }
        self.folders = kept;
        proof {
            assert forall|d: Seq<char>| #[trigger] self.subscribed().contains(d) <==> is_folder_of(
                d,
                views(files@),
            ) by {}
        }
        Ok(())
    }
}

} // verus!
