//! A fuzzy file picker: a list of paths found under a directory, narrowed
//! and ranked by a query that the user types.
//!
//! Reading the directory is left to the caller, which hands the picker the
//! paths it found (those that `accepts_entry` admits) and hands it a new
//! list whenever a method reports that the directory changed.
use vstd::prelude::*;
use crate::text::{insert_char_at, remove_char_at, owned, str_eq};
use crate::sort::{sort_by_score_desc, sort_by_score_spec, lemma_sort_by_score};
use crate::keys::Key;

verus! {

/// The score that `nucleo_matcher::Matcher::fuzzy_match`, with the default
/// configuration, gives `needle` in `haystack`; `None` when it does not
/// match.
pub uninterp spec fn fuzzy_match_score(haystack: Seq<char>, needle: Seq<char>) -> Option<u16>;

/// What `std::path::Path::strip_prefix` leaves of `path` once `base` is
/// taken off its front, or `None` when `base` is not a leading part of it.
pub uninterp spec fn path_strip_prefix(path: Seq<char>, base: Seq<char>) -> Option<Seq<char>>;

/// `std::path::Path::parent`: the path without its last component, `None`
/// for a root or an empty path.
pub uninterp spec fn path_parent(path: Seq<char>) -> Option<Seq<char>>;

/// `std::path::Path::starts_with`: whether `base` is a leading run of whole
/// components of `path`.
pub uninterp spec fn path_starts_with(path: Seq<char>, base: Seq<char>) -> bool;

/// `==` on `std::path::Path`: whether the two paths have the same
/// components.
pub uninterp spec fn path_eq(a: Seq<char>, b: Seq<char>) -> bool;

/// `str::to_lowercase`.
pub uninterp spec fn lowercase_text(s: Seq<char>) -> Seq<char>;

/// Scores `needle` against `haystack` with `Matcher::fuzzy_match` on a
/// fresh matcher made here with `Matcher::new(Config::DEFAULT)`, so the
/// score is the one for the default configuration and depends on the two
/// texts alone. `fuzzy_match` asserts that the haystack has at most
/// `u32::MAX` characters, which `requires` leaves out.
#[verifier::external_body]
fn fuzzy_score(haystack: &str, needle: &str) -> (r: Option<u16>)
    requires
        haystack@.len() <= u32::MAX,
    ensures
        r == fuzzy_match_score(haystack@, needle@),
{
    let mut matcher = nucleo_matcher::Matcher::new(nucleo_matcher::Config::DEFAULT);
    let hay = nucleo_matcher::Utf32String::from(haystack);
    let pat = nucleo_matcher::Utf32String::from(needle);
    matcher.fuzzy_match(hay.slice(..), pat.slice(..))
}

/// `Path::strip_prefix`, the rest shown as text. The rest is a trailing
/// part of `path`, so it is never longer.
#[verifier::external_body]
fn strip_path_prefix(path: &str, base: &str) -> (r: Option<String>)
    ensures
        match r {
            Some(s) => path_strip_prefix(path@, base@) == Some(s@) && s@.len() <= path@.len(),
            None => path_strip_prefix(path@, base@) is None,
        },
{
    std::path::Path::new(path).strip_prefix(base).ok().map(|p| p.to_string_lossy().into_owned())
}

/// `Path::parent`, shown as text. The parent is a leading part of `path`.
#[verifier::external_body]
fn parent_path(path: &str) -> (r: Option<String>)
    ensures
        match r {
            Some(s) => path_parent(path@) == Some(s@) && s@.len() <= path@.len(),
            None => path_parent(path@) is None,
        },
{
    std::path::Path::new(path).parent().map(|p| p.to_string_lossy().into_owned())
}

/// `Path::starts_with`.
#[verifier::external_body]
pub(crate) fn path_has_prefix(path: &str, base: &str) -> (r: bool)
    ensures
        r == path_starts_with(path@, base@),
{
    std::path::Path::new(path).starts_with(base)
}

/// `==` on paths.
#[verifier::external_body]
fn same_path(a: &str, b: &str) -> (r: bool)
    ensures
        r == path_eq(a@, b@),
{
    std::path::Path::new(a) == std::path::Path::new(b)
}

/// `str::to_lowercase`.
#[verifier::external_body]
fn to_lowercase(s: &str) -> (r: String)
    ensures
        r@ == lowercase_text(s@),
{
    s.to_lowercase()
}

/// How a path is matched and listed: relative to the picker's directory
/// when it lies under it, whole otherwise.
pub open spec fn display_spec(path: Seq<char>, dir: Seq<char>) -> Seq<char> {
    match path_strip_prefix(path, dir) {
        Some(rest) => rest,
        None => path,
    }
}

/// The paths that match `query`, each with its score, in list order.
pub open spec fn scored_spec(files: Seq<String>, dir: Seq<char>, query: Seq<char>) -> Seq<(String, u16)>
    decreases files.len(),
{
    if files.len() == 0 {
        Seq::empty()
    } else {
        scored_spec(files.drop_last(), dir, query) + match fuzzy_match_score(
            display_spec(files.last()@, dir),
            query,
        ) {
            Some(score) => seq![(files.last(), score)],
            None => Seq::empty(),
        }
    }
}

/// What the picker lists: every path when the query is empty, else the
/// matching paths from the best score down, ties in list order.
pub open spec fn filtered_spec(files: Seq<String>, dir: Seq<char>, query: Seq<char>) -> Seq<String> {
    if query.len() == 0 {
        files
    } else {
        let sorted = sort_by_score_spec(scored_spec(files, dir, query));
        Seq::new(sorted.len(), |i: int| sorted[i].0)
    }
}

proof fn lemma_scored_from_files(files: Seq<String>, dir: Seq<char>, query: Seq<char>)
    ensures
        forall|i: int|
            0 <= i < scored_spec(files, dir, query).len() ==> files.contains(
                #[trigger] scored_spec(files, dir, query)[i].0,
            ),
        scored_spec(files, dir, query).len() <= files.len(),
    decreases files.len(),
{
    if files.len() > 0 {
        let rest = files.drop_last();
        lemma_scored_from_files(rest, dir, query);
        let s = scored_spec(files, dir, query);
        let sr = scored_spec(rest, dir, query);
        assert forall|i: int| 0 <= i < s.len() implies files.contains(#[trigger] s[i].0) by {
            if i < sr.len() {
                assert(s[i] == sr[i]);
                let k = choose|k: int| 0 <= k < rest.len() && rest[k] == sr[i].0;
                assert(files[k] == rest[k]);
            } else {
                assert(s[i].0 == files.last());
                assert(files[files.len() - 1] == files.last());
            }
        }
    }
}

/// The picker lists only paths it was given, no more of them than it was
/// given, and all of them, in order, while the query is empty.
pub proof fn lemma_filtered_from_files(files: Seq<String>, dir: Seq<char>, query: Seq<char>)
    ensures
        forall|i: int|
            0 <= i < filtered_spec(files, dir, query).len() ==> files.contains(
                #[trigger] filtered_spec(files, dir, query)[i],
            ),
        filtered_spec(files, dir, query).len() <= files.len(),
        query.len() == 0 ==> filtered_spec(files, dir, query) == files,
{
    broadcast use vstd::seq_lib::group_to_multiset_ensures;

    if query.len() > 0 {
        let scored = scored_spec(files, dir, query);
        let sorted = sort_by_score_spec(scored);
        lemma_scored_from_files(files, dir, query);
        lemma_sort_by_score(scored);
        let f = filtered_spec(files, dir, query);
        assert forall|i: int| 0 <= i < f.len() implies files.contains(#[trigger] f[i]) by {
            assert(f[i] == sorted[i].0);
            assert(sorted.contains(sorted[i]));
            assert(sorted.to_multiset().count(sorted[i]) > 0);
            assert(scored.contains(sorted[i]));
            let k = choose|k: int| 0 <= k < scored.len() && scored[k] == sorted[i];
            assert(files.contains(scored[k].0));
        }
    }
}

/// The fuzzy score of a path against a query, matched as the picker shows
/// it (relative to `dir` when it lies under it).
pub open spec fn path_score(path: String, dir: Seq<char>, query: Seq<char>) -> Option<u16> {
    fuzzy_match_score(display_spec(path@, dir), query)
}

proof fn lemma_scored_exact(files: Seq<String>, dir: Seq<char>, query: Seq<char>)
    ensures
        forall|k: int|
            0 <= k < scored_spec(files, dir, query).len() ==> path_score(
                #[trigger] scored_spec(files, dir, query)[k].0,
                dir,
                query,
            ) == Some(scored_spec(files, dir, query)[k].1),
        forall|i: int|
            0 <= i < files.len() && path_score(#[trigger] files[i], dir, query) is Some
                ==> scored_spec(files, dir, query).contains(
                (files[i], path_score(files[i], dir, query)->Some_0),
            ),
    decreases files.len(),
{
    if files.len() > 0 {
        let rest = files.drop_last();
        lemma_scored_exact(rest, dir, query);
        let s = scored_spec(files, dir, query);
        let sr = scored_spec(rest, dir, query);
        let tail = match fuzzy_match_score(display_spec(files.last()@, dir), query) {
            Some(score) => seq![(files.last(), score)],
            None => Seq::<(String, u16)>::empty(),
        };
        assert(s == sr + tail);
        assert forall|k: int| 0 <= k < s.len() implies path_score(#[trigger] s[k].0, dir, query)
            == Some(s[k].1) by {
            if k < sr.len() {
                assert(s[k] == sr[k]);
            } else {
                assert(s[k] == tail[k - sr.len()]);
            }
        }
        assert forall|i: int|
            0 <= i < files.len() && path_score(#[trigger] files[i], dir, query) is Some implies s.contains(
            (files[i], path_score(files[i], dir, query)->Some_0),
        ) by {
            let x = (files[i], path_score(files[i], dir, query)->Some_0);
            if i < rest.len() {
                assert(rest[i] == files[i]);
                assert(sr.contains(x));
                let k = choose|k: int| 0 <= k < sr.len() && sr[k] == x;
                assert(s[k] == x);
            } else {
                assert(files[i] == files.last());
                assert(s[sr.len() as int] == x);
            }
        }
    }
}

/// For a query, the picker lists exactly the paths that match it, each
/// from the list, from the best fuzzy score down: an earlier path never
/// scores lower than a later one.
pub proof fn lemma_filtered_ranked(files: Seq<String>, dir: Seq<char>, query: Seq<char>)
    requires
        query.len() > 0,
    ensures
        forall|i: int|
            0 <= i < filtered_spec(files, dir, query).len() ==> files.contains(
                #[trigger] filtered_spec(files, dir, query)[i],
            ) && path_score(filtered_spec(files, dir, query)[i], dir, query) is Some,
        forall|i: int, j: int|
            0 <= i < j < filtered_spec(files, dir, query).len() ==> path_score(
                #[trigger] filtered_spec(files, dir, query)[i],
                dir,
                query,
            )->Some_0 >= path_score(#[trigger] filtered_spec(files, dir, query)[j], dir, query)->Some_0,
        forall|p: String|
            files.contains(p) && path_score(p, dir, query) is Some ==> #[trigger] filtered_spec(
                files,
                dir,
                query,
            ).contains(p),
{
    broadcast use vstd::seq_lib::group_to_multiset_ensures;

    let scored = scored_spec(files, dir, query);
    let sorted = sort_by_score_spec(scored);
    let f = filtered_spec(files, dir, query);
    lemma_scored_from_files(files, dir, query);
    lemma_scored_exact(files, dir, query);
    lemma_sort_by_score(scored);
    lemma_filtered_from_files(files, dir, query);
    assert(f.len() == sorted.len());
    assert forall|i: int| 0 <= i < sorted.len() implies path_score(#[trigger] sorted[i].0, dir, query)
        == Some(sorted[i].1) by {
        assert(sorted.contains(sorted[i]));
        assert(sorted.to_multiset().count(sorted[i]) > 0);
        assert(scored.contains(sorted[i]));
        let k = choose|k: int| 0 <= k < scored.len() && scored[k] == sorted[i];
        assert(path_score(scored[k].0, dir, query) == Some(scored[k].1));
    }
    assert forall|i: int| 0 <= i < f.len() implies files.contains(#[trigger] f[i]) && path_score(
        f[i],
        dir,
        query,
    ) is Some by {
        assert(f[i] == sorted[i].0);
        assert(path_score(sorted[i].0, dir, query) == Some(sorted[i].1));
    }
    assert forall|i: int, j: int| 0 <= i < j < f.len() implies path_score(#[trigger] f[i], dir, query)->Some_0
        >= path_score(#[trigger] f[j], dir, query)->Some_0 by {
        assert(f[i] == sorted[i].0 && f[j] == sorted[j].0);
        assert(path_score(sorted[i].0, dir, query) == Some(sorted[i].1));
        assert(path_score(sorted[j].0, dir, query) == Some(sorted[j].1));
        assert(sorted[i].1 >= sorted[j].1);
    }
    assert forall|p: String| files.contains(p) && path_score(p, dir, query) is Some implies #[trigger] f.contains(p) by {
        let i = choose|i: int| 0 <= i < files.len() && files[i] == p;
        let x = (p, path_score(p, dir, query)->Some_0);
        assert(path_score(files[i], dir, query) is Some);
        assert(scored.contains(x));
        assert(scored.to_multiset().count(x) > 0);
        assert(sorted.contains(x));
        let k = choose|k: int| 0 <= k < sorted.len() && sorted[k] == x;
        assert(f[k] == p);
    }
}

/// A popup that lists paths and narrows them by a fuzzy query.
pub struct FilePicker {
    pub current_dir: String,
    pub all_files: Vec<String>,
    pub filtered_files: Vec<String>,
    pub query: String,
    /// The cursor in the query, counted in characters.
    pub cursor_position: usize,
    pub selected_index: usize,
    /// The row the list highlights.
    pub list_selected: Option<usize>,
    pub extensions: Vec<String>,
    pub title: String,
    pub max_depth: usize,
    pub restricted_mode: bool,
    pub remote_mode: bool,
    pub dir_only: bool,
}

/// No path is too long for the matcher.
pub open spec fn paths_fit(files: Seq<String>) -> bool {
    forall|i: int| 0 <= i < files.len() ==> (#[trigger] files[i])@.len() <= u32::MAX
}

/// `new` is `old` with the query, the cursor or the directory changed and
/// the list recomputed from them: nothing else differs.
pub open spec fn requeried(old: FilePicker, new: FilePicker) -> bool {
    new == (FilePicker {
        current_dir: new.current_dir,
        all_files: new.all_files,
        query: new.query,
        cursor_position: new.cursor_position,
        filtered_files: new.filtered_files,
        selected_index: new.selected_index,
        list_selected: new.list_selected,
        ..old
    })
}

/// Whether no path is too long for the matcher.
pub fn all_paths_fit(files: &Vec<String>) -> (r: bool)
    ensures
        r == paths_fit(files@),
{
    let mut i: usize = 0;
    while i < files.len()
        invariant
            i <= files@.len(),
            forall|k: int| 0 <= k < i ==> (#[trigger] files@[k])@.len() <= u32::MAX,
        decreases files@.len() - i,
    {
        let n = files[i].as_str().unicode_len();
        if n > 4294967295 {
            return false;
        }
        i = i + 1;
    }
    true
}

impl FilePicker {
    /// The picker's invariant: the cursor stands in the query, the list is
    /// what the query selects, the selection stands in the list.
    pub open spec fn wf(&self) -> bool {
        &&& self.cursor_position <= self.query@.len()
        &&& paths_fit(self.all_files@)
        &&& self.filtered_files@ == filtered_spec(self.all_files@, self.current_dir@, self.query@)
        &&& self.selected_index == 0 || self.selected_index < self.filtered_files@.len()
        &&& self.list_selected == (if self.filtered_files@.len() > 0 {
            Some(self.selected_index)
        } else {
            None
        })
    }

    /// A well-formed picker with a query lists exactly the paths of its
    /// list that match the query, from the best fuzzy score down.
    pub proof fn lemma_picker_ranked(self)
        requires
            self.wf(),
            self.query@.len() > 0,
        ensures
            forall|i: int|
                0 <= i < self.filtered_files@.len() ==> self.all_files@.contains(
                    #[trigger] self.filtered_files@[i],
                ) && path_score(self.filtered_files@[i], self.current_dir@, self.query@) is Some,
            forall|i: int, j: int|
                0 <= i < j < self.filtered_files@.len() ==> path_score(
                    #[trigger] self.filtered_files@[i],
                    self.current_dir@,
                    self.query@,
                )->Some_0 >= path_score(
                    #[trigger] self.filtered_files@[j],
                    self.current_dir@,
                    self.query@,
                )->Some_0,
            forall|p: String|
                self.all_files@.contains(p) && path_score(p, self.current_dir@, self.query@) is Some
                    ==> #[trigger] self.filtered_files@.contains(p),
    {
        lemma_filtered_ranked(self.all_files@, self.current_dir@, self.query@);
    }

    /// Recomputes the listed paths from the query and selects the first.
    fn update_filtered_files(&mut self)
        requires
            paths_fit(old(self).all_files@),
            old(self).cursor_position <= old(self).query@.len(),
        ensures
            final(self).wf(),
            final(self).selected_index == 0,
            final(self).all_files == old(self).all_files,
            final(self).query == old(self).query,
            final(self).current_dir == old(self).current_dir,
            final(self).cursor_position == old(self).cursor_position,
            final(self).extensions == old(self).extensions,
            final(self).title == old(self).title,
            final(self).max_depth == old(self).max_depth,
            final(self).restricted_mode == old(self).restricted_mode,
            final(self).remote_mode == old(self).remote_mode,
            final(self).dir_only == old(self).dir_only,
    {
        if self.query.as_str().unicode_len() == 0 {
            self.filtered_files = self.all_files.clone();
            assert(self.filtered_files@ =~= self.all_files@);
        } else {
            let mut scored: Vec<(String, u16)> = Vec::new();
            let n = self.all_files.len();
            let mut i: usize = 0;
            assert(self.all_files@.take(0) =~= Seq::<String>::empty());
            while i < n
                invariant
                    n == self.all_files@.len(),
                    i <= n,
                    paths_fit(self.all_files@),
                    self.query@.len() != 0,
                    self.all_files == old(self).all_files,
                    self.query == old(self).query,
                    self.current_dir == old(self).current_dir,
                    self.cursor_position == old(self).cursor_position,
                    self.extensions == old(self).extensions,
                    self.title == old(self).title,
                    self.max_depth == old(self).max_depth,
                    self.restricted_mode == old(self).restricted_mode,
                    self.remote_mode == old(self).remote_mode,
                    self.dir_only == old(self).dir_only,
                    scored@ == scored_spec(
                        self.all_files@.take(i as int),
                        self.current_dir@,
                        self.query@,
                    ),
                decreases n - i,
            {
                let path = &self.all_files[i];
                let display = match strip_path_prefix(path.as_str(), self.current_dir.as_str()) {
                    Some(rest) => rest,
                    None => path.clone(),
                };
                assert(display@ == display_spec(path@, self.current_dir@));
                let score = fuzzy_score(display.as_str(), self.query.as_str());
                proof {
                    let files = self.all_files@.take(i + 1);
                    assert(files.drop_last() =~= self.all_files@.take(i as int));
                    assert(files.last() == self.all_files@[i as int]);
                }
                match score {
                    Some(sc) => {
                        scored.push((path.clone(), sc));
                    },
                    None => {},
                }
                assert(scored@ =~= scored_spec(
                    self.all_files@.take(i + 1),
                    self.current_dir@,
                    self.query@,
                ));
                i = i + 1;
            }
            assert(self.all_files@.take(n as int) =~= self.all_files@);
            sort_by_score_desc(&mut scored);
            let ghost sorted = scored@;
            let mut out: Vec<String> = Vec::new();
            let mut j: usize = 0;
            while j < scored.len()
                invariant
                    sorted == scored@,
                    sorted == sort_by_score_spec(
                        scored_spec(self.all_files@, self.current_dir@, self.query@),
                    ),
                    j <= sorted.len(),
                    out@.len() == j,
                    forall|k: int| 0 <= k < j ==> #[trigger] out@[k] == sorted[k].0,
                decreases sorted.len() - j,
            {
                out.push(scored[j].0.clone());
                j = j + 1;
            }
            self.filtered_files = out;
            assert(self.filtered_files@ =~= filtered_spec(
                self.all_files@,
                self.current_dir@,
                self.query@,
            ));
        }
        self.selected_index = 0;
        if self.filtered_files.len() > 0 {
            self.list_selected = Some(0);
        } else {
            self.list_selected = None;
        }
    }

    fn build(
        current_dir: String,
        all_files: Vec<String>,
        extensions: Vec<String>,
        title: String,
        max_depth: usize,
        restricted_mode: bool,
        remote_mode: bool,
        dir_only: bool,
    ) -> (r: FilePicker)
        requires
            paths_fit(all_files@),
        ensures
            r.wf(),
            r.current_dir == current_dir,
            r.all_files == all_files,
            r.query@.len() == 0,
            r.cursor_position == 0,
            r.selected_index == 0,
            r.extensions == extensions,
            r.title == title,
            r.max_depth == max_depth,
            r.restricted_mode == restricted_mode,
            r.remote_mode == remote_mode,
            r.dir_only == dir_only,
    {
        let mut picker = FilePicker {
            current_dir,
            all_files,
            filtered_files: Vec::new(),
            query: String::new(),
            cursor_position: 0,
            selected_index: 0,
            list_selected: None,
            extensions,
            title,
            max_depth,
            restricted_mode,
            remote_mode,
            dir_only,
        };
        picker.update_filtered_files();
        picker
    }

    /// A picker over the local directory `start_dir` for files with one of
    /// the `extensions`, searching four levels deep. `files` are the paths
    /// found there.
    pub fn new(start_dir: String, extensions: Vec<String>, title: String, files: Vec<String>) -> (r:
        FilePicker)
        requires
            paths_fit(files@),
        ensures
            r.wf(),
            r.current_dir == start_dir,
            r.all_files == files,
            r.extensions == extensions,
            r.title == title,
            r.query@.len() == 0,
            r.cursor_position == 0,
            r.selected_index == 0,
            r.max_depth == 4,
            !r.restricted_mode && !r.remote_mode && !r.dir_only,
    {
        FilePicker::build(start_dir, files, extensions, title, 4, false, false, false)
    }

    /// A picker over paths that a server listed under `base_dir`; the user
    /// cannot leave that directory.
    pub fn new_remote(base_dir: String, files: Vec<String>, extensions: Vec<String>, title: String) -> (r:
        FilePicker)
        requires
            paths_fit(files@),
        ensures
            r.wf(),
            r.current_dir == base_dir,
            r.all_files == files,
            r.extensions == extensions,
            r.title == title,
            r.query@.len() == 0,
            r.cursor_position == 0,
            r.selected_index == 0,
            r.max_depth == 4,
            r.restricted_mode && r.remote_mode && !r.dir_only,
    {
        FilePicker::build(base_dir, files, extensions, title, 4, true, true, false)
    }

    /// A picker over the local directories under `start_dir`. `dirs` are the
    /// directories found there.
    pub fn new_dir_only(start_dir: String, title: String, dirs: Vec<String>) -> (r: FilePicker)
        requires
            paths_fit(dirs@),
        ensures
            r.wf(),
            r.current_dir == start_dir,
            r.all_files == dirs,
            r.extensions@.len() == 0,
            r.title == title,
            r.query@.len() == 0,
            r.cursor_position == 0,
            r.selected_index == 0,
            r.max_depth == 4,
            !r.restricted_mode && !r.remote_mode && r.dir_only,
    {
        FilePicker::build(start_dir, dirs, Vec::new(), title, 4, false, false, true)
    }

    /// A picker over directories that a server allows, starting at
    /// `base_dir`; the user cannot leave it.
    pub fn new_remote_dirs(base_dir: String, dirs: Vec<String>, title: String) -> (r: FilePicker)
        requires
            paths_fit(dirs@),
        ensures
            r.wf(),
            r.current_dir == base_dir,
            r.all_files == dirs,
            r.extensions@.len() == 0,
            r.title == title,
            r.query@.len() == 0,
            r.cursor_position == 0,
            r.selected_index == 0,
            r.max_depth == 3,
            r.restricted_mode && r.remote_mode && r.dir_only,
    {
        FilePicker::build(base_dir, dirs, Vec::new(), title, 3, true, true, true)
    }

    /// Replaces the listed paths after the directory was read again.
    pub fn set_files(&mut self, files: Vec<String>)
        requires
            old(self).wf(),
            paths_fit(files@),
        ensures
            requeried(*old(self), *final(self)),
            final(self).wf(),
            final(self).all_files == files,
            final(self).current_dir == old(self).current_dir,
            final(self).query == old(self).query,
            final(self).cursor_position == old(self).cursor_position,
            final(self).selected_index == 0,
    {
        self.all_files = files;
        self.update_filtered_files();
    }

    /// Types `c` at the cursor.
    pub fn handle_char(&mut self, c: char)
        requires
            old(self).wf(),
        ensures
            requeried(*old(self), *final(self)),
            final(self).wf(),
            final(self).query@ == old(self).query@.insert(old(self).cursor_position as int, c),
            final(self).cursor_position == old(self).cursor_position + 1,
            final(self).selected_index == 0,
            final(self).all_files == old(self).all_files,
            final(self).current_dir == old(self).current_dir,
    {
        let q = insert_char_at(self.query.as_str(), self.cursor_position, c);
        let len = q.as_str().unicode_len();
        self.query = q;
        self.cursor_position = self.cursor_position + 1;
        assert(self.cursor_position <= len);
        self.update_filtered_files();
    }

    /// Deletes the character before the cursor, if any.
    pub fn handle_backspace(&mut self)
        requires
            old(self).wf(),
        ensures
            requeried(*old(self), *final(self)),
            final(self).wf(),
            old(self).cursor_position > 0 ==> final(self).query@ == old(self).query@.remove(
                old(self).cursor_position - 1,
            ) && final(self).cursor_position == old(self).cursor_position - 1
                && final(self).selected_index == 0,
            old(self).cursor_position == 0 ==> *final(self) == *old(self),
            final(self).all_files == old(self).all_files,
            final(self).current_dir == old(self).current_dir,
    {
        if self.cursor_position > 0 {
            self.query = remove_char_at(self.query.as_str(), self.cursor_position - 1);
            self.cursor_position = self.cursor_position - 1;
            self.update_filtered_files();
        }
    }

    /// Deletes the character under the cursor, if any.
    pub fn handle_delete(&mut self)
        requires
            old(self).wf(),
        ensures
            requeried(*old(self), *final(self)),
            final(self).wf(),
            old(self).cursor_position < old(self).query@.len() ==> final(self).query@ == old(
                self,
            ).query@.remove(old(self).cursor_position as int) && final(self).selected_index == 0,
            old(self).cursor_position >= old(self).query@.len() ==> *final(self) == *old(self),
            final(self).cursor_position == old(self).cursor_position,
            final(self).all_files == old(self).all_files,
            final(self).current_dir == old(self).current_dir,
    {
        if self.cursor_position < self.query.as_str().unicode_len() {
            self.query = remove_char_at(self.query.as_str(), self.cursor_position);
            self.update_filtered_files();
        }
    }

    /// Moves the cursor one character left, if it can.
    pub fn move_cursor_left(&mut self)
        requires
            old(self).wf(),
        ensures
            final(self).wf(),
            *final(self) == (FilePicker {
                cursor_position: if old(self).cursor_position > 0 {
                    (old(self).cursor_position - 1) as usize
                } else {
                    0
                },
                ..*old(self)
            }),
    {
        if self.cursor_position > 0 {
            self.cursor_position = self.cursor_position - 1;
        }
    }

    /// Moves the cursor one character right, if it can.
    pub fn move_cursor_right(&mut self)
        requires
            old(self).wf(),
        ensures
            final(self).wf(),
            *final(self) == (FilePicker {
                cursor_position: if old(self).cursor_position < old(self).query@.len() {
                    (old(self).cursor_position + 1) as usize
                } else {
                    old(self).cursor_position
                },
                ..*old(self)
            }),
    {
        if self.cursor_position < self.query.as_str().unicode_len() {
            self.cursor_position = self.cursor_position + 1;
        }
    }

    /// Selects the next listed path, wrapping to the first.
    pub fn next_item(&mut self)
        requires
            old(self).wf(),
        ensures
            final(self).wf(),
            old(self).filtered_files@.len() == 0 ==> *final(self) == *old(self),
            old(self).filtered_files@.len() > 0 ==> *final(self) == (FilePicker {
                selected_index: ((old(self).selected_index + 1) % old(
                    self,
                ).filtered_files@.len() as int) as usize,
                list_selected: Some(
                    ((old(self).selected_index + 1) % old(self).filtered_files@.len() as int) as usize,
                ),
                ..*old(self)
            }),
    {
        let n = self.filtered_files.len();
        if n == 0 {
            return;
        }
        self.selected_index = (self.selected_index + 1) % n;
        self.list_selected = Some(self.selected_index);
    }

    /// Selects the previous listed path, wrapping to the last.
    pub fn previous_item(&mut self)
        requires
            old(self).wf(),
        ensures
            final(self).wf(),
            old(self).filtered_files@.len() == 0 ==> *final(self) == *old(self),
            old(self).filtered_files@.len() > 0 ==> *final(self) == (FilePicker {
                selected_index: if old(self).selected_index == 0 {
                    (old(self).filtered_files@.len() - 1) as usize
                } else {
                    (old(self).selected_index - 1) as usize
                },
                list_selected: Some(
                    if old(self).selected_index == 0 {
                        (old(self).filtered_files@.len() - 1) as usize
                    } else {
                        (old(self).selected_index - 1) as usize
                    },
                ),
                ..*old(self)
            }),
    {
        let n = self.filtered_files.len();
        if n == 0 {
            return;
        }
        if self.selected_index == 0 {
            self.selected_index = n - 1;
        } else {
            self.selected_index = self.selected_index - 1;
        }
        self.list_selected = Some(self.selected_index);
    }

    fn enter_directory(&mut self, dir: String)
        requires
            old(self).wf(),
        ensures
            requeried(*old(self), *final(self)),
            final(self).wf(),
            final(self).current_dir == dir,
            final(self).query@.len() == 0,
            final(self).cursor_position == 0,
            final(self).selected_index == 0,
            final(self).all_files == old(self).all_files,
            final(self).restricted_mode == old(self).restricted_mode,
            final(self).remote_mode == old(self).remote_mode,
            final(self).dir_only == old(self).dir_only,
            final(self).extensions == old(self).extensions,
            final(self).title == old(self).title,
            final(self).max_depth == old(self).max_depth,
    {
        self.current_dir = dir;
        self.query = String::new();
        self.cursor_position = 0;
        self.update_filtered_files();
    }

    /// Moves up to the parent directory, unless the picker is restricted.
    /// Returns whether the directory changed; the caller then reads it and
    /// hands the paths to `set_files`.
    pub fn navigate_up(&mut self) -> (changed: bool)
        requires
            old(self).wf(),
        ensures
            requeried(*old(self), *final(self)),
            final(self).wf(),
            changed == (!old(self).restricted_mode && path_parent(old(self).current_dir@) is Some),
            changed ==> final(self).current_dir@ == path_parent(old(self).current_dir@)->Some_0
                && final(self).query@.len() == 0 && final(self).cursor_position == 0,
            !changed ==> *final(self) == *old(self),
    {
        if self.restricted_mode {
            return false;
        }
        match parent_path(self.current_dir.as_str()) {
            Some(parent) => {
                self.enter_directory(parent);
                true
            },
            None => false,
        }
    }

    /// The path under the selection, if any.
    pub fn get_selected(&self) -> (r: Option<String>)
        ensures
            self.selected_index < self.filtered_files@.len() ==> r == Some(
                self.filtered_files@[self.selected_index as int],
            ),
            self.selected_index >= self.filtered_files@.len() ==> r is None,
    {
        if self.selected_index < self.filtered_files.len() {
            Some(self.filtered_files[self.selected_index].clone())
        } else {
            None
        }
    }

    /// Moves into the directory that holds the selected path, when that is
    /// a directory strictly below the current one and the picker is not
    /// restricted. Returns whether the directory changed; the caller then
    /// reads it and hands the paths to `set_files`.
    pub fn navigate_down(&mut self) -> (changed: bool)
        requires
            old(self).wf(),
        ensures
            requeried(*old(self), *final(self)),
            final(self).wf(),
            changed == ({
                let s = old(self);
                &&& !s.restricted_mode
                &&& s.selected_index < s.filtered_files@.len()
                &&& path_parent(s.filtered_files@[s.selected_index as int]@) is Some
                &&& !path_eq(
                    path_parent(s.filtered_files@[s.selected_index as int]@)->Some_0,
                    s.current_dir@,
                )
                &&& path_starts_with(
                    path_parent(s.filtered_files@[s.selected_index as int]@)->Some_0,
                    s.current_dir@,
                )
            }),
            changed ==> final(self).current_dir@ == path_parent(
                old(self).filtered_files@[old(self).selected_index as int]@,
            )->Some_0 && final(self).query@.len() == 0 && final(self).cursor_position == 0,
            !changed ==> *final(self) == *old(self),
    {
        if self.restricted_mode {
            return false;
        }
        if let Some(selected) = self.get_selected() {
            if let Some(parent) = parent_path(selected.as_str()) {
                if !same_path(parent.as_str(), self.current_dir.as_str()) && path_has_prefix(
                    parent.as_str(),
                    self.current_dir.as_str(),
                ) {
                    self.enter_directory(parent);
                    return true;
                }
            }
        }
        false
    }

    /// Moves into `new_dir`, which the caller has found to be a directory.
    /// The caller then reads it and hands the paths to `set_files`.
    pub fn change_directory(&mut self, new_dir: String)
        requires
            old(self).wf(),
        ensures
            requeried(*old(self), *final(self)),
            final(self).wf(),
            final(self).current_dir == new_dir,
            final(self).query@.len() == 0,
            final(self).cursor_position == 0,
            final(self).selected_index == 0,
    {
        self.enter_directory(new_dir);
    }

    /// The directory the picker lists.
    pub fn current_directory(&self) -> (r: &String)
        ensures
            *r == self.current_dir,
    {
        &self.current_dir
    }

    /// Sets how many levels deep the directory is read.
    pub fn set_max_depth(&mut self, depth: usize)
        ensures
            *final(self) == (FilePicker { max_depth: depth, ..*old(self) }),
    {
        self.max_depth = depth;
    }

    /// How a listed path is shown: whole for a server's directories, else
    /// relative to the picker's directory, and `.` for the directory itself.
    pub fn display_path(&self, path: &str) -> (r: String)
        ensures
            ({
                let shown = if self.remote_mode && self.dir_only {
                    path@
                } else {
                    display_spec(path@, self.current_dir@)
                };
                r@ == if shown.len() == 0 {
                    seq!['.']
                } else {
                    shown
                }
            }),
    {
        let shown = if self.remote_mode && self.dir_only {
            owned(path)
        } else {
            match strip_path_prefix(path, self.current_dir.as_str()) {
                Some(rest) => rest,
                None => owned(path),
            }
        };
        if shown.as_str().unicode_len() == 0 {
            proof {
                reveal_strlit(".");
            }
            owned(".")
        } else {
            shown
        }
    }

    /// Whether a directory entry found while reading the picker's directory
    /// is listed: a directory other than the start one for a directory
    /// picker; otherwise a file whose extension matches one of the
    /// picker's, ignoring case and a leading `.`.
    pub fn accepts_entry(&self, is_dir: bool, is_file: bool, is_start_dir: bool, extension: Option<
        &str,
    >) -> (r: bool)
        ensures
            r == if self.dir_only {
                is_dir && !is_start_dir
            } else {
                is_file && match extension {
                    Some(e) => exists|i: int|
                        0 <= i < self.extensions@.len() && lowercase_text(e@) == lowercase_text(
                            trim_dots(#[trigger] self.extensions@[i]@),
                        ),
                    None => false,
                }
            },
    {
        if self.dir_only {
            return is_dir && !is_start_dir;
        }
        if !is_file {
            return false;
        }
        match extension {
            None => false,
            Some(e) => {
                let le = to_lowercase(e);
                let mut i: usize = 0;
                while i < self.extensions.len()
                    invariant
                        i <= self.extensions@.len(),
                        !self.dir_only,
                        is_file,
                        extension == Some(e),
                        le@ == lowercase_text(e@),
                        forall|j: int|
                            0 <= j < i ==> lowercase_text(e@) != lowercase_text(
                                trim_dots(#[trigger] self.extensions@[j]@),
                            ),
                    decreases self.extensions@.len() - i,
                {
                    let trimmed = trim_leading_dots(self.extensions[i].as_str());
                    let lx = to_lowercase(trimmed.as_str());
                    if str_eq(le.as_str(), lx.as_str()) {
                        assert(lowercase_text(e@) == lowercase_text(
                            trim_dots(self.extensions@[i as int]@),
                        ));
                        return true;
                    }
                    i = i + 1;
                }
                false
            },
        }
    }
}

/// The directory that moving up leads to, if the picker may move up.
pub open spec fn ascend_target(s: FilePicker) -> Option<Seq<char>> {
    if !s.restricted_mode {
        path_parent(s.current_dir@)
    } else {
        None
    }
}

/// The directory that moving down leads to: the one holding the selected
/// path, when the picker may move and that directory lies strictly below
/// the current one.
pub open spec fn descend_target(s: FilePicker) -> Option<Seq<char>> {
    if !s.restricted_mode && s.selected_index < s.filtered_files@.len() {
        let sel = s.filtered_files@[s.selected_index as int]@;
        match path_parent(sel) {
            Some(parent) => if !path_eq(parent, s.current_dir@) && path_starts_with(
                parent,
                s.current_dir@,
            ) {
                Some(parent)
            } else {
                None
            },
            None => None,
        }
    } else {
        None
    }
}

/// What a key does to a picker, `moved` telling whether it changed
/// directory (so that the directory must be read again).
pub open spec fn key_effect(old: FilePicker, new: FilePicker, key: Key, moved: bool) -> bool {
    match key {
        Key::PageUp => match ascend_target(old) {
            Some(d) => moved && new.current_dir@ == d && new.query@.len() == 0
                && new.cursor_position == 0,
            None => !moved && new == old,
        },
        Key::PageDown => match descend_target(old) {
            Some(d) => moved && new.current_dir@ == d && new.query@.len() == 0
                && new.cursor_position == 0,
            None => !moved && new == old,
        },
        Key::Char(c) => {
            &&& !moved
            &&& new.query@ == old.query@.insert(old.cursor_position as int, c)
            &&& new.cursor_position == old.cursor_position + 1
            &&& new.selected_index == 0
            &&& new.all_files == old.all_files
            &&& new.current_dir == old.current_dir
        },
        Key::Backspace => {
            &&& !moved
            &&& old.cursor_position > 0 ==> {
                &&& new.query@ == old.query@.remove(old.cursor_position - 1)
                &&& new.cursor_position == old.cursor_position - 1
                &&& new.selected_index == 0
                &&& new.all_files == old.all_files
                &&& new.current_dir == old.current_dir
            }
            &&& old.cursor_position == 0 ==> new == old
        },
        Key::Delete => {
            &&& !moved
            &&& old.cursor_position < old.query@.len() ==> {
                &&& new.query@ == old.query@.remove(old.cursor_position as int)
                &&& new.cursor_position == old.cursor_position
                &&& new.selected_index == 0
                &&& new.all_files == old.all_files
                &&& new.current_dir == old.current_dir
            }
            &&& old.cursor_position >= old.query@.len() ==> new == old
        },
        Key::Left => !moved && new == (FilePicker {
            cursor_position: if old.cursor_position > 0 {
                (old.cursor_position - 1) as usize
            } else {
                0
            },
            ..old
        }),
        Key::Right => !moved && new == (FilePicker {
            cursor_position: if old.cursor_position < old.query@.len() {
                (old.cursor_position + 1) as usize
            } else {
                old.cursor_position
            },
            ..old
        }),
        Key::Down => {
            &&& !moved
            &&& old.filtered_files@.len() == 0 ==> new == old
            &&& old.filtered_files@.len() > 0 ==> new == (FilePicker {
                selected_index: ((old.selected_index + 1) % old.filtered_files@.len() as int) as usize,
                list_selected: Some(
                    ((old.selected_index + 1) % old.filtered_files@.len() as int) as usize,
                ),
                ..old
            })
        },
        Key::Up => {
            &&& !moved
            &&& old.filtered_files@.len() == 0 ==> new == old
            &&& old.filtered_files@.len() > 0 ==> new == (FilePicker {
                selected_index: if old.selected_index == 0 {
                    (old.filtered_files@.len() - 1) as usize
                } else {
                    (old.selected_index - 1) as usize
                },
                list_selected: Some(
                    if old.selected_index == 0 {
                        (old.filtered_files@.len() - 1) as usize
                    } else {
                        (old.selected_index - 1) as usize
                    },
                ),
                ..old
            })
        },
        _ => !moved && new == old,
    }
}

impl FilePicker {
    /// Applies a key: text keys edit the query, arrows move the cursor or
    /// the selection, page keys move up or down a directory. Enter and Esc
    /// belong to whoever opened the picker and change nothing here.
    /// Returns whether the directory changed; the caller then reads it and
    /// hands the paths to `set_files`.
    pub fn handle_key(&mut self, key: Key) -> (moved: bool)
        requires
            old(self).wf(),
        ensures
            requeried(*old(self), *final(self)),
            final(self).wf(),
            key_effect(*old(self), *final(self), key, moved),
    {
        match key {
            Key::PageUp => self.navigate_up(),
            Key::PageDown => self.navigate_down(),
            Key::Char(c) => {
                self.handle_char(c);
                false
            },
            Key::Backspace => {
                self.handle_backspace();
                false
            },
            Key::Delete => {
                self.handle_delete();
                false
            },
            Key::Left => {
                self.move_cursor_left();
                false
            },
            Key::Right => {
                self.move_cursor_right();
                false
            },
            Key::Down => {
                self.next_item();
                false
            },
            Key::Up => {
                self.previous_item();
                false
            },
            _ => false,
        }
    }
}

/// `s` without its leading `.` characters (`trim_start_matches('.')`).
pub open spec fn trim_dots(s: Seq<char>) -> Seq<char>
    decreases s.len(),
{
    if s.len() > 0 && s[0] == '.' {
        trim_dots(s.drop_first())
    } else {
        s
    }
}

fn trim_leading_dots(s: &str) -> (r: String)
    ensures
        r@ == trim_dots(s@),
{
    let len = s.unicode_len();
    let mut start: usize = 0;
    assert(s@.skip(0) =~= s@);
    while start < len && s.get_char(start) == '.'
        invariant
            len == s@.len(),
            start <= len,
            trim_dots(s@) == trim_dots(s@.skip(start as int)),
        decreases len - start,
    {
        assert(s@.skip(start as int).drop_first() =~= s@.skip(start + 1));
        start = start + 1;
    }
    assert(s@.subrange(start as int, len as int) =~= s@.skip(start as int));
    owned(s.substring_char(start, len))
}

} // verus!
