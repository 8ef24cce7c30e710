//! Which file changes a watcher reports: the paths it ignores, the glob
//! patterns that say so, and the kind of change that an event stands for.

use vstd::prelude::*;
use vstd::string::StringSliceAdditionalSpecFns;
use vstd::utf8::encode_utf8;
use crate::util::config::Info;
use crate::util::text::{
    char_views, clone_texts, from_chars, joined, lemma_texts_push, replace_char, replaced,
    same_text, split, split_on, texts, to_chars,
};

verus! {

/// Whether a pattern of bytes matches a text of bytes: `?` stands for any
/// one byte, `*` for any run of bytes, every other byte for itself.
pub open spec fn wild(p: Seq<u8>, t: Seq<u8>) -> bool
    decreases p.len(), t.len(),
{
    if p.len() == 0 {
        t.len() == 0
    } else if p[0] == 42u8 {
        wild(p.drop_first(), t) || (t.len() > 0 && wild(p, t.drop_first()))
    } else {
        t.len() > 0 && (p[0] == 63u8 || p[0] == t[0]) && wild(p.drop_first(), t.drop_first())
    }
}

/// Whether a pattern of segments matches a path of segments: `**` stands
/// for any run of segments, every other segment for the segments that it
/// matches as a pattern of bytes.
pub open spec fn segments_match(pattern: Seq<Seq<char>>, path: Seq<Seq<char>>) -> bool
    decreases pattern.len(), path.len(),
{
    if pattern.len() == 0 {
        path.len() == 0
    } else if pattern[0] == "**"@ {
        pattern.len() == 1 || segments_match(pattern.drop_first(), path) || (path.len() > 0
            && segments_match(pattern, path.drop_first()))
    } else {
        path.len() > 0 && wild(encode_utf8(pattern[0]), encode_utf8(path[0])) && segments_match(
            pattern.drop_first(),
            path.drop_first(),
        )
    }
}

/// The segments of a pattern: its pieces between slashes, backslashes
/// counting as slashes, without the empty ones.
pub open spec fn pattern_segments(pattern: Seq<char>) -> Seq<Seq<char>> {
    split_on(replaced(pattern, '\\', '/'), '/').filter(|piece: Seq<char>| piece.len() > 0)
}

/// Whether a glob pattern matches a path written with slashes.
pub open spec fn glob_matched(pattern: Seq<char>, candidate: Seq<char>) -> bool {
    segments_match(pattern_segments(pattern), split_on(candidate, '/'))
}

/// Whether the pattern segment matches the text, byte by byte.
pub fn segment_matches(pattern: &str, text: &str) -> (r: bool)
    ensures
        r == wild(encode_utf8(pattern@), encode_utf8(text@)),
{
    let pat = pattern.as_bytes();
    let txt = text.as_bytes();
    let m = pat.len();
    let n = txt.len();
    let mut row: Vec<bool> = Vec::new();
    let mut j: usize = 0;
    while j < n
        invariant
            n == txt@.len(),
            j <= n,
            row@.len() == j,
            forall|k: int| 0 <= k < j ==> !row@[k],
        decreases n - j,
    {
        row.push(false);
        j += 1;
    }
    row.push(true);
    proof {
        assert(pat@.skip(m as int) =~= Seq::empty());
        assert forall|k: int| 0 <= k <= n implies row@[k] == wild(
            pat@.skip(m as int),
            #[trigger] txt@.skip(k),
        ) by {}
    }
    let mut i: usize = m;
    while i > 0
        invariant
            m == pat@.len(),
            n == txt@.len(),
            i <= m,
            row@.len() == n + 1,
            forall|k: int| 0 <= k <= n ==> row@[k] == wild(pat@.skip(i as int), #[trigger] txt@.skip(k)),
        decreases i,
    {
        i -= 1;
        let c = pat[i];
        let ghost rest = pat@.skip(i + 1);
        let ghost here = pat@.skip(i as int);
        proof {
            assert(here.drop_first() =~= rest);
            assert(here[0] == c);
        }
        let mut fresh: Vec<bool> = Vec::new();
        let mut k: usize = 0;
        while k < n
            invariant
                k <= n,
                fresh@.len() == k,
            decreases n - k,
        {
            fresh.push(false);
            k += 1;
        }
        fresh.push(c == 42u8 && row[n]);
        proof {
            assert(txt@.skip(n as int) =~= Seq::empty());
        }
        let mut j: usize = n;
        while j > 0
            invariant
                m == pat@.len(),
                n == txt@.len(),
                i < m,
                j <= n,
                c == pat@[i as int],
                rest == pat@.skip(i + 1),
                here == pat@.skip(i as int),
                here.len() > 0,
                here[0] == c,
                here.drop_first() == rest,
                row@.len() == n + 1,
                fresh@.len() == n + 1,
                forall|k: int| 0 <= k <= n ==> row@[k] == wild(rest, #[trigger] txt@.skip(k)),
                forall|k: int| j <= k <= n ==> fresh@[k] == wild(here, #[trigger] txt@.skip(k)),
            decreases j,
        {
            j -= 1;
            let ghost tail = txt@.skip(j as int);
            proof {
                assert(tail.drop_first() =~= txt@.skip(j + 1));
                assert(tail[0] == txt@[j as int]);
            }
            let value = if c == 42u8 {
                row[j] || fresh[j + 1]
            } else {
                (c == 63u8 || c == txt[j]) && row[j + 1]
            };
            fresh.set(j, value);
        }
        row = fresh;
    }
    proof {
        assert(pat@.skip(0) =~= pat@);
        assert(txt@.skip(0) =~= txt@);
    }
    row[0]
}

/// Whether the pattern segments from `pi` on match the path segments from
/// `ti` on.
pub fn glob_match_segments(pattern: &[String], path: &[String], pi: usize, ti: usize) -> (r: bool)
    requires
        pi <= pattern@.len(),
        ti <= path@.len(),
    ensures
        r == segments_match(texts(pattern@).skip(pi as int), texts(path@).skip(ti as int)),
    decreases pattern@.len() - pi,
{
    let ghost pats = texts(pattern@).skip(pi as int);
    let ghost segs = texts(path@).skip(ti as int);
    if pi == pattern.len() {
        return ti == path.len();
    }
    proof {
        assert(pats[0] == pattern@[pi as int]@);
        assert(pats.drop_first() =~= texts(pattern@).skip(pi + 1));
    }
    if same_text(pattern[pi].as_str(), "**") {
        if pi + 1 == pattern.len() {
            return true;
        }
        let mut k: usize = ti;
        assert(pattern@.len() == pattern.len());
        assert(segs.skip(0) =~= segs);
        while k < path.len()
            invariant
                ti <= k <= path@.len(),
                pi + 1 < pattern@.len() <= usize::MAX,
                pats == texts(pattern@).skip(pi as int),
                segs == texts(path@).skip(ti as int),
                pats.drop_first() == texts(pattern@).skip(pi + 1),
                pats.len() > 1,
                pats[0] == "**"@,
                segments_match(pats, segs) == segments_match(pats, segs.skip(k - ti)),
            decreases path@.len() - k,
        {
            proof {
                assert(segs.skip(k - ti) =~= texts(path@).skip(k as int));
                assert(segs.skip(k - ti).drop_first() =~= segs.skip(k - ti + 1));
            }
            if glob_match_segments(pattern, path, pi + 1, k) {
                return true;
            }
            k += 1;
        }
        proof {
            assert(segs.skip(k - ti) =~= texts(path@).skip(k as int));
        }
        return glob_match_segments(pattern, path, pi + 1, k);
    }
    if ti == path.len() {
        return false;
    }
    proof {
        assert(segs[0] == path@[ti as int]@);
        assert(segs.drop_first() =~= texts(path@).skip(ti + 1));
    }
    if !segment_matches(pattern[pi].as_str(), path[ti].as_str()) {
        return false;
    }
    glob_match_segments(pattern, path, pi + 1, ti + 1)
}

/// The strings of the non-empty pieces, in order.
fn non_empty_strings(pieces: &Vec<Vec<char>>) -> (r: Vec<String>)
    ensures
        texts(r@) == char_views(pieces@).filter(|piece: Seq<char>| piece.len() > 0),
{
    let ghost keep = |piece: Seq<char>| piece.len() > 0;
    let mut out: Vec<String> = Vec::new();
    let mut i: usize = 0;
    proof {
        reveal(Seq::filter);
        assert(char_views(pieces@.subrange(0, 0)) =~= Seq::empty());
        assert(texts(out@) =~= Seq::empty());
    }
    while i < pieces.len()
        invariant
            i <= pieces@.len(),
            keep == |piece: Seq<char>| piece.len() > 0,
            texts(out@) == char_views(pieces@.subrange(0, i as int)).filter(keep),
        decreases pieces@.len() - i,
    {
        proof {
            reveal(Seq::filter);
            assert(char_views(pieces@.subrange(0, i + 1)).drop_last() =~= char_views(
                pieces@.subrange(0, i as int),
            ));
        }
        if pieces[i].len() > 0 {
            let piece = from_chars(pieces[i].as_slice());
            proof {
                lemma_texts_push(out@, piece);
            }
            out.push(piece);
        }
        i += 1;
    }
    assert(pieces@.subrange(0, pieces@.len() as int) =~= pieces@);
    out
}

/// The strings of the pieces, in order.
fn all_strings(pieces: &Vec<Vec<char>>) -> (r: Vec<String>)
    ensures
        texts(r@) == char_views(pieces@),
{
    let mut out: Vec<String> = Vec::new();
    let mut i: usize = 0;
    while i < pieces.len()
        invariant
            i <= pieces@.len(),
            texts(out@) == char_views(pieces@.subrange(0, i as int)),
        decreases pieces@.len() - i,
    {
        let piece = from_chars(pieces[i].as_slice());
        proof {
            lemma_texts_push(out@, piece);
        }
        out.push(piece);
        i += 1;
        assert(texts(out@) =~= char_views(pieces@.subrange(0, i as int)));
    }
    assert(pieces@.subrange(0, pieces@.len() as int) =~= pieces@);
    out
}

/// Whether the glob pattern matches the path, which is written with
/// slashes.
pub fn glob_matches(pattern: &str, candidate: &str) -> (r: bool)
    ensures
        r == glob_matched(pattern@, candidate@),
{
    let raw = to_chars(pattern);
    let normalized = replace_char(raw.as_slice(), '\\', '/');
    let pattern_pieces = split(normalized.as_slice(), '/');
    let pattern_parts = non_empty_strings(&pattern_pieces);
    let path = to_chars(candidate);
    let path_pieces = split(path.as_slice(), '/');
    let path_parts = all_strings(&path_pieces);
    proof {
        assert(texts(pattern_parts@).skip(0) =~= texts(pattern_parts@));
        assert(texts(path_parts@).skip(0) =~= texts(path_parts@));
    }
    glob_match_segments(pattern_parts.as_slice(), path_parts.as_slice(), 0, 0)
}


/// What a watcher is asked to ignore beyond its fixed lists.
#[derive(Debug, Default)]
pub struct WatchOptions {
    pub ignore: Vec<String>,
}

impl Clone for WatchOptions {
    fn clone(&self) -> (r: Self)
        ensures
            texts(r.ignore@) == texts(self.ignore@),
    {
        WatchOptions { ignore: clone_texts(self.ignore.as_slice()) }
    }
}

impl WatchOptions {
    /// Options that ignore the given patterns.
    pub fn with_ignore(ignore: Vec<String>) -> (r: Self)
        ensures
            r.ignore == ignore,
    {
        WatchOptions { ignore }
    }

    /// Options that ignore the patterns of a configuration's watcher.
    pub fn from_info(info: &Info) -> (r: Self)
        ensures
            texts(r.ignore@) == info.ignore_patterns(),
    {
        WatchOptions { ignore: info.watcher_ignore_patterns() }
    }
}

impl<'a> From<&'a Info> for WatchOptions {
    fn from(info: &'a Info) -> (r: Self)
        ensures
            texts(r.ignore@) == info.ignore_patterns(),
    {
        WatchOptions::from_info(info)
    }
}

impl<'a> vstd::std_specs::convert::FromSpecImpl<&'a Info> for WatchOptions {
    open spec fn obeys_from_spec() -> bool {
        false
    }

    open spec fn from_spec(info: &'a Info) -> Self {
        arbitrary()
    }
}

/// What happened to a file.
#[derive(Debug, Clone, Copy, PartialEq, Eq, Structural)]
pub enum FileEventKind {
    Created,
    Modified,
    Deleted,
}

/// A change that the watcher reports: the path, and what happened to it.
#[derive(Debug, PartialEq, Eq)]
pub struct FileEvent {
    pub path: String,
    pub kind: FileEventKind,
}

/// The kind of a raw file-system event, as far as the report depends on it.
#[derive(Debug, Clone, Copy, PartialEq, Eq, Structural)]
pub enum WatchEventKind {
    /// Something was created.
    Create,
    /// A rename, seen from the old name.
    RenameFrom,
    /// A rename, seen from the new name.
    RenameTo,
    /// A rename seen otherwise.
    RenameOther,
    /// Data or metadata changed.
    Modify,
    /// Something was removed.
    Remove,
    /// An access, or an event of no known kind.
    Other,
}

/// A path of a raw event. `parts` are its components, `None` for one that
/// is no valid text; `exists` says whether the path was found on disk when
/// the event was taken.
#[derive(Debug)]
pub struct WatchPath {
    pub text: String,
    pub parts: Vec<Option<String>>,
    pub exists: bool,
}

/// A raw file-system event: its kind and the paths it concerns.
#[derive(Debug)]
pub struct WatchEvent {
    pub kind: WatchEventKind,
    pub paths: Vec<WatchPath>,
}

/// The folders whose content is never reported.
pub open spec fn ignored_folders() -> Seq<Seq<char>> {
    seq![
        "node_modules"@,
        "bower_components"@,
        ".pnpm-store"@,
        "vendor"@,
        "dist"@,
        "build"@,
        "out"@,
        ".next"@,
        "target"@,
        "bin"@,
        "obj"@,
        ".git"@,
        ".svn"@,
        ".hg"@,
        ".vscode"@,
        ".idea"@,
        ".turbo"@,
        ".output"@,
        "desktop"@,
        ".sst"@,
    ]
}

/// The patterns of paths that are never reported.
pub open spec fn ignored_globs() -> Seq<Seq<char>> {
    seq![
        "**/*.swp"@,
        "**/*.swo"@,
        "**/.DS_Store"@,
        "**/Thumbs.db"@,
        "**/logs/**"@,
        "**/tmp/**"@,
        "**/temp/**"@,
        "**/*.log"@,
        "**/coverage/**"@,
        "**/.nyc_output/**"@,
    ]
}

/// The texts of the components, `None` for one that is no valid text.
pub open spec fn part_texts(parts: Seq<Option<String>>) -> Seq<Option<Seq<char>>> {
    parts.map_values(
        |part: Option<String>|
            match part {
                Some(s) => Some(s@),
                None => None,
            },
    )
}

/// Whether the components of `root` are the first components of `path`.
/// A component that is no valid text equals none.
pub open spec fn starts_with_parts(path: Seq<Option<Seq<char>>>, root: Seq<Option<Seq<char>>>) -> bool {
    &&& root.len() <= path.len()
    &&& forall|i: int| 0 <= i < root.len() ==> (#[trigger] root[i]) is Some && path[i] == root[i]
}

/// The path as seen from `root`: what follows `root` where the path lies
/// strictly below it, the path itself otherwise.
pub open spec fn relative_parts(path: Seq<Option<Seq<char>>>, root: Seq<Option<Seq<char>>>) -> Seq<
    Option<Seq<char>>,
> {
    if starts_with_parts(path, root) && root.len() < path.len() {
        path.skip(root.len() as int)
    } else {
        path
    }
}

/// Whether one of the components is one of the folders.
pub open spec fn in_folder(parts: Seq<Option<Seq<char>>>, folders: Seq<Seq<char>>) -> bool {
    exists|i: int| 0 <= i < parts.len() && (#[trigger] parts[i]) is Some && folders.contains(parts[i]->0)
}

/// Whether every component is valid text.
pub open spec fn all_text(parts: Seq<Option<Seq<char>>>) -> bool {
    forall|i: int| 0 <= i < parts.len() ==> (#[trigger] parts[i]) is Some
}

/// The components of a path that are all valid text.
pub open spec fn plain_parts(parts: Seq<Option<Seq<char>>>) -> Seq<Seq<char>> {
    Seq::new(parts.len(), |i: int| parts[i]->0)
}

/// The path written with slashes: its components joined by `/`, with
/// every backslash turned into a slash; nothing where a component is no
/// valid text.
pub open spec fn normalized(parts: Seq<Option<Seq<char>>>) -> Option<Seq<char>> {
    if all_text(parts) {
        Some(replaced(joined(plain_parts(parts), "/"@), '\\', '/'))
    } else {
        None
    }
}

/// Whether one of the patterns matches the candidate.
pub open spec fn any_glob(patterns: Seq<Seq<char>>, candidate: Seq<char>) -> bool {
    exists|i: int| 0 <= i < patterns.len() && glob_matched(#[trigger] patterns[i], candidate)
}

/// Whether a path is ignored: seen from the root, one of its components
/// is an ignored folder, or its normalized form matches a pattern.
pub open spec fn ignored(
    root: Seq<Option<Seq<char>>>,
    folders: Seq<Seq<char>>,
    patterns: Seq<Seq<char>>,
    path: Seq<Option<Seq<char>>>,
) -> bool {
    let relative = relative_parts(path, root);
    in_folder(relative, folders) || (normalized(relative) matches Some(text) && any_glob(
        patterns,
        text,
    ))
}

/// The path written with slashes.
pub fn normalize_path(parts: &[Option<String>]) -> (r: Option<String>)
    ensures
        match r {
            Some(text) => normalized(part_texts(parts@)) == Some(text@),
            None => normalized(part_texts(parts@)) is None,
        },
{
    let mut plain: Vec<String> = Vec::new();
    let mut i: usize = 0;
    let ghost all = part_texts(parts@);
    assert(texts(plain@) =~= plain_parts(part_texts(parts@.subrange(0, 0))));
    while i < parts.len()
        invariant
            i <= parts@.len(),
            all == part_texts(parts@),
            all_text(part_texts(parts@.subrange(0, i as int))),
            texts(plain@) == plain_parts(part_texts(parts@.subrange(0, i as int))),
        decreases parts@.len() - i,
    {
        match &parts[i] {
            Some(segment) => {
                let copy = segment.clone();
                proof {
                    lemma_texts_push(plain@, copy);
                    assert(part_texts(parts@.subrange(0, i + 1))[i as int] == Some(segment@));
                    assert(plain_parts(part_texts(parts@.subrange(0, i + 1))) =~= plain_parts(
                        part_texts(parts@.subrange(0, i as int)),
                    ).push(segment@));
                    assert forall|k: int| 0 <= k < i + 1 implies (#[trigger] part_texts(
                        parts@.subrange(0, i + 1),
                    )[k]) is Some by {
                        if k < i {
                            assert(part_texts(parts@.subrange(0, i as int))[k] is Some);
                        }
                    }
                }
                plain.push(copy);
            },
            None => {
                assert(all[i as int] is None);
                return None;
            },
        }
        i += 1;
    }
    assert(parts@.subrange(0, parts@.len() as int) =~= parts@);
    let mut text: Vec<char> = Vec::new();
    crate::util::text::push_joined(&mut text, plain.as_slice(), "/");
    let slashed = replace_char(text.as_slice(), '\\', '/');
    assert(text@ =~= joined(plain_parts(all), "/"@));
    Some(from_chars(slashed.as_slice()))
}

/// Decides which paths a watcher leaves out.
#[derive(Debug)]
pub struct IgnoreMatcher {
    root: Vec<Option<String>>,
    folders: Vec<String>,
    patterns: Vec<String>,
}

fn owned_names(list: &[&str]) -> (r: Vec<String>)
    ensures
        texts(r@) == list@.map_values(|s: &str| s@),
{
    let mut out: Vec<String> = Vec::new();
    let mut i: usize = 0;
    while i < list.len()
        invariant
            i <= list@.len(),
            texts(out@) == list@.subrange(0, i as int).map_values(|s: &str| s@),
        decreases list@.len() - i,
    {
        let name = list[i].to_owned();
        proof {
            lemma_texts_push(out@, name);
        }
        out.push(name);
        i += 1;
        assert(texts(out@) =~= list@.subrange(0, i as int).map_values(|s: &str| s@));
    }
    assert(list@.subrange(0, list@.len() as int) =~= list@);
    out
}

impl IgnoreMatcher {
    /// The components of the root.
    pub closed spec fn root(&self) -> Seq<Option<Seq<char>>> {
        part_texts(self.root@)
    }

    /// The ignored folders.
    pub closed spec fn folders(&self) -> Seq<Seq<char>> {
        texts(self.folders@)
    }

    /// The ignored patterns.
    pub closed spec fn patterns(&self) -> Seq<Seq<char>> {
        texts(self.patterns@)
    }

    /// The matcher for a watch under `root` that ignores the fixed folders,
    /// the fixed patterns, and the patterns of `extra` behind them.
    pub fn new(root: Vec<Option<String>>, extra: &[String]) -> (r: Self)
        ensures
            r.root() == part_texts(root@),
            r.folders() == ignored_folders(),
            r.patterns() == ignored_globs() + texts(extra@),
    {
        let globs = [
            "**/*.swp",
            "**/*.swo",
            "**/.DS_Store",
            "**/Thumbs.db",
            "**/logs/**",
            "**/tmp/**",
            "**/temp/**",
            "**/*.log",
            "**/coverage/**",
            "**/.nyc_output/**",
        ];
        let names = [
            "node_modules",
            "bower_components",
            ".pnpm-store",
            "vendor",
            "dist",
            "build",
            "out",
            ".next",
            "target",
            "bin",
            "obj",
            ".git",
            ".svn",
            ".hg",
            ".vscode",
            ".idea",
            ".turbo",
            ".output",
            "desktop",
            ".sst",
        ];
        let mut patterns = owned_names(globs.as_slice());
        assert(texts(patterns@) =~= ignored_globs());
        let mut i: usize = 0;
        while i < extra.len()
            invariant
                i <= extra@.len(),
                texts(patterns@) == ignored_globs() + texts(extra@.subrange(0, i as int)),
            decreases extra@.len() - i,
        {
            let pattern = extra[i].clone();
            proof {
                lemma_texts_push(patterns@, pattern);
                lemma_texts_push(extra@.subrange(0, i as int), extra@[i as int]);
                assert(extra@.subrange(0, i + 1) =~= extra@.subrange(0, i as int).push(
                    extra@[i as int],
                ));
            }
            patterns.push(pattern);
            i += 1;
            assert(texts(patterns@) =~= ignored_globs() + texts(extra@.subrange(0, i as int)));
        }
        assert(extra@.subrange(0, extra@.len() as int) =~= extra@);
        let folders = owned_names(names.as_slice());
        assert(texts(folders@) =~= ignored_folders());
        IgnoreMatcher { root, folders, patterns }
    }

    fn below_root(&self, path: &[Option<String>]) -> (r: bool)
        ensures
            r == (starts_with_parts(part_texts(path@), self.root()) && self.root().len()
                < path@.len()),
    {
        if self.root.len() >= path.len() {
            return false;
        }
        let mut i: usize = 0;
        while i < self.root.len()
            invariant
                i <= self.root@.len(),
                self.root@.len() < path@.len(),
                forall|k: int|
                    0 <= k < i ==> (#[trigger] self.root()[k]) is Some && part_texts(path@)[k]
                        == self.root()[k],
            decreases self.root@.len() - i,
        {
            let same = match (&self.root[i], &path[i]) {
                (Some(a), Some(b)) => same_text(a.as_str(), b.as_str()),
                _ => false,
            };
            if !same {
                assert(!(self.root()[i as int] is Some && part_texts(path@)[i as int]
                    == self.root()[i as int]));
                return false;
            }
            i += 1;
        }
        true
    }

    /// Whether the path is ignored.
    pub fn matches(&self, path: &[Option<String>]) -> (r: bool)
        ensures
            r == ignored(self.root(), self.folders(), self.patterns(), part_texts(path@)),
    {
        let skip = if self.below_root(path) {
            self.root.len()
        } else {
            0
        };
        let relative = vstd::slice::slice_subrange(path, skip, path.len());
        let ghost rel = relative_parts(part_texts(path@), self.root());
        proof {
            assert(path@.subrange(0, path@.len() as int) =~= path@);
            assert(part_texts(relative@) =~= rel);
        }
        let mut i: usize = 0;
        while i < relative.len()
            invariant
                i <= relative@.len(),
                part_texts(relative@) == rel,
                rel == relative_parts(part_texts(path@), self.root()),
                forall|k: int|
                    0 <= k < i ==> !((#[trigger] rel[k]) is Some && self.folders().contains(rel[k]->0)),
            decreases relative@.len() - i,
        {
            if let Some(name) = &relative[i] {
                if crate::agent::spec::listed(self.folders.as_slice(), name.as_str()) {
                    assert(rel[i as int] is Some && self.folders().contains(rel[i as int]->0));
                    return true;
                }
            }
            i += 1;
        }
        assert(!in_folder(rel, self.folders()));
        if let Some(path_str) = normalize_path(relative) {
            let mut j: usize = 0;
            while j < self.patterns.len()
                invariant
                    j <= self.patterns@.len(),
                    rel == relative_parts(part_texts(path@), self.root()),
                    normalized(rel) == Some(path_str@),
                    !in_folder(rel, self.folders()),
                    forall|k: int|
                        0 <= k < j ==> !glob_matched(#[trigger] self.patterns()[k], path_str@),
                decreases self.patterns@.len() - j,
            {
                if glob_matches(self.patterns[j].as_str(), path_str.as_str()) {
                    assert(glob_matched(self.patterns()[j as int], path_str@));
                    return true;
                }
                j += 1;
            }
        }
        false
    }
}

/// The position of the last path that is not ignored.
pub open spec fn last_kept(matcher: &IgnoreMatcher, paths: Seq<WatchPath>) -> Option<int>
    decreases paths.len(),
{
    if paths.len() == 0 {
        None
    } else if !ignored(
        matcher.root(),
        matcher.folders(),
        matcher.patterns(),
        part_texts(paths.last().parts@),
    ) {
        Some(paths.len() - 1)
    } else {
        last_kept(matcher, paths.drop_last())
    }
}

/// The position of the path that an event is reported for: the last one
/// that is not ignored.
pub fn select_path(event: &WatchEvent, matcher: &IgnoreMatcher) -> (r: Option<usize>)
    ensures
        match r {
            Some(i) => last_kept(matcher, event.paths@) == Some(i as int) && i < event.paths@.len(),
            None => last_kept(matcher, event.paths@) is None,
        },
{
    let mut i: usize = event.paths.len();
    assert(event.paths@.subrange(0, i as int) =~= event.paths@);
    while i > 0
        invariant
            i <= event.paths@.len(),
            last_kept(matcher, event.paths@) == last_kept(matcher, event.paths@.subrange(0, i as int)),
        decreases i,
    {
        proof {
            assert(event.paths@.subrange(0, i as int).drop_last() =~= event.paths@.subrange(
                0,
                i - 1,
            ));
        }
        if !matcher.matches(event.paths[i - 1].parts.as_slice()) {
            return Some(i - 1);
        }
        i -= 1;
    }
    None
}

/// The kind of change that a raw event stands for, for a path that exists
/// or does not: a creation or the new name of a rename is `Created`; a
/// removal or the old name of a rename is `Deleted`; a change or any other
/// rename is `Modified` while the path exists and `Deleted` once it is
/// gone; anything else is not reported.
pub open spec fn reported_kind(kind: WatchEventKind, exists: bool) -> Option<FileEventKind> {
    match kind {
        WatchEventKind::Create => Some(FileEventKind::Created),
        WatchEventKind::RenameFrom => Some(FileEventKind::Deleted),
        WatchEventKind::RenameTo => Some(FileEventKind::Created),
        WatchEventKind::RenameOther => Some(
            if exists {
                FileEventKind::Modified
            } else {
                FileEventKind::Deleted
            },
        ),
        WatchEventKind::Modify => Some(
            if exists {
                FileEventKind::Modified
            } else {
                FileEventKind::Deleted
            },
        ),
        WatchEventKind::Remove => Some(FileEventKind::Deleted),
        WatchEventKind::Other => None,
    }
}

/// The change that a raw event is reported as, if it is reported: for the
/// last of its paths that is not ignored, the kind that the event stands
/// for.
pub fn map_event(event: &WatchEvent, matcher: &IgnoreMatcher) -> (r: Option<FileEvent>)
    ensures
        match r {
            Some(reported) => last_kept(matcher, event.paths@) matches Some(i) && reported.path@
                == event.paths@[i].text@ && reported_kind(event.kind, event.paths@[i].exists)
                == Some(reported.kind),
            None => last_kept(matcher, event.paths@) matches Some(i) ==> reported_kind(
                event.kind,
                event.paths@[i].exists,
            ) is None,
        },
{
    let index = match select_path(event, matcher) {
        Some(i) => i,
        None => {
            return None;
        },
    };
    let path = &event.paths[index];
    let kind = match event.kind {
        WatchEventKind::Create => FileEventKind::Created,
        WatchEventKind::RenameFrom => FileEventKind::Deleted,
        WatchEventKind::RenameTo => FileEventKind::Created,
        WatchEventKind::RenameOther => FileEventKind::Modified,
        WatchEventKind::Modify => FileEventKind::Modified,
        WatchEventKind::Remove => FileEventKind::Deleted,
        WatchEventKind::Other => {
            return None;
        },
    };
    let kind = match kind {
        FileEventKind::Modified => if path.exists {
            FileEventKind::Modified
        } else {
            FileEventKind::Deleted
        },
        other => other,
    };
    Some(FileEvent { path: path.text.clone(), kind })
}

} // verus!
