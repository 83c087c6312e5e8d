use vstd::prelude::*;

use crate::order::{is_sorted_order, sorted_order, KeyView, OrderKeys};
use crate::paths::{display_below, display_below_spec, extension, path_extension, path_parent, parent_spec};
use crate::text::{chars_eq, chars_of, lowercase_of, string_from, to_lowercase, views};
use fuzzy_matcher::skim::SkimMatcherV2;
use fuzzy_matcher::FuzzyMatcher;

verus! {

/// The file extensions (lower case) that the browser treats as audio.
pub open spec fn audio_exts() -> Seq<Seq<char>> {
    seq![
        seq!['f', 'l', 'a', 'c'],
        seq!['m', 'p', '3'],
        seq!['o', 'g', 'g'],
        seq!['w', 'a', 'v'],
        seq!['a', 'a', 'c'],
        seq!['o', 'p', 'u', 's'],
        seq!['m', '4', 'a'],
    ]
}

/// A path names an audio file when its extension, lower-cased, is one of `audio_exts`.
pub open spec fn is_audio_spec(p: Seq<char>) -> bool {
    match extension(p) {
        Some(e) => audio_exts().contains(lowercase_of(e)),
        None => false,
    }
}

/// A path is audio exactly when its extension, lower-cased, is one of
/// flac, mp3, ogg, wav, aac, opus or m4a; any other extension (or none) is not.
pub proof fn law_audio_extensions(p: Seq<char>)
    ensures
        is_audio_spec(p) == match extension(p) {
            Some(e) => {
                let l = lowercase_of(e);
                ||| l == seq!['f', 'l', 'a', 'c']
                ||| l == seq!['m', 'p', '3']
                ||| l == seq!['o', 'g', 'g']
                ||| l == seq!['w', 'a', 'v']
                ||| l == seq!['a', 'a', 'c']
                ||| l == seq!['o', 'p', 'u', 's']
                ||| l == seq!['m', '4', 'a']
            },
            None => false,
        },
{
    let exts = audio_exts();
    assert(exts.len() == 7);
    assert(exts[0] =~= seq!['f', 'l', 'a', 'c']);
    assert(exts[1] =~= seq!['m', 'p', '3']);
    assert(exts[2] =~= seq!['o', 'g', 'g']);
    assert(exts[3] =~= seq!['w', 'a', 'v']);
    assert(exts[4] =~= seq!['a', 'a', 'c']);
    assert(exts[5] =~= seq!['o', 'p', 'u', 's']);
    assert(exts[6] =~= seq!['m', '4', 'a']);
    if let Some(e) = extension(p) {
        let l = lowercase_of(e);
        if exts.contains(l) {
            let k = choose|k: int| 0 <= k < exts.len() && exts[k] == l;
            assert(k == 0 || k == 1 || k == 2 || k == 3 || k == 4 || k == 5 || k == 6);
        }
        if l == seq!['f', 'l', 'a', 'c'] { assert(exts[0] == l); }
        if l == seq!['m', 'p', '3'] { assert(exts[1] == l); }
        if l == seq!['o', 'g', 'g'] { assert(exts[2] == l); }
        if l == seq!['w', 'a', 'v'] { assert(exts[3] == l); }
        if l == seq!['a', 'a', 'c'] { assert(exts[4] == l); }
        if l == seq!['o', 'p', 'u', 's'] { assert(exts[5] == l); }
        if l == seq!['m', '4', 'a'] { assert(exts[6] == l); }
    }
}

fn is_audio_ext(e: &[char]) -> (r: bool)
    ensures
        r == audio_exts().contains(e@),
{
    let ghost exts = audio_exts();
    let r = chars_eq(e, &['f', 'l', 'a', 'c']) || chars_eq(e, &['m', 'p', '3'])
        || chars_eq(e, &['o', 'g', 'g']) || chars_eq(e, &['w', 'a', 'v'])
        || chars_eq(e, &['a', 'a', 'c']) || chars_eq(e, &['o', 'p', 'u', 's'])
        || chars_eq(e, &['m', '4', 'a']);
    proof {
        assert(exts[0] =~= seq!['f', 'l', 'a', 'c']);
        assert(exts[1] =~= seq!['m', 'p', '3']);
        assert(exts[2] =~= seq!['o', 'g', 'g']);
        assert(exts[3] =~= seq!['w', 'a', 'v']);
        assert(exts[4] =~= seq!['a', 'a', 'c']);
        assert(exts[5] =~= seq!['o', 'p', 'u', 's']);
        assert(exts[6] =~= seq!['m', '4', 'a']);
        if r {
            assert(e@ == exts[0] || e@ == exts[1] || e@ == exts[2] || e@ == exts[3] || e@
                == exts[4] || e@ == exts[5] || e@ == exts[6]);
        } else {
            assert forall|k: int| 0 <= k < exts.len() implies exts[k] != e@ by {}
        }
    }
    r
}

/// Whether `path` names an audio file, judged by its extension (case-insensitive).
pub fn is_audio(path: &str) -> (r: bool)
    ensures
        r == is_audio_spec(path@),
{
    match path_extension(&chars_of(path)) {
        Some(ext) => {
            let lower = to_lowercase(string_from(&ext).as_str());
            is_audio_ext(&chars_of(lower.as_str()))
        },
        None => false,
    }
}

/// What a directory entry is.
#[derive(Debug, PartialEq, Eq, Clone, Copy, Structural)]
pub enum EntryKind {
    Dir,
    Audio,
    Other,
}

/// Directories and audio files can be highlighted; other files are skipped.
pub open spec fn selectable(kind: EntryKind) -> bool {
    kind == EntryKind::Dir || kind == EntryKind::Audio
}

/// One line of the directory listing.
pub struct BrowserEntry {
    pub name: String,
    pub path: String,
    pub kind: EntryKind,
}

/// The plain content of a listing line.
pub ghost struct EntryView {
    pub name: Seq<char>,
    pub path: Seq<char>,
    pub kind: EntryKind,
}

impl View for BrowserEntry {
    type V = EntryView;

    open spec fn view(&self) -> EntryView {
        EntryView { name: self.name@, path: self.path@, kind: self.kind }
    }
}

/// The views of a sequence of listing lines.
pub open spec fn entry_views(v: Seq<BrowserEntry>) -> Seq<EntryView> {
    v.map_values(|e: BrowserEntry| e@)
}

/// A file or directory as read from disk, before it is classified.
pub struct RawEntry {
    pub name: String,
    pub path: String,
    pub is_dir: bool,
}

/// The kind a raw entry gets in the listing.
pub open spec fn classify(e: RawEntry) -> EntryKind {
    if e.is_dir {
        EntryKind::Dir
    } else if is_audio_spec(e.path@) {
        EntryKind::Audio
    } else {
        EntryKind::Other
    }
}

/// The keys by which raw entries are listed: their names in lower case.
pub open spec fn name_keys(raw: Seq<RawEntry>) -> Seq<Seq<char>> {
    raw.map_values(|e: RawEntry| lowercase_of(e.name@))
}

/// The listing line for a raw entry.
pub open spec fn line_of(e: RawEntry) -> EntryView {
    EntryView { name: e.name@, path: e.path@, kind: classify(e) }
}

/// The lines, in the order `ord`, of the raw entries of kind `kind`.
pub open spec fn lines_of_kind(raw: Seq<RawEntry>, ord: Seq<usize>, kind: EntryKind) -> Seq<EntryView>
    decreases ord.len(),
{
    if ord.len() == 0 {
        Seq::empty()
    } else {
        let prev = lines_of_kind(raw, ord.drop_last(), kind);
        let e = raw[ord.last() as int];
        if classify(e) == kind {
            prev.push(line_of(e))
        } else {
            prev
        }
    }
}

/// The `..` line leading to `parent`.
pub open spec fn up_line(parent: Seq<char>) -> EntryView {
    EntryView { name: seq!['.', '.'], path: parent, kind: EntryKind::Dir }
}

/// The full listing of directory `dir`: a `..` line when it has a parent,
/// then directories, audio files and other files, each group by name.
pub open spec fn listing_spec(dir: Seq<char>, raw: Seq<RawEntry>, ord: Seq<usize>) -> Seq<EntryView> {
    let head = match parent_spec(dir) {
        Some(p) => seq![up_line(p)],
        None => Seq::empty(),
    };
    head + lines_of_kind(raw, ord, EntryKind::Dir) + lines_of_kind(raw, ord, EntryKind::Audio)
        + lines_of_kind(raw, ord, EntryKind::Other)
}

/// A line the cursor starts on: selectable and not the `..` line.
pub open spec fn content_line(e: EntryView) -> bool {
    selectable(e.kind) && e.name != seq!['.', '.']
}

/// The initial cursor: the first content line, or 0 when there is none.
pub open spec fn initial_cursor(es: Seq<EntryView>, c: int) -> bool {
    ||| (0 <= c < es.len() && content_line(es[c]) && forall|j: int|
        0 <= j < c ==> !content_line(#[trigger] es[j]))
    ||| (c == 0 && forall|j: int| 0 <= j < es.len() ==> !content_line(#[trigger] es[j]))
}

/// The position of the highlighted line: the first selectable line after `from`.
pub open spec fn next_selectable(es: Seq<EntryView>, from: int, to: int) -> bool {
    &&& from < to < es.len()
    &&& selectable(es[to].kind)
    &&& forall|j: int| from < j < to ==> !selectable(#[trigger] es[j].kind)
}

/// The position of the highlighted line: the last selectable line before `from`.
pub open spec fn prev_selectable(es: Seq<EntryView>, from: int, to: int) -> bool {
    &&& 0 <= to < from
    &&& selectable(es[to].kind)
    &&& forall|j: int| to < j < from ==> !selectable(#[trigger] es[j].kind)
}

/// The state of the file browser.
pub struct BrowserState {
    pub cwd: String,
    pub entries: Vec<BrowserEntry>,
    pub cursor: usize,
    pub workspace: Option<String>,
    pub search_term: String,
    pub search_results: Option<Vec<String>>,
    /// All audio files under the workspace; filled on the first search keystroke.
    pub workspace_files: Option<Vec<String>>,
}

/// The order in which a directory's raw entries are listed.
pub fn listing_order(raw: &Vec<RawEntry>) -> (ord: Vec<usize>)
    ensures
        is_sorted_order(KeyView::Names(name_keys(raw@)), ord@),
{
    let mut keys: Vec<Vec<char>> = Vec::new();
    let mut i: usize = 0;
    while i < raw.len()
        invariant
            i <= raw@.len(),
            views(keys@) == name_keys(raw@).subrange(0, i as int),
        decreases raw@.len() - i,
    {
        let ghost before = views(keys@);
        let k = chars_of(to_lowercase(raw[i].name.as_str()).as_str());
        keys.push(k);
        assert(views(keys@) =~= before.push(lowercase_of(raw@[i as int].name@)));
        assert(name_keys(raw@).subrange(0, i + 1) =~= name_keys(raw@).subrange(0, i as int).push(
            name_keys(raw@)[i as int],
        ));
        i += 1;
    }
    assert(name_keys(raw@).subrange(0, raw@.len() as int) =~= name_keys(raw@));
    let keys = OrderKeys::Names(keys);
    sorted_order(&keys)
}

/// The kind each raw entry gets.
fn classify_all(raw: &Vec<RawEntry>) -> (kinds: Vec<EntryKind>)
    ensures
        kinds@.len() == raw@.len(),
        forall|i: int| 0 <= i < raw@.len() ==> kinds@[i] == classify(#[trigger] raw@[i]),
{
    let mut kinds: Vec<EntryKind> = Vec::new();
    let mut i: usize = 0;
    while i < raw.len()
        invariant
            i <= raw@.len(),
            kinds@.len() == i,
            forall|k: int| 0 <= k < i ==> kinds@[k] == classify(#[trigger] raw@[k]),
        decreases raw@.len() - i,
    {
        let kind = if raw[i].is_dir {
            EntryKind::Dir
        } else if is_audio(raw[i].path.as_str()) {
            EntryKind::Audio
        } else {
            EntryKind::Other
        };
        kinds.push(kind);
        i += 1;
    }
    kinds
}

/// Appends, in the order `ord`, the lines of the raw entries of kind `kind`.
fn push_lines_of_kind(
    out: &mut Vec<BrowserEntry>,
    raw: &Vec<RawEntry>,
    kinds: &Vec<EntryKind>,
    ord: &Vec<usize>,
    kind: EntryKind,
)
    requires
        kinds@.len() == raw@.len(),
        forall|i: int| 0 <= i < raw@.len() ==> kinds@[i] == classify(#[trigger] raw@[i]),
        forall|k: int| 0 <= k < ord@.len() ==> ord@[k] < raw@.len(),
    ensures
        entry_views(final(out)@) == entry_views(old(out)@) + lines_of_kind(raw@, ord@, kind),
{
    let mut i: usize = 0;
    assert(ord@.subrange(0, 0) =~= Seq::<usize>::empty());
    while i < ord.len()
        invariant
            i <= ord@.len(),
            kinds@.len() == raw@.len(),
            forall|j: int| 0 <= j < raw@.len() ==> kinds@[j] == classify(#[trigger] raw@[j]),
            forall|k: int| 0 <= k < ord@.len() ==> ord@[k] < raw@.len(),
            entry_views(out@) == entry_views(old(out)@) + lines_of_kind(
                raw@,
                ord@.subrange(0, i as int),
                kind,
            ),
        decreases ord@.len() - i,
    {
        let idx = ord[i];
        assert(ord@.subrange(0, i + 1).drop_last() =~= ord@.subrange(0, i as int));
        let ghost before = entry_views(out@);
        if kinds[idx] == kind {
            let e = BrowserEntry {
                name: raw[idx].name.clone(),
                path: raw[idx].path.clone(),
                kind: kinds[idx],
            };
            out.push(e);
            assert(entry_views(out@) =~= before.push(line_of(raw@[idx as int])));
        }
        i += 1;
    }
    assert(ord@.subrange(0, ord@.len() as int) =~= ord@);
}

/// Index of the first content line, or 0.
fn first_content_line(es: &Vec<BrowserEntry>) -> (c: usize)
    ensures
        initial_cursor(entry_views(es@), c as int),
{
    let ghost ev = entry_views(es@);
    let mut i: usize = 0;
    while i < es.len()
        invariant
            i <= es@.len(),
            ev == entry_views(es@),
            forall|j: int| 0 <= j < i ==> !content_line(#[trigger] ev[j]),
        decreases es@.len() - i,
    {
        let k = es[i].kind;
        let is_up = chars_eq(&chars_of(es[i].name.as_str()), &['.', '.']);
        proof {
            assert(ev[i as int] == es@[i as int]@);
        }
        if (k == EntryKind::Dir || k == EntryKind::Audio) && !is_up {
            return i;
        }
        i += 1;
    }
    0
}

impl BrowserState {
    /// The browser opened on directory `dir`, whose entries are `raw` (in any order).
    pub fn from_listing(dir: String, raw: Vec<RawEntry>, workspace: Option<String>) -> (s: Self)
        ensures
            s.cwd@ == dir@,
            exists|ord: Seq<usize>|
                is_sorted_order(KeyView::Names(name_keys(raw@)), ord) && entry_views(s.entries@)
                    == listing_spec(dir@, raw@, ord),
            initial_cursor(entry_views(s.entries@), s.cursor as int),
            s.workspace == workspace,
            s.search_term@ == Seq::<char>::empty(),
            s.search_results is None,
            s.workspace_files is None,
    {
        let mut entries: Vec<BrowserEntry> = Vec::new();
        match path_parent(dir.as_str()) {
            Some(p) => {
                let up = string_from(&['.', '.']);
                entries.push(BrowserEntry { name: up, path: p, kind: EntryKind::Dir });
            },
            None => {},
        }
        let ghost head = entry_views(entries@);
        proof {
            match parent_spec(dir@) {
                Some(p) => {
                    assert(entries@[0].name@ =~= seq!['.', '.']);
                    assert(head =~= seq![up_line(p)]);
                },
                None => {
                    assert(head =~= Seq::<EntryView>::empty());
                },
            }
        }
        let ord = listing_order(&raw);
        let kinds = classify_all(&raw);
        push_lines_of_kind(&mut entries, &raw, &kinds, &ord, EntryKind::Dir);
        push_lines_of_kind(&mut entries, &raw, &kinds, &ord, EntryKind::Audio);
        push_lines_of_kind(&mut entries, &raw, &kinds, &ord, EntryKind::Other);
        assert(entry_views(entries@) =~= listing_spec(dir@, raw@, ord@));
        let cursor = first_content_line(&entries);
        BrowserState {
            cwd: dir,
            entries,
            cursor,
            workspace,
            search_term: String::new(),
            search_results: None,
            workspace_files: None,
        }
    }

    /// Whether the cursor may rest on an entry of this kind.
    pub fn is_selectable(kind: &EntryKind) -> (r: bool)
        ensures
            r == selectable(*kind),
    {
        match kind {
            EntryKind::Dir | EntryKind::Audio => true,
            EntryKind::Other => false,
        }
    }

    /// Moves the cursor to the next selectable entry below it, if there is one.
    pub fn move_down(&mut self)
        requires
            old(self).cursor < usize::MAX,
        ensures
            final(self).entries == old(self).entries,
            final(self).cwd == old(self).cwd,
            final(self).workspace == old(self).workspace,
            final(self).search_term == old(self).search_term,
            final(self).search_results == old(self).search_results,
            final(self).workspace_files == old(self).workspace_files,
            next_selectable(entry_views(old(self).entries@), old(self).cursor as int, final(self).cursor as int)
                || (final(self).cursor == old(self).cursor && forall|j: int|
                old(self).cursor < j < old(self).entries@.len() ==> !selectable(
                    #[trigger] entry_views(old(self).entries@)[j].kind,
                )),
    {
        let ghost ev = entry_views(self.entries@);
        let mut i: usize = self.cursor + 1;
        while i < self.entries.len()
            invariant
                ev == entry_views(self.entries@),
                old(self).cursor < i,
                self.cursor == old(self).cursor,
                self.entries == old(self).entries,
                self.cwd == old(self).cwd,
                self.workspace == old(self).workspace,
                self.search_term == old(self).search_term,
                self.search_results == old(self).search_results,
                self.workspace_files == old(self).workspace_files,
                forall|j: int| old(self).cursor < j < i ==> !selectable(#[trigger] ev[j].kind),
            decreases self.entries@.len() - i,
        {
            assert(ev[i as int] == self.entries@[i as int]@);
            if Self::is_selectable(&self.entries[i].kind) {
                self.cursor = i;
                return;
            }
            i += 1;
        }
    }

    /// Moves the cursor to the nearest selectable entry above it, if there is one.
    pub fn move_up(&mut self)
        requires
            old(self).cursor <= old(self).entries@.len(),
        ensures
            final(self).entries == old(self).entries,
            final(self).cwd == old(self).cwd,
            final(self).workspace == old(self).workspace,
            final(self).search_term == old(self).search_term,
            final(self).search_results == old(self).search_results,
            final(self).workspace_files == old(self).workspace_files,
            prev_selectable(entry_views(old(self).entries@), old(self).cursor as int, final(self).cursor as int)
                || (final(self).cursor == old(self).cursor && forall|j: int|
                0 <= j < old(self).cursor ==> !selectable(
                    #[trigger] entry_views(old(self).entries@)[j].kind,
                )),
    {
        let ghost ev = entry_views(self.entries@);
        let mut i: usize = self.cursor;
        while i > 0
            invariant
                ev == entry_views(self.entries@),
                i <= old(self).cursor,
                old(self).cursor <= self.entries@.len(),
                self.cursor == old(self).cursor,
                self.entries == old(self).entries,
                self.cwd == old(self).cwd,
                self.workspace == old(self).workspace,
                self.search_term == old(self).search_term,
                self.search_results == old(self).search_results,
                self.workspace_files == old(self).workspace_files,
                forall|j: int| i <= j < old(self).cursor ==> !selectable(#[trigger] ev[j].kind),
            decreases i,
        {
            assert(ev[i - 1] == self.entries@[i - 1]@);
            if Self::is_selectable(&self.entries[i - 1].kind) {
                self.cursor = i - 1;
                return;
            }
            i -= 1;
        }
    }

    /// The path of the highlighted audio file: the highlighted search result
    /// while searching, otherwise the highlighted entry when it is audio.
    pub fn highlighted_audio_path(&self) -> (r: Option<String>)
        ensures
            match self.search_results {
                Some(res) => match r {
                    Some(p) => self.cursor < res@.len() && p@ == res@[self.cursor as int]@,
                    None => self.cursor >= res@.len(),
                },
                None => match r {
                    Some(p) => self.cursor < self.entries@.len() && self.entries@[self.cursor as int].kind
                        == EntryKind::Audio && p@ == self.entries@[self.cursor as int].path@,
                    None => self.cursor >= self.entries@.len() || self.entries@[self.cursor as int].kind
                        != EntryKind::Audio,
                },
            },
    {
        match &self.search_results {
            Some(results) => {
                if self.cursor < results.len() {
                    Some(results[self.cursor].clone())
                } else {
                    None
                }
            },
            None => {
                if self.cursor < self.entries.len() && self.entries[self.cursor].kind
                    == EntryKind::Audio {
                    Some(self.entries[self.cursor].path.clone())
                } else {
                    None
                }
            },
        }
    }
}

} // verus!

verus! {

/// What the default skim matcher (`SkimMatcherV2::default().fuzzy_match`)
/// scores `choice` against `pattern`; none when the pattern does not match.
pub uninterp spec fn skim_score(choice: Seq<char>, pattern: Seq<char>) -> Option<i64>;

/// `SkimMatcherV2::default().fuzzy_match(choice, pattern)`: the fuzzy score of
/// `choice` for `pattern`, none when it does not match; an empty pattern
/// matches everything with score 0.
#[verifier::external_body]
fn fuzzy_score(choice: &str, pattern: &str) -> (r: Option<i64>)
    ensures
        r == skim_score(choice@, pattern@),
        pattern@.len() == 0 ==> r == Some(0i64),
{
    SkimMatcherV2::default().fuzzy_match(choice, pattern)
}

/// The workspace files that match `term`, with their scores, in file order.
/// Each file is matched as it is shown below the workspace root.
pub open spec fn search_matches(files: Seq<Seq<char>>, term: Seq<char>, ws: Seq<char>) -> Seq<(Seq<char>, i64)>
    decreases files.len(),
{
    if files.len() == 0 {
        Seq::empty()
    } else {
        let prev = search_matches(files.drop_last(), term, ws);
        match skim_score(display_below_spec(files.last(), ws), term) {
            Some(s) => prev.push((files.last(), s)),
            None => prev,
        }
    }
}

/// A workspace file is found by a search exactly when the fuzzy matcher
/// matches the term against the file's path as shown below the workspace
/// (its text after the workspace's components); a found file carries that
/// score, and nothing but the searched files is found.
pub proof fn law_search_matches_shown_path(files: Seq<Seq<char>>, term: Seq<char>, ws: Seq<char>)
    ensures
        forall|k: int|
            0 <= k < search_matches(files, term, ws).len() ==> files.contains(
                (#[trigger] search_matches(files, term, ws)[k]).0,
            ) && skim_score(display_below_spec(search_matches(files, term, ws)[k].0, ws), term) == Some(
                search_matches(files, term, ws)[k].1,
            ),
        forall|i: int|
            0 <= i < files.len() && (#[trigger] skim_score(display_below_spec(files[i], ws), term)) is Some
                ==> exists|k: int|
                0 <= k < search_matches(files, term, ws).len() && search_matches(files, term, ws)[k].0 == files[i],
        search_matches(files, term, ws).len() <= files.len(),
    decreases files.len(),
{
    if files.len() > 0 {
        let prev = files.drop_last();
        law_search_matches_shown_path(prev, term, ws);
        let m0 = search_matches(prev, term, ws);
        let m = search_matches(files, term, ws);
        assert forall|k: int| 0 <= k < m.len() implies files.contains((#[trigger] m[k]).0) && skim_score(
            display_below_spec(m[k].0, ws),
            term,
        ) == Some(m[k].1) by {
            if k < m0.len() {
                assert(m[k] == m0[k]);
                let j = choose|j: int| 0 <= j < prev.len() && prev[j] == m0[k].0;
                assert(files[j] == prev[j]);
            } else {
                assert(m[k].0 == files.last());
                assert(files[files.len() - 1] == files.last());
            }
        }
        assert forall|i: int|
            0 <= i < files.len() && (#[trigger] skim_score(display_below_spec(files[i], ws), term)) is Some
            implies exists|k: int| 0 <= k < m.len() && m[k].0 == files[i] by {
            if i < prev.len() {
                assert(prev[i] == files[i]);
                assert(skim_score(display_below_spec(prev[i], ws), term) is Some);
                let k = choose|k: int| 0 <= k < m0.len() && m0[k].0 == prev[i];
                assert(m[k] == m0[k]);
            } else {
                assert(files[i] == files.last());
                assert(m[m.len() - 1].0 == files.last());
            }
        }
    }
}

proof fn lemma_search_results(fv: Seq<Seq<char>>, term: Seq<char>, ws: Seq<char>, ord: Seq<usize>, rv: Seq<Seq<char>>)
    requires
        is_sorted_order(KeyView::ScoresDesc(match_scores(search_matches(fv, term, ws))), ord),
        rv == ord.map_values(|k: usize| search_matches(fv, term, ws)[k as int].0),
        fv.len() <= usize::MAX,
    ensures
        forall|j: int|
            0 <= j < rv.len() ==> fv.contains(#[trigger] rv[j]) && skim_score(display_below_spec(rv[j], ws), term) is Some,
        forall|i: int|
            0 <= i < fv.len() && (#[trigger] skim_score(display_below_spec(fv[i], ws), term)) is Some ==> rv.contains(fv[i]),
{
    let m = search_matches(fv, term, ws);
    law_search_matches_shown_path(fv, term, ws);
    assert forall|j: int| 0 <= j < rv.len() implies fv.contains(#[trigger] rv[j]) && skim_score(
        display_below_spec(rv[j], ws),
        term,
    ) is Some by {
        let x = ord[j] as int;
        assert(rv[j] == m[x].0);
    }
    assert forall|i: int|
        0 <= i < fv.len() && (#[trigger] skim_score(display_below_spec(fv[i], ws), term)) is Some
        implies rv.contains(fv[i]) by {
        let k = choose|k: int| 0 <= k < m.len() && m[k].0 == fv[i];
        assert(m.len() <= fv.len());
        crate::order::lemma_permutation_covers(ord, m.len(), k as usize);
        let j = choose|j: int| 0 <= j < ord.len() && ord[j] == k as usize;
        assert(rv[j] == m[k].0);
    }
}

/// The scores of a list of matches.
pub open spec fn match_scores(m: Seq<(Seq<char>, i64)>) -> Seq<i64> {
    m.map_values(|x: (Seq<char>, i64)| x.1)
}

/// The files matching `term`, best score first; equal scores keep file order.
pub fn run_search(term: &str, files: &Vec<String>, workspace: &str) -> (r: Vec<String>)
    ensures
        exists|ord: Seq<usize>|
            #[trigger] is_sorted_order(
                KeyView::ScoresDesc(
                    match_scores(search_matches(crate::text::string_views(files@), term@, workspace@)),
                ),
                ord,
            ) && crate::text::string_views(r@) == ord.map_values(
                |k: usize| search_matches(crate::text::string_views(files@), term@, workspace@)[k as int].0,
            ),
        forall|j: int|
            0 <= j < r@.len() ==> crate::text::string_views(files@).contains(
                #[trigger] crate::text::string_views(r@)[j],
            ) && skim_score(display_below_spec(crate::text::string_views(r@)[j], workspace@), term@) is Some,
        forall|i: int|
            0 <= i < files@.len() && (#[trigger] skim_score(
                display_below_spec(crate::text::string_views(files@)[i], workspace@),
                term@,
            )) is Some ==> crate::text::string_views(r@).contains(crate::text::string_views(files@)[i]),
{
    let ghost fv = crate::text::string_views(files@);
    let mut cand: Vec<usize> = Vec::new();
    let mut scores: Vec<i64> = Vec::new();
    let ghost mut ms: Seq<(Seq<char>, i64)> = Seq::empty();
    let mut i: usize = 0;
    assert(fv.subrange(0, 0) =~= Seq::<Seq<char>>::empty());
    while i < files.len()
        invariant
            i <= files@.len(),
            fv == crate::text::string_views(files@),
            ms == search_matches(fv.subrange(0, i as int), term@, workspace@),
            cand@.len() == ms.len(),
            scores@.len() == ms.len(),
            forall|k: int| 0 <= k < cand@.len() ==> #[trigger] cand@[k] < i,
            forall|k: int| 0 <= k < ms.len() ==> (#[trigger] ms[k]) == (fv[cand@[k] as int], scores@[k]),
        decreases files@.len() - i,
    {
        let shown = display_below(files[i].as_str(), workspace);
        let s = fuzzy_score(shown.as_str(), term);
        proof {
            assert(fv.subrange(0, i + 1).drop_last() =~= fv.subrange(0, i as int));
            assert(fv.subrange(0, i + 1).last() == fv[i as int]);
            assert(fv[i as int] == files@[i as int]@);
            assert(shown@ == display_below_spec(fv[i as int], workspace@));
        }
        match s {
            Some(score) => {
                cand.push(i);
                scores.push(score);
                proof {
                    ms = ms.push((fv[i as int], score));
                }
            },
            None => {},
        }
        i += 1;
    }
    assert(fv.subrange(0, files@.len() as int) =~= fv);
    let ghost m = ms;
    assert(match_scores(m) =~= scores@);
    let keys = OrderKeys::ScoresDesc(scores);
    let ord = sorted_order(&keys);
    let mut r: Vec<String> = Vec::new();
    let mut k: usize = 0;
    while k < ord.len()
        invariant
            k <= ord@.len(),
            fv == crate::text::string_views(files@),
            m == search_matches(fv, term@, workspace@),
            cand@.len() == m.len(),
            forall|j: int| 0 <= j < cand@.len() ==> #[trigger] cand@[j] < files@.len(),
            forall|j: int| 0 <= j < m.len() ==> (#[trigger] m[j]).0 == fv[cand@[j] as int],
            is_sorted_order(KeyView::ScoresDesc(match_scores(m)), ord@),
            crate::text::string_views(r@) == ord@.subrange(0, k as int).map_values(|x: usize| m[x as int].0),
        decreases ord@.len() - k,
    {
        let idx = cand[ord[k]];
        assert(cand@[ord@[k as int] as int] < files@.len());
        let ghost before = crate::text::string_views(r@);
        r.push(files[idx].clone());
        proof {
            let j = ord@[k as int] as int;
            assert(m[j].0 == fv[cand@[j] as int]);
            assert(crate::text::string_views(r@) =~= before.push(m[j].0));
            assert(ord@.subrange(0, k + 1).map_values(|x: usize| m[x as int].0) =~= ord@.subrange(
                0,
                k as int,
            ).map_values(|x: usize| m[x as int].0).push(m[j].0));
        }
        k += 1;
    }
    assert(ord@.subrange(0, ord@.len() as int) =~= ord@);
    proof {
        lemma_search_results(fv, term@, workspace@, ord@, crate::text::string_views(r@));
    }
    r
}

/// The paths of the listing lines of a kind.
pub open spec fn line_paths(ls: Seq<EntryView>) -> Seq<Seq<char>> {
    ls.map_values(|l: EntryView| l.path)
}

/// The walk over a workspace that collects its audio files: directories still
/// to read, and the audio files found so far.
pub struct WorkspaceScan {
    pub stack: Vec<String>,
    pub files: Vec<String>,
}

impl WorkspaceScan {
    /// A walk that starts at `root`.
    pub fn new(root: String) -> (s: Self)
        ensures
            crate::text::string_views(s.stack@) == seq![root@],
            s.files@.len() == 0,
    {
        let mut stack: Vec<String> = Vec::new();
        stack.push(root);
        assert(crate::text::string_views(stack@) =~= seq![stack@[0]@]);
        WorkspaceScan { stack, files: Vec::new() }
    }

    /// The next directory to read: the one pushed last.
    pub fn next_dir(&mut self) -> (r: Option<String>)
        ensures
            final(self).files == old(self).files,
            old(self).stack@.len() == 0 ==> r is None && final(self).stack@.len() == 0,
            old(self).stack@.len() > 0 ==> r == Some(old(self).stack@.last())
                && final(self).stack@ == old(self).stack@.drop_last(),
    {
        self.stack.pop()
    }

    /// Takes in the entries of a directory just read: its subdirectories go on
    /// the stack and its audio files are collected, each in name order.
    pub fn add_children(&mut self, children: Vec<RawEntry>)
        ensures
            exists|ord: Seq<usize>| {
                &&& #[trigger] is_sorted_order(KeyView::Names(name_keys(children@)), ord)
                &&& crate::text::string_views(final(self).stack@) == crate::text::string_views(old(self).stack@)
                    + line_paths(lines_of_kind(children@, ord, EntryKind::Dir))
                &&& crate::text::string_views(final(self).files@) == crate::text::string_views(old(self).files@)
                    + line_paths(lines_of_kind(children@, ord, EntryKind::Audio))
            },
    {
        let ord = listing_order(&children);
        let kinds = classify_all(&children);
        let mut dirs: Vec<BrowserEntry> = Vec::new();
        let mut audio: Vec<BrowserEntry> = Vec::new();
        push_lines_of_kind(&mut dirs, &children, &kinds, &ord, EntryKind::Dir);
        push_lines_of_kind(&mut audio, &children, &kinds, &ord, EntryKind::Audio);
        append_paths(&mut self.stack, &dirs);
        append_paths(&mut self.files, &audio);
    }
}

/// Appends the paths of `lines` to `out`.
fn append_paths(out: &mut Vec<String>, lines: &Vec<BrowserEntry>)
    ensures
        crate::text::string_views(final(out)@) == crate::text::string_views(old(out)@) + line_paths(
            entry_views(lines@),
        ),
{
    let mut i: usize = 0;
    while i < lines.len()
        invariant
            i <= lines@.len(),
            crate::text::string_views(out@) == crate::text::string_views(old(out)@) + line_paths(
                entry_views(lines@),
            ).subrange(0, i as int),
        decreases lines@.len() - i,
    {
        let ghost before = crate::text::string_views(out@);
        out.push(lines[i].path.clone());
        assert(crate::text::string_views(out@) =~= before.push(lines@[i as int].path@));
        assert(line_paths(entry_views(lines@)).subrange(0, i + 1) =~= line_paths(
            entry_views(lines@),
        ).subrange(0, i as int).push(lines@[i as int].path@));
        i += 1;
    }
    assert(line_paths(entry_views(lines@)).subrange(0, lines@.len() as int) =~= line_paths(
        entry_views(lines@),
    ));
}

} // verus!

verus! {

/// The keys the browser reacts to.
#[derive(Debug, PartialEq, Eq, Clone, Copy, Structural)]
pub enum BrowserKey {
    Up,
    Down,
    Enter,
    Backspace,
    Left,
    Esc,
    Char(char),
    Other,
}

/// How a browser session ends.
pub enum BrowserResult {
    Selected(String),
    WorkspaceSet(String),
    WorkspaceCleared,
    ReturnToPlayer,
    Quit,
}

/// What the caller must do after a key press.
pub enum BrowserStep {
    /// Nothing more: keep showing the browser.
    Stay,
    /// Leave the browser with this result.
    Finish(BrowserResult),
    /// Reopen the browser on this directory (keeping the workspace).
    Open(String),
    /// Run the search for the current term (after loading the workspace files).
    Search,
}

/// The state is unchanged but for the cursor.
pub open spec fn same_but_cursor(a: BrowserState, b: BrowserState) -> bool {
    &&& a.cwd == b.cwd
    &&& a.entries == b.entries
    &&& a.workspace == b.workspace
    &&& a.search_term == b.search_term
    &&& a.search_results == b.search_results
    &&& a.workspace_files == b.workspace_files
}

/// The search term and its results are cleared and the cursor goes to the top.
pub open spec fn search_cleared(a: BrowserState, b: BrowserState) -> bool {
    &&& a.cwd == b.cwd
    &&& a.entries == b.entries
    &&& a.workspace == b.workspace
    &&& a.workspace_files == b.workspace_files
    &&& b.search_term@ == Seq::<char>::empty()
    &&& b.search_results is None
    &&& b.cursor == 0
}

fn clear_search(state: &mut BrowserState)
    ensures
        search_cleared(*old(state), *final(state)),
{
    state.search_term = String::new();
    state.search_results = None;
    state.cursor = 0;
}

/// Reacts to a key press in the browser.
pub fn handle_browser_key(state: &mut BrowserState, key: BrowserKey) -> (step: BrowserStep)
    requires
        key is Down ==> old(state).cursor < usize::MAX,
        key is Up && old(state).search_results is None ==> old(state).cursor <= old(state).entries@.len(),
    ensures
        match key {
            BrowserKey::Up => step is Stay && same_but_cursor(*old(state), *final(state)) && match old(state).search_results {
                Some(_) => final(state).cursor == if old(state).cursor > 0 { old(state).cursor - 1 } else { 0 },
                None => prev_selectable(entry_views(old(state).entries@), old(state).cursor as int, final(state).cursor as int)
                    || (final(state).cursor == old(state).cursor && forall|j: int| 0 <= j < old(state).cursor
                        ==> !selectable(#[trigger] entry_views(old(state).entries@)[j].kind)),
            },
            BrowserKey::Down => step is Stay && same_but_cursor(*old(state), *final(state)) && match old(state).search_results {
                Some(res) => final(state).cursor == if old(state).cursor + 1 < res@.len() { old(state).cursor + 1 } else { old(state).cursor as int },
                None => next_selectable(entry_views(old(state).entries@), old(state).cursor as int, final(state).cursor as int)
                    || (final(state).cursor == old(state).cursor && forall|j: int| old(state).cursor < j < old(state).entries@.len()
                        ==> !selectable(#[trigger] entry_views(old(state).entries@)[j].kind)),
            },
            BrowserKey::Enter => *final(state) == *old(state) && match old(state).search_results {
                Some(res) => if old(state).cursor < res@.len() {
                    step matches BrowserStep::Finish(BrowserResult::Selected(p)) && p@ == res@[old(state).cursor as int]@
                } else {
                    step is Stay
                },
                None => if old(state).cursor < old(state).entries@.len() {
                    let e = old(state).entries@[old(state).cursor as int];
                    match e.kind {
                        EntryKind::Dir => step matches BrowserStep::Open(p) && p@ == e.path@,
                        EntryKind::Audio => step matches BrowserStep::Finish(BrowserResult::Selected(p)) && p@ == e.path@,
                        EntryKind::Other => step is Stay,
                    }
                } else {
                    step is Stay
                },
            },
            BrowserKey::Backspace | BrowserKey::Left => if old(state).workspace is Some && old(state).search_term@.len() > 0 {
                let t = old(state).search_term@.drop_last();
                &&& final(state).search_term@ == t
                &&& final(state).cursor == 0
                &&& final(state).cwd == old(state).cwd
                &&& final(state).entries == old(state).entries
                &&& final(state).workspace == old(state).workspace
                &&& final(state).workspace_files == old(state).workspace_files
                &&& if t.len() == 0 {
                    step is Stay && final(state).search_results is None
                } else {
                    step is Search && final(state).search_results == old(state).search_results
                }
            } else {
                *final(state) == *old(state) && match parent_spec(old(state).cwd@) {
                    Some(p) => step matches BrowserStep::Open(q) && q@ == p,
                    None => step is Stay,
                }
            },
            BrowserKey::Char('@') => {
                &&& step matches BrowserStep::Finish(BrowserResult::WorkspaceSet(p)) && p@ == old(state).cwd@
                &&& final(state).workspace matches Some(w) && w@ == old(state).cwd@
                &&& final(state).workspace_files is None
                &&& final(state).cwd == old(state).cwd
                &&& final(state).entries == old(state).entries
                &&& final(state).cursor == old(state).cursor
                &&& final(state).search_term == old(state).search_term
                &&& final(state).search_results == old(state).search_results
            },
            BrowserKey::Char('\'') => {
                &&& step matches BrowserStep::Finish(BrowserResult::WorkspaceCleared)
                &&& final(state).workspace is None
                &&& final(state).workspace_files is None
                &&& final(state).search_term@ == Seq::<char>::empty()
                &&& final(state).search_results is None
                &&& final(state).cursor == 0
                &&& final(state).cwd == old(state).cwd
                &&& final(state).entries == old(state).entries
            },
            BrowserKey::Char('z') | BrowserKey::Esc => if old(state).search_term@.len() > 0 {
                step is Stay && search_cleared(*old(state), *final(state))
            } else {
                step matches BrowserStep::Finish(BrowserResult::ReturnToPlayer) && *final(state) == *old(state)
            },
            BrowserKey::Char(c) => if c == 'q' && old(state).search_term@.len() == 0 {
                step matches BrowserStep::Finish(BrowserResult::Quit) && *final(state) == *old(state)
            } else if old(state).workspace is Some {
                &&& step is Search
                &&& final(state).search_term@ == old(state).search_term@.push(c)
                &&& final(state).cursor == 0
                &&& final(state).cwd == old(state).cwd
                &&& final(state).entries == old(state).entries
                &&& final(state).workspace == old(state).workspace
                &&& final(state).workspace_files == old(state).workspace_files
                &&& final(state).search_results == old(state).search_results
            } else {
                step is Stay && *final(state) == *old(state)
            },
            BrowserKey::Other => step is Stay && *final(state) == *old(state),
        },
{
    match key {
        BrowserKey::Up => {
            if state.search_results.is_some() {
                if state.cursor > 0 {
                    state.cursor = state.cursor - 1;
                }
            } else {
                state.move_up();
            }
            BrowserStep::Stay
        },
        BrowserKey::Down => {
            match &state.search_results {
                Some(results) => {
                    if state.cursor + 1 < results.len() {
                        state.cursor = state.cursor + 1;
                    }
                },
                None => {
                    state.move_down();
                },
            }
            BrowserStep::Stay
        },
        BrowserKey::Enter => {
            match &state.search_results {
                Some(results) => {
                    if state.cursor < results.len() {
                        return BrowserStep::Finish(BrowserResult::Selected(results[state.cursor].clone()));
                    }
                    return BrowserStep::Stay;
                },
                None => {},
            }
            if state.cursor < state.entries.len() {
                let e = &state.entries[state.cursor];
                match e.kind {
                    EntryKind::Dir => BrowserStep::Open(e.path.clone()),
                    EntryKind::Audio => BrowserStep::Finish(BrowserResult::Selected(e.path.clone())),
                    EntryKind::Other => BrowserStep::Stay,
                }
            } else {
                BrowserStep::Stay
            }
        },
        BrowserKey::Backspace | BrowserKey::Left => {
            let term = chars_of(state.search_term.as_str());
            if state.workspace.is_some() && term.len() > 0 {
                let mut shorter: Vec<char> = Vec::new();
                let mut i: usize = 0;
                let last = term.len() - 1;
                while i < last
                    invariant
                        last == term@.len() - 1,
                        i <= last,
                        shorter@ == term@.subrange(0, i as int),
                    decreases last - i,
                {
                    shorter.push(term[i]);
                    i += 1;
                }
                assert(shorter@ =~= term@.drop_last());
                state.search_term = string_from(&shorter);
                state.cursor = 0;
                if shorter.len() == 0 {
                    state.search_results = None;
                    BrowserStep::Stay
                } else {
                    BrowserStep::Search
                }
            } else {
                match path_parent(state.cwd.as_str()) {
                    Some(p) => BrowserStep::Open(p),
                    None => BrowserStep::Stay,
                }
            }
        },
        BrowserKey::Char('@') => {
            state.workspace = Some(state.cwd.clone());
            state.workspace_files = None;
            BrowserStep::Finish(BrowserResult::WorkspaceSet(state.cwd.clone()))
        },
        BrowserKey::Char('\'') => {
            state.workspace = None;
            state.workspace_files = None;
            clear_search(state);
            BrowserStep::Finish(BrowserResult::WorkspaceCleared)
        },
        BrowserKey::Char('z') | BrowserKey::Esc => {
            if chars_of(state.search_term.as_str()).len() > 0 {
                clear_search(state);
                BrowserStep::Stay
            } else {
                BrowserStep::Finish(BrowserResult::ReturnToPlayer)
            }
        },
        BrowserKey::Char(c) => {
            let empty = chars_of(state.search_term.as_str()).len() == 0;
            if c == 'q' && empty {
                BrowserStep::Finish(BrowserResult::Quit)
            } else if state.workspace.is_some() {
                crate::text::push_char(&mut state.search_term, c);
                state.cursor = 0;
                BrowserStep::Search
            } else {
                BrowserStep::Stay
            }
        },
        BrowserKey::Other => BrowserStep::Stay,
    }
}

impl BrowserState {
    /// Runs the search for the current term over the loaded workspace files and
    /// puts the cursor on the first result.
    pub fn refresh_search(&mut self)
        requires
            old(self).workspace is Some,
            old(self).workspace_files is Some,
        ensures
            final(self).cursor == 0,
            final(self).cwd == old(self).cwd,
            final(self).entries == old(self).entries,
            final(self).workspace == old(self).workspace,
            final(self).workspace_files == old(self).workspace_files,
            final(self).search_term == old(self).search_term,
            final(self).search_results matches Some(res) && exists|ord: Seq<usize>|
                #[trigger] is_sorted_order(
                    KeyView::ScoresDesc(
                        match_scores(
                            search_matches(
                                crate::text::string_views(old(self).workspace_files->0@),
                                old(self).search_term@,
                                old(self).workspace->0@,
                            ),
                        ),
                    ),
                    ord,
                ) && crate::text::string_views(res@) == ord.map_values(
                    |k: usize|
                        search_matches(
                            crate::text::string_views(old(self).workspace_files->0@),
                            old(self).search_term@,
                            old(self).workspace->0@,
                        )[k as int].0,
                ),
    {
        let results = match (&self.workspace, &self.workspace_files) {
            (Some(ws), Some(files)) => run_search(self.search_term.as_str(), files, ws.as_str()),
            _ => Vec::new(),
        };
        self.search_results = Some(results);
        self.cursor = 0;
    }
}

} // verus!

verus! {

/// How a listing line is labelled: directories get a trailing `/`.
pub open spec fn item_label(e: EntryView) -> Seq<char> {
    if e.kind == EntryKind::Dir {
        e.name.push('/')
    } else {
        e.name
    }
}

/// The labels of the browser's list: the search results shown below the
/// workspace while searching, the listing lines otherwise.
pub fn browser_labels(state: &BrowserState) -> (r: Vec<String>)
    requires
        state.search_results is Some ==> state.workspace is Some,
    ensures
        match &state.search_results {
            Some(res) => r@.len() == res@.len() && forall|i: int|
                0 <= i < res@.len() ==> (#[trigger] r@[i])@ == display_below_spec(
                    res@[i]@,
                    state.workspace->0@,
                ),
            None => r@.len() == state.entries@.len() && forall|i: int|
                0 <= i < state.entries@.len() ==> (#[trigger] r@[i])@ == item_label(state.entries@[i]@),
        },
{
    let mut r: Vec<String> = Vec::new();
    match (&state.search_results, &state.workspace) {
        (Some(res), Some(ws)) => {
            let mut i: usize = 0;
            while i < res.len()
                invariant
                    i <= res@.len(),
                    r@.len() == i,
                    forall|k: int| 0 <= k < i ==> (#[trigger] r@[k])@ == display_below_spec(res@[k]@, ws@),
                decreases res@.len() - i,
            {
                r.push(display_below(res[i].as_str(), ws.as_str()));
                i += 1;
            }
        },
        _ => {
            let mut i: usize = 0;
            while i < state.entries.len()
                invariant
                    i <= state.entries@.len(),
                    r@.len() == i,
                    forall|k: int| 0 <= k < i ==> (#[trigger] r@[k])@ == item_label(state.entries@[k]@),
                decreases state.entries@.len() - i,
            {
                let e = &state.entries[i];
                let mut label = chars_of(e.name.as_str());
                if e.kind == EntryKind::Dir {
                    label.push('/');
                }
                r.push(string_from(&label));
                i += 1;
            }
        },
    }
    r
}

} // verus!

verus! {

/// The cursor never comes to rest on a line it cannot select: a move down or
/// up from a selectable line (which either finds the next selectable line in
/// that direction or stays put) ends on a selectable line.
pub proof fn law_cursor_stays_selectable(es: Seq<EntryView>, from: int, to: int)
    requires
        0 <= from < es.len(),
        selectable(es[from].kind),
        next_selectable(es, from, to) || prev_selectable(es, from, to) || to == from,
    ensures
        0 <= to < es.len(),
        selectable(es[to].kind),
{
}

} // verus!
