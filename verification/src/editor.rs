use vstd::prelude::*;

use crate::paths::{extension, file_name, file_stem, parent_spec, path_join, join_path, path_extension_str, path_file_name_str, path_file_stem, path_parent};
use crate::text::{append_chars, chars_of, copy_chars, string_from, trim, trim_chars};

verus! {

/// Number of fields in the tag editor (artist, title, album, year, track, genre, comment).
pub const FIELD_COUNT: usize = 7;

/// The tag editor and rename dialog: one `(text, cursor)` pair per field.
pub struct TagEditorState {
    pub fields: Vec<(String, usize)>,
    pub active_field: usize,
    pub current_stem: String,
    pub extension: String,
    pub collision_error: Option<String>,
}

/// The stem proposed from an artist and a title: `title - artist`, both trimmed.
pub open spec fn preview_spec(artist: Seq<char>, title: Seq<char>) -> Seq<char> {
    trim(title) + seq![' ', '-', ' '] + trim(artist)
}

/// `stem`, with `.ext` appended when there is an extension.
pub open spec fn with_extension(stem: Seq<char>, ext: Seq<char>) -> Seq<char> {
    if ext.len() == 0 {
        stem
    } else {
        stem + seq!['.'] + ext
    }
}

/// The keys the tag editor reacts to.
#[derive(Debug, PartialEq, Eq, Clone, Copy, Structural)]
pub enum EditorKey {
    Esc,
    Enter,
    Tab,
    BackTab,
    Up,
    Down,
    Left,
    Right,
    Home,
    End,
    Backspace,
    Delete,
    Char(char),
    Other,
}

/// What the caller must do after a key press in the editor.
pub enum EditorOutcome {
    /// Keep the editor open.
    Keep,
    /// Close the editor without saving.
    Close,
    /// Save the tags and, when `needs_rename`, rename the file to `file_name`
    /// (in the same directory) unless that name is taken.
    Commit { new_stem: String, needs_rename: bool, file_name: String },
}

impl TagEditorState {
    /// Field texts and cursors are consistent: seven fields, the active one
    /// exists, and every cursor lies within its text.
    pub open spec fn wf(&self) -> bool {
        &&& self.fields@.len() == FIELD_COUNT
        &&& self.active_field < FIELD_COUNT
        &&& forall|i: int| 0 <= i < self.fields@.len() ==> #[trigger] self.fields@[i].1 <= self.fields@[i].0@.len()
    }

    /// The editor for the file at `path`, its fields filled with `values`.
    pub fn open(path: &str, values: Vec<String>) -> (s: Self)
        requires
            values@.len() == FIELD_COUNT,
        ensures
            s.wf(),
            forall|i: int| 0 <= i < FIELD_COUNT ==> #[trigger] s.fields@[i].0@ == values@[i]@ && s.fields@[i].1 == 0,
            s.active_field == 0,
            s.current_stem@ == match file_stem(path@) { Some(t) => t, None => Seq::empty() },
            s.extension@ == match extension(path@) { Some(t) => t, None => Seq::empty() },
            s.collision_error is None,
    {
        let mut fields: Vec<(String, usize)> = Vec::new();
        let mut i: usize = 0;
        while i < values.len()
            invariant
                i <= values@.len(),
                fields@.len() == i,
                forall|k: int| 0 <= k < i ==> #[trigger] fields@[k].0@ == values@[k]@ && fields@[k].1 == 0,
            decreases values@.len() - i,
        {
            fields.push((values[i].clone(), 0));
            i += 1;
        }
        let current_stem = match path_file_stem(path) {
            Some(t) => t,
            None => String::new(),
        };
        let extension = match path_extension_str(path) {
            Some(t) => t,
            None => String::new(),
        };
        TagEditorState { fields, active_field: 0, current_stem, extension, collision_error: None }
    }

    /// The text and cursor of the field being edited.
    pub fn active_field_mut(&mut self) -> (r: (&mut String, &mut usize))
        requires
            old(self).active_field < old(self).fields@.len(),
        ensures
            *r.0 == old(self).fields@[old(self).active_field as int].0,
            *r.1 == old(self).fields@[old(self).active_field as int].1,
            final(self).fields@ == old(self).fields@.update(
                old(self).active_field as int,
                (*final(r.0), *final(r.1)),
            ),
            final(self).active_field == old(self).active_field,
            final(self).current_stem == old(self).current_stem,
            final(self).extension == old(self).extension,
            final(self).collision_error == old(self).collision_error,
    {
        let af = self.active_field;
        let pair = &mut self.fields[af];
        (&mut pair.0, &mut pair.1)
    }

    /// The proposed file stem: `title - artist`, both trimmed.
    pub fn preview(&self) -> (r: String)
        requires
            self.fields@.len() >= 2,
        ensures
            r@ == preview_spec(self.fields@[0].0@, self.fields@[1].0@),
    {
        let a = trim_chars(&chars_of(self.fields[0].0.as_str()));
        let mut out = trim_chars(&chars_of(self.fields[1].0.as_str()));
        append_chars(&mut out, &[' ', '-', ' ']);
        append_chars(&mut out, &a);
        string_from(&out)
    }
}

} // verus!

verus! {

/// The fields after a confirmed edit: every text trimmed, every cursor kept within it.
pub open spec fn trimmed_fields(f: Seq<(String, usize)>, g: Seq<(String, usize)>) -> bool {
    &&& g.len() == f.len()
    &&& forall|i: int|
        0 <= i < f.len() ==> (#[trigger] g[i]).0@ == trim(f[i].0@) && g[i].1 == if f[i].1 <= trim(
            f[i].0@,
        ).len() {
            f[i].1 as int
        } else {
            trim(f[i].0@).len() as int
        }
}

/// Everything but the fields and the active field is unchanged.
pub open spec fn same_frame(a: TagEditorState, b: TagEditorState) -> bool {
    &&& a.current_stem == b.current_stem
    &&& a.extension == b.extension
    &&& a.collision_error == b.collision_error
}

/// Only the active field's text and cursor change, to `text` and `cursor`.
pub open spec fn edited(a: TagEditorState, b: TagEditorState, text: Seq<char>, cursor: int) -> bool {
    &&& same_frame(a, b)
    &&& b.active_field == a.active_field
    &&& b.fields@.len() == a.fields@.len()
    &&& b.fields@[a.active_field as int].0@ == text
    &&& b.fields@[a.active_field as int].1 == cursor
    &&& forall|i: int| 0 <= i < a.fields@.len() && i != a.active_field ==> #[trigger] b.fields@[i] == a.fields@[i]
}

/// Replaces the active field's text and cursor.
fn set_active(ed: &mut TagEditorState, text: &Vec<char>, cursor: usize)
    requires
        old(ed).active_field < old(ed).fields@.len(),
    ensures
        edited(*old(ed), *final(ed), text@, cursor as int),
{
    let (t, c) = ed.active_field_mut();
    *t = string_from(text);
    *c = cursor;
}

/// Reacts to a key press in the tag editor.
pub fn editor_key(ed: &mut TagEditorState, key: EditorKey) -> (out: EditorOutcome)
    requires
        old(ed).wf(),
    ensures
        final(ed).wf(),
        ({
            let a = *old(ed);
            let b = *final(ed);
            let af = a.active_field as int;
            let text = a.fields@[af].0@;
            let cur = a.fields@[af].1 as int;
            match key {
                EditorKey::Esc => out is Close && b == a,
                EditorKey::Tab | EditorKey::Down => out is Keep && same_frame(a, b) && b.fields == a.fields
                    && b.active_field == (a.active_field + 1) % (FIELD_COUNT as int),
                EditorKey::BackTab | EditorKey::Up => out is Keep && same_frame(a, b) && b.fields == a.fields
                    && b.active_field == (a.active_field + FIELD_COUNT - 1) % (FIELD_COUNT as int),
                EditorKey::Left => out is Keep && edited(a, b, text, if cur > 0 { cur - 1 } else { cur }),
                EditorKey::Right => out is Keep && edited(a, b, text, if cur < text.len() { cur + 1 } else { cur }),
                EditorKey::Home => out is Keep && edited(a, b, text, 0),
                EditorKey::End => out is Keep && edited(a, b, text, text.len() as int),
                EditorKey::Backspace => out is Keep && if cur > 0 {
                    edited(a, b, text.remove(cur - 1), cur - 1)
                } else {
                    b == a
                },
                EditorKey::Delete => out is Keep && if cur < text.len() {
                    edited(a, b, text.remove(cur), cur)
                } else {
                    b == a
                },
                EditorKey::Char(c) => out is Keep && edited(a, b, text.insert(cur, c), cur + 1),
                EditorKey::Enter => if trim(a.fields@[0].0@).len() == 0 || trim(a.fields@[1].0@).len() == 0 {
                    out is Keep && b == a
                } else {
                    let stem = preview_spec(a.fields@[0].0@, a.fields@[1].0@);
                    &&& trimmed_fields(a.fields@, b.fields@)
                    &&& b.active_field == a.active_field
                    &&& same_frame(a, b)
                    &&& out matches EditorOutcome::Commit { new_stem, needs_rename, file_name }
                    &&& new_stem@ == stem
                    &&& needs_rename == (stem != a.current_stem@)
                    &&& file_name@ == with_extension(stem, a.extension@)
                },
                EditorKey::Other => out is Keep && b == a,
            }
        }),
{
    let af = ed.active_field;
    let text = chars_of(ed.fields[af].0.as_str());
    let cur = ed.fields[af].1;
    let ghost a = *ed;
    match key {
        EditorKey::Esc => EditorOutcome::Close,
        EditorKey::Tab | EditorKey::Down => {
            ed.active_field = (ed.active_field + 1) % FIELD_COUNT;
            EditorOutcome::Keep
        },
        EditorKey::BackTab | EditorKey::Up => {
            ed.active_field = (ed.active_field + FIELD_COUNT - 1) % FIELD_COUNT;
            EditorOutcome::Keep
        },
        EditorKey::Left => {
            let c = if cur > 0 { cur - 1 } else { cur };
            set_active(ed, &text, c);
            EditorOutcome::Keep
        },
        EditorKey::Right => {
            let c = if cur < text.len() { cur + 1 } else { cur };
            set_active(ed, &text, c);
            EditorOutcome::Keep
        },
        EditorKey::Home => {
            set_active(ed, &text, 0);
            EditorOutcome::Keep
        },
        EditorKey::End => {
            set_active(ed, &text, text.len());
            EditorOutcome::Keep
        },
        EditorKey::Backspace => {
            if cur > 0 {
                let mut t = text;
                t.remove(cur - 1);
                set_active(ed, &t, cur - 1);
            }
            EditorOutcome::Keep
        },
        EditorKey::Delete => {
            if cur < text.len() {
                let mut t = text;
                t.remove(cur);
                set_active(ed, &t, cur);
            }
            EditorOutcome::Keep
        },
        EditorKey::Char(c) => {
            let mut t = text;
            t.insert(cur, c);
            let n = t.len();
            assert(cur < n);
            set_active(ed, &t, cur + 1);
            EditorOutcome::Keep
        },
        EditorKey::Enter => {
            let artist = trim_chars(&chars_of(ed.fields[0].0.as_str()));
            let title = trim_chars(&chars_of(ed.fields[1].0.as_str()));
            if artist.len() == 0 || title.len() == 0 {
                return EditorOutcome::Keep;
            }
            let stem = ed.preview();
            let mut fields: Vec<(String, usize)> = Vec::new();
            let mut i: usize = 0;
            while i < ed.fields.len()
                invariant
                    i <= ed.fields@.len(),
                    fields@.len() == i,
                    *ed == a,
                    forall|k: int| 0 <= k < i ==> (#[trigger] fields@[k]).0@ == trim(a.fields@[k].0@)
                        && fields@[k].1 == if a.fields@[k].1 <= trim(a.fields@[k].0@).len() {
                        a.fields@[k].1 as int
                    } else {
                        trim(a.fields@[k].0@).len() as int
                    },
                decreases ed.fields@.len() - i,
            {
                let t = trim_chars(&chars_of(ed.fields[i].0.as_str()));
                let c = if ed.fields[i].1 <= t.len() { ed.fields[i].1 } else { t.len() };
                fields.push((string_from(&t), c));
                i += 1;
            }
            ed.fields = fields;
            let needs_rename = !crate::text::str_eq(stem.as_str(), ed.current_stem.as_str());
            let mut name = chars_of(stem.as_str());
            let ext = chars_of(ed.extension.as_str());
            if ext.len() > 0 {
                name.push('.');
                append_chars(&mut name, &ext);
            }
            EditorOutcome::Commit { new_stem: stem, needs_rename, file_name: string_from(&name) }
        },
        EditorKey::Other => EditorOutcome::Keep,
    }
}

/// The path a renamed file gets: `name` in the directory of `path`
/// (the current directory when `path` has no parent).
pub open spec fn rename_target_spec(path: Seq<char>, name: Seq<char>) -> Seq<char> {
    let dir = match parent_spec(path) {
        Some(p) => p,
        None => seq!['.'],
    };
    path_join(dir, name)
}

/// The path a file at `path` is renamed to when it gets the name `name`.
pub fn rename_target(path: &str, name: &str) -> (r: String)
    ensures
        r@ == rename_target_spec(path@, name@),
{
    let dir: Vec<char> = match path_parent(path) {
        Some(p) => chars_of(p.as_str()),
        None => vec!['.'],
    };
    proof {
        match parent_spec(path@) {
            Some(p) => {},
            None => {
                assert(dir@ =~= seq!['.']);
            },
        }
    }
    string_from(&join_path(&dir, &chars_of(name)))
}

/// The message shown when the rename target already exists.
pub open spec fn collision_message_spec(target: Seq<char>) -> Seq<char> {
    seq!['a', 'l', 'r', 'e', 'a', 'd', 'y', ' ', 'e', 'x', 'i', 's', 't', 's', ':', ' '] + match file_name(target) {
        Some(n) => n,
        None => Seq::empty(),
    }
}

/// The message shown when the rename target already exists.
pub fn collision_message(target: &str) -> (r: String)
    ensures
        r@ == collision_message_spec(target@),
{
    let mut out: Vec<char> = vec!['a', 'l', 'r', 'e', 'a', 'd', 'y', ' ', 'e', 'x', 'i', 's', 't', 's', ':', ' '];
    let ghost head = out@;
    assert(head =~= seq!['a', 'l', 'r', 'e', 'a', 'd', 'y', ' ', 'e', 'x', 'i', 's', 't', 's', ':', ' ']);
    match path_file_name_str(target) {
        Some(n) => append_chars(&mut out, &chars_of(n.as_str())),
        None => {},
    }
    string_from(&out)
}

/// The track name after the tags were saved: `title – artist`.
pub fn committed_track_name(fields: &Vec<(String, usize)>) -> (r: String)
    requires
        fields@.len() >= 2,
    ensures
        r@ == fields@[1].0@ + seq![' ', '\u{2013}', ' '] + fields@[0].0@,
{
    let mut out = chars_of(fields[1].0.as_str());
    append_chars(&mut out, &[' ', '\u{2013}', ' ']);
    append_chars(&mut out, &chars_of(fields[0].0.as_str()));
    string_from(&out)
}

} // verus!

verus! {

proof fn lemma_sanitised_no_slash(s: Seq<char>)
    ensures
        crate::paths::no_slash(crate::tags::sanitise_spec(s)),
{
    let t = crate::tags::sanitise_spec(s);
    assert forall|i: int| 0 <= i < t.len() implies t[i] != '/' by {
        assert(t[i] == (if crate::tags::illegal_in_filename(s[i]) { '-' } else { s[i] }));
    }
}

/// Renaming a file to the name proposed for it (`propose_rename_stem`, then
/// the same extension, in the same directory) is a fixed point: the renamed
/// file's stem is the proposed stem, and the proposal for the renamed file,
/// whose tags are the same (the file is only renamed), is that stem again, so
/// a second pass proposes no change. This holds for every file with a
/// (non-empty) extension, which the new name keeps.
pub proof fn law_rename_to_proposal_is_fixed_point(path: Seq<char>, tags: Option<Seq<crate::tags::TagItem>>, ext: Seq<char>)
    requires
        extension(path) == Some(ext),
        ext.len() > 0,
    ensures
        ({
            let stem = crate::tags::rename_stem_spec(path, tags);
            let target = rename_target_spec(path, with_extension(stem, ext));
            &&& file_stem(target) == Some(stem)
            &&& crate::tags::rename_stem_spec(target, tags) == stem
        }),
{
    let fname = file_name(path)->0;
    crate::paths::lemma_file_name_no_slash(path);
    crate::paths::lemma_extension_no_dot(fname);
    crate::paths::lemma_last_dot_range(fname);
    let k = crate::paths::last_dot(fname);
    let dir = match parent_spec(path) {
        Some(p) => p,
        None => seq!['.'],
    };
    assert(crate::paths::no_slash(ext)) by {
        assert forall|i: int| 0 <= i < ext.len() implies ext[i] != '/' by {
            assert(ext[i] == fname[k + 1 + i]);
        }
    }
    let stem = crate::tags::rename_stem_spec(path, tags);
    let name = stem + seq!['.'] + ext;
    assert(with_extension(stem, ext) == name);
    let both = match tags {
        Some(t) => crate::tags::find_tag_spec(t, crate::tags::TagKey::Artist) is Some
            && crate::tags::find_tag_spec(t, crate::tags::TagKey::TrackTitle) is Some,
        None => false,
    };
    if both {
        let t = tags->0;
        let a = crate::tags::find_tag_spec(t, crate::tags::TagKey::Artist)->0;
        let ti = crate::tags::find_tag_spec(t, crate::tags::TagKey::TrackTitle)->0;
        lemma_sanitised_no_slash(a);
        lemma_sanitised_no_slash(ti);
        let sa = crate::tags::sanitise_spec(a);
        let st = crate::tags::sanitise_spec(ti);
        assert(stem == st + seq![' ', '-', ' '] + sa);
        assert(crate::paths::no_slash(name)) by {
            assert forall|i: int| 0 <= i < name.len() implies name[i] != '/' by {
                if i < st.len() {
                    assert(name[i] == st[i]);
                } else if i < st.len() + 3 {
                } else if i < stem.len() {
                    assert(name[i] == sa[i - st.len() - 3]);
                } else if i == stem.len() {
                } else {
                    assert(name[i] == ext[i - stem.len() - 1]);
                }
            }
        }
        assert(name.len() >= 5);
        crate::paths::lemma_file_name_of_join(dir, name);
        crate::paths::lemma_stem_of_dotted(stem, ext);
    } else {
        assert(stem == crate::paths::name_stem(fname));
        assert(k > 0);
        assert(stem == fname.subrange(0, k));
        assert(ext == fname.subrange(k + 1, fname.len() as int));
        assert(name =~= fname);
        assert(fname != seq!['.'] && fname != seq!['.', '.']);
        crate::paths::lemma_file_name_of_join(dir, name);
    }
}

} // verus!
