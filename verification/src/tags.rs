use vstd::prelude::*;

use crate::paths::{
    extension, file_name, file_stem, lemma_last_dot_range, name_stem, path_file_name_str, path_file_stem,
};
use crate::text::{append_chars, chars_of, string_from};

verus! {

/// Characters that are illegal or ambiguous in file names on some platform.
pub open spec fn illegal_in_filename(c: char) -> bool {
    c == '/' || c == '\\' || c == ':' || c == '*' || c == '?' || c == '"' || c == '<' || c == '>'
        || c == '|'
}

/// `s` with every illegal file-name character replaced by `-`.
pub open spec fn sanitise_spec(s: Seq<char>) -> Seq<char> {
    s.map_values(|c: char| if illegal_in_filename(c) { '-' } else { c })
}

/// Replaces the characters that are illegal or ambiguous in file names with `-`.
/// `/` is the only hard barrier on Linux; the Windows-unsafe set is replaced
/// too so that proposed names are portable.
pub fn sanitise_for_filename(s: &str) -> (r: String)
    ensures
        r@ == sanitise_spec(s@),
{
    let cs = chars_of(s);
    let mut out: Vec<char> = Vec::new();
    let mut i: usize = 0;
    while i < cs.len()
        invariant
            i <= cs@.len(),
            cs@ == s@,
            out@ == sanitise_spec(s@).subrange(0, i as int),
        decreases cs@.len() - i,
    {
        let c = cs[i];
        let d = if c == '/' || c == '\\' || c == ':' || c == '*' || c == '?' || c == '"' || c
            == '<' || c == '>' || c == '|' {
            '-'
        } else {
            c
        };
        out.push(d);
        assert(out@ =~= sanitise_spec(s@).subrange(0, i + 1));
        i += 1;
    }
    assert(sanitise_spec(s@).subrange(0, cs@.len() as int) =~= sanitise_spec(s@));
    string_from(&out)
}

/// The standard tag keys the player reads.
#[derive(Debug, PartialEq, Eq, Clone, Copy, Structural)]
pub enum TagKey {
    Artist,
    TrackTitle,
    Album,
    Date,
    TrackNumber,
    Genre,
    Comment,
}

/// One metadata tag: its standard key, if it has one, and its value as text.
pub struct TagItem {
    pub key: Option<TagKey>,
    pub value: String,
}

/// The value of the first tag with key `key`.
pub open spec fn find_tag_spec(tags: Seq<TagItem>, key: TagKey) -> Option<Seq<char>>
    decreases tags.len(),
{
    if tags.len() == 0 {
        None
    } else if tags[0].key == Some(key) {
        Some(tags[0].value@)
    } else {
        find_tag_spec(tags.drop_first(), key)
    }
}

proof fn lemma_find_tag_step(tags: Seq<TagItem>, key: TagKey, i: int)
    requires
        0 <= i < tags.len(),
    ensures
        find_tag_spec(tags.skip(i), key) == if tags[i].key == Some(key) {
            Some(tags[i].value@)
        } else {
            find_tag_spec(tags.skip(i + 1), key)
        },
{
    assert(tags.skip(i).drop_first() =~= tags.skip(i + 1));
}

/// The value of the first tag with the given key.
pub fn find_tag(tags: &Vec<TagItem>, key: TagKey) -> (r: Option<String>)
    ensures
        match r {
            Some(v) => find_tag_spec(tags@, key) == Some(v@),
            None => find_tag_spec(tags@, key) is None,
        },
{
    let mut i: usize = 0;
    assert(tags@.skip(0) =~= tags@);
    while i < tags.len()
        invariant
            i <= tags@.len(),
            find_tag_spec(tags@, key) == find_tag_spec(tags@.skip(i as int), key),
        decreases tags@.len() - i,
    {
        proof {
            lemma_find_tag_step(tags@, key, i as int);
        }
        if tags[i].key == Some(key) {
            return Some(tags[i].value.clone());
        }
        i += 1;
    }
    assert(tags@.skip(i as int).len() == 0);
    None
}

/// Tags from the probe (ID3v2 for MP3) win over container-level tags when there are any.
pub fn choose_tags(from_probe: Option<Vec<TagItem>>, from_format: Vec<TagItem>) -> (r: Vec<TagItem>)
    ensures
        match from_probe {
            Some(p) => if p@.len() > 0 { r == p } else { r == from_format },
            None => r == from_format,
        },
{
    match from_probe {
        Some(p) => {
            if p.len() > 0 {
                p
            } else {
                from_format
            }
        },
        None => from_format,
    }
}

/// The keys of the tag editor's fields, in order.
pub open spec fn editor_keys() -> Seq<TagKey> {
    seq![
        TagKey::Artist,
        TagKey::TrackTitle,
        TagKey::Album,
        TagKey::Date,
        TagKey::TrackNumber,
        TagKey::Genre,
        TagKey::Comment,
    ]
}

/// The text of a field: the tag's value, or empty when absent.
pub open spec fn field_text(tags: Option<Seq<TagItem>>, key: TagKey) -> Seq<char> {
    match tags {
        Some(t) => match find_tag_spec(t, key) {
            Some(v) => v,
            None => Seq::empty(),
        },
        None => Seq::empty(),
    }
}

/// The seven tag-editor fields (artist, title, album, year, track, genre,
/// comment) for a file whose tags are `tags` (none when it could not be read).
pub fn editor_field_values(tags: Option<&Vec<TagItem>>) -> (r: Vec<String>)
    ensures
        r@.len() == 7,
        forall|i: int|
            0 <= i < 7 ==> (#[trigger] r@[i])@ == field_text(
                match tags {
                    Some(t) => Some(t@),
                    None => None,
                },
                editor_keys()[i],
            ),
{
    let ghost tv = match tags {
        Some(t) => Some(t@),
        None => None,
    };
    let keys: [TagKey; 7] = [
        TagKey::Artist,
        TagKey::TrackTitle,
        TagKey::Album,
        TagKey::Date,
        TagKey::TrackNumber,
        TagKey::Genre,
        TagKey::Comment,
    ];
    assert(keys@ =~= editor_keys());
    let mut r: Vec<String> = Vec::new();
    let mut i: usize = 0;
    while i < 7
        invariant
            i <= 7,
            keys@ == editor_keys(),
            r@.len() == i,
            tv == match tags {
                Some(t) => Some(t@),
                None => None,
            },
            forall|k: int| 0 <= k < i ==> (#[trigger] r@[k])@ == field_text(tv, editor_keys()[k]),
        decreases 7 - i,
    {
        let v = match tags {
            Some(t) => match find_tag(t, keys[i]) {
                Some(v) => v,
                None => String::new(),
            },
            None => String::new(),
        };
        r.push(v);
        i += 1;
    }
    r
}

/// The file name proposed for a track: `title - artist` (each made safe for
/// file names) when both tags are present, otherwise the current stem.
pub open spec fn rename_stem_spec(path: Seq<char>, tags: Option<Seq<TagItem>>) -> Seq<char> {
    let fallback = match file_stem(path) {
        Some(s) => s,
        None => Seq::empty(),
    };
    match tags {
        Some(t) => match (find_tag_spec(t, TagKey::Artist), find_tag_spec(t, TagKey::TrackTitle)) {
            (Some(a), Some(ti)) => sanitise_spec(ti) + seq![' ', '-', ' '] + sanitise_spec(a),
            _ => fallback,
        },
        None => fallback,
    }
}

/// Proposes a file stem for the track at `path` from its tags (none when the
/// file could not be read).
pub fn propose_rename_stem(path: &str, tags: Option<&Vec<TagItem>>) -> (r: String)
    ensures
        r@ == rename_stem_spec(
            path@,
            match tags {
                Some(t) => Some(t@),
                None => None,
            },
        ),
{
    let fallback = match path_file_stem(path) {
        Some(s) => s,
        None => String::new(),
    };
    match tags {
        Some(t) => {
            match (find_tag(t, TagKey::Artist), find_tag(t, TagKey::TrackTitle)) {
                (Some(a), Some(ti)) => {
                    let mut out = chars_of(sanitise_for_filename(ti.as_str()).as_str());
                    append_chars(&mut out, &[' ', '-', ' ']);
                    let sa = chars_of(sanitise_for_filename(a.as_str()).as_str());
                    append_chars(&mut out, &sa);
                    string_from(&out)
                },
                _ => fallback,
            }
        },
        None => fallback,
    }
}

/// A file with an extension (every audio file has one) is never proposed an
/// empty stem, whatever its tags.
pub proof fn law_proposed_stem_non_empty(path: Seq<char>, tags: Option<Seq<TagItem>>)
    requires
        extension(path) is Some,
    ensures
        rename_stem_spec(path, tags).len() > 0,
{
    let n = file_name(path).unwrap();
    lemma_last_dot_range(n);
    assert(name_stem(n).len() > 0);
}

/// The name shown for a track: `title – artist`, the title alone, or the file
/// name (the path itself when it has none).
pub open spec fn track_name_spec(path: Seq<char>, tags: Option<Seq<TagItem>>) -> Seq<char> {
    let fallback = match file_name(path) {
        Some(n) => n,
        None => path,
    };
    match tags {
        Some(t) => match (find_tag_spec(t, TagKey::Artist), find_tag_spec(t, TagKey::TrackTitle)) {
            (Some(a), Some(ti)) => ti + seq![' ', '\u{2013}', ' '] + a,
            (None, Some(ti)) => ti,
            _ => fallback,
        },
        None => fallback,
    }
}

/// The display name of the track at `path`, from its tags (none when unreadable).
pub fn read_track_name(path: &str, tags: Option<&Vec<TagItem>>) -> (r: String)
    ensures
        r@ == track_name_spec(
            path@,
            match tags {
                Some(t) => Some(t@),
                None => None,
            },
        ),
{
    let fallback = match path_file_name_str(path) {
        Some(n) => n,
        None => String::from_str(path),
    };
    match tags {
        Some(t) => {
            match (find_tag(t, TagKey::Artist), find_tag(t, TagKey::TrackTitle)) {
                (Some(a), Some(ti)) => {
                    let mut out = chars_of(ti.as_str());
                    append_chars(&mut out, &[' ', '\u{2013}', ' ']);
                    append_chars(&mut out, &chars_of(a.as_str()));
                    string_from(&out)
                },
                (None, Some(ti)) => ti,
                _ => fallback,
            }
        },
        None => fallback,
    }
}

/// A rename is offered when the file has a stem that differs from the proposed one.
pub fn rename_hint(stem: &str, proposed: String) -> (r: Option<String>)
    ensures
        match r {
            Some(p) => stem@.len() > 0 && stem@ != proposed@ && p@ == proposed@,
            None => stem@.len() == 0 || stem@ == proposed@,
        },
{
    if chars_of(stem).len() == 0 || crate::text::str_eq(stem, proposed.as_str()) {
        None
    } else {
        Some(proposed)
    }
}

/// The value of a decimal digit.
pub open spec fn digit_value(c: char) -> int {
    (c as int) - ('0' as int)
}

pub open spec fn is_digit(c: char) -> bool {
    '0' <= c && c <= '9'
}

/// The number written by a string of decimal digits.
pub open spec fn decimal(d: Seq<char>) -> int
    decreases d.len(),
{
    if d.len() == 0 {
        0
    } else {
        decimal(d.drop_last()) * 10 + digit_value(d.last())
    }
}

/// The text after an optional leading `+`.
pub open spec fn digits_part(s: Seq<char>) -> Seq<char> {
    if s.len() > 0 && s[0] == '+' {
        s.drop_first()
    } else {
        s
    }
}

/// `str::parse::<u32>`: an optional `+`, then at least one decimal digit and
/// nothing else, with a value that fits in 32 bits.
pub open spec fn parse_u32_spec(s: Seq<char>) -> Option<u32> {
    let d = digits_part(s);
    if d.len() == 0 || exists|i: int| 0 <= i < d.len() && !is_digit(#[trigger] d[i]) {
        None
    } else if decimal(d) > u32::MAX {
        None
    } else {
        Some(decimal(d) as u32)
    }
}

proof fn lemma_decimal_nonneg(d: Seq<char>)
    requires
        forall|i: int| 0 <= i < d.len() ==> is_digit(#[trigger] d[i]),
    ensures
        decimal(d) >= 0,
    decreases d.len(),
{
    if d.len() > 0 {
        lemma_decimal_nonneg(d.drop_last());
    }
}

proof fn lemma_decimal_prefix_bound(d: Seq<char>, i: int)
    requires
        0 <= i <= d.len(),
        forall|k: int| 0 <= k < d.len() ==> is_digit(#[trigger] d[k]),
    ensures
        decimal(d.subrange(0, i)) <= decimal(d),
    decreases d.len() - i,
{
    if i == d.len() {
        assert(d.subrange(0, i) =~= d);
    } else {
        lemma_decimal_prefix_bound(d, i + 1);
        assert(d.subrange(0, i + 1).drop_last() =~= d.subrange(0, i));
        assert(d.subrange(0, i + 1).last() == d[i]);
        let p = d.subrange(0, i);
        assert forall|k: int| 0 <= k < p.len() implies is_digit(#[trigger] p[k]) by {
            assert(p[k] == d[k]);
        }
        lemma_decimal_nonneg(p);
        assert(is_digit(d[i]));
        assert(digit_value(d[i]) >= 0);
        let x = decimal(p);
        assert(x * 10 >= x) by (nonlinear_arith)
            requires
                x >= 0,
        ;
    }
}

/// Parses a year or track number the way `str::parse::<u32>` does.
pub fn parse_u32(s: &str) -> (r: Option<u32>)
    ensures
        r == parse_u32_spec(s@),
{
    let cs = chars_of(s);
    let start: usize = if cs.len() > 0 && cs[0] == '+' { 1 } else { 0 };
    let ghost d = digits_part(s@);
    assert(d =~= cs@.subrange(start as int, cs@.len() as int));
    if start == cs.len() {
        return None;
    }
    // every character after the sign must be a digit
    let mut j: usize = start;
    while j < cs.len()
        invariant
            start <= j <= cs@.len(),
            cs@ == s@,
            d == cs@.subrange(start as int, cs@.len() as int),
            d == digits_part(s@),
            forall|k: int| 0 <= k < j - start ==> is_digit(#[trigger] d[k]),
        decreases cs@.len() - j,
    {
        let c = cs[j];
        assert(d[j - start] == c);
        if !('0' <= c && c <= '9') {
            assert(!is_digit(d[j - start]));
            assert(exists|k: int| 0 <= k < d.len() && !is_digit(#[trigger] d[k]));
            return None;
        }
        j += 1;
    }
    let mut i: usize = start;
    let mut acc: u64 = 0;
    assert(cs@.subrange(start as int, start as int) =~= Seq::<char>::empty());
    while i < cs.len()
        invariant
            start <= i <= cs@.len(),
            cs@ == s@,
            d == cs@.subrange(start as int, cs@.len() as int),
            d == digits_part(s@),
            forall|k: int| 0 <= k < d.len() ==> is_digit(#[trigger] d[k]),
            acc == decimal(d.subrange(0, i - start)),
            acc <= u32::MAX,
        decreases cs@.len() - i,
    {
        let c = cs[i];
        assert(d[i - start] == c);
        let v = (c as u64) - ('0' as u64);
        assert(d.subrange(0, i + 1 - start).drop_last() =~= d.subrange(0, i - start));
        let next = acc * 10 + v;
        assert(next == decimal(d.subrange(0, i + 1 - start)));
        if next > 0xFFFF_FFFF {
            proof {
                lemma_decimal_prefix_bound(d, i + 1 - start);
                assert(!(exists|k: int| 0 <= k < d.len() && !is_digit(#[trigger] d[k])));
                assert(decimal(d) > u32::MAX);
            }
            return None;
        }
        acc = next;
        i += 1;
    }
    assert(d.subrange(0, d.len() as int) =~= d);
    Some(acc as u32)
}

} // verus!

verus! {

/// What is written to a file's primary tag from the editor's fields.
pub struct TagWritePlan {
    pub artist: String,
    pub title: String,
    pub album: String,
    /// Written only when the year field parses as a number.
    pub year: Option<u32>,
    /// Written only when the track field parses as a number.
    pub track: Option<u32>,
    pub genre: String,
    pub comment: String,
}

/// The tag values to write for the seven editor fields
/// (artist, title, album, year, track, genre, comment).
pub fn tag_write_plan(fields: &Vec<(String, usize)>) -> (p: TagWritePlan)
    requires
        fields@.len() >= 7,
    ensures
        p.artist@ == fields@[0].0@,
        p.title@ == fields@[1].0@,
        p.album@ == fields@[2].0@,
        p.year == parse_u32_spec(fields@[3].0@),
        p.track == parse_u32_spec(fields@[4].0@),
        p.genre@ == fields@[5].0@,
        p.comment@ == fields@[6].0@,
{
    TagWritePlan {
        artist: fields[0].0.clone(),
        title: fields[1].0.clone(),
        album: fields[2].0.clone(),
        year: parse_u32(fields[3].0.as_str()),
        track: parse_u32(fields[4].0.as_str()),
        genre: fields[5].0.clone(),
        comment: fields[6].0.clone(),
    }
}

} // verus!
