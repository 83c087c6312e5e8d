use vstd::prelude::*;
use crate::text::{chars_of, copy_chars};

verus! {

/// Widest the tag editor popup gets.
pub const TAG_EDITOR_MAX_WIDTH: u16 = 64;
/// Narrowest the tag editor popup gets (borders, label and ~25 characters).
pub const TAG_EDITOR_MIN_WIDTH: u16 = 36;
/// Width of the label column of an editor field, `"Comment: "`.
pub const FIELD_LABEL_WIDTH: usize = 9;

/// How many screen rows a field of `len` characters wraps to at `w` per row
/// (an empty field still takes one).
pub open spec fn field_row_count(len: int, w: int) -> int {
    if len == 0 {
        1
    } else {
        (len + w - 1) / w
    }
}

/// The characters of wrapped row `i`.
pub open spec fn field_row_chars(t: Seq<char>, w: int, i: int) -> Seq<char> {
    let end = if (i + 1) * w < t.len() { (i + 1) * w } else { t.len() as int };
    t.subrange(i * w, end)
}

/// Where the cursor shows in wrapped row `i`, if there: at its character, or
/// just past the text at the end of the last row.
pub open spec fn field_row_cursor(t: Seq<char>, w: int, i: int, active: bool, cursor: int) -> Option<int> {
    let c = if cursor < t.len() { cursor } else { t.len() as int };
    let start = i * w;
    let row_len = field_row_chars(t, w, i).len();
    let is_last = i == field_row_count(t.len() as int, w) - 1;
    if active && ((start <= c < start + row_len) || (is_last && c == t.len())) {
        Some(c - start)
    } else {
        None
    }
}

/// One screen row of a tag editor field.
pub struct FieldRow {
    /// `"<label>: "` on the first row, blanks under it after.
    pub prefix: Vec<char>,
    pub text: Vec<char>,
    /// The cursor's position in this row, if it is here (the row's length
    /// means a block after the text).
    pub cursor: Option<usize>,
}

/// Lays out an editor field: its text wrapped at `text_width` characters per
/// row, the label before the first row, and the cursor (clamped to the text)
/// in the row that holds it when the field is active.
pub fn editor_field_rows(label: &str, text: &str, active: bool, cursor: usize, text_width: usize) -> (r: Vec<FieldRow>)
    requires
        text_width > 0,
    ensures
        r@.len() == field_row_count(text@.len() as int, text_width as int),
        forall|i: int|
            0 <= i < r@.len() ==> {
                &&& (#[trigger] r@[i]).text@ == field_row_chars(text@, text_width as int, i)
                &&& r@[i].prefix@ == if i == 0 {
                    label@ + seq![':', ' ']
                } else {
                    Seq::new(FIELD_LABEL_WIDTH as nat, |k: int| ' ')
                }
                &&& match r@[i].cursor {
                    Some(k) => field_row_cursor(text@, text_width as int, i, active, cursor as int)
                        == Some(k as int),
                    None => field_row_cursor(text@, text_width as int, i, active, cursor as int) is None,
                }
            },
{
    let t = chars_of(text);
    let len = t.len();
    let w = text_width;
    let c: usize = if cursor < len { cursor } else { len };
    let mut first_prefix = chars_of(label);
    first_prefix.push(':');
    first_prefix.push(' ');
    assert(first_prefix@ =~= label@ + seq![':', ' ']);
    let mut blank: Vec<char> = Vec::new();
    let mut k: usize = 0;
    while k < FIELD_LABEL_WIDTH
        invariant
            k <= FIELD_LABEL_WIDTH,
            blank@ == Seq::new(k as nat, |j: int| ' '),
        decreases FIELD_LABEL_WIDTH - k,
    {
        blank.push(' ');
        k += 1;
        assert(blank@ =~= Seq::new(k as nat, |j: int| ' '));
    }
    let ghost n_rows = field_row_count(len as int, w as int);
    assert(n_rows >= 1) by (nonlinear_arith)
        requires
            n_rows == field_row_count(len as int, w as int),
            w > 0,
    ;
    let mut rows: Vec<FieldRow> = Vec::new();
    let mut i: usize = 0;
    let mut start: usize = 0;
    loop
        invariant_except_break
            t@ == text@,
            len == t@.len(),
            w == text_width,
            w > 0,
            c == if cursor < len { cursor as int } else { len as int },
            first_prefix@ == label@ + seq![':', ' '],
            blank@ == Seq::new(FIELD_LABEL_WIDTH as nat, |j: int| ' '),
            start == i * w,
            i <= start,
            rows@.len() == i,
            start < len || (len == 0 && i == 0),
            i < n_rows,
            n_rows == field_row_count(len as int, w as int),
            forall|j: int|
                0 <= j < i ==> {
                    &&& (#[trigger] rows@[j]).text@ == field_row_chars(text@, w as int, j)
                    &&& rows@[j].prefix@ == if j == 0 {
                        label@ + seq![':', ' ']
                    } else {
                        Seq::new(FIELD_LABEL_WIDTH as nat, |k: int| ' ')
                    }
                    &&& match rows@[j].cursor {
                        Some(k) => field_row_cursor(text@, w as int, j, active, cursor as int) == Some(
                            k as int,
                        ),
                        None => field_row_cursor(text@, w as int, j, active, cursor as int) is None,
                    }
                },
        ensures
            rows@.len() == n_rows,
            forall|j: int|
                0 <= j < n_rows ==> {
                    &&& (#[trigger] rows@[j]).text@ == field_row_chars(text@, w as int, j)
                    &&& rows@[j].prefix@ == if j == 0 {
                        label@ + seq![':', ' ']
                    } else {
                        Seq::new(FIELD_LABEL_WIDTH as nat, |k: int| ' ')
                    }
                    &&& match rows@[j].cursor {
                        Some(k) => field_row_cursor(text@, w as int, j, active, cursor as int) == Some(
                            k as int,
                        ),
                        None => field_row_cursor(text@, w as int, j, active, cursor as int) is None,
                    }
                },
        decreases len - start,
    {
        let end: usize = if len - start > w { start + w } else { len };
        proof {
            assert((i + 1) * w == i * w + w) by (nonlinear_arith);
        }
        let mut row_text: Vec<char> = Vec::new();
        let mut p: usize = start;
        while p < end
            invariant
                start <= p <= end,
                end <= t@.len(),
                row_text@ == t@.subrange(start as int, p as int),
            decreases end - p,
        {
            row_text.push(t[p]);
            p += 1;
        }
        let row_len = end - start;
        let is_last = end == len;
        proof {
            if len == 0 {
                assert(is_last && i == 0);
            } else if is_last {
                vstd::arithmetic::div_mod::lemma_fundamental_div_mod_converse(
                    len + w - 1,
                    w as int,
                    i + 1,
                    len + w - 1 - (i + 1) * w,
                );
            } else {
                assert(len >= (i + 1) * w + 1);
                assert((len + w - 1) / (w as int) >= i + 2) by (nonlinear_arith)
                    requires
                        len >= (i + 1) * w + 1,
                        w > 0,
                ;
            }
        }
        let here = active && ((c >= start && c < start + row_len) || (is_last && c == len));
        let cur: Option<usize> = if here { Some(c - start) } else { None };
        let prefix = if i == 0 { copy_chars(&first_prefix) } else { copy_chars(&blank) };
        rows.push(FieldRow { prefix, text: row_text, cursor: cur });
        if is_last {
            break;
        }
        proof {
            assert(i + 1 <= (i + 1) * w) by (nonlinear_arith)
                requires
                    w >= 1,
            ;
        }
        i += 1;
        start = end;
    }
    rows
}

/// The tag editor popup for a screen of `full_width` × `full_height` showing
/// `n_lines` lines: its width (the screen's, kept within 36..=64), its height
/// (the lines plus borders, at most the screen's), the width left for field
/// text, and the width inside the borders.
pub fn editor_popup_size(full_width: u16, full_height: u16, n_lines: usize) -> (r: (u16, u16, usize, usize))
    requires
        n_lines + 2 <= u16::MAX,
    ensures
        ({
            let w = if full_width < TAG_EDITOR_MIN_WIDTH {
                TAG_EDITOR_MIN_WIDTH
            } else if full_width > TAG_EDITOR_MAX_WIDTH {
                TAG_EDITOR_MAX_WIDTH
            } else {
                full_width
            };
            &&& r.0 == w
            &&& r.1 == if n_lines + 2 < full_height { n_lines + 2 } else { full_height as int }
            &&& r.2 == w - 2 - FIELD_LABEL_WIDTH
            &&& r.3 == w - 2
        }),
{
    let w: u16 = if full_width < TAG_EDITOR_MIN_WIDTH {
        TAG_EDITOR_MIN_WIDTH
    } else if full_width > TAG_EDITOR_MAX_WIDTH {
        TAG_EDITOR_MAX_WIDTH
    } else {
        full_width
    };
    let want: u16 = n_lines as u16 + 2;
    let h: u16 = if want < full_height { want } else { full_height };
    (w, h, w as usize - 2 - FIELD_LABEL_WIDTH, w as usize - 2)
}

/// How a cache indicator is drawn.
#[derive(Clone, Copy, Debug, PartialEq, Eq, Structural)]
pub enum Indicator {
    Lit,
    Dim,
    Dark,
}

/// An indicator for something known: lit, dimmed in vinyl mode; dark when
/// not known.
pub fn indicator(active: bool, vinyl_mode: bool) -> (r: Indicator)
    ensures
        r == if !active {
            Indicator::Dark
        } else if vinyl_mode {
            Indicator::Dim
        } else {
            Indicator::Lit
        },
{
    if !active {
        Indicator::Dark
    } else if vinyl_mode {
        Indicator::Dim
    } else {
        Indicator::Lit
    }
}

/// The three cache indicators, `[BPM]`, `[Tick]` and `[Cue]`: the beat grid
/// counts as known when its offset is, or a cue is set.
pub fn cache_indicators(bpm_known: bool, offset_known: bool, cue_set: bool, vinyl_mode: bool) -> (r: (
    Indicator,
    Indicator,
    Indicator,
))
    ensures
        r.0 == if !bpm_known { Indicator::Dark } else if vinyl_mode { Indicator::Dim } else { Indicator::Lit },
        r.1 == if !(offset_known || cue_set) {
            Indicator::Dark
        } else if vinyl_mode {
            Indicator::Dim
        } else {
            Indicator::Lit
        },
        r.2 == if !cue_set { Indicator::Dark } else if vinyl_mode { Indicator::Dim } else { Indicator::Lit },
{
    (indicator(bpm_known, vinyl_mode), indicator(offset_known || cue_set, vinyl_mode), indicator(cue_set, vinyl_mode))
}

/// Width of the indicators, `"[BPM][Tick][Cue]"`.
pub const INDICATORS_WIDTH: usize = 16;

/// What a deck's notification line shows.
#[derive(Clone, Copy, Debug, PartialEq, Eq, Structural)]
pub enum Notice {
    /// A detected BPM waiting for confirmation, with the seconds left (drawn
    /// urgent from 5 down).
    BpmPrompt { secs_left: u64, urgent: bool },
    /// The deck's current message.
    Message,
    /// The track name, the rename offer (with a countdown for its first 10
    /// seconds) and the indicators, `spacer` blanks between.
    RenameOffer { countdown: Option<u64>, spacer: usize },
    /// The track name and the indicators, `spacer` blanks between.
    TrackName { spacer: usize },
}

/// Blanks between a left part and a right part on a line: what the width
/// leaves, at least one.
pub open spec fn spacer_width(width: int, left: int, right: int) -> int {
    if width - (left + right) > 1 {
        width - (left + right)
    } else {
        1
    }
}

/// Characters of the rename offer: `"rename? [y]  (<n>s)"` while counting
/// down, `"rename? [y]"` after.
pub open spec fn offer_width(secs_left: Option<u64>) -> int {
    match secs_left {
        Some(s) => 16 + if s >= 10 { 2int } else { 1int },
        None => 11,
    }
}

/// Chooses a deck's notification line: a pending BPM prompt (15 s to answer)
/// comes first, then a message, then the rename offer (counting down from
/// 10 s), then the plain track name.
pub fn notice_for(
    bpm_prompt_elapsed: Option<u64>,
    has_message: bool,
    offer_active: bool,
    offer_elapsed: u64,
    name_chars: usize,
    content_width: usize,
) -> (r: Notice)
    requires
        name_chars + 64 <= usize::MAX,
    ensures
        r == match bpm_prompt_elapsed {
            Some(e) => {
                let left = if e < 15 { 15 - e } else { 0 };
                Notice::BpmPrompt { secs_left: left as u64, urgent: left <= 5 }
            },
            None => if has_message {
                Notice::Message
            } else if offer_active {
                let secs = if offer_elapsed < 10 { Some((10 - offer_elapsed) as u64) } else { None::<u64> };
                Notice::RenameOffer {
                    countdown: secs,
                    spacer: spacer_width(
                        content_width as int,
                        name_chars as int,
                        offer_width(secs) + 1 + INDICATORS_WIDTH,
                    ) as usize,
                }
            } else {
                Notice::TrackName {
                    spacer: spacer_width(content_width as int, name_chars as int, INDICATORS_WIDTH as int) as usize,
                }
            },
        },
{
    match bpm_prompt_elapsed {
        Some(e) => {
            let left: u64 = if e < 15 { 15 - e } else { 0 };
            Notice::BpmPrompt { secs_left: left, urgent: left <= 5 }
        },
        None => {
            if has_message {
                Notice::Message
            } else if offer_active {
                let secs: Option<u64> = if offer_elapsed < 10 { Some(10 - offer_elapsed) } else { None };
                let offer_w: usize = match secs {
                    Some(s) => if s >= 10 { 18 } else { 17 },
                    None => 11,
                };
                let used = name_chars + offer_w + 1 + INDICATORS_WIDTH;
                let spacer = if content_width > used && content_width - used > 1 { content_width - used } else { 1 };
                Notice::RenameOffer { countdown: secs, spacer }
            } else {
                let used = name_chars + INDICATORS_WIDTH;
                let spacer = if content_width > used && content_width - used > 1 { content_width - used } else { 1 };
                Notice::TrackName { spacer }
            }
        },
    }
}

/// The frame of the analysis spinner (ten frames, each held six ticks).
pub fn spinner_frame(frame_count: usize) -> (r: usize)
    ensures
        r == (frame_count / 6) % 10,
        r < 10,
{
    (frame_count / 6) % 10
}

/// Whether spectrum column `i` (of 16) lies in the filter's stop band: the
/// top columns for a low-pass (negative offset), the bottom ones for a
/// high-pass, as many as the offset's size.
pub fn in_stopband(filter_offset: i32, i: usize) -> (r: bool)
    requires
        -16 <= filter_offset <= 16,
    ensures
        r == if filter_offset == 0 {
            false
        } else if filter_offset < 0 {
            i >= 16 + filter_offset
        } else {
            i < filter_offset
        },
{
    if filter_offset == 0 {
        false
    } else if filter_offset < 0 {
        let n = (-filter_offset) as usize;
        i >= 16 - n
    } else {
        i < filter_offset as usize
    }
}

/// Blanks between a left and a right part on a line `width` wide (at least one).
pub fn spacer(width: usize, left: usize, right: usize) -> (r: usize)
    requires
        left + right <= usize::MAX,
    ensures
        r == spacer_width(width as int, left as int, right as int),
{
    let used = left + right;
    if width > used && width - used > 1 { width - used } else { 1 }
}

/// How many rule characters follow a section label in a divider line
/// `inner_width` wide: what is left after the label and four framing
/// characters.
pub fn divider_fill(inner_width: usize, label_len: usize) -> (r: usize)
    requires
        label_len + 4 <= usize::MAX,
    ensures
        r == if inner_width > label_len + 4 { inner_width - label_len - 4 } else { 0 },
{
    if inner_width > label_len + 4 { inner_width - label_len - 4 } else { 0 }
}

} // verus!
