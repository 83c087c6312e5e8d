use vstd::prelude::*;

verus! {

// Braille cells are bytes: bit k is dot k+1 of the 2×4 cell. The left dot
// column is bits 0,1,2,6 (top to bottom), the right one bits 3,4,5,7.

/// Bit `k` of a cell.
pub open spec fn bit(x: u8, k: u8) -> u8 {
    (x >> k) & 1
}

/// Shifts a braille view by half a cell: the right dot column of `a` becomes
/// the left column, and the left dot column of `b` becomes the right column.
pub fn shift_braille_half(a: u8, b: u8) -> (r: u8)
    ensures
        bit(r, 0) == bit(a, 3),
        bit(r, 1) == bit(a, 4),
        bit(r, 2) == bit(a, 5),
        bit(r, 6) == bit(a, 7),
        bit(r, 3) == bit(b, 0),
        bit(r, 4) == bit(b, 1),
        bit(r, 5) == bit(b, 2),
        bit(r, 7) == bit(b, 6),
{
    let left = ((a >> 3) & 0x07) | ((a >> 1) & 0x40);
    let right = ((b & 0x07) << 3) | ((b & 0x40) << 1);
    let r = left | right;
    assert(bit(r, 0) == bit(a, 3) && bit(r, 1) == bit(a, 4) && bit(r, 2) == bit(a, 5) && bit(r, 6)
        == bit(a, 7) && bit(r, 3) == bit(b, 0) && bit(r, 4) == bit(b, 1) && bit(r, 5) == bit(b, 2)
        && bit(r, 7) == bit(b, 6)) by (bit_vector)
        requires
            r == ((((a >> 3) & 0x07) | ((a >> 1) & 0x40)) | (((b & 0x07) << 3) | ((b & 0x40) << 1))),
    ;
    r
}

/// The tick byte at column `c`, or 0 past either end.
pub open spec fn tick_at(t: Seq<u8>, c: int) -> u8 {
    if 0 <= c < t.len() {
        t[c]
    } else {
        0
    }
}

/// The pattern a tick contributes: none without a tick, otherwise the pattern
/// for a tick in the left (bit 0 set) or right sub-column.
pub open spec fn tick_pattern(x: u8, left: u8, right: u8) -> u8 {
    if x == 0 {
        0
    } else if x & 1 != 0 {
        left
    } else {
        right
    }
}

/// One cell of the shared tick strip. Each tick covers its own column and
/// spills into the next one: deck A's ticks point up (tip in dot row 1, base
/// in row 2), deck B's point down (base in row 3, tip in row 4).
pub open spec fn shared_tick_cell(a: Seq<u8>, b: Seq<u8>, c: int) -> u8 {
    tick_pattern(tick_at(a, c - 1), 0x02, 0x13) | tick_pattern(tick_at(b, c - 1), 0x04, 0x64)
        | tick_pattern(tick_at(a, c), 0x1A, 0x10) | tick_pattern(tick_at(b, c), 0xA4, 0x20)
}

fn pattern(x: u8, left: u8, right: u8) -> (r: u8)
    ensures
        r == tick_pattern(x, left, right),
{
    if x == 0 {
        0
    } else if x & 1 != 0 {
        left
    } else {
        right
    }
}

fn tick_get(t: &[u8], c: usize) -> (r: u8)
    ensures
        r == tick_at(t@, c as int),
{
    if c < t.len() {
        t[c]
    } else {
        0
    }
}

/// The braille row for the tick strip shared by both decks.
pub fn compose_shared_tick_row(tick_a: &[u8], tick_b: &[u8], width: usize) -> (row: Vec<u8>)
    ensures
        row@.len() == width,
        forall|c: int| 0 <= c < width ==> #[trigger] row@[c] == shared_tick_cell(tick_a@, tick_b@, c),
{
    let mut row: Vec<u8> = Vec::new();
    let mut c: usize = 0;
    while c < width
        invariant
            c <= width,
            row@.len() == c,
            forall|k: int| 0 <= k < c ==> #[trigger] row@[k] == shared_tick_cell(tick_a@, tick_b@, k),
        decreases width - c,
    {
        let (pa, pb) = if c > 0 {
            (pattern(tick_get(tick_a, c - 1), 0x02, 0x13), pattern(tick_get(tick_b, c - 1), 0x04, 0x64))
        } else {
            (0u8, 0u8)
        };
        let cell = pa | pb | pattern(tick_get(tick_a, c), 0x1A, 0x10) | pattern(
            tick_get(tick_b, c),
            0xA4,
            0x20,
        );
        row.push(cell);
        c += 1;
    }
    row
}

/// `n / d` rounded to the nearest integer, halves away from zero
/// (what `f64::round` gives for the quotient).
pub open spec fn round_div(n: int, d: int) -> int {
    if n >= 0 {
        (2 * n + d) / (2 * d)
    } else {
        -((-2 * n + d) / (2 * d))
    }
}

/// Where a screen-wide window starts in a pre-rendered buffer and whether it is
/// offset by half a column, for a playhead at `display_pos` drawn at screen
/// column `centre_col`; none when the window would leave the buffer.
pub open spec fn viewport_spec(
    buf_cols: int,
    anchor: int,
    samples_per_col: int,
    display_pos: int,
    centre_col: int,
    width: int,
) -> Option<(int, bool)> {
    let delta_half = round_div(2 * (display_pos - anchor), samples_per_col);
    let delta_cols = delta_half / 2;
    let sub_col = delta_half % 2 != 0;
    let off = buf_cols / 2 + delta_cols - centre_col;
    let need = if sub_col { width + 1 } else { width };
    if off < 0 || off + need > buf_cols {
        None
    } else {
        Some((off, sub_col))
    }
}

/// The buffer window for the current playhead (see `viewport_spec`).
pub fn viewport(
    buf_cols: usize,
    anchor: usize,
    samples_per_col: usize,
    display_pos: usize,
    centre_col: usize,
    width: usize,
) -> (r: Option<(usize, bool)>)
    requires
        samples_per_col > 0,
    ensures
        match r {
            Some((s, sub)) => viewport_spec(
                buf_cols as int,
                anchor as int,
                samples_per_col as int,
                display_pos as int,
                centre_col as int,
                width as int,
            ) == Some((s as int, sub)),
            None => viewport_spec(
                buf_cols as int,
                anchor as int,
                samples_per_col as int,
                display_pos as int,
                centre_col as int,
                width as int,
            ) is None,
        },
{
    let d = samples_per_col as i128;
    let n: i128 = 2 * (display_pos as i128 - anchor as i128);
    let m: i128 = if n >= 0 { n } else { -n };
    let q: i128 = (2 * m + d) / (2 * d);
    assert(0 <= q <= 2 * m + d) by (nonlinear_arith)
        requires
            q == (2 * m + d) / (2 * d),
            m >= 0,
            d > 0,
    ;
    let delta_half: i128 = if n >= 0 { q } else { -q };
    let delta_cols: i128 = if delta_half >= 0 { delta_half / 2 } else { -((1 - delta_half) / 2) };
    let sub_col = delta_half - 2 * delta_cols != 0;
    let off: i128 = buf_cols as i128 / 2 + delta_cols - centre_col as i128;
    let need: i128 = if sub_col { width as i128 + 1 } else { width as i128 };
    if off < 0 || off + need > buf_cols as i128 {
        None
    } else {
        Some((off as usize, sub_col))
    }
}

/// One column of the tick row seen through a window that starts `start`
/// columns into the buffer, shifted by half a column when `sub_col`: a
/// right-sub-column tick at buffer column c shows as a left tick at screen
/// column c, a left tick at c shows as a right tick at screen column c−1.
pub open spec fn viewport_tick(tick: Seq<u8>, start: int, sub_col: bool, c: int) -> u8 {
    if !sub_col {
        tick[start + c]
    } else if tick[start + c + 1] == 0x47 {
        0xB8
    } else if tick[start + c] == 0xB8 {
        0x47
    } else {
        0
    }
}

/// The screen-wide slice of a buffer's tick row under the playhead, using the
/// same half-column window as the waveform so ticks stay locked to peaks; all
/// zeros when the buffer is empty or the window leaves it.
pub fn extract_tick_viewport(
    tick: &Vec<u8>,
    buf_cols: usize,
    anchor_sample: usize,
    samples_per_col: usize,
    display_pos: usize,
    centre_col: usize,
    width: usize,
) -> (r: Vec<u8>)
    requires
        buf_cols <= tick@.len(),
    ensures
        r@.len() == width,
        samples_per_col == 0 || tick@.len() == 0 ==> forall|c: int| 0 <= c < width ==> #[trigger] r@[c] == 0,
        samples_per_col > 0 && tick@.len() > 0 ==> match viewport_spec(
            buf_cols as int,
            anchor_sample as int,
            samples_per_col as int,
            display_pos as int,
            centre_col as int,
            width as int,
        ) {
            None => forall|c: int| 0 <= c < width ==> #[trigger] r@[c] == 0,
            Some((s, sub)) => forall|c: int| 0 <= c < width ==> #[trigger] r@[c] == viewport_tick(tick@, s, sub, c),
        },
{
    if samples_per_col == 0 || tick.len() == 0 {
        return zeros(width);
    }
    match viewport(buf_cols, anchor_sample, samples_per_col, display_pos, centre_col, width) {
        None => zeros(width),
        Some((start, sub_col)) => {
            let mut out: Vec<u8> = Vec::new();
            let mut c: usize = 0;
            while c < width
                invariant
                    c <= width,
                    out@.len() == c,
                    start + width + (if sub_col { 1int } else { 0 }) <= buf_cols,
                    buf_cols <= tick@.len(),
                    forall|k: int| 0 <= k < c ==> #[trigger] out@[k] == viewport_tick(tick@, start as int, sub_col, k),
                decreases width - c,
            {
                let v = if !sub_col {
                    tick[start + c]
                } else if tick[start + c + 1] == 0x47 {
                    0xB8
                } else if tick[start + c] == 0xB8 {
                    0x47
                } else {
                    0
                };
                out.push(v);
                c += 1;
            }
            out
        },
    }
}

/// `n` zero bytes.
pub fn zeros(n: usize) -> (r: Vec<u8>)
    ensures
        r@.len() == n,
        forall|c: int| 0 <= c < n ==> #[trigger] r@[c] == 0,
{
    let mut r: Vec<u8> = Vec::new();
    let mut i: usize = 0;
    while i < n
        invariant
            i <= n,
            r@.len() == i,
            forall|c: int| 0 <= c < i ==> #[trigger] r@[c] == 0,
        decreases n - i,
    {
        r.push(0);
        i += 1;
    }
    r
}

/// The screen column of the playhead: `playhead_position` percent of the
/// width, kept on screen.
pub fn centre_col(width: u16, playhead_position: u8) -> (r: usize)
    ensures
        r == if width == 0 {
            0
        } else if width * playhead_position / 100 < width - 1 {
            width * playhead_position / 100
        } else {
            width - 1
        },
{
    let w = width as u32;
    let p = playhead_position as u32;
    assert(w * p <= 65535 * 255) by (nonlinear_arith)
        requires
            w <= 65535,
            p <= 255,
    ;
    let c = w * p / 100;
    if width == 0 {
        0
    } else if c < w - 1 {
        c as usize
    } else {
        (w - 1) as usize
    }
}

/// The screen column of a buffer column inside the window `[start, start + width)`.
pub fn screen_col(buf_col: Option<usize>, start: usize, width: usize) -> (r: Option<usize>)
    ensures
        r == match buf_col {
            Some(b) => if start <= b < start + width { Some((b - start) as usize) } else { None },
            None => None,
        },
{
    match buf_col {
        Some(b) => {
            if b >= start && b - start < width {
                Some(b - start)
            } else {
                None
            }
        },
        None => None,
    }
}

/// A screen rectangle.
#[derive(Debug, PartialEq, Eq, Clone, Copy, Structural)]
pub struct Rect {
    pub x: u16,
    pub y: u16,
    pub width: u16,
    pub height: u16,
}

/// A `width` × `height` box centred in `area` (clipped to it).
pub fn popup_area(width: u16, height: u16, area: Rect) -> (r: Rect)
    requires
        area.x + area.width <= u16::MAX,
        area.y + area.height <= u16::MAX,
    ensures
        r.x == area.x + (if area.width > width { area.width - width } else { 0 }) / 2,
        r.y == area.y + (if area.height > height { area.height - height } else { 0 }) / 2,
        r.width == if width < area.width { width } else { area.width },
        r.height == if height < area.height { height } else { area.height },
        r.x + r.width <= area.x + area.width,
        r.y + r.height <= area.y + area.height,
{
    let x = area.x + area.width.saturating_sub(width) / 2;
    let y = area.y + area.height.saturating_sub(height) / 2;
    Rect { x, y, width: if width < area.width { width } else { area.width }, height: if height < area.height { height } else { area.height } }
}

/// The samples of bucket `i` when `n` samples are split into `buckets`
/// consecutive buckets of nearly equal size: `i*n/buckets .. (i+1)*n/buckets`.
pub fn bucket_range(n: usize, buckets: usize, i: usize) -> (r: (usize, usize))
    requires
        0 < buckets,
        i < buckets,
        n * buckets <= usize::MAX,
    ensures
        r.0 == (i * n) / (buckets as int),
        r.1 == ((i + 1) * n) / (buckets as int),
        r.0 <= r.1 <= n,
{
    assert(i * n <= n * buckets && (i + 1) * n <= n * buckets) by (nonlinear_arith)
        requires
            i < buckets,
            0 <= n,
    ;
    assert((i * n) / (buckets as int) <= ((i + 1) * n) / (buckets as int) && ((i + 1) * n) / (buckets as int) <= n)
        by (nonlinear_arith)
        requires
            i < buckets,
            0 <= n,
            0 < buckets,
    ;
    let start = i * n / buckets;
    let end = (i + 1) * n / buckets;
    (start, end)
}

/// The column, counted from the rectangle's left edge, of a point that lies
/// inside `area`; none for a point outside it.
pub fn column_within(area: Rect, col: usize, row: usize) -> (r: Option<usize>)
    requires
        area.x + area.width <= u16::MAX,
        area.y + area.height <= u16::MAX,
    ensures
        r == (if area.x <= col < area.x + area.width && area.y <= row < area.y + area.height {
            Some((col - area.x) as usize)
        } else {
            None
        }),
{
    let x = area.x as usize;
    let y = area.y as usize;
    if col >= x && col < x + area.width as usize && row >= y && row < y + area.height as usize {
        Some(col - x)
    } else {
        None
    }
}

/// The last bar whose line stands at or left of column `click`: its index
/// among the bars' columns, none when every line stands right of it.
pub fn bar_at_or_before(bar_cols: &[usize], click: usize) -> (r: Option<usize>)
    ensures
        match r {
            Some(i) => i < bar_cols@.len() && bar_cols@[i as int] <= click && forall|j: int|
                i < j < bar_cols@.len() ==> bar_cols@[j] > click,
            None => forall|j: int| 0 <= j < bar_cols@.len() ==> bar_cols@[j] > click,
        },
{
    let mut found: Option<usize> = None;
    let mut i: usize = 0;
    while i < bar_cols.len()
        invariant
            i <= bar_cols@.len(),
            match found {
                Some(k) => k < i && bar_cols@[k as int] <= click && forall|j: int|
                    k < j < i ==> bar_cols@[j] > click,
                None => forall|j: int| 0 <= j < i ==> bar_cols@[j] > click,
            },
        decreases bar_cols@.len() - i,
    {
        if bar_cols[i] <= click {
            found = Some(i);
        }
        i += 1;
    }
    found
}

/// The detail view's window into its buffer: only when the buffer is at least
/// a screen wide and has a column size (see `viewport_spec`).
pub fn detail_viewport(
    buf_cols: usize,
    anchor: usize,
    samples_per_col: usize,
    display_pos: usize,
    centre_col: usize,
    width: usize,
) -> (r: Option<(usize, bool)>)
    ensures
        buf_cols < width || samples_per_col == 0 ==> r is None,
        buf_cols >= width && samples_per_col > 0 ==> match r {
            Some((s, sub)) => viewport_spec(
                buf_cols as int,
                anchor as int,
                samples_per_col as int,
                display_pos as int,
                centre_col as int,
                width as int,
            ) == Some((s as int, sub)),
            None => viewport_spec(
                buf_cols as int,
                anchor as int,
                samples_per_col as int,
                display_pos as int,
                centre_col as int,
                width as int,
            ) is None,
        },
{
    if buf_cols >= width && samples_per_col > 0 {
        viewport(buf_cols, anchor, samples_per_col, display_pos, centre_col, width)
    } else {
        None
    }
}

/// A screen row of a braille buffer row seen half a column off: each cell
/// joins the right half of buffer column `start + c` with the left half of
/// the next one.
pub fn shifted_row(row: &[u8], start: usize, width: usize) -> (r: Vec<u8>)
    requires
        start + width + 1 <= row@.len(),
    ensures
        r@.len() == width,
        forall|c: int|
            0 <= c < width ==> {
                let x = #[trigger] r@[c];
                let a = row@[start + c];
                let b = row@[start + c + 1];
                &&& bit(x, 0) == bit(a, 3) && bit(x, 1) == bit(a, 4) && bit(x, 2) == bit(a, 5)
                &&& bit(x, 6) == bit(a, 7)
                &&& bit(x, 3) == bit(b, 0) && bit(x, 4) == bit(b, 1) && bit(x, 5) == bit(b, 2)
                &&& bit(x, 7) == bit(b, 6)
            },
{
    let mut r: Vec<u8> = Vec::new();
    let mut c: usize = 0;
    let n = row.len();
    while c < width
        invariant
            c <= width,
            n == row@.len(),
            start + width + 1 <= row@.len(),
            r@.len() == c,
            forall|k: int|
                0 <= k < c ==> {
                    let x = #[trigger] r@[k];
                    let a = row@[start + k];
                    let b = row@[start + k + 1];
                    &&& bit(x, 0) == bit(a, 3) && bit(x, 1) == bit(a, 4) && bit(x, 2) == bit(a, 5)
                    &&& bit(x, 6) == bit(a, 7)
                    &&& bit(x, 3) == bit(b, 0) && bit(x, 4) == bit(b, 1) && bit(x, 5) == bit(b, 2)
                    &&& bit(x, 7) == bit(b, 6)
                },
        decreases width - c,
    {
        let x = shift_braille_half(row[start + c], row[start + c + 1]);
        r.push(x);
        c += 1;
    }
    r
}

/// Two buffer columns per screen column merged into one cell: the left dot
/// column from the even buffer column, the right one from the odd.
pub fn merge_half_columns(row: &[u8], width: usize) -> (r: Vec<u8>)
    requires
        2 * width <= row@.len(),
    ensures
        r@.len() == width,
        forall|c: int| 0 <= c < width ==> #[trigger] r@[c] == (row@[2 * c] & 0x47) | (row@[2 * c + 1] & 0xB8),
{
    let mut r: Vec<u8> = Vec::new();
    let mut c: usize = 0;
    let n = row.len();
    while c < width
        invariant
            c <= width,
            n == row@.len(),
            2 * width <= row@.len(),
            r@.len() == c,
            forall|k: int| 0 <= k < c ==> #[trigger] r@[k] == (row@[2 * k] & 0x47) | (row@[2 * k + 1] & 0xB8),
        decreases width - c,
    {
        r.push((row[2 * c] & 0x47) | (row[2 * c + 1] & 0xB8));
        c += 1;
    }
    r
}

/// Which peak an overview half-column shows: columns spread evenly over the
/// peaks, the last one clamped to the end.
pub fn overview_peak_index(col: usize, total_peaks: usize, half_cols: usize) -> (r: usize)
    requires
        col * total_peaks <= usize::MAX,
    ensures
        r == ({
            let i = (col * total_peaks) / (if half_cols > 0 { half_cols as int } else { 1 });
            let last = if total_peaks > 0 { total_peaks - 1 } else { 0 };
            if i < last { i } else { last }
        }),
{
    let d: usize = if half_cols > 0 { half_cols } else { 1 };
    let i = col * total_peaks / d;
    let last = if total_peaks > 0 { total_peaks - 1 } else { 0 };
    if i < last { i } else { last }
}

/// Dots of the left column of a spectrum cell for a bar of height 0 to 4,
/// filled bottom up.
pub open spec fn left_mask(h: int) -> u8 {
    if h <= 0 {
        0x00
    } else if h == 1 {
        0x40
    } else if h == 2 {
        0x44
    } else if h == 3 {
        0x46
    } else {
        0x47
    }
}

/// Dots of the right column of a spectrum cell for a bar of height 0 to 4.
pub open spec fn right_mask(h: int) -> u8 {
    if h <= 0 {
        0x00
    } else if h == 1 {
        0x80
    } else if h == 2 {
        0xA0
    } else if h == 3 {
        0xB0
    } else {
        0xB8
    }
}

/// A spectrum cell showing two bars side by side.
pub fn spectrum_cell(left: usize, right: usize) -> (r: u8)
    requires
        left <= 4,
        right <= 4,
    ensures
        r == left_mask(left as int) | right_mask(right as int),
        r & 0x47 == left_mask(left as int),
        r & 0xB8 == right_mask(right as int),
{
    let l: u8 = if left == 0 { 0x00 } else if left == 1 { 0x40 } else if left == 2 { 0x44 } else if left == 3 { 0x46 } else { 0x47 };
    let rm: u8 = if right == 0 { 0x00 } else if right == 1 { 0x80 } else if right == 2 { 0xA0 } else if right == 3 { 0xB0 } else { 0xB8 };
    let r = l | rm;
    assert(r & 0x47 == l && r & 0xB8 == rm) by (bit_vector)
        requires
            r == l | rm,
            l == 0x00 || l == 0x40 || l == 0x44 || l == 0x46 || l == 0x47,
            rm == 0x00 || rm == 0x80 || rm == 0xA0 || rm == 0xB0 || rm == 0xB8,
    ;
    r
}

/// The buffer's anchor: the playhead snapped down to a whole column.
pub fn snap_anchor(pos: usize, samples_per_col: usize) -> (r: usize)
    requires
        samples_per_col > 0,
    ensures
        r == (pos / samples_per_col) * samples_per_col,
        r <= pos,
        pos - r < samples_per_col,
{
    let q = pos / samples_per_col;
    assert(q * samples_per_col <= pos && pos - q * samples_per_col < samples_per_col) by (nonlinear_arith)
        requires
            q == pos / samples_per_col,
            samples_per_col > 0,
    ;
    q * samples_per_col
}

/// The buffer column of the cue point, with the anchor at the buffer's middle
/// column; none without a cue (negative) or outside the buffer.
pub fn cue_buf_col(cue_raw: i64, anchor: usize, samples_per_col: usize, buf_cols: usize) -> (r: Option<usize>)
    ensures
        r == if cue_raw < 0 || samples_per_col == 0 {
            None::<usize>
        } else {
            let col = buf_cols / 2 + (cue_raw - anchor) / (samples_per_col as int);
            if 0 <= col < buf_cols { Some(col as usize) } else { None::<usize> }
        },
{
    if cue_raw < 0 || samples_per_col == 0 {
        return None;
    }
    let delta: i128 = cue_raw as i128 - anchor as i128;
    let d: i128 = samples_per_col as i128;
    let q: i128 = if delta >= 0 {
        delta / d
    } else {
        let m: i128 = (-delta - 1) / d;
        proof {
            let x: int = -delta - 1;
            vstd::arithmetic::div_mod::lemma_fundamental_div_mod(x, d as int);
            let s: int = x % (d as int);
            assert(m == x / (d as int));
            assert(delta == (-m - 1) * d + (d - s - 1)) by (nonlinear_arith)
                requires
                    x == d * (x / (d as int)) + s,
                    m == x / (d as int),
                    x == -delta - 1,
            ;
            vstd::arithmetic::div_mod::lemma_fundamental_div_mod_converse(
                delta as int,
                d as int,
                -m - 1,
                d - s - 1,
            );
        }
        -m - 1
    };
    assert(q == delta / d);
    let col: i128 = buf_cols as i128 / 2 + q;
    if col >= 0 && col < buf_cols as i128 {
        Some(col as usize)
    } else {
        None
    }
}

/// Which samples a buffer column covers.
#[derive(Clone, Copy, Debug, PartialEq, Eq, Structural)]
pub enum ColumnSpan {
    /// The column lies before the start of the track.
    BeforeStart,
    /// The column starts at or past the end of the track.
    PastEnd,
    /// Samples `start..end` (`end` clipped to the track).
    Samples(usize, usize),
}

/// The samples under buffer column `c` of `buf_cols`, whose middle column
/// starts at `anchor`, each column `col_samp` samples wide, in a track of
/// `len` samples.
pub fn column_span(anchor: usize, col_samp: usize, buf_cols: usize, c: usize, len: usize) -> (r: ColumnSpan)
    requires
        c < buf_cols,
        anchor + buf_cols * col_samp <= i64::MAX,
    ensures
        ({
            let start = anchor + (c - buf_cols / 2) * col_samp;
            if start < 0 {
                r == ColumnSpan::BeforeStart
            } else if start >= len {
                r == ColumnSpan::PastEnd
            } else {
                r == ColumnSpan::Samples(
                    start as usize,
                    (if start + col_samp < len { start + col_samp } else { len as int }) as usize,
                )
            }
        }),
{
    let half = buf_cols / 2;
    let diff: i128 = c as i128 - half as i128;
    proof {
        assert(-(buf_cols * col_samp) <= diff * col_samp <= buf_cols * col_samp) by (nonlinear_arith)
            requires
                -(buf_cols as int) <= diff <= buf_cols,
                col_samp >= 0,
        ;
    }
    let prod: i128 = diff * col_samp as i128;
    let start: i128 = anchor as i128 + prod;
    if start < 0 {
        ColumnSpan::BeforeStart
    } else if start >= len as i128 {
        ColumnSpan::PastEnd
    } else {
        let st = start as usize;
        let end: usize = if len - st > col_samp { st + col_samp } else { len };
        ColumnSpan::Samples(st, end)
    }
}

/// The window `lo..hi` a box filter of `radius` averages over at `i`, in `n` values.
pub fn smooth_window(i: usize, radius: usize, n: usize) -> (r: (usize, usize))
    requires
        i < n,
        i + radius + 1 <= usize::MAX,
    ensures
        r.0 == if i > radius { i - radius } else { 0 },
        r.1 == if i + radius + 1 < n { i + radius + 1 } else { n as int },
        r.0 <= i < r.1 <= n,
{
    let lo = if i > radius { i - radius } else { 0 };
    let hi = if i + radius + 1 < n { i + radius + 1 } else { n };
    (lo, hi)
}

/// The lowest dot of a waveform column: the raw dot (kept within the
/// `total` dots), moved up one when it is below the top dot and reaches the
/// lower half together with it.
pub fn bottom_dot(raw: usize, top: usize, total: usize) -> (r: usize)
    requires
        total > 0,
        raw + top <= usize::MAX,
    ensures
        ({
            let b = if raw < total - 1 { raw as int } else { total - 1 };
            r == if b > top && b + top >= total { b - 1 } else { b }
        }),
{
    let b = if raw < total - 1 { raw } else { total - 1 };
    if b > top && b + top >= total { b - 1 } else { b }
}

/// The dots of a cell row for dot rows `top..=bot`: each of the four dot rows
/// of cell row `r` that falls in the range lights both of its dots.
pub open spec fn column_cell(r: int, top: int, bot: int) -> u8 {
    let lit = |d: int| top <= d <= bot;
    (if lit(4 * r) { 0x09u8 } else { 0u8 }) | (if lit(4 * r + 1) { 0x12u8 } else { 0u8 }) | (if lit(4 * r + 2) {
        0x24u8
    } else {
        0u8
    }) | (if lit(4 * r + 3) { 0xC0u8 } else { 0u8 })
}

/// The cells of one waveform column `rows` cells high with dot rows
/// `top..=bot` lit.
pub fn braille_column(rows: usize, top: usize, bot: usize) -> (r: Vec<u8>)
    requires
        4 * rows + 3 <= usize::MAX,
    ensures
        r@.len() == rows,
        forall|k: int| 0 <= k < rows ==> #[trigger] r@[k] == column_cell(k, top as int, bot as int),
{
    let mut r: Vec<u8> = Vec::new();
    let mut k: usize = 0;
    while k < rows
        invariant
            k <= rows,
            4 * rows + 3 <= usize::MAX,
            r@.len() == k,
            forall|j: int| 0 <= j < k ==> #[trigger] r@[j] == column_cell(j, top as int, bot as int),
        decreases rows - k,
    {
        let d = 4 * k;
        let a: u8 = if top <= d && d <= bot { 0x09 } else { 0 };
        let b: u8 = if top <= d + 1 && d + 1 <= bot { 0x12 } else { 0 };
        let c: u8 = if top <= d + 2 && d + 2 <= bot { 0x24 } else { 0 };
        let e: u8 = if top <= d + 3 && d + 3 <= bot { 0xC0 } else { 0 };
        r.push(a | b | c | e);
        k += 1;
    }
    r
}

/// The smallest gap between neighbouring tick columns (as far as possible
/// with fewer than two ticks; a column left of its predecessor counts as 0).
pub open spec fn min_gap_spec(cols: Seq<usize>) -> int
    decreases cols.len(),
{
    if cols.len() < 2 {
        usize::MAX as int
    } else {
        let g = if cols.last() >= cols[cols.len() - 2] { cols.last() - cols[cols.len() - 2] } else { 0 };
        let rest = min_gap_spec(cols.drop_last());
        if g < rest { g } else { rest }
    }
}

/// The smallest gap between neighbouring tick columns.
pub fn min_gap(cols: &[usize]) -> (r: usize)
    ensures
        r == min_gap_spec(cols@),
{
    let mut m: usize = usize::MAX;
    let mut i: usize = 1;
    if cols.len() < 2 {
        return m;
    }
    while i < cols.len()
        invariant
            1 <= i <= cols@.len(),
            cols@.len() >= 2,
            m == min_gap_spec(cols@.subrange(0, i as int)),
        decreases cols@.len() - i,
    {
        let g = if cols[i] >= cols[i - 1] { cols[i] - cols[i - 1] } else { 0 };
        proof {
            let t = cols@.subrange(0, i + 1);
            assert(t.drop_last() =~= cols@.subrange(0, i as int));
        }
        if g < m {
            m = g;
        }
        i += 1;
    }
    assert(cols@.subrange(0, cols@.len() as int) =~= cols@);
    m
}

/// Where a beat tick lands, given its position in half columns: the column
/// and the left (`0x47`) or right (`0xB8`) sub-column pattern; none before
/// the view or past its `width`.
pub fn tick_mark(disp_half: i64, width: usize) -> (r: Option<(usize, u8)>)
    ensures
        r == if disp_half >= 0 && disp_half / 2 < width {
            Some(((disp_half / 2) as usize, if disp_half % 2 != 0 { 0xB8u8 } else { 0x47u8 }))
        } else {
            None::<(usize, u8)>
        },
{
    if disp_half >= 0 {
        let col = (disp_half / 2) as u64;
        if (col as u128) < (width as u128) {
            return Some((col as usize, if disp_half % 2 != 0 { 0xB8 } else { 0x47 }));
        }
    }
    None
}

} // verus!
