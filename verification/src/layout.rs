use vstd::prelude::*;

verus! {

/// Fewest rows a detail waveform is shown with.
pub const DET_MIN: u16 = 3;
/// Rows of an overview waveform when there is room.
pub const OV_MAX: u16 = 3;
/// Fewest rows an overview waveform is shown with.
pub const OV_MIN: u16 = 2;
/// Single-row bars: global, detail info, and a notification and info bar per deck.
pub const FIXED_ROWS: u16 = 6;

/// Row heights of the main screen, top to bottom.
#[derive(Clone, Copy, Debug, PartialEq, Eq, Structural)]
pub struct Rows {
    pub global: u16,
    pub detail_info: u16,
    pub detail_a: u16,
    pub detail_b: u16,
    pub notif_a: u16,
    pub info_a: u16,
    pub overview_a: u16,
    pub notif_b: u16,
    pub info_b: u16,
    pub overview_b: u16,
    pub spacer: u16,
}

/// Rows the two detail waveforms and the two overviews share, for `ih`
/// inner rows and a wanted detail height `det_max`: details shrink first
/// (down to their minimum), then overviews.
pub open spec fn pools(ih: int, det_max: int) -> (int, int) {
    let total = if ih > FIXED_ROWS { ih - FIXED_ROWS } else { 0 };
    let det_full = det_max * 2;
    let ov_full = OV_MAX * 2;
    if total >= det_full + ov_full {
        (det_full, ov_full)
    } else if total >= DET_MIN * 2 + ov_full {
        (total - ov_full, ov_full)
    } else if total >= DET_MIN * 2 + OV_MIN * 2 {
        (DET_MIN * 2, total - DET_MIN * 2)
    } else {
        let d = if total < DET_MIN * 2 { total } else { DET_MIN * 2 };
        (d, total - d)
    }
}

/// Height of each detail waveform: half its pool, at least the minimum and at
/// most the wanted height.
pub open spec fn detail_height_for(ih: int, det_max: int) -> int {
    let h = pools(ih, det_max).0 / 2;
    let h1 = if h < DET_MIN { DET_MIN as int } else { h };
    if h1 > det_max { det_max } else { h1 }
}

/// Height of each overview: half its pool, within `OV_MIN..=OV_MAX`.
pub open spec fn overview_height_for(ih: int, det_max: int) -> int {
    let h = pools(ih, det_max).1 / 2;
    if h < OV_MIN {
        OV_MIN as int
    } else if h > OV_MAX {
        OV_MAX as int
    } else {
        h
    }
}

/// Up to `n` of the remaining rows.
pub open spec fn take_rows(rem: int, n: int) -> int {
    if rem < n { rem } else { n }
}

/// All `n` rows if that many remain, else none.
pub open spec fn take_all_or_none(rem: int, n: int) -> int {
    if rem >= n { n } else { 0 }
}

/// What remains after asking for `n` rows.
pub open spec fn after(rem: int, n: int) -> int {
    if rem >= n { rem - n } else { 0 }
}

/// The row heights, allocated top to bottom: single-row bars take what
/// remains, waveforms show at full height or not at all (and still use up
/// what remains), and the spacer takes the rest.
pub open spec fn rows_spec(ih: int, det_max: int) -> Rows {
    let d = detail_height_for(ih, det_max);
    let o = overview_height_for(ih, det_max);
    let r0 = ih;
    let r1 = after(r0, 1);
    let r2 = after(r1, 1);
    let r3 = after(r2, d);
    let r4 = after(r3, d);
    let r5 = after(r4, 1);
    let r6 = after(r5, 1);
    let r7 = after(r6, o);
    let r8 = after(r7, 1);
    let r9 = after(r8, 1);
    let r10 = after(r9, o);
    Rows {
        global: take_rows(r0, 1) as u16,
        detail_info: take_rows(r1, 1) as u16,
        detail_a: take_all_or_none(r2, d) as u16,
        detail_b: take_all_or_none(r3, d) as u16,
        notif_a: take_rows(r4, 1) as u16,
        info_a: take_rows(r5, 1) as u16,
        overview_a: take_all_or_none(r6, o) as u16,
        notif_b: take_rows(r7, 1) as u16,
        info_b: take_rows(r8, 1) as u16,
        overview_b: take_all_or_none(r9, o) as u16,
        spacer: r10 as u16,
    }
}

/// As the terminal shrinks, the detail waveforms give up rows first: an
/// overview is below its full height only once the details are down to their
/// minimum.
pub proof fn law_details_compress_first(ih: int, det_max: int)
    requires
        det_max >= DET_MIN,
    ensures
        overview_height_for(ih, det_max) < OV_MAX ==> detail_height_for(ih, det_max) == DET_MIN,
        detail_height_for(ih, det_max) > DET_MIN ==> overview_height_for(ih, det_max) == OV_MAX,
{
}

/// A taller terminal never makes a waveform shorter.
pub proof fn law_heights_grow_with_screen(ih1: int, ih2: int, det_max: int)
    requires
        0 <= ih1 <= ih2,
        det_max >= DET_MIN,
    ensures
        detail_height_for(ih1, det_max) <= detail_height_for(ih2, det_max),
        overview_height_for(ih1, det_max) <= overview_height_for(ih2, det_max),
{
}

/// The sum of the row heights.
pub open spec fn rows_total(r: Rows) -> int {
    r.global + r.detail_info + r.detail_a + r.detail_b + r.notif_a + r.info_a + r.overview_a + r.notif_b
        + r.info_b + r.overview_b + r.spacer
}

fn take(rem: &mut u16, n: u16) -> (h: u16)
    ensures
        h == take_rows(*old(rem) as int, n as int),
        *final(rem) == after(*old(rem) as int, n as int),
{
    let h = if *rem < n { *rem } else { n };
    *rem = *rem - h;
    h
}

fn take_consume(rem: &mut u16, n: u16) -> (h: u16)
    ensures
        h == take_all_or_none(*old(rem) as int, n as int),
        *final(rem) == after(*old(rem) as int, n as int),
{
    let h = if *rem >= n { n } else { 0 };
    *rem = if *rem >= n { *rem - n } else { 0 };
    h
}

/// The tallest detail height the screen can show: half of what is left
/// after the bars and two minimal overviews.
pub fn max_detail_height(ih: u16) -> (r: usize)
    ensures
        r == (if ih > FIXED_ROWS + OV_MIN * 2 { ih - (FIXED_ROWS + OV_MIN * 2) } else { 0 }) / 2,
{
    let free: u16 = if ih > FIXED_ROWS + OV_MIN * 2 { ih - (FIXED_ROWS + OV_MIN * 2) } else { 0 };
    (free / 2) as usize
}

/// Splits `ih` rows among the bars and waveforms, with details wanted at
/// `det_max` rows each. Each waveform gets its full height or nothing (rows a
/// waveform could not use are left unallocated, so nothing below it moves up);
/// both details (and both overviews) are given the same height; the heights
/// add up to exactly `ih` whenever every waveform fits; when everything fits
/// at full size, it is shown so.
pub fn layout_rows(ih: u16, det_max: u16) -> (r: Rows)
    requires
        det_max * 2 + OV_MAX * 2 <= u16::MAX,
    ensures
        r == rows_spec(ih as int, det_max as int),
        rows_total(r) <= ih,
        ih >= FIXED_ROWS + 2 * detail_height_for(ih as int, det_max as int) + 2 * overview_height_for(
            ih as int,
            det_max as int,
        ) ==> rows_total(r) == ih,
        r.detail_a == 0 || r.detail_a == detail_height_for(ih as int, det_max as int),
        r.detail_b == 0 || r.detail_b == detail_height_for(ih as int, det_max as int),
        r.overview_a == 0 || r.overview_a == overview_height_for(ih as int, det_max as int),
        r.overview_b == 0 || r.overview_b == overview_height_for(ih as int, det_max as int),
        OV_MIN <= overview_height_for(ih as int, det_max as int) <= OV_MAX,
        det_max >= DET_MIN ==> DET_MIN <= detail_height_for(ih as int, det_max as int) <= det_max,
        ih >= FIXED_ROWS + det_max * 2 + OV_MAX * 2 ==> {
            &&& r.detail_a == det_max && r.detail_b == det_max
            &&& r.overview_a == OV_MAX && r.overview_b == OV_MAX
            &&& r.spacer == ih - (FIXED_ROWS + det_max * 2 + OV_MAX * 2)
        },
{
    let total: u16 = if ih > FIXED_ROWS { ih - FIXED_ROWS } else { 0 };
    let det_full: u16 = det_max * 2;
    let ov_full: u16 = OV_MAX * 2;
    let (both_det, both_ov): (u16, u16) = if total >= det_full + ov_full {
        (det_full, ov_full)
    } else if total >= DET_MIN * 2 + ov_full {
        (total - ov_full, ov_full)
    } else if total >= DET_MIN * 2 + OV_MIN * 2 {
        (DET_MIN * 2, total - DET_MIN * 2)
    } else {
        let d: u16 = if total < DET_MIN * 2 { total } else { DET_MIN * 2 };
        (d, total - d)
    };
    let h: u16 = both_det / 2;
    let h1: u16 = if h < DET_MIN { DET_MIN } else { h };
    let det_h: u16 = if h1 > det_max { det_max } else { h1 };
    let o: u16 = both_ov / 2;
    let ov_h: u16 = if o < OV_MIN { OV_MIN } else if o > OV_MAX { OV_MAX } else { o };
    let mut rem: u16 = ih;
    let global = take(&mut rem, 1);
    let detail_info = take(&mut rem, 1);
    let detail_a = take_consume(&mut rem, det_h);
    let detail_b = take_consume(&mut rem, det_h);
    let notif_a = take(&mut rem, 1);
    let info_a = take(&mut rem, 1);
    let overview_a = take_consume(&mut rem, ov_h);
    let notif_b = take(&mut rem, 1);
    let info_b = take(&mut rem, 1);
    let overview_b = take_consume(&mut rem, ov_h);
    let r = Rows {
        global,
        detail_info,
        detail_a,
        detail_b,
        notif_a,
        info_a,
        overview_a,
        notif_b,
        info_b,
        overview_b,
        spacer: rem,
    };
    r
}

} // verus!
