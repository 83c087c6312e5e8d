use tj::render::{
    centre_col, compose_shared_tick_row, cue_buf_col, detail_viewport, extract_tick_viewport, merge_half_columns,
    overview_peak_index, popup_area, screen_col, shift_braille_half, shifted_row, snap_anchor, spectrum_cell,
    viewport, Rect,
};
use tj::render::{bottom_dot, braille_column, smooth_window};
use tj::render::{column_span, ColumnSpan};
use tj::render::{min_gap, tick_mark};
use tj::render::{bar_at_or_before, bucket_range, column_within};

#[test]
fn shift_half_cell() {
    // Right column of a (dots 4,5,6,8) becomes the left column; left column of b becomes the right.
    assert_eq!(shift_braille_half(0xB8, 0x00), 0x47);
    assert_eq!(shift_braille_half(0x00, 0x47), 0xB8);
    assert_eq!(shift_braille_half(0x47, 0xB8), 0x00);
    assert_eq!(shift_braille_half(0xFF, 0xFF), 0xFF);
}

#[test]
fn shared_tick_row_patterns() {
    // Deck A tick in the left sub-column at column 1, deck B tick in the right sub-column at column 0.
    let a = [0u8, 0x47, 0];
    let b = [0xB8u8, 0, 0];
    let row = compose_shared_tick_row(&a, &b, 3);
    assert_eq!(row, vec![0x20, 0x64 | 0x1A, 0x02]);
    // Shorter tick rows count as empty, and a tick at the last column does not spill past it.
    let row = compose_shared_tick_row(&[0x47], &[], 1);
    assert_eq!(row, vec![0x1A]);
    assert_eq!(compose_shared_tick_row(&[], &[], 0), Vec::<u8>::new());
}

#[test]
fn viewport_whole_and_half_columns() {
    // 100-column buffer anchored at sample 1000, 10 samples per column, playhead drawn at column 20.
    assert_eq!(viewport(100, 1000, 10, 1000, 20, 40), Some((30, false)));
    assert_eq!(viewport(100, 1000, 10, 1005, 20, 40), Some((30, true)));
    assert_eq!(viewport(100, 1000, 10, 1010, 20, 40), Some((31, false)));
    assert_eq!(viewport(100, 1000, 10, 994, 20, 40), Some((29, true)));
    // Too far from the anchor: the window leaves the buffer.
    assert_eq!(viewport(100, 1000, 10, 0, 20, 40), None);
    assert_eq!(detail_viewport(30, 1000, 10, 1000, 20, 40), None);
    assert_eq!(detail_viewport(100, 1000, 0, 1000, 20, 40), None);
    assert_eq!(detail_viewport(100, 1000, 10, 1000, 20, 40), Some((30, false)));
}

#[test]
fn tick_viewport_shifts_sub_columns() {
    let mut tick = vec![0u8; 10];
    tick[5] = 0xB8;
    tick[7] = 0x47;
    // Whole-column window starting at 4.
    let out = extract_tick_viewport(&tick, 10, 0, 10, 0, 0, 4);
    assert_eq!(out, vec![0xB8, 0, 0x47, 0]);
    // Half-column window: right ticks become left ticks in place, left ticks move one column left.
    let out = extract_tick_viewport(&tick, 10, 0, 10, 5, 1, 4);
    assert_eq!(out, vec![0, 0x47, 0xB8, 0]);
    // No column size or no ticks: all blank.
    assert_eq!(extract_tick_viewport(&tick, 10, 0, 0, 5, 1, 4), vec![0; 4]);
    assert_eq!(extract_tick_viewport(&Vec::new(), 0, 0, 10, 5, 1, 3), vec![0; 3]);
}

#[test]
fn centre_and_screen_columns() {
    assert_eq!(centre_col(100, 20), 20);
    assert_eq!(centre_col(80, 100), 79);
    assert_eq!(centre_col(0, 50), 0);
    assert_eq!(centre_col(33, 50), 16);
    assert_eq!(screen_col(Some(15), 10, 20), Some(5));
    assert_eq!(screen_col(Some(30), 10, 20), None);
    assert_eq!(screen_col(Some(5), 10, 20), None);
    assert_eq!(screen_col(None, 10, 20), None);
}

#[test]
fn popup_centred_and_clipped() {
    let area = Rect { x: 0, y: 0, width: 100, height: 40 };
    assert_eq!(popup_area(60, 20, area), Rect { x: 20, y: 10, width: 60, height: 20 });
    let small = Rect { x: 2, y: 3, width: 30, height: 10 };
    assert_eq!(popup_area(60, 20, small), Rect { x: 2, y: 3, width: 30, height: 10 });
}

#[test]
fn braille_rows() {
    let row = [0xB8u8, 0x47, 0x00];
    assert_eq!(shifted_row(&row, 0, 2), vec![0x47 | 0xB8, 0]);
    assert_eq!(merge_half_columns(&[0xFF, 0xFF, 0x47, 0xB8], 2), vec![0xFF, 0x47 | 0xB8]);
    assert_eq!(merge_half_columns(&[0xB8, 0x47], 1), vec![0x00]);
}

#[test]
fn overview_peaks_and_spectrum() {
    assert_eq!(overview_peak_index(0, 100, 10), 0);
    assert_eq!(overview_peak_index(5, 100, 10), 50);
    assert_eq!(overview_peak_index(10, 100, 10), 99);
    assert_eq!(overview_peak_index(3, 0, 10), 0);
    assert_eq!(overview_peak_index(3, 7, 0), 6);
    assert_eq!(spectrum_cell(0, 0), 0x00);
    assert_eq!(spectrum_cell(4, 4), 0xFF);
    assert_eq!(spectrum_cell(1, 2), 0x40 | 0xA0);
}

#[test]
fn anchors_and_cue_columns() {
    assert_eq!(snap_anchor(1234, 100), 1200);
    assert_eq!(snap_anchor(99, 100), 0);
    assert_eq!(cue_buf_col(1200, 1200, 100, 50), Some(25));
    assert_eq!(cue_buf_col(1150, 1200, 100, 50), Some(24));
    assert_eq!(cue_buf_col(1299, 1200, 100, 50), Some(25));
    assert_eq!(cue_buf_col(-1, 1200, 100, 50), None);
    assert_eq!(cue_buf_col(0, 100_000, 100, 50), None);
    assert_eq!(cue_buf_col(10, 0, 0, 50), None);
}

#[test]
fn column_spans() {
    // 10 columns, the middle one (5) starting at sample 1000, 100 samples per column, 1250 samples.
    assert_eq!(column_span(1000, 100, 10, 5, 1250), ColumnSpan::Samples(1000, 1100));
    assert_eq!(column_span(1000, 100, 10, 7, 1250), ColumnSpan::Samples(1200, 1250));
    assert_eq!(column_span(1000, 100, 10, 8, 1250), ColumnSpan::PastEnd);
    assert_eq!(column_span(100, 100, 10, 3, 1250), ColumnSpan::BeforeStart);
    assert_eq!(column_span(100, 100, 10, 4, 1250), ColumnSpan::Samples(0, 100));
}

#[test]
fn smoothing_windows_and_dots() {
    assert_eq!(smooth_window(0, 3, 10), (0, 4));
    assert_eq!(smooth_window(5, 3, 10), (2, 9));
    assert_eq!(smooth_window(9, 3, 10), (6, 10));
    assert_eq!(bottom_dot(30, 0, 24), 23);
    assert_eq!(bottom_dot(13, 11, 24), 12);
    assert_eq!(bottom_dot(12, 11, 24), 12);
    assert_eq!(bottom_dot(5, 5, 24), 5);
    // Two cells; dots 2..=5 lit: rows 2,3 of the first cell and rows 0,1 of the second.
    assert_eq!(braille_column(2, 2, 5), vec![0x24 | 0xC0, 0x09 | 0x12]);
    assert_eq!(braille_column(1, 0, 3), vec![0xFF]);
    assert_eq!(braille_column(2, 5, 4), vec![0, 0]);
}

#[test]
fn tick_gaps_and_marks() {
    assert_eq!(min_gap(&[]), usize::MAX);
    assert_eq!(min_gap(&[3]), usize::MAX);
    assert_eq!(min_gap(&[0, 5, 7, 20]), 2);
    assert_eq!(min_gap(&[5, 3]), 0);
    assert_eq!(tick_mark(6, 10), Some((3, 0x47)));
    assert_eq!(tick_mark(7, 10), Some((3, 0xB8)));
    assert_eq!(tick_mark(-1, 10), None);
    assert_eq!(tick_mark(20, 10), None);
}

#[test]
fn click_inside_overview_gives_column() {
    let area = Rect { x: 2, y: 10, width: 40, height: 3 };
    assert_eq!(column_within(area, 2, 10), Some(0));
    assert_eq!(column_within(area, 41, 12), Some(39));
    assert_eq!(column_within(area, 42, 11), None);
    assert_eq!(column_within(area, 5, 13), None);
    assert_eq!(column_within(area, 1, 11), None);
}

#[test]
fn click_seeks_to_bar_at_or_left() {
    let cols = [0usize, 8, 16, 24];
    assert_eq!(bar_at_or_before(&cols, 15), Some(1));
    assert_eq!(bar_at_or_before(&cols, 16), Some(2));
    assert_eq!(bar_at_or_before(&cols, 99), Some(3));
    assert_eq!(bar_at_or_before(&[4, 9], 3), None);
    assert_eq!(bar_at_or_before(&[], 3), None);
}

#[test]
fn buckets_cover_all_samples_evenly() {
    let n = 10_007usize;
    let b = 4000usize;
    let mut next = 0;
    for i in 0..b {
        let (s, e) = bucket_range(n, b, i);
        assert_eq!(s, next);
        assert!(e - s == 2 || e - s == 3);
        next = e;
    }
    assert_eq!(next, n);
    assert_eq!(bucket_range(10, 4, 1), (2, 5));
}
