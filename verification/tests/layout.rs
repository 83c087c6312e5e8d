use tj::layout::{layout_rows, max_detail_height, Rows};

fn total(r: &Rows) -> u32 {
    [r.global, r.detail_info, r.detail_a, r.detail_b, r.notif_a, r.info_a, r.overview_a, r.notif_b, r.info_b, r.overview_b, r.spacer]
        .iter()
        .map(|&x| x as u32)
        .sum()
}

#[test]
fn full_size_when_it_fits() {
    let r = layout_rows(40, 6);
    assert_eq!((r.detail_a, r.detail_b, r.overview_a, r.overview_b), (6, 6, 3, 3));
    assert_eq!(r.spacer, 40 - (6 + 12 + 6));
    assert_eq!(total(&r), 40);
}

#[test]
fn details_shrink_first() {
    // 6 fixed + 6 overview rows leave 10 rows for the details.
    let r = layout_rows(22, 6);
    assert_eq!((r.detail_a, r.detail_b), (5, 5));
    assert_eq!((r.overview_a, r.overview_b), (3, 3));
    assert_eq!(total(&r), 22);
}

#[test]
fn then_overviews_shrink() {
    let r = layout_rows(16, 6);
    assert_eq!((r.detail_a, r.detail_b), (3, 3));
    assert_eq!((r.overview_a, r.overview_b), (2, 2));
    assert_eq!(total(&r), 16);
}

#[test]
fn then_waveforms_fall_off_whole() {
    let r = layout_rows(11, 3);
    assert_eq!((r.detail_a, r.detail_b), (3, 3));
    assert_eq!(r.overview_a, 0);
    assert_eq!(r.overview_b, 0);
    // The overview's partial row is left unused.
    assert_eq!(total(&r), 10);
    let r = layout_rows(0, 3);
    assert_eq!(total(&r), 0);
}

#[test]
fn max_detail_height_from_screen() {
    assert_eq!(max_detail_height(40), 15);
    assert_eq!(max_detail_height(10), 0);
    assert_eq!(max_detail_height(3), 0);
}

#[test]
fn shrinking_screen_never_grows_a_waveform() {
    let mut prev = layout_rows(60, 8);
    for ih in (16..60).rev() {
        let r = layout_rows(ih, 8);
        assert!(r.detail_a <= prev.detail_a);
        assert!(r.overview_a <= prev.overview_a);
        if r.overview_a < 3 {
            assert_eq!(r.detail_a, 3);
        }
        prev = r;
    }
}
