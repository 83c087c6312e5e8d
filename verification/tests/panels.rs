use tj::panels::{
    cache_indicators, editor_field_rows, editor_popup_size, in_stopband, indicator, notice_for, spinner_frame,
    Indicator, Notice,
};
use tj::panels::{divider_fill, spacer};

fn s(v: &[char]) -> String {
    v.iter().collect()
}

#[test]
fn field_wraps_and_places_cursor() {
    let rows = editor_field_rows("  Title", "abcdefg", true, 3, 3);
    assert_eq!(rows.len(), 3);
    assert_eq!(s(&rows[0].prefix), "  Title: ");
    assert_eq!(s(&rows[1].prefix), "         ");
    assert_eq!(s(&rows[0].text), "abc");
    assert_eq!(s(&rows[1].text), "def");
    assert_eq!(s(&rows[2].text), "g");
    assert_eq!(rows[0].cursor, None);
    assert_eq!(rows[1].cursor, Some(0));
    assert_eq!(rows[2].cursor, None);
}

#[test]
fn cursor_at_end_goes_to_last_row() {
    let rows = editor_field_rows(" Artist", "abcdef", true, 99, 3);
    assert_eq!(rows.len(), 2);
    assert_eq!(rows[0].cursor, None);
    assert_eq!(rows[1].cursor, Some(3));
    let rows = editor_field_rows(" Artist", "abcdef", false, 2, 3);
    assert!(rows.iter().all(|r| r.cursor.is_none()));
}

#[test]
fn empty_field_has_one_row() {
    let rows = editor_field_rows("Comment", "", true, 0, 25);
    assert_eq!(rows.len(), 1);
    assert_eq!(s(&rows[0].text), "");
    assert_eq!(rows[0].cursor, Some(0));
}

#[test]
fn popup_size_is_clamped() {
    assert_eq!(editor_popup_size(200, 50, 14), (64, 16, 53, 62));
    assert_eq!(editor_popup_size(20, 10, 14), (36, 10, 25, 34));
    assert_eq!(editor_popup_size(50, 50, 14), (50, 16, 39, 48));
}

#[test]
fn indicators() {
    assert_eq!(indicator(true, false), Indicator::Lit);
    assert_eq!(indicator(true, true), Indicator::Dim);
    assert_eq!(indicator(false, false), Indicator::Dark);
    assert_eq!(
        cache_indicators(true, false, true, false),
        (Indicator::Lit, Indicator::Lit, Indicator::Lit)
    );
    assert_eq!(
        cache_indicators(false, false, false, true),
        (Indicator::Dark, Indicator::Dark, Indicator::Dark)
    );
}

#[test]
fn notices() {
    assert_eq!(notice_for(Some(3), true, true, 0, 5, 80), Notice::BpmPrompt { secs_left: 12, urgent: false });
    assert_eq!(notice_for(Some(11), false, false, 0, 5, 80), Notice::BpmPrompt { secs_left: 4, urgent: true });
    assert_eq!(notice_for(Some(40), false, false, 0, 5, 80), Notice::BpmPrompt { secs_left: 0, urgent: true });
    assert_eq!(notice_for(None, true, true, 0, 5, 80), Notice::Message);
    // "rename? [y]  (10s)" is 18 wide: 80 - (5 + 18 + 1 + 16) = 40.
    assert_eq!(
        notice_for(None, false, true, 0, 5, 80),
        Notice::RenameOffer { countdown: Some(10), spacer: 40 }
    );
    assert_eq!(
        notice_for(None, false, true, 3, 5, 80),
        Notice::RenameOffer { countdown: Some(7), spacer: 41 }
    );
    assert_eq!(notice_for(None, false, true, 12, 5, 80), Notice::RenameOffer { countdown: None, spacer: 47 });
    assert_eq!(notice_for(None, false, false, 0, 5, 80), Notice::TrackName { spacer: 59 });
    assert_eq!(notice_for(None, false, false, 0, 90, 80), Notice::TrackName { spacer: 1 });
}

#[test]
fn spinner_and_stopband() {
    assert_eq!(spinner_frame(0), 0);
    assert_eq!(spinner_frame(6), 1);
    assert_eq!(spinner_frame(59), 9);
    assert_eq!(spinner_frame(60), 0);
    assert!(!in_stopband(0, 0));
    assert!(in_stopband(-3, 13));
    assert!(!in_stopband(-3, 12));
    assert!(in_stopband(3, 2));
    assert!(!in_stopband(3, 3));
}

#[test]
fn spacers_and_dividers() {
    assert_eq!(spacer(80, 30, 20), 30);
    assert_eq!(spacer(40, 30, 20), 1);
    assert_eq!(spacer(51, 30, 20), 1);
    assert_eq!(divider_fill(62, 4), 54);
    assert_eq!(divider_fill(6, 4), 0);
}
