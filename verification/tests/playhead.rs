use tj::playhead::{frame_sample, jump_to, next_sample, request_seek, Playhead, SampleStep, FADE_SAMPLES};

fn playing_at(position: usize) -> Playhead {
    Playhead { position, fade: 0, fade_len: FADE_SAMPLES, pending: None }
}

#[test]
fn plain_playback_reads_on_at_full_gain() {
    let mut p = playing_at(10);
    assert_eq!(next_sample(&mut p), SampleStep { read_at: 10, gain_num: 1, gain_den: 1 });
    assert_eq!(next_sample(&mut p), SampleStep { read_at: 11, gain_num: 1, gain_den: 1 });
    assert_eq!(p.position, 12);
}

#[test]
fn seek_fades_out_jumps_and_fades_in() {
    let mut p = playing_at(100);
    request_seek(&mut p, 5000, 4);
    let gains: Vec<(usize, i64)> = (0..4).map(|_| { let s = next_sample(&mut p); (s.read_at, s.gain_num) }).collect();
    assert_eq!(gains, vec![(100, 4), (101, 3), (102, 2), (103, 1)]);
    assert_eq!(p, Playhead { position: 5000, fade: 4, fade_len: 4, pending: None });
    let gains: Vec<(usize, i64)> = (0..4).map(|_| { let s = next_sample(&mut p); (s.read_at, s.gain_num) }).collect();
    assert_eq!(gains, vec![(5000, 0), (5001, 1), (5002, 2), (5003, 3)]);
    assert_eq!(p, Playhead { position: 5004, fade: 0, fade_len: 4, pending: None });
}

#[test]
fn jump_cancels_a_seek() {
    let mut p = playing_at(0);
    request_seek(&mut p, 900, 8);
    next_sample(&mut p);
    jump_to(&mut p, 42);
    assert_eq!(p, Playhead { position: 42, fade: 0, fade_len: 8, pending: None });
    assert_eq!(next_sample(&mut p).read_at, 42);
}

#[test]
fn position_wraps_at_the_end() {
    let mut p = playing_at(usize::MAX);
    next_sample(&mut p);
    assert_eq!(p.position, 0);
}

#[test]
fn frame_samples() {
    assert_eq!(frame_sample(10, 2, 100), 20);
    assert_eq!(frame_sample(60, 2, 100), 100);
}
