use strong_lines::audio::{parse_mute_flag, render_mute_flag, AudioSettings};

#[test]
fn parse_mute_flag_cases() {
    assert!(parse_mute_flag(&b"true".to_vec()));
    assert!(parse_mute_flag(&b"  true\n".to_vec()));
    assert!(parse_mute_flag(&b"\ttrue \r\n".to_vec()));
    assert!(!parse_mute_flag(&b"false".to_vec()));
    assert!(!parse_mute_flag(&b"True".to_vec()));
    assert!(!parse_mute_flag(&b"truex".to_vec()));
    assert!(!parse_mute_flag(&b"".to_vec()));
    assert!(!parse_mute_flag(&b"   ".to_vec()));
}

#[test]
fn mute_flag_round_trip() {
    assert!(parse_mute_flag(&render_mute_flag(true)));
    assert!(!parse_mute_flag(&render_mute_flag(false)));
    assert_eq!(render_mute_flag(true), b"true".to_vec());
    assert_eq!(render_mute_flag(false), b"false".to_vec());
}

#[test]
fn toggle_mute_flips() {
    let mut s = AudioSettings::new(false, 2);
    s.toggle_mute();
    assert!(s.muted);
    s.toggle_mute();
    assert!(!s.muted);
}

#[test]
fn track_switching_wraps_around() {
    let mut s = AudioSettings::new(false, 3);
    assert_eq!(s.track_index, 0);
    s.next_track();
    assert_eq!(s.track_index, 1);
    s.next_track();
    assert_eq!(s.track_index, 2);
    s.next_track();
    assert_eq!(s.track_index, 0);
    s.prev_track();
    assert_eq!(s.track_index, 2);
    s.prev_track();
    assert_eq!(s.track_index, 1);
}

#[test]
fn random_track_stays_in_range() {
    let mut s = AudioSettings::new(false, 4);
    for _ in 0..30 {
        s.pick_random_track();
        assert!(s.track_index < 4);
    }
    let mut empty = AudioSettings::new(false, 0);
    empty.pick_random_track();
    assert_eq!(empty.track_index, 0);
    assert!(!s.is_muted());
}

#[test]
fn track_switching_without_tracks() {
    let mut s = AudioSettings::new(true, 0);
    s.next_track();
    assert_eq!(s.track_index, 0);
    s.prev_track();
    assert_eq!(s.track_index, 0);
}
