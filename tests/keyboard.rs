use tui_synth::keys::{octave_down, octave_up, preview_track, wrap_next, wrap_prev};
use tui_synth::{key_to_note, AppMode};

#[test]
fn keys_map_to_two_rows() {
    assert_eq!(key_to_note('z', 4), Some(60));
    assert_eq!(key_to_note('s', 4), Some(61));
    assert_eq!(key_to_note('/', 4), Some(76));
    assert_eq!(key_to_note('q', 4), Some(72));
    assert_eq!(key_to_note('0', 4), Some(87));
    assert_eq!(key_to_note('p', 0), Some(40));
    assert_eq!(key_to_note('z', -1), Some(0));
}

#[test]
fn keys_outside_range_or_unmapped() {
    assert_eq!(key_to_note('a', 4), None);
    assert_eq!(key_to_note('1', 4), None);
    assert_eq!(key_to_note('p', 8), None);
    assert_eq!(key_to_note('m', 8), Some(119));
    assert_eq!(key_to_note('z', -2), None);
    assert_eq!(key_to_note('z', i32::MAX), None);
    assert_eq!(key_to_note('q', i32::MIN), None);
}

#[test]
fn focus_cycles_through_three_panels() {
    assert_eq!(AppMode::Play.next(), AppMode::SynthSeq);
    assert_eq!(AppMode::SynthSeq.next(), AppMode::Drums);
    assert_eq!(AppMode::Drums.next(), AppMode::Play);
}

#[test]
fn cursors_wrap() {
    assert_eq!(wrap_prev(0, 16), 15);
    assert_eq!(wrap_prev(5, 16), 4);
    assert_eq!(wrap_next(15, 16), 0);
    assert_eq!(wrap_next(3, 8), 4);
}

#[test]
fn octave_limits() {
    assert_eq!(octave_up(4), 5);
    assert_eq!(octave_up(8), 8);
    assert_eq!(octave_down(0), 0);
    assert_eq!(octave_down(3), 2);
}

#[test]
fn preview_keys() {
    let keys = ['z', 'x', 'c', 'v', 'b', 'n', 'm', ','];
    for (i, k) in keys.iter().enumerate() {
        assert_eq!(preview_track(*k), Some(i));
    }
    assert_eq!(preview_track('q'), None);
}
