use tui_synth::drums::{track_kind, NUM_TRACKS};
use tui_synth::{DrumKind, DrumMachine, Hit};

fn running(sample_rate: u32) -> DrumMachine {
    let mut d = DrumMachine::new(sample_rate);
    d.toggle_play();
    d
}

#[test]
fn new_machine_has_eight_empty_tracks() {
    let d = DrumMachine::new(44100);
    assert_eq!(d.tracks.len(), NUM_TRACKS);
    assert_eq!(d.num_steps, 16);
    for (i, t) in d.tracks.iter().enumerate() {
        assert_eq!(t.kind, track_kind(i));
        assert_eq!(t.steps, vec![false; 16]);
        assert!(!t.muted);
        assert_eq!(t.volume, 80);
    }
    assert!(!d.playing);
    assert!(d.hits.is_empty());
}

#[test]
fn kind_names_and_lengths() {
    let names = ["Kick", "Snare", "C-Hat", "O-Hat", "Clap", "L.Tom", "M.Tom", "H.Tom"];
    for i in 0..8 {
        assert_eq!(track_kind(i).name(), names[i]);
    }
    assert_eq!(DrumKind::ClosedHat.decay_ms(), 60);
    assert_eq!(DrumKind::Kick.decay_ms(), 300);
}

#[test]
fn step_boundary_fires_set_unmuted_tracks_in_order() {
    let mut d = running(100);
    d.toggle_step(3, 0);
    d.toggle_step(0, 0);
    d.toggle_step(1, 1);
    d.tick(120);
    assert_eq!(d.hits, vec![Hit { track: 0, age: 0 }, Hit { track: 3, age: 0 }]);
    d.tick(120);
    assert_eq!(d.hits, vec![Hit { track: 0, age: 1 }, Hit { track: 3, age: 1 }]);
}

#[test]
fn muted_track_stays_silent() {
    let mut d = running(100);
    d.toggle_step(0, 0);
    d.toggle_step(1, 0);
    d.toggle_mute(0);
    assert!(d.tracks[0].muted);
    d.tick(120);
    assert_eq!(d.hits, vec![Hit { track: 1, age: 0 }]);
}

#[test]
fn stopped_machine_fires_nothing() {
    let mut d = DrumMachine::new(100);
    d.toggle_step(0, 0);
    for _ in 0..100 {
        d.tick(120);
    }
    assert!(d.hits.is_empty());
    assert_eq!(d.current_step, 0);
}

#[test]
fn toggling_one_track_leaves_others_alone() {
    let mut d = DrumMachine::new(44100);
    d.toggle_step(2, 5);
    assert!(d.tracks[2].steps[5]);
    for t in [0usize, 1, 3, 4, 5, 6, 7] {
        assert!(!d.tracks[t].steps[5]);
    }
    d.toggle_step(2, 5);
    assert!(!d.tracks[2].steps[5]);
    d.toggle_step(4, 6);
    d.clear_step(4, 6);
    assert!(!d.tracks[4].steps[6]);
}

#[test]
fn out_of_range_edits_are_ignored() {
    let mut d = DrumMachine::new(44100);
    d.toggle_step(8, 0);
    d.toggle_step(0, 16);
    d.clear_step(0, 99);
    d.toggle_mute(12);
    d.track_volume_up(8);
    d.trigger_now(8);
    assert!(d.tracks.iter().all(|t| t.steps.iter().all(|s| !s) && !t.muted && t.volume == 80));
    assert!(d.hits.is_empty());
}

#[test]
fn preview_plays_while_stopped() {
    let mut d = DrumMachine::new(44100);
    d.trigger_now(4);
    assert_eq!(d.hits, vec![Hit { track: 4, age: 0 }]);
    assert!(!d.playing);
    assert_eq!(d.current_step, 0);
}

#[test]
fn hits_overlap_and_expire() {
    // At 1000 samples per second a closed hat lasts 60 samples.
    let mut d = DrumMachine::new(1000);
    d.trigger_now(2);
    for _ in 0..10 {
        d.tick(120);
    }
    d.trigger_now(2);
    assert_eq!(d.hits, vec![Hit { track: 2, age: 10 }, Hit { track: 2, age: 0 }]);
    for _ in 0..49 {
        d.tick(120);
    }
    assert_eq!(d.hits, vec![Hit { track: 2, age: 59 }, Hit { track: 2, age: 49 }]);
    d.tick(120);
    assert_eq!(d.hits, vec![Hit { track: 2, age: 50 }]);
    for _ in 0..10 {
        d.tick(120);
    }
    assert!(d.hits.is_empty());
}

#[test]
fn track_volume_steps_and_limits() {
    let mut d = DrumMachine::new(44100);
    d.track_volume_up(1);
    assert_eq!(d.tracks[1].volume, 90);
    d.track_volume_up(1);
    d.track_volume_up(1);
    assert_eq!(d.tracks[1].volume, 100);
    for _ in 0..12 {
        d.track_volume_down(1);
    }
    assert_eq!(d.tracks[1].volume, 0);
    assert_eq!(d.tracks[0].volume, 80);
}

#[test]
fn drum_resize_applies_to_every_track() {
    let mut d = DrumMachine::new(44100);
    d.toggle_step(0, 15);
    d.toggle_step(7, 3);
    d.current_step = 12;
    d.cycle_num_steps();
    assert_eq!(d.num_steps, 24);
    assert!(d.tracks.iter().all(|t| t.steps.len() == 24));
    assert!(d.tracks[0].steps[15]);
    assert!(d.tracks[7].steps[3]);
    assert_eq!(d.current_step, 12);
    d.cycle_num_steps();
    d.cycle_num_steps();
    assert_eq!(d.num_steps, 8);
    assert!(d.tracks.iter().all(|t| t.steps.len() == 8));
    assert!(d.tracks[7].steps[3]);
    assert_eq!(d.current_step, 0);
}

#[test]
fn drum_clock_matches_melodic_clock() {
    let mut d = running(44100);
    d.toggle_step(0, 0);
    d.toggle_step(0, 1);
    for _ in 0..5512 {
        d.tick(120);
    }
    assert_eq!(d.current_step, 1);
    assert_eq!(d.hits.len(), 1);
    d.tick(120);
    assert_eq!(d.hits.len(), 2);
}
