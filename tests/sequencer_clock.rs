use tui_synth::sequencer::cycled_length;
use tui_synth::{samples_per_step, Sequencer};

#[test]
fn step_length_at_120_bpm() {
    assert_eq!(samples_per_step(44100, 120), 5512);
    assert_eq!(samples_per_step(48000, 120), 6000);
    assert_eq!(samples_per_step(44100, 300), 2205);
    // Never below one sample.
    assert_eq!(samples_per_step(1, 300), 1);
}

#[test]
fn one_event_per_step_while_playing() {
    let mut s = Sequencer::new(44100);
    assert_eq!(s.toggle_play(), None);
    let mut events = 0;
    for _ in 0..(5512 * 3) {
        if s.tick(120).is_some() {
            events += 1;
        }
    }
    assert_eq!(events, 3);
    assert_eq!(s.current_step, 3);
    assert_eq!(s.sample_counter, 0);
}

#[test]
fn event_on_first_sample_of_each_step() {
    let mut s = Sequencer::new(44100);
    s.toggle_play();
    assert!(s.tick(120).is_some());
    for _ in 1..5512 {
        assert!(s.tick(120).is_none());
    }
    assert_eq!(s.current_step, 1);
    assert!(s.tick(120).is_some());
}

#[test]
fn no_events_while_stopped() {
    let mut s = Sequencer::new(44100);
    for _ in 0..20000 {
        assert!(s.tick(120).is_none());
    }
    assert_eq!(s.current_step, 0);
    assert_eq!(s.sample_counter, 0);
}

#[test]
fn event_pairs_previous_off_with_current_on() {
    let mut s = Sequencer::new(100);
    s.set_step(0, 60);
    s.set_step(15, 72);
    s.set_step(1, 64);
    s.toggle_play();
    // 100 * 60 / (120 * 4) = 12.5, rounded to the even 12.
    assert_eq!(samples_per_step(100, 120), 12);
    let ev = s.tick(120).unwrap();
    assert_eq!(ev.note_off, Some(72));
    assert_eq!(ev.note_on, Some(60));
    for _ in 1..12 {
        assert!(s.tick(120).is_none());
    }
    let ev = s.tick(120).unwrap();
    assert_eq!(ev.note_off, Some(60));
    assert_eq!(ev.note_on, Some(64));
}

#[test]
fn tempo_change_applies_immediately() {
    let mut s = Sequencer::new(100);
    s.toggle_play();
    s.tick(120);
    // At 300 bpm a step is 5 samples; the counter already stands at 1.
    for _ in 0..4 {
        s.tick(300);
    }
    assert_eq!(s.current_step, 1);
    assert_eq!(s.sample_counter, 0);
}

#[test]
fn pause_returns_held_note_and_keeps_position() {
    let mut s = Sequencer::new(100);
    s.set_step(0, 60);
    s.toggle_play();
    s.tick(120);
    s.tick(120);
    assert_eq!(s.toggle_play(), Some(60));
    assert!(!s.playing);
    assert_eq!(s.current_step, 0);
    assert_eq!(s.sample_counter, 2);
    assert_eq!(s.toggle_play(), None);
    assert_eq!(s.sample_counter, 0);
}

#[test]
fn stop_rewinds() {
    let mut s = Sequencer::new(100);
    s.set_step(1, 50);
    s.toggle_play();
    for _ in 0..13 {
        s.tick(120);
    }
    assert_eq!(s.current_step, 1);
    assert_eq!(s.stop(), Some(50));
    assert_eq!(s.current_step, 0);
    assert!(!s.playing);
    assert_eq!(s.stop(), None);
}

#[test]
fn resize_16_to_24_keeps_entries() {
    let mut s = Sequencer::new(44100);
    for i in 0..16 {
        s.set_step(i, 40 + i as u8);
    }
    s.current_step = 15;
    s.cycle_num_steps();
    assert_eq!(s.num_steps, 24);
    assert_eq!(s.steps.len(), 24);
    for i in 0..16 {
        assert_eq!(s.steps[i], Some(40 + i as u8));
    }
    for i in 16..24 {
        assert_eq!(s.steps[i], None);
    }
    assert_eq!(s.current_step, 15);
}

#[test]
fn resize_resets_step_only_when_out_of_range() {
    let mut s = Sequencer::new(44100);
    s.cycle_num_steps();
    s.cycle_num_steps();
    assert_eq!(s.num_steps, 32);
    s.current_step = 20;
    s.set_step(3, 70);
    s.cycle_num_steps();
    assert_eq!(s.num_steps, 8);
    assert_eq!(s.current_step, 0);
    assert_eq!(s.steps[3], Some(70));
    s.current_step = 7;
    s.cycle_num_steps();
    assert_eq!(s.num_steps, 16);
    assert_eq!(s.current_step, 7);
    assert_eq!(cycled_length(24), 32);
}

#[test]
fn set_and_clear_outside_pattern_are_ignored() {
    let mut s = Sequencer::new(44100);
    s.set_step(16, 60);
    s.clear_step(99);
    assert_eq!(s.steps.len(), 16);
    assert!(s.steps.iter().all(|x| x.is_none()));
    s.set_step(4, 61);
    assert_eq!(s.steps[4], Some(61));
    s.clear_step(4);
    assert_eq!(s.steps[4], None);
}
