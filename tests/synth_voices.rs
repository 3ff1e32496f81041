use tui_synth::synth::TUNING_SIZE;
use tui_synth::{note_name, EnvelopeParams, EnvelopeStage, Synth, Voice, WaveType, LEVEL_ONE};

fn tuning() -> Vec<u32> {
    (0..TUNING_SIZE as u32).map(|p| p * 1000).collect()
}

/// A synth at 1000 samples per second, so that milliseconds are samples.
fn synth() -> Synth {
    Synth::new(1000, tuning())
}

#[test]
fn new_synth_defaults() {
    let s = synth();
    assert_eq!(s.bpm, 120);
    assert_eq!(s.wave_type, WaveType::Sine);
    assert_eq!((s.attack, s.decay, s.sustain, s.release), (10, 100, 700_000, 300));
    assert_eq!(s.volume, 50);
    assert!(s.voices.is_empty());
}

#[test]
fn note_on_starts_a_silent_attack() {
    let mut s = synth();
    s.note_on(60);
    assert_eq!(s.voices.len(), 1);
    let v = s.voices[0];
    assert_eq!(v.pitch, 60);
    assert_eq!(v.phase, 0);
    assert_eq!(v.phase_step, 60_000);
    assert_eq!(v.stage, EnvelopeStage::Attack);
    assert_eq!(v.level, 0);
}

#[test]
fn repeated_note_on_replaces_the_voice() {
    let mut s = synth();
    s.note_on(60);
    s.note_on(64);
    for _ in 0..5 {
        s.tick();
    }
    s.note_on(60);
    assert_eq!(s.active_notes(), vec![60, 64]);
    assert_eq!(s.voices[0].level, 0);
    assert_eq!(s.voices[0].phase, 0);
    assert_eq!(s.voices[1].level, 500_000);
}

#[test]
fn note_off_without_voice_does_nothing() {
    let mut s = synth();
    s.note_on(60);
    s.note_off(61);
    assert_eq!(s.voices[0].stage, EnvelopeStage::Attack);
}

#[test]
fn envelope_attack_decay_sustain() {
    let mut s = synth();
    s.note_on(60);
    for k in 1..10u32 {
        s.tick();
        assert_eq!(s.voices[0].level, k * 100_000);
        assert_eq!(s.voices[0].stage, EnvelopeStage::Attack);
    }
    s.tick();
    assert_eq!(s.voices[0].level, LEVEL_ONE);
    assert_eq!(s.voices[0].stage, EnvelopeStage::Decay);
    s.tick();
    assert_eq!(s.voices[0].level, LEVEL_ONE - 3_000);
    for _ in 0..99 {
        s.tick();
    }
    assert_eq!(s.voices[0].stage, EnvelopeStage::Sustain);
    assert_eq!(s.voices[0].level, 700_000);
    // A live sustain change applies at once.
    s.set_envelope(10, 100, 400_000, 300);
    s.tick();
    assert_eq!(s.voices[0].level, 400_000);
}

#[test]
fn release_drains_to_zero_then_voice_leaves() {
    let mut s = synth();
    s.note_on(60);
    for _ in 0..200 {
        s.tick();
    }
    assert_eq!(s.voices[0].stage, EnvelopeStage::Sustain);
    s.note_off(60);
    assert_eq!(s.voices[0].stage, EnvelopeStage::Release);
    assert_eq!(s.voices[0].release_level, 700_000);
    let mut last = s.voices[0].level;
    let mut ticks = 0;
    while !s.voices.is_empty() {
        s.tick();
        ticks += 1;
        if let Some(v) = s.voices.first() {
            assert!(v.level <= last);
            assert_eq!(v.stage, EnvelopeStage::Release);
            last = v.level;
        }
    }
    // 300 ms at 1000 samples per second: exactly 300 samples, the level
    // falling by 2333 1/3 units per sample.
    assert_eq!(ticks, 300);
    assert_eq!(last, 700_000 - 697_666);
}

#[test]
fn release_of_silent_voice_ends_next_sample() {
    let mut s = synth();
    s.note_on(60);
    s.note_off(60);
    assert_eq!(s.voices[0].release_level, 0);
    s.tick();
    assert!(s.voices.is_empty());
}

#[test]
fn released_voice_reaches_off_at_zero() {
    let p = EnvelopeParams { sample_rate: 1000, attack_ms: 10, decay_ms: 100, sustain: 700_000, release_ms: 5 };
    let mut v = Voice::new(69, 7);
    v.level = 1_000;
    v.release();
    let mut n = 0;
    while !v.is_finished() {
        v.next_sample(p);
        n += 1;
    }
    assert_eq!(n, 5);
    assert_eq!(v.level, 0);
    v.next_sample(p);
    assert_eq!(v.stage, EnvelopeStage::Off);
}

#[test]
fn release_at_44100_lasts_the_release_time() {
    let p = EnvelopeParams { sample_rate: 44100, attack_ms: 10, decay_ms: 100, sustain: 700_000, release_ms: 300 };
    let mut v = Voice::new(60, 0);
    v.level = 700_000;
    v.release();
    let mut n = 0;
    let mut last = v.level;
    while !v.is_finished() {
        v.next_sample(p);
        assert!(v.level <= last);
        last = v.level;
        n += 1;
    }
    assert_eq!(n, 13230);
}

#[test]
fn small_release_level_still_takes_the_release_time() {
    // 2 ms at 1300 Hz is 2.6 samples: the release ends on the third.
    let p = EnvelopeParams { sample_rate: 1300, attack_ms: 10, decay_ms: 100, sustain: 700_000, release_ms: 2 };
    let mut v = Voice::new(60, 0);
    v.level = 5;
    v.release();
    let mut n = 0;
    while !v.is_finished() {
        v.next_sample(p);
        n += 1;
    }
    assert_eq!(n, 3);
    assert_eq!(v.level, 0);
}

#[test]
fn phase_wraps_once_per_cycle() {
    let p = EnvelopeParams { sample_rate: 1000, attack_ms: 10, decay_ms: 100, sustain: 700_000, release_ms: 300 };
    let mut v = Voice::new(60, 1 << 30);
    let mut phases = Vec::new();
    for _ in 0..8 {
        v.next_sample(p);
        phases.push(v.sounding_phase());
    }
    assert_eq!(phases, vec![0, 1 << 30, 2 << 30, 3 << 30, 0, 1 << 30, 2 << 30, 3 << 30]);
    assert_eq!(v.phase, 0);
}

#[test]
fn sequencer_steps_drive_voices() {
    let mut s = synth();
    s.sequencer.set_step(0, 60);
    s.sequencer.set_step(1, 64);
    s.sequencer.toggle_play();
    s.tick();
    assert_eq!(s.active_notes(), vec![60]);
    // 1000 * 60 / (120 * 4) = 125 samples per step.
    for _ in 1..125 {
        s.tick();
    }
    s.tick();
    assert_eq!(s.active_notes(), vec![60, 64]);
    assert_eq!(s.voices[0].stage, EnvelopeStage::Release);
    assert_eq!(s.voices[1].stage, EnvelopeStage::Attack);
}

#[test]
fn pausing_sequencer_releases_held_note() {
    let mut s = synth();
    s.sequencer.set_step(0, 60);
    s.sequencer.toggle_play();
    s.tick();
    if let Some(n) = s.sequencer.toggle_play() {
        s.note_off(n);
    }
    assert_eq!(s.voices[0].stage, EnvelopeStage::Release);
}

#[test]
fn drums_tick_with_the_synth() {
    let mut s = synth();
    s.drum_machine.toggle_step(0, 0);
    s.drum_machine.toggle_play();
    s.tick();
    assert_eq!(s.drum_machine.hits.len(), 1);
}

#[test]
fn tempo_and_volume_limits() {
    let mut s = synth();
    s.bpm_up();
    assert_eq!(s.bpm, 125);
    s.set_bpm(298);
    s.bpm_up();
    assert_eq!(s.bpm, 300);
    s.set_bpm(0);
    assert_eq!(s.bpm, 30);
    s.bpm_down();
    assert_eq!(s.bpm, 30);
    s.set_bpm(1000);
    assert_eq!(s.bpm, 300);
    for _ in 0..20 {
        s.volume_up();
    }
    assert_eq!(s.volume, 100);
    s.volume_down();
    assert_eq!(s.volume, 95);
    for _ in 0..30 {
        s.volume_down();
    }
    assert_eq!(s.volume, 0);
}

#[test]
fn envelope_settings_are_kept_in_range() {
    let mut s = synth();
    s.set_envelope(0, 0, 2_000_000, 0);
    assert_eq!((s.attack, s.decay, s.sustain, s.release), (1, 1, LEVEL_ONE, 1));
    s.set_envelope(5, 50, 250_000, 80);
    assert_eq!((s.attack, s.decay, s.sustain, s.release), (5, 50, 250_000, 80));
}

#[test]
fn waveform_cycle_and_names() {
    let mut s = synth();
    let names = ["Sine", "Square", "Sawtooth", "Triangle"];
    for n in names {
        assert_eq!(s.wave_type.name(), n);
        s.cycle_wave();
    }
    assert_eq!(s.wave_type, WaveType::Sine);
}

#[test]
fn note_names() {
    assert_eq!(note_name(60), "C4");
    assert_eq!(note_name(69), "A4");
    assert_eq!(note_name(0), "C-1");
    assert_eq!(note_name(13), "C#0");
    assert_eq!(note_name(127), "G9");
    assert_eq!(note_name(131), "B9");
    assert_eq!(note_name(132), "C10");
    assert_eq!(note_name(255), "D#20");
}
