use tui_synth::scale::pitch_class_label;
use tui_synth::{Scale, ScaleQuantizer};

#[test]
fn quantize_off_returns_input() {
    let q = ScaleQuantizer::new();
    assert!(!q.active());
    for n in [0u8, 1, 61, 127, 200] {
        assert_eq!(q.quantize(n), n);
    }
}

#[test]
fn quantize_major_keeps_scale_notes() {
    let q = ScaleQuantizer { scale: Scale::Major, root: 0 };
    assert!(q.active());
    assert_eq!(q.quantize(60), 60);
    assert_eq!(q.quantize(62), 62);
    assert_eq!(q.quantize(71), 71);
}

#[test]
fn quantize_major_tie_goes_to_lower_degree() {
    let q = ScaleQuantizer { scale: Scale::Major, root: 0 };
    // 61 is one semitone from both 60 and 62: the earlier degree wins.
    assert_eq!(q.quantize(61), 60);
    assert_eq!(q.quantize(63), 62);
    assert_eq!(q.quantize(66), 65);
}

#[test]
fn quantize_uses_root() {
    let q = ScaleQuantizer { scale: Scale::Major, root: 2 };
    // C# is the seventh degree of D major.
    assert_eq!(q.quantize(61), 61);
    assert_eq!(q.quantize(60), 59);
}

#[test]
fn quantize_wraps_across_octave() {
    let q = ScaleQuantizer { scale: Scale::PentaMinor, root: 0 };
    // 11 is one below the next octave's root.
    assert_eq!(q.quantize(59), 60);
}

#[test]
fn quantize_clamps_to_pitch_range() {
    let q = ScaleQuantizer { scale: Scale::Major, root: 11 };
    // Pitch 0 is C, one above B: the nearest B would be -1.
    assert_eq!(q.quantize(0), 0);
}

#[test]
fn scale_cycle_and_names() {
    let mut s = Scale::Off;
    let names = ["Off", "Major", "Minor", "Penta Maj", "Penta Min", "Blues", "Dorian", "Mixolydian"];
    let shorts = ["Off", "Maj", "Min", "PMaj", "PMin", "Blues", "Dor", "Mix"];
    for i in 0..8 {
        assert_eq!(s.name(), names[i]);
        assert_eq!(s.short_name(), shorts[i]);
        s = s.next();
    }
    assert_eq!(s, Scale::Off);
}

#[test]
fn scale_intervals_tables() {
    assert_eq!(Scale::Off.intervals(), vec![0, 1, 2, 3, 4, 5, 6, 7, 8, 9, 10, 11]);
    assert_eq!(Scale::Major.intervals(), vec![0, 2, 4, 5, 7, 9, 11]);
    assert_eq!(Scale::Blues.intervals(), vec![0, 3, 5, 6, 7, 10]);
    assert_eq!(Scale::Mixolydian.intervals(), vec![0, 2, 4, 5, 7, 9, 10]);
}

#[test]
fn root_cycles_through_twelve_names() {
    let mut q = ScaleQuantizer::new();
    assert_eq!(q.root_name(), "C");
    q.cycle_root();
    assert_eq!(q.root_name(), "C#");
    for _ in 0..10 {
        q.cycle_root();
    }
    assert_eq!(q.root, 11);
    assert_eq!(q.root_name(), "B");
    q.cycle_root();
    assert_eq!(q.root, 0);
    assert_eq!(pitch_class_label(9), "A");
}

#[test]
fn quantized_pitch_is_the_nearest_scale_note() {
    let mut scale = Scale::Major;
    while scale != Scale::Off {
        let ivs = scale.intervals();
        for root in 0u8..12 {
            let q = ScaleQuantizer { scale, root };
            let in_scale = |p: i32| ivs.contains(&(((p - root as i32).rem_euclid(12)) as u8));
            for note in 0u8..=127 {
                let out = q.quantize(note) as i32;
                let n = note as i32;
                if out == 0 || out == 127 {
                    continue;
                }
                assert!(in_scale(out), "{:?} root {} note {} -> {}", scale, root, note, out);
                for p in (n - 12)..=(n + 12) {
                    if in_scale(p) {
                        assert!((out - n).abs() <= (p - n).abs());
                    }
                }
            }
        }
        scale = scale.next();
    }
}
