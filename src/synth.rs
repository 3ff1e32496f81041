use vstd::prelude::*;
use crate::drums::{DrumMachine, NUM_TRACKS};
use crate::sequencer::{prev_step, Sequencer};
use crate::voice::{
    lemma_advanced_wf, advanced, fresh_voice, released, wave_after, EnvelopeParams, EnvelopeStage, Voice, WaveType,
    LEVEL_ONE,
};

verus! {

pub const MIN_BPM: u32 = 30;
pub const MAX_BPM: u32 = 300;
pub const BPM_STEP: u32 = 5;
/// Step of a master volume change, in percent.
pub const MASTER_VOLUME_STEP: u32 = 5;
/// Entries of a tuning table: one phase step for every `u8` pitch.
pub const TUNING_SIZE: usize = 256;

/// Index of the voice playing `pitch` in `vs`, or -1 if there is none.
pub open spec fn index_of(vs: Seq<Voice>, pitch: u8) -> int
    decreases vs.len(),
{
    if vs.len() == 0 {
        -1
    } else if vs.last().pitch == pitch {
        vs.len() - 1
    } else {
        index_of(vs.drop_last(), pitch)
    }
}

/// No two voices share a pitch.
pub open spec fn distinct_pitches(vs: Seq<Voice>) -> bool {
    forall|a: int, b: int| 0 <= a < vs.len() && 0 <= b < vs.len() && a != b ==> vs[a].pitch != vs[b].pitch
}

pub open spec fn pitches(vs: Seq<Voice>) -> Seq<u8> {
    vs.map_values(|v: Voice| v.pitch)
}

/// The voices after a note-on: a fresh voice replaces the one already on
/// that pitch, in place, or joins at the end.
pub open spec fn with_note_on(vs: Seq<Voice>, pitch: u8, phase_step: u32) -> Seq<Voice> {
    let i = index_of(vs, pitch);
    if i >= 0 {
        vs.update(i, fresh_voice(pitch, phase_step))
    } else {
        vs.push(fresh_voice(pitch, phase_step))
    }
}

/// The voices after a note-off: the voice on that pitch, if any, is released.
pub open spec fn with_note_off(vs: Seq<Voice>, pitch: u8) -> Seq<Voice> {
    let i = index_of(vs, pitch);
    if i >= 0 {
        vs.update(i, released(vs[i]))
    } else {
        vs
    }
}

/// The voices after a sequencer step event: its note-off first, then its
/// note-on.
pub open spec fn with_event(vs: Seq<Voice>, off: Option<u8>, on: Option<u8>, tuning: Seq<u32>) -> Seq<Voice> {
    let after_off = match off {
        Some(p) => with_note_off(vs, p),
        None => vs,
    };
    match on {
        Some(p) => with_note_on(after_off, p, tuning[p as int]),
        None => after_off,
    }
}

/// Every voice advanced by one sample, with the voices that went off dropped;
/// order is kept.
pub open spec fn rendered(vs: Seq<Voice>, p: EnvelopeParams) -> Seq<Voice>
    decreases vs.len(),
{
    if vs.len() == 0 {
        vs
    } else {
        let rest = rendered(vs.drop_last(), p);
        let v = advanced(vs.last(), p);
        if v.stage != EnvelopeStage::Off {
            rest.push(v)
        } else {
            rest
        }
    }
}

/// The step event the sequencer fires on its next tick, as (note-off, note-on).
pub open spec fn pending_event(s: Sequencer) -> Option<(Option<u8>, Option<u8>)> {
    if s.fires_now() {
        Some((s.steps@[prev_step(s.current_step as int, s.num_steps as int)], s.steps@[s.current_step as int]))
    } else {
        None
    }
}

pub open spec fn clamp_bpm(b: int) -> int {
    if b < MIN_BPM { MIN_BPM as int } else if b > MAX_BPM { MAX_BPM as int } else { b }
}

/// The polyphonic synth: tempo, waveform, envelope settings, master volume,
/// the active voices, and the two sequencers.
pub struct Synth {
    pub sample_rate: u32,
    /// Master tempo shared by both sequencers, 30 to 300.
    pub bpm: u32,
    pub wave_type: WaveType,
    /// Active voices, at most one per pitch.
    pub voices: Vec<Voice>,
    /// Attack time in milliseconds.
    pub attack: u32,
    /// Decay time in milliseconds.
    pub decay: u32,
    /// Sustain level, up to `LEVEL_ONE`.
    pub sustain: u32,
    /// Release time in milliseconds.
    pub release: u32,
    /// Master volume in percent, 0 to 100.
    pub volume: u32,
    pub sequencer: Sequencer,
    pub drum_machine: DrumMachine,
    /// Oscillator phase step for each pitch at this sample rate.
    pub tuning: Vec<u32>,
}

impl Synth {
    pub open spec fn params(&self) -> EnvelopeParams {
        EnvelopeParams {
            sample_rate: self.sample_rate,
            attack_ms: self.attack,
            decay_ms: self.decay,
            sustain: self.sustain,
            release_ms: self.release,
        }
    }

    pub open spec fn voices_ok(vs: Seq<Voice>) -> bool {
        &&& distinct_pitches(vs)
        &&& forall|i: int| 0 <= i < vs.len() ==> (#[trigger] vs[i]).wf() && vs[i].stage != EnvelopeStage::Off
    }

    pub open spec fn wf(&self) -> bool {
        &&& self.params().valid()
        &&& MIN_BPM <= self.bpm <= MAX_BPM
        &&& self.volume <= 100
        &&& self.tuning@.len() == TUNING_SIZE
        &&& Self::voices_ok(self.voices@)
        &&& self.sequencer.wf()
        &&& self.drum_machine.wf()
    }

    /// A silent synth at 120 bpm with a sine wave, envelope 10 ms / 100 ms /
    /// 70% / 300 ms and half volume. `tuning` gives the oscillator phase step
    /// of each pitch at `sample_rate`.
    pub fn new(sample_rate: u32, tuning: Vec<u32>) -> (r: Synth)
        requires
            sample_rate > 0,
            tuning@.len() == TUNING_SIZE,
        ensures
            r.wf(),
            r.sample_rate == sample_rate,
            r.bpm == 120,
            r.wave_type == WaveType::Sine,
            r.voices@.len() == 0,
            r.attack == 10 && r.decay == 100 && r.sustain == 700_000 && r.release == 300,
            r.volume == 50,
            r.tuning == tuning,
            !r.sequencer.playing && r.sequencer.sample_rate == sample_rate,
            r.sequencer.num_steps == 16 && r.sequencer.current_step == 0 && r.sequencer.sample_counter == 0,
            r.sequencer.steps@ == Seq::new(16, |i: int| None::<u8>),
            !r.drum_machine.playing && r.drum_machine.sample_rate == sample_rate,
            r.drum_machine.num_steps == 16 && r.drum_machine.current_step == 0,
            r.drum_machine.sample_counter == 0 && r.drum_machine.hits@.len() == 0,
            forall|i: int| 0 <= i < NUM_TRACKS ==> {
                &&& !(#[trigger] r.drum_machine.tracks@[i]).muted
                &&& r.drum_machine.tracks@[i].volume == 80
                &&& forall|s: int| 0 <= s < 16 ==> !r.drum_machine.tracks@[i].steps@[s]
            },
    {
        Synth {
            sample_rate,
            bpm: 120,
            wave_type: WaveType::Sine,
            voices: Vec::new(),
            attack: 10,
            decay: 100,
            sustain: 700_000,
            release: 300,
            volume: 50,
            sequencer: Sequencer::new(sample_rate),
            drum_machine: DrumMachine::new(sample_rate),
            tuning,
        }
    }

    fn find_voice(&self, pitch: u8) -> (r: Option<usize>)
        requires
            distinct_pitches(self.voices@),
        ensures
            r.is_some() ==> r.unwrap() < self.voices@.len() && index_of(self.voices@, pitch) == r.unwrap()
                && self.voices@[r.unwrap() as int].pitch == pitch,
            r.is_none() ==> index_of(self.voices@, pitch) == -1,
    {
        let mut i: usize = 0;
        while i < self.voices.len()
            invariant
                i <= self.voices@.len(),
                distinct_pitches(self.voices@),
                forall|k: int| 0 <= k < i ==> self.voices@[k].pitch != pitch,
            decreases self.voices@.len() - i,
        {
            if self.voices[i].pitch == pitch {
                proof {
                    lemma_index_of_found(self.voices@, pitch, i as int);
                }
                return Some(i);
            }
            i = i + 1;
        }
        proof {
            lemma_index_of_absent(self.voices@, pitch);
        }
        None
    }

    /// Start a note: a fresh voice in attack replaces any voice on the same
    /// pitch.
    pub fn note_on(&mut self, pitch: u8)
        requires
            old(self).wf(),
        ensures
            final(self).wf(),
            final(self).voices@ == with_note_on(old(self).voices@, pitch, old(self).tuning@[pitch as int]),
            final(self).only_voices_changed(old(self)),
    {
        let step = self.tuning[pitch as usize];
        let v = Voice::new(pitch, step);
        match self.find_voice(pitch) {
            Some(i) => {
                self.voices.set(i, v);
                assert forall|a: int, b: int|
                    0 <= a < self.voices@.len() && 0 <= b < self.voices@.len() && a != b implies
                    self.voices@[a].pitch != self.voices@[b].pitch by {
                    assert(old(self).voices@[i as int].pitch == pitch);
                }
            },
            None => {
                proof {
                    lemma_index_of_absent_all(old(self).voices@, pitch);
                }
                self.voices.push(v);
            },
        }
        assert(Self::voices_ok(self.voices@));
    }

    /// Release the voice on `pitch`, if there is one.
    pub fn note_off(&mut self, pitch: u8)
        requires
            old(self).wf(),
        ensures
            final(self).wf(),
            final(self).voices@ == with_note_off(old(self).voices@, pitch),
            final(self).only_voices_changed(old(self)),
    {
        match self.find_voice(pitch) {
            Some(i) => {
                let mut v = self.voices[i];
                v.release();
                self.voices.set(i, v);
                assert forall|a: int, b: int|
                    0 <= a < self.voices@.len() && 0 <= b < self.voices@.len() && a != b implies
                    self.voices@[a].pitch != self.voices@[b].pitch by {
                    assert(old(self).voices@[i as int].pitch == pitch);
                }
                assert(Self::voices_ok(self.voices@));
            },
            None => {},
        }
    }

    /// Everything but the voices is as before.
    pub open spec fn only_voices_changed(&self, before: &Synth) -> bool {
        &&& self.sample_rate == before.sample_rate
        &&& self.bpm == before.bpm
        &&& self.wave_type == before.wave_type
        &&& self.attack == before.attack
        &&& self.decay == before.decay
        &&& self.sustain == before.sustain
        &&& self.release == before.release
        &&& self.volume == before.volume
        &&& self.sequencer == before.sequencer
        &&& self.drum_machine == before.drum_machine
        &&& self.tuning == before.tuning
    }

    /// Advance every voice by one sample and drop those that went off.
    fn render_voices(&mut self)
        requires
            old(self).wf(),
        ensures
            final(self).wf(),
            final(self).voices@ == rendered(old(self).voices@, old(self).params()),
            final(self).only_voices_changed(old(self)),
    {
        let p = EnvelopeParams {
            sample_rate: self.sample_rate,
            attack_ms: self.attack,
            decay_ms: self.decay,
            sustain: self.sustain,
            release_ms: self.release,
        };
        let ghost start = self.voices@;
        let n = self.voices.len();
        let mut i: usize = 0;
        let mut j: usize = 0;
        while i < n
            invariant
                j <= i <= n,
                n == start.len(),
                start == old(self).voices@,
                p == old(self).params(),
                p.valid(),
                Self::voices_ok(start),
                self.voices@.len() == n,
                self.voices@.subrange(0, j as int) == rendered(start.subrange(0, i as int), p),
                forall|k: int| i <= k < n ==> self.voices@[k] == start[k],
                self.only_voices_changed(old(self)),
            decreases n - i,
        {
            let mut v = self.voices[i];
            assert(v == start[i as int]);
            assert(start.subrange(0, i as int + 1).drop_last() =~= start.subrange(0, i as int));
            v.next_sample(p);
            if !v.is_finished() {
                self.voices.set(j, v);
                assert(self.voices@.subrange(0, j as int + 1) =~= rendered(start.subrange(0, i as int), p).push(v));
                j = j + 1;
            } else {
                assert(self.voices@.subrange(0, j as int) =~= rendered(start.subrange(0, i as int), p));
            }
            i = i + 1;
        }
        assert(start.subrange(0, n as int) =~= start);
        self.voices.truncate(j);
        assert(self.voices@ =~= rendered(start, p));
        proof {
            lemma_rendered_ok(start, p);
        }
    }

    /// Produce one sample's worth of state change: the melodic sequencer
    /// ticks and its step event, if any, releases the previous step's pitch
    /// and starts the current one; every voice advances one sample and the
    /// finished ones leave the active set; the drum machine ticks at the same
    /// tempo. Afterwards the sample is each voice's waveform at its
    /// `sounding_phase()` scaled by its level, plus the drum hits.
    pub fn tick(&mut self)
        requires
            old(self).wf(),
        ensures
            final(self).wf(),
            final(self).voices@ == rendered(
                match pending_event(old(self).sequencer) {
                    Some(ev) => with_event(old(self).voices@, ev.0, ev.1, old(self).tuning@),
                    None => old(self).voices@,
                },
                old(self).params(),
            ),
            final(self).params() == old(self).params(),
            final(self).bpm == old(self).bpm,
            final(self).wave_type == old(self).wave_type,
            final(self).volume == old(self).volume,
            final(self).tuning == old(self).tuning,
            final(self).sample_rate == old(self).sample_rate,
            old(self).sequencer.ticked(final(self).sequencer, old(self).bpm),
            old(self).drum_machine.ticked(final(self).drum_machine, old(self).bpm),
    {
        let ghost before = self.voices@;
        let ghost ev = pending_event(self.sequencer);
        let event = self.sequencer.tick(self.bpm);
        match event {
            Some(e) => {
                match e.note_off {
                    Some(n) => self.note_off(n),
                    None => {},
                }
                match e.note_on {
                    Some(n) => self.note_on(n),
                    None => {},
                }
                assert(self.voices@ == with_event(before, ev.unwrap().0, ev.unwrap().1, self.tuning@));
            },
            None => {},
        }
        self.render_voices();
        self.drum_machine.tick(self.bpm);
    }

    /// Pitches of the active voices.
    pub fn active_notes(&self) -> (r: Vec<u8>)
        ensures
            r@ == pitches(self.voices@),
    {
        let mut r: Vec<u8> = Vec::new();
        let mut i: usize = 0;
        while i < self.voices.len()
            invariant
                i <= self.voices@.len(),
                r@ == pitches(self.voices@.subrange(0, i as int)),
            decreases self.voices@.len() - i,
        {
            r.push(self.voices[i].pitch);
            i = i + 1;
            assert(r@ =~= pitches(self.voices@.subrange(0, i as int)));
        }
        assert(self.voices@.subrange(0, i as int) =~= self.voices@);
        r
    }
}

impl Synth {
    /// Everything but the listed settings is as before.
    pub open spec fn same_engine(&self, before: &Synth) -> bool {
        &&& self.sample_rate == before.sample_rate
        &&& self.voices == before.voices
        &&& self.sequencer == before.sequencer
        &&& self.drum_machine == before.drum_machine
        &&& self.tuning == before.tuning
    }

    /// Set the master tempo, clamped to 30..=300.
    pub fn set_bpm(&mut self, bpm: u32)
        requires
            old(self).wf(),
        ensures
            final(self).wf(),
            final(self).bpm == clamp_bpm(bpm as int),
            final(self).same_engine(old(self)),
            final(self).params() == old(self).params(),
            final(self).volume == old(self).volume,
            final(self).wave_type == old(self).wave_type,
    {
        self.bpm = if bpm < MIN_BPM {
            MIN_BPM
        } else if bpm > MAX_BPM {
            MAX_BPM
        } else {
            bpm
        };
    }

    /// Raise the tempo by `BPM_STEP`, up to 300.
    pub fn bpm_up(&mut self)
        requires
            old(self).wf(),
        ensures
            final(self).wf(),
            final(self).bpm == clamp_bpm(old(self).bpm + BPM_STEP),
            final(self).same_engine(old(self)),
            final(self).params() == old(self).params(),
            final(self).volume == old(self).volume,
            final(self).wave_type == old(self).wave_type,
    {
        let b = self.bpm + BPM_STEP;
        self.set_bpm(b);
    }

    /// Lower the tempo by `BPM_STEP`, down to 30.
    pub fn bpm_down(&mut self)
        requires
            old(self).wf(),
        ensures
            final(self).wf(),
            final(self).bpm == clamp_bpm(old(self).bpm - BPM_STEP),
            final(self).same_engine(old(self)),
            final(self).params() == old(self).params(),
            final(self).volume == old(self).volume,
            final(self).wave_type == old(self).wave_type,
    {
        let b = self.bpm - BPM_STEP;
        self.set_bpm(b);
    }

    /// Raise the master volume by `MASTER_VOLUME_STEP` percent, up to 100.
    pub fn volume_up(&mut self)
        requires
            old(self).wf(),
        ensures
            final(self).wf(),
            final(self).volume == if old(self).volume + MASTER_VOLUME_STEP > 100 {
                100
            } else {
                old(self).volume + MASTER_VOLUME_STEP
            },
            final(self).same_engine(old(self)),
            final(self).params() == old(self).params(),
            final(self).bpm == old(self).bpm,
            final(self).wave_type == old(self).wave_type,
    {
        self.volume = if self.volume + MASTER_VOLUME_STEP > 100 {
            100
        } else {
            self.volume + MASTER_VOLUME_STEP
        };
    }

    /// Lower the master volume by `MASTER_VOLUME_STEP` percent, down to 0.
    pub fn volume_down(&mut self)
        requires
            old(self).wf(),
        ensures
            final(self).wf(),
            final(self).volume == if old(self).volume < MASTER_VOLUME_STEP {
                0
            } else {
                old(self).volume - MASTER_VOLUME_STEP
            },
            final(self).same_engine(old(self)),
            final(self).params() == old(self).params(),
            final(self).bpm == old(self).bpm,
            final(self).wave_type == old(self).wave_type,
    {
        self.volume = if self.volume < MASTER_VOLUME_STEP {
            0
        } else {
            self.volume - MASTER_VOLUME_STEP
        };
    }

    /// Switch to the next waveform: sine, square, sawtooth, triangle, sine...
    pub fn cycle_wave(&mut self)
        requires
            old(self).wf(),
        ensures
            final(self).wf(),
            final(self).wave_type == wave_after(old(self).wave_type),
            final(self).same_engine(old(self)),
            final(self).params() == old(self).params(),
            final(self).bpm == old(self).bpm,
            final(self).volume == old(self).volume,
    {
        self.wave_type = self.wave_type.next();
    }

    /// Change the envelope of all voices, sounding ones included, from the
    /// next sample on. Times below 1 ms become 1 ms and a sustain above
    /// `LEVEL_ONE` becomes `LEVEL_ONE`.
    pub fn set_envelope(&mut self, attack_ms: u32, decay_ms: u32, sustain: u32, release_ms: u32)
        requires
            old(self).wf(),
        ensures
            final(self).wf(),
            final(self).attack == if attack_ms == 0 { 1 } else { attack_ms },
            final(self).decay == if decay_ms == 0 { 1 } else { decay_ms },
            final(self).sustain == if sustain > LEVEL_ONE { LEVEL_ONE } else { sustain },
            final(self).release == if release_ms == 0 { 1 } else { release_ms },
            final(self).same_engine(old(self)),
            final(self).bpm == old(self).bpm,
            final(self).volume == old(self).volume,
            final(self).wave_type == old(self).wave_type,
    {
        self.attack = if attack_ms == 0 { 1 } else { attack_ms };
        self.decay = if decay_ms == 0 { 1 } else { decay_ms };
        self.sustain = if sustain > LEVEL_ONE { LEVEL_ONE } else { sustain };
        self.release = if release_ms == 0 { 1 } else { release_ms };
    }
}

/// A note that is started and then stopped leaves exactly one voice on its
/// pitch, in release from the level it had reached (zero, when nothing was
/// rendered in between); from there `lemma_release_drains` takes it to
/// silence, and `lemma_no_finished_voices` removes it from the active set.
pub proof fn lemma_note_on_then_off(vs: Seq<Voice>, pitch: u8, phase_step: u32)
    requires
        Synth::voices_ok(vs),
    ensures
        ({
            let ws = with_note_off(with_note_on(vs, pitch, phase_step), pitch);
            let i = index_of(ws, pitch);
            &&& 0 <= i < ws.len()
            &&& ws[i].pitch == pitch
            &&& ws[i].stage == EnvelopeStage::Release
            &&& ws[i].level == 0
            &&& ws[i].release_level == 0
            &&& ws[i].carry == 0
            &&& ws[i].wf()
        }),
{
    let us = with_note_on(vs, pitch, phase_step);
    let j = index_of(vs, pitch);
    lemma_index_of_range(vs, pitch);
    if j >= 0 {
        lemma_index_of_range(vs, pitch);
        assert(distinct_pitches(us));
        lemma_index_of_found(us, pitch, j);
    } else {
        lemma_index_of_absent_all(vs, pitch);
        assert(distinct_pitches(us));
        lemma_index_of_found(us, pitch, vs.len() as int);
    }
    lemma_index_of_range(us, pitch);
    let i = index_of(us, pitch);
    let ws = with_note_off(us, pitch);
    assert(distinct_pitches(ws));
    lemma_index_of_found(ws, pitch, i);
}

/// The active set never holds a finished voice: after each sample every
/// voice that reached `Off` is gone, and all pitches stay distinct.
pub proof fn lemma_no_finished_voices(vs: Seq<Voice>, p: EnvelopeParams)
    requires
        Synth::voices_ok(vs),
        p.valid(),
    ensures
        forall|k: int| 0 <= k < rendered(vs, p).len() ==> (#[trigger] rendered(vs, p)[k]).stage != EnvelopeStage::Off,
        distinct_pitches(rendered(vs, p)),
{
    lemma_rendered_ok(vs, p);
}

/// Rendering follows each voice by its pitch: the voice on `pitch` stays,
/// advanced by one sample, exactly when that sample does not take it off.
proof fn lemma_rendered_follows(vs: Seq<Voice>, p: EnvelopeParams, pitch: u8)
    requires
        Synth::voices_ok(vs),
        p.valid(),
        index_of(vs, pitch) >= 0,
    ensures
        ({
            let i = index_of(vs, pitch);
            let w = advanced(vs[i], p);
            let rs = rendered(vs, p);
            &&& (index_of(rs, pitch) >= 0) == (w.stage != EnvelopeStage::Off)
            &&& index_of(rs, pitch) >= 0 ==> index_of(rs, pitch) < rs.len() && rs[index_of(rs, pitch)] == w
        }),
    decreases vs.len(),
{
    lemma_index_of_range(vs, pitch);
    let d = vs.drop_last();
    assert forall|k: int| 0 <= k < d.len() implies (#[trigger] d[k]).wf() && d[k].stage != EnvelopeStage::Off by {
        assert(d[k] == vs[k]);
    }
    assert forall|a: int, b: int| 0 <= a < d.len() && 0 <= b < d.len() && a != b implies d[a].pitch != d[b].pitch by {
        assert(d[a] == vs[a] && d[b] == vs[b]);
    }
    let rest = rendered(d, p);
    let last = vs.last();
    let v = advanced(last, p);
    lemma_advanced_wf(last, p);
    if last.pitch == pitch {
        lemma_rendered_pitches(d, p);
        assert forall|k: int| 0 <= k < rest.len() implies rest[k].pitch != pitch by {
            let m = choose|m: int| 0 <= m < d.len() && rest[k].pitch == d[m].pitch;
            assert(d[m] == vs[m]);
        }
        lemma_index_of_absent(rest, pitch);
        if v.stage != EnvelopeStage::Off {
            lemma_index_of_found_last(rest.push(v), pitch);
        }
    } else {
        lemma_rendered_follows(d, p, pitch);
        assert(d[index_of(d, pitch)] == vs[index_of(vs, pitch)]);
        if v.stage != EnvelopeStage::Off {
            let r = rest.push(v);
            assert(r.drop_last() == rest);
            if index_of(rest, pitch) >= 0 {
                assert(r[index_of(rest, pitch)] == rest[index_of(rest, pitch)]);
            }
        }
    }
}

proof fn lemma_index_of_found_last(vs: Seq<Voice>, pitch: u8)
    requires
        vs.len() > 0,
        vs.last().pitch == pitch,
    ensures
        index_of(vs, pitch) == vs.len() - 1,
{
}

/// A released voice under a stopped sequencer, over one tick of the synth
/// (whose voices become `rendered(vs, p)`): if it is still in the active
/// set, it is still releasing at a level no higher than before; and it has
/// left the set exactly when this tick's release step took it to silence.
pub proof fn lemma_release_in_synth(vs: Seq<Voice>, p: EnvelopeParams, pitch: u8)
    requires
        Synth::voices_ok(vs),
        p.valid(),
        index_of(vs, pitch) >= 0,
        vs[index_of(vs, pitch)].stage == EnvelopeStage::Release,
    ensures
        ({
            let v = vs[index_of(vs, pitch)];
            let rs = rendered(vs, p);
            let j = index_of(rs, pitch);
            &&& j >= 0 ==> rs[j].level <= v.level && rs[j].stage == EnvelopeStage::Release
            &&& (j < 0) == (advanced(v, p).stage == EnvelopeStage::Off && advanced(v, p).level == 0)
        }),
{
    lemma_rendered_follows(vs, p, pitch);
    lemma_index_of_range(vs, pitch);
    let v = vs[index_of(vs, pitch)];
    let den = p.sample_rate * p.release_ms;
    assert(den >= 1) by (nonlinear_arith)
        requires
            den == p.sample_rate * p.release_ms,
            p.sample_rate > 0,
            p.release_ms > 0,
    ;
    vstd::arithmetic::div_mod::lemma_div_pos_is_pos(v.carry + v.release_level * 1000, den);
}

proof fn lemma_index_of_range(vs: Seq<Voice>, pitch: u8)
    ensures
        -1 <= index_of(vs, pitch) < vs.len(),
        index_of(vs, pitch) >= 0 ==> vs[index_of(vs, pitch)].pitch == pitch,
    decreases vs.len(),
{
    if vs.len() > 0 && vs.last().pitch != pitch {
        let d = vs.drop_last();
        lemma_index_of_range(d, pitch);
        if index_of(d, pitch) >= 0 {
            assert(d[index_of(d, pitch)] == vs[index_of(d, pitch)]);
        }
    }
}

proof fn lemma_index_of_found(vs: Seq<Voice>, pitch: u8, i: int)
    requires
        distinct_pitches(vs),
        0 <= i < vs.len(),
        vs[i].pitch == pitch,
    ensures
        index_of(vs, pitch) == i,
    decreases vs.len(),
{
    if vs.last().pitch != pitch {
        let d = vs.drop_last();
        assert(i < vs.len() - 1);
        assert(d[i] == vs[i]);
        lemma_index_of_found(d, pitch, i);
    }
}

proof fn lemma_index_of_absent(vs: Seq<Voice>, pitch: u8)
    requires
        forall|k: int| 0 <= k < vs.len() ==> vs[k].pitch != pitch,
    ensures
        index_of(vs, pitch) == -1,
    decreases vs.len(),
{
    if vs.len() > 0 {
        let d = vs.drop_last();
        assert forall|k: int| 0 <= k < d.len() implies d[k].pitch != pitch by {
            assert(d[k] == vs[k]);
        }
        lemma_index_of_absent(d, pitch);
    }
}

proof fn lemma_index_of_absent_all(vs: Seq<Voice>, pitch: u8)
    requires
        index_of(vs, pitch) == -1,
    ensures
        forall|k: int| 0 <= k < vs.len() ==> vs[k].pitch != pitch,
    decreases vs.len(),
{
    if vs.len() > 0 {
        let d = vs.drop_last();
        lemma_index_of_absent_all(d, pitch);
        assert forall|k: int| 0 <= k < vs.len() implies vs[k].pitch != pitch by {
            if k < vs.len() - 1 {
                assert(d[k] == vs[k]);
            }
        }
    }
}

/// Every voice left after rendering carries the pitch of a voice before.
proof fn lemma_rendered_pitches(vs: Seq<Voice>, p: EnvelopeParams)
    ensures
        forall|k: int| 0 <= k < rendered(vs, p).len() ==> exists|m: int| 0 <= m < vs.len()
            && (#[trigger] rendered(vs, p)[k]).pitch == vs[m].pitch,
    decreases vs.len(),
{
    if vs.len() > 0 {
        let d = vs.drop_last();
        lemma_rendered_pitches(d, p);
        let rest = rendered(d, p);
        let r = rendered(vs, p);
        assert forall|k: int| 0 <= k < r.len() implies exists|m: int| 0 <= m < vs.len()
            && (#[trigger] r[k]).pitch == vs[m].pitch by {
            if k < rest.len() {
                assert(r[k] == rest[k]);
                let m = choose|m: int| 0 <= m < d.len() && rest[k].pitch == d[m].pitch;
                assert(d[m] == vs[m]);
            } else {
                assert(r[k].pitch == vs[vs.len() - 1].pitch);
            }
        }
    }
}

/// Rendering keeps well-formed voices well-formed, keeps pitches distinct and
/// leaves no voice that is off.
proof fn lemma_rendered_ok(vs: Seq<Voice>, p: EnvelopeParams)
    requires
        Synth::voices_ok(vs),
        p.valid(),
    ensures
        Synth::voices_ok(rendered(vs, p)),
    decreases vs.len(),
{
    if vs.len() > 0 {
        let d = vs.drop_last();
        assert(d =~= vs.subrange(0, vs.len() - 1));
        lemma_rendered_ok(d, p);
        lemma_rendered_pitches(d, p);
        let rest = rendered(d, p);
        let v = advanced(vs.last(), p);
        lemma_advanced_wf(vs.last(), p);
        assert(vs.last().wf());
        if v.stage != EnvelopeStage::Off {
            let r = rest.push(v);
            assert forall|a: int| 0 <= a < rest.len() implies #[trigger] rest[a].pitch != v.pitch by {
                let m = choose|m: int| 0 <= m < d.len() && rest[a].pitch == d[m].pitch;
                assert(d[m] == vs[m]);
            }
            assert(distinct_pitches(r));
            assert forall|k: int| 0 <= k < r.len() implies (#[trigger] r[k]).wf() && r[k].stage != EnvelopeStage::Off by {
                if k < rest.len() {
                    assert(r[k] == rest[k]);
                }
            }
        }
    }
}

} // verus!
