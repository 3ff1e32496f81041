use vstd::prelude::*;
use crate::scale::{pitch_class_label, pitch_class_name};

verus! {

/// Full scale of an envelope level: a level of `LEVEL_ONE` is unity gain.
pub const LEVEL_ONE: u32 = 1_000_000;

/// Phase accumulator wrap: one oscillator cycle spans `PHASE_WRAP` units.
pub open spec fn phase_wrap() -> int {
    0x1_0000_0000
}

/// Oscillator waveform shapes.
#[derive(Clone, Copy, Debug, PartialEq, Eq, Structural)]
pub enum WaveType {
    Sine,
    Square,
    Sawtooth,
    Triangle,
}

pub open spec fn wave_after(w: WaveType) -> WaveType {
    match w {
        WaveType::Sine => WaveType::Square,
        WaveType::Square => WaveType::Sawtooth,
        WaveType::Sawtooth => WaveType::Triangle,
        WaveType::Triangle => WaveType::Sine,
    }
}

pub open spec fn wave_name(w: WaveType) -> Seq<char> {
    match w {
        WaveType::Sine => "Sine"@,
        WaveType::Square => "Square"@,
        WaveType::Sawtooth => "Sawtooth"@,
        WaveType::Triangle => "Triangle"@,
    }
}

impl WaveType {
    pub fn next(self) -> (r: WaveType)
        ensures
            r == wave_after(self),
    {
        match self {
            WaveType::Sine => WaveType::Square,
            WaveType::Square => WaveType::Sawtooth,
            WaveType::Sawtooth => WaveType::Triangle,
            WaveType::Triangle => WaveType::Sine,
        }
    }

    pub fn name(self) -> (r: &'static str)
        ensures
            r@ == wave_name(self),
    {
        match self {
            WaveType::Sine => "Sine",
            WaveType::Square => "Square",
            WaveType::Sawtooth => "Sawtooth",
            WaveType::Triangle => "Triangle",
        }
    }
}

/// Stages of the ADSR envelope; `Off` is terminal.
#[derive(Clone, Copy, Debug, PartialEq, Eq, Structural)]
pub enum EnvelopeStage {
    Attack,
    Decay,
    Sustain,
    Release,
    Off,
}

/// The envelope settings shared by every voice of a synth. Times are in
/// milliseconds and must be positive; `sustain` is a level, at most
/// `LEVEL_ONE`.
#[derive(Clone, Copy, Debug, PartialEq, Eq, Structural)]
pub struct EnvelopeParams {
    pub sample_rate: u32,
    pub attack_ms: u32,
    pub decay_ms: u32,
    pub sustain: u32,
    pub release_ms: u32,
}

impl EnvelopeParams {
    pub open spec fn valid(&self) -> bool {
        &&& self.sample_rate > 0
        &&& self.attack_ms > 0
        &&& self.decay_ms > 0
        &&& self.release_ms > 0
        &&& self.sustain <= LEVEL_ONE
    }
}

/// Largest carry a voice holds: no stage length `sample_rate * ms` of two
/// `u32` factors exceeds it.
pub const CARRY_LIMIT: u64 = 0xFFFF_FFFE_0000_0001;

/// One sample of a stage that crosses `span` level units in `ms`
/// milliseconds at `sample_rate`, that is in `den = sample_rate * ms / 1000`
/// samples. The exact per-sample change is `span * 1000 / den`; the whole
/// units of it are taken now and the fraction, in units of `1 / den`, is
/// carried to the next sample. From a zero carry, `k` samples move the level
/// by exactly `floor(k * span * 1000 / den)` units. Returns (units, carry).
pub open spec fn progress(carry: int, span: int, den: int) -> (int, int) {
    let acc = carry + span * 1000;
    (acc / den, acc % den)
}

/// Envelope stage, level and carry after one sample.
pub open spec fn envelope_next(v: Voice, p: EnvelopeParams) -> (EnvelopeStage, int, int) {
    let level = v.level as int;
    let one = LEVEL_ONE as int;
    let sustain = p.sustain as int;
    let sr = p.sample_rate as int;
    match v.stage {
        EnvelopeStage::Attack => {
            let g = progress(v.carry as int, one, sr * p.attack_ms);
            if level + g.0 >= one { (EnvelopeStage::Decay, one, 0) } else { (EnvelopeStage::Attack, level + g.0, g.1) }
        },
        EnvelopeStage::Decay => {
            let g = progress(v.carry as int, one - sustain, sr * p.decay_ms);
            if level - g.0 <= sustain {
                (EnvelopeStage::Sustain, sustain, 0)
            } else {
                (EnvelopeStage::Decay, level - g.0, g.1)
            }
        },
        EnvelopeStage::Sustain => (EnvelopeStage::Sustain, sustain, 0),
        EnvelopeStage::Release => {
            let g = progress(v.carry as int, v.release_level as int, sr * p.release_ms);
            if level - g.0 <= 0 { (EnvelopeStage::Off, 0, 0) } else { (EnvelopeStage::Release, level - g.0, g.1) }
        },
        EnvelopeStage::Off => (EnvelopeStage::Off, level, v.carry as int),
    }
}

/// One melodic voice: a phase-accumulator oscillator and an ADSR envelope.
#[derive(Clone, Copy, Debug, PartialEq, Eq, Structural)]
pub struct Voice {
    pub pitch: u8,
    /// Position in the oscillator cycle, in units of 1/2^32 of a cycle.
    pub phase: u32,
    /// Phase advance per sample: frequency / sample_rate, in the same units.
    pub phase_step: u32,
    pub stage: EnvelopeStage,
    pub level: u32,
    /// Level captured when the release began.
    pub release_level: u32,
    /// Fraction of a level unit owed by the current stage (see `progress`).
    pub carry: u64,
}

/// A voice as created by a note-on: attack stage, silent, at phase zero.
pub open spec fn fresh_voice(pitch: u8, phase_step: u32) -> Voice {
    Voice {
        pitch,
        phase: 0,
        phase_step,
        stage: EnvelopeStage::Attack,
        level: 0,
        release_level: 0,
        carry: 0,
    }
}

/// The voice after a note-off: release starts from the current level, unless
/// the voice is already silent for good.
pub open spec fn released(v: Voice) -> Voice {
    if v.stage == EnvelopeStage::Off {
        v
    } else {
        Voice { stage: EnvelopeStage::Release, release_level: v.level, carry: 0, ..v }
    }
}

/// The voice after rendering one sample: the envelope moves one step and,
/// unless the voice is off, the phase advances by one step modulo a cycle.
pub open spec fn advanced(v: Voice, p: EnvelopeParams) -> Voice {
    if v.stage == EnvelopeStage::Off {
        v
    } else {
        let e = envelope_next(v, p);
        Voice {
            stage: e.0,
            level: e.1 as u32,
            carry: e.2 as u64,
            phase: ((v.phase as int + v.phase_step as int) % phase_wrap()) as u32,
            ..v
        }
    }
}

/// The voice after `k` samples.
pub open spec fn advanced_by(v: Voice, p: EnvelopeParams, k: nat) -> Voice
    decreases k,
{
    if k == 0 {
        v
    } else {
        advanced(advanced_by(v, p, (k - 1) as nat), p)
    }
}

impl Voice {
    pub open spec fn wf(&self) -> bool {
        &&& self.level <= LEVEL_ONE
        &&& self.release_level <= LEVEL_ONE
        &&& self.carry <= CARRY_LIMIT
    }

    pub fn new(pitch: u8, phase_step: u32) -> (r: Voice)
        ensures
            r == fresh_voice(pitch, phase_step),
            r.wf(),
    {
        Voice {
            pitch,
            phase: 0,
            phase_step,
            stage: EnvelopeStage::Attack,
            level: 0,
            release_level: 0,
            carry: 0,
        }
    }

    /// Enter the release stage from the current level.
    pub fn release(&mut self)
        ensures
            *final(self) == released(*old(self)),
    {
        if self.stage != EnvelopeStage::Off {
            self.release_level = self.level;
            self.stage = EnvelopeStage::Release;
            self.carry = 0;
        }
    }

    pub fn is_finished(&self) -> (r: bool)
        ensures
            r == (self.stage == EnvelopeStage::Off),
    {
        self.stage == EnvelopeStage::Off
    }

    /// Phase at which the most recent sample was taken: one step behind
    /// the current phase.
    pub fn sounding_phase(&self) -> (r: u32)
        ensures
            r as int == (self.phase as int - self.phase_step as int) % phase_wrap(),
    {
        let r = self.phase.wrapping_sub(self.phase_step);
        assert(r as int == (self.phase as int - self.phase_step as int) % phase_wrap()) by {
            if self.phase >= self.phase_step {
                vstd::arithmetic::div_mod::lemma_small_mod(
                    (self.phase - self.phase_step) as nat, phase_wrap() as nat);
            } else {
                vstd::arithmetic::div_mod::lemma_mod_add_multiples_vanish(
                    self.phase as int - self.phase_step as int, phase_wrap());
                vstd::arithmetic::div_mod::lemma_small_mod(
                    (self.phase as int - self.phase_step as int + phase_wrap()) as nat,
                    phase_wrap() as nat);
            }
        }
        r
    }

    /// Advance the envelope and the oscillator by one sample. The sample
    /// itself is the waveform at `sounding_phase()` scaled by the new level.
    pub fn next_sample(&mut self, p: EnvelopeParams)
        requires
            old(self).wf(),
            p.valid(),
        ensures
            final(self).wf(),
            *final(self) == advanced(*old(self), p),
    {
        let one = LEVEL_ONE as u64;
        let level = self.level as u64;
        match self.stage {
            EnvelopeStage::Attack => {
                let (units, carry) = progress_step(self.carry, one, p.sample_rate, p.attack_ms);
                if units >= one - level {
                    self.level = LEVEL_ONE;
                    self.stage = EnvelopeStage::Decay;
                    self.carry = 0;
                } else {
                    self.level = (level + units) as u32;
                    self.carry = carry;
                }
            },
            EnvelopeStage::Decay => {
                let sustain = p.sustain as u64;
                let (units, carry) = progress_step(self.carry, one - sustain, p.sample_rate, p.decay_ms);
                if units >= level || level - units <= sustain {
                    self.level = p.sustain;
                    self.stage = EnvelopeStage::Sustain;
                    self.carry = 0;
                } else {
                    self.level = (level - units) as u32;
                    self.carry = carry;
                }
            },
            EnvelopeStage::Sustain => {
                self.level = p.sustain;
                self.carry = 0;
            },
            EnvelopeStage::Release => {
                let (units, carry) = progress_step(self.carry, self.release_level as u64, p.sample_rate, p.release_ms);
                if units >= level {
                    self.level = 0;
                    self.stage = EnvelopeStage::Off;
                    self.carry = 0;
                } else {
                    self.level = (level - units) as u32;
                    self.carry = carry;
                }
            },
            EnvelopeStage::Off => {
                return;
            },
        }
        self.phase = self.phase.wrapping_add(self.phase_step);
    }
}

/// A voice that is off stays exactly as it is.
proof fn lemma_off_is_final(v: Voice, p: EnvelopeParams, k: nat)
    requires
        v.stage == EnvelopeStage::Off,
    ensures
        advanced_by(v, p, k) == v,
    decreases k,
{
    if k > 0 {
        lemma_off_is_final(v, p, (k - 1) as nat);
    }
}

/// One sample keeps a voice well-formed and on its pitch.
pub proof fn lemma_advanced_wf(v: Voice, p: EnvelopeParams)
    requires
        v.wf(),
        p.valid(),
    ensures
        advanced(v, p).wf(),
        advanced(v, p).pitch == v.pitch,
{
    let sr = p.sample_rate as int;
    let ms: int = match v.stage {
        EnvelopeStage::Attack => p.attack_ms as int,
        EnvelopeStage::Decay => p.decay_ms as int,
        _ => p.release_ms as int,
    };
    let den = sr * ms;
    assert(1 <= den <= CARRY_LIMIT) by (nonlinear_arith)
        requires
            den == sr * ms,
            0 < sr <= u32::MAX,
            0 < ms <= u32::MAX,
    ;
    let span: int = match v.stage {
        EnvelopeStage::Attack => LEVEL_ONE as int,
        EnvelopeStage::Decay => LEVEL_ONE - p.sustain,
        _ => v.release_level as int,
    };
    vstd::arithmetic::div_mod::lemma_mod_bound(v.carry + span * 1000, den);
}

/// The state of a release `j` samples in, for a release that started at
/// level `rl` with no carry: either off at level zero, or still releasing
/// with exactly `floor(j * rl * 1000 / den)` units taken off so far.
pub open spec fn release_state(w: Voice, rl: int, den: int, j: int) -> bool {
    ||| w.stage == EnvelopeStage::Off && w.level == 0
    ||| {
        &&& w.stage == EnvelopeStage::Release
        &&& w.release_level == rl
        &&& w.wf()
        &&& 0 <= w.carry < den
        &&& w.level <= rl
        &&& (rl - w.level) * den + w.carry == j * (rl * 1000)
        &&& j >= 1 ==> w.level >= 1
    }
}

proof fn lemma_release_invariant(v: Voice, p: EnvelopeParams, j: nat)
    requires
        v.stage == EnvelopeStage::Release,
        v.wf(),
        p.valid(),
        v.level == v.release_level,
        v.carry == 0,
    ensures
        release_state(
            advanced_by(v, p, j),
            v.release_level as int,
            p.sample_rate * p.release_ms,
            j as int,
        ),
        advanced_by(v, p, j + 1).level <= advanced_by(v, p, j).level,
    decreases j,
{
    let rl = v.release_level as int;
    let den = p.sample_rate * p.release_ms;
    assert(den >= 1) by (nonlinear_arith)
        requires
            den == p.sample_rate * p.release_ms,
            p.sample_rate > 0,
            p.release_ms > 0,
    ;
    if j > 0 {
        lemma_release_invariant(v, p, (j - 1) as nat);
        let w = advanced_by(v, p, (j - 1) as nat);
        assert(advanced_by(v, p, j) == advanced(w, p));
        if w.stage == EnvelopeStage::Release {
            let acc = w.carry + rl * 1000;
            vstd::arithmetic::div_mod::lemma_fundamental_div_mod(acc, den);
            vstd::arithmetic::div_mod::lemma_mod_bound(acc, den);
            assert(acc / den >= 0) by {
                vstd::arithmetic::div_mod::lemma_div_pos_is_pos(acc, den);
            }
            assert(den <= CARRY_LIMIT) by (nonlinear_arith)
                requires
                    den == p.sample_rate * p.release_ms,
                    p.sample_rate <= u32::MAX,
                    p.release_ms <= u32::MAX,
            ;
            let u = advanced(w, p);
            if u.stage == EnvelopeStage::Release {
                assert((rl - u.level) * den + u.carry == (rl - w.level) * den + (acc / den) * den + acc % den)
                    by (nonlinear_arith)
                    requires
                        u.level == w.level - acc / den,
                        u.carry == acc % den,
                ;
                assert(j * (rl * 1000) == (j - 1) * (rl * 1000) + rl * 1000) by (nonlinear_arith);
            }
        }
    } else {
        assert(advanced_by(v, p, 0) == v);
    }
    let w = advanced_by(v, p, j);
    assert(advanced_by(v, p, j + 1) == advanced(w, p));
}

/// Once a voice is released its level never rises, and it reaches exactly
/// zero: at the latest after `ceil(sample_rate * release_ms / 1000)` samples,
/// the set release time, it is `Off` at level zero for good. (The synth then
/// drops it from its active set.)
pub proof fn lemma_release_drains(v: Voice, p: EnvelopeParams, k: nat)
    requires
        v.stage == EnvelopeStage::Release,
        v.wf(),
        p.valid(),
        v.level == v.release_level,
        v.carry == 0,
    ensures
        advanced_by(v, p, k + 1).level <= advanced_by(v, p, k).level,
        advanced_by(v, p, k).stage == EnvelopeStage::Release
            || advanced_by(v, p, k).stage == EnvelopeStage::Off,
        advanced_by(v, p, k).stage == EnvelopeStage::Off ==> advanced_by(v, p, k).level == 0,
        k * 1000 >= p.sample_rate * p.release_ms ==> advanced_by(v, p, k).stage == EnvelopeStage::Off,
{
    lemma_release_invariant(v, p, k);
    let w = advanced_by(v, p, k);
    let rl = v.release_level as int;
    let den = p.sample_rate * p.release_ms;
    if w.stage == EnvelopeStage::Release && k * 1000 >= den {
        // k >= 1 here, so the level is at least one unit and
        // k * rl * 1000 = (rl - level) * den + carry < rl * den.
        assert(den >= 1) by (nonlinear_arith)
            requires
                den == p.sample_rate * p.release_ms,
                p.sample_rate > 0,
                p.release_ms > 0,
        ;
        assert(k >= 1);
        assert(false) by (nonlinear_arith)
            requires
                (rl - w.level) * den + w.carry == k * (rl * 1000),
                w.level >= 1,
                w.carry < den,
                w.carry >= 0,
                k * 1000 >= den,
                w.level <= rl,
        ;
    }
}

/// Phase after `k` samples of an oscillator stepping by `step`.
pub open spec fn phase_after(phase: int, step: int, k: nat) -> int {
    (phase + k * step) % phase_wrap()
}

/// While a note is held (attack, decay or sustain) the oscillator advances
/// by exactly one step per sample, modulo a cycle; so the waveform, a function
/// of the phase, repeats after every `k` samples with `k * phase_step` a whole
/// number of cycles, that is every sample_rate / frequency samples up to the
/// rounding of `phase_step`.
pub proof fn lemma_held_phase(v: Voice, p: EnvelopeParams, k: nat)
    requires
        v.stage == EnvelopeStage::Attack || v.stage == EnvelopeStage::Decay
            || v.stage == EnvelopeStage::Sustain,
    ensures
        advanced_by(v, p, k).phase == phase_after(v.phase as int, v.phase_step as int, k),
        advanced_by(v, p, k).stage != EnvelopeStage::Off,
        advanced_by(v, p, k).stage != EnvelopeStage::Release,
        advanced_by(v, p, k).phase_step == v.phase_step,
        (k * v.phase_step) % phase_wrap() == 0 ==> advanced_by(v, p, k).phase == v.phase,
    decreases k,
{
    let st = v.phase_step as int;
    if k == 0 {
        vstd::arithmetic::div_mod::lemma_small_mod(v.phase as nat, phase_wrap() as nat);
    } else {
        let j = (k - 1) as nat;
        lemma_held_phase(v, p, j);
        let w = advanced_by(v, p, j);
        assert(advanced_by(v, p, k) == advanced(w, p));
        let x = v.phase as int + j * st;
        assert(w.phase as int == x % phase_wrap());
        vstd::arithmetic::div_mod::lemma_add_mod_noop(x, st, phase_wrap());
        vstd::arithmetic::div_mod::lemma_mod_twice(x, phase_wrap());
        vstd::arithmetic::div_mod::lemma_small_mod(st as nat, phase_wrap() as nat);
        vstd::arithmetic::div_mod::lemma_add_mod_noop(x % phase_wrap(), st, phase_wrap());
        assert(x + st == v.phase as int + k * st) by (nonlinear_arith)
            requires
                x == v.phase as int + j * st,
                j + 1 == k,
        ;
    }
    if (k * v.phase_step) % phase_wrap() == 0 {
        vstd::arithmetic::div_mod::lemma_add_mod_noop(v.phase as int, k * v.phase_step, phase_wrap());
        vstd::arithmetic::div_mod::lemma_small_mod(v.phase as nat, phase_wrap() as nat);
    }
}

/// One sample of `progress` for a stage of `ms` milliseconds at `sample_rate`.
fn progress_step(carry: u64, span: u64, sample_rate: u32, ms: u32) -> (r: (u64, u64))
    requires
        carry <= CARRY_LIMIT,
        span <= LEVEL_ONE,
        sample_rate > 0,
        ms > 0,
    ensures
        r.0 as int == progress(carry as int, span as int, sample_rate * ms).0,
        r.1 as int == progress(carry as int, span as int, sample_rate * ms).1,
        r.1 < sample_rate * ms,
        r.1 <= CARRY_LIMIT,
{
    assert(1 <= sample_rate as u64 * ms as u64 <= CARRY_LIMIT) by (nonlinear_arith)
        requires
            0 < sample_rate <= u32::MAX,
            0 < ms <= u32::MAX,
    ;
    let den = sample_rate as u64 * ms as u64;
    let acc = carry + span * 1000;
    (acc / den, acc % den)
}

/// Name and octave of a pitch, such as "C4" for 60 or "A#-1" for 10.
pub open spec fn note_label(note: int) -> Seq<char> {
    pitch_class_name(note % 12) + octave_label(note / 12 - 1)
}

pub open spec fn digit_label(d: int) -> Seq<char> {
    seq![('0' as u8 + d) as char]
}

/// Decimal form of an octave number from -1 up.
pub open spec fn octave_label(o: int) -> Seq<char> {
    if o < 0 {
        "-1"@
    } else if o < 10 {
        digit_label(o)
    } else {
        digit_label(o / 10) + digit_label(o % 10)
    }
}

fn digit_text(d: u8) -> (r: &'static str)
    requires
        d < 10,
    ensures
        r@ == digit_label(d as int),
{
    proof {
        reveal_strlit("0");
        reveal_strlit("1");
        reveal_strlit("2");
        reveal_strlit("3");
        reveal_strlit("4");
        reveal_strlit("5");
        reveal_strlit("6");
        reveal_strlit("7");
        reveal_strlit("8");
        reveal_strlit("9");
    }
    let r = if d == 0 { "0" }
    else if d == 1 { "1" }
    else if d == 2 { "2" }
    else if d == 3 { "3" }
    else if d == 4 { "4" }
    else if d == 5 { "5" }
    else if d == 6 { "6" }
    else if d == 7 { "7" }
    else if d == 8 { "8" }
    else { "9" };
    assert(r@ =~= digit_label(d as int));
    r
}

pub fn note_name(note: u8) -> (r: String)
    ensures
        r@ == note_label(note as int),
{
    let mut s = String::from_str(pitch_class_label(note % 12));
    let o = note / 12;
    if o == 0 {
        s.append("-1");
    } else if o <= 10 {
        s.append(digit_text(o - 1));
    } else {
        s.append(digit_text((o - 1) / 10));
        s.append(digit_text((o - 1) % 10));
    }
    s
}

} // verus!
