use vstd::prelude::*;
use crate::clock::{
    boundaries, clock_after, clock_next, lemma_boundaries_per_steps, samples_per_step, step_length,
};

verus! {

/// Upper bound kept on a transport's sample counter; every step length that
/// a `u32` sample rate yields lies below it.
pub const COUNTER_LIMIT: u64 = 0x100_0000_0000;

/// The pattern length that follows `n` in the cycle 8, 16, 24, 32, 8, ...
pub open spec fn next_length(n: int) -> int {
    if n == 8 { 16 } else if n == 16 { 24 } else if n == 24 { 32 } else { 8 }
}

pub open spec fn valid_length(n: int) -> bool {
    n == 8 || n == 16 || n == 24 || n == 32
}

/// Index of the step before `step` in a pattern of `n` steps, wrapping.
pub open spec fn prev_step(step: int, n: int) -> int {
    if step == 0 { n - 1 } else { step - 1 }
}

/// Pattern length after cycling from `n`.
pub fn cycled_length(n: usize) -> (r: usize)
    ensures
        r as int == next_length(n as int),
        valid_length(r as int),
{
    if n == 8 {
        16
    } else if n == 16 {
        24
    } else if n == 24 {
        32
    } else {
        8
    }
}

/// An event fired when the sequencer crosses a step boundary.
pub struct StepEvent {
    pub note_off: Option<u8>,
    pub note_on: Option<u8>,
}

/// Sample-accurate melodic step sequencer.
///
/// The tempo is not stored here: it is handed to `tick` on every sample, so
/// that the melodic and drum sequencers always share one master clock.
pub struct Sequencer {
    pub steps: Vec<Option<u8>>,
    pub num_steps: usize,
    pub current_step: usize,
    pub playing: bool,
    pub sample_rate: u32,
    /// Samples elapsed in the current step.
    pub sample_counter: u64,
}

impl Sequencer {
    pub open spec fn wf(&self) -> bool {
        &&& valid_length(self.num_steps as int)
        &&& self.steps@.len() == self.num_steps
        &&& self.current_step < self.num_steps
        &&& self.sample_counter < COUNTER_LIMIT
    }

    /// Whether the next tick crosses a step boundary.
    pub open spec fn fires_now(&self) -> bool {
        self.playing && self.sample_counter == 0
    }

    /// `next` is this sequencer one tick later at `bpm`: stopped, nothing
    /// moves; playing, the clock advances and the pattern is kept.
    pub open spec fn ticked(&self, next: Sequencer, bpm: u32) -> bool {
        &&& next.steps == self.steps
        &&& next.num_steps == self.num_steps
        &&& next.playing == self.playing
        &&& next.sample_rate == self.sample_rate
        &&& !self.playing ==> next == *self
        &&& self.playing ==> {
            let nx = clock_next(
                self.sample_counter as int,
                self.current_step as int,
                self.num_steps as int,
                step_length(self.sample_rate as nat, bpm as nat) as int,
            );
            next.sample_counter as int == nx.0 && next.current_step == nx.1
        }
    }

    /// An empty sixteen-step pattern, stopped, at step 0.
    pub fn new(sample_rate: u32) -> (r: Sequencer)
        ensures
            r.wf(),
            r.num_steps == 16,
            r.steps@ == Seq::new(16, |i: int| None::<u8>),
            r.current_step == 0,
            !r.playing,
            r.sample_rate as nat == sample_rate,
            r.sample_counter as int == 0,
    {
        let mut steps: Vec<Option<u8>> = Vec::new();
        let mut i: usize = 0;
        while i < 16
            invariant
                i <= 16,
                steps@ == Seq::new(i as nat, |k: int| None::<u8>),
            decreases 16 - i,
        {
            steps.push(None);
            i = i + 1;
            assert(steps@ =~= Seq::new(i as nat, |k: int| None::<u8>));
        }
        Sequencer {
            steps,
            num_steps: 16,
            current_step: 0,
            playing: false,
            sample_rate,
            sample_counter: 0,
        }
    }

    /// Called once per audio sample. While playing, returns the step event
    /// on the first sample of each step: a note-off for the previous step's
    /// slot paired with a note-on for the current one.
    pub fn tick(&mut self, bpm: u32) -> (r: Option<StepEvent>)
        requires
            old(self).wf(),
            old(self).playing ==> bpm > 0,
        ensures
            final(self).wf(),
            old(self).ticked(*final(self), bpm),
            r.is_some() == old(self).fires_now(),
            r.is_some() ==> r.unwrap().note_off == old(self).steps@[prev_step(
                old(self).current_step as int,
                old(self).num_steps as int,
            )] && r.unwrap().note_on == old(self).steps@[old(self).current_step as int],
    {
        if !self.playing {
            return None;
        }
        let sps = samples_per_step(self.sample_rate, bpm);
        let old_counter = self.sample_counter;
        self.sample_counter = self.sample_counter + 1;
        let event = if old_counter == 0 {
            let prev = if self.current_step == 0 {
                self.num_steps - 1
            } else {
                self.current_step - 1
            };
            Some(StepEvent { note_off: self.steps[prev], note_on: self.steps[self.current_step] })
        } else {
            None
        };
        if self.sample_counter >= sps {
            self.sample_counter = 0;
            self.current_step = (self.current_step + 1) % self.num_steps;
        }
        assert(sps < COUNTER_LIMIT);
        event
    }

    /// Toggle play/pause. Starting resets the sample counter so that playback
    /// begins on a step boundary; pausing returns the pitch of the current
    /// step, for the caller to release. Step and counter are kept on pause.
    pub fn toggle_play(&mut self) -> (r: Option<u8>)
        requires
            old(self).wf(),
        ensures
            final(self).wf(),
            final(self).playing == !old(self).playing,
            final(self).steps == old(self).steps,
            final(self).num_steps == old(self).num_steps,
            final(self).current_step == old(self).current_step,
            final(self).sample_rate as nat == old(self).sample_rate as nat,
            final(self).playing ==> r.is_none() && final(self).sample_counter as int == 0,
            !final(self).playing ==> r == old(self).steps@[old(self).current_step as int]
                && final(self).sample_counter as int == old(self).sample_counter as int,
    {
        self.playing = !self.playing;
        if self.playing {
            self.sample_counter = 0;
            None
        } else {
            self.steps[self.current_step]
        }
    }

    /// Stop and rewind to step 0. Returns the pitch of the current step if
    /// the sequencer was playing.
    pub fn stop(&mut self) -> (r: Option<u8>)
        requires
            old(self).wf(),
        ensures
            final(self).wf(),
            !final(self).playing,
            final(self).current_step == 0,
            final(self).sample_counter as int == 0,
            final(self).steps == old(self).steps,
            final(self).num_steps == old(self).num_steps,
            final(self).sample_rate as nat == old(self).sample_rate as nat,
            r == if old(self).playing {
                old(self).steps@[old(self).current_step as int]
            } else {
                None
            },
    {
        let note = if self.playing {
            self.steps[self.current_step]
        } else {
            None
        };
        self.playing = false;
        self.current_step = 0;
        self.sample_counter = 0;
        note
    }

    /// Move to the next pattern length in 8, 16, 24, 32. Existing slots are
    /// kept, new slots are empty, and the current step goes back to 0 only
    /// if it no longer fits.
    pub fn cycle_num_steps(&mut self)
        requires
            old(self).wf(),
        ensures
            final(self).wf(),
            final(self).num_steps as int == next_length(old(self).num_steps as int),
            forall|i: int|
                0 <= i < final(self).num_steps && i < old(self).num_steps
                    ==> final(self).steps@[i] == old(self).steps@[i],
            forall|i: int|
                old(self).num_steps <= i < final(self).num_steps ==> final(self).steps@[i].is_none(),
            final(self).current_step == if old(self).current_step < final(self).num_steps {
                old(self).current_step
            } else {
                0
            },
            final(self).playing == old(self).playing,
            final(self).sample_counter as int == old(self).sample_counter as int,
            final(self).sample_rate as nat == old(self).sample_rate as nat,
    {
        let next = cycled_length(self.num_steps);
        resize_pattern(&mut self.steps, next);
        self.num_steps = next;
        if self.current_step >= next {
            self.current_step = 0;
        }
    }

    /// Put `note` in slot `step`; a slot outside the pattern is ignored.
    pub fn set_step(&mut self, step: usize, note: u8)
        requires
            old(self).wf(),
        ensures
            final(self).wf(),
            final(self).steps@ == if step < old(self).num_steps {
                old(self).steps@.update(step as int, Some(note))
            } else {
                old(self).steps@
            },
            final(self).num_steps == old(self).num_steps,
            final(self).current_step == old(self).current_step,
            final(self).playing == old(self).playing,
            final(self).sample_counter as int == old(self).sample_counter as int,
            final(self).sample_rate as nat == old(self).sample_rate as nat,
    {
        if step < self.steps.len() {
            self.steps.set(step, Some(note));
        }
    }

    /// Empty slot `step`; a slot outside the pattern is ignored.
    pub fn clear_step(&mut self, step: usize)
        requires
            old(self).wf(),
        ensures
            final(self).wf(),
            final(self).steps@ == if step < old(self).num_steps {
                old(self).steps@.update(step as int, None)
            } else {
                old(self).steps@
            },
            final(self).num_steps == old(self).num_steps,
            final(self).current_step == old(self).current_step,
            final(self).playing == old(self).playing,
            final(self).sample_counter as int == old(self).sample_counter as int,
            final(self).sample_rate as nat == old(self).sample_rate as nat,
    {
        if step < self.steps.len() {
            self.steps.set(step, None);
        }
    }
}

/// A sequencer playing at a fixed tempo from the start of a step fires its
/// step events on the first tick of every step: the ticks of `m` whole
/// steps hold exactly `m` events, after which the clock stands at the start
/// of the step `m` further on. At 44100 samples per second and 120 bpm a
/// step is 5512 ticks. (A stopped sequencer fires none: see `tick`.)
pub proof fn lemma_events_per_step(s: Sequencer, bpm: u32, m: nat)
    requires
        s.wf(),
        s.playing,
        s.sample_counter == 0,
        bpm > 0,
    ensures
        ({
            let len = step_length(s.sample_rate as nat, bpm as nat) as int;
            &&& boundaries(0, s.current_step as int, s.num_steps as int, len, m * len as nat) == m
            &&& clock_after(0, s.current_step as int, s.num_steps as int, len, m * len as nat)
                == (0int, (s.current_step + m) % (s.num_steps as int))
            &&& s.sample_rate == 44100 && bpm == 120 ==> len == 5512
        }),
{
    let len = step_length(s.sample_rate as nat, bpm as nat) as int;
    lemma_boundaries_per_steps(s.current_step as int, s.num_steps as int, len, m);
    if s.sample_rate == 44100 && bpm == 120 {
        vstd::arithmetic::div_mod::lemma_fundamental_div_mod_converse(2646000, 480, 5512, 240);
        assert(step_length(44100, 120) == 5512);
    }
}

/// Cut `v` down to `len` slots, or extend it to `len` with empty slots.
fn resize_pattern(v: &mut Vec<Option<u8>>, len: usize)
    ensures
        final(v)@.len() == len,
        forall|i: int| 0 <= i < len && i < old(v)@.len() ==> final(v)@[i] == old(v)@[i],
        forall|i: int| old(v)@.len() <= i < len ==> final(v)@[i].is_none(),
{
    if len <= v.len() {
        v.truncate(len);
    } else {
        while v.len() < len
            invariant
                v@.len() <= len,
                forall|i: int| 0 <= i < old(v)@.len() ==> v@[i] == old(v)@[i],
                old(v)@.len() <= v@.len(),
                forall|i: int| old(v)@.len() <= i < v@.len() ==> v@[i].is_none(),
            decreases len - v@.len(),
        {
            v.push(None);
        }
    }
}

} // verus!
