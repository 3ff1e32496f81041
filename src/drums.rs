use vstd::prelude::*;
use crate::clock::{clock_next, samples_per_step, step_length};
use crate::sequencer::{cycled_length, next_length, valid_length, COUNTER_LIMIT};

verus! {

/// Number of drum tracks; track `i` always plays `kind_of_track(i)`.
pub const NUM_TRACKS: usize = 8;

/// Step of a track volume change, in percent.
pub const VOLUME_STEP: u32 = 10;

/// Percussion sounds, one per track.
#[derive(Clone, Copy, Debug, PartialEq, Eq, Structural)]
pub enum DrumKind {
    Kick,
    Snare,
    ClosedHat,
    OpenHat,
    Clap,
    LowTom,
    MidTom,
    HighTom,
}

pub open spec fn kind_of_track(i: int) -> DrumKind {
    if i == 0 { DrumKind::Kick }
    else if i == 1 { DrumKind::Snare }
    else if i == 2 { DrumKind::ClosedHat }
    else if i == 3 { DrumKind::OpenHat }
    else if i == 4 { DrumKind::Clap }
    else if i == 5 { DrumKind::LowTom }
    else if i == 6 { DrumKind::MidTom }
    else { DrumKind::HighTom }
}

pub open spec fn kind_name(k: DrumKind) -> Seq<char> {
    match k {
        DrumKind::Kick => "Kick"@,
        DrumKind::Snare => "Snare"@,
        DrumKind::ClosedHat => "C-Hat"@,
        DrumKind::OpenHat => "O-Hat"@,
        DrumKind::Clap => "Clap"@,
        DrumKind::LowTom => "L.Tom"@,
        DrumKind::MidTom => "M.Tom"@,
        DrumKind::HighTom => "H.Tom"@,
    }
}

/// How long one hit of each kind rings, in milliseconds.
pub open spec fn kind_ms(k: DrumKind) -> int {
    match k {
        DrumKind::Kick => 300,
        DrumKind::Snare => 180,
        DrumKind::ClosedHat => 60,
        DrumKind::OpenHat => 350,
        DrumKind::Clap => 200,
        DrumKind::LowTom => 320,
        DrumKind::MidTom => 260,
        DrumKind::HighTom => 200,
    }
}

/// Samples that one hit on track `track` lasts; at least one.
pub open spec fn hit_length(track: int, sample_rate: int) -> int {
    let n = sample_rate * kind_ms(kind_of_track(track)) / 1000;
    if n < 1 { 1 } else { n }
}

impl DrumKind {
    pub fn name(self) -> (r: &'static str)
        ensures
            r@ == kind_name(self),
    {
        match self {
            DrumKind::Kick => "Kick",
            DrumKind::Snare => "Snare",
            DrumKind::ClosedHat => "C-Hat",
            DrumKind::OpenHat => "O-Hat",
            DrumKind::Clap => "Clap",
            DrumKind::LowTom => "L.Tom",
            DrumKind::MidTom => "M.Tom",
            DrumKind::HighTom => "H.Tom",
        }
    }

    pub fn decay_ms(self) -> (r: u32)
        ensures
            r == kind_ms(self),
    {
        match self {
            DrumKind::Kick => 300,
            DrumKind::Snare => 180,
            DrumKind::ClosedHat => 60,
            DrumKind::OpenHat => 350,
            DrumKind::Clap => 200,
            DrumKind::LowTom => 320,
            DrumKind::MidTom => 260,
            DrumKind::HighTom => 200,
        }
    }
}

/// The kind played by track `i`.
pub fn track_kind(i: usize) -> (r: DrumKind)
    ensures
        r == kind_of_track(i as int),
{
    if i == 0 { DrumKind::Kick }
    else if i == 1 { DrumKind::Snare }
    else if i == 2 { DrumKind::ClosedHat }
    else if i == 3 { DrumKind::OpenHat }
    else if i == 4 { DrumKind::Clap }
    else if i == 5 { DrumKind::LowTom }
    else if i == 6 { DrumKind::MidTom }
    else { DrumKind::HighTom }
}

/// One percussion track: its own step pattern, mute switch and volume.
pub struct Track {
    pub kind: DrumKind,
    pub steps: Vec<bool>,
    pub muted: bool,
    /// Volume in percent, 0 to 100.
    pub volume: u32,
}

/// One sounding percussive hit: the track that played it and the samples
/// since it started.
#[derive(Clone, Copy, Debug, PartialEq, Eq, Structural)]
pub struct Hit {
    pub track: usize,
    pub age: u32,
}

/// Whether track `t` plays at `step`.
pub open spec fn fires(t: Track, step: int) -> bool {
    !t.muted && t.steps@[step]
}

/// Hits started at `step` by the first `n` tracks, in track order.
pub open spec fn fired(tracks: Seq<Track>, step: int, n: int) -> Seq<Hit>
    decreases n,
{
    if n <= 0 {
        Seq::empty()
    } else {
        let rest = fired(tracks, step, n - 1);
        if fires(tracks[n - 1], step) {
            rest.push(Hit { track: (n - 1) as usize, age: 0 })
        } else {
            rest
        }
    }
}

/// The hits one sample later: every age goes up by one and hits that have
/// run their length are dropped; order is kept.
pub open spec fn aged(hits: Seq<Hit>, sample_rate: int) -> Seq<Hit>
    decreases hits.len(),
{
    if hits.len() == 0 {
        hits
    } else {
        let rest = aged(hits.drop_last(), sample_rate);
        let h = hits.last();
        if h.age + 1 < hit_length(h.track as int, sample_rate) {
            rest.push(Hit { track: h.track, age: (h.age + 1) as u32 })
        } else {
            rest
        }
    }
}

pub open spec fn hit_ok(h: Hit, sample_rate: int) -> bool {
    h.track < NUM_TRACKS && h.age < hit_length(h.track as int, sample_rate)
}

/// Several percussion tracks on one shared clock.
pub struct DrumMachine {
    pub tracks: Vec<Track>,
    pub num_steps: usize,
    pub current_step: usize,
    pub playing: bool,
    pub sample_rate: u32,
    /// Samples elapsed in the current step.
    pub sample_counter: u64,
    /// Hits still sounding, oldest first.
    pub hits: Vec<Hit>,
}

impl DrumMachine {
    pub open spec fn track_ok(&self, t: Track, i: int) -> bool {
        &&& t.kind == kind_of_track(i)
        &&& t.steps@.len() == self.num_steps
        &&& t.volume <= 100
    }

    pub open spec fn wf(&self) -> bool {
        &&& valid_length(self.num_steps as int)
        &&& self.current_step < self.num_steps
        &&& self.sample_counter < COUNTER_LIMIT
        &&& self.tracks@.len() == NUM_TRACKS
        &&& forall|i: int| 0 <= i < NUM_TRACKS ==> self.track_ok(#[trigger] self.tracks@[i], i)
        &&& forall|i: int| 0 <= i < self.hits@.len() ==> hit_ok(#[trigger] self.hits@[i], self.sample_rate as int)
    }

    /// `next` is this machine one tick later at `bpm`. Running hits age by
    /// one sample and those that have finished are dropped; then, while
    /// playing, on the first sample of each step every unmuted track whose
    /// pattern is set at the current step starts a new hit, in track order,
    /// and the clock advances. Hits of one track may overlap.
    pub open spec fn ticked(&self, next: DrumMachine, bpm: u32) -> bool {
        &&& next.tracks@ == self.tracks@
        &&& next.num_steps == self.num_steps
        &&& next.playing == self.playing
        &&& next.sample_rate == self.sample_rate
        &&& !self.playing ==> {
            &&& next.current_step == self.current_step
            &&& next.sample_counter == self.sample_counter
            &&& next.hits@ == aged(self.hits@, self.sample_rate as int)
        }
        &&& self.playing ==> {
            let nx = clock_next(
                self.sample_counter as int,
                self.current_step as int,
                self.num_steps as int,
                step_length(self.sample_rate as nat, bpm as nat) as int,
            );
            &&& next.sample_counter == nx.0
            &&& next.current_step == nx.1
            &&& next.hits@ == aged(self.hits@, self.sample_rate as int) + if self.sample_counter == 0 {
                fired(self.tracks@, self.current_step as int, NUM_TRACKS as int)
            } else {
                Seq::empty()
            }
        }
    }

    /// Eight empty sixteen-step tracks at 80% volume, stopped, silent.
    pub fn new(sample_rate: u32) -> (r: DrumMachine)
        ensures
            r.wf(),
            r.num_steps == 16,
            r.current_step == 0,
            !r.playing,
            r.sample_rate == sample_rate,
            r.sample_counter == 0,
            r.hits@.len() == 0,
            forall|i: int| 0 <= i < NUM_TRACKS ==> {
                &&& !(#[trigger] r.tracks@[i]).muted
                &&& r.tracks@[i].volume == 80
                &&& forall|s: int| 0 <= s < 16 ==> !r.tracks@[i].steps@[s]
            },
    {
        let mut tracks: Vec<Track> = Vec::new();
        let mut i: usize = 0;
        while i < NUM_TRACKS
            invariant
                i <= NUM_TRACKS,
                tracks@.len() == i,
                forall|k: int| 0 <= k < i ==> {
                    &&& (#[trigger] tracks@[k]).kind == kind_of_track(k)
                    &&& tracks@[k].steps@.len() == 16
                    &&& !tracks@[k].muted
                    &&& tracks@[k].volume == 80
                    &&& forall|s: int| 0 <= s < 16 ==> !tracks@[k].steps@[s]
                },
            decreases NUM_TRACKS - i,
        {
            let mut steps: Vec<bool> = Vec::new();
            let mut s: usize = 0;
            while s < 16
                invariant
                    s <= 16,
                    steps@.len() == s,
                    forall|k: int| 0 <= k < s ==> !steps@[k],
                decreases 16 - s,
            {
                steps.push(false);
                s = s + 1;
            }
            tracks.push(Track { kind: track_kind(i), steps, muted: false, volume: 80 });
            i = i + 1;
        }
        DrumMachine {
            tracks,
            num_steps: 16,
            current_step: 0,
            playing: false,
            sample_rate,
            sample_counter: 0,
            hits: Vec::new(),
        }
    }

    /// Called once per audio sample with the master tempo; see `ticked`.
    pub fn tick(&mut self, bpm: u32)
        requires
            old(self).wf(),
            old(self).playing ==> bpm > 0,
        ensures
            final(self).wf(),
            old(self).ticked(*final(self), bpm),
    {
        self.age_hits();
        if !self.playing {
            return;
        }
        let sps = samples_per_step(self.sample_rate, bpm);
        let old_counter = self.sample_counter;
        self.sample_counter = self.sample_counter + 1;
        if old_counter == 0 {
            self.start_hits();
        }
        if self.sample_counter >= sps {
            self.sample_counter = 0;
            self.current_step = (self.current_step + 1) % self.num_steps;
        }
        assert(sps < COUNTER_LIMIT);
    }

    fn age_hits(&mut self)
        requires
            old(self).wf(),
        ensures
            final(self).wf(),
            final(self).hits@ == aged(old(self).hits@, old(self).sample_rate as int),
            final(self).tracks@ == old(self).tracks@,
            final(self).num_steps == old(self).num_steps,
            final(self).current_step == old(self).current_step,
            final(self).playing == old(self).playing,
            final(self).sample_rate == old(self).sample_rate,
            final(self).sample_counter == old(self).sample_counter,
    {
        let ghost start = self.hits@;
        let ghost sr = self.sample_rate as int;
        let n = self.hits.len();
        let mut i: usize = 0;
        let mut j: usize = 0;
        while i < n
            invariant
                j <= i <= n,
                n == start.len(),
                self.hits@.len() == n,
                sr == self.sample_rate,
                self.hits@.subrange(0, j as int) == aged(start.subrange(0, i as int), sr),
                forall|k: int| i <= k < n ==> self.hits@[k] == start[k],
                forall|k: int| 0 <= k < n ==> hit_ok(#[trigger] start[k], sr),
                forall|k: int| 0 <= k < j ==> hit_ok(#[trigger] self.hits@[k], sr),
                self.tracks@ == old(self).tracks@,
                self.num_steps == old(self).num_steps,
                self.current_step == old(self).current_step,
                self.playing == old(self).playing,
                self.sample_rate == old(self).sample_rate,
                self.sample_counter == old(self).sample_counter,
                start == old(self).hits@,
            decreases n - i,
        {
            let h = self.hits[i];
            assert(h == start[i as int]);
            assert(start.subrange(0, i as int + 1).drop_last() =~= start.subrange(0, i as int));
            let len = drum_hit_length(h.track, self.sample_rate);
            if h.age + 1 < len {
                self.hits.set(j, Hit { track: h.track, age: h.age + 1 });
                assert(self.hits@.subrange(0, j as int + 1) =~= aged(start.subrange(0, i as int), sr).push(
                    Hit { track: h.track, age: (h.age + 1) as u32 },
                ));
                j = j + 1;
            } else {
                assert(self.hits@.subrange(0, j as int) =~= aged(start.subrange(0, i as int), sr));
            }
            i = i + 1;
        }
        assert(start.subrange(0, n as int) =~= start);
        self.hits.truncate(j);
        assert(self.hits@ =~= aged(start, sr));
    }

    fn start_hits(&mut self)
        requires
            old(self).wf(),
        ensures
            final(self).wf(),
            final(self).hits@ == old(self).hits@ + fired(old(self).tracks@, old(self).current_step as int, NUM_TRACKS as int),
            final(self).tracks@ == old(self).tracks@,
            final(self).num_steps == old(self).num_steps,
            final(self).current_step == old(self).current_step,
            final(self).playing == old(self).playing,
            final(self).sample_rate == old(self).sample_rate,
            final(self).sample_counter == old(self).sample_counter,
    {
        let step = self.current_step;
        let mut t: usize = 0;
        while t < NUM_TRACKS
            invariant
                t <= NUM_TRACKS,
                self.wf(),
                step == self.current_step,
                self.hits@ == old(self).hits@ + fired(old(self).tracks@, step as int, t as int),
                self.tracks@ == old(self).tracks@,
                self.num_steps == old(self).num_steps,
                self.current_step == old(self).current_step,
                self.playing == old(self).playing,
                self.sample_rate == old(self).sample_rate,
                self.sample_counter == old(self).sample_counter,
            decreases NUM_TRACKS - t,
        {
            assert(self.track_ok(self.tracks@[t as int], t as int));
            if !self.tracks[t].muted && self.tracks[t].steps[step] {
                proof {
                    lemma_hit_length_positive(t as int, self.sample_rate as int);
                }
                self.hits.push(Hit { track: t, age: 0 });
                assert(self.hits@ =~= old(self).hits@ + fired(old(self).tracks@, step as int, t as int + 1));
            }
            t = t + 1;
        }
    }

    /// Start a hit on `track` at once, whether or not the transport runs.
    /// An out-of-range track is ignored.
    pub fn trigger_now(&mut self, track: usize)
        requires
            old(self).wf(),
        ensures
            final(self).wf(),
            final(self).hits@ == if track < NUM_TRACKS {
                old(self).hits@.push(Hit { track, age: 0 })
            } else {
                old(self).hits@
            },
            final(self).tracks@ == old(self).tracks@,
            final(self).num_steps == old(self).num_steps,
            final(self).current_step == old(self).current_step,
            final(self).playing == old(self).playing,
            final(self).sample_rate == old(self).sample_rate,
            final(self).sample_counter == old(self).sample_counter,
    {
        if track < NUM_TRACKS {
            proof {
                lemma_hit_length_positive(track as int, self.sample_rate as int);
            }
            self.hits.push(Hit { track, age: 0 });
        }
    }

    /// Start or stop the transport. Starting puts the clock at the start of
    /// the current step; stopping keeps the position.
    pub fn toggle_play(&mut self)
        requires
            old(self).wf(),
        ensures
            final(self).wf(),
            final(self).playing == !old(self).playing,
            final(self).sample_counter == if final(self).playing { 0 } else { old(self).sample_counter },
            final(self).tracks@ == old(self).tracks@,
            final(self).hits@ == old(self).hits@,
            final(self).num_steps == old(self).num_steps,
            final(self).current_step == old(self).current_step,
            final(self).sample_rate == old(self).sample_rate,
    {
        self.playing = !self.playing;
        if self.playing {
            self.sample_counter = 0;
        }
    }
}

impl DrumMachine {
    /// Everything but track `track` is as before, and that track keeps its kind.
    pub open spec fn only_track_changed(&self, before: &DrumMachine, track: int) -> bool {
        &&& self.tracks@.len() == before.tracks@.len()
        &&& forall|i: int| 0 <= i < self.tracks@.len() && i != track ==> self.tracks@[i] == before.tracks@[i]
        &&& self.tracks@[track].kind == before.tracks@[track].kind
        &&& self.hits@ == before.hits@
        &&& self.num_steps == before.num_steps
        &&& self.current_step == before.current_step
        &&& self.playing == before.playing
        &&& self.sample_rate == before.sample_rate
        &&& self.sample_counter == before.sample_counter
    }

    /// Flip step `step` of track `track`; other tracks are untouched. Indices
    /// outside the machine are ignored.
    pub fn toggle_step(&mut self, track: usize, step: usize)
        requires
            old(self).wf(),
        ensures
            final(self).wf(),
            track < NUM_TRACKS && step < old(self).num_steps ==> {
                let t = old(self).tracks@[track as int];
                &&& final(self).only_track_changed(old(self), track as int)
                &&& final(self).tracks@[track as int].steps@ == t.steps@.update(step as int, !t.steps@[step as int])
                &&& final(self).tracks@[track as int].muted == t.muted
                &&& final(self).tracks@[track as int].volume == t.volume
            },
            !(track < NUM_TRACKS && step < old(self).num_steps) ==> final(self).tracks@ == old(self).tracks@
                && final(self).only_track_changed(old(self), 0),
    {
        if track < NUM_TRACKS && step < self.num_steps {
            assert(self.track_ok(self.tracks@[track as int], track as int));
            let b = self.tracks[track].steps[step];
            self.tracks[track].steps.set(step, !b);
            assert(forall|i: int| 0 <= i < NUM_TRACKS && i != track ==> self.tracks@[i] == old(self).tracks@[i]);
            assert(self.track_ok(self.tracks@[track as int], track as int));
        }
    }

    /// Clear step `step` of track `track`; other tracks are untouched.
    /// Indices outside the machine are ignored.
    pub fn clear_step(&mut self, track: usize, step: usize)
        requires
            old(self).wf(),
        ensures
            final(self).wf(),
            track < NUM_TRACKS && step < old(self).num_steps ==> {
                let t = old(self).tracks@[track as int];
                &&& final(self).only_track_changed(old(self), track as int)
                &&& final(self).tracks@[track as int].steps@ == t.steps@.update(step as int, false)
                &&& final(self).tracks@[track as int].muted == t.muted
                &&& final(self).tracks@[track as int].volume == t.volume
            },
            !(track < NUM_TRACKS && step < old(self).num_steps) ==> final(self).tracks@ == old(self).tracks@
                && final(self).only_track_changed(old(self), 0),
    {
        if track < NUM_TRACKS && step < self.num_steps {
            assert(self.track_ok(self.tracks@[track as int], track as int));
            self.tracks[track].steps.set(step, false);
            assert(self.track_ok(self.tracks@[track as int], track as int));
        }
    }

    /// Mute or unmute track `track`; an out-of-range track is ignored.
    pub fn toggle_mute(&mut self, track: usize)
        requires
            old(self).wf(),
        ensures
            final(self).wf(),
            track < NUM_TRACKS ==> {
                let t = old(self).tracks@[track as int];
                &&& final(self).only_track_changed(old(self), track as int)
                &&& final(self).tracks@[track as int].muted == !t.muted
                &&& final(self).tracks@[track as int].steps@ == t.steps@
                &&& final(self).tracks@[track as int].volume == t.volume
            },
            track >= NUM_TRACKS ==> final(self).tracks@ == old(self).tracks@
                && final(self).only_track_changed(old(self), 0),
    {
        if track < NUM_TRACKS {
            let m = self.tracks[track].muted;
            self.tracks[track].muted = !m;
            assert(self.track_ok(self.tracks@[track as int], track as int));
        }
    }

    /// Raise the volume of track `track` by `VOLUME_STEP` percent, up to 100.
    pub fn track_volume_up(&mut self, track: usize)
        requires
            old(self).wf(),
        ensures
            final(self).wf(),
            track < NUM_TRACKS ==> {
                let t = old(self).tracks@[track as int];
                &&& final(self).only_track_changed(old(self), track as int)
                &&& final(self).tracks@[track as int].volume == if t.volume + VOLUME_STEP > 100 {
                    100
                } else {
                    t.volume + VOLUME_STEP
                }
                &&& final(self).tracks@[track as int].steps@ == t.steps@
                &&& final(self).tracks@[track as int].muted == t.muted
            },
            track >= NUM_TRACKS ==> final(self).tracks@ == old(self).tracks@
                && final(self).only_track_changed(old(self), 0),
    {
        if track < NUM_TRACKS {
            assert(self.track_ok(self.tracks@[track as int], track as int));
            let v = self.tracks[track].volume;
            self.tracks[track].volume = if v + VOLUME_STEP > 100 { 100 } else { v + VOLUME_STEP };
            assert(self.track_ok(self.tracks@[track as int], track as int));
        }
    }

    /// Lower the volume of track `track` by `VOLUME_STEP` percent, down to 0.
    pub fn track_volume_down(&mut self, track: usize)
        requires
            old(self).wf(),
        ensures
            final(self).wf(),
            track < NUM_TRACKS ==> {
                let t = old(self).tracks@[track as int];
                &&& final(self).only_track_changed(old(self), track as int)
                &&& final(self).tracks@[track as int].volume == if t.volume < VOLUME_STEP {
                    0
                } else {
                    t.volume - VOLUME_STEP
                }
                &&& final(self).tracks@[track as int].steps@ == t.steps@
                &&& final(self).tracks@[track as int].muted == t.muted
            },
            track >= NUM_TRACKS ==> final(self).tracks@ == old(self).tracks@
                && final(self).only_track_changed(old(self), 0),
    {
        if track < NUM_TRACKS {
            assert(self.track_ok(self.tracks@[track as int], track as int));
            let v = self.tracks[track].volume;
            self.tracks[track].volume = if v < VOLUME_STEP { 0 } else { v - VOLUME_STEP };
            assert(self.track_ok(self.tracks@[track as int], track as int));
        }
    }

    /// Move every track to the next pattern length in 8, 16, 24, 32: existing
    /// steps are kept, new steps are off, and the current step goes back to
    /// 0 only if it no longer fits.
    pub fn cycle_num_steps(&mut self)
        requires
            old(self).wf(),
        ensures
            final(self).wf(),
            final(self).num_steps as int == next_length(old(self).num_steps as int),
            forall|i: int, s: int|
                0 <= i < NUM_TRACKS && 0 <= s < final(self).num_steps && s < old(self).num_steps
                    ==> #[trigger] final(self).tracks@[i].steps@[s] == old(self).tracks@[i].steps@[s],
            forall|i: int, s: int|
                0 <= i < NUM_TRACKS && old(self).num_steps <= s < final(self).num_steps
                    ==> !#[trigger] final(self).tracks@[i].steps@[s],
            forall|i: int|
                0 <= i < NUM_TRACKS ==> (#[trigger] final(self).tracks@[i]).muted == old(self).tracks@[i].muted
                    && final(self).tracks@[i].volume == old(self).tracks@[i].volume,
            final(self).current_step == if old(self).current_step < final(self).num_steps {
                old(self).current_step
            } else {
                0
            },
            final(self).hits@ == old(self).hits@,
            final(self).playing == old(self).playing,
            final(self).sample_rate == old(self).sample_rate,
            final(self).sample_counter == old(self).sample_counter,
    {
        let next = cycled_length(self.num_steps);
        let mut t: usize = 0;
        while t < NUM_TRACKS
            invariant
                t <= NUM_TRACKS,
                valid_length(next as int),
                self.tracks@.len() == NUM_TRACKS,
                self.num_steps == old(self).num_steps,
                forall|i: int| 0 <= i < NUM_TRACKS ==> {
                    &&& (#[trigger] self.tracks@[i]).kind == old(self).tracks@[i].kind
                    &&& self.tracks@[i].muted == old(self).tracks@[i].muted
                    &&& self.tracks@[i].volume == old(self).tracks@[i].volume
                },
                forall|i: int| t <= i < NUM_TRACKS ==> (#[trigger] self.tracks@[i]).steps@ == old(self).tracks@[i].steps@,
                forall|i: int| 0 <= i < t ==> (#[trigger] self.tracks@[i]).steps@.len() == next,
                forall|i: int, s: int|
                    0 <= i < t && 0 <= s < next && s < old(self).num_steps
                        ==> #[trigger] self.tracks@[i].steps@[s] == old(self).tracks@[i].steps@[s],
                forall|i: int, s: int|
                    0 <= i < t && old(self).num_steps <= s < next ==> !#[trigger] self.tracks@[i].steps@[s],
                self.hits@ == old(self).hits@,
                self.current_step == old(self).current_step,
                self.playing == old(self).playing,
                self.sample_rate == old(self).sample_rate,
                self.sample_counter == old(self).sample_counter,
                old(self).wf(),
            decreases NUM_TRACKS - t,
        {
            assert(old(self).track_ok(old(self).tracks@[t as int], t as int));
            resize_flags(&mut self.tracks[t].steps, next);
            t = t + 1;
        }
        self.num_steps = next;
        if self.current_step >= next {
            self.current_step = 0;
        }
        assert forall|i: int| 0 <= i < NUM_TRACKS implies self.track_ok(#[trigger] self.tracks@[i], i) by {
            assert(old(self).track_ok(old(self).tracks@[i], i));
        }
    }
}

/// Cut `v` down to `len` flags, or extend it to `len` with cleared flags.
fn resize_flags(v: &mut Vec<bool>, len: usize)
    ensures
        final(v)@.len() == len,
        forall|i: int| 0 <= i < len && i < old(v)@.len() ==> final(v)@[i] == old(v)@[i],
        forall|i: int| old(v)@.len() <= i < len ==> !final(v)@[i],
{
    if len <= v.len() {
        v.truncate(len);
    } else {
        while v.len() < len
            invariant
                v@.len() <= len,
                forall|i: int| 0 <= i < old(v)@.len() ==> v@[i] == old(v)@[i],
                old(v)@.len() <= v@.len(),
                forall|i: int| old(v)@.len() <= i < v@.len() ==> !v@[i],
            decreases len - v@.len(),
        {
            v.push(false);
        }
    }
}

/// Executable form of `hit_length`.
fn drum_hit_length(track: usize, sample_rate: u32) -> (r: u32)
    requires
        track < NUM_TRACKS,
    ensures
        r as int == hit_length(track as int, sample_rate as int),
{
    let ms = track_kind(track).decay_ms() as u64;
    assert(ms <= 1000);
    assert(sample_rate as u64 * ms <= u32::MAX as u64 * 1000) by (nonlinear_arith)
        requires
            ms <= 1000,
            sample_rate <= u32::MAX,
    ;
    let n = sample_rate as u64 * ms / 1000;
    assert(n <= sample_rate) by {
        assert(sample_rate as u64 * ms <= sample_rate as u64 * 1000) by (nonlinear_arith)
            requires
                ms <= 1000,
        ;
        vstd::arithmetic::div_mod::lemma_div_is_ordered(
            (sample_rate as u64 * ms) as int, (sample_rate as u64 * 1000) as int, 1000);
        vstd::arithmetic::div_mod::lemma_div_multiples_vanish(sample_rate as int, 1000);
    }
    if n < 1 {
        1
    } else {
        n as u32
    }
}

proof fn lemma_hit_length_positive(track: int, sample_rate: int)
    ensures
        hit_length(track, sample_rate) >= 1,
{
}

} // verus!
