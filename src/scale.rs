use vstd::prelude::*;

verus! {

/// The musical scales a `ScaleQuantizer` can snap to.
#[derive(Clone, Copy, Debug, PartialEq, Eq, Structural)]
pub enum Scale {
    Off,
    Major,
    Minor,
    PentaMajor,
    PentaMinor,
    Blues,
    Dorian,
    Mixolydian,
}

/// Semitone intervals of each scale above its root.
pub open spec fn scale_intervals(s: Scale) -> Seq<u8> {
    match s {
        Scale::Off => seq![0u8, 1, 2, 3, 4, 5, 6, 7, 8, 9, 10, 11],
        Scale::Major => seq![0u8, 2, 4, 5, 7, 9, 11],
        Scale::Minor => seq![0u8, 2, 3, 5, 7, 8, 10],
        Scale::PentaMajor => seq![0u8, 2, 4, 7, 9],
        Scale::PentaMinor => seq![0u8, 3, 5, 7, 10],
        Scale::Blues => seq![0u8, 3, 5, 6, 7, 10],
        Scale::Dorian => seq![0u8, 2, 3, 5, 7, 9, 10],
        Scale::Mixolydian => seq![0u8, 2, 4, 5, 7, 9, 10],
    }
}

/// The scale that follows `s` in the fixed cycle Off, Major, Minor,
/// PentaMajor, PentaMinor, Blues, Dorian, Mixolydian, Off, ...
pub open spec fn scale_after(s: Scale) -> Scale {
    match s {
        Scale::Off => Scale::Major,
        Scale::Major => Scale::Minor,
        Scale::Minor => Scale::PentaMajor,
        Scale::PentaMajor => Scale::PentaMinor,
        Scale::PentaMinor => Scale::Blues,
        Scale::Blues => Scale::Dorian,
        Scale::Dorian => Scale::Mixolydian,
        Scale::Mixolydian => Scale::Off,
    }
}

pub open spec fn scale_name(s: Scale) -> Seq<char> {
    match s {
        Scale::Off => "Off"@,
        Scale::Major => "Major"@,
        Scale::Minor => "Minor"@,
        Scale::PentaMajor => "Penta Maj"@,
        Scale::PentaMinor => "Penta Min"@,
        Scale::Blues => "Blues"@,
        Scale::Dorian => "Dorian"@,
        Scale::Mixolydian => "Mixolydian"@,
    }
}

pub open spec fn scale_short_name(s: Scale) -> Seq<char> {
    match s {
        Scale::Off => "Off"@,
        Scale::Major => "Maj"@,
        Scale::Minor => "Min"@,
        Scale::PentaMajor => "PMaj"@,
        Scale::PentaMinor => "PMin"@,
        Scale::Blues => "Blues"@,
        Scale::Dorian => "Dor"@,
        Scale::Mixolydian => "Mix"@,
    }
}

/// Name of a pitch class, 0 = C up to 11 = B.
pub open spec fn pitch_class_name(pc: int) -> Seq<char> {
    if pc == 0 { "C"@ }
    else if pc == 1 { "C#"@ }
    else if pc == 2 { "D"@ }
    else if pc == 3 { "D#"@ }
    else if pc == 4 { "E"@ }
    else if pc == 5 { "F"@ }
    else if pc == 6 { "F#"@ }
    else if pc == 7 { "G"@ }
    else if pc == 8 { "G#"@ }
    else if pc == 9 { "A"@ }
    else if pc == 10 { "A#"@ }
    else { "B"@ }
}

pub open spec fn abs(x: int) -> int {
    if x < 0 { -x } else { x }
}

/// One comparison of the nearest-note search: `c` replaces the best offset
/// so far only when it is strictly closer.
pub open spec fn consider(best: (int, int), c: int) -> (int, int) {
    if abs(c) < best.1 { (c, abs(c)) } else { best }
}

/// Best (offset, distance) after examining the first `n` intervals of `ivs`,
/// each through its candidates in the current octave, the octave below and
/// the octave above. The search starts from offset 0 at an unbounded distance.
pub open spec fn nearest(ivs: Seq<u8>, rel: int, n: int) -> (int, int)
    decreases n,
{
    if n <= 0 {
        (0, i32::MAX as int)
    } else {
        let iv = ivs[n - 1] as int;
        let b = nearest(ivs, rel, n - 1);
        consider(consider(consider(b, iv - rel), iv - 12 - rel), iv + 12 - rel)
    }
}

pub open spec fn clamp_pitch(x: int) -> int {
    if x < 0 { 0 } else if x > 127 { 127 } else { x }
}

/// The pitch that `note` snaps to in `scale` over `root`.
pub open spec fn quantized(scale: Scale, root: int, note: int) -> int {
    if scale == Scale::Off {
        note
    } else {
        let ivs = scale_intervals(scale);
        let rel = (note - root) % 12;
        clamp_pitch(note + nearest(ivs, rel, ivs.len() as int).0)
    }
}

/// Whether pitch `p` belongs to `scale` played over `root`.
pub open spec fn in_scale(scale: Scale, root: int, p: int) -> bool {
    exists|k: int| 0 <= k < scale_intervals(scale).len() && (p - root) % 12 == scale_intervals(scale)[k] as int
}

/// The search over the first `n` intervals ends on one of their candidates,
/// at its true distance, and no candidate examined is closer.
proof fn lemma_nearest(ivs: Seq<u8>, rel: int, n: int)
    requires
        1 <= n <= ivs.len(),
        0 <= rel < 12,
        forall|k: int| 0 <= k < ivs.len() ==> ivs[k] < 12,
    ensures
        ({
            let b = nearest(ivs, rel, n);
            &&& b.1 == abs(b.0)
            &&& exists|k: int| 0 <= k < n && (b.0 == ivs[k] - rel || b.0 == ivs[k] - 12 - rel || b.0 == ivs[k] + 12 - rel)
            &&& forall|k: int| 0 <= k < n ==> b.1 <= abs(ivs[k] - rel) && b.1 <= abs(ivs[k] - 12 - rel)
                && b.1 <= abs(ivs[k] + 12 - rel)
        }),
    decreases n,
{
    let iv = ivs[n - 1] as int;
    let c0 = iv - rel;
    let c1 = iv - 12 - rel;
    let c2 = iv + 12 - rel;
    let b = nearest(ivs, rel, n - 1);
    let r1 = consider(b, c0);
    let r2 = consider(r1, c1);
    let r3 = consider(r2, c2);
    assert(r3 == nearest(ivs, rel, n));
    if n == 1 {
        assert(b == (0int, i32::MAX as int));
        assert(r1 == (c0, abs(c0)));
        assert(r3.1 == abs(r3.0));
        assert(r3.0 == c0 || r3.0 == c1 || r3.0 == c2);
        assert(exists|k: int| 0 <= k < n && (r3.0 == ivs[k] - rel || r3.0 == ivs[k] - 12 - rel || r3.0 == ivs[k] + 12 - rel)) by {
            assert(0 <= n - 1 < n);
        }
    } else {
        lemma_nearest(ivs, rel, n - 1);
        assert(r3.1 <= b.1);
        assert(r3.1 == abs(r3.0));
        if r3 == b {
            let k0 = choose|k: int| 0 <= k < n - 1 && (b.0 == ivs[k] - rel || b.0 == ivs[k] - 12 - rel || b.0 == ivs[k] + 12 - rel);
            assert(0 <= k0 < n);
        } else {
            assert(r3.0 == c0 || r3.0 == c1 || r3.0 == c2);
            assert(0 <= n - 1 < n);
        }
    }
    assert(r3.1 <= abs(c0) && r3.1 <= abs(c1) && r3.1 <= abs(c2));
}

/// Away from the ends of the pitch range, a quantized pitch belongs to the
/// scale, and no pitch of the scale lies closer to the input.
pub proof fn lemma_quantized_nearest(scale: Scale, root: int, note: int)
    requires
        scale != Scale::Off,
        0 <= root < 12,
    ensures
        ({
            let q = quantized(scale, root, note);
            let ivs = scale_intervals(scale);
            let off = nearest(ivs, (note - root) % 12, ivs.len() as int).0;
            (0 <= note + off <= 127) ==> {
                &&& q == note + off
                &&& in_scale(scale, root, q)
                &&& forall|p: int| in_scale(scale, root, p) ==> abs(q - note) <= #[trigger] abs(p - note)
            }
        }),
{
    let ivs = scale_intervals(scale);
    let rel = (note - root) % 12;
    assert(forall|k: int| 0 <= k < ivs.len() ==> ivs[k] < 12);
    lemma_nearest(ivs, rel, ivs.len() as int);
    let b = nearest(ivs, rel, ivs.len() as int);
    let off = b.0;
    if 0 <= note + off <= 127 {
        let q = note + off;
        let a = (note - root) / 12;
        vstd::arithmetic::div_mod::lemma_fundamental_div_mod(note - root, 12);
        assert(note - root == 12 * a + rel);
        let k = choose|k: int| 0 <= k < ivs.len() && (off == ivs[k] - rel || off == ivs[k] - 12 - rel || off == ivs[k] + 12 - rel);
        let iv = ivs[k] as int;
        let m: int = if off == iv - rel { 0 } else if off == iv - 12 - rel { -1 } else { 1 };
        assert(q - root == 12 * (a + m) + iv);
        vstd::arithmetic::div_mod::lemma_mod_multiples_vanish(a + m, iv, 12);
        vstd::arithmetic::div_mod::lemma_small_mod(iv as nat, 12);
        assert((q - root) % 12 == iv);
        assert forall|p: int| in_scale(scale, root, p) implies abs(q - note) <= #[trigger] abs(p - note) by {
            let j = choose|j: int| 0 <= j < ivs.len() && (p - root) % 12 == ivs[j] as int;
            let jv = ivs[j] as int;
            let c = (p - root) / 12;
            vstd::arithmetic::div_mod::lemma_fundamental_div_mod(p - root, 12);
            assert(p - note == 12 * (c - a) + jv - rel);
            if c - a >= 1 {
                assert(p - note >= jv + 12 - rel);
            } else if c - a <= -1 {
                assert(p - note <= jv - 12 - rel);
            }
        }
    }
}

impl Scale {
    pub fn name(self) -> (r: &'static str)
        ensures
            r@ == scale_name(self),
    {
        match self {
            Scale::Off => "Off",
            Scale::Major => "Major",
            Scale::Minor => "Minor",
            Scale::PentaMajor => "Penta Maj",
            Scale::PentaMinor => "Penta Min",
            Scale::Blues => "Blues",
            Scale::Dorian => "Dorian",
            Scale::Mixolydian => "Mixolydian",
        }
    }

    /// Abbreviated name for a status line.
    pub fn short_name(self) -> (r: &'static str)
        ensures
            r@ == scale_short_name(self),
    {
        match self {
            Scale::Off => "Off",
            Scale::Major => "Maj",
            Scale::Minor => "Min",
            Scale::PentaMajor => "PMaj",
            Scale::PentaMinor => "PMin",
            Scale::Blues => "Blues",
            Scale::Dorian => "Dor",
            Scale::Mixolydian => "Mix",
        }
    }

    /// Semitone intervals from the root note (root = 0).
    pub fn intervals(self) -> (r: Vec<u8>)
        ensures
            r@ == scale_intervals(self),
    {
        let r = match self {
            Scale::Off => vec![0u8, 1, 2, 3, 4, 5, 6, 7, 8, 9, 10, 11],
            Scale::Major => vec![0u8, 2, 4, 5, 7, 9, 11],
            Scale::Minor => vec![0u8, 2, 3, 5, 7, 8, 10],
            Scale::PentaMajor => vec![0u8, 2, 4, 7, 9],
            Scale::PentaMinor => vec![0u8, 3, 5, 7, 10],
            Scale::Blues => vec![0u8, 3, 5, 6, 7, 10],
            Scale::Dorian => vec![0u8, 2, 3, 5, 7, 9, 10],
            Scale::Mixolydian => vec![0u8, 2, 4, 5, 7, 9, 10],
        };
        assert(r@ =~= scale_intervals(self));
        r
    }

    pub fn next(self) -> (r: Scale)
        ensures
            r == scale_after(self),
    {
        match self {
            Scale::Off => Scale::Major,
            Scale::Major => Scale::Minor,
            Scale::Minor => Scale::PentaMajor,
            Scale::PentaMajor => Scale::PentaMinor,
            Scale::PentaMinor => Scale::Blues,
            Scale::Blues => Scale::Dorian,
            Scale::Dorian => Scale::Mixolydian,
            Scale::Mixolydian => Scale::Off,
        }
    }
}

/// Snaps pitches to the nearest note of a scale over a root pitch class.
pub struct ScaleQuantizer {
    pub scale: Scale,
    /// Pitch class of the root: 0 = C, 1 = C#, ... 11 = B.
    pub root: u8,
}

impl ScaleQuantizer {
    pub open spec fn wf(&self) -> bool {
        self.root < 12
    }

    pub fn new() -> (r: ScaleQuantizer)
        ensures
            r.scale == Scale::Off,
            r.root == 0,
            r.wf(),
    {
        ScaleQuantizer { scale: Scale::Off, root: 0 }
    }

    pub fn active(&self) -> (r: bool)
        ensures
            r == (self.scale != Scale::Off),
    {
        self.scale != Scale::Off
    }

    /// Snap `note` to the nearest pitch of the selected scale, preferring
    /// the lower scale degree on a tie. With the scale `Off` the note comes
    /// back unchanged.
    pub fn quantize(&self, note: u8) -> (r: u8)
        ensures
            r as int == quantized(self.scale, self.root as int, note as int),
    {
        if self.scale == Scale::Off {
            return note;
        }
        let ivs = self.scale.intervals();
        let root = self.root as i32;
        let n = note as i32;
        let rel = (n - root) % 12;
        let rel = if rel < 0 { rel + 12 } else { rel };
        assert(rel as int == (n - root) % 12);
        let mut best_offset: i32 = 0;
        let mut best_dist: i32 = i32::MAX;
        let mut i: usize = 0;
        while i < ivs.len()
            invariant
                0 <= i <= ivs.len(),
                ivs@ == scale_intervals(self.scale),
                0 <= rel < 12,
                nearest(ivs@, rel as int, i as int) == (best_offset as int, best_dist as int),
                -23 <= best_offset <= 23,
                best_dist >= 0,
            decreases ivs.len() - i,
        {
            let iv = ivs[i] as i32;
            assert(0 <= iv < 12) by {
                assert(forall|k: int| 0 <= k < ivs@.len() ==> ivs@[k] < 12);
            }
            let c1 = iv - rel;
            let a1 = if c1 < 0 { -c1 } else { c1 };
            if a1 < best_dist {
                best_dist = a1;
                best_offset = c1;
            }
            let c2 = iv - 12 - rel;
            let a2 = if c2 < 0 { -c2 } else { c2 };
            if a2 < best_dist {
                best_dist = a2;
                best_offset = c2;
            }
            let c3 = iv + 12 - rel;
            let a3 = if c3 < 0 { -c3 } else { c3 };
            if a3 < best_dist {
                best_dist = a3;
                best_offset = c3;
            }
            i = i + 1;
        }
        let out = n + best_offset;
        if out < 0 {
            0
        } else if out > 127 {
            127
        } else {
            out as u8
        }
    }

    pub fn root_name(&self) -> (r: &'static str)
        requires
            self.wf(),
        ensures
            r@ == pitch_class_name(self.root as int),
    {
        pitch_class_label(self.root)
    }

    pub fn cycle_root(&mut self)
        requires
            old(self).wf(),
        ensures
            final(self).wf(),
            final(self).root == (old(self).root + 1) % 12,
            final(self).scale == old(self).scale,
    {
        self.root = (self.root + 1) % 12;
    }
}

/// Name of pitch class `pc` (taken modulo 12 by the caller).
pub fn pitch_class_label(pc: u8) -> (r: &'static str)
    requires
        pc < 12,
    ensures
        r@ == pitch_class_name(pc as int),
{
    if pc == 0 { "C" }
    else if pc == 1 { "C#" }
    else if pc == 2 { "D" }
    else if pc == 3 { "D#" }
    else if pc == 4 { "E" }
    else if pc == 5 { "F" }
    else if pc == 6 { "F#" }
    else if pc == 7 { "G" }
    else if pc == 8 { "G#" }
    else if pc == 9 { "A" }
    else if pc == 10 { "A#" }
    else { "B" }
}

} // verus!
