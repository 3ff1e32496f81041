use vstd::prelude::*;

verus! {

/// Highest base octave of the computer keyboard.
pub const MAX_OCTAVE: i32 = 8;

/// Semitone above the octave's C and octave row (0 lower, 1 upper) that a
/// computer key plays. The lower row spans z..'/' (white) and s..';' (black);
/// the upper row q..p (white) and 2..0 (black).
pub open spec fn key_offset(key: char) -> Option<(int, int)> {
    if key == 'z' { Some((0, 0)) }
    else if key == 'x' { Some((2, 0)) }
    else if key == 'c' { Some((4, 0)) }
    else if key == 'v' { Some((5, 0)) }
    else if key == 'b' { Some((7, 0)) }
    else if key == 'n' { Some((9, 0)) }
    else if key == 'm' { Some((11, 0)) }
    else if key == ',' { Some((12, 0)) }
    else if key == '.' { Some((14, 0)) }
    else if key == '/' { Some((16, 0)) }
    else if key == 's' { Some((1, 0)) }
    else if key == 'd' { Some((3, 0)) }
    else if key == 'g' { Some((6, 0)) }
    else if key == 'h' { Some((8, 0)) }
    else if key == 'j' { Some((10, 0)) }
    else if key == 'l' { Some((13, 0)) }
    else if key == ';' { Some((15, 0)) }
    else if key == 'q' { Some((0, 1)) }
    else if key == 'w' { Some((2, 1)) }
    else if key == 'e' { Some((4, 1)) }
    else if key == 'r' { Some((5, 1)) }
    else if key == 't' { Some((7, 1)) }
    else if key == 'y' { Some((9, 1)) }
    else if key == 'u' { Some((11, 1)) }
    else if key == 'i' { Some((12, 1)) }
    else if key == 'o' { Some((14, 1)) }
    else if key == 'p' { Some((16, 1)) }
    else if key == '2' { Some((1, 1)) }
    else if key == '3' { Some((3, 1)) }
    else if key == '5' { Some((6, 1)) }
    else if key == '6' { Some((8, 1)) }
    else if key == '7' { Some((10, 1)) }
    else if key == '9' { Some((13, 1)) }
    else if key == '0' { Some((15, 1)) }
    else { None }
}

/// The pitch a key plays at `base_octave`, if it is a note key and the
/// pitch lies in 0..=127.
pub open spec fn key_pitch(key: char, base_octave: int) -> Option<int> {
    match key_offset(key) {
        Some(o) => {
            let note = (base_octave + o.1) * 12 + 12 + o.0;
            if 0 <= note <= 127 { Some(note) } else { None }
        },
        None => None,
    }
}

fn offset_of(key: char) -> (r: Option<(i64, i64)>)
    ensures
        r.is_some() == key_offset(key).is_some(),
        r.is_some() ==> r.unwrap().0 == key_offset(key).unwrap().0 && r.unwrap().1 == key_offset(key).unwrap().1,
{
    match key {
        'z' => Some((0, 0)),
        'x' => Some((2, 0)),
        'c' => Some((4, 0)),
        'v' => Some((5, 0)),
        'b' => Some((7, 0)),
        'n' => Some((9, 0)),
        'm' => Some((11, 0)),
        ',' => Some((12, 0)),
        '.' => Some((14, 0)),
        '/' => Some((16, 0)),
        's' => Some((1, 0)),
        'd' => Some((3, 0)),
        'g' => Some((6, 0)),
        'h' => Some((8, 0)),
        'j' => Some((10, 0)),
        'l' => Some((13, 0)),
        ';' => Some((15, 0)),
        'q' => Some((0, 1)),
        'w' => Some((2, 1)),
        'e' => Some((4, 1)),
        'r' => Some((5, 1)),
        't' => Some((7, 1)),
        'y' => Some((9, 1)),
        'u' => Some((11, 1)),
        'i' => Some((12, 1)),
        'o' => Some((14, 1)),
        'p' => Some((16, 1)),
        '2' => Some((1, 1)),
        '3' => Some((3, 1)),
        '5' => Some((6, 1)),
        '6' => Some((8, 1)),
        '7' => Some((10, 1)),
        '9' => Some((13, 1)),
        '0' => Some((15, 1)),
        _ => None,
    }
}

/// Map a computer key to a pitch, two piano rows starting at `base_octave`.
pub fn key_to_note(key: char, base_octave: i32) -> (r: Option<u8>)
    ensures
        r.is_some() == key_pitch(key, base_octave as int).is_some(),
        r.is_some() ==> r.unwrap() as int == key_pitch(key, base_octave as int).unwrap(),
{
    match offset_of(key) {
        Some((st, oct)) => {
            let note: i64 = (base_octave as i64 + oct) * 12 + 12 + st;
            if 0 <= note && note <= 127 {
                Some(note as u8)
            } else {
                None
            }
        },
        None => None,
    }
}

/// Which panel has the keyboard focus.
#[derive(Clone, Copy, Debug, PartialEq, Eq, Structural)]
pub enum AppMode {
    /// Live keyboard play.
    Play,
    /// Edit the melodic step sequencer.
    SynthSeq,
    /// Edit the drum machine.
    Drums,
}

pub open spec fn mode_after(m: AppMode) -> AppMode {
    match m {
        AppMode::Play => AppMode::SynthSeq,
        AppMode::SynthSeq => AppMode::Drums,
        AppMode::Drums => AppMode::Play,
    }
}

impl AppMode {
    /// Cycle the focus: keyboard, melodic sequencer, drums, keyboard...
    pub fn next(self) -> (r: AppMode)
        ensures
            r == mode_after(self),
    {
        match self {
            AppMode::Play => AppMode::SynthSeq,
            AppMode::SynthSeq => AppMode::Drums,
            AppMode::Drums => AppMode::Play,
        }
    }
}

/// The cursor one place to the left in a row of `n`, wrapping to the end.
pub fn wrap_prev(i: usize, n: usize) -> (r: usize)
    requires
        0 < n,
        i < n,
    ensures
        r == if i == 0 { n - 1 } else { i - 1 },
        r < n,
{
    if i == 0 {
        n - 1
    } else {
        i - 1
    }
}

/// The cursor one place to the right in a row of `n`, wrapping to the start.
pub fn wrap_next(i: usize, n: usize) -> (r: usize)
    requires
        0 < n,
        i < n,
    ensures
        r == (i + 1) % (n as int),
        r < n,
{
    (i + 1) % n
}

/// The base octave one up, stopping at `MAX_OCTAVE`.
pub fn octave_up(octave: i32) -> (r: i32)
    ensures
        r == if octave < MAX_OCTAVE { octave + 1 } else { octave as int },
{
    if octave < MAX_OCTAVE {
        octave + 1
    } else {
        octave
    }
}

/// The base octave one down, stopping at 0.
pub fn octave_down(octave: i32) -> (r: i32)
    ensures
        r == if octave > 0 { octave - 1 } else { octave as int },
{
    if octave > 0 {
        octave - 1
    } else {
        octave
    }
}

pub open spec fn preview_index(key: char) -> Option<usize> {
    if key == 'z' { Some(0usize) }
    else if key == 'x' { Some(1usize) }
    else if key == 'c' { Some(2usize) }
    else if key == 'v' { Some(3usize) }
    else if key == 'b' { Some(4usize) }
    else if key == 'n' { Some(5usize) }
    else if key == 'm' { Some(6usize) }
    else if key == ',' { Some(7usize) }
    else { None }
}

/// The drum track a key previews: z Kick, x Snare, c closed hat, v open hat,
/// b Clap, n low tom, m mid tom, ',' high tom.
pub fn preview_track(key: char) -> (r: Option<usize>)
    ensures
        r == preview_index(key),
{
    match key {
        'z' => Some(0),
        'x' => Some(1),
        'c' => Some(2),
        'v' => Some(3),
        'b' => Some(4),
        'n' => Some(5),
        'm' => Some(6),
        ',' => Some(7),
        _ => None,
    }
}

} // verus!
