//! The fixed note table: 128 output frequencies in Hz, indexed by a
//! MIDI-like note number, and the lookup that maps a note index to a
//! frequency command.

use vstd::prelude::*;

verus! {

pub const NOTES: [u16; 128] = [
    40000, 1000, 2000, 3000, 10, 11, 12, 12, 13, 14, 15, 15,
    16, 17, 18, 19, 21, 22, 23, 24, 26, 28, 29, 31,
    33, 35, 37, 39, 41, 44, 46, 49, 52, 55, 58, 62,
    65, 69, 73, 78, 82, 87, 92, 98, 104, 110, 117, 123,
    131, 139, 147, 156, 165, 175, 185, 196, 208, 220, 233, 247,
    262, 277, 294, 311, 330, 349, 370, 392, 415, 440, 466, 494,
    523, 554, 587, 622, 659, 698, 740, 784, 831, 880, 932, 988,
    1047, 1109, 1175, 1245, 1319, 1397, 1480, 1568, 1661, 1760, 1865, 1976,
    2093, 2217, 2349, 2489, 2637, 2794, 2960, 3136, 3322, 3520, 3729, 3951,
    4186, 4435, 4699, 4978, 5274, 5588, 5920, 6272, 6645, 7040, 7459, 7902,
    8372, 8870, 9397, 9956, 10548, 11175, 11840, 12544,
];

/// What the lookup yields for a note index: the table entry when the index
/// is in range, `None` (leave the tone source unchanged) otherwise. The
/// entry at index 0 is a real frequency, not a silence marker: muting is the
/// caller's job, done through the tone source itself.
pub open spec fn spec_frequency_for(index: u8) -> Option<u16> {
    if index < 128 {
        Some(NOTES[index as int])
    } else {
        None
    }
}

/// Frequency for a note index; an out-of-range index is a recoverable
/// no-op, reported as `None`.
pub fn frequency_for(index: u8) -> (r: Option<u16>)
    ensures
        r == spec_frequency_for(index),
{
    if (index as usize) < 128 {
        Some(NOTES[index as usize])
    } else {
        None
    }
}

} // verus!
