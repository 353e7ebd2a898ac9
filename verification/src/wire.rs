//! The lines of text that tell the synthesizer what to do.

use vstd::prelude::*;
use crate::msg::Command;
use crate::score::Note;
use crate::ui::{OCTAVES, STEPS_PER_OCTAVE};

verus! {

/// The decimal digits of `n`, for `n` below 100, without a leading zero.
pub open spec fn digits(n: int) -> Seq<u8> {
    if n < 10 {
        seq![(0x30 + n) as u8]
    } else {
        seq![(0x30 + n / 10) as u8, (0x30 + n % 10) as u8]
    }
}

/// Whether the synthesizer has the pitch `pitch`.
pub open spec fn playable(pitch: int) -> bool {
    0 <= pitch < OCTAVES * STEPS_PER_OCTAVE
}

/// The name of the pitch `pitch`: the letter of its octave, `a` for the
/// lowest and `h` for the highest, and the number of its step within the
/// octave.
pub open spec fn pitch_name(pitch: int) -> Seq<u8> {
    seq![(0x61 + pitch / (STEPS_PER_OCTAVE as int)) as u8] + digits(
        pitch % (STEPS_PER_OCTAVE as int),
    )
}

/// The line for `cmd`: the name of the pitch and `_+` to switch a note on,
/// the name of the pitch and `-` to switch it off, `s` to stop.  `None`
/// where the command is not for the synthesizer, or the synthesizer does
/// not have the pitch.
pub open spec fn line_of(cmd: Command) -> Option<Seq<u8>> {
    match cmd {
        Command::NoteOn(note) => if playable(note.pitch as int) {
            Some(pitch_name(note.pitch as int) + seq![0x5fu8, 0x2bu8, 0x0au8])
        } else {
            None
        },
        Command::NoteOff(note) => if playable(note.pitch as int) {
            Some(pitch_name(note.pitch as int) + seq![0x2du8, 0x0au8])
        } else {
            None
        },
        Command::Stop => Some(seq![0x73u8, 0x0au8]),
        _ => None,
    }
}

/// Appends the name of the pitch of `note` to `line`.
fn push_pitch(note: &Note, line: &mut Vec<u8>)
    requires
        playable(note.pitch as int),
    ensures
        final(line)@ == old(line)@ + pitch_name(note.pitch as int),
{
    let pitch: u8 = note.pitch as u8;
    let octave: u8 = pitch / 31;
    let step: u8 = pitch % 31;
    line.push(0x61 + octave);
    if step < 10 {
        line.push(0x30 + step);
    } else {
        line.push(0x30 + step / 10);
        line.push(0x30 + step % 10);
    }
    assert(line@ =~= old(line)@ + pitch_name(note.pitch as int));
}

/// The line of text that tells the synthesizer to carry out `cmd`, with the
/// newline at its end.
pub fn encode(cmd: &Command) -> (line: Option<Vec<u8>>)
    ensures
        match line_of(*cmd) {
            Some(text) => line matches Some(l) && l@ == text,
            None => line is None,
        },
{
    match cmd {
        Command::NoteOn(note) => {
            if note.pitch < 0 || note.pitch >= 248 {
                return None;
            }
            let mut line: Vec<u8> = Vec::new();
            push_pitch(note, &mut line);
            line.push(0x5f);
            line.push(0x2b);
            line.push(0x0a);
            assert(line@ =~= pitch_name(note.pitch as int) + seq![0x5fu8, 0x2bu8, 0x0au8]);
            Some(line)
        },
        Command::NoteOff(note) => {
            if note.pitch < 0 || note.pitch >= 248 {
                return None;
            }
            let mut line: Vec<u8> = Vec::new();
            push_pitch(note, &mut line);
            line.push(0x2d);
            line.push(0x0a);
            assert(line@ =~= pitch_name(note.pitch as int) + seq![0x2du8, 0x0au8]);
            Some(line)
        },
        Command::Stop => {
            let mut line: Vec<u8> = Vec::new();
            line.push(0x73);
            line.push(0x0a);
            assert(line@ =~= seq![0x73u8, 0x0au8]);
            Some(line)
        },
        _ => None,
    }
}

} // verus!
