//! Character tables of the digital modes (Morse, PSK31 varicode, ITA2/Baudot)
//! and the mode enums of the FT8/FT4 and PSK31/RTTY decoders.

use vstd::prelude::*;
use crate::text::{chars_of, same_chars};

verus! {

/// FT8 (15 s slots) or FT4 (7.5 s slots).
#[derive(Clone, Copy, PartialEq, Eq, Structural, Debug)]
pub enum Ft8Mode {
    Ft8,
    Ft4,
}

impl Ft8Mode {
    pub fn is_ft4(self) -> (r: bool)
        ensures
            r == (self == Ft8Mode::Ft4),
    {
        matches!(self, Ft8Mode::Ft4)
    }

    /// The length of a slot in samples at `sample_rate`: 15 s for FT8,
    /// 7.5 s (rounded down) for FT4.
    pub fn slot_samples(self, sample_rate: u32) -> (r: usize)
        requires
            15 * sample_rate <= usize::MAX,
        ensures
            self == Ft8Mode::Ft8 ==> r == 15 * sample_rate,
            self == Ft8Mode::Ft4 ==> r == (15 * sample_rate) / 2,
    {
        let n: u64 = 15 * (sample_rate as u64);
        let v = if self.is_ft4() { n / 2 } else { n };
        v as usize
    }

    /// The mode's name as shown in decoded-message metadata.
    pub fn label(self) -> (r: &'static str)
        ensures
            self == Ft8Mode::Ft8 ==> r@ == seq!['F', 'T', '8'],
            self == Ft8Mode::Ft4 ==> r@ == seq!['F', 'T', '4'],
    {
        match self {
            Ft8Mode::Ft8 => {
                proof {
                    reveal_strlit("FT8");
                }
                "FT8"
            },
            Ft8Mode::Ft4 => {
                proof {
                    reveal_strlit("FT4");
                }
                "FT4"
            },
        }
    }
}

/// The two keyboard modes decoded in software.
#[derive(Clone, Copy, PartialEq, Eq, Structural, Debug)]
pub enum PskRttyMode {
    Psk31,
    Rtty,
}

/// The international Morse code of each character this decoder knows.
pub open spec fn morse_table(code: Seq<char>) -> Option<char> {
    if code == seq!['.', '-'] {
        Some('A')
    } else if code == seq!['-', '.', '.', '.'] {
        Some('B')
    } else if code == seq!['-', '.', '-', '.'] {
        Some('C')
    } else if code == seq!['-', '.', '.'] {
        Some('D')
    } else if code == seq!['.'] {
        Some('E')
    } else if code == seq!['.', '.', '-', '.'] {
        Some('F')
    } else if code == seq!['-', '-', '.'] {
        Some('G')
    } else if code == seq!['.', '.', '.', '.'] {
        Some('H')
    } else if code == seq!['.', '.'] {
        Some('I')
    } else if code == seq!['.', '-', '-', '-'] {
        Some('J')
    } else if code == seq!['-', '.', '-'] {
        Some('K')
    } else if code == seq!['.', '-', '.', '.'] {
        Some('L')
    } else if code == seq!['-', '-'] {
        Some('M')
    } else if code == seq!['-', '.'] {
        Some('N')
    } else if code == seq!['-', '-', '-'] {
        Some('O')
    } else if code == seq!['.', '-', '-', '.'] {
        Some('P')
    } else if code == seq!['-', '-', '.', '-'] {
        Some('Q')
    } else if code == seq!['.', '-', '.'] {
        Some('R')
    } else if code == seq!['.', '.', '.'] {
        Some('S')
    } else if code == seq!['-'] {
        Some('T')
    } else if code == seq!['.', '.', '-'] {
        Some('U')
    } else if code == seq!['.', '.', '.', '-'] {
        Some('V')
    } else if code == seq!['.', '-', '-'] {
        Some('W')
    } else if code == seq!['-', '.', '.', '-'] {
        Some('X')
    } else if code == seq!['-', '.', '-', '-'] {
        Some('Y')
    } else if code == seq!['-', '-', '.', '.'] {
        Some('Z')
    } else if code == seq!['-', '-', '-', '-', '-'] {
        Some('0')
    } else if code == seq!['.', '-', '-', '-', '-'] {
        Some('1')
    } else if code == seq!['.', '.', '-', '-', '-'] {
        Some('2')
    } else if code == seq!['.', '.', '.', '-', '-'] {
        Some('3')
    } else if code == seq!['.', '.', '.', '.', '-'] {
        Some('4')
    } else if code == seq!['.', '.', '.', '.', '.'] {
        Some('5')
    } else if code == seq!['-', '.', '.', '.', '.'] {
        Some('6')
    } else if code == seq!['-', '-', '.', '.', '.'] {
        Some('7')
    } else if code == seq!['-', '-', '-', '.', '.'] {
        Some('8')
    } else if code == seq!['-', '-', '-', '-', '.'] {
        Some('9')
    } else if code == seq!['.', '-', '.', '-', '.', '-'] {
        Some('.')
    } else if code == seq!['-', '-', '.', '.', '-', '-'] {
        Some(',')
    } else if code == seq!['.', '.', '-', '-', '.', '.'] {
        Some('?')
    } else if code == seq!['-', '.', '.', '-', '.'] {
        Some('/')
    } else if code == seq!['-', '.', '.', '.', '-'] {
        Some('=')
    } else if code == seq!['.', '-', '.', '-', '.'] {
        Some('+')
    } else if code == seq!['-', '.', '.', '.', '.', '-'] {
        Some('-')
    } else if code == seq!['-', '-', '-', '.', '.', '.'] {
        Some(':')
    } else {
        None
    }
}

/// The character for a Morse code of dots and dashes, or `None` for a code
/// outside the table.
/// The international Morse code of a letter, digit or sign, written out
/// letter by letter (ITU-R M.1677), for the characters the decoder knows.
pub open spec fn morse_code_of(c: char) -> Option<Seq<char>> {
    if c == 'A' {
        Some(seq!['.', '-'])
    } else if c == 'B' {
        Some(seq!['-', '.', '.', '.'])
    } else if c == 'C' {
        Some(seq!['-', '.', '-', '.'])
    } else if c == 'D' {
        Some(seq!['-', '.', '.'])
    } else if c == 'E' {
        Some(seq!['.'])
    } else if c == 'F' {
        Some(seq!['.', '.', '-', '.'])
    } else if c == 'G' {
        Some(seq!['-', '-', '.'])
    } else if c == 'H' {
        Some(seq!['.', '.', '.', '.'])
    } else if c == 'I' {
        Some(seq!['.', '.'])
    } else if c == 'J' {
        Some(seq!['.', '-', '-', '-'])
    } else if c == 'K' {
        Some(seq!['-', '.', '-'])
    } else if c == 'L' {
        Some(seq!['.', '-', '.', '.'])
    } else if c == 'M' {
        Some(seq!['-', '-'])
    } else if c == 'N' {
        Some(seq!['-', '.'])
    } else if c == 'O' {
        Some(seq!['-', '-', '-'])
    } else if c == 'P' {
        Some(seq!['.', '-', '-', '.'])
    } else if c == 'Q' {
        Some(seq!['-', '-', '.', '-'])
    } else if c == 'R' {
        Some(seq!['.', '-', '.'])
    } else if c == 'S' {
        Some(seq!['.', '.', '.'])
    } else if c == 'T' {
        Some(seq!['-'])
    } else if c == 'U' {
        Some(seq!['.', '.', '-'])
    } else if c == 'V' {
        Some(seq!['.', '.', '.', '-'])
    } else if c == 'W' {
        Some(seq!['.', '-', '-'])
    } else if c == 'X' {
        Some(seq!['-', '.', '.', '-'])
    } else if c == 'Y' {
        Some(seq!['-', '.', '-', '-'])
    } else if c == 'Z' {
        Some(seq!['-', '-', '.', '.'])
    } else if c == '0' {
        Some(seq!['-', '-', '-', '-', '-'])
    } else if c == '1' {
        Some(seq!['.', '-', '-', '-', '-'])
    } else if c == '2' {
        Some(seq!['.', '.', '-', '-', '-'])
    } else if c == '3' {
        Some(seq!['.', '.', '.', '-', '-'])
    } else if c == '4' {
        Some(seq!['.', '.', '.', '.', '-'])
    } else if c == '5' {
        Some(seq!['.', '.', '.', '.', '.'])
    } else if c == '6' {
        Some(seq!['-', '.', '.', '.', '.'])
    } else if c == '7' {
        Some(seq!['-', '-', '.', '.', '.'])
    } else if c == '8' {
        Some(seq!['-', '-', '-', '.', '.'])
    } else if c == '9' {
        Some(seq!['-', '-', '-', '-', '.'])
    } else if c == '.' {
        Some(seq!['.', '-', '.', '-', '.', '-'])
    } else if c == ',' {
        Some(seq!['-', '-', '.', '.', '-', '-'])
    } else if c == '?' {
        Some(seq!['.', '.', '-', '-', '.', '.'])
    } else if c == '/' {
        Some(seq!['-', '.', '.', '-', '.'])
    } else if c == '=' {
        Some(seq!['-', '.', '.', '.', '-'])
    } else if c == '+' {
        Some(seq!['.', '-', '.', '-', '.'])
    } else if c == '-' {
        Some(seq!['-', '.', '.', '.', '.', '-'])
    } else if c == ':' {
        Some(seq!['-', '-', '-', '.', '.', '.'])
    } else {
        None
    }
}

/// Each entry of the international code decodes to its character.
proof fn lemma_morse_entries()
    ensures
        morse_table(seq!['.', '-']) == Some('A'),
        morse_table(seq!['-', '.', '.', '.']) == Some('B'),
        morse_table(seq!['-', '.', '-', '.']) == Some('C'),
        morse_table(seq!['-', '.', '.']) == Some('D'),
        morse_table(seq!['.']) == Some('E'),
        morse_table(seq!['.', '.', '-', '.']) == Some('F'),
        morse_table(seq!['-', '-', '.']) == Some('G'),
        morse_table(seq!['.', '.', '.', '.']) == Some('H'),
        morse_table(seq!['.', '.']) == Some('I'),
        morse_table(seq!['.', '-', '-', '-']) == Some('J'),
        morse_table(seq!['-', '.', '-']) == Some('K'),
        morse_table(seq!['.', '-', '.', '.']) == Some('L'),
        morse_table(seq!['-', '-']) == Some('M'),
        morse_table(seq!['-', '.']) == Some('N'),
        morse_table(seq!['-', '-', '-']) == Some('O'),
        morse_table(seq!['.', '-', '-', '.']) == Some('P'),
        morse_table(seq!['-', '-', '.', '-']) == Some('Q'),
        morse_table(seq!['.', '-', '.']) == Some('R'),
        morse_table(seq!['.', '.', '.']) == Some('S'),
        morse_table(seq!['-']) == Some('T'),
        morse_table(seq!['.', '.', '-']) == Some('U'),
        morse_table(seq!['.', '.', '.', '-']) == Some('V'),
        morse_table(seq!['.', '-', '-']) == Some('W'),
        morse_table(seq!['-', '.', '.', '-']) == Some('X'),
        morse_table(seq!['-', '.', '-', '-']) == Some('Y'),
        morse_table(seq!['-', '-', '.', '.']) == Some('Z'),
        morse_table(seq!['-', '-', '-', '-', '-']) == Some('0'),
        morse_table(seq!['.', '-', '-', '-', '-']) == Some('1'),
        morse_table(seq!['.', '.', '-', '-', '-']) == Some('2'),
        morse_table(seq!['.', '.', '.', '-', '-']) == Some('3'),
        morse_table(seq!['.', '.', '.', '.', '-']) == Some('4'),
        morse_table(seq!['.', '.', '.', '.', '.']) == Some('5'),
        morse_table(seq!['-', '.', '.', '.', '.']) == Some('6'),
        morse_table(seq!['-', '-', '.', '.', '.']) == Some('7'),
        morse_table(seq!['-', '-', '-', '.', '.']) == Some('8'),
        morse_table(seq!['-', '-', '-', '-', '.']) == Some('9'),
        morse_table(seq!['.', '-', '.', '-', '.', '-']) == Some('.'),
        morse_table(seq!['-', '-', '.', '.', '-', '-']) == Some(','),
        morse_table(seq!['.', '.', '-', '-', '.', '.']) == Some('?'),
        morse_table(seq!['-', '.', '.', '-', '.']) == Some('/'),
        morse_table(seq!['-', '.', '.', '.', '-']) == Some('='),
        morse_table(seq!['.', '-', '.', '-', '.']) == Some('+'),
        morse_table(seq!['-', '.', '.', '.', '.', '-']) == Some('-'),
        morse_table(seq!['-', '-', '-', '.', '.', '.']) == Some(':'),
{
    assert(seq!['.', '-'].len() == 2 && seq!['.', '-'][0] == '.' && seq!['.', '-'][1] == '-');
    assert(seq!['-', '.', '.', '.'].len() == 4 && seq!['-', '.', '.', '.'][0] == '-' && seq!['-', '.', '.', '.'][1] == '.' && seq!['-', '.', '.', '.'][2] == '.' && seq!['-', '.', '.', '.'][3] == '.');
    assert(seq!['-', '.', '-', '.'].len() == 4 && seq!['-', '.', '-', '.'][0] == '-' && seq!['-', '.', '-', '.'][1] == '.' && seq!['-', '.', '-', '.'][2] == '-' && seq!['-', '.', '-', '.'][3] == '.');
    assert(seq!['-', '.', '.'].len() == 3 && seq!['-', '.', '.'][0] == '-' && seq!['-', '.', '.'][1] == '.' && seq!['-', '.', '.'][2] == '.');
    assert(seq!['.'].len() == 1 && seq!['.'][0] == '.');
    assert(seq!['.', '.', '-', '.'].len() == 4 && seq!['.', '.', '-', '.'][0] == '.' && seq!['.', '.', '-', '.'][1] == '.' && seq!['.', '.', '-', '.'][2] == '-' && seq!['.', '.', '-', '.'][3] == '.');
    assert(seq!['-', '-', '.'].len() == 3 && seq!['-', '-', '.'][0] == '-' && seq!['-', '-', '.'][1] == '-' && seq!['-', '-', '.'][2] == '.');
    assert(seq!['.', '.', '.', '.'].len() == 4 && seq!['.', '.', '.', '.'][0] == '.' && seq!['.', '.', '.', '.'][1] == '.' && seq!['.', '.', '.', '.'][2] == '.' && seq!['.', '.', '.', '.'][3] == '.');
    assert(seq!['.', '.'].len() == 2 && seq!['.', '.'][0] == '.' && seq!['.', '.'][1] == '.');
    assert(seq!['.', '-', '-', '-'].len() == 4 && seq!['.', '-', '-', '-'][0] == '.' && seq!['.', '-', '-', '-'][1] == '-' && seq!['.', '-', '-', '-'][2] == '-' && seq!['.', '-', '-', '-'][3] == '-');
    assert(seq!['-', '.', '-'].len() == 3 && seq!['-', '.', '-'][0] == '-' && seq!['-', '.', '-'][1] == '.' && seq!['-', '.', '-'][2] == '-');
    assert(seq!['.', '-', '.', '.'].len() == 4 && seq!['.', '-', '.', '.'][0] == '.' && seq!['.', '-', '.', '.'][1] == '-' && seq!['.', '-', '.', '.'][2] == '.' && seq!['.', '-', '.', '.'][3] == '.');
    assert(seq!['-', '-'].len() == 2 && seq!['-', '-'][0] == '-' && seq!['-', '-'][1] == '-');
    assert(seq!['-', '.'].len() == 2 && seq!['-', '.'][0] == '-' && seq!['-', '.'][1] == '.');
    assert(seq!['-', '-', '-'].len() == 3 && seq!['-', '-', '-'][0] == '-' && seq!['-', '-', '-'][1] == '-' && seq!['-', '-', '-'][2] == '-');
    assert(seq!['.', '-', '-', '.'].len() == 4 && seq!['.', '-', '-', '.'][0] == '.' && seq!['.', '-', '-', '.'][1] == '-' && seq!['.', '-', '-', '.'][2] == '-' && seq!['.', '-', '-', '.'][3] == '.');
    assert(seq!['-', '-', '.', '-'].len() == 4 && seq!['-', '-', '.', '-'][0] == '-' && seq!['-', '-', '.', '-'][1] == '-' && seq!['-', '-', '.', '-'][2] == '.' && seq!['-', '-', '.', '-'][3] == '-');
    assert(seq!['.', '-', '.'].len() == 3 && seq!['.', '-', '.'][0] == '.' && seq!['.', '-', '.'][1] == '-' && seq!['.', '-', '.'][2] == '.');
    assert(seq!['.', '.', '.'].len() == 3 && seq!['.', '.', '.'][0] == '.' && seq!['.', '.', '.'][1] == '.' && seq!['.', '.', '.'][2] == '.');
    assert(seq!['-'].len() == 1 && seq!['-'][0] == '-');
    assert(seq!['.', '.', '-'].len() == 3 && seq!['.', '.', '-'][0] == '.' && seq!['.', '.', '-'][1] == '.' && seq!['.', '.', '-'][2] == '-');
    assert(seq!['.', '.', '.', '-'].len() == 4 && seq!['.', '.', '.', '-'][0] == '.' && seq!['.', '.', '.', '-'][1] == '.' && seq!['.', '.', '.', '-'][2] == '.' && seq!['.', '.', '.', '-'][3] == '-');
    assert(seq!['.', '-', '-'].len() == 3 && seq!['.', '-', '-'][0] == '.' && seq!['.', '-', '-'][1] == '-' && seq!['.', '-', '-'][2] == '-');
    assert(seq!['-', '.', '.', '-'].len() == 4 && seq!['-', '.', '.', '-'][0] == '-' && seq!['-', '.', '.', '-'][1] == '.' && seq!['-', '.', '.', '-'][2] == '.' && seq!['-', '.', '.', '-'][3] == '-');
    assert(seq!['-', '.', '-', '-'].len() == 4 && seq!['-', '.', '-', '-'][0] == '-' && seq!['-', '.', '-', '-'][1] == '.' && seq!['-', '.', '-', '-'][2] == '-' && seq!['-', '.', '-', '-'][3] == '-');
    assert(seq!['-', '-', '.', '.'].len() == 4 && seq!['-', '-', '.', '.'][0] == '-' && seq!['-', '-', '.', '.'][1] == '-' && seq!['-', '-', '.', '.'][2] == '.' && seq!['-', '-', '.', '.'][3] == '.');
    assert(seq!['-', '-', '-', '-', '-'].len() == 5 && seq!['-', '-', '-', '-', '-'][0] == '-' && seq!['-', '-', '-', '-', '-'][1] == '-' && seq!['-', '-', '-', '-', '-'][2] == '-' && seq!['-', '-', '-', '-', '-'][3] == '-' && seq!['-', '-', '-', '-', '-'][4] == '-');
    assert(seq!['.', '-', '-', '-', '-'].len() == 5 && seq!['.', '-', '-', '-', '-'][0] == '.' && seq!['.', '-', '-', '-', '-'][1] == '-' && seq!['.', '-', '-', '-', '-'][2] == '-' && seq!['.', '-', '-', '-', '-'][3] == '-' && seq!['.', '-', '-', '-', '-'][4] == '-');
    assert(seq!['.', '.', '-', '-', '-'].len() == 5 && seq!['.', '.', '-', '-', '-'][0] == '.' && seq!['.', '.', '-', '-', '-'][1] == '.' && seq!['.', '.', '-', '-', '-'][2] == '-' && seq!['.', '.', '-', '-', '-'][3] == '-' && seq!['.', '.', '-', '-', '-'][4] == '-');
    assert(seq!['.', '.', '.', '-', '-'].len() == 5 && seq!['.', '.', '.', '-', '-'][0] == '.' && seq!['.', '.', '.', '-', '-'][1] == '.' && seq!['.', '.', '.', '-', '-'][2] == '.' && seq!['.', '.', '.', '-', '-'][3] == '-' && seq!['.', '.', '.', '-', '-'][4] == '-');
    assert(seq!['.', '.', '.', '.', '-'].len() == 5 && seq!['.', '.', '.', '.', '-'][0] == '.' && seq!['.', '.', '.', '.', '-'][1] == '.' && seq!['.', '.', '.', '.', '-'][2] == '.' && seq!['.', '.', '.', '.', '-'][3] == '.' && seq!['.', '.', '.', '.', '-'][4] == '-');
    assert(seq!['.', '.', '.', '.', '.'].len() == 5 && seq!['.', '.', '.', '.', '.'][0] == '.' && seq!['.', '.', '.', '.', '.'][1] == '.' && seq!['.', '.', '.', '.', '.'][2] == '.' && seq!['.', '.', '.', '.', '.'][3] == '.' && seq!['.', '.', '.', '.', '.'][4] == '.');
    assert(seq!['-', '.', '.', '.', '.'].len() == 5 && seq!['-', '.', '.', '.', '.'][0] == '-' && seq!['-', '.', '.', '.', '.'][1] == '.' && seq!['-', '.', '.', '.', '.'][2] == '.' && seq!['-', '.', '.', '.', '.'][3] == '.' && seq!['-', '.', '.', '.', '.'][4] == '.');
    assert(seq!['-', '-', '.', '.', '.'].len() == 5 && seq!['-', '-', '.', '.', '.'][0] == '-' && seq!['-', '-', '.', '.', '.'][1] == '-' && seq!['-', '-', '.', '.', '.'][2] == '.' && seq!['-', '-', '.', '.', '.'][3] == '.' && seq!['-', '-', '.', '.', '.'][4] == '.');
    assert(seq!['-', '-', '-', '.', '.'].len() == 5 && seq!['-', '-', '-', '.', '.'][0] == '-' && seq!['-', '-', '-', '.', '.'][1] == '-' && seq!['-', '-', '-', '.', '.'][2] == '-' && seq!['-', '-', '-', '.', '.'][3] == '.' && seq!['-', '-', '-', '.', '.'][4] == '.');
    assert(seq!['-', '-', '-', '-', '.'].len() == 5 && seq!['-', '-', '-', '-', '.'][0] == '-' && seq!['-', '-', '-', '-', '.'][1] == '-' && seq!['-', '-', '-', '-', '.'][2] == '-' && seq!['-', '-', '-', '-', '.'][3] == '-' && seq!['-', '-', '-', '-', '.'][4] == '.');
    assert(seq!['.', '-', '.', '-', '.', '-'].len() == 6 && seq!['.', '-', '.', '-', '.', '-'][0] == '.' && seq!['.', '-', '.', '-', '.', '-'][1] == '-' && seq!['.', '-', '.', '-', '.', '-'][2] == '.' && seq!['.', '-', '.', '-', '.', '-'][3] == '-' && seq!['.', '-', '.', '-', '.', '-'][4] == '.' && seq!['.', '-', '.', '-', '.', '-'][5] == '-');
    assert(seq!['-', '-', '.', '.', '-', '-'].len() == 6 && seq!['-', '-', '.', '.', '-', '-'][0] == '-' && seq!['-', '-', '.', '.', '-', '-'][1] == '-' && seq!['-', '-', '.', '.', '-', '-'][2] == '.' && seq!['-', '-', '.', '.', '-', '-'][3] == '.' && seq!['-', '-', '.', '.', '-', '-'][4] == '-' && seq!['-', '-', '.', '.', '-', '-'][5] == '-');
    assert(seq!['.', '.', '-', '-', '.', '.'].len() == 6 && seq!['.', '.', '-', '-', '.', '.'][0] == '.' && seq!['.', '.', '-', '-', '.', '.'][1] == '.' && seq!['.', '.', '-', '-', '.', '.'][2] == '-' && seq!['.', '.', '-', '-', '.', '.'][3] == '-' && seq!['.', '.', '-', '-', '.', '.'][4] == '.' && seq!['.', '.', '-', '-', '.', '.'][5] == '.');
    assert(seq!['-', '.', '.', '-', '.'].len() == 5 && seq!['-', '.', '.', '-', '.'][0] == '-' && seq!['-', '.', '.', '-', '.'][1] == '.' && seq!['-', '.', '.', '-', '.'][2] == '.' && seq!['-', '.', '.', '-', '.'][3] == '-' && seq!['-', '.', '.', '-', '.'][4] == '.');
    assert(seq!['-', '.', '.', '.', '-'].len() == 5 && seq!['-', '.', '.', '.', '-'][0] == '-' && seq!['-', '.', '.', '.', '-'][1] == '.' && seq!['-', '.', '.', '.', '-'][2] == '.' && seq!['-', '.', '.', '.', '-'][3] == '.' && seq!['-', '.', '.', '.', '-'][4] == '-');
    assert(seq!['.', '-', '.', '-', '.'].len() == 5 && seq!['.', '-', '.', '-', '.'][0] == '.' && seq!['.', '-', '.', '-', '.'][1] == '-' && seq!['.', '-', '.', '-', '.'][2] == '.' && seq!['.', '-', '.', '-', '.'][3] == '-' && seq!['.', '-', '.', '-', '.'][4] == '.');
    assert(seq!['-', '.', '.', '.', '.', '-'].len() == 6 && seq!['-', '.', '.', '.', '.', '-'][0] == '-' && seq!['-', '.', '.', '.', '.', '-'][1] == '.' && seq!['-', '.', '.', '.', '.', '-'][2] == '.' && seq!['-', '.', '.', '.', '.', '-'][3] == '.' && seq!['-', '.', '.', '.', '.', '-'][4] == '.' && seq!['-', '.', '.', '.', '.', '-'][5] == '-');
    assert(seq!['-', '-', '-', '.', '.', '.'].len() == 6 && seq!['-', '-', '-', '.', '.', '.'][0] == '-' && seq!['-', '-', '-', '.', '.', '.'][1] == '-' && seq!['-', '-', '-', '.', '.', '.'][2] == '-' && seq!['-', '-', '-', '.', '.', '.'][3] == '.' && seq!['-', '-', '-', '.', '.', '.'][4] == '.' && seq!['-', '-', '-', '.', '.', '.'][5] == '.');
}

/// The decoder's Morse table is the international code: a code gives a
/// character exactly when that character's international code is that
/// code. So every known character decodes, and no code decodes to the
/// wrong character.
pub proof fn lemma_morse_table_is_international(c: char, code: Seq<char>)
    ensures
        morse_table(code) == Some(c) ==> morse_code_of(c) == Some(code),
        morse_code_of(c) == Some(code) ==> morse_table(code) == Some(c),
{
    lemma_morse_entries();
}

pub fn morse_to_char(code: &str) -> (r: Option<char>)
    ensures
        r == morse_table(code@),
{
    let v = chars_of(code);
    let b0 = same_chars(&v, &['.', '-']);
    assert(b0 == (v@ == seq!['.', '-']));
    let b1 = same_chars(&v, &['-', '.', '.', '.']);
    assert(b1 == (v@ == seq!['-', '.', '.', '.']));
    let b2 = same_chars(&v, &['-', '.', '-', '.']);
    assert(b2 == (v@ == seq!['-', '.', '-', '.']));
    let b3 = same_chars(&v, &['-', '.', '.']);
    assert(b3 == (v@ == seq!['-', '.', '.']));
    let b4 = v.len() == 1 && v[0] == '.';
    assert(b4 == (v@ == seq!['.'])) by {
        if v@.len() == 1 && v@[0] == '.' {
            assert(v@ =~= seq!['.']);
        }
    }
    let b5 = same_chars(&v, &['.', '.', '-', '.']);
    assert(b5 == (v@ == seq!['.', '.', '-', '.']));
    let b6 = same_chars(&v, &['-', '-', '.']);
    assert(b6 == (v@ == seq!['-', '-', '.']));
    let b7 = same_chars(&v, &['.', '.', '.', '.']);
    assert(b7 == (v@ == seq!['.', '.', '.', '.']));
    let b8 = same_chars(&v, &['.', '.']);
    assert(b8 == (v@ == seq!['.', '.']));
    let b9 = same_chars(&v, &['.', '-', '-', '-']);
    assert(b9 == (v@ == seq!['.', '-', '-', '-']));
    let b10 = same_chars(&v, &['-', '.', '-']);
    assert(b10 == (v@ == seq!['-', '.', '-']));
    let b11 = same_chars(&v, &['.', '-', '.', '.']);
    assert(b11 == (v@ == seq!['.', '-', '.', '.']));
    let b12 = same_chars(&v, &['-', '-']);
    assert(b12 == (v@ == seq!['-', '-']));
    let b13 = same_chars(&v, &['-', '.']);
    assert(b13 == (v@ == seq!['-', '.']));
    let b14 = same_chars(&v, &['-', '-', '-']);
    assert(b14 == (v@ == seq!['-', '-', '-']));
    let b15 = same_chars(&v, &['.', '-', '-', '.']);
    assert(b15 == (v@ == seq!['.', '-', '-', '.']));
    let b16 = same_chars(&v, &['-', '-', '.', '-']);
    assert(b16 == (v@ == seq!['-', '-', '.', '-']));
    let b17 = same_chars(&v, &['.', '-', '.']);
    assert(b17 == (v@ == seq!['.', '-', '.']));
    let b18 = same_chars(&v, &['.', '.', '.']);
    assert(b18 == (v@ == seq!['.', '.', '.']));
    let b19 = v.len() == 1 && v[0] == '-';
    assert(b19 == (v@ == seq!['-'])) by {
        if v@.len() == 1 && v@[0] == '-' {
            assert(v@ =~= seq!['-']);
        }
    }
    let b20 = same_chars(&v, &['.', '.', '-']);
    assert(b20 == (v@ == seq!['.', '.', '-']));
    let b21 = same_chars(&v, &['.', '.', '.', '-']);
    assert(b21 == (v@ == seq!['.', '.', '.', '-']));
    let b22 = same_chars(&v, &['.', '-', '-']);
    assert(b22 == (v@ == seq!['.', '-', '-']));
    let b23 = same_chars(&v, &['-', '.', '.', '-']);
    assert(b23 == (v@ == seq!['-', '.', '.', '-']));
    let b24 = same_chars(&v, &['-', '.', '-', '-']);
    assert(b24 == (v@ == seq!['-', '.', '-', '-']));
    let b25 = same_chars(&v, &['-', '-', '.', '.']);
    assert(b25 == (v@ == seq!['-', '-', '.', '.']));
    let b26 = same_chars(&v, &['-', '-', '-', '-', '-']);
    assert(b26 == (v@ == seq!['-', '-', '-', '-', '-']));
    let b27 = same_chars(&v, &['.', '-', '-', '-', '-']);
    assert(b27 == (v@ == seq!['.', '-', '-', '-', '-']));
    let b28 = same_chars(&v, &['.', '.', '-', '-', '-']);
    assert(b28 == (v@ == seq!['.', '.', '-', '-', '-']));
    let b29 = same_chars(&v, &['.', '.', '.', '-', '-']);
    assert(b29 == (v@ == seq!['.', '.', '.', '-', '-']));
    let b30 = same_chars(&v, &['.', '.', '.', '.', '-']);
    assert(b30 == (v@ == seq!['.', '.', '.', '.', '-']));
    let b31 = same_chars(&v, &['.', '.', '.', '.', '.']);
    assert(b31 == (v@ == seq!['.', '.', '.', '.', '.']));
    let b32 = same_chars(&v, &['-', '.', '.', '.', '.']);
    assert(b32 == (v@ == seq!['-', '.', '.', '.', '.']));
    let b33 = same_chars(&v, &['-', '-', '.', '.', '.']);
    assert(b33 == (v@ == seq!['-', '-', '.', '.', '.']));
    let b34 = same_chars(&v, &['-', '-', '-', '.', '.']);
    assert(b34 == (v@ == seq!['-', '-', '-', '.', '.']));
    let b35 = same_chars(&v, &['-', '-', '-', '-', '.']);
    assert(b35 == (v@ == seq!['-', '-', '-', '-', '.']));
    let b36 = same_chars(&v, &['.', '-', '.', '-', '.', '-']);
    assert(b36 == (v@ == seq!['.', '-', '.', '-', '.', '-']));
    let b37 = same_chars(&v, &['-', '-', '.', '.', '-', '-']);
    assert(b37 == (v@ == seq!['-', '-', '.', '.', '-', '-']));
    let b38 = same_chars(&v, &['.', '.', '-', '-', '.', '.']);
    assert(b38 == (v@ == seq!['.', '.', '-', '-', '.', '.']));
    let b39 = same_chars(&v, &['-', '.', '.', '-', '.']);
    assert(b39 == (v@ == seq!['-', '.', '.', '-', '.']));
    let b40 = same_chars(&v, &['-', '.', '.', '.', '-']);
    assert(b40 == (v@ == seq!['-', '.', '.', '.', '-']));
    let b41 = same_chars(&v, &['.', '-', '.', '-', '.']);
    assert(b41 == (v@ == seq!['.', '-', '.', '-', '.']));
    let b42 = same_chars(&v, &['-', '.', '.', '.', '.', '-']);
    assert(b42 == (v@ == seq!['-', '.', '.', '.', '.', '-']));
    let b43 = same_chars(&v, &['-', '-', '-', '.', '.', '.']);
    assert(b43 == (v@ == seq!['-', '-', '-', '.', '.', '.']));
    if b0 {
        Some('A')
    } else if b1 {
        Some('B')
    } else if b2 {
        Some('C')
    } else if b3 {
        Some('D')
    } else if b4 {
        Some('E')
    } else if b5 {
        Some('F')
    } else if b6 {
        Some('G')
    } else if b7 {
        Some('H')
    } else if b8 {
        Some('I')
    } else if b9 {
        Some('J')
    } else if b10 {
        Some('K')
    } else if b11 {
        Some('L')
    } else if b12 {
        Some('M')
    } else if b13 {
        Some('N')
    } else if b14 {
        Some('O')
    } else if b15 {
        Some('P')
    } else if b16 {
        Some('Q')
    } else if b17 {
        Some('R')
    } else if b18 {
        Some('S')
    } else if b19 {
        Some('T')
    } else if b20 {
        Some('U')
    } else if b21 {
        Some('V')
    } else if b22 {
        Some('W')
    } else if b23 {
        Some('X')
    } else if b24 {
        Some('Y')
    } else if b25 {
        Some('Z')
    } else if b26 {
        Some('0')
    } else if b27 {
        Some('1')
    } else if b28 {
        Some('2')
    } else if b29 {
        Some('3')
    } else if b30 {
        Some('4')
    } else if b31 {
        Some('5')
    } else if b32 {
        Some('6')
    } else if b33 {
        Some('7')
    } else if b34 {
        Some('8')
    } else if b35 {
        Some('9')
    } else if b36 {
        Some('.')
    } else if b37 {
        Some(',')
    } else if b38 {
        Some('?')
    } else if b39 {
        Some('/')
    } else if b40 {
        Some('=')
    } else if b41 {
        Some('+')
    } else if b42 {
        Some('-')
    } else if b43 {
        Some(':')
    } else {
        None
    }
}

/// PSK31 varicode: the bit pattern of each character this decoder knows
/// (space and the lower-case letters).
pub open spec fn varicode_table(bits: Seq<char>) -> Option<char> {
    if bits == seq!['1'] {
        Some(' ')
    } else if bits == seq!['1', '0', '1', '1'] {
        Some('a')
    } else if bits == seq!['1', '0', '1', '1', '1', '1', '1'] {
        Some('b')
    } else if bits == seq!['1', '0', '1', '1', '1', '1'] {
        Some('c')
    } else if bits == seq!['1', '0', '1', '1', '0', '1'] {
        Some('d')
    } else if bits == seq!['1', '1'] {
        Some('e')
    } else if bits == seq!['1', '1', '1', '1', '0', '1'] {
        Some('f')
    } else if bits == seq!['1', '0', '1', '1', '0', '1', '1'] {
        Some('g')
    } else if bits == seq!['1', '0', '1', '0', '1', '1'] {
        Some('h')
    } else if bits == seq!['1', '1', '0', '1'] {
        Some('i')
    } else if bits == seq!['1', '1', '1', '1', '0', '1', '0', '1', '1'] {
        Some('j')
    } else if bits == seq!['1', '0', '1', '1', '1', '1', '1', '1'] {
        Some('k')
    } else if bits == seq!['1', '1', '0', '1', '1'] {
        Some('l')
    } else if bits == seq!['1', '1', '1', '0', '1', '1'] {
        Some('m')
    } else if bits == seq!['1', '1', '1', '1'] {
        Some('n')
    } else if bits == seq!['1', '1', '1'] {
        Some('o')
    } else if bits == seq!['1', '1', '1', '1', '1', '1'] {
        Some('p')
    } else if bits == seq!['1', '1', '0', '1', '1', '1', '1', '1', '1'] {
        Some('q')
    } else if bits == seq!['1', '0', '1', '0', '1'] {
        Some('r')
    } else if bits == seq!['1', '0', '1', '1', '1'] {
        Some('s')
    } else if bits == seq!['1', '0', '1'] {
        Some('t')
    } else if bits == seq!['1', '1', '0', '1', '1', '1'] {
        Some('u')
    } else if bits == seq!['1', '1', '1', '1', '0', '1', '1'] {
        Some('v')
    } else if bits == seq!['1', '1', '0', '1', '0', '1', '1'] {
        Some('w')
    } else if bits == seq!['1', '1', '0', '1', '1', '1', '1', '1'] {
        Some('x')
    } else if bits == seq!['1', '0', '1', '1', '1', '0', '1'] {
        Some('y')
    } else if bits == seq!['1', '1', '1', '0', '1', '0', '1', '0', '1'] {
        Some('z')
    } else {
        None
    }
}

/// The varicode pattern of a character, the inverse of `varicode_table`.
pub open spec fn varicode_of(c: char) -> Option<Seq<char>> {
    if c == ' ' {
        Some(seq!['1'])
    } else if c == 'a' {
        Some(seq!['1', '0', '1', '1'])
    } else if c == 'b' {
        Some(seq!['1', '0', '1', '1', '1', '1', '1'])
    } else if c == 'c' {
        Some(seq!['1', '0', '1', '1', '1', '1'])
    } else if c == 'd' {
        Some(seq!['1', '0', '1', '1', '0', '1'])
    } else if c == 'e' {
        Some(seq!['1', '1'])
    } else if c == 'f' {
        Some(seq!['1', '1', '1', '1', '0', '1'])
    } else if c == 'g' {
        Some(seq!['1', '0', '1', '1', '0', '1', '1'])
    } else if c == 'h' {
        Some(seq!['1', '0', '1', '0', '1', '1'])
    } else if c == 'i' {
        Some(seq!['1', '1', '0', '1'])
    } else if c == 'j' {
        Some(seq!['1', '1', '1', '1', '0', '1', '0', '1', '1'])
    } else if c == 'k' {
        Some(seq!['1', '0', '1', '1', '1', '1', '1', '1'])
    } else if c == 'l' {
        Some(seq!['1', '1', '0', '1', '1'])
    } else if c == 'm' {
        Some(seq!['1', '1', '1', '0', '1', '1'])
    } else if c == 'n' {
        Some(seq!['1', '1', '1', '1'])
    } else if c == 'o' {
        Some(seq!['1', '1', '1'])
    } else if c == 'p' {
        Some(seq!['1', '1', '1', '1', '1', '1'])
    } else if c == 'q' {
        Some(seq!['1', '1', '0', '1', '1', '1', '1', '1', '1'])
    } else if c == 'r' {
        Some(seq!['1', '0', '1', '0', '1'])
    } else if c == 's' {
        Some(seq!['1', '0', '1', '1', '1'])
    } else if c == 't' {
        Some(seq!['1', '0', '1'])
    } else if c == 'u' {
        Some(seq!['1', '1', '0', '1', '1', '1'])
    } else if c == 'v' {
        Some(seq!['1', '1', '1', '1', '0', '1', '1'])
    } else if c == 'w' {
        Some(seq!['1', '1', '0', '1', '0', '1', '1'])
    } else if c == 'x' {
        Some(seq!['1', '1', '0', '1', '1', '1', '1', '1'])
    } else if c == 'y' {
        Some(seq!['1', '0', '1', '1', '1', '0', '1'])
    } else if c == 'z' {
        Some(seq!['1', '1', '1', '0', '1', '0', '1', '0', '1'])
    } else {
        None
    }
}

/// The character for a varicode bit pattern ('0'/'1'), or `None` for a
/// pattern outside the table: no character is ever guessed.
pub fn varicode_to_char(bits: &str) -> (r: Option<char>)
    ensures
        r == varicode_table(bits@),
{
    let v = chars_of(bits);
    varicode_char_of(&v)
}

/// The character for a varicode pattern given as characters.
pub fn varicode_char_of(v: &[char]) -> (r: Option<char>)
    ensures
        r == varicode_table(v@),
{
    let b0 = v.len() == 1 && v[0] == '1';
    assert(b0 == (v@ == seq!['1'])) by {
        if v@.len() == 1 && v@[0] == '1' {
            assert(v@ =~= seq!['1']);
        }
    }
    let b1 = same_chars(v, &['1', '0', '1', '1']);
    assert(b1 == (v@ == seq!['1', '0', '1', '1']));
    let b2 = same_chars(v, &['1', '0', '1', '1', '1', '1', '1']);
    assert(b2 == (v@ == seq!['1', '0', '1', '1', '1', '1', '1']));
    let b3 = same_chars(v, &['1', '0', '1', '1', '1', '1']);
    assert(b3 == (v@ == seq!['1', '0', '1', '1', '1', '1']));
    let b4 = same_chars(v, &['1', '0', '1', '1', '0', '1']);
    assert(b4 == (v@ == seq!['1', '0', '1', '1', '0', '1']));
    let b5 = same_chars(v, &['1', '1']);
    assert(b5 == (v@ == seq!['1', '1']));
    let b6 = same_chars(v, &['1', '1', '1', '1', '0', '1']);
    assert(b6 == (v@ == seq!['1', '1', '1', '1', '0', '1']));
    let b7 = same_chars(v, &['1', '0', '1', '1', '0', '1', '1']);
    assert(b7 == (v@ == seq!['1', '0', '1', '1', '0', '1', '1']));
    let b8 = same_chars(v, &['1', '0', '1', '0', '1', '1']);
    assert(b8 == (v@ == seq!['1', '0', '1', '0', '1', '1']));
    let b9 = same_chars(v, &['1', '1', '0', '1']);
    assert(b9 == (v@ == seq!['1', '1', '0', '1']));
    let b10 = same_chars(v, &['1', '1', '1', '1', '0', '1', '0', '1', '1']);
    assert(b10 == (v@ == seq!['1', '1', '1', '1', '0', '1', '0', '1', '1']));
    let b11 = same_chars(v, &['1', '0', '1', '1', '1', '1', '1', '1']);
    assert(b11 == (v@ == seq!['1', '0', '1', '1', '1', '1', '1', '1']));
    let b12 = same_chars(v, &['1', '1', '0', '1', '1']);
    assert(b12 == (v@ == seq!['1', '1', '0', '1', '1']));
    let b13 = same_chars(v, &['1', '1', '1', '0', '1', '1']);
    assert(b13 == (v@ == seq!['1', '1', '1', '0', '1', '1']));
    let b14 = same_chars(v, &['1', '1', '1', '1']);
    assert(b14 == (v@ == seq!['1', '1', '1', '1']));
    let b15 = same_chars(v, &['1', '1', '1']);
    assert(b15 == (v@ == seq!['1', '1', '1']));
    let b16 = same_chars(v, &['1', '1', '1', '1', '1', '1']);
    assert(b16 == (v@ == seq!['1', '1', '1', '1', '1', '1']));
    let b17 = same_chars(v, &['1', '1', '0', '1', '1', '1', '1', '1', '1']);
    assert(b17 == (v@ == seq!['1', '1', '0', '1', '1', '1', '1', '1', '1']));
    let b18 = same_chars(v, &['1', '0', '1', '0', '1']);
    assert(b18 == (v@ == seq!['1', '0', '1', '0', '1']));
    let b19 = same_chars(v, &['1', '0', '1', '1', '1']);
    assert(b19 == (v@ == seq!['1', '0', '1', '1', '1']));
    let b20 = same_chars(v, &['1', '0', '1']);
    assert(b20 == (v@ == seq!['1', '0', '1']));
    let b21 = same_chars(v, &['1', '1', '0', '1', '1', '1']);
    assert(b21 == (v@ == seq!['1', '1', '0', '1', '1', '1']));
    let b22 = same_chars(v, &['1', '1', '1', '1', '0', '1', '1']);
    assert(b22 == (v@ == seq!['1', '1', '1', '1', '0', '1', '1']));
    let b23 = same_chars(v, &['1', '1', '0', '1', '0', '1', '1']);
    assert(b23 == (v@ == seq!['1', '1', '0', '1', '0', '1', '1']));
    let b24 = same_chars(v, &['1', '1', '0', '1', '1', '1', '1', '1']);
    assert(b24 == (v@ == seq!['1', '1', '0', '1', '1', '1', '1', '1']));
    let b25 = same_chars(v, &['1', '0', '1', '1', '1', '0', '1']);
    assert(b25 == (v@ == seq!['1', '0', '1', '1', '1', '0', '1']));
    let b26 = same_chars(v, &['1', '1', '1', '0', '1', '0', '1', '0', '1']);
    assert(b26 == (v@ == seq!['1', '1', '1', '0', '1', '0', '1', '0', '1']));
    if b0 {
        Some(' ')
    } else if b1 {
        Some('a')
    } else if b2 {
        Some('b')
    } else if b3 {
        Some('c')
    } else if b4 {
        Some('d')
    } else if b5 {
        Some('e')
    } else if b6 {
        Some('f')
    } else if b7 {
        Some('g')
    } else if b8 {
        Some('h')
    } else if b9 {
        Some('i')
    } else if b10 {
        Some('j')
    } else if b11 {
        Some('k')
    } else if b12 {
        Some('l')
    } else if b13 {
        Some('m')
    } else if b14 {
        Some('n')
    } else if b15 {
        Some('o')
    } else if b16 {
        Some('p')
    } else if b17 {
        Some('q')
    } else if b18 {
        Some('r')
    } else if b19 {
        Some('s')
    } else if b20 {
        Some('t')
    } else if b21 {
        Some('u')
    } else if b22 {
        Some('v')
    } else if b23 {
        Some('w')
    } else if b24 {
        Some('x')
    } else if b25 {
        Some('y')
    } else if b26 {
        Some('z')
    } else {
        None
    }
}

/// The varicode pattern of `c`, for the characters of the table.
pub fn char_to_varicode(c: char) -> (r: Option<&'static str>)
    ensures
        r matches Some(s) ==> varicode_of(c) == Some(s@),
        r is None <==> varicode_of(c) is None,
{
    match c {
        ' ' => {
            proof {
                reveal_strlit("1");
            }
            Some("1")
        },
        'a' => {
            proof {
                reveal_strlit("1011");
            }
            Some("1011")
        },
        'b' => {
            proof {
                reveal_strlit("1011111");
            }
            Some("1011111")
        },
        'c' => {
            proof {
                reveal_strlit("101111");
            }
            Some("101111")
        },
        'd' => {
            proof {
                reveal_strlit("101101");
            }
            Some("101101")
        },
        'e' => {
            proof {
                reveal_strlit("11");
            }
            Some("11")
        },
        'f' => {
            proof {
                reveal_strlit("111101");
            }
            Some("111101")
        },
        'g' => {
            proof {
                reveal_strlit("1011011");
            }
            Some("1011011")
        },
        'h' => {
            proof {
                reveal_strlit("101011");
            }
            Some("101011")
        },
        'i' => {
            proof {
                reveal_strlit("1101");
            }
            Some("1101")
        },
        'j' => {
            proof {
                reveal_strlit("111101011");
            }
            Some("111101011")
        },
        'k' => {
            proof {
                reveal_strlit("10111111");
            }
            Some("10111111")
        },
        'l' => {
            proof {
                reveal_strlit("11011");
            }
            Some("11011")
        },
        'm' => {
            proof {
                reveal_strlit("111011");
            }
            Some("111011")
        },
        'n' => {
            proof {
                reveal_strlit("1111");
            }
            Some("1111")
        },
        'o' => {
            proof {
                reveal_strlit("111");
            }
            Some("111")
        },
        'p' => {
            proof {
                reveal_strlit("111111");
            }
            Some("111111")
        },
        'q' => {
            proof {
                reveal_strlit("110111111");
            }
            Some("110111111")
        },
        'r' => {
            proof {
                reveal_strlit("10101");
            }
            Some("10101")
        },
        's' => {
            proof {
                reveal_strlit("10111");
            }
            Some("10111")
        },
        't' => {
            proof {
                reveal_strlit("101");
            }
            Some("101")
        },
        'u' => {
            proof {
                reveal_strlit("110111");
            }
            Some("110111")
        },
        'v' => {
            proof {
                reveal_strlit("1111011");
            }
            Some("1111011")
        },
        'w' => {
            proof {
                reveal_strlit("1101011");
            }
            Some("1101011")
        },
        'x' => {
            proof {
                reveal_strlit("11011111");
            }
            Some("11011111")
        },
        'y' => {
            proof {
                reveal_strlit("1011101");
            }
            Some("1011101")
        },
        'z' => {
            proof {
                reveal_strlit("111010101");
            }
            Some("111010101")
        },
        _ => None,
    }
}

/// ITA2 letters shift; '\0' marks codes with no character.
pub const BAUDOT_LTRS: [char; 32] = [
    '\0', 'E', '\n', 'A', ' ', 'S', 'I', 'U', '\r', 'D', 'R', 'J', 'N', 'F', 'C', 'K', 'T', 'Z',
    'L', 'W', 'H', 'Y', 'P', 'Q', 'O', 'B', 'G', '\0', 'M', 'X', 'V', '\0',
];

/// ITA2 figures shift; '\0' marks codes with no character.
pub const BAUDOT_FIGS: [char; 32] = [
    '\0', '3', '\n', '-', ' ', '\'', '8', '7', '\r', '$', '4', '\u{7}', ',', '!', ':', '(', '5',
    '+', ')', '2', '#', '6', '0', '1', '9', '?', '&', '\0', '.', '/', ';', '\0',
];

/// The ITA2 character of a 5-bit code in the given shift, if it has one.
pub open spec fn baudot_table(code: int, figs: bool) -> Option<char> {
    let c = if figs { BAUDOT_FIGS@[code] } else { BAUDOT_LTRS@[code] };
    if c == '\0' { None } else { Some(c) }
}

/// ITA2 / Baudot: the character for a 5-bit code given the shift state.
pub fn baudot(code: u8, figs: bool) -> (r: Option<char>)
    requires
        code < 32,
    ensures
        r == baudot_table(code as int, figs),
{
    let c = if figs { BAUDOT_FIGS[code as usize] } else { BAUDOT_LTRS[code as usize] };
    if c == '\0' { None } else { Some(c) }
}

/// The value of five ITA2 bits written in the order they are sent (bit 1,
/// the least significant, first).
pub open spec fn ita2_bits(b: Seq<char>) -> int {
    (if b[0] == '1' { 1int } else { 0 }) + (if b[1] == '1' { 2int } else { 0 }) + (if b[2] == '1' { 4int } else { 0 })
        + (if b[3] == '1' { 8int } else { 0 }) + (if b[4] == '1' { 16int } else { 0 })
}

/// The ITA2 code of each letter and of space, carriage return and line
/// feed, from the ITU-T S.1 alphabet (bits in sending order).
pub open spec fn ita2_code(c: char) -> Option<int> {
    if c == 'A' {
        Some(ita2_bits(seq!['1', '1', '0', '0', '0']))
    } else if c == 'B' {
        Some(ita2_bits(seq!['1', '0', '0', '1', '1']))
    } else if c == 'C' {
        Some(ita2_bits(seq!['0', '1', '1', '1', '0']))
    } else if c == 'D' {
        Some(ita2_bits(seq!['1', '0', '0', '1', '0']))
    } else if c == 'E' {
        Some(ita2_bits(seq!['1', '0', '0', '0', '0']))
    } else if c == 'F' {
        Some(ita2_bits(seq!['1', '0', '1', '1', '0']))
    } else if c == 'G' {
        Some(ita2_bits(seq!['0', '1', '0', '1', '1']))
    } else if c == 'H' {
        Some(ita2_bits(seq!['0', '0', '1', '0', '1']))
    } else if c == 'I' {
        Some(ita2_bits(seq!['0', '1', '1', '0', '0']))
    } else if c == 'J' {
        Some(ita2_bits(seq!['1', '1', '0', '1', '0']))
    } else if c == 'K' {
        Some(ita2_bits(seq!['1', '1', '1', '1', '0']))
    } else if c == 'L' {
        Some(ita2_bits(seq!['0', '1', '0', '0', '1']))
    } else if c == 'M' {
        Some(ita2_bits(seq!['0', '0', '1', '1', '1']))
    } else if c == 'N' {
        Some(ita2_bits(seq!['0', '0', '1', '1', '0']))
    } else if c == 'O' {
        Some(ita2_bits(seq!['0', '0', '0', '1', '1']))
    } else if c == 'P' {
        Some(ita2_bits(seq!['0', '1', '1', '0', '1']))
    } else if c == 'Q' {
        Some(ita2_bits(seq!['1', '1', '1', '0', '1']))
    } else if c == 'R' {
        Some(ita2_bits(seq!['0', '1', '0', '1', '0']))
    } else if c == 'S' {
        Some(ita2_bits(seq!['1', '0', '1', '0', '0']))
    } else if c == 'T' {
        Some(ita2_bits(seq!['0', '0', '0', '0', '1']))
    } else if c == 'U' {
        Some(ita2_bits(seq!['1', '1', '1', '0', '0']))
    } else if c == 'V' {
        Some(ita2_bits(seq!['0', '1', '1', '1', '1']))
    } else if c == 'W' {
        Some(ita2_bits(seq!['1', '1', '0', '0', '1']))
    } else if c == 'X' {
        Some(ita2_bits(seq!['1', '0', '1', '1', '1']))
    } else if c == 'Y' {
        Some(ita2_bits(seq!['1', '0', '1', '0', '1']))
    } else if c == 'Z' {
        Some(ita2_bits(seq!['1', '0', '0', '0', '1']))
    } else if c == ' ' {
        Some(ita2_bits(seq!['0', '0', '1', '0', '0']))
    } else if c == '\r' {
        Some(ita2_bits(seq!['0', '0', '0', '1', '0']))
    } else if c == '\n' {
        Some(ita2_bits(seq!['0', '1', '0', '0', '0']))
    } else {
        None
    }
}

/// The letter key whose code carries a figure in the figures shift (the
/// US teleprinter layout: `$` on D, bell on J, `#` on H, `&` on G, `;` on V).
pub open spec fn ita2_figure_key(f: char) -> Option<char> {
    if f == '3' {
        Some('E')
    } else if f == '-' {
        Some('A')
    } else if f == '\'' {
        Some('S')
    } else if f == '8' {
        Some('I')
    } else if f == '7' {
        Some('U')
    } else if f == '$' {
        Some('D')
    } else if f == '4' {
        Some('R')
    } else if f == '\u{7}' {
        Some('J')
    } else if f == ',' {
        Some('N')
    } else if f == '!' {
        Some('F')
    } else if f == ':' {
        Some('C')
    } else if f == '(' {
        Some('K')
    } else if f == '5' {
        Some('T')
    } else if f == '+' {
        Some('Z')
    } else if f == ')' {
        Some('L')
    } else if f == '2' {
        Some('W')
    } else if f == '#' {
        Some('H')
    } else if f == '6' {
        Some('Y')
    } else if f == '0' {
        Some('P')
    } else if f == '1' {
        Some('Q')
    } else if f == '9' {
        Some('O')
    } else if f == '?' {
        Some('B')
    } else if f == '&' {
        Some('G')
    } else if f == '.' {
        Some('M')
    } else if f == '/' {
        Some('X')
    } else if f == ';' {
        Some('V')
    } else {
        None
    }
}

/// The Baudot tables are the ITA2 alphabet. In the letters shift a code
/// gives a character exactly when that is the character's ITA2 code. In the
/// figures shift a code gives a figure exactly when it is the code of the
/// letter key that carries that figure, or the code of space, carriage
/// return or line feed, which both shifts share.
pub proof fn lemma_baudot_is_ita2(code: int, c: char)
    requires
        0 <= code < 32,
    ensures
        baudot_table(code, false) == Some(c) <==> ita2_code(c) == Some(code),
        baudot_table(code, true) == Some(c) <==> (match ita2_figure_key(c) {
            Some(k) => ita2_code(k) == Some(code),
            None => (c == ' ' || c == '\r' || c == '\n') && ita2_code(c) == Some(code),
        }),
{
    assert(BAUDOT_LTRS@ =~= seq![
        '\0', 'E', '\n', 'A', ' ', 'S', 'I', 'U', '\r', 'D', 'R', 'J', 'N', 'F', 'C', 'K', 'T', 'Z',
        'L', 'W', 'H', 'Y', 'P', 'Q', 'O', 'B', 'G', '\0', 'M', 'X', 'V', '\0',
    ]);
    assert(BAUDOT_FIGS@ =~= seq![
        '\0', '3', '\n', '-', ' ', '\'', '8', '7', '\r', '$', '4', '\u{7}', ',', '!', ':', '(', '5',
        '+', ')', '2', '#', '6', '0', '1', '9', '?', '&', '\0', '.', '/', ';', '\0',
    ]);
}

// ---- laws ----

/// A varicode pattern can be told apart from its neighbours: it is not empty,
/// starts and ends with a '1', holds only '0' and '1', and never holds two '0'
/// bits in a row (so "00" always separates characters).
pub open spec fn self_delimiting(b: Seq<char>) -> bool {
    &&& b.len() > 0
    &&& b[0] == '1'
    &&& b.last() == '1'
    &&& forall|i: int| 0 <= i < b.len() ==> b[i] == '0' || b[i] == '1'
    &&& forall|i: int| 0 <= i < b.len() - 1 ==> !(#[trigger] b[i] == '0' && b[i + 1] == '0')
}

/// Every pattern of the varicode table is self-delimiting.
pub proof fn lemma_varicode_self_delimiting(c: char)
    ensures
        varicode_of(c) matches Some(b) ==> self_delimiting(b),
{
}

/// Encoding then decoding a character gives it back.
pub proof fn lemma_varicode_roundtrip(c: char)
    ensures
        varicode_of(c) matches Some(b) ==> varicode_table(b) == Some(c),
{
    if c == ' ' {
        assert(seq!['1'].len() == 1);
        assert(varicode_table(seq!['1']) == Some(' '));
    } else if c == 'a' {
        assert(seq!['1', '0', '1', '1'].len() == 4);
        assert(varicode_table(seq!['1', '0', '1', '1']) == Some('a'));
    } else if c == 'b' {
        assert(seq!['1', '0', '1', '1', '1', '1', '1'].len() == 7);
        assert(varicode_table(seq!['1', '0', '1', '1', '1', '1', '1']) == Some('b'));
    } else if c == 'c' {
        assert(seq!['1', '0', '1', '1', '1', '1'].len() == 6);
        assert(varicode_table(seq!['1', '0', '1', '1', '1', '1']) == Some('c'));
    } else if c == 'd' {
        assert(seq!['1', '0', '1', '1', '0', '1'].len() == 6);
        assert(varicode_table(seq!['1', '0', '1', '1', '0', '1']) == Some('d'));
    } else if c == 'e' {
        assert(seq!['1', '1'].len() == 2);
        assert(varicode_table(seq!['1', '1']) == Some('e'));
    } else if c == 'f' {
        assert(seq!['1', '1', '1', '1', '0', '1'].len() == 6);
        assert(varicode_table(seq!['1', '1', '1', '1', '0', '1']) == Some('f'));
    } else if c == 'g' {
        assert(seq!['1', '0', '1', '1', '0', '1', '1'].len() == 7);
        assert(varicode_table(seq!['1', '0', '1', '1', '0', '1', '1']) == Some('g'));
    } else if c == 'h' {
        assert(seq!['1', '0', '1', '0', '1', '1'].len() == 6);
        assert(varicode_table(seq!['1', '0', '1', '0', '1', '1']) == Some('h'));
    } else if c == 'i' {
        assert(seq!['1', '1', '0', '1'].len() == 4);
        assert(varicode_table(seq!['1', '1', '0', '1']) == Some('i'));
    } else if c == 'j' {
        assert(seq!['1', '1', '1', '1', '0', '1', '0', '1', '1'].len() == 9);
        assert(varicode_table(seq!['1', '1', '1', '1', '0', '1', '0', '1', '1']) == Some('j'));
    } else if c == 'k' {
        assert(seq!['1', '0', '1', '1', '1', '1', '1', '1'].len() == 8);
        assert(varicode_table(seq!['1', '0', '1', '1', '1', '1', '1', '1']) == Some('k'));
    } else if c == 'l' {
        assert(seq!['1', '1', '0', '1', '1'].len() == 5);
        assert(varicode_table(seq!['1', '1', '0', '1', '1']) == Some('l'));
    } else if c == 'm' {
        assert(seq!['1', '1', '1', '0', '1', '1'].len() == 6);
        assert(varicode_table(seq!['1', '1', '1', '0', '1', '1']) == Some('m'));
    } else if c == 'n' {
        assert(seq!['1', '1', '1', '1'].len() == 4);
        assert(varicode_table(seq!['1', '1', '1', '1']) == Some('n'));
    } else if c == 'o' {
        assert(seq!['1', '1', '1'].len() == 3);
        assert(varicode_table(seq!['1', '1', '1']) == Some('o'));
    } else if c == 'p' {
        assert(seq!['1', '1', '1', '1', '1', '1'].len() == 6);
        assert(varicode_table(seq!['1', '1', '1', '1', '1', '1']) == Some('p'));
    } else if c == 'q' {
        assert(seq!['1', '1', '0', '1', '1', '1', '1', '1', '1'].len() == 9);
        assert(varicode_table(seq!['1', '1', '0', '1', '1', '1', '1', '1', '1']) == Some('q'));
    } else if c == 'r' {
        assert(seq!['1', '0', '1', '0', '1'].len() == 5);
        assert(varicode_table(seq!['1', '0', '1', '0', '1']) == Some('r'));
    } else if c == 's' {
        assert(seq!['1', '0', '1', '1', '1'].len() == 5);
        assert(varicode_table(seq!['1', '0', '1', '1', '1']) == Some('s'));
    } else if c == 't' {
        assert(seq!['1', '0', '1'].len() == 3);
        assert(varicode_table(seq!['1', '0', '1']) == Some('t'));
    } else if c == 'u' {
        assert(seq!['1', '1', '0', '1', '1', '1'].len() == 6);
        assert(varicode_table(seq!['1', '1', '0', '1', '1', '1']) == Some('u'));
    } else if c == 'v' {
        assert(seq!['1', '1', '1', '1', '0', '1', '1'].len() == 7);
        assert(varicode_table(seq!['1', '1', '1', '1', '0', '1', '1']) == Some('v'));
    } else if c == 'w' {
        assert(seq!['1', '1', '0', '1', '0', '1', '1'].len() == 7);
        assert(varicode_table(seq!['1', '1', '0', '1', '0', '1', '1']) == Some('w'));
    } else if c == 'x' {
        assert(seq!['1', '1', '0', '1', '1', '1', '1', '1'].len() == 8);
        assert(varicode_table(seq!['1', '1', '0', '1', '1', '1', '1', '1']) == Some('x'));
    } else if c == 'y' {
        assert(seq!['1', '0', '1', '1', '1', '0', '1'].len() == 7);
        assert(varicode_table(seq!['1', '0', '1', '1', '1', '0', '1']) == Some('y'));
    } else if c == 'z' {
        assert(seq!['1', '1', '1', '0', '1', '0', '1', '0', '1'].len() == 9);
        assert(varicode_table(seq!['1', '1', '1', '0', '1', '0', '1', '0', '1']) == Some('z'));
    }
}

/// Decoding then encoding a pattern gives it back: the table is one to one.
pub proof fn lemma_varicode_inverse(b: Seq<char>)
    ensures
        varicode_table(b) matches Some(c) ==> varicode_of(c) == Some(b),
{
}

} // verus!
