//! Squares in algebraic notation, and the order in which a board is read.

use crate::piece::piece_char_index_spec;
use crate::piece::Piece;
use vstd::prelude::*;

verus! {

/// Why a text is no position.
#[derive(Clone, Copy, Debug, PartialEq, Eq, Structural)]
pub enum ParseError {
    /// The text has no header line, or the line names no turn.
    Header,
    /// The header does not end in `w` or `g` (White) or `b` or `s` (Black).
    SideToMove,
    /// A row of the board is missing or too short.
    Row,
    /// A character that stands where a piece should is no piece letter.
    UnknownPiece,
    /// The board does not have 64 squares.
    PieceCount,
}

/// Whether `c` can stand for a square's content in compact notation: a
/// piece letter, or a space for an empty square.
pub open spec fn is_cell(c: char) -> bool {
    c == ' ' || piece_char_index_spec(c) != 0
}

/// The piece that `c` stands for; the empty kind for any character that
/// is no piece letter.
pub open spec fn piece_of(c: char) -> Piece {
    Piece::of_index(piece_char_index_spec(c) as int).unwrap()
}

/// The column (0 to 7) that the letter `a` to `h` names.
pub open spec fn column_of(letter: char) -> Option<int> {
    if 'a' <= letter && letter <= 'h' {
        Some(letter as int - 'a' as int)
    } else {
        None
    }
}

/// The row (0 to 7) that the digit `1` to `8` names.
pub open spec fn row_of(digit: char) -> Option<int> {
    if '1' <= digit && digit <= '8' {
        Some(digit as int - '1' as int)
    } else {
        None
    }
}

/// The square that two characters name: a column letter and a row digit.
pub open spec fn alg_square(chs: Seq<char>) -> Option<int> {
    if chs.len() != 2 {
        None
    } else {
        match (column_of(chs[0]), row_of(chs[1])) {
            (Some(col), Some(row)) => Some(col + 8 * row),
            _ => None,
        }
    }
}

/// The letter of column `col`.
pub open spec fn column_letter(col: int) -> char {
    ('a' as int + col) as char
}

/// The digit of row `row`, counted from 0.
pub open spec fn row_digit(row: int) -> char {
    ('1' as int + row) as char
}

/// The `k`-th square in reading order: from a8 along the eighth rank to
/// h8, then the seventh rank, down to h1.
pub open spec fn reading_square(k: int) -> int {
    8 * (7 - k / 8) + k % 8
}

/// The square that `chs` names, if it is a column letter `a` to `h`
/// followed by a row digit `1` to `8`.
pub fn alg_to_index(chs: &[char]) -> (index: Option<usize>)
    ensures
        match index {
            Some(sq) => alg_square(chs@) == Some(sq as int) && sq < 64,
            None => alg_square(chs@) is None,
        },
{
    if chs.len() != 2 {
        return None;
    }
    let col: usize = match chs[0] {
        'a' => 0,
        'b' => 1,
        'c' => 2,
        'd' => 3,
        'e' => 4,
        'f' => 5,
        'g' => 6,
        'h' => 7,
        _ => {
            return None;
        },
    };
    let row: usize = match chs[1] {
        '1' => 0,
        '2' => 1,
        '3' => 2,
        '4' => 3,
        '5' => 4,
        '6' => 5,
        '7' => 6,
        '8' => 7,
        _ => {
            return None;
        },
    };
    Some(col + row * 8)
}

/// The column letter of a square and the number of its row, counted from 1.
pub fn index_to_alg(index: u8) -> (alg: (char, u8))
    ensures
        alg.0 == column_letter(index as int % 8),
        alg.1 == index / 8 + 1,
{
    let col = match index % 8 {
        0 => 'a',
        1 => 'b',
        2 => 'c',
        3 => 'd',
        4 => 'e',
        5 => 'f',
        6 => 'g',
        _ => 'h',
    };
    let row: u8 = (index / 8) + 1;
    (col, row)
}

/// Naming a square and reading the name gives the square back.
pub proof fn lemma_alg_round_trip(sq: int)
    requires
        0 <= sq < 64,
    ensures
        alg_square(seq![column_letter(sq % 8), row_digit(sq / 8)]) == Some(sq),
{
}

/// Walks over the squares in reading order.
pub struct NotationIter {
    index: usize,
}

impl NotationIter {
    /// How many squares have been handed out.
    pub closed spec fn handed_out(self) -> int {
        if self.index == 71 {
            0
        } else {
            8 * (7 - self.index / 8) + self.index % 8 + 1
        }
    }

    pub closed spec fn wf(self) -> bool {
        self.index == 71 || self.index < 64
    }

    pub fn new() -> (iter: NotationIter)
        ensures
            iter.wf(),
            iter.handed_out() == 0,
    {
        NotationIter { index: 71 }
    }

    /// The next square in reading order; `None` after the 64th.
    pub fn next(&mut self) -> (item: Option<usize>)
        requires
            old(self).wf(),
        ensures
            final(self).wf(),
            0 <= old(self).handed_out() <= 64,
            old(self).handed_out() < 64 ==> item == Some(
                reading_square(old(self).handed_out()) as usize,
            ) && final(self).handed_out() == old(self).handed_out() + 1,
            old(self).handed_out() == 64 ==> item is None && final(self).handed_out() == 64,
    {
        if self.index % 8 == 7 {
            if self.index == 7 {
                return None;
            }
            self.index = self.index - 15;
        } else {
            self.index = self.index + 1;
        }
        Some(self.index)
    }
}

/// Reading order visits each square once.
pub proof fn lemma_reading_order(k: int)
    requires
        0 <= k < 64,
    ensures
        0 <= reading_square(k) < 64,
        reading_square(reading_square(k)) == k,
{
}

} // verus!
