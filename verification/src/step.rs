//! A step: one sub-move of a turn.

use crate::notation::alg_square;
use crate::notation::alg_to_index;
use crate::notation::column_letter;
use crate::notation::index_to_alg;
use crate::notation::lemma_alg_round_trip;
use crate::notation::row_digit;
use crate::piece::lemma_letter_round_trip;
use crate::piece::piece_char_index;
use crate::piece::piece_char_index_spec;
use crate::piece::Direction;
use crate::piece::Piece;
use crate::text::chars_of;
use crate::text::decimal_text;
use crate::text::push_char;
use crate::text::push_decimal;
use vstd::prelude::*;

verus! {

/// One sub-move. Squares are numbered 0 to 63.
#[derive(Clone, Copy, Debug, PartialEq, Eq, Structural)]
pub enum Step {
    /// A piece slides from the first square to the second.
    Move(Piece, u8, u8),
    /// The displaced half of a push: an opposing piece is moved from the
    /// first square to the second, and the pusher has to follow.
    Push(Piece, u8, u8),
    /// A piece is put on a square during setup.
    Place(Piece, u8),
    /// A piece leaves the board from a trap square.
    Remove(Piece, u8),
    /// The turn ends.
    Pass,
}

impl Step {
    /// The piece that the step is about; the empty kind for a pass.
    pub open spec fn piece(self) -> Piece {
        match self {
            Step::Move(p, _, _) => p,
            Step::Push(p, _, _) => p,
            Step::Place(p, _) => p,
            Step::Remove(p, _) => p,
            Step::Pass => Piece::Empty,
        }
    }

    /// Whether every square that the step names lies on the board.
    pub open spec fn on_board(self) -> bool {
        match self {
            Step::Move(_, source, dest) => source < 64 && dest < 64,
            Step::Push(_, source, dest) => source < 64 && dest < 64,
            Step::Place(_, sq) => sq < 64,
            Step::Remove(_, sq) => sq < 64,
            Step::Pass => true,
        }
    }
}

/// A square as text: the letter of its column and the number of its row.
pub open spec fn square_text(sq: u8) -> Seq<char> {
    seq![column_letter(sq as int % 8)] + decimal_text((sq / 8 + 1) as nat)
}

/// The direction in which a step from `source` to `dest` is written: east
/// or west for a difference of one, north or south otherwise.
pub open spec fn direction_of(source: u8, dest: u8) -> Direction {
    if dest > source {
        if dest - source == 1 {
            Direction::East
        } else {
            Direction::North
        }
    } else {
        if source - dest == 1 {
            Direction::West
        } else {
            Direction::South
        }
    }
}

/// The square one step from `sq` in direction `dir`, if the board has one.
pub open spec fn neighbor_in(sq: int, dir: Direction) -> Option<int> {
    match dir {
        Direction::East => if sq % 8 != 7 {
            Some(sq + 1)
        } else {
            None
        },
        Direction::West => if sq % 8 != 0 {
            Some(sq - 1)
        } else {
            None
        },
        Direction::North => if sq + 8 < 64 {
            Some(sq + 8)
        } else {
            None
        },
        Direction::South => if sq >= 8 {
            Some(sq - 8)
        } else {
            None
        },
    }
}

/// A step as text: the piece's letter and its square, then the direction
/// of a slide or push, nothing for a placement, `x` for a removal.
pub open spec fn step_text(step: Step) -> Seq<char> {
    match step {
        Step::Move(p, source, dest) => seq![p.letter()] + square_text(source) + seq![
            direction_of(source, dest).letter(),
        ],
        Step::Push(p, source, dest) => seq![p.letter()] + square_text(source) + seq![
            direction_of(source, dest).letter(),
        ],
        Step::Place(p, sq) => seq![p.letter()] + square_text(sq),
        Step::Remove(p, sq) => seq![p.letter()] + square_text(sq) + seq!['x'],
        Step::Pass => seq!['[', 'P', 'a', 's', 's', ']'],
    }
}

/// The step that `text` denotes: a piece letter and a square, alone for a
/// placement, followed by `x` for a removal or by a direction for a slide
/// that stays on the board. Pushes and passes have no text of their own.
pub open spec fn parse_step(text: Seq<char>) -> Option<Step> {
    if (text.len() != 3 && text.len() != 4) || piece_char_index_spec(text[0]) == 0 {
        None
    } else {
        let piece = Piece::of_index(piece_char_index_spec(text[0]) as int).unwrap();
        match alg_square(text.subrange(1, 3)) {
            None => None,
            Some(sq) => if text.len() == 3 {
                Some(Step::Place(piece, sq as u8))
            } else if text[3] == 'x' {
                Some(Step::Remove(piece, sq as u8))
            } else {
                match Direction::of_letter(text[3]) {
                    None => None,
                    Some(dir) => match neighbor_in(sq, dir) {
                        None => None,
                        Some(dest) => Some(Step::Move(piece, sq as u8, dest as u8)),
                    },
                }
            },
        }
    }
}

/// Whether the text of `step` can be read back: the step names a piece
/// and squares of the board, and a slide goes to a neighbouring square.
pub open spec fn is_written(step: Step) -> bool {
    match step {
        Step::Move(p, source, dest) => p != Piece::Empty && source < 64 && neighbor_in(
            source as int,
            direction_of(source, dest),
        ) == Some(dest as int),
        Step::Push(p, source, dest) => p != Piece::Empty && source < 64 && neighbor_in(
            source as int,
            direction_of(source, dest),
        ) == Some(dest as int),
        Step::Place(p, sq) => p != Piece::Empty && sq < 64,
        Step::Remove(p, sq) => p != Piece::Empty && sq < 64,
        Step::Pass => false,
    }
}

/// Reading the text of a step gives the step back; the text of a push is
/// read as the slide that it looks like.
pub proof fn lemma_step_round_trip(step: Step)
    requires
        is_written(step),
    ensures
        parse_step(step_text(step)) == match step {
            Step::Push(p, source, dest) => Some(Step::Move(p, source, dest)),
            _ => Some(step),
        },
{
    let text = step_text(step);
    let sq = match step {
        Step::Move(_, source, _) => source,
        Step::Push(_, source, _) => source,
        Step::Place(_, sq) => sq,
        Step::Remove(_, sq) => sq,
        Step::Pass => 0u8,
    };
    lemma_letter_round_trip(step.piece());
    lemma_alg_round_trip(sq as int);
    assert(decimal_text((sq / 8 + 1) as nat) == seq![row_digit(sq as int / 8)]);
    assert(text.subrange(1, 3) =~= seq![column_letter(sq as int % 8), row_digit(sq as int / 8)]);
}

impl Step {
    /// The step in step notation.
    pub fn to_string(&self) -> (text: String)
        ensures
            text@ == step_text(*self),
    {
        let mut text = String::new();
        match *self {
            Step::Move(p, source, dest) => {
                Step::push_slide(&mut text, p, source, dest);
            },
            Step::Push(p, source, dest) => {
                Step::push_slide(&mut text, p, source, dest);
            },
            Step::Place(p, sq) => {
                let (col, row) = index_to_alg(sq);
                push_char(&mut text, p.to_char());
                push_char(&mut text, col);
                push_decimal(&mut text, row as u64);
                assert(text@ =~= step_text(*self));
            },
            Step::Remove(p, sq) => {
                let (col, row) = index_to_alg(sq);
                push_char(&mut text, p.to_char());
                push_char(&mut text, col);
                push_decimal(&mut text, row as u64);
                push_char(&mut text, 'x');
                assert(text@ =~= step_text(*self));
            },
            Step::Pass => {
                push_char(&mut text, '[');
                push_char(&mut text, 'P');
                push_char(&mut text, 'a');
                push_char(&mut text, 's');
                push_char(&mut text, 's');
                push_char(&mut text, ']');
                assert(text@ =~= step_text(*self));
            },
        }
        text
    }

    fn push_slide(text: &mut String, p: Piece, source: u8, dest: u8)
        requires
            old(text)@.len() == 0,
        ensures
            final(text)@ == step_text(Step::Move(p, source, dest)),
    {
        let (col, row) = index_to_alg(source);
        let dir = if dest > source {
            if dest - source == 1 {
                Direction::East
            } else {
                Direction::North
            }
        } else {
            if source - dest == 1 {
                Direction::West
            } else {
                Direction::South
            }
        };
        push_char(text, p.to_char());
        push_char(text, col);
        push_decimal(text, row as u64);
        push_char(text, dir.to_char());
        assert(text@ =~= step_text(Step::Move(p, source, dest)));
    }

    /// Reads a step in step notation; `None` where `input` is none.
    pub fn from_notation(input: &str) -> (step: Option<Step>)
        ensures
            step == parse_step(input@),
    {
        let chars = chars_of(input);
        assert(chars@.subrange(0, chars@.len() as int) == chars@);
        Step::from_chars(&chars, 0, chars.len())
    }

    /// Reads the step that is written in `chars` from `start` up to `end`.
    pub fn from_chars(chars: &Vec<char>, start: usize, end: usize) -> (step: Option<Step>)
        requires
            start <= end <= chars@.len(),
        ensures
            step == parse_step(chars@.subrange(start as int, end as int)),
    {
        let ghost text = chars@.subrange(start as int, end as int);
        let len: usize = end - start;
        if len != 3 && len != 4 {
            return None;
        }
        assert(text[0] == chars@[start as int]);
        let kind: u8 = piece_char_index(chars[start]);
        if kind == 0 {
            return None;
        }
        let piece = match Piece::from_u8(kind) {
            Some(piece) => piece,
            None => {
                return None;
            },
        };
        let name: [char; 2] = [chars[start + 1], chars[start + 2]];
        assert(name@ =~= text.subrange(1, 3));
        let sq: u8 = match alg_to_index(name.as_slice()) {
            Some(sq) => sq as u8,
            None => {
                return None;
            },
        };
        if len == 3 {
            return Some(Step::Place(piece, sq));
        }
        assert(text[3] == chars@[start + 3]);
        if chars[start + 3] == 'x' {
            return Some(Step::Remove(piece, sq));
        }
        match Direction::from_char(chars[start + 3]) {
            None => None,
            Some(Direction::East) => if sq % 8 != 7 {
                Some(Step::Move(piece, sq, sq + 1))
            } else {
                None
            },
            Some(Direction::West) => if sq % 8 != 0 {
                Some(Step::Move(piece, sq, sq - 1))
            } else {
                None
            },
            Some(Direction::North) => if sq < 56 {
                Some(Step::Move(piece, sq, sq + 8))
            } else {
                None
            },
            Some(Direction::South) => if sq >= 8 {
                Some(Step::Move(piece, sq, sq - 8))
            } else {
                None
            },
        }
    }
}

} // verus!
