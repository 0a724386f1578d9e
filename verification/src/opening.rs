//! The opening text: two lines of placements, White's and then Black's.

use crate::notation::alg_square;
use crate::notation::alg_to_index;
use crate::notation::piece_of;
use crate::piece::Piece;
use crate::piece::Side;
use crate::piece::piece_char_index;
use crate::position::Position;
use crate::text::chars_of;
use crate::text::line_ranges;
use crate::text::lines_of;
use crate::text::ranges_cut;
use crate::text::token_ranges;
use crate::text::tokens_of;
use vstd::prelude::*;

verus! {

/// What one placement says: the letter of a piece of `side`, then the
/// name of a square.
pub open spec fn parse_placement(token: Seq<char>, side: Side) -> Option<(int, Piece)> {
    if token.len() != 3 {
        None
    } else {
        match alg_square(token.subrange(1, 3)) {
            Some(sq) => if piece_of(token[0]).belongs_to(side) {
                Some((sq, piece_of(token[0])))
            } else {
                None
            },
            None => None,
        }
    }
}

/// The board after the first `n` placements, each put on the board the
/// ones before it left; `None` if one of them is no placement of `side`.
pub open spec fn place_all(pieces: Seq<Piece>, tokens: Seq<Seq<char>>, side: Side, n: nat) -> Option<
    Seq<Piece>,
>
    decreases n,
{
    if n == 0 {
        Some(pieces)
    } else {
        match place_all(pieces, tokens, side, (n - 1) as nat) {
            None => None,
            Some(board) => match parse_placement(tokens[n - 1], side) {
                None => None,
                Some((sq, piece)) => Some(board.update(sq, piece)),
            },
        }
    }
}

/// The board that an opening text sets up: exactly two lines, the first
/// with White's placements and the second with Black's, on a board that
/// is empty at first.
pub open spec fn parse_opening(text: Seq<char>) -> Option<Seq<Piece>> {
    let lines = lines_of(text);
    if lines.len() != 2 {
        None
    } else {
        let white = tokens_of(lines[0]);
        let black = tokens_of(lines[1]);
        match place_all(Seq::new(64, |i: int| Piece::Empty), white, Side::White, white.len()) {
            None => None,
            Some(board) => place_all(board, black, Side::Black, black.len()),
        }
    }
}

/// Puts the placements of one line on the board. Says whether all of them
/// were placements of `side`.
fn place_line(chars: &Vec<char>, pieces: &mut [Piece; 64], start: usize, end: usize, side: Side) -> (done:
    bool)
    requires
        start <= end <= chars@.len(),
    ensures
        match place_all(
            old(pieces)@,
            tokens_of(chars@.subrange(start as int, end as int)),
            side,
            tokens_of(chars@.subrange(start as int, end as int)).len(),
        ) {
            Some(board) => done && final(pieces)@ == board,
            None => !done,
        },
{
    let ghost tokens = tokens_of(chars@.subrange(start as int, end as int));
    let ghost first = pieces@;
    let ranges = token_ranges(chars, start, end);
    let mut i: usize = 0;
    while i < ranges.len()
        invariant
            i <= ranges@.len(),
            first == old(pieces)@,
            tokens == tokens_of(chars@.subrange(start as int, end as int)),
            ranges_cut(ranges@, chars@, tokens),
            place_all(first, tokens, side, i as nat) == Some(pieces@),
        decreases ranges@.len() - i,
    {
        let (from, to) = ranges[i];
        assert(chars@.subrange(from as int, to as int) == tokens[i as int]);
        if to - from != 3 {
            proof {
                lemma_place_all_fails(first, tokens, side, i as nat, tokens.len());
            }
            return false;
        }
        let piece = match Piece::from_u8(piece_char_index(chars[from])) {
            Some(piece) => piece,
            None => Piece::Empty,
        };
        let name: [char; 2] = [chars[from + 1], chars[from + 2]];
        assert(name@ =~= tokens[i as int].subrange(1, 3));
        let sq: usize = match alg_to_index(name.as_slice()) {
            Some(sq) => sq,
            None => {
                proof {
                    lemma_place_all_fails(first, tokens, side, i as nat, tokens.len());
                }
                return false;
            },
        };
        if !piece.is_of(side) {
            proof {
                lemma_place_all_fails(first, tokens, side, i as nat, tokens.len());
            }
            return false;
        }
        pieces[sq] = piece;
        i = i + 1;
    }
    true
}

/// Once a placement has failed, no later one mends it.
proof fn lemma_place_all_fails(pieces: Seq<Piece>, tokens: Seq<Seq<char>>, side: Side, i: nat, n: nat)
    requires
        i < n,
        place_all(pieces, tokens, side, i) is Some,
        parse_placement(tokens[i as int], side) is None,
    ensures
        place_all(pieces, tokens, side, n) is None,
    decreases n,
{
    if n > i + 1 {
        lemma_place_all_fails(pieces, tokens, side, i, (n - 1) as nat);
    }
}

impl Position {
    /// The position that an opening text sets up, with White to move;
    /// `None` where the text is no opening.
    pub fn from_opening_str(opening: &str) -> (parsed: Option<Position>)
        ensures
            match parsed {
                Some(pos) => parse_opening(opening@) == Some(pos.pieces@) && pos.wf()
                    && pos.is_fresh(Side::White, 4, pos.pieces@),
                None => parse_opening(opening@) is None,
            },
    {
        let chars = chars_of(opening);
        let lines = line_ranges(&chars);
        if lines.len() != 2 {
            return None;
        }
        let mut pieces: [Piece; 64] = [Piece::Empty; 64];
        assert(pieces@ =~= Seq::new(64, |i: int| Piece::Empty));
        let (white_start, white_end) = lines[0];
        let (black_start, black_end) = lines[1];
        if !place_line(&chars, &mut pieces, white_start, white_end, Side::White) {
            return None;
        }
        if !place_line(&chars, &mut pieces, black_start, black_end, Side::Black) {
            return None;
        }
        Some(Position::from_pieces(Side::White, 4, pieces))
    }
}

} // verus!
