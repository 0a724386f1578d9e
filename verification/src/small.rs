//! Compact notation: a board as 64 piece letters between brackets, read
//! from a8 to h1.

use crate::notation::is_cell;
use crate::notation::lemma_reading_order;
use crate::notation::piece_of;
use crate::notation::reading_square;
use crate::notation::NotationIter;
use crate::notation::ParseError;
use crate::piece::lemma_letter_round_trip;
use crate::piece::piece_char_index;
use crate::piece::Piece;
use crate::piece::Side;
use crate::position::Position;
use crate::text::chars_of;
use crate::text::push_char;
use vstd::prelude::*;

verus! {

pub open spec fn is_bracket(c: char) -> bool {
    c == '[' || c == ']'
}

/// `text` without its brackets.
pub open spec fn unbracketed(text: Seq<char>) -> Seq<char>
    decreases text.len(),
{
    if text.len() == 0 {
        text
    } else if is_bracket(text.last()) {
        unbracketed(text.drop_last())
    } else {
        unbracketed(text.drop_last()).push(text.last())
    }
}

/// The letters of the 64 squares in reading order.
pub open spec fn board_letters(pieces: Seq<Piece>) -> Seq<char> {
    Seq::new(64, |k: int| pieces[reading_square(k)].letter())
}

/// A board in compact notation.
pub open spec fn small_text(pieces: Seq<Piece>) -> Seq<char> {
    seq!['['] + board_letters(pieces) + seq![']']
}

/// The board that a text in compact notation denotes. Brackets are
/// skipped wherever they stand; what is left has to be 64 piece letters
/// or spaces.
pub open spec fn parse_small(text: Seq<char>) -> Result<Seq<Piece>, ParseError> {
    let body = unbracketed(text);
    if exists|i: int| 0 <= i < body.len() && !is_cell(#[trigger] body[i]) {
        Err(ParseError::UnknownPiece)
    } else if body.len() != 64 {
        Err(ParseError::PieceCount)
    } else {
        Ok(Seq::new(64, |sq: int| piece_of(body[reading_square(sq)])))
    }
}

/// A text without brackets is left as it is.
proof fn lemma_unbracketed_plain(text: Seq<char>)
    requires
        forall|i: int| 0 <= i < text.len() ==> !is_bracket(#[trigger] text[i]),
    ensures
        unbracketed(text) == text,
    decreases text.len(),
{
    if text.len() > 0 {
        lemma_unbracketed_plain(text.drop_last());
        assert(text.drop_last().push(text.last()) == text);
    }
}

/// Brackets in front of a text do not show in what is left of it.
proof fn lemma_unbracketed_after_bracket(bracket: char, text: Seq<char>)
    requires
        is_bracket(bracket),
    ensures
        unbracketed(seq![bracket] + text) == unbracketed(text),
    decreases text.len(),
{
    let whole = seq![bracket] + text;
    if text.len() == 0 {
        assert(whole.drop_last() == Seq::<char>::empty());
        assert(unbracketed(whole.drop_last()) == Seq::<char>::empty());
    } else {
        lemma_unbracketed_after_bracket(bracket, text.drop_last());
        assert(whole.drop_last() == seq![bracket] + text.drop_last());
        assert(whole.last() == text.last());
    }
}

/// Writing a board in compact notation and reading the text gives the
/// board back.
pub proof fn lemma_small_round_trip(pieces: Seq<Piece>)
    requires
        pieces.len() == 64,
    ensures
        parse_small(small_text(pieces)) == Ok::<Seq<Piece>, ParseError>(pieces),
{
    let letters = board_letters(pieces);
    let text = small_text(pieces);
    assert forall|i: int| 0 <= i < letters.len() implies !is_bracket(#[trigger] letters[i])
        && is_cell(letters[i]) by {
        lemma_letter_round_trip(pieces[reading_square(i)]);
    }
    lemma_unbracketed_plain(letters);
    lemma_unbracketed_after_bracket('[', letters);
    assert(text.drop_last() == seq!['['] + letters);
    assert(unbracketed(text) == letters);
    let read = Seq::new(64, |sq: int| piece_of(letters[reading_square(sq)]));
    assert forall|sq: int| 0 <= sq < 64 implies read[sq] == pieces[sq] by {
        lemma_reading_order(sq);
        lemma_letter_round_trip(pieces[sq]);
    }
    assert(read =~= pieces);
}

impl Position {
    /// The board in compact notation.
    pub fn to_small_notation(&self) -> (text: String)
        ensures
            text@ == small_text(self.pieces@),
    {
        let mut text = String::new();
        push_char(&mut text, '[');
        let mut iter = NotationIter::new();
        let ghost letters = board_letters(self.pieces@);
        loop
            invariant
                iter.wf(),
                0 <= iter.handed_out() <= 64,
                letters == board_letters(self.pieces@),
                text@ == seq!['['] + letters.subrange(0, iter.handed_out()),
            ensures
                iter.handed_out() == 64,
            decreases 64 - iter.handed_out(),
        {
            let ghost k = iter.handed_out();
            match iter.next() {
                None => {
                    break ;
                },
                Some(sq) => {
                    proof {
                        lemma_reading_order(k);
                    }
                    push_char(&mut text, self.pieces[sq].to_char());
                    assert(text@ =~= seq!['['] + letters.subrange(0, k + 1));
                },
            }
        }
        push_char(&mut text, ']');
        assert(letters.subrange(0, 64) == letters);
        text
    }

    /// Reads a board in compact notation and sets `side` to move, at the
    /// start of a turn.
    pub fn from_small_notation(notation: String, side: Side) -> (parsed: Result<
        Position,
        ParseError,
    >)
        ensures
            match parsed {
                Ok(pos) => parse_small(notation@) == Ok::<Seq<Piece>, ParseError>(pos.pieces@)
                    && pos.wf() && pos.is_fresh(side, 4, pos.pieces@),
                Err(error) => parse_small(notation@) == Err::<Seq<Piece>, ParseError>(error),
            },
    {
        let chars = chars_of(notation.as_str());
        let mut body: Vec<char> = Vec::new();
        let mut unknown: bool = false;
        let mut i: usize = 0;
        while i < chars.len()
            invariant
                i <= chars.len(),
                chars@ == notation@,
                body@ == unbracketed(chars@.subrange(0, i as int)),
                unknown <==> exists|j: int| 0 <= j < body@.len() && !is_cell(#[trigger] body@[j]),
            decreases chars.len() - i,
        {
            let c = chars[i];
            let ghost before = body@;
            proof {
                assert(chars@.subrange(0, i + 1).drop_last() == chars@.subrange(0, i as int));
            }
            if c != '[' && c != ']' {
                body.push(c);
                if c != ' ' && piece_char_index(c) == 0 {
                    unknown = true;
                }
                proof {
                    if exists|j: int| 0 <= j < before.len() && !is_cell(#[trigger] before[j]) {
                        let j = choose|j: int| 0 <= j < before.len() && !is_cell(#[trigger] before[j]);
                        assert(body@[j] == before[j]);
                    }
                    if !is_cell(c) {
                        assert(body@[before.len() as int] == c);
                    }
                    if exists|j: int| 0 <= j < body@.len() && !is_cell(#[trigger] body@[j]) {
                        let j = choose|j: int| 0 <= j < body@.len() && !is_cell(#[trigger] body@[j]);
                        if j < before.len() {
                            assert(before[j] == body@[j]);
                        }
                    }
                }
            }
            i = i + 1;
        }
        assert(chars@.subrange(0, chars.len() as int) == chars@);
        if unknown {
            return Err(ParseError::UnknownPiece);
        }
        if body.len() != 64 {
            return Err(ParseError::PieceCount);
        }
        let mut pieces: [Piece; 64] = [Piece::Empty; 64];
        let mut iter = NotationIter::new();
        let mut k: usize = 0;
        loop
            invariant
                iter.wf(),
                k == iter.handed_out(),
                k <= 64,
                body@.len() == 64,
                forall|j: int| 0 <= j < 64 ==> is_cell(#[trigger] body@[j]),
                forall|j: int|
                    0 <= j < k ==> pieces@[reading_square(j)] == piece_of(#[trigger] body@[j]),
            ensures
                k == 64,
            decreases 64 - k,
        {
            let ghost filled = pieces@;
            match iter.next() {
                None => {
                    break ;
                },
                Some(sq) => {
                    proof {
                        lemma_reading_order(k as int);
                    }
                    let piece = match Piece::from_u8(piece_char_index(body[k])) {
                        Some(piece) => piece,
                        None => Piece::Empty,
                    };
                    pieces[sq] = piece;
                    proof {
                        assert forall|j: int| 0 <= j < k + 1 implies pieces@[reading_square(j)]
                            == piece_of(#[trigger] body@[j]) by {
                            lemma_reading_order(j);
                            if j < k {
                                assert(filled[reading_square(j)] == piece_of(body@[j]));
                            }
                        }
                    }
                    k = k + 1;
                },
            }
        }
        proof {
            let read = Seq::new(64, |sq: int| piece_of(body@[reading_square(sq)]));
            assert forall|sq: int| 0 <= sq < 64 implies read[sq] == pieces@[sq] by {
                lemma_reading_order(sq);
                let k = reading_square(sq);
                assert(pieces@[reading_square(k)] == piece_of(body@[k]));
            }
            assert(read =~= pieces@);
        }
        Ok(Position::from_pieces(side, 4, pieces))
    }
}

} // verus!
