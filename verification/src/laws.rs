//! What holds of every position that the library builds, and of every
//! step that it generates or carries out.

use crate::apply::step_outcome;
use crate::board::adjacent;
use crate::board::has_bit;
use crate::board::is_trap;
use crate::piece::EndState;
use crate::piece::Piece;
use crate::piece::Side;
use crate::position::is_partition;
use crate::position::lemma_masks_partition;
use crate::position::Position;
use crate::rules::after_traps;
use crate::rules::board_after;
use crate::rules::doomed;
use crate::rules::first_doomed_trap;
use crate::rules::fits;
use crate::rules::has_friend;
use crate::rules::same_side;
use crate::rules::slid;
use crate::step::Step;
use crate::zobrist::board_hash;
use crate::zobrist::color_word;
use crate::zobrist::lemma_side_word_matters;
use crate::zobrist::lemma_xor_algebra;
use crate::zobrist::position_hash;
use crate::zobrist::side_word;
use vstd::prelude::*;

verus! {

/// The thirteen masks of a position split the board among them: their
/// XOR is the full mask, and the AND of any two of them is zero.
pub proof fn lemma_boards_partition(pos: Position)
    requires
        pos.board_ok(),
    ensures
        is_partition(pos.bitboards@),
{
    lemma_masks_partition(pos.bitboards@, pos.placement@, pos.pieces@);
}

/// The piece that `pieces` names for a square is the one mask, of the
/// thirteen, that holds the square.
pub proof fn lemma_pieces_name_the_board(pos: Position, sq: int)
    requires
        pos.board_ok(),
        0 <= sq < 64,
    ensures
        has_bit(pos.bitboards@[pos.pieces@[sq].index_spec()], sq),
        forall|k: int|
            0 <= k < 13 && has_bit(pos.bitboards@[k], sq) ==> k == pos.pieces@[sq].index_spec(),
{
}

/// After a step, the current hash is the hash of the board and the side
/// to move, computed from scratch.
pub proof fn lemma_hash_follows_board(before: Position, step: Step, after: Position, state: EndState)
    requires
        step_outcome(before, step, after, state),
    ensures
        after.current_hash == position_hash(after.pieces@, after.side),
{
    let board = board_hash(after.pieces@, 64);
    lemma_xor_algebra(board, side_word(), side_word());
    lemma_xor_algebra(board, 0, 0);
}

/// Whether each position of `line` but the first is what `do_step` makes
/// of the one before it, by the step and with the outcome of the same
/// number.
pub open spec fn played(line: Seq<Position>, steps: Seq<Step>, states: Seq<EndState>) -> bool {
    &&& line.len() == steps.len() + 1
    &&& states.len() == steps.len()
    &&& forall|i: int|
        0 <= i < steps.len() ==> #[trigger] step_outcome(line[i], steps[i], line[i + 1], states[i])
}

/// However many steps are made, after each of them the current hash is
/// the hash of the board and the side to move, computed from scratch.
pub proof fn lemma_hash_along_a_game(line: Seq<Position>, steps: Seq<Step>, states: Seq<EndState>)
    requires
        played(line, steps, states),
    ensures
        forall|i: int|
            1 <= i < line.len() ==> (#[trigger] line[i]).current_hash == position_hash(
                line[i].pieces@,
                line[i].side,
            ),
{
    assert forall|i: int| 1 <= i < line.len() implies (#[trigger] line[i]).current_hash
        == position_hash(line[i].pieces@, line[i].side) by {
        let j = i - 1;
        assert(step_outcome(line[j], steps[j], line[j + 1], states[j]));
        lemma_hash_follows_board(line[j], steps[j], line[j + 1], states[j]);
    }
}

/// A step that a position offers is one that `do_step` takes.
pub proof fn lemma_legal_step_accepted(pos: Position, step: Step)
    requires
        pos.board_ok(),
        pos.steps_left >= 1,
        pos.legal(step),
    ensures
        pos.accepts(step),
{
}

/// A rabbit that its own side moves never goes back a row: a White
/// rabbit's row does not fall, a Black rabbit's row does not rise. A step
/// that leaves the row goes up the board for White and down for Black.
pub proof fn lemma_rabbits_never_retreat(pos: Position, piece: Piece, from: u8, to: u8)
    requires
        pos.board_ok(),
        pos.legal(Step::Move(piece, from, to)),
        piece.is_rabbit(),
        piece.belongs_to(pos.side),
    ensures
        pos.side == Side::White ==> to / 8 >= from / 8 && (to / 8 != from / 8 ==> to > from),
        pos.side == Side::Black ==> to / 8 <= from / 8 && (to / 8 != from / 8 ==> to < from),
{
}

/// No piece on a trap square is without a piece of its side next to it.
pub open spec fn traps_safe(pieces: Seq<Piece>) -> bool {
    forall|trap: int| is_trap(trap) ==> !#[trigger] doomed(pieces, trap)
}

/// A slide to a neighbouring square, on a board where no trap held a
/// lost piece, changes the source and the destination and at most one
/// trap square more. A trap square that was not the source is empty
/// afterwards if and only if it was empty once the piece had moved, or
/// held a piece with no friend next to it. No trap holds a lost piece
/// afterwards.
pub proof fn lemma_trap_discipline(pieces: Seq<Piece>, piece: Piece, source: u8, dest: u8)
    requires
        pieces.len() == 64,
        fits(pieces, Step::Move(piece, source, dest)),
        adjacent(source as int, dest as int),
        traps_safe(pieces),
    ensures
        forall|sq: int|
            0 <= sq < 64 && !is_trap(sq) && sq != source && sq != dest ==> board_after(
                pieces,
                Step::Move(piece, source, dest),
            )[sq] == pieces[sq],
        forall|trap: int|
            is_trap(trap) ==> (board_after(pieces, Step::Move(piece, source, dest))[trap]
                == Piece::Empty <==> slid(pieces, piece, source as int, dest as int)[trap]
                == Piece::Empty || doomed(
                slid(pieces, piece, source as int, dest as int),
                trap,
            )),
        board_after(pieces, Step::Push(piece, source, dest)) == board_after(
            pieces,
            Step::Move(piece, source, dest),
        ),
        traps_safe(board_after(pieces, Step::Move(piece, source, dest))),
{
    let s = source as int;
    let d = dest as int;
    let moved = slid(pieces, piece, s, d);
    let after = after_traps(moved);
    assert forall|trap: int| is_trap(trap) && doomed(moved, trap) implies trap == d || adjacent(
        trap,
        s,
    ) by {
        if trap != d {
            assert(moved[trap] == pieces[trap]);
            assert(!doomed(pieces, trap));
            let nb = choose|nb: int| #[trigger] adjacent(trap, nb) && same_side(pieces[nb], pieces[trap]);
            if nb != s {
                assert(moved[nb] == pieces[nb]);
                assert(adjacent(trap, nb) && same_side(moved[nb], moved[trap]));
            }
        }
    }
    assert forall|a: int, b: int| is_trap(a) && is_trap(b) && doomed(moved, a) && doomed(
        moved,
        b,
    ) implies a == b by {
        assert(a == d || adjacent(a, s));
        assert(b == d || adjacent(b, s));
    }
    assert forall|trap: int| is_trap(trap) implies (after[trap] == Piece::Empty <==> moved[trap]
        == Piece::Empty || doomed(moved, trap)) by {
        match first_doomed_trap(moved) {
            Some(lost) => {
                assert(is_trap(lost) && doomed(moved, lost));
            },
            None => {},
        }
    }
    assert forall|trap: int| is_trap(trap) implies !#[trigger] doomed(after, trap) by {
        match first_doomed_trap(moved) {
            Some(lost) => {
                assert(is_trap(lost) && doomed(moved, lost));
                if trap != lost && doomed(after, trap) {
                    assert(after[trap] == moved[trap]);
                    if has_friend(moved, trap) {
                        let nb = choose|nb: int| #[trigger] adjacent(trap, nb) && same_side(moved[nb], moved[trap]);
                        assert(nb != lost);
                        assert(after[nb] == moved[nb]);
                        assert(adjacent(trap, nb) && same_side(after[nb], after[trap]));
                    }
                    assert(doomed(moved, trap));
                }
            },
            None => {},
        }
    }
}

/// When a turn ends and the next begins, the hash with which the new
/// turn starts is the hash that the old turn reached with the word of the
/// side to move switched: the two differ, and they differ in what the
/// side to move adds to them.
pub proof fn lemma_turn_switches_side_word(before: Position, after: Position)
    requires
        before.wf(),
        after.next_turn_of(before),
    ensures
        after.initial_hash == before.current_hash ^ side_word(),
        after.initial_hash != before.current_hash,
        after.initial_hash == position_hash(after.pieces@, after.side),
        after.initial_hash ^ board_hash(after.pieces@, 64) == color_word(after.side),
        before.current_hash ^ board_hash(before.pieces@, 64) == color_word(before.side),
        color_word(after.side) != color_word(before.side),
{
    let board = board_hash(before.pieces@, 64);
    lemma_side_word_matters(before.pieces@);
    lemma_xor_algebra(board, side_word(), side_word());
    lemma_xor_algebra(board, 0, 0);
    lemma_xor_algebra(board, side_word(), board);
    lemma_xor_algebra(board, 0, board);
    lemma_xor_algebra(board ^ side_word(), board, 0);
    lemma_xor_cancel(board, side_word());
    lemma_xor_cancel(board, 0);
    lemma_xor_cancel(before.current_hash, side_word());
}

proof fn lemma_xor_cancel(a: u64, b: u64)
    ensures
        (a ^ b) ^ a == b,
        b != 0 ==> a ^ b != a,
{
    assert((a ^ b) ^ a == b && (b != 0 ==> a ^ b != a)) by (bit_vector);
}

} // verus!
