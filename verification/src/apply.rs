//! Carrying out a step: the board change, the trap that may follow it
//! and the end of the turn.

use crate::board::RANK_1;
use crate::board::RANK_8;
use crate::board::TRAP_INDICES;
use crate::board::TRAP_NEIGHBORS;
use crate::board::adjacent;
use crate::board::has_bit;
use crate::board::index_to_lsb;
use crate::board::lemma_and_bits;
use crate::board::lemma_nonzero_bits;
use crate::board::lemma_or_bits;
use crate::board::lemma_rank_bits;
use crate::board::lemma_single_bit;
use crate::board::lemma_trap_neighbors;
use crate::board::lemma_xor_bits;
use crate::board::single_bit;
use crate::board::trap_square;
use crate::piece::EndState;
use crate::piece::Piece;
use crate::piece::Side;
use crate::position::Position;
use crate::rules::board_after;
use crate::rules::doomed;
use crate::rules::first_doomed_trap;
use crate::rules::fits;
use crate::rules::has_rabbit;
use crate::rules::rabbit_on_row;
use crate::rules::same_side;
use crate::rules::slid;
use crate::rules::turn_verdict;
use crate::step::Step;
use crate::zobrist::board_hash;
use crate::zobrist::color_hash;
use crate::zobrist::lemma_hash_replace;
use crate::zobrist::lemma_hash_slide;
use crate::zobrist::lemma_xor_algebra;
use crate::zobrist::position_hash;
use crate::zobrist::side_word;
use crate::zobrist::update_hash;
use vstd::prelude::*;

verus! {

/// Everything but the board is the same in both positions.
pub open spec fn same_turn(a: Position, b: Position) -> bool {
    &&& a.side == b.side
    &&& a.steps_left == b.steps_left
    &&& a.last_step == b.last_step
    &&& a.initial_hash == b.initial_hash
    &&& a.current_hash == b.current_hash
    &&& a.opp_last == b.opp_last
    &&& a.my_last == b.my_last
}

/// The steps that use up one of the turn's four.
pub open spec fn is_slide(step: Step) -> bool {
    step is Move || step is Push
}

/// What `do_step` makes of a position: the board after the step, and
/// then either the same turn with one step used, or the end of the turn.
///
/// A slide or push that uses the turn's last step, and a pass, end the
/// turn. If the game is then decided nothing else changes; if it is not,
/// the next turn begins.
pub open spec fn step_outcome(before: Position, step: Step, after: Position, state: EndState) -> bool {
    let pieces = board_after(before.pieces@, step);
    let hash = position_hash(pieces, before.side);
    let ends = step is Pass || (is_slide(step) && before.steps_left == 1);
    let verdict = turn_verdict(pieces, before.side, hash, before.initial_hash, before.my_last);
    &&& after.pieces@ == pieces
    &&& state == if ends {
        verdict
    } else {
        EndState::Neither
    }
    &&& if ends && verdict == EndState::Neither {
        &&& after.side == before.side.other()
        &&& after.steps_left == 4
        &&& after.last_step is None
        &&& after.my_last == before.opp_last
        &&& after.opp_last == before.initial_hash
        &&& after.current_hash == hash ^ side_word()
        &&& after.initial_hash == after.current_hash
    } else {
        &&& after.side == before.side
        &&& after.steps_left == if is_slide(step) {
            before.steps_left - 1
        } else {
            before.steps_left as int
        }
        &&& after.last_step == if is_slide(step) && !ends {
            Some(step)
        } else {
            before.last_step
        }
        &&& after.current_hash == hash
        &&& after.initial_hash == before.initial_hash
        &&& after.opp_last == before.opp_last
        &&& after.my_last == before.my_last
    }
}

impl Position {
    /// Whether `do_step` takes `step` in this position: the step fits the
    /// board, and a slide or push has a step of the turn left to use.
    pub open spec fn accepts(&self, step: Step) -> bool {
        fits(self.pieces@, step) && (is_slide(step) ==> self.steps_left >= 1)
    }

    /// Whether `do_step` takes `step` in this position.
    pub fn takes(&self, step: Step) -> (taken: bool)
        ensures
            taken == self.accepts(step),
    {
        match step {
            Step::Move(p, source, dest) => self.steps_left >= 1 && source < 64 && dest < 64
                && p.index() != 0 && self.pieces[source as usize] == p
                && self.pieces[dest as usize].index() == 0,
            Step::Push(p, source, dest) => self.steps_left >= 1 && source < 64 && dest < 64
                && p.index() != 0 && self.pieces[source as usize] == p
                && self.pieces[dest as usize].index() == 0,
            Step::Place(p, sq) => sq < 64 && p.index() != 0 && self.pieces[sq as usize].index()
                == 0,
            Step::Remove(p, sq) => sq < 64 && p.index() != 0 && self.pieces[sq as usize] == p,
            Step::Pass => true,
        }
    }

    /// The position in which the next turn begins.
    pub open spec fn next_turn_of(&self, before: Position) -> bool {
        &&& self.side == before.side.other()
        &&& self.steps_left == 4
        &&& self.last_step is None
        &&& self.my_last == before.opp_last
        &&& self.opp_last == before.initial_hash
        &&& self.current_hash == before.current_hash ^ side_word()
        &&& self.initial_hash == self.current_hash
        &&& self.pieces@ == before.pieces@
        &&& self.bitboards@ == before.bitboards@
        &&& self.placement@ == before.placement@
    }

    /// XORs `change` into the three masks that know of `piece`: the mask of
    /// its kind, the mask of its side and the mask of the empty squares.
    fn toggle(&mut self, piece: Piece, change: u64)
        requires
            piece != Piece::Empty,
        ensures
            same_turn(*old(self), *final(self)),
            final(self).pieces@ == old(self).pieces@,
            final(self).bitboards@ == old(self).bitboards@.update(
                piece.index_spec(),
                old(self).bitboards@[piece.index_spec()] ^ change,
            ).update(0, old(self).bitboards@[0] ^ change),
            piece.is_white() ==> final(self).placement@ == old(self).placement@.update(
                0,
                old(self).placement@[0] ^ change,
            ),
            piece.is_black() ==> final(self).placement@ == old(self).placement@.update(
                1,
                old(self).placement@[1] ^ change,
            ),
    {
        let kind: usize = piece.index();
        self.bitboards[kind] = self.bitboards[kind] ^ change;
        if kind <= 6 {
            self.placement[0] = self.placement[0] ^ change;
        } else {
            self.placement[1] = self.placement[1] ^ change;
        }
        self.bitboards[0] = self.bitboards[0] ^ change;
    }

    /// Takes `piece` from `source` and sets it on `dest`.
    fn relocate(&mut self, piece: Piece, source: u8, dest: u8)
        requires
            old(self).board_ok(),
            fits(old(self).pieces@, Step::Move(piece, source, dest)),
        ensures
            final(self).board_ok(),
            same_turn(*old(self), *final(self)),
            final(self).pieces@ == slid(old(self).pieces@, piece, source as int, dest as int),
    {
        self.pieces[source as usize] = Piece::Empty;
        self.pieces[dest as usize] = piece;
        let change: u64 = index_to_lsb(source) | index_to_lsb(dest);
        proof {
            lemma_single_bit(source as int);
            lemma_single_bit(dest as int);
            lemma_or_bits(single_bit(source as int), single_bit(dest as int));
            lemma_xor_bits(old(self).bitboards@[piece.index_spec()], change);
            lemma_xor_bits(old(self).bitboards@[0], change);
            lemma_xor_bits(old(self).placement@[0], change);
            lemma_xor_bits(old(self).placement@[1], change);
        }
        self.toggle(piece, change);
    }

    /// Sets `piece` on the empty square `sq`.
    fn put(&mut self, piece: Piece, sq: u8)
        requires
            old(self).board_ok(),
            fits(old(self).pieces@, Step::Place(piece, sq)),
        ensures
            final(self).board_ok(),
            same_turn(*old(self), *final(self)),
            final(self).pieces@ == old(self).pieces@.update(sq as int, piece),
    {
        self.pieces[sq as usize] = piece;
        let change: u64 = index_to_lsb(sq);
        proof {
            lemma_single_bit(sq as int);
            lemma_xor_bits(old(self).bitboards@[piece.index_spec()], change);
            lemma_xor_bits(old(self).bitboards@[0], change);
            lemma_xor_bits(old(self).placement@[0], change);
            lemma_xor_bits(old(self).placement@[1], change);
        }
        self.toggle(piece, change);
    }

    /// Takes `piece` from the square `sq`.
    fn take(&mut self, piece: Piece, sq: u8)
        requires
            old(self).board_ok(),
            fits(old(self).pieces@, Step::Remove(piece, sq)),
        ensures
            final(self).board_ok(),
            same_turn(*old(self), *final(self)),
            final(self).pieces@ == old(self).pieces@.update(sq as int, Piece::Empty),
    {
        self.pieces[sq as usize] = Piece::Empty;
        let change: u64 = index_to_lsb(sq);
        proof {
            lemma_single_bit(sq as int);
            lemma_xor_bits(old(self).bitboards@[piece.index_spec()], change);
            lemma_xor_bits(old(self).bitboards@[0], change);
            lemma_xor_bits(old(self).placement@[0], change);
            lemma_xor_bits(old(self).placement@[1], change);
        }
        self.toggle(piece, change);
    }

    /// The first trap that holds a piece with no piece of its side next to it.
    fn doomed_trap(&self) -> (found: Option<usize>)
        requires
            self.board_ok(),
        ensures
            match found {
                Some(trap) => first_doomed_trap(self.pieces@) == Some(trap as int),
                None => first_doomed_trap(self.pieces@) is None,
            },
    {
        let mut index: usize = 0;
        while index < 4
            invariant
                index <= 4,
                self.board_ok(),
                forall|i: int| 0 <= i < index ==> !doomed(self.pieces@, trap_square(i)),
            decreases 4 - index,
        {
            let trap: usize = TRAP_INDICES[index];
            proof {
                lemma_trap_neighbors(index as int);
            }
            let kind: usize = self.pieces[trap].index();
            if kind != 0 {
                let friends: u64 = if kind <= 6 {
                    self.placement[0] & TRAP_NEIGHBORS[index]
                } else {
                    self.placement[1] & TRAP_NEIGHBORS[index]
                };
                proof {
                    lemma_and_bits(self.placement@[0], TRAP_NEIGHBORS[index as int]);
                    lemma_and_bits(self.placement@[1], TRAP_NEIGHBORS[index as int]);
                    lemma_nonzero_bits(friends);
                    if friends != 0 {
                        let nb = choose|nb: int| has_bit(friends, nb);
                        assert(adjacent(trap as int, nb));
                        assert(same_side(self.pieces@[nb], self.pieces@[trap as int]));
                    } else {
                        assert forall|nb: int| #[trigger] adjacent(trap as int, nb) implies !same_side(
                            self.pieces@[nb],
                            self.pieces@[trap as int],
                        ) by {
                            assert(!has_bit(friends, nb));
                        }
                    }
                }
                if friends == 0 {
                    assert(trap_square(0) == 18 && trap_square(1) == 21 && trap_square(2) == 42);
                    return Some(trap);
                }
            }
            index = index + 1;
        }
        assert(trap_square(0) == 18 && trap_square(1) == 21 && trap_square(2) == 42
            && trap_square(3) == 45);
        None
    }

    /// Ends the turn: decides whether the game is over, and if it is not,
    /// hands the move to the other side.
    pub fn end_turn(&mut self) -> (state: EndState)
        requires
            old(self).wf(),
        ensures
            final(self).wf(),
            state == turn_verdict(
                old(self).pieces@,
                old(self).side,
                old(self).current_hash,
                old(self).initial_hash,
                old(self).my_last,
            ),
            state != EndState::Neither ==> *final(self) == *old(self),
            state == EndState::Neither ==> final(self).next_turn_of(*old(self)),
    {
        let white_rabbits: u64 = self.bitboards[1];
        let black_rabbits: u64 = self.bitboards[7];
        proof {
            lemma_rank_bits();
            lemma_and_bits(white_rabbits, RANK_8);
            lemma_and_bits(black_rabbits, RANK_1);
            lemma_nonzero_bits(white_rabbits & RANK_8);
            lemma_nonzero_bits(black_rabbits & RANK_1);
            lemma_nonzero_bits(white_rabbits);
            lemma_nonzero_bits(black_rabbits);
            let pieces = self.pieces@;
            if white_rabbits & RANK_8 != 0 {
                let sq = choose|sq: int| has_bit(white_rabbits & RANK_8, sq);
                assert(pieces[sq] == Piece::WRabbit);
            }
            if black_rabbits & RANK_1 != 0 {
                let sq = choose|sq: int| has_bit(black_rabbits & RANK_1, sq);
                assert(pieces[sq] == Piece::BRabbit);
            }
            if white_rabbits != 0 {
                let sq = choose|sq: int| has_bit(white_rabbits, sq);
                assert(pieces[sq] == Piece::WRabbit);
            }
            if black_rabbits != 0 {
                let sq = choose|sq: int| has_bit(black_rabbits, sq);
                assert(pieces[sq] == Piece::BRabbit);
            }
            if rabbit_on_row(pieces, Side::White, 7) {
                let sq = choose|sq: int| 56 <= sq < 64 && #[trigger] pieces[sq] == Piece::WRabbit;
                assert(has_bit(white_rabbits, sq));
                assert(has_bit(white_rabbits & RANK_8, sq));
            }
            if rabbit_on_row(pieces, Side::Black, 0) {
                let sq = choose|sq: int| 0 <= sq < 8 && #[trigger] pieces[sq] == Piece::BRabbit;
                assert(has_bit(black_rabbits, sq));
                assert(has_bit(black_rabbits & RANK_1, sq));
            }
            if has_rabbit(pieces, Side::White) {
                let sq = choose|sq: int| 0 <= sq < 64 && #[trigger] pieces[sq] == Piece::WRabbit;
                assert(has_bit(white_rabbits, sq));
            }
            if has_rabbit(pieces, Side::Black) {
                let sq = choose|sq: int| 0 <= sq < 64 && #[trigger] pieces[sq] == Piece::BRabbit;
                assert(has_bit(black_rabbits, sq));
            }
        }
        let white_goal: bool = white_rabbits & RANK_8 != 0;
        let black_goal: bool = black_rabbits & RANK_1 != 0;
        match self.side {
            Side::White => {
                if white_goal {
                    return EndState::WhiteWin;
                } else if black_goal {
                    return EndState::BlackWin;
                } else if black_rabbits == 0 {
                    return EndState::WhiteWin;
                } else if white_rabbits == 0 {
                    return EndState::BlackWin;
                }
            },
            Side::Black => {
                if black_goal {
                    return EndState::BlackWin;
                } else if white_goal {
                    return EndState::WhiteWin;
                } else if white_rabbits == 0 {
                    return EndState::BlackWin;
                } else if black_rabbits == 0 {
                    return EndState::WhiteWin;
                }
            },
        }
        if self.current_hash == self.initial_hash || self.current_hash == self.my_last {
            return EndState::from(self.side.opposite());
        }
        proof {
            lemma_xor_algebra(
                board_hash(self.pieces@, 64),
                side_word(),
                side_word(),
            );
            lemma_xor_algebra(board_hash(self.pieces@, 64), 0, 0);
        }
        self.steps_left = 4;
        self.my_last = self.opp_last;
        self.opp_last = self.initial_hash;
        self.side = self.side.opposite();
        self.current_hash = self.current_hash ^ color_hash(Side::Black);
        self.initial_hash = self.current_hash;
        self.last_step = None;
        EndState::Neither
    }

    /// A slide or a push: the piece moves, a piece left alone on a trap is
    /// taken off, and the turn ends with its last step.
    fn slide(&mut self, step: Step, piece: Piece, source: u8, dest: u8) -> (state: EndState)
        requires
            old(self).wf(),
            old(self).accepts(step),
            step == Step::Move(piece, source, dest) || step == Step::Push(piece, source, dest),
        ensures
            final(self).wf(),
            step_outcome(*old(self), step, *final(self), state),
    {
        proof {
            lemma_hash_slide(self.pieces@, self.side, piece, source as int, dest as int);
        }
        self.steps_left = self.steps_left - 1;
        self.relocate(piece, source, dest);
        self.current_hash = update_hash(self.current_hash, step);
        match self.doomed_trap() {
            Some(trap) => {
                let lost = self.pieces[trap];
                let gone = Step::Remove(lost, trap as u8);
                proof {
                    lemma_hash_replace(self.pieces@, self.side, trap as int, Piece::Empty);
                }
                self.take(lost, trap as u8);
                self.current_hash = update_hash(self.current_hash, gone);
            },
            None => {},
        }
        if self.steps_left == 0 {
            self.end_turn()
        } else {
            self.last_step = Some(step);
            EndState::Neither
        }
    }

    /// Carries out `step` and says whether the game is over.
    pub fn do_step(&mut self, step: Step) -> (state: EndState)
        requires
            old(self).wf(),
            old(self).accepts(step),
        ensures
            final(self).wf(),
            step_outcome(*old(self), step, *final(self), state),
    {
        match step {
            Step::Move(piece, source, dest) => self.slide(step, piece, source, dest),
            Step::Push(piece, source, dest) => self.slide(step, piece, source, dest),
            Step::Place(piece, sq) => {
                proof {
                    lemma_hash_replace(self.pieces@, self.side, sq as int, piece);
                }
                self.put(piece, sq);
                self.current_hash = update_hash(self.current_hash, step);
                EndState::Neither
            },
            Step::Remove(piece, sq) => {
                proof {
                    lemma_hash_replace(self.pieces@, self.side, sq as int, Piece::Empty);
                }
                self.take(piece, sq);
                self.current_hash = update_hash(self.current_hash, step);
                EndState::Neither
            },
            Step::Pass => self.end_turn(),
        }
    }
}

} // verus!
