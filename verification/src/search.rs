//! A game as a search sees it: a position, whether it is decided, the
//! steps that may come next and the step that was chosen.

use crate::apply::step_outcome;
use crate::piece::EndState;
use crate::piece::Side;
use crate::position::Position;
use crate::step::Step;
use vstd::prelude::*;

verus! {

/// A position together with the outcome of the latest step.
pub struct ArimaaGame {
    pub pos: Position,
    pub end_state: EndState,
}

impl Clone for ArimaaGame {
    fn clone(&self) -> (copy: ArimaaGame)
        ensures
            copy == *self,
    {
        ArimaaGame { pos: self.pos.clone(), end_state: self.end_state }
    }
}

/// What a decided game is worth to White.
pub open spec fn value_of(state: EndState) -> int {
    match state {
        EndState::WhiteWin => 1,
        EndState::BlackWin => -1,
        EndState::Neither => 0,
    }
}

impl ArimaaGame {
    /// The position is sound, and while the game is open a step is left.
    pub open spec fn wf(&self) -> bool {
        self.pos.wf() && (self.end_state == EndState::Neither ==> self.pos.steps_left >= 1)
    }

    pub fn new(pos: Position) -> (game: ArimaaGame)
        ensures
            game.pos == pos,
            game.end_state == EndState::Neither,
    {
        ArimaaGame { pos, end_state: EndState::Neither }
    }

    /// The side whose choice comes next. While the pieces are set up,
    /// during the first sixteen plies, that is White; then it is the side
    /// to move.
    pub fn current_player(&self, plies: u32) -> (player: Side)
        ensures
            player == if plies < 16 {
                Side::White
            } else {
                self.pos.side
            },
    {
        if plies < 8 {
            Side::White
        } else if plies < 16 {
            Side::White
        } else {
            self.pos.side
        }
    }

    /// The steps that may come next: none once the game is decided.
    pub fn available_moves(&self) -> (moves: Vec<Step>)
        requires
            self.wf(),
        ensures
            forall|s: Step|
                #![trigger moves@.contains(s)]
                moves@.contains(s) <==> self.end_state == EndState::Neither && self.pos.legal(s),
            moves@.no_duplicates(),
    {
        match self.end_state {
            EndState::Neither => self.pos.gen_steps(),
            _ => Vec::new(),
        }
    }

    /// Carries out a step that `available_moves` offers, and remembers
    /// whether it decided the game.
    pub fn make_move(&mut self, mov: &Step)
        requires
            old(self).wf(),
            old(self).end_state == EndState::Neither,
            old(self).pos.legal(*mov),
        ensures
            final(self).wf(),
            step_outcome(old(self).pos, *mov, final(self).pos, final(self).end_state),
    {
        let res = self.pos.do_step(*mov);
        self.end_state = res;
    }

    /// The key under which a search files the position.
    pub fn hash(&self) -> (key: u64)
        ensures
            key == self.pos.current_hash,
    {
        self.pos.current_hash
    }

    /// What the game is worth to White: 1 if White has won, -1 if Black
    /// has, 0 while it is open.
    pub fn evaluate(&self) -> (value: i64)
        ensures
            value == value_of(self.end_state),
    {
        match self.end_state {
            EndState::WhiteWin => 1,
            EndState::BlackWin => -1,
            EndState::Neither => 0,
        }
    }
}

/// What a value for White is worth to `player`: the same to White, the
/// opposite to Black.
pub fn interpret_evaluation_for_player(evaln: i64, player: Side) -> (value: i64)
    requires
        evaln > i64::MIN,
    ensures
        value == match player {
            Side::White => evaln as int,
            Side::Black => -evaln,
        },
{
    match player {
        Side::White => evaln,
        Side::Black => -evaln,
    }
}

} // verus!
