//! The rules of the game over the plainest model of a board: a sequence
//! of 64 pieces, indexed by square.

use crate::board::adjacent;
use crate::board::rabbit_step;
use crate::piece::EndState;
use crate::piece::Piece;
use crate::piece::Side;
use crate::step::Step;
use vstd::prelude::*;

verus! {

/// Whether both pieces belong to one side.
pub open spec fn same_side(a: Piece, b: Piece) -> bool {
    (a.is_white() && b.is_white()) || (a.is_black() && b.is_black())
}

/// Whether the pieces belong to different sides.
pub open spec fn opposed(a: Piece, b: Piece) -> bool {
    (a.is_white() && b.is_black()) || (a.is_black() && b.is_white())
}

/// Whether a piece of the same side stands next to the piece on `sq`.
pub open spec fn has_friend(pieces: Seq<Piece>, sq: int) -> bool {
    exists|nb: int| #[trigger] adjacent(sq, nb) && same_side(pieces[nb], pieces[sq])
}

/// Whether a stronger piece of the other side stands next to the piece on `sq`.
pub open spec fn has_stronger_enemy(pieces: Seq<Piece>, sq: int) -> bool {
    exists|nb: int|
        #[trigger] adjacent(sq, nb) && opposed(pieces[nb], pieces[sq])
            && pieces[nb].strength_spec() > pieces[sq].strength_spec()
}

/// A piece is frozen when a stronger opposing piece stands next to it and
/// no piece of its own side does.
pub open spec fn frozen(pieces: Seq<Piece>, sq: int) -> bool {
    0 <= sq < 64 && pieces[sq] != Piece::Empty && has_stronger_enemy(pieces, sq) && !has_friend(
        pieces,
        sq,
    )
}

/// A piece on a trap square is lost when none of its own side stands next to it.
pub open spec fn doomed(pieces: Seq<Piece>, trap: int) -> bool {
    pieces[trap] != Piece::Empty && !has_friend(pieces, trap)
}

/// The first trap, in the order c3, f3, c6, f6, that holds a lost piece.
pub open spec fn first_doomed_trap(pieces: Seq<Piece>) -> Option<int> {
    if doomed(pieces, 18) {
        Some(18)
    } else if doomed(pieces, 21) {
        Some(21)
    } else if doomed(pieces, 42) {
        Some(42)
    } else if doomed(pieces, 45) {
        Some(45)
    } else {
        None
    }
}

/// The board once the first lost piece, if there is one, has left its trap.
pub open spec fn after_traps(pieces: Seq<Piece>) -> Seq<Piece> {
    match first_doomed_trap(pieces) {
        Some(trap) => pieces.update(trap, Piece::Empty),
        None => pieces,
    }
}

/// The board with `piece` taken from `source` and set on `dest`.
pub open spec fn slid(pieces: Seq<Piece>, piece: Piece, source: int, dest: int) -> Seq<Piece> {
    pieces.update(source, Piece::Empty).update(dest, piece)
}

/// The board after `step`.
pub open spec fn board_after(pieces: Seq<Piece>, step: Step) -> Seq<Piece> {
    match step {
        Step::Move(p, source, dest) => after_traps(slid(pieces, p, source as int, dest as int)),
        Step::Push(p, source, dest) => after_traps(slid(pieces, p, source as int, dest as int)),
        Step::Place(p, sq) => pieces.update(sq as int, p),
        Step::Remove(_, sq) => pieces.update(sq as int, Piece::Empty),
        Step::Pass => pieces,
    }
}

/// Whether `step` can be carried out on the board: the piece it names
/// stands where the step takes it from, and the square it goes to is empty.
pub open spec fn fits(pieces: Seq<Piece>, step: Step) -> bool {
    match step {
        Step::Move(p, source, dest) => source < 64 && dest < 64 && p != Piece::Empty
            && pieces[source as int] == p && pieces[dest as int] == Piece::Empty,
        Step::Push(p, source, dest) => source < 64 && dest < 64 && p != Piece::Empty
            && pieces[source as int] == p && pieces[dest as int] == Piece::Empty,
        Step::Place(p, sq) => sq < 64 && p != Piece::Empty && pieces[sq as int] == Piece::Empty,
        Step::Remove(p, sq) => sq < 64 && p != Piece::Empty && pieces[sq as int] == p,
        Step::Pass => true,
    }
}

/// The rabbit of `side`.
pub open spec fn rabbit_of(side: Side) -> Piece {
    match side {
        Side::White => Piece::WRabbit,
        Side::Black => Piece::BRabbit,
    }
}

/// The row (0 to 7) that a rabbit of `side` has to reach.
pub open spec fn goal_row(side: Side) -> int {
    match side {
        Side::White => 7,
        Side::Black => 0,
    }
}

/// Whether a rabbit of `side` stands on row `row`, counted from 0.
pub open spec fn rabbit_on_row(pieces: Seq<Piece>, side: Side, row: int) -> bool {
    exists|sq: int| 8 * row <= sq < 8 * row + 8 && #[trigger] pieces[sq] == rabbit_of(side)
}

/// Whether `side` has a rabbit left.
pub open spec fn has_rabbit(pieces: Seq<Piece>, side: Side) -> bool {
    exists|sq: int| 0 <= sq < 64 && #[trigger] pieces[sq] == rabbit_of(side)
}

/// Who has won by goal or by elimination when `mover` ends a turn: a
/// rabbit of the mover on its goal row counts first, then one of the
/// opponent on the opponent's goal row, then an opponent without rabbits,
/// then a mover without rabbits.
pub open spec fn goal_verdict(pieces: Seq<Piece>, mover: Side) -> EndState {
    let opponent = mover.other();
    if rabbit_on_row(pieces, mover, goal_row(mover)) {
        EndState::win_for(mover)
    } else if rabbit_on_row(pieces, opponent, goal_row(opponent)) {
        EndState::win_for(opponent)
    } else if !has_rabbit(pieces, opponent) {
        EndState::win_for(mover)
    } else if !has_rabbit(pieces, mover) {
        EndState::win_for(opponent)
    } else {
        EndState::Neither
    }
}

/// The outcome of ending a turn. After goal and elimination, a turn that
/// left the position as it found it, or that restored the position in
/// which the mover's previous turn began, is lost by the mover.
pub open spec fn turn_verdict(
    pieces: Seq<Piece>,
    mover: Side,
    current_hash: u64,
    initial_hash: u64,
    my_last: u64,
) -> EndState {
    let goal = goal_verdict(pieces, mover);
    if goal != EndState::Neither {
        goal
    } else if current_hash == initial_hash || current_hash == my_last {
        EndState::win_for(mover.other())
    } else {
        EndState::Neither
    }
}

/// The slide that completes a push: a piece of `side` that is stronger
/// than the `pushed` piece steps from a square next to the `vacated`
/// square onto it.
pub open spec fn is_follow_up(
    pieces: Seq<Piece>,
    side: Side,
    pushed: Piece,
    vacated: int,
    step: Step,
) -> bool {
    match step {
        Step::Move(piece, from, to) => {
            &&& to == vacated
            &&& adjacent(from as int, vacated)
            &&& pieces[vacated] == Piece::Empty
            &&& pieces[from as int] == piece
            &&& piece.belongs_to(side)
            &&& piece.strength_spec() > pushed.strength_spec()
        },
        _ => false,
    }
}

/// Whether the latest step opens a pull: a piece of `side` that is no
/// rabbit has slid from a square that is still empty to a square on which
/// it still stands.
pub open spec fn opens_pull(pieces: Seq<Piece>, side: Side, last_step: Option<Step>) -> bool {
    match last_step {
        Some(Step::Move(puller, source, dest)) => {
            &&& source < 64
            &&& dest < 64
            &&& puller.belongs_to(side)
            &&& puller.strength_spec() > 1
            &&& pieces[dest as int] == puller
            &&& pieces[source as int] == Piece::Empty
        },
        _ => false,
    }
}

/// A pull: after a slide that opens one, a weaker opposing piece next to
/// the square that the puller left steps onto it.
pub open spec fn is_pull(pieces: Seq<Piece>, side: Side, last_step: Option<Step>, step: Step) -> bool {
    match (last_step, step) {
        (Some(Step::Move(puller, source, _)), Step::Move(piece, from, to)) => {
            &&& opens_pull(pieces, side, last_step)
            &&& to == source
            &&& adjacent(from as int, source as int)
            &&& pieces[from as int] == piece
            &&& piece.belongs_to(side.other())
            &&& piece.strength_spec() < puller.strength_spec()
        },
        _ => false,
    }
}

/// A slide of the mover's own accord: a piece of `side` that is not
/// frozen steps onto an empty square next to it, a rabbit never backwards.
pub open spec fn is_free_slide(pieces: Seq<Piece>, side: Side, step: Step) -> bool {
    match step {
        Step::Move(piece, from, to) => {
            &&& pieces[from as int] == piece
            &&& piece.belongs_to(side)
            &&& !frozen(pieces, from as int)
            &&& pieces[to as int] == Piece::Empty
            &&& if piece.is_rabbit() {
                rabbit_step(side, from as int, to as int)
            } else {
                adjacent(from as int, to as int)
            }
        },
        _ => false,
    }
}

/// Whether a piece of `side` that is not frozen and is stronger than the
/// piece on `sq` stands next to `sq`.
pub open spec fn has_pusher(pieces: Seq<Piece>, side: Side, sq: int) -> bool {
    exists|nb: int|
        #[trigger] adjacent(sq, nb) && pieces[nb].belongs_to(side) && pieces[nb].strength_spec()
            > pieces[sq].strength_spec() && !frozen(pieces, nb)
}

/// The first half of a push: a piece of the other side, with a pusher
/// next to it, is moved onto an empty square next to it.
pub open spec fn is_push(pieces: Seq<Piece>, side: Side, step: Step) -> bool {
    match step {
        Step::Push(piece, from, to) => {
            &&& pieces[from as int] == piece
            &&& piece.belongs_to(side.other())
            &&& adjacent(from as int, to as int)
            &&& pieces[to as int] == Piece::Empty
            &&& has_pusher(pieces, side, from as int)
        },
        _ => false,
    }
}

/// The steps that may come next. While a push is pending only its
/// completion may. Else: a pull where the latest step opened one, the
/// mover's own slides, pushes while two steps are left, and a pass once
/// the turn has begun.
pub open spec fn legal_step(
    pieces: Seq<Piece>,
    side: Side,
    steps_left: u8,
    last_step: Option<Step>,
    step: Step,
) -> bool {
    match last_step {
        Some(Step::Push(pushed, vacated, _)) => is_follow_up(
            pieces,
            side,
            pushed,
            vacated as int,
            step,
        ),
        _ => {
            ||| is_pull(pieces, side, last_step, step)
            ||| is_free_slide(pieces, side, step)
            ||| (steps_left >= 2 && is_push(pieces, side, step))
            ||| (step is Pass && steps_left != 4)
        },
    }
}

} // verus!
