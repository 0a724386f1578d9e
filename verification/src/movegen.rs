//! Step generation: every step that may come next in a position.

use crate::board::Bitboard;
use crate::board::PieceIter;
use crate::board::adjacent;
use crate::board::has_bit;
use crate::board::index_to_lsb;
use crate::board::lemma_adjacent_symmetric;
use crate::board::lemma_and_bits;
use crate::board::lemma_around_single;
use crate::board::lemma_lowest_bit;
use crate::board::lemma_neighbors_bits;
use crate::board::lemma_not_bits;
use crate::board::lemma_or_bits;
use crate::board::lemma_xor_bits;
use crate::board::lemma_zero_bits;
use crate::board::neighbors_of;
use crate::board::rabbit_step;
use crate::board::rabbit_steps;
use crate::board::touches;
use crate::piece::Piece;
use crate::piece::Side;
use crate::position::Position;
use crate::rules::frozen;
use crate::rules::has_friend;
use crate::rules::has_pusher;
use crate::rules::has_stronger_enemy;
use crate::rules::is_free_slide;
use crate::rules::is_pull;
use crate::rules::is_push;
use crate::rules::legal_step;
use crate::rules::opposed;
use crate::rules::same_side;
use crate::step::Step;
use vstd::prelude::*;

verus! {

/// A list with one more step holds what it held, and that step.
proof fn lemma_push_contains(steps: Seq<Step>, added: Step)
    ensures
        forall|s: Step| #[trigger] steps.push(added).contains(s) <==> steps.contains(s) || s == added,
        steps.no_duplicates() && !steps.contains(added) ==> steps.push(added).no_duplicates(),
{
    if steps.no_duplicates() && !steps.contains(added) {
        let longer = steps.push(added);
        assert forall|i: int, j: int| 0 <= i < longer.len() && 0 <= j < longer.len() && i
            != j implies longer[i] != longer[j] by {
            if i < steps.len() {
                assert(steps.contains(steps[i]));
            }
            if j < steps.len() {
                assert(steps.contains(steps[j]));
            }
        }
    }
    assert forall|s: Step| #[trigger]
        steps.push(added).contains(s) <==> steps.contains(s) || s == added by {
        if steps.contains(s) {
            let i = choose|i: int| 0 <= i < steps.len() && steps[i] == s;
            assert(steps.push(added)[i] == s);
        }
        if s == added {
            assert(steps.push(added)[steps.len() as int] == s);
        }
    }
}

/// Whether `step` takes `piece` from `from` to a square of `targets`, as a
/// push or as a slide.
pub open spec fn goes_to(step: Step, piece: Piece, from: u8, targets: u64, push: bool) -> bool {
    match step {
        Step::Move(p, source, dest) => !push && p == piece && source == from && has_bit(
            targets,
            dest as int,
        ),
        Step::Push(p, source, dest) => push && p == piece && source == from && has_bit(
            targets,
            dest as int,
        ),
        _ => false,
    }
}

/// Adds the step of `piece` from `from` to each square of `targets`.
fn emit_targets(moves: &mut Vec<Step>, piece: Piece, from: u8, targets: u64, push: bool)
    requires
        old(moves)@.no_duplicates(),
        forall|s: Step|
            goes_to(s, piece, from, targets, push) ==> !(#[trigger] old(moves)@.contains(s)),
    ensures
        final(moves)@.no_duplicates(),
        forall|s: Step|
            #![trigger final(moves)@.contains(s)]
            final(moves)@.contains(s) <==> old(moves)@.contains(s) || goes_to(
                s,
                piece,
                from,
                targets,
                push,
            ),
{
    let ghost start = moves@;
    let mut iter = PieceIter::new(targets);
    proof {
        lemma_xor_bits(targets, targets);
    }
    loop
        invariant
            moves@.no_duplicates(),
            forall|s: Step|
                goes_to(s, piece, from, targets, push) ==> !(#[trigger] start.contains(s)),
            forall|sq: int| #[trigger] has_bit(iter.remaining(), sq) ==> has_bit(targets, sq),
            forall|s: Step|
                #![trigger moves@.contains(s)]
                moves@.contains(s) <==> start.contains(s) || goes_to(
                    s,
                    piece,
                    from,
                    targets ^ iter.remaining(),
                    push,
                ),
        ensures
            iter.remaining() == 0,
        decreases iter.remaining(),
    {
        let ghost before = iter.remaining();
        let ghost listed = moves@;
        match iter.next() {
            None => {
                break ;
            },
            Some(lsb) => {
                proof {
                    lemma_lowest_bit(before);
                }
                let to: usize = lsb.bitscan_forward();
                let step = if push {
                    Step::Push(piece, from, to as u8)
                } else {
                    Step::Move(piece, from, to as u8)
                };
                moves.push(step);
                proof {
                    lemma_xor_bits(targets, before);
                    lemma_xor_bits(targets, iter.remaining());
                    assert(goes_to(step, piece, from, targets, push));
                    assert(!goes_to(step, piece, from, targets ^ before, push));
                    assert(!listed.contains(step));
                    lemma_push_contains(listed, step);
                    assert(moves@ == listed.push(step));
                    assert forall|sq: int|
                        has_bit(targets ^ iter.remaining(), sq) <==> has_bit(targets ^ before, sq)
                            || sq == to by {
                        assert(has_bit(iter.remaining(), sq) <==> has_bit(before, sq) && sq
                            != to);
                    }
                    assert forall|s: Step|
                        #![trigger moves@.contains(s)]
                        moves@.contains(s) <==> start.contains(s) || goes_to(
                            s,
                            piece,
                            from,
                            targets ^ iter.remaining(),
                            push,
                        ) by {
                        assert(listed.contains(s) <==> start.contains(s) || goes_to(
                            s,
                            piece,
                            from,
                            targets ^ before,
                            push,
                        ));
                    }
                }
            },
        }
    }
    proof {
        lemma_xor_algebra_zero(targets);
    }
}

/// XOR with zero changes nothing.
proof fn lemma_xor_algebra_zero(x: u64)
    ensures
        x ^ 0 == x,
{
    assert(x ^ 0 == x) by (bit_vector);
}

/// Whether `step` is the slide onto `dest` of the piece that stands on a
/// square of `sources`.
pub open spec fn comes_from(step: Step, pieces: Seq<Piece>, sources: u64, dest: u8) -> bool {
    match step {
        Step::Move(p, source, d) => d == dest && has_bit(sources, source as int)
            && pieces[source as int] == p,
        _ => false,
    }
}

/// Whether `step` takes the piece on a square of `sources` onto an empty
/// square: as a push onto a square next to it, or as a slide, which a
/// rabbit does not make backwards.
pub open spec fn leaves(step: Step, pieces: Seq<Piece>, side: Side, sources: u64, push: bool) -> bool {
    match step {
        Step::Move(p, from, to) => {
            &&& !push
            &&& has_bit(sources, from as int)
            &&& pieces[from as int] == p
            &&& to < 64
            &&& pieces[to as int] == Piece::Empty
            &&& if p.strength_spec() == 1 {
                rabbit_step(side, from as int, to as int)
            } else {
                adjacent(from as int, to as int)
            }
        },
        Step::Push(p, from, to) => {
            &&& push
            &&& has_bit(sources, from as int)
            &&& pieces[from as int] == p
            &&& to < 64
            &&& pieces[to as int] == Piece::Empty
            &&& adjacent(from as int, to as int)
        },
        _ => false,
    }
}

/// The strength of the piece that a push moves; 0 for any other step.
pub open spec fn pushed_strength(step: Step) -> int {
    match step {
        Step::Push(p, _, _) => p.strength_spec(),
        _ => 0,
    }
}

/// Whether `mask` holds the squares whose piece is stronger than `strength`.
pub open spec fn is_stronger_mask(mask: u64, pieces: Seq<Piece>, strength: int) -> bool {
    forall|sq: int|
        0 <= sq < 64 ==> (#[trigger] has_bit(mask, sq) <==> pieces[sq].strength_spec() > strength)
}

/// Whether `mask` holds the squares whose piece is frozen.
pub open spec fn is_frozen_mask(mask: u64, pieces: Seq<Piece>) -> bool {
    forall|sq: int| 0 <= sq < 64 ==> (#[trigger] has_bit(mask, sq) <==> frozen(pieces, sq))
}

/// A piece has a friend beside it exactly when its square touches its
/// side's mask.
proof fn lemma_touches_friend(pos: &Position, sq: int)
    requires
        pos.board_ok(),
        0 <= sq < 64,
    ensures
        pos.pieces@[sq].is_white() ==> (touches(pos.placement@[0], sq) <==> has_friend(
            pos.pieces@,
            sq,
        )),
        pos.pieces@[sq].is_black() ==> (touches(pos.placement@[1], sq) <==> has_friend(
            pos.pieces@,
            sq,
        )),
{
    let pieces = pos.pieces@;
    if pieces[sq].is_white() {
        if touches(pos.placement@[0], sq) {
            let nb = choose|nb: int| #[trigger] adjacent(sq, nb) && has_bit(pos.placement@[0], nb);
            assert(same_side(pieces[nb], pieces[sq]));
        }
        if has_friend(pieces, sq) {
            let nb = choose|nb: int| #[trigger] adjacent(sq, nb) && same_side(pieces[nb], pieces[sq]);
            assert(has_bit(pos.placement@[0], nb));
        }
    }
    if pieces[sq].is_black() {
        if touches(pos.placement@[1], sq) {
            let nb = choose|nb: int| #[trigger] adjacent(sq, nb) && has_bit(pos.placement@[1], nb);
            assert(same_side(pieces[nb], pieces[sq]));
        }
        if has_friend(pieces, sq) {
            let nb = choose|nb: int| #[trigger] adjacent(sq, nb) && same_side(pieces[nb], pieces[sq]);
            assert(has_bit(pos.placement@[1], nb));
        }
    }
}

/// A piece has a stronger enemy beside it exactly when its square touches
/// the mask of the other side's pieces that are stronger than it.
proof fn lemma_touches_enemy(pieces: Seq<Piece>, enemies: u64, sq: int)
    requires
        pieces.len() == 64,
        0 <= sq < 64,
        pieces[sq] != Piece::Empty,
        forall|nb: int|
            0 <= nb < 64 ==> (#[trigger] has_bit(enemies, nb) <==> opposed(pieces[nb], pieces[sq])
                && pieces[nb].strength_spec() > pieces[sq].strength_spec()),
    ensures
        touches(enemies, sq) <==> has_stronger_enemy(pieces, sq),
{
    if touches(enemies, sq) {
        let nb = choose|nb: int| #[trigger] adjacent(sq, nb) && has_bit(enemies, nb);
        assert(opposed(pieces[nb], pieces[sq]));
    }
    if has_stronger_enemy(pieces, sq) {
        let nb = choose|nb: int|
            #[trigger] adjacent(sq, nb) && opposed(pieces[nb], pieces[sq])
                && pieces[nb].strength_spec() > pieces[sq].strength_spec();
        assert(has_bit(enemies, nb));
    }
}

impl Position {
    /// Adds the slide onto `dest` of each piece on a square of `sources`.
    fn emit_sources(&self, moves: &mut Vec<Step>, sources: u64, dest: u8)
        requires
            old(moves)@.no_duplicates(),
            forall|s: Step|
                comes_from(s, self.pieces@, sources, dest) ==> !(#[trigger] old(moves)@.contains(s)),
        ensures
            final(moves)@.no_duplicates(),
            forall|s: Step|
                #![trigger final(moves)@.contains(s)]
                final(moves)@.contains(s) <==> old(moves)@.contains(s) || comes_from(
                    s,
                    self.pieces@,
                    sources,
                    dest,
                ),
    {
        let ghost start = moves@;
        let mut iter = PieceIter::new(sources);
        proof {
            lemma_xor_bits(sources, sources);
        }
        loop
            invariant
                moves@.no_duplicates(),
                forall|s: Step|
                    comes_from(s, self.pieces@, sources, dest) ==> !(#[trigger] start.contains(s)),
                forall|sq: int| #[trigger] has_bit(iter.remaining(), sq) ==> has_bit(sources, sq),
                forall|s: Step|
                    #![trigger moves@.contains(s)]
                    moves@.contains(s) <==> start.contains(s) || comes_from(
                        s,
                        self.pieces@,
                        sources ^ iter.remaining(),
                        dest,
                    ),
            ensures
                iter.remaining() == 0,
            decreases iter.remaining(),
        {
            let ghost before = iter.remaining();
            let ghost listed = moves@;
            match iter.next() {
                None => {
                    break ;
                },
                Some(lsb) => {
                    proof {
                        lemma_lowest_bit(before);
                    }
                    let from: usize = lsb.bitscan_forward();
                    let step = Step::Move(self.pieces[from], from as u8, dest);
                    moves.push(step);
                    proof {
                        lemma_xor_bits(sources, before);
                        lemma_xor_bits(sources, iter.remaining());
                        assert(comes_from(step, self.pieces@, sources, dest));
                        assert(!comes_from(step, self.pieces@, sources ^ before, dest));
                        assert(!listed.contains(step));
                        lemma_push_contains(listed, step);
                        assert(moves@ == listed.push(step));
                        assert forall|sq: int|
                            has_bit(sources ^ iter.remaining(), sq) <==> has_bit(
                                sources ^ before,
                                sq,
                            ) || sq == from by {
                            assert(has_bit(iter.remaining(), sq) <==> has_bit(before, sq) && sq
                                != from);
                        }
                        assert forall|s: Step|
                            #![trigger moves@.contains(s)]
                            moves@.contains(s) <==> start.contains(s) || comes_from(
                                s,
                                self.pieces@,
                                sources ^ iter.remaining(),
                                dest,
                            ) by {
                            assert(listed.contains(s) <==> start.contains(s) || comes_from(
                                s,
                                self.pieces@,
                                sources ^ before,
                                dest,
                            ));
                        }
                    }
                },
            }
        }
        proof {
            lemma_xor_algebra_zero(sources);
        }
    }

    /// The auxiliary masks of step generation: for each strength 1 to 6 the
    /// pieces of either side that are stronger, and the frozen pieces.
    pub fn strength_masks(&self) -> (masks: ([u64; 6], u64))
        requires
            self.board_ok(),
        ensures
            forall|k: int| 0 <= k < 6 ==> is_stronger_mask(#[trigger] masks.0@[k], self.pieces@, k + 1),
            is_frozen_mask(masks.1, self.pieces@),
    {
        let ghost pieces = self.pieces@;
        let wneighbors: u64 = neighbors_of(self.placement[0]);
        let bneighbors: u64 = neighbors_of(self.placement[1]);
        let mut wstronger: u64 = self.placement[0];
        let mut bstronger: u64 = self.placement[1];
        let mut frozen_mask: u64 = 0;
        let mut stronger: [u64; 6] = [0; 6];
        let mut pix: usize = 1;
        proof {
            lemma_zero_bits();
        }
        while pix < 7
            invariant
                1 <= pix <= 7,
                self.board_ok(),
                pieces == self.pieces@,
                wneighbors == neighbors_of(self.placement@[0]),
                bneighbors == neighbors_of(self.placement@[1]),
                forall|sq: int|
                    0 <= sq < 64 ==> (#[trigger] has_bit(wstronger, sq) <==> pieces[sq].is_white()
                        && pieces[sq].strength_spec() >= pix),
                forall|sq: int|
                    0 <= sq < 64 ==> (#[trigger] has_bit(bstronger, sq) <==> pieces[sq].is_black()
                        && pieces[sq].strength_spec() >= pix),
                forall|k: int|
                    0 <= k < pix - 1 ==> is_stronger_mask(#[trigger] stronger@[k], pieces, k + 1),
                forall|sq: int|
                    0 <= sq < 64 ==> (#[trigger] has_bit(frozen_mask, sq) <==> frozen(pieces, sq)
                        && pieces[sq].strength_spec() < pix),
            decreases 7 - pix,
        {
            let ghost old_w = wstronger;
            let ghost old_b = bstronger;
            let ghost old_frozen = frozen_mask;
            let ghost old_stronger = stronger@;
            wstronger = wstronger ^ self.bitboards[pix];
            bstronger = bstronger ^ self.bitboards[pix + 6];
            stronger[pix - 1] = wstronger | bstronger;
            let white_frozen: u64 = self.bitboards[pix] & neighbors_of(bstronger) & !wneighbors;
            let black_frozen: u64 = self.bitboards[pix + 6] & neighbors_of(wstronger)
                & !bneighbors;
            frozen_mask = frozen_mask | white_frozen | black_frozen;
            proof {
                lemma_xor_bits(old_w, self.bitboards@[pix as int]);
                lemma_xor_bits(old_b, self.bitboards@[pix + 6]);
                lemma_or_bits(wstronger, bstronger);
                lemma_neighbors_bits(bstronger);
                lemma_neighbors_bits(wstronger);
                lemma_neighbors_bits(self.placement@[0]);
                lemma_neighbors_bits(self.placement@[1]);
                lemma_not_bits(wneighbors);
                lemma_not_bits(bneighbors);
                lemma_and_bits(self.bitboards@[pix as int], neighbors_of(bstronger));
                lemma_and_bits(self.bitboards@[pix as int] & neighbors_of(bstronger), !wneighbors);
                lemma_and_bits(self.bitboards@[pix + 6], neighbors_of(wstronger));
                lemma_and_bits(self.bitboards@[pix + 6] & neighbors_of(wstronger), !bneighbors);
                lemma_or_bits(old_frozen, white_frozen);
                lemma_or_bits(old_frozen | white_frozen, black_frozen);
                assert forall|sq: int| 0 <= sq < 64 implies (#[trigger] has_bit(wstronger, sq)
                    <==> pieces[sq].is_white() && pieces[sq].strength_spec() >= pix + 1) by {
                    assert(has_bit(self.bitboards@[pix as int], sq) <==> pieces[sq].index_spec()
                        == pix);
                }
                assert forall|sq: int| 0 <= sq < 64 implies (#[trigger] has_bit(bstronger, sq)
                    <==> pieces[sq].is_black() && pieces[sq].strength_spec() >= pix + 1) by {
                    assert(has_bit(self.bitboards@[pix + 6], sq) <==> pieces[sq].index_spec()
                        == pix + 6);
                }
                assert(is_stronger_mask(stronger@[pix - 1], pieces, pix as int));
                assert forall|k: int| 0 <= k < pix implies is_stronger_mask(
                    #[trigger] stronger@[k],
                    pieces,
                    k + 1,
                ) by {
                    if k < pix - 1 {
                        assert(stronger@[k] == old_stronger[k]);
                    }
                }
                assert forall|sq: int| 0 <= sq < 64 implies (#[trigger] has_bit(frozen_mask, sq)
                    <==> frozen(pieces, sq) && pieces[sq].strength_spec() < pix + 1) by {
                    assert(has_bit(self.bitboards@[pix as int], sq) <==> pieces[sq].index_spec()
                        == pix);
                    assert(has_bit(self.bitboards@[pix + 6], sq) <==> pieces[sq].index_spec()
                        == pix + 6);
                    lemma_touches_friend(self, sq);
                    if pieces[sq].index_spec() == pix {
                        assert forall|nb: int| 0 <= nb < 64 implies (#[trigger] has_bit(
                            bstronger,
                            nb,
                        ) <==> opposed(pieces[nb], pieces[sq]) && pieces[nb].strength_spec()
                            > pieces[sq].strength_spec()) by {}
                        lemma_touches_enemy(pieces, bstronger, sq);
                    }
                    if pieces[sq].index_spec() == pix + 6 {
                        assert forall|nb: int| 0 <= nb < 64 implies (#[trigger] has_bit(
                            wstronger,
                            nb,
                        ) <==> opposed(pieces[nb], pieces[sq]) && pieces[nb].strength_spec()
                            > pieces[sq].strength_spec()) by {}
                        lemma_touches_enemy(pieces, wstronger, sq);
                    }
                }
            }
            pix = pix + 1;
        }
        (stronger, frozen_mask)
    }

    /// Adds, for each piece on a square of `sources`, its steps onto the
    /// empty squares that it reaches: as pushes onto the squares next to
    /// it, or as slides that a rabbit does not make backwards.
    fn emit_from(&self, moves: &mut Vec<Step>, sources: u64, push: bool)
        requires
            self.board_ok(),
            old(moves)@.no_duplicates(),
            forall|s: Step|
                leaves(s, self.pieces@, self.side, sources, push) ==> !(#[trigger] old(
                    moves,
                )@.contains(s)),
        ensures
            final(moves)@.no_duplicates(),
            forall|s: Step|
                #![trigger final(moves)@.contains(s)]
                final(moves)@.contains(s) <==> old(moves)@.contains(s) || leaves(
                    s,
                    self.pieces@,
                    self.side,
                    sources,
                    push,
                ),
    {
        let ghost start = moves@;
        let ghost pieces = self.pieces@;
        let mut iter = PieceIter::new(sources);
        proof {
            lemma_xor_bits(sources, sources);
        }
        loop
            invariant
                self.board_ok(),
                pieces == self.pieces@,
                moves@.no_duplicates(),
                forall|s: Step|
                    leaves(s, pieces, self.side, sources, push) ==> !(#[trigger] start.contains(s)),
                forall|sq: int| #[trigger] has_bit(iter.remaining(), sq) ==> has_bit(sources, sq),
                forall|s: Step|
                    #![trigger moves@.contains(s)]
                    moves@.contains(s) <==> start.contains(s) || leaves(
                        s,
                        pieces,
                        self.side,
                        sources ^ iter.remaining(),
                        push,
                    ),
            ensures
                iter.remaining() == 0,
            decreases iter.remaining(),
        {
            let ghost before = iter.remaining();
            let ghost listed = moves@;
            match iter.next() {
                None => {
                    break ;
                },
                Some(lsb) => {
                    proof {
                        lemma_lowest_bit(before);
                    }
                    let from: usize = lsb.bitscan_forward();
                    let piece = self.pieces[from];
                    let reach: u64 = if !push && piece.strength() == 1 {
                        rabbit_steps(self.side, lsb)
                    } else {
                        neighbors_of(lsb)
                    };
                    let targets: u64 = reach & self.bitboards[0];
                    proof {
                        lemma_around_single(self.side, from as int);
                        lemma_and_bits(reach, self.bitboards@[0]);
                        lemma_xor_bits(sources, before);
                        lemma_xor_bits(sources, iter.remaining());
                        assert forall|s: Step|
                            goes_to(s, piece, from as u8, targets, push) implies !(
                        #[trigger] listed.contains(s)) by {
                            assert(leaves(s, pieces, self.side, sources, push));
                            assert(!leaves(s, pieces, self.side, sources ^ before, push));
                            assert(!start.contains(s));
                        }
                    }
                    emit_targets(&mut *moves, piece, from as u8, targets, push);
                    proof {
                        assert forall|sq: int|
                            has_bit(sources ^ iter.remaining(), sq) <==> has_bit(
                                sources ^ before,
                                sq,
                            ) || sq == from by {
                            assert(has_bit(iter.remaining(), sq) <==> has_bit(before, sq) && sq
                                != from);
                        }
                        assert forall|s: Step|
                            #![trigger moves@.contains(s)]
                            moves@.contains(s) <==> start.contains(s) || leaves(
                                s,
                                pieces,
                                self.side,
                                sources ^ iter.remaining(),
                                push,
                            ) by {
                            assert(listed.contains(s) <==> start.contains(s) || leaves(
                                s,
                                pieces,
                                self.side,
                                sources ^ before,
                                push,
                            ));
                            assert(moves@.contains(s) <==> listed.contains(s) || goes_to(
                                s,
                                piece,
                                from as u8,
                                targets,
                                push,
                            ));
                            match s {
                                Step::Move(p, f, t) => {
                                    assert(has_bit(self.bitboards@[0], t as int) <==> t < 64
                                        && pieces[t as int] == Piece::Empty);
                                },
                                Step::Push(p, f, t) => {
                                    assert(has_bit(self.bitboards@[0], t as int) <==> t < 64
                                        && pieces[t as int] == Piece::Empty);
                                },
                                _ => {},
                            }
                        }
                    }
                },
            }
        }
        proof {
            lemma_xor_algebra_zero(sources);
        }
    }

    /// Adds the first halves of all pushes.
    fn emit_pushes(&self, moves: &mut Vec<Step>, stronger: &[u64; 6], frozen_mask: u64)
        requires
            self.board_ok(),
            forall|k: int| 0 <= k < 6 ==> is_stronger_mask(#[trigger] stronger@[k], self.pieces@, k + 1),
            is_frozen_mask(frozen_mask, self.pieces@),
            old(moves)@.no_duplicates(),
            forall|s: Step|
                is_push(self.pieces@, self.side, s) ==> !(#[trigger] old(moves)@.contains(s)),
        ensures
            final(moves)@.no_duplicates(),
            forall|s: Step|
                #![trigger final(moves)@.contains(s)]
                final(moves)@.contains(s) <==> old(moves)@.contains(s) || is_push(
                    self.pieces@,
                    self.side,
                    s,
                ),
    {
        let ghost start = moves@;
        let ghost pieces = self.pieces@;
        let player: usize = self.side.index();
        let opponent: usize = 1 - player;
        let mine: u64 = self.placement[player];
        let empty: u64 = self.bitboards[0];
        let mut pix: usize = 1;
        while pix < 7
            invariant
                1 <= pix <= 7,
                self.board_ok(),
                pieces == self.pieces@,
                player == self.side.index_spec(),
                opponent == 1 - player,
                mine == self.placement@[player as int],
                empty == self.bitboards@[0],
                forall|k: int| 0 <= k < 6 ==> is_stronger_mask(#[trigger] stronger@[k], pieces, k + 1),
                is_frozen_mask(frozen_mask, pieces),
                moves@.no_duplicates(),
                forall|s: Step| is_push(pieces, self.side, s) ==> !(#[trigger] start.contains(s)),
                forall|s: Step|
                    #![trigger moves@.contains(s)]
                    moves@.contains(s) <==> start.contains(s) || (is_push(pieces, self.side, s)
                        && pushed_strength(s) < pix),
            decreases 7 - pix,
        {
            let ghost listed = moves@;
            let kind: usize = pix + 6 * opponent;
            let pushers: u64 = stronger[pix - 1] & mine & !frozen_mask;
            let pushable: u64 = neighbors_of(pushers) & self.bitboards[kind] & neighbors_of(empty);
            proof {
                assert(is_stronger_mask(stronger@[pix - 1], pieces, pix as int));
                lemma_and_bits(stronger@[pix - 1], mine);
                lemma_not_bits(frozen_mask);
                lemma_and_bits(stronger@[pix - 1] & mine, !frozen_mask);
                lemma_neighbors_bits(pushers);
                lemma_neighbors_bits(empty);
                lemma_and_bits(neighbors_of(pushers), self.bitboards@[kind as int]);
                lemma_and_bits(neighbors_of(pushers) & self.bitboards@[kind as int], neighbors_of(empty));
                assert forall|s: Step|
                    leaves(s, pieces, self.side, pushable, true) <==> is_push(
                        pieces,
                        self.side,
                        s,
                    ) && pushed_strength(s) == pix by {
                    match s {
                        Step::Push(p, from, to) => {
                            let f = from as int;
                            let t = to as int;
                            if leaves(s, pieces, self.side, pushable, true) {
                                assert(has_bit(self.bitboards@[kind as int], f));
                                assert(touches(pushers, f));
                                let nb = choose|nb: int| #[trigger] adjacent(f, nb) && has_bit(pushers, nb);
                                assert(has_bit(stronger@[pix - 1], nb));
                                assert(has_bit(mine, nb));
                                assert(!has_bit(frozen_mask, nb));
                                assert(pieces[nb].belongs_to(self.side));
                                assert(has_pusher(pieces, self.side, f));
                            }
                            if is_push(pieces, self.side, s) && pushed_strength(s) == pix {
                                assert(has_bit(self.bitboards@[kind as int], f));
                                let nb = choose|nb: int|
                                    #[trigger] adjacent(f, nb) && pieces[nb].belongs_to(self.side)
                                        && pieces[nb].strength_spec() > pieces[f].strength_spec()
                                        && !frozen(pieces, nb);
                                assert(has_bit(stronger@[pix - 1], nb));
                                assert(has_bit(mine, nb));
                                assert(has_bit(pushers, nb));
                                assert(touches(pushers, f));
                                assert(adjacent(f, t) && has_bit(empty, t));
                                assert(touches(empty, f));
                            }
                        },
                        _ => {},
                    }
                }
            }
            self.emit_from(&mut *moves, pushable, true);
            proof {
                assert forall|s: Step|
                    #![trigger moves@.contains(s)]
                    moves@.contains(s) <==> start.contains(s) || (is_push(pieces, self.side, s)
                        && pushed_strength(s) < pix + 1) by {
                    assert(listed.contains(s) <==> start.contains(s) || (is_push(
                        pieces,
                        self.side,
                        s,
                    ) && pushed_strength(s) < pix));
                    assert(moves@.contains(s) <==> listed.contains(s) || leaves(
                        s,
                        pieces,
                        self.side,
                        pushable,
                        true,
                    ));
                }
            }
            pix = pix + 1;
        }
    }

    /// Whether `step` may come next in this position.
    pub open spec fn legal(&self, step: Step) -> bool {
        legal_step(self.pieces@, self.side, self.steps_left, self.last_step, step)
    }

    /// Every step that may come next, in no particular order.
    pub fn gen_steps(&self) -> (moves: Vec<Step>)
        requires
            self.board_ok(),
            self.steps_left >= 1,
        ensures
            forall|s: Step| #![trigger moves@.contains(s)] moves@.contains(s) <==> self.legal(s),
            moves@.no_duplicates(),
    {
        let ghost pieces = self.pieces@;
        let mut moves: Vec<Step> = Vec::new();
        let (stronger, frozen_mask) = self.strength_masks();
        let player: usize = self.side.index();
        let opponent: usize = 1 - player;
        let mine: u64 = self.placement[player];
        let theirs: u64 = self.placement[opponent];
        let empty: u64 = self.bitboards[0];
        match self.last_step {
            Some(Step::Push(pushed, vacated, _)) => {
                let strength: usize = pushed.strength();
                let around: u64 = neighbors_of(index_to_lsb(vacated));
                let followers: u64 = if self.pieces[vacated as usize].index() != 0 {
                    0
                } else {
                    around & stronger[strength - 1] & mine
                };
                self.emit_sources(&mut moves, followers, vacated);
                proof {
                    lemma_zero_bits();
                    lemma_around_single(self.side, vacated as int);
                    assert(is_stronger_mask(stronger@[strength - 1], pieces, strength as int));
                    lemma_and_bits(around, stronger@[strength - 1]);
                    lemma_and_bits(around & stronger@[strength - 1], mine);
                    assert forall|s: Step|
                        #![trigger moves@.contains(s)]
                        moves@.contains(s) <==> self.legal(s) by {
                        match s {
                            Step::Move(p, from, to) => {
                                lemma_adjacent_symmetric(from as int, vacated as int);
                            },
                            _ => {},
                        }
                    }
                }
                return moves;
            },
            Some(Step::Move(puller, source, dest)) => {
                let strength: usize = puller.strength();
                if strength > 1 && puller.is_of(self.side) && self.pieces[dest as usize] == puller
                    && self.pieces[source as usize].index() == 0 {
                    let around: u64 = neighbors_of(index_to_lsb(source));
                    let candidates: u64 = around & theirs & !stronger[strength - 2];
                    self.emit_sources(&mut moves, candidates, source);
                    proof {
                        lemma_around_single(self.side, source as int);
                        assert(is_stronger_mask(stronger@[strength - 2], pieces, strength - 1));
                        lemma_and_bits(around, theirs);
                        lemma_not_bits(stronger@[strength - 2]);
                        lemma_and_bits(around & theirs, !stronger@[strength - 2]);
                        assert forall|s: Step|
                            #![trigger moves@.contains(s)]
                            moves@.contains(s) <==> is_pull(
                                pieces,
                                self.side,
                                self.last_step,
                                s,
                            ) by {
                            match s {
                                Step::Move(p, from, to) => {
                                    lemma_adjacent_symmetric(
                                        from as int,
                                        source as int,
                                    );
                                },
                                _ => {},
                            }
                        }
                    }
                }
            },
            _ => {},
        }
        assert(forall|s: Step|
            #![trigger moves@.contains(s)]
            moves@.contains(s) <==> is_pull(pieces, self.side, self.last_step, s));
        let ghost pulls = moves@;
        let active: u64 = mine & !frozen_mask;
        proof {
            lemma_not_bits(frozen_mask);
            lemma_and_bits(mine, !frozen_mask);
            assert forall|s: Step|
                leaves(s, pieces, self.side, active, false) implies !(#[trigger] pulls.contains(
                s,
            )) by {
                assert(pulls.contains(s) <==> is_pull(pieces, self.side, self.last_step, s));
            }
        }
        self.emit_from(&mut moves, active, false);
        proof {
            assert forall|s: Step|
                #![trigger moves@.contains(s)]
                moves@.contains(s) <==> is_pull(pieces, self.side, self.last_step, s)
                    || is_free_slide(pieces, self.side, s) by {
                assert(pulls.contains(s) <==> is_pull(pieces, self.side, self.last_step, s));
                assert(moves@.contains(s) <==> pulls.contains(s) || leaves(
                    s,
                    pieces,
                    self.side,
                    active,
                    false,
                ));
            }
        }
        if self.steps_left > 1 {
            proof {
                let slides = moves@;
                assert forall|s: Step| is_push(pieces, self.side, s) implies !(
                #[trigger] slides.contains(s)) by {
                    assert(slides.contains(s) <==> is_pull(pieces, self.side, self.last_step, s)
                        || is_free_slide(pieces, self.side, s));
                }
            }
            self.emit_pushes(&mut moves, &stronger, frozen_mask);
        }
        if self.steps_left != 4 {
            let ghost listed = moves@;
            moves.push(Step::Pass);
            proof {
                assert(!listed.contains(Step::Pass)) by {
                    assert(listed.contains(Step::Pass) <==> is_pull(
                        pieces,
                        self.side,
                        self.last_step,
                        Step::Pass,
                    ) || is_free_slide(pieces, self.side, Step::Pass) || (self.steps_left > 1
                        && is_push(pieces, self.side, Step::Pass)));
                }
                lemma_push_contains(listed, Step::Pass);
            }
        }
        moves
    }

    /// Whether `step` is one of the steps that may come next.
    pub fn offers(&self, step: Step) -> (offered: bool)
        requires
            self.board_ok(),
            self.steps_left >= 1,
        ensures
            offered == self.legal(step),
    {
        let moves = self.gen_steps();
        let mut i: usize = 0;
        while i < moves.len()
            invariant
                i <= moves@.len(),
                moves@.contains(step) <==> self.legal(step),
                forall|k: int| 0 <= k < i ==> moves@[k] != step,
            decreases moves@.len() - i,
        {
            if moves[i] == step {
                assert(moves@.contains(step));
                return true;
            }
            i = i + 1;
        }
        assert(!moves@.contains(step));
        false
    }
}

} // verus!
