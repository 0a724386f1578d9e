//! A count of the steps that an empty board allows: a bound on how many
//! different steps there are at all.

use crate::board::PieceIter;
use crate::board::adjacent;
use crate::board::has_bit;
use crate::board::index_to_lsb;
use crate::board::lemma_around_single;
use crate::board::lemma_lowest_bit;
use crate::board::lemma_zero_bits;
use crate::board::lowest_square;
use crate::board::neighbors_of;
use crate::piece::Side;
use vstd::prelude::*;

verus! {

/// How many of the lowest `n` bits of `x` are set.
pub open spec fn bits_set(x: u64, n: nat) -> nat
    decreases n,
{
    if n == 0 {
        0
    } else {
        bits_set(x, (n - 1) as nat) + if has_bit(x, n - 1) {
            1nat
        } else {
            0nat
        }
    }
}

/// How many squares lie next to `sq`.
pub open spec fn degree(sq: int) -> int {
    (if sq % 8 > 0 {
        1int
    } else {
        0int
    }) + (if sq % 8 < 7 {
        1int
    } else {
        0int
    }) + (if sq / 8 > 0 {
        1int
    } else {
        0int
    }) + (if sq / 8 < 7 {
        1int
    } else {
        0int
    })
}

/// The pushes and pulls of a piece on `sq` that go through `nb`: a piece
/// on `nb` can be pushed to each of its other neighbours, and pulled onto
/// `sq` while the piece leaves for each of its other neighbours. Nothing
/// if `nb` is not next to `sq`.
pub open spec fn through(sq: int, nb: int) -> int {
    if adjacent(sq, nb) {
        (degree(nb) - 1) + (degree(sq) - 1)
    } else {
        0
    }
}

/// The steps that start from a piece on `sq`, on a board that is
/// otherwise free: its slides, and its pushes and pulls in each direction.
pub open spec fn square_moves_spec(sq: int) -> int {
    degree(sq) + through(sq, sq - 8) + through(sq, sq - 1) + through(sq, sq + 1) + through(
        sq,
        sq + 8,
    )
}

/// The steps that start from the squares below `n`.
pub open spec fn moves_below(n: nat) -> int
    decreases n,
{
    if n == 0 {
        0
    } else {
        moves_below((n - 1) as nat) + square_moves_spec(n - 1)
    }
}

/// `u64::count_ones`: the number of bits that are set in `x`.
#[verifier::external_body]
fn count_ones(x: u64) -> (count: u32)
    ensures
        count == bits_set(x, 64),
{
    x.count_ones()
}

/// The mask of the squares next to `sq` has as many bits as `sq` has
/// neighbours.
proof fn lemma_bits_of_neighbors(x: u64, sq: int, n: nat)
    requires
        0 <= sq < 64,
        n <= 64,
        forall|j: int| #[trigger] has_bit(x, j) <==> adjacent(sq, j),
    ensures
        bits_set(x, n) == (if adjacent(sq, sq - 8) && sq - 8 < n {
            1int
        } else {
            0int
        }) + (if adjacent(sq, sq - 1) && sq - 1 < n {
            1int
        } else {
            0int
        }) + (if adjacent(sq, sq + 1) && sq + 1 < n {
            1int
        } else {
            0int
        }) + (if adjacent(sq, sq + 8) && sq + 8 < n {
            1int
        } else {
            0int
        }),
    decreases n,
{
    if n > 0 {
        lemma_bits_of_neighbors(x, sq, (n - 1) as nat);
    }
}

/// The steps that start from a piece on `sq`.
pub fn square_moves(sq: u8) -> (total: u32)
    requires
        sq < 64,
    ensures
        total == square_moves_spec(sq as int),
        8 <= total <= 28,
        total == 28 <==> 2 <= sq % 8 <= 5 && 2 <= sq / 8 <= 5,
{
    let ghost s = sq as int;
    let around: u64 = neighbors_of(index_to_lsb(sq));
    proof {
        lemma_around_single(Side::White, s);
        lemma_bits_of_neighbors(around, s, 64);
    }
    let own: u32 = count_ones(around);
    let mut total: u32 = own;
    let mut iter = PieceIter::new(around);
    loop
        invariant
            s == sq,
            0 <= s < 64,
            own == degree(s),
            forall|j: int| #[trigger] has_bit(around, j) <==> adjacent(s, j),
            forall|j: int| #[trigger] has_bit(iter.remaining(), j) ==> has_bit(around, j),
            total == degree(s) + (if has_bit(iter.remaining(), s - 8) {
                0
            } else {
                through(s, s - 8)
            }) + (if has_bit(iter.remaining(), s - 1) {
                0
            } else {
                through(s, s - 1)
            }) + (if has_bit(iter.remaining(), s + 1) {
                0
            } else {
                through(s, s + 1)
            }) + (if has_bit(iter.remaining(), s + 8) {
                0
            } else {
                through(s, s + 8)
            }),
        ensures
            iter.remaining() == 0,
        decreases iter.remaining(),
    {
        let ghost left = iter.remaining();
        match iter.next() {
            None => {
                break ;
            },
            Some(lsb) => {
                proof {
                    lemma_lowest_bit(left);
                }
                let ghost nb = lowest_square(left);
                proof {
                    assert(has_bit(around, nb));
                    lemma_around_single(Side::White, nb);
                    lemma_bits_of_neighbors(neighbors_of(lsb), nb, 64);
                }
                let replies: u32 = count_ones(neighbors_of(lsb)) - 1;
                total = total + replies + (own - 1);
            },
        }
    }
    proof {
        lemma_zero_bits();
    }
    total
}

/// From no square do fewer than 8 steps start, nor more than 28, and 28
/// start from the sixteen squares that have two squares on every side.
pub proof fn lemma_square_moves(sq: int)
    requires
        0 <= sq < 64,
    ensures
        8 <= square_moves_spec(sq) <= 28,
        square_moves_spec(sq) == 28 <==> 2 <= sq % 8 <= 5 && 2 <= sq / 8 <= 5,
{
}

/// The first `n` squares, row by row, allow these many steps.
proof fn lemma_moves_by_row()
    ensures
        moves_below(8) == 110,
        moves_below(16) == 300,
        moves_below(24) == 498,
        moves_below(32) == 696,
        moves_below(40) == 894,
        moves_below(48) == 1092,
        moves_below(56) == 1282,
        moves_below(64) == 1392,
{
    reveal_with_fuel(moves_below, 9);
    assert(moves_below(8) == 110);
    assert(moves_below(16) == 300);
    assert(moves_below(24) == 498);
    assert(moves_below(32) == 696);
    assert(moves_below(40) == 894);
    assert(moves_below(48) == 1092);
    assert(moves_below(56) == 1282);
    assert(moves_below(64) == 1392);
}

/// One more than the steps that start from any square: the pass, and for
/// each square the steps of `square_moves`. The count is 1393.
pub fn total_moves() -> (total: u32)
    ensures
        total == 1 + moves_below(64),
        total == 1393,
        512 < total < 1569,
{
    let mut grand_total: u32 = 1;
    let mut sq: u8 = 0;
    while sq < 64
        invariant
            sq <= 64,
            grand_total == 1 + moves_below(sq as nat),
            grand_total <= 1 + 28 * sq,
        decreases 64 - sq,
    {
        grand_total = grand_total + square_moves(sq);
        sq = sq + 1;
    }
    proof {
        lemma_moves_by_row();
    }
    grand_total
}

} // verus!
