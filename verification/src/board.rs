//! Bitboard primitives: 64-bit masks with one bit per square.
//!
//! Square `i` (0 to 63) lies in column `i % 8` and row `i / 8`; bit `i` of a
//! mask stands for that square.

use crate::piece::Side;
use bitintr::Tzcnt;
use vstd::prelude::*;
use vstd::std_specs::bits::axiom_u64_trailing_zeros;
use vstd::std_specs::bits::u64_trailing_zeros;

verus! {

/// The highest bit of each row's byte: the squares in column 7. The file
/// masks are named by the order of the bits in a byte, highest first.
pub const A_FILE: u64 = 0x8080808080808080;

/// The lowest bit of each row's byte: the squares in column 0.
pub const H_FILE: u64 = 0x0101010101010101;

pub const NOT_A_FILE: u64 = 0x7F7F7F7F7F7F7F7F;

pub const NOT_H_FILE: u64 = 0xFEFEFEFEFEFEFEFE;

/// The first row, where White sets up and Black's rabbits aim.
pub const RANK_1: u64 = 0x00000000000000FF;

/// The eighth row.
pub const RANK_8: u64 = 0xFF00000000000000;

/// Whether bit `sq` of `board` is set. False for every `sq` outside 0..64.
pub open spec fn has_bit(board: u64, sq: int) -> bool {
    0 <= sq < 64 && (board >> (sq as u64)) & 1 == 1
}

/// Whether `a` and `b` are squares of the board that share an edge.
pub open spec fn adjacent(a: int, b: int) -> bool {
    &&& 0 <= a < 64
    &&& 0 <= b < 64
    &&& ((b == a + 1 && a % 8 != 7) || (b == a - 1 && a % 8 != 0) || b == a + 8 || b == a - 8)
}

/// Whether a rabbit of `side` may step from `from` to `to`: sideways, or
/// forward as its side sees the board (north for White, south for Black).
pub open spec fn rabbit_step(side: Side, from: int, to: int) -> bool {
    &&& 0 <= from < 64
    &&& 0 <= to < 64
    &&& ((to == from + 1 && from % 8 != 7) || (to == from - 1 && from % 8 != 0) || match side {
        Side::White => to == from + 8,
        Side::Black => to == from - 8,
    })
}

/// Whether some square next to `sq` has its bit set in `mask`.
pub open spec fn touches(mask: u64, sq: int) -> bool {
    exists|nb: int| #[trigger] adjacent(sq, nb) && has_bit(mask, nb)
}

/// The mask with only bit `index` set.
pub open spec fn single_bit(index: int) -> u64 {
    1u64 << (index as u64)
}

/// Each square of `mask` moved one step in each of the four directions,
/// without wrapping from one row into the next.
pub open spec fn neighbors_of_spec(mask: u64) -> u64 {
    ((mask & NOT_H_FILE) >> 1) | ((mask & NOT_A_FILE) << 1) | (mask >> 8) | (mask << 8)
}

/// Each square of `mask` moved one step sideways and one step forward as
/// `side` sees the board.
pub open spec fn rabbit_steps_spec(side: Side, mask: u64) -> u64 {
    let sideways = ((mask & NOT_A_FILE) << 1) | ((mask & NOT_H_FILE) >> 1);
    match side {
        Side::White => sideways | (mask << 8),
        Side::Black => sideways | (mask >> 8),
    }
}

/// Two's complement negation.
pub open spec fn negation(x: u64) -> u64 {
    if x == 0 {
        0
    } else {
        (0x1_0000_0000_0000_0000 - x) as u64
    }
}

/// The mask that keeps only the least significant set bit of `x`.
pub open spec fn lowest_bit(x: u64) -> u64 {
    x & negation(x)
}

/// The index of the least significant set bit of `x`; 64 where `x` is zero.
pub open spec fn lowest_square(x: u64) -> int {
    u64_trailing_zeros(x) as int
}

/// The mask with only bit `index` set.
pub fn index_to_lsb(index: u8) -> (lsb: u64)
    requires
        index < 64,
    ensures
        lsb == single_bit(index as int),
        forall|sq: int| #[trigger] has_bit(lsb, sq) <==> sq == index,
{
    proof {
        lemma_single_bit(index as int);
    }
    1u64 << index
}

/// The squares that share an edge with a square of `lsb`, which may hold
/// one bit or many.
#[verifier::when_used_as_spec(neighbors_of_spec)]
pub fn neighbors_of(lsb: u64) -> (n: u64)
    ensures
        n == neighbors_of_spec(lsb),
        forall|sq: int| #[trigger] has_bit(n, sq) <==> touches(lsb, sq),
{
    let n: u64 = ((lsb & NOT_H_FILE) >> 1) | ((lsb & NOT_A_FILE) << 1) | (lsb >> 8) | (lsb << 8);
    proof {
        lemma_neighbors_bits(lsb);
        assert forall|sq: int| #[trigger] has_bit(n, sq) <==> touches(lsb, sq) by {
            assert(has_bit(neighbors_of_spec(lsb), sq) <==> touches(lsb, sq));
        }
    }
    n
}

/// Where rabbits of `side` on the squares of `lsb` can step: sideways, and
/// north for White or south for Black.
#[verifier::when_used_as_spec(rabbit_steps_spec)]
pub fn rabbit_steps(side: Side, lsb: u64) -> (out: u64)
    ensures
        out == rabbit_steps_spec(side, lsb),
        forall|sq: int| #[trigger]
            has_bit(out, sq) <==> exists|from: int|
                rabbit_step(side, from, sq) && has_bit(lsb, from),
{
    let sideways: u64 = ((lsb & NOT_A_FILE) << 1) | ((lsb & NOT_H_FILE) >> 1);
    let out: u64 = match side {
        Side::White => sideways | (lsb << 8),
        Side::Black => sideways | (lsb >> 8),
    };
    proof {
        lemma_rabbit_bits(side, lsb);
        assert forall|sq: int| #[trigger]
            has_bit(out, sq) <==> exists|from: int|
                rabbit_step(side, from, sq) && has_bit(lsb, from) by {
            assert(has_bit(rabbit_steps_spec(side, lsb), sq) <==> exists|from: int|
                rabbit_step(side, from, sq) && has_bit(lsb, from));
        }
    }
    out
}

/// `bitintr::Tzcnt::tzcnt` on a `u64`: the number of trailing zero bits,
/// which is 64 for zero.
#[verifier::external_body]
fn tzcnt(x: u64) -> (count: u64)
    ensures
        count == u64_trailing_zeros(x),
{
    x.tzcnt()
}

/// Bit tricks on a mask.
pub trait Bitboard: Sized {
    /// The mask that the value stands for.
    spec fn mask(self) -> u64;

    /// The index of the least significant set bit of a mask that is not
    /// zero.
    fn bitscan_forward(self) -> (index: usize)
        requires
            self.mask() != 0,
        ensures
            index == lowest_square(self.mask()),
            index < 64,
            has_bit(self.mask(), index as int),
            forall|sq: int| has_bit(self.mask(), sq) ==> index <= sq,
    ;

    /// The mask with only the least significant set bit; zero for zero.
    fn isolate_lsb(self) -> (lsb: u64)
        ensures
            lsb == lowest_bit(self.mask()),
            self.mask() == 0 ==> lsb == 0,
            self.mask() != 0 ==> lsb == single_bit(lowest_square(self.mask())),
    ;

    /// The two's complement of the mask.
    fn negate(self) -> (neg: u64)
        ensures
            neg == negation(self.mask()),
    ;
}

impl Bitboard for u64 {
    open spec fn mask(self) -> u64 {
        self
    }

    fn bitscan_forward(self) -> (index: usize) {
        proof {
            lemma_lowest_square(self);
        }
        tzcnt(self) as usize
    }

    fn isolate_lsb(self) -> (lsb: u64) {
        proof {
            if self != 0 {
                lemma_lowest_bit(self);
            } else {
                assert(0u64 & 0u64 == 0u64) by (bit_vector);
            }
        }
        self & self.negate()
    }

    fn negate(self) -> (neg: u64) {
        assert(!self == 0xFFFF_FFFF_FFFF_FFFF - self) by (bit_vector);
        (!self).wrapping_add(1)
    }
}

/// The AND of two masks holds the squares that both hold.
pub proof fn lemma_and_bits(a: u64, b: u64)
    ensures
        forall|sq: int| #[trigger] has_bit(a & b, sq) <==> has_bit(a, sq) && has_bit(b, sq),
{
    assert forall|sq: int| #[trigger] has_bit(a & b, sq) <==> has_bit(a, sq) && has_bit(
        b,
        sq,
    ) by {
        if 0 <= sq < 64 {
            let i = sq as u64;
            assert(((a & b) >> i) & 1 == 1 <==> (a >> i) & 1 == 1 && (b >> i) & 1 == 1)
                by (bit_vector);
        }
    }
}

/// The OR of two masks holds the squares that one of them holds.
pub proof fn lemma_or_bits(a: u64, b: u64)
    ensures
        forall|sq: int| #[trigger] has_bit(a | b, sq) <==> has_bit(a, sq) || has_bit(b, sq),
{
    assert forall|sq: int| #[trigger] has_bit(a | b, sq) <==> has_bit(a, sq) || has_bit(
        b,
        sq,
    ) by {
        if 0 <= sq < 64 {
            let i = sq as u64;
            assert(((a | b) >> i) & 1 == 1 <==> (a >> i) & 1 == 1 || (b >> i) & 1 == 1)
                by (bit_vector);
        }
    }
}

/// The XOR of two masks holds the squares that exactly one of them holds.
pub proof fn lemma_xor_bits(a: u64, b: u64)
    ensures
        forall|sq: int| #[trigger] has_bit(a ^ b, sq) <==> (has_bit(a, sq) != has_bit(b, sq)),
{
    assert forall|sq: int| #[trigger] has_bit(a ^ b, sq) <==> (has_bit(a, sq) != has_bit(
        b,
        sq,
    )) by {
        if 0 <= sq < 64 {
            let i = sq as u64;
            assert(((a ^ b) >> i) & 1 == 1 <==> (((a >> i) & 1 == 1) != ((b >> i) & 1 == 1)))
                by (bit_vector);
        }
    }
}

/// The complement of a mask holds the squares that the mask does not.
pub proof fn lemma_not_bits(a: u64)
    ensures
        forall|sq: int| 0 <= sq < 64 ==> (#[trigger] has_bit(!a, sq) <==> !has_bit(a, sq)),
{
    assert forall|sq: int| 0 <= sq < 64 implies (#[trigger] has_bit(!a, sq) <==> !has_bit(
        a,
        sq,
    )) by {
        let i = sq as u64;
        assert(i < 64 ==> (((!a) >> i) & 1 == 1 <==> !((a >> i) & 1 == 1))) by (bit_vector);
    }
}

/// The mask of one square holds that square and no other.
pub proof fn lemma_single_bit(index: int)
    requires
        0 <= index < 64,
    ensures
        forall|sq: int| #[trigger] has_bit(single_bit(index), sq) <==> sq == index,
        single_bit(index) != 0,
        lowest_square(single_bit(index)) == index,
{
    let i = index as u64;
    assert forall|sq: int| #[trigger] has_bit(single_bit(index), sq) <==> sq == index by {
        if 0 <= sq < 64 {
            let j = sq as u64;
            assert(i < 64 && j < 64 ==> (((1u64 << i) >> j) & 1 == 1 <==> j == i))
                by (bit_vector);
        }
    }
    assert(has_bit(single_bit(index), index));
    lemma_zero_bits();
    lemma_lowest_square(single_bit(index));
}

/// The zero mask holds no square.
pub proof fn lemma_zero_bits()
    ensures
        forall|sq: int| !#[trigger] has_bit(0, sq),
{
    assert forall|sq: int| !#[trigger] has_bit(0, sq) by {
        if 0 <= sq < 64 {
            let i = sq as u64;
            assert((0u64 >> i) & 1 == 0) by (bit_vector);
        }
    }
}

/// The least significant set bit of a mask that is not zero.
pub proof fn lemma_lowest_square(x: u64)
    requires
        x != 0,
    ensures
        0 <= lowest_square(x) < 64,
        has_bit(x, lowest_square(x)),
        forall|sq: int| has_bit(x, sq) ==> lowest_square(x) <= sq,
{
    axiom_u64_trailing_zeros(x);
    let t = u64_trailing_zeros(x);
    assert forall|sq: int| has_bit(x, sq) implies lowest_square(x) <= sq by {
        if sq < t {
            let j = sq as u64;
            assert((x >> j) & 1u64 == 0u64);
        }
    }
}

/// Two masks with the same bits are the same mask.
pub proof fn lemma_same_bits(a: u64, b: u64)
    requires
        forall|sq: int| 0 <= sq < 64 ==> (has_bit(a, sq) <==> has_bit(b, sq)),
    ensures
        a == b,
{
    if a != b {
        let d = a ^ b;
        assert(a != b ==> a ^ b != 0) by (bit_vector);
        lemma_lowest_square(d);
        lemma_xor_bits(a, b);
        let sq = lowest_square(d);
        assert(has_bit(a ^ b, sq));
    }
}

/// Isolating the lowest bit of a mask and clearing it.
pub proof fn lemma_lowest_bit(x: u64)
    requires
        x != 0,
    ensures
        0 <= lowest_square(x) < 64,
        lowest_bit(x) == single_bit(lowest_square(x)),
        has_bit(x, lowest_square(x)),
        forall|sq: int| has_bit(x, sq) ==> lowest_square(x) <= sq,
        forall|sq: int| #[trigger]
            has_bit(x ^ lowest_bit(x), sq) <==> has_bit(x, sq) && sq != lowest_square(x),
        x ^ lowest_bit(x) < x,
        lowest_bit(x) != 0,
        lowest_square(lowest_bit(x)) == lowest_square(x),
{
    lemma_lowest_square(x);
    axiom_u64_trailing_zeros(x);
    let t = u64_trailing_zeros(x) as u64;
    let gap = (64 - t) as u64;
    assert(x << gap == 0);
    assert(!x == 0xFFFF_FFFF_FFFF_FFFF - x) by (bit_vector);
    assert(negation(x) == ((!x) + 1) as u64);
    assert(t < 64 && gap == 64 - t && (x >> t) & 1 == 1 && x << gap == 0 ==> x & (((!x)
        + 1) as u64) == 1u64 << t && x ^ (x & (((!x) + 1) as u64)) < x) by (bit_vector);
    lemma_single_bit(t as int);
    lemma_xor_bits(x, lowest_bit(x));
}

/// The bits of `neighbors_of`: a square is in the result exactly when a
/// square next to it is in the argument.
pub proof fn lemma_neighbors_bits(mask: u64)
    ensures
        forall|sq: int| #[trigger] has_bit(neighbors_of_spec(mask), sq) <==> touches(mask, sq),
{
    let n = neighbors_of_spec(mask);
    assert forall|sq: int| #[trigger] has_bit(n, sq) <==> touches(mask, sq) by {
        if 0 <= sq < 64 {
            let i = sq as u64;
            let east = (i + 1) as u64;
            let west = (i - 1) as u64;
            let north = (i + 8) as u64;
            let south = (i - 8) as u64;
            assert(i < 64 && east == i + 1 && north == i + 8 && (i >= 1 ==> west == i - 1) && (i
                >= 8 ==> south == i - 8) ==> ((((((mask & 0xFEFEFEFEFEFEFEFE) >> 1) | ((mask
                & 0x7F7F7F7F7F7F7F7F) << 1) | (mask >> 8) | (mask << 8)) >> i) & 1 == 1) <==> ((i
                % 8 != 7 && (mask >> east) & 1 == 1) || (i % 8 != 0 && (mask >> west) & 1 == 1)
                || (i < 56 && (mask >> north) & 1 == 1) || (i >= 8 && (mask >> south) & 1
                == 1)))) by (bit_vector);
            if has_bit(n, sq) {
                if sq % 8 != 7 && has_bit(mask, sq + 1) {
                    assert(adjacent(sq, sq + 1));
                } else if sq % 8 != 0 && has_bit(mask, sq - 1) {
                    assert(adjacent(sq, sq - 1));
                } else if has_bit(mask, sq + 8) {
                    assert(adjacent(sq, sq + 8));
                } else {
                    assert(has_bit(mask, sq - 8));
                    assert(adjacent(sq, sq - 8));
                }
            }
        }
    }
}

/// The bits of `rabbit_steps`: a square is in the result exactly when a
/// square beside it is in the argument, or the square behind it as `side`
/// sees the board.
pub proof fn lemma_rabbit_bits(side: Side, mask: u64)
    ensures
        forall|sq: int| #[trigger]
            has_bit(rabbit_steps_spec(side, mask), sq) <==> exists|from: int|
                rabbit_step(side, from, sq) && has_bit(mask, from),
{
    let n = rabbit_steps_spec(side, mask);
    assert forall|sq: int| #[trigger]
        has_bit(n, sq) <==> exists|from: int|
            rabbit_step(side, from, sq) && has_bit(mask, from) by {
        if 0 <= sq < 64 {
            let i = sq as u64;
            let east = (i + 1) as u64;
            let west = (i - 1) as u64;
            let north = (i + 8) as u64;
            let south = (i - 8) as u64;
            assert(i < 64 && east == i + 1 && (i >= 1 ==> west == i - 1) ==> (((((mask
                & 0x7F7F7F7F7F7F7F7F) << 1) | ((mask & 0xFEFEFEFEFEFEFEFE) >> 1)) >> i) & 1 == 1
                <==> ((i % 8 != 7 && (mask >> east) & 1 == 1) || (i % 8 != 0 && (mask >> west) & 1
                == 1)))) by (bit_vector);
            assert(i < 64 && north == i + 8 && (i >= 8 ==> south == i - 8) ==> ((((mask << 8)
                >> i) & 1 == 1 <==> (i >= 8 && (mask >> south) & 1 == 1)) && (((mask >> 8) >> i)
                & 1 == 1 <==> (i < 56 && (mask >> north) & 1 == 1)))) by (bit_vector);
            let sideways = ((mask & NOT_A_FILE) << 1) | ((mask & NOT_H_FILE) >> 1);
            lemma_or_bits(sideways, mask << 8);
            lemma_or_bits(sideways, mask >> 8);
            if has_bit(n, sq) {
                if sq % 8 != 7 && has_bit(mask, sq + 1) {
                    assert(rabbit_step(side, sq + 1, sq));
                } else if sq % 8 != 0 && has_bit(mask, sq - 1) {
                    assert(rabbit_step(side, sq - 1, sq));
                } else if side == Side::White {
                    assert(has_bit(mask, sq - 8));
                    assert(rabbit_step(side, sq - 8, sq));
                } else {
                    assert(has_bit(mask, sq + 8));
                    assert(rabbit_step(side, sq + 8, sq));
                }
            }
        }
    }
}

/// Adjacency does not depend on the order of the two squares.
pub proof fn lemma_adjacent_symmetric(a: int, b: int)
    ensures
        adjacent(a, b) <==> adjacent(b, a),
{
}

/// Around a single square, `neighbors_of` gives the squares next to it
/// and `rabbit_steps` the squares that a rabbit on it can reach.
pub proof fn lemma_around_single(side: Side, from: int)
    requires
        0 <= from < 64,
    ensures
        forall|to: int| #[trigger]
            has_bit(neighbors_of_spec(single_bit(from)), to) <==> adjacent(from, to),
        forall|to: int| #[trigger]
            has_bit(rabbit_steps_spec(side, single_bit(from)), to) <==> rabbit_step(side, from, to),
{
    let lsb = single_bit(from);
    lemma_single_bit(from);
    lemma_neighbors_bits(lsb);
    lemma_rabbit_bits(side, lsb);
    assert forall|to: int| #[trigger]
        has_bit(neighbors_of_spec(lsb), to) <==> adjacent(from, to) by {
        if adjacent(from, to) {
            assert(adjacent(to, from));
            assert(touches(lsb, to));
        }
        if touches(lsb, to) {
            let nb = choose|nb: int| #[trigger] adjacent(to, nb) && has_bit(lsb, nb);
            assert(nb == from);
        }
    }
    assert forall|to: int| #[trigger]
        has_bit(rabbit_steps_spec(side, lsb), to) <==> rabbit_step(side, from, to) by {
        if has_bit(rabbit_steps_spec(side, lsb), to) {
            let f = choose|f: int| rabbit_step(side, f, to) && has_bit(lsb, f);
            assert(f == from);
        }
        if rabbit_step(side, from, to) {
            assert(has_bit(lsb, from));
        }
    }
}

/// Every bit of the full mask is set.
pub proof fn lemma_full_bits()
    ensures
        forall|sq: int| 0 <= sq < 64 ==> #[trigger] has_bit(u64::MAX, sq),
{
    assert forall|sq: int| 0 <= sq < 64 implies #[trigger] has_bit(u64::MAX, sq) by {
        let i = sq as u64;
        assert(i < 64 ==> (0xFFFF_FFFF_FFFF_FFFFu64 >> i) & 1 == 1) by (bit_vector);
    }
}

/// Walks over the set bits of a mask, lowest first.
pub struct PieceIter {
    bitboard: u64,
}

impl PieceIter {
    /// The bits that are still to come.
    pub closed spec fn remaining(self) -> u64 {
        self.bitboard
    }

    pub fn new(bitboard: u64) -> (iter: PieceIter)
        ensures
            iter.remaining() == bitboard,
    {
        PieceIter { bitboard }
    }

    /// The lowest bit that is left, as a mask of its own; `None` once all
    /// bits have been handed out.
    pub fn next(&mut self) -> (item: Option<u64>)
        ensures
            old(self).remaining() == 0 ==> item is None && final(self).remaining() == 0,
            old(self).remaining() != 0 ==> item == Some(lowest_bit(old(self).remaining()))
                && final(self).remaining() == old(self).remaining() ^ lowest_bit(
                old(self).remaining(),
            ),
    {
        if self.bitboard == 0 {
            return None;
        }
        let lsb: u64 = self.bitboard.isolate_lsb();
        self.bitboard = self.bitboard ^ lsb;
        Some(lsb)
    }
}

/// A mask is zero exactly when none of its bits is set.
pub proof fn lemma_nonzero_bits(x: u64)
    ensures
        x != 0 <==> exists|sq: int| has_bit(x, sq),
{
    if x != 0 {
        lemma_lowest_square(x);
    } else {
        lemma_zero_bits();
    }
}

/// The first and the last rank as masks.
pub proof fn lemma_rank_bits()
    ensures
        forall|sq: int| #[trigger] has_bit(RANK_1, sq) <==> 0 <= sq < 8,
        forall|sq: int| #[trigger] has_bit(RANK_8, sq) <==> 56 <= sq < 64,
{
    assert forall|sq: int| #[trigger] has_bit(RANK_1, sq) <==> 0 <= sq < 8 by {
        if 0 <= sq < 64 {
            lemma_rank_bit(sq as u64);
        }
    }
    assert forall|sq: int| #[trigger] has_bit(RANK_8, sq) <==> 56 <= sq < 64 by {
        if 0 <= sq < 64 {
            lemma_rank_bit(sq as u64);
        }
    }
}

proof fn lemma_rank_bit(i: u64)
    requires
        i < 64,
    ensures
        (RANK_1 >> i) & 1 == 1 <==> i < 8,
        (RANK_8 >> i) & 1 == 1 <==> 56 <= i,
{
    assert(i < 64 ==> (((0xFFu64 >> i) & 1 == 1 <==> i < 8) && ((0xFF00000000000000u64 >> i) & 1
        == 1 <==> 56 <= i))) by (bit_vector);
}

/// The four trap squares: c3, f3, c6 and f6.
pub open spec fn trap_square(index: int) -> int {
    if index == 0 {
        18
    } else if index == 1 {
        21
    } else if index == 2 {
        42
    } else {
        45
    }
}

/// Whether `sq` is one of the four trap squares.
pub open spec fn is_trap(sq: int) -> bool {
    sq == 18 || sq == 21 || sq == 42 || sq == 45
}

/// The trap squares in the order in which they are looked at.
pub const TRAP_INDICES: [usize; 4] = [18, 21, 42, 45];

/// For each trap the four squares around it.
pub const TRAP_NEIGHBORS: [u64; 4] = [0x40A0400, 0x20502000, 0x40A0400000000, 0x20502000000000];

/// The masks of `TRAP_NEIGHBORS` hold the squares next to the traps.
pub proof fn lemma_trap_neighbors(index: int)
    requires
        0 <= index < 4,
    ensures
        TRAP_INDICES[index] == trap_square(index),
        forall|sq: int| #[trigger]
            has_bit(TRAP_NEIGHBORS[index], sq) <==> adjacent(trap_square(index), sq),
{
    let t = trap_square(index);
    assert((((((1u64 << 18) & 0xFEFEFEFEFEFEFEFE) >> 1) | (((1u64 << 18) & 0x7F7F7F7F7F7F7F7F)
        << 1) | ((1u64 << 18) >> 8) | ((1u64 << 18) << 8)) == 0x40A0400) && (((((1u64 << 21)
        & 0xFEFEFEFEFEFEFEFE) >> 1) | (((1u64 << 21) & 0x7F7F7F7F7F7F7F7F) << 1) | ((1u64 << 21)
        >> 8) | ((1u64 << 21) << 8)) == 0x20502000) && (((((1u64 << 42) & 0xFEFEFEFEFEFEFEFE)
        >> 1) | (((1u64 << 42) & 0x7F7F7F7F7F7F7F7F) << 1) | ((1u64 << 42) >> 8) | ((1u64 << 42)
        << 8)) == 0x40A0400000000) && (((((1u64 << 45) & 0xFEFEFEFEFEFEFEFE) >> 1) | (((1u64
        << 45) & 0x7F7F7F7F7F7F7F7F) << 1) | ((1u64 << 45) >> 8) | ((1u64 << 45) << 8))
        == 0x20502000000000)) by (bit_vector);
    assert(TRAP_NEIGHBORS[index] == neighbors_of_spec(single_bit(t)));
    lemma_neighbors_bits(single_bit(t));
    lemma_single_bit(t);
    assert forall|sq: int| #[trigger]
        has_bit(TRAP_NEIGHBORS[index], sq) <==> adjacent(t, sq) by {
        if adjacent(t, sq) {
            assert(adjacent(sq, t));
            assert(touches(single_bit(t), sq));
        }
        if touches(single_bit(t), sq) {
            let nb = choose|nb: int| adjacent(sq, nb) && has_bit(single_bit(t), nb);
            assert(nb == t);
        }
    }
}

} // verus!
