//! The position: the board in three redundant forms, the turn's
//! bookkeeping and the hashes that the repetition rules need.

use crate::board::has_bit;
use crate::board::lemma_and_bits;
use crate::board::lemma_full_bits;
use crate::board::lemma_lowest_bit;
use crate::board::lemma_same_bits;
use crate::board::lemma_xor_bits;
use crate::board::Bitboard;
use crate::board::PieceIter;
use crate::board::lemma_or_bits;
use crate::board::lemma_single_bit;
use crate::board::lemma_zero_bits;
use crate::piece::Piece;
use crate::piece::Side;
use crate::step::Step;
use crate::zobrist::compute_hash;
use crate::zobrist::position_hash;
use vstd::prelude::*;

verus! {

/// A position between two steps. The board is held three times over,
/// and `board_ok` says that the three agree.
pub struct Position {
    /// The side to move.
    pub side: Side,
    /// Steps that remain in this turn, 0 to 4.
    pub steps_left: u8,
    /// The squares that White (index 0) and Black (index 1) occupy.
    pub placement: [u64; 2],
    /// For each piece kind the squares that hold it; index 0 is the empty squares.
    pub bitboards: [u64; 13],
    /// The latest slide or push of this turn.
    pub last_step: Option<Step>,
    /// For each square the piece on it.
    pub pieces: [Piece; 64],
    /// The hash at the start of this turn.
    pub initial_hash: u64,
    /// The hash after the steps made so far.
    pub current_hash: u64,
    /// The hash at the start of the opponent's latest turn.
    pub opp_last: u64,
    /// The hash at the start of the mover's previous turn.
    pub my_last: u64,
}

/// The thirteen masks and the two occupancy masks say what `pieces` says.
pub open spec fn masks_match(bitboards: Seq<u64>, placement: Seq<u64>, pieces: Seq<Piece>) -> bool {
    &&& bitboards.len() == 13
    &&& placement.len() == 2
    &&& pieces.len() == 64
    &&& forall|k: int, sq: int|
        0 <= k < 13 && 0 <= sq < 64 ==> (#[trigger] has_bit(bitboards[k], sq)
            <==> pieces[sq].index_spec() == k)
    &&& forall|sq: int|
        0 <= sq < 64 ==> (#[trigger] has_bit(placement[0], sq) <==> pieces[sq].is_white())
    &&& forall|sq: int|
        0 <= sq < 64 ==> (#[trigger] has_bit(placement[1], sq) <==> pieces[sq].is_black())
}

/// The XOR of the first `n` masks.
pub open spec fn xor_of(boards: Seq<u64>, n: nat) -> u64
    decreases n,
{
    if n == 0 {
        0
    } else {
        xor_of(boards, (n - 1) as nat) ^ boards[n - 1]
    }
}

/// Thirteen masks that split the board among them: together they hold
/// every square, and no two of them share one.
pub open spec fn is_partition(boards: Seq<u64>) -> bool {
    &&& boards.len() == 13
    &&& xor_of(boards, 13) == u64::MAX
    &&& forall|j: int, k: int| 0 <= j < k < 13 ==> #[trigger] (boards[j] & boards[k]) == 0
}

/// Among masks that share no square, the XOR of the first `n` holds the
/// squares that one of them holds.
proof fn lemma_xor_of_bits(boards: Seq<u64>, n: nat, sq: int)
    requires
        boards.len() == 13,
        n <= 13,
        0 <= sq < 64,
        forall|j: int, k: int|
            0 <= j < k < 13 ==> !(has_bit(boards[j], sq) && has_bit(boards[k], sq)),
    ensures
        has_bit(xor_of(boards, n), sq) <==> exists|k: int| 0 <= k < n && has_bit(boards[k], sq),
    decreases n,
{
    if n == 0 {
        lemma_zero_bits();
    } else {
        let m = (n - 1) as nat;
        lemma_xor_of_bits(boards, m, sq);
        lemma_xor_bits(xor_of(boards, m), boards[m as int]);
        if has_bit(xor_of(boards, m), sq) {
            let k = choose|k: int| 0 <= k < m && has_bit(boards[k], sq);
            assert(!has_bit(boards[m as int], sq));
        }
    }
}

/// In a partition each square lies in exactly one mask.
pub proof fn lemma_partition_squares(boards: Seq<u64>, sq: int)
    requires
        is_partition(boards),
        0 <= sq < 64,
    ensures
        exists|k: int| 0 <= k < 13 && has_bit(boards[k], sq),
        forall|j: int, k: int|
            0 <= j < 13 && 0 <= k < 13 && has_bit(boards[j], sq) && has_bit(boards[k], sq) ==> j
                == k,
{
    lemma_zero_bits();
    assert forall|j: int, k: int| 0 <= j < k < 13 implies !(has_bit(boards[j], sq) && has_bit(
        boards[k],
        sq,
    )) by {
        let both = boards[j] & boards[k];
        assert(both == 0);
        lemma_and_bits(boards[j], boards[k]);
        assert(!has_bit(both, sq));
    }
    lemma_xor_of_bits(boards, 13, sq);
    lemma_full_bits();
}

/// The masks of a board whose three forms agree are a partition: their
/// XOR is the full mask, and the AND of any two is zero.
pub proof fn lemma_masks_partition(bitboards: Seq<u64>, placement: Seq<u64>, pieces: Seq<Piece>)
    requires
        masks_match(bitboards, placement, pieces),
    ensures
        is_partition(bitboards),
{
    lemma_zero_bits();
    lemma_full_bits();
    assert forall|j: int, k: int| 0 <= j < k < 13 implies #[trigger] (bitboards[j] & bitboards[k])
        == 0 by {
        lemma_and_bits(bitboards[j], bitboards[k]);
        lemma_same_bits(bitboards[j] & bitboards[k], 0);
    }
    let all = xor_of(bitboards, 13);
    assert forall|sq: int| 0 <= sq < 64 implies (has_bit(all, sq) <==> has_bit(u64::MAX, sq)) by {
        lemma_xor_of_bits(bitboards, 13, sq);
        assert(has_bit(bitboards[pieces[sq].index_spec()], sq));
    }
    lemma_same_bits(all, u64::MAX);
}

/// The masks that say what `pieces` says, one for each piece kind; `None`
/// unless there are 64 pieces.
pub fn bitboards_from_pieces(pieces: &[Piece]) -> (boards: Option<[u64; 13]>)
    ensures
        boards is Some <==> pieces@.len() == 64,
        match boards {
            Some(masks) => forall|k: int, sq: int|
                0 <= k < 13 && 0 <= sq < 64 ==> (#[trigger] has_bit(masks@[k], sq)
                    <==> pieces@[sq].index_spec() == k),
            None => true,
        },
{
    if pieces.len() != 64 {
        return None;
    }
    let mut bitboards: [u64; 13] = [0; 13];
    proof {
        lemma_zero_bits();
    }
    let mut sq: usize = 0;
    while sq < 64
        invariant
            sq <= 64,
            pieces@.len() == 64,
            forall|k: int, j: int|
                0 <= k < 13 && 0 <= j < 64 ==> (#[trigger] has_bit(bitboards@[k], j) <==> j < sq
                    && pieces@[j].index_spec() == k),
        decreases 64 - sq,
    {
        let kind: usize = pieces[sq].index();
        let bit: u64 = 1u64 << sq;
        proof {
            lemma_single_bit(sq as int);
            lemma_or_bits(bitboards@[kind as int], bit);
        }
        bitboards[kind] = bitboards[kind] | bit;
        sq = sq + 1;
    }
    Some(bitboards)
}

impl Position {
    /// The board's three forms agree, and the remembered step names a
    /// piece and squares of the board.
    pub open spec fn board_ok(&self) -> bool {
        &&& masks_match(self.bitboards@, self.placement@, self.pieces@)
        &&& match self.last_step {
            Some(step) => step.on_board() && step.piece() != Piece::Empty,
            None => true,
        }
    }

    /// Everything that holds of a position between two steps.
    pub open spec fn wf(&self) -> bool {
        &&& self.board_ok()
        &&& self.steps_left <= 4
        &&& (self.steps_left == 4 ==> self.last_step is None)
        &&& self.current_hash == position_hash(self.pieces@, self.side)
    }

    /// A position at the start of a turn, with no history.
    pub open spec fn is_fresh(&self, side: Side, steps_left: u8, pieces: Seq<Piece>) -> bool {
        &&& self.side == side
        &&& self.steps_left == steps_left
        &&& self.pieces@ == pieces
        &&& self.last_step is None
        &&& self.current_hash == position_hash(pieces, side)
        &&& self.initial_hash == self.current_hash
        &&& self.opp_last == 0
        &&& self.my_last == 0
    }

    /// The position that holds `pieces`, with `side` to move.
    pub fn from_pieces(side: Side, steps_left: u8, pieces: [Piece; 64]) -> (pos: Position)
        ensures
            pos.board_ok(),
            pos.is_fresh(side, steps_left, pieces@),
            steps_left <= 4 ==> pos.wf(),
    {
        let mut placement: [u64; 2] = [0, 0];
        let mut bitboards: [u64; 13] = [0; 13];
        proof {
            lemma_zero_bits();
        }
        let mut sq: usize = 0;
        while sq < 64
            invariant
                sq <= 64,
                forall|k: int, j: int|
                    0 <= k < 13 && 0 <= j < 64 ==> (#[trigger] has_bit(bitboards@[k], j) <==> j < sq
                        && pieces@[j].index_spec() == k),
                forall|j: int|
                    0 <= j < 64 ==> (#[trigger] has_bit(placement@[0], j) <==> j < sq
                        && pieces@[j].is_white()),
                forall|j: int|
                    0 <= j < 64 ==> (#[trigger] has_bit(placement@[1], j) <==> j < sq
                        && pieces@[j].is_black()),
            decreases 64 - sq,
        {
            let piece = pieces[sq];
            let kind: usize = piece.index();
            let bit: u64 = 1u64 << sq;
            proof {
                lemma_single_bit(sq as int);
                lemma_or_bits(bitboards@[kind as int], bit);
                lemma_or_bits(placement@[0], bit);
                lemma_or_bits(placement@[1], bit);
            }
            bitboards[kind] = bitboards[kind] | bit;
            if 1 <= kind && kind <= 6 {
                placement[0] = placement[0] | bit;
            } else if kind >= 7 {
                placement[1] = placement[1] | bit;
            }
            sq = sq + 1;
        }
        let hash = compute_hash(&pieces, side);
        Position {
            side,
            steps_left,
            placement,
            bitboards,
            last_step: None,
            pieces,
            initial_hash: hash,
            current_hash: hash,
            opp_last: 0,
            my_last: 0,
        }
    }

    /// The position whose masks are `bitboards`, with `side` to move.
    pub fn new(side: Side, steps_left: u8, bitboards: [u64; 13]) -> (pos: Position)
        requires
            is_partition(bitboards@),
        ensures
            pos.board_ok(),
            pos.bitboards@ == bitboards@,
            pos.is_fresh(side, steps_left, pos.pieces@),
            steps_left <= 4 ==> pos.wf(),
    {
        let mut placement: [u64; 2] = [0, 0];
        let mut pieces: [Piece; 64] = [Piece::Empty; 64];
        proof {
            lemma_zero_bits();
        }
        let mut pix: usize = 1;
        while pix < 13
            invariant
                1 <= pix <= 13,
                is_partition(bitboards@),
                forall|sq: int|
                    0 <= sq < 64 ==> (#[trigger] pieces@[sq].index_spec() != 0 <==> exists|k: int|
                        1 <= k < pix && has_bit(bitboards@[k], sq)),
                forall|k: int, sq: int|
                    1 <= k < pix && 0 <= sq < 64 ==> (#[trigger] has_bit(bitboards@[k], sq)
                        <==> pieces@[sq].index_spec() == k),
                forall|sq: int|
                    0 <= sq < 64 ==> (#[trigger] has_bit(placement@[0], sq)
                        <==> pieces@[sq].is_white()),
                forall|sq: int|
                    0 <= sq < 64 ==> (#[trigger] has_bit(placement@[1], sq)
                        <==> pieces@[sq].is_black()),
            decreases 13 - pix,
        {
            let board: u64 = bitboards[pix];
            let piece = match Piece::from_u8(pix as u8) {
                Some(piece) => piece,
                None => Piece::Empty,
            };
            proof {
                lemma_or_bits(placement@[0], board);
                lemma_or_bits(placement@[1], board);
                lemma_xor_bits(board, board);
            }
            if pix <= 6 {
                placement[0] = placement[0] | board;
            } else {
                placement[1] = placement[1] | board;
            }
            let ghost before = pieces@;
            let mut iter = PieceIter::new(board);
            loop
                invariant
                    1 <= pix < 13,
                    piece.index_spec() == pix,
                    board == bitboards@[pix as int],
                    is_partition(bitboards@),
                    forall|sq: int| #[trigger] has_bit(iter.remaining(), sq) ==> has_bit(board, sq),
                    forall|sq: int|
                        0 <= sq < 64 ==> #[trigger] pieces@[sq] == if has_bit(
                            board ^ iter.remaining(),
                            sq,
                        ) {
                            piece
                        } else {
                            before[sq]
                        },
                ensures
                    iter.remaining() == 0,
                decreases iter.remaining(),
            {
                let ghost left = iter.remaining();
                match iter.next() {
                    None => {
                        break ;
                    },
                    Some(lsb) => {
                        proof {
                            lemma_lowest_bit(left);
                            lemma_xor_bits(board, left);
                            lemma_xor_bits(board, iter.remaining());
                        }
                        let sq: usize = lsb.bitscan_forward();
                        pieces[sq] = piece;
                    },
                }
            }
            proof {
                assert(board ^ 0 == board) by (bit_vector);
                assert forall|sq: int| 0 <= sq < 64 implies (#[trigger] pieces@[sq].index_spec()
                    != 0 <==> exists|k: int| 1 <= k < pix + 1 && has_bit(bitboards@[k], sq)) by {
                    lemma_partition_squares(bitboards@, sq);
                }
                assert forall|k: int, sq: int| 1 <= k < pix + 1 && 0 <= sq < 64 implies (
                #[trigger] has_bit(bitboards@[k], sq) <==> pieces@[sq].index_spec() == k) by {
                    lemma_partition_squares(bitboards@, sq);
                }
                assert forall|sq: int| 0 <= sq < 64 implies (#[trigger] has_bit(
                    placement@[0],
                    sq,
                ) <==> pieces@[sq].is_white()) by {
                    lemma_partition_squares(bitboards@, sq);
                }
                assert forall|sq: int| 0 <= sq < 64 implies (#[trigger] has_bit(
                    placement@[1],
                    sq,
                ) <==> pieces@[sq].is_black()) by {
                    lemma_partition_squares(bitboards@, sq);
                }
            }
            pix = pix + 1;
        }
        proof {
            assert forall|k: int, sq: int| 0 <= k < 13 && 0 <= sq < 64 implies (#[trigger] has_bit(
                bitboards@[k],
                sq,
            ) <==> pieces@[sq].index_spec() == k) by {
                lemma_partition_squares(bitboards@, sq);
            }
        }
        let hash = compute_hash(&pieces, side);
        Position {
            side,
            steps_left,
            placement,
            bitboards,
            last_step: None,
            pieces,
            initial_hash: hash,
            current_hash: hash,
            opp_last: 0,
            my_last: 0,
        }
    }
}

/// Whether the thirteen masks split the board among them.
pub fn boards_split(bitboards: &[u64; 13]) -> (split: bool)
    ensures
        split == is_partition(bitboards@),
{
    let mut all: u64 = 0;
    let mut k: usize = 0;
    while k < 13
        invariant
            k <= 13,
            all == xor_of(bitboards@, k as nat),
            forall|i: int, j: int| 0 <= i < j < k ==> #[trigger] (bitboards@[i] & bitboards@[j]) == 0,
        decreases 13 - k,
    {
        let mut i: usize = 0;
        while i < k
            invariant
                i <= k < 13,
                forall|a: int| 0 <= a < i ==> #[trigger] (bitboards@[a] & bitboards@[k as int]) == 0,
            decreases k - i,
        {
            if bitboards[i] & bitboards[k] != 0 {
                return false;
            }
            i = i + 1;
        }
        all = all ^ bitboards[k];
        k = k + 1;
    }
    all == u64::MAX
}

impl Position {
    /// Whether the position is sound: `wf`, tested square by square.
    pub fn is_sound(&self) -> (sound: bool)
        ensures
            sound == self.wf(),
    {
        if self.steps_left > 4 || (self.steps_left == 4 && self.last_step.is_some()) {
            return false;
        }
        match self.last_step {
            Some(Step::Move(piece, source, dest)) => {
                if source >= 64 || dest >= 64 || piece.index() == 0 {
                    return false;
                }
            },
            Some(Step::Push(piece, source, dest)) => {
                if source >= 64 || dest >= 64 || piece.index() == 0 {
                    return false;
                }
            },
            Some(Step::Place(piece, sq)) => {
                if sq >= 64 || piece.index() == 0 {
                    return false;
                }
            },
            Some(Step::Remove(piece, sq)) => {
                if sq >= 64 || piece.index() == 0 {
                    return false;
                }
            },
            Some(Step::Pass) => {
                return false;
            },
            None => {},
        }
        let mut sq: usize = 0;
        while sq < 64
            invariant
                sq <= 64,
                forall|k: int, j: int|
                    0 <= k < 13 && 0 <= j < sq ==> (#[trigger] has_bit(self.bitboards@[k], j)
                        <==> self.pieces@[j].index_spec() == k),
                forall|j: int|
                    0 <= j < sq ==> (#[trigger] has_bit(self.placement@[0], j)
                        <==> self.pieces@[j].is_white()),
                forall|j: int|
                    0 <= j < sq ==> (#[trigger] has_bit(self.placement@[1], j)
                        <==> self.pieces@[j].is_black()),
            decreases 64 - sq,
        {
            let kind: usize = self.pieces[sq].index();
            let white: bool = (self.placement[0] >> sq) & 1 == 1;
            let black: bool = (self.placement[1] >> sq) & 1 == 1;
            if white != (1 <= kind && kind <= 6) || black != (kind >= 7) {
                assert(!masks_match(self.bitboards@, self.placement@, self.pieces@)) by {
                    assert(white == has_bit(self.placement@[0], sq as int));
                    assert(black == has_bit(self.placement@[1], sq as int));
                }
                return false;
            }
            let mut k: usize = 0;
            while k < 13
                invariant
                    k <= 13,
                    sq < 64,
                    kind == self.pieces@[sq as int].index_spec(),
                    forall|i: int|
                        0 <= i < k ==> (#[trigger] has_bit(self.bitboards@[i], sq as int) <==> kind
                            == i),
                decreases 13 - k,
            {
                let set: bool = (self.bitboards[k] >> sq) & 1 == 1;
                if set != (k == kind) {
                    assert(!masks_match(self.bitboards@, self.placement@, self.pieces@)) by {
                        assert(set == has_bit(self.bitboards@[k as int], sq as int));
                    }
                    return false;
                }
                k = k + 1;
            }
            sq = sq + 1;
        }
        self.current_hash == compute_hash(&self.pieces, self.side)
    }
}

impl Clone for Position {
    fn clone(&self) -> (copy: Position)
        ensures
            copy == *self,
    {
        Position {
            side: self.side,
            steps_left: self.steps_left,
            placement: self.placement,
            bitboards: self.bitboards,
            last_step: self.last_step,
            pieces: self.pieces,
            initial_hash: self.initial_hash,
            current_hash: self.current_hash,
            opp_last: self.opp_last,
            my_last: self.my_last,
        }
    }
}

impl PartialEq for Position {
    fn eq(&self, other: &Position) -> (same: bool) {
        if self.steps_left != other.steps_left || self.side != other.side || self.last_step
            != other.last_step {
            return false;
        }
        let mut k: usize = 0;
        while k < 13
            invariant
                k <= 13,
                forall|j: int| 0 <= j < k ==> self.bitboards@[j] == other.bitboards@[j],
            decreases 13 - k,
        {
            if self.bitboards[k] != other.bitboards[k] {
                return false;
            }
            k = k + 1;
        }
        assert(self.bitboards@ =~= other.bitboards@);
        true
    }
}

impl vstd::std_specs::cmp::PartialEqSpecImpl for Position {
    open spec fn obeys_eq_spec() -> bool {
        true
    }

    /// Two positions are the same when the same side is to move with the
    /// same steps left after the same latest step on the same board.
    open spec fn eq_spec(&self, other: &Position) -> bool {
        self.steps_left == other.steps_left && self.side == other.side && self.last_step
            == other.last_step && self.bitboards@ == other.bitboards@
    }
}

impl Eq for Position {

}

} // verus!
