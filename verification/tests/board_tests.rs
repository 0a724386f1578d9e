use arimaa::board::index_to_lsb;
use arimaa::board::neighbors_of;
use arimaa::board::rabbit_steps;
use arimaa::board::Bitboard;
use arimaa::board::PieceIter;
use arimaa::board::TRAP_INDICES;
use arimaa::board::TRAP_NEIGHBORS;
use arimaa::count::square_moves;
use arimaa::notation::alg_to_index;
use arimaa::notation::index_to_alg;
use arimaa::notation::NotationIter;
use arimaa::piece::piece_char_index;
use arimaa::piece::Direction;
use arimaa::piece::EndState;
use arimaa::piece::Piece;
use arimaa::piece::Side;
use arimaa::position::Position;
use arimaa::step::Step;

#[test]
fn new_start() {
    let op = "Ra1 Db1 Rc1 Rd1 De1 Rf1 Cg1 Rh1 Ra2 Hb2 Cc2 Ed2 Me2 Rf2 Hg2 Rh2
        ha7 mb7 cc7 dd7 ee7 cf7 hg7 rh7 ra8 rb8 rc8 rd8 de8 rf8 rg8 rh8";
    let pos = Position::from_opening_str(op);
    assert!(pos.is_some());
    let pos = pos.unwrap();
    let wneighbors = neighbors_of(pos.placement[0]);
    let bneighbors = neighbors_of(pos.placement[1]);
    assert_eq!(wneighbors, 0xFFFFFF); // rows 1, 2, 3
    assert_eq!(bneighbors, 0xFFFFFF0000000000); // rows 6, 7, 8
}

#[test]
fn total_moves() {
    let total = arimaa::count::total_moves();
    assert!(512 < total && total < 1569); // Somewhat loose bounds for sanity check
}

#[test]
fn total_moves_exact() {
    assert_eq!(arimaa::count::total_moves(), 1393);
    let mut interior = 0;
    let mut sum = 1;
    for sq in 0..64u8 {
        let n = square_moves(sq);
        assert!(8 <= n && n <= 28);
        if n == 28 {
            interior += 1;
            assert!(2 <= sq % 8 && sq % 8 <= 5 && 2 <= sq / 8 && sq / 8 <= 5);
        }
        sum += n;
    }
    assert_eq!(interior, 16);
    assert_eq!(sum, 1393);
    assert_eq!(square_moves(0), 8);
    assert_eq!(square_moves(1), 15);
    assert_eq!(square_moves(9), 26);
    assert_eq!(square_moves(10), 27);
    assert_eq!(square_moves(27), 28);
}

#[test]
fn test_bit_tricks() {
    let t1: u64 = 0b0110;
    let t2: u64 = 0b1111;
    let t3: u64 = 0b1000_0000;
    assert_eq!(t1.bitscan_forward(), 1);
    assert_eq!(t2.bitscan_forward(), 0);
    assert_eq!(t3.bitscan_forward(), 7);
    let index = alg_to_index(&['f', '3']).unwrap();
    println!("{}", index);
    println!("{:b}", index_to_lsb(index as u8));
}

#[test]
fn bit_tricks_more() {
    assert_eq!((1u64 << 63).bitscan_forward(), 63);
    assert_eq!(0x8000_0000_0000_0001u64.bitscan_forward(), 0);
    assert_eq!(0b0110u64.isolate_lsb(), 0b0010);
    assert_eq!(0u64.isolate_lsb(), 0);
    assert_eq!((1u64 << 63).isolate_lsb(), 1u64 << 63);
    assert_eq!(1u64.negate(), u64::MAX);
    assert_eq!(0u64.negate(), 0);
    assert_eq!(5u64.negate(), 5u64.wrapping_neg());
    assert_eq!(index_to_lsb(0), 1);
    assert_eq!(index_to_lsb(63), 1u64 << 63);
    assert_eq!(index_to_lsb(18), 0x40000);
}

#[test]
fn neighbors_of_single_squares() {
    // a1 has two neighbours, b1 and a2
    assert_eq!(neighbors_of(1), (1 << 1) | (1 << 8));
    // h1
    assert_eq!(neighbors_of(1 << 7), (1 << 6) | (1 << 15));
    // h8
    assert_eq!(neighbors_of(1 << 63), (1 << 62) | (1 << 55));
    // an inner square
    assert_eq!(neighbors_of(1 << 27), (1 << 26) | (1 << 28) | (1 << 19) | (1 << 35));
    // no wrapping from one row into the next
    assert_eq!(neighbors_of(1 << 8) & (1 << 7), 0);
    assert_eq!(neighbors_of(0), 0);
    for i in 0..4 {
        assert_eq!(neighbors_of(1u64 << TRAP_INDICES[i]), TRAP_NEIGHBORS[i]);
    }
}

#[test]
fn rabbit_steps_directions() {
    let sq = 1u64 << 27;
    assert_eq!(rabbit_steps(Side::White, sq), (1 << 26) | (1 << 28) | (1 << 35));
    assert_eq!(rabbit_steps(Side::Black, sq), (1 << 26) | (1 << 28) | (1 << 19));
    // on the edge
    assert_eq!(rabbit_steps(Side::White, 1 << 56), 1 << 57);
    assert_eq!(rabbit_steps(Side::Black, 1 << 7), 1 << 6);
    assert_eq!(rabbit_steps(Side::White, 1 << 7), (1 << 6) | (1 << 15));
}

#[test]
fn piece_iter_hands_out_bits_lowest_first() {
    let mut iter = PieceIter::new(0b1010_0001);
    assert_eq!(iter.next(), Some(0b1));
    assert_eq!(iter.next(), Some(0b10_0000));
    assert_eq!(iter.next(), Some(0b1000_0000));
    assert_eq!(iter.next(), None);
    assert_eq!(iter.next(), None);
    let mut none = PieceIter::new(0);
    assert_eq!(none.next(), None);
    let mut all = PieceIter::new(u64::MAX);
    let mut count = 0;
    while let Some(bit) = all.next() {
        assert_eq!(bit, 1u64 << count);
        count += 1;
    }
    assert_eq!(count, 64);
}

#[test]
fn notation_iter_reads_from_a8_to_h1() {
    let mut iter = NotationIter::new();
    let mut seen = Vec::new();
    while let Some(sq) = iter.next() {
        seen.push(sq);
    }
    assert_eq!(seen.len(), 64);
    assert_eq!(seen[0], 56);
    assert_eq!(seen[7], 63);
    assert_eq!(seen[8], 48);
    assert_eq!(seen[63], 7);
    assert_eq!(iter.next(), None);
    let mut sorted = seen.clone();
    sorted.sort();
    let all: Vec<usize> = (0..64).collect();
    assert_eq!(sorted, all);
}

#[test]
fn algebraic_squares() {
    assert_eq!(alg_to_index(&['a', '1']), Some(0));
    assert_eq!(alg_to_index(&['h', '1']), Some(7));
    assert_eq!(alg_to_index(&['a', '8']), Some(56));
    assert_eq!(alg_to_index(&['h', '8']), Some(63));
    assert_eq!(alg_to_index(&['f', '3']), Some(18 + 3));
    assert_eq!(alg_to_index(&['c', '3']), Some(18));
    assert_eq!(alg_to_index(&['i', '1']), None);
    assert_eq!(alg_to_index(&['a', '9']), None);
    assert_eq!(alg_to_index(&['a', '0']), None);
    assert_eq!(alg_to_index(&['A', '1']), None);
    assert_eq!(alg_to_index(&['a']), None);
    assert_eq!(alg_to_index(&['a', '1', '1']), None);
    assert_eq!(alg_to_index(&[]), None);
    assert_eq!(index_to_alg(0), ('a', 1));
    assert_eq!(index_to_alg(63), ('h', 8));
    assert_eq!(index_to_alg(10), ('c', 2));
    for sq in 0..64u8 {
        let (col, row) = index_to_alg(sq);
        let digit = (b'0' + row) as char;
        assert_eq!(alg_to_index(&[col, digit]), Some(sq as usize));
    }
}

#[test]
fn pieces_sides_and_letters() {
    assert_eq!(Side::White.opposite(), Side::Black);
    assert_eq!(Side::Black.opposite(), Side::White);
    assert_eq!(EndState::from(Side::White), EndState::WhiteWin);
    assert_eq!(EndState::from(Side::Black), EndState::BlackWin);
    let letters = [' ', 'R', 'C', 'D', 'H', 'M', 'E', 'r', 'c', 'd', 'h', 'm', 'e'];
    for n in 0..13u8 {
        let piece = Piece::from_u8(n).unwrap();
        assert_eq!(piece.index(), n as usize);
        assert_eq!(char::from(piece), letters[n as usize]);
        assert_eq!(piece.to_char(), letters[n as usize]);
        assert_eq!(piece_char_index(letters[n as usize]), n);
        let strength = if n > 6 { n - 6 } else { n };
        assert_eq!(piece.strength(), strength as usize);
        assert_eq!(piece.is_of(Side::White), 1 <= n && n <= 6);
        assert_eq!(piece.is_of(Side::Black), n >= 7);
    }
    assert_eq!(Piece::from_u8(13), None);
    assert_eq!(Piece::from_u8(255), None);
    assert_eq!(piece_char_index('x'), 0);
    assert_eq!(piece_char_index('Z'), 0);
    assert_eq!(Piece::Empty.side(), None);
    assert_eq!(Piece::WCamel.side(), Some(Side::White));
    assert_eq!(Piece::BRabbit.side(), Some(Side::Black));
    assert_eq!(char::from(Direction::North), 'n');
    assert_eq!(char::from(Direction::East), 'e');
    assert_eq!(char::from(Direction::South), 's');
    assert_eq!(char::from(Direction::West), 'w');
    assert_eq!(Direction::from_char('n'), Some(Direction::North));
    assert_eq!(Direction::from_char('w'), Some(Direction::West));
    assert_eq!(Direction::from_char('x'), None);
}

#[test]
fn test_step_display() {
    let source = alg_to_index(&['c', '2']).unwrap();
    let dest = alg_to_index(&['c', '1']).unwrap();
    let step = Step::Move(Piece::WCat, source as u8, dest as u8);
    println!("{} -> {}", source, dest);
    assert_eq!(format!("{}", step.to_string()), "Cc2s".to_string());
}

#[test]
fn step_text_of_each_kind() {
    assert_eq!(Step::Move(Piece::BDog, 10, 11).to_string(), "dc2e");
    assert_eq!(Step::Move(Piece::BDog, 10, 9).to_string(), "dc2w");
    assert_eq!(Step::Move(Piece::BDog, 10, 18).to_string(), "dc2n");
    assert_eq!(Step::Push(Piece::WRabbit, 63, 55).to_string(), "Rh8s");
    assert_eq!(Step::Place(Piece::WElephant, 11).to_string(), "Ed2");
    assert_eq!(Step::Remove(Piece::BHorse, 18).to_string(), "hc3x");
    assert_eq!(Step::Pass.to_string(), "[Pass]");
}

#[test]
fn step_from_notation() {
    assert_eq!(Step::from_notation("Cc2s"), Some(Step::Move(Piece::WCat, 10, 2)));
    assert_eq!(Step::from_notation("dc2e"), Some(Step::Move(Piece::BDog, 10, 11)));
    assert_eq!(Step::from_notation("dc2w"), Some(Step::Move(Piece::BDog, 10, 9)));
    assert_eq!(Step::from_notation("dc2n"), Some(Step::Move(Piece::BDog, 10, 18)));
    assert_eq!(Step::from_notation("Ed2"), Some(Step::Place(Piece::WElephant, 11)));
    assert_eq!(Step::from_notation("hc3x"), Some(Step::Remove(Piece::BHorse, 18)));
    // off the board
    assert_eq!(Step::from_notation("Ra1w"), None);
    assert_eq!(Step::from_notation("Ra1s"), None);
    assert_eq!(Step::from_notation("Rh8n"), None);
    assert_eq!(Step::from_notation("Rh8e"), None);
    // no step
    assert_eq!(Step::from_notation(""), None);
    assert_eq!(Step::from_notation("Ra"), None);
    assert_eq!(Step::from_notation("Ra1ee"), None);
    assert_eq!(Step::from_notation("Ra9"), None);
    assert_eq!(Step::from_notation("Xa1"), None);
    assert_eq!(Step::from_notation(" a1"), None);
    assert_eq!(Step::from_notation("Ra1q"), None);
    assert_eq!(Step::from_notation("[Pass]"), None);
    // what is written can be read
    for sq in 0..64u8 {
        let place = Step::Place(Piece::WCat, sq);
        assert_eq!(Step::from_notation(&place.to_string()), Some(place));
        let gone = Step::Remove(Piece::BCamel, sq);
        assert_eq!(Step::from_notation(&gone.to_string()), Some(gone));
        if sq % 8 != 7 {
            let east = Step::Move(Piece::WDog, sq, sq + 1);
            assert_eq!(Step::from_notation(&east.to_string()), Some(east));
        }
        if sq >= 8 {
            let south = Step::Move(Piece::WDog, sq, sq - 8);
            assert_eq!(Step::from_notation(&south.to_string()), Some(south));
        }
    }
}
