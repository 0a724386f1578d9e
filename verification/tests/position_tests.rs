use arimaa::board::neighbors_of;
use arimaa::notation::alg_to_index;
use arimaa::notation::ParseError;
use arimaa::piece::EndState;
use arimaa::piece::Piece;
use arimaa::piece::Side;
use arimaa::position::bitboards_from_pieces;
use arimaa::position::boards_split;
use arimaa::position::Position;
use arimaa::step::Step;
use arimaa::zobrist::color_hash;
use arimaa::zobrist::compute_hash;
use arimaa::zobrist::update_hash;

const NOTE: &str = "[ rr r r m h  e c r  r r h dr c dE H    M R RRHR D C  C D R RR R ]";

const POS1: &str = "7g Da1n Cc1n
 +-----------------+
8|   r r   r   r   |
7| m   h     e   c |
6|   r x   r x r   |
5| h   d r   c   d |
4| E   H         M |
3|   R x R R H R   |
2| D   C     C   D |
1|   R   R R   R   |
 +-----------------+
   a b c d e f g h
";

fn sq(name: &str) -> u8 {
    let chars: Vec<char> = name.chars().collect();
    alg_to_index(&chars).unwrap() as u8
}

fn empty_board() -> [Piece; 64] {
    [Piece::Empty; 64]
}

fn board(placements: &[(Piece, &str)]) -> [Piece; 64] {
    let mut pieces = empty_board();
    for (piece, name) in placements {
        pieces[sq(name) as usize] = *piece;
    }
    pieces
}

fn check_forms_agree(pos: &Position) {
    let mut all = 0u64;
    for k in 0..13 {
        all ^= pos.bitboards[k];
        for j in (k + 1)..13 {
            assert_eq!(pos.bitboards[k] & pos.bitboards[j], 0);
        }
    }
    assert_eq!(all, u64::MAX);
    for i in 0..64 {
        let kind = pos.pieces[i].index();
        for k in 0..13 {
            assert_eq!(pos.bitboards[k] >> i & 1 == 1, k == kind);
        }
        assert_eq!(pos.placement[0] >> i & 1 == 1, 1 <= kind && kind <= 6);
        assert_eq!(pos.placement[1] >> i & 1 == 1, kind >= 7);
    }
    assert_eq!(pos.current_hash, compute_hash(&pos.pieces, pos.side));
}

#[test]
fn test_small_notation() {
    let note = NOTE;
    let p = Position::from_small_notation(note.to_string(), Side::Black);
    assert!(p.is_ok());
    assert_eq!(note, p.unwrap().to_small_notation());
}

#[test]
fn test_pos_notation() {
    let mut pos = Position::from_pos_notation(POS1.to_string()).unwrap();
    pos.steps_left = 1;
    println!("{:?}", &pos.pieces[..]);
    let note = pos.to_pos_notation();
    println!("{}", note);
    assert_eq!(POS1, note);
    assert_eq!("dc2e", format!("{}", Step::Move(Piece::BDog, 10, 11).to_string()));
    for side in &[Side::White, Side::Black] {
        pos.side = *side;
        let steps = pos.gen_steps();
        println!("Number of steps: {}", steps.len());
        let index = alg_to_index(&['f', '3']).unwrap();
        assert_eq!(Piece::WHorse, pos.pieces[index]);
    }
}

#[test]
fn small_and_long_notation_hold_the_same_board() {
    let small = Position::from_small_notation(NOTE.to_string(), Side::White).unwrap();
    let long = Position::from_pos_notation(POS1.to_string()).unwrap();
    assert_eq!(small.pieces, long.pieces);
    assert_eq!(long.side, Side::White);
    assert_eq!(long.steps_left, 4);
    assert!(small == long);
    assert_eq!(small.to_pos_notation(), POS1);
    assert_eq!(long.to_small_notation(), NOTE);
    check_forms_agree(&small);
    assert_eq!(small.pieces[sq("a4") as usize], Piece::WElephant);
    assert_eq!(small.pieces[sq("a7") as usize], Piece::BCamel);
    assert_eq!(small.pieces[sq("b8") as usize], Piece::BRabbit);
    assert_eq!(small.pieces[sq("b1") as usize], Piece::WRabbit);
    assert_eq!(small.pieces[sq("a1") as usize], Piece::Empty);
}

#[test]
fn small_notation_round_trip_keeps_pieces_and_side() {
    let pieces = board(&[
        (Piece::WRabbit, "a1"),
        (Piece::BRabbit, "h8"),
        (Piece::WElephant, "d4"),
        (Piece::BCamel, "e5"),
        (Piece::WCat, "c3"),
        (Piece::BDog, "f6"),
    ]);
    for side in [Side::White, Side::Black] {
        let pos = Position::from_pieces(side, 4, pieces);
        let back = Position::from_small_notation(pos.to_small_notation(), side).unwrap();
        assert_eq!(back.pieces, pos.pieces);
        assert_eq!(back.side, side);
        assert_eq!(back.current_hash, pos.current_hash);
    }
    let pos = Position::from_pieces(Side::White, 4, pieces);
    let text = pos.to_small_notation();
    assert_eq!(text.chars().count(), 66);
    assert_eq!(text.chars().next(), Some('['));
    assert_eq!(text.chars().nth(1 + 7), Some('r'));
    assert_eq!(text.chars().nth(1 + 56), Some('R'));
    assert_eq!(text.chars().last(), Some(']'));
    let back = Position::from_pos_notation(pos.to_pos_notation()).unwrap();
    assert_eq!(back.pieces, pos.pieces);
    assert_eq!(back.side, Side::White);
}

#[test]
fn small_notation_errors() {
    let short = "[ rr r r ]".to_string();
    assert!(matches!(
        Position::from_small_notation(short, Side::White),
        Err(ParseError::PieceCount)
    ));
    let long = format!("{} ", NOTE);
    assert!(matches!(
        Position::from_small_notation(long, Side::White),
        Err(ParseError::PieceCount)
    ));
    let unknown = NOTE.replace("m", "z");
    assert!(matches!(
        Position::from_small_notation(unknown, Side::White),
        Err(ParseError::UnknownPiece)
    ));
    let unknown_and_short = "[z]".to_string();
    assert!(matches!(
        Position::from_small_notation(unknown_and_short, Side::White),
        Err(ParseError::UnknownPiece)
    ));
    // brackets may stand anywhere, or be missing
    let bare = NOTE.replace("[", "").replace("]", "");
    let pos = Position::from_small_notation(bare, Side::Black).unwrap();
    assert_eq!(pos.to_small_notation(), NOTE);
    assert!(matches!(
        Position::from_small_notation(String::new(), Side::White),
        Err(ParseError::PieceCount)
    ));
}

#[test]
fn long_notation_errors() {
    assert!(matches!(
        Position::from_pos_notation(String::new()),
        Err(ParseError::Header)
    ));
    assert!(matches!(
        Position::from_pos_notation("   \n".to_string()),
        Err(ParseError::Header)
    ));
    assert!(matches!(
        Position::from_pos_notation(POS1.replace("7g", "7x")),
        Err(ParseError::SideToMove)
    ));
    assert!(matches!(
        Position::from_pos_notation("7g\n +---+\n".to_string()),
        Err(ParseError::Row)
    ));
    assert!(matches!(
        Position::from_pos_notation(POS1.replace("4| E   H         M |", "4  E   H         M  ")),
        Err(ParseError::Row)
    ));
    assert!(matches!(
        Position::from_pos_notation(POS1.replace("4| E   H         M |", "4| E   H |")),
        Err(ParseError::Row)
    ));
    assert!(matches!(
        Position::from_pos_notation(POS1.replace("4| E   H ", "4| E   ? ")),
        Err(ParseError::UnknownPiece)
    ));
    // the side letters
    for (letter, side) in [("w", Side::White), ("g", Side::White), ("b", Side::Black), ("s", Side::Black)] {
        let text = POS1.replace("7g", &format!("12{}", letter));
        let pos = Position::from_pos_notation(text).unwrap();
        assert_eq!(pos.side, side);
        assert_eq!(pos.to_small_notation(), NOTE);
        check_forms_agree(&pos);
    }
    // lines that end in a carriage return and a line feed
    let dos = POS1.replace("\n", "\r\n");
    let pos = Position::from_pos_notation(dos).unwrap();
    assert_eq!(pos.to_small_notation(), NOTE);
}

#[test]
fn opening_text() {
    let op = "Ra1 Db1 Rc1 Rd1 De1 Rf1 Cg1 Rh1 Ra2 Hb2 Cc2 Ed2 Me2 Rf2 Hg2 Rh2\nha7 mb7 cc7 dd7 ee7 cf7 hg7 rh7 ra8 rb8 rc8 rd8 de8 rf8 rg8 rh8";
    let pos = Position::from_opening_str(op).unwrap();
    assert_eq!(pos.side, Side::White);
    assert_eq!(pos.steps_left, 4);
    assert_eq!(pos.last_step, None);
    assert_eq!(pos.pieces[sq("d2") as usize], Piece::WElephant);
    assert_eq!(pos.pieces[sq("b7") as usize], Piece::BCamel);
    assert_eq!(pos.pieces[sq("e4") as usize], Piece::Empty);
    assert_eq!(pos.placement[0], 0xFFFF);
    assert_eq!(pos.placement[1], 0xFFFF_0000_0000_0000);
    assert_eq!(pos.bitboards[0], 0x0000_FFFF_FFFF_0000);
    assert_eq!(pos.initial_hash, pos.current_hash);
    assert_eq!(pos.opp_last, 0);
    assert_eq!(pos.my_last, 0);
    check_forms_agree(&pos);
    assert_eq!(
        pos.to_small_notation(),
        "[rrrrdrrrhmcdechr                                RHCEMRHRRDRRDRCR]"
    );
    // a line feed at the end ends the second line and begins no third
    assert!(Position::from_opening_str(&format!("{}\n", op)).is_some());
    // a later placement on a square replaces an earlier one
    let twice = Position::from_opening_str("Ra1 Ca1\nra8").unwrap();
    assert_eq!(twice.pieces[0], Piece::WCat);
}

#[test]
fn opening_text_errors() {
    assert!(Position::from_opening_str("").is_none());
    assert!(Position::from_opening_str("Ra1").is_none());
    assert!(Position::from_opening_str("Ra1\nra8\nrb8").is_none());
    assert!(Position::from_opening_str("Ra1\nra8\n\n").is_none());
    // the wrong case for the side
    assert!(Position::from_opening_str("ra1\nra8").is_none());
    assert!(Position::from_opening_str("Ra1\nRa8").is_none());
    // no piece, no square, too long
    assert!(Position::from_opening_str("Xa1\nra8").is_none());
    assert!(Position::from_opening_str("Ra9\nra8").is_none());
    assert!(Position::from_opening_str("Ri1\nra8").is_none());
    assert!(Position::from_opening_str("Ra\nra8").is_none());
    assert!(Position::from_opening_str("Ra1n\nra8").is_none());
    // empty lines place nothing
    let none = Position::from_opening_str("\n\n").unwrap();
    assert_eq!(none.bitboards[0], u64::MAX);
}

#[test]
fn constructors_agree() {
    let from_text = Position::from_small_notation(NOTE.to_string(), Side::Black).unwrap();
    let from_pieces = Position::from_pieces(Side::Black, 4, from_text.pieces);
    let from_masks = Position::new(Side::Black, 4, from_text.bitboards);
    assert!(from_text == from_pieces);
    assert!(from_text == from_masks);
    assert_eq!(from_masks.pieces, from_text.pieces);
    assert_eq!(from_masks.placement, from_text.placement);
    assert_eq!(from_masks.current_hash, from_text.current_hash);
    assert_eq!(from_masks.initial_hash, from_text.current_hash);
    assert_eq!(from_masks.last_step, None);
    check_forms_agree(&from_masks);
    let masks = bitboards_from_pieces(&from_text.pieces).unwrap();
    assert_eq!(masks, from_text.bitboards);
    assert_eq!(bitboards_from_pieces(&from_text.pieces[..63]), None);
    assert_eq!(bitboards_from_pieces(&[]), None);
    let copy = from_text.clone();
    assert!(copy == from_text);
    assert_eq!(copy.current_hash, from_text.current_hash);
    let other_side = Position::from_pieces(Side::White, 4, from_text.pieces);
    assert!(other_side != from_text);
    let fewer_steps = Position::from_pieces(Side::Black, 3, from_text.pieces);
    assert!(fewer_steps != from_text);
}

#[test]
fn hash_is_made_of_the_words_of_the_pieces() {
    let none = empty_board();
    assert_eq!(compute_hash(&none, Side::White), 0);
    assert_eq!(compute_hash(&none, Side::Black), color_hash(Side::Black));
    assert_eq!(color_hash(Side::White), 0);
    assert!(color_hash(Side::Black) != 0);
    let one = board(&[(Piece::WCat, "c2")]);
    let word = arimaa::zobrist::get_zobrist(10, Piece::WCat.index(), 0);
    assert_eq!(compute_hash(&one, Side::White), word);
    assert_eq!(arimaa::zobrist::piece_hash(Piece::WCat, 10), word);
    assert_eq!(arimaa::zobrist::piece_hash(Piece::Empty, 10), 0);
    let black = board(&[(Piece::BCat, "c2")]);
    assert_eq!(
        compute_hash(&black, Side::White),
        arimaa::zobrist::get_zobrist(10, Piece::BCat.index(), 1)
    );
    let two = board(&[(Piece::WCat, "c2"), (Piece::BDog, "h8")]);
    assert_eq!(
        compute_hash(&two, Side::Black),
        word ^ arimaa::zobrist::get_zobrist(63, 9, 1) ^ color_hash(Side::Black)
    );
    // a step changes the hash by the words of the squares it touches
    let moved = board(&[(Piece::WCat, "c3")]);
    let step = Step::Move(Piece::WCat, 10, 18);
    assert_eq!(
        update_hash(compute_hash(&one, Side::White), step),
        compute_hash(&moved, Side::White)
    );
    assert_eq!(update_hash(7, Step::Pass), 7);
    assert_eq!(update_hash(0, Step::Place(Piece::WCat, 10)), word);
    assert_eq!(update_hash(word, Step::Remove(Piece::WCat, 10)), 0);
    assert_eq!(update_hash(5, Step::Push(Piece::WCat, 10, 18)), update_hash(5, step));
}

#[test]
fn table_is_what_the_generator_draws() {
    let words = arimaa::zobrist::generate_words(arimaa::zobrist::TABLE_SEED);
    assert_eq!(words.len(), 1665);
    assert_eq!(words[0], color_hash(Side::Black));
    for color in 0..2 {
        for piece in 0..13 {
            for square in 0..64 {
                assert_eq!(
                    words[1 + (color * 13 + piece) * 64 + square],
                    arimaa::zobrist::get_zobrist(square, piece, color)
                );
            }
        }
    }
    let again = arimaa::zobrist::generate_words(arimaa::zobrist::TABLE_SEED);
    assert_eq!(words, again);
    let other = arimaa::zobrist::generate_words(1);
    assert!(words != other);
}

#[test]
fn table_source_text() {
    let words: Vec<u64> = (0..1665u64).collect();
    let mut text = String::from("// table\n");
    arimaa::zobrist::write_table(&mut text, &words);
    assert!(text.starts_with(
        "// table\nconst SIDE_TO_MOVE: u64 = 0;\n\nconst ZOBRIST_PIECES: [[[u64; NUM_SQUARES]; NUM_PIECES]; NUM_COLORS] = [[[\n    1,\n    2,\n"
    ));
    assert!(text.ends_with("    1663,\n    1664,\n]]];\n\n"));
    assert!(text.contains("    64,\n   ], [\n    65,\n"));
    assert!(text.contains("    832,\n  ]], [[\n    833,\n"));
    assert_eq!(text.matches("   ], [\n").count(), 24);
    assert_eq!(text.matches("  ]], [[\n").count(), 1);
    assert_eq!(text.lines().count(), 1 + 2 + 1 + 1664 + 25 + 2);
    let mut big = String::new();
    let mut max = vec![u64::MAX; 1665];
    max[1] = 10;
    max[2] = 1234567890;
    arimaa::zobrist::write_table(&mut big, &max);
    assert!(big.starts_with("const SIDE_TO_MOVE: u64 = 18446744073709551615;\n\n"));
    assert!(big.contains("[[[\n    10,\n    1234567890,\n    18446744073709551615,\n"));
    let mut drawn = String::new();
    arimaa::zobrist::write_zobrist(&mut drawn);
    assert!(drawn.starts_with(&format!(
        "const SIDE_TO_MOVE: u64 = {};\n\n",
        color_hash(Side::Black)
    )));
    assert!(drawn.contains(&format!("[[[\n    {},\n", arimaa::zobrist::get_zobrist(0, 0, 0))));
    assert!(drawn.ends_with(&format!(
        "    {},\n]]];\n\n",
        arimaa::zobrist::get_zobrist(63, 12, 1)
    )));
}

#[test]
fn do_step_moves_a_piece() {
    let pieces = board(&[
        (Piece::WCat, "c2"),
        (Piece::WRabbit, "a1"),
        (Piece::BRabbit, "h8"),
    ]);
    let mut pos = Position::from_pieces(Side::White, 4, pieces);
    let start_hash = pos.current_hash;
    let step = Step::Move(Piece::WCat, sq("c2"), sq("d2"));
    assert!(pos.do_step(step) == EndState::Neither);
    assert_eq!(pos.steps_left, 3);
    assert_eq!(pos.side, Side::White);
    assert_eq!(pos.last_step, Some(step));
    assert_eq!(pos.pieces[sq("c2") as usize], Piece::Empty);
    assert_eq!(pos.pieces[sq("d2") as usize], Piece::WCat);
    assert_eq!(pos.initial_hash, start_hash);
    assert_eq!(pos.current_hash, update_hash(start_hash, step));
    check_forms_agree(&pos);
    assert!(pos.do_step(Step::Pass) == EndState::Neither);
    assert_eq!(pos.side, Side::Black);
    assert_eq!(pos.steps_left, 4);
    assert_eq!(pos.last_step, None);
    assert_eq!(pos.opp_last, start_hash);
    assert_eq!(pos.my_last, 0);
    assert_eq!(pos.initial_hash, pos.current_hash);
    assert_eq!(
        pos.current_hash,
        update_hash(start_hash, step) ^ color_hash(Side::Black)
    );
    check_forms_agree(&pos);
}

#[test]
fn fourth_step_ends_the_turn() {
    let pieces = board(&[
        (Piece::WCat, "a2"),
        (Piece::WRabbit, "a1"),
        (Piece::BRabbit, "h8"),
    ]);
    let mut pos = Position::from_pieces(Side::White, 4, pieces);
    let first = pos.current_hash;
    for (from, to, left) in [("a2", "b2", 3), ("b2", "c2", 2), ("c2", "d2", 1)] {
        assert!(pos.do_step(Step::Move(Piece::WCat, sq(from), sq(to))) == EndState::Neither);
        assert_eq!(pos.steps_left, left);
        assert_eq!(pos.side, Side::White);
    }
    assert!(pos.do_step(Step::Move(Piece::WCat, sq("d2"), sq("e2"))) == EndState::Neither);
    assert_eq!(pos.steps_left, 4);
    assert_eq!(pos.side, Side::Black);
    assert_eq!(pos.last_step, None);
    assert_eq!(pos.opp_last, first);
    check_forms_agree(&pos);
    // Black's turn, then White's: the hashes move down the line
    let second = pos.initial_hash;
    assert!(pos.do_step(Step::Move(Piece::BRabbit, sq("h8"), sq("h7"))) == EndState::Neither);
    assert!(pos.do_step(Step::Pass) == EndState::Neither);
    assert_eq!(pos.side, Side::White);
    assert_eq!(pos.opp_last, second);
    assert_eq!(pos.my_last, first);
    check_forms_agree(&pos);
}

#[test]
fn a_piece_alone_on_a_trap_is_lost() {
    let pieces = board(&[
        (Piece::WCat, "c2"),
        (Piece::WDog, "e3"),
        (Piece::WRabbit, "a1"),
        (Piece::BRabbit, "h8"),
    ]);
    let mut pos = Position::from_pieces(Side::White, 4, pieces);
    let before = pos.current_hash;
    let step = Step::Move(Piece::WCat, sq("c2"), sq("c3"));
    assert!(pos.do_step(step) == EndState::Neither);
    assert_eq!(pos.pieces[sq("c3") as usize], Piece::Empty);
    assert_eq!(pos.pieces[sq("c2") as usize], Piece::Empty);
    assert_eq!(pos.bitboards[Piece::WCat.index()], 0);
    assert_eq!(pos.steps_left, 3);
    assert_eq!(pos.last_step, Some(step));
    assert_eq!(
        pos.current_hash,
        update_hash(update_hash(before, step), Step::Remove(Piece::WCat, sq("c3")))
    );
    check_forms_agree(&pos);
    // with a friend beside the trap the piece stays
    let mut safe = Position::from_pieces(Side::White, 4, pieces);
    assert!(safe.do_step(Step::Move(Piece::WDog, sq("e3"), sq("f3"))) == EndState::Neither);
    assert_eq!(safe.pieces[sq("f3") as usize], Piece::Empty);
    let guarded = board(&[
        (Piece::WCat, "c2"),
        (Piece::WDog, "d3"),
        (Piece::WRabbit, "a1"),
        (Piece::BRabbit, "h8"),
    ]);
    let mut kept = Position::from_pieces(Side::White, 4, guarded);
    assert!(kept.do_step(step) == EndState::Neither);
    assert_eq!(kept.pieces[sq("c3") as usize], Piece::WCat);
    // the guard leaves, and the piece on the trap with it
    assert!(kept.do_step(Step::Move(Piece::WDog, sq("d3"), sq("d4"))) == EndState::Neither);
    assert_eq!(kept.pieces[sq("c3") as usize], Piece::Empty);
    assert_eq!(kept.pieces[sq("d4") as usize], Piece::WDog);
    check_forms_agree(&kept);
    // an enemy beside the trap is no guard
    let enemy = board(&[
        (Piece::WCat, "c2"),
        (Piece::BDog, "d3"),
        (Piece::WRabbit, "a1"),
        (Piece::BRabbit, "h8"),
    ]);
    let mut lost = Position::from_pieces(Side::White, 4, enemy);
    assert!(lost.do_step(step) == EndState::Neither);
    assert_eq!(lost.pieces[sq("c3") as usize], Piece::Empty);
}

#[test]
fn place_and_remove() {
    let mut pos = Position::from_pieces(Side::White, 4, empty_board());
    assert!(pos.do_step(Step::Place(Piece::WRabbit, 0)) == EndState::Neither);
    assert!(pos.do_step(Step::Place(Piece::BElephant, 63)) == EndState::Neither);
    assert_eq!(pos.steps_left, 4);
    assert_eq!(pos.last_step, None);
    assert_eq!(pos.pieces[0], Piece::WRabbit);
    assert_eq!(pos.pieces[63], Piece::BElephant);
    assert_eq!(pos.placement[0], 1);
    assert_eq!(pos.placement[1], 1 << 63);
    assert_eq!(pos.initial_hash, 0);
    check_forms_agree(&pos);
    assert!(pos.do_step(Step::Remove(Piece::BElephant, 63)) == EndState::Neither);
    assert_eq!(pos.pieces[63], Piece::Empty);
    assert_eq!(pos.steps_left, 4);
    check_forms_agree(&pos);
    assert_eq!(
        pos.current_hash,
        compute_hash(&board(&[(Piece::WRabbit, "a1")]), Side::White)
    );
}

#[test]
fn turn_end_verdicts() {
    // a rabbit on the last row wins for the mover
    let goal = board(&[(Piece::WRabbit, "a7"), (Piece::BRabbit, "h8")]);
    let mut pos = Position::from_pieces(Side::White, 1, goal);
    let before = pos.clone();
    assert!(pos.do_step(Step::Move(Piece::WRabbit, sq("a7"), sq("a8"))) == EndState::WhiteWin);
    assert_eq!(pos.side, Side::White);
    assert_eq!(pos.steps_left, 0);
    assert_eq!(pos.last_step, before.last_step);
    assert_eq!(pos.pieces[sq("a8") as usize], Piece::WRabbit);
    check_forms_agree(&pos);
    // Black's goal is the first row
    let goal = board(&[(Piece::WRabbit, "a7"), (Piece::BRabbit, "h2")]);
    let mut pos = Position::from_pieces(Side::Black, 4, goal);
    assert!(pos.do_step(Step::Move(Piece::BRabbit, sq("h2"), sq("h1"))) == EndState::Neither);
    assert!(pos.do_step(Step::Pass) == EndState::BlackWin);
    // both on their goal: the mover wins
    let both = board(&[(Piece::WRabbit, "a8"), (Piece::BRabbit, "h1"), (Piece::WCat, "d4")]);
    let mut pos = Position::from_pieces(Side::White, 4, both);
    assert!(pos.do_step(Step::Move(Piece::WCat, sq("d4"), sq("d5"))) == EndState::Neither);
    assert!(pos.do_step(Step::Pass) == EndState::WhiteWin);
    let mut pos = Position::from_pieces(Side::Black, 3, both);
    assert!(pos.end_turn() == EndState::BlackWin);
    // the opponent's rabbit on its goal wins for the opponent
    let theirs = board(&[(Piece::WRabbit, "a2"), (Piece::BRabbit, "h1")]);
    let mut pos = Position::from_pieces(Side::White, 3, theirs);
    assert!(pos.end_turn() == EndState::BlackWin);
    // no rabbits left
    let none_black = board(&[(Piece::WRabbit, "a2"), (Piece::BCat, "h5")]);
    let mut pos = Position::from_pieces(Side::Black, 3, none_black);
    assert!(pos.end_turn() == EndState::WhiteWin);
    let none_white = board(&[(Piece::WCat, "a2"), (Piece::BRabbit, "h5")]);
    let mut pos = Position::from_pieces(Side::Black, 3, none_white);
    assert!(pos.end_turn() == EndState::BlackWin);
    // none on either side: the mover wins
    let none = board(&[(Piece::WCat, "a2"), (Piece::BCat, "h5")]);
    let mut pos = Position::from_pieces(Side::Black, 3, none);
    assert!(pos.end_turn() == EndState::BlackWin);
    let mut pos = Position::from_pieces(Side::White, 3, none);
    assert!(pos.end_turn() == EndState::WhiteWin);
}

#[test]
fn a_turn_that_changes_nothing_is_lost() {
    let pieces = board(&[
        (Piece::WCat, "c2"),
        (Piece::WRabbit, "a1"),
        (Piece::BRabbit, "h8"),
    ]);
    let mut pos = Position::from_pieces(Side::White, 4, pieces);
    let before = pos.clone();
    assert!(pos.do_step(Step::Pass) == EndState::BlackWin);
    assert!(pos == before);
    assert_eq!(pos.current_hash, before.current_hash);
    // there and back again
    assert!(pos.do_step(Step::Move(Piece::WCat, sq("c2"), sq("d2"))) == EndState::Neither);
    assert!(pos.do_step(Step::Move(Piece::WCat, sq("d2"), sq("c2"))) == EndState::Neither);
    assert!(pos.do_step(Step::Pass) == EndState::BlackWin);
    assert_eq!(pos.side, Side::White);
    assert_eq!(pos.steps_left, 2);
    let mut black = Position::from_pieces(Side::Black, 4, pieces);
    assert!(black.do_step(Step::Pass) == EndState::WhiteWin);
}

#[test]
fn restoring_the_position_of_the_previous_turn_is_lost() {
    let pieces = board(&[
        (Piece::WCat, "c2"),
        (Piece::WRabbit, "a1"),
        (Piece::BRabbit, "h8"),
        (Piece::BCat, "f7"),
    ]);
    let mut pos = Position::from_pieces(Side::White, 4, pieces);
    let start = pos.current_hash;
    assert!(pos.do_step(Step::Move(Piece::WCat, sq("c2"), sq("d2"))) == EndState::Neither);
    assert!(pos.do_step(Step::Pass) == EndState::Neither);
    assert!(pos.do_step(Step::Move(Piece::BCat, sq("f7"), sq("e7"))) == EndState::Neither);
    assert!(pos.do_step(Step::Pass) == EndState::Neither);
    assert_eq!(pos.my_last, start);
    // White goes back, and Black too: Black restores what it began with
    assert!(pos.do_step(Step::Move(Piece::WCat, sq("d2"), sq("c2"))) == EndState::Neither);
    assert!(pos.do_step(Step::Pass) == EndState::Neither);
    assert!(pos.do_step(Step::Move(Piece::BCat, sq("e7"), sq("f7"))) == EndState::Neither);
    assert!(pos.do_step(Step::Pass) == EndState::Neither);
    // the board is as at the start, with White to move, as two turns before
    assert_eq!(pos.current_hash, start);
    assert!(pos.do_step(Step::Move(Piece::WCat, sq("c2"), sq("d2"))) == EndState::Neither);
    assert!(pos.do_step(Step::Move(Piece::WCat, sq("d2"), sq("c2"))) == EndState::Neither);
    assert!(pos.do_step(Step::Pass) == EndState::BlackWin);
}

#[test]
fn neighbors_after_opening() {
    let pos = Position::from_opening_str("Ra1 Rb1\nra8 rb8").unwrap();
    assert_eq!(neighbors_of(pos.placement[0]), 0b0000_0011_0000_0111);
}

#[test]
fn soundness_is_tested_square_by_square() {
    let pos = Position::from_small_notation(NOTE.to_string(), Side::White).unwrap();
    assert!(pos.is_sound());
    assert!(boards_split(&pos.bitboards));
    let mut wrong = pos.clone();
    wrong.pieces[0] = Piece::WCat;
    assert!(!wrong.is_sound());
    let mut wrong = pos.clone();
    wrong.bitboards[1] ^= 1;
    assert!(!wrong.is_sound());
    assert!(!boards_split(&wrong.bitboards));
    let mut wrong = pos.clone();
    wrong.bitboards[0] ^= 1 << 63;
    assert!(!boards_split(&wrong.bitboards));
    let mut wrong = pos.clone();
    wrong.placement[1] ^= 1 << 40;
    assert!(!wrong.is_sound());
    let mut wrong = pos.clone();
    wrong.side = Side::Black;
    assert!(!wrong.is_sound());
    let mut wrong = pos.clone();
    wrong.current_hash ^= 1;
    assert!(!wrong.is_sound());
    let mut wrong = pos.clone();
    wrong.steps_left = 5;
    assert!(!wrong.is_sound());
    let mut wrong = pos.clone();
    wrong.last_step = Some(Step::Move(Piece::WCat, 0, 1));
    assert!(!wrong.is_sound());
    wrong.steps_left = 3;
    assert!(wrong.is_sound());
    wrong.last_step = Some(Step::Move(Piece::WCat, 0, 64));
    assert!(!wrong.is_sound());
    wrong.last_step = Some(Step::Pass);
    assert!(!wrong.is_sound());
    let mut later = pos.clone();
    later.initial_hash = 1;
    later.my_last = 2;
    later.opp_last = 3;
    assert!(later.is_sound());
    assert!(boards_split(&[u64::MAX, 0, 0, 0, 0, 0, 0, 0, 0, 0, 0, 0, 0]));
    assert!(!boards_split(&[0; 13]));
    assert!(!boards_split(&[u64::MAX, 1, 1, 0, 0, 0, 0, 0, 0, 0, 0, 0, 0]));
}

#[test]
fn what_do_step_takes() {
    let pieces = board(&[(Piece::WCat, "c2"), (Piece::BRabbit, "h8")]);
    let pos = Position::from_pieces(Side::White, 4, pieces);
    assert!(pos.takes(Step::Move(Piece::WCat, sq("c2"), sq("c3"))));
    assert!(pos.takes(Step::Push(Piece::BRabbit, sq("h8"), sq("h7"))));
    assert!(pos.takes(Step::Pass));
    assert!(pos.takes(Step::Place(Piece::WDog, sq("a1"))));
    assert!(pos.takes(Step::Remove(Piece::WCat, sq("c2"))));
    // the wrong piece, no piece, a square that is taken, a square off the board
    assert!(!pos.takes(Step::Move(Piece::WDog, sq("c2"), sq("c3"))));
    assert!(!pos.takes(Step::Move(Piece::Empty, sq("c3"), sq("c4"))));
    assert!(!pos.takes(Step::Move(Piece::WCat, sq("c2"), sq("h8"))));
    assert!(!pos.takes(Step::Move(Piece::WCat, sq("c2"), 64)));
    assert!(!pos.takes(Step::Place(Piece::WDog, sq("c2"))));
    assert!(!pos.takes(Step::Place(Piece::Empty, sq("a1"))));
    assert!(!pos.takes(Step::Remove(Piece::WCat, sq("a1"))));
    assert!(!pos.takes(Step::Remove(Piece::WDog, sq("c2"))));
    let spent = Position::from_pieces(Side::White, 0, pieces);
    assert!(!spent.takes(Step::Move(Piece::WCat, sq("c2"), sq("c3"))));
    assert!(spent.takes(Step::Pass));
    // what is offered is taken
    let mut pos = Position::from_small_notation(NOTE.to_string(), Side::White).unwrap();
    pos.steps_left = 2;
    for step in pos.gen_steps() {
        assert!(pos.takes(step));
        assert!(pos.offers(step));
    }
    assert!(!pos.offers(Step::Move(Piece::WRabbit, sq("b3"), sq("b2"))));
    assert!(!pos.offers(Step::Place(Piece::WRabbit, sq("a1"))));
    assert!(pos.offers(Step::Pass));
}
