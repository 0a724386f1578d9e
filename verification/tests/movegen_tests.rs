use arimaa::game::Move;
use arimaa::notation::alg_to_index;
use arimaa::piece::EndState;
use arimaa::piece::Piece;
use arimaa::piece::Side;
use arimaa::position::Position;
use arimaa::search::interpret_evaluation_for_player;
use arimaa::search::ArimaaGame;
use arimaa::step::Step;

const MIDGAME: &str = "[ rr r r m h  e c r  r r h dr c dE H    M R RRHR D C  C D R RR R ]";

fn square(name: &str) -> u8 {
    let chars: Vec<char> = name.chars().collect();
    alg_to_index(&chars).unwrap() as u8
}

fn set_up(placements: &[(Piece, &str)]) -> [Piece; 64] {
    let mut pieces = [Piece::Empty; 64];
    for (piece, name) in placements {
        pieces[square(name) as usize] = *piece;
    }
    pieces
}

fn around(sq: usize) -> Vec<usize> {
    let mut out = Vec::new();
    if sq % 8 != 7 {
        out.push(sq + 1);
    }
    if sq % 8 != 0 {
        out.push(sq - 1);
    }
    if sq + 8 < 64 {
        out.push(sq + 8);
    }
    if sq >= 8 {
        out.push(sq - 8);
    }
    out
}

fn is_frozen(pieces: &[Piece; 64], sq: usize) -> bool {
    let me = pieces[sq];
    let mine = me.side();
    if mine.is_none() {
        return false;
    }
    let mut friend = false;
    let mut stronger_enemy = false;
    for nb in around(sq) {
        let other = pieces[nb];
        if other.side().is_some() {
            if other.side() == mine {
                friend = true;
            } else if other.strength() > me.strength() {
                stronger_enemy = true;
            }
        }
    }
    stronger_enemy && !friend
}

/// The steps that the rules allow, found square by square.
fn expected_steps(pos: &Position) -> Vec<Step> {
    let pieces = &pos.pieces;
    let side = pos.side;
    let mut out = Vec::new();
    if let Some(Step::Push(pushed, vacated, _)) = pos.last_step {
        if pieces[vacated as usize] == Piece::Empty {
            for from in around(vacated as usize) {
                let p = pieces[from];
                if p.is_of(side) && p.strength() > pushed.strength() {
                    out.push(Step::Move(p, from as u8, vacated));
                }
            }
        }
        return out;
    }
    if let Some(Step::Move(puller, source, dest)) = pos.last_step {
        if puller.is_of(side)
            && puller.strength() > 1
            && pieces[dest as usize] == puller
            && pieces[source as usize] == Piece::Empty
        {
            for from in around(source as usize) {
                let p = pieces[from];
                if p.is_of(side.opposite()) && p.strength() < puller.strength() {
                    out.push(Step::Move(p, from as u8, source));
                }
            }
        }
    }
    for from in 0..64usize {
        let p = pieces[from];
        if p.is_of(side) && !is_frozen(pieces, from) {
            for to in around(from) {
                if pieces[to] != Piece::Empty {
                    continue;
                }
                if p.strength() == 1 {
                    let back = match side {
                        Side::White => to + 8 == from,
                        Side::Black => from + 8 == to,
                    };
                    if back {
                        continue;
                    }
                }
                out.push(Step::Move(p, from as u8, to as u8));
            }
        }
    }
    if pos.steps_left >= 2 {
        for from in 0..64usize {
            let p = pieces[from];
            if !p.is_of(side.opposite()) {
                continue;
            }
            let pusher = around(from).into_iter().any(|nb| {
                pieces[nb].is_of(side)
                    && pieces[nb].strength() > p.strength()
                    && !is_frozen(pieces, nb)
            });
            if pusher {
                for to in around(from) {
                    if pieces[to] == Piece::Empty {
                        out.push(Step::Push(p, from as u8, to as u8));
                    }
                }
            }
        }
    }
    if pos.steps_left != 4 {
        out.push(Step::Pass);
    }
    out
}

fn key(step: &Step) -> (u8, usize, u8, u8) {
    match *step {
        Step::Move(p, a, b) => (0, p.index(), a, b),
        Step::Push(p, a, b) => (1, p.index(), a, b),
        Step::Place(p, a) => (2, p.index(), a, 0),
        Step::Remove(p, a) => (3, p.index(), a, 0),
        Step::Pass => (4, 0, 0, 0),
    }
}

fn keys(steps: &[Step]) -> Vec<(u8, usize, u8, u8)> {
    let mut out: Vec<_> = steps.iter().map(key).collect();
    out.sort();
    out.dedup();
    out
}

fn check_generation(pos: &Position) {
    let found = pos.gen_steps();
    let expected = expected_steps(pos);
    assert_eq!(keys(&found), keys(&expected));
    // nothing is offered twice
    assert_eq!(keys(&found).len(), found.len());
}

fn texts(steps: &[Step]) -> Vec<String> {
    let mut out: Vec<String> = steps
        .iter()
        .map(|s| match s {
            Step::Push(..) => format!("push {}", s.to_string()),
            _ => s.to_string(),
        })
        .collect();
    out.sort();
    out
}

#[test]
fn lone_pieces() {
    let pieces = set_up(&[(Piece::WCat, "d4"), (Piece::BRabbit, "h8")]);
    let pos = Position::from_pieces(Side::White, 4, pieces);
    assert_eq!(texts(&pos.gen_steps()), vec!["Cd4e", "Cd4n", "Cd4s", "Cd4w"]);
    let pos = Position::from_pieces(Side::White, 3, pieces);
    assert_eq!(
        texts(&pos.gen_steps()),
        vec!["Cd4e", "Cd4n", "Cd4s", "Cd4w", "[Pass]"]
    );
    let pos = Position::from_pieces(Side::Black, 2, pieces);
    assert_eq!(texts(&pos.gen_steps()), vec!["[Pass]", "rh8s", "rh8w"]);
    let corner = set_up(&[(Piece::WElephant, "a1")]);
    let pos = Position::from_pieces(Side::White, 4, corner);
    assert_eq!(texts(&pos.gen_steps()), vec!["Ea1e", "Ea1n"]);
    let none = Position::from_pieces(Side::White, 4, [Piece::Empty; 64]);
    assert!(none.gen_steps().is_empty());
    let none = Position::from_pieces(Side::White, 1, [Piece::Empty; 64]);
    assert_eq!(texts(&none.gen_steps()), vec!["[Pass]"]);
}

#[test]
fn rabbits_do_not_go_back() {
    let pieces = set_up(&[(Piece::WRabbit, "d4"), (Piece::BRabbit, "e5")]);
    let white = Position::from_pieces(Side::White, 4, pieces);
    assert_eq!(texts(&white.gen_steps()), vec!["Rd4e", "Rd4n", "Rd4w"]);
    let black = Position::from_pieces(Side::Black, 4, pieces);
    assert_eq!(texts(&black.gen_steps()), vec!["re5e", "re5s", "re5w"]);
    for pos in [white, black] {
        for step in pos.gen_steps() {
            if let Step::Move(p, from, to) = step {
                if p == Piece::WRabbit {
                    assert!(to / 8 >= from / 8);
                }
                if p == Piece::BRabbit {
                    assert!(to / 8 <= from / 8);
                }
            }
        }
    }
}

#[test]
fn frozen_pieces_stay() {
    // the cat stands beside a stronger enemy, with no friend near
    let pieces = set_up(&[(Piece::WCat, "d4"), (Piece::BDog, "d5"), (Piece::WRabbit, "a1")]);
    let pos = Position::from_pieces(Side::White, 4, pieces);
    assert_eq!(texts(&pos.gen_steps()), vec!["Ra1e", "Ra1n"]);
    let (_, frozen) = pos.strength_masks();
    assert_eq!(frozen, 1u64 << square("d4"));
    // a friend beside it frees it
    let pieces = set_up(&[(Piece::WCat, "d4"), (Piece::BDog, "d5"), (Piece::WRabbit, "c4")]);
    let pos = Position::from_pieces(Side::White, 1, pieces);
    let (stronger, frozen) = pos.strength_masks();
    assert_eq!(frozen, 0);
    assert_eq!(
        stronger[0],
        (1u64 << square("d4")) | (1u64 << square("d5"))
    );
    assert_eq!(stronger[1], 1u64 << square("d5"));
    assert_eq!(stronger[2], 0);
    assert_eq!(stronger[5], 0);
    assert_eq!(
        texts(&pos.gen_steps()),
        vec!["Cd4e", "Cd4s", "Rc4n", "Rc4w", "[Pass]"]
    );
    // an enemy of the same strength freezes nothing
    let pieces = set_up(&[(Piece::WCat, "d4"), (Piece::BCat, "d5")]);
    let pos = Position::from_pieces(Side::White, 1, pieces);
    assert_eq!(pos.strength_masks().1, 0);
    // frozen rabbits
    let pieces = set_up(&[(Piece::WRabbit, "d4"), (Piece::BCat, "d5")]);
    let pos = Position::from_pieces(Side::White, 1, pieces);
    assert_eq!(pos.strength_masks().1, 1u64 << square("d4"));
    assert_eq!(texts(&pos.gen_steps()), vec!["[Pass]"]);
}

#[test]
fn pushes_need_two_steps() {
    let pieces = set_up(&[(Piece::WDog, "d4"), (Piece::BCat, "d5"), (Piece::BRabbit, "h8")]);
    let pos = Position::from_pieces(Side::White, 2, pieces);
    assert_eq!(
        texts(&pos.gen_steps()),
        vec!["Dd4e", "Dd4s", "Dd4w", "[Pass]", "push cd5e", "push cd5n", "push cd5w"]
    );
    let pos = Position::from_pieces(Side::White, 1, pieces);
    assert_eq!(texts(&pos.gen_steps()), vec!["Dd4e", "Dd4s", "Dd4w", "[Pass]"]);
    // an equal piece cannot be pushed
    let pieces = set_up(&[(Piece::WCat, "d4"), (Piece::BCat, "d5")]);
    let pos = Position::from_pieces(Side::White, 4, pieces);
    assert_eq!(texts(&pos.gen_steps()), vec!["Cd4e", "Cd4s", "Cd4w"]);
    // a frozen piece cannot push
    let pieces = set_up(&[
        (Piece::WDog, "d4"),
        (Piece::BCat, "d5"),
        (Piece::BElephant, "c4"),
        (Piece::WRabbit, "a1"),
    ]);
    let pos = Position::from_pieces(Side::White, 4, pieces);
    assert_eq!(texts(&pos.gen_steps()), vec!["Ra1e", "Ra1n"]);
}

#[test]
fn a_push_has_to_be_completed() {
    let pieces = set_up(&[
        (Piece::WDog, "d4"),
        (Piece::WElephant, "c5"),
        (Piece::WCat, "e5"),
        (Piece::BCat, "d5"),
        (Piece::BRabbit, "h8"),
        (Piece::WRabbit, "a1"),
    ]);
    let mut pos = Position::from_pieces(Side::White, 4, pieces);
    let push = Step::Push(Piece::BCat, square("d5"), square("d6"));
    assert!(pos.gen_steps().contains(&push));
    assert!(pos.do_step(push) == EndState::Neither);
    assert_eq!(pos.last_step, Some(push));
    assert_eq!(pos.steps_left, 3);
    // the dog and the elephant may follow, the cat is not stronger
    let next = pos.gen_steps();
    assert_eq!(texts(&next), vec!["Dd4n", "Ec5e"]);
    assert!(!next.contains(&Step::Pass));
    check_generation(&pos);
    assert!(pos.do_step(Step::Move(Piece::WDog, square("d4"), square("d5"))) == EndState::Neither);
    assert_eq!(pos.steps_left, 2);
    check_generation(&pos);
    assert!(pos.gen_steps().contains(&Step::Pass));
}

#[test]
fn a_slide_opens_a_pull() {
    let pieces = set_up(&[
        (Piece::WDog, "d4"),
        (Piece::BCat, "d5"),
        (Piece::BHorse, "c4"),
        (Piece::BRabbit, "e4"),
        (Piece::WRabbit, "a1"),
        (Piece::WCat, "d2"),
    ]);
    let mut pos = Position::from_pieces(Side::White, 4, pieces);
    assert!(pos.do_step(Step::Move(Piece::WDog, square("d4"), square("d3"))) == EndState::Neither);
    let steps = pos.gen_steps();
    // the cat and the rabbit can be pulled onto d4, the horse is too strong
    assert!(steps.contains(&Step::Move(Piece::BCat, square("d5"), square("d4"))));
    assert!(steps.contains(&Step::Move(Piece::BRabbit, square("e4"), square("d4"))));
    assert!(!steps.contains(&Step::Move(Piece::BHorse, square("c4"), square("d4"))));
    check_generation(&pos);
    // the pulled rabbit went where no rabbit goes by itself: sideways west is
    // fine, but a pull may also take it up the board
    assert!(pos.do_step(Step::Move(Piece::BCat, square("d5"), square("d4"))) == EndState::Neither);
    // a pull opens no further pull
    let after = pos.gen_steps();
    assert!(!after.contains(&Step::Move(Piece::BRabbit, square("e4"), square("d5"))));
    check_generation(&pos);
    // a rabbit's slide opens none
    let mut pos = Position::from_pieces(Side::White, 4, pieces);
    assert!(pos.do_step(Step::Move(Piece::WRabbit, square("a1"), square("a2"))) == EndState::Neither);
    check_generation(&pos);
    for step in pos.gen_steps() {
        if let Step::Move(p, _, _) = step {
            assert!(p.is_of(Side::White));
        }
    }
}

#[test]
fn no_pull_once_the_puller_is_lost() {
    // the dog steps onto a trap with no friend near and is taken off
    let pieces = set_up(&[
        (Piece::WDog, "c2"),
        (Piece::BCat, "b2"),
        (Piece::WRabbit, "h1"),
        (Piece::BRabbit, "h8"),
    ]);
    let mut pos = Position::from_pieces(Side::White, 4, pieces);
    assert!(pos.do_step(Step::Move(Piece::WDog, square("c2"), square("c3"))) == EndState::Neither);
    assert_eq!(pos.pieces[square("c3") as usize], Piece::Empty);
    let steps = pos.gen_steps();
    assert!(!steps.contains(&Step::Move(Piece::BCat, square("b2"), square("c2"))));
    check_generation(&pos);
}

#[test]
fn midgame_position_against_the_rules() {
    for side in [Side::White, Side::Black] {
        for steps_left in 1..=4u8 {
            let mut pos = Position::from_small_notation(MIDGAME.to_string(), side).unwrap();
            pos.steps_left = steps_left;
            check_generation(&pos);
        }
    }
    let pos = Position::from_small_notation(MIDGAME.to_string(), Side::White).unwrap();
    let steps = pos.gen_steps();
    assert!(steps.contains(&Step::Move(Piece::WElephant, square("a4"), square("b4"))));
    assert!(steps.contains(&Step::Move(Piece::WElephant, square("a4"), square("a3"))));
    assert!(!steps.contains(&Step::Pass));
    // the elephant pushes the horse on a5, which can only go to b5
    assert!(steps.contains(&Step::Push(Piece::BHorse, square("a5"), square("b5"))));
    // the rabbit on b3 cannot go back to b2
    assert!(!steps.contains(&Step::Move(Piece::WRabbit, square("b3"), square("b2"))));
    assert!(steps.contains(&Step::Move(Piece::WRabbit, square("b3"), square("b4"))));
}

#[test]
fn generation_along_a_game() {
    let mut pos = Position::from_small_notation(MIDGAME.to_string(), Side::White).unwrap();
    let mut made = 0;
    let mut pick = 7usize;
    while made < 200 {
        check_generation(&pos);
        let steps = pos.gen_steps();
        if steps.is_empty() {
            break;
        }
        pick = pick.wrapping_mul(6364136223846793005).wrapping_add(1442695040888963407);
        let step = steps[(pick >> 33) % steps.len()];
        let before = pos.clone();
        let state = pos.do_step(step);
        made += 1;
        // the three forms of the board agree, and the hash is that of the board
        let mut all = 0u64;
        for k in 0..13 {
            all ^= pos.bitboards[k];
        }
        assert_eq!(all, u64::MAX);
        for i in 0..64 {
            assert_eq!(pos.bitboards[pos.pieces[i].index()] >> i & 1, 1);
        }
        assert_eq!(
            pos.current_hash,
            arimaa::zobrist::compute_hash(&pos.pieces, pos.side)
        );
        // only the two squares of the step and the traps change
        if let Step::Move(_, from, to) | Step::Push(_, from, to) = step {
            for i in 0..64u8 {
                if i != from && i != to && ![18, 21, 42, 45].contains(&i) {
                    assert_eq!(pos.pieces[i as usize], before.pieces[i as usize]);
                }
            }
        }
        if state != EndState::Neither {
            break;
        }
        if pos.side != before.side {
            assert_eq!(pos.steps_left, 4);
            assert_eq!(pos.last_step, None);
            assert_eq!(pos.initial_hash, pos.current_hash);
            assert_eq!(pos.opp_last, before.initial_hash);
            assert_eq!(pos.my_last, before.opp_last);
            assert!(pos.initial_hash != before.initial_hash);
        } else {
            assert_eq!(pos.steps_left + 1, before.steps_left);
            assert_eq!(pos.last_step, Some(step));
            assert_eq!(pos.initial_hash, before.initial_hash);
        }
    }
    assert!(made > 20);
}

#[test]
fn moves_from_lines() {
    let m = Move::from_line("Cc2n Cc3n Rd1e").unwrap();
    assert_eq!(
        m.steps,
        vec![
            Step::Move(Piece::WCat, 10, 18),
            Step::Move(Piece::WCat, 18, 26),
            Step::Move(Piece::WRabbit, 3, 4),
        ]
    );
    assert_eq!(Move::from_line("").unwrap().steps, vec![]);
    assert_eq!(
        Move::from_line("  Ed2   hc3x ").unwrap().steps,
        vec![Step::Place(Piece::WElephant, 11), Step::Remove(Piece::BHorse, 18)]
    );
    assert!(Move::from_line("Cc2n Cc9n").is_none());
    assert!(Move::from_line("Cc2n pass").is_none());
    let made = Move::new(vec![Step::Pass]);
    assert_eq!(made.steps, vec![Step::Pass]);
    assert_eq!(made.clone().steps, vec![Step::Pass]);
}

/// Every way through one turn, counted without the library's search.
fn walk(pos: &Position, steps: &mut Vec<Step>, out: &mut Vec<(String, Vec<Step>)>) {
    for step in pos.gen_steps() {
        let mut next = pos.clone();
        let state = next.do_step(step);
        if state != EndState::Neither {
            continue;
        }
        steps.push(step);
        if next.side != pos.side {
            out.push((next.to_small_notation(), steps.clone()));
        } else {
            walk(&next, steps, out);
        }
        steps.pop();
    }
}

#[test]
fn all_positions_of_a_small_board() {
    let pieces = set_up(&[
        (Piece::WDog, "d4"),
        (Piece::BCat, "d5"),
        (Piece::WRabbit, "a1"),
        (Piece::BRabbit, "h8"),
    ]);
    let pos = Position::from_pieces(Side::White, 4, pieces);
    let found = Move::all_positions(&pos);
    let mut walked = Vec::new();
    walk(&pos, &mut Vec::new(), &mut walked);
    let total: usize = found.iter().map(|(_, moves)| moves.len()).sum();
    assert_eq!(total, walked.len());
    let mut boards: Vec<String> = walked.iter().map(|(b, _)| b.clone()).collect();
    boards.sort();
    boards.dedup();
    assert_eq!(found.len(), boards.len());
    for (end, moves) in &found {
        assert_eq!(end.side, Side::Black);
        assert_eq!(end.steps_left, 4);
        assert_eq!(end.last_step, None);
        assert!(!moves.is_empty());
        let text = end.to_small_notation();
        let expected = walked.iter().filter(|(b, _)| *b == text).count();
        assert_eq!(moves.len(), expected);
        for m in moves {
            assert!(2 <= m.steps.len() && m.steps.len() <= 5);
            let mut replay = pos.clone();
            for step in &m.steps {
                assert!(replay.gen_steps().contains(step));
                assert!(replay.do_step(*step) == EndState::Neither);
            }
            assert!(replay == *end);
            assert_eq!(replay.current_hash, end.current_hash);
        }
    }
    for i in 0..found.len() {
        for j in (i + 1)..found.len() {
            assert!(found[i].0 != found[j].0);
        }
    }
    // one step and a pass leads to a position of its own
    let single = walked
        .iter()
        .filter(|(_, steps)| steps.len() == 2 && steps[1] == Step::Pass)
        .count();
    assert_eq!(single, 5);
}

#[test]
fn game_for_a_search() {
    let pieces = set_up(&[(Piece::WRabbit, "a7"), (Piece::BRabbit, "h8"), (Piece::WCat, "d4")]);
    let mut game = ArimaaGame::new(Position::from_pieces(Side::White, 4, pieces));
    assert!(game.end_state == EndState::Neither);
    assert_eq!(game.evaluate(), 0);
    assert_eq!(game.hash(), game.pos.current_hash);
    assert_eq!(game.current_player(0), Side::White);
    assert_eq!(game.current_player(15), Side::White);
    assert_eq!(game.current_player(16), Side::White);
    let moves = game.available_moves();
    assert_eq!(moves, game.pos.gen_steps());
    let goal = Step::Move(Piece::WRabbit, square("a7"), square("a8"));
    assert!(moves.contains(&goal));
    game.make_move(&goal);
    assert!(game.end_state == EndState::Neither);
    game.make_move(&Step::Pass);
    assert!(game.end_state == EndState::WhiteWin);
    assert_eq!(game.evaluate(), 1);
    assert!(game.available_moves().is_empty());
    let mut black = ArimaaGame::new(Position::from_pieces(Side::Black, 4, pieces));
    assert_eq!(black.current_player(16), Side::Black);
    assert_eq!(black.current_player(3), Side::White);
    black.make_move(&Step::Move(Piece::BRabbit, square("h8"), square("h7")));
    black.make_move(&Step::Pass);
    assert!(black.end_state == EndState::Neither);
    assert_eq!(black.current_player(20), Side::White);
    assert_eq!(interpret_evaluation_for_player(1, Side::White), 1);
    assert_eq!(interpret_evaluation_for_player(1, Side::Black), -1);
    assert_eq!(interpret_evaluation_for_player(-1, Side::Black), 1);
    assert_eq!(interpret_evaluation_for_player(0, Side::Black), 0);
}
