//! Whole moves: the steps of one turn, and every position that one turn
//! can lead to.

use crate::apply::step_outcome;
use crate::board::has_bit;
use crate::board::lemma_same_bits;
use crate::piece::EndState;
use crate::position::Position;
use crate::position::masks_match;
use crate::step::Step;
use crate::step::parse_step;
use crate::text::chars_of;
use crate::text::ranges_cut;
use crate::text::token_ranges;
use crate::text::tokens_of;
use vstd::prelude::*;

verus! {

/// A game in progress.
pub struct Game {
    pub position: Position,
}

/// The steps that one side makes in one turn.
pub struct Move {
    pub steps: Vec<Step>,
}

impl Clone for Move {
    fn clone(&self) -> (copy: Move)
        ensures
            copy.steps@ == self.steps@,
    {
        let mut steps: Vec<Step> = Vec::new();
        let mut i: usize = 0;
        while i < self.steps.len()
            invariant
                i <= self.steps@.len(),
                steps@ == self.steps@.subrange(0, i as int),
            decreases self.steps@.len() - i,
        {
            steps.push(self.steps[i]);
            assert(steps@ == self.steps@.subrange(0, i + 1));
            i = i + 1;
        }
        assert(self.steps@.subrange(0, self.steps@.len() as int) == self.steps@);
        Move { steps }
    }
}

/// The masks of a board are decided by its pieces.
pub proof fn lemma_board_determined(a: Position, b: Position)
    requires
        masks_match(a.bitboards@, a.placement@, a.pieces@),
        masks_match(b.bitboards@, b.placement@, b.pieces@),
        a.pieces@ == b.pieces@,
    ensures
        a.bitboards == b.bitboards,
        a.placement == b.placement,
        a.pieces == b.pieces,
{
    assert forall|k: int| 0 <= k < 13 implies a.bitboards@[k] == b.bitboards@[k] by {
        assert forall|sq: int| 0 <= sq < 64 implies (has_bit(a.bitboards@[k], sq) <==> has_bit(
            b.bitboards@[k],
            sq,
        )) by {}
        lemma_same_bits(a.bitboards@[k], b.bitboards@[k]);
    }
    assert forall|k: int| 0 <= k < 2 implies a.placement@[k] == b.placement@[k] by {
        assert forall|sq: int| 0 <= sq < 64 implies (has_bit(a.placement@[k], sq) <==> has_bit(
            b.placement@[k],
            sq,
        )) by {}
        lemma_same_bits(a.placement@[k], b.placement@[k]);
    }
    assert(a.bitboards@ =~= b.bitboards@);
    assert(a.placement@ =~= b.placement@);
    assert(a.pieces@ =~= b.pieces@);
}

/// A step has one outcome.
pub proof fn lemma_outcome_unique(
    before: Position,
    step: Step,
    a: Position,
    state_a: EndState,
    b: Position,
    state_b: EndState,
)
    requires
        step_outcome(before, step, a, state_a),
        step_outcome(before, step, b, state_b),
        a.wf(),
        b.wf(),
    ensures
        a == b,
        state_a == state_b,
{
    lemma_board_determined(a, b);
}

/// Whether `steps`, made one after the other from `start`, are one whole
/// turn: each is a step that the position before it offers, none of them
/// decides the game, and the last one hands the move to the other side,
/// in the position `end`.
pub open spec fn turn_leads(start: Position, steps: Seq<Step>, end: Position) -> bool
    decreases steps.len(),
{
    steps.len() > 0 && start.legal(steps[0]) && exists|next: Position|
        #[trigger] step_outcome(start, steps[0], next, EndState::Neither) && next.wf() && if next.side
            != start.side {
            steps.len() == 1 && next == end
        } else {
            turn_leads(next, steps.drop_first(), end)
        }
}

/// Whether `found` lists the move `steps` under the position `end`.
pub open spec fn listed(found: Seq<(Position, Vec<Move>)>, steps: Seq<Step>, end: Position) -> bool {
    exists|i: int, j: int|
        0 <= i < found.len() && 0 <= j < found[i].1@.len() && found[i].0 == end
            && (#[trigger] found[i].1@[j]).steps@ == steps
}

/// Whether `entry` is a position in which the turn after `start`'s begins.
pub open spec fn begins_after(start: Position, entry: Position) -> bool {
    &&& entry.wf()
    &&& entry.side == start.side.other()
    &&& entry.steps_left == 4
    &&& entry.last_step is None
    &&& entry.my_last == start.opp_last
    &&& entry.opp_last == start.initial_hash
    &&& entry.initial_hash == entry.current_hash
}

/// Each position of `found` begins the turn after `start`'s, has a move
/// to its name, and stands there once.
pub open spec fn well_listed(found: Seq<(Position, Vec<Move>)>, start: Position) -> bool {
    &&& forall|i: int|
        0 <= i < found.len() ==> begins_after(start, (#[trigger] found[i]).0) && found[i].1@.len()
            > 0
    &&& forall|i: int, j: int|
        0 <= i < j < found.len() ==> (#[trigger] found[i]).0 != (#[trigger] found[j]).0
}

/// Two positions that begin the same turn on the same masks are the same.
proof fn lemma_entries_equal(start: Position, a: Position, b: Position)
    requires
        begins_after(start, a),
        begins_after(start, b),
        a.bitboards@ == b.bitboards@,
    ensures
        a == b,
{
    assert forall|sq: int| 0 <= sq < 64 implies a.pieces@[sq] == b.pieces@[sq] by {
        let k = a.pieces@[sq].index_spec();
        assert(has_bit(a.bitboards@[k], sq));
        assert(has_bit(b.bitboards@[k], sq));
    }
    assert(a.pieces@ =~= b.pieces@);
    lemma_board_determined(a, b);
}

/// Files the move `mov` under the position `pos`.
fn record(found: &mut Vec<(Position, Vec<Move>)>, pos: Position, mov: Move, Ghost(start): Ghost<Position>)
    requires
        well_listed(old(found)@, start),
        begins_after(start, pos),
    ensures
        well_listed(final(found)@, start),
        forall|steps: Seq<Step>, end: Position|
            #![trigger listed(final(found)@, steps, end)]
            listed(final(found)@, steps, end) <==> listed(old(found)@, steps, end) || (steps
                == mov.steps@ && end == pos),
{
    let ghost before = found@;
    let mut i: usize = 0;
    while i < found.len()
        invariant
            i <= found@.len(),
            found@ == before,
            before == old(found)@,
            well_listed(before, start),
            begins_after(start, pos),
            forall|k: int| 0 <= k < i ==> (#[trigger] before[k]).0 != pos,
        decreases found@.len() - i,
    {
        if found[i].0 == pos {
            proof {
                lemma_entries_equal(start, found@[i as int].0, pos);
            }
            let ghost old_moves = found@[i as int].1@;
            found[i].1.push(mov);
            proof {
                let after = found@;
                assert(after[i as int].0 == pos);
                assert(after[i as int].1@ == old_moves.push(mov));
                assert forall|steps: Seq<Step>, end: Position|
                    #![trigger listed(after, steps, end)]
                    listed(after, steps, end) <==> listed(before, steps, end) || (steps
                        == mov.steps@ && end == pos) by {
                    if listed(before, steps, end) {
                        let (a, b) = choose|a: int, b: int|
                            0 <= a < before.len() && 0 <= b < before[a].1@.len() && before[a].0
                                == end && (#[trigger] before[a].1@[b]).steps@ == steps;
                        assert(after[a].1@[b] == before[a].1@[b]);
                    }
                    if steps == mov.steps@ && end == pos {
                        assert(after[i as int].1@[old_moves.len() as int] == mov);
                    }
                    if listed(after, steps, end) {
                        let (a, b) = choose|a: int, b: int|
                            0 <= a < after.len() && 0 <= b < after[a].1@.len() && after[a].0 == end
                                && (#[trigger] after[a].1@[b]).steps@ == steps;
                        if a != i || b < old_moves.len() {
                            assert(before[a].1@[b] == after[a].1@[b]);
                        }
                    }
                }
            }
            return ;
        }
        i = i + 1;
    }
    let mut moves: Vec<Move> = Vec::new();
    moves.push(mov);
    found.push((pos, moves));
    proof {
        let after = found@;
        let last = before.len() as int;
        assert forall|steps: Seq<Step>, end: Position|
            #![trigger listed(after, steps, end)]
            listed(after, steps, end) <==> listed(before, steps, end) || (steps == mov.steps@
                && end == pos) by {
            if listed(before, steps, end) {
                let (a, b) = choose|a: int, b: int|
                    0 <= a < before.len() && 0 <= b < before[a].1@.len() && before[a].0 == end
                        && (#[trigger] before[a].1@[b]).steps@ == steps;
                assert(after[a].1@[b] == before[a].1@[b]);
            }
            if steps == mov.steps@ && end == pos {
                assert(after[last].1@[0] == mov);
            }
            if listed(after, steps, end) {
                let (a, b) = choose|a: int, b: int|
                    0 <= a < after.len() && 0 <= b < after[a].1@.len() && after[a].0 == end
                        && (#[trigger] after[a].1@[b]).steps@ == steps;
                if a != last {
                    assert(before[a].1@[b] == after[a].1@[b]);
                }
            }
        }
    }
}

/// The steps that the words of a line denote, if each word is a step.
pub open spec fn parse_line(line: Seq<char>) -> Option<Seq<Step>> {
    let words = tokens_of(line);
    if forall|i: int| 0 <= i < words.len() ==> parse_step(#[trigger] words[i]) is Some {
        Some(Seq::new(words.len(), |i: int| parse_step(words[i]).unwrap()))
    } else {
        None
    }
}

/// The steps with one more at their end.
fn extended(steps: &Vec<Step>, step: Step) -> (longer: Vec<Step>)
    ensures
        longer@ == steps@.push(step),
{
    let mut longer: Vec<Step> = Vec::new();
    let mut i: usize = 0;
    while i < steps.len()
        invariant
            i <= steps@.len(),
            longer@ == steps@.subrange(0, i as int),
        decreases steps@.len() - i,
    {
        longer.push(steps[i]);
        assert(longer@ == steps@.subrange(0, i + 1));
        i = i + 1;
    }
    assert(steps@.subrange(0, steps@.len() as int) == steps@);
    longer.push(step);
    longer
}

/// What `lemma_outcome_unique` means for a turn that begins with a step
/// whose outcome is known.
proof fn lemma_turn_through(pos: Position, next: Position, state: EndState, tail: Seq<Step>, end: Position)
    requires
        tail.len() > 0,
        pos.legal(tail[0]),
        step_outcome(pos, tail[0], next, state),
        next.wf(),
    ensures
        turn_leads(pos, tail, end) <==> state == EndState::Neither && if next.side != pos.side {
            tail.len() == 1 && next == end
        } else {
            turn_leads(next, tail.drop_first(), end)
        },
{
    if turn_leads(pos, tail, end) {
        let other = choose|other: Position|
            #[trigger] step_outcome(pos, tail[0], other, EndState::Neither) && other.wf() && if other.side
                != pos.side {
                tail.len() == 1 && other == end
            } else {
                turn_leads(other, tail.drop_first(), end)
            };
        lemma_outcome_unique(pos, tail[0], next, state, other, EndState::Neither);
    }
}

/// Follows every step that `pos` offers, and files each move that ends
/// the turn under the position it leads to. `prefix` holds the steps that
/// led from the start of the turn to `pos`.
fn explore(pos: &Position, prefix: &Vec<Step>, found: &mut Vec<(Position, Vec<Move>)>, Ghost(start): Ghost<
    Position,
>)
    requires
        pos.wf(),
        pos.steps_left >= 1,
        pos.side == start.side,
        pos.opp_last == start.opp_last,
        pos.initial_hash == start.initial_hash,
        well_listed(old(found)@, start),
    ensures
        well_listed(final(found)@, start),
        forall|steps: Seq<Step>, end: Position|
            #![trigger listed(final(found)@, steps, end)]
            listed(final(found)@, steps, end) <==> listed(old(found)@, steps, end) || (
            prefix@.is_prefix_of(steps) && turn_leads(*pos, steps.skip(prefix@.len() as int), end)),
    decreases pos.steps_left,
{
    let ghost first = found@;
    let offered = pos.gen_steps();
    let mut i: usize = 0;
    while i < offered.len()
        invariant
            i <= offered@.len(),
            pos.wf(),
            pos.steps_left >= 1,
            pos.side == start.side,
            pos.opp_last == start.opp_last,
            pos.initial_hash == start.initial_hash,
            first == old(found)@,
            forall|s: Step| #![trigger offered@.contains(s)] offered@.contains(s) <==> pos.legal(s),
            well_listed(found@, start),
            forall|steps: Seq<Step>, end: Position|
                #![trigger listed(found@, steps, end)]
                listed(found@, steps, end) <==> listed(first, steps, end) || (prefix@.is_prefix_of(
                    steps,
                ) && steps.len() > prefix@.len() && offered@.subrange(0, i as int).contains(
                    steps[prefix@.len() as int],
                ) && turn_leads(*pos, steps.skip(prefix@.len() as int), end)),
        decreases offered@.len() - i,
    {
        let step = offered[i];
        let ghost before = found@;
        let ghost seen = offered@.subrange(0, i as int);
        assert(offered@.contains(step));
        let mut next = pos.clone();
        let state = next.do_step(step);
        let longer = extended(prefix, step);
        proof {
            assert forall|s: Step| offered@.subrange(0, i + 1).contains(s) <==> seen.contains(s) || s
                == step by {
                let now = offered@.subrange(0, i + 1);
                if seen.contains(s) {
                    let k = choose|k: int| 0 <= k < seen.len() && seen[k] == s;
                    assert(now[k] == s);
                }
                if s == step {
                    assert(now[i as int] == s);
                }
                if now.contains(s) {
                    let k = choose|k: int| 0 <= k < now.len() && now[k] == s;
                    if k < i {
                        assert(seen[k] == s);
                    }
                }
            }
        }
        match state {
            EndState::Neither => {
                if next.side != pos.side {
                    record(found, next, Move { steps: longer }, Ghost(start));
                } else {
                    explore(&next, &longer, found, Ghost(start));
                }
            },
            _ => {},
        }
        proof {
            let n = prefix@.len() as int;
            assert forall|steps: Seq<Step>, end: Position|
                #![trigger listed(found@, steps, end)]
                listed(found@, steps, end) <==> listed(first, steps, end) || (prefix@.is_prefix_of(
                    steps,
                ) && steps.len() > n && offered@.subrange(0, i + 1).contains(steps[n])
                    && turn_leads(*pos, steps.skip(n), end)) by {
                assert(listed(before, steps, end) <==> listed(first, steps, end) || (
                prefix@.is_prefix_of(steps) && steps.len() > n && seen.contains(steps[n])
                    && turn_leads(*pos, steps.skip(n), end)));
                if prefix@.is_prefix_of(steps) && steps.len() > n && steps[n] == step {
                    let tail = steps.skip(n);
                    assert(tail[0] == step);
                    lemma_turn_through(*pos, next, state, tail, end);
                    assert(tail.drop_first() == steps.skip(n + 1));
                    assert(longer@.is_prefix_of(steps)) by {
                        assert(steps.subrange(0, n + 1) =~= prefix@.push(step));
                    }
                    if tail.len() == 1 {
                        assert(steps =~= longer@);
                    }
                }
                if longer@.is_prefix_of(steps) {
                    assert(steps.subrange(0, n) =~= prefix@) by {
                        assert(steps.subrange(0, n + 1) == longer@);
                    }
                    assert(steps[n] == longer@[n]);
                    let tail = steps.skip(n);
                    assert(tail[0] == step);
                    lemma_turn_through(*pos, next, state, tail, end);
                    assert(tail.drop_first() == steps.skip(n + 1));
                }
            }
        }
        i = i + 1;
    }
    proof {
        assert(offered@.subrange(0, offered@.len() as int) == offered@);
    }
}

impl Move {
    pub fn new(steps: Vec<Step>) -> (mov: Move)
        ensures
            mov.steps@ == steps@,
    {
        Move { steps }
    }

    /// Reads a move from a line of steps with white space between them;
    /// `None` if a word of the line is no step.
    pub fn from_line(line: &str) -> (mov: Option<Move>)
        ensures
            match mov {
                Some(m) => parse_line(line@) == Some(m.steps@),
                None => parse_line(line@) is None,
            },
    {
        let chars = chars_of(line);
        assert(chars@.subrange(0, chars@.len() as int) == chars@);
        let words = token_ranges(&chars, 0, chars.len());
        let ghost all = tokens_of(line@);
        let mut steps: Vec<Step> = Vec::new();
        let mut i: usize = 0;
        while i < words.len()
            invariant
                i <= words@.len(),
                chars@ == line@,
                all == tokens_of(line@),
                ranges_cut(words@, chars@, all),
                steps@.len() == i,
                forall|k: int| 0 <= k < i ==> parse_step(#[trigger] all[k]) == Some(steps@[k]),
            decreases words@.len() - i,
        {
            let (from, to) = words[i];
            assert(chars@.subrange(from as int, to as int) == all[i as int]);
            match Step::from_chars(&chars, from, to) {
                Some(step) => {
                    steps.push(step);
                },
                None => {
                    return None;
                },
            }
            i = i + 1;
        }
        assert(steps@ =~= Seq::new(all.len(), |k: int| parse_step(all[k]).unwrap()));
        Some(Move { steps })
    }

    /// Every position in which the next turn can begin, each with every
    /// move of this turn that leads to it. A move that decides the game
    /// leads nowhere and is left out.
    pub fn all_positions(position: &Position) -> (found: Vec<(Position, Vec<Move>)>)
        requires
            position.wf(),
            position.steps_left >= 1,
        ensures
            well_listed(found@, *position),
            forall|steps: Seq<Step>, end: Position|
                #![trigger listed(found@, steps, end)]
                listed(found@, steps, end) <==> turn_leads(*position, steps, end),
    {
        let mut found: Vec<(Position, Vec<Move>)> = Vec::new();
        let prefix: Vec<Step> = Vec::new();
        explore(position, &prefix, &mut found, Ghost(*position));
        proof {
            assert forall|steps: Seq<Step>, end: Position|
                #![trigger listed(found@, steps, end)]
                listed(found@, steps, end) <==> turn_leads(*position, steps, end) by {
                assert(steps.skip(0) == steps);
                assert(prefix@.is_prefix_of(steps));
                assert(!listed(Seq::<(Position, Vec<Move>)>::empty(), steps, end));
            }
        }
        found
    }
}

} // verus!
