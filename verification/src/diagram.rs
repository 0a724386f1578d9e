//! Long notation: a header line that names the turn, then the board as a
//! framed diagram of eight rows, the eighth rank first.

use crate::board::is_trap;
use crate::notation::ParseError;
use crate::notation::is_cell;
use crate::notation::piece_of;
use crate::piece::Piece;
use crate::piece::Side;
use crate::piece::lemma_letter_round_trip;
use crate::piece::piece_char_index;
use crate::position::Position;
use crate::text::CharClass;
use crate::text::chars_of;
use crate::text::digit;
use crate::text::is_line;
use crate::text::is_space;
use crate::text::joined;
use crate::text::lemma_joined_push;
use crate::text::lemma_lines_of_joined;
use crate::text::lemma_run_len;
use crate::text::line_ranges;
use crate::text::lines_of;
use crate::text::push_char;
use crate::text::ranges_cut;
use crate::text::run_len;
use crate::text::scan;
use crate::text::token_ranges;
use crate::text::tokens_of;
use vstd::prelude::*;
use vstd::string::StringExecFns;

verus! {

/// What the diagram shows on square `sq`: the piece's letter, or `x` on
/// an empty trap.
pub open spec fn diagram_cell(pieces: Seq<Piece>, sq: int) -> char {
    if pieces[sq] == Piece::Empty && is_trap(sq) {
        'x'
    } else {
        pieces[sq].letter()
    }
}

/// One row of the diagram: the number of the row, a bar, each square
/// after a blank, then a blank and a bar.
pub open spec fn row_line(pieces: Seq<Piece>, row: int) -> Seq<char> {
    seq![digit(row + 1), '|'] + Seq::new(
        16,
        |i: int|
            if i % 2 == 0 {
                ' '
            } else {
                diagram_cell(pieces, 8 * row + i / 2)
            },
    ) + seq![' ', '|']
}

/// The twelve lines of a board in long notation: a header, which is always
/// the same, the upper border, the rows from the eighth to the first, the
/// lower border and the letters of the columns.
pub open spec fn diagram_lines(pieces: Seq<Piece>) -> Seq<Seq<char>> {
    seq!["7g Da1n Cc1n"@, " +-----------------+"@] + Seq::new(8, |r: int| row_line(pieces, 7 - r))
        + seq![" +-----------------+"@, "   a b c d e f g h"@]
}

/// A board in long notation.
pub open spec fn pos_text(pieces: Seq<Piece>) -> Seq<char> {
    joined(diagram_lines(pieces))
}

/// The side that the last letter of the header's first word names.
pub open spec fn side_of_letter(c: char) -> Option<Side> {
    if c == 'g' || c == 'w' {
        Some(Side::White)
    } else if c == 's' || c == 'b' {
        Some(Side::Black)
    } else {
        None
    }
}

/// Whether `c` can stand for a square's content in the diagram: as in
/// compact notation, or `x` for an empty square.
pub open spec fn is_diagram_cell(c: char) -> bool {
    is_cell(c) || c == 'x'
}

/// The eight characters that stand for the squares of a row: of what lies
/// between the line's first and second bar, which has to be 16 characters
/// at least, every second one.
pub open spec fn row_cells(line: Seq<char>) -> Option<Seq<char>> {
    let bar = run_len(line, CharClass::Bar, false) as int;
    if bar >= line.len() {
        None
    } else {
        let inner = line.skip(bar + 1);
        if run_len(inner, CharClass::Bar, false) < 16 {
            None
        } else {
            Some(Seq::new(8, |k: int| inner[2 * k + 1]))
        }
    }
}

/// Row `r` of the diagram, counted from the top: the line two below row
/// `r`'s number of lines into the text.
pub open spec fn board_row(lines: Seq<Seq<char>>, r: int) -> Result<Seq<char>, ParseError> {
    if lines.len() <= 2 + r {
        Err(ParseError::Row)
    } else {
        match row_cells(lines[2 + r]) {
            None => Err(ParseError::Row),
            Some(cells) => if exists|k: int| 0 <= k < 8 && !is_diagram_cell(#[trigger] cells[k]) {
                Err(ParseError::UnknownPiece)
            } else {
                Ok(cells)
            },
        }
    }
}

/// What is wrong with the first row, from row `r` down, that is not
/// right; `None` if all are.
pub open spec fn rows_error(lines: Seq<Seq<char>>, r: nat) -> Option<ParseError>
    decreases 8 - r,
{
    if r >= 8 {
        None
    } else {
        match board_row(lines, r as int) {
            Err(error) => Some(error),
            Ok(_) => rows_error(lines, r + 1),
        }
    }
}

/// The board and the side to move that a text in long notation denotes.
/// The first word of the first line ends in the letter of the side. The
/// second line is skipped, and the eight lines after it are the rows.
pub open spec fn parse_pos(text: Seq<char>) -> Result<(Seq<Piece>, Side), ParseError> {
    let lines = lines_of(text);
    if lines.len() == 0 || tokens_of(lines[0]).len() == 0 {
        Err(ParseError::Header)
    } else {
        match side_of_letter(tokens_of(lines[0])[0].last()) {
            None => Err(ParseError::SideToMove),
            Some(side) => match rows_error(lines, 0) {
                Some(error) => Err(error),
                None => Ok(
                    (
                        Seq::new(
                            64,
                            |sq: int| piece_of(board_row(lines, 7 - sq / 8).unwrap()[sq % 8]),
                        ),
                        side,
                    ),
                ),
            },
        }
    }
}

/// No row before `r` is wrong, and row `r` is: that is the first error.
proof fn lemma_rows_error_at(lines: Seq<Seq<char>>, from: nat, r: nat)
    requires
        from <= r < 8,
        forall|i: int| from <= i < r ==> (#[trigger] board_row(lines, i)) is Ok,
        board_row(lines, r as int) is Err,
    ensures
        rows_error(lines, from) == Some(board_row(lines, r as int)->Err_0),
    decreases r - from,
{
    if from < r {
        assert(board_row(lines, from as int) is Ok);
        lemma_rows_error_at(lines, from + 1, r);
    }
}

/// No row is wrong.
proof fn lemma_rows_error_none(lines: Seq<Seq<char>>, from: nat)
    requires
        from <= 8,
        forall|i: int| from <= i < 8 ==> (#[trigger] board_row(lines, i)) is Ok,
    ensures
        rows_error(lines, from) is None,
    decreases 8 - from,
{
    if from < 8 {
        assert(board_row(lines, from as int) is Ok);
        lemma_rows_error_none(lines, from + 1);
    }
}

impl Position {
    /// The board in long notation.
    pub fn to_pos_notation(&self) -> (text: String)
        ensures
            text@ == pos_text(self.pieces@),
    {
        let ghost pieces = self.pieces@;
        let ghost lines = diagram_lines(pieces);
        let mut text = String::new();
        text.append("7g Da1n Cc1n");
        push_char(&mut text, '\n');
        text.append(" +-----------------+");
        push_char(&mut text, '\n');
        proof {
            let two = lines.take(2);
            assert(two =~= seq!["7g Da1n Cc1n"@, " +-----------------+"@]);
            lemma_joined_push(Seq::empty(), two[0]);
            assert(Seq::<Seq<char>>::empty().push(two[0]) =~= seq![two[0]]);
            lemma_joined_push(seq![two[0]], two[1]);
            assert(seq![two[0]].push(two[1]) =~= two);
            assert(text@ =~= joined(two));
        }
        let mut done: usize = 0;
        while done < 8
            invariant
                done <= 8,
                pieces == self.pieces@,
                lines == diagram_lines(pieces),
                text@ == joined(lines.take(2 + done)),
            decreases 8 - done,
        {
            let row: usize = 7 - done;
            let ghost before = text@;
            push_char(&mut text, digit_of(row + 1));
            push_char(&mut text, '|');
            let ghost start = text@;
            let ghost cells = Seq::new(
                16,
                |i: int|
                    if i % 2 == 0 {
                        ' '
                    } else {
                        diagram_cell(pieces, 8 * row + i / 2)
                    },
            );
            let mut col: usize = 0;
            while col < 8
                invariant
                    col <= 8,
                    row < 8,
                    pieces == self.pieces@,
                    cells == Seq::new(
                        16,
                        |i: int|
                            if i % 2 == 0 {
                                ' '
                            } else {
                                diagram_cell(pieces, 8 * row + i / 2)
                            },
                    ),
                    text@ == start + cells.subrange(0, 2 * col),
                decreases 8 - col,
            {
                let sq: usize = 8 * row + col;
                let piece = self.pieces[sq];
                let shown = if piece.index() == 0 && (sq == 18 || sq == 21 || sq == 42 || sq
                    == 45) {
                    'x'
                } else {
                    piece.to_char()
                };
                push_char(&mut text, ' ');
                push_char(&mut text, shown);
                assert(text@ =~= start + cells.subrange(0, 2 * col + 2));
                col = col + 1;
            }
            push_char(&mut text, ' ');
            push_char(&mut text, '|');
            push_char(&mut text, '\n');
            proof {
                assert(cells.subrange(0, 16) == cells);
                let line = row_line(pieces, row as int);
                assert(text@ =~= before + line + seq!['\n']);
                assert(lines[2 + done] == line);
                lemma_joined_push(lines.take(2 + done), line);
                assert(lines.take(2 + done).push(line) =~= lines.take(2 + done + 1));
            }
            done = done + 1;
        }
        let ghost before = text@;
        text.append(" +-----------------+");
        push_char(&mut text, '\n');
        text.append("   a b c d e f g h");
        push_char(&mut text, '\n');
        proof {
            lemma_joined_push(lines.take(10), lines[10]);
            assert(lines.take(10).push(lines[10]) =~= lines.take(11));
            lemma_joined_push(lines.take(11), lines[11]);
            assert(lines.take(11).push(lines[11]) =~= lines);
            assert(text@ =~= before + lines[10] + seq!['\n'] + lines[11] + seq!['\n']);
        }
        text
    }

    /// Reads a position in long notation, at the start of a turn.
    #[verifier::loop_isolation(false)]
    pub fn from_pos_notation(notation: String) -> (parsed: Result<Position, ParseError>)
        ensures
            match parsed {
                Ok(pos) => parse_pos(notation@) == Ok::<(Seq<Piece>, Side), ParseError>(
                    (pos.pieces@, pos.side),
                ) && pos.wf() && pos.is_fresh(pos.side, 4, pos.pieces@),
                Err(error) => parse_pos(notation@) == Err::<(Seq<Piece>, Side), ParseError>(
                    error,
                ),
            },
    {
        let chars = chars_of(notation.as_str());
        let lines = line_ranges(&chars);
        let ghost all = lines_of(chars@);
        if lines.len() == 0 {
            return Err(ParseError::Header);
        }
        let (head_start, head_end) = lines[0];
        let words = token_ranges(&chars, head_start, head_end);
        if words.len() == 0 {
            return Err(ParseError::Header);
        }
        let (word_start, word_end) = words[0];
        let ghost word = tokens_of(all[0])[0];
        assert(word == chars@.subrange(word_start as int, word_end as int));
        let side = match chars[word_end - 1] {
            'g' => Side::White,
            'w' => Side::White,
            's' => Side::Black,
            'b' => Side::Black,
            _ => {
                return Err(ParseError::SideToMove);
            },
        };
        assert(side_of_letter(word.last()) == Some(side));
        let mut pieces: [Piece; 64] = [Piece::Empty; 64];
        let mut r: usize = 0;
        while r < 8
            invariant
                r <= 8,
                all == lines_of(chars@),
                ranges_cut(lines@, chars@, all),
                forall|i: int| 0 <= i < r ==> (#[trigger] board_row(all, i)) is Ok,
                forall|i: int, k: int|
                    0 <= i < r && 0 <= k < 8 ==> #[trigger] pieces@[8 * (7 - i) + k] == piece_of(
                        board_row(all, i).unwrap()[k],
                    ),
            decreases 8 - r,
        {
            if lines.len() <= 2 + r {
                proof {
                    lemma_rows_error_at(all, 0, r as nat);
                }
                return Err(ParseError::Row);
            }
            let (start, end) = lines[2 + r];
            let ghost line = all[2 + r];
            assert(line == chars@.subrange(start as int, end as int));
            let bar: usize = scan(&chars, start, end, CharClass::Bar, false);
            if bar >= end {
                proof {
                    lemma_rows_error_at(all, 0, r as nat);
                }
                return Err(ParseError::Row);
            }
            let inner_start: usize = bar + 1;
            let ghost inner = line.skip(bar - start + 1);
            assert(inner == chars@.subrange(inner_start as int, end as int));
            let inner_end: usize = scan(&chars, inner_start, end, CharClass::Bar, false);
            if inner_end - inner_start < 16 {
                proof {
                    lemma_rows_error_at(all, 0, r as nat);
                }
                return Err(ParseError::Row);
            }
            let ghost cells = row_cells(line).unwrap();
            let ghost filled = pieces@;
            let mut k: usize = 0;
            while k < 8
                invariant
                    k <= 8,
                    r < 8,
                    inner_start + 16 <= end <= chars@.len(),
                    inner == chars@.subrange(inner_start as int, end as int),
                    cells == Seq::new(8, |j: int| inner[2 * j + 1]),
                    forall|j: int| 0 <= j < k ==> is_diagram_cell(#[trigger] cells[j]),
                    forall|sq: int|
                        0 <= sq < 64 ==> #[trigger] pieces@[sq] == if 8 * (7 - r) <= sq < 8 * (7
                            - r) + k {
                            piece_of(cells[sq - 8 * (7 - r)])
                        } else {
                            filled[sq]
                        },
                decreases 8 - k,
            {
                let c = chars[inner_start + 2 * k + 1];
                assert(c == cells[k as int]);
                let kind: u8 = piece_char_index(c);
                if kind == 0 && c != ' ' && c != 'x' {
                    proof {
                        assert(board_row(all, r as int) == Err::<Seq<char>, ParseError>(
                            ParseError::UnknownPiece,
                        ));
                        lemma_rows_error_at(all, 0, r as nat);
                    }
                    return Err(ParseError::UnknownPiece);
                }
                let piece = match Piece::from_u8(kind) {
                    Some(piece) => piece,
                    None => Piece::Empty,
                };
                pieces[8 * (7 - r) + k] = piece;
                k = k + 1;
            }
            proof {
                assert(board_row(all, r as int) == Ok::<Seq<char>, ParseError>(cells));
                assert forall|i: int, j: int| 0 <= i < r + 1 && 0 <= j < 8 implies #[trigger] pieces@[8
                    * (7 - i) + j] == piece_of(board_row(all, i).unwrap()[j]) by {
                    if i < r {
                        assert(filled[8 * (7 - i) + j] == piece_of(board_row(all, i).unwrap()[j]));
                    }
                }
            }
            r = r + 1;
        }
        proof {
            lemma_rows_error_none(all, 0);
            let board = Seq::new(
                64,
                |sq: int| piece_of(board_row(all, 7 - sq / 8).unwrap()[sq % 8]),
            );
            assert forall|sq: int| 0 <= sq < 64 implies board[sq] == pieces@[sq] by {
                let i = 7 - sq / 8;
                let j = sq % 8;
                assert(pieces@[8 * (7 - i) + j] == piece_of(board_row(all, i).unwrap()[j]));
            }
            assert(board =~= pieces@);
        }
        Ok(Position::from_pieces(side, 4, pieces))
    }
}

/// A row of the diagram is read as the pieces that it was written for.
proof fn lemma_row_read(pieces: Seq<Piece>, row: int)
    requires
        pieces.len() == 64,
        0 <= row < 8,
    ensures
        is_line(row_line(pieces, row)),
        row_cells(row_line(pieces, row)) is Some,
        forall|k: int|
            0 <= k < 8 ==> is_diagram_cell(#[trigger] row_cells(row_line(pieces, row)).unwrap()[k])
                && piece_of(row_cells(row_line(pieces, row)).unwrap()[k]) == pieces[8 * row + k],
{
    let line = row_line(pieces, row);
    let cells = Seq::new(
        16,
        |i: int|
            if i % 2 == 0 {
                ' '
            } else {
                diagram_cell(pieces, 8 * row + i / 2)
            },
    );
    assert forall|i: int| 0 <= i < 16 implies #[trigger] cells[i] != '|' && cells[i] != '\n' by {
        if i % 2 != 0 {
            lemma_letter_round_trip(pieces[8 * row + i / 2]);
        }
    }
    assert(line[0] == digit(row + 1));
    assert(line[1] == '|');
    assert forall|i: int| 0 <= i < line.len() implies #[trigger] line[i] != '\n' by {
        if 2 <= i < 18 {
            assert(line[i] == cells[i - 2]);
        }
    }
    lemma_run_len(line, CharClass::Bar, false, 1);
    let inner = line.skip(2);
    assert(inner =~= cells + seq![' ', '|']);
    assert forall|i: int| 0 <= i < 17 implies CharClass::Bar.holds(#[trigger] inner[i]) == false by {
        if i < 16 {
            assert(inner[i] == cells[i]);
        }
    }
    assert(inner[17] == '|');
    lemma_run_len(inner, CharClass::Bar, false, 17);
    let read = row_cells(line).unwrap();
    assert forall|k: int| 0 <= k < 8 implies is_diagram_cell(#[trigger] read[k]) && piece_of(
        read[k],
    ) == pieces[8 * row + k] by {
        assert(read[k] == inner[2 * k + 1]);
        assert(inner[2 * k + 1] == cells[2 * k + 1]);
        assert((2 * k + 1) / 2 == k);
        lemma_letter_round_trip(pieces[8 * row + k]);
    }
}

/// The header that is written names White.
proof fn lemma_header_read()
    ensures
        is_line("7g Da1n Cc1n"@),
        is_line(" +-----------------+"@),
        is_line("   a b c d e f g h"@),
        tokens_of("7g Da1n Cc1n"@).len() > 0,
        side_of_letter(tokens_of("7g Da1n Cc1n"@)[0].last()) == Some(Side::White),
{
    reveal_strlit("7g Da1n Cc1n");
    reveal_strlit(" +-----------------+");
    reveal_strlit("   a b c d e f g h");
    let head = "7g Da1n Cc1n"@;
    assert(!is_space(head[0]) && !is_space(head[1])
        && is_space(head[2]));
    lemma_run_len(head, CharClass::Space, true, 0);
    assert(head.skip(0) =~= head);
    lemma_run_len(head, CharClass::Space, false, 2);
    let word = head.take(2);
    assert(tokens_of(head) == seq![word] + tokens_of(head.skip(2)));
    assert(tokens_of(head)[0] == word);
    assert(word.last() == 'g');
}

/// Writing a board in long notation and reading the text gives the board
/// back, with White to move: the header that is written names White.
pub proof fn lemma_pos_round_trip(pieces: Seq<Piece>)
    requires
        pieces.len() == 64,
    ensures
        parse_pos(pos_text(pieces)) == Ok::<(Seq<Piece>, Side), ParseError>((pieces, Side::White)),
{
    let lines = diagram_lines(pieces);
    lemma_header_read();
    assert forall|i: int| 0 <= i < lines.len() implies is_line(#[trigger] lines[i]) by {
        if 2 <= i < 10 {
            lemma_row_read(pieces, 7 - (i - 2));
            assert(lines[i] == row_line(pieces, 7 - (i - 2)));
        }
    }
    lemma_lines_of_joined(lines);
    assert(lines[0] == "7g Da1n Cc1n"@);
    assert forall|r: int| 0 <= r < 8 implies (#[trigger] board_row(lines, r)) == Ok::<
        Seq<char>,
        ParseError,
    >(row_cells(row_line(pieces, 7 - r)).unwrap()) by {
        lemma_row_read(pieces, 7 - r);
        assert(lines[2 + r] == row_line(pieces, 7 - r));
    }
    lemma_rows_error_none(lines, 0);
    let read = Seq::new(64, |sq: int| piece_of(board_row(lines, 7 - sq / 8).unwrap()[sq % 8]));
    assert forall|sq: int| 0 <= sq < 64 implies read[sq] == pieces[sq] by {
        let r = 7 - sq / 8;
        lemma_row_read(pieces, sq / 8);
        assert(board_row(lines, r).unwrap() == row_cells(row_line(pieces, sq / 8)).unwrap());
        assert(8 * (sq / 8) + sq % 8 == sq);
    }
    assert(read =~= pieces);
}

/// The digit for a number from 1 to 8.
fn digit_of(n: usize) -> (c: char)
    requires
        1 <= n <= 8,
    ensures
        c == digit(n as int),
{
    match n {
        1 => '1',
        2 => '2',
        3 => '3',
        4 => '4',
        5 => '5',
        6 => '6',
        7 => '7',
        _ => '8',
    }
}

} // verus!
