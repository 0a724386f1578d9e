//! Strings as sequences of characters, which is how the notations read
//! and write them.

use vstd::prelude::*;
use vstd::string::StrSliceExecFns;

verus! {

/// `String::push`: appends one character to the string.
#[verifier::external_body]
pub(crate) fn push_char(text: &mut String, c: char)
    ensures
        final(text)@ == old(text)@.push(c),
{
    text.push(c)
}

/// The characters of `text`, in order.
pub fn chars_of(text: &str) -> (chars: Vec<char>)
    ensures
        chars@ == text@,
{
    let n: usize = text.unicode_len();
    let mut chars: Vec<char> = Vec::new();
    let mut i: usize = 0;
    while i < n
        invariant
            i <= n,
            n == text@.len(),
            chars@ == text@.subrange(0, i as int),
        decreases n - i,
    {
        chars.push(text.get_char(i));
        assert(chars@ == text@.subrange(0, i + 1));
        i = i + 1;
    }
    assert(text@.subrange(0, n as int) == text@);
    chars
}

/// The kinds of character at which the notations cut a text.
#[derive(Clone, Copy, Debug, PartialEq, Eq, Structural)]
pub enum CharClass {
    /// The line feed.
    Newline,
    /// White space as Unicode defines it.
    Space,
    /// The vertical bar that frames a row of the board.
    Bar,
}

/// Whether `c` is white space: a blank, a control character from tab to
/// carriage return, or one of Unicode's other spaces.
pub open spec fn is_space(c: char) -> bool {
    let code = c as int;
    ||| code == 0x20
    ||| (0x09 <= code <= 0x0D)
    ||| code == 0x85
    ||| code == 0xA0
    ||| code == 0x1680
    ||| (0x2000 <= code <= 0x200A)
    ||| code == 0x2028
    ||| code == 0x2029
    ||| code == 0x202F
    ||| code == 0x205F
    ||| code == 0x3000
}

impl CharClass {
    pub open spec fn holds(self, c: char) -> bool {
        match self {
            CharClass::Newline => c == '\n',
            CharClass::Space => is_space(c),
            CharClass::Bar => c == '|',
        }
    }

    pub fn test(self, c: char) -> (found: bool)
        ensures
            found == self.holds(c),
    {
        match self {
            CharClass::Newline => c == '\n',
            CharClass::Space => {
                let code: u32 = c as u32;
                code == 0x20 || (0x09 <= code && code <= 0x0D) || code == 0x85 || code == 0xA0
                    || code == 0x1680 || (0x2000 <= code && code <= 0x200A) || code == 0x2028
                    || code == 0x2029 || code == 0x202F || code == 0x205F || code == 0x3000
            },
            CharClass::Bar => c == '|',
        }
    }
}

/// How many characters stand before the first one that is of `class`
/// (where `inside` is false) or that is not (where it is true): the whole
/// length where there is none.
pub open spec fn run_len(text: Seq<char>, class: CharClass, inside: bool) -> nat
    decreases text.len(),
{
    if text.len() == 0 || class.holds(text[0]) != inside {
        0
    } else {
        1 + run_len(text.drop_first(), class, inside)
    }
}

/// A run ends at `n` when every character before `n` belongs to it and
/// the one at `n`, if there is one, does not.
pub proof fn lemma_run_len(text: Seq<char>, class: CharClass, inside: bool, n: int)
    requires
        0 <= n <= text.len(),
        forall|i: int| 0 <= i < n ==> class.holds(#[trigger] text[i]) == inside,
        n == text.len() || class.holds(text[n]) != inside,
    ensures
        run_len(text, class, inside) == n,
    decreases n,
{
    if n > 0 {
        let rest = text.drop_first();
        assert forall|i: int| 0 <= i < n - 1 implies class.holds(#[trigger] rest[i]) == inside by {
            assert(rest[i] == text[i + 1]);
        }
        lemma_run_len(rest, class, inside, n - 1);
    }
}

/// What `lemma_run_len` asks for holds of every run.
pub proof fn lemma_run_len_bounds(text: Seq<char>, class: CharClass, inside: bool)
    ensures
        run_len(text, class, inside) <= text.len(),
        forall|i: int|
            0 <= i < run_len(text, class, inside) ==> class.holds(#[trigger] text[i]) == inside,
        run_len(text, class, inside) < text.len() ==> class.holds(
            text[run_len(text, class, inside) as int],
        ) != inside,
    decreases text.len(),
{
    if text.len() != 0 && class.holds(text[0]) == inside {
        let rest = text.drop_first();
        lemma_run_len_bounds(rest, class, inside);
        assert forall|i: int| 0 <= i < run_len(text, class, inside) implies class.holds(
            #[trigger] text[i],
        ) == inside by {
            if i > 0 {
                assert(text[i] == rest[i - 1]);
            }
        }
    }
}

/// Where the run that starts at `start` ends, not looking past `end`.
pub fn scan(text: &Vec<char>, start: usize, end: usize, class: CharClass, inside: bool) -> (stop:
    usize)
    requires
        start <= end <= text@.len(),
    ensures
        stop == start + run_len(text@.subrange(start as int, end as int), class, inside),
        start <= stop <= end,
{
    let ghost part = text@.subrange(start as int, end as int);
    let mut stop: usize = start;
    while stop < end && class.test(text[stop]) == inside
        invariant
            start <= stop <= end <= text@.len(),
            part == text@.subrange(start as int, end as int),
            forall|i: int| 0 <= i < stop - start ==> class.holds(#[trigger] part[i]) == inside,
        decreases end - stop,
    {
        assert(part[stop - start] == text@[stop as int]);
        stop = stop + 1;
    }
    proof {
        if stop < end {
            assert(part[stop - start] == text@[stop as int]);
        }
        lemma_run_len(part, class, inside, stop - start);
    }
    stop
}

/// A line without the carriage return that may end it.
pub open spec fn without_cr(line: Seq<char>) -> Seq<char> {
    if line.len() > 0 && line.last() == '\r' {
        line.drop_last()
    } else {
        line
    }
}

/// The lines of a text. A line ends at a line feed; a carriage return
/// just before it is dropped. What follows the last line feed is a line
/// too, unless it is empty.
pub open spec fn lines_of(text: Seq<char>) -> Seq<Seq<char>>
    decreases text.len(),
{
    if text.len() == 0 {
        Seq::empty()
    } else {
        let n = run_len(text, CharClass::Newline, false) as int;
        if n >= text.len() {
            seq![text]
        } else {
            seq![without_cr(text.take(n))] + lines_of(text.skip(n + 1))
        }
    }
}

/// A text that begins with a whole line has that line first, and then
/// the lines of what follows the line feed.
pub proof fn lemma_first_line(line: Seq<char>, rest: Seq<char>)
    requires
        forall|i: int| 0 <= i < line.len() ==> #[trigger] line[i] != '\n',
        line.len() == 0 || line.last() != '\r',
    ensures
        lines_of(line + seq!['\n'] + rest) == seq![line] + lines_of(rest),
{
    let text = line + seq!['\n'] + rest;
    let n = line.len() as int;
    assert forall|i: int| 0 <= i < n implies CharClass::Newline.holds(#[trigger] text[i])
        == false by {
        assert(text[i] == line[i]);
    }
    assert(text[n] == '\n');
    lemma_run_len(text, CharClass::Newline, false, n);
    assert(text.take(n) =~= line);
    assert(text.skip(n + 1) =~= rest);
}

/// The text made of `lines`, each ended by a line feed.
pub open spec fn joined(lines: Seq<Seq<char>>) -> Seq<char>
    decreases lines.len(),
{
    if lines.len() == 0 {
        Seq::empty()
    } else {
        lines[0] + seq!['\n'] + joined(lines.drop_first())
    }
}

/// One more line at the end of the lines is one more line at the end of
/// the text.
pub proof fn lemma_joined_push(lines: Seq<Seq<char>>, line: Seq<char>)
    ensures
        joined(lines.push(line)) == joined(lines) + line + seq!['\n'],
    decreases lines.len(),
{
    if lines.len() == 0 {
        let one = lines.push(line);
        assert(one.drop_first() =~= Seq::<Seq<char>>::empty());
        assert(one[0] == line);
        assert(joined(one.drop_first()) =~= Seq::<char>::empty());
        assert(joined(lines) =~= Seq::<char>::empty());
        assert(joined(one) == line + seq!['\n'] + joined(one.drop_first()));
        assert(joined(one) =~= joined(lines) + line + seq!['\n']);
    } else {
        lemma_joined_push(lines.drop_first(), line);
        assert(lines.push(line).drop_first() =~= lines.drop_first().push(line));
        assert(joined(lines.push(line)) =~= joined(lines) + line + seq!['\n']);
    }
}

/// Whether `line` can stand as a line of a text: it holds no line feed
/// and does not end in a carriage return.
pub open spec fn is_line(line: Seq<char>) -> bool {
    &&& forall|i: int| 0 <= i < line.len() ==> #[trigger] line[i] != '\n'
    &&& (line.len() == 0 || line.last() != '\r')
}

/// Cutting a text that was made of lines gives the lines back.
pub proof fn lemma_lines_of_joined(lines: Seq<Seq<char>>)
    requires
        forall|i: int| 0 <= i < lines.len() ==> is_line(#[trigger] lines[i]),
    ensures
        lines_of(joined(lines)) == lines,
    decreases lines.len(),
{
    if lines.len() > 0 {
        let rest = lines.drop_first();
        assert forall|i: int| 0 <= i < rest.len() implies is_line(#[trigger] rest[i]) by {
            assert(rest[i] == lines[i + 1]);
        }
        lemma_lines_of_joined(rest);
        assert(is_line(lines[0]));
        lemma_first_line(lines[0], joined(rest));
        assert(seq![lines[0]] + rest =~= lines);
    }
}

/// The words of a text: the longest runs of characters that are no white
/// space.
pub open spec fn tokens_of(text: Seq<char>) -> Seq<Seq<char>>
    decreases text.len(),
{
    let blank = run_len(text, CharClass::Space, true) as int;
    let rest = text.skip(blank);
    if blank >= text.len() {
        Seq::empty()
    } else {
        let n = run_len(rest, CharClass::Space, false) as int;
        if n <= 0 || n > rest.len() {
            Seq::empty()
        } else {
            seq![rest.take(n)] + tokens_of(rest.skip(n))
        }
    }
}

/// Whether `ranges` cuts `text` into `parts`: each range, a start and an
/// end, holds one part.
pub open spec fn ranges_cut(ranges: Seq<(usize, usize)>, text: Seq<char>, parts: Seq<Seq<char>>) -> bool {
    &&& ranges.len() == parts.len()
    &&& forall|i: int|
        0 <= i < ranges.len() ==> (#[trigger] ranges[i]).0 <= ranges[i].1 <= text.len()
            && text.subrange(ranges[i].0 as int, ranges[i].1 as int) == parts[i]
}

/// Where the lines of `text` start and end.
pub fn line_ranges(text: &Vec<char>) -> (ranges: Vec<(usize, usize)>)
    ensures
        ranges_cut(ranges@, text@, lines_of(text@)),
{
    let mut ranges: Vec<(usize, usize)> = Vec::new();
    let mut start: usize = 0;
    let n: usize = text.len();
    proof {
        assert(text@.skip(0) == text@);
        assert(lines_of(text@).subrange(0, 0) + lines_of(text@) == lines_of(text@));
    }
    while start < n
        invariant
            start <= n,
            n == text@.len(),
            ranges@.len() <= start,
            ranges_cut(
                ranges@,
                text@,
                lines_of(text@).subrange(0, ranges@.len() as int),
            ),
            lines_of(text@) == lines_of(text@).subrange(0, ranges@.len() as int) + lines_of(
                text@.skip(start as int),
            ),
        decreases n - start,
    {
        let ghost rest = text@.skip(start as int);
        let ghost done = lines_of(text@).subrange(0, ranges@.len() as int);
        let ghost old_ranges = ranges@;
        assert(rest == text@.subrange(start as int, n as int));
        let stop: usize = scan(text, start, n, CharClass::Newline, false);
        if stop >= n {
            ranges.push((start, n));
            proof {
                assert(lines_of(rest) == seq![rest]);
                assert(lines_of(text@) == done + seq![rest]);
                assert(lines_of(text@).subrange(0, ranges@.len() as int) == lines_of(text@));
                assert(text@.skip(n as int).len() == 0);
                assert(lines_of(text@.skip(n as int)) == Seq::<Seq<char>>::empty());
                assert(lines_of(text@) == lines_of(text@) + Seq::<Seq<char>>::empty());
            }
            start = n;
        } else {
            let end: usize = if stop > start && text[stop - 1] == '\r' {
                stop - 1
            } else {
                stop
            };
            ranges.push((start, end));
            proof {
                let len = (stop - start) as int;
                let line = without_cr(rest.take(len));
                assert(rest.take(len) == text@.subrange(start as int, stop as int));
                assert(line == text@.subrange(start as int, end as int));
                assert(rest.skip(len + 1) == text@.skip(stop + 1));
                assert(lines_of(rest) == seq![line] + lines_of(text@.skip(stop + 1)));
                let all = lines_of(text@);
                assert(all == done + (seq![line] + lines_of(text@.skip(stop + 1))));
                assert(all.subrange(0, ranges@.len() as int) == done.push(line));
                assert(all == all.subrange(0, ranges@.len() as int) + lines_of(
                    text@.skip(stop + 1),
                ));
                assert forall|i: int| 0 <= i < ranges@.len() implies (#[trigger] ranges@[i]).0
                    <= ranges@[i].1 <= text@.len() && text@.subrange(
                    ranges@[i].0 as int,
                    ranges@[i].1 as int,
                ) == all.subrange(0, ranges@.len() as int)[i] by {
                    if i < old_ranges.len() {
                        assert(ranges@[i] == old_ranges[i]);
                        assert(done[i] == all.subrange(0, ranges@.len() as int)[i]);
                    }
                }
            }
            start = stop + 1;
        }
    }
    proof {
        assert(text@.skip(n as int).len() == 0);
        let all = lines_of(text@);
        assert(all == all.subrange(0, ranges@.len() as int) + Seq::<Seq<char>>::empty());
        assert(all.subrange(0, ranges@.len() as int).len() == ranges@.len());
        assert(all == all.subrange(0, ranges@.len() as int));
    }
    ranges
}

/// Where the words of `text` between `start` and `end` start and end.
pub fn token_ranges(text: &Vec<char>, start: usize, end: usize) -> (ranges: Vec<(usize, usize)>)
    requires
        start <= end <= text@.len(),
    ensures
        ranges_cut(ranges@, text@, tokens_of(text@.subrange(start as int, end as int))),
        forall|i: int|
            0 <= i < ranges@.len() ==> start <= (#[trigger] ranges@[i]).0 < ranges@[i].1 <= end,
{
    let ghost all = tokens_of(text@.subrange(start as int, end as int));
    let mut ranges: Vec<(usize, usize)> = Vec::new();
    let mut pos: usize = start;
    proof {
        assert(all.subrange(0, 0) + all == all);
    }
    loop
        invariant
            start <= pos <= end <= text@.len(),
            all == tokens_of(text@.subrange(start as int, end as int)),
            ranges@.len() <= all.len(),
            ranges_cut(ranges@, text@, all.subrange(0, ranges@.len() as int)),
            forall|i: int|
                0 <= i < ranges@.len() ==> start <= (#[trigger] ranges@[i]).0 < ranges@[i].1
                    <= end,
            all == all.subrange(0, ranges@.len() as int) + tokens_of(
                text@.subrange(pos as int, end as int),
            ),
        ensures
            ranges@.len() == all.len(),
            ranges_cut(ranges@, text@, all.subrange(0, ranges@.len() as int)),
            forall|i: int|
                0 <= i < ranges@.len() ==> start <= (#[trigger] ranges@[i]).0 < ranges@[i].1
                    <= end,
        decreases end - pos,
    {
        let ghost rest0 = text@.subrange(pos as int, end as int);
        let ghost done = all.subrange(0, ranges@.len() as int);
        let ghost old_ranges = ranges@;
        let from: usize = scan(text, pos, end, CharClass::Space, true);
        if from >= end {
            proof {
                assert(tokens_of(rest0) == Seq::<Seq<char>>::empty());
                assert(all == done + Seq::<Seq<char>>::empty());
                assert(all.len() == done.len());
            }
            break ;
        }
        let to: usize = scan(text, from, end, CharClass::Space, false);
        proof {
            let blank = (from - pos) as int;
            let rest = rest0.skip(blank);
            assert(rest == text@.subrange(from as int, end as int));
            lemma_run_len_bounds(rest0, CharClass::Space, true);
            assert(!is_space(rest[0]));
            let n = (to - from) as int;
            assert(run_len(rest, CharClass::Space, false) == n);
            assert(rest.drop_first().len() >= 0);
            assert(n >= 1);
            let word = rest.take(n);
            assert(word == text@.subrange(from as int, to as int));
            assert(rest.skip(n) == text@.subrange(to as int, end as int));
            assert(tokens_of(rest0) == seq![word] + tokens_of(rest.skip(n)));
            assert(all == done + (seq![word] + tokens_of(rest.skip(n))));
            assert(all.subrange(0, done.len() as int + 1) == done.push(word));
            assert(all == all.subrange(0, done.len() as int + 1) + tokens_of(rest.skip(n)));
        }
        ranges.push((from, to));
        proof {
            let now = all.subrange(0, ranges@.len() as int);
            assert forall|i: int| 0 <= i < ranges@.len() implies (#[trigger] ranges@[i]).0
                <= ranges@[i].1 <= text@.len() && text@.subrange(
                ranges@[i].0 as int,
                ranges@[i].1 as int,
            ) == now[i] by {
                if i < old_ranges.len() {
                    assert(ranges@[i] == old_ranges[i]);
                    assert(done[i] == now[i]);
                }
            }
        }
        pos = to;
    }
    proof {
        assert(all.subrange(0, all.len() as int) == all);
    }
    ranges
}

/// The decimal digit for `d`, which is at most 9.
pub open spec fn digit(d: int) -> char {
    ('0' as int + d) as char
}

/// A number in decimal, without leading zeros.
pub open spec fn decimal_text(n: nat) -> Seq<char>
    decreases n,
{
    if n < 10 {
        seq![digit(n as int)]
    } else {
        decimal_text(n / 10).push(digit((n % 10) as int))
    }
}

fn digit_char(d: u8) -> (c: char)
    requires
        d < 10,
    ensures
        c == digit(d as int),
{
    match d {
        0 => '0',
        1 => '1',
        2 => '2',
        3 => '3',
        4 => '4',
        5 => '5',
        6 => '6',
        7 => '7',
        8 => '8',
        _ => '9',
    }
}

/// Appends `n` in decimal.
pub fn push_decimal(text: &mut String, n: u64)
    ensures
        final(text)@ == old(text)@ + decimal_text(n as nat),
{
    let ghost start = text@;
    let mut digits: Vec<char> = Vec::new();
    let mut rest: u64 = n;
    let ghost mut low: Seq<char> = Seq::empty();
    loop
        invariant_except_break
            digits@.len() == low.len(),
            forall|i: int| 0 <= i < low.len() ==> #[trigger] digits@[i] == low[low.len() - 1 - i],
            low.len() == 0 ==> rest == n,
            low.len() > 0 ==> rest > 0 && decimal_text(n as nat) == decimal_text(rest as nat) + low,
        ensures
            digits@.len() == low.len(),
            low == decimal_text(n as nat),
            forall|i: int| 0 <= i < low.len() ==> #[trigger] digits@[i] == low[low.len() - 1 - i],
        decreases rest, (if low.len() == 0 { 1nat } else { 0nat }),
    {
        let d: u8 = (rest % 10) as u8;
        let ghost old_low = low;
        let ghost old_rest = rest as nat;
        let ghost whole = if old_low.len() == 0 {
            decimal_text(old_rest)
        } else {
            decimal_text(old_rest) + old_low
        };
        assert(whole == decimal_text(n as nat));
        digits.push(digit_char(d));
        rest = rest / 10;
        proof {
            low = seq![digit(d as int)] + old_low;
            assert(d as int == (old_rest % 10) as int);
            assert(rest as nat == old_rest / 10);
            if old_rest < 10 {
                assert(decimal_text(old_rest) == seq![digit(d as int)]);
                assert(seq![digit(d as int)] + old_low =~= low);
                assert(decimal_text(old_rest) + old_low == low);
                assert(rest == 0);
                if old_low.len() == 0 {
                    assert(low =~= decimal_text(old_rest));
                }
                assert(whole == low);
            } else {
                let front = decimal_text(old_rest / 10);
                assert(decimal_text(old_rest) == front.push(digit(d as int)));
                assert(front.push(digit(d as int)) + old_low =~= front + low);
                if old_low.len() == 0 {
                    assert(front.push(digit(d as int)) =~= front + low);
                }
                assert(whole == front + low);
                assert(rest > 0);
            }
        }
        if rest == 0 {
            break ;
        }
    }
    let mut k: usize = digits.len();
    while k > 0
        invariant
            k <= digits@.len(),
            digits@.len() == low.len(),
            forall|i: int| 0 <= i < low.len() ==> #[trigger] digits@[i] == low[low.len() - 1 - i],
            text@ == start + low.subrange(0, low.len() - k),
        decreases k,
    {
        k = k - 1;
        push_char(text, digits[k]);
        assert(text@ =~= start + low.subrange(0, low.len() - k));
    }
    assert(low.subrange(0, low.len() as int) == low);
}

} // verus!
