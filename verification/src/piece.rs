//! The two sides, the thirteen piece kinds and the outcome of a turn.

use vstd::prelude::*;

verus! {

/// One of the two players. White moves first and starts on ranks 1 and 2.
#[derive(Clone, Copy, Debug, PartialEq, Eq, Structural)]
pub enum Side {
    White,
    Black,
}

impl Side {
    /// The other player.
    pub open spec fn other(self) -> Side {
        match self {
            Side::White => Side::Black,
            Side::Black => Side::White,
        }
    }

    /// 0 for White, 1 for Black: the index into per-side tables.
    pub open spec fn index_spec(self) -> int {
        match self {
            Side::White => 0,
            Side::Black => 1,
        }
    }

    pub fn opposite(&self) -> (side: Side)
        ensures
            side == self.other(),
    {
        match self {
            Side::White => Side::Black,
            Side::Black => Side::White,
        }
    }

    pub fn index(self) -> (i: usize)
        ensures
            i == self.index_spec(),
    {
        match self {
            Side::White => 0,
            Side::Black => 1,
        }
    }
}

/// What a finished step means for the game.
#[derive(Clone, Copy, Debug, PartialEq, Eq, Structural)]
pub enum EndState {
    WhiteWin,
    BlackWin,
    Neither,
}

impl EndState {
    /// The outcome in which `side` has won.
    pub open spec fn win_for(side: Side) -> EndState {
        match side {
            Side::White => EndState::WhiteWin,
            Side::Black => EndState::BlackWin,
        }
    }
}

impl vstd::std_specs::convert::FromSpecImpl<Side> for EndState {
    open spec fn obeys_from_spec() -> bool {
        true
    }

    open spec fn from_spec(item: Side) -> EndState {
        EndState::win_for(item)
    }
}

impl From<Side> for EndState {
    fn from(item: Side) -> (state: EndState) {
        match item {
            Side::White => EndState::WhiteWin,
            Side::Black => EndState::BlackWin,
        }
    }
}

/// A piece kind together with its colour, or the absence of a piece.
///
/// The kinds are numbered 0 (empty), 1 to 6 (White rabbit, cat, dog, horse,
/// camel, elephant) and 7 to 12 (the same for Black).
#[derive(Clone, Copy, Debug, PartialEq, Eq, Structural)]
pub enum Piece {
    Empty,
    WRabbit,
    WCat,
    WDog,
    WHorse,
    WCamel,
    WElephant,
    BRabbit,
    BCat,
    BDog,
    BHorse,
    BCamel,
    BElephant,
}

impl Piece {
    /// The number of the kind, 0 to 12.
    pub open spec fn index_spec(self) -> int {
        match self {
            Piece::Empty => 0,
            Piece::WRabbit => 1,
            Piece::WCat => 2,
            Piece::WDog => 3,
            Piece::WHorse => 4,
            Piece::WCamel => 5,
            Piece::WElephant => 6,
            Piece::BRabbit => 7,
            Piece::BCat => 8,
            Piece::BDog => 9,
            Piece::BHorse => 10,
            Piece::BCamel => 11,
            Piece::BElephant => 12,
        }
    }

    /// The kind with number `n`, if `n` is at most 12.
    pub open spec fn of_index(n: int) -> Option<Piece> {
        if n == 0 {
            Some(Piece::Empty)
        } else if n == 1 {
            Some(Piece::WRabbit)
        } else if n == 2 {
            Some(Piece::WCat)
        } else if n == 3 {
            Some(Piece::WDog)
        } else if n == 4 {
            Some(Piece::WHorse)
        } else if n == 5 {
            Some(Piece::WCamel)
        } else if n == 6 {
            Some(Piece::WElephant)
        } else if n == 7 {
            Some(Piece::BRabbit)
        } else if n == 8 {
            Some(Piece::BCat)
        } else if n == 9 {
            Some(Piece::BDog)
        } else if n == 10 {
            Some(Piece::BHorse)
        } else if n == 11 {
            Some(Piece::BCamel)
        } else if n == 12 {
            Some(Piece::BElephant)
        } else {
            None
        }
    }

    pub open spec fn is_white(self) -> bool {
        1 <= self.index_spec() <= 6
    }

    pub open spec fn is_black(self) -> bool {
        7 <= self.index_spec() <= 12
    }

    /// Whether the piece belongs to `side`. The empty kind belongs to nobody.
    pub open spec fn belongs_to(self, side: Side) -> bool {
        match side {
            Side::White => self.is_white(),
            Side::Black => self.is_black(),
        }
    }

    /// Strength without colour: 0 for empty, 1 (rabbit) to 6 (elephant).
    pub open spec fn strength_spec(self) -> int {
        if self.is_black() {
            self.index_spec() - 6
        } else {
            self.index_spec()
        }
    }

    pub open spec fn is_rabbit(self) -> bool {
        self == Piece::WRabbit || self == Piece::BRabbit
    }

    /// The letter of the piece: upper case for White, lower case for Black,
    /// a space for the empty kind.
    pub open spec fn letter(self) -> char {
        match self {
            Piece::Empty => ' ',
            Piece::WRabbit => 'R',
            Piece::WCat => 'C',
            Piece::WDog => 'D',
            Piece::WHorse => 'H',
            Piece::WCamel => 'M',
            Piece::WElephant => 'E',
            Piece::BRabbit => 'r',
            Piece::BCat => 'c',
            Piece::BDog => 'd',
            Piece::BHorse => 'h',
            Piece::BCamel => 'm',
            Piece::BElephant => 'e',
        }
    }

    pub fn index(self) -> (i: usize)
        ensures
            i == self.index_spec(),
    {
        match self {
            Piece::Empty => 0,
            Piece::WRabbit => 1,
            Piece::WCat => 2,
            Piece::WDog => 3,
            Piece::WHorse => 4,
            Piece::WCamel => 5,
            Piece::WElephant => 6,
            Piece::BRabbit => 7,
            Piece::BCat => 8,
            Piece::BDog => 9,
            Piece::BHorse => 10,
            Piece::BCamel => 11,
            Piece::BElephant => 12,
        }
    }

    pub fn from_u8(n: u8) -> (piece: Option<Piece>)
        ensures
            piece == Piece::of_index(n as int),
    {
        match n {
            0 => Some(Piece::Empty),
            1 => Some(Piece::WRabbit),
            2 => Some(Piece::WCat),
            3 => Some(Piece::WDog),
            4 => Some(Piece::WHorse),
            5 => Some(Piece::WCamel),
            6 => Some(Piece::WElephant),
            7 => Some(Piece::BRabbit),
            8 => Some(Piece::BCat),
            9 => Some(Piece::BDog),
            10 => Some(Piece::BHorse),
            11 => Some(Piece::BCamel),
            12 => Some(Piece::BElephant),
            _ => None,
        }
    }

    pub fn strength(self) -> (s: usize)
        ensures
            s == self.strength_spec(),
    {
        let i: usize = self.index();
        if i >= 7 {
            i - 6
        } else {
            i
        }
    }

    /// The side that owns the piece, or `None` for the empty kind.
    pub fn side(self) -> (owner: Option<Side>)
        ensures
            owner is Some <==> self != Piece::Empty,
            forall|s: Side| owner == Some(s) <==> self.belongs_to(s),
    {
        let i: usize = self.index();
        if i == 0 {
            None
        } else if i <= 6 {
            Some(Side::White)
        } else {
            Some(Side::Black)
        }
    }

    /// Whether the piece belongs to `side`.
    pub fn is_of(self, side: Side) -> (mine: bool)
        ensures
            mine == self.belongs_to(side),
    {
        let i: usize = self.index();
        match side {
            Side::White => 1 <= i && i <= 6,
            Side::Black => i >= 7,
        }
    }

    pub fn to_char(self) -> (c: char)
        ensures
            c == self.letter(),
    {
        match self {
            Piece::Empty => ' ',
            Piece::WRabbit => 'R',
            Piece::WCat => 'C',
            Piece::WDog => 'D',
            Piece::WHorse => 'H',
            Piece::WCamel => 'M',
            Piece::WElephant => 'E',
            Piece::BRabbit => 'r',
            Piece::BCat => 'c',
            Piece::BDog => 'd',
            Piece::BHorse => 'h',
            Piece::BCamel => 'm',
            Piece::BElephant => 'e',
        }
    }
}

/// The number (0 to 12) of the piece kind written as `letter`; 0 for any
/// character that is no piece letter.
pub open spec fn piece_char_index_spec(letter: char) -> u8 {
    if letter == 'R' {
        1
    } else if letter == 'C' {
        2
    } else if letter == 'D' {
        3
    } else if letter == 'H' {
        4
    } else if letter == 'M' {
        5
    } else if letter == 'E' {
        6
    } else if letter == 'r' {
        7
    } else if letter == 'c' {
        8
    } else if letter == 'd' {
        9
    } else if letter == 'h' {
        10
    } else if letter == 'm' {
        11
    } else if letter == 'e' {
        12
    } else {
        0
    }
}

#[verifier::when_used_as_spec(piece_char_index_spec)]
pub fn piece_char_index(piece: char) -> (index: u8)
    ensures
        index == piece_char_index_spec(piece),
{
    match piece {
        'R' => 1,
        'C' => 2,
        'D' => 3,
        'H' => 4,
        'M' => 5,
        'E' => 6,
        'r' => 7,
        'c' => 8,
        'd' => 9,
        'h' => 10,
        'm' => 11,
        'e' => 12,
        _ => 0,
    }
}

/// Reading a piece's letter gives back its number.
pub proof fn lemma_letter_round_trip(piece: Piece)
    ensures
        piece_char_index_spec(piece.letter()) == piece.index_spec(),
        Piece::of_index(piece.index_spec()) == Some(piece),
{
}

/// One of the four directions in which a piece can step.
#[derive(Clone, Copy, Debug, PartialEq, Eq, Structural)]
pub enum Direction {
    North,
    East,
    South,
    West,
}

impl Direction {
    pub open spec fn letter(self) -> char {
        match self {
            Direction::North => 'n',
            Direction::East => 'e',
            Direction::South => 's',
            Direction::West => 'w',
        }
    }

    pub open spec fn of_letter(c: char) -> Option<Direction> {
        if c == 'n' {
            Some(Direction::North)
        } else if c == 'e' {
            Some(Direction::East)
        } else if c == 's' {
            Some(Direction::South)
        } else if c == 'w' {
            Some(Direction::West)
        } else {
            None
        }
    }

    pub fn to_char(self) -> (c: char)
        ensures
            c == self.letter(),
    {
        match self {
            Direction::North => 'n',
            Direction::East => 'e',
            Direction::South => 's',
            Direction::West => 'w',
        }
    }

    /// The direction written as `c`, or `None` where `c` is none of `n`, `e`, `s`, `w`.
    pub fn from_char(c: char) -> (dir: Option<Direction>)
        ensures
            dir == Direction::of_letter(c),
    {
        match c {
            'n' => Some(Direction::North),
            'e' => Some(Direction::East),
            's' => Some(Direction::South),
            'w' => Some(Direction::West),
            _ => None,
        }
    }
}

impl vstd::std_specs::convert::FromSpecImpl<Piece> for char {
    open spec fn obeys_from_spec() -> bool {
        true
    }

    open spec fn from_spec(item: Piece) -> char {
        item.letter()
    }
}

impl From<Piece> for char {
    fn from(item: Piece) -> (c: char) {
        item.to_char()
    }
}

impl vstd::std_specs::convert::FromSpecImpl<Direction> for char {
    open spec fn obeys_from_spec() -> bool {
        true
    }

    open spec fn from_spec(item: Direction) -> char {
        item.letter()
    }
}

impl From<Direction> for char {
    fn from(item: Direction) -> (c: char) {
        item.to_char()
    }
}

} // verus!
