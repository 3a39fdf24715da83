//! Colors, pieces, coordinates and moves: the plain values of the game.

use std::cmp::Ordering;
use vstd::prelude::*;
use vstd::string::StringExecFns;

verus! {

/// Smallest index along either axis of the board.
pub const START_INDEX: usize = 0;

/// Largest index along either axis of the board.
pub const END_INDEX: usize = 7;

/// Bit set in the integer form of a black piece.
pub const BLACK_FLAG: u8 = 1;

/// Bit set in the integer form of a white piece.
pub const WHITE_FLAG: u8 = 2;

/// Bit set in the integer form of a crowned piece.
pub const CROWN_FLAG: u8 = 4;

/// The two sides of the game.
#[derive(Copy, Clone, Debug, Eq, Hash, PartialEq, Structural)]
pub enum PieceColor {
    Black,
    White,
}

/// A direction of travel: one signed step along each axis.
#[derive(Clone, Copy, Debug, Eq, PartialEq, Structural)]
pub struct Delta {
    pub x: i8,
    pub y: i8,
}

/// The four diagonals, in the order in which destinations are generated.
pub open spec fn directions() -> Seq<Delta> {
    seq![
        Delta { x: (-1) as i8, y: 1 },
        Delta { x: (-1) as i8, y: (-1) as i8 },
        Delta { x: 1, y: (-1) as i8 },
        Delta { x: 1, y: 1 },
    ]
}

/// The four diagonals as an array.
pub fn move_dirs() -> (dirs: [Delta; 4])
    ensures
        dirs@ == directions(),
{
    let dirs = [
        Delta { x: -1, y: 1 },
        Delta { x: -1, y: -1 },
        Delta { x: 1, y: -1 },
        Delta { x: 1, y: 1 },
    ];
    assert(dirs@ =~= directions());
    dirs
}

/// A piece: its side, and whether it has been promoted.
#[derive(Clone, Copy, Debug, Eq, PartialEq, Structural)]
pub struct GamePiece {
    pub color: PieceColor,
    pub crowned: bool,
}

impl GamePiece {
    /// The integer form of a piece: the flag of its color, plus the crown
    /// flag when it is crowned.
    pub open spec fn flags(self) -> int {
        let side: int = match self.color {
            PieceColor::Black => 1,
            PieceColor::White => 2,
        };
        if self.crowned {
            side + 4
        } else {
            side
        }
    }

    /// A fresh, uncrowned piece of the given color.
    pub fn new(color: PieceColor) -> (piece: GamePiece)
        ensures
            piece == (GamePiece { color, crowned: false }),
    {
        GamePiece { color, crowned: false }
    }

    /// The promoted form of a piece: same color, crowned.  Crowning a
    /// crowned piece gives the same piece back.
    pub fn crown(piece: GamePiece) -> (crowned: GamePiece)
        ensures
            crowned == (GamePiece { color: piece.color, crowned: true }),
    {
        GamePiece { color: piece.color, crowned: true }
    }
}

impl vstd::std_specs::convert::FromSpecImpl<GamePiece> for i32 {
    open spec fn obeys_from_spec() -> bool {
        true
    }

    open spec fn from_spec(piece: GamePiece) -> i32 {
        piece.flags() as i32
    }
}

impl From<GamePiece> for i32 {
    /// Packs a piece into an integer: 1 for black, 2 for white, plus 4
    /// when crowned.
    fn from(piece: GamePiece) -> (code: i32)
        ensures
            code == piece.flags(),
    {
        let mut val: u8 = 0;
        match piece.color {
            PieceColor::Black => {
                val += BLACK_FLAG;
            },
            PieceColor::White => {
                val += WHITE_FLAG;
            },
        }
        if piece.crowned {
            val += CROWN_FLAG;
        }
        val as i32
    }
}

/// A position `(x, y)`.  Positions off the board can be written down, but
/// never name a square.
#[derive(Clone, Copy, Debug, Eq, Hash, Ord, PartialEq, PartialOrd, Structural)]
pub struct Coordinate(pub usize, pub usize);

/// The character of a decimal digit.
pub open spec fn digit_char(d: int) -> char {
    if d == 0 {
        '0'
    } else if d == 1 {
        '1'
    } else if d == 2 {
        '2'
    } else if d == 3 {
        '3'
    } else if d == 4 {
        '4'
    } else if d == 5 {
        '5'
    } else if d == 6 {
        '6'
    } else if d == 7 {
        '7'
    } else if d == 8 {
        '8'
    } else {
        '9'
    }
}

/// The decimal numeral of `n`, most significant digit first, without
/// leading zeros.
pub open spec fn decimal(n: nat) -> Seq<char>
    decreases n,
{
    if n < 10 {
        seq![digit_char(n as int)]
    } else {
        decimal(n / 10).push(digit_char((n % 10) as int))
    }
}

fn digit_str(d: usize) -> (s: &'static str)
    requires
        d < 10,
    ensures
        s@ == seq![digit_char(d as int)],
{
    proof {
        reveal_strlit("0");
        reveal_strlit("1");
        reveal_strlit("2");
        reveal_strlit("3");
        reveal_strlit("4");
        reveal_strlit("5");
        reveal_strlit("6");
        reveal_strlit("7");
        reveal_strlit("8");
        reveal_strlit("9");
    }
    let s = if d == 0 {
        "0"
    } else if d == 1 {
        "1"
    } else if d == 2 {
        "2"
    } else if d == 3 {
        "3"
    } else if d == 4 {
        "4"
    } else if d == 5 {
        "5"
    } else if d == 6 {
        "6"
    } else if d == 7 {
        "7"
    } else if d == 8 {
        "8"
    } else {
        "9"
    };
    assert(s@ =~= seq![digit_char(d as int)]);
    s
}

fn push_decimal(out: &mut String, n: usize)
    ensures
        final(out)@ == old(out)@ + decimal(n as nat),
    decreases n,
{
    if n >= 10 {
        push_decimal(out, n / 10);
    }
    out.append(digit_str(n % 10));
    assert(out@ =~= old(out)@ + decimal(n as nat));
}

impl Coordinate {
    /// Whether both axes lie within the board.
    pub open spec fn on_board(self) -> bool {
        self.0 <= END_INDEX && self.1 <= END_INDEX
    }

    /// The square `distance` steps away along `delta`, if that square is
    /// on the board.
    pub open spec fn shifted(self, delta: Delta, distance: int) -> Option<Coordinate> {
        let x = self.0 + delta.x * distance;
        let y = self.1 + delta.y * distance;
        if 0 <= x <= END_INDEX && 0 <= y <= END_INDEX {
            Some(Coordinate(x as usize, y as usize))
        } else {
            None
        }
    }

    /// `shifted` from this position at a fixed distance, as a function of
    /// the direction.
    pub open spec fn toward(self, distance: int) -> spec_fn(Delta) -> Option<Coordinate> {
        |delta: Delta| self.shifted(delta, distance)
    }

    /// The squares `distance` diagonal steps away that are on the board,
    /// in the order of `directions`.
    pub open spec fn neighbors(self, distance: int) -> Seq<Coordinate> {
        directions().filter_map(self.toward(distance))
    }

    /// Lexicographic order: by `x`, then by `y`.
    pub open spec fn comes_before(self, other: Coordinate) -> bool {
        self.0 < other.0 || (self.0 == other.0 && self.1 < other.1)
    }

    /// Whether this position names a square of the board.
    pub fn valid(self) -> (ok: bool)
        ensures
            ok == self.on_board(),
    {
        let Coordinate(x, y) = self;
        x <= END_INDEX && y <= END_INDEX
    }

    fn shifted_by(&self, delta: &Delta, distance: i8) -> (target: Option<Coordinate>)
        ensures
            target == self.shifted(*delta, distance as int),
    {
        let Coordinate(x, y) = *self;
        assert(-16384 <= delta.x * distance <= 16384 && -16384 <= delta.y * distance <= 16384)
            by (nonlinear_arith)
            requires
                -128 <= delta.x <= 127,
                -128 <= delta.y <= 127,
                -128 <= distance <= 127,
        ;
        if x > 20000 || y > 20000 {
            return None;
        }
        let step_x: i32 = (delta.x as i32) * (distance as i32);
        let step_y: i32 = (delta.y as i32) * (distance as i32);
        let new_x: i32 = x as i32 + step_x;
        let new_y: i32 = y as i32 + step_y;
        let new_x_valid = START_INDEX as i32 <= new_x && new_x <= END_INDEX as i32;
        let new_y_valid = START_INDEX as i32 <= new_y && new_y <= END_INDEX as i32;
        if new_x_valid && new_y_valid {
            Some(Coordinate(new_x as usize, new_y as usize))
        } else {
            None
        }
    }

    /// The squares `distance` diagonal steps away, in the fixed order of
    /// the four diagonals; squares off the board are left out.
    pub fn valid_directions(&self, distance: i8) -> (moves: Vec<Coordinate>)
        ensures
            moves@ == self.neighbors(distance as int),
            forall|i: int| 0 <= i < moves.len() ==> (#[trigger] moves[i]).on_board(),
    {
        let mut moves: Vec<Coordinate> = Vec::new();
        let dirs = move_dirs();
        let ghost towards = self.toward(distance as int);
        let mut i: usize = 0;
        while i < 4
            invariant
                i <= 4,
                dirs@ == directions(),
                towards == self.toward(distance as int),
                moves@ == directions().take(i as int).filter_map(towards),
                forall|k: int| 0 <= k < moves.len() ==> (#[trigger] moves[k]).on_board(),
            decreases 4 - i,
        {
            let target = self.shifted_by(&dirs[i], distance);
            proof {
                directions().lemma_filter_map_take_succ(towards, i as int);
            }
            if let Some(square) = target {
                moves.push(square);
            }
            i += 1;
        }
        assert(directions().take(4) =~= directions());
        moves
    }

    /// Where a single step can lead.
    pub fn valid_moves(&self) -> (moves: Vec<Coordinate>)
        ensures
            moves@ == self.neighbors(1),
            forall|i: int| 0 <= i < moves.len() ==> (#[trigger] moves[i]).on_board(),
    {
        self.valid_directions(1)
    }

    /// Where a jump can lead.
    pub fn valid_jumps(&self) -> (jumps: Vec<Coordinate>)
        ensures
            jumps@ == self.neighbors(2),
            forall|i: int| 0 <= i < jumps.len() ==> (#[trigger] jumps[i]).on_board(),
    {
        self.valid_directions(2)
    }

    /// The position as text: both numbers in decimal, with a comma between.
    pub fn hash(&self) -> (text: String)
        ensures
            text@ == decimal(self.0 as nat) + seq![','] + decimal(self.1 as nat),
    {
        let mut text = String::new();
        push_decimal(&mut text, self.0);
        proof {
            reveal_strlit(",");
        }
        text.append(",");
        push_decimal(&mut text, self.1);
        assert(text@ =~= decimal(self.0 as nat) + seq![','] + decimal(self.1 as nat));
        text
    }

    /// Compares two positions by `x`, then by `y`.
    pub fn cmp(&self, other: &Coordinate) -> (order: Ordering)
        ensures
            order is Less <==> self.comes_before(*other),
            order is Equal <==> *self == *other,
            order is Greater <==> other.comes_before(*self),
    {
        let Coordinate(a_x, a_y) = *self;
        let Coordinate(b_x, b_y) = *other;
        if a_x > b_x {
            Ordering::Greater
        } else if a_x < b_x {
            Ordering::Less
        } else if a_y == b_y {
            Ordering::Equal
        } else if a_y > b_y {
            Ordering::Greater
        } else {
            Ordering::Less
        }
    }
}

/// A move of one piece from a square to another.
#[derive(Clone, Copy, Eq, Debug, Ord, PartialEq, PartialOrd, Structural)]
pub struct Move {
    pub from: Coordinate,
    pub to: Coordinate,
}

impl Move {
    /// Order of moves: by origin, then by destination.
    pub open spec fn comes_before(self, other: Move) -> bool {
        self.from.comes_before(other.from) || (self.from == other.from && self.to.comes_before(
            other.to,
        ))
    }

    /// The move between two positions given as pairs.
    pub fn new(from: (usize, usize), to: (usize, usize)) -> (movement: Move)
        ensures
            movement.from == Coordinate(from.0, from.1),
            movement.to == Coordinate(to.0, to.1),
    {
        Move { from: Coordinate(from.0, from.1), to: Coordinate(to.0, to.1) }
    }

    /// Compares two moves by origin, then by destination.
    pub fn cmp(&self, other: &Move) -> (order: Ordering)
        ensures
            order is Less <==> self.comes_before(*other),
            order is Equal <==> *self == *other,
            order is Greater <==> other.comes_before(*self),
    {
        match self.from.cmp(&other.from) {
            Ordering::Greater => Ordering::Greater,
            Ordering::Less => Ordering::Less,
            Ordering::Equal => self.to.cmp(&other.to),
        }
    }
}

} // verus!
