//! The engine: it owns the board, knows whose turn it is, counts the
//! moves made, and keeps for each color the moves it will accept.

use crate::board::{Coordinate, GamePiece, Move, PieceColor, END_INDEX, START_INDEX};
use crate::cache::MoveCache;
use crate::grid::{piece_at, Board};
use crate::rules::{
    all_legal, heads_the_right_way, lands_on_empty, leaps_over_opponent, legal_among, legal_for,
    legal_within, leaving, midpoint, moves_from, reaches_far_row, scanned, spans_two_rows,
};
use crate::state::{
    initial_state, lemma_accepted_move, lemma_initial_state, lemma_move_steps,
    lemma_piece_crowned, lemma_piece_placed, lemma_square_emptied, not_from, starting_piece,
    starts_occupied, starting_squares, EngineState,
};
use vstd::prelude::*;

verus! {

/// The state and the operations of one game.
///
/// For each color the engine keeps the moves that it will accept.  It
/// finds them square by square: when a square changes, the moves kept
/// from that square are replaced, and the moves kept from every other
/// square stay as they are.
pub struct GameEngine {
    board: Board,
    current_turn: PieceColor,
    move_count: u32,
    valid_moves: MoveCache,
}

/// What an accepted move did.
#[derive(Clone, Copy, Debug, Eq, PartialEq, Structural)]
pub struct MoveResult {
    pub movement: Move,
    pub crowned: bool,
}

impl View for GameEngine {
    type V = EngineState;

    closed spec fn view(&self) -> EngineState {
        EngineState {
            board: self.board@,
            turn: self.current_turn,
            move_count: self.move_count as nat,
            black_moves: self.valid_moves.moves(PieceColor::Black),
            white_moves: self.valid_moves.moves(PieceColor::White),
        }
    }
}

/// The starting squares among the first `count` squares of a full scan.
spec fn starting_squares_within(count: int) -> Map<Coordinate, GamePiece> {
    Map::new(
        |location: Coordinate| starts_occupied(location) && location.1 * 8 + location.0 < count,
        |location: Coordinate| starting_piece(location),
    )
}

fn mean(a: usize, b: usize) -> (m: usize)
    ensures
        m == (a + b) / 2,
{
    a / 2 + b / 2 + (a % 2 + b % 2) / 2
}

fn halfway(movement: &Move) -> (mid: Coordinate)
    ensures
        mid == midpoint(*movement),
{
    Coordinate(mean(movement.from.0, movement.to.0), mean(movement.from.1, movement.to.1))
}

impl GameEngine {
    /// An engine at the start of a game.
    pub fn new() -> (engine: GameEngine)
        ensures
            engine@ == initial_state(),
            engine@.wf(),
    {
        let mut engine = GameEngine {
            board: Board::new(),
            current_turn: PieceColor::Black,
            move_count: 0,
            valid_moves: MoveCache::new(),
        };
        engine.initialize();
        engine
    }

    /// Starts the game over: the board is emptied and set up, black is to
    /// move, no move has been made, and the moves of both colors are
    /// found by a scan of the whole board.
    pub fn initialize(&mut self)
        ensures
            final(self)@ == initial_state(),
            final(self)@.wf(),
    {
        self.board = Board::new();
        let mut k: usize = 0;
        while k < 64
            invariant
                k <= 64,
                self.board@ == starting_squares_within(k as int),
            decreases 64 - k,
        {
            let x = k % 8;
            let y = k / 8;
            if (x + y) % 2 == 1 && (y <= 2 || y >= 5) {
                let color = if y <= 2 {
                    PieceColor::White
                } else {
                    PieceColor::Black
                };
                self.board.set(Coordinate(x, y), GamePiece::new(color));
            }
            k += 1;
            assert(self.board@ =~= starting_squares_within(k as int));
        }
        assert(self.board@ =~= starting_squares());
        self.current_turn = PieceColor::Black;
        self.move_count = 0;
        self.valid_moves = self.init_valid_moves();
        proof {
            assert(self@ =~= initial_state());
            lemma_initial_state();
        }
    }

    /// Makes a move if it is among the moves kept for the color to move,
    /// and tells what it did; otherwise changes nothing.
    ///
    /// An accepted move takes the piece from its origin to its
    /// destination, takes away the piece halfway if the move is a jump,
    /// crowns the piece if it reached its far row, passes the turn and
    /// counts the move.  The kept moves are updated for the squares that
    /// changed, and for no other.
    pub fn move_piece(&mut self, movement: &Move) -> (result: Result<MoveResult, ()>)
        requires
            old(self)@.wf(),
            old(self)@.accepts(*movement) ==> old(self)@.move_count < u32::MAX,
        ensures
            final(self)@.wf(),
            result is Ok <==> old(self)@.accepts(*movement),
            result matches Ok(outcome) ==> ({
                &&& outcome.movement == *movement
                &&& outcome.crowned == reaches_far_row(
                    old(self)@.board[movement.from],
                    movement.to,
                )
                &&& final(self)@ == old(self)@.after_move(*movement)
            }),
            result is Err ==> final(self)@ == old(self)@,
    {
        if !self.valid_moves.contains(self.current_turn, movement) {
            return Err(());
        }
        proof {
            lemma_accepted_move(self@, *movement);
            lemma_move_steps(self@, *movement);
            if spans_two_rows(*movement) {
                lemma_square_emptied(self@, midpoint(*movement));
            }
        }
        let piece = self.board.get(movement.from).unwrap();

        let jumped_piece_coords = self.jumped_piece_coords(movement.from, movement.to);
        if let Some(location) = jumped_piece_coords {
            self.remove_piece(location);
        }
        // Move the piece at the "from" coordinates to the "to" coordinates:

        self.remove_piece(movement.from);
        self.set_piece(movement.to, piece);

        let crowned = if self.should_crown(piece, movement.to) {
            self.crown(movement.to);
            true
        } else {
            false
        };

        self.advance_turn();

        Ok(MoveResult { movement: *movement, crowned })
    }

    /// The color whose turn it is.
    pub fn current_turn(&self) -> (color: PieceColor)
        ensures
            color == self@.turn,
    {
        self.current_turn
    }

    /// How many moves have been made.
    pub fn move_count(&self) -> (count: u32)
        ensures
            count == self@.move_count,
    {
        self.move_count
    }

    /// The piece on a square, if any; an error for a position off the
    /// board.
    pub fn get_piece(&self, location: Coordinate) -> (result: Result<Option<GamePiece>, ()>)
        ensures
            location.on_board() ==> result == Ok::<Option<GamePiece>, ()>(
                piece_at(self@.board, location),
            ),
            !location.on_board() ==> result is Err,
    {
        if location.valid() {
            Ok(self.board.get(location))
        } else {
            Err(())
        }
    }

    /// The moves kept for a color, in the order in which they were found.
    pub fn valid_moves(&self, color: PieceColor) -> (moves: &Vec<Move>)
        ensures
            moves@ == self@.cached(color),
    {
        self.valid_moves.get(color)
    }

    /// All the moves that geometry allows from a position: the single
    /// steps, then the jumps.  The board plays no part.
    pub fn valid_moves_for(&self, location: Coordinate) -> (moves: Vec<Move>)
        ensures
            moves@ == moves_from(location),
            forall|i: int|
                0 <= i < moves.len() ==> (#[trigger] moves[i]).from == location
                    && moves[i].to.on_board(),
    {
        let steps = location.valid_moves();
        let jumps = location.valid_jumps();
        let mut moves: Vec<Move> = Vec::new();
        let mut i: usize = 0;
        while i < steps.len()
            invariant
                i <= steps.len(),
                forall|k: int| 0 <= k < steps.len() ==> (#[trigger] steps[k]).on_board(),
                moves@ == steps@.take(i as int).map_values(leaving(location)),
            decreases steps.len() - i,
        {
            moves.push(Move { from: location, to: steps[i] });
            i += 1;
            assert(moves@ =~= steps@.take(i as int).map_values(leaving(location)));
        }
        assert(steps@.take(steps.len() as int) =~= steps@);
        let mut j: usize = 0;
        while j < jumps.len()
            invariant
                j <= jumps.len(),
                forall|k: int| 0 <= k < jumps.len() ==> (#[trigger] jumps[k]).on_board(),
                moves@ == steps@.map_values(leaving(location)) + jumps@.take(j as int).map_values(
                    leaving(location),
                ),
            decreases jumps.len() - j,
        {
            moves.push(Move { from: location, to: jumps[j] });
            j += 1;
            assert(moves@ =~= steps@.map_values(leaving(location)) + jumps@.take(
                j as int,
            ).map_values(leaving(location)));
        }
        assert(jumps@.take(jumps.len() as int) =~= jumps@);
        moves
    }

    /// All legal moves on the board as it stands, for each color, found
    /// by a scan of the whole board.
    pub fn init_valid_moves(&self) -> (found: MoveCache)
        ensures
            found.moves(PieceColor::Black) == all_legal(self@.board, PieceColor::Black),
            found.moves(PieceColor::White) == all_legal(self@.board, PieceColor::White),
    {
        let mut map = MoveCache::new();
        let mut y: usize = START_INDEX;
        while y <= END_INDEX
            invariant
                y <= 8,
                forall|color: PieceColor| #[trigger]
                    map.moves(color) == legal_within(self@.board, color, (y * 8) as nat),
            decreases 8 - y,
        {
            let mut x: usize = START_INDEX;
            while x <= END_INDEX
                invariant
                    y < 8,
                    x <= 8,
                    forall|color: PieceColor| #[trigger]
                        map.moves(color) == legal_within(self@.board, color, (y * 8 + x) as nat),
                decreases 8 - x,
            {
                let location = Coordinate(x, y);
                assert(location == scanned(y * 8 + x));
                let ghost before = map;
                if let Some(piece) = self.board.get(location) {
                    let location_moves = self.valid_moves_for(location);
                    let legal_moves = self.legal_moves(piece, location_moves);
                    map.append(piece.color, legal_moves);
                }
                x += 1;
                assert forall|color: PieceColor| #[trigger]
                    map.moves(color) == legal_within(
                        self@.board,
                        color,
                        (y * 8 + x) as nat,
                    ) by {
                    assert(before.moves(color) + Seq::<Move>::empty() =~= before.moves(color));
                }
            }
            y += 1;
        }
        assert(map.moves(PieceColor::Black) == legal_within(self@.board, PieceColor::Black, 64));
        assert(map.moves(PieceColor::White) == legal_within(self@.board, PieceColor::White, 64));
        map
    }

    /// The moves among `moves` that `piece` may make on the board as it
    /// stands, in the same order: those that pass the direction rule, the
    /// destination rule and, if they are jumps, the jump rule.
    pub fn legal_moves(&self, piece: GamePiece, moves: Vec<Move>) -> (legal: Vec<Move>)
        ensures
            legal@ == legal_among(self@.board, piece, moves@),
    {
        let ghost rule = legal_for(self@.board, piece);
        let mut legal: Vec<Move> = Vec::new();
        let mut i: usize = 0;
        while i < moves.len()
            invariant
                i <= moves.len(),
                rule == legal_for(self@.board, piece),
                legal@ == moves@.take(i as int).filter(rule),
            decreases moves.len() - i,
        {
            let mve = moves[i];
            proof {
                assert(moves@.take(i + 1) =~= moves@.take(i as int).push(mve));
                moves@.take(i as int).lemma_filter_push(mve, rule);
            }
            if self.valid_direction(piece, mve) && self.valid_destination(mve) && (!self.is_jump(
                mve,
            ) || self.valid_jump(piece, mve)) {
                legal.push(mve);
            }
            i += 1;
        }
        assert(moves@.take(moves.len() as int) =~= moves@);
        legal
    }

    /// The direction rule: a crowned piece may head either way, an
    /// uncrowned black piece toward lower `y`, an uncrowned white piece
    /// toward higher `y`.
    pub fn valid_direction(&self, piece: GamePiece, movement: Move) -> (ok: bool)
        ensures
            ok == heads_the_right_way(piece, movement),
    {
        if piece.crowned {
            return true;
        }
        let Coordinate(_from_x, from_y) = movement.from;
        let Coordinate(_to_x, to_y) = movement.to;

        match piece.color {
            PieceColor::Black => to_y < from_y,
            PieceColor::White => to_y > from_y,
        }
    }

    /// Whether a move is a jump: its ends are two rows apart.
    pub fn is_jump(&self, movement: Move) -> (jump: bool)
        ensures
            jump == spans_two_rows(movement),
    {
        let Coordinate(_from_x, from_y) = movement.from;
        let Coordinate(_to_x, to_y) = movement.to;

        if to_y >= from_y {
            to_y - from_y == 2
        } else {
            from_y - to_y == 2
        }
    }

    /// The jump rule: the move is a jump and passes over a piece of the
    /// other color.
    pub fn valid_jump(&self, piece: GamePiece, movement: Move) -> (ok: bool)
        ensures
            ok == (spans_two_rows(movement) && leaps_over_opponent(self@.board, piece, movement)),
    {
        match self.jumped_piece_coords(movement.from, movement.to) {
            None => false,
            Some(location) => {
                match self.board.get(location) {
                    None => false,
                    Some(jumped_piece) => jumped_piece.color != piece.color,
                }
            },
        }
    }

    /// The destination rule: the move ends on an empty square of the
    /// board.
    pub fn valid_destination(&self, movement: Move) -> (ok: bool)
        ensures
            ok == lands_on_empty(self@.board, movement),
    {
        movement.to.valid() && self.board.get(movement.to).is_none()
    }

    /// The list of the color of `piece` gains the legal moves of `piece`
    /// from `location`.
    fn update_valid_moves_for(&mut self, location: Coordinate, piece: GamePiece)
        ensures
            final(self)@ == old(self)@.with_list_extended(location, piece),
    {
        let new_moves = self.valid_moves_for(location);
        let legal_new_moves = self.legal_moves(piece, new_moves);

        self.valid_moves.append(piece.color, legal_new_moves);
        assert(self@ =~= old(self)@.with_list_extended(location, piece));
    }

    /// The list of the color of `piece` loses the moves that start from
    /// `location`.
    fn remove_valid_moves_for(&mut self, location: Coordinate, piece: GamePiece)
        ensures
            final(self)@ == old(self)@.with_list_purged(piece.color, location),
    {
        let ghost test = not_from(location);
        let color_list = self.valid_moves.get(piece.color);
        let mut new_moves: Vec<Move> = Vec::new();
        let mut i: usize = 0;
        while i < color_list.len()
            invariant
                i <= color_list.len(),
                test == not_from(location),
                new_moves@ == color_list@.take(i as int).filter(test),
            decreases color_list.len() - i,
        {
            let movement = color_list[i];
            proof {
                assert(color_list@.take(i + 1) =~= color_list@.take(i as int).push(movement));
                color_list@.take(i as int).lemma_filter_push(movement, test);
            }
            if movement.from != location {
                new_moves.push(movement);
            }
            i += 1;
        }
        assert(color_list@.take(color_list.len() as int) =~= color_list@);

        self.valid_moves.insert(piece.color, new_moves);
        assert(self@ =~= old(self)@.with_list_purged(piece.color, location));
    }

    /// Brings the kept moves up to date for one square: the old moves
    /// from it are dropped and, if it is occupied, the legal moves of its
    /// occupant are added.
    fn update_valid_moves(&mut self, location: Coordinate, piece: GamePiece)
        ensures
            final(self)@ == old(self)@.with_moves_updated(location, piece),
    {
        match self.board.get(location) {
            None => self.remove_valid_moves_for(location, piece),
            Some(piece) => {
                self.remove_valid_moves_for(location, piece);
                self.update_valid_moves_for(location, piece);
            },
        }
    }

    /// Empties a square and drops the moves kept from it.
    pub fn remove_piece(&mut self, location: Coordinate)
        requires
            old(self)@.wf(),
        ensures
            final(self)@ == old(self)@.with_square_emptied(location),
            final(self)@.wf(),
    {
        proof {
            lemma_square_emptied(self@, location);
        }
        if let Some(piece) = self.board.get(location) {
            self.board.clear(location);
            assert(self@ =~= old(self)@.with_board(old(self)@.board.remove(location)));
            self.update_valid_moves(location, piece);
        }
    }

    /// Puts a piece on a square of the board, in place of whatever stood
    /// there, and replaces the moves kept from that square by the legal
    /// moves of the piece.
    pub fn set_piece(&mut self, location: Coordinate, piece: GamePiece)
        requires
            old(self)@.wf(),
            location.on_board(),
        ensures
            final(self)@ == old(self)@.with_piece_placed(location, piece),
            final(self)@.wf(),
    {
        proof {
            lemma_piece_placed(self@, location, piece);
        }
        self.remove_piece(location);
        let ghost emptied = self@;
        self.board.set(location, piece);
        assert(self@ =~= emptied.with_board(emptied.board.insert(location, piece)));
        self.update_valid_moves(location, piece);
    }

    /// The square halfway of a jump, if a piece stands there; nothing for
    /// a move that is no jump.
    pub fn jumped_piece_coords(&self, from: Coordinate, to: Coordinate) -> (jumped: Option<
        Coordinate,
    >)
        ensures
            jumped == (if spans_two_rows((Move { from, to })) && piece_at(
                self@.board,
                midpoint((Move { from, to })),
            ) is Some {
                Some(midpoint((Move { from, to })))
            } else {
                None
            }),
    {
        let movement = Move { from, to };
        if !self.is_jump(movement) {
            None
        } else {
            let location = halfway(&movement);
            match self.board.get(location) {
                Some(_game_piece) => Some(location),
                None => None,
            }
        }
    }

    /// Whether a piece on a square is to be crowned: black on row 0,
    /// white on row 7.
    pub fn should_crown(&self, piece: GamePiece, location: Coordinate) -> (crown: bool)
        ensures
            crown == reaches_far_row(piece, location),
    {
        let Coordinate(_x, y) = location;

        match piece.color {
            PieceColor::Black => y == START_INDEX,
            PieceColor::White => y == END_INDEX,
        }
    }

    /// Crowns the piece on a square and tells whether there was one.  The
    /// moves kept from the square become those of the crowned piece.
    pub fn crown(&mut self, location: Coordinate) -> (crowned: bool)
        requires
            old(self)@.wf(),
        ensures
            crowned == piece_at(old(self)@.board, location) is Some,
            final(self)@ == old(self)@.with_piece_crowned(location),
            final(self)@.wf(),
    {
        proof {
            lemma_piece_crowned(self@, location);
        }
        if let Some(piece) = self.board.get(location) {
            assert(self@.board.dom().contains(location));
            self.set_piece(location, GamePiece::crown(piece));
            true
        } else {
            false
        }
    }

    /// Whether a crowned piece stands on a square.
    pub fn is_crowned(&self, location: Coordinate) -> (crowned: bool)
        ensures
            crowned == (piece_at(self@.board, location) matches Some(piece) && piece.crowned),
    {
        if let Some(piece) = self.board.get(location) {
            piece.crowned
        } else {
            false
        }
    }

    /// Passes the turn to the other color and counts one more move.
    pub fn advance_turn(&mut self)
        requires
            old(self)@.move_count < u32::MAX,
        ensures
            final(self)@ == old(self)@.with_turn_advanced(),
            old(self)@.wf() ==> final(self)@.wf(),
    {
        match self.current_turn {
            PieceColor::Black => {
                self.current_turn = PieceColor::White;
            },
            PieceColor::White => {
                self.current_turn = PieceColor::Black;
            },
        }

        self.move_count += 1;
        assert(self@ =~= old(self)@.with_turn_advanced());
        assert(old(self)@.wf() ==> self@.wf()) by {
            if old(self)@.wf() {
                assert forall|color: PieceColor, movement: Move| #[trigger]
                    self@.cached(color).contains(movement) implies self@.may_keep(
                    color,
                    movement,
                ) by {
                    assert(old(self)@.cached(color).contains(movement));
                }
            }
        }
    }
}

} // verus!
