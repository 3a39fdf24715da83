//! The state of a game as a mathematical value, and how each operation
//! of the engine changes it.

use crate::board::{Coordinate, GamePiece, Move, PieceColor};
use crate::grid::{piece_at, within_board, Squares};
use crate::rules::{
    all_legal, currently_legal, heads_the_right_way, legal_among, legal_from, lemma_all_legal,
    lemma_legal_from, midpoint, moves_from, opponent, reachable, reaches_far_row, spans_two_rows,
};
use crate::seq_facts::{lemma_filter_all, lemma_filter_membership, lemma_filter_none, lemma_filter_twice};
use vstd::prelude::*;
use vstd::seq_lib::lemma_seq_concat_contains_all_elements;

verus! {

/// Everything an engine holds: the board, whose turn it is, how many moves
/// were made, and the moves kept for each color.
#[verifier::ext_equal]
pub struct EngineState {
    pub board: Squares,
    pub turn: PieceColor,
    pub move_count: nat,
    pub black_moves: Seq<Move>,
    pub white_moves: Seq<Move>,
}

/// The test "does not start from this square".
pub open spec fn not_from(location: Coordinate) -> spec_fn(Move) -> bool {
    |movement: Move| movement.from != location
}

/// A list of moves without those that start from a square.
pub open spec fn without_moves_from(moves: Seq<Move>, location: Coordinate) -> Seq<Move> {
    moves.filter(not_from(location))
}

/// The test "starts from none of the squares that a move changes": its
/// origin, its destination and, for a jump, the square halfway.
pub open spec fn untouched_by(movement: Move) -> spec_fn(Move) -> bool {
    |other: Move|
        {
            &&& other.from != movement.from
            &&& other.from != movement.to
            &&& !(spans_two_rows(movement) && other.from == midpoint(movement))
        }
}

/// The moves to add to the list of `color` when `moves` were found for a
/// piece: all of them if the piece is of that color, none otherwise.
pub open spec fn share_of(color: PieceColor, piece: GamePiece, moves: Seq<Move>) -> Seq<Move> {
    if piece.color == color {
        moves
    } else {
        Seq::empty()
    }
}

/// The crowned form of a piece.
pub open spec fn crowned_form(piece: GamePiece) -> GamePiece {
    GamePiece { color: piece.color, crowned: true }
}

/// Whether a square holds a piece at the start of a game: the squares
/// with `x + y` odd in rows 0 to 2 and 5 to 7.
pub open spec fn starts_occupied(location: Coordinate) -> bool {
    &&& location.on_board()
    &&& (location.0 + location.1) % 2 == 1
    &&& (location.1 <= 2 || location.1 >= 5)
}

/// The piece that a square holds at the start of a game: white in rows 0
/// to 2, black in rows 5 to 7, none of them crowned.
pub open spec fn starting_piece(location: Coordinate) -> GamePiece {
    GamePiece {
        color: if location.1 <= 2 {
            PieceColor::White
        } else {
            PieceColor::Black
        },
        crowned: false,
    }
}

/// The board at the start of a game.
pub open spec fn starting_squares() -> Squares {
    Map::new(|location: Coordinate| starts_occupied(location), |location: Coordinate| starting_piece(location))
}

/// The state at the start of a game: the starting board, black to move,
/// no move made, and for each color all its legal moves in scan order.
pub open spec fn initial_state() -> EngineState {
    EngineState {
        board: starting_squares(),
        turn: PieceColor::Black,
        move_count: 0,
        black_moves: all_legal(starting_squares(), PieceColor::Black),
        white_moves: all_legal(starting_squares(), PieceColor::White),
    }
}

impl EngineState {
    /// The moves kept for a color.
    pub open spec fn cached(self, color: PieceColor) -> Seq<Move> {
        match color {
            PieceColor::Black => self.black_moves,
            PieceColor::White => self.white_moves,
        }
    }

    /// The state with another list for one color.
    pub open spec fn with_cached(self, color: PieceColor, moves: Seq<Move>) -> EngineState {
        match color {
            PieceColor::Black => EngineState { black_moves: moves, ..self },
            PieceColor::White => EngineState { white_moves: moves, ..self },
        }
    }

    /// The state with another board.
    pub open spec fn with_board(self, board: Squares) -> EngineState {
        EngineState { board, ..self }
    }

    /// Whether a square holds a piece of a color.
    pub open spec fn holds(self, color: PieceColor, location: Coordinate) -> bool {
        piece_at(self.board, location) matches Some(piece) && piece.color == color
    }

    /// Whether a move may stand in the list of a color: geometry allows
    /// it, and a piece of that color stands at its origin and may head that
    /// way.
    pub open spec fn may_keep(self, color: PieceColor, movement: Move) -> bool {
        &&& reachable(movement)
        &&& piece_at(self.board, movement.from) matches Some(piece)
        &&& piece.color == color
        &&& heads_the_right_way(piece, movement)
    }

    /// What every state of an engine satisfies: pieces stand on squares of
    /// the board only, and each move kept for a color is one that geometry
    /// allows, from a square holding a piece of that color that may head
    /// that way.
    pub open spec fn wf(self) -> bool {
        &&& within_board(self.board)
        &&& forall|color: PieceColor, movement: Move| #[trigger]
            self.cached(color).contains(movement) ==> self.may_keep(color, movement)
    }

    /// Whether the kept moves are exactly the moves that are legal on the
    /// board as it stands, for both colors.
    pub open spec fn cache_is_current(self) -> bool {
        forall|color: PieceColor, movement: Move|
            self.cached(color).contains(movement) <==> #[trigger] currently_legal(
                self.board,
                color,
                movement,
            )
    }

    /// Whether the engine takes a move: it is among the moves kept for
    /// the color whose turn it is.
    pub open spec fn accepts(self, movement: Move) -> bool {
        self.cached(self.turn).contains(movement)
    }

    /// One list loses the moves that start from a square.
    pub open spec fn with_list_purged(self, color: PieceColor, location: Coordinate) -> EngineState {
        self.with_cached(color, without_moves_from(self.cached(color), location))
    }

    /// The list of a piece's color gains the legal moves of that piece
    /// from a square.
    pub open spec fn with_list_extended(self, location: Coordinate, piece: GamePiece) -> EngineState {
        self.with_cached(
            piece.color,
            self.cached(piece.color) + legal_among(self.board, piece, moves_from(location)),
        )
    }

    /// The lists after a square changed: for an empty square, the list of
    /// the color of `piece` loses the moves from it; for an occupied one,
    /// the list of the occupant's color loses them and gains the legal
    /// moves of the occupant.
    pub open spec fn with_moves_updated(self, location: Coordinate, piece: GamePiece) -> EngineState {
        match piece_at(self.board, location) {
            None => self.with_list_purged(piece.color, location),
            Some(occupant) => self.with_list_purged(occupant.color, location).with_list_extended(
                location,
                occupant,
            ),
        }
    }

    /// The state after a square was emptied: nothing stands there, and no
    /// kept move starts from it.
    pub open spec fn with_square_emptied(self, location: Coordinate) -> EngineState {
        EngineState {
            board: self.board.remove(location),
            black_moves: without_moves_from(self.black_moves, location),
            white_moves: without_moves_from(self.white_moves, location),
            ..self
        }
    }

    /// The state after a piece was put on a square: the piece stands
    /// there, the moves kept from that square are dropped, and the legal
    /// moves of the piece on the new board are added to its color's list.
    pub open spec fn with_piece_placed(self, location: Coordinate, piece: GamePiece) -> EngineState {
        let board = self.board.insert(location, piece);
        let found = legal_from(board, location);
        EngineState {
            board,
            black_moves: without_moves_from(self.black_moves, location) + share_of(
                PieceColor::Black,
                piece,
                found,
            ),
            white_moves: without_moves_from(self.white_moves, location) + share_of(
                PieceColor::White,
                piece,
                found,
            ),
            ..self
        }
    }

    /// The state after the piece on a square, if any, was crowned.
    pub open spec fn with_piece_crowned(self, location: Coordinate) -> EngineState {
        match piece_at(self.board, location) {
            Some(piece) => self.with_piece_placed(location, crowned_form(piece)),
            None => self,
        }
    }

    /// The state after the turn passed to the other color.
    pub open spec fn with_turn_advanced(self) -> EngineState {
        EngineState { turn: opponent(self.turn), move_count: self.move_count + 1, ..self }
    }

    /// The piece that lands when a move is made: the piece at the origin,
    /// crowned if the destination is its far row.
    pub open spec fn landing_piece(self, movement: Move) -> GamePiece {
        let piece = self.board[movement.from];
        if reaches_far_row(piece, movement.to) {
            crowned_form(piece)
        } else {
            piece
        }
    }

    /// The board after a move: for a jump the square halfway is emptied;
    /// the origin is emptied; the landing piece stands on the destination.
    pub open spec fn board_after(self, movement: Move) -> Squares {
        let captured = if spans_two_rows(movement) {
            self.board.remove(midpoint(movement))
        } else {
            self.board
        };
        captured.remove(movement.from).insert(movement.to, self.landing_piece(movement))
    }

    /// The state after an accepted move: the board changes as `board_after`
    /// says, the turn passes, the count grows by one, and each list keeps
    /// its moves from untouched squares, the mover's list gaining the legal
    /// moves of the landed piece on the new board.
    pub open spec fn after_move(self, movement: Move) -> EngineState {
        let board = self.board_after(movement);
        let landed = self.landing_piece(movement);
        let found = legal_from(board, movement.to);
        EngineState {
            board,
            turn: opponent(self.turn),
            move_count: self.move_count + 1,
            black_moves: self.black_moves.filter(untouched_by(movement)) + share_of(
                PieceColor::Black,
                landed,
                found,
            ),
            white_moves: self.white_moves.filter(untouched_by(movement)) + share_of(
                PieceColor::White,
                landed,
                found,
            ),
        }
    }

    /// The state after a run of moves, each made in the state that the
    /// one before it left.
    pub open spec fn after_moves(self, moves: Seq<Move>) -> EngineState
        decreases moves.len(),
    {
        if moves.len() == 0 {
            self
        } else {
            self.after_moves(moves.drop_last()).after_move(moves.last())
        }
    }

    /// Whether the engine takes every move of a run, each in the state
    /// that the one before it left.
    pub open spec fn accepts_all(self, moves: Seq<Move>) -> bool
        decreases moves.len(),
    {
        moves.len() == 0 || (self.accepts_all(moves.drop_last()) && self.after_moves(
            moves.drop_last(),
        ).accepts(moves.last()))
    }

    /// Whether a square is one that a move changes: its origin, its
    /// destination or, for a jump, the square halfway.
    pub open spec fn touches(movement: Move, location: Coordinate) -> bool {
        ||| location == movement.from
        ||| location == movement.to
        ||| (spans_two_rows(movement) && location == midpoint(movement))
    }

    /// Whether a move leaves the moves from every square that it does not
    /// touch as legal or as illegal as they were.
    pub open spec fn affects_touched_only(self, movement: Move) -> bool {
        forall|color: PieceColor, other: Move|
            !Self::touches(movement, other.from) ==> (#[trigger] currently_legal(
                self.board_after(movement),
                color,
                other,
            ) <==> currently_legal(self.board, color, other))
    }

    /// Whether every move of a run, made in the state that the one before
    /// it left, affects the squares it touches only.
    pub open spec fn all_affect_touched_only(self, moves: Seq<Move>) -> bool
        decreases moves.len(),
    {
        moves.len() == 0 || (self.all_affect_touched_only(moves.drop_last()) && self.after_moves(
            moves.drop_last(),
        ).affects_touched_only(moves.last()))
    }

    /// The steps by which the engine makes a move: empty the square
    /// halfway if the move is a jump, empty the origin, place the piece,
    /// crown it if it reached its far row, pass the turn.
    pub open spec fn move_steps(self, movement: Move) -> EngineState {
        let piece = self.board[movement.from];
        let captured = if spans_two_rows(movement) {
            self.with_square_emptied(midpoint(movement))
        } else {
            self
        };
        let placed = captured.with_square_emptied(movement.from).with_piece_placed(movement.to, piece);
        let crowned = if reaches_far_row(piece, movement.to) {
            placed.with_piece_crowned(movement.to)
        } else {
            placed
        };
        crowned.with_turn_advanced()
    }
}

/// The starting state is well formed, and its kept moves are current.
pub proof fn lemma_initial_state()
    ensures
        initial_state().wf(),
        initial_state().cache_is_current(),
{
    let s = initial_state();
    assert forall|color: PieceColor, movement: Move|
        s.cached(color).contains(movement) <==> #[trigger] currently_legal(
            s.board,
            color,
            movement,
        ) by {
        lemma_all_legal(s.board, color, movement);
    }
    assert forall|color: PieceColor, movement: Move| #[trigger]
        s.cached(color).contains(movement) implies s.may_keep(color, movement) by {
        lemma_all_legal(s.board, color, movement);
    }
}

/// Emptying a square keeps a state well formed, and comes to the same as
/// emptying it on the board and then updating the lists for it.
pub proof fn lemma_square_emptied(s: EngineState, location: Coordinate)
    requires
        s.wf(),
    ensures
        s.with_square_emptied(location).wf(),
        (match piece_at(s.board, location) {
            Some(piece) => s.with_board(s.board.remove(location)).with_moves_updated(
                location,
                piece,
            ) == s.with_square_emptied(location),
            None => s.with_square_emptied(location) == s,
        }),
{
    let after = s.with_square_emptied(location);
    let test = not_from(location);
    assert forall|color: PieceColor, movement: Move| #[trigger]
        after.cached(color).contains(movement) implies after.may_keep(color, movement) by {
        lemma_filter_membership(s.cached(color), test, movement);
        assert(s.cached(color).contains(movement));
    }
    match piece_at(s.board, location) {
        Some(piece) => {
            let other = opponent(piece.color);
            assert forall|i: int| 0 <= i < s.cached(other).len() implies test(
                #[trigger] s.cached(other)[i],
            ) by {
                assert(s.cached(other).contains(s.cached(other)[i]));
            }
            lemma_filter_all(s.cached(other), test);
            assert(s.with_board(s.board.remove(location)).with_moves_updated(location, piece)
                =~= after);
        },
        None => {
            assert forall|color: PieceColor| #[trigger]
                s.cached(color).filter(test) == s.cached(color) by {
                assert forall|i: int| 0 <= i < s.cached(color).len() implies test(
                    #[trigger] s.cached(color)[i],
                ) by {
                    assert(s.cached(color).contains(s.cached(color)[i]));
                }
                lemma_filter_all(s.cached(color), test);
            }
            assert(s.cached(PieceColor::Black).filter(test) == s.black_moves);
            assert(s.cached(PieceColor::White).filter(test) == s.white_moves);
            assert(after =~= s);
        },
    }
}

/// Placing a piece on a square of the board keeps a state well formed,
/// and comes to the same as emptying the square, putting the piece on the
/// board and then updating the lists for the square.
pub proof fn lemma_piece_placed(s: EngineState, location: Coordinate, piece: GamePiece)
    requires
        s.wf(),
        location.on_board(),
    ensures
        s.with_piece_placed(location, piece).wf(),
        ({
            let emptied = s.with_square_emptied(location);
            emptied.with_board(emptied.board.insert(location, piece)).with_moves_updated(
                location,
                piece,
            ) == s.with_piece_placed(location, piece)
        }),
{
    let after = s.with_piece_placed(location, piece);
    let test = not_from(location);
    let found = legal_from(after.board, location);
    assert forall|color: PieceColor, movement: Move| #[trigger]
        after.cached(color).contains(movement) implies after.may_keep(color, movement) by {
        let kept = without_moves_from(s.cached(color), location);
        let added = share_of(color, piece, found);
        assert(after.cached(color) == kept + added);
        lemma_seq_concat_contains_all_elements(kept, added, movement);
        lemma_filter_membership(s.cached(color), test, movement);
        lemma_legal_from(after.board, location, movement);
        if kept.contains(movement) {
            assert(s.cached(color).contains(movement));
        }
    }
    lemma_square_emptied(s, location);
    let emptied = s.with_square_emptied(location);
    let stepwise = emptied.with_board(emptied.board.insert(location, piece)).with_moves_updated(
        location,
        piece,
    );
    assert(emptied.board.insert(location, piece) =~= after.board);
    let list = emptied.cached(piece.color);
    assert forall|i: int| 0 <= i < list.len() implies test(#[trigger] list[i]) by {
        s.cached(piece.color).lemma_filter_pred(test, i);
    }
    lemma_filter_all(list, test);
    assert(stepwise =~= after);
}

/// Crowning the piece on a square keeps a state well formed.
pub proof fn lemma_piece_crowned(s: EngineState, location: Coordinate)
    requires
        s.wf(),
    ensures
        s.with_piece_crowned(location).wf(),
{
    if let Some(piece) = piece_at(s.board, location) {
        assert(s.board.dom().contains(location));
        lemma_piece_placed(s, location, crowned_form(piece));
    }
}

/// The facts about an accepted move that a well-formed state gives: a
/// piece of the color to move stands at the origin, the destination is
/// another square of the board, and the square halfway of a jump is a
/// third one.
pub proof fn lemma_accepted_move(s: EngineState, movement: Move)
    requires
        s.wf(),
        s.accepts(movement),
    ensures
        reachable(movement),
        s.holds(s.turn, movement.from),
        heads_the_right_way(s.board[movement.from], movement),
        movement.from.on_board(),
        movement.to.on_board(),
        movement.from != movement.to,
        spans_two_rows(movement) ==> midpoint(movement).on_board() && midpoint(movement)
            != movement.from && midpoint(movement) != movement.to,
{
    assert(s.cached(s.turn).contains(movement));
    assert(s.board.dom().contains(movement.from));
}

proof fn lemma_lists_after_move(s: EngineState, movement: Move, color: PieceColor)
    requires
        s.wf(),
        s.accepts(movement),
    ensures
        s.move_steps(movement).cached(color) == s.after_move(movement).cached(color),
{
    lemma_accepted_move(s, movement);
    let from = movement.from;
    let to = movement.to;
    let mid = midpoint(movement);
    let piece = s.board[from];
    let list = s.cached(color);
    let captured = if spans_two_rows(movement) {
        s.with_square_emptied(mid)
    } else {
        s
    };
    let vacated = captured.with_square_emptied(from);
    let placed = vacated.with_piece_placed(to, piece);
    let kept = vacated.cached(color).filter(not_from(to));
    assert(kept == list.filter(untouched_by(movement))) by {
        if spans_two_rows(movement) {
            let neither = |other: Move| other.from != mid && other.from != from;
            lemma_filter_twice(list, not_from(mid), not_from(from), neither);
            lemma_filter_twice(list, neither, not_from(to), untouched_by(movement));
        } else {
            lemma_filter_twice(list, not_from(from), not_from(to), untouched_by(movement));
        }
    }
    let first_found = share_of(color, piece, legal_from(placed.board, to));
    assert(placed.cached(color) == kept + first_found);
    assert(placed.board =~= s.board_after(movement).insert(to, piece));
    if reaches_far_row(piece, to) {
        let crowned = placed.with_piece_crowned(to);
        assert(piece_at(placed.board, to) == Some(piece));
        assert(crowned.board =~= s.board_after(movement));
        assert((kept + first_found).filter(not_from(to)) == kept) by {
            Seq::filter_distributes_over_add(kept, first_found, not_from(to));
            assert forall|i: int| 0 <= i < kept.len() implies not_from(to)(#[trigger] kept[i]) by {
                vacated.cached(color).lemma_filter_pred(not_from(to), i);
            }
            lemma_filter_all(kept, not_from(to));
            assert forall|i: int| 0 <= i < first_found.len() implies !not_from(to)(
                #[trigger] first_found[i],
            ) by {
                assert(first_found.contains(first_found[i]));
                lemma_legal_from(placed.board, to, first_found[i]);
            }
            lemma_filter_none(first_found, not_from(to));
            assert(kept + Seq::<Move>::empty() =~= kept);
        }
    } else {
        assert(placed.board =~= s.board_after(movement));
    }
}

/// Making an accepted move step by step gives the state that `after_move`
/// describes, and that state is well formed.
pub proof fn lemma_move_steps(s: EngineState, movement: Move)
    requires
        s.wf(),
        s.accepts(movement),
    ensures
        s.move_steps(movement) == s.after_move(movement),
        s.after_move(movement).wf(),
{
    lemma_accepted_move(s, movement);
    let from = movement.from;
    let to = movement.to;
    let mid = midpoint(movement);
    let piece = s.board[from];
    let captured = if spans_two_rows(movement) {
        s.with_square_emptied(mid)
    } else {
        s
    };
    if spans_two_rows(movement) {
        lemma_square_emptied(s, mid);
    }
    let vacated = captured.with_square_emptied(from);
    lemma_square_emptied(captured, from);
    let placed = vacated.with_piece_placed(to, piece);
    lemma_piece_placed(vacated, to, piece);
    lemma_piece_crowned(placed, to);
    let crowned = if reaches_far_row(piece, to) {
        placed.with_piece_crowned(to)
    } else {
        placed
    };
    assert(piece_at(placed.board, to) == Some(piece));
    assert(crowned.board =~= s.board_after(movement));
    let steps = s.move_steps(movement);
    assert(steps == crowned.with_turn_advanced());
    assert(steps.wf()) by {
        assert forall|color: PieceColor, other: Move| #[trigger]
            steps.cached(color).contains(other) implies steps.may_keep(color, other) by {
            assert(crowned.cached(color).contains(other));
        }
    }
    lemma_lists_after_move(s, movement, PieceColor::Black);
    lemma_lists_after_move(s, movement, PieceColor::White);
    assert(steps.black_moves == steps.cached(PieceColor::Black));
    assert(steps.white_moves == steps.cached(PieceColor::White));
    assert(steps =~= s.after_move(movement));
}

/// A run of accepted moves keeps a state well formed.
pub proof fn lemma_after_moves(s: EngineState, moves: Seq<Move>)
    requires
        s.wf(),
        s.accepts_all(moves),
    ensures
        s.after_moves(moves).wf(),
    decreases moves.len(),
{
    if moves.len() > 0 {
        lemma_after_moves(s, moves.drop_last());
        lemma_move_steps(s.after_moves(moves.drop_last()), moves.last());
    }
}

} // verus!
