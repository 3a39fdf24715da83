//! What holds of the rules and of the engine, whatever the position and
//! whatever the moves.

use crate::board::{directions, Coordinate, GamePiece, Move, PieceColor};
use crate::grid::{piece_at, Squares};
use crate::rules::{
    currently_legal, destination_rule, direction_rule, gap, heads_the_right_way, is_legal,
    jump_rule, lands_on_empty, leaps_over_opponent, legal_among, legal_for, legal_from,
    lemma_legal_from, lemma_moves_from, midpoint, moves_from, opponent, reachable,
    reaches_far_row, spans_two_rows,
};
use crate::seq_facts::{lemma_filter_map_membership, lemma_filter_membership, lemma_filter_twice};
use crate::state::{
    initial_state, lemma_accepted_move, lemma_after_moves, lemma_initial_state, share_of,
    untouched_by, EngineState,
};
use vstd::prelude::*;
use vstd::seq_lib::lemma_seq_concat_contains_all_elements;

verus! {

/// Of two positions, exactly one holds: the first comes before the second,
/// they are equal, or the second comes before the first.
pub proof fn law_positions_are_totally_ordered(a: Coordinate, b: Coordinate)
    ensures
        a.comes_before(b) || a == b || b.comes_before(a),
        !(a.comes_before(b) && b.comes_before(a)),
        !a.comes_before(a),
{
}

/// The order of positions is transitive.
pub proof fn law_position_order_is_transitive(a: Coordinate, b: Coordinate, c: Coordinate)
    requires
        a.comes_before(b),
        b.comes_before(c),
    ensures
        a.comes_before(c),
{
}

/// Of two moves, exactly one holds: the first comes before the second,
/// they are equal, or the second comes before the first.
pub proof fn law_moves_are_totally_ordered(a: Move, b: Move)
    ensures
        a.comes_before(b) || a == b || b.comes_before(a),
        !(a.comes_before(b) && b.comes_before(a)),
        !a.comes_before(a),
{
}

/// The order of moves is transitive.
pub proof fn law_move_order_is_transitive(a: Move, b: Move, c: Move)
    requires
        a.comes_before(b),
        b.comes_before(c),
    ensures
        a.comes_before(c),
{
}

/// Every square generated from a position, at any distance, lies on the
/// board.
pub proof fn law_generated_squares_are_on_board(
    location: Coordinate,
    distance: int,
    target: Coordinate,
)
    requires
        location.neighbors(distance).contains(target),
    ensures
        target.on_board(),
{
    let dirs = directions();
    let towards = location.toward(distance);
    lemma_filter_map_membership(dirs, towards, target);
    let i = choose|i: int| 0 <= i < dirs.len() && towards(#[trigger] dirs[i]) == Some(target);
    assert(location.shifted(dirs[i], distance) == Some(target));
}

/// Every move generated from a position starts there and ends on the
/// board, one or two squares away along a diagonal.  Generated from a
/// square of the board, it names squares of the board only.
pub proof fn law_generated_moves_are_on_board(location: Coordinate, movement: Move)
    requires
        moves_from(location).contains(movement),
    ensures
        movement.from == location,
        movement.to.on_board(),
        reachable(movement),
        location.on_board() ==> movement.from.on_board(),
{
    lemma_moves_from(location, movement);
}

/// A generated move is a single step or a jump, never both: its ends are
/// one row apart or two.
pub proof fn law_generated_moves_are_steps_or_jumps(location: Coordinate, movement: Move)
    requires
        moves_from(location).contains(movement),
    ensures
        spans_two_rows(movement) != (gap(movement.to.1, movement.from.1) == 1),
{
    lemma_moves_from(location, movement);
}

/// The moves kept as legal are exactly the given moves that pass the
/// three rules.
pub proof fn law_legal_moves_pass_every_rule(
    squares: Squares,
    piece: GamePiece,
    moves: Seq<Move>,
    movement: Move,
)
    ensures
        legal_among(squares, piece, moves).contains(movement) <==> ({
            &&& moves.contains(movement)
            &&& heads_the_right_way(piece, movement)
            &&& lands_on_empty(squares, movement)
            &&& spans_two_rows(movement) ==> leaps_over_opponent(squares, piece, movement)
        }),
{
    lemma_filter_membership(moves, legal_for(squares, piece), movement);
}

/// Applying the three rules one after another, in whatever order, keeps
/// the same moves as applying them at once.
pub proof fn law_rules_apply_in_any_order(squares: Squares, piece: GamePiece, moves: Seq<Move>)
    ensures
        moves.filter(direction_rule(piece)).filter(destination_rule(squares)).filter(
            jump_rule(squares, piece),
        ) == legal_among(squares, piece, moves),
        moves.filter(direction_rule(piece)).filter(jump_rule(squares, piece)).filter(
            destination_rule(squares),
        ) == legal_among(squares, piece, moves),
        moves.filter(destination_rule(squares)).filter(direction_rule(piece)).filter(
            jump_rule(squares, piece),
        ) == legal_among(squares, piece, moves),
        moves.filter(destination_rule(squares)).filter(jump_rule(squares, piece)).filter(
            direction_rule(piece),
        ) == legal_among(squares, piece, moves),
        moves.filter(jump_rule(squares, piece)).filter(direction_rule(piece)).filter(
            destination_rule(squares),
        ) == legal_among(squares, piece, moves),
        moves.filter(jump_rule(squares, piece)).filter(destination_rule(squares)).filter(
            direction_rule(piece),
        ) == legal_among(squares, piece, moves),
{
    let heads = direction_rule(piece);
    let lands = destination_rule(squares);
    let leaps = jump_rule(squares, piece);
    let all = legal_for(squares, piece);
    let heads_lands = |movement: Move| heads(movement) && lands(movement);
    let heads_leaps = |movement: Move| heads(movement) && leaps(movement);
    let lands_heads = |movement: Move| lands(movement) && heads(movement);
    let lands_leaps = |movement: Move| lands(movement) && leaps(movement);
    let leaps_heads = |movement: Move| leaps(movement) && heads(movement);
    let leaps_lands = |movement: Move| leaps(movement) && lands(movement);
    lemma_filter_twice(moves, heads, lands, heads_lands);
    lemma_filter_twice(moves, heads_lands, leaps, all);
    lemma_filter_twice(moves, heads, leaps, heads_leaps);
    lemma_filter_twice(moves, heads_leaps, lands, all);
    lemma_filter_twice(moves, lands, heads, lands_heads);
    lemma_filter_twice(moves, lands_heads, leaps, all);
    lemma_filter_twice(moves, lands, leaps, lands_leaps);
    lemma_filter_twice(moves, lands_leaps, heads, all);
    lemma_filter_twice(moves, leaps, heads, leaps_heads);
    lemma_filter_twice(moves, leaps_heads, lands, all);
    lemma_filter_twice(moves, leaps, lands, leaps_lands);
    lemma_filter_twice(moves, leaps_lands, heads, all);
}

/// A legal move of an uncrowned piece heads forward: toward lower `y` for
/// black, toward higher `y` for white.
pub proof fn law_uncrowned_pieces_move_forward(
    squares: Squares,
    piece: GamePiece,
    moves: Seq<Move>,
    movement: Move,
)
    requires
        !piece.crowned,
        legal_among(squares, piece, moves).contains(movement),
    ensures
        piece.color == PieceColor::Black ==> movement.to.1 < movement.from.1,
        piece.color == PieceColor::White ==> movement.to.1 > movement.from.1,
{
    lemma_filter_membership(moves, legal_for(squares, piece), movement);
}

/// The direction rule never stops a crowned piece.
pub proof fn law_crowned_pieces_move_either_way(piece: GamePiece, movement: Move)
    requires
        piece.crowned,
    ensures
        heads_the_right_way(piece, movement),
{
}

/// Every move that the engine accepts is made by a piece of the color to
/// move, and an uncrowned piece makes it forward.
pub proof fn law_accepted_moves_head_the_right_way(s: EngineState, movement: Move)
    requires
        s.wf(),
        s.accepts(movement),
    ensures
        piece_at(s.board, movement.from) matches Some(piece) && piece.color == s.turn && (
        !piece.crowned && piece.color == PieceColor::Black ==> movement.to.1 < movement.from.1)
            && (!piece.crowned && piece.color == PieceColor::White ==> movement.to.1
            > movement.from.1),
{
    lemma_accepted_move(s, movement);
}

/// A jump is legal if and only if it heads the right way, lands on an
/// empty square and passes over a piece of the other color.
pub proof fn law_jump_needs_opponent_halfway(squares: Squares, piece: GamePiece, movement: Move)
    requires
        spans_two_rows(movement),
    ensures
        is_legal(squares, piece, movement) <==> ({
            &&& heads_the_right_way(piece, movement)
            &&& lands_on_empty(squares, movement)
            &&& piece_at(squares, midpoint(movement)) matches Some(jumped)
            &&& jumped.color == opponent(piece.color)
        }),
{
}

/// After an accepted move the origin is empty, the destination holds the
/// piece that moved, crowned if it reached its far row, and every square
/// that the move does not touch is as it was.
pub proof fn law_move_relocates_piece(s: EngineState, movement: Move)
    requires
        s.wf(),
        s.accepts(movement),
    ensures
        piece_at(s.board, movement.from) is Some,
        piece_at(s.after_move(movement).board, movement.from) is None,
        piece_at(s.after_move(movement).board, movement.to) == Some(s.landing_piece(movement)),
        s.landing_piece(movement).color == s.board[movement.from].color,
        s.landing_piece(movement).crowned == (s.board[movement.from].crowned || reaches_far_row(
            s.board[movement.from],
            movement.to,
        )),
        forall|location: Coordinate|
            !EngineState::touches(movement, location) ==> piece_at(
                s.after_move(movement).board,
                location,
            ) == piece_at(s.board, location),
{
    lemma_accepted_move(s, movement);
}

/// An accepted jump that lands on an empty square and passes over a piece
/// of the other color takes that piece away and no other: the occupied
/// squares afterwards are those from before, less the origin and the
/// square halfway, plus the destination.
pub proof fn law_jump_captures_one_piece(s: EngineState, movement: Move)
    requires
        s.wf(),
        s.accepts(movement),
        spans_two_rows(movement),
        lands_on_empty(s.board, movement),
        leaps_over_opponent(s.board, s.board[movement.from], movement),
    ensures
        piece_at(s.board, midpoint(movement)) matches Some(jumped) && jumped.color == opponent(
            s.turn,
        ),
        piece_at(s.after_move(movement).board, midpoint(movement)) is None,
        s.after_move(movement).board.dom() == s.board.dom().remove(midpoint(movement)).remove(
            movement.from,
        ).insert(movement.to),
        !s.board.dom().contains(movement.to),
{
    lemma_accepted_move(s, movement);
    assert(s.after_move(movement).board.dom() =~= s.board.dom().remove(
        midpoint(movement),
    ).remove(movement.from).insert(movement.to));
}

/// After a run of accepted moves from the start of a game, the count of
/// moves is the length of the run, and it is black's turn if that length
/// is even, white's if it is odd.
pub proof fn law_turns_alternate(moves: Seq<Move>)
    requires
        initial_state().accepts_all(moves),
    ensures
        initial_state().after_moves(moves).move_count == moves.len(),
        initial_state().after_moves(moves).turn == (if moves.len() % 2 == 0 {
            PieceColor::Black
        } else {
            PieceColor::White
        }),
    decreases moves.len(),
{
    if moves.len() > 0 {
        law_turns_alternate(moves.drop_last());
    }
}

/// At the start of a game the kept moves of each color are exactly its
/// legal moves.
pub proof fn law_cache_is_current_at_start()
    ensures
        initial_state().wf(),
        initial_state().cache_is_current(),
{
    lemma_initial_state();
}

/// What an accepted move does to the kept moves.  Of the moves that start
/// from a square that the move touches, exactly those are kept afterwards
/// that are legal on the new board.  Of the moves that start elsewhere,
/// exactly those are kept that were kept before.
pub proof fn law_move_updates_touched_squares(
    s: EngineState,
    movement: Move,
    color: PieceColor,
    other: Move,
)
    requires
        s.wf(),
        s.accepts(movement),
    ensures
        EngineState::touches(movement, other.from) ==> (s.after_move(movement).cached(
            color,
        ).contains(other) <==> currently_legal(s.after_move(movement).board, color, other)),
        !EngineState::touches(movement, other.from) ==> (s.after_move(movement).cached(
            color,
        ).contains(other) <==> s.cached(color).contains(other)),
{
    lemma_accepted_move(s, movement);
    let after = s.after_move(movement);
    let kept = s.cached(color).filter(untouched_by(movement));
    let added = share_of(color, s.landing_piece(movement), legal_from(after.board, movement.to));
    assert(after.cached(color) == kept + added);
    lemma_seq_concat_contains_all_elements(kept, added, other);
    lemma_filter_membership(s.cached(color), untouched_by(movement), other);
    lemma_legal_from(after.board, movement.to, other);
}

/// When the kept moves are exactly the legal moves, they are so again
/// after an accepted move if and only if the move affects what is legal
/// from the squares it touches only.
pub proof fn law_cache_stays_current(s: EngineState, movement: Move)
    requires
        s.wf(),
        s.cache_is_current(),
        s.accepts(movement),
    ensures
        s.after_move(movement).cache_is_current() <==> s.affects_touched_only(movement),
{
    let after = s.after_move(movement);
    if s.affects_touched_only(movement) {
        assert forall|color: PieceColor, other: Move|
            after.cached(color).contains(other) <==> #[trigger] currently_legal(
                after.board,
                color,
                other,
            ) by {
            law_move_updates_touched_squares(s, movement, color, other);
            assert(s.cached(color).contains(other) <==> currently_legal(s.board, color, other));
        }
    }
    if after.cache_is_current() {
        assert forall|color: PieceColor, other: Move|
            !EngineState::touches(movement, other.from) implies (#[trigger] currently_legal(
            s.board_after(movement),
            color,
            other,
        ) <==> currently_legal(s.board, color, other)) by {
            law_move_updates_touched_squares(s, movement, color, other);
            assert(s.cached(color).contains(other) <==> currently_legal(s.board, color, other));
            assert(after.cached(color).contains(other) <==> currently_legal(
                after.board,
                color,
                other,
            ));
        }
    }
}

/// When the kept moves are exactly the legal moves, they are so again
/// after a run of accepted moves, each of which affects what is legal
/// from the squares it touches only.
pub proof fn law_cache_stays_current_through_a_run(s: EngineState, moves: Seq<Move>)
    requires
        s.wf(),
        s.cache_is_current(),
        s.accepts_all(moves),
        s.all_affect_touched_only(moves),
    ensures
        s.after_moves(moves).cache_is_current(),
    decreases moves.len(),
{
    if moves.len() > 0 {
        law_cache_stays_current_through_a_run(s, moves.drop_last());
        lemma_after_moves(s, moves.drop_last());
        law_cache_stays_current(s.after_moves(moves.drop_last()), moves.last());
    }
}

} // verus!
