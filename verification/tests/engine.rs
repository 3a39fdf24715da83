use rustycheckers::board::{Coordinate, GamePiece, Move, PieceColor};
use rustycheckers::game::GameEngine;

#[test]
fn should_crown() {
    let engine = GameEngine::new();
    let black = GamePiece::new(PieceColor::Black);
    let res = engine.should_crown(black, Coordinate(3, 0));
    assert!(res);
    let res_nocrown = engine.should_crown(black, Coordinate(5, 2));
    assert_eq!(res_nocrown, false);
}

#[test]
fn mut_crown() {
    let mut engine = GameEngine::new();
    engine.initialize();
    let crowned = engine.crown(Coordinate(1, 0));
    assert!(crowned);
    assert!(engine.is_crowned(Coordinate(1, 0)));
}

#[test]
fn advance_turn() {
    let mut engine = GameEngine::new();
    engine.advance_turn();
    assert_eq!(engine.current_turn(), PieceColor::White);
    engine.advance_turn();
    assert_eq!(engine.current_turn(), PieceColor::Black);
    assert_eq!(engine.move_count(), 2);
}

#[test]
fn move_targets() {
    let c1 = Coordinate(0, 5);
    let mut targets = c1.valid_moves();
    targets.sort();
    let mut expected = vec![Coordinate(1, 6), Coordinate(1, 4)];
    expected.sort();
    assert_eq!(targets, expected);

    let c2 = Coordinate(1, 6);
    let mut targets2 = c2.valid_moves();
    targets2.sort();
    let mut expected2 = vec![
        Coordinate(0, 7),
        Coordinate(2, 7),
        Coordinate(2, 5),
        Coordinate(0, 5),
    ];
    expected2.sort();
    assert_eq!(targets2, expected2);

    let c3 = Coordinate(2, 5);
    let mut targets3 = c3.valid_moves();
    targets3.sort();
    let mut expected3 = vec![
        Coordinate(1, 6),
        Coordinate(3, 6),
        Coordinate(3, 4),
        Coordinate(1, 4),
    ];
    expected3.sort();
    assert_eq!(targets3, expected3);
}

#[test]
fn valid_moves() {
    let coordinate_1 = Coordinate(0, 5);
    let coordinate_2 = Coordinate(2, 5);
    let destination_1 = Coordinate(1, 4);
    let destination_2 = Coordinate(3, 4);

    let mut engine = GameEngine::new();
    engine.initialize();
    let valid_move_list = engine.valid_moves(PieceColor::Black);

    let movement_1 = Move {
        from: coordinate_1,
        to: destination_1,
    };

    let movement_2 = Move {
        from: coordinate_2,
        to: destination_1,
    };

    let movement_3 = Move {
        from: coordinate_2,
        to: destination_2,
    };

    assert!(valid_move_list.contains(&movement_1));
    assert!(valid_move_list.contains(&movement_2));
    assert!(valid_move_list.contains(&movement_3));
}

#[test]
fn legal_moves_black() {
    let mut engine = GameEngine::new();
    engine.initialize();
    let mut moves = engine.valid_moves(PieceColor::Black).clone();
    moves.sort();
    let mut expected_moves = Vec::from([
        Move {
            from: Coordinate(0, 5),
            to: Coordinate(1, 4),
        },
        Move {
            from: Coordinate(2, 5),
            to: Coordinate(3, 4),
        },
        Move {
            from: Coordinate(2, 5),
            to: Coordinate(1, 4),
        },
        Move {
            from: Coordinate(4, 5),
            to: Coordinate(5, 4),
        },
        Move {
            from: Coordinate(4, 5),
            to: Coordinate(3, 4),
        },
        Move {
            from: Coordinate(6, 5),
            to: Coordinate(7, 4),
        },
        Move {
            from: Coordinate(6, 5),
            to: Coordinate(5, 4),
        },
    ]);
    expected_moves.sort();

    assert_eq!(moves, expected_moves);
}

#[test]
fn legal_moves_white() {
    let mut engine = GameEngine::new();
    engine.initialize();
    engine.advance_turn();
    let mut moves = engine.valid_moves(PieceColor::White).clone();
    moves.sort();
    let mut expected_moves = Vec::from([
        Move {
            from: Coordinate(1, 2),
            to: Coordinate(0, 3),
        },
        Move {
            from: Coordinate(1, 2),
            to: Coordinate(2, 3),
        },
        Move {
            from: Coordinate(3, 2),
            to: Coordinate(2, 3),
        },
        Move {
            from: Coordinate(3, 2),
            to: Coordinate(4, 3),
        },
        Move {
            from: Coordinate(5, 2),
            to: Coordinate(4, 3),
        },
        Move {
            from: Coordinate(5, 2),
            to: Coordinate(6, 3),
        },
        Move {
            from: Coordinate(7, 2),
            to: Coordinate(6, 3),
        },
    ]);
    expected_moves.sort();
    assert_eq!(moves, expected_moves);
}

#[test]
fn jumps_validation() {
    let mut engine = GameEngine::new();
    engine.initialize();
    engine.set_piece(Coordinate(1, 4), GamePiece::new(PieceColor::White)); // this should be jumpable from 0,5 to 2,3
    let mut moves = engine.init_valid_moves().get(PieceColor::Black).clone();
    moves.sort();
    let mut expected_moves = Vec::from([
        Move {
            from: Coordinate(0, 5),
            to: Coordinate(2, 3),
        },
        Move {
            from: Coordinate(2, 5),
            to: Coordinate(0, 3),
        },
        Move {
            from: Coordinate(2, 5),
            to: Coordinate(3, 4),
        },
        Move {
            from: Coordinate(4, 5),
            to: Coordinate(5, 4),
        },
        Move {
            from: Coordinate(4, 5),
            to: Coordinate(3, 4),
        },
        Move {
            from: Coordinate(6, 5),
            to: Coordinate(7, 4),
        },
        Move {
            from: Coordinate(6, 5),
            to: Coordinate(5, 4),
        },
    ]);
    expected_moves.sort();
    assert_eq!(moves, expected_moves);
}

#[test]
fn valid_jumps() {
    let c1 = Coordinate(3, 3);
    let mut targets = c1.valid_jumps();
    targets.sort();
    let mut expected = vec![
        Coordinate(5, 1),
        Coordinate(5, 5),
        Coordinate(1, 1),
        Coordinate(1, 5),
    ];
    expected.sort();
    assert_eq!(targets, expected);
}

#[test]
fn test_basic_move() {
    let mut engine = GameEngine::new();
    engine.initialize();
    let res = engine.move_piece(&Move::new((0, 5), (1, 4)));
    assert!(res.is_ok());

    let old = engine.get_piece(Coordinate(0, 5)).unwrap();
    let new = engine.get_piece(Coordinate(1, 4)).unwrap();
    assert_eq!(old, None);
    assert_eq!(
        new,
        Some(GamePiece {
            color: PieceColor::Black,
            crowned: false
        })
    );

    // fail to perform illegal move
    let res = engine.move_piece(&Move::new((1, 4), (2, 4))); // can't move horiz
    assert!(!res.is_ok());
    assert_eq!(engine.get_piece(Coordinate(2, 4)).unwrap(), None);
}
