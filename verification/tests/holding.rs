use stopwatch::Stopwatch;
use tetris::{Board, GameState, Phase, Piece, PieceColor, PieceKind};

fn started(current: PieceKind, next: PieceKind) -> GameState {
    let mut game =
        GameState::new_with(Piece::from_kind(current), Piece::from_kind(next), Stopwatch::new());
    game.start_with(Piece::from_kind(current), Piece::from_kind(next), 0);
    game
}

#[test]
fn first_hold_sets_the_piece_aside_and_lets_the_next_enter() {
    let mut game = started(PieceKind::T, PieceKind::S);
    game.current_piece.x = 2;
    game.current_piece.y = 9;
    game.current_piece.rotation_state = 3;
    let held = game.current_piece;
    assert!(game.hold_with(Piece::from_kind(PieceKind::Z), 777));
    assert_eq!(game.hold_piece, Some(held));
    assert_eq!(game.current_piece, Piece::from_kind(PieceKind::S));
    assert_eq!(game.next_piece, Piece::from_kind(PieceKind::Z));
    assert!(game.has_held_a_piece);
    assert_eq!(game.last_piece_dropped_time, 777);
    assert_eq!(game.score, 0);
    assert_eq!(game.board, Board::new());
    assert_eq!(game.phase, Phase::Playing);
}

#[test]
fn second_hold_without_a_lock_changes_nothing() {
    let mut game = started(PieceKind::T, PieceKind::S);
    assert!(game.hold_with(Piece::from_kind(PieceKind::Z), 100));
    let current = game.current_piece;
    let next = game.next_piece;
    let held = game.hold_piece;
    assert!(game.hold_with(Piece::from_kind(PieceKind::O), 200));
    assert_eq!(game.current_piece, current);
    assert_eq!(game.next_piece, next);
    assert_eq!(game.hold_piece, held);
    assert!(game.has_held_a_piece);
    assert_eq!(game.last_piece_dropped_time, 100);
}

#[test]
fn hold_has_its_effect_again_after_a_lock() {
    let mut game = started(PieceKind::T, PieceKind::S);
    assert!(game.hold_with(Piece::from_kind(PieceKind::Z), 100));
    // S is in play, T is set aside, Z is next
    game.hard_drop_with(Piece::from_kind(PieceKind::O));
    assert!(!game.has_held_a_piece);
    assert_eq!(game.current_piece, Piece::from_kind(PieceKind::Z));
    assert!(game.hold_with(Piece::from_kind(PieceKind::I), 300));
    assert_eq!(game.hold_piece, Some(Piece::from_kind(PieceKind::Z)));
    assert_eq!(game.current_piece, Piece::from_kind(PieceKind::T));
    // the next piece stays: no new piece is needed for a swap
    assert_eq!(game.next_piece, Piece::from_kind(PieceKind::O));
    assert!(game.has_held_a_piece);
    assert_eq!(game.last_piece_dropped_time, 300);
}

#[test]
fn piece_that_comes_back_stands_at_the_spawn_cell_as_it_was_turned() {
    let mut game = started(PieceKind::T, PieceKind::S);
    game.current_piece.x = 1;
    game.current_piece.y = 12;
    game.current_piece.rotation_state = 2;
    assert!(game.hold_with(Piece::from_kind(PieceKind::Z), 0));
    game.has_held_a_piece = false;
    game.current_piece.x = 6;
    game.current_piece.y = 3;
    let s = game.current_piece;
    assert!(game.hold_with(Piece::from_kind(PieceKind::O), 0));
    assert_eq!(game.hold_piece, Some(s));
    assert_eq!((game.current_piece.x, game.current_piece.y), (4, 0));
    assert_eq!(game.current_piece.rotation_state, 2);
    assert_eq!(game.current_piece.piece_color, PieceColor::Purple);
    assert_eq!(game.current_piece.rotation, PieceKind::T.rotation_masks());
    assert!(game.check_invariants());
}

#[test]
fn hold_never_ends_the_game() {
    let mut game = started(PieceKind::O, PieceKind::O);
    // the cells where a piece enters are taken
    game.board.set(4, 0, Some(PieceColor::Red));
    game.board.set(5, 1, Some(PieceColor::Red));
    game.current_piece.x = 0;
    game.current_piece.y = 10;
    assert!(game.hold_with(Piece::from_kind(PieceKind::T), 0));
    assert_eq!(game.phase, Phase::Playing);
    assert!(game.check_collision(game.current_piece.x, game.current_piece.y));
    assert!(game.check_invariants());
}

#[test]
fn hold_reads_the_clock_and_draws_where_a_piece_is_needed() {
    let mut game = GameState::new();
    game.start();
    let current = game.current_piece;
    let next = game.next_piece;
    assert!(game.hold());
    assert_eq!(game.hold_piece, Some(current));
    assert_eq!(game.current_piece, next);
    assert!(game.has_held_a_piece);
    assert!(game.check_invariants());
    assert_eq!((game.next_piece.x, game.next_piece.y, game.next_piece.rotation_state), (4, 0, 0));
    let after = (game.current_piece, game.next_piece, game.hold_piece);
    let time = game.last_piece_dropped_time;
    assert!(game.hold());
    assert_eq!((game.current_piece, game.next_piece, game.hold_piece), after);
    assert_eq!(game.last_piece_dropped_time, time);
}
