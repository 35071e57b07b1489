use stopwatch::Stopwatch;
use tetris::clock::{drop_interval_ms, DROP_BASE_MS, DROP_FLOOR_MS, DROP_STEP_MS};
use tetris::{Board, GameState, Phase, Piece, PieceKind};

fn running(current: PieceKind, next: PieceKind) -> GameState {
    let mut game =
        GameState::new_with(Piece::from_kind(current), Piece::from_kind(next), Stopwatch::new());
    game.start_with(Piece::from_kind(current), Piece::from_kind(next), 0);
    game
}

#[test]
fn interval_shrinks_by_five_milliseconds_a_line() {
    assert_eq!((DROP_BASE_MS, DROP_STEP_MS, DROP_FLOOR_MS), (1000, 5, 1));
    assert_eq!(drop_interval_ms(0), 1000);
    assert_eq!(drop_interval_ms(1), 995);
    assert_eq!(drop_interval_ms(10), 950);
    assert_eq!(drop_interval_ms(100), 500);
    assert_eq!(drop_interval_ms(199), 5);
}

#[test]
fn interval_stays_positive() {
    assert_eq!(drop_interval_ms(200), 1);
    assert_eq!(drop_interval_ms(201), 1);
    assert_eq!(drop_interval_ms(1000), 1);
    assert_eq!(drop_interval_ms(i16::MAX), 1);
    assert_eq!(drop_interval_ms(-1), 1005);
    assert_eq!(drop_interval_ms(i16::MIN), 1000 + 5 * 32768);
}

#[test]
fn gravity_is_due_after_more_than_the_interval() {
    let mut game = running(PieceKind::O, PieceKind::I);
    assert!(!game.gravity_due(0));
    assert!(!game.gravity_due(1000));
    assert!(game.gravity_due(1001));
    game.last_piece_dropped_time = 500;
    assert!(!game.gravity_due(1500));
    assert!(game.gravity_due(1501));
    game.lines_cleared_count = 100;
    assert!(!game.gravity_due(1000));
    assert!(game.gravity_due(1001));
    game.lines_cleared_count = 300;
    assert!(!game.gravity_due(500));
    assert!(!game.gravity_due(501));
    assert!(game.gravity_due(502));
}

#[test]
fn gravity_is_never_due_while_no_game_is_played() {
    let mut game = running(PieceKind::O, PieceKind::I);
    game.phase = Phase::NotStarted;
    assert!(!game.gravity_due(1_000_000));
    game.phase = Phase::GameOver;
    assert!(!game.gravity_due(1_000_000));
}

#[test]
fn gravity_takes_any_clock_reading() {
    let mut game = running(PieceKind::O, PieceKind::I);
    game.last_piece_dropped_time = i64::MIN;
    assert!(game.gravity_due(i64::MAX));
    assert!(game.gravity_due(0));
    game.last_piece_dropped_time = i64::MAX;
    assert!(!game.gravity_due(i64::MIN));
    assert!(!game.gravity_due(i64::MAX));
    game.last_piece_dropped_time = 0;
    assert!(!game.gravity_due(-5));
}

#[test]
fn tick_moves_the_piece_when_gravity_is_due() {
    let mut game = running(PieceKind::O, PieceKind::I);
    game.tick(1000, Piece::from_kind(PieceKind::T));
    assert_eq!(game.current_piece.y, 0);
    assert_eq!(game.last_piece_dropped_time, 0);
    game.tick(1001, Piece::from_kind(PieceKind::T));
    assert_eq!(game.current_piece.y, 1);
    assert_eq!(game.last_piece_dropped_time, 1001);
    assert_eq!(game.score, 0);
    game.tick(2001, Piece::from_kind(PieceKind::T));
    assert_eq!(game.current_piece.y, 1);
    game.tick(2002, Piece::from_kind(PieceKind::T));
    assert_eq!(game.current_piece.y, 2);
    assert_eq!(game.last_piece_dropped_time, 2002);
    assert_eq!(game.board, Board::new());
}

#[test]
fn tick_locks_a_piece_at_rest() {
    let mut game = running(PieceKind::O, PieceKind::I);
    game.current_piece.y = 18;
    game.tick(5000, Piece::from_kind(PieceKind::T));
    assert_eq!(game.current_piece, Piece::from_kind(PieceKind::I));
    assert_eq!(game.next_piece, Piece::from_kind(PieceKind::T));
    assert_eq!(game.last_piece_dropped_time, 5000);
    assert_eq!(game.score, 0);
    assert!(game.board != Board::new());
}

#[test]
fn tick_does_nothing_while_no_game_is_played() {
    let mut game =
        GameState::new_with(
            Piece::from_kind(PieceKind::O),
            Piece::from_kind(PieceKind::I),
            Stopwatch::new(),
        );
    game.tick(1_000_000, Piece::from_kind(PieceKind::T));
    assert_eq!(game.current_piece.y, 0);
    assert_eq!(game.last_piece_dropped_time, 0);
    assert_eq!(game.phase, Phase::NotStarted);
    game.update();
    assert_eq!(game.current_piece.y, 0);
    assert_eq!(game.last_piece_dropped_time, 0);
}

#[test]
fn update_reads_the_clock() {
    let mut game = GameState::new();
    game.start();
    game.current_piece = Piece::from_kind(PieceKind::O);
    // as if the last step of gravity were long ago
    game.last_piece_dropped_time = -1_000_000;
    game.update();
    assert_eq!(game.current_piece.y, 1);
    assert!(game.last_piece_dropped_time >= 0);
    assert!(game.last_piece_dropped_time < 10_000);
    // and as if it were still to come
    game.last_piece_dropped_time = 1_000_000_000;
    game.update();
    assert_eq!(game.current_piece.y, 1);
    assert_eq!(game.last_piece_dropped_time, 1_000_000_000);
    assert!(game.check_invariants());
}
