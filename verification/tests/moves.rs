use stopwatch::Stopwatch;
use tetris::{GameInput, GameState, Phase, Piece, PieceColor, PieceKind};

const KINDS: [PieceKind; 7] = [
    PieceKind::I,
    PieceKind::J,
    PieceKind::L,
    PieceKind::O,
    PieceKind::S,
    PieceKind::T,
    PieceKind::Z,
];

fn playing(current: PieceKind, next: PieceKind) -> GameState {
    let mut game =
        GameState::new_with(Piece::from_kind(current), Piece::from_kind(next), Stopwatch::new());
    game.start_with(Piece::from_kind(current), Piece::from_kind(next), 0);
    game
}

#[test]
fn fresh_piece_of_every_kind_is_free_on_an_empty_board() {
    for kind in KINDS {
        let game = playing(kind, PieceKind::O);
        assert!(!game.check_collision(4, 0));
        assert!(game.check_invariants());
    }
}

#[test]
fn every_rotation_of_every_kind_is_free_at_the_spawn_cell() {
    for kind in KINDS {
        for r in 0..4 {
            let mut game = playing(kind, PieceKind::O);
            game.current_piece.rotation_state = r;
            assert!(!game.check_collision(4, 0));
        }
    }
}

#[test]
fn collision_with_the_walls_and_the_floor() {
    // O fills the left two columns and the top two rows of its box
    let game = playing(PieceKind::O, PieceKind::I);
    assert!(!game.check_collision(0, 0));
    assert!(game.check_collision(-1, 0));
    assert!(!game.check_collision(8, 0));
    assert!(game.check_collision(9, 0));
    assert!(!game.check_collision(0, 18));
    assert!(game.check_collision(0, 19));
    assert!(game.check_collision(0, 20));
    assert!(game.check_collision(127, 127));
    assert!(game.check_collision(-128, -128));
}

#[test]
fn collision_above_the_board() {
    let game = playing(PieceKind::O, PieceKind::I);
    assert!(game.check_collision(4, -1));
    // the cells of the lying I are in the third row of its box
    let game = playing(PieceKind::I, PieceKind::O);
    assert!(!game.check_collision(4, -2));
    assert!(game.check_collision(4, -3));
}

#[test]
fn collision_with_an_occupied_cell() {
    let mut game = playing(PieceKind::O, PieceKind::I);
    game.board.set(5, 10, Some(PieceColor::Red));
    assert!(game.check_collision(4, 9));
    assert!(game.check_collision(5, 10));
    assert!(game.check_collision(4, 10));
    assert!(game.check_collision(5, 9));
    assert!(!game.check_collision(6, 10));
    assert!(!game.check_collision(3, 10));
    assert!(!game.check_collision(4, 8));
    assert!(!game.check_collision(4, 11));
}

#[test]
fn moves_change_the_anchor_by_one() {
    let mut game = playing(PieceKind::T, PieceKind::O);
    assert!(game.move_direction(GameInput::Left));
    assert_eq!((game.current_piece.x, game.current_piece.y), (3, 0));
    assert!(game.move_direction(GameInput::Right));
    assert!(game.move_direction(GameInput::Right));
    assert_eq!((game.current_piece.x, game.current_piece.y), (5, 0));
    assert!(game.move_direction(GameInput::Down));
    assert_eq!((game.current_piece.x, game.current_piece.y), (5, 1));
    assert_eq!(game.current_piece.rotation_state, 0);
    assert_eq!(game.score, 0);
}

#[test]
fn blocked_move_changes_nothing() {
    let mut game = playing(PieceKind::O, PieceKind::I);
    game.current_piece.x = 0;
    assert!(!game.move_direction(GameInput::Left));
    assert_eq!((game.current_piece.x, game.current_piece.y), (0, 0));
    game.current_piece.x = 8;
    assert!(!game.move_direction(GameInput::Right));
    assert_eq!((game.current_piece.x, game.current_piece.y), (8, 0));
    game.current_piece.y = 18;
    assert!(!game.move_direction(GameInput::Down));
    assert_eq!((game.current_piece.x, game.current_piece.y), (8, 18));
    assert_eq!(game.board, tetris::Board::new());
    assert_eq!(game.phase, Phase::Playing);
}

#[test]
fn move_against_an_occupied_cell_is_blocked() {
    let mut game = playing(PieceKind::O, PieceKind::I);
    game.board.set(6, 1, Some(PieceColor::Blue));
    assert!(!game.move_direction(GameInput::Right));
    assert_eq!(game.current_piece.x, 4);
    game.board.set(4, 2, Some(PieceColor::Blue));
    assert!(!game.move_direction(GameInput::Down));
    assert_eq!(game.current_piece.y, 0);
    assert!(game.move_direction(GameInput::Left));
    assert_eq!(game.current_piece.x, 3);
}

#[test]
fn input_that_is_no_direction_moves_nothing() {
    let mut game = playing(PieceKind::O, PieceKind::I);
    for input in [
        GameInput::HardDrop,
        GameInput::RotateLeft,
        GameInput::RotateRight,
        GameInput::Hold,
        GameInput::Start,
    ] {
        assert!(game.move_direction(input));
        assert_eq!((game.current_piece.x, game.current_piece.y), (4, 0));
    }
}

#[test]
fn rotation_steps_through_the_states() {
    let mut game = playing(PieceKind::T, PieceKind::O);
    game.current_piece.y = 5;
    assert!(game.rotate(GameInput::RotateRight));
    assert_eq!(game.current_piece.rotation_state, 1);
    assert!(game.rotate(GameInput::RotateRight));
    assert_eq!(game.current_piece.rotation_state, 2);
    assert!(game.rotate(GameInput::RotateRight));
    assert_eq!(game.current_piece.rotation_state, 3);
    assert!(game.rotate(GameInput::RotateRight));
    assert_eq!(game.current_piece.rotation_state, 0);
    assert!(game.rotate(GameInput::RotateLeft));
    assert_eq!(game.current_piece.rotation_state, 3);
    assert!(game.rotate(GameInput::RotateLeft));
    assert_eq!(game.current_piece.rotation_state, 2);
    assert_eq!((game.current_piece.x, game.current_piece.y), (4, 5));
}

#[test]
fn input_that_is_no_rotation_turns_nothing() {
    let mut game = playing(PieceKind::T, PieceKind::O);
    game.current_piece.rotation_state = 2;
    for input in [GameInput::Left, GameInput::Down, GameInput::Hold, GameInput::Start] {
        assert!(game.rotate(input));
        assert_eq!(game.current_piece.rotation_state, 2);
        assert_eq!((game.current_piece.x, game.current_piece.y), (4, 0));
    }
}

#[test]
fn rotation_at_the_right_wall_is_rejected() {
    // the standing I is in the third column of its box: with the anchor in
    // column seven it stands against the right wall
    let mut game = playing(PieceKind::I, PieceKind::O);
    game.current_piece.rotation_state = 1;
    game.current_piece.x = 7;
    game.current_piece.y = 3;
    assert!(game.check_invariants());
    assert!(game.rotate(GameInput::RotateRight));
    assert_eq!(game.current_piece.rotation_state, 1);
    assert_eq!((game.current_piece.x, game.current_piece.y), (7, 3));
    assert!(game.rotate(GameInput::RotateLeft));
    assert_eq!(game.current_piece.rotation_state, 1);
    assert_eq!((game.current_piece.x, game.current_piece.y), (7, 3));
    // one column further left the lying I has room
    game.current_piece.x = 6;
    assert!(game.rotate(GameInput::RotateRight));
    assert_eq!(game.current_piece.rotation_state, 2);
    assert_eq!((game.current_piece.x, game.current_piece.y), (6, 3));
}

#[test]
fn rotation_at_the_left_wall_is_rejected() {
    let mut game = playing(PieceKind::I, PieceKind::O);
    game.current_piece.rotation_state = 1;
    game.current_piece.x = -2;
    game.current_piece.y = 3;
    assert!(game.rotate(GameInput::RotateLeft));
    assert_eq!(game.current_piece.rotation_state, 1);
    assert_eq!((game.current_piece.x, game.current_piece.y), (-2, 3));
}

#[test]
fn rotation_above_the_board_is_rejected() {
    // the lying I at the top of the board: standing up it would reach above
    let mut game = playing(PieceKind::I, PieceKind::O);
    game.current_piece.y = -2;
    assert!(game.check_invariants());
    assert!(game.rotate(GameInput::RotateRight));
    assert_eq!(game.current_piece.rotation_state, 0);
    assert_eq!((game.current_piece.x, game.current_piece.y), (4, -2));
}

#[test]
fn rotation_into_an_occupied_cell_is_rejected() {
    let mut game = playing(PieceKind::I, PieceKind::O);
    game.current_piece.y = 5;
    // the standing I would take the third column of the box
    game.board.set(6, 8, Some(PieceColor::Red));
    assert!(game.rotate(GameInput::RotateRight));
    assert_eq!(game.current_piece.rotation_state, 0);
    game.board.set(6, 8, None);
    assert!(game.rotate(GameInput::RotateRight));
    assert_eq!(game.current_piece.rotation_state, 1);
}

#[test]
fn shadow_rests_on_the_floor() {
    let game = playing(PieceKind::I, PieceKind::O);
    assert_eq!(game.get_drop_shadow_y(), 17);
    let game = playing(PieceKind::O, PieceKind::I);
    assert_eq!(game.get_drop_shadow_y(), 18);
    let mut game = playing(PieceKind::I, PieceKind::O);
    game.current_piece.rotation_state = 1;
    assert_eq!(game.get_drop_shadow_y(), 16);
}

#[test]
fn shadow_rests_on_occupied_cells() {
    let mut game = playing(PieceKind::O, PieceKind::I);
    game.board.set(5, 12, Some(PieceColor::Red));
    assert_eq!(game.get_drop_shadow_y(), 10);
    // the shadow changes neither piece nor board
    assert_eq!((game.current_piece.x, game.current_piece.y), (4, 0));
    assert_eq!(game.board.get(5, 12), Some(PieceColor::Red));
    game.current_piece.x = 6;
    assert_eq!(game.get_drop_shadow_y(), 18);
}

#[test]
fn shadow_of_a_piece_that_collides_is_the_row_above_it() {
    let mut game = playing(PieceKind::O, PieceKind::I);
    game.board.set(4, 0, Some(PieceColor::Red));
    assert_eq!(game.get_drop_shadow_y(), -1);
}

#[test]
fn shadow_of_a_piece_at_rest_is_its_own_row() {
    let mut game = playing(PieceKind::O, PieceKind::I);
    game.current_piece.y = 18;
    assert_eq!(game.get_drop_shadow_y(), 18);
}
