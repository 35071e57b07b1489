//! The game in machine terms: the state that is kept between two inputs and
//! the operations on it, each proved to do what the rules say.

use vstd::prelude::*;
use stopwatch::Stopwatch;
use crate::board::{
    blocked, empty_row, empty_rows, full_rows, inside, kept_rows, lemma_collides_below,
    lemma_first_blocked, lemma_free_is_inside, lemma_inside_bounds, lemma_remove_row_kept,
    lemma_settle_nothing, piece_is_inside, place, remove_row, row_full, row_kept, settle, Board,
};
use crate::clock::drop_interval_ms;
use crate::input::{key_binding, GameInput, Key};
use crate::laws::{MAX_AWARD, MAX_LINES};
use crate::piece::{
    mask_bit, mask_has, Piece, PieceColor, PieceKind, PieceView, MASK_CELLS, SPAWN_X, SPAWN_Y,
};
use crate::rules::{
    lemma_held_wf, lemma_kind_enters, lemma_landing, lemma_locked_wf, GameView, Phase,
    DROP_POINTS,
};

verus! {

/// The state of a game.
pub struct GameState {
    /// The piece that the player moves.
    pub current_piece: Piece,
    /// The piece that enters the board next.
    pub next_piece: Piece,
    /// The piece that is set aside, if any.
    pub hold_piece: Option<Piece>,
    /// Lines cleared in this game.
    pub lines_cleared_count: i16,
    /// Points scored in this game.
    pub score: i32,
    /// Whether a piece was set aside since the current piece entered.
    pub has_held_a_piece: bool,
    /// The clock that gravity goes by.
    pub global_timer: Stopwatch,
    /// The reading of the clock at the last step of gravity.
    pub last_piece_dropped_time: i64,
    /// Where the game stands in its life.
    pub phase: Phase,
    /// The cells that locked pieces have left.
    pub board: Board,
}

/// What the rules see of a piece that may be there or not.
pub open spec fn option_view(p: Option<Piece>) -> Option<PieceView> {
    match p {
        Some(piece) => Some(piece@),
        None => None,
    }
}

impl View for GameState {
    type V = GameView;

    open spec fn view(&self) -> GameView {
        GameView {
            current_piece: self.current_piece@,
            next_piece: self.next_piece@,
            hold_piece: option_view(self.hold_piece),
            lines_cleared_count: self.lines_cleared_count as int,
            score: self.score as int,
            has_held_a_piece: self.has_held_a_piece,
            global_timer: self.global_timer,
            last_piece_dropped_time: self.last_piece_dropped_time as int,
            phase: self.phase,
            board: self.board@,
        }
    }
}

impl GameState {
    /// A state before the first game, with two pieces of kinds drawn at
    /// random and a clock that runs from now on.
    pub fn new() -> (game: GameState)
        ensures
            exists|current: PieceKind, next: PieceKind|
                game@ == #[trigger] GameView::initial(
                    current.spawn(),
                    next.spawn(),
                    game@.global_timer,
                ),
            game@.wf(),
    {
        let current: Piece = Piece::get_piece();
        let next: Piece = Piece::get_piece();
        let timer: Stopwatch = Stopwatch::start_new();
        proof {
            lemma_kind_enters(choose|kind: PieceKind| current@ == kind.spawn());
            lemma_kind_enters(choose|kind: PieceKind| next@ == kind.spawn());
        }
        let game: GameState = GameState::new_with(current, next, timer);
        proof {
            let c = choose|kind: PieceKind| current@ == kind.spawn();
            let n = choose|kind: PieceKind| next@ == kind.spawn();
            assert(game@ == GameView::initial(c.spawn(), n.spawn(), game@.global_timer));
        }
        game
    }

    /// A state before the first game, with the two pieces and the clock given.
    pub fn new_with(current: Piece, next: Piece, timer: Stopwatch) -> (game: GameState)
        requires
            current@.wf(),
            inside(current@),
            next@.wf(),
            inside(next@),
        ensures
            game@ == GameView::initial(current@, next@, timer),
            game@.wf(),
    {
        GameState {
            lines_cleared_count: 0,
            score: 0,
            has_held_a_piece: false,
            current_piece: current,
            next_piece: next,
            hold_piece: None,
            global_timer: timer,
            last_piece_dropped_time: 0,
            phase: Phase::NotStarted,
            board: Board::new(),
        }
    }

    /// Whether a game is being played.
    pub fn is_playing(&self) -> (b: bool)
        ensures
            b == (self@.phase is Playing),
    {
        match self.phase {
            Phase::Playing => true,
            _ => false,
        }
    }

    /// Tries to move the piece by one cell to the left, to the right or down.
    /// Tells whether the piece has moved; it has not if it would collide, and
    /// then nothing has changed. An input that is no direction leaves the
    /// piece in place and tells whether it stands free.
    pub fn move_direction(&mut self, direction: GameInput) -> (moved: bool)
        requires
            old(self)@.wf(),
        ensures
            moved == old(self)@.can_step(direction),
            final(self)@ == old(self)@.moved(direction),
            final(self)@.wf(),
    {
        proof {
            lemma_inside_bounds(self@.current_piece);
        }
        let mut x: i8 = self.current_piece.x;
        let mut y: i8 = self.current_piece.y;

        match direction {
            GameInput::Left => {
                x = x - 1;
            },
            GameInput::Right => {
                x = x + 1;
            },
            GameInput::Down => {
                y = y + 1;
            },
            _ => {},
        }

        if !self.check_collision(x, y) {
            self.current_piece.x = x;
            self.current_piece.y = y;
            proof {
                lemma_free_is_inside(self@.board, self@.current_piece);
            }
            return true;
        }
        false
    }

    /// Moves the piece down by one row, or locks it if it cannot move, with a
    /// piece of a kind drawn at random as the new next piece. Scores ten
    /// points first if the player holds the key down. Always reports success.
    pub fn move_down(&mut self, is_holding_down: bool) -> (done: bool)
        requires
            old(self)@.wf(),
            forall|kind: PieceKind|
                (#[trigger] old(self)@.soft_dropped(is_holding_down, kind.spawn())).fits(),
        ensures
            done,
            exists|kind: PieceKind|
                final(self)@ == #[trigger] old(self)@.soft_dropped(is_holding_down, kind.spawn()),
            final(self)@.wf(),
    {
        let ghost paid = if is_holding_down {
            self@.awarded(DROP_POINTS as int)
        } else {
            self@
        };
        proof {
            lemma_kind_enters(PieceKind::I);
            lemma_locked_wf(paid, PieceKind::I.spawn());
            assert(self@.soft_dropped(is_holding_down, PieceKind::I.spawn()).fits());
        }
        if is_holding_down {
            self.score = self.score + DROP_POINTS
        }
        if !self.move_direction(GameInput::Down) {
            proof {
                assert forall|kind: PieceKind| (#[trigger] paid.locked(kind.spawn())).fits() by {
                    assert(old(self)@.soft_dropped(is_holding_down, kind.spawn()).fits());
                }
            }
            self.after_drop_collision();
            proof {
                let kind = choose|kind: PieceKind| self@ == paid.locked(kind.spawn());
                assert(self@ == old(self)@.soft_dropped(is_holding_down, kind.spawn()));
            }
        } else {
            proof {
                assert(self@ == old(self)@.soft_dropped(is_holding_down, PieceKind::I.spawn()));
            }
        }
        true
    }

    /// Moves the piece down by one row, or locks it if it cannot move, with
    /// `fresh` as the new next piece. Scores ten points first if the player
    /// holds the key down. Always reports success.
    pub fn move_down_with(&mut self, is_holding_down: bool, fresh: Piece) -> (done: bool)
        requires
            old(self)@.wf(),
            fresh@.wf(),
            inside(fresh@),
            old(self)@.soft_dropped(is_holding_down, fresh@).fits(),
        ensures
            done,
            final(self)@ == old(self)@.soft_dropped(is_holding_down, fresh@),
            final(self)@.wf(),
    {
        proof {
            let paid = if is_holding_down {
                self@.awarded(DROP_POINTS as int)
            } else {
                self@
            };
            lemma_locked_wf(paid, fresh@);
        }
        if is_holding_down {
            self.score = self.score + DROP_POINTS
        }
        if !self.move_direction(GameInput::Down) {
            self.after_drop_collision_with(fresh);
        }
        true
    }

    /// Drops the piece as far as it falls, scoring ten points for each row,
    /// scores ten points more, and locks the piece, with a piece of a kind
    /// drawn at random as the new next piece. Always reports success.
    pub fn hard_drop(&mut self) -> (done: bool)
        requires
            old(self)@.wf(),
            forall|kind: PieceKind| (#[trigger] old(self)@.hard_dropped(kind.spawn())).fits(),
        ensures
            done,
            exists|kind: PieceKind|
                final(self)@ == #[trigger] old(self)@.hard_dropped(kind.spawn()),
            final(self)@.wf(),
    {
        let ghost paid = self@.landed().awarded(DROP_POINTS as int);
        proof {
            lemma_landing(self@);
            lemma_kind_enters(PieceKind::I);
            lemma_locked_wf(paid, PieceKind::I.spawn());
            assert(old(self)@.hard_dropped(PieceKind::I.spawn()).fits());
        }
        self.drop_to_landing();
        self.score = self.score + DROP_POINTS;
        proof {
            assert(self@ == paid);
            assert forall|kind: PieceKind| (#[trigger] paid.locked(kind.spawn())).fits() by {
                assert(old(self)@.hard_dropped(kind.spawn()).fits());
            }
        }
        self.after_drop_collision();
        proof {
            let kind = choose|kind: PieceKind| self@ == paid.locked(kind.spawn());
            assert(self@ == old(self)@.hard_dropped(kind.spawn()));
        }
        true
    }

    /// Drops the piece as far as it falls, scoring ten points for each row,
    /// scores ten points more, and locks the piece, with `fresh` as the new
    /// next piece. Always reports success.
    pub fn hard_drop_with(&mut self, fresh: Piece) -> (done: bool)
        requires
            old(self)@.wf(),
            fresh@.wf(),
            inside(fresh@),
            old(self)@.hard_dropped(fresh@).fits(),
        ensures
            done,
            final(self)@ == old(self)@.hard_dropped(fresh@),
            final(self)@.wf(),
    {
        proof {
            lemma_landing(self@);
            lemma_locked_wf(self@.landed().awarded(DROP_POINTS as int), fresh@);
        }
        self.drop_to_landing();
        self.score = self.score + DROP_POINTS;
        self.after_drop_collision_with(fresh);
        true
    }

    /// Moves the piece down while it can move, scoring ten points for each
    /// row.
    fn drop_to_landing(&mut self)
        requires
            old(self)@.wf(),
            old(self)@.landed().score <= i32::MAX,
        ensures
            final(self)@ == old(self)@.landed(),
            final(self)@.wf(),
    {
        proof {
            lemma_landing(self@);
        }
        while self.move_direction(GameInput::Down)
            invariant
                self@.wf(),
                self@.landed() == old(self)@.landed(),
                old(self)@.landed().score <= i32::MAX,
            decreases 20 - self@.current_piece.y,
        {
            proof {
                lemma_landing(self@);
            }
            self.score = self.score + DROP_POINTS
        }
        proof {
            lemma_landing(self@);
        }
    }

    /// Locks the piece, with a piece of a kind drawn at random as the new
    /// next piece.
    pub fn after_drop_collision(&mut self)
        requires
            old(self)@.wf(),
            forall|kind: PieceKind| (#[trigger] old(self)@.locked(kind.spawn())).fits(),
        ensures
            exists|kind: PieceKind| final(self)@ == #[trigger] old(self)@.locked(kind.spawn()),
            final(self)@.wf(),
    {
        let fresh: Piece = Piece::get_piece();
        proof {
            let kind = choose|kind: PieceKind| fresh@ == kind.spawn();
            lemma_kind_enters(kind);
            assert(old(self)@.locked(kind.spawn()).fits());
        }
        self.after_drop_collision_with(fresh);
    }

    /// Locks the piece: writes it to the board, clears the full rows, lets the
    /// next piece enter and puts `fresh` in its place, allows holding again,
    /// and ends the game if the piece that entered collides where it stands.
    pub fn after_drop_collision_with(&mut self, fresh: Piece)
        requires
            old(self)@.wf(),
            fresh@.wf(),
            inside(fresh@),
            old(self)@.locked(fresh@).fits(),
        ensures
            final(self)@ == old(self)@.locked(fresh@),
            final(self)@.wf(),
    {
        proof {
            lemma_locked_wf(self@, fresh@);
        }
        self.commit_piece_to_board();
        self.remove_lines();
        self.current_piece = self.next_piece;
        self.next_piece = fresh;
        self.has_held_a_piece = false;
        if self.check_collision(self.current_piece.x, self.current_piece.y) {
            self.phase = Phase::GameOver;
        }
    }

    /// Clears the full rows, from the bottom row up to the top row, counts
    /// them, and scores the square of their number times a hundred points.
    pub fn remove_lines(&mut self)
        requires
            old(self)@.cleared().fits(),
        ensures
            final(self)@ == old(self)@.cleared(),
    {
        let mut n: i16 = 0;
        let mut y: i8 = 19;

        proof {
            assert(empty_rows(0) + kept_rows(self.board@) =~= kept_rows(self.board@));
        }
        while y >= 0
            invariant
                -1 <= y <= 19,
                0 <= n <= 20,
                self@ == (GameView { board: self.board@, ..old(self)@ }),
                kept_rows(self.board@) == empty_rows(n as int) + kept_rows(old(self)@.board),
                forall|j: int| y < j < 20 ==> !row_full(#[trigger] self.board@[j]),
            decreases y + 1 + (20 - n),
        {
            let mut is_line_complete: bool = true;
            let mut x: usize = 0;
            while x < 10
                invariant
                    x <= 10,
                    0 <= y <= 19,
                    is_line_complete == (forall|c: int|
                        0 <= c < x ==> (#[trigger] self.board@[y as int][c]) is Some),
                decreases 10 - x,
            {
                if self.board.get(x, y as usize).is_none() {
                    is_line_complete = false;
                }
                x = x + 1;
            }

            if is_line_complete {
                proof {
                    lemma_remove_row_kept(self.board@, y as int);
                    self.board@.lemma_filter_len(row_kept());
                    remove_row(self.board@, y as int).lemma_filter_len(row_kept());
                    assert(seq![empty_row()] + (empty_rows(n as int) + kept_rows(
                        old(self)@.board,
                    )) =~= empty_rows(n + 1) + kept_rows(old(self)@.board));
                }
                self.remove_line(y);
                y = y + 1;
                n = n + 1;
            }
            y = y - 1;
        }

        proof {
            lemma_settle_nothing(self.board@);
            assert(full_rows(old(self)@.board) == n);
            assert(self.board@ == settle(old(self)@.board));
            assert(0 <= n * n <= 400 && (n == 0 ==> n * n == 0)) by (nonlinear_arith)
                requires
                    0 <= n <= 20,
            ;
        }
        if n > 0 {
            self.lines_cleared_count = self.lines_cleared_count + n;
            self.score = self.score + (n as i32) * (n as i32) * 100;
        }
    }

    /// Clears row `n`: every row above it moves down by one and the top row
    /// becomes empty.
    pub fn remove_line(&mut self, n: i8)
        requires
            0 <= n < 20,
        ensures
            final(self)@ == (GameView {
                board: remove_row(old(self)@.board, n as int),
                ..old(self)@
            }),
    {
        let mut row: i8 = n;
        loop
            invariant_except_break
                0 <= row <= n < 20,
                forall|j: int| 0 <= j <= row ==> #[trigger] self.board@[j] == old(self)@.board[j],
                forall|j: int|
                    row < j <= n ==> #[trigger] self.board@[j] == old(self)@.board[j - 1],
            invariant
                self@ == (GameView { board: self.board@, ..old(self)@ }),
                forall|j: int| n < j < 20 ==> #[trigger] self.board@[j] == old(self)@.board[j],
            ensures
                self.board@[0] == empty_row(),
                forall|j: int| 0 < j <= n ==> #[trigger] self.board@[j] == old(self)@.board[j - 1],
            decreases row,
        {
            let ghost before = self.board@;
            let mut x: usize = 0;
            while x < 10
                invariant
                    x <= 10,
                    0 <= row <= n < 20,
                    self@ == (GameView { board: self.board@, ..old(self)@ }),
                    forall|j: int| 0 <= j < 20 && j != row ==> #[trigger] self.board@[j] == before[j],
                    forall|c: int|
                        0 <= c < x ==> #[trigger] self.board@[row as int][c] == if row == 0 {
                            None
                        } else {
                            before[row - 1][c]
                        },
                decreases 10 - x,
            {
                let cell: Option<PieceColor> = if row == 0 {
                    None
                } else {
                    self.board.get(x, (row - 1) as usize)
                };
                self.board.set(x, row as usize, cell);
                x = x + 1
            }
            proof {
                if row == 0 {
                    assert(self.board@[0] =~= empty_row());
                } else {
                    assert(self.board@[row as int] =~= before[row - 1]);
                }
            }
            if row == 0 {
                break ;
            }
            row = row - 1;
        }
        proof {
            assert(self.board@ =~= remove_row(old(self)@.board, n as int));
        }
    }

    /// Writes the cells of the piece to the board, in the color of the piece.
    pub fn commit_piece_to_board(&mut self)
        requires
            old(self)@.wf(),
        ensures
            final(self)@ == old(self)@.committed(),
    {
        proof {
            lemma_inside_bounds(self@.current_piece);
        }
        let mask: u32 = self.current_piece.get_rotation_state();
        let color: PieceColor = self.current_piece.piece_color;
        let x: i8 = self.current_piece.x;
        let y: i8 = self.current_piece.y;
        let ghost piece = self@.current_piece;
        let mut iterations: u32 = 0;
        while iterations < MASK_CELLS
            invariant
                iterations <= 16,
                piece == old(self)@.current_piece,
                mask == piece.mask(),
                color == piece.piece_color,
                x == piece.x,
                y == piece.y,
                inside(piece),
                -3 <= x <= 9,
                -3 <= y <= 19,
                self@ == (GameView { board: self.board@, ..old(self)@ }),
                forall|cx: int, cy: int|
                    0 <= cx < 10 && 0 <= cy < 20 ==> #[trigger] self.board@[cy][cx] == if piece.covers_upto(
                        iterations as int,
                        cx,
                        cy,
                    ) {
                        Some(color)
                    } else {
                        old(self)@.board[cy][cx]
                    },
            decreases 16 - iterations,
        {
            if mask_has(mask, iterations) {
                let cx: i8 = x + (iterations % 4) as i8;
                let cy: i8 = y + (iterations / 4) as i8;
                self.board.set(cx as usize, cy as usize, Some(color));
            }
            iterations = iterations + 1;
        }
        proof {
            assert(self.board@ =~~= place(old(self)@.board, piece));
        }
    }

    /// Sets the piece aside, unless that was done since the piece entered,
    /// with a piece of a kind drawn at random where a new next piece is
    /// needed, and the clock read where gravity counts anew. Always reports
    /// success.
    pub fn hold(&mut self) -> (done: bool)
        requires
            old(self)@.wf(),
        ensures
            done,
            exists|kind: PieceKind, now: int|
                final(self)@ == #[trigger] old(self)@.held(kind.spawn(), now),
            final(self)@.wf(),
    {
        if !self.has_held_a_piece {
            // A piece is drawn only where one is needed: a swap leaves the
            // next piece in its place and takes no new one.
            let fresh: Piece = match self.hold_piece {
                Some(_) => self.next_piece,
                None => Piece::get_piece(),
            };
            let now: i64 = self.global_timer.elapsed_ms();
            proof {
                if self.hold_piece is None {
                    let kind = choose|kind: PieceKind| fresh@ == kind.spawn();
                    lemma_kind_enters(kind);
                    assert(self@.held(fresh@, now as int) == self@.held(kind.spawn(), now as int));
                } else {
                    assert(self@.held(fresh@, now as int) == self@.held(
                        PieceKind::I.spawn(),
                        now as int,
                    ));
                }
            }
            self.hold_with(fresh, now);
        } else {
            proof {
                assert(self@ == self@.held(PieceKind::I.spawn(), 0));
            }
        }
        true
    }

    /// Sets the piece aside at the clock reading `now`, unless that was done
    /// since the piece entered. The piece that was set aside before comes
    /// back with its anchor at the spawn cell; if there was none, the next
    /// piece enters and `fresh` takes its place. Gravity counts anew from
    /// `now`. A hold never ends the game. Always reports success.
    pub fn hold_with(&mut self, fresh: Piece, now: i64) -> (done: bool)
        requires
            old(self)@.wf(),
            fresh@.wf(),
            inside(fresh@),
        ensures
            done,
            final(self)@ == old(self)@.held(fresh@, now as int),
            final(self)@.wf(),
    {
        proof {
            lemma_held_wf(self@, fresh@, now as int);
        }
        if !self.has_held_a_piece {
            self.has_held_a_piece = true;

            match self.hold_piece {
                Some(temp) => {
                    self.hold_piece = Some(self.current_piece);
                    self.current_piece = temp;
                    self.current_piece.x = SPAWN_X;
                    self.current_piece.y = SPAWN_Y;
                },
                None => {
                    self.hold_piece = Some(self.current_piece);
                    self.current_piece = self.next_piece;
                    self.next_piece = fresh;
                },
            }

            self.last_piece_dropped_time = now;
        }
        true
    }

    /// Tries to turn the piece by a quarter, to the left or to the right. The
    /// piece turns in place, and keeps its rotation state if it would collide
    /// there. An input that is no rotation leaves the rotation state as it
    /// is. Always reports success.
    pub fn rotate(&mut self, direction: GameInput) -> (done: bool)
        requires
            old(self)@.wf(),
        ensures
            done,
            final(self)@ == old(self)@.rotated(direction),
            final(self)@.wf(),
    {
        proof {
            lemma_inside_bounds(self@.current_piece);
        }
        let old_rotation_state: i8 = self.current_piece.rotation_state;
        self.current_piece.rotation_state = match direction {
            GameInput::RotateLeft => (self.current_piece.rotation_state + 3) % 4,
            GameInput::RotateRight => (self.current_piece.rotation_state + 1) % 4,
            _ => self.current_piece.rotation_state,
        };

        if self.check_collision(self.current_piece.x, self.current_piece.y) {
            self.current_piece.rotation_state = old_rotation_state;
        } else {
            proof {
                lemma_free_is_inside(self@.board, self@.current_piece);
            }
        }
        true
    }

    /// The row of the anchor at which the piece would come to rest if it fell
    /// from where it is: the row above the first one, from its own row down,
    /// at which it collides.
    pub fn get_drop_shadow_y(&self) -> (shadow: i8)
        requires
            self@.wf(),
        ensures
            shadow == self@.shadow_y(),
            self@.current_piece.y <= shadow + 1 <= 20,
            self@.collision_at(self@.current_piece.x, shadow + 1),
            forall|row: int|
                self@.current_piece.y <= row <= shadow ==> !self@.collision_at(
                    self@.current_piece.x,
                    row,
                ),
    {
        proof {
            lemma_inside_bounds(self@.current_piece);
            lemma_first_blocked(
                self@.board,
                self@.current_piece.mask(),
                self@.current_piece.x,
                self@.current_piece.y,
            );
        }
        let mut y: i8 = self.current_piece.y;
        while !self.check_collision(self.current_piece.x, y)
            invariant
                self@.wf(),
                self@.current_piece.y <= y <= 20,
                self@.shadow_y() + 1 >= y,
                forall|row: int|
                    self@.current_piece.y <= row < self@.shadow_y() + 1 ==> !self@.collision_at(
                        self@.current_piece.x,
                        row,
                    ),
                self@.collision_at(self@.current_piece.x, self@.shadow_y() + 1),
            decreases 20 - y,
        {
            proof {
                if y >= 20 {
                    lemma_collides_below(
                        self@.board,
                        self@.current_piece.mask(),
                        self@.current_piece.x,
                        y as int,
                    );
                }
            }
            y = y + 1;
        }
        y - 1
    }

    /// Whether the piece, in its rotation state, would collide with its
    /// anchor at `(x, y)`: whether one of its cells would lie off the board,
    /// on any side, or on an occupied cell.
    pub fn check_collision(&self, x: i8, y: i8) -> (b: bool)
        requires
            0 <= self.current_piece.rotation_state < 4,
        ensures
            b == self@.collision_at(x as int, y as int),
    {
        let mask: u32 = self.current_piece.get_rotation_state();
        let mut b: bool = false;
        let mut iterations: u32 = 0;
        while iterations < MASK_CELLS
            invariant
                iterations <= 16,
                b == (exists|j: int|
                    0 <= j < iterations && mask_bit(mask, j) && blocked(
                        self.board@,
                        x + j % 4,
                        y + j / 4,
                    )),
            decreases 16 - iterations,
        {
            if mask_has(mask, iterations) {
                let cx: i16 = x as i16 + (iterations % 4) as i16;
                let cy: i16 = y as i16 + (iterations / 4) as i16;
                if self.board.is_blocked(cx, cy) {
                    b = true;
                }
            }
            iterations = iterations + 1;
        }
        b
    }

    /// Starts a game with two pieces of kinds drawn at random, and with the
    /// clock set back to zero.
    pub fn start(&mut self)
        ensures
            exists|current: PieceKind, next: PieceKind, now: int|
                final(self)@ == (GameView {
                    global_timer: final(self)@.global_timer,
                    ..#[trigger] old(self)@.started(current.spawn(), next.spawn(), now)
                }),
            final(self)@.wf(),
    {
        self.global_timer.restart();
        let next: Piece = Piece::get_piece();
        let current: Piece = Piece::get_piece();
        let now: i64 = self.global_timer.elapsed_ms();
        proof {
            let c = choose|kind: PieceKind| current@ == kind.spawn();
            let n = choose|kind: PieceKind| next@ == kind.spawn();
            lemma_kind_enters(c);
            lemma_kind_enters(n);
            assert(self@.started(current@, next@, now as int) == (GameView {
                global_timer: self@.global_timer,
                ..old(self)@.started(c.spawn(), n.spawn(), now as int)
            }));
        }
        self.start_with(current, next, now);
    }

    /// Starts a game at the clock reading `now`: the board is emptied, points
    /// and lines are set to zero, nothing is set aside, and the two pieces
    /// given are the current and the next one.
    pub fn start_with(&mut self, current: Piece, next: Piece, now: i64)
        requires
            current@.wf(),
            inside(current@),
            next@.wf(),
            inside(next@),
        ensures
            final(self)@ == old(self)@.started(current@, next@, now as int),
            final(self)@.wf(),
    {
        self.score = 0;
        self.lines_cleared_count = 0;
        self.board.clear();
        self.hold_piece = None;
        self.has_held_a_piece = false;
        self.next_piece = next;
        self.current_piece = current;
        self.last_piece_dropped_time = now;
        self.phase = Phase::Playing;
    }

    /// Applies an input, with chance and the clock supplying what it needs.
    pub fn handle_input(&mut self, input: GameInput)
        requires
            old(self)@.wf(),
            forall|first: PieceKind, second: PieceKind, now: int|
                (#[trigger] old(self)@.applied(input, first.spawn(), second.spawn(), now)).fits(),
        ensures
            exists|first: PieceKind, second: PieceKind, now: int|
                final(self)@ == (GameView {
                    global_timer: final(self)@.global_timer,
                    ..#[trigger] old(self)@.applied(input, first.spawn(), second.spawn(), now)
                }),
            final(self)@.wf(),
    {
        let ghost i = PieceKind::I;
        if self.is_playing() {
            match input {
                GameInput::Down => {
                    proof {
                        assert forall|kind: PieceKind|
                            (#[trigger] self@.soft_dropped(true, kind.spawn())).fits() by {
                            assert(self@.applied(input, kind.spawn(), i.spawn(), 0).fits());
                        }
                    }
                    self.move_down(true);
                    proof {
                        let kind = choose|kind: PieceKind|
                            self@ == old(self)@.soft_dropped(true, kind.spawn());
                        assert(self@ == old(self)@.applied(input, kind.spawn(), i.spawn(), 0));
                    }
                },
                GameInput::Left => {
                    self.move_direction(input);
                    proof {
                        assert(self@ == old(self)@.applied(input, i.spawn(), i.spawn(), 0));
                    }
                },
                GameInput::Right => {
                    self.move_direction(input);
                    proof {
                        assert(self@ == old(self)@.applied(input, i.spawn(), i.spawn(), 0));
                    }
                },
                GameInput::RotateRight => {
                    self.rotate(input);
                    proof {
                        assert(self@ == old(self)@.applied(input, i.spawn(), i.spawn(), 0));
                    }
                },
                GameInput::RotateLeft => {
                    self.rotate(input);
                    proof {
                        assert(self@ == old(self)@.applied(input, i.spawn(), i.spawn(), 0));
                    }
                },
                GameInput::HardDrop => {
                    proof {
                        assert forall|kind: PieceKind|
                            (#[trigger] self@.hard_dropped(kind.spawn())).fits() by {
                            assert(self@.applied(input, kind.spawn(), i.spawn(), 0).fits());
                        }
                    }
                    self.hard_drop();
                    proof {
                        let kind = choose|kind: PieceKind|
                            self@ == old(self)@.hard_dropped(kind.spawn());
                        assert(self@ == old(self)@.applied(input, kind.spawn(), i.spawn(), 0));
                    }
                },
                GameInput::Hold => {
                    self.hold();
                    proof {
                        let (kind, now) = choose|kind: PieceKind, now: int|
                            self@ == old(self)@.held(kind.spawn(), now);
                        assert(self@ == old(self)@.applied(input, kind.spawn(), i.spawn(), now));
                    }
                },
                GameInput::Start => {
                    proof {
                        assert(self@ == old(self)@.applied(input, i.spawn(), i.spawn(), 0));
                    }
                },
            }
        } else {
            match input {
                GameInput::Start => {
                    self.start();
                    proof {
                        let (current, next, now) = choose|
                            current: PieceKind,
                            next: PieceKind,
                            now: int,
                        |
                            self@ == (GameView {
                                global_timer: self@.global_timer,
                                ..#[trigger] old(self)@.started(current.spawn(), next.spawn(), now)
                            });
                        assert(old(self)@.started(current.spawn(), next.spawn(), now) == old(
                            self,
                        )@.applied(input, current.spawn(), next.spawn(), now));
                    }
                },
                _ => {
                    proof {
                        assert(self@ == old(self)@.applied(input, i.spawn(), i.spawn(), 0));
                    }
                },
            }
        }
    }

    /// Applies an input at the clock reading `now`, with `first` and `second`
    /// as the pieces that enter where new ones are needed. While a game is
    /// played, every input but `Start` has its effect; otherwise only `Start`
    /// has one.
    pub fn apply(&mut self, input: GameInput, first: Piece, second: Piece, now: i64)
        requires
            old(self)@.wf(),
            first@.wf(),
            inside(first@),
            second@.wf(),
            inside(second@),
            old(self)@.applied(input, first@, second@, now as int).fits(),
        ensures
            final(self)@ == old(self)@.applied(input, first@, second@, now as int),
            final(self)@.wf(),
    {
        if self.is_playing() {
            match input {
                GameInput::Down => {
                    self.move_down_with(true, first);
                },
                GameInput::Left => {
                    self.move_direction(input);
                },
                GameInput::Right => {
                    self.move_direction(input);
                },
                GameInput::RotateRight => {
                    self.rotate(input);
                },
                GameInput::RotateLeft => {
                    self.rotate(input);
                },
                GameInput::HardDrop => {
                    self.hard_drop_with(first);
                },
                GameInput::Hold => {
                    self.hold_with(first, now);
                },
                GameInput::Start => {},
            }
        } else {
            match input {
                GameInput::Start => {
                    self.start_with(first, second, now);
                },
                _ => {},
            }
        }
    }

    /// Applies the input that a key is bound to, if it is bound to one.
    pub fn key_down_event(&mut self, key: Key)
        requires
            old(self)@.wf(),
            key_binding(key) matches Some(input) ==> forall|
                first: PieceKind,
                second: PieceKind,
                now: int,
            |
                (#[trigger] old(self)@.applied(input, first.spawn(), second.spawn(), now)).fits(),
        ensures
            match key_binding(key) {
                Some(input) => exists|first: PieceKind, second: PieceKind, now: int|
                    final(self)@ == (GameView {
                        global_timer: final(self)@.global_timer,
                        ..#[trigger] old(self)@.applied(input, first.spawn(), second.spawn(), now)
                    }),
                None => final(self)@ == old(self)@,
            },
            final(self)@.wf(),
    {
        if let Some(input) = GameInput::from_keycode(key) {
            self.handle_input(input);
        }
    }

    /// Whether a step of gravity is due at the clock reading `now`.
    pub fn gravity_due(&self, now: i64) -> (due: bool)
        ensures
            due == self@.gravity_due(now as int),
    {
        self.is_playing() && (now as i128) - (self.last_piece_dropped_time as i128)
            > drop_interval_ms(self.lines_cleared_count) as i128
    }

    /// Lets the time up to now pass, with the clock read and, where a new
    /// next piece is needed, its kind drawn at random.
    pub fn update(&mut self)
        requires
            old(self)@.wf(),
            forall|now: int, kind: PieceKind|
                (#[trigger] old(self)@.ticked(now, kind.spawn())).fits(),
        ensures
            exists|now: int, kind: PieceKind|
                final(self)@ == #[trigger] old(self)@.ticked(now, kind.spawn()),
            final(self)@.wf(),
    {
        if self.is_playing() {
            let now: i64 = self.global_timer.elapsed_ms();
            if self.gravity_due(now) {
                proof {
                    assert forall|kind: PieceKind|
                        (#[trigger] self@.soft_dropped(false, kind.spawn())).fits() by {
                        assert(self@.ticked(now as int, kind.spawn()).fits());
                    }
                }
                self.move_down(false);
                proof {
                    let kind = choose|kind: PieceKind|
                        self@ == old(self)@.soft_dropped(false, kind.spawn());
                    assert((GameView { last_piece_dropped_time: now as int, ..self@ }) == old(
                        self,
                    )@.ticked(now as int, kind.spawn()));
                }
                self.last_piece_dropped_time = now;
            } else {
                proof {
                    assert(self@ == old(self)@.ticked(now as int, PieceKind::I.spawn()));
                }
            }
        } else {
            proof {
                assert(self@ == old(self)@.ticked(0, PieceKind::I.spawn()));
            }
        }
    }

    /// Lets the time up to the clock reading `now` pass: if a step of gravity
    /// is due, the piece moves down by one row or locks, with `fresh` as the
    /// new next piece, and gravity counts anew from `now`.
    pub fn tick(&mut self, now: i64, fresh: Piece)
        requires
            old(self)@.wf(),
            fresh@.wf(),
            inside(fresh@),
            old(self)@.ticked(now as int, fresh@).fits(),
        ensures
            final(self)@ == old(self)@.ticked(now as int, fresh@),
            final(self)@.wf(),
    {
        if self.gravity_due(now) {
            self.move_down_with(false, fresh);
            self.last_piece_dropped_time = now;
        }
    }

    /// Whether the state is well formed.
    pub fn check_invariants(&self) -> (ok: bool)
        ensures
            ok == self@.wf(),
    {
        let hold_ok: bool = match self.hold_piece {
            Some(h) => h.is_wf(),
            None => true,
        };
        hold_ok && self.current_piece.is_wf() && self.next_piece.is_wf() && piece_is_inside(
            &self.current_piece,
        ) && piece_is_inside(&self.next_piece)
    }

    /// Whether the counters leave room for whatever one input or one tick can
    /// add to them.
    pub fn has_headroom(&self) -> (ok: bool)
        ensures
            ok == self@.has_headroom(),
    {
        self.score <= i32::MAX - MAX_AWARD && self.lines_cleared_count <= i16::MAX - MAX_LINES
    }
}

} // verus!
