//! The rules of the game, stated on a mathematical state: every operation of
//! the game is a function from a state, and from what chance and the clock
//! supply, to the next state.

use vstd::prelude::*;
use stopwatch::Stopwatch;
use crate::board::{
    clear_points, collides, empty_grid, first_blocked_y, full_rows, grid_wf, inside,
    lemma_first_blocked, lemma_free_is_inside, lemma_settle_wf, place, settle, Grid,
};
use crate::clock::drop_interval;
use crate::input::GameInput;
use crate::piece::{lemma_kind_wf, PieceKind, PieceView};

verus! {

/// Points for each row that a piece is dropped by, and for landing a hard
/// drop.
pub const DROP_POINTS: i32 = 10;

/// Where a game stands in its life.
#[derive(Clone, Copy, Debug, PartialEq, Eq, Structural)]
pub enum Phase {
    /// No game has been started yet.
    NotStarted,
    /// A game is being played.
    Playing,
    /// The last game has ended: a piece could not enter the board.
    GameOver,
}

/// The anchor that a step in the direction `dir` leads to from `(x, y)`: one
/// column to the left or right, or one row down. Any other input leads
/// nowhere else.
pub open spec fn step_target(dir: GameInput, x: int, y: int) -> (int, int) {
    match dir {
        GameInput::Left => (x - 1, y),
        GameInput::Right => (x + 1, y),
        GameInput::Down => (x, y + 1),
        _ => (x, y),
    }
}

/// The state of a game as the rules see it.
#[verifier::ext_equal]
pub struct GameView {
    /// The piece that the player moves.
    pub current_piece: PieceView,
    /// The piece that enters the board next.
    pub next_piece: PieceView,
    /// The piece that is set aside, if any.
    pub hold_piece: Option<PieceView>,
    /// Lines cleared in this game.
    pub lines_cleared_count: int,
    /// Points scored in this game.
    pub score: int,
    /// Whether a piece was set aside since the current piece entered.
    pub has_held_a_piece: bool,
    /// The clock. The rules carry it along and never look inside.
    pub global_timer: Stopwatch,
    /// The reading of the clock at the last step of gravity.
    pub last_piece_dropped_time: int,
    /// Where the game stands in its life.
    pub phase: Phase,
    /// The cells that locked pieces have left.
    pub board: Grid,
}

impl GameView {
    /// A state is well formed when its board has its twenty rows of ten cells,
    /// its pieces are well formed, and the current and the next piece lie on
    /// the board.
    pub open spec fn wf(self) -> bool {
        &&& grid_wf(self.board)
        &&& self.current_piece.wf()
        &&& inside(self.current_piece)
        &&& self.next_piece.wf()
        &&& inside(self.next_piece)
        &&& (self.hold_piece matches Some(h) ==> h.wf())
    }

    /// Whether the counters can be held in the machine's integers.
    pub open spec fn fits(self) -> bool {
        &&& i32::MIN <= self.score <= i32::MAX
        &&& i16::MIN <= self.lines_cleared_count <= i16::MAX
    }

    /// Whether the current piece, in its rotation state, would collide with
    /// its anchor at `(x, y)`.
    pub open spec fn collision_at(self, x: int, y: int) -> bool {
        collides(self.board, self.current_piece.mask(), x, y)
    }

    /// Whether a step in the direction `dir` is free.
    pub open spec fn can_step(self, dir: GameInput) -> bool {
        let (x, y) = step_target(dir, self.current_piece.x, self.current_piece.y);
        !self.collision_at(x, y)
    }

    /// The state after an attempt to step in the direction `dir`: the piece
    /// has moved if the step is free, and nothing has changed if it is not.
    pub open spec fn moved(self, dir: GameInput) -> GameView {
        let (x, y) = step_target(dir, self.current_piece.x, self.current_piece.y);
        if self.collision_at(x, y) {
            self
        } else {
            GameView { current_piece: self.current_piece.at(x, y), ..self }
        }
    }

    /// The state after an attempt to rotate in the direction `dir`: the piece
    /// has taken the new rotation state if it does not collide in place, and
    /// nothing has changed if it does.
    pub open spec fn rotated(self, dir: GameInput) -> GameView {
        let turned = self.current_piece.turned(dir);
        if collides(self.board, turned.mask(), turned.x, turned.y) {
            self
        } else {
            GameView { current_piece: turned, ..self }
        }
    }

    /// The row of the anchor at which the current piece would come to rest if
    /// it fell from where it is.
    pub open spec fn shadow_y(self) -> int {
        first_blocked_y(
            self.board,
            self.current_piece.mask(),
            self.current_piece.x,
            self.current_piece.y,
        ) - 1
    }

    /// The row of the anchor at which the current piece lands when it is
    /// dropped: the lowest row that it reaches by free steps down.
    pub open spec fn landing_y(self) -> int {
        first_blocked_y(
            self.board,
            self.current_piece.mask(),
            self.current_piece.x,
            self.current_piece.y + 1,
        ) - 1
    }

    /// The state with `points` more points.
    pub open spec fn awarded(self, points: int) -> GameView {
        GameView { score: self.score + points, ..self }
    }

    /// The state after the cells of the current piece are written to the
    /// board.
    pub open spec fn committed(self) -> GameView {
        GameView { board: place(self.board, self.current_piece), ..self }
    }

    /// The state after line clearing: the full rows are gone, each one is
    /// counted, and `n` rows cleared at once score `n * n * 100` points.
    pub open spec fn cleared(self) -> GameView {
        GameView {
            board: settle(self.board),
            lines_cleared_count: self.lines_cleared_count + full_rows(self.board),
            score: self.score + clear_points(full_rows(self.board)),
            ..self
        }
    }

    /// The state after the next piece has entered the board and `fresh` has
    /// taken its place: holding is allowed again, and the game is over if the
    /// piece that entered collides where it stands.
    pub open spec fn spawned(self, fresh: PieceView) -> GameView {
        GameView {
            current_piece: self.next_piece,
            next_piece: fresh,
            has_held_a_piece: false,
            phase: if collides(
                self.board,
                self.next_piece.mask(),
                self.next_piece.x,
                self.next_piece.y,
            ) {
                Phase::GameOver
            } else {
                self.phase
            },
            ..self
        }
    }

    /// The state after a lock: the current piece is written to the board,
    /// lines are cleared, and the next piece enters.
    pub open spec fn locked(self, fresh: PieceView) -> GameView {
        self.committed().cleared().spawned(fresh)
    }

    /// The state after a soft drop: ten points if the player holds the key
    /// down, then one step down if it is free and a lock if it is not.
    pub open spec fn soft_dropped(self, is_holding_down: bool, fresh: PieceView) -> GameView {
        let paid = if is_holding_down {
            self.awarded(DROP_POINTS as int)
        } else {
            self
        };
        if paid.can_step(GameInput::Down) {
            paid.moved(GameInput::Down)
        } else {
            paid.locked(fresh)
        }
    }

    /// The state after the piece has fallen to where it lands, with ten points
    /// for each row it fell by.
    pub open spec fn landed(self) -> GameView {
        GameView {
            current_piece: self.current_piece.at(self.current_piece.x, self.landing_y()),
            score: self.score + DROP_POINTS * (self.landing_y() - self.current_piece.y),
            ..self
        }
    }

    /// The state after a hard drop: the piece lands, ten more points are
    /// scored, and the piece locks.
    pub open spec fn hard_dropped(self, fresh: PieceView) -> GameView {
        self.landed().awarded(DROP_POINTS as int).locked(fresh)
    }

    /// The state after a hold at the clock reading `now`. The first hold since
    /// a piece entered sets the current piece aside; the piece that was set
    /// aside before comes back with its anchor at the spawn cell, or, if there
    /// was none, the next piece enters and `fresh` takes its place; gravity
    /// starts counting anew. A further hold changes nothing.
    pub open spec fn held(self, fresh: PieceView, now: int) -> GameView {
        if self.has_held_a_piece {
            self
        } else {
            match self.hold_piece {
                Some(h) => GameView {
                    has_held_a_piece: true,
                    hold_piece: Some(self.current_piece),
                    current_piece: h.at_spawn(),
                    last_piece_dropped_time: now,
                    ..self
                },
                None => GameView {
                    has_held_a_piece: true,
                    hold_piece: Some(self.current_piece),
                    current_piece: self.next_piece,
                    next_piece: fresh,
                    last_piece_dropped_time: now,
                    ..self
                },
            }
        }
    }

    /// The state before the first game: nothing on the board, nothing scored,
    /// nothing set aside, the two pieces given, and the clock `timer`.
    pub open spec fn initial(current: PieceView, next: PieceView, timer: Stopwatch) -> GameView {
        GameView {
            current_piece: current,
            next_piece: next,
            hold_piece: None,
            lines_cleared_count: 0,
            score: 0,
            has_held_a_piece: false,
            global_timer: timer,
            last_piece_dropped_time: 0,
            phase: Phase::NotStarted,
            board: empty_grid(),
        }
    }

    /// The state at the start of a game at the clock reading `now`: an empty
    /// board, no points, no lines, nothing set aside, the two pieces given.
    pub open spec fn started(self, current: PieceView, next: PieceView, now: int) -> GameView {
        GameView {
            current_piece: current,
            next_piece: next,
            hold_piece: None,
            lines_cleared_count: 0,
            score: 0,
            has_held_a_piece: false,
            global_timer: self.global_timer,
            last_piece_dropped_time: now,
            phase: Phase::Playing,
            board: empty_grid(),
        }
    }

    /// The state after an input at the clock reading `now`, where `first` and
    /// `second` are the pieces that chance supplies. While a game is played
    /// every input but `Start` has its effect and `Start` has none; otherwise
    /// `Start` starts a game, with `first` as the current and `second` as the
    /// next piece, and every other input is ignored.
    pub open spec fn applied(
        self,
        input: GameInput,
        first: PieceView,
        second: PieceView,
        now: int,
    ) -> GameView {
        if self.phase is Playing {
            match input {
                GameInput::Down => self.soft_dropped(true, first),
                GameInput::Left => self.moved(input),
                GameInput::Right => self.moved(input),
                GameInput::RotateRight => self.rotated(input),
                GameInput::RotateLeft => self.rotated(input),
                GameInput::HardDrop => self.hard_dropped(first),
                GameInput::Hold => self.held(first, now),
                GameInput::Start => self,
            }
        } else {
            match input {
                GameInput::Start => self.started(first, second, now),
                _ => self,
            }
        }
    }

    /// Whether a step of gravity is due at the clock reading `now`: a game is
    /// played and more than the drop interval has passed since the last step.
    pub open spec fn gravity_due(self, now: int) -> bool {
        &&& self.phase is Playing
        &&& now - self.last_piece_dropped_time > drop_interval(self.lines_cleared_count)
    }

    /// The state after a tick at the clock reading `now`: if a step of gravity
    /// is due, a soft drop that the player has no part in, and the clock
    /// reading noted; otherwise no change.
    pub open spec fn ticked(self, now: int, fresh: PieceView) -> GameView {
        if self.gravity_due(now) {
            GameView { last_piece_dropped_time: now, ..self.soft_dropped(false, fresh) }
        } else {
            self
        }
    }
}

/// A piece with its anchor at the spawn cell lies on the board, whatever its
/// masks.
pub proof fn lemma_spawn_inside(p: PieceView)
    ensures
        inside(p.at_spawn()),
        p.wf() ==> p.at_spawn().wf(),
{
}

/// A piece of any kind, as it enters the board, is well formed and lies on the
/// board.
pub proof fn lemma_kind_enters(kind: PieceKind)
    ensures
        kind.spawn().wf(),
        inside(kind.spawn()),
{
    lemma_kind_wf(kind);
    lemma_spawn_inside(kind.spawn());
    assert(kind.spawn().at_spawn() =~= kind.spawn());
}

/// The points for clearing rows are never negative, and at most forty
/// thousand for the twenty rows of a board.
pub proof fn lemma_clear_points_bounds(n: int)
    requires
        0 <= n <= 20,
    ensures
        0 <= clear_points(n) <= 40000,
{
    assert(0 <= n * n <= 400) by (nonlinear_arith)
        requires
            0 <= n <= 20,
    ;
}

/// A step keeps a well formed state well formed.
pub proof fn lemma_moved_wf(s: GameView, dir: GameInput)
    requires
        s.wf(),
    ensures
        s.moved(dir).wf(),
{
    if s.can_step(dir) {
        lemma_free_is_inside(s.board, s.moved(dir).current_piece);
    }
}

/// A rotation keeps a well formed state well formed.
pub proof fn lemma_rotated_wf(s: GameView, dir: GameInput)
    requires
        s.wf(),
    ensures
        s.rotated(dir).wf(),
{
    let turned = s.current_piece.turned(dir);
    if !collides(s.board, turned.mask(), turned.x, turned.y) {
        lemma_free_is_inside(s.board, turned);
    }
}

/// Where a dropped piece lands: at or below its row, on the board, and one
/// row above a collision.
pub proof fn lemma_landing(s: GameView)
    requires
        s.wf(),
    ensures
        s.current_piece.y <= s.landing_y() <= 19,
        s.landed().wf(),
        !s.landed().can_step(GameInput::Down),
        forall|row: int|
            s.current_piece.y < row <= s.landing_y() ==> !s.collision_at(s.current_piece.x, row),
{
    let p = s.current_piece;
    crate::board::lemma_inside_bounds(p);
    lemma_first_blocked(s.board, p.mask(), p.x, p.y + 1);
    if s.landing_y() > p.y {
        lemma_free_is_inside(s.board, s.landed().current_piece);
    }
}

/// A lock keeps a well formed state well formed, and clears at most twenty
/// rows.
pub proof fn lemma_locked_wf(s: GameView, fresh: PieceView)
    requires
        s.wf(),
        fresh.wf(),
        inside(fresh),
    ensures
        s.locked(fresh).wf(),
        0 <= full_rows(s.committed().board) <= 20,
        s.locked(fresh).score == s.score + clear_points(full_rows(s.committed().board)),
        s.score <= s.locked(fresh).score <= s.score + 40000,
        s.lines_cleared_count <= s.locked(fresh).lines_cleared_count <= s.lines_cleared_count + 20,
{
    lemma_settle_wf(s.committed().board);
    lemma_clear_points_bounds(full_rows(s.committed().board));
}

/// A soft drop keeps a well formed state well formed.
pub proof fn lemma_soft_dropped_wf(s: GameView, is_holding_down: bool, fresh: PieceView)
    requires
        s.wf(),
        fresh.wf(),
        inside(fresh),
    ensures
        s.soft_dropped(is_holding_down, fresh).wf(),
{
    let paid = if is_holding_down {
        s.awarded(DROP_POINTS as int)
    } else {
        s
    };
    lemma_moved_wf(paid, GameInput::Down);
    lemma_locked_wf(paid, fresh);
}

/// A hard drop keeps a well formed state well formed.
pub proof fn lemma_hard_dropped_wf(s: GameView, fresh: PieceView)
    requires
        s.wf(),
        fresh.wf(),
        inside(fresh),
    ensures
        s.hard_dropped(fresh).wf(),
{
    lemma_landing(s);
    lemma_locked_wf(s.landed().awarded(DROP_POINTS as int), fresh);
}

/// A hold keeps a well formed state well formed.
pub proof fn lemma_held_wf(s: GameView, fresh: PieceView, now: int)
    requires
        s.wf(),
        fresh.wf(),
        inside(fresh),
    ensures
        s.held(fresh, now).wf(),
{
    if let Some(h) = s.hold_piece {
        lemma_spawn_inside(h);
    }
}

/// The start of a game gives a well formed state.
pub proof fn lemma_started_wf(s: GameView, current: PieceView, next: PieceView, now: int)
    requires
        current.wf(),
        inside(current),
        next.wf(),
        inside(next),
    ensures
        s.started(current, next, now).wf(),
{
}

/// Every input keeps a well formed state well formed.
pub proof fn lemma_applied_wf(
    s: GameView,
    input: GameInput,
    first: PieceView,
    second: PieceView,
    now: int,
)
    requires
        s.wf(),
        first.wf(),
        inside(first),
        second.wf(),
        inside(second),
    ensures
        s.applied(input, first, second, now).wf(),
{
    lemma_soft_dropped_wf(s, true, first);
    lemma_moved_wf(s, input);
    lemma_rotated_wf(s, input);
    lemma_hard_dropped_wf(s, first);
    lemma_held_wf(s, first, now);
    lemma_started_wf(s, first, second, now);
}

/// A tick keeps a well formed state well formed.
pub proof fn lemma_ticked_wf(s: GameView, now: int, fresh: PieceView)
    requires
        s.wf(),
        fresh.wf(),
        inside(fresh),
    ensures
        s.ticked(now, fresh).wf(),
{
    lemma_soft_dropped_wf(s, false, fresh);
}

} // verus!
