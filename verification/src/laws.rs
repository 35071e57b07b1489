//! What holds of the rules whatever the player does.

use vstd::prelude::*;
use crate::board::{
    blocked, clear_points, collides, empty_grid, empty_row, full_rows, grid_wf, inside,
    lemma_filter_all, lemma_filter_one, lemma_inside_bounds, remove_row, row_full, row_kept,
    settle, Cell, Grid,
};
use crate::input::GameInput;
use crate::piece::{mask_bit, PieceKind, PieceView, SPAWN_X, SPAWN_Y};
use crate::rules::{lemma_landing, lemma_locked_wf, GameView, DROP_POINTS};

verus! {

/// The most points that one input or one tick can score: ten for each of the
/// at most twenty-two rows of a hard drop, ten for landing it, and forty
/// thousand for twenty rows cleared at once.
pub const MAX_AWARD: i32 = 40230;

/// The most lines that one lock can clear.
pub const MAX_LINES: i16 = 20;

impl GameView {
    /// Whether the current piece stands free: none of its cells lies off the
    /// board or on an occupied cell.
    pub open spec fn piece_free(self) -> bool {
        !self.collision_at(self.current_piece.x, self.current_piece.y)
    }

    /// Whether the counters leave room for whatever one input or one tick can
    /// add to them.
    pub open spec fn has_headroom(self) -> bool {
        &&& i32::MIN <= self.score <= i32::MAX - MAX_AWARD
        &&& i16::MIN <= self.lines_cleared_count <= i16::MAX - MAX_LINES
    }
}

/// Four rotation steps in one direction bring a piece back to the rotation
/// state, and so to the mask, that it started from.
pub proof fn lemma_four_turns(p: PieceView, dir: GameInput)
    requires
        p.wf(),
    ensures
        p.turned(dir).turned(dir).turned(dir).turned(dir) == p,
        p.turned(dir).turned(dir).turned(dir).turned(dir).mask() == p.mask(),
        p.turned(dir).wf(),
{
}

/// A rotation step to the left undoes one to the right, and the other way
/// round.
pub proof fn lemma_turn_back(p: PieceView)
    requires
        p.wf(),
    ensures
        p.turned(GameInput::RotateLeft).turned(GameInput::RotateRight) == p,
        p.turned(GameInput::RotateRight).turned(GameInput::RotateLeft) == p,
{
}

/// On an empty board a piece with its anchor at the spawn cell does not
/// collide, whatever its mask.
pub proof fn lemma_spawn_is_free(mask: u32)
    ensures
        !collides(empty_grid(), mask, SPAWN_X as int, SPAWN_Y as int),
{
    assert forall|i: int| 0 <= i < 16 && mask_bit(mask, i) implies !blocked(
        empty_grid(),
        SPAWN_X + i % 4,
        SPAWN_Y + i / 4,
    ) by {
        assert(empty_grid()[SPAWN_Y + i / 4] == empty_row());
        assert(empty_row()[SPAWN_X + i % 4] is None);
    }
}

/// On an empty board a piece of any kind does not collide as it enters.
pub proof fn lemma_kind_spawn_is_free(kind: PieceKind)
    ensures
        !collides(empty_grid(), kind.spawn().mask(), kind.spawn().x, kind.spawn().y),
{
    lemma_spawn_is_free(kind.spawn().mask());
}

/// A piece one of whose cells would lie off the board collides, whatever the
/// board holds. So it does for a cell that would lie beyond the right wall.
pub proof fn lemma_off_board_collides(g: Grid, mask: u32, x: int, y: int, i: int)
    requires
        0 <= i < 16,
        mask_bit(mask, i),
        x + i % 4 < 0 || x + i % 4 >= 10 || y + i / 4 < 0 || y + i / 4 >= 20,
    ensures
        collides(g, mask, x, y),
{
    assert(blocked(g, x + i % 4, y + i / 4));
}

/// A rotation that would put a cell of the piece beyond the right wall, or
/// off the board on any other side, changes nothing: neither the rotation
/// state nor the position.
pub proof fn lemma_rotate_at_wall(s: GameView, dir: GameInput, i: int)
    requires
        0 <= i < 16,
        mask_bit(s.current_piece.turned(dir).mask(), i),
        s.current_piece.x + i % 4 >= 10 || s.current_piece.x + i % 4 < 0 || s.current_piece.y + i
            / 4 >= 20 || s.current_piece.y + i / 4 < 0,
    ensures
        s.rotated(dir) == s,
{
    lemma_off_board_collides(
        s.board,
        s.current_piece.turned(dir).mask(),
        s.current_piece.x,
        s.current_piece.y,
        i,
    );
}

/// The points for clearing one to four rows at once.
pub proof fn lemma_clear_points_table()
    ensures
        clear_points(0) == 0,
        clear_points(1) == 100,
        clear_points(2) == 400,
        clear_points(3) == 900,
        clear_points(4) == 1600,
{
    assert(0 * 0 == 0 && 1 * 1 == 1 && 2 * 2 == 4 && 3 * 3 == 9 && 4 * 4 == 16) by (nonlinear_arith);
}

/// Where row `y` is the only full row, line clearing clears one row: every
/// row above `y` moves down by one, the top row becomes empty, and the rows
/// below `y` stay.
pub proof fn lemma_single_full_row(g: Grid, y: int)
    requires
        grid_wf(g),
        0 <= y < 20,
        row_full(g[y]),
        forall|j: int| 0 <= j < 20 && j != y ==> !row_full(#[trigger] g[j]),
    ensures
        full_rows(g) == 1,
        clear_points(full_rows(g)) == 100,
        settle(g) == remove_row(g, y),
        settle(g)[0] == empty_row(),
        forall|j: int| 0 < j <= y ==> #[trigger] settle(g)[j] == g[j - 1],
        forall|j: int| y < j < 20 ==> #[trigger] settle(g)[j] == g[j],
{
    let keep = row_kept();
    let above = g.subrange(0, y);
    let below = g.subrange(y + 1, 20);
    let mid = seq![g[y]];
    assert(g =~= above + mid + below);
    lemma_filter_all(above, keep);
    lemma_filter_all(below, keep);
    lemma_filter_one(g[y], keep);
    Seq::filter_distributes_over_add(above + mid, below, keep);
    Seq::filter_distributes_over_add(above, mid, keep);
    assert(above + Seq::<Seq<Cell>>::empty() =~= above);
    assert(g.filter(keep) =~= above + below);
    assert(settle(g) =~= remove_row(g, y));
    lemma_clear_points_table();
}

/// A second hold without a lock in between changes nothing.
pub proof fn lemma_hold_twice(
    s: GameView,
    first: PieceView,
    first_now: int,
    second: PieceView,
    second_now: int,
)
    ensures
        s.held(first, first_now).held(second, second_now) == s.held(first, first_now),
        s.held(first, first_now).has_held_a_piece,
{
}

/// The first hold since a piece entered sets the current piece aside.
pub proof fn lemma_hold_first(s: GameView, fresh: PieceView, now: int)
    requires
        !s.has_held_a_piece,
    ensures
        s.held(fresh, now).hold_piece == Some(s.current_piece),
        s.held(fresh, now).current_piece == match s.hold_piece {
            Some(h) => h.at_spawn(),
            None => s.next_piece,
        },
        s.held(fresh, now).board == s.board,
        s.held(fresh, now).score == s.score,
        s.held(fresh, now).phase == s.phase,
{
}

/// After a lock a hold has its effect again.
pub proof fn lemma_hold_after_lock(s: GameView, fresh: PieceView, other: PieceView, now: int)
    ensures
        !s.locked(fresh).has_held_a_piece,
        s.locked(fresh).held(other, now).hold_piece == Some(s.locked(fresh).current_piece),
{
}

/// After `Start`, from a state in which no game is played, a game is played
/// on an empty board, with no points, no lines and nothing set aside.
pub proof fn lemma_start(s: GameView, first: PieceView, second: PieceView, now: int)
    requires
        s.phase is NotStarted || s.phase is GameOver,
    ensures
        s.applied(GameInput::Start, first, second, now).board == empty_grid(),
        s.applied(GameInput::Start, first, second, now).score == 0,
        s.applied(GameInput::Start, first, second, now).lines_cleared_count == 0,
        s.applied(GameInput::Start, first, second, now).hold_piece is None,
        s.applied(GameInput::Start, first, second, now).phase is Playing,
        s.applied(GameInput::Start, first, second, now).current_piece == first,
        s.applied(GameInput::Start, first, second, now).next_piece == second,
{
}

/// While no game is played every input but `Start` is ignored, and while a
/// game is played `Start` is.
pub proof fn lemma_ignored_inputs(
    s: GameView,
    input: GameInput,
    first: PieceView,
    second: PieceView,
    now: int,
)
    requires
        (s.phase is Playing) == (input is Start),
    ensures
        s.applied(input, first, second, now) == s,
{
}

/// A game ends only by a lock: a step, a rotation and a hold leave the phase
/// as it is.
pub proof fn lemma_phase_kept(s: GameView, dir: GameInput, fresh: PieceView, now: int)
    ensures
        s.moved(dir).phase == s.phase,
        s.rotated(dir).phase == s.phase,
        s.held(fresh, now).phase == s.phase,
{
}

/// No lock, drop or tick takes points or lines away.
pub proof fn lemma_counters_grow(s: GameView, is_holding_down: bool, fresh: PieceView, now: int)
    requires
        s.wf(),
        fresh.wf(),
        inside(fresh),
    ensures
        s.score <= s.locked(fresh).score <= s.score + 40000,
        s.score <= s.soft_dropped(is_holding_down, fresh).score <= s.score + 40010,
        s.score + DROP_POINTS <= s.hard_dropped(fresh).score <= s.score + MAX_AWARD,
        s.score <= s.ticked(now, fresh).score <= s.score + 40000,
        s.lines_cleared_count <= s.locked(fresh).lines_cleared_count <= s.lines_cleared_count
            + MAX_LINES,
        s.lines_cleared_count <= s.soft_dropped(is_holding_down, fresh).lines_cleared_count
            <= s.lines_cleared_count + MAX_LINES,
        s.lines_cleared_count <= s.hard_dropped(fresh).lines_cleared_count
            <= s.lines_cleared_count + MAX_LINES,
        s.lines_cleared_count <= s.ticked(now, fresh).lines_cleared_count <= s.lines_cleared_count
            + MAX_LINES,
{
    lemma_locked_wf(s, fresh);
    lemma_locked_wf(s.awarded(DROP_POINTS as int), fresh);
    lemma_landing(s);
    lemma_inside_bounds(s.current_piece);
    lemma_locked_wf(s.landed().awarded(DROP_POINTS as int), fresh);
}

/// Points and lines never go down but by the start of a new game, and one
/// input adds no more than the counters have room for where they have
/// headroom.
pub proof fn lemma_input_counters(
    s: GameView,
    input: GameInput,
    first: PieceView,
    second: PieceView,
    now: int,
)
    requires
        s.wf(),
        first.wf(),
        inside(first),
        second.wf(),
        inside(second),
    ensures
        s.phase is Playing ==> s.score <= s.applied(input, first, second, now).score <= s.score
            + MAX_AWARD,
        s.phase is Playing ==> s.lines_cleared_count <= s.applied(
            input,
            first,
            second,
            now,
        ).lines_cleared_count <= s.lines_cleared_count + MAX_LINES,
        !(input is Start) ==> s.score <= s.applied(input, first, second, now).score,
        !(input is Start) ==> s.lines_cleared_count <= s.applied(
            input,
            first,
            second,
            now,
        ).lines_cleared_count,
        s.has_headroom() ==> s.applied(input, first, second, now).fits(),
        s.has_headroom() ==> s.ticked(now, first).fits(),
{
    lemma_counters_grow(s, true, first, now);
    lemma_counters_grow(s, false, first, now);
}

/// While a game is played the current piece stands free, unless a hold put
/// it where it stands: a step, a rotation, a drop, a lock and a tick keep
/// this so, and a start makes it so. A lock that would break it ends the game
/// instead.
pub proof fn lemma_piece_stays_free(
    s: GameView,
    input: GameInput,
    first: PieceView,
    second: PieceView,
    now: int,
)
    requires
        s.wf(),
        s.phase is Playing ==> s.piece_free(),
        !(input is Hold),
        first.wf(),
        inside(first),
        second.wf(),
        inside(second),
    ensures
        s.applied(input, first, second, now).phase is Playing ==> s.applied(
            input,
            first,
            second,
            now,
        ).piece_free(),
        s.ticked(now, first).phase is Playing ==> s.ticked(now, first).piece_free(),
{
    lemma_spawn_is_free(first.mask());
    lemma_landing(s);
    if input is Start && !(s.phase is Playing) {
        // the piece enters an empty board, on which whatever lies inside is free
        assert forall|i: int| 0 <= i < 16 && mask_bit(first.mask(), i) implies !blocked(
            empty_grid(),
            first.x + i % 4,
            first.y + i / 4,
        ) by {
            assert(empty_grid()[first.y + i / 4] == empty_row());
            assert(empty_row()[first.x + i % 4] is None);
        }
    }
}

} // verus!
