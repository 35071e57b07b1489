//! The board: a grid of ten columns and twenty rows of cells, each empty or
//! holding a color, and what the rules ask of a grid.
//!
//! In specifications a grid is a sequence of rows from the top down, each row
//! a sequence of cells from the left: the cell in column `x` of row `y` is
//! `grid[y][x]`.

use vstd::prelude::*;
use crate::piece::{mask_bit, mask_has, mask_nonempty, Piece, PieceColor, PieceView, MASK_CELLS};

verus! {

/// A cell: empty, or occupied with a color.
pub type Cell = Option<PieceColor>;

/// A grid as the rules see it.
pub type Grid = Seq<Seq<Cell>>;

/// A grid is well formed when it has twenty rows of ten cells.
pub open spec fn grid_wf(g: Grid) -> bool {
    &&& g.len() == 20
    &&& forall|y: int| 0 <= y < 20 ==> (#[trigger] g[y]).len() == 10
}

/// A row without any occupied cell.
pub open spec fn empty_row() -> Seq<Cell> {
    Seq::new(10, |x: int| None)
}

/// `n` empty rows.
pub open spec fn empty_rows(n: int) -> Grid {
    Seq::new(n as nat, |y: int| empty_row())
}

/// The grid without any occupied cell.
pub open spec fn empty_grid() -> Grid {
    empty_rows(20)
}

/// Whether nothing can be put at `(cx, cy)`: the cell lies outside the grid,
/// on any side, or is occupied.
pub open spec fn blocked(g: Grid, cx: int, cy: int) -> bool {
    cx < 0 || cx >= 10 || cy < 0 || cy >= 20 || g[cy][cx] is Some
}

/// Whether a piece with the mask `mask` and its anchor at `(x, y)` collides:
/// one of its cells is blocked.
pub open spec fn collides(g: Grid, mask: u32, x: int, y: int) -> bool {
    exists|i: int| 0 <= i < 16 && mask_bit(mask, i) && blocked(g, x + i % 4, y + i / 4)
}

/// Whether every cell of the piece lies on the board.
pub open spec fn inside(p: PieceView) -> bool {
    forall|i: int|
        0 <= i < 16 && mask_bit(p.mask(), i) ==> 0 <= p.x + i % 4 < 10 && 0 <= p.y + i / 4 < 20
}

/// The first row at or below `y` at which a piece with the mask `mask` in
/// column `x` collides. A mask with a cell collides below the board at the
/// latest, so the search ends at row twenty.
pub open spec fn first_blocked_y(g: Grid, mask: u32, x: int, y: int) -> int
    decreases 20 - y,
{
    if y >= 20 || collides(g, mask, x, y) {
        y
    } else {
        first_blocked_y(g, mask, x, y + 1)
    }
}

/// The grid after the cells of `p` have taken the color of `p`.
pub open spec fn place(g: Grid, p: PieceView) -> Grid {
    Seq::new(
        20,
        |cy: int|
            Seq::new(
                10,
                |cx: int|
                    if p.covers(cx, cy) {
                        Some(p.piece_color)
                    } else {
                        g[cy][cx]
                    },
            ),
    )
}

/// A row is full when each of its ten cells is occupied.
pub open spec fn row_full(row: Seq<Cell>) -> bool {
    forall|x: int| 0 <= x < 10 ==> (#[trigger] row[x]) is Some
}

/// The test that line clearing keeps a row by: the row is not full.
pub open spec fn row_kept() -> spec_fn(Seq<Cell>) -> bool {
    |row: Seq<Cell>| !row_full(row)
}

/// The rows that line clearing keeps, in their order.
pub open spec fn kept_rows(g: Grid) -> Grid {
    g.filter(row_kept())
}

/// The number of full rows.
pub open spec fn full_rows(g: Grid) -> int {
    g.len() - kept_rows(g).len()
}

/// The grid after line clearing: the rows that are not full, in their order,
/// at the bottom, under as many empty rows as there were full ones.
pub open spec fn settle(g: Grid) -> Grid {
    empty_rows(full_rows(g)) + kept_rows(g)
}

/// The grid after row `y` alone has been cleared: the rows above it have
/// moved down by one and the top row is empty.
pub open spec fn remove_row(g: Grid, y: int) -> Grid {
    seq![empty_row()] + g.subrange(0, y) + g.subrange(y + 1, g.len() as int)
}

/// The points for clearing `n` rows at once.
pub open spec fn clear_points(n: int) -> int {
    n * n * 100
}

/// A sequence of which every item passes a test is its own filter.
pub proof fn lemma_filter_all<A>(s: Seq<A>, pred: spec_fn(A) -> bool)
    requires
        forall|i: int| 0 <= i < s.len() ==> pred(#[trigger] s[i]),
    ensures
        s.filter(pred) == s,
    decreases s.len(),
{
    reveal(Seq::filter);
    if s.len() > 0 {
        lemma_filter_all(s.drop_last(), pred);
        assert(s.drop_last().push(s.last()) =~= s);
    }
}

/// The filter of a sequence of one item.
pub proof fn lemma_filter_one<A>(a: A, pred: spec_fn(A) -> bool)
    ensures
        seq![a].filter(pred) == if pred(a) {
            seq![a]
        } else {
            Seq::<A>::empty()
        },
{
    reveal_with_fuel(Seq::filter, 2);
    let s = seq![a];
    assert(s.drop_last() =~= Seq::<A>::empty());
    assert(s.drop_last().filter(pred) =~= Seq::<A>::empty());
    assert(Seq::<A>::empty().push(a) =~= s);
}

/// An empty row is not full.
pub proof fn lemma_empty_row_kept()
    ensures
        !row_full(empty_row()),
        row_kept()(empty_row()),
        empty_row().len() == 10,
{
    assert(empty_row()[0] is None);
}

/// Clearing one full row leaves the kept rows as they were, under one more
/// empty row.
pub proof fn lemma_remove_row_kept(g: Grid, y: int)
    requires
        0 <= y < g.len(),
        row_full(g[y]),
    ensures
        kept_rows(remove_row(g, y)) == seq![empty_row()] + kept_rows(g),
        remove_row(g, y).len() == g.len(),
{
    let keep = row_kept();
    let above = g.subrange(0, y);
    let below = g.subrange(y + 1, g.len() as int);
    let top = seq![empty_row()];
    let mid = seq![g[y]];
    lemma_empty_row_kept();
    lemma_filter_one(empty_row(), keep);
    lemma_filter_one(g[y], keep);
    assert(g =~= above + mid + below);
    Seq::filter_distributes_over_add(above + mid, below, keep);
    Seq::filter_distributes_over_add(above, mid, keep);
    Seq::filter_distributes_over_add(top + above, below, keep);
    Seq::filter_distributes_over_add(top, above, keep);
    assert(above.filter(keep) + mid.filter(keep) =~= above.filter(keep));
    assert((top + above + below).filter(keep) =~= top + (above.filter(keep) + below.filter(keep)));
}

/// Line clearing keeps a grid well formed, and clears between zero and twenty
/// rows.
pub proof fn lemma_settle_wf(g: Grid)
    requires
        grid_wf(g),
    ensures
        grid_wf(settle(g)),
        0 <= full_rows(g) <= 20,
        forall|y: int| 0 <= y < 20 ==> !row_full(#[trigger] settle(g)[y]),
{
    let keep = row_kept();
    let kept = kept_rows(g);
    g.lemma_filter_len(keep);
    lemma_empty_row_kept();
    let s = settle(g);
    assert forall|y: int| 0 <= y < 20 implies (#[trigger] s[y]).len() == 10 && !row_full(s[y]) by {
        if y >= full_rows(g) {
            let k = y - full_rows(g);
            assert(s[y] == kept[k]);
            g.lemma_filter_pred(keep, k);
            assert(kept.contains(kept[k]));
            g.lemma_filter_contains_rev(keep, kept[k]);
            let j = choose|j: int| 0 <= j < g.len() && g[j] == kept[k];
            assert(g[j].len() == 10);
        } else {
            assert(s[y] == empty_row());
        }
    }
}

/// A grid without a full row is left as it is by line clearing.
pub proof fn lemma_settle_nothing(g: Grid)
    requires
        forall|y: int| 0 <= y < g.len() ==> !row_full(#[trigger] g[y]),
    ensures
        kept_rows(g) == g,
        full_rows(g) == 0,
        settle(g) == g,
{
    lemma_filter_all(g, row_kept());
    assert(empty_rows(0) + g =~= g);
}

/// A piece that does not collide lies on the board.
pub proof fn lemma_free_is_inside(g: Grid, p: PieceView)
    requires
        !collides(g, p.mask(), p.x, p.y),
    ensures
        inside(p),
{
    assert forall|i: int| 0 <= i < 16 && mask_bit(p.mask(), i) implies 0 <= p.x + i % 4 < 10 && 0
        <= p.y + i / 4 < 20 by {
        assert(!blocked(g, p.x + i % 4, p.y + i / 4));
    }
}

/// A piece with a cell that lies on the board has its anchor at most three
/// cells off the board to the left and above, and on the board otherwise.
pub proof fn lemma_inside_bounds(p: PieceView)
    requires
        mask_nonempty(p.mask()),
        inside(p),
    ensures
        -3 <= p.x <= 9,
        -3 <= p.y <= 19,
{
    let i = choose|i: int| 0 <= i < 16 && mask_bit(p.mask(), i);
    assert(0 <= p.x + i % 4 < 10 && 0 <= p.y + i / 4 < 20);
}

/// A piece with a cell collides wherever its anchor is below the last row.
pub proof fn lemma_collides_below(g: Grid, mask: u32, x: int, y: int)
    requires
        mask_nonempty(mask),
        y >= 20,
    ensures
        collides(g, mask, x, y),
{
    let i = choose|i: int| 0 <= i < 16 && mask_bit(mask, i);
    assert(blocked(g, x + i % 4, y + i / 4));
}

/// What the first blocked row is: no row from `y` up to it is blocked, and it
/// is blocked itself, for a mask with a cell.
pub proof fn lemma_first_blocked(g: Grid, mask: u32, x: int, y: int)
    requires
        y <= 20,
    ensures
        y <= first_blocked_y(g, mask, x, y) <= 20,
        forall|row: int| y <= row < first_blocked_y(g, mask, x, y) ==> !collides(g, mask, x, row),
        mask_nonempty(mask) ==> collides(g, mask, x, first_blocked_y(g, mask, x, y)),
    decreases 20 - y,
{
    if y >= 20 {
        if mask_nonempty(mask) {
            lemma_collides_below(g, mask, x, y);
        }
    } else if !collides(g, mask, x, y) {
        lemma_first_blocked(g, mask, x, y + 1);
    }
}

/// The board: the cells by column and, within a column, by row.
#[derive(Clone, Copy, Debug, PartialEq, Eq)]
pub struct Board {
    pub cells: [[Option<PieceColor>; 20]; 10],
}

impl View for Board {
    type V = Grid;

    open spec fn view(&self) -> Grid {
        Seq::new(20, |y: int| Seq::new(10, |x: int| self.cells[x][y]))
    }
}

impl Board {
    /// A board without any occupied cell.
    pub fn new() -> (b: Board)
        ensures
            b@ == empty_grid(),
    {
        let b = Board { cells: [[None; 20]; 10] };
        assert(b@ =~~= empty_grid());
        b
    }

    /// The cell in column `x` of row `y`.
    pub fn get(&self, x: usize, y: usize) -> (c: Option<PieceColor>)
        requires
            x < 10,
            y < 20,
        ensures
            c == self@[y as int][x as int],
    {
        self.cells[x][y]
    }

    /// Puts `c` into the cell in column `x` of row `y`.
    pub fn set(&mut self, x: usize, y: usize, c: Option<PieceColor>)
        requires
            x < 10,
            y < 20,
        ensures
            final(self)@ == old(self)@.update(y as int, old(self)@[y as int].update(x as int, c)),
    {
        self.cells[x][y] = c;
        assert(self@ =~~= old(self)@.update(y as int, old(self)@[y as int].update(x as int, c)));
    }

    /// Empties every cell.
    pub fn clear(&mut self)
        ensures
            final(self)@ == empty_grid(),
    {
        self.cells = [[None; 20]; 10];
        assert(self@ =~~= empty_grid());
    }

    /// Whether nothing can be put at `(cx, cy)`.
    pub fn is_blocked(&self, cx: i16, cy: i16) -> (b: bool)
        ensures
            b == blocked(self@, cx as int, cy as int),
    {
        if cx < 0 || cx >= 10 || cy < 0 || cy >= 20 {
            true
        } else {
            self.cells[cx as usize][cy as usize].is_some()
        }
    }
}

/// Whether every cell of the piece lies on the board.
pub fn piece_is_inside(p: &Piece) -> (b: bool)
    requires
        0 <= p.rotation_state < 4,
    ensures
        b == inside(p@),
{
    let mask: u32 = p.get_rotation_state();
    let mut b: bool = true;
    let mut i: u32 = 0;
    while i < MASK_CELLS
        invariant
            i <= 16,
            mask == p@.mask(),
            b == (forall|j: int|
                0 <= j < i && mask_bit(mask, j) ==> 0 <= p@.x + j % 4 < 10 && 0 <= p@.y + j / 4
                    < 20),
        decreases 16 - i,
    {
        if mask_has(mask, i) {
            let cx: i16 = p.x as i16 + (i % 4) as i16;
            let cy: i16 = p.y as i16 + (i / 4) as i16;
            if cx < 0 || cx >= 10 || cy < 0 || cy >= 20 {
                b = false;
            }
        }
        i = i + 1;
    }
    b
}

} // verus!
