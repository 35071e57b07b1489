//! Pieces: the seven kinds, their occupancy masks and a piece in play.
//!
//! A mask describes a 4x4 box, row by row from the top left. Cell `i` of the
//! box (`0 <= i < 16`) stands in column `i % 4` and row `i / 4`, and is kept
//! in bit `15 - i` of the mask, so that the most significant of the sixteen
//! bits is the top left cell.

use vstd::prelude::*;
use crate::input::GameInput;
use crate::random::random_in_range;

verus! {

/// Column of the anchor of a piece that enters the board.
pub const SPAWN_X: i8 = 4;

/// Row of the anchor of a piece that enters the board.
pub const SPAWN_Y: i8 = 0;

/// Number of cells in the box of a mask.
pub const MASK_CELLS: u32 = 16;

/// Number of piece kinds.
pub const KIND_COUNT: i32 = 7;

/// The colors a cell can be shown in.
#[derive(Clone, Copy, Debug, PartialEq, Eq, Structural)]
pub enum PieceColor {
    /// Color of `Z`.
    Red,
    /// Color of `O`.
    Yellow,
    /// Color of `J`.
    Blue,
    /// Color of `I`.
    Cyan,
    /// Color of `L`.
    Orange,
    /// Color of `S`.
    Green,
    /// Color of `T`.
    Purple,
    /// Background of the board.
    Black,
    /// Color of the drop shadow.
    Gray,
}

/// The seven tetrominoes.
#[derive(Clone, Copy, Debug, PartialEq, Eq, Structural)]
pub enum PieceKind {
    I,
    J,
    L,
    O,
    S,
    T,
    Z,
}

/// Whether cell `i` of the box is set in `mask`.
pub open spec fn mask_bit(mask: u32, i: int) -> bool {
    mask & (0x8000u32 >> (i as u32)) != 0
}

/// Whether `mask` has at least one cell.
pub open spec fn mask_nonempty(mask: u32) -> bool {
    exists|i: int| 0 <= i < 16 && mask_bit(mask, i)
}

/// The rotation index that follows `r` under `dir`: one step back for
/// `RotateLeft`, one step on for `RotateRight`, `r` itself for any other input.
pub open spec fn turned_index(r: int, dir: GameInput) -> int {
    match dir {
        GameInput::RotateLeft => (r + 3) % 4,
        GameInput::RotateRight => (r + 1) % 4,
        _ => r,
    }
}

/// The offsets, in scan order, of the cells among the first `n` of the box
/// that are set in `mask`: column first, then row.
pub open spec fn mask_offsets_upto(mask: u32, n: int) -> Seq<(u8, u8)>
    decreases n,
{
    if n <= 0 {
        Seq::empty()
    } else if mask_bit(mask, n - 1) {
        mask_offsets_upto(mask, n - 1).push((((n - 1) % 4) as u8, ((n - 1) / 4) as u8))
    } else {
        mask_offsets_upto(mask, n - 1)
    }
}

/// The offsets of all cells of `mask`, in scan order.
pub open spec fn mask_offsets(mask: u32) -> Seq<(u8, u8)> {
    mask_offsets_upto(mask, 16)
}

impl PieceKind {
    /// The four masks of the kind, one for each rotation state.
    pub open spec fn masks(self) -> [u32; 4] {
        match self {
            PieceKind::I => [0x00F0u32, 0x2222u32, 0x00F0u32, 0x2222u32],
            PieceKind::J => [0x44C0u32, 0x8E00u32, 0x6440u32, 0x0E20u32],
            PieceKind::L => [0x4460u32, 0x0E80u32, 0xC440u32, 0x2E00u32],
            PieceKind::O => [0xCC00u32, 0xCC00u32, 0xCC00u32, 0xCC00u32],
            PieceKind::S => [0x06C0u32, 0x4620u32, 0x06C0u32, 0x4620u32],
            PieceKind::T => [0x0E40u32, 0x4C40u32, 0x4E00u32, 0x4640u32],
            PieceKind::Z => [0x0C60u32, 0x2640u32, 0x0C60u32, 0x2640u32],
        }
    }

    /// The color of the kind.
    pub open spec fn color(self) -> PieceColor {
        match self {
            PieceKind::I => PieceColor::Cyan,
            PieceKind::J => PieceColor::Blue,
            PieceKind::L => PieceColor::Orange,
            PieceKind::O => PieceColor::Yellow,
            PieceKind::S => PieceColor::Green,
            PieceKind::T => PieceColor::Purple,
            PieceKind::Z => PieceColor::Red,
        }
    }

    /// The kind that a draw `n` selects: the kinds in the order
    /// `I, J, L, O, S, T, Z` for `0` to `6`, and `I` for any other number.
    pub open spec fn of_index(n: int) -> PieceKind {
        if n == 1 {
            PieceKind::J
        } else if n == 2 {
            PieceKind::L
        } else if n == 3 {
            PieceKind::O
        } else if n == 4 {
            PieceKind::S
        } else if n == 5 {
            PieceKind::T
        } else if n == 6 {
            PieceKind::Z
        } else {
            PieceKind::I
        }
    }

    /// The piece of this kind as it enters the board: first rotation state,
    /// anchor at the spawn cell.
    pub open spec fn spawn(self) -> PieceView {
        PieceView {
            rotation_state: 0,
            x: SPAWN_X as int,
            y: SPAWN_Y as int,
            rotation: self.masks()@,
            piece_color: self.color(),
        }
    }

    /// The four masks of the kind.
    pub fn rotation_masks(self) -> (m: [u32; 4])
        ensures
            m == self.masks(),
    {
        match self {
            PieceKind::I => [0x00F0u32, 0x2222u32, 0x00F0u32, 0x2222u32],
            PieceKind::J => [0x44C0u32, 0x8E00u32, 0x6440u32, 0x0E20u32],
            PieceKind::L => [0x4460u32, 0x0E80u32, 0xC440u32, 0x2E00u32],
            PieceKind::O => [0xCC00u32, 0xCC00u32, 0xCC00u32, 0xCC00u32],
            PieceKind::S => [0x06C0u32, 0x4620u32, 0x06C0u32, 0x4620u32],
            PieceKind::T => [0x0E40u32, 0x4C40u32, 0x4E00u32, 0x4640u32],
            PieceKind::Z => [0x0C60u32, 0x2640u32, 0x0C60u32, 0x2640u32],
        }
    }

    /// The color of the kind.
    pub fn piece_color(self) -> (c: PieceColor)
        ensures
            c == self.color(),
    {
        match self {
            PieceKind::I => PieceColor::Cyan,
            PieceKind::J => PieceColor::Blue,
            PieceKind::L => PieceColor::Orange,
            PieceKind::O => PieceColor::Yellow,
            PieceKind::S => PieceColor::Green,
            PieceKind::T => PieceColor::Purple,
            PieceKind::Z => PieceColor::Red,
        }
    }

    /// The kind that a draw `n` selects.
    pub fn from_index(n: i32) -> (kind: PieceKind)
        ensures
            kind == PieceKind::of_index(n as int),
    {
        match n {
            1 => PieceKind::J,
            2 => PieceKind::L,
            3 => PieceKind::O,
            4 => PieceKind::S,
            5 => PieceKind::T,
            6 => PieceKind::Z,
            _ => PieceKind::I,
        }
    }
}

/// A piece as the rules see it: unbounded coordinates, and the masks as a
/// sequence.
#[verifier::ext_equal]
pub struct PieceView {
    pub rotation_state: int,
    pub x: int,
    pub y: int,
    pub rotation: Seq<u32>,
    pub piece_color: PieceColor,
}

impl PieceView {
    /// A piece is well formed when its rotation state selects one of its four
    /// masks and each of the four has a cell.
    pub open spec fn wf(self) -> bool {
        &&& 0 <= self.rotation_state < 4
        &&& self.rotation.len() == 4
        &&& forall|r: int| 0 <= r < 4 ==> mask_nonempty(#[trigger] self.rotation[r])
    }

    /// The mask of the current rotation state.
    pub open spec fn mask(self) -> u32 {
        self.rotation[self.rotation_state]
    }

    /// Whether the piece occupies the board cell `(cx, cy)`.
    pub open spec fn covers(self, cx: int, cy: int) -> bool {
        &&& 0 <= cx - self.x < 4
        &&& 0 <= cy - self.y < 4
        &&& mask_bit(self.mask(), (cy - self.y) * 4 + (cx - self.x))
    }

    /// Whether the piece occupies the board cell `(cx, cy)` with one of the
    /// first `k` cells of its box.
    pub open spec fn covers_upto(self, k: int, cx: int, cy: int) -> bool {
        self.covers(cx, cy) && (cy - self.y) * 4 + (cx - self.x) < k
    }

    /// The same piece with its anchor at `(x, y)`.
    pub open spec fn at(self, x: int, y: int) -> PieceView {
        PieceView { x, y, ..self }
    }

    /// The same piece with its anchor at the spawn cell.
    pub open spec fn at_spawn(self) -> PieceView {
        self.at(SPAWN_X as int, SPAWN_Y as int)
    }

    /// The same piece after one rotation step in the direction `dir`.
    pub open spec fn turned(self, dir: GameInput) -> PieceView {
        PieceView { rotation_state: turned_index(self.rotation_state, dir), ..self }
    }
}

/// One cell of each mask in the table of the kinds.
proof fn lemma_table_cells()
    by (bit_vector)
    ensures
        0x00F0u32 & (0x8000u32 >> 8u32) != 0,
        0x2222u32 & (0x8000u32 >> 2u32) != 0,
        0x44C0u32 & (0x8000u32 >> 1u32) != 0,
        0x8E00u32 & (0x8000u32 >> 0u32) != 0,
        0x6440u32 & (0x8000u32 >> 1u32) != 0,
        0x0E20u32 & (0x8000u32 >> 4u32) != 0,
        0x4460u32 & (0x8000u32 >> 1u32) != 0,
        0x0E80u32 & (0x8000u32 >> 4u32) != 0,
        0xC440u32 & (0x8000u32 >> 0u32) != 0,
        0x2E00u32 & (0x8000u32 >> 2u32) != 0,
        0xCC00u32 & (0x8000u32 >> 0u32) != 0,
        0x06C0u32 & (0x8000u32 >> 5u32) != 0,
        0x4620u32 & (0x8000u32 >> 1u32) != 0,
        0x0E40u32 & (0x8000u32 >> 4u32) != 0,
        0x4C40u32 & (0x8000u32 >> 1u32) != 0,
        0x4E00u32 & (0x8000u32 >> 1u32) != 0,
        0x4640u32 & (0x8000u32 >> 1u32) != 0,
        0x0C60u32 & (0x8000u32 >> 4u32) != 0,
        0x2640u32 & (0x8000u32 >> 2u32) != 0,
{
}

/// Each mask of each kind has a cell: a piece of any kind is well formed as
/// it enters the board.
pub proof fn lemma_kind_wf(kind: PieceKind)
    ensures
        kind.spawn().wf(),
{
    lemma_table_cells();
    let p = kind.spawn();
    assert forall|r: int| 0 <= r < 4 implies mask_nonempty(#[trigger] p.rotation[r]) by {
        let m = p.rotation[r];
        assert(mask_bit(m, 0) || mask_bit(m, 1) || mask_bit(m, 2) || mask_bit(m, 4) || mask_bit(
            m,
            5,
        ) || mask_bit(m, 8));
    }
}

/// A piece in play: its kind's masks and color, its rotation state and the
/// board cell of the top left corner of its box.
#[derive(Clone, Copy, Debug, PartialEq, Eq)]
pub struct Piece {
    /// Which of the four masks is in use.
    pub rotation_state: i8,
    /// Board column of the left edge of the box.
    pub x: i8,
    /// Board row of the top edge of the box.
    pub y: i8,
    /// The masks, one for each rotation state.
    pub rotation: [u32; 4],
    /// The color the piece leaves on the board.
    pub piece_color: PieceColor,
}

impl View for Piece {
    type V = PieceView;

    open spec fn view(&self) -> PieceView {
        PieceView {
            rotation_state: self.rotation_state as int,
            x: self.x as int,
            y: self.y as int,
            rotation: self.rotation@,
            piece_color: self.piece_color,
        }
    }
}

/// Whether cell `i` of the box is set in `mask`.
pub fn mask_has(mask: u32, i: u32) -> (b: bool)
    requires
        i < 16,
    ensures
        b == mask_bit(mask, i as int),
{
    mask & (0x8000u32 >> i) != 0
}

/// Whether `mask` has at least one cell.
pub fn mask_has_cell(mask: u32) -> (b: bool)
    ensures
        b == mask_nonempty(mask),
{
    let mut found: bool = false;
    let mut i: u32 = 0;
    while i < MASK_CELLS
        invariant
            i <= 16,
            found == (exists|j: int| 0 <= j < i && mask_bit(mask, j)),
        decreases 16 - i,
    {
        if mask_has(mask, i) {
            found = true;
        }
        i = i + 1;
    }
    found
}

/// The offsets of the cells of `mask` inside its box, in scan order: for each
/// cell its column and its row, both from `0` to `3`.
pub fn mask_cells(mask: u32) -> (cells: Vec<(u8, u8)>)
    ensures
        cells@ == mask_offsets(mask),
{
    let mut cells: Vec<(u8, u8)> = Vec::new();
    let mut i: u32 = 0;
    while i < MASK_CELLS
        invariant
            i <= 16,
            cells@ == mask_offsets_upto(mask, i as int),
        decreases 16 - i,
    {
        if mask_has(mask, i) {
            cells.push(((i % 4) as u8, (i / 4) as u8));
        }
        i = i + 1;
    }
    cells
}

impl Piece {
    /// A piece with the given color and masks as it enters the board: first
    /// rotation state, anchor at the spawn cell.
    pub fn new(piece_color: PieceColor, rotation: [u32; 4]) -> (p: Piece)
        ensures
            p@ == (PieceView {
                rotation_state: 0,
                x: SPAWN_X as int,
                y: SPAWN_Y as int,
                rotation: rotation@,
                piece_color,
            }),
            p.rotation == rotation,
    {
        Piece { rotation_state: 0, x: SPAWN_X, y: SPAWN_Y, rotation, piece_color }
    }

    /// The mask of the current rotation state.
    pub fn get_rotation_state(&self) -> (mask: u32)
        requires
            0 <= self.rotation_state < 4,
        ensures
            mask == self@.mask(),
    {
        self.rotation[self.rotation_state as usize]
    }

    /// A piece of the given kind as it enters the board.
    pub fn from_kind(kind: PieceKind) -> (p: Piece)
        ensures
            p@ == kind.spawn(),
    {
        Piece::new(kind.piece_color(), kind.rotation_masks())
    }

    /// The piece that a draw `n` selects, as it enters the board.
    pub fn from_index(n: i32) -> (p: Piece)
        ensures
            p@ == PieceKind::of_index(n as int).spawn(),
    {
        Piece::from_kind(PieceKind::from_index(n))
    }

    /// A piece of a kind drawn at random, each of the seven kinds being as
    /// likely as any other, as it enters the board.
    pub fn get_piece() -> (p: Piece)
        ensures
            exists|kind: PieceKind| p@ == #[trigger] kind.spawn(),
    {
        let n: i32 = random_in_range(0, KIND_COUNT);
        Piece::from_index(n)
    }

    /// Whether the piece is well formed.
    pub fn is_wf(&self) -> (b: bool)
        ensures
            b == self@.wf(),
    {
        if self.rotation_state < 0 || self.rotation_state >= 4 {
            return false;
        }
        let mut r: usize = 0;
        while r < 4
            invariant
                r <= 4,
                forall|q: int| 0 <= q < r ==> mask_nonempty(#[trigger] self.rotation@[q]),
            decreases 4 - r,
        {
            if !mask_has_cell(self.rotation[r]) {
                return false;
            }
            r = r + 1;
        }
        true
    }
}

} // verus!
