use tetris::piece::{mask_cells, mask_has, mask_has_cell};
use tetris::{GameInput, Piece, PieceColor, PieceKind};

const ALL_KINDS: [PieceKind; 7] = [
    PieceKind::I,
    PieceKind::J,
    PieceKind::L,
    PieceKind::O,
    PieceKind::S,
    PieceKind::T,
    PieceKind::Z,
];

fn turn_index(r: i8, dir: GameInput) -> i8 {
    match dir {
        GameInput::RotateLeft => (r + 3) % 4,
        GameInput::RotateRight => (r + 1) % 4,
        _ => r,
    }
}

#[test]
fn new_piece_stands_at_the_spawn_cell() {
    let p = Piece::new(PieceColor::Purple, [1, 2, 3, 4]);
    assert_eq!(p.rotation_state, 0);
    assert_eq!(p.x, 4);
    assert_eq!(p.y, 0);
    assert_eq!(p.rotation, [1, 2, 3, 4]);
    assert_eq!(p.piece_color, PieceColor::Purple);
}

#[test]
fn rotation_state_selects_the_mask() {
    let mut p = Piece::new(PieceColor::Blue, [0x44C0, 0x8E00, 0x6440, 0x0E20]);
    assert_eq!(p.get_rotation_state(), 0x44C0);
    p.rotation_state = 1;
    assert_eq!(p.get_rotation_state(), 0x8E00);
    p.rotation_state = 2;
    assert_eq!(p.get_rotation_state(), 0x6440);
    p.rotation_state = 3;
    assert_eq!(p.get_rotation_state(), 0x0E20);
}

#[test]
fn kinds_have_their_masks_and_colors() {
    let table: [(PieceKind, PieceColor, [u32; 4]); 7] = [
        (PieceKind::I, PieceColor::Cyan, [0x00F0, 0x2222, 0x00F0, 0x2222]),
        (PieceKind::J, PieceColor::Blue, [0x44C0, 0x8E00, 0x6440, 0x0E20]),
        (PieceKind::L, PieceColor::Orange, [0x4460, 0x0E80, 0xC440, 0x2E00]),
        (PieceKind::O, PieceColor::Yellow, [0xCC00, 0xCC00, 0xCC00, 0xCC00]),
        (PieceKind::S, PieceColor::Green, [0x06C0, 0x4620, 0x06C0, 0x4620]),
        (PieceKind::T, PieceColor::Purple, [0x0E40, 0x4C40, 0x4E00, 0x4640]),
        (PieceKind::Z, PieceColor::Red, [0x0C60, 0x2640, 0x0C60, 0x2640]),
    ];
    for (kind, color, masks) in table {
        assert_eq!(kind.piece_color(), color);
        assert_eq!(kind.rotation_masks(), masks);
        let p = Piece::from_kind(kind);
        assert_eq!(p, Piece::new(color, masks));
        assert!(p.is_wf());
    }
}

#[test]
fn no_two_kinds_share_their_masks() {
    for a in ALL_KINDS {
        for b in ALL_KINDS {
            if a != b {
                assert_ne!(a.rotation_masks(), b.rotation_masks());
            }
        }
    }
}

#[test]
fn every_mask_of_every_kind_has_four_cells() {
    for kind in ALL_KINDS {
        for mask in kind.rotation_masks() {
            assert_eq!(mask_cells(mask).len(), 4);
            assert_eq!(mask.count_ones(), 4);
            assert!(mask_has_cell(mask));
        }
    }
}

#[test]
fn index_selects_the_kind() {
    assert_eq!(PieceKind::from_index(0), PieceKind::I);
    assert_eq!(PieceKind::from_index(1), PieceKind::J);
    assert_eq!(PieceKind::from_index(2), PieceKind::L);
    assert_eq!(PieceKind::from_index(3), PieceKind::O);
    assert_eq!(PieceKind::from_index(4), PieceKind::S);
    assert_eq!(PieceKind::from_index(5), PieceKind::T);
    assert_eq!(PieceKind::from_index(6), PieceKind::Z);
    assert_eq!(PieceKind::from_index(7), PieceKind::I);
    assert_eq!(PieceKind::from_index(-1), PieceKind::I);
    assert_eq!(PieceKind::from_index(i32::MAX), PieceKind::I);
    assert_eq!(Piece::from_index(3), Piece::from_kind(PieceKind::O));
    assert_eq!(Piece::from_index(99), Piece::from_kind(PieceKind::I));
}

#[test]
fn random_piece_is_a_fresh_piece_of_some_kind() {
    let mut seen = [false; 7];
    for _ in 0..2000 {
        let p = Piece::get_piece();
        let mut known = false;
        for (i, kind) in ALL_KINDS.iter().enumerate() {
            if p == Piece::from_kind(*kind) {
                seen[i] = true;
                known = true;
            }
        }
        assert!(known);
    }
    assert_eq!(seen, [true; 7]);
}

#[test]
fn mask_bits_count_from_the_most_significant() {
    assert!(mask_has(0x8000, 0));
    assert!(!mask_has(0x8000, 1));
    assert!(mask_has(0x0001, 15));
    assert!(!mask_has(0x0001, 14));
    assert!(mask_has(0x00F0, 8));
    assert!(mask_has(0x00F0, 11));
    assert!(!mask_has(0x00F0, 7));
    assert!(!mask_has(0x00F0, 12));
    // bits above the sixteen of the box are no cells
    assert!(!mask_has(0xFFFF_0000, 0));
    assert!(!mask_has(0xFFFF_0000, 15));
}

#[test]
fn empty_mask_has_no_cell() {
    assert!(!mask_has_cell(0));
    assert!(!mask_has_cell(0xFFFF_0000));
    assert!(mask_has_cell(1));
    assert!(mask_has_cell(0x8000));
    assert_eq!(mask_cells(0), vec![]);
    assert_eq!(mask_cells(0x1_0000), vec![]);
}

#[test]
fn mask_cells_come_in_scan_order() {
    assert_eq!(mask_cells(0x00F0), vec![(0, 2), (1, 2), (2, 2), (3, 2)]);
    assert_eq!(mask_cells(0x2222), vec![(2, 0), (2, 1), (2, 2), (2, 3)]);
    assert_eq!(mask_cells(0xCC00), vec![(0, 0), (1, 0), (0, 1), (1, 1)]);
    assert_eq!(mask_cells(0x0E40), vec![(0, 1), (1, 1), (2, 1), (1, 2)]);
    assert_eq!(mask_cells(0x8001), vec![(0, 0), (3, 3)]);
    assert_eq!(mask_cells(0xFFFF).len(), 16);
}

#[test]
fn four_turns_in_one_direction_come_back_to_the_mask() {
    for kind in ALL_KINDS {
        for start in 0..4i8 {
            for dir in [GameInput::RotateLeft, GameInput::RotateRight] {
                let mut p = Piece::from_kind(kind);
                p.rotation_state = start;
                let mask = p.get_rotation_state();
                for _ in 0..4 {
                    p.rotation_state = turn_index(p.rotation_state, dir);
                    assert!(p.is_wf());
                }
                assert_eq!(p.rotation_state, start);
                assert_eq!(p.get_rotation_state(), mask);
            }
        }
    }
}

#[test]
fn piece_with_an_empty_mask_is_not_well_formed() {
    let mut p = Piece::new(PieceColor::Red, [0x0C60, 0, 0x0C60, 0x2640]);
    assert!(!p.is_wf());
    p.rotation = [0x0C60, 0x2640, 0x0C60, 0x2640];
    assert!(p.is_wf());
    p.rotation_state = 4;
    assert!(!p.is_wf());
    p.rotation_state = -1;
    assert!(!p.is_wf());
}
