use hips_atlas::cell::{nside_at, pow2_u64, split_bits, HEALPixCell, MAX_DEPTH};

#[test]
fn parent_of_child_is_cell() {
    let c = HEALPixCell(3, 257);
    let children = c.subdivide();
    for k in 0..4 {
        assert_eq!(children[k].parent(), c);
        assert_eq!(children[k], HEALPixCell(4, 257 * 4 + k as u64));
        assert!(children[k].is_valid());
    }
}

#[test]
fn validity_follows_the_number_of_cells() {
    assert!(HEALPixCell(0, 0).is_valid());
    assert!(HEALPixCell(0, 11).is_valid());
    assert!(!HEALPixCell(0, 12).is_valid());
    assert!(HEALPixCell(3, 767).is_valid());
    assert!(!HEALPixCell(3, 768).is_valid());
    assert!(HEALPixCell(29, 12 * (1u64 << 58) - 1).is_valid());
    assert!(!HEALPixCell(29, 12 * (1u64 << 58)).is_valid());
    assert!(!HEALPixCell(30, 0).is_valid());
    assert_eq!(MAX_DEPTH, 29);
}

#[test]
fn ancestor_divides_the_index() {
    let c = HEALPixCell(5, 1234);
    assert_eq!(c.ancestor(0), c);
    assert_eq!(c.ancestor(1), HEALPixCell(4, 308));
    assert_eq!(c.ancestor(2), HEALPixCell(3, 77));
    assert_eq!(c.ancestor(5), HEALPixCell(0, 1));
    assert_eq!(c.parent(), HEALPixCell(4, 308));
    assert_eq!(c.get_texture_cell(2), HEALPixCell(3, 77));
}

#[test]
fn ancestor_stops_at_the_base_cell() {
    let c = HEALPixCell(2, 37);
    assert_eq!(c.ancestor(7), HEALPixCell(0, 2));
    assert_eq!(HEALPixCell(0, 5).parent(), HEALPixCell(0, 5));
    assert!(HEALPixCell(0, 5).is_root());
    assert!(!c.is_root());
}

#[test]
fn uniq_combines_depth_and_index() {
    assert_eq!(HEALPixCell(0, 0).uniq(), 16);
    assert_eq!(HEALPixCell(0, 11).uniq(), 27);
    assert_eq!(HEALPixCell(1, 0).uniq(), 64);
    assert_eq!(HEALPixCell(3, 257).uniq(), 16 * 64 + 257);
    assert_eq!(HEALPixCell(29, 5).uniq(), (1u64 << 62) + 5);
}

#[test]
fn uniq_tells_cells_apart() {
    let mut seen = std::collections::HashSet::new();
    for depth in 0..4u8 {
        for idx in 0..(12u64 << (2 * depth)) {
            assert!(seen.insert(HEALPixCell(depth, idx).uniq()));
        }
    }
}

#[test]
fn children_cells_come_in_index_order() {
    let c = HEALPixCell(1, 7);
    let cells = c.get_children_cells(2);
    assert_eq!(cells.len(), 16);
    for (k, cell) in cells.iter().enumerate() {
        assert_eq!(*cell, HEALPixCell(3, 7 * 16 + k as u64));
        assert_eq!(cell.ancestor(2), c);
    }
    assert_eq!(c.get_children_cells(0), vec![c]);
    assert_eq!(c.get_tile_cells(1), c.subdivide().to_vec());
}

#[test]
fn offsets_split_the_bits_of_the_index() {
    // 0b100111: the even places give 0b011, the odd places 0b101
    assert_eq!(split_bits(0b100111, 3), (0b011, 0b101));
    assert_eq!(split_bits(0, 5), (0, 0));
    assert_eq!(split_bits(1, 1), (1, 0));
    assert_eq!(split_bits(2, 1), (0, 1));
    assert_eq!(split_bits(3, 1), (1, 1));
    let c = HEALPixCell(3, 2 * 64 + 0b100111);
    assert_eq!(c.get_offset_in_texture_cell(3), (3, 5));
    assert_eq!(c.get_offset_in_texture_cell(1), (1, 1));
    assert_eq!(c.get_offset_in_texture_cell(0), (0, 0));
    assert_eq!(c.get_offset_in_texture_cell(9), (3, 5));
    assert_eq!(c.offset_in_parent(&HEALPixCell(1, 9)), (3, 1));
}

#[test]
fn poles_are_at_the_corners_of_the_polar_base_cells() {
    // north: the last cell of the base cells 0 to 3
    assert!(HEALPixCell(2, 15).is_on_pole());
    assert!(HEALPixCell(2, 3 * 16 + 15).is_on_pole());
    assert!(!HEALPixCell(2, 14).is_on_pole());
    // south: the first cell of the base cells 8 to 11
    assert!(HEALPixCell(2, 8 * 16).is_on_pole());
    assert!(HEALPixCell(2, 11 * 16).is_on_pole());
    assert!(!HEALPixCell(2, 8 * 16 + 15).is_on_pole());
    // equatorial base cells touch no pole
    assert!(!HEALPixCell(2, 4 * 16).is_on_pole());
    assert!(!HEALPixCell(2, 4 * 16 + 15).is_on_pole());
    // each polar base cell touches its pole
    assert!(HEALPixCell(0, 0).is_on_pole());
    assert!(HEALPixCell(0, 9).is_on_pole());
    assert!(!HEALPixCell(0, 5).is_on_pole());
}

#[test]
fn edges_of_the_base_cell() {
    // depth 2: a grid of 4 by 4; the four inner cells are at (1..=2, 1..=2)
    let mut inner = 0;
    for low in 0..16u64 {
        let c = HEALPixCell(2, 5 * 16 + low);
        let (x, y) = c.get_offset_in_texture_cell(2);
        let on_edge = x == 0 || x == 3 || y == 0 || y == 3;
        assert_eq!(c.is_on_base_cell_edges(), on_edge);
        if !on_edge {
            inner += 1;
        }
    }
    assert_eq!(inner, 4);
    assert!(HEALPixCell(0, 3).is_on_base_cell_edges());
}

#[test]
fn sides_and_base_cells() {
    assert_eq!(HEALPixCell(0, 3).nside(), 1);
    assert_eq!(HEALPixCell(3, 3).nside(), 8);
    assert_eq!(HEALPixCell(29, 3).nside(), 1 << 29);
    assert_eq!(nside_at(10), 1024);
    assert_eq!(pow2_u64(0), 1);
    assert_eq!(pow2_u64(62), 1 << 62);
    assert_eq!(HEALPixCell(3, 257).base_cell(), 4);
    assert_eq!(HEALPixCell(0, 11).base_cell(), 11);
    assert_eq!(HEALPixCell(3, 257).depth(), 3);
    assert_eq!(HEALPixCell(3, 257).idx(), 257);
}
