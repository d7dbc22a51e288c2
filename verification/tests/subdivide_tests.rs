use hips_atlas::cell::HEALPixCell;
use hips_atlas::subdivide::{
    dist2, extra_subdivision, is_too_large, num_hpx_subdivision, num_hpx_subdivision_rec,
    subdivide_hpx_cell, Footprint, RefinementRules, ScreenPoint, M, MAX_HPX_CELL_SUBDIVISION,
    SUBPIXELS,
};

/// The point at `(x, y)`, in pixels.
fn p(x: i32, y: i32) -> ScreenPoint {
    ScreenPoint { x: x * SUBPIXELS, y: y * SUBPIXELS }
}

/// A square footprint whose diagonals are `d` pixels long.
fn square(d: i32) -> Footprint {
    let half = d * (SUBPIXELS / 2);
    Some([
        p(0, 0),
        ScreenPoint { x: half, y: -half },
        p(d, 0),
        ScreenPoint { x: half, y: half },
    ])
}

/// A view in which a base cell spans `size` pixels and each level halves it.
fn view(size: i32) -> impl Fn(HEALPixCell) -> Footprint {
    move |c: HEALPixCell| Some([p(0, 0), p(0, 0), p(size >> c.0, 0), p(0, size >> c.0)])
}

#[test]
fn squared_distance() {
    let q = |x, y| ScreenPoint { x, y };
    assert_eq!(dist2(&q(0, 0), &q(3, 4)), 25);
    assert_eq!(dist2(&q(-3, 4), &q(0, 0)), 25);
    assert_eq!(dist2(&q(7, 7), &q(7, 7)), 0);
    assert_eq!(dist2(&p(0, 0), &p(3, 4)), 25 * 64 * 64);
    assert_eq!(dist2(&q(i32::MIN, i32::MIN), &q(i32::MAX, i32::MAX)), 2 * (u32::MAX as u128) * (u32::MAX as u128));
    assert_eq!(M, 48400);
    assert_eq!(SUBPIXELS, 64);
}

#[test]
fn footprint_is_too_large_past_the_threshold() {
    // diagonals of exactly 220 pixels are not too long
    assert!(!is_too_large(&Some([p(0, 0), p(0, 0), p(220, 0), p(0, 220)])));
    // a diagonal longer by a part of a pixel is too long
    let just_over = ScreenPoint { x: 220 * SUBPIXELS + 1, y: 0 };
    assert!(is_too_large(&Some([p(0, 0), p(0, 0), just_over, p(0, 0)])));
    assert!(is_too_large(&Some([p(0, 0), p(0, 0), p(221, 0), p(0, 0)])));
    assert!(is_too_large(&Some([p(0, 0), p(0, 0), p(0, 0), p(0, 221)])));
    assert!(is_too_large(&Some([p(0, 0), p(0, 0), p(156, 156), p(0, 0)])));
    assert!(!is_too_large(&Some([p(0, 0), p(0, 0), p(155, 155), p(0, 0)])));
    // the sides do not count, only the diagonals
    assert!(!is_too_large(&Some([p(0, 0), p(1000, 0), p(0, 1), p(1000, 1)])));
    assert!(!is_too_large(&square(200)));
}

#[test]
fn footprint_with_a_corner_off_the_screen_is_not_too_large() {
    assert!(!is_too_large(&None));
}

#[test]
fn small_cells_are_cut_down_to_depth_three() {
    let tiny = |_c: HEALPixCell| square(1);
    assert_eq!(num_hpx_subdivision(&HEALPixCell(0, 5), &tiny), 3);
    assert_eq!(num_hpx_subdivision(&HEALPixCell(1, 5), &tiny), 2);
    assert_eq!(num_hpx_subdivision(&HEALPixCell(2, 5), &tiny), 1);
    assert_eq!(num_hpx_subdivision(&HEALPixCell(3, 5), &tiny), 0);
    assert_eq!(num_hpx_subdivision(&HEALPixCell(9, 5), &tiny), 0);
    let hidden = |_c: HEALPixCell| None;
    assert_eq!(num_hpx_subdivision(&HEALPixCell(0, 5), &hidden), 3);
    assert_eq!(num_hpx_subdivision(&HEALPixCell(7, 5), &hidden), 0);
    assert_eq!(num_hpx_subdivision_rec(&HEALPixCell(0, 5), 0, &tiny), 0);
}

#[test]
fn large_cells_are_cut_until_the_footprint_is_small() {
    // 221 px: too large at the cell's depth only
    assert_eq!(num_hpx_subdivision(&HEALPixCell(5, 0), &|c: HEALPixCell| view(221 << 5)(c)), 1);
    assert_eq!(num_hpx_subdivision(&HEALPixCell(5, 0), &|c: HEALPixCell| view(220 << 5)(c)), 0);
    assert_eq!(num_hpx_subdivision(&HEALPixCell(5, 0), &|c: HEALPixCell| view(442 << 5)(c)), 2);
    assert_eq!(num_hpx_subdivision(&HEALPixCell(5, 0), &|c: HEALPixCell| view(884 << 5)(c)), 3);
}

#[test]
fn subdivision_stops_after_four_levels() {
    let huge = |_c: HEALPixCell| square(100000);
    assert_eq!(num_hpx_subdivision(&HEALPixCell(5, 0), &huge), 4);
    assert_eq!(num_hpx_subdivision(&HEALPixCell(0, 0), &huge), 4);
    assert_eq!(MAX_HPX_CELL_SUBDIVISION, 4);
}

#[test]
fn subdivision_stops_at_the_deepest_level() {
    let huge = |_c: HEALPixCell| square(100000);
    assert_eq!(num_hpx_subdivision(&HEALPixCell(29, 0), &huge), 0);
    assert_eq!(num_hpx_subdivision(&HEALPixCell(28, 0), &huge), 1);
    assert_eq!(num_hpx_subdivision(&HEALPixCell(26, 0), &huge), 3);
}

#[test]
fn the_child_that_needs_most_decides() {
    // only the descendants along the last child are large
    let skewed = |c: HEALPixCell| {
        let on_path = c.1 == (1u64 << (2 * (c.0 - 5))) - 1;
        if c.0 >= 5 && c.0 <= 7 && on_path { square(1000) } else { square(10) }
    };
    assert_eq!(num_hpx_subdivision(&HEALPixCell(5, 0), &skewed), 3);
    let first_only = |c: HEALPixCell| if c == HEALPixCell(5, 0) { square(1000) } else { square(10) };
    assert_eq!(num_hpx_subdivision(&HEALPixCell(5, 0), &first_only), 1);
}

#[test]
fn narrower_field_never_gives_a_coarser_mesh() {
    for depth in [0u8, 2, 3, 6, 27] {
        let mut last = 0;
        for size in [1i32, 100, 220, 221, 440, 441, 900, 2000, 5000, 100000] {
            let zoom = move |c: HEALPixCell| square(size >> (c.0 - depth));
            let n = num_hpx_subdivision(&HEALPixCell(depth, 0), &zoom);
            assert!(n >= last);
            assert!(depth + n >= 3);
            last = n;
        }
    }
}

#[test]
fn standard_rules() {
    let rules = RefinementRules::standard();
    assert_eq!(rules.wide_field_aperture, 15 * 3600 * 1000);
    assert_eq!(rules.frontier_width, 1);
}

#[test]
fn cells_at_the_poles_are_cut_once_more() {
    let rules = RefinementRules::standard();
    // north pole of the base cell 1 at depth 4, seen through a narrow field
    let north = HEALPixCell(4, 256 + 255);
    assert!(north.is_on_pole());
    assert_eq!(extra_subdivision(&north, &rules, 1000), 1);
    let south = HEALPixCell(4, 9 * 256);
    assert_eq!(extra_subdivision(&south, &rules, 1000), 1);
}

#[test]
fn cells_inside_an_equatorial_base_cell_are_not_cut_further() {
    let rules = RefinementRules::standard();
    for low in 0..64u64 {
        assert_eq!(extra_subdivision(&HEALPixCell(3, 5 * 64 + low), &rules, 1000), 0);
        assert_eq!(extra_subdivision(&HEALPixCell(3, 5 * 64 + low), &rules, 100_000_000), 0);
    }
}

#[test]
fn cells_next_to_the_singular_corners_in_a_wide_field() {
    let rules = RefinementRules::standard();
    // depth 3, base cell 0: the cells at (0, 7) and (7, 0)
    let west = HEALPixCell(3, 0b101010);
    let east = HEALPixCell(3, 0b010101);
    assert_eq!(west.get_offset_in_texture_cell(3), (0, 7));
    assert_eq!(east.get_offset_in_texture_cell(3), (7, 0));
    for corner in [west, east] {
        assert_eq!(extra_subdivision(&corner, &rules, 54_000_000), 2);
        assert_eq!(extra_subdivision(&corner, &rules, 60_000_000), 2);
        // narrow field: they lie on the frontier, which asks for one level
        assert_eq!(extra_subdivision(&corner, &rules, 53_999_999), 1);
        // their descendants count as next to the corner too
        assert_eq!(extra_subdivision(&corner.subdivide()[0], &rules, 54_000_000), 2);
    }
    // the same cells of an equatorial base cell are left alone
    assert_eq!(extra_subdivision(&HEALPixCell(3, 4 * 64 + 0b101010), &rules, 54_000_000), 0);
}

#[test]
fn border_of_a_polar_base_cell_at_high_latitude() {
    let rules = RefinementRules::standard();
    // depth 3, base cell 2, at (7, 3): on the border, on the polar side
    let cell = HEALPixCell(3, 2 * 64 + 0b001111 + 0b010000);
    assert_eq!(cell.get_offset_in_texture_cell(3), (7, 3));
    assert_eq!(extra_subdivision(&cell, &rules, 1000), 1);
    // at (0, 3): on the border, on the equatorial side
    let cell = HEALPixCell(3, 2 * 64 + 0b001010);
    assert_eq!(cell.get_offset_in_texture_cell(3), (0, 3));
    assert_eq!(extra_subdivision(&cell, &rules, 1000), 0);
    // south, base cell 10, at (0, 3): on the border, on the polar side
    let cell = HEALPixCell(3, 10 * 64 + 0b001010);
    assert_eq!(extra_subdivision(&cell, &rules, 1000), 1);
    // inside the base cell: left alone
    let cell = HEALPixCell(3, 2 * 64 + 0b110011);
    assert_eq!(cell.get_offset_in_texture_cell(3), (5, 5));
    assert_eq!(extra_subdivision(&cell, &rules, 1000), 0);
}

#[test]
fn thresholds_are_configuration() {
    let wide = RefinementRules { wide_field_aperture: 10, frontier_width: 1 };
    let never = RefinementRules { wide_field_aperture: u64::MAX, frontier_width: 0 };
    let west = HEALPixCell(3, 0b101010);
    assert_eq!(extra_subdivision(&west, &wide, 10), 2);
    assert_eq!(extra_subdivision(&west, &never, 10), 1);
    // one cell off the line: on the frontier only if it is one cell wide
    let off = HEALPixCell(4, 0b10101000);
    assert_eq!(off.get_offset_in_texture_cell(4), (0, 14));
    assert_eq!(extra_subdivision(&off, &never, 10), 0);
    assert_eq!(extra_subdivision(&off, &RefinementRules { wide_field_aperture: u64::MAX, frontier_width: 1 }, 10), 1);
}

#[test]
fn extra_levels_stop_at_the_deepest_level() {
    let rules = RefinementRules::standard();
    let north = HEALPixCell(29, (1u64 << 58) - 1);
    assert!(north.is_on_pole());
    assert_eq!(extra_subdivision(&north, &rules, 1000), 0);
    let west = HEALPixCell(28, 0b101010 << 50);
    assert_eq!(extra_subdivision(&west, &rules, 54_000_000), 1);
}

#[test]
fn mesh_of_an_equatorial_cell() {
    let rules = RefinementRules::standard();
    let cell = HEALPixCell(3, 5 * 64 + 27);
    assert!(!cell.is_on_base_cell_edges());
    let mesh = subdivide_hpx_cell(&cell, 0, &rules, 1000);
    assert_eq!(mesh, vec![cell]);
    let mesh = subdivide_hpx_cell(&cell, 2, &rules, 1000);
    assert_eq!(mesh, cell.get_children_cells(2));
}

#[test]
fn mesh_of_a_base_cell_at_the_pole() {
    let rules = RefinementRules::standard();
    let cell = HEALPixCell(0, 0);
    let mesh = subdivide_hpx_cell(&cell, 3, &rules, 1000);
    let mut expected = Vec::new();
    for child in cell.get_children_cells(3) {
        let extra = extra_subdivision(&child, &rules, 1000);
        expected.extend(child.get_children_cells(extra));
    }
    assert_eq!(mesh, expected);
    // the cell at the pole is cut into four
    assert!(mesh.contains(&HEALPixCell(4, 255)));
    assert!(!mesh.contains(&HEALPixCell(3, 63)));
    // 64 cells, of which those at the pole, on the polar border, or on the
    // frontier next to a singular corner, are cut into four
    let cut = cell.get_children_cells(3).iter().filter(|c| extra_subdivision(c, &rules, 1000) == 1).count();
    assert_eq!(mesh.len(), 64 + 3 * cut);
    assert!(cut > 0);
    for sub in &mesh {
        assert!(sub.is_valid());
        assert_eq!(sub.ancestor(sub.depth()), cell);
    }
}
