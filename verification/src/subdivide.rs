//! How finely a cell is cut into a mesh: by the size of its footprint on
//! the screen, and by where it lies on the pixelization.
use crate::cell::{
    cells_per_base, lemma_cells_per_base_bound, lemma_descendant_wf, HEALPixCell, MAX_DEPTH,
};
use vstd::arithmetic::power2::{lemma2_to64, pow2};
use vstd::prelude::*;

verus! {

/// Squared length, in pixels, above which a diagonal of a cell's footprint
/// calls for a finer mesh.
pub const M: u64 = 220 * 220;

/// Parts that a pixel is cut into, along each axis, in the coordinates of
/// a footprint.
pub const SUBPIXELS: i32 = 64;

/// The threshold [`M`] in the coordinates of a footprint.
pub open spec fn spec_threshold() -> nat {
    (M * SUBPIXELS * SUBPIXELS) as nat
}

/// Most levels that the size of the footprint can add to a cell's mesh.
pub const MAX_HPX_CELL_SUBDIVISION: u8 = 4;

/// Depth of the coarsest cells that a mesh is made of.
pub const MIN_MESH_DEPTH: u8 = 3;

/// A point of the screen, in parts of a pixel: [`SUBPIXELS`] of them make
/// a pixel.
#[derive(Clone, Copy, Debug, PartialEq, Eq, Structural, Hash)]
pub struct ScreenPoint {
    pub x: i32,
    pub y: i32,
}

/// The four corners of a cell on the screen, or nothing when one of them
/// has no place on it.
pub type Footprint = Option<[ScreenPoint; 4]>;

/// Squared distance between two points of the screen, in squared parts
/// of a pixel.
pub open spec fn spec_dist2(a: ScreenPoint, b: ScreenPoint) -> nat {
    ((a.x - b.x) * (a.x - b.x) + (a.y - b.y) * (a.y - b.y)) as nat
}

/// Whether a footprint calls for a finer mesh: all four corners are on the
/// screen and one of the two diagonals is longer than the threshold.
pub open spec fn spec_is_too_large(footprint: Footprint) -> bool {
    match footprint {
        Some(v) => spec_dist2(v[0], v[2]) > spec_threshold() || spec_dist2(v[1], v[3])
            > spec_threshold(),
        None => false,
    }
}

/// Squared distance between two points of the screen.
pub fn dist2(a: &ScreenPoint, b: &ScreenPoint) -> (d: u128)
    ensures
        d == spec_dist2(*a, *b),
{
    let dx: i64 = a.x as i64 - b.x as i64;
    let dy: i64 = a.y as i64 - b.y as i64;
    assert(0 <= dx * dx <= 0xffff_ffff * 0xffff_ffff) by (nonlinear_arith)
        requires
            -0xffff_ffff <= dx <= 0xffff_ffff,
    ;
    assert(0 <= dy * dy <= 0xffff_ffff * 0xffff_ffff) by (nonlinear_arith)
        requires
            -0xffff_ffff <= dy <= 0xffff_ffff,
    ;
    let sx: i128 = dx as i128 * dx as i128;
    let sy: i128 = dy as i128 * dy as i128;
    (sx + sy) as u128
}

/// Tells whether a footprint calls for a finer mesh.
pub fn is_too_large(footprint: &Footprint) -> (r: bool)
    ensures
        r == spec_is_too_large(*footprint),
{
    match footprint {
        Some(v) => {
            let d1: u128 = dist2(&v[0], &v[2]);
            let d2: u128 = dist2(&v[1], &v[3]);
            let threshold: u128 = M as u128 * (SUBPIXELS as u128) * (SUBPIXELS as u128);
            d1 > threshold || d2 > threshold
        },
        None => false,
    }
}

/// A footprint whose diagonals are at least as long as those of another
/// calls for a finer mesh whenever the other does.
pub proof fn lemma_too_large_monotonic(small: Footprint, large: Footprint)
    requires
        small is Some ==> large is Some && spec_dist2(small->Some_0[0], small->Some_0[2])
            <= spec_dist2(large->Some_0[0], large->Some_0[2]) && spec_dist2(
            small->Some_0[1],
            small->Some_0[3],
        ) <= spec_dist2(large->Some_0[1], large->Some_0[3]),
    ensures
        spec_is_too_large(small) ==> spec_is_too_large(large),
{
}

/// The larger of two numbers.
pub open spec fn max2(a: nat, b: nat) -> nat {
    if a >= b {
        a
    } else {
        b
    }
}

/// Levels that the size of the footprints adds below `cell`, where the
/// mesh started at depth `d0` and `large` tells which cells have a
/// footprint that calls for a finer mesh: none when the budget of
/// [`MAX_HPX_CELL_SUBDIVISION`] levels is used up, at the deepest level,
/// or when the cell's footprint is small enough; else one more than the
/// most that a child needs.
pub open spec fn spec_subdivision_rec(
    large: spec_fn(HEALPixCell) -> bool,
    cell: HEALPixCell,
    d0: nat,
) -> nat
    decreases d0 + MAX_HPX_CELL_SUBDIVISION - cell.0,
{
    if cell.0 >= d0 && cell.0 - d0 < MAX_HPX_CELL_SUBDIVISION && cell.0 < MAX_DEPTH && large(
        cell,
    ) {
        1 + max2(
            max2(
                spec_subdivision_rec(large, cell.spec_descendant(1, 0), d0),
                spec_subdivision_rec(large, cell.spec_descendant(1, 1), d0),
            ),
            max2(
                spec_subdivision_rec(large, cell.spec_descendant(1, 2), d0),
                spec_subdivision_rec(large, cell.spec_descendant(1, 3), d0),
            ),
        )
    } else {
        0
    }
}

/// Levels of the mesh of `cell`: what the footprints call for, and at
/// least as many as bring the mesh to depth [`MIN_MESH_DEPTH`].
pub open spec fn spec_num_hpx_subdivision(
    large: spec_fn(HEALPixCell) -> bool,
    cell: HEALPixCell,
) -> nat {
    let n = spec_subdivision_rec(large, cell, cell.0 as nat);
    if cell.0 + n < MIN_MESH_DEPTH {
        (MIN_MESH_DEPTH - cell.0) as nat
    } else {
        n
    }
}

/// Whether `view` gives, for every cell, the footprint that `project`
/// returns.
pub open spec fn projects<F: Fn(HEALPixCell) -> Footprint>(
    project: &F,
    view: spec_fn(HEALPixCell) -> Footprint,
) -> bool {
    forall|c: HEALPixCell, f: Footprint| project.ensures((c,), f) ==> f == view(c)
}

/// The cells whose footprint, under `view`, calls for a finer mesh.
pub open spec fn large_under(view: spec_fn(HEALPixCell) -> Footprint) -> spec_fn(
    HEALPixCell,
) -> bool {
    |c: HEALPixCell| spec_is_too_large(view(c))
}

/// The recursion stays within its budget and within the pixelization.
pub proof fn lemma_subdivision_rec_bounds(
    large: spec_fn(HEALPixCell) -> bool,
    cell: HEALPixCell,
    d0: nat,
)
    requires
        d0 <= cell.0 <= MAX_DEPTH,
    ensures
        cell.0 <= d0 + MAX_HPX_CELL_SUBDIVISION ==> cell.0 + spec_subdivision_rec(large, cell, d0)
            <= d0 + MAX_HPX_CELL_SUBDIVISION,
        cell.0 + spec_subdivision_rec(large, cell, d0) <= MAX_DEPTH,
    decreases d0 + MAX_HPX_CELL_SUBDIVISION - cell.0,
{
    if cell.0 - d0 < MAX_HPX_CELL_SUBDIVISION && cell.0 < MAX_DEPTH && large(cell) {
        lemma_subdivision_rec_bounds(large, cell.spec_descendant(1, 0), d0);
        lemma_subdivision_rec_bounds(large, cell.spec_descendant(1, 1), d0);
        lemma_subdivision_rec_bounds(large, cell.spec_descendant(1, 2), d0);
        lemma_subdivision_rec_bounds(large, cell.spec_descendant(1, 3), d0);
    }
}

/// The mesh of a cell is never coarser than depth [`MIN_MESH_DEPTH`], and
/// never deeper than the pixelization.
pub proof fn lemma_num_hpx_subdivision_bounds(
    large: spec_fn(HEALPixCell) -> bool,
    cell: HEALPixCell,
)
    requires
        cell.0 <= MAX_DEPTH,
    ensures
        cell.0 + spec_num_hpx_subdivision(large, cell) >= MIN_MESH_DEPTH,
        cell.0 + spec_num_hpx_subdivision(large, cell) <= MAX_DEPTH,
        spec_num_hpx_subdivision(large, cell) <= MAX_HPX_CELL_SUBDIVISION,
{
    lemma_subdivision_rec_bounds(large, cell, cell.0 as nat);
}

/// Where more footprints call for a finer mesh, the recursion gives at
/// least as many levels.
pub proof fn lemma_subdivision_rec_monotonic(
    coarse: spec_fn(HEALPixCell) -> bool,
    fine: spec_fn(HEALPixCell) -> bool,
    cell: HEALPixCell,
    d0: nat,
)
    requires
        forall|c: HEALPixCell| #[trigger] coarse(c) ==> fine(c),
    ensures
        spec_subdivision_rec(coarse, cell, d0) <= spec_subdivision_rec(fine, cell, d0),
    decreases d0 + MAX_HPX_CELL_SUBDIVISION - cell.0,
{
    if cell.0 >= d0 && cell.0 - d0 < MAX_HPX_CELL_SUBDIVISION && cell.0 < MAX_DEPTH && coarse(
        cell,
    ) {
        assert(fine(cell));
        lemma_subdivision_rec_monotonic(coarse, fine, cell.spec_descendant(1, 0), d0);
        lemma_subdivision_rec_monotonic(coarse, fine, cell.spec_descendant(1, 1), d0);
        lemma_subdivision_rec_monotonic(coarse, fine, cell.spec_descendant(1, 2), d0);
        lemma_subdivision_rec_monotonic(coarse, fine, cell.spec_descendant(1, 3), d0);
    }
}

/// A view in which every footprint that calls for a finer mesh still
/// does so in another view gives a mesh that is no finer: as the field of
/// view narrows and footprints grow, the mesh of a cell never gets
/// coarser.
pub proof fn lemma_num_hpx_subdivision_monotonic(
    coarse: spec_fn(HEALPixCell) -> bool,
    fine: spec_fn(HEALPixCell) -> bool,
    cell: HEALPixCell,
)
    requires
        forall|c: HEALPixCell| #[trigger] coarse(c) ==> fine(c),
    ensures
        spec_num_hpx_subdivision(coarse, cell) <= spec_num_hpx_subdivision(fine, cell),
{
    lemma_subdivision_rec_monotonic(coarse, fine, cell, cell.0 as nat);
}

/// As [`lemma_num_hpx_subdivision_monotonic`], for two views of which the
/// second shows every cell at least as large as the first.
pub proof fn lemma_magnified_view_refines(
    wide: spec_fn(HEALPixCell) -> Footprint,
    narrow: spec_fn(HEALPixCell) -> Footprint,
    cell: HEALPixCell,
)
    requires
        forall|c: HEALPixCell| #[trigger]
            wide(c) is Some ==> narrow(c) is Some && spec_dist2(
                wide(c)->Some_0[0],
                wide(c)->Some_0[2],
            ) <= spec_dist2(narrow(c)->Some_0[0], narrow(c)->Some_0[2]) && spec_dist2(
                wide(c)->Some_0[1],
                wide(c)->Some_0[3],
            ) <= spec_dist2(narrow(c)->Some_0[1], narrow(c)->Some_0[3]),
    ensures
        spec_num_hpx_subdivision(large_under(wide), cell) <= spec_num_hpx_subdivision(
            large_under(narrow),
            cell,
        ),
{
    assert forall|c: HEALPixCell| #[trigger] large_under(wide)(c) implies large_under(narrow)(c) by {
        lemma_too_large_monotonic(wide(c), narrow(c));
    }
    lemma_num_hpx_subdivision_monotonic(large_under(wide), large_under(narrow), cell);
}

/// Levels that the size of the footprints adds below `cell`, for a mesh
/// that started at depth `d0`; `project` gives the footprint of a cell.
pub fn num_hpx_subdivision_rec<F: Fn(HEALPixCell) -> Footprint>(
    cell: &HEALPixCell,
    d0: u8,
    project: &F,
) -> (n: u8)
    requires
        cell.wf(),
        d0 <= cell.0,
        forall|c: HEALPixCell| project.requires((c,)),
    ensures
        cell.0 <= d0 + MAX_HPX_CELL_SUBDIVISION ==> cell.0 + n <= d0 + MAX_HPX_CELL_SUBDIVISION,
        cell.0 + n <= MAX_DEPTH,
        n <= MAX_HPX_CELL_SUBDIVISION,
        cell.0 - d0 >= MAX_HPX_CELL_SUBDIVISION || cell.0 >= MAX_DEPTH ==> n == 0,
        forall|view: spec_fn(HEALPixCell) -> Footprint| #[trigger]
            projects(project, view) ==> n == spec_subdivision_rec(
                large_under(view),
                *cell,
                d0 as nat,
            ),
    decreases d0 + MAX_HPX_CELL_SUBDIVISION - cell.0,
{
    if cell.depth() - d0 < MAX_HPX_CELL_SUBDIVISION && cell.depth() < MAX_DEPTH {
        let footprint: Footprint = project(*cell);
        if is_too_large(&footprint) {
            let sub_cells: [HEALPixCell; 4] = cell.subdivide();
            let n0: u8 = num_hpx_subdivision_rec(&sub_cells[0], d0, project);
            let n1: u8 = num_hpx_subdivision_rec(&sub_cells[1], d0, project);
            let n2: u8 = num_hpx_subdivision_rec(&sub_cells[2], d0, project);
            let n3: u8 = num_hpx_subdivision_rec(&sub_cells[3], d0, project);
            let m01: u8 = if n0 >= n1 { n0 } else { n1 };
            let m23: u8 = if n2 >= n3 { n2 } else { n3 };
            let m: u8 = if m01 >= m23 { m01 } else { m23 };
            return 1 + m;
        }
    }
    0
}

/// Levels of the mesh of `cell`: what the footprints call for, and at
/// least as many as bring the mesh to depth [`MIN_MESH_DEPTH`]; `project`
/// gives the footprint of a cell.
pub fn num_hpx_subdivision<F: Fn(HEALPixCell) -> Footprint>(cell: &HEALPixCell, project: &F) -> (n:
    u8)
    requires
        cell.wf(),
        forall|c: HEALPixCell| project.requires((c,)),
    ensures
        cell.0 + n >= MIN_MESH_DEPTH,
        cell.0 + n <= MAX_DEPTH,
        n <= MAX_HPX_CELL_SUBDIVISION,
        forall|view: spec_fn(HEALPixCell) -> Footprint| #[trigger]
            projects(project, view) ==> n == spec_num_hpx_subdivision(large_under(view), *cell),
{
    let d0: u8 = cell.depth();
    let num_sub: u8 = num_hpx_subdivision_rec(cell, d0, project);
    let sub_cells_depth: u8 = d0 + num_sub;
    if sub_cells_depth < MIN_MESH_DEPTH {
        num_sub + (MIN_MESH_DEPTH - sub_cells_depth)
    } else {
        num_sub
    }
}

/// The thresholds of the pass that cuts cells at the special places of
/// the pixelization once or twice more.
#[derive(Clone, Copy, Debug, PartialEq, Eq, Structural, Hash)]
pub struct RefinementRules {
    /// Field of view, in milliarcseconds, from which the cells next to the
    /// corners where only seven cells meet are cut twice more.
    pub wide_field_aperture: u64,
    /// How many cells away from the line between the polar and the
    /// equatorial zone a cell still counts as lying on it.
    pub frontier_width: u32,
}

impl RefinementRules {
    /// The thresholds found by experiment: a field of view of 15 degrees,
    /// and a frontier one cell wide on each side.
    pub open spec fn spec_standard() -> RefinementRules {
        RefinementRules { wide_field_aperture: 54_000_000, frontier_width: 1 }
    }

    /// The thresholds found by experiment.
    pub fn standard() -> (rules: RefinementRules)
        ensures
            rules == RefinementRules::spec_standard(),
    {
        RefinementRules { wide_field_aperture: 54_000_000, frontier_width: 1 }
    }
}

/// Whether the cell lies in one of the eight base cells that reach a pole.
pub open spec fn spec_in_polar_base(cell: HEALPixCell) -> bool {
    cell.spec_base_cell() < 4 || 8 <= cell.spec_base_cell() < 12
}

/// Whether the cell lies in one of the two cells of depth 3 at the east
/// and west corners of its base cell, next to a corner where only seven
/// cells meet.
pub open spec fn spec_near_singular_corner(cell: HEALPixCell) -> bool {
    let c3 = cell.spec_ancestor((cell.0 - MIN_MESH_DEPTH) as nat);
    cell.0 >= MIN_MESH_DEPTH && (c3.spec_offset(3) == (0nat, 7nat) || c3.spec_offset(3) == (
        7nat,
        0nat,
    ))
}

/// Whether the cell lies, in a base cell that reaches a pole, within
/// `width` cells of the line between the polar and the equatorial zone.
pub open spec fn spec_on_frontier(cell: HEALPixCell, width: nat) -> bool {
    let (x, y) = cell.spec_offset(cell.0 as nat);
    let d = x + y - pow2(cell.0 as nat) + 1;
    spec_in_polar_base(cell) && -width <= d <= width
}

/// Whether the centre of the cell lies in a polar zone or on its border.
pub open spec fn spec_at_high_latitude(cell: HEALPixCell) -> bool {
    let (x, y) = cell.spec_offset(cell.0 as nat);
    let last = pow2(cell.0 as nat) - 1;
    ||| (cell.spec_base_cell() < 4 && x + y >= last)
    ||| (8 <= cell.spec_base_cell() < 12 && x + y <= last)
}

/// Levels that the place of `cell` on the pixelization adds to its mesh,
/// whatever the size of its footprint, under a field of view of
/// `aperture` milliarcseconds: two next to a corner where seven cells
/// meet, in a wide field; one on the frontier of the polar zone next to
/// such a corner, at a pole, or on the border of a base cell in a polar
/// zone; else none; and never more than lead to the deepest level.
pub open spec fn spec_extra_subdivision(
    cell: HEALPixCell,
    rules: RefinementRules,
    aperture: u64,
) -> nat {
    let wanted: nat = if aperture >= rules.wide_field_aperture && spec_in_polar_base(cell)
        && spec_near_singular_corner(cell) {
        2
    } else if spec_on_frontier(cell, rules.frontier_width as nat) && spec_near_singular_corner(
        cell,
    ) {
        1
    } else if cell.spec_is_on_pole() {
        1
    } else if cell.spec_is_on_base_cell_edges() && spec_at_high_latitude(cell) {
        1
    } else {
        0
    };
    if cell.0 + wanted <= MAX_DEPTH {
        wanted
    } else {
        (MAX_DEPTH - cell.0) as nat
    }
}

/// The descendants of `cell`, `delta_depth` levels down, in index order.
pub open spec fn spec_descendants(cell: HEALPixCell, delta_depth: nat) -> Seq<HEALPixCell> {
    Seq::new(cells_per_base(delta_depth), |k: int| cell.spec_descendant(delta_depth, k as nat))
}

/// The mesh cells of the first `m` descendants of `cell`, `n` levels down:
/// each descendant in turn, cut as many levels further as its place on
/// the pixelization adds.
pub open spec fn spec_refined(
    cell: HEALPixCell,
    n: nat,
    rules: RefinementRules,
    aperture: u64,
    m: nat,
) -> Seq<HEALPixCell>
    decreases m,
{
    if m == 0 {
        Seq::empty()
    } else {
        let child = cell.spec_descendant(n, (m - 1) as nat);
        spec_refined(cell, n, rules, aperture, (m - 1) as nat) + spec_descendants(
            child,
            spec_extra_subdivision(child, rules, aperture),
        )
    }
}

/// The cells that the mesh of `cell` is made of, for `n` levels of
/// subdivision.
pub open spec fn spec_subdivide_hpx_cell(
    cell: HEALPixCell,
    n: nat,
    rules: RefinementRules,
    aperture: u64,
) -> Seq<HEALPixCell> {
    spec_refined(cell, n, rules, aperture, cells_per_base(n))
}

/// Every cell of the mesh of `cell` is a cell of the pixelization at or
/// below `cell`, between `n` and `n + 2` levels down.
pub open spec fn is_mesh_of(mesh: Seq<HEALPixCell>, cell: HEALPixCell, n: nat) -> bool {
    forall|k: int|
        0 <= k < mesh.len() ==> {
            &&& (#[trigger] mesh[k]).wf()
            &&& cell.0 + n <= mesh[k].0 <= cell.0 + n + 2
            &&& cell.is_ancestor_of(mesh[k])
        }
}

/// Levels that the place of `cell` on the pixelization adds to its mesh,
/// under a field of view of `aperture` milliarcseconds.
pub fn extra_subdivision(cell: &HEALPixCell, rules: &RefinementRules, aperture: u64) -> (n: u8)
    requires
        cell.wf(),
        cell.0 >= MIN_MESH_DEPTH,
    ensures
        n == spec_extra_subdivision(*cell, *rules, aperture),
        n <= 2,
        cell.0 + n <= MAX_DEPTH,
{
    let base: u8 = cell.base_cell();
    let polar_base: bool = base < 4 || (8 <= base && base < 12);
    let c3: HEALPixCell = cell.ancestor(cell.depth() - MIN_MESH_DEPTH);
    proof {
        crate::cell::lemma_ancestor_wf(*cell, (cell.0 - MIN_MESH_DEPTH) as nat);
        lemma2_to64();
    }
    let (x3, y3) = c3.get_offset_in_texture_cell(3);
    let near_corner: bool = (x3 == 0 && y3 == 7) || (x3 == 7 && y3 == 0);
    let (x, y) = cell.get_offset_in_texture_cell(cell.depth());
    let nside: u32 = cell.nside();
    let d: i64 = x as i64 + y as i64 - nside as i64 + 1;
    let width: i64 = rules.frontier_width as i64;
    let frontier: bool = polar_base && -width <= d && d <= width;
    let wanted: u8 = if aperture >= rules.wide_field_aperture && polar_base && near_corner {
        2
    } else if frontier && near_corner {
        1
    } else if cell.is_on_pole() {
        1
    } else if cell.is_on_base_cell_edges() && ((base < 4 && d >= 0) || (8 <= base && base < 12
        && d <= 0)) {
        1
    } else {
        0
    };
    if cell.depth() + wanted <= MAX_DEPTH {
        wanted
    } else {
        MAX_DEPTH - cell.depth()
    }
}

/// The cells that the mesh of `cell` is made of: its descendants `n`
/// levels down, each cut once or twice more where its place on the
/// pixelization asks for it, under a field of view of `aperture`
/// milliarcseconds.
pub fn subdivide_hpx_cell(
    cell: &HEALPixCell,
    num_subdivisions: u8,
    rules: &RefinementRules,
    aperture: u64,
) -> (mesh: Vec<HEALPixCell>)
    requires
        cell.wf(),
        MIN_MESH_DEPTH <= cell.0 + num_subdivisions <= MAX_DEPTH,
        cells_per_base(num_subdivisions as nat + 2) <= usize::MAX,
    ensures
        mesh@ == spec_subdivide_hpx_cell(*cell, num_subdivisions as nat, *rules, aperture),
        is_mesh_of(mesh@, *cell, num_subdivisions as nat),
        mesh@.len() >= cells_per_base(num_subdivisions as nat),
        mesh@.len() <= cells_per_base(num_subdivisions as nat + 2),
{
    proof {
        let n = num_subdivisions as nat;
        crate::cell::lemma_cells_per_base_monotonic(n, n + 2);
        lemma2_to64();
        assert(((n + 2) - n) as nat == 2);
        assert(cells_per_base(2) == pow2(4));
        assert(cells_per_base(n + 2) == 16 * cells_per_base(n)) by (nonlinear_arith)
            requires
                cells_per_base(n + 2) == cells_per_base(n) * cells_per_base(2),
                cells_per_base(2) == 16,
        ;
    }
    let children: Vec<HEALPixCell> = cell.get_children_cells(num_subdivisions);
    let count: usize = children.len();
    let mut mesh: Vec<HEALPixCell> = Vec::new();
    let mut m: usize = 0;
    while m < count
        invariant
            cell.wf(),
            MIN_MESH_DEPTH <= cell.0 + num_subdivisions <= MAX_DEPTH,
            count == children@.len(),
            count == cells_per_base(num_subdivisions as nat),
            cells_per_base(num_subdivisions as nat + 2) == 16 * count,
            16 * count <= usize::MAX,
            forall|k: int|
                0 <= k < count ==> #[trigger] children@[k] == cell.spec_descendant(
                    num_subdivisions as nat,
                    k as nat,
                ),
            forall|k: int| 0 <= k < count ==> (#[trigger] children@[k]).wf(),
            forall|k: int|
                0 <= k < count ==> (#[trigger] children@[k]).spec_ancestor(num_subdivisions as nat)
                    == *cell,
            m <= count,
            mesh@ == spec_refined(*cell, num_subdivisions as nat, *rules, aperture, m as nat),
            is_mesh_of(mesh@, *cell, num_subdivisions as nat),
            m <= mesh@.len() <= 16 * m,
        decreases count - m,
    {
        let child: HEALPixCell = children[m];
        assert(child == cell.spec_descendant(num_subdivisions as nat, m as nat));
        proof {
            lemma_descendant_wf(*cell, num_subdivisions as nat, m as nat);
        }
        let extra: u8 = extra_subdivision(&child, rules, aperture);
        proof {
            lemma2_to64();
            crate::cell::lemma_cells_per_base_monotonic(extra as nat, 2);
        }
        let mut finer: Vec<HEALPixCell> = child.get_children_cells(extra);
        proof {
            assert(finer@ =~= spec_descendants(child, extra as nat));
            assert forall|k: int| 0 <= k < finer@.len() implies {
                &&& (#[trigger] finer@[k]).wf()
                &&& cell.0 + num_subdivisions <= finer@[k].0 <= cell.0 + num_subdivisions + 2
                &&& cell.is_ancestor_of(finer@[k])
            } by {
                lemma_descendant_wf(child, extra as nat, k as nat);
                crate::cell::lemma_ancestor_transitive(*cell, child, finer@[k]);
            }
        }
        let ghost before = mesh@;
        mesh.append(&mut finer);
        proof {
            assert(mesh@ =~= before + spec_descendants(child, extra as nat));
            assert forall|k: int| 0 <= k < mesh@.len() implies {
                &&& (#[trigger] mesh@[k]).wf()
                &&& cell.0 + num_subdivisions <= mesh@[k].0 <= cell.0 + num_subdivisions + 2
                &&& cell.is_ancestor_of(mesh@[k])
            } by {
                if k < before.len() {
                    assert(mesh@[k] == before[k]);
                } else {
                    let j = k - before.len();
                    assert(mesh@[k] == spec_descendants(child, extra as nat)[j]);
                    lemma_descendant_wf(child, extra as nat, j as nat);
                    crate::cell::lemma_ancestor_transitive(
                        *cell,
                        child,
                        child.spec_descendant(extra as nat, j as nat),
                    );
                }
            }
        }
        m = m + 1;
    }
    mesh
}

} // verus!
