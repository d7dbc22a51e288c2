//! The per-frame protocol of one survey: which tiles to fetch, which
//! entries of the atlas show each visible cell, and the mesh that is drawn.
use crate::buffer::{CacheView, HiPS2DBuffer};
use crate::cell::{all_cells_wf, cells_per_base, HEALPixCell, MAX_DEPTH};
use crate::config::{spec_format_for, ConfigError, HiPSConfig};
use crate::format::ImageExt;
use crate::coverage::{spec_intersects_cell, HEALPixCoverage};
use crate::query::Tile;
use crate::shader::{
    get_raster_shader, get_raytracer_shader, spec_fragment_kind, spec_raster_frag,
    spec_raytracer_frag, ShaderFiles,
};
use crate::subdivide::{
    large_under, max2, num_hpx_subdivision, projects, spec_descendants,
    spec_num_hpx_subdivision, spec_subdivide_hpx_cell, subdivide_hpx_cell, Footprint,
    RefinementRules, MAX_HPX_CELL_SUBDIVISION, MIN_MESH_DEPTH,
};
use crate::texture::{spec_metadata_of, HpxTexture2D, TextureMetadata, TextureView};
use crate::time::Time;
use crate::uv::{pixel_address, spec_pixel_address, AtlasPixel, TileUVW};
use std::collections::HashSet;
use vstd::arithmetic::power2::pow2;
use vstd::prelude::*;

verus! {

broadcast use vstd::std_specs::hash::group_hash_axioms;

/// How long the blending from one entry to the next lasts, in milliseconds.
pub const BLENDING_ANIM_DURATION: u64 = 200;

/// What a visible cell is drawn from: the square of the atlas to blend
/// from, the square to blend to, and when the blending starts.
#[derive(Clone, Copy, Debug, PartialEq, Eq, Structural, Hash)]
pub struct HpxDrawData {
    pub uv_0: TileUVW,
    pub uv_1: TileUVW,
    pub start_time: Time,
    pub cell: HEALPixCell,
}

impl HpxDrawData {
    /// The cell `cell` drawn by blending from the entry `starting` to the
    /// entry `ending`, at the time `now`.
    pub open spec fn spec_from_texture(
        starting: TextureView,
        ending: TextureView,
        cell: HEALPixCell,
        by_side: int,
        now: Time,
    ) -> HpxDrawData {
        HpxDrawData {
            uv_0: TileUVW::spec_new(cell, starting, by_side),
            uv_1: TileUVW::spec_new(cell, ending, by_side),
            start_time: ending.effective_start_time(now),
            cell,
        }
    }

    /// The cell `cell` drawn in black, without blending, for want of any
    /// entry that shows it.
    pub open spec fn spec_new(cell: HEALPixCell) -> HpxDrawData {
        HpxDrawData {
            uv_0: TileUVW::spec_none(),
            uv_1: TileUVW::spec_none(),
            start_time: Time(BLENDING_ANIM_DURATION),
            cell,
        }
    }

    /// Whether the cell is drawn in black for want of any entry.
    pub open spec fn is_placeholder(self) -> bool {
        self.uv_0.texture_idx < 0 && self.uv_1.texture_idx < 0
    }

    /// The cell `cell` drawn by blending from `starting_texture` to
    /// `ending_texture`; both must be bound to `cell` or to cells above it.
    pub fn from_texture(
        starting_texture: &HpxTexture2D,
        ending_texture: &HpxTexture2D,
        cell: &HEALPixCell,
        cfg: &HiPSConfig,
        now: Time,
    ) -> (data: HpxDrawData)
        requires
            cfg.wf(),
            cell.wf(),
            starting_texture@.cell.0 <= cell.0,
            ending_texture@.cell.0 <= cell.0,
            starting_texture@.idx >= 0,
            ending_texture@.idx >= 0,
        ensures
            data == HpxDrawData::spec_from_texture(
                starting_texture@,
                ending_texture@,
                *cell,
                cfg.num_textures_by_side_slice as int,
                now,
            ),
            !data.is_placeholder(),
    {
        let uv_0 = TileUVW::new(cell, starting_texture, cfg);
        let uv_1 = TileUVW::new(cell, ending_texture, cfg);
        let start_time = ending_texture.start_time(now);
        HpxDrawData { uv_0, uv_1, start_time, cell: *cell }
    }

    /// The cell `cell` drawn in black, without blending.
    pub fn new(cell: &HEALPixCell) -> (data: HpxDrawData)
        ensures
            data == HpxDrawData::spec_new(*cell),
            data.is_placeholder(),
    {
        HpxDrawData {
            uv_0: TileUVW::none(),
            uv_1: TileUVW::none(),
            start_time: Time(BLENDING_ANIM_DURATION),
            cell: *cell,
        }
    }
}

/// The entry that `cell` is blended to: the one bound to it when that one
/// is full, else the full entry nearest above it.
pub open spec fn spec_ending_slot(cache: CacheView, cell: HEALPixCell) -> Option<int> {
    if cache.has_full(cell) {
        cache.slot_of(cell)
    } else {
        cache.nearest_full_above(cell)
    }
}

/// The entry that is blended from, towards the entry `ending`: the full
/// entry nearest above the cell of `ending`, else `ending` itself.
pub open spec fn spec_starting_slot(cache: CacheView, ending: int) -> int {
    match cache.nearest_full_above(cache.slots[ending].cell) {
        Some(f) => f,
        None => ending,
    }
}

/// What a visible cell is drawn from. A cell inside the coverage that is
/// resident is blended from one entry to another. Any other cell is drawn
/// in black where missing pixels are opaque, and is not drawn at all
/// where they are transparent.
pub open spec fn spec_draw_data(
    cache: CacheView,
    by_side: int,
    opaque_default: bool,
    in_coverage: bool,
    cell: HEALPixCell,
    now: Time,
) -> Option<HpxDrawData> {
    let ending = if in_coverage {
        spec_ending_slot(cache, cell)
    } else {
        None
    };
    match ending {
        Some(e) => Some(
            HpxDrawData::spec_from_texture(
                cache.slots[spec_starting_slot(cache, e)],
                cache.slots[e],
                cell,
                by_side,
                now,
            ),
        ),
        None => if opaque_default {
            Some(HpxDrawData::spec_new(cell))
        } else {
            None
        },
    }
}

/// A cell that is not resident, or lies outside the coverage, is drawn in
/// black where missing pixels are opaque and is not drawn where they are
/// transparent; any other cell is drawn from entries of the atlas.
pub proof fn lemma_draw_data_of_missing_cell(
    cache: CacheView,
    by_side: int,
    opaque_default: bool,
    in_coverage: bool,
    cell: HEALPixCell,
    now: Time,
)
    ensures
        !(in_coverage && cache.is_resident(cell)) ==> spec_draw_data(
            cache,
            by_side,
            opaque_default,
            in_coverage,
            cell,
            now,
        ) == (if opaque_default {
            Some(HpxDrawData::spec_new(cell))
        } else {
            None
        }),
        in_coverage && cache.is_resident(cell) ==> spec_draw_data(
            cache,
            by_side,
            opaque_default,
            in_coverage,
            cell,
            now,
        ) is Some && spec_ending_slot(cache, cell) is Some && spec_draw_data(
            cache,
            by_side,
            opaque_default,
            in_coverage,
            cell,
            now,
        )->Some_0.start_time == cache.slots[spec_ending_slot(
            cache,
            cell,
        )->Some_0].effective_start_time(now),
{
}

/// Whether `cell` lies inside the coverage `moc`; without a coverage every
/// cell does.
pub open spec fn spec_in_coverage(moc: Option<HEALPixCoverage>, cell: HEALPixCell) -> bool {
    match moc {
        Some(m) => spec_intersects_cell(m@, cell),
        None => true,
    }
}

/// Depth of the tiles to fetch for a view at depth `texture_depth`: none
/// but the base cells while the per-pixel path draws; else `delta_depth`
/// below the view, within the orders that the survey has.
pub open spec fn spec_tile_depth(cfg: &HiPSConfig, texture_depth: u8, raytracing: bool) -> int {
    if raytracing {
        0
    } else {
        let wanted = texture_depth + cfg.delta_depth;
        let capped = if wanted <= cfg.max_depth_tile {
            wanted
        } else {
            cfg.max_depth_tile as int
        };
        if capped >= cfg.min_depth_tile {
            capped
        } else {
            cfg.min_depth_tile as int
        }
    }
}

/// The tiles that the cells `cells` of a view call for: for each cell in
/// turn, all the tiles of the entry that holds it, `delta_depth` levels
/// below the entry's cell.
pub open spec fn spec_tile_candidates(cells: Seq<HEALPixCell>, delta_depth: nat) -> Seq<
    HEALPixCell,
>
    decreases cells.len(),
{
    if cells.len() == 0 {
        Seq::empty()
    } else {
        spec_tile_candidates(cells.drop_last(), delta_depth) + spec_descendants(
            cells.last().spec_ancestor(delta_depth),
            delta_depth,
        )
    }
}

/// Whether the tile `tile` is to be fetched: it lies inside the coverage
/// and the cache does not show it.
pub open spec fn spec_is_new_tile(
    cache: CacheView,
    moc: Option<HEALPixCoverage>,
    delta_depth: nat,
    tile: HEALPixCell,
) -> bool {
    spec_in_coverage(moc, tile) && !cache.covers_tile(tile, delta_depth)
}

/// The tiles to fetch among `candidates`: those that are to be fetched,
/// each once, in the order in which they first occur.
pub open spec fn spec_new_tiles(
    candidates: Seq<HEALPixCell>,
    cache: CacheView,
    moc: Option<HEALPixCoverage>,
    delta_depth: nat,
) -> Seq<HEALPixCell>
    decreases candidates.len(),
{
    if candidates.len() == 0 {
        Seq::empty()
    } else {
        let earlier = spec_new_tiles(candidates.drop_last(), cache, moc, delta_depth);
        let tile = candidates.last();
        if !candidates.drop_last().contains(tile) && spec_is_new_tile(
            cache,
            moc,
            delta_depth,
            tile,
        ) {
            earlier.push(tile)
        } else {
            earlier
        }
    }
}

/// The cache after the tiles `candidates` came into view: for each tile
/// inside the coverage, the entry bound to the cell that holds it, else
/// the full entry nearest above that cell, is marked as used during the
/// frame.
pub open spec fn spec_after_scan(
    cache: CacheView,
    candidates: Seq<HEALPixCell>,
    moc: Option<HEALPixCoverage>,
    delta_depth: nat,
) -> CacheView
    decreases candidates.len(),
{
    if candidates.len() == 0 {
        cache
    } else {
        let earlier = spec_after_scan(cache, candidates.drop_last(), moc, delta_depth);
        if spec_in_coverage(moc, candidates.last()) {
            earlier.after_touch(candidates.last().spec_ancestor(delta_depth))
        } else {
            earlier
        }
    }
}

/// The tiles to fetch among the tiles `needed`: those that are not awaited
/// already, where `in_flight` holds the encodings of the cells of the
/// tiles that are.
pub open spec fn spec_to_fetch(needed: Seq<HEALPixCell>, in_flight: Set<u64>) -> Seq<HEALPixCell>
    decreases needed.len(),
{
    if needed.len() == 0 {
        Seq::empty()
    } else {
        let earlier = spec_to_fetch(needed.drop_last(), in_flight);
        if in_flight.contains(needed.last().spec_uniq() as u64) {
            earlier
        } else {
            earlier.push(needed.last())
        }
    }
}

/// The tiles that are awaited once the tiles `tiles` have been asked for.
pub open spec fn spec_awaited(in_flight: Set<u64>, tiles: Seq<HEALPixCell>) -> Set<u64>
    decreases tiles.len(),
{
    if tiles.len() == 0 {
        in_flight
    } else {
        spec_awaited(in_flight, tiles.drop_last()).insert(tiles.last().spec_uniq() as u64)
    }
}

/// The cache after an entry was reserved, one tile after the other, for
/// the cell that holds each of `tiles`.
pub open spec fn spec_after_reserve_all(
    cache: CacheView,
    tiles: Seq<HEALPixCell>,
    delta_depth: nat,
    time_request: Time,
) -> CacheView
    decreases tiles.len(),
{
    if tiles.len() == 0 {
        cache
    } else {
        spec_after_reserve_all(cache, tiles.drop_last(), delta_depth, time_request).after_reserve(
            tiles.last().spec_ancestor(delta_depth),
            time_request,
        )
    }
}

/// Marking entries as used changes neither the entries nor what the
/// cache shows.
pub proof fn lemma_after_scan_keeps_slots(
    cache: CacheView,
    candidates: Seq<HEALPixCell>,
    moc: Option<HEALPixCoverage>,
    delta_depth: nat,
)
    ensures
        spec_after_scan(cache, candidates, moc, delta_depth).slots == cache.slots,
        spec_after_scan(cache, candidates, moc, delta_depth).capacity == cache.capacity,
        spec_after_scan(cache, candidates, moc, delta_depth).available == cache.available,
    decreases candidates.len(),
{
    if candidates.len() > 0 {
        lemma_after_scan_keeps_slots(cache, candidates.drop_last(), moc, delta_depth);
    }
}

/// The tiles that the cells of a view call for, in a list.
pub fn tile_candidates(cells: &Vec<HEALPixCell>, delta_depth: u8) -> (candidates: Vec<HEALPixCell>)
    requires
        all_cells_wf(cells@),
        delta_depth <= 9,
    ensures
        candidates@ == spec_tile_candidates(cells@, delta_depth as nat),
        all_cells_wf(candidates@),
{
    let n: usize = cells.len();
    let mut candidates: Vec<HEALPixCell> = Vec::new();
    let mut i: usize = 0;
    proof {
        vstd::arithmetic::power2::lemma2_to64();
        crate::cell::lemma_cells_per_base_monotonic(delta_depth as nat, 9);
    }
    while i < n
        invariant
            all_cells_wf(cells@),
            delta_depth <= 9,
            cells_per_base(delta_depth as nat) <= cells_per_base(9),
            cells_per_base(9) == 0x40000,
            n == cells@.len(),
            i <= n,
            candidates@ == spec_tile_candidates(cells@.take(i as int), delta_depth as nat),
            all_cells_wf(candidates@),
        decreases n - i,
    {
        let texture_cell: HEALPixCell = cells[i].get_texture_cell(delta_depth);
        proof {
            crate::cell::lemma_ancestor_wf(cells@[i as int], delta_depth as nat);
        }
        let mut tiles: Vec<HEALPixCell> = texture_cell.get_tile_cells(delta_depth);
        let ghost before = candidates@;
        proof {
            assert(tiles@ =~= spec_descendants(texture_cell, delta_depth as nat));
            assert(cells@.take(i + 1).drop_last() =~= cells@.take(i as int));
            assert(cells@.take(i + 1).last() == cells@[i as int]);
        }
        candidates.append(&mut tiles);
        proof {
            assert(candidates@ =~= before + spec_descendants(texture_cell, delta_depth as nat));
            assert forall|k: int| 0 <= k < candidates@.len() implies (#[trigger] candidates@[k]).wf()
                by {
                if k < before.len() {
                    assert(candidates@[k] == before[k]);
                } else {
                    crate::cell::lemma_descendant_wf(
                        texture_cell,
                        delta_depth as nat,
                        (k - before.len()) as nat,
                    );
                }
            }
        }
        i = i + 1;
    }
    assert(cells@.take(n as int) =~= cells@);
    candidates
}

/// Most vertices that a mesh can have: as many as its 16-bit indices tell
/// apart.
pub const MAX_NUM_VERTICES: usize = 65536;

/// One quad of the mesh: the mesh cell whose four corners are its
/// vertices, what it is drawn from, and the place `(i, j)` of the mesh
/// cell on the grid of `nside * nside` mesh cells that its visible cell is
/// cut into.
#[derive(Clone, Copy, Debug, PartialEq, Eq, Structural, Hash)]
pub struct MeshQuad {
    /// Position, in the mesh's list, of what the quad is drawn from.
    pub draw: usize,
    pub cell: HEALPixCell,
    pub i: u32,
    pub j: u32,
    pub nside: u32,
}

impl MeshQuad {
    /// Place of the `k`-th vertex of the quad on the grid of its visible
    /// cell, as parts along the two sides of the cell's square in the
    /// atlas: the vertices go round the mesh cell from its first corner.
    pub open spec fn spec_corner(self, k: int) -> (nat, nat) {
        let di: nat = if k == 1 || k == 2 {
            1
        } else {
            0
        };
        let dj: nat = if k == 2 || k == 3 {
            1
        } else {
            0
        };
        ((self.j + dj) as nat, (self.i + di) as nat)
    }

    /// Place of the `k`-th vertex of the quad on the grid of its visible
    /// cell.
    pub fn corner(&self, k: usize) -> (place: (u64, u64))
        requires
            k < 4,
        ensures
            (place.0 as nat, place.1 as nat) == self.spec_corner(k as int),
    {
        let di: u64 = if k == 1 || k == 2 { 1 } else { 0 };
        let dj: u64 = if k == 2 || k == 3 { 1 } else { 0 };
        (self.j as u64 + dj, self.i as u64 + di)
    }
}

/// The mesh of a frame: what each drawn cell is drawn from, the quads in
/// drawing order, and the indices of the two triangles of each quad, the
/// four vertices of quad `q` being numbered from `4 * q`.
#[derive(Debug)]
pub struct Mesh {
    pub draws: Vec<HpxDrawData>,
    pub quads: Vec<MeshQuad>,
    pub idx_vertices: Vec<u16>,
}

/// What a mesh stands for, without its indices.
pub struct MeshView {
    pub draws: Seq<HpxDrawData>,
    pub quads: Seq<MeshQuad>,
}

/// What a mesh is made from: the cache, the layout of the atlas, what
/// stands for missing pixels, the coverage, the view and the time.
pub struct FrameView {
    pub cache: CacheView,
    pub by_side: int,
    pub opaque_default: bool,
    pub moc: Option<HEALPixCoverage>,
    pub rules: RefinementRules,
    pub aperture: u64,
    pub num_sub: nat,
    pub now: Time,
}

/// Levels of the mesh of `cell` when the view asks for `num_sub` levels:
/// as many, within what brings the mesh to depth [`MIN_MESH_DEPTH`] at
/// least and to the deepest level at most.
pub open spec fn spec_mesh_level(cell: HEALPixCell, num_sub: nat) -> nat {
    let lowest: nat = if cell.0 < MIN_MESH_DEPTH {
        (MIN_MESH_DEPTH - cell.0) as nat
    } else {
        0
    };
    let highest: nat = (MAX_DEPTH - cell.0) as nat;
    if num_sub < lowest {
        lowest
    } else if num_sub > highest {
        highest
    } else {
        num_sub
    }
}

/// The quad of the mesh cell `sub` of the visible cell `cell`.
pub open spec fn spec_quad(cell: HEALPixCell, sub: HEALPixCell, draw: nat) -> MeshQuad {
    let levels = (sub.0 - cell.0) as nat;
    MeshQuad {
        draw: draw as usize,
        cell: sub,
        i: sub.spec_offset(levels).0 as u32,
        j: sub.spec_offset(levels).1 as u32,
        nside: pow2(levels) as u32,
    }
}

/// The quads of the mesh cells `subs` of the visible cell `cell`.
pub open spec fn spec_cell_quads(cell: HEALPixCell, subs: Seq<HEALPixCell>, draw: nat) -> Seq<
    MeshQuad,
> {
    Seq::new(subs.len(), |k: int| spec_quad(cell, subs[k], draw))
}

/// The mesh of the visible cells `cells`: each cell that is drawn, in
/// turn, adds what it is drawn from and the quads of its mesh cells.
pub open spec fn spec_mesh(frame: FrameView, cells: Seq<HEALPixCell>) -> MeshView
    decreases cells.len(),
{
    if cells.len() == 0 {
        MeshView { draws: Seq::empty(), quads: Seq::empty() }
    } else {
        let earlier = spec_mesh(frame, cells.drop_last());
        let cell = cells.last();
        match spec_draw_data(
            frame.cache,
            frame.by_side,
            frame.opaque_default,
            spec_in_coverage(frame.moc, cell),
            cell,
            frame.now,
        ) {
            Some(data) => MeshView {
                draws: earlier.draws.push(data),
                quads: earlier.quads + spec_cell_quads(
                    cell,
                    spec_subdivide_hpx_cell(
                        cell,
                        spec_mesh_level(cell, frame.num_sub),
                        frame.rules,
                        frame.aperture,
                    ),
                    earlier.draws.len(),
                ),
            },
            None => earlier,
        }
    }
}

/// Which vertex of its quad the `t`-th index of a quad names: the two
/// triangles are the vertices 0, 1, 2 and 0, 2, 3.
pub open spec fn spec_corner(t: int) -> int {
    if t == 0 || t == 3 {
        0
    } else if t == 1 {
        1
    } else if t == 2 || t == 4 {
        2
    } else {
        3
    }
}

/// The indices of a mesh of `num_quads` quads.
pub open spec fn spec_indices(num_quads: nat) -> Seq<u16> {
    Seq::new(6 * num_quads, |t: int| (4 * (t / 6) + spec_corner(t % 6)) as u16)
}

/// The indices of a mesh of `num_quads` quads.
pub fn mesh_indices(num_quads: usize) -> (indices: Vec<u16>)
    requires
        4 * num_quads <= MAX_NUM_VERTICES,
    ensures
        indices@ == spec_indices(num_quads as nat),
{
    let mut indices: Vec<u16> = Vec::new();
    let mut q: usize = 0;
    while q < num_quads
        invariant
            4 * num_quads <= MAX_NUM_VERTICES,
            q <= num_quads,
            indices@ == spec_indices(q as nat),
        decreases num_quads - q,
    {
        let base: u16 = (4 * q) as u16;
        let ghost before = indices@;
        indices.push(base);
        indices.push(base + 1);
        indices.push(base + 2);
        indices.push(base);
        indices.push(base + 2);
        indices.push(base + 3);
        proof {
            let after = indices@;
            let want = spec_indices((q + 1) as nat);
            assert(after.len() == want.len());
            assert forall|t: int| 0 <= t < after.len() implies after[t] == want[t] by {
                if t < 6 * q {
                    assert(after[t] == before[t]);
                } else {
                    assert(t / 6 == q);
                    assert(t % 6 == t - 6 * q);
                }
            }
            assert(after =~= want);
        }
        q = q + 1;
    }
    indices
}

/// Levels of subdivision that a view asks for: the most that one of its
/// cells `cells` needs, where `large` tells which cells have a footprint
/// that calls for a finer mesh.
pub open spec fn spec_max_subdivision(
    large: spec_fn(HEALPixCell) -> bool,
    cells: Seq<HEALPixCell>,
) -> nat
    decreases cells.len(),
{
    if cells.len() == 0 {
        0
    } else {
        max2(
            spec_max_subdivision(large, cells.drop_last()),
            spec_num_hpx_subdivision(large, cells.last()),
        )
    }
}

/// Whether the per-pixel path draws the frame: the field of view exceeds
/// the one from which the whole sky is seen.
pub fn is_raytracing(aperture: u64, full_sky_aperture: u64) -> (r: bool)
    ensures
        r == (aperture > full_sky_aperture),
{
    aperture > full_sky_aperture
}

/// What became of the mesh during a frame.
#[derive(Debug)]
pub enum MeshUpdate {
    /// The mesh of the frame before still holds.
    Unchanged,
    /// The mesh was made anew.
    Rebuilt(Mesh),
    /// The mesh would have more vertices than [`MAX_NUM_VERTICES`]:
    /// nothing is drawn.
    Overflow,
}

/// What is handed to the graphics interface to draw the frame.
#[derive(Debug)]
pub enum DrawCall {
    /// One primitive that covers the sphere; the atlas is looked up pixel
    /// by pixel with the records of its entries.
    Raytrace { shader: ShaderFiles, textures: Vec<TextureMetadata>, opaque_default: bool },
    /// The triangles of the mesh that was made last.
    Raster { shader: ShaderFiles, num_idx: usize },
}

/// One survey on the screen.
pub struct HiPS2D {
    buffer: HiPS2DBuffer,
    footprint_moc: Option<HEALPixCoverage>,
    hpx_cells_in_view: Vec<HEALPixCell>,
    num_idx: usize,
    rules: RefinementRules,
    in_flight: HashSet<u64>,
}

impl HiPS2D {
    /// The tile cache of the survey.
    pub closed spec fn spec_buffer(&self) -> &HiPS2DBuffer {
        &self.buffer
    }

    /// The coverage of the survey, once it is known.
    pub closed spec fn spec_moc(&self) -> Option<HEALPixCoverage> {
        self.footprint_moc
    }

    /// The cells that the view showed when it was last looked at.
    pub closed spec fn spec_cells_in_view(&self) -> Seq<HEALPixCell> {
        self.hpx_cells_in_view@
    }

    /// Number of indices of the mesh that was made last.
    pub closed spec fn spec_num_idx(&self) -> usize {
        self.num_idx
    }

    /// The thresholds of the pass that cuts cells at special places.
    pub closed spec fn spec_rules(&self) -> RefinementRules {
        self.rules
    }

    /// The tiles that were asked for and have not arrived, by the encoding
    /// of their cells.
    pub closed spec fn spec_in_flight(&self) -> Set<u64> {
        self.in_flight@
    }

    /// What the mesh of the visible cells is made from, for a view of
    /// `aperture` milliarcseconds that asks for `num_sub` levels, at `now`.
    pub open spec fn spec_frame(&self, num_sub: nat, aperture: u64, now: Time) -> FrameView {
        FrameView {
            cache: self.spec_buffer()@,
            by_side: self.spec_config().num_textures_by_side_slice as int,
            opaque_default: self.spec_config().format.channel.spec_has_opaque_default(),
            moc: self.spec_moc(),
            rules: self.spec_rules(),
            aperture,
            num_sub,
            now,
        }
    }

    /// The configuration of the survey.
    pub open spec fn spec_config(&self) -> &HiPSConfig {
        self.spec_buffer().spec_config()
    }

    /// The cache is well formed, and the coverage and the cells in view
    /// are made of cells of the pixelization.
    pub open spec fn wf(&self) -> bool {
        &&& self.spec_buffer().wf()
        &&& self.spec_moc() is Some ==> self.spec_moc()->Some_0.wf()
        &&& all_cells_wf(self.spec_cells_in_view())
    }

    /// A survey of which nothing is loaded and nothing is in view.
    pub fn new(config: HiPSConfig) -> (hips: HiPS2D)
        requires
            config.wf(),
        ensures
            hips.wf(),
            *hips.spec_config() == config,
            hips.spec_buffer()@.slots.len() == 0,
            hips.spec_moc() is None,
            hips.spec_cells_in_view().len() == 0,
            hips.spec_num_idx() == 0,
            hips.spec_rules() == RefinementRules::spec_standard(),
            hips.spec_in_flight() == Set::<u64>::empty(),
    {
        HiPS2D {
            buffer: HiPS2DBuffer::new(config),
            footprint_moc: None,
            hpx_cells_in_view: Vec::new(),
            num_idx: 0,
            rules: RefinementRules::standard(),
            in_flight: HashSet::new(),
        }
    }

    /// The tile cache of the survey.
    pub fn buffer(&self) -> (buffer: &HiPS2DBuffer)
        ensures
            buffer == self.spec_buffer(),
    {
        &self.buffer
    }

    /// The configuration of the survey.
    pub fn get_config(&self) -> (cfg: &HiPSConfig)
        ensures
            cfg == self.spec_config(),
    {
        self.buffer.config()
    }

    /// Whether the survey covers the whole sky.
    pub fn is_allsky(&self) -> (r: bool)
        ensures
            r == self.spec_config().is_allsky,
    {
        self.buffer.config().is_allsky
    }

    /// Sets the coverage of the survey.
    pub fn set_moc(&mut self, moc: HEALPixCoverage)
        requires
            old(self).wf(),
            moc.wf(),
        ensures
            final(self).wf(),
            final(self).spec_moc() == Some(moc),
            final(self).spec_buffer() == old(self).spec_buffer(),
            final(self).spec_cells_in_view() == old(self).spec_cells_in_view(),
            final(self).spec_num_idx() == old(self).spec_num_idx(),
            final(self).spec_rules() == old(self).spec_rules(),
            final(self).spec_in_flight() == old(self).spec_in_flight(),
    {
        self.footprint_moc = Some(moc);
    }

    /// The coverage of the survey, once it is known.
    pub fn get_moc(&self) -> (moc: Option<&HEALPixCoverage>)
        ensures
            match moc {
                Some(m) => self.spec_moc() == Some(*m),
                None => self.spec_moc() is None,
            },
    {
        self.footprint_moc.as_ref()
    }

    /// Whether `cell` lies inside the coverage of the survey.
    pub fn in_coverage(&self, cell: &HEALPixCell) -> (r: bool)
        requires
            self.wf(),
            cell.wf(),
        ensures
            r == spec_in_coverage(self.spec_moc(), *cell),
    {
        match &self.footprint_moc {
            Some(moc) => moc.intersects_cell(cell),
            None => true,
        }
    }

    /// Whether the cache shows the tile `cell`.
    pub fn contains_tile(&self, cell: &HEALPixCell) -> (r: bool)
        requires
            self.wf(),
            cell.wf(),
        ensures
            r == self.spec_buffer()@.covers_tile(*cell, self.spec_config().delta_depth as nat),
    {
        self.buffer.contains_tile(cell)
    }

    /// The query that fetches the tile `cell`.
    pub fn get_tile_query(&self, cell: &HEALPixCell) -> (tile: Tile)
        ensures
            tile.cell == *cell,
            tile.channel is None,
            tile.url@ == crate::query::spec_tile_url(
                self.spec_config().root_url@,
                cell.0 as nat,
                cell.1 as nat,
                None,
                self.spec_config().format.ext.spec_ext_file(),
            ),
            tile.id@ == crate::query::spec_tile_id(
                self.spec_config().creator_did@,
                cell.0 as nat,
                cell.1 as nat,
                None,
                self.spec_config().format.ext.spec_ext_file(),
            ),
    {
        let cfg = self.get_config();
        Tile::new(cell, None, cfg)
    }

    /// Depth of the cells to ask the view for, before the mesh is made,
    /// for a view at depth `texture_depth`.
    pub fn texture_depth_in_view(&self, texture_depth: u8) -> (depth: u8)
        ensures
            depth == (if texture_depth <= self.spec_config().max_depth_texture {
                texture_depth
            } else {
                self.spec_config().max_depth_texture
            }),
    {
        let max: u8 = self.get_config().get_max_depth_texture();
        if texture_depth <= max {
            texture_depth
        } else {
            max
        }
    }

    /// Depth of the tiles to fetch for a view at depth `texture_depth`.
    pub fn tile_depth_in_view(&self, texture_depth: u8, raytracing: bool) -> (depth: u8)
        requires
            self.wf(),
        ensures
            depth == spec_tile_depth(self.spec_config(), texture_depth, raytracing),
    {
        if raytracing {
            return 0;
        }
        let cfg = self.get_config();
        let wanted: u16 = texture_depth as u16 + cfg.delta_depth() as u16;
        let capped: u8 = if wanted <= cfg.get_max_depth_tile() as u16 {
            wanted as u8
        } else {
            cfg.get_max_depth_tile()
        };
        if capped >= cfg.get_min_depth_tile() {
            capped
        } else {
            cfg.get_min_depth_tile()
        }
    }

    /// Takes the cells that the view shows now, and tells whether they
    /// differ from those it showed when it was last looked at.
    pub fn retrieve_cells_in_camera(&mut self, cells: Vec<HEALPixCell>) -> (changed: bool)
        requires
            old(self).wf(),
            all_cells_wf(cells@),
        ensures
            final(self).wf(),
            changed == (cells@ != old(self).spec_cells_in_view()),
            final(self).spec_cells_in_view() == cells@,
            final(self).spec_buffer() == old(self).spec_buffer(),
            final(self).spec_moc() == old(self).spec_moc(),
            final(self).spec_num_idx() == old(self).spec_num_idx(),
            final(self).spec_rules() == old(self).spec_rules(),
            final(self).spec_in_flight() == old(self).spec_in_flight(),
    {
        let n: usize = cells.len();
        let mut changed: bool = n != self.hpx_cells_in_view.len();
        if !changed {
            let mut i: usize = 0;
            while i < n && !changed
                invariant
                    n == cells@.len(),
                    n == self.hpx_cells_in_view@.len(),
                    i <= n,
                    !changed ==> forall|k: int|
                        0 <= k < i ==> cells@[k] == self.hpx_cells_in_view@[k],
                    changed ==> cells@ != self.hpx_cells_in_view@,
                decreases n - i,
            {
                if cells[i] != self.hpx_cells_in_view[i] {
                    changed = true;
                }
                i = i + 1;
            }
            if !changed {
                assert(cells@ =~= self.hpx_cells_in_view@);
            }
        }
        self.hpx_cells_in_view = cells;
        changed
    }

    /// Raises the priority of the entry that shows the tile `cell`, and
    /// tells whether the cache shows the tile.
    pub fn update_priority_tile(&mut self, cell: &HEALPixCell) -> (r: bool)
        requires
            old(self).wf(),
            cell.wf(),
        ensures
            final(self).wf(),
            final(self).spec_config() == old(self).spec_config(),
            final(self).spec_moc() == old(self).spec_moc(),
            final(self).spec_cells_in_view() == old(self).spec_cells_in_view(),
            final(self).spec_num_idx() == old(self).spec_num_idx(),
            final(self).spec_rules() == old(self).spec_rules(),
            final(self).spec_in_flight() == old(self).spec_in_flight(),
            r == old(self).spec_buffer()@.covers_tile(
                *cell,
                old(self).spec_config().delta_depth as nat,
            ),
            final(self).spec_buffer()@ == old(self).spec_buffer()@.after_touch_tile(
                *cell,
                old(self).spec_config().delta_depth as nat,
            ),
    {
        self.buffer.update_priority_tile(cell)
    }

    /// Takes in the tile `cell`, received at `now`, and returns the
    /// position of the entry that holds it; a tile whose entry has been
    /// given to another cell is dropped. Either way the tile is no longer
    /// awaited. The cache must not show the tile already.
    pub fn add_tile(&mut self, cell: &HEALPixCell, now: Time) -> (r: Option<usize>)
        requires
            old(self).wf(),
            cell.wf(),
            !old(self).spec_buffer()@.covers_tile(
                *cell,
                old(self).spec_config().delta_depth as nat,
            ),
        ensures
            final(self).wf(),
            final(self).spec_config() == old(self).spec_config(),
            final(self).spec_moc() == old(self).spec_moc(),
            final(self).spec_cells_in_view() == old(self).spec_cells_in_view(),
            final(self).spec_num_idx() == old(self).spec_num_idx(),
            final(self).spec_rules() == old(self).spec_rules(),
            final(self).spec_in_flight() == old(self).spec_in_flight().remove(
                cell.spec_uniq() as u64,
            ),
            final(self).spec_buffer()@ == old(self).spec_buffer()@.after_integrate(
                *cell,
                old(self).spec_config().delta_depth as nat,
                old(self).spec_config().num_tiles_per_texture as nat,
                now,
            ),
            match r {
                Some(i) => old(self).spec_buffer()@.slot_of(
                    cell.spec_ancestor(old(self).spec_config().delta_depth as nat),
                ) == Some(i as int),
                None => old(self).spec_buffer()@.slot_of(
                    cell.spec_ancestor(old(self).spec_config().delta_depth as nat),
                ) is None,
            },
    {
        let uniq: u64 = cell.uniq();
        self.in_flight.remove(&uniq);
        self.buffer.integrate_tile(cell, now)
    }

    /// Gives up the tile `cell`, whose fetch has failed: it is no longer
    /// awaited, and is asked for again when it next comes into view.
    pub fn abandon_tile(&mut self, cell: &HEALPixCell)
        requires
            old(self).wf(),
            cell.wf(),
        ensures
            final(self).wf(),
            final(self).spec_buffer() == old(self).spec_buffer(),
            final(self).spec_moc() == old(self).spec_moc(),
            final(self).spec_cells_in_view() == old(self).spec_cells_in_view(),
            final(self).spec_num_idx() == old(self).spec_num_idx(),
            final(self).spec_rules() == old(self).spec_rules(),
            final(self).spec_in_flight() == old(self).spec_in_flight().remove(
                cell.spec_uniq() as u64,
            ),
    {
        let uniq: u64 = cell.uniq();
        self.in_flight.remove(&uniq);
    }

    /// Whether the tile `cell` was asked for and has not arrived.
    pub fn is_in_flight(&self, cell: &HEALPixCell) -> (r: bool)
        requires
            cell.wf(),
        ensures
            r == self.spec_in_flight().contains(cell.spec_uniq() as u64),
    {
        let uniq: u64 = cell.uniq();
        self.in_flight.contains(&uniq)
    }

    /// Goes through the tiles that the cells `cells` of the view call for.
    /// The entries that they are drawn from, their own or the nearest full
    /// one above, are marked as used during the frame. For each tile that
    /// is inside the coverage and that the cache does not show, an entry
    /// of the atlas is reserved for the cell that holds it. Of those tiles
    /// the ones that are not awaited already are returned, each once, to
    /// be fetched, and are awaited from now on.
    pub fn look_for_new_tiles(&mut self, cells: &Vec<HEALPixCell>, time_request: Time) -> (tiles:
        Vec<HEALPixCell>)
        requires
            old(self).wf(),
            all_cells_wf(cells@),
        ensures
            final(self).wf(),
            final(self).spec_config() == old(self).spec_config(),
            final(self).spec_moc() == old(self).spec_moc(),
            final(self).spec_cells_in_view() == old(self).spec_cells_in_view(),
            final(self).spec_num_idx() == old(self).spec_num_idx(),
            final(self).spec_rules() == old(self).spec_rules(),
            all_cells_wf(tiles@),
            tiles@ == spec_to_fetch(
                spec_new_tiles(
                    spec_tile_candidates(cells@, old(self).spec_config().delta_depth as nat),
                    old(self).spec_buffer()@,
                    old(self).spec_moc(),
                    old(self).spec_config().delta_depth as nat,
                ),
                old(self).spec_in_flight(),
            ),
            final(self).spec_in_flight() == spec_awaited(old(self).spec_in_flight(), tiles@),
            final(self).spec_buffer()@ == spec_after_reserve_all(
                spec_after_scan(
                    old(self).spec_buffer()@,
                    spec_tile_candidates(cells@, old(self).spec_config().delta_depth as nat),
                    old(self).spec_moc(),
                    old(self).spec_config().delta_depth as nat,
                ),
                spec_new_tiles(
                    spec_tile_candidates(cells@, old(self).spec_config().delta_depth as nat),
                    old(self).spec_buffer()@,
                    old(self).spec_moc(),
                    old(self).spec_config().delta_depth as nat,
                ),
                old(self).spec_config().delta_depth as nat,
                time_request,
            ),
    {
        let dd: u8 = self.buffer.config().delta_depth();
        let ghost start = self.buffer@;
        let ghost moc = self.footprint_moc;
        let candidates: Vec<HEALPixCell> = tile_candidates(cells, dd);
        let n: usize = candidates.len();
        let mut considered: HashSet<u64> = HashSet::new();
        let mut needed: Vec<HEALPixCell> = Vec::new();
        let mut i: usize = 0;
        while i < n
            invariant
                self.wf(),
                self.spec_config() == old(self).spec_config(),
                self.footprint_moc == moc,
                moc == old(self).spec_moc(),
                self.hpx_cells_in_view == old(self).hpx_cells_in_view,
                self.num_idx == old(self).num_idx,
                self.rules == old(self).rules,
                self.in_flight == old(self).in_flight,
                dd == self.spec_config().delta_depth,
                all_cells_wf(candidates@),
                n == candidates@.len(),
                i <= n,
                all_cells_wf(needed@),
                forall|k: int|
                    0 <= k < i ==> considered@.contains(
                        (#[trigger] candidates@[k]).spec_uniq() as u64,
                    ),
                forall|u: u64| #[trigger]
                    considered@.contains(u) ==> exists|k: int|
                        0 <= k < i && (#[trigger] candidates@[k]).spec_uniq() == u,
                needed@ == spec_new_tiles(candidates@.take(i as int), start, moc, dd as nat),
                self.buffer@ == spec_after_scan(start, candidates@.take(i as int), moc, dd as nat),
            decreases n - i,
        {
            let tile: HEALPixCell = candidates[i];
            let uniq: u64 = tile.uniq();
            let ghost prefix = candidates@.take(i as int);
            proof {
                assert(candidates@.take(i + 1).drop_last() =~= prefix);
                assert(candidates@.take(i + 1).last() == tile);
                lemma_after_scan_keeps_slots(start, prefix, moc, dd as nat);
                if prefix.contains(tile) {
                    let k = choose|k: int| 0 <= k < prefix.len() && prefix[k] == tile;
                    assert(candidates@[k] == tile);
                }
                if considered@.contains(uniq) {
                    let k = choose|k: int|
                        0 <= k < i && (#[trigger] candidates@[k]).spec_uniq() == uniq;
                    crate::cell::lemma_uniq_injective(candidates@[k], tile);
                    assert(prefix[k] == tile);
                }
            }
            let seen: bool = considered.contains(&uniq);
            assert(seen == prefix.contains(tile));
            considered.insert(uniq);
            let in_coverage: bool = self.in_coverage(&tile);
            let mut shown: bool = false;
            if in_coverage {
                shown = self.buffer.contains_tile(&tile);
                let texture_cell: HEALPixCell = tile.get_texture_cell(dd);
                self.buffer.touch(&texture_cell);
            }
            proof {
                assert(self.buffer@.slots == start.slots);
                assert(shown == (in_coverage && start.covers_tile(tile, dd as nat))) by {
                    let scanned = spec_after_scan(start, prefix, moc, dd as nat);
                    assert(scanned.slot_of(tile.spec_ancestor(dd as nat)) == start.slot_of(
                        tile.spec_ancestor(dd as nat),
                    ));
                }
            }
            if !seen && in_coverage && !shown {
                needed.push(tile);
            }
            proof {
                assert forall|k: int| 0 <= k < i + 1 implies considered@.contains(
                    (#[trigger] candidates@[k]).spec_uniq() as u64,
                ) by {}
                assert forall|u: u64| #[trigger] considered@.contains(u) implies exists|k: int|
                    0 <= k < i + 1 && (#[trigger] candidates@[k]).spec_uniq() == u by {
                    if u == uniq {
                        assert(candidates@[i as int].spec_uniq() == u);
                    } else {
                        let k = choose|k: int|
                            0 <= k < i && (#[trigger] candidates@[k]).spec_uniq() == u;
                        assert(candidates@[k].spec_uniq() == u);
                    }
                }
            }
            i = i + 1;
        }
        assert(candidates@.take(n as int) =~= candidates@);
        let ghost scanned = self.buffer@;
        let m: usize = needed.len();
        let mut j: usize = 0;
        while j < m
            invariant
                self.wf(),
                self.spec_config() == old(self).spec_config(),
                self.footprint_moc == moc,
                self.hpx_cells_in_view == old(self).hpx_cells_in_view,
                self.num_idx == old(self).num_idx,
                self.rules == old(self).rules,
                self.in_flight == old(self).in_flight,
                dd == self.spec_config().delta_depth,
                all_cells_wf(needed@),
                m == needed@.len(),
                j <= m,
                self.buffer@ == spec_after_reserve_all(
                    scanned,
                    needed@.take(j as int),
                    dd as nat,
                    time_request,
                ),
            decreases m - j,
        {
            let texture_cell: HEALPixCell = needed[j].get_texture_cell(dd);
            proof {
                assert(needed@.take(j + 1).drop_last() =~= needed@.take(j as int));
                assert(needed@.take(j + 1).last() == needed@[j as int]);
            }
            self.buffer.reserve_slot_for(&texture_cell, time_request);
            j = j + 1;
        }
        let ghost old_buffer = self.buffer;
        let mut tiles: Vec<HEALPixCell> = Vec::new();
        let mut k: usize = 0;
        while k < m
            invariant
                self.in_flight == old(self).in_flight,
                all_cells_wf(needed@),
                all_cells_wf(tiles@),
                m == needed@.len(),
                k <= m,
                tiles@ == spec_to_fetch(needed@.take(k as int), self.in_flight@),
            decreases m - k,
        {
            let tile: HEALPixCell = needed[k];
            let uniq: u64 = tile.uniq();
            proof {
                assert(needed@.take(k + 1).drop_last() =~= needed@.take(k as int));
                assert(needed@.take(k + 1).last() == tile);
            }
            if !self.in_flight.contains(&uniq) {
                tiles.push(tile);
            }
            k = k + 1;
        }
        assert(needed@.take(m as int) =~= needed@);
        let count: usize = tiles.len();
        let mut t: usize = 0;
        while t < count
            invariant
                self.wf(),
                self.buffer == old_buffer,
                self.footprint_moc == moc,
                self.hpx_cells_in_view == old(self).hpx_cells_in_view,
                self.num_idx == old(self).num_idx,
                self.rules == old(self).rules,
                all_cells_wf(tiles@),
                count == tiles@.len(),
                t <= count,
                self.in_flight@ == spec_awaited(old(self).in_flight@, tiles@.take(t as int)),
            decreases count - t,
        {
            let uniq: u64 = tiles[t].uniq();
            proof {
                assert(tiles@.take(t + 1).drop_last() =~= tiles@.take(t as int));
                assert(tiles@.take(t + 1).last() == tiles@[t as int]);
            }
            self.in_flight.insert(uniq);
            t = t + 1;
        }
        assert(tiles@.take(count as int) =~= tiles@);
        tiles
    }

    /// Number of indices of the mesh that was made last.
    pub fn num_idx(&self) -> (n: usize)
        ensures
            n == self.spec_num_idx(),
    {
        self.num_idx
    }

    /// Replaces the thresholds of the pass that cuts cells at special
    /// places.
    pub fn set_refinement_rules(&mut self, rules: RefinementRules)
        requires
            old(self).wf(),
        ensures
            final(self).wf(),
            final(self).spec_rules() == rules,
            final(self).spec_in_flight() == old(self).spec_in_flight(),
            final(self).spec_buffer() == old(self).spec_buffer(),
            final(self).spec_moc() == old(self).spec_moc(),
            final(self).spec_cells_in_view() == old(self).spec_cells_in_view(),
            final(self).spec_num_idx() == old(self).spec_num_idx(),
    {
        self.rules = rules;
    }

    /// Levels of the mesh of `cell` when the view asks for `num_sub`.
    fn mesh_level(cell: &HEALPixCell, num_sub: u8) -> (n: u8)
        requires
            cell.wf(),
        ensures
            n == spec_mesh_level(*cell, num_sub as nat),
            MIN_MESH_DEPTH <= cell.0 + n <= MAX_DEPTH,
            num_sub <= MAX_HPX_CELL_SUBDIVISION ==> n <= MAX_HPX_CELL_SUBDIVISION,
    {
        let lowest: u8 = if cell.depth() < MIN_MESH_DEPTH {
            MIN_MESH_DEPTH - cell.depth()
        } else {
            0
        };
        let highest: u8 = MAX_DEPTH - cell.depth();
        if num_sub < lowest {
            lowest
        } else if num_sub > highest {
            highest
        } else {
            num_sub
        }
    }

    /// Makes the mesh of the cells in view, for a view of `aperture`
    /// milliarcseconds that asks for `num_sub` levels of subdivision, at
    /// the time `now`. There is no mesh when it would have more vertices
    /// than [`MAX_NUM_VERTICES`].
    pub fn recompute_vertices(&mut self, num_sub: u8, aperture: u64, now: Time) -> (r: Option<Mesh>)
        requires
            old(self).wf(),
            num_sub <= MAX_HPX_CELL_SUBDIVISION,
        ensures
            final(self).wf(),
            final(self).spec_buffer() == old(self).spec_buffer(),
            final(self).spec_moc() == old(self).spec_moc(),
            final(self).spec_cells_in_view() == old(self).spec_cells_in_view(),
            final(self).spec_rules() == old(self).spec_rules(),
            final(self).spec_in_flight() == old(self).spec_in_flight(),
            match r {
                Some(mesh) => {
                    let want = spec_mesh(
                        old(self).spec_frame(num_sub as nat, aperture, now),
                        old(self).spec_cells_in_view(),
                    );
                    &&& mesh.draws@ == want.draws
                    &&& mesh.quads@ == want.quads
                    &&& mesh.idx_vertices@ == spec_indices(want.quads.len())
                    &&& 4 * want.quads.len() <= MAX_NUM_VERTICES
                    &&& final(self).spec_num_idx() == 6 * want.quads.len()
                },
                None => {
                    &&& 4 * spec_mesh(
                        old(self).spec_frame(num_sub as nat, aperture, now),
                        old(self).spec_cells_in_view(),
                    ).quads.len() > MAX_NUM_VERTICES
                    &&& final(self).spec_num_idx() == 0
                },
            },
    {
        let ghost frame = self.spec_frame(num_sub as nat, aperture, now);
        let ghost cells = self.hpx_cells_in_view@;
        let n: usize = self.hpx_cells_in_view.len();
        let mut draws: Vec<HpxDrawData> = Vec::new();
        let mut quads: Vec<MeshQuad> = Vec::new();
        let mut v: usize = 0;
        while v < n
            invariant
                self.wf(),
                self == old(self),
                frame == self.spec_frame(num_sub as nat, aperture, now),
                cells == self.hpx_cells_in_view@,
                num_sub <= MAX_HPX_CELL_SUBDIVISION,
                n == cells.len(),
                v <= n,
                draws@ == spec_mesh(frame, cells.take(v as int)).draws,
                quads@ == spec_mesh(frame, cells.take(v as int)).quads,
            decreases n - v,
        {
            let cell: HEALPixCell = self.hpx_cells_in_view[v];
            proof {
                assert(cells.take(v + 1).drop_last() =~= cells.take(v as int));
                assert(cells.take(v + 1).last() == cell);
                assert(cell.wf());
            }
            if let Some(data) = self.draw_data(&cell, now) {
                let draw: usize = draws.len();
                draws.push(data);
                let level: u8 = HiPS2D::mesh_level(&cell, num_sub);
                proof {
                    vstd::arithmetic::power2::lemma2_to64();
                    crate::cell::lemma_cells_per_base_monotonic(level as nat + 2, 6);
                    assert(cells_per_base(6) == pow2(12));
                }
                let subs: Vec<HEALPixCell> = subdivide_hpx_cell(
                    &cell,
                    level,
                    &self.rules,
                    aperture,
                );
                let count: usize = subs.len();
                let ghost before = quads@;
                let mut k: usize = 0;
                while k < count
                    invariant
                        cell.wf(),
                        count == subs@.len(),
                        k <= count,
                        crate::subdivide::is_mesh_of(subs@, cell, level as nat),
                        quads@ == before + spec_cell_quads(cell, subs@.take(k as int), draw as nat),
                    decreases count - k,
                {
                    let sub: HEALPixCell = subs[k];
                    assert(sub.wf() && cell.0 <= sub.0);
                    let (i, j) = sub.offset_in_parent(&cell);
                    let nside: u32 = crate::cell::nside_at(sub.depth() - cell.depth());
                    let ghost so_far = quads@;
                    quads.push(MeshQuad { draw, cell: sub, i, j, nside });
                    proof {
                        let grown = spec_cell_quads(cell, subs@.take(k + 1), draw as nat);
                        let prior = spec_cell_quads(cell, subs@.take(k as int), draw as nat);
                        assert(grown =~= prior.push(spec_quad(cell, sub, draw as nat))) by {
                            assert forall|t: int| 0 <= t < grown.len() implies grown[t]
                                == prior.push(spec_quad(cell, sub, draw as nat))[t] by {
                                if t < k {
                                    assert(subs@.take(k + 1)[t] == subs@.take(k as int)[t]);
                                }
                            }
                        }
                        assert(quads@ =~= before + grown);
                    }
                    k = k + 1;
                }
                assert(subs@.take(count as int) =~= subs@);
            }
            v = v + 1;
        }
        assert(cells.take(n as int) =~= cells);
        if quads.len() > MAX_NUM_VERTICES / 4 {
            self.num_idx = 0;
            return None;
        }
        let idx_vertices: Vec<u16> = mesh_indices(quads.len());
        self.num_idx = idx_vertices.len();
        Some(Mesh { draws, quads, idx_vertices })
    }

    /// Levels of subdivision that the view asks for: the most that one of
    /// the cells in view needs; `project` gives the footprint of a cell.
    pub fn num_subdivision_in_view<F: Fn(HEALPixCell) -> Footprint>(&self, project: &F) -> (n: u8)
        requires
            self.wf(),
            forall|c: HEALPixCell| project.requires((c,)),
        ensures
            n <= MAX_HPX_CELL_SUBDIVISION,
            forall|view: spec_fn(HEALPixCell) -> Footprint| #[trigger]
                projects(project, view) ==> n == spec_max_subdivision(
                    large_under(view),
                    self.spec_cells_in_view(),
                ),
    {
        let count: usize = self.hpx_cells_in_view.len();
        let mut n: u8 = 0;
        let mut v: usize = 0;
        while v < count
            invariant
                self.wf(),
                forall|c: HEALPixCell| project.requires((c,)),
                count == self.hpx_cells_in_view@.len(),
                v <= count,
                n <= MAX_HPX_CELL_SUBDIVISION,
                forall|view: spec_fn(HEALPixCell) -> Footprint| #[trigger]
                    projects(project, view) ==> n == spec_max_subdivision(
                        large_under(view),
                        self.hpx_cells_in_view@.take(v as int),
                    ),
            decreases count - v,
        {
            let cell: HEALPixCell = self.hpx_cells_in_view[v];
            assert(cell.wf());
            let needed: u8 = num_hpx_subdivision(&cell, project);
            proof {
                assert(self.hpx_cells_in_view@.take(v + 1).drop_last()
                    =~= self.hpx_cells_in_view@.take(v as int));
                assert(self.hpx_cells_in_view@.take(v + 1).last() == cell);
            }
            if needed > n {
                n = needed;
            }
            v = v + 1;
        }
        assert(self.hpx_cells_in_view@.take(count as int) =~= self.hpx_cells_in_view@);
        n
    }

    /// One frame of the per-cell drawing path. While the per-pixel path
    /// draws, nothing happens. Else the cells `cells` that the view shows
    /// are taken, and the mesh is made anew when they differ from those of
    /// the frame before or when a tile has arrived since.
    pub fn update<F: Fn(HEALPixCell) -> Footprint>(
        &mut self,
        raytracing: bool,
        cells: Vec<HEALPixCell>,
        aperture: u64,
        project: &F,
        now: Time,
    ) -> (r: MeshUpdate)
        requires
            old(self).wf(),
            all_cells_wf(cells@),
            forall|c: HEALPixCell| project.requires((c,)),
        ensures
            final(self).wf(),
            final(self).spec_config() == old(self).spec_config(),
            final(self).spec_moc() == old(self).spec_moc(),
            final(self).spec_rules() == old(self).spec_rules(),
            final(self).spec_in_flight() == old(self).spec_in_flight(),
            raytracing ==> r is Unchanged && final(self).spec_buffer() == old(self).spec_buffer()
                && final(self).spec_cells_in_view() == old(self).spec_cells_in_view()
                && final(self).spec_num_idx() == old(self).spec_num_idx(),
            !raytracing ==> final(self).spec_cells_in_view() == cells@ && final(self).spec_buffer()@ == (CacheView { available: false, ..old(self).spec_buffer()@ }),
            !raytracing && !old(self).spec_buffer()@.available && cells@ == old(self).spec_cells_in_view() ==> r is Unchanged && final(self).spec_num_idx() == old(self).spec_num_idx(),
            !raytracing && (old(self).spec_buffer()@.available || cells@ != old(self).spec_cells_in_view()) ==> !(r is Unchanged) && forall|
                view: spec_fn(HEALPixCell) -> Footprint,
            | #[trigger]
                projects(project, view) ==> {
                    let want = spec_mesh(
                        final(self).spec_frame(
                            spec_max_subdivision(large_under(view), cells@),
                            aperture,
                            now,
                        ),
                        cells@,
                    );
                    match r {
                        MeshUpdate::Rebuilt(mesh) => {
                            &&& mesh.draws@ == want.draws
                            &&& mesh.quads@ == want.quads
                            &&& mesh.idx_vertices@ == spec_indices(want.quads.len())
                            &&& final(self).spec_num_idx() == 6 * want.quads.len()
                        },
                        MeshUpdate::Overflow => 4 * want.quads.len() > MAX_NUM_VERTICES && final(self).spec_num_idx() == 0,
                        MeshUpdate::Unchanged => false,
                    }
                },
    {
        if raytracing {
            return MeshUpdate::Unchanged;
        }
        let available_tiles: bool = self.buffer.reset_available_tiles();
        let new_cells_in_view: bool = self.retrieve_cells_in_camera(cells);
        if new_cells_in_view || available_tiles {
            let num_sub: u8 = self.num_subdivision_in_view(project);
            match self.recompute_vertices(num_sub, aperture, now) {
                Some(mesh) => MeshUpdate::Rebuilt(mesh),
                None => MeshUpdate::Overflow,
            }
        } else {
            MeshUpdate::Unchanged
        }
    }

    /// What draws the frame: with `raytracing`, the per-pixel path with
    /// the records of the entries of the atlas; else the per-cell path
    /// with the mesh that was made last. The survey is drawn with its own
    /// colors (`native_colormap`) or with a color map.
    pub fn draw(&self, raytracing: bool, native_colormap: bool, now: Time) -> (call: DrawCall)
        requires
            self.wf(),
        ensures
            match call {
                DrawCall::Raytrace { shader, textures, opaque_default } => {
                    &&& raytracing
                    &&& shader.vert@ == "hips_raytracer_raytracer.vert"@
                    &&& shader.frag@ == spec_raytracer_frag(
                        spec_fragment_kind(self.spec_config().format.channel, native_colormap),
                    )
                    &&& textures@.len() == self.spec_buffer()@.slots.len()
                    &&& forall|i: int|
                        0 <= i < textures@.len() ==> #[trigger] textures@[i] == spec_metadata_of(
                            self.spec_buffer()@.slots[i],
                            now,
                        )
                    &&& opaque_default
                        == self.spec_config().format.channel.spec_has_opaque_default()
                },
                DrawCall::Raster { shader, num_idx } => {
                    &&& !raytracing
                    &&& shader.vert@ == "hips_rasterizer_raster.vert"@
                    &&& shader.frag@ == spec_raster_frag(
                        spec_fragment_kind(self.spec_config().format.channel, native_colormap),
                    )
                    &&& num_idx == self.spec_num_idx()
                },
            },
    {
        let config = self.get_config();
        if raytracing {
            DrawCall::Raytrace {
                shader: get_raytracer_shader(native_colormap, config),
                textures: self.buffer.texture_metadata(now),
                opaque_default: config.get_format().get_channel().has_opaque_default(),
            }
        } else {
            DrawCall::Raster {
                shader: get_raster_shader(native_colormap, config),
                num_idx: self.num_idx,
            }
        }
    }

    /// Takes in the mosaic of the whole sky, asked for at `time_request`
    /// and received at `now`.
    pub fn add_allsky(&mut self, time_request: Time, now: Time)
        requires
            old(self).wf(),
        ensures
            final(self).wf(),
            final(self).spec_config() == old(self).spec_config(),
            final(self).spec_moc() == old(self).spec_moc(),
            final(self).spec_cells_in_view() == old(self).spec_cells_in_view(),
            final(self).spec_num_idx() == old(self).spec_num_idx(),
            final(self).spec_rules() == old(self).spec_rules(),
            final(self).spec_in_flight() == old(self).spec_in_flight(),
            final(self).spec_buffer()@ == old(self).spec_buffer()@.after_allsky(
                12,
                old(self).spec_config().delta_depth as nat,
                old(self).spec_config().num_tiles_per_texture as nat,
                time_request,
                now,
            ),
    {
        self.buffer.push_allsky(time_request, now)
    }

    /// Has the tiles of the survey fetched with the extension `ext` from
    /// now on: the cache is emptied, no tile is awaited any longer, and
    /// the mesh is made anew at the next frame. Fails, and changes
    /// nothing, when the configuration refuses the extension.
    pub fn set_image_ext(&mut self, ext: ImageExt) -> (r: Result<(), ConfigError>)
        requires
            old(self).wf(),
        ensures
            match spec_format_for(ext, old(self).spec_config().bitpix as int) {
                Err(e) => r == Err::<(), ConfigError>(e) && *final(self) == *old(self),
                Ok(format) => {
                    &&& r is Ok
                    &&& final(self).wf()
                    &&& final(self).spec_config().reformatted(old(self).spec_config(), format)
                    &&& final(self).spec_buffer()@ == (CacheView {
                        slots: Seq::empty(),
                        touched: Seq::empty(),
                        capacity: old(self).spec_buffer()@.capacity,
                        available: true,
                    })
                    &&& final(self).spec_in_flight() == Set::<u64>::empty()
                    &&& final(self).spec_moc() == old(self).spec_moc()
                    &&& final(self).spec_cells_in_view() == old(self).spec_cells_in_view()
                    &&& final(self).spec_num_idx() == old(self).spec_num_idx()
                    &&& final(self).spec_rules() == old(self).spec_rules()
                },
            },
    {
        match self.buffer.set_image_ext(ext) {
            Err(e) => Err(e),
            Ok(()) => {
                self.in_flight.clear();
                Ok(())
            },
        }
    }

    /// The pixel of the atlas that shows the pixel `(x, y)` of the cell
    /// `cell`, counted inside the entry bound to the cell; nothing unless
    /// that entry exists and is full.
    pub fn pixel_in_atlas(&self, cell: &HEALPixCell, x: i32, y: i32) -> (r: Option<AtlasPixel>)
        requires
            self.wf(),
            0 <= x < self.spec_config().texture_size,
            0 <= y < self.spec_config().texture_size,
        ensures
            r is Some <==> self.spec_buffer()@.has_full(*cell),
            r is Some ==> self.spec_buffer()@.slot_of(*cell) is Some && r == Some(
                spec_pixel_address(
                    self.spec_config(),
                    self.spec_buffer()@.slot_of(*cell)->Some_0,
                    x as int,
                    y as int,
                ),
            ),
    {
        let ghost cache = self.buffer@;
        match self.buffer.slot_index(cell) {
            Some(i) => {
                proof {
                    if cache.has_full(*cell) {
                        let j = choose|j: int|
                            0 <= j < cache.slots.len() && cache.slots[j].cell == *cell
                                && cache.slots[j].full;
                        crate::buffer::lemma_slot_of_unique(
                            cache,
                            self.spec_config().delta_depth as nat,
                            self.spec_config().num_tiles_per_texture as nat,
                            j,
                            *cell,
                        );
                    }
                }
                if self.buffer.slot(i).is_full() {
                    Some(pixel_address(self.buffer.config(), i, x, y))
                } else {
                    None
                }
            },
            None => None,
        }
    }

    /// Marks the start of a frame: no entry of the atlas has been used yet.
    pub fn start_frame(&mut self)
        requires
            old(self).wf(),
        ensures
            final(self).wf(),
            final(self).spec_config() == old(self).spec_config(),
            final(self).spec_moc() == old(self).spec_moc(),
            final(self).spec_cells_in_view() == old(self).spec_cells_in_view(),
            final(self).spec_num_idx() == old(self).spec_num_idx(),
            final(self).spec_rules() == old(self).spec_rules(),
            final(self).spec_in_flight() == old(self).spec_in_flight(),
            final(self).spec_buffer()@ == old(self).spec_buffer()@.after_start_frame(),
    {
        self.buffer.start_frame()
    }

    /// What the visible cell `cell` is drawn from, at the time `now`.
    pub fn draw_data(&self, cell: &HEALPixCell, now: Time) -> (r: Option<HpxDrawData>)
        requires
            self.wf(),
            cell.wf(),
        ensures
            r == spec_draw_data(
                self.spec_buffer()@,
                self.spec_config().num_textures_by_side_slice as int,
                self.spec_config().format.channel.spec_has_opaque_default(),
                spec_in_coverage(self.spec_moc(), *cell),
                *cell,
                now,
            ),
    {
        let cfg = self.buffer.config();
        let ghost cache = self.buffer@;
        let ghost dd = cfg.delta_depth as nat;
        let ghost tps = cfg.num_tiles_per_texture as nat;
        let mut ending: Option<usize> = None;
        if self.in_coverage(cell) {
            ending = match self.buffer.slot_index(cell) {
                Some(i) => {
                    if self.buffer.slot(i).is_full() {
                        Some(i)
                    } else {
                        proof {
                            if cache.has_full(*cell) {
                                let j = choose|j: int|
                                    0 <= j < cache.slots.len() && cache.slots[j].cell == *cell
                                        && cache.slots[j].full;
                                crate::buffer::lemma_slot_of_unique(cache, dd, tps, j, *cell);
                            }
                        }
                        self.buffer.nearest_resident_ancestor_index(cell)
                    }
                },
                None => self.buffer.nearest_resident_ancestor_index(cell),
            };
        }
        match ending {
            Some(e) => {
                let ending_texture = self.buffer.slot(e);
                assert(cache.slots[e as int].wf(tps));
                let anchor: HEALPixCell = *ending_texture.cell();
                let s: usize = match self.buffer.nearest_resident_ancestor_index(&anchor) {
                    Some(f) => f,
                    None => e,
                };
                let starting_texture = self.buffer.slot(s);
                Some(HpxDrawData::from_texture(starting_texture, ending_texture, cell, cfg, now))
            },
            None => {
                if cfg.get_format().get_channel().has_opaque_default() {
                    Some(HpxDrawData::new(cell))
                } else {
                    None
                }
            },
        }
    }
}

} // verus!
