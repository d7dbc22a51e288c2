//! Where, in the texture atlas, the pixels of a cell are found.
use crate::cell::{nside_at, HEALPixCell};
use crate::config::HiPSConfig;
use crate::texture::{HpxTexture2D, TextureView};
use vstd::arithmetic::power2::pow2;
use vstd::prelude::*;

verus! {

/// The square of the atlas that shows a cell: the entry, by slice, column
/// and row, and inside the entry the square at `(off_x, off_y)` of the
/// grid of `nside * nside` squares that the entry is cut into.
#[derive(Clone, Copy, Debug, PartialEq, Eq, Structural, Hash)]
pub struct TileUVW {
    /// Position of the entry in the atlas; negative where no entry shows
    /// the cell.
    pub texture_idx: i32,
    pub slice: i32,
    pub col: i32,
    pub row: i32,
    pub off_x: u32,
    pub off_y: u32,
    pub nside: u32,
}

/// A point of the atlas: the slice, and inside the slice the coordinates
/// `u / den` and `v / den`, each between 0 and 1.
#[derive(Clone, Copy, Debug, PartialEq, Eq, Structural, Hash)]
pub struct AtlasPoint {
    pub slice: i32,
    pub u: u128,
    pub v: u128,
    pub den: u128,
}

/// Where the pixels of a tile go in the atlas: the corner `(x, y)` of the
/// tile, in pixels, inside the slice `slice`.
#[derive(Clone, Copy, Debug, PartialEq, Eq, Structural, Hash)]
pub struct TileOrigin {
    pub x: i32,
    pub y: i32,
    pub slice: i32,
}

/// Where the pixels of the tile `tile` go, when the entry at position
/// `texture_idx` of the atlas holds it: the corner of the entry, moved by
/// the place of the tile inside the entry.
pub open spec fn spec_tile_origin(cfg: &HiPSConfig, texture_idx: int, tile: HEALPixCell) -> TileOrigin {
    let by_side = cfg.num_textures_by_side_slice as int;
    let in_slice = texture_idx % (by_side * by_side);
    let offset = tile.spec_offset(cfg.delta_depth as nat);
    TileOrigin {
        x: ((in_slice / by_side) * cfg.texture_size + offset.0 * cfg.tile_config.width) as i32,
        y: ((in_slice % by_side) * cfg.texture_size + offset.1 * cfg.tile_config.width) as i32,
        slice: (texture_idx / (by_side * by_side)) as i32,
    }
}

/// Tells where the pixels of the tile `tile` go, when the entry at
/// position `texture_idx` of the atlas holds it.
pub fn tile_origin(cfg: &HiPSConfig, texture_idx: usize, tile: &HEALPixCell) -> (origin: TileOrigin)
    requires
        cfg.wf(),
        tile.wf(),
        texture_idx < cfg.num_textures,
    ensures
        origin == spec_tile_origin(cfg, texture_idx as int, *tile),
        0 <= origin.x,
        0 <= origin.y,
        origin.x + cfg.tile_config.width <= cfg.num_textures_by_side_slice * cfg.texture_size,
        origin.y + cfg.tile_config.width <= cfg.num_textures_by_side_slice * cfg.texture_size,
        0 <= origin.slice < cfg.num_slices,
{
    let by_side: i32 = cfg.num_textures_by_side_slice();
    let by_slice: i32 = cfg.num_textures_by_slice();
    let texture_size: i32 = cfg.get_texture_size();
    let tile_size: i32 = cfg.get_tile_size();
    let idx: i32 = texture_idx as i32;
    let in_slice: i32 = idx % by_slice;
    let col: i32 = in_slice / by_side;
    let row: i32 = in_slice % by_side;
    let (off_x, off_y) = tile.get_offset_in_texture_cell(cfg.delta_depth());
    proof {
        let levels = (if cfg.delta_depth <= tile.0 { cfg.delta_depth } else { tile.0 }) as nat;
        crate::config::lemma_tile_size_bounds(tile_size as int);
        vstd::arithmetic::power2::lemma2_to64();
        if cfg.delta_depth < 9 {
            vstd::arithmetic::power2::lemma_pow2_strictly_increases(cfg.delta_depth as nat, 9);
        }
        vstd::arithmetic::power2::lemma_pow2_pos(levels);
        if levels < cfg.delta_depth {
            vstd::arithmetic::power2::lemma_pow2_strictly_increases(levels, cfg.delta_depth as nat);
        }
        assert(by_side < 46341) by (nonlinear_arith)
            requires
                by_side * by_side <= i32::MAX,
                by_side > 0,
        ;
        assert(0 <= col < by_side) by (nonlinear_arith)
            requires
                col == in_slice / by_side,
                0 <= in_slice < by_side * by_side,
                by_side > 0,
        ;
        assert(0 <= col * texture_size <= (by_side - 1) * texture_size) by (nonlinear_arith)
            requires
                0 <= col < by_side,
                texture_size > 0,
        ;
        assert(0 <= row * texture_size <= (by_side - 1) * texture_size) by (nonlinear_arith)
            requires
                0 <= row < by_side,
                texture_size > 0,
        ;
        assert((by_side - 1) * texture_size + texture_size == by_side * texture_size
            && by_side * texture_size <= 46341 * 512) by (nonlinear_arith)
            requires
                0 < by_side < 46341,
                0 < texture_size <= 512,
        ;
        assert(off_x * tile_size + tile_size <= texture_size && off_y * tile_size + tile_size
            <= texture_size && off_x * tile_size >= 0 && off_y * tile_size >= 0)
            by (nonlinear_arith)
            requires
                off_x < pow2(levels),
                off_y < pow2(levels),
                pow2(levels) <= pow2(cfg.delta_depth as nat),
                texture_size == tile_size * pow2(cfg.delta_depth as nat),
                tile_size > 0,
        ;
        assert(0 <= idx / by_slice < cfg.num_slices) by (nonlinear_arith)
            requires
                0 <= idx < by_slice * cfg.num_slices,
                by_slice > 0,
        ;
    }
    TileOrigin {
        x: col * texture_size + off_x as i32 * tile_size,
        y: row * texture_size + off_y as i32 * tile_size,
        slice: idx / by_slice,
    }
}

/// A pixel of the atlas: its place `(x, y)` inside the slice `slice`.
#[derive(Clone, Copy, Debug, PartialEq, Eq, Structural, Hash)]
pub struct AtlasPixel {
    pub x: i32,
    pub y: i32,
    pub slice: i32,
}

/// The pixel of the atlas that is the pixel `(x, y)` of the entry at
/// position `texture_idx`.
pub open spec fn spec_pixel_address(cfg: &HiPSConfig, texture_idx: int, x: int, y: int) -> AtlasPixel {
    let by_side = cfg.num_textures_by_side_slice as int;
    let in_slice = texture_idx % (by_side * by_side);
    AtlasPixel {
        x: ((in_slice / by_side) * cfg.texture_size + x) as i32,
        y: ((in_slice % by_side) * cfg.texture_size + y) as i32,
        slice: (texture_idx / (by_side * by_side)) as i32,
    }
}

/// Tells the pixel of the atlas that is the pixel `(x, y)` of the entry
/// at position `texture_idx`.
pub fn pixel_address(cfg: &HiPSConfig, texture_idx: usize, x: i32, y: i32) -> (pixel: AtlasPixel)
    requires
        cfg.wf(),
        texture_idx < cfg.num_textures,
        0 <= x < cfg.texture_size,
        0 <= y < cfg.texture_size,
    ensures
        pixel == spec_pixel_address(cfg, texture_idx as int, x as int, y as int),
        0 <= pixel.x < cfg.num_textures_by_side_slice * cfg.texture_size,
        0 <= pixel.y < cfg.num_textures_by_side_slice * cfg.texture_size,
        0 <= pixel.slice < cfg.num_slices,
{
    let by_side: i32 = cfg.num_textures_by_side_slice();
    let by_slice: i32 = cfg.num_textures_by_slice();
    let texture_size: i32 = cfg.get_texture_size();
    let idx: i32 = texture_idx as i32;
    let in_slice: i32 = idx % by_slice;
    let col: i32 = in_slice / by_side;
    let row: i32 = in_slice % by_side;
    proof {
        assert(by_side < 46341) by (nonlinear_arith)
            requires
                by_side * by_side <= i32::MAX,
                by_side > 0,
        ;
        assert(0 <= col < by_side) by (nonlinear_arith)
            requires
                col == in_slice / by_side,
                0 <= in_slice < by_side * by_side,
                by_side > 0,
        ;
        assert(0 <= col * texture_size <= (by_side - 1) * texture_size) by (nonlinear_arith)
            requires
                0 <= col < by_side,
                texture_size > 0,
        ;
        assert(0 <= row * texture_size <= (by_side - 1) * texture_size) by (nonlinear_arith)
            requires
                0 <= row < by_side,
                texture_size > 0,
        ;
        assert((by_side - 1) * texture_size + texture_size == by_side * texture_size
            && by_side * texture_size <= 46341 * 512) by (nonlinear_arith)
            requires
                0 < by_side < 46341,
                0 < texture_size <= 512,
        ;
        assert(0 <= idx / by_slice < cfg.num_slices) by (nonlinear_arith)
            requires
                0 <= idx < by_slice * cfg.num_slices,
                by_slice > 0,
        ;
    }
    AtlasPixel { x: col * texture_size + x, y: row * texture_size + y, slice: idx / by_slice }
}

impl TileUVW {
    /// What stands for the square of a cell that no entry shows.
    pub open spec fn spec_none() -> TileUVW {
        TileUVW {
            texture_idx: -1i32,
            slice: -1i32,
            col: -1i32,
            row: -1i32,
            off_x: 0,
            off_y: 0,
            nside: 1,
        }
    }

    /// The square of the entry `texture` that shows `cell`, in an atlas of
    /// slices of `by_side * by_side` entries.
    pub open spec fn spec_new(cell: HEALPixCell, texture: TextureView, by_side: int) -> TileUVW {
        let by_slice = by_side * by_side;
        let in_slice = texture.idx as int % by_slice;
        let levels = (cell.0 - texture.cell.0) as nat;
        TileUVW {
            texture_idx: texture.idx,
            slice: (texture.idx as int / by_slice) as i32,
            col: (in_slice / by_side) as i32,
            row: (in_slice % by_side) as i32,
            off_x: cell.spec_offset(levels).0 as u32,
            off_y: cell.spec_offset(levels).1 as u32,
            nside: pow2(levels) as u32,
        }
    }

    /// What stands for the square of a cell that no entry shows.
    pub fn none() -> (uv: TileUVW)
        ensures
            uv == TileUVW::spec_none(),
    {
        TileUVW { texture_idx: -1, slice: -1, col: -1, row: -1, off_x: 0, off_y: 0, nside: 1 }
    }

    /// The square of the entry `texture` that shows `cell`; the entry must
    /// be bound to `cell` or to a cell above it.
    pub fn new(cell: &HEALPixCell, texture: &HpxTexture2D, cfg: &HiPSConfig) -> (uv: TileUVW)
        requires
            cfg.wf(),
            cell.wf(),
            texture@.cell.0 <= cell.0,
            texture@.idx >= 0,
        ensures
            uv == TileUVW::spec_new(*cell, texture@, cfg.num_textures_by_side_slice as int),
            uv.off_x < uv.nside,
            uv.off_y < uv.nside,
            0 <= uv.col < cfg.num_textures_by_side_slice,
            0 <= uv.row < cfg.num_textures_by_side_slice,
            0 <= uv.slice,
    {
        let idx: i32 = texture.idx();
        let by_side: i32 = cfg.num_textures_by_side_slice();
        let by_slice: i32 = cfg.num_textures_by_slice();
        let in_slice: i32 = idx % by_slice;
        let (off_x, off_y) = cell.offset_in_parent(texture.cell());
        let levels: u8 = cell.depth() - texture.cell().depth();
        let nside: u32 = nside_at(levels);
        assert(by_slice > 0) by (nonlinear_arith)
            requires
                by_slice == by_side * by_side,
                by_side > 0,
        ;
        assert(0 <= in_slice / by_side < by_side) by (nonlinear_arith)
            requires
                0 <= in_slice < by_side * by_side,
                by_side > 0,
        ;
        TileUVW {
            texture_idx: idx,
            slice: idx / by_slice,
            col: in_slice / by_side,
            row: in_slice % by_side,
            off_x,
            off_y,
            nside,
        }
    }
    /// Whether an entry shows the cell.
    pub open spec fn has_texture(self, by_side: int) -> bool {
        self.texture_idx >= 0 && self.col >= 0 && self.row >= 0 && self.nside > 0 && by_side > 0
    }

    /// The point of the atlas at `(num_u, num_v) / grid` of the square:
    /// the square is cut into `grid * grid` parts, and the point lies
    /// `num_u` parts along the first side and `num_v` along the second.
    pub open spec fn spec_point(self, num_u: nat, num_v: nat, grid: nat, by_side: int) -> AtlasPoint {
        AtlasPoint {
            slice: self.slice,
            u: (((self.col * self.nside + self.off_x) * grid + num_u) as nat) as u128,
            v: (((self.row * self.nside + self.off_y) * grid + num_v) as nat) as u128,
            den: ((by_side * self.nside * grid) as nat) as u128,
        }
    }

    /// The point of the atlas at `(num_u, num_v) / grid` of the square, in
    /// an atlas of slices of `by_side * by_side` entries; nothing where no
    /// entry shows the cell or where the square is cut into no part.
    pub fn point(&self, num_u: u64, num_v: u64, grid: u32, by_side: i32) -> (r: Option<AtlasPoint>)
        ensures
            r is Some <==> self.has_texture(by_side as int) && grid > 0,
            r is Some ==> r == Some(
                self.spec_point(num_u as nat, num_v as nat, grid as nat, by_side as int),
            ) && r->Some_0.den > 0,
    {
        if self.texture_idx < 0 || self.col < 0 || self.row < 0 || self.nside == 0 || by_side <= 0
            || grid == 0 {
            return None;
        }
        let col: u128 = self.col as u128;
        let row: u128 = self.row as u128;
        let nside: u128 = self.nside as u128;
        let g: u128 = grid as u128;
        let side: u128 = by_side as u128;
        proof {
            assert(col * nside <= 0x7fff_ffff * 0xffff_ffff && row * nside <= 0x7fff_ffff
                * 0xffff_ffff && side * nside <= 0x7fff_ffff * 0xffff_ffff && side * nside > 0)
                by (nonlinear_arith)
                requires
                    col <= 0x7fff_ffff,
                    row <= 0x7fff_ffff,
                    0 < side <= 0x7fff_ffff,
                    0 < nside <= 0xffff_ffff,
            ;
            let a = col * nside + self.off_x as u128;
            let b = row * nside + self.off_y as u128;
            let c = side * nside;
            assert(a * g <= 0x8000_0000_0000_0000 * 0xffff_ffff && b * g <= 0x8000_0000_0000_0000
                * 0xffff_ffff && c * g <= 0x8000_0000_0000_0000 * 0xffff_ffff && c * g > 0)
                by (nonlinear_arith)
                requires
                    a <= 0x8000_0000_0000_0000,
                    b <= 0x8000_0000_0000_0000,
                    0 < c <= 0x8000_0000_0000_0000,
                    0 < g <= 0xffff_ffff,
            ;
        }
        Some(
            AtlasPoint {
                slice: self.slice,
                u: (col * nside + self.off_x as u128) * g + num_u as u128,
                v: (row * nside + self.off_y as u128) * g + num_v as u128,
                den: side * nside * g,
            },
        )
    }
}

} // verus!
