//! One entry of the texture atlas, and how it fills up tile by tile.
use crate::cell::{cells_per_base, HEALPixCell};
use crate::config::HiPSConfig;
use crate::text::{push_signed_decimal, signed_decimal};
use crate::time::Time;
use std::cmp::Ordering;
use vstd::prelude::*;
use vstd::std_specs::cmp::{PartialEqSpecImpl, PartialOrdSpecImpl};
use vstd::string::StringExecFns;

verus! {

/// What an atlas entry stands for: the cell it is bound to, the tiles
/// received so far, and the times that drive eviction and blending.
pub struct TextureView {
    /// The cell that the entry is bound to.
    pub cell: HEALPixCell,
    /// The tiles received while the entry is not yet full.
    pub tiles: Set<HEALPixCell>,
    /// Number of tiles written to the atlas.
    pub num_tiles_written: nat,
    /// Whether every tile of the entry is there.
    pub full: bool,
    /// When the entry became full.
    pub start_time: Option<Time>,
    /// When the entry was asked for.
    pub time_request: Time,
    /// Position of the entry in the atlas.
    pub idx: i32,
}

impl TextureView {
    /// The entry just bound to `cell`: nothing received.
    pub open spec fn empty(cell: HEALPixCell, idx: i32, time_request: Time) -> TextureView {
        TextureView {
            cell,
            tiles: Set::empty(),
            num_tiles_written: 0,
            full: false,
            start_time: None,
            time_request,
            idx,
        }
    }

    /// The entry has received nothing since it was bound.
    pub open spec fn is_empty(self) -> bool {
        !self.full && self.num_tiles_written == 0
    }

    /// The entry has received some of its tiles, not all.
    pub open spec fn is_partial(self) -> bool {
        !self.full && self.num_tiles_written > 0
    }

    /// The entry shows `tile`: it is full, or the tile was received.
    pub open spec fn covers(self, tile: HEALPixCell) -> bool {
        self.full || self.tiles.contains(tile)
    }

    /// The entry is made full at `now`.
    pub open spec fn completed(self, capacity: nat, now: Time) -> TextureView {
        TextureView {
            tiles: Set::empty(),
            num_tiles_written: capacity,
            full: true,
            start_time: Some(now),
            ..self
        }
    }

    /// The entry after the tile `tile` is received at `now`, where an
    /// entry packs `capacity` tiles: a tile that is the entry's own cell
    /// fills it at once, another one is counted, and the last one
    /// completes the entry.
    pub open spec fn integrate(self, tile: HEALPixCell, capacity: nat, now: Time) -> TextureView {
        if tile == self.cell || self.num_tiles_written + 1 == capacity {
            self.completed(capacity, now)
        } else {
            TextureView {
                tiles: self.tiles.insert(tile),
                num_tiles_written: self.num_tiles_written + 1,
                ..self
            }
        }
    }

    /// When the blending towards this entry starts: when it became full,
    /// and not before `now` as long as it is not.
    pub open spec fn effective_start_time(self, now: Time) -> Time {
        if self.full && self.start_time is Some {
            self.start_time->Some_0
        } else {
            now
        }
    }

    /// Why the tile `tile` cannot be taken in, if it cannot: the entry is
    /// full, or it has received the tile before.
    pub open spec fn integrate_error(self, tile: HEALPixCell) -> Option<AppendError> {
        if self.full {
            Some(AppendError::Full)
        } else if self.tiles.contains(tile) {
            Some(AppendError::Duplicate)
        } else {
            None
        }
    }

    /// The invariant of an entry of an atlas whose entries pack `capacity`
    /// tiles: the count of tiles never passes `capacity`; the entry is
    /// full exactly when the count reaches it, and has the time of its
    /// completion exactly then; a full entry keeps no list of tiles; and
    /// an entry that is not full has received as many tiles as it lists,
    /// none of them its own cell.
    pub open spec fn wf(self, capacity: nat) -> bool {
        &&& self.cell.wf()
        &&& self.num_tiles_written <= capacity
        &&& self.full <==> self.num_tiles_written == capacity
        &&& self.full <==> self.start_time is Some
        &&& self.full ==> self.tiles == Set::<HEALPixCell>::empty()
        &&& self.tiles.finite()
        &&& !self.full ==> self.tiles.len() == self.num_tiles_written
        &&& forall|t: HEALPixCell| #[trigger] self.tiles.contains(t) ==> t != self.cell
    }
}

/// Why an entry cannot take a tile in.
#[derive(Clone, Copy, Debug, PartialEq, Eq, Structural, Hash)]
pub enum AppendError {
    /// The entry is full: it takes no tile until it is bound anew.
    Full,
    /// The entry has received the tile before.
    Duplicate,
}

/// Taking in a tile keeps an entry well formed: the count of tiles goes up
/// by one, or to what an entry packs when the tile is the entry's own
/// cell; it never passes what an entry packs; and the entry is full
/// exactly when the count reaches it.
pub proof fn lemma_integrate_wf(texture: TextureView, tile: HEALPixCell, capacity: nat, now: Time)
    requires
        texture.wf(capacity),
        texture.integrate_error(tile) is None,
    ensures
        texture.integrate(tile, capacity, now).wf(capacity),
        texture.integrate(tile, capacity, now).num_tiles_written <= capacity,
        texture.integrate(tile, capacity, now).full <==> texture.integrate(
            tile,
            capacity,
            now,
        ).num_tiles_written == capacity,
        texture.integrate(tile, capacity, now).full <==> (tile == texture.cell
            || texture.num_tiles_written + 1 == capacity),
        tile == texture.cell ==> texture.integrate(tile, capacity, now).num_tiles_written
            == capacity,
        tile != texture.cell ==> texture.integrate(tile, capacity, now).num_tiles_written
            == texture.num_tiles_written + 1,
        texture.integrate(tile, capacity, now).cell == texture.cell,
{
    let next = texture.integrate(tile, capacity, now);
    if !(tile == texture.cell || texture.num_tiles_written + 1 == capacity) {
        assert(next.tiles.len() == texture.tiles.len() + 1);
    }
}

/// The start of the blending moves with the clock while an entry is not
/// full, and is fixed to the time of the tile that completes it.
pub proof fn lemma_effective_start_time(
    texture: TextureView,
    tile: HEALPixCell,
    capacity: nat,
    now: Time,
    later: Time,
)
    requires
        texture.wf(capacity),
        !texture.full,
    ensures
        texture.effective_start_time(later) == later,
        texture.integrate(tile, capacity, now).full ==> texture.integrate(
            tile,
            capacity,
            now,
        ).effective_start_time(later) == now,
        !texture.integrate(tile, capacity, now).full ==> texture.integrate(
            tile,
            capacity,
            now,
        ).effective_start_time(later) == later,
{
}

/// One entry of the texture atlas.
pub struct HpxTexture2D {
    texture_cell: HEALPixCell,
    uniq: u64,
    tiles: Vec<HEALPixCell>,
    idx: i32,
    start_time: Option<Time>,
    time_request: Time,
    full: bool,
    num_tiles_written: usize,
}

impl View for HpxTexture2D {
    type V = TextureView;

    closed spec fn view(&self) -> TextureView {
        TextureView {
            cell: self.texture_cell,
            tiles: self.tiles@.to_set(),
            num_tiles_written: self.num_tiles_written as nat,
            full: self.full,
            start_time: self.start_time,
            time_request: self.time_request,
            idx: self.idx,
        }
    }
}

impl HpxTexture2D {
    /// How the entry is held: the received tiles are listed once each, and
    /// the encoding of the cell is kept beside it.
    pub closed spec fn inv(&self) -> bool {
        &&& self.tiles@.no_duplicates()
        &&& self.texture_cell.wf()
        &&& self.uniq == self.texture_cell.spec_uniq()
    }

    /// The entry is well formed for the atlas that `cfg` lays out.
    pub open spec fn wf(&self, cfg: &HiPSConfig) -> bool {
        &&& self.inv()
        &&& self@.wf(cfg.num_tiles_per_texture as nat)
    }

    /// The encoding of the cell that the entry is bound to.
    pub closed spec fn spec_uniq(&self) -> u64 {
        self.uniq
    }

    /// An entry at position `idx` of the atlas, bound to `cell`, with
    /// nothing received.
    pub fn new(cell: &HEALPixCell, idx: i32, time_request: Time) -> (texture: HpxTexture2D)
        requires
            cell.wf(),
        ensures
            texture@ == TextureView::empty(*cell, idx, time_request),
            texture.inv(),
            forall|cfg: &HiPSConfig| cfg.wf() ==> #[trigger] texture.wf(cfg),
    {
        let tiles: Vec<HEALPixCell> = Vec::new();
        let texture = HpxTexture2D {
            texture_cell: *cell,
            uniq: cell.uniq(),
            time_request,
            tiles,
            idx,
            start_time: None,
            full: false,
            num_tiles_written: 0,
        };
        proof {
            assert(texture.tiles@.to_set() =~= Set::<HEALPixCell>::empty());
            assert forall|cfg: &HiPSConfig| cfg.wf() implies #[trigger] texture.wf(cfg) by {
                crate::cell::lemma_cells_per_base_step(cfg.delta_depth as nat);
            }
        }
        texture
    }

    /// Whether every tile of the entry is there.
    pub fn is_full(&self) -> (r: bool)
        ensures
            r == self@.full,
    {
        self.full
    }

    /// Position of the entry in the atlas.
    pub fn idx(&self) -> (i: i32)
        ensures
            i == self@.idx,
    {
        self.idx
    }

    /// Binds the entry to another cell: what it had received is forgotten.
    pub fn replace(&mut self, texture_cell: &HEALPixCell, time_request: Time)
        requires
            texture_cell.wf(),
        ensures
            final(self)@ == TextureView::empty(*texture_cell, old(self)@.idx, time_request),
            final(self).inv(),
            forall|cfg: &HiPSConfig| cfg.wf() ==> #[trigger] final(self).wf(cfg),
    {
        self.texture_cell = *texture_cell;
        self.uniq = texture_cell.uniq();
        self.full = false;
        self.start_time = None;
        self.time_request = time_request;
        self.tiles.clear();
        self.num_tiles_written = 0;
        proof {
            assert(self.tiles@.to_set() =~= Set::<HEALPixCell>::empty());
            assert forall|cfg: &HiPSConfig| cfg.wf() implies #[trigger] self.wf(cfg) by {
                crate::cell::lemma_cells_per_base_step(cfg.delta_depth as nat);
            }
        }
    }

    /// Whether the entry shows the tile `tile_cell`.
    pub fn contains_tile(&self, tile_cell: &HEALPixCell) -> (r: bool)
        ensures
            r == self@.covers(*tile_cell),
    {
        if self.full {
            return true;
        }
        let n: usize = self.tiles.len();
        let mut i: usize = 0;
        while i < n
            invariant
                n == self.tiles@.len(),
                i <= n,
                forall|k: int| 0 <= k < i ==> self.tiles@[k] != *tile_cell,
            decreases n - i,
        {
            if self.tiles[i] == *tile_cell {
                assert(self.tiles@.to_set().contains(self.tiles@[i as int]));
                return true;
            }
            i = i + 1;
        }
        assert(!self.tiles@.to_set().contains(*tile_cell));
        false
    }

    /// Takes in the tile `cell`, received at `now`, unless the entry is
    /// full or has received the tile before: then it fails, and the entry
    /// is left as it was.
    pub fn try_append(&mut self, cell: &HEALPixCell, cfg: &HiPSConfig, now: Time) -> (r: Result<
        (),
        AppendError,
    >)
        requires
            old(self).wf(cfg),
        ensures
            final(self).wf(cfg),
            match old(self)@.integrate_error(*cell) {
                Some(e) => r == Err::<(), AppendError>(e) && *final(self) == *old(self),
                None => r is Ok && final(self)@ == old(self)@.integrate(
                    *cell,
                    cfg.num_tiles_per_texture as nat,
                    now,
                ),
            },
            final(self)@.num_tiles_written <= cfg.num_tiles_per_texture,
            final(self)@.full <==> final(self)@.num_tiles_written == cfg.num_tiles_per_texture,
            old(self)@.full ==> final(self)@.full,
    {
        if self.full {
            return Err(AppendError::Full);
        }
        if self.contains_tile(cell) {
            return Err(AppendError::Duplicate);
        }
        self.append(cell, cfg, now);
        Ok(())
    }

    /// Takes in the tile `cell`, received at `now`. The entry must not be
    /// full, and must not have received the tile before.
    pub fn append(&mut self, cell: &HEALPixCell, cfg: &HiPSConfig, now: Time)
        requires
            old(self).wf(cfg),
            !old(self)@.full,
            !old(self)@.tiles.contains(*cell),
        ensures
            final(self).wf(cfg),
            final(self)@ == old(self)@.integrate(*cell, cfg.num_tiles_per_texture as nat, now),
            final(self)@.num_tiles_written <= cfg.num_tiles_per_texture,
            final(self)@.full <==> final(self)@.num_tiles_written == cfg.num_tiles_per_texture,
            *cell == old(self)@.cell ==> final(self)@.num_tiles_written
                == cfg.num_tiles_per_texture,
            *cell != old(self)@.cell ==> final(self)@.num_tiles_written
                == old(self)@.num_tiles_written + 1,
    {
        let num_tiles_per_texture: usize = cfg.num_tiles_per_texture();
        let c: HEALPixCell = *cell;
        let ghost before = self.tiles@;
        proof {
            before.unique_seq_to_set();
        }
        if c == self.texture_cell || self.num_tiles_written + 1 == num_tiles_per_texture {
            self.tiles.clear();
            self.num_tiles_written = num_tiles_per_texture;
            self.full = true;
            self.start_time = Some(now);
            proof {
                assert(self.tiles@.to_set() =~= Set::<HEALPixCell>::empty());
            }
        } else {
            self.tiles.push(c);
            self.num_tiles_written = self.num_tiles_written + 1;
            proof {
                let after = self.tiles@;
                assert(after =~= before.push(c));
                assert(after.to_set() =~= before.to_set().insert(c)) by {
                    assert forall|t: HEALPixCell| after.to_set().contains(t) implies before.to_set().insert(
                        c,
                    ).contains(t) by {
                        let k = choose|k: int| 0 <= k < after.len() && after[k] == t;
                        if k < before.len() {
                            assert(before[k] == t);
                        }
                    }
                    assert forall|t: HEALPixCell| before.to_set().insert(c).contains(
                        t,
                    ) implies after.to_set().contains(t) by {
                        if t == c {
                            assert(after[before.len() as int] == c);
                        } else {
                            let k = choose|k: int| 0 <= k < before.len() && before[k] == t;
                            assert(after[k] == t);
                        }
                    }
                }
                assert(after.no_duplicates()) by {
                    assert forall|i: int, j: int|
                        0 <= i < after.len() && 0 <= j < after.len() && i != j implies after[i]
                        != after[j] by {
                        if i == before.len() {
                            assert(before.to_set().contains(before[j]));
                        } else if j == before.len() {
                            assert(before.to_set().contains(before[i]));
                        }
                    }
                }
                after.unique_seq_to_set();
            }
        }
    }

    /// When the blending towards this entry starts: the time at which it
    /// became full, or `now` while it is not.
    pub fn start_time(&self, now: Time) -> (t: Time)
        ensures
            t == self@.effective_start_time(now),
    {
        match self.start_time {
            Some(t) => if self.full {
                t
            } else {
                now
            },
            None => now,
        }
    }

    /// When the entry was asked for.
    pub fn time_request(&self) -> (t: Time)
        ensures
            t == self@.time_request,
    {
        self.time_request
    }

    /// The cell that the entry is bound to.
    pub fn cell(&self) -> (c: &HEALPixCell)
        ensures
            *c == self@.cell,
    {
        &self.texture_cell
    }

    /// The encoding of the cell that the entry is bound to.
    pub fn uniq(&self) -> (u: u64)
        requires
            self.inv(),
        ensures
            u == self@.cell.spec_uniq(),
    {
        self.uniq
    }

    /// The record of the entry for the per-pixel drawing path, at `now`.
    pub open spec fn spec_metadata(&self, now: Time) -> TextureMetadata {
        spec_metadata_of(self@, now)
    }

    /// The record of the entry for the per-pixel drawing path, at `now`.
    pub fn metadata(&self, now: Time) -> (record: TextureMetadata)
        requires
            self.inv(),
        ensures
            record == self.spec_metadata(now),
    {
        proof {
            crate::cell::lemma_cells_per_base_bound(self.texture_cell.0 as nat);
        }
        TextureMetadata {
            uniq: self.uniq as i64,
            texture_idx: self.idx,
            empty: !self.full,
            start_time: self.start_time(now),
        }
    }

    /// Number of tiles written to the atlas for this entry.
    pub fn num_tiles_written(&self) -> (n: usize)
        ensures
            n == self@.num_tiles_written,
    {
        self.num_tiles_written
    }
}

/// Two entries are equal when they are bound to the same cell.
impl PartialEq for HpxTexture2D {
    fn eq(&self, other: &Self) -> (r: bool) {
        self.uniq == other.uniq
    }
}

impl PartialEqSpecImpl for HpxTexture2D {
    open spec fn obeys_eq_spec() -> bool {
        true
    }

    open spec fn eq_spec(&self, other: &Self) -> bool {
        self.spec_uniq() == other.spec_uniq()
    }
}

impl Eq for HpxTexture2D {

}

/// Entries are ordered by the encoding of the cell they are bound to.
impl PartialOrd for HpxTexture2D {
    fn partial_cmp(&self, other: &Self) -> (r: Option<Ordering>) {
        if self.uniq < other.uniq {
            Some(Ordering::Less)
        } else if self.uniq == other.uniq {
            Some(Ordering::Equal)
        } else {
            Some(Ordering::Greater)
        }
    }
}

impl PartialOrdSpecImpl for HpxTexture2D {
    open spec fn obeys_partial_cmp_spec() -> bool {
        true
    }

    open spec fn partial_cmp_spec(&self, other: &Self) -> Option<Ordering> {
        if self.spec_uniq() < other.spec_uniq() {
            Some(Ordering::Less)
        } else if self.spec_uniq() == other.spec_uniq() {
            Some(Ordering::Equal)
        } else {
            Some(Ordering::Greater)
        }
    }
}

/// What the per-pixel drawing path is told about one atlas entry.
#[derive(Clone, Copy, Debug, PartialEq, Eq, Structural, Hash)]
pub struct TextureMetadata {
    /// Encoding of the cell that the entry is bound to.
    pub uniq: i64,
    /// Position of the entry in the atlas.
    pub texture_idx: i32,
    /// Whether the entry is not full yet.
    pub empty: bool,
    /// When the blending towards the entry starts.
    pub start_time: Time,
}

/// The record that the per-pixel drawing path is sent for an entry, at the
/// time `now`.
pub open spec fn spec_metadata_of(texture: TextureView, now: Time) -> TextureMetadata {
    TextureMetadata {
        uniq: texture.cell.spec_uniq() as i64,
        texture_idx: texture.idx,
        empty: !texture.full,
        start_time: texture.effective_start_time(now),
    }
}

/// Prefix of the names under which the drawing path knows the values of
/// the record at position `idx_texture`.
pub open spec fn spec_uniform_prefix(idx_texture: int) -> Seq<char> {
    "textures_tiles["@ + signed_decimal(idx_texture) + "]."@
}

/// An atlas entry together with the prefix of the names under which the
/// drawing path knows it.
pub struct HpxTexture2DUniforms<'a> {
    texture: &'a HpxTexture2D,
    name: String,
}

impl<'a> HpxTexture2DUniforms<'a> {
    /// The entry that is described.
    pub closed spec fn spec_texture(&self) -> &HpxTexture2D {
        self.texture
    }

    /// The prefix of the names.
    pub closed spec fn spec_name(&self) -> Seq<char> {
        self.name@
    }

    /// The entry `texture` as the record at position `idx_texture`.
    pub fn new(texture: &'a HpxTexture2D, idx_texture: i32) -> (uniforms: HpxTexture2DUniforms<'a>)
        ensures
            uniforms.spec_texture() == texture,
            uniforms.spec_name() == spec_uniform_prefix(idx_texture as int),
    {
        let mut name: String = String::from_str("textures_tiles[");
        push_signed_decimal(&mut name, idx_texture as i64);
        name.append("].");
        HpxTexture2DUniforms { texture, name }
    }

    /// The prefix of the names.
    pub fn name(&self) -> (name: &str)
        ensures
            name@ == self.spec_name(),
    {
        self.name.as_str()
    }

    /// The name under which the drawing path knows the value `field` of
    /// the record.
    pub fn uniform_name(&self, field: &str) -> (name: String)
        ensures
            name@ == self.spec_name() + field@,
    {
        let mut name: String = String::from_str(self.name.as_str());
        name.append(field);
        name
    }

    /// The record that the drawing path is sent, at the time `now`.
    pub fn metadata(&self, now: Time) -> (record: TextureMetadata)
        requires
            self.spec_texture().inv(),
        ensures
            record == self.spec_texture().spec_metadata(now),
    {
        self.texture.metadata(now)
    }
}

} // verus!
