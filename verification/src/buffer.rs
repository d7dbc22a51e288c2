//! The tile cache: a fixed pool of atlas entries, the index from cells to
//! entries, the choice of the entry to reuse, and the search for the entry
//! to blend from.
use crate::cell::{lemma_ancestor_wf, lemma_uniq_injective, HEALPixCell};
use crate::config::HiPSConfig;
use crate::texture::{HpxTexture2D, TextureView};
use crate::time::Time;
use std::collections::HashMap;
use vstd::prelude::*;

verus! {

broadcast use vstd::std_specs::hash::group_hash_axioms;

/// What the cache stands for: its entries in atlas order, which of them
/// were used during the current frame, and how many entries the atlas has.
pub struct CacheView {
    /// The entries bound so far, by position in the atlas.
    pub slots: Seq<TextureView>,
    /// For each entry, whether it was used during the current frame.
    pub touched: Seq<bool>,
    /// Number of entries of the atlas.
    pub capacity: nat,
    /// Whether a tile arrived since the flag was last reset.
    pub available: bool,
}

impl CacheView {
    /// Position of the entry bound to `cell`, if there is one.
    pub open spec fn slot_of(self, cell: HEALPixCell) -> Option<int> {
        if exists|i: int| 0 <= i < self.slots.len() && self.slots[i].cell == cell {
            Some(choose|i: int| 0 <= i < self.slots.len() && self.slots[i].cell == cell)
        } else {
            None
        }
    }

    /// Whether an entry is bound to `cell`.
    pub open spec fn is_bound(self, cell: HEALPixCell) -> bool {
        self.slot_of(cell) is Some
    }

    /// Whether the entry bound to `cell` exists and is full.
    pub open spec fn has_full(self, cell: HEALPixCell) -> bool {
        exists|i: int| 0 <= i < self.slots.len() && self.slots[i].cell == cell && self.slots[i].full
    }

    /// Whether a full entry is bound to a cell strictly above `cell`.
    pub open spec fn has_full_above(self, cell: HEALPixCell) -> bool {
        exists|i: int| #[trigger] self.is_full_above(i, cell)
    }

    /// Whether entry `i` is full and bound to a cell strictly above `cell`.
    pub open spec fn is_full_above(self, i: int, cell: HEALPixCell) -> bool {
        &&& 0 <= i < self.slots.len()
        &&& self.slots[i].full
        &&& self.slots[i].cell.is_strict_ancestor_of(cell)
    }

    /// Whether entry `i` is, among the full entries bound to cells strictly
    /// above `cell`, the one bound to the deepest cell.
    pub open spec fn is_nearest_full_above(self, i: int, cell: HEALPixCell) -> bool {
        &&& self.is_full_above(i, cell)
        &&& forall|j: int| #[trigger]
            self.is_full_above(j, cell) ==> self.slots[j].cell.0 <= self.slots[i].cell.0
    }

    /// A cell can be drawn: the entry bound to it is full, or a full entry
    /// is bound to one of the cells above it.
    pub open spec fn is_resident(self, cell: HEALPixCell) -> bool {
        self.has_full(cell) || self.has_full_above(cell)
    }

    /// Position of the full entry bound to the nearest cell strictly above
    /// `cell`, if there is one.
    pub open spec fn nearest_full_above(self, cell: HEALPixCell) -> Option<int> {
        if self.has_full_above(cell) {
            Some(choose|i: int| self.is_nearest_full_above(i, cell))
        } else {
            None
        }
    }

    /// Whether the cache shows the tile `tile`: the entry bound to the cell
    /// `delta_depth` levels above it is full or has received it.
    pub open spec fn covers_tile(self, tile: HEALPixCell, delta_depth: nat) -> bool {
        match self.slot_of(tile.spec_ancestor(delta_depth)) {
            Some(i) => self.slots[i].covers(tile),
            None => false,
        }
    }

    /// The entry whose priority a view of `cell` raises: the one bound to
    /// `cell`, else the full one nearest above it.
    pub open spec fn touch_target(self, cell: HEALPixCell) -> Option<int> {
        if self.is_bound(cell) {
            self.slot_of(cell)
        } else {
            self.nearest_full_above(cell)
        }
    }

    /// The cache with entry `i` marked as used during the current frame.
    pub open spec fn mark(self, i: int) -> CacheView {
        CacheView { touched: self.touched.update(i, true), ..self }
    }

    /// The cache after `cell` came into view.
    pub open spec fn after_touch(self, cell: HEALPixCell) -> CacheView {
        match self.touch_target(cell) {
            Some(i) => self.mark(i),
            None => self,
        }
    }

    /// The cache after the tile `tile` came into view: the entry that shows
    /// it, if there is one, is marked as used during the current frame.
    pub open spec fn after_touch_tile(self, tile: HEALPixCell, delta_depth: nat) -> CacheView {
        if self.covers_tile(tile, delta_depth) {
            self.mark(self.slot_of(tile.spec_ancestor(delta_depth))->Some_0)
        } else {
            self
        }
    }

    /// The cache at the start of a frame: no entry used yet.
    pub open spec fn after_start_frame(self) -> CacheView {
        CacheView { touched: Seq::new(self.slots.len(), |i: int| false), ..self }
    }

    /// Whether entry `a` is to be reused rather than entry `b`: an entry
    /// not used during the frame goes before one that was; then one that
    /// is not partly filled before one that is; then the one asked for
    /// earlier; then the one at the lower position.
    pub open spec fn precedes(self, a: int, b: int) -> bool {
        let ta = self.touched[a];
        let tb = self.touched[b];
        let pa = self.slots[a].is_partial();
        let pb = self.slots[b].is_partial();
        let ra = self.slots[a].time_request.0;
        let rb = self.slots[b].time_request.0;
        if ta != tb {
            !ta
        } else if pa != pb {
            !pa
        } else if ra != rb {
            ra < rb
        } else {
            a < b
        }
    }

    /// Whether entry `v` goes before every other entry.
    pub open spec fn is_victim(self, v: int) -> bool {
        &&& 0 <= v < self.slots.len()
        &&& forall|j: int| 0 <= j < self.slots.len() && j != v ==> #[trigger] self.precedes(v, j)
    }

    /// The entry that is reused when the atlas has no entry left.
    pub open spec fn victim(self) -> int {
        choose|v: int| self.is_victim(v)
    }

    /// Position of the entry that a reservation for `cell` gives: the one
    /// already bound to it, else the next free one, else the one reused.
    pub open spec fn reserved_slot(self, cell: HEALPixCell) -> int {
        match self.slot_of(cell) {
            Some(i) => i,
            None => if self.slots.len() < self.capacity {
                self.slots.len() as int
            } else {
                self.victim()
            },
        }
    }

    /// The cache after a reservation for `cell` asked for at `time_request`:
    /// the entry given is used during the frame, and, unless it was bound
    /// to `cell` already, it is bound to `cell` with nothing received.
    pub open spec fn after_reserve(self, cell: HEALPixCell, time_request: Time) -> CacheView {
        let i = self.reserved_slot(cell);
        if self.is_bound(cell) {
            self.mark(i)
        } else if self.slots.len() < self.capacity {
            CacheView {
                slots: self.slots.push(TextureView::empty(cell, i as i32, time_request)),
                touched: self.touched.push(true),
                ..self
            }
        } else {
            CacheView {
                slots: self.slots.update(i, TextureView::empty(cell, i as i32, time_request)),
                touched: self.touched.update(i, true),
                ..self
            }
        }
    }

    /// The cache after the tile `tile` arrived at `now`: the entry bound to
    /// the cell `delta_depth` levels above the tile takes it in; with no
    /// such entry the tile is dropped and nothing changes.
    pub open spec fn after_integrate(
        self,
        tile: HEALPixCell,
        delta_depth: nat,
        tiles_per_slot: nat,
        now: Time,
    ) -> CacheView {
        match self.slot_of(tile.spec_ancestor(delta_depth)) {
            Some(i) => CacheView {
                slots: self.slots.update(i, self.slots[i].integrate(tile, tiles_per_slot, now)),
                available: true,
                ..self
            },
            None => self,
        }
    }

    /// The cache after the tile of the base cell `k` arrived at `now`, as
    /// part of the mosaic of the whole sky: an entry is reserved for the
    /// base cell and, unless it is full already, filled at once.
    pub open spec fn after_base_tile(
        self,
        k: nat,
        delta_depth: nat,
        tiles_per_slot: nat,
        time_request: Time,
        now: Time,
    ) -> CacheView {
        let cell = HEALPixCell(0, k as u64);
        let reserved = self.after_reserve(cell, time_request);
        if reserved.covers_tile(cell, delta_depth) {
            reserved
        } else {
            reserved.after_integrate(cell, delta_depth, tiles_per_slot, now)
        }
    }

    /// The cache after the tiles of the first `n` base cells arrived, one
    /// after the other.
    pub open spec fn after_allsky(
        self,
        n: nat,
        delta_depth: nat,
        tiles_per_slot: nat,
        time_request: Time,
        now: Time,
    ) -> CacheView
        decreases n,
    {
        if n == 0 {
            self
        } else {
            self.after_allsky(
                (n - 1) as nat,
                delta_depth,
                tiles_per_slot,
                time_request,
                now,
            ).after_base_tile((n - 1) as nat, delta_depth, tiles_per_slot, time_request, now)
        }
    }

    /// The invariant of the cache of an atlas whose entries pack `capacity`
    /// tiles, `delta_depth` levels below an entry's cell: no more entries
    /// than the atlas has, each at its position and well formed, no two
    /// bound to one cell, and each holding tiles of its own cell only.
    pub open spec fn wf(self, delta_depth: nat, tiles_per_slot: nat) -> bool {
        &&& self.slots.len() <= self.capacity
        &&& self.capacity <= i32::MAX
        &&& self.touched.len() == self.slots.len()
        &&& forall|i: int|
            0 <= i < self.slots.len() ==> (#[trigger] self.slots[i]).wf(tiles_per_slot)
        &&& forall|i: int| 0 <= i < self.slots.len() ==> (#[trigger] self.slots[i]).idx == i
        &&& forall|i: int, j: int|
            0 <= i < self.slots.len() && 0 <= j < self.slots.len() && i != j ==> (
            #[trigger] self.slots[i]).cell != (#[trigger] self.slots[j]).cell
        &&& forall|i: int, t: HEALPixCell|
            0 <= i < self.slots.len() && #[trigger] self.slots[i].tiles.contains(t) ==> t.wf()
                && t.spec_ancestor(delta_depth) == self.slots[i].cell
    }
}

/// The entry bound to a cell is the only one: its position is what
/// [`CacheView::slot_of`] gives.
pub proof fn lemma_slot_of_unique(
    cache: CacheView,
    delta_depth: nat,
    tiles_per_slot: nat,
    i: int,
    cell: HEALPixCell,
)
    requires
        cache.wf(delta_depth, tiles_per_slot),
        0 <= i < cache.slots.len(),
        cache.slots[i].cell == cell,
    ensures
        cache.slot_of(cell) == Some(i),
{
    let j = choose|j: int| 0 <= j < cache.slots.len() && cache.slots[j].cell == cell;
    if i != j {
        assert(cache.slots[i].cell != cache.slots[j].cell);
    }
}

/// At most one entry is the full entry nearest above a cell.
pub proof fn lemma_nearest_full_above_unique(
    cache: CacheView,
    delta_depth: nat,
    tiles_per_slot: nat,
    i: int,
    cell: HEALPixCell,
)
    requires
        cache.wf(delta_depth, tiles_per_slot),
        cache.is_nearest_full_above(i, cell),
    ensures
        cache.nearest_full_above(cell) == Some(i),
{
    assert(cache.is_full_above(i, cell));
    let j = choose|j: int| cache.is_nearest_full_above(j, cell);
    assert(cache.is_full_above(j, cell));
    if i != j {
        assert(cache.slots[i].cell != cache.slots[j].cell);
    }
}

/// At most one entry goes before every other.
pub proof fn lemma_victim_unique(cache: CacheView, v: int)
    requires
        cache.is_victim(v),
    ensures
        cache.victim() == v,
{
    let w = cache.victim();
    if w != v {
        assert(cache.precedes(v, w));
        assert(cache.precedes(w, v));
    }
}

/// Among the first `n` entries one goes before every other of them.
proof fn lemma_first_of_prefix(cache: CacheView, n: int) -> (v: int)
    requires
        0 < n <= cache.slots.len(),
    ensures
        0 <= v < n,
        forall|j: int| 0 <= j < n && j != v ==> #[trigger] cache.precedes(v, j),
    decreases n,
{
    if n == 1 {
        0
    } else {
        let w = lemma_first_of_prefix(cache, n - 1);
        if cache.precedes(w, n - 1) {
            w
        } else {
            assert forall|j: int| 0 <= j < n && j != n - 1 implies #[trigger] cache.precedes(
                n - 1,
                j,
            ) by {
                if j != w {
                    assert(cache.precedes(w, j));
                }
            }
            n - 1
        }
    }
}

/// A cache with an entry has an entry to reuse.
pub proof fn lemma_victim_exists(cache: CacheView)
    requires
        cache.slots.len() > 0,
    ensures
        cache.is_victim(cache.victim()),
{
    let v = lemma_first_of_prefix(cache, cache.slots.len() as int);
    assert(cache.is_victim(v));
}

/// An entry that was used during the frame is never the one reused while
/// an entry exists that was not.
pub proof fn lemma_victim_not_in_view(cache: CacheView, unused: int)
    requires
        0 <= unused < cache.slots.len(),
        !cache.touched[unused],
    ensures
        !cache.touched[cache.victim()],
{
    lemma_victim_exists(cache);
    let v = cache.victim();
    if v != unused {
        assert(cache.precedes(v, unused));
    }
}

/// Among the entries that were not used during the frame, one that is
/// partly filled is reused only when every one of them is partly filled.
pub proof fn lemma_victim_spares_partial(cache: CacheView, other: int)
    requires
        0 <= other < cache.slots.len(),
        !cache.touched[other],
        !cache.slots[other].is_partial(),
    ensures
        !cache.slots[cache.victim()].is_partial(),
{
    lemma_victim_exists(cache);
    let v = cache.victim();
    if v != other {
        assert(cache.precedes(v, other));
    }
}

/// Among the entries that compare equal in use and in filling, the one
/// asked for first is reused.
pub proof fn lemma_victim_is_oldest(cache: CacheView, other: int)
    requires
        0 <= other < cache.slots.len(),
        cache.touched[other] == cache.touched[cache.victim()],
        cache.slots[other].is_partial() == cache.slots[cache.victim()].is_partial(),
    ensures
        cache.slots[cache.victim()].time_request.0 <= cache.slots[other].time_request.0,
{
    lemma_victim_exists(cache);
    let v = cache.victim();
    if v != other {
        assert(cache.precedes(v, other));
    }
}

/// A reservation keeps the cache well formed.
pub proof fn lemma_after_reserve_wf(
    cache: CacheView,
    delta_depth: nat,
    tiles_per_slot: nat,
    cell: HEALPixCell,
    time_request: Time,
)
    requires
        cache.wf(delta_depth, tiles_per_slot),
        cell.wf(),
        0 < tiles_per_slot,
        0 < cache.capacity,
    ensures
        cache.after_reserve(cell, time_request).wf(delta_depth, tiles_per_slot),
        0 <= cache.reserved_slot(cell) < cache.after_reserve(cell, time_request).slots.len(),
        cache.after_reserve(cell, time_request).slots[cache.reserved_slot(cell)].cell == cell,
        cache.after_reserve(cell, time_request).touched[cache.reserved_slot(cell)],
{
    let next = cache.after_reserve(cell, time_request);
    let i = cache.reserved_slot(cell);
    let fresh = TextureView::empty(cell, i as i32, time_request);
    if cache.is_bound(cell) {
    } else {
        assert(fresh.wf(tiles_per_slot));
        if cache.slots.len() >= cache.capacity {
            lemma_victim_exists(cache);
        }
        assert forall|a: int, b: int|
            0 <= a < next.slots.len() && 0 <= b < next.slots.len() && a != b implies (
        #[trigger] next.slots[a]).cell != (#[trigger] next.slots[b]).cell by {
            if a == i {
                assert(cache.slots[b].cell != cell);
            } else if b == i {
                assert(cache.slots[a].cell != cell);
            } else {
                assert(next.slots[a] == cache.slots[a]);
                assert(next.slots[b] == cache.slots[b]);
            }
        }
        assert forall|a: int| 0 <= a < next.slots.len() implies (#[trigger] next.slots[a]).wf(
            tiles_per_slot,
        ) by {
            if a != i {
                assert(next.slots[a] == cache.slots[a]);
            }
        }
        assert forall|a: int| 0 <= a < next.slots.len() implies (#[trigger] next.slots[a]).idx
            == a by {
            if a != i {
                assert(next.slots[a] == cache.slots[a]);
            }
        }
    }
}

/// The tile cache.
pub struct HiPS2DBuffer {
    config: HiPSConfig,
    slots: Vec<HpxTexture2D>,
    touched: Vec<bool>,
    index: HashMap<u64, usize>,
    available_tiles_during_frame: bool,
}

impl View for HiPS2DBuffer {
    type V = CacheView;

    closed spec fn view(&self) -> CacheView {
        CacheView {
            slots: Seq::new(self.slots@.len(), |i: int| self.slots@[i]@),
            touched: self.touched@,
            capacity: self.config.num_textures as nat,
            available: self.available_tiles_during_frame,
        }
    }
}

impl HiPS2DBuffer {
    /// The configuration that the cache was made for.
    pub closed spec fn spec_config(&self) -> &HiPSConfig {
        &self.config
    }

    /// How the cache is held: each entry is held well, and the index maps
    /// the encoding of each bound cell, and nothing else, to its entry.
    pub closed spec fn inv(&self) -> bool {
        &&& forall|i: int| 0 <= i < self.slots@.len() ==> (#[trigger] self.slots@[i]).inv()
        &&& forall|i: int|
            0 <= i < self.slots@.len() ==> self.index@.contains_key(
                (#[trigger] self.slots@[i])@.cell.spec_uniq() as u64,
            ) && self.index@[self.slots@[i]@.cell.spec_uniq() as u64] == i
        &&& forall|k: u64| #[trigger]
            self.index@.contains_key(k) ==> self.index@[k] < self.slots@.len()
                && self.slots@[self.index@[k] as int]@.cell.spec_uniq() == k
    }

    /// The cache is well formed.
    pub open spec fn wf(&self) -> bool {
        &&& self.inv()
        &&& self.spec_config().wf()
        &&& self@.capacity == self.spec_config().num_textures
        &&& self@.wf(
            self.spec_config().delta_depth as nat,
            self.spec_config().num_tiles_per_texture as nat,
        )
    }

    /// A cache for the atlas that `config` lays out, with no entry bound.
    pub fn new(config: HiPSConfig) -> (cache: HiPS2DBuffer)
        requires
            config.wf(),
        ensures
            cache.wf(),
            *cache.spec_config() == config,
            cache@.slots.len() == 0,
            cache@.capacity == config.num_textures,
            !cache@.available,
    {
        let cache = HiPS2DBuffer {
            config,
            slots: Vec::new(),
            touched: Vec::new(),
            index: HashMap::new(),
            available_tiles_during_frame: false,
        };
        cache
    }

    /// The configuration that the cache was made for.
    pub fn config(&self) -> (cfg: &HiPSConfig)
        ensures
            cfg == self.spec_config(),
    {
        &self.config
    }

    /// Number of entries bound so far.
    pub fn len(&self) -> (n: usize)
        ensures
            n == self@.slots.len(),
    {
        self.slots.len()
    }

    /// The entry at position `i` of the atlas.
    pub fn slot(&self, i: usize) -> (texture: &HpxTexture2D)
        requires
            i < self@.slots.len(),
        ensures
            texture@ == self@.slots[i as int],
    {
        &self.slots[i]
    }

    /// Whether the entry at position `i` was used during the current frame.
    pub fn is_touched(&self, i: usize) -> (r: bool)
        requires
            i < self@.touched.len(),
        ensures
            r == self@.touched[i as int],
    {
        self.touched[i]
    }

    /// Position of the entry bound to `cell`, if there is one.
    pub fn slot_index(&self, cell: &HEALPixCell) -> (r: Option<usize>)
        requires
            self.wf(),
        ensures
            match r {
                Some(i) => self@.slot_of(*cell) == Some(i as int) && i < self@.slots.len()
                    && self@.slots[i as int].cell == *cell,
                None => self@.slot_of(*cell) is None,
            },
    {
        if !cell.is_valid() {
            return None;
        }
        let uniq: u64 = cell.uniq();
        match self.index.get(&uniq) {
            Some(i) => {
                proof {
                    let bound = self.slots@[*i as int]@.cell;
                    assert(self@.slots[*i as int] == self.slots@[*i as int]@);
                    assert(self@.slots[*i as int].wf(
                        self.spec_config().num_tiles_per_texture as nat,
                    ));
                    lemma_uniq_injective(bound, *cell);
                    lemma_slot_of_unique(
                        self@,
                        self.spec_config().delta_depth as nat,
                        self.spec_config().num_tiles_per_texture as nat,
                        *i as int,
                        *cell,
                    );
                }
                Some(*i)
            },
            None => {
                proof {
                    if self@.slot_of(*cell) is Some {
                        let j = self@.slot_of(*cell)->Some_0;
                        assert(self@.slots[j] == self.slots@[j]@);
                        assert(self.index@.contains_key(self.slots@[j]@.cell.spec_uniq() as u64));
                    }
                }
                None
            },
        }
    }

    /// The entry bound to `cell` itself, if there is one.
    pub fn lookup(&self, cell: &HEALPixCell) -> (r: Option<&HpxTexture2D>)
        requires
            self.wf(),
        ensures
            match r {
                Some(texture) => self@.slot_of(*cell) is Some && texture@
                    == self@.slots[self@.slot_of(*cell)->Some_0] && texture@.cell == *cell,
                None => self@.slot_of(*cell) is None,
            },
    {
        match self.slot_index(cell) {
            Some(i) => Some(&self.slots[i]),
            None => None,
        }
    }
    /// Whether a tile arrived since the flag was last reset; resets it.
    pub fn reset_available_tiles(&mut self) -> (r: bool)
        requires
            old(self).wf(),
        ensures
            final(self).wf(),
            r == old(self)@.available,
            final(self)@ == (CacheView { available: false, ..old(self)@ }),
            final(self).spec_config() == old(self).spec_config(),
    {
        let r: bool = self.available_tiles_during_frame;
        self.available_tiles_during_frame = false;
        assert(self@.slots =~= old(self)@.slots);
        r
    }

    /// The full entry bound to the nearest cell strictly above `cell`, by
    /// its position.
    pub fn nearest_resident_ancestor_index(&self, cell: &HEALPixCell) -> (r: Option<usize>)
        requires
            self.wf(),
            cell.wf(),
        ensures
            match r {
                Some(i) => self@.is_nearest_full_above(i as int, *cell)
                    && self@.nearest_full_above(*cell) == Some(i as int),
                None => !self@.has_full_above(*cell) && self@.nearest_full_above(*cell) is None,
            },
    {
        let depth: u8 = cell.depth();
        let mut k: u8 = 1;
        while k <= depth
            invariant
                self.wf(),
                cell.wf(),
                depth == cell.0,
                1 <= k <= depth + 1,
                forall|d: nat| 1 <= d < k ==> !self@.has_full(#[trigger] cell.spec_ancestor(d)),
            decreases depth + 1 - k,
        {
            let above: HEALPixCell = cell.ancestor(k);
            if let Some(i) = self.slot_index(&above) {
                if self.slots[i].is_full() {
                    proof {
                        let cache = self@;
                        assert(cache.slots[i as int] == self.slots@[i as int]@);
                        lemma_ancestor_wf(*cell, k as nat);
                        assert(cache.is_full_above(i as int, *cell));
                        assert forall|j: int| #[trigger]
                            cache.is_full_above(j, *cell) implies cache.slots[j].cell.0
                            <= cache.slots[i as int].cell.0 by {
                            let d = (cell.0 - cache.slots[j].cell.0) as nat;
                            if d < k {
                                assert(cache.slots[j].cell == cell.spec_ancestor(d));
                                assert(cache.has_full(cell.spec_ancestor(d)));
                            }
                        }
                        lemma_nearest_full_above_unique(
                            cache,
                            self.spec_config().delta_depth as nat,
                            self.spec_config().num_tiles_per_texture as nat,
                            i as int,
                            *cell,
                        );
                    }
                    return Some(i);
                }
            }
            proof {
                let cache = self@;
                if cache.has_full(above) {
                    let j = choose|j: int|
                        0 <= j < cache.slots.len() && cache.slots[j].cell == above
                            && cache.slots[j].full;
                    lemma_slot_of_unique(
                        cache,
                        self.spec_config().delta_depth as nat,
                        self.spec_config().num_tiles_per_texture as nat,
                        j,
                        above,
                    );
                    assert(cache.slots[j] == self.slots@[j]@);
                }
            }
            k = k + 1;
        }
        proof {
            let cache = self@;
            assert forall|j: int| !#[trigger] cache.is_full_above(j, *cell) by {
                if cache.is_full_above(j, *cell) {
                    let d = (cell.0 - cache.slots[j].cell.0) as nat;
                    assert(cache.slots[j].cell == cell.spec_ancestor(d));
                    assert(cache.has_full(cell.spec_ancestor(d)));
                }
            }
        }
        None
    }

    /// The entry to blend from while `cell` streams in: the full entry
    /// bound to the nearest cell strictly above `cell`. It is always bound
    /// to a true ancestor of `cell`; there is none exactly when no full
    /// entry is bound to a cell above `cell`.
    pub fn nearest_resident_ancestor(&self, cell: &HEALPixCell) -> (r: Option<&HpxTexture2D>)
        requires
            self.wf(),
            cell.wf(),
        ensures
            match r {
                Some(texture) => {
                    &&& texture@.full
                    &&& texture@.cell.is_strict_ancestor_of(*cell)
                    &&& self@.nearest_full_above(*cell) is Some
                    &&& texture@ == self@.slots[self@.nearest_full_above(*cell)->Some_0]
                    &&& self@.is_nearest_full_above(self@.nearest_full_above(*cell)->Some_0, *cell)
                },
                None => !self@.has_full_above(*cell),
            },
    {
        match self.nearest_resident_ancestor_index(cell) {
            Some(i) => {
                assert(self@.slots[i as int] == self.slots@[i as int]@);
                Some(&self.slots[i])
            },
            None => None,
        }
    }

    /// The cell of the entry to blend from while `cell` streams in.
    pub fn get_nearest_parent(&self, cell: &HEALPixCell) -> (r: Option<HEALPixCell>)
        requires
            self.wf(),
            cell.wf(),
        ensures
            match r {
                Some(above) => self@.nearest_full_above(*cell) is Some && above
                    == self@.slots[self@.nearest_full_above(*cell)->Some_0].cell
                    && above.is_strict_ancestor_of(*cell) && self@.has_full(above),
                None => !self@.has_full_above(*cell),
            },
    {
        match self.nearest_resident_ancestor(cell) {
            Some(texture) => Some(*texture.cell()),
            None => None,
        }
    }

    /// Whether `cell` can be drawn: the entry bound to it is full, or a
    /// full entry is bound to a cell above it.
    pub fn is_resident(&self, cell: &HEALPixCell) -> (r: bool)
        requires
            self.wf(),
            cell.wf(),
        ensures
            r == self@.is_resident(*cell),
    {
        if let Some(i) = self.slot_index(cell) {
            assert(self@.slots[i as int] == self.slots@[i as int]@);
            if self.slots[i].is_full() {
                return true;
            }
            proof {
                let cache = self@;
                if cache.has_full(*cell) {
                    let j = choose|j: int|
                        0 <= j < cache.slots.len() && cache.slots[j].cell == *cell
                            && cache.slots[j].full;
                    lemma_slot_of_unique(
                        cache,
                        self.spec_config().delta_depth as nat,
                        self.spec_config().num_tiles_per_texture as nat,
                        j,
                        *cell,
                    );
                }
            }
        }
        self.nearest_resident_ancestor_index(cell).is_some()
    }

    /// Whether the cache shows the tile `tile`.
    pub fn contains_tile(&self, tile: &HEALPixCell) -> (r: bool)
        requires
            self.wf(),
            tile.wf(),
        ensures
            r == self@.covers_tile(*tile, self.spec_config().delta_depth as nat),
    {
        let texture_cell: HEALPixCell = tile.get_texture_cell(self.config.delta_depth());
        match self.slot_index(&texture_cell) {
            Some(i) => {
                assert(self@.slots[i as int] == self.slots@[i as int]@);
                self.slots[i].contains_tile(tile)
            },
            None => false,
        }
    }

    /// Marks the start of a frame: no entry has been used yet.
    pub fn start_frame(&mut self)
        requires
            old(self).wf(),
        ensures
            final(self).wf(),
            final(self)@ == old(self)@.after_start_frame(),
            final(self).spec_config() == old(self).spec_config(),
    {
        let n: usize = self.touched.len();
        let mut i: usize = 0;
        while i < n
            invariant
                n == self.touched@.len(),
                i <= n,
                self.slots == old(self).slots,
                self.index == old(self).index,
                self.config == old(self).config,
                self.available_tiles_during_frame == old(self).available_tiles_during_frame,
                forall|j: int| 0 <= j < i ==> !self.touched@[j],
            decreases n - i,
        {
            self.touched[i] = false;
            i = i + 1;
        }
        assert(self@.touched =~= old(self)@.after_start_frame().touched);
        assert(self@.slots =~= old(self)@.slots);
    }

    /// Raises the priority of the entry that shows `cell`, as `cell` comes
    /// into view: the entry bound to `cell`, else the full entry nearest
    /// above it. Returns the position of that entry.
    pub fn touch(&mut self, cell: &HEALPixCell) -> (r: Option<usize>)
        requires
            old(self).wf(),
            cell.wf(),
        ensures
            final(self).wf(),
            final(self)@ == old(self)@.after_touch(*cell),
            final(self).spec_config() == old(self).spec_config(),
            match r {
                Some(i) => old(self)@.touch_target(*cell) == Some(i as int),
                None => old(self)@.touch_target(*cell) is None,
            },
    {
        let target: Option<usize> = match self.slot_index(cell) {
            Some(i) => Some(i),
            None => self.nearest_resident_ancestor_index(cell),
        };
        if let Some(i) = target {
            self.touched[i] = true;
        }
        assert(self@.slots =~= old(self)@.slots);
        target
    }

    /// Raises the priority of the entry that shows the tile `tile`, as the
    /// tile comes into view, and tells whether there is such an entry.
    pub fn update_priority_tile(&mut self, tile: &HEALPixCell) -> (r: bool)
        requires
            old(self).wf(),
            tile.wf(),
        ensures
            final(self).wf(),
            final(self).spec_config() == old(self).spec_config(),
            r == old(self)@.covers_tile(*tile, old(self).spec_config().delta_depth as nat),
            final(self)@ == old(self)@.after_touch_tile(
                *tile,
                old(self).spec_config().delta_depth as nat,
            ),
    {
        let texture_cell: HEALPixCell = tile.get_texture_cell(self.config.delta_depth());
        match self.slot_index(&texture_cell) {
            Some(i) => {
                assert(self@.slots[i as int] == self.slots@[i as int]@);
                if self.slots[i].contains_tile(tile) {
                    self.touched[i] = true;
                    assert(self@.slots =~= old(self)@.slots);
                    true
                } else {
                    false
                }
            },
            None => false,
        }
    }

    /// The records of the entries bound so far, in atlas order, for the
    /// per-pixel drawing path at the time `now`.
    pub fn texture_metadata(&self, now: Time) -> (records: Vec<crate::texture::TextureMetadata>)
        requires
            self.wf(),
        ensures
            records@.len() == self@.slots.len(),
            records@.len() <= self@.capacity,
            forall|i: int|
                0 <= i < records@.len() ==> #[trigger] records@[i]
                    == crate::texture::spec_metadata_of(self@.slots[i], now),
    {
        let n: usize = self.slots.len();
        let mut records: Vec<crate::texture::TextureMetadata> = Vec::new();
        let mut i: usize = 0;
        while i < n
            invariant
                self.wf(),
                n == self.slots@.len(),
                i <= n,
                records@.len() == i,
                forall|k: int|
                    0 <= k < i ==> #[trigger] records@[k] == crate::texture::spec_metadata_of(
                        self@.slots[k],
                        now,
                    ),
            decreases n - i,
        {
            assert(self@.slots[i as int] == self.slots@[i as int]@);
            records.push(self.slots[i].metadata(now));
            i = i + 1;
        }
        records
    }

    /// Takes in the mosaic of the whole sky, asked for at `time_request`
    /// and received at `now`: each of the twelve base cells in turn is
    /// given an entry, which its part of the mosaic fills at once.
    pub fn push_allsky(&mut self, time_request: Time, now: Time)
        requires
            old(self).wf(),
        ensures
            final(self).wf(),
            final(self).spec_config() == old(self).spec_config(),
            final(self)@ == old(self)@.after_allsky(
                12,
                old(self).spec_config().delta_depth as nat,
                old(self).spec_config().num_tiles_per_texture as nat,
                time_request,
                now,
            ),
            final(self)@.has_full(HEALPixCell(0, 11)),
    {
        let ghost dd = self.spec_config().delta_depth as nat;
        let ghost tps = self.spec_config().num_tiles_per_texture as nat;
        let mut k: u64 = 0;
        while k < 12
            invariant
                self.wf(),
                self.spec_config() == old(self).spec_config(),
                dd == self.spec_config().delta_depth,
                tps == self.spec_config().num_tiles_per_texture,
                k <= 12,
                self@ == old(self)@.after_allsky(k as nat, dd, tps, time_request, now),
                k > 0 ==> self@.has_full(HEALPixCell(0, (k - 1) as u64)),
            decreases 12 - k,
        {
            let cell = HEALPixCell(0, k);
            proof {
                vstd::arithmetic::power2::lemma2_to64();
                assert(cell.wf());
                crate::cell::lemma_ancestor_zero(cell);
                assert(cell.spec_ancestor(dd) == cell.spec_ancestor(0));
            }
            let slot: usize = self.reserve_slot_for(&cell, time_request);
            let ghost reserved = self@;
            assert(reserved.slots[slot as int] == self.slots@[slot as int]@);
            proof {
                lemma_slot_of_unique(reserved, dd, tps, slot as int, cell);
            }
            if !self.contains_tile(&cell) {
                self.integrate_tile(&cell, now);
            }
            proof {
                let after = self@;
                assert(after.slots[slot as int].cell == cell);
                assert(after.slots[slot as int].full);
            }
            k = k + 1;
        }
    }

    /// Has the tiles of the survey fetched with the extension `ext` from
    /// now on: every entry is given up, since what it holds is of the
    /// format before, and the arrival of tiles is flagged so that the
    /// mesh is made anew. Fails, and changes nothing, when the
    /// configuration refuses the extension.
    pub fn set_image_ext(&mut self, ext: crate::format::ImageExt) -> (r: Result<
        (),
        crate::config::ConfigError,
    >)
        requires
            old(self).wf(),
        ensures
            match crate::config::spec_format_for(ext, old(self).spec_config().bitpix as int) {
                Err(e) => r == Err::<(), crate::config::ConfigError>(e) && *final(self)
                    == *old(self),
                Ok(format) => {
                    &&& r is Ok
                    &&& final(self).wf()
                    &&& final(self).spec_config().reformatted(old(self).spec_config(), format)
                    &&& final(self)@ == (CacheView {
                        slots: Seq::empty(),
                        touched: Seq::empty(),
                        capacity: old(self)@.capacity,
                        available: true,
                    })
                },
            },
    {
        match self.config.set_image_ext(ext) {
            Err(e) => Err(e),
            Ok(()) => {
                self.slots.clear();
                self.touched.clear();
                self.index.clear();
                self.available_tiles_during_frame = true;
                assert(self@.slots =~= Seq::<TextureView>::empty());
                Ok(())
            },
        }
    }

    /// Whether entry `a` is to be reused rather than entry `b`.
    fn goes_before(&self, a: usize, b: usize) -> (r: bool)
        requires
            a < self.slots@.len(),
            b < self.slots@.len(),
            self.touched@.len() == self.slots@.len(),
        ensures
            r == self@.precedes(a as int, b as int),
    {
        let ta: bool = self.touched[a];
        let tb: bool = self.touched[b];
        let pa: bool = !self.slots[a].is_full() && self.slots[a].num_tiles_written() > 0;
        let pb: bool = !self.slots[b].is_full() && self.slots[b].num_tiles_written() > 0;
        let ra: u64 = self.slots[a].time_request().as_millis();
        let rb: u64 = self.slots[b].time_request().as_millis();
        if ta != tb {
            !ta
        } else if pa != pb {
            !pa
        } else if ra != rb {
            ra < rb
        } else {
            a < b
        }
    }

    /// The entry that is reused when the atlas has no entry left.
    fn find_victim(&self) -> (v: usize)
        requires
            self.slots@.len() > 0,
            self.touched@.len() == self.slots@.len(),
        ensures
            self@.is_victim(v as int),
            self@.victim() == v,
    {
        let n: usize = self.slots.len();
        let mut best: usize = 0;
        let mut i: usize = 1;
        while i < n
            invariant
                n == self.slots@.len(),
                self.touched@.len() == self.slots@.len(),
                1 <= i <= n,
                best < i,
                forall|j: int| 0 <= j < i && j != best ==> #[trigger] self@.precedes(best as int, j),
            decreases n - i,
        {
            if self.goes_before(i, best) {
                proof {
                    let cache = self@;
                    assert forall|j: int| 0 <= j < i + 1 && j != i implies #[trigger] cache.precedes(
                        i as int,
                        j,
                    ) by {
                        if j != best {
                            assert(cache.precedes(best as int, j));
                        }
                    }
                }
                best = i;
            }
            i = i + 1;
        }
        proof {
            lemma_victim_unique(self@, best as int);
        }
        best
    }

    /// Gives `cell` an entry of the atlas and returns its position. A cell
    /// that has an entry keeps it. Otherwise the next free entry is bound
    /// to `cell`; with none free, the entry that goes before every other
    /// is bound to `cell` and loses what it had received. Either way the
    /// entry counts as used during the current frame.
    pub fn reserve_slot_for(&mut self, cell: &HEALPixCell, time_request: Time) -> (r: usize)
        requires
            old(self).wf(),
            cell.wf(),
        ensures
            final(self).wf(),
            final(self).spec_config() == old(self).spec_config(),
            r == old(self)@.reserved_slot(*cell),
            final(self)@ == old(self)@.after_reserve(*cell, time_request),
            r < final(self)@.slots.len(),
            final(self)@.slots[r as int].cell == *cell,
    {
        let ghost before = self@;
        let ghost dd = self.spec_config().delta_depth as nat;
        let ghost tps = self.spec_config().num_tiles_per_texture as nat;
        proof {
            crate::cell::lemma_cells_per_base_step(dd);
            lemma_after_reserve_wf(before, dd, tps, *cell, time_request);
        }
        if let Some(i) = self.slot_index(cell) {
            self.touched[i] = true;
            assert(self@.slots =~= before.slots);
            return i;
        }
        let uniq: u64 = cell.uniq();
        let n: usize = self.slots.len();
        if n < self.config.num_textures() {
            let texture = HpxTexture2D::new(cell, n as i32, time_request);
            self.slots.push(texture);
            self.touched.push(true);
            self.index.insert(uniq, n);
            proof {
                let after = self@;
                let want = before.after_reserve(*cell, time_request);
                assert(after.slots =~= want.slots) by {
                    assert forall|j: int| 0 <= j < after.slots.len() implies after.slots[j]
                        == want.slots[j] by {
                        if j < n {
                            assert(self.slots@[j] == old(self).slots@[j]);
                            assert(before.slots[j] == old(self).slots@[j]@);
                        }
                    }
                }
                assert(after.touched =~= want.touched);
                assert forall|j: int| 0 <= j < self.slots@.len() implies (#[trigger] self.slots@[j]).inv()
                    by {
                    if j < n {
                        assert(self.slots@[j] == old(self).slots@[j]);
                    }
                }
                assert forall|j: int| 0 <= j < self.slots@.len() implies self.index@.contains_key(
                    (#[trigger] self.slots@[j])@.cell.spec_uniq() as u64,
                ) && self.index@[self.slots@[j]@.cell.spec_uniq() as u64] == j by {
                    if j < n {
                        assert(self.slots@[j] == old(self).slots@[j]);
                        assert(before.slots[j] == old(self).slots@[j]@);
                        assert(before.slots[j].cell != *cell);
                        assert(before.slots[j].wf(tps));
                        if old(self).slots@[j]@.cell.spec_uniq() == cell.spec_uniq() {
                            lemma_uniq_injective(old(self).slots@[j]@.cell, *cell);
                        }
                    }
                }
                assert forall|k: u64| #[trigger] self.index@.contains_key(k) implies self.index@[k]
                    < self.slots@.len() && self.slots@[self.index@[k] as int]@.cell.spec_uniq()
                    == k by {
                    if k != uniq {
                        assert(old(self).index@.contains_key(k));
                        let j = old(self).index@[k] as int;
                        assert(self.slots@[j] == old(self).slots@[j]);
                    }
                }
            }
            return n;
        }
        let v: usize = self.find_victim();
        let old_uniq: u64 = self.slots[v].uniq();
        self.index.remove(&old_uniq);
        self.slots[v].replace(cell, time_request);
        self.touched[v] = true;
        self.index.insert(uniq, v);
        proof {
            let after = self@;
            let want = before.after_reserve(*cell, time_request);
            assert(before.slots[v as int] == old(self).slots@[v as int]@);
            assert(before.slots[v as int].idx == v);
            assert(after.slots =~= want.slots) by {
                assert forall|j: int| 0 <= j < after.slots.len() implies after.slots[j]
                    == want.slots[j] by {
                    if j != v {
                        assert(self.slots@[j] == old(self).slots@[j]);
                        assert(before.slots[j] == old(self).slots@[j]@);
                    }
                }
            }
            assert(after.touched =~= want.touched);
            assert forall|j: int| 0 <= j < self.slots@.len() implies (#[trigger] self.slots@[j]).inv()
                by {
                if j != v {
                    assert(self.slots@[j] == old(self).slots@[j]);
                }
            }
            assert forall|j: int| 0 <= j < self.slots@.len() implies self.index@.contains_key(
                (#[trigger] self.slots@[j])@.cell.spec_uniq() as u64,
            ) && self.index@[self.slots@[j]@.cell.spec_uniq() as u64] == j by {
                if j != v {
                    assert(self.slots@[j] == old(self).slots@[j]);
                    assert(before.slots[j] == old(self).slots@[j]@);
                    assert(before.slots[j].cell != *cell);
                    assert(before.slots[j].cell != before.slots[v as int].cell);
                    assert(before.slots[j].wf(tps));
                    assert(before.slots[v as int].wf(tps));
                    if old(self).slots@[j]@.cell.spec_uniq() == cell.spec_uniq() {
                        lemma_uniq_injective(old(self).slots@[j]@.cell, *cell);
                    }
                    if old(self).slots@[j]@.cell.spec_uniq() == old_uniq {
                        lemma_uniq_injective(
                            old(self).slots@[j]@.cell,
                            old(self).slots@[v as int]@.cell,
                        );
                    }
                }
            }
            assert forall|k: u64| #[trigger] self.index@.contains_key(k) implies self.index@[k]
                < self.slots@.len() && self.slots@[self.index@[k] as int]@.cell.spec_uniq()
                == k by {
                if k != uniq {
                    assert(old(self).index@.contains_key(k));
                    let j = old(self).index@[k] as int;
                    assert(k != old_uniq);
                    if j != v {
                        assert(self.slots@[j] == old(self).slots@[j]);
                    }
                }
            }
        }
        v
    }

    /// Takes in the tile `tile`, received at `now`: the entry bound to the
    /// cell that holds the tile receives it, and its position is returned.
    /// A tile whose entry has meanwhile been bound to another cell is
    /// dropped: nothing changes and `None` is returned. The cache must not
    /// show the tile already.
    pub fn integrate_tile(&mut self, tile: &HEALPixCell, now: Time) -> (r: Option<usize>)
        requires
            old(self).wf(),
            tile.wf(),
            !old(self)@.covers_tile(*tile, old(self).spec_config().delta_depth as nat),
        ensures
            final(self).wf(),
            final(self).spec_config() == old(self).spec_config(),
            final(self)@ == old(self)@.after_integrate(
                *tile,
                old(self).spec_config().delta_depth as nat,
                old(self).spec_config().num_tiles_per_texture as nat,
                now,
            ),
            match r {
                Some(i) => old(self)@.slot_of(
                    tile.spec_ancestor(old(self).spec_config().delta_depth as nat),
                ) == Some(i as int),
                None => old(self)@.slot_of(
                    tile.spec_ancestor(old(self).spec_config().delta_depth as nat),
                ) is None,
            },
    {
        let ghost before = self@;
        let ghost dd = self.spec_config().delta_depth as nat;
        let ghost tps = self.spec_config().num_tiles_per_texture as nat;
        let texture_cell: HEALPixCell = tile.get_texture_cell(self.config.delta_depth());
        match self.slot_index(&texture_cell) {
            None => None,
            Some(i) => {
                assert(before.slots[i as int] == self.slots@[i as int]@);
                assert(before.slots[i as int].wf(tps));
                self.slots[i].append(tile, &self.config, now);
                self.available_tiles_during_frame = true;
                proof {
                    let after = self@;
                    let want = before.after_integrate(*tile, dd, tps, now);
                    assert(after.slots =~= want.slots) by {
                        assert forall|j: int| 0 <= j < after.slots.len() implies after.slots[j]
                            == want.slots[j] by {
                            if j != i {
                                assert(self.slots@[j] == old(self).slots@[j]);
                                assert(before.slots[j] == old(self).slots@[j]@);
                            }
                        }
                    }
                    assert forall|j: int| 0 <= j < self.slots@.len() implies (
                    #[trigger] self.slots@[j]).inv() by {
                        if j != i {
                            assert(self.slots@[j] == old(self).slots@[j]);
                        }
                    }
                    assert forall|j: int|
                        0 <= j < self.slots@.len() implies self.index@.contains_key(
                        (#[trigger] self.slots@[j])@.cell.spec_uniq() as u64,
                    ) && self.index@[self.slots@[j]@.cell.spec_uniq() as u64] == j by {
                        if j != i {
                            assert(self.slots@[j] == old(self).slots@[j]);
                        }
                    }
                    assert forall|k: u64| #[trigger]
                        self.index@.contains_key(k) implies self.index@[k] < self.slots@.len()
                        && self.slots@[self.index@[k] as int]@.cell.spec_uniq() == k by {
                        let j = self.index@[k] as int;
                        if j != i {
                            assert(self.slots@[j] == old(self).slots@[j]);
                        }
                    }
                    assert forall|a: int| 0 <= a < after.slots.len() implies (
                    #[trigger] after.slots[a]).wf(tps) by {
                        if a != i {
                            assert(after.slots[a] == before.slots[a]);
                        }
                    }
                    assert forall|a: int, b: int|
                        0 <= a < after.slots.len() && 0 <= b < after.slots.len() && a
                            != b implies (#[trigger] after.slots[a]).cell != (
                    #[trigger] after.slots[b]).cell by {
                        assert(after.slots[a].cell == before.slots[a].cell);
                        assert(after.slots[b].cell == before.slots[b].cell);
                    }
                    assert forall|a: int| 0 <= a < after.slots.len() implies (
                    #[trigger] after.slots[a]).idx == a by {
                        assert(after.slots[a].idx == before.slots[a].idx);
                    }
                }
                Some(i)
            },
        }
    }
}

} // verus!
