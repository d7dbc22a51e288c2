//! Addresses of the cells of the nested HEALPix pixelization.
use vstd::arithmetic::div_mod::lemma_div_denominator;
use vstd::arithmetic::power2::{lemma2_to64, lemma_pow2_adds, lemma_pow2_pos, pow2};
use vstd::bits::lemma_u64_shl_is_mul;
use vstd::prelude::*;

verus! {

/// The deepest level of the hierarchy that a cell address can name.
pub const MAX_DEPTH: u8 = 29;

/// A node `(depth, index)` of the quadtree that the pixelization lays on each
/// of the twelve base cells of the sphere.
#[derive(Clone, Copy, Debug, PartialEq, Eq, Structural, Hash)]
pub struct HEALPixCell(pub u8, pub u64);

/// Number of cells, at `depth`, inside one base cell.
pub open spec fn cells_per_base(depth: nat) -> nat {
    pow2(2 * depth)
}

/// `4 * cells_per_base(d) == cells_per_base(d + 1)`, and the count is positive.
pub proof fn lemma_cells_per_base_step(depth: nat)
    ensures
        cells_per_base(depth + 1) == 4 * cells_per_base(depth),
        cells_per_base(depth) > 0,
{
    lemma_pow2_adds(2 * depth, 2);
    lemma_pow2_pos(2 * depth);
    lemma2_to64();
    assert(2 * (depth + 1) == 2 * depth + 2);
}

/// The count of cells per base cell grows with the depth.
pub proof fn lemma_cells_per_base_monotonic(a: nat, b: nat)
    requires
        a <= b,
    ensures
        cells_per_base(a) <= cells_per_base(b),
        cells_per_base(b) == cells_per_base(a) * cells_per_base((b - a) as nat),
{
    lemma_pow2_adds(2 * a, 2 * ((b - a) as nat));
    lemma_pow2_pos(2 * a);
    lemma_pow2_pos(2 * ((b - a) as nat));
    assert(2 * a + 2 * ((b - a) as nat) == 2 * b);
    assert(cells_per_base(a) <= cells_per_base(a) * cells_per_base((b - a) as nat))
        by (nonlinear_arith)
        requires
            cells_per_base(a) > 0,
            cells_per_base((b - a) as nat) > 0,
    ;
}

/// At the deepest level a base cell holds `2^58` cells.
pub proof fn lemma_cells_per_base_bound(depth: nat)
    requires
        depth <= 29,
    ensures
        0 < cells_per_base(depth) <= 0x400_0000_0000_0000,
{
    lemma_cells_per_base_monotonic(depth, 29);
    lemma_pow2_pos(2 * depth);
    lemma2_to64();
    lemma_pow2_58();
}

/// The value of `2^58`.
proof fn lemma_pow2_58()
    ensures
        pow2(58) == 0x400_0000_0000_0000,
{
    vstd::arithmetic::power2::lemma2_to64_rest();
}

/// `2^e` as a machine integer.
pub fn pow2_u64(e: u8) -> (r: u64)
    requires
        e <= 62,
    ensures
        r == pow2(e as nat),
        0 < r <= 0x4000_0000_0000_0000,
{
    proof {
        lemma_pow2_pos(e as nat);
        lemma_pow2_adds(e as nat, (62 - e) as nat);
        lemma_pow2_pos((62 - e) as nat);
        vstd::arithmetic::power2::lemma2_to64_rest();
        assert(pow2(e as nat) <= pow2(e as nat) * pow2((62 - e) as nat)) by (nonlinear_arith)
            requires
                pow2(e as nat) > 0,
                pow2((62 - e) as nat) > 0,
        ;
        lemma_u64_shl_is_mul(1u64, e as u64);
    }
    1u64 << (e as u64)
}

/// Number of cells along one side of a base cell at `depth`.
pub fn nside_at(depth: u8) -> (n: u32)
    requires
        depth <= MAX_DEPTH,
    ensures
        n == pow2(depth as nat),
        0 < n <= 0x2000_0000,
{
    let n: u64 = pow2_u64(depth);
    proof {
        lemma_pow2_adds(depth as nat, (29 - depth) as nat);
        lemma_pow2_pos((29 - depth) as nat);
        lemma2_to64();
        assert(pow2(depth as nat) <= pow2(depth as nat) * pow2((29 - depth) as nat))
            by (nonlinear_arith)
            requires
                pow2(depth as nat) > 0,
                pow2((29 - depth) as nat) > 0,
        ;
    }
    n as u32
}

impl HEALPixCell {
    /// A cell address is well formed when its depth is at most [`MAX_DEPTH`]
    /// and its index is below `12 * 4^depth`.
    pub open spec fn wf(self) -> bool {
        &&& self.0 <= MAX_DEPTH
        &&& self.1 < 12 * cells_per_base(self.0 as nat)
    }

    /// The ancestor `delta_depth` levels up, stopping at the base cell.
    pub open spec fn spec_ancestor(self, delta_depth: nat) -> HEALPixCell {
        let k = if delta_depth <= self.0 { delta_depth } else { self.0 as nat };
        HEALPixCell((self.0 - k) as u8, (self.1 as nat / cells_per_base(k)) as u64)
    }

    /// The parent; a base cell is its own parent.
    pub open spec fn spec_parent(self) -> HEALPixCell {
        self.spec_ancestor(1)
    }

    /// The `k`-th cell, in index order, among the descendants `delta_depth`
    /// levels down.
    pub open spec fn spec_descendant(self, delta_depth: nat, k: nat) -> HEALPixCell {
        HEALPixCell(
            (self.0 + delta_depth) as u8,
            (self.1 * cells_per_base(delta_depth) + k) as u64,
        )
    }

    /// `self` lies on the path from `other` up to its base cell, `other` included.
    pub open spec fn is_ancestor_of(self, other: HEALPixCell) -> bool {
        &&& self.0 <= other.0
        &&& self == other.spec_ancestor((other.0 - self.0) as nat)
    }

    /// `self` is an ancestor of `other` and lies strictly above it.
    pub open spec fn is_strict_ancestor_of(self, other: HEALPixCell) -> bool {
        self.0 < other.0 && self.is_ancestor_of(other)
    }

    /// The single integer that encodes depth and index: `16 * 4^depth + index`.
    pub open spec fn spec_uniq(self) -> nat {
        16 * cells_per_base(self.0 as nat) + self.1 as nat
    }

    /// The base cell, `0..12`, that holds this cell.
    pub open spec fn spec_base_cell(self) -> nat {
        self.1 as nat / cells_per_base(self.0 as nat)
    }

    /// Level of the cell in the hierarchy.
    pub fn depth(&self) -> (d: u8)
        ensures
            d == self.0,
    {
        self.0
    }

    /// Index of the cell among the cells of its depth.
    pub fn idx(&self) -> (i: u64)
        ensures
            i == self.1,
    {
        self.1
    }

    /// Whether the cell is one of the twelve base cells.
    pub fn is_root(&self) -> (r: bool)
        ensures
            r == (self.0 == 0),
    {
        self.0 == 0
    }

    /// Tells whether the address names a cell of the pixelization.
    pub fn is_valid(&self) -> (r: bool)
        ensures
            r == self.wf(),
    {
        if self.0 > MAX_DEPTH {
            return false;
        }
        let n: u64 = pow2_u64(2 * self.0);
        proof {
            lemma_cells_per_base_bound(self.0 as nat);
        }
        self.1 < 12 * n
    }

    /// The ancestor `delta_depth` levels up; at most up to the base cell.
    pub fn ancestor(&self, delta_depth: u8) -> (a: HEALPixCell)
        requires
            self.wf(),
        ensures
            a == self.spec_ancestor(delta_depth as nat),
            a.wf(),
            a.is_ancestor_of(*self),
    {
        let k: u8 = if delta_depth <= self.0 { delta_depth } else { self.0 };
        let n: u64 = pow2_u64(2 * k);
        proof {
            lemma_ancestor_wf(*self, k as nat);
            lemma_pow2_pos(2 * k as nat);
        }
        HEALPixCell(self.0 - k, self.1 / n)
    }

    /// The parent cell; a base cell is returned unchanged.
    pub fn parent(&self) -> (p: HEALPixCell)
        requires
            self.wf(),
        ensures
            p == self.spec_parent(),
            p.wf(),
            p.is_ancestor_of(*self),
    {
        self.ancestor(1)
    }

    /// The cell of the atlas entry that holds this tile when an entry packs
    /// `4^delta_depth` tiles.
    pub fn get_texture_cell(&self, delta_depth: u8) -> (t: HEALPixCell)
        requires
            self.wf(),
        ensures
            t == self.spec_ancestor(delta_depth as nat),
            t.wf(),
            t.is_ancestor_of(*self),
    {
        self.ancestor(delta_depth)
    }

    /// The encoding of depth and index in one integer.
    pub fn uniq(&self) -> (u: u64)
        requires
            self.wf(),
        ensures
            u == self.spec_uniq(),
            u < 0x8000_0000_0000_0000,
    {
        let n: u64 = pow2_u64(2 * self.0);
        proof {
            lemma_cells_per_base_bound(self.0 as nat);
        }
        16 * n + self.1
    }
}

impl HEALPixCell {
    /// Offset `(x, y)` of the cell inside its ancestor `delta_depth` levels
    /// up, on the grid of `2^k * 2^k` cells that the ancestor is cut into
    /// (`k` stops at the cell's own depth).
    pub open spec fn spec_offset(self, delta_depth: nat) -> (nat, nat) {
        let k = if delta_depth <= self.0 { delta_depth } else { self.0 as nat };
        let low = self.1 as nat % cells_per_base(k);
        (even_bits(low, k), odd_bits(low, k))
    }

    /// The cell touches the north or the south pole.
    pub open spec fn spec_is_on_pole(self) -> bool {
        let n = cells_per_base(self.0 as nat);
        let low = self.1 as nat % n;
        ||| (self.spec_base_cell() < 4 && low == n - 1)
        ||| (8 <= self.spec_base_cell() < 12 && low == 0)
    }

    /// The cell touches the border of its base cell.
    pub open spec fn spec_is_on_base_cell_edges(self) -> bool {
        let (x, y) = self.spec_offset(self.0 as nat);
        let last = pow2(self.0 as nat) - 1;
        x == 0 || x == last || y == 0 || y == last
    }

    /// Number of cells along one side of a base cell at this depth.
    pub fn nside(&self) -> (n: u32)
        requires
            self.0 <= MAX_DEPTH,
        ensures
            n == pow2(self.0 as nat),
            0 < n <= 0x2000_0000,
    {
        nside_at(self.0)
    }

    /// The base cell, `0..12`, that holds this cell.
    pub fn base_cell(&self) -> (b: u8)
        requires
            self.wf(),
        ensures
            b == self.spec_base_cell(),
            b < 12,
    {
        let a: HEALPixCell = self.ancestor(self.0);
        proof {
            lemma_ancestor_wf(*self, self.0 as nat);
            lemma2_to64();
        }
        a.1 as u8
    }

    /// The four children, in index order.
    pub fn subdivide(&self) -> (children: [HEALPixCell; 4])
        requires
            self.wf(),
            self.0 < MAX_DEPTH,
        ensures
            forall|k: int|
                0 <= k < 4 ==> #[trigger] children[k] == self.spec_descendant(1, k as nat),
            forall|k: int| 0 <= k < 4 ==> (#[trigger] children[k]).wf(),
            forall|k: int| 0 <= k < 4 ==> (#[trigger] children[k]).spec_parent() == *self,
    {
        proof {
            lemma2_to64();
            lemma_descendant_wf(*self, 1, 0);
            lemma_descendant_wf(*self, 1, 1);
            lemma_descendant_wf(*self, 1, 2);
            lemma_descendant_wf(*self, 1, 3);
            lemma_cells_per_base_bound(self.0 as nat);
        }
        let d: u8 = self.0 + 1;
        let first: u64 = self.1 * 4;
        [
            HEALPixCell(d, first),
            HEALPixCell(d, first + 1),
            HEALPixCell(d, first + 2),
            HEALPixCell(d, first + 3),
        ]
    }

    /// All the descendants `delta_depth` levels down, in index order.
    pub fn get_children_cells(&self, delta_depth: u8) -> (cells: Vec<HEALPixCell>)
        requires
            self.wf(),
            self.0 + delta_depth <= MAX_DEPTH,
            cells_per_base(delta_depth as nat) <= usize::MAX,
        ensures
            cells@.len() == cells_per_base(delta_depth as nat),
            forall|k: int|
                0 <= k < cells@.len() ==> #[trigger] cells@[k] == self.spec_descendant(
                    delta_depth as nat,
                    k as nat,
                ),
            forall|k: int| 0 <= k < cells@.len() ==> (#[trigger] cells@[k]).wf(),
            forall|k: int|
                0 <= k < cells@.len() ==> (#[trigger] cells@[k]).spec_ancestor(delta_depth as nat)
                    == *self,
    {
        let n: u64 = pow2_u64(2 * delta_depth);
        let d: u8 = self.0 + delta_depth;
        proof {
            lemma_cells_per_base_bound(self.0 as nat);
            lemma_cells_per_base_bound(delta_depth as nat);
            lemma_descendant_wf(*self, delta_depth as nat, 0);
        }
        let first: u64 = self.1 * n;
        let mut cells: Vec<HEALPixCell> = Vec::new();
        let mut k: u64 = 0;
        while k < n
            invariant
                self.wf(),
                self.0 + delta_depth <= MAX_DEPTH,
                d == self.0 + delta_depth,
                n == cells_per_base(delta_depth as nat),
                n <= usize::MAX,
                first == self.1 * n,
                first + n <= 12 * cells_per_base(d as nat),
                12 * cells_per_base(d as nat) <= 0x3000_0000_0000_0000,
                k <= n,
                cells@.len() == k,
                forall|j: int|
                    0 <= j < k ==> #[trigger] cells@[j] == self.spec_descendant(
                        delta_depth as nat,
                        j as nat,
                    ),
                forall|j: int| 0 <= j < k ==> (#[trigger] cells@[j]).wf(),
                forall|j: int|
                    0 <= j < k ==> (#[trigger] cells@[j]).spec_ancestor(delta_depth as nat)
                        == *self,
            decreases n - k,
        {
            proof {
                lemma_descendant_wf(*self, delta_depth as nat, k as nat);
            }
            cells.push(HEALPixCell(d, first + k));
            k = k + 1;
        }
        cells
    }

    /// The tiles that the atlas entry bound to this cell packs.
    pub fn get_tile_cells(&self, delta_depth: u8) -> (cells: Vec<HEALPixCell>)
        requires
            self.wf(),
            self.0 + delta_depth <= MAX_DEPTH,
            cells_per_base(delta_depth as nat) <= usize::MAX,
        ensures
            cells@.len() == cells_per_base(delta_depth as nat),
            forall|k: int|
                0 <= k < cells@.len() ==> #[trigger] cells@[k] == self.spec_descendant(
                    delta_depth as nat,
                    k as nat,
                ),
            forall|k: int| 0 <= k < cells@.len() ==> (#[trigger] cells@[k]).wf(),
            forall|k: int|
                0 <= k < cells@.len() ==> (#[trigger] cells@[k]).spec_ancestor(delta_depth as nat)
                    == *self,
    {
        self.get_children_cells(delta_depth)
    }

    /// Offset `(x, y)` of the cell inside its ancestor `delta_depth` levels up.
    pub fn get_offset_in_texture_cell(&self, delta_depth: u8) -> (xy: (u32, u32))
        requires
            self.wf(),
        ensures
            (xy.0 as nat, xy.1 as nat) == self.spec_offset(delta_depth as nat),
            xy.0 < pow2((if delta_depth <= self.0 { delta_depth } else { self.0 }) as nat),
            xy.1 < pow2((if delta_depth <= self.0 { delta_depth } else { self.0 }) as nat),
    {
        let k: u8 = if delta_depth <= self.0 { delta_depth } else { self.0 };
        let n: u64 = pow2_u64(2 * k);
        split_bits(self.1 % n, k)
    }

    /// Offset `(x, y)` of the cell inside `ancestor`, on the grid that the
    /// ancestor is cut into at this cell's depth.
    pub fn offset_in_parent(&self, ancestor: &HEALPixCell) -> (xy: (u32, u32))
        requires
            self.wf(),
            ancestor.0 <= self.0,
        ensures
            (xy.0 as nat, xy.1 as nat) == self.spec_offset((self.0 - ancestor.0) as nat),
            xy.0 < pow2((self.0 - ancestor.0) as nat),
            xy.1 < pow2((self.0 - ancestor.0) as nat),
    {
        self.get_offset_in_texture_cell(self.0 - ancestor.0)
    }

    /// Whether the cell touches the north or the south pole.
    pub fn is_on_pole(&self) -> (r: bool)
        requires
            self.wf(),
        ensures
            r == self.spec_is_on_pole(),
    {
        let n: u64 = pow2_u64(2 * self.0);
        let low: u64 = self.1 % n;
        let base: u64 = self.1 / n;
        (base < 4 && low == n - 1) || (8 <= base && base < 12 && low == 0)
    }

    /// Whether the cell touches the border of its base cell.
    pub fn is_on_base_cell_edges(&self) -> (r: bool)
        requires
            self.wf(),
        ensures
            r == self.spec_is_on_base_cell_edges(),
    {
        let (x, y) = self.get_offset_in_texture_cell(self.0);
        let last: u32 = self.nside() - 1;
        x == 0 || x == last || y == 0 || y == last
    }
}

/// Every cell of the sequence is a cell of the pixelization.
pub open spec fn all_cells_wf(cells: Seq<HEALPixCell>) -> bool {
    forall|k: int| 0 <= k < cells.len() ==> (#[trigger] cells[k]).wf()
}

/// Tells whether every cell of the list is a cell of the pixelization.
pub fn all_valid(cells: &Vec<HEALPixCell>) -> (r: bool)
    ensures
        r == all_cells_wf(cells@),
{
    let n: usize = cells.len();
    let mut i: usize = 0;
    while i < n
        invariant
            n == cells@.len(),
            i <= n,
            forall|k: int| 0 <= k < i ==> (#[trigger] cells@[k]).wf(),
        decreases n - i,
    {
        if !cells[i].is_valid() {
            return false;
        }
        i = i + 1;
    }
    true
}

/// The number made of the bits of `v` at the even places, `n` of them.
pub open spec fn even_bits(v: nat, n: nat) -> nat
    decreases n,
{
    if n == 0 {
        0
    } else {
        v % 2 + 2 * even_bits(v / 4, (n - 1) as nat)
    }
}

/// The number made of the bits of `v` at the odd places, `n` of them.
pub open spec fn odd_bits(v: nat, n: nat) -> nat
    decreases n,
{
    if n == 0 {
        0
    } else {
        (v / 2) % 2 + 2 * odd_bits(v / 4, (n - 1) as nat)
    }
}

/// Splits the `2 * n` low bits of `v` into the number made of those at the
/// even places and the number made of those at the odd places.
pub fn split_bits(v: u64, n: u8) -> (xy: (u32, u32))
    requires
        n <= MAX_DEPTH,
    ensures
        xy.0 == even_bits(v as nat, n as nat),
        xy.1 == odd_bits(v as nat, n as nat),
        xy.0 < pow2(n as nat),
        xy.1 < pow2(n as nat),
{
    let mut rem: u64 = v;
    let mut x: u32 = 0;
    let mut y: u32 = 0;
    let mut w: u32 = 1;
    let mut b: u8 = 0;
    proof {
        lemma2_to64();
    }
    while b < n
        invariant
            n <= MAX_DEPTH,
            b <= n,
            w == pow2(b as nat),
            w <= 0x2000_0000,
            x < w,
            y < w,
            even_bits(v as nat, n as nat) == x + w * even_bits(rem as nat, (n - b) as nat),
            odd_bits(v as nat, n as nat) == y + w * odd_bits(rem as nat, (n - b) as nat),
        decreases n - b,
    {
        let ghost e = even_bits((rem / 4) as nat, (n - b - 1) as nat);
        let ghost o = odd_bits((rem / 4) as nat, (n - b - 1) as nat);
        let bx: u32 = (rem % 2) as u32;
        let by: u32 = ((rem / 2) % 2) as u32;
        proof {
            lemma2_to64();
            lemma_pow2_adds(b as nat, 1);
            lemma_pow2_adds((b + 1) as nat, (29 - (b + 1)) as nat);
            lemma_pow2_pos((b + 1) as nat);
            lemma_pow2_pos((29 - (b + 1)) as nat);
            assert(pow2((b + 1) as nat) <= pow2((b + 1) as nat) * pow2((29 - (b + 1)) as nat))
                by (nonlinear_arith)
                requires
                    pow2((b + 1) as nat) > 0,
                    pow2((29 - (b + 1)) as nat) > 0,
            ;
            assert(w * (bx + 2 * e) == bx * w + (2 * w) * e) by (nonlinear_arith);
            assert(w * (by + 2 * o) == by * w + (2 * w) * o) by (nonlinear_arith);
            assert(bx * w <= w && by * w <= w) by (nonlinear_arith)
                requires
                    bx <= 1,
                    by <= 1,
            ;
        }
        x = x + bx * w;
        y = y + by * w;
        rem = rem / 4;
        w = w * 2;
        b = b + 1;
    }
    assert(even_bits(rem as nat, 0) == 0 && odd_bits(rem as nat, 0) == 0);
    assert(w * 0 == 0) by (nonlinear_arith);
    (x, y)
}

/// A descendant of a well-formed cell is well formed, down to the deepest
/// level, and the cell is its ancestor.
pub proof fn lemma_descendant_wf(c: HEALPixCell, delta_depth: nat, k: nat)
    requires
        c.wf(),
        c.0 + delta_depth <= MAX_DEPTH,
        k < cells_per_base(delta_depth),
    ensures
        c.spec_descendant(delta_depth, k).wf(),
        c.spec_descendant(delta_depth, k).0 == c.0 + delta_depth,
        c.spec_descendant(delta_depth, k).1 == c.1 * cells_per_base(delta_depth) + k,
        c.spec_descendant(delta_depth, k).spec_ancestor(delta_depth) == c,
        c.is_ancestor_of(c.spec_descendant(delta_depth, k)),
        c.1 * cells_per_base(delta_depth) + cells_per_base(delta_depth) <= 12 * cells_per_base(
            c.0 as nat + delta_depth,
        ),
        12 * cells_per_base(c.0 as nat + delta_depth) <= 0x3000_0000_0000_0000,
{
    let deep = c.0 as nat + delta_depth;
    lemma_cells_per_base_monotonic(c.0 as nat, deep);
    lemma_cells_per_base_bound(deep);
    lemma_cells_per_base_bound(delta_depth);
    let p = cells_per_base(delta_depth) as int;
    let q = cells_per_base(c.0 as nat) as int;
    let x = c.1 as int;
    assert(x * p + p <= 12 * (q * p)) by (nonlinear_arith)
        requires
            x + 1 <= 12 * q,
            p > 0,
    ;
    assert((x * p + k) / p == x) by (nonlinear_arith)
        requires
            0 <= k < p,
            x >= 0,
    ;
    assert(x * p >= 0) by (nonlinear_arith)
        requires
            x >= 0,
            p > 0,
    ;
}

/// The ancestor of a well-formed cell is well formed, and is an ancestor in
/// the sense of [`HEALPixCell::is_ancestor_of`].
pub proof fn lemma_ancestor_wf(c: HEALPixCell, k: nat)
    requires
        c.wf(),
    ensures
        c.spec_ancestor(k).wf(),
        c.spec_ancestor(k).is_ancestor_of(c),
        c.spec_ancestor(k).0 == (if k <= c.0 { c.0 - k } else { 0 }),
{
    let kk = if k <= c.0 { k } else { c.0 as nat };
    let a = c.spec_ancestor(k);
    let up = (c.0 - kk) as nat;
    lemma_cells_per_base_monotonic(up, c.0 as nat);
    lemma_cells_per_base_bound(kk);
    lemma_cells_per_base_bound(up);
    let q = cells_per_base(kk) as int;
    let p = cells_per_base(up) as int;
    let x = c.1 as int;
    assert(x / q < 12 * p) by (nonlinear_arith)
        requires
            x < 12 * (p * q),
            q > 0,
            p > 0,
            x >= 0,
    ;
    assert(x / q >= 0 && x / q <= x) by (nonlinear_arith)
        requires
            x >= 0,
            q > 0,
    ;
    assert((c.0 - a.0) as nat == kk);
    assert(c.spec_ancestor((c.0 - a.0) as nat) == a);
}

/// Going up no level leaves a cell where it is: a cell is its own ancestor.
pub proof fn lemma_ancestor_zero(c: HEALPixCell)
    ensures
        c.spec_ancestor(0) == c,
        c.is_ancestor_of(c),
{
    lemma2_to64();
    assert(cells_per_base(0) == 1);
    let a = c.spec_ancestor(0);
    assert(c.1 as nat / 1 == c.1);
    assert(a.0 == c.0);
    assert(a.1 == c.1);
}

/// Going up `a` levels and then `b` more is going up `a + b` levels.
pub proof fn lemma_ancestor_compose(c: HEALPixCell, a: nat, b: nat)
    requires
        c.wf(),
    ensures
        c.spec_ancestor(a).spec_ancestor(b) == c.spec_ancestor(a + b),
{
    let ka = if a <= c.0 { a } else { c.0 as nat };
    let mid = c.spec_ancestor(a);
    lemma_ancestor_wf(c, a);
    let kb = if b <= mid.0 { b } else { mid.0 as nat };
    let kab = if a + b <= c.0 { a + b } else { c.0 as nat };
    assert(kab == ka + kb);
    lemma_cells_per_base_monotonic(ka, kab);
    lemma_cells_per_base_bound(ka);
    lemma_cells_per_base_bound(kb);
    lemma_div_denominator(c.1 as int, cells_per_base(ka) as int, cells_per_base(kb) as int);
}

/// Ancestry is transitive.
pub proof fn lemma_ancestor_transitive(a: HEALPixCell, b: HEALPixCell, c: HEALPixCell)
    requires
        c.wf(),
        a.is_ancestor_of(b),
        b.is_ancestor_of(c),
    ensures
        a.is_ancestor_of(c),
{
    lemma_ancestor_compose(c, (c.0 - b.0) as nat, (b.0 - a.0) as nat);
}

/// Two well-formed cells with the same encoding are the same cell.
pub proof fn lemma_uniq_injective(a: HEALPixCell, b: HEALPixCell)
    requires
        a.wf(),
        b.wf(),
        a.spec_uniq() == b.spec_uniq(),
    ensures
        a == b,
{
    if a.0 < b.0 {
        lemma_uniq_increases_with_depth(a, b);
    } else if b.0 < a.0 {
        lemma_uniq_increases_with_depth(b, a);
    }
}

/// A cell's encoding is below that of every deeper cell.
pub proof fn lemma_uniq_increases_with_depth(a: HEALPixCell, b: HEALPixCell)
    requires
        a.wf(),
        b.wf(),
        a.0 < b.0,
    ensures
        a.spec_uniq() < b.spec_uniq(),
{
    lemma_cells_per_base_step(a.0 as nat);
    lemma_cells_per_base_monotonic((a.0 + 1) as nat, b.0 as nat);
}

} // verus!
