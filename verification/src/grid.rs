//! The world grid: a fixed-size rectangular array of terrain cells with a
//! base location at its centre, generated deterministically from a seed.

use vstd::prelude::*;

verus! {

/// The kind of collectible resource a cell can hold.
#[derive(Clone, Copy, PartialEq, Eq, Structural, Debug)]
pub enum ResourceKind {
    Ore,
    Energy,
}

/// One cell of the world grid.
#[derive(Clone, Copy, PartialEq, Eq, Structural, Debug)]
pub enum Terrain {
    Empty,
    Obstacle,
    Base,
    Resource(ResourceKind),
}

impl Terrain {
    /// A cell can be entered unless it is an obstacle.
    pub open spec fn spec_passable(self) -> bool {
        self != Terrain::Obstacle
    }

    /// Whether the cell currently holds a collectible resource.
    pub open spec fn is_resource(self) -> bool {
        self matches Terrain::Resource(_)
    }

    /// Runtime test for `is_resource`.
    pub fn holds_resource(&self) -> (b: bool)
        ensures
            b == self.is_resource(),
    {
        match self {
            Terrain::Resource(_) => true,
            _ => false,
        }
    }
}

/// The terrain array, its dimensions and the fixed base coordinate.
/// Dimensions and base never change after creation.
pub struct WorldGrid {
    pub width: usize,
    pub height: usize,
    /// Row-major: the cell at (x, y) is `data[y * width + x]`.
    pub data: Vec<Terrain>,
    pub base_x: usize,
    pub base_y: usize,
}

impl WorldGrid {
    /// Flat index of the cell at (x, y).
    pub open spec fn idx(self, x: int, y: int) -> int {
        y * self.width + x
    }

    /// Whether (x, y) lies inside the grid.
    pub open spec fn in_bounds(self, x: int, y: int) -> bool {
        0 <= x < self.width && 0 <= y < self.height
    }

    /// The terrain at (x, y); meaningful only in bounds.
    pub open spec fn cell(self, x: int, y: int) -> Terrain {
        self.data@[self.idx(x, y)]
    }

    /// Structural well-formedness: positive dimensions, a cell for every
    /// coordinate, and the base coordinate holding a Base cell in bounds.
    pub open spec fn wf(self) -> bool {
        &&& 1 <= self.width
        &&& 1 <= self.height
        &&& self.data@.len() == self.width * self.height
        &&& self.base_x < self.width
        &&& self.base_y < self.height
        &&& self.cell(self.base_x as int, self.base_y as int) == Terrain::Base
    }

    /// Two grids agree on dimensions, base and every cell.
    pub open spec fn same_layout(self, other: WorldGrid) -> bool {
        &&& self.width == other.width
        &&& self.height == other.height
        &&& self.base_x == other.base_x
        &&& self.base_y == other.base_y
        &&& self.data@ == other.data@
    }

    /// The terrain at in-bounds (x, y).
    /// Out-of-bounds coordinates are a caller error and are excluded here.
    pub fn cell_at(&self, x: usize, y: usize) -> (t: Terrain)
        requires
            self.wf(),
            self.in_bounds(x as int, y as int),
        ensures
            t == self.cell(x as int, y as int),
    {
        let n = self.data.len();
        proof {
            lemma_row_major_index(x as int, y as int, self.width as int, self.height as int);
            assert(y * self.width + x < n);
        }
        self.data[y * self.width + x]
    }

    /// True unless the cell at (x, y) is an Obstacle.
    pub fn is_passable(&self, x: usize, y: usize) -> (r: bool)
        requires
            self.wf(),
            self.in_bounds(x as int, y as int),
        ensures
            r == self.cell(x as int, y as int).spec_passable(),
    {
        let t = self.cell_at(x, y);
        !(t == Terrain::Obstacle)
    }

    /// Sets a Resource cell to Empty; a no-op on any other cell, so
    /// depleting an already-empty cell is idempotent.
    pub fn deplete(&mut self, x: usize, y: usize)
        requires
            old(self).wf(),
            old(self).in_bounds(x as int, y as int),
        ensures
            final(self).wf(),
            final(self).width == old(self).width,
            final(self).height == old(self).height,
            final(self).base_x == old(self).base_x,
            final(self).base_y == old(self).base_y,
            old(self).cell(x as int, y as int).is_resource() ==> final(self).data@ == old(
                self,
            ).data@.update(old(self).idx(x as int, y as int), Terrain::Empty),
            !old(self).cell(x as int, y as int).is_resource() ==> final(self).data@ == old(
                self,
            ).data@,
            final(self).cell(x as int, y as int) == Terrain::Empty || final(self).cell(
                x as int,
                y as int,
            ) == old(self).cell(x as int, y as int),
    {
        let n = self.data.len();
        proof {
            lemma_row_major_index(x as int, y as int, self.width as int, self.height as int);
            assert(y * self.width + x < n);
        }
        let i = y * self.width + x;
        let here = self.data[i];
        let is_res = match here {
            Terrain::Resource(_) => true,
            _ => false,
        };
        if is_res {
            self.data.set(i, Terrain::Empty);
            proof {
                lemma_row_major_index(
                    self.base_x as int,
                    self.base_y as int,
                    self.width as int,
                    self.height as int,
                );
                lemma_row_major_distinct(
                    x as int,
                    y as int,
                    self.base_x as int,
                    self.base_y as int,
                    self.width as int,
                );
            }
        }
    }

    /// Overwrites a non-base cell with a resource of the given kind.
    pub fn place_resource(&mut self, x: usize, y: usize, kind: ResourceKind)
        requires
            old(self).wf(),
            old(self).in_bounds(x as int, y as int),
            !(x == old(self).base_x && y == old(self).base_y),
        ensures
            final(self).wf(),
            final(self).width == old(self).width,
            final(self).height == old(self).height,
            final(self).base_x == old(self).base_x,
            final(self).base_y == old(self).base_y,
            final(self).data@ == old(self).data@.update(
                old(self).idx(x as int, y as int),
                Terrain::Resource(kind),
            ),
    {
        let n = self.data.len();
        proof {
            lemma_row_major_index(x as int, y as int, self.width as int, self.height as int);
            assert(y * self.width + x < n);
        }
        let i = y * self.width + x;
        self.data.set(i, Terrain::Resource(kind));
        proof {
            lemma_row_major_index(
                self.base_x as int,
                self.base_y as int,
                self.width as int,
                self.height as int,
            );
            lemma_row_major_distinct(
                x as int,
                y as int,
                self.base_x as int,
                self.base_y as int,
                self.width as int,
            );
        }
    }

    /// A deep copy of the grid, cell by cell.
    pub fn clone_map(&self) -> (m: WorldGrid)
        ensures
            m.same_layout(*self),
    {
        let mut data: Vec<Terrain> = Vec::new();
        let n = self.data.len();
        let mut i: usize = 0;
        while i < n
            invariant
                n == self.data@.len(),
                i <= n,
                data@ =~= self.data@.take(i as int),
            decreases n - i,
        {
            data.push(self.data[i]);
            i += 1;
        }
        proof {
            assert(data@ =~= self.data@);
        }
        WorldGrid {
            width: self.width,
            height: self.height,
            data,
            base_x: self.base_x,
            base_y: self.base_y,
        }
    }
}

/// A 64-bit avalanche mixer: the seeded hash that drives deterministic
/// resource placement.
#[verifier::opaque]
pub open spec fn mix64(z0: u64) -> u64 {
    let z1 = (z0 ^ (z0 >> 30)).wrapping_mul(0xbf58476d1ce4e5b9);
    let z2 = (z1 ^ (z1 >> 27)).wrapping_mul(0x94d049bb133111eb);
    z2 ^ (z2 >> 31)
}

/// The placement draw for the cell at (x, y): a hash of seed and position.
#[verifier::opaque]
pub open spec fn cell_draw(seed: u32, x: u64, y: u64) -> u64 {
    mix64(
        mix64((seed as u64) ^ 0x9e3779b97f4a7c15) ^ x.wrapping_mul(0xa0761d6478bd642f)
            ^ y.wrapping_mul(0xe7037ed1a0b428db),
    )
}

/// What generation puts at (x, y): the base cell at the base coordinate,
/// an obstacle where the sampled terrain layer says so, and on about a
/// tenth of the remaining cells a resource of a hash-chosen kind.
pub open spec fn gen_cell(seed: u32, base_x: int, base_y: int, x: int, y: int, obstacle: bool) -> Terrain {
    if x == base_x && y == base_y {
        Terrain::Base
    } else if obstacle {
        Terrain::Obstacle
    } else if cell_draw(seed, x as u64, y as u64) % 10 == 0 {
        if (cell_draw(seed, x as u64, y as u64) / 10) % 2 == 0 {
            Terrain::Resource(ResourceKind::Ore)
        } else {
            Terrain::Resource(ResourceKind::Energy)
        }
    } else {
        Terrain::Empty
    }
}

impl WorldGrid {
    /// The grid is exactly what generation from these parameters yields:
    /// centre base, and every cell the pure function `gen_cell` of the
    /// seed, its coordinate and the sampled obstacle layer.
    pub open spec fn is_generated(
        self,
        width: int,
        height: int,
        seed: u32,
        obstacles: Seq<bool>,
    ) -> bool {
        &&& 1 <= width
        &&& 1 <= height
        &&& self.width == width
        &&& self.height == height
        &&& self.base_x == width / 2
        &&& self.base_y == height / 2
        &&& self.data@.len() == width * height
        &&& obstacles.len() == width * height
        &&& forall|k: int|
            0 <= k < self.data@.len() ==> #[trigger] self.data@[k] == gen_cell(
                seed,
                width / 2,
                height / 2,
                k % width,
                k / width,
                obstacles[k],
            )
    }

    /// Builds the terrain from the seed and the sampled obstacle layer
    /// (one flag per cell, row-major, from the continuous-noise
    /// collaborator): the base at the centre, and hash-placed resources,
    /// all deterministic in the arguments.
    pub fn new(width: usize, height: usize, seed: u32, obstacles: &Vec<bool>) -> (g: WorldGrid)
        requires
            1 <= width,
            1 <= height,
            width * height <= usize::MAX,
            obstacles@.len() == width * height,
        ensures
            g.wf(),
            g.is_generated(width as int, height as int, seed, obstacles@),
    {
        let base_x = width / 2;
        let base_y = height / 2;
        let n = obstacles.len();
        let mut data: Vec<Terrain> = Vec::new();
        let mut y: usize = 0;
        while y < height
            invariant
                y <= height,
                1 <= width,
                1 <= height,
                base_x == width / 2,
                base_y == height / 2,
                width * height <= usize::MAX,
                n == obstacles@.len(),
                obstacles@.len() == width * height,
                data@.len() == y * width,
                forall|k: int|
                    0 <= k < data@.len() ==> #[trigger] data@[k] == gen_cell(
                        seed,
                        base_x as int,
                        base_y as int,
                        k % (width as int),
                        k / (width as int),
                        obstacles@[k],
                    ),
            decreases height - y,
        {
            let mut x: usize = 0;
            while x < width
                invariant
                    x <= width,
                    y < height,
                    1 <= width,
                    1 <= height,
                    base_x == width / 2,
                    base_y == height / 2,
                    width * height <= usize::MAX,
                    n == obstacles@.len(),
                    obstacles@.len() == width * height,
                    data@.len() == y * width + x,
                    forall|k: int|
                        0 <= k < data@.len() ==> #[trigger] data@[k] == gen_cell(
                            seed,
                            base_x as int,
                            base_y as int,
                            k % (width as int),
                            k / (width as int),
                            obstacles@[k],
                        ),
                decreases width - x,
            {
                proof {
                    lemma_row_major_index(x as int, y as int, width as int, height as int);
                }
                let ob = obstacles[y * width + x];
                let t = gen_cell_at(seed, base_x, base_y, x, y, ob);
                proof {
                    vstd::arithmetic::div_mod::lemma_fundamental_div_mod_converse_mod(
                        y * width + x,
                        width as int,
                        y as int,
                        x as int,
                    );
                    vstd::arithmetic::div_mod::lemma_fundamental_div_mod_converse_div(
                        y * width + x,
                        width as int,
                        y as int,
                        x as int,
                    );
                }
                data.push(t);
                x += 1;
            }
            proof {
                assert((y + 1) * width == y * width + width) by (nonlinear_arith);
            }
            y += 1;
        }
        let g = WorldGrid { width, height, data, base_x, base_y };
        proof {
            assert(g.data@.len() == width * height) by (nonlinear_arith)
                requires
                    g.data@.len() == height * width,
            ;
            assert(g.is_generated(width as int, height as int, seed, obstacles@));
            lemma_generated_cell(
                g,
                width as int,
                height as int,
                seed,
                obstacles@,
                base_x as int,
                base_y as int,
            );
            assert(g.cell(base_x as int, base_y as int) == Terrain::Base);
        }
        g
    }
}

/// In a generated grid, the cell at an in-bounds (x, y) is exactly
/// `gen_cell` of the seed, the coordinate and its obstacle flag.
pub proof fn lemma_generated_cell(
    g: WorldGrid,
    width: int,
    height: int,
    seed: u32,
    obstacles: Seq<bool>,
    x: int,
    y: int,
)
    requires
        g.is_generated(width, height, seed, obstacles),
        0 <= x < width,
        0 <= y < height,
    ensures
        g.cell(x, y) == gen_cell(seed, width / 2, height / 2, x, y, obstacles[y * width + x]),
{
    lemma_row_major_index(x, y, width, height);
    vstd::arithmetic::div_mod::lemma_fundamental_div_mod_converse_mod(
        y * width + x,
        width,
        y,
        x,
    );
    vstd::arithmetic::div_mod::lemma_fundamental_div_mod_converse_div(
        y * width + x,
        width,
        y,
        x,
    );
}

/// Evaluates `gen_cell` for one coordinate.
fn gen_cell_at(seed: u32, base_x: usize, base_y: usize, x: usize, y: usize, obstacle: bool) -> (t:
    Terrain)
    ensures
        t == gen_cell(seed, base_x as int, base_y as int, x as int, y as int, obstacle),
{
    if x == base_x && y == base_y {
        Terrain::Base
    } else if obstacle {
        Terrain::Obstacle
    } else {
        let d = draw_at(seed, x, y);
        if d % 10 == 0 {
            if (d / 10) % 2 == 0 {
                Terrain::Resource(ResourceKind::Ore)
            } else {
                Terrain::Resource(ResourceKind::Energy)
            }
        } else {
            Terrain::Empty
        }
    }
}

/// Evaluates `cell_draw` for one coordinate.
fn draw_at(seed: u32, x: usize, y: usize) -> (d: u64)
    ensures
        d == cell_draw(seed, x as u64, y as u64),
{
    proof {
        reveal(cell_draw);
    }
    let xu = x as u64;
    let yu = y as u64;
    let h0 = mix_once((seed as u64) ^ 0x9e3779b97f4a7c15);
    mix_once(h0 ^ xu.wrapping_mul(0xa0761d6478bd642f) ^ yu.wrapping_mul(0xe7037ed1a0b428db))
}

/// Evaluates `mix64` once.
fn mix_once(z0: u64) -> (r: u64)
    ensures
        r == mix64(z0),
{
    proof {
        reveal(mix64);
    }
    let z1 = (z0 ^ (z0 >> 30)).wrapping_mul(0xbf58476d1ce4e5b9);
    let z2 = (z1 ^ (z1 >> 27)).wrapping_mul(0x94d049bb133111eb);
    z2 ^ (z2 >> 31)
}

/// Terrain generation is deterministic: two grids generated from the same
/// seed, dimensions and obstacle layer agree on dimensions, base and
/// every cell.
pub proof fn lemma_generation_deterministic(
    a: WorldGrid,
    b: WorldGrid,
    width: int,
    height: int,
    seed: u32,
    obstacles: Seq<bool>,
)
    requires
        a.is_generated(width, height, seed, obstacles),
        b.is_generated(width, height, seed, obstacles),
    ensures
        a.same_layout(b),
{
    assert forall|k: int| 0 <= k < a.data@.len() implies a.data@[k] == b.data@[k] by {
        assert(a.data@[k] == gen_cell(seed, width / 2, height / 2, k % width, k / width, obstacles[k]));
        assert(b.data@[k] == gen_cell(seed, width / 2, height / 2, k % width, k / width, obstacles[k]));
    }
    assert(a.data@ =~= b.data@);
}

/// In a row-major array of `w * h` cells, the index of an in-bounds
/// coordinate is a valid position.
pub proof fn lemma_row_major_index(x: int, y: int, w: int, h: int)
    requires
        0 <= x < w,
        0 <= y < h,
    ensures
        0 <= y * w + x < w * h,
    decreases 0int,
{
    assert(0 <= y * w + x < w * h) by (nonlinear_arith)
        requires
            0 <= x < w,
            0 <= y < h,
    ;
}

/// Distinct coordinates have distinct row-major indices.
pub proof fn lemma_row_major_distinct(x1: int, y1: int, x2: int, y2: int, w: int)
    requires
        0 <= x1 < w,
        0 <= x2 < w,
        0 <= y1,
        0 <= y2,
        !(x1 == x2 && y1 == y2),
    ensures
        y1 * w + x1 != y2 * w + x2,
    decreases 0int,
{
    assert(y1 * w + x1 != y2 * w + x2) by (nonlinear_arith)
        requires
            0 <= x1 < w,
            0 <= x2 < w,
            0 <= y1,
            0 <= y2,
            !(x1 == x2 && y1 == y2),
    ;
}

} // verus!
