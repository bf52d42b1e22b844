//! The walkable-terrain model that path search runs on.
//!
//! A mesh is a flat ground plane of a given half-width (`size`) at a given
//! height, with sets of blocked, water and lava cells. Cells are integer
//! triples `(x, y, z)`.

use vstd::prelude::*;
use std::collections::BTreeSet;

verus! {

broadcast use vstd::std_specs::btree::group_btree_axioms, vstd::laws_cmp::group_laws_cmp;

/// A cell of the terrain grid.
pub type Cell = (i64, i64, i64);

/// How a path search may move through the terrain.
#[derive(Debug, Clone, Copy, PartialEq, Eq)]
pub struct PathfindOptions {
    /// Water cells are not walkable.
    pub avoid_water: bool,
    /// Lava cells are not walkable.
    pub avoid_lava: bool,
    /// Moves may change two or three coordinates at once.
    pub allow_diagonal: bool,
    /// Largest drop below ground level that is still walkable.
    pub max_fall_distance: u32,
    /// Search budget; the engine's own budget applies when absent.
    pub max_iterations: Option<usize>,
}

impl Default for PathfindOptions {
    fn default() -> (o: Self)
        ensures
            o == (PathfindOptions {
                avoid_water: true,
                avoid_lava: true,
                allow_diagonal: true,
                max_fall_distance: 3,
                max_iterations: None,
            }),
    {
        PathfindOptions {
            avoid_water: true,
            avoid_lava: true,
            allow_diagonal: true,
            max_fall_distance: 3,
            max_iterations: None,
        }
    }
}

/// Lowest and highest ground heights that keep the walkable band
/// `[ground - 20, ground + 10]` inside `i64`.
pub open spec fn valid_ground(ground_height: i64) -> bool {
    i64::MIN + 20 <= ground_height <= i64::MAX - 10
}

/// Absolute value of an integer.
pub open spec fn abs(v: int) -> int {
    if v < 0 {
        -v
    } else {
        v
    }
}

#[derive(Debug, Clone)]
pub struct NavigationMesh {
    blocked: BTreeSet<Cell>,
    water_blocks: BTreeSet<Cell>,
    lava_blocks: BTreeSet<Cell>,
    ground_height: i64,
    size: i64,
}

impl NavigationMesh {
    /// The blocked cells.
    pub closed spec fn blocked_set(&self) -> Set<Cell> {
        self.blocked@
    }

    /// The water cells.
    pub closed spec fn water_set(&self) -> Set<Cell> {
        self.water_blocks@
    }

    /// The lava cells.
    pub closed spec fn lava_set(&self) -> Set<Cell> {
        self.lava_blocks@
    }

    /// Height of the ground plane.
    pub closed spec fn ground(&self) -> i64 {
        self.ground_height
    }

    /// Half-width of the walkable square.
    pub closed spec fn half_width(&self) -> i64 {
        self.size
    }

    /// The mesh's invariant: its height band fits in `i64`.
    pub open spec fn wf(&self) -> bool {
        valid_ground(self.ground())
    }

    /// Whether a walker can stand in cell `(x, y, z)` under `options`.
    pub open spec fn walkable(&self, x: i64, y: i64, z: i64, options: PathfindOptions) -> bool {
        &&& !self.blocked_set().contains((x, y, z))
        &&& abs(x as int) <= self.half_width()
        &&& abs(z as int) <= self.half_width()
        &&& self.ground() - 20 <= y <= self.ground() + 10
        &&& !(options.avoid_water && self.water_set().contains((x, y, z)))
        &&& !(options.avoid_lava && self.lava_set().contains((x, y, z)))
        &&& (y < self.ground() ==> self.ground() - y <= options.max_fall_distance)
    }

    /// A flat mesh of half-width `size` with ground at `ground_height` and
    /// no blocked, water or lava cells.
    pub fn new_flat(size: i64, ground_height: i64) -> (m: Self)
        ensures
            m.half_width() == size,
            m.ground() == ground_height,
            m.blocked_set() == Set::<Cell>::empty(),
            m.water_set() == Set::<Cell>::empty(),
            m.lava_set() == Set::<Cell>::empty(),
    {
        NavigationMesh {
            blocked: BTreeSet::new(),
            water_blocks: BTreeSet::new(),
            lava_blocks: BTreeSet::new(),
            ground_height,
            size,
        }
    }

    /// The mesh with exactly the cells of `blocks` blocked.
    pub fn with_blocked(self, blocks: Vec<Cell>) -> (m: Self)
        ensures
            m.blocked_set() == blocks@.to_set(),
            m.water_set() == self.water_set(),
            m.lava_set() == self.lava_set(),
            m.ground() == self.ground(),
            m.half_width() == self.half_width(),
    {
        let mut s = self;
        s.blocked = cell_set(&blocks);
        s
    }

    /// The mesh with exactly the cells of `blocks` as water.
    pub fn with_water(self, blocks: Vec<Cell>) -> (m: Self)
        ensures
            m.water_set() == blocks@.to_set(),
            m.blocked_set() == self.blocked_set(),
            m.lava_set() == self.lava_set(),
            m.ground() == self.ground(),
            m.half_width() == self.half_width(),
    {
        let mut s = self;
        s.water_blocks = cell_set(&blocks);
        s
    }

    /// The mesh with exactly the cells of `blocks` as lava.
    pub fn with_lava(self, blocks: Vec<Cell>) -> (m: Self)
        ensures
            m.lava_set() == blocks@.to_set(),
            m.blocked_set() == self.blocked_set(),
            m.water_set() == self.water_set(),
            m.ground() == self.ground(),
            m.half_width() == self.half_width(),
    {
        let mut s = self;
        s.lava_blocks = cell_set(&blocks);
        s
    }

    /// Blocks cell `(x, y, z)`.
    pub fn block(&mut self, x: i64, y: i64, z: i64)
        ensures
            final(self).blocked_set() == old(self).blocked_set().insert((x, y, z)),
            final(self).water_set() == old(self).water_set(),
            final(self).lava_set() == old(self).lava_set(),
            final(self).ground() == old(self).ground(),
            final(self).half_width() == old(self).half_width(),
    {
        self.blocked.insert((x, y, z));
    }

    /// Unblocks cell `(x, y, z)`.
    pub fn unblock(&mut self, x: i64, y: i64, z: i64)
        ensures
            final(self).blocked_set() == old(self).blocked_set().remove((x, y, z)),
            final(self).water_set() == old(self).water_set(),
            final(self).lava_set() == old(self).lava_set(),
            final(self).ground() == old(self).ground(),
            final(self).half_width() == old(self).half_width(),
    {
        self.blocked.remove(&(x, y, z));
    }

    /// Marks cell `(x, y, z)` as water.
    pub fn add_water(&mut self, x: i64, y: i64, z: i64)
        ensures
            final(self).water_set() == old(self).water_set().insert((x, y, z)),
            final(self).blocked_set() == old(self).blocked_set(),
            final(self).lava_set() == old(self).lava_set(),
            final(self).ground() == old(self).ground(),
            final(self).half_width() == old(self).half_width(),
    {
        self.water_blocks.insert((x, y, z));
    }

    /// Marks cell `(x, y, z)` as lava.
    pub fn add_lava(&mut self, x: i64, y: i64, z: i64)
        ensures
            final(self).lava_set() == old(self).lava_set().insert((x, y, z)),
            final(self).blocked_set() == old(self).blocked_set(),
            final(self).water_set() == old(self).water_set(),
            final(self).ground() == old(self).ground(),
            final(self).half_width() == old(self).half_width(),
    {
        self.lava_blocks.insert((x, y, z));
    }

    /// Whether a walker can stand in cell `(x, y, z)` under `options`.
    pub fn is_walkable(&self, x: i64, y: i64, z: i64, options: &PathfindOptions) -> (r: bool)
        requires
            self.wf(),
        ensures
            r == self.walkable(x, y, z, *options),
    {
        if self.blocked.contains(&(x, y, z)) {
            return false;
        }
        let size = self.size as i128;
        let xa = x as i128;
        let za = z as i128;
        if xa > size || -xa > size || za > size || -za > size {
            return false;
        }
        if y < self.ground_height - 20 || y > self.ground_height + 10 {
            return false;
        }
        if options.avoid_water && self.water_blocks.contains(&(x, y, z)) {
            return false;
        }
        if options.avoid_lava && self.lava_blocks.contains(&(x, y, z)) {
            return false;
        }
        if y < self.ground_height {
            let fall_distance = self.ground_height - y;
            if fall_distance > options.max_fall_distance as i64 {
                return false;
            }
        }
        true
    }

    /// Whether cell `(x, y, z)` is blocked.
    pub fn is_blocked(&self, x: i64, y: i64, z: i64) -> (r: bool)
        ensures
            r == self.blocked_set().contains((x, y, z)),
    {
        self.blocked.contains(&(x, y, z))
    }

    /// Whether cell `(x, y, z)` is water.
    pub fn is_water(&self, x: i64, y: i64, z: i64) -> (r: bool)
        ensures
            r == self.water_set().contains((x, y, z)),
    {
        self.water_blocks.contains(&(x, y, z))
    }

    /// Whether cell `(x, y, z)` is lava.
    pub fn is_lava(&self, x: i64, y: i64, z: i64) -> (r: bool)
        ensures
            r == self.lava_set().contains((x, y, z)),
    {
        self.lava_blocks.contains(&(x, y, z))
    }

    /// Number of blocked cells.
    pub fn blocked_count(&self) -> (n: usize)
        ensures
            n == self.blocked_set().len(),
    {
        self.blocked.len()
    }

    /// Number of water cells.
    pub fn water_count(&self) -> (n: usize)
        ensures
            n == self.water_set().len(),
    {
        self.water_blocks.len()
    }

    /// Number of lava cells.
    pub fn lava_count(&self) -> (n: usize)
        ensures
            n == self.lava_set().len(),
    {
        self.lava_blocks.len()
    }
}

/// The set of the cells listed in `cells`.
fn cell_set(cells: &Vec<Cell>) -> (s: BTreeSet<Cell>)
    ensures
        s@ == cells@.to_set(),
{
    let mut s: BTreeSet<Cell> = BTreeSet::new();
    let mut i: usize = 0;
    while i < cells.len()
        invariant
            i <= cells@.len(),
            s@ == cells@.take(i as int).to_set(),
        decreases cells.len() - i,
    {
        s.insert(cells[i]);
        assert(cells@.take(i + 1) == cells@.take(i as int).push(cells@[i as int]));
        proof {
            cells@.take(i as int).lemma_push_to_set_commute(cells@[i as int]);
        }
        i += 1;
    }
    assert(cells@.take(cells@.len() as int) == cells@);
    s
}

} // verus!
