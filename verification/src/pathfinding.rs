//! Best-first path search over a `NavigationMesh`.
//!
//! Moves go to the 6 face neighbours of a cell, or to all 26 neighbours when
//! diagonal moves are allowed. Step costs are kept in thousandths: 1000 for a
//! straight step, 1414 for a step that changes two coordinates and 1732 for
//! one that changes three. The frontier always hands out a cell of the
//! greatest estimated total cost (`g + h`), with the octile-style estimate
//! `h = 1000 * (dx + dy + dz) - 586 * min(dx, dy, dz)`.

use vstd::prelude::*;
use std::collections::{BTreeMap, BTreeSet};
use crate::navigation::{Cell, NavigationMesh, PathfindOptions};
use crate::open_set::{queued, queue_new, queue_pop_max, queue_push, OpenSet};

verus! {

broadcast use vstd::std_specs::btree::group_btree_axioms, vstd::laws_cmp::group_laws_cmp;

/// Largest step cost, in thousandths.
pub open spec fn max_step() -> int {
    1732
}

/// `b` is one move away from `a`.
pub open spec fn adjacent(a: Cell, b: Cell, allow_diagonal: bool) -> bool {
    let dx = b.0 - a.0;
    let dy = b.1 - a.1;
    let dz = b.2 - a.2;
    &&& -1 <= dx <= 1
    &&& -1 <= dy <= 1
    &&& -1 <= dz <= 1
    &&& !(dx == 0 && dy == 0 && dz == 0)
    &&& (!allow_diagonal ==> (dx == 0 && dy == 0) || (dx == 0 && dz == 0) || (dy == 0 && dz == 0))
}

/// `path` is a walk through the mesh: each cell is one move from the one
/// before it, and every cell after the first is walkable.
pub open spec fn is_walk(mesh: NavigationMesh, options: PathfindOptions, path: Seq<Cell>) -> bool {
    &&& forall|i: int| 0 <= i < path.len() - 1 ==> #[trigger] adjacent(path[i], path[i + 1], options.allow_diagonal)
    &&& forall|i: int| 1 <= i < path.len() ==> mesh.walkable((#[trigger] path[i]).0, path[i].1, path[i].2, options)
}

/// Coordinates whose neighbours are all representable.
pub open spec fn interior(c: Cell) -> bool {
    &&& i64::MIN < c.0 < i64::MAX
    &&& i64::MIN < c.1 < i64::MAX
    &&& i64::MIN < c.2 < i64::MAX
}

/// Meshes whose walkable cells all have representable neighbours.
pub open spec fn searchable(mesh: NavigationMesh) -> bool {
    &&& i64::MIN + 20 < mesh.ground() < i64::MAX - 10
    &&& mesh.half_width() < i64::MAX
}

/// What a search gives back.
#[derive(Debug, Clone, PartialEq, Eq)]
pub enum PathOutcome {
    /// Start and goal lie in different worlds: there is no path.
    DifferentWorlds,
    /// Start and goal fall in the same cell: the path is the start itself.
    SameCell,
    /// The search ran: the cells of the path found, from the start, and
    /// whether it ends at the goal.
    Searched { path: Vec<Cell>, reached: bool },
}

/// `c` can be reached from `start` by a walk through the mesh.
pub open spec fn reachable(mesh: NavigationMesh, options: PathfindOptions, start: Cell, c: Cell) -> bool {
    exists|p: Seq<Cell>|
        #[trigger] is_walk(mesh, options, p) && p.len() >= 1 && p[0] == start && p.last() == c
}

/// `s` could be the cells a search expanded before handing back `path`:
/// each is reachable from `start` and none is the goal; every cell of
/// `path` but its last is one of them, and its last is not.
pub open spec fn expanded_towards(
    mesh: NavigationMesh,
    options: PathfindOptions,
    start: Cell,
    goal: Cell,
    path: Seq<Cell>,
    s: Set<Cell>,
) -> bool {
    &&& s.finite()
    &&& forall|c: Cell| #[trigger] s.contains(c) ==> c != goal && reachable(mesh, options, start, c)
    &&& forall|i: int| 0 <= i < path.len() - 1 ==> s.contains(#[trigger] path[i])
    &&& !s.contains(path.last())
}

/// Exactly `budget` cells were expanded before `path` was handed back.
pub open spec fn budget_spent(
    mesh: NavigationMesh,
    options: PathfindOptions,
    start: Cell,
    goal: Cell,
    path: Seq<Cell>,
    budget: int,
) -> bool {
    exists|s: Set<Cell>| #[trigger] expanded_towards(mesh, options, start, goal, path, s) && s.len() == budget
}

/// Fewer than `budget` cells were expanded before `path` was handed back.
pub open spec fn found_within(
    mesh: NavigationMesh,
    options: PathfindOptions,
    start: Cell,
    goal: Cell,
    path: Seq<Cell>,
    budget: int,
) -> bool {
    exists|s: Set<Cell>| #[trigger] expanded_towards(mesh, options, start, goal, path, s) && s.len() < budget
}

/// The cells a search with a budget of `budget` expansions hands back,
/// starting at `start`: a walk ending at `goal` when it was reached, found
/// after fewer than `budget` expansions; otherwise the start alone, when
/// the goal cannot be reached at all; the start twice, when the budget is
/// zero; or, once `budget` reachable cells other than the goal were
/// expanded, a walk through them to the next cell taken out of the
/// frontier.
pub open spec fn valid_search_result(
    mesh: NavigationMesh,
    options: PathfindOptions,
    start: Cell,
    goal: Cell,
    budget: int,
    path: Seq<Cell>,
    reached: bool,
) -> bool {
    &&& path.len() >= 1
    &&& path[0] == start
    &&& reached ==> {
        &&& path.last() == goal
        &&& path.len() >= 2
        &&& is_walk(mesh, options, path)
        &&& found_within(mesh, options, start, goal, path, budget)
    }
    &&& !reached ==> {
        ||| path == seq![start] && !reachable(mesh, options, start, goal)
        ||| path == seq![start, start] && budget == 0
        ||| {
            &&& budget > 0
            &&& path.len() >= 2
            &&& is_walk(mesh, options, path)
            &&& budget_spent(mesh, options, start, goal, path, budget)
        }
    }
}

/// The start is reachable from itself.
proof fn start_reachable(mesh: NavigationMesh, options: PathfindOptions, start: Cell)
    ensures
        reachable(mesh, options, start, start),
{
    let p = seq![start];
    assert(is_walk(mesh, options, p));
}

/// A walk to `a` extends by one move to a walkable `b`.
proof fn reach_step(mesh: NavigationMesh, options: PathfindOptions, start: Cell, a: Cell, b: Cell)
    requires
        reachable(mesh, options, start, a),
        adjacent(a, b, options.allow_diagonal),
        mesh.walkable(b.0, b.1, b.2, options),
    ensures
        reachable(mesh, options, start, b),
{
    let p = choose|p: Seq<Cell>|
        #[trigger] is_walk(mesh, options, p) && p.len() >= 1 && p[0] == start && p.last() == a;
    let q = p.push(b);
    assert forall|i: int| 0 <= i < q.len() - 1 implies #[trigger] adjacent(q[i], q[i + 1], options.allow_diagonal) by {
        if i < p.len() - 1 {
            assert(adjacent(p[i], p[i + 1], options.allow_diagonal));
        }
    }
    assert forall|i: int| 1 <= i < q.len() implies mesh.walkable((#[trigger] q[i]).0, q[i].1, q[i].2, options) by {
        if i < p.len() {
            assert(mesh.walkable(p[i].0, p[i].1, p[i].2, options));
        }
    }
    assert(is_walk(mesh, options, q));
}

/// Every cell of a walk from `start` stays inside a region that holds the
/// start and every walkable neighbour of its cells.
proof fn walk_stays_inside(mesh: NavigationMesh, options: PathfindOptions, region: Set<Cell>, p: Seq<Cell>, i: int)
    requires
        is_walk(mesh, options, p),
        p.len() >= 1,
        region.contains(p[0]),
        forall|c: Cell, n: Cell|
            #[trigger] region.contains(c) && #[trigger] adjacent(c, n, options.allow_diagonal)
                && mesh.walkable(n.0, n.1, n.2, options) ==> region.contains(n),
        0 <= i < p.len(),
    ensures
        region.contains(p[i]),
    decreases i,
{
    if i > 0 {
        let j = i - 1;
        walk_stays_inside(mesh, options, region, p, j);
        assert(adjacent(p[j], p[j + 1], options.allow_diagonal));
        assert(mesh.walkable(p[i].0, p[i].1, p[i].2, options));
    }
}

/// A cell outside such a closed region cannot be reached from the start.
proof fn outside_unreachable(mesh: NavigationMesh, options: PathfindOptions, region: Set<Cell>, start: Cell, goal: Cell)
    requires
        region.contains(start),
        !region.contains(goal),
        forall|c: Cell, n: Cell|
            #[trigger] region.contains(c) && #[trigger] adjacent(c, n, options.allow_diagonal)
                && mesh.walkable(n.0, n.1, n.2, options) ==> region.contains(n),
    ensures
        !reachable(mesh, options, start, goal),
{
    if reachable(mesh, options, start, goal) {
        let p = choose|p: Seq<Cell>|
            #[trigger] is_walk(mesh, options, p) && p.len() >= 1 && p[0] == start && p.last() == goal;
        walk_stays_inside(mesh, options, region, p, p.len() - 1);
    }
}

/// Whether two cells are the same.
pub fn same_cell(a: Cell, b: Cell) -> (r: bool)
    ensures
        r == (a == b),
{
    a.0 == b.0 && a.1 == b.1 && a.2 == b.2
}

/// Absolute difference of two coordinates.
fn coord_gap(a: i64, b: i64) -> (d: u128)
    ensures
        d == if a >= b { a - b } else { b - a },
{
    if a >= b {
        (a as i128 - b as i128) as u128
    } else {
        (b as i128 - a as i128) as u128
    }
}

/// The distance between two coordinates.
pub open spec fn gap(a: i64, b: i64) -> int {
    if a >= b { a - b } else { b - a }
}

/// The octile estimate of the distance from `c` to `goal`, in thousandths:
/// each axis distance at 1000, less 586 for the smallest of them.
pub open spec fn heuristic_spec(c: Cell, goal: Cell) -> int {
    let dx = gap(c.0, goal.0);
    let dy = gap(c.1, goal.1);
    let dz = gap(c.2, goal.2);
    let m = if dy < dx { if dz < dy { dz } else { dy } } else { if dz < dx { dz } else { dx } };
    1000 * (dx + dy + dz) - 586 * m
}

/// The distance estimate from `c` to `goal`, in thousandths (see
/// `heuristic_spec`).
fn heuristic(c: Cell, goal: Cell) -> (h: u128)
    ensures
        h == heuristic_spec(c, goal),
        h <= 3000 * 0x1_0000_0000_0000_0000,
{
    let dx = coord_gap(c.0, goal.0);
    let dy = coord_gap(c.1, goal.1);
    let dz = coord_gap(c.2, goal.2);
    let mut m = dx;
    if dy < m {
        m = dy;
    }
    if dz < m {
        m = dz;
    }
    1000 * (dx + dy + dz) - 586 * m
}

/// One move from `c` by `(dx, dy, dz)` with the given cost.
fn step(c: Cell, dx: i64, dy: i64, dz: i64, cost: u128) -> (r: (Cell, u128))
    requires
        interior(c),
        -1 <= dx <= 1,
        -1 <= dy <= 1,
        -1 <= dz <= 1,
    ensures
        r.0 == ((c.0 + dx) as i64, (c.1 + dy) as i64, (c.2 + dz) as i64),
        r.1 == cost,
{
    ((c.0 + dx, c.1 + dy, c.2 + dz), cost)
}

/// The cell one move from `c` by `(dx, dy, dz)`, with the move's cost.
pub open spec fn moved(c: Cell, dx: int, dy: int, dz: int, cost: u128) -> (Cell, u128) {
    (((c.0 + dx) as i64, (c.1 + dy) as i64, (c.2 + dz) as i64), cost)
}

/// The moves out of `c` in the order they are tried: the six straight ones
/// (cost 1000), then, when diagonals are allowed, the twelve along a face
/// (cost 1414) and the eight through a corner (cost 1732).
pub open spec fn neighbor_moves(c: Cell, allow_diagonal: bool) -> Seq<(Cell, u128)> {
    let straight = seq![
        moved(c, 1, 0, 0, 1000), moved(c, -1, 0, 0, 1000),
        moved(c, 0, 1, 0, 1000), moved(c, 0, -1, 0, 1000),
        moved(c, 0, 0, 1, 1000), moved(c, 0, 0, -1, 1000)
    ];
    let diagonal = seq![
        moved(c, 1, 1, 0, 1414), moved(c, 1, -1, 0, 1414), moved(c, -1, 1, 0, 1414), moved(c, -1, -1, 0, 1414),
        moved(c, 1, 0, 1, 1414), moved(c, 1, 0, -1, 1414), moved(c, -1, 0, 1, 1414), moved(c, -1, 0, -1, 1414),
        moved(c, 0, 1, 1, 1414), moved(c, 0, 1, -1, 1414), moved(c, 0, -1, 1, 1414), moved(c, 0, -1, -1, 1414),
        moved(c, 1, 1, 1, 1732), moved(c, 1, 1, -1, 1732), moved(c, 1, -1, 1, 1732), moved(c, 1, -1, -1, 1732),
        moved(c, -1, 1, 1, 1732), moved(c, -1, 1, -1, 1732), moved(c, -1, -1, 1, 1732), moved(c, -1, -1, -1, 1732)
    ];
    if allow_diagonal { straight + diagonal } else { straight }
}

/// Where a neighbour of `c` stands among the moves out of `c`.
proof fn move_index(c: Cell, n: Cell, allow_diagonal: bool) -> (j: int)
    requires
        interior(c),
        adjacent(c, n, allow_diagonal),
    ensures
        0 <= j < neighbor_moves(c, allow_diagonal).len(),
        neighbor_moves(c, allow_diagonal)[j].0 == n,
{
    let dx = n.0 - c.0;
    let dy = n.1 - c.1;
    let dz = n.2 - c.2;
    if dx == 1 && dy == 0 && dz == 0 {
        assert(neighbor_moves(c, allow_diagonal)[0] == moved(c, 1, 0, 0, 1000));
        0
    } else if dx == -1 && dy == 0 && dz == 0 {
        assert(neighbor_moves(c, allow_diagonal)[1] == moved(c, -1, 0, 0, 1000));
        1
    } else if dx == 0 && dy == 1 && dz == 0 {
        assert(neighbor_moves(c, allow_diagonal)[2] == moved(c, 0, 1, 0, 1000));
        2
    } else if dx == 0 && dy == -1 && dz == 0 {
        assert(neighbor_moves(c, allow_diagonal)[3] == moved(c, 0, -1, 0, 1000));
        3
    } else if dx == 0 && dy == 0 && dz == 1 {
        assert(neighbor_moves(c, allow_diagonal)[4] == moved(c, 0, 0, 1, 1000));
        4
    } else if dx == 0 && dy == 0 && dz == -1 {
        assert(neighbor_moves(c, allow_diagonal)[5] == moved(c, 0, 0, -1, 1000));
        5
    } else if dx == 1 && dy == 1 && dz == 0 {
        assert(neighbor_moves(c, allow_diagonal)[6] == moved(c, 1, 1, 0, 1414));
        6
    } else if dx == 1 && dy == -1 && dz == 0 {
        assert(neighbor_moves(c, allow_diagonal)[7] == moved(c, 1, -1, 0, 1414));
        7
    } else if dx == -1 && dy == 1 && dz == 0 {
        assert(neighbor_moves(c, allow_diagonal)[8] == moved(c, -1, 1, 0, 1414));
        8
    } else if dx == -1 && dy == -1 && dz == 0 {
        assert(neighbor_moves(c, allow_diagonal)[9] == moved(c, -1, -1, 0, 1414));
        9
    } else if dx == 1 && dy == 0 && dz == 1 {
        assert(neighbor_moves(c, allow_diagonal)[10] == moved(c, 1, 0, 1, 1414));
        10
    } else if dx == 1 && dy == 0 && dz == -1 {
        assert(neighbor_moves(c, allow_diagonal)[11] == moved(c, 1, 0, -1, 1414));
        11
    } else if dx == -1 && dy == 0 && dz == 1 {
        assert(neighbor_moves(c, allow_diagonal)[12] == moved(c, -1, 0, 1, 1414));
        12
    } else if dx == -1 && dy == 0 && dz == -1 {
        assert(neighbor_moves(c, allow_diagonal)[13] == moved(c, -1, 0, -1, 1414));
        13
    } else if dx == 0 && dy == 1 && dz == 1 {
        assert(neighbor_moves(c, allow_diagonal)[14] == moved(c, 0, 1, 1, 1414));
        14
    } else if dx == 0 && dy == 1 && dz == -1 {
        assert(neighbor_moves(c, allow_diagonal)[15] == moved(c, 0, 1, -1, 1414));
        15
    } else if dx == 0 && dy == -1 && dz == 1 {
        assert(neighbor_moves(c, allow_diagonal)[16] == moved(c, 0, -1, 1, 1414));
        16
    } else if dx == 0 && dy == -1 && dz == -1 {
        assert(neighbor_moves(c, allow_diagonal)[17] == moved(c, 0, -1, -1, 1414));
        17
    } else if dx == 1 && dy == 1 && dz == 1 {
        assert(neighbor_moves(c, allow_diagonal)[18] == moved(c, 1, 1, 1, 1732));
        18
    } else if dx == 1 && dy == 1 && dz == -1 {
        assert(neighbor_moves(c, allow_diagonal)[19] == moved(c, 1, 1, -1, 1732));
        19
    } else if dx == 1 && dy == -1 && dz == 1 {
        assert(neighbor_moves(c, allow_diagonal)[20] == moved(c, 1, -1, 1, 1732));
        20
    } else if dx == 1 && dy == -1 && dz == -1 {
        assert(neighbor_moves(c, allow_diagonal)[21] == moved(c, 1, -1, -1, 1732));
        21
    } else if dx == -1 && dy == 1 && dz == 1 {
        assert(neighbor_moves(c, allow_diagonal)[22] == moved(c, -1, 1, 1, 1732));
        22
    } else if dx == -1 && dy == 1 && dz == -1 {
        assert(neighbor_moves(c, allow_diagonal)[23] == moved(c, -1, 1, -1, 1732));
        23
    } else if dx == -1 && dy == -1 && dz == 1 {
        assert(neighbor_moves(c, allow_diagonal)[24] == moved(c, -1, -1, 1, 1732));
        24
    } else if dx == -1 && dy == -1 && dz == -1 {
        assert(neighbor_moves(c, allow_diagonal)[25] == moved(c, -1, -1, -1, 1732));
        25
    } else {
        0
    }
}

/// The moves out of `c`, each with its cost, in a fixed order (see
/// `neighbor_moves`).
fn neighbors(c: Cell, allow_diagonal: bool) -> (v: Vec<(Cell, u128)>)
    requires
        interior(c),
    ensures
        v@ == neighbor_moves(c, allow_diagonal),
        forall|i: int| 0 <= i < v@.len() ==> #[trigger] adjacent(c, v@[i].0, allow_diagonal),
        forall|i: int| 0 <= i < v@.len() ==> 1000 <= (#[trigger] v@[i]).1 <= 1732,
{
    let mut v: Vec<(Cell, u128)> = Vec::new();
    v.push(step(c, 1, 0, 0, 1000));
    v.push(step(c, -1, 0, 0, 1000));
    v.push(step(c, 0, 1, 0, 1000));
    v.push(step(c, 0, -1, 0, 1000));
    v.push(step(c, 0, 0, 1, 1000));
    v.push(step(c, 0, 0, -1, 1000));
    if allow_diagonal {
        v.push(step(c, 1, 1, 0, 1414));
        v.push(step(c, 1, -1, 0, 1414));
        v.push(step(c, -1, 1, 0, 1414));
        v.push(step(c, -1, -1, 0, 1414));
        v.push(step(c, 1, 0, 1, 1414));
        v.push(step(c, 1, 0, -1, 1414));
        v.push(step(c, -1, 0, 1, 1414));
        v.push(step(c, -1, 0, -1, 1414));
        v.push(step(c, 0, 1, 1, 1414));
        v.push(step(c, 0, 1, -1, 1414));
        v.push(step(c, 0, -1, 1, 1414));
        v.push(step(c, 0, -1, -1, 1414));
        v.push(step(c, 1, 1, 1, 1732));
        v.push(step(c, 1, 1, -1, 1732));
        v.push(step(c, 1, -1, 1, 1732));
        v.push(step(c, 1, -1, -1, 1732));
        v.push(step(c, -1, 1, 1, 1732));
        v.push(step(c, -1, 1, -1, 1732));
        v.push(step(c, -1, -1, 1, 1732));
        v.push(step(c, -1, -1, -1, 1732));
    }
    proof {
        assert(v@ =~= neighbor_moves(c, allow_diagonal));
    }
    v
}

/// The length of one step, in thousandths: 1000 when one coordinate
/// changes, 1414 when two do, 1732 when all three do, 0 for no change.
pub open spec fn step_cost(a: Cell, b: Cell) -> int {
    let n = (if a.0 != b.0 { 1int } else { 0int }) + (if a.1 != b.1 { 1int } else { 0int })
        + (if a.2 != b.2 { 1int } else { 0int });
    if n == 0 { 0 } else if n == 1 { 1000 } else if n == 2 { 1414 } else { 1732 }
}

/// The length of a path's first `k` steps, in thousandths.
pub open spec fn walk_cost(path: Seq<Cell>, k: int) -> int
    decreases k,
{
    if k <= 0 || k >= path.len() {
        0
    } else {
        walk_cost(path, k - 1) + step_cost(path[k - 1], path[k])
    }
}

/// The length of a path of single steps, in thousandths (see
/// `step_cost`).
pub fn path_cost(path: &Vec<Cell>) -> (c: u128)
    ensures
        c == walk_cost(path@, path@.len() - 1),
{
    if path.len() < 2 {
        return 0;
    }
    let mut c: u128 = 0;
    let mut k: usize = 1;
    while k < path.len()
        invariant
            1 <= k <= path@.len(),
            c == walk_cost(path@, k - 1),
            c <= 1732 * (k - 1),
        decreases path.len() - k,
    {
        let a = path[k - 1];
        let b = path[k];
        let n: u8 = (if a.0 != b.0 { 1u8 } else { 0u8 }) + (if a.1 != b.1 { 1u8 } else { 0u8 })
            + (if a.2 != b.2 { 1u8 } else { 0u8 });
        let step: u128 = if n == 0 { 0 } else if n == 1 { 1000 } else if n == 2 { 1414 } else { 1732 };
        c = c + step;
        k = k + 1;
    }
    c
}

/// The search's bookkeeping: best known costs, predecessors and the cells
/// already expanded.
pub open spec fn search_inv(
    mesh: NavigationMesh,
    options: PathfindOptions,
    start: Cell,
    g: Map<Cell, u128>,
    came_from: Map<Cell, Cell>,
    frontier: Map<Cell, u128>,
    iterations: int,
) -> bool {
    &&& g.contains_key(start)
    &&& g[start] == 0
    &&& forall|n: Cell| #[trigger] g.contains_key(n) ==> n == start || came_from.contains_key(n)
    &&& forall|n: Cell| #[trigger] came_from.contains_key(n) ==> {
        &&& g.contains_key(n)
        &&& g.contains_key(came_from[n])
        &&& g[came_from[n]] < g[n]
        &&& adjacent(came_from[n], n, options.allow_diagonal)
        &&& mesh.walkable(n.0, n.1, n.2, options)
    }
    &&& forall|n: Cell| #[trigger] g.contains_key(n) ==> g[n] <= max_step() * iterations
    &&& forall|n: Cell| #[trigger] frontier.contains_key(n) ==> g.contains_key(n)
}

/// What the search knows of the cells it has met: the expanded cells are
/// known and none of them is queued or the goal; every known cell is
/// expanded or queued, and reachable from the start.
pub open spec fn explored_inv(
    mesh: NavigationMesh,
    options: PathfindOptions,
    start: Cell,
    goal: Cell,
    g: Map<Cell, u128>,
    closed: Set<Cell>,
    frontier: Map<Cell, u128>,
) -> bool {
    &&& closed.finite()
    &&& !closed.contains(goal)
    &&& forall|c: Cell| #[trigger] closed.contains(c) ==> g.contains_key(c)
    &&& forall|c: Cell| #[trigger] frontier.contains_key(c) ==> !closed.contains(c)
    &&& forall|c: Cell| #[trigger] g.contains_key(c) ==> closed.contains(c) || frontier.contains_key(c)
    &&& forall|c: Cell| #[trigger] g.contains_key(c) ==> reachable(mesh, options, start, c)
}

/// Every cell that the bookkeeping knows of is the start or walkable.
proof fn known_cells_walkable(
    mesh: NavigationMesh,
    options: PathfindOptions,
    start: Cell,
    g: Map<Cell, u128>,
    came_from: Map<Cell, Cell>,
    frontier: Map<Cell, u128>,
    iterations: int,
    n: Cell,
)
    requires
        search_inv(mesh, options, start, g, came_from, frontier, iterations),
        g.contains_key(n),
    ensures
        n == start || mesh.walkable(n.0, n.1, n.2, options),
{
}

/// Cells that are the start or walkable in a searchable mesh have
/// representable neighbours.
proof fn known_cell_interior(mesh: NavigationMesh, options: PathfindOptions, start: Cell, n: Cell)
    requires
        searchable(mesh),
        interior(start),
        n == start || mesh.walkable(n.0, n.1, n.2, options),
    ensures
        interior(n),
{
}

/// The path from `start` to `last` that the predecessor links describe,
/// reversed so that it begins at `start`.
fn reconstruct(
    came_from: &BTreeMap<Cell, Cell>,
    g_score: &BTreeMap<Cell, u128>,
    last: Cell,
    start: Cell,
    Ghost(mesh): Ghost<NavigationMesh>,
    Ghost(options): Ghost<PathfindOptions>,
    Ghost(frontier): Ghost<Map<Cell, u128>>,
    Ghost(iterations): Ghost<int>,
    Ghost(closed): Ghost<Set<Cell>>,
) -> (path: Vec<Cell>)
    requires
        search_inv(mesh, options, start, g_score@, came_from@, frontier, iterations),
        g_score@.contains_key(last),
        forall|n: Cell| #[trigger] came_from@.contains_key(n) ==> closed.contains(came_from@[n]),
        last != start ==> closed.contains(start),
    ensures
        path@.len() >= 2,
        path@[0] == start,
        path@.last() == last,
        last == start ==> path@ == seq![start, start],
        last != start ==> is_walk(mesh, options, path@),
        last != start ==> forall|i: int| 0 <= i < path@.len() - 1 ==> closed.contains(#[trigger] path@[i]),
{
    let mut back: Vec<Cell> = Vec::new();
    back.push(last);
    let mut node = last;
    loop
        invariant_except_break
            search_inv(mesh, options, start, g_score@, came_from@, frontier, iterations),
            g_score@.contains_key(node),
            node != start ==> came_from@.contains_key(node),
            back@.len() >= 1,
            back@[0] == last,
            back@.last() == node,
            forall|i: int| 0 <= i < back@.len() - 1 ==> came_from@.contains_key(#[trigger] back@[i]) && came_from@[back@[i]] == back@[i + 1],
            last != start ==> forall|i: int| 0 <= i < back@.len() ==> #[trigger] back@[i] != start,
            last == start ==> back@ == seq![start] && node == start,
        ensures
            back@.len() >= 1,
            back@[0] == last,
            forall|i: int| 0 <= i < back@.len() - 1 ==> came_from@.contains_key(#[trigger] back@[i]) && came_from@[back@[i]] == back@[i + 1],
            last == start ==> back@ == seq![start],
            last != start ==> came_from@.contains_key(back@.last()) && came_from@[back@.last()] == start,
            last != start ==> forall|i: int| 0 <= i < back@.len() ==> #[trigger] back@[i] != start,
        decreases g_score@[node],
    {
        match came_from.get(&node) {
            None => {
                break;
            },
            Some(prev) => {
                let prev = *prev;
                if same_cell(prev, start) {
                    break;
                }
                back.push(prev);
                node = prev;
            },
        }
    }
    let mut path: Vec<Cell> = Vec::new();
    path.push(start);
    let mut k = back.len();
    while k > 0
        invariant
            0 <= k <= back@.len(),
            path@.len() == 1 + back@.len() - k,
            path@[0] == start,
            forall|i: int| 1 <= i < path@.len() ==> #[trigger] path@[i] == back@[back@.len() - i],
        decreases k,
    {
        k -= 1;
        path.push(back[k]);
    }
    proof {
        if last != start {
            assert forall|i: int| 0 <= i < path@.len() - 1 implies #[trigger] adjacent(path@[i], path@[i + 1], options.allow_diagonal) by {
                let j = back@.len() - (i + 1);
                if i == 0 {
                    assert(path@[1] == back@.last());
                } else {
                    assert(path@[i] == back@[j + 1]);
                    assert(path@[i + 1] == back@[j]);
                    assert(came_from@.contains_key(back@[j]));
                }
            }
            assert forall|i: int| 0 <= i < path@.len() - 1 implies closed.contains(#[trigger] path@[i]) by {
                if i > 0 {
                    let j = back@.len() - i;
                    assert(path@[i] == back@[j]);
                    assert(came_from@.contains_key(back@[j - 1]) && came_from@[back@[j - 1]] == back@[j]);
                }
            }
            assert forall|i: int| 1 <= i < path@.len() implies mesh.walkable((#[trigger] path@[i]).0, path@[i].1, path@[i].2, options) by {
                let j = back@.len() - i;
                assert(path@[i] == back@[j]);
                if j < back@.len() - 1 {
                    assert(came_from@.contains_key(back@[j]));
                } else {
                    assert(came_from@.contains_key(back@.last()));
                }
            }
        } else {
            assert(path@ =~= seq![start, start]);
        }
    }
    path
}

/// Outcome of the search proper.
struct SearchResult {
    path: Vec<Cell>,
    reached: bool,
}

/// Engine that searches paths over its mesh.
#[derive(Debug)]
pub struct PathfindingEngine {
    nav_mesh: NavigationMesh,
    max_iterations: usize,
}

impl PathfindingEngine {
    /// The mesh searched.
    pub closed spec fn mesh(&self) -> NavigationMesh {
        self.nav_mesh
    }

    /// The default search budget.
    pub closed spec fn budget(&self) -> usize {
        self.max_iterations
    }

    /// An engine over `nav_mesh` with a budget of 10 000 expansions.
    pub fn new(nav_mesh: NavigationMesh) -> (e: Self)
        ensures
            e.mesh() == nav_mesh,
            e.budget() == 10_000,
    {
        PathfindingEngine { nav_mesh, max_iterations: 10_000 }
    }

    /// The same engine with a budget of `max` expansions.
    pub fn with_max_iterations(self, max: usize) -> (e: Self)
        ensures
            e.mesh() == self.mesh(),
            e.budget() == max,
    {
        let mut e = self;
        e.max_iterations = max;
        e
    }

    /// Searches a path from cell `start` in world `start_world` to cell
    /// `goal` in world `goal_world`, expanding at most
    /// `options.max_iterations` cells, or the engine's budget when that is
    /// not given.
    pub fn find_path(
        &self,
        start_world: &str,
        start: Cell,
        goal_world: &str,
        goal: Cell,
        options: &PathfindOptions,
    ) -> (outcome: PathOutcome)
        requires
            searchable(self.mesh()),
            interior(start),
        ensures
            match outcome {
                PathOutcome::DifferentWorlds => start_world@ != goal_world@,
                PathOutcome::SameCell => start_world@ == goal_world@ && start == goal,
                PathOutcome::Searched { path, reached } => {
                    &&& start_world@ == goal_world@
                    &&& start != goal
                    &&& valid_search_result(
                        self.mesh(),
                        *options,
                        start,
                        goal,
                        match options.max_iterations {
                            Some(m) => m as int,
                            None => self.budget() as int,
                        },
                        path@,
                        reached,
                    )
                },
            },
    {
        if !crate::text::chars_eq(&crate::text::chars_of(start_world), &crate::text::chars_of(goal_world)) {
            return PathOutcome::DifferentWorlds;
        }
        if same_cell(start, goal) {
            return PathOutcome::SameCell;
        }
        let max_iterations = match options.max_iterations {
            Some(m) => m,
            None => self.max_iterations,
        };
        let r = self.astar(start, goal, options, max_iterations);
        PathOutcome::Searched { path: r.path, reached: r.reached }
    }

    fn astar(&self, start: Cell, goal: Cell, options: &PathfindOptions, max_iterations: usize) -> (r: SearchResult)
        requires
            searchable(self.mesh()),
            interior(start),
            start != goal,
        ensures
            valid_search_result(self.mesh(), *options, start, goal, max_iterations as int, r.path@, r.reached),
    {
        let ghost mesh = self.nav_mesh;
        let ghost diag = options.allow_diagonal;
        let mut open_set: OpenSet = queue_new();
        let mut came_from: BTreeMap<Cell, Cell> = BTreeMap::new();
        let mut g_score: BTreeMap<Cell, u128> = BTreeMap::new();
        let mut closed_set: BTreeSet<Cell> = BTreeSet::new();

        let h = heuristic(start, goal);
        g_score.insert(start, 0);
        queue_push(&mut open_set, start, h);
        proof {
            start_reachable(mesh, *options, start);
            assert(queued(open_set).dom() =~= set![start]);
        }

        let mut iterations: u128 = 0;
        loop
            invariant
                searchable(mesh),
                mesh == self.nav_mesh,
                diag == options.allow_diagonal,
                interior(start),
                start != goal,
                iterations <= max_iterations,
                search_inv(mesh, *options, start, g_score@, came_from@, queued(open_set), iterations as int),
                explored_inv(mesh, *options, start, goal, g_score@, closed_set@, queued(open_set)),
                closed_set@.len() == iterations,
                iterations == 0 ==> queued(open_set).dom() == set![start],
                iterations > 0 ==> closed_set@.contains(start),
                forall|n: Cell| #[trigger] came_from@.contains_key(n) ==> closed_set@.contains(came_from@[n]),
                forall|c: Cell, n: Cell|
                    #[trigger] closed_set@.contains(c) && #[trigger] adjacent(c, n, diag)
                        && mesh.walkable(n.0, n.1, n.2, *options) ==> g_score@.contains_key(n),
            decreases max_iterations + 1 - iterations,
        {
            let ghost old_queue = queued(open_set);
            let popped = queue_pop_max(&mut open_set);
            let (current, _) = match popped {
                None => {
                    proof {
                        if iterations == 0 {
                            assert(old_queue.dom().contains(start));
                        }
                        outside_unreachable(mesh, *options, closed_set@, start, goal);
                    }
                    let mut path: Vec<Cell> = Vec::new();
                    path.push(start);
                    assert(path@ =~= seq![start]);
                    return SearchResult { path, reached: false };
                },
                Some(p) => p,
            };
            proof {
                assert(old_queue.contains_key(current));
                assert(g_score@.contains_key(current));
                assert(!closed_set@.contains(current));
                if iterations == 0 {
                    assert(old_queue.dom().contains(current));
                }
            }
            let ghost iterations_before = iterations as int;
            iterations += 1;

            if iterations > max_iterations as u128 {
                let path = reconstruct(&came_from, &g_score, current, start, Ghost(mesh), Ghost(*options), Ghost(queued(open_set)), Ghost(iterations as int), Ghost(closed_set@));
                proof {
                    assert(iterations_before == max_iterations);
                    let s = closed_set@;
                    if max_iterations > 0 {
                        assert(current != start);
                        assert(expanded_towards(mesh, *options, start, goal, path@, s));
                        assert(budget_spent(mesh, *options, start, goal, path@, max_iterations as int));
                    }
                }
                return SearchResult { path, reached: false };
            }

            if same_cell(current, goal) {
                proof {
                    if iterations_before == 0 {
                        assert(current == start);
                    }
                }
                let path = reconstruct(&came_from, &g_score, current, start, Ghost(mesh), Ghost(*options), Ghost(queued(open_set)), Ghost(iterations as int), Ghost(closed_set@));
                proof {
                    let s = closed_set@;
                    assert(expanded_towards(mesh, *options, start, goal, path@, s));
                    assert(found_within(mesh, *options, start, goal, path@, max_iterations as int));
                }
                return SearchResult { path, reached: true };
            }

            closed_set.insert(current);

            let g_current = match g_score.get(&current) {
                Some(g) => *g,
                None => {
                    return SearchResult { path: Vec::new(), reached: false };
                },
            };
            proof {
                known_cells_walkable(mesh, *options, start, g_score@, came_from@, queued(open_set), iterations as int, current);
                known_cell_interior(mesh, *options, start, current);
            }
            let moves = neighbors(current, options.allow_diagonal);
            let mut k: usize = 0;
            while k < moves.len()
                invariant
                    searchable(mesh),
                    mesh == self.nav_mesh,
                    diag == options.allow_diagonal,
                    interior(start),
                    interior(current),
                    start != goal,
                    1 <= iterations <= max_iterations,
                    k <= moves@.len(),
                    moves@ == neighbor_moves(current, diag),
                    g_score@.contains_key(current),
                    g_current == g_score@[current],
                    g_current <= max_step() * (iterations - 1),
                    forall|i: int| 0 <= i < moves@.len() ==> #[trigger] adjacent(current, moves@[i].0, options.allow_diagonal),
                    forall|i: int| 0 <= i < moves@.len() ==> 1000 <= (#[trigger] moves@[i]).1 <= 1732,
                    search_inv(mesh, *options, start, g_score@, came_from@, queued(open_set), iterations as int),
                    explored_inv(mesh, *options, start, goal, g_score@, closed_set@, queued(open_set)),
                    closed_set@.contains(current),
                    closed_set@.len() == iterations,
                    closed_set@.contains(start),
                    forall|n: Cell| #[trigger] came_from@.contains_key(n) ==> closed_set@.contains(came_from@[n]),
                    forall|c: Cell, n: Cell|
                        #[trigger] closed_set@.contains(c) && #[trigger] adjacent(c, n, diag)
                            && mesh.walkable(n.0, n.1, n.2, *options) && c != current ==> g_score@.contains_key(n),
                    forall|i: int|
                        0 <= i < k && mesh.walkable((#[trigger] moves@[i]).0.0, moves@[i].0.1, moves@[i].0.2, *options)
                            ==> g_score@.contains_key(moves@[i].0),
                decreases moves.len() - k,
            {
                let (neighbor, move_cost) = moves[k];
                proof {
                    assert(adjacent(current, moves@[k as int].0, options.allow_diagonal));
                    assert(1000 <= moves@[k as int].1 <= 1732);
                }
                k += 1;
                if closed_set.contains(&neighbor) {
                    continue;
                }
                if !self.nav_mesh.is_walkable(neighbor.0, neighbor.1, neighbor.2, options) {
                    continue;
                }
                let tentative_g = g_current + move_cost;
                let better = match g_score.get(&neighbor) {
                    Some(existing) => tentative_g < *existing,
                    None => true,
                };
                if better {
                    proof {
                        if neighbor == start {
                            assert(g_score@[start] == 0);
                        }
                        reach_step(mesh, *options, start, current, neighbor);
                    }
                    came_from.insert(neighbor, current);
                    g_score.insert(neighbor, tentative_g);
                    let f = tentative_g + heuristic(neighbor, goal);
                    queue_push(&mut open_set, neighbor, f);
                    proof {
                        let gs = g_score@;
                        let cf = came_from@;
                        assert forall|n: Cell| #[trigger] cf.contains_key(n) implies {
                            &&& gs.contains_key(n)
                            &&& gs.contains_key(cf[n])
                            &&& gs[cf[n]] < gs[n]
                            &&& adjacent(cf[n], n, options.allow_diagonal)
                            &&& mesh.walkable(n.0, n.1, n.2, *options)
                        } by {
                            if n != neighbor {
                                if cf[n] == neighbor {
                                }
                            }
                        }
                    }
                }
            }
            proof {
                assert forall|c: Cell, n: Cell|
                    #[trigger] closed_set@.contains(c) && #[trigger] adjacent(c, n, diag)
                        && mesh.walkable(n.0, n.1, n.2, *options) implies g_score@.contains_key(n) by {
                    if c == current {
                        let j = move_index(current, n, diag);
                        assert(moves@[j].0 == n);
                    }
                }
            }
        }
    }
}

} // verus!
