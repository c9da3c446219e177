//! The single-owner world container: all simulation state lives here and
//! every tick is applied atomically, so no two agents ever mutate world
//! state concurrently. The scheduler around it draws a wander direction,
//! ticks one agent, and publishes a snapshot.

use vstd::prelude::*;
use crate::MAX_INVENTORY;
use crate::agent::{claims_in_bounds, is_secondary_spec, tick_spec, Robot, RobotType};
use crate::claims::ClaimRegistry;
use crate::grid::{Terrain, WorldGrid};
use crate::logbuf::LogBuffer;

verus! {

/// The whole simulation state, owned exclusively.
pub struct World {
    pub grid: WorldGrid,
    pub robots: Vec<Robot>,
    pub claims: ClaimRegistry,
    pub logs: LogBuffer,
}

/// Every registered coordinate's cell holds a resource, stated over a
/// cell array of the given width.
pub open spec fn claims_backed(s: Seq<(usize, usize)>, cells: Seq<Terrain>, w: int) -> bool {
    forall|k: int|
        0 <= k < s.len() ==> cells[(#[trigger] s[k]).1 * w + s[k].0].is_resource()
}

impl World {
    /// Validity of the whole world: the grid is well-formed, every agent
    /// and target is in bounds with a bounded inventory, the registry is
    /// duplicate-free, in bounds and backed by resource cells, and the
    /// log buffer is within its capacity.
    pub open spec fn wf(self) -> bool {
        &&& self.grid.wf()
        &&& self.claims.wf()
        &&& self.logs.wf()
        &&& claims_in_bounds(self.claims@, self.grid)
        &&& claims_backed(self.claims@, self.grid.data@, self.grid.width as int)
        &&& forall|k: int|
            0 <= k < self.robots@.len() ==> (#[trigger] self.robots@[k]).wf(self.grid)
    }

    /// Every agent stands on a passable cell.
    pub open spec fn robots_on_passable(self) -> bool {
        forall|k: int|
            0 <= k < self.robots@.len() ==> self.grid.cell(
                (#[trigger] self.robots@[k]).x as int,
                self.robots@[k].y as int,
            ).spec_passable()
    }

    /// A fresh world: the grid generated from the seed and obstacle
    /// layer, one agent per roster entry, all starting at the base, and
    /// empty registry and log buffer.
    pub fn new(
        width: usize,
        height: usize,
        seed: u32,
        obstacles: &Vec<bool>,
        roster: &Vec<RobotType>,
    ) -> (w: World)
        requires
            1 <= width,
            1 <= height,
            width * height <= usize::MAX,
            obstacles@.len() == width * height,
        ensures
            w.wf(),
            w.robots_on_passable(),
            w.grid.is_generated(width as int, height as int, seed, obstacles@),
            w.robots@.len() == roster@.len(),
            forall|k: int|
                0 <= k < roster@.len() ==> #[trigger] w.robots@[k] == (Robot {
                    id: k as usize,
                    x: w.grid.base_x,
                    y: w.grid.base_y,
                    robot_type: roster@[k],
                    inventory: 0u32,
                    target: None::<(usize, usize)>,
                    paused: false,
                }),
            w.claims@ == Seq::<(usize, usize)>::empty(),
            w.logs@ == Seq::<crate::logbuf::LogEvent>::empty(),
    {
        let grid = WorldGrid::new(width, height, seed, obstacles);
        let mut robots: Vec<Robot> = Vec::new();
        let n = roster.len();
        let mut k: usize = 0;
        while k < n
            invariant
                n == roster@.len(),
                k <= n,
                grid.wf(),
                robots@.len() == k,
                forall|j: int|
                    0 <= j < k ==> #[trigger] robots@[j] == (Robot {
                        id: j as usize,
                        x: grid.base_x,
                        y: grid.base_y,
                        robot_type: roster@[j],
                        inventory: 0u32,
                        target: None::<(usize, usize)>,
                        paused: false,
                    }),
            decreases n - k,
        {
            robots.push(Robot::new(k, grid.base_x, grid.base_y, roster[k]));
            k += 1;
        }
        World { grid, robots, claims: ClaimRegistry::new(), logs: LogBuffer::new() }
    }

    /// Whether agent i is the "secondary" miner of the assignment policy:
    /// a miner preceded by another miner in the roster.
    pub fn is_secondary(&self, i: usize) -> (b: bool)
        requires
            i < self.robots@.len(),
        ensures
            b == is_secondary_spec(self.robots@, i as int),
    {
        if !(self.robots[i].robot_type == RobotType::Miner) {
            return false;
        }
        let mut j: usize = 0;
        while j < i
            invariant
                i < self.robots@.len(),
                j <= i,
                self.robots@[i as int].robot_type == RobotType::Miner,
                forall|p: int| 0 <= p < j ==> (#[trigger] self.robots@[p]).robot_type != RobotType::Miner,
            decreases i - j,
        {
            if self.robots[j].robot_type == RobotType::Miner {
                return true;
            }
            j += 1;
        }
        false
    }
}

/// The tick relation: `post` is `pre` with the effect of one tick of
/// agent i, using wander direction `dir`, applied atomically.
pub open spec fn ticked(pre: World, post: World, i: int, dir: int) -> bool {
    let eff = tick_spec(
        pre.robots@[i],
        pre.grid,
        pre.claims@,
        pre.logs@,
        is_secondary_spec(pre.robots@, i),
        dir,
    );
    &&& post.robots@ == pre.robots@.update(i, eff.robot)
    &&& post.grid.data@ == eff.cells
    &&& post.grid.width == pre.grid.width
    &&& post.grid.height == pre.grid.height
    &&& post.grid.base_x == pre.grid.base_x
    &&& post.grid.base_y == pre.grid.base_y
    &&& post.claims@ == eff.claims
    &&& post.logs@ == eff.logs
}

impl World {
    /// One tick of agent i with the given wander direction: decide,
    /// mutate, all under exclusive ownership of the world.
    pub fn tick_with(&mut self, i: usize, dir: u8)
        requires
            old(self).wf(),
            i < old(self).robots@.len(),
            dir < 4,
        ensures
            final(self).wf(),
            ticked(*old(self), *final(self), i as int, dir as int),
            final(self).robots@.len() == old(self).robots@.len(),
    {
        let secondary = self.is_secondary(i);
        let mut r = self.robots[i];
        r.perform_task(&mut self.grid, &mut self.claims, &mut self.logs, secondary, dir);
        self.robots.set(i, r);
        proof {
            lemma_tick_effect(
                old(self).robots@[i as int],
                old(self).grid,
                old(self).claims@,
                old(self).logs@,
                secondary,
                dir as int,
            );
            assert forall|k: int| 0 <= k < self.robots@.len() implies (#[trigger] self.robots@[k]).wf(
                self.grid,
            ) by {
                if k != i {
                    assert(self.robots@[k] == old(self).robots@[k]);
                    assert(old(self).robots@[k].wf(old(self).grid));
                }
            }
        }
    }
}

/// An immutable deep copy of the grid and the agent list, taken at the
/// end of a tick and handed to the presentation layer.
pub struct WorldSnapshot {
    pub grid: WorldGrid,
    pub robots: Vec<Robot>,
}

/// Relies on rand::thread_rng and rand::Rng::gen_range: the draw lies
/// below 4; which value comes back depends on the thread-local generator.
#[verifier::external_body]
fn random_direction() -> (d: u8)
    ensures
        d < 4,
{
    rand::Rng::gen_range(&mut rand::thread_rng(), 0..4u8)
}

impl World {
    /// One tick of agent i with a freshly drawn wander direction: the
    /// effect is that of `tick_with` for some direction below 4,
    /// whichever the generator returned.
    pub fn tick(&mut self, i: usize)
        requires
            old(self).wf(),
            i < old(self).robots@.len(),
        ensures
            final(self).wf(),
            final(self).robots@.len() == old(self).robots@.len(),
            exists|d: int| 0 <= d < 4 && #[trigger] ticked(*old(self), *final(self), i as int, d),
    {
        let dir = random_direction();
        self.tick_with(i, dir);
        proof {
            assert(ticked(*old(self), *self, i as int, dir as int));
        }
    }

    /// A deep copy of grid and agent list. Its agent count equals the
    /// roster size: no snapshot ever misses or duplicates an agent.
    pub fn snapshot(&self) -> (s: WorldSnapshot)
        ensures
            s.grid.same_layout(self.grid),
            s.robots@ == self.robots@,
            s.robots@.len() == self.robots@.len(),
    {
        let mut robots: Vec<Robot> = Vec::new();
        let n = self.robots.len();
        let mut k: usize = 0;
        while k < n
            invariant
                n == self.robots@.len(),
                k <= n,
                robots@ =~= self.robots@.take(k as int),
            decreases n - k,
        {
            robots.push(self.robots[k]);
            k += 1;
        }
        proof {
            assert(robots@ =~= self.robots@);
        }
        WorldSnapshot { grid: self.grid.clone_map(), robots }
    }
}

/// What one tick does to a valid world, stated over the tick effect: the
/// agent stays in bounds with a bounded inventory, cells change only by
/// depletion, and the registry stays duplicate-free, in bounds and
/// resource-backed.
pub proof fn lemma_tick_effect(
    r: Robot,
    g: WorldGrid,
    claims: Seq<(usize, usize)>,
    logs: Seq<crate::logbuf::LogEvent>,
    secondary: bool,
    dir: int,
)
    requires
        g.wf(),
        r.wf(g),
        0 <= dir < 4,
        forall|i: int, j: int| 0 <= i < j < claims.len() ==> claims[i] != claims[j],
        claims_in_bounds(claims, g),
        claims_backed(claims, g.data@, g.width as int),
        logs.len() <= crate::MAX_LOGS,
    ensures
        ({
            let eff = tick_spec(r, g, claims, logs, secondary, dir);
            &&& eff.robot.wf(g)
            &&& eff.robot.id == r.id
            &&& eff.robot.robot_type == r.robot_type
            &&& eff.cells.len() == g.data@.len()
            &&& forall|k: int|
                0 <= k < g.data@.len() ==> (#[trigger] eff.cells[k] == g.data@[k] || (
                g.data@[k].is_resource() && eff.cells[k] == Terrain::Empty))
            &&& eff.cells[g.idx(g.base_x as int, g.base_y as int)] == Terrain::Base
            &&& forall|i: int, j: int| 0 <= i < j < eff.claims.len() ==> eff.claims[i] != eff.claims[j]
            &&& claims_in_bounds(eff.claims, g)
            &&& claims_backed(eff.claims, eff.cells, g.width as int)
            &&& eff.logs.len() <= crate::MAX_LOGS
        }),
{
    let eff = tick_spec(r, g, claims, logs, secondary, dir);
    crate::grid::lemma_row_major_index(
        g.base_x as int,
        g.base_y as int,
        g.width as int,
        g.height as int,
    );
    match r.robot_type {
        RobotType::Explorer => {
            lemma_report_keeps_claims_ok(claims, (r.x, r.y), g);
        },
        RobotType::Miner => {
            lemma_miner_tick_effect(r, g, claims, logs, secondary, dir);
        },
    }
}

/// Law: after any tick, every agent's position lies within grid bounds
/// and never on an obstacle cell.
pub proof fn lemma_positions_safe(pre: World, post: World, i: int, dir: int)
    requires
        pre.wf(),
        pre.robots_on_passable(),
        0 <= i < pre.robots@.len(),
        0 <= dir < 4,
        ticked(pre, post, i, dir),
    ensures
        forall|k: int|
            0 <= k < post.robots@.len() ==> {
                let r = #[trigger] post.robots@[k];
                &&& r.x < post.grid.width
                &&& r.y < post.grid.height
                &&& post.grid.cell(r.x as int, r.y as int).spec_passable()
            },
        post.robots_on_passable(),
{
    lemma_tick_effect(
        pre.robots@[i],
        pre.grid,
        pre.claims@,
        pre.logs@,
        is_secondary_spec(pre.robots@, i),
        dir,
    );
    let g = pre.grid;
    let r = pre.robots@[i];
    let eff = tick_spec(r, g, pre.claims@, pre.logs@, is_secondary_spec(pre.robots@, i), dir);
    assert(r.wf(g) && g.cell(r.x as int, r.y as int).spec_passable());
    assert(g.cell(eff.robot.x as int, eff.robot.y as int).spec_passable());
    assert forall|k: int| 0 <= k < post.robots@.len() implies {
        let rb = #[trigger] post.robots@[k];
        &&& rb.x < post.grid.width
        &&& rb.y < post.grid.height
        &&& post.grid.cell(rb.x as int, rb.y as int).spec_passable()
    } by {
        let rb = post.robots@[k];
        if k == i {
            assert(rb == eff.robot);
        } else {
            assert(rb == pre.robots@[k]);
            assert(rb.wf(g));
            assert(g.cell(rb.x as int, rb.y as int).spec_passable());
        }
        crate::grid::lemma_row_major_index(
            rb.x as int,
            rb.y as int,
            g.width as int,
            g.height as int,
        );
        assert(post.grid.data@[rb.y * g.width + rb.x] == g.data@[rb.y * g.width + rb.x]
            || post.grid.data@[rb.y * g.width + rb.x] == Terrain::Empty);
    }
}

/// Law: inventories stay within [0, MAX_INVENTORY] across every tick,
/// and a tick that clears a nonzero inventory is exactly a deposit: the
/// agent held a full inventory and now stands at the base.
pub proof fn lemma_inventory_law(pre: World, post: World, i: int, dir: int)
    requires
        pre.wf(),
        0 <= i < pre.robots@.len(),
        0 <= dir < 4,
        ticked(pre, post, i, dir),
    ensures
        forall|k: int|
            0 <= k < post.robots@.len() ==> (#[trigger] post.robots@[k]).inventory
                <= MAX_INVENTORY,
        (post.robots@[i].inventory == 0 && pre.robots@[i].inventory != 0) ==> (pre.robots@[
            i].inventory == MAX_INVENTORY && post.robots@[i].x == pre.grid.base_x && post.robots@[
            i].y == pre.grid.base_y),
{
    lemma_tick_effect(
        pre.robots@[i],
        pre.grid,
        pre.claims@,
        pre.logs@,
        is_secondary_spec(pre.robots@, i),
        dir,
    );
    assert forall|k: int| 0 <= k < post.robots@.len() implies (#[trigger] post.robots@[
        k]).inventory <= MAX_INVENTORY by {
        if k != i {
            assert(post.robots@[k] == pre.robots@[k]);
            assert(pre.robots@[k].wf(pre.grid));
        }
    }
}

/// Law: a depleted coordinate is never re-credited. Cells never return
/// to holding a resource, and a tick increments an inventory only by
/// collecting a coordinate whose cell held a resource before the tick,
/// is empty after it, and whose claim is released in the same tick.
pub proof fn lemma_no_recredit(pre: World, post: World, i: int, dir: int)
    requires
        pre.wf(),
        0 <= i < pre.robots@.len(),
        0 <= dir < 4,
        ticked(pre, post, i, dir),
    ensures
        forall|k: int|
            0 <= k < pre.grid.data@.len() && pre.grid.data@[k] == Terrain::Empty
                ==> #[trigger] post.grid.data@[k] == Terrain::Empty,
        post.robots@[i].inventory > pre.robots@[i].inventory ==> exists|c: (usize, usize)|
            {
                &&& c.0 < pre.grid.width
                &&& c.1 < pre.grid.height
                &&& #[trigger] pre.grid.cell(c.0 as int, c.1 as int).is_resource()
                &&& post.grid.data@[pre.grid.idx(c.0 as int, c.1 as int)] == Terrain::Empty
                &&& !post.claims@.contains(c)
                &&& post.robots@[i].inventory == pre.robots@[i].inventory + 1
            },
{
    let g = pre.grid;
    let r = pre.robots@[i];
    let secondary = is_secondary_spec(pre.robots@, i);
    let eff = tick_spec(r, g, pre.claims@, pre.logs@, secondary, dir);
    lemma_tick_effect(r, g, pre.claims@, pre.logs@, secondary, dir);
    if eff.robot.inventory > r.inventory {
        assert(r.robot_type == RobotType::Miner);
        assert(r.inventory < MAX_INVENTORY);
        let r1 = if secondary {
            Robot { paused: false, ..r }
        } else {
            r
        };
        let acq = crate::agent::acquired_target(r1, pre.claims@, secondary);
        let r2 = match acq {
            Some(t) => Robot { target: Some(t), ..r1 },
            None => r1,
        };
        let t = r2.target->Some_0;
        assert(t.0 < g.width && t.1 < g.height);
        lemma_release_keeps_claims_ok(pre.claims@, t, g);
        assert(g.cell(t.0 as int, t.1 as int).is_resource());
        crate::grid::lemma_row_major_index(t.0 as int, t.1 as int, g.width as int, g.height as int);
        assert(post.grid.data@[g.idx(t.0 as int, t.1 as int)] == Terrain::Empty);
        assert(!post.claims@.contains(t));
        assert(post.robots@[i].inventory == pre.robots@[i].inventory + 1);
    }
}

/// Law: no tick changes the roster size, so together with `snapshot`'s
/// contract every published snapshot carries exactly one entry per
/// configured agent.
pub proof fn lemma_roster_size_preserved(pre: World, post: World, i: int, dir: int)
    requires
        0 <= i < pre.robots@.len(),
        ticked(pre, post, i, dir),
    ensures
        post.robots@.len() == pre.robots@.len(),
{
}

/// Law: on a tick where a miner acquires a target, the primary takes the
/// earliest outstanding claim and the secondary the second-earliest, in
/// discovery order.
pub proof fn lemma_assignment_policy(pre: World, post: World, i: int, dir: int)
    requires
        pre.wf(),
        0 <= i < pre.robots@.len(),
        0 <= dir < 4,
        ticked(pre, post, i, dir),
        pre.robots@[i].robot_type == RobotType::Miner,
        pre.robots@[i].target is None,
        post.robots@[i].target is Some,
    ensures
        !is_secondary_spec(pre.robots@, i) ==> pre.claims@.len() >= 1 && post.robots@[i].target
            == Some(pre.claims@[0]),
        is_secondary_spec(pre.robots@, i) ==> pre.claims@.len() >= 2 && post.robots@[i].target
            == Some(pre.claims@[1]),
{
    lemma_tick_effect(
        pre.robots@[i],
        pre.grid,
        pre.claims@,
        pre.logs@,
        is_secondary_spec(pre.robots@, i),
        dir,
    );
}

/// Law: on a tick where a miner holding no target has enough outstanding
/// claims to acquire one, it acquires the earliest outstanding claim if
/// it is the primary and the second-earliest if it is the secondary, in
/// discovery order. After the tick it either still holds that target, or
/// it already arrived on it within the same tick — its position is the
/// acquired coordinate, the target is cleared again and the claim is
/// released.
pub proof fn lemma_acquisition_outcome(pre: World, post: World, i: int, dir: int)
    requires
        pre.wf(),
        0 <= i < pre.robots@.len(),
        0 <= dir < 4,
        ticked(pre, post, i, dir),
        pre.robots@[i].robot_type == RobotType::Miner,
        pre.robots@[i].target is None,
        pre.robots@[i].inventory < MAX_INVENTORY,
        is_secondary_spec(pre.robots@, i) ==> pre.claims@.len() >= 2,
        !is_secondary_spec(pre.robots@, i) ==> pre.claims@.len() >= 1,
    ensures
        ({
            let t = if is_secondary_spec(pre.robots@, i) {
                pre.claims@[1]
            } else {
                pre.claims@[0]
            };
            ||| post.robots@[i].target == Some(t)
            ||| {
                &&& post.robots@[i].target is None
                &&& post.robots@[i].x == t.0
                &&& post.robots@[i].y == t.1
                &&& !post.claims@.contains(t)
            }
        }),
{
    let g = pre.grid;
    let r = pre.robots@[i];
    let secondary = is_secondary_spec(pre.robots@, i);
    lemma_tick_effect(r, g, pre.claims@, pre.logs@, secondary, dir);
    let t = if secondary {
        pre.claims@[1]
    } else {
        pre.claims@[0]
    };
    assert(t.0 < g.width && t.1 < g.height);
    let r1 = if secondary {
        Robot { paused: false, ..r }
    } else {
        r
    };
    let r2 = Robot { target: Some(t), ..r1 };
    let r3 = crate::agent::move_towards_spec(r2, t, g, dir);
    if r3.x == t.0 && r3.y == t.1 {
        lemma_release_keeps_claims_ok(pre.claims@, t, g);
    }
}

/// Reporting the coordinate underfoot preserves the registry invariants,
/// because an explorer reports only when standing on a resource cell.
proof fn lemma_report_keeps_claims_ok(claims: Seq<(usize, usize)>, c: (usize, usize), g: WorldGrid)
    requires
        g.wf(),
        forall|i: int, j: int| 0 <= i < j < claims.len() ==> claims[i] != claims[j],
        claims_in_bounds(claims, g),
        claims_backed(claims, g.data@, g.width as int),
        c.0 < g.width,
        c.1 < g.height,
    ensures
        ({
            let s2 = crate::claims::reported(claims, c);
            g.cell(c.0 as int, c.1 as int).is_resource() ==> {
                &&& forall|i: int, j: int| 0 <= i < j < s2.len() ==> s2[i] != s2[j]
                &&& claims_in_bounds(s2, g)
                &&& claims_backed(s2, g.data@, g.width as int)
            }
        }),
{
    let s2 = crate::claims::reported(claims, c);
    if g.cell(c.0 as int, c.1 as int).is_resource() && !claims.contains(c) {
        assert forall|i: int, j: int| 0 <= i < j < s2.len() implies s2[i] != s2[j] by {
            if j == s2.len() - 1 {
                assert(s2[i] == claims[i]);
                assert(!claims.contains(c));
                assert(claims[i] != c);
            }
        }
    }
}

/// The miner branch of `lemma_tick_effect`.
proof fn lemma_miner_tick_effect(
    r: Robot,
    g: WorldGrid,
    claims: Seq<(usize, usize)>,
    logs: Seq<crate::logbuf::LogEvent>,
    secondary: bool,
    dir: int,
)
    requires
        r.robot_type == RobotType::Miner,
        g.wf(),
        r.wf(g),
        0 <= dir < 4,
        forall|i: int, j: int| 0 <= i < j < claims.len() ==> claims[i] != claims[j],
        claims_in_bounds(claims, g),
        claims_backed(claims, g.data@, g.width as int),
        logs.len() <= crate::MAX_LOGS,
    ensures
        ({
            let eff = tick_spec(r, g, claims, logs, secondary, dir);
            &&& eff.robot.wf(g)
            &&& eff.robot.id == r.id
            &&& eff.robot.robot_type == r.robot_type
            &&& eff.cells.len() == g.data@.len()
            &&& forall|k: int|
                0 <= k < g.data@.len() ==> (#[trigger] eff.cells[k] == g.data@[k] || (
                g.data@[k].is_resource() && eff.cells[k] == Terrain::Empty))
            &&& eff.cells[g.idx(g.base_x as int, g.base_y as int)] == Terrain::Base
            &&& forall|i: int, j: int| 0 <= i < j < eff.claims.len() ==> eff.claims[i] != eff.claims[j]
            &&& claims_in_bounds(eff.claims, g)
            &&& claims_backed(eff.claims, eff.cells, g.width as int)
            &&& eff.logs.len() <= crate::MAX_LOGS
        }),
{
    let eff = tick_spec(r, g, claims, logs, secondary, dir);
    crate::grid::lemma_row_major_index(
        g.base_x as int,
        g.base_y as int,
        g.width as int,
        g.height as int,
    );
    if r.inventory < MAX_INVENTORY {
        if secondary && claims.len() < 2 && r.target is None {
        } else {
            let r1 = if secondary {
                Robot { paused: false, ..r }
            } else {
                r
            };
            let acq = crate::agent::acquired_target(r1, claims, secondary);
            let r2 = match acq {
                Some(t) => Robot { target: Some(t), ..r1 },
                None => r1,
            };
            match r2.target {
                Some(t) => {
                    let r3 = crate::agent::move_towards_spec(r2, t, g, dir);
                    assert(t.0 < g.width && t.1 < g.height);
                    if r3.x == t.0 && r3.y == t.1 {
                        lemma_release_keeps_claims_ok(claims, t, g);
                        crate::grid::lemma_row_major_index(
                            t.0 as int,
                            t.1 as int,
                            g.width as int,
                            g.height as int,
                        );
                        if g.cell(t.0 as int, t.1 as int).is_resource() {
                            crate::grid::lemma_row_major_distinct(
                                t.0 as int,
                                t.1 as int,
                                g.base_x as int,
                                g.base_y as int,
                                g.width as int,
                            );
                        }
                    }
                },
                None => {},
            }
        }
    }
}

/// Removing a collected coordinate, together with depleting its cell,
/// preserves the registry invariants: the remaining coordinates are all
/// distinct from the collected one, so their cells are untouched.
proof fn lemma_release_keeps_claims_ok(claims: Seq<(usize, usize)>, t: (usize, usize), g: WorldGrid)
    requires
        g.wf(),
        forall|i: int, j: int| 0 <= i < j < claims.len() ==> claims[i] != claims[j],
        claims_in_bounds(claims, g),
        claims_backed(claims, g.data@, g.width as int),
        t.0 < g.width,
        t.1 < g.height,
    ensures
        ({
            let s2 = crate::claims::remove_coord(claims, t);
            let cells2 = g.data@.update(g.idx(t.0 as int, t.1 as int), Terrain::Empty);
            &&& forall|i: int, j: int| 0 <= i < j < s2.len() ==> s2[i] != s2[j]
            &&& claims_in_bounds(s2, g)
            &&& claims_backed(s2, g.data@, g.width as int)
            &&& claims_backed(s2, cells2, g.width as int)
            &&& !s2.contains(t)
        }),
{
    let s2 = crate::claims::remove_coord(claims, t);
    let cells2 = g.data@.update(g.idx(t.0 as int, t.1 as int), Terrain::Empty);
    let f = crate::claims::find_index(claims, t);
    crate::claims::lemma_find_index_in_range(claims, t);
    crate::grid::lemma_row_major_index(t.0 as int, t.1 as int, g.width as int, g.height as int);
    if f < 0 {
        assert(s2 == claims);
        assert(!s2.contains(t));
        assert forall|k: int| 0 <= k < s2.len() implies cells2[(#[trigger] s2[k]).1 * g.width
            + s2[k].0].is_resource() by {
            assert(s2[k] != t);
            crate::grid::lemma_row_major_index(
                s2[k].0 as int,
                s2[k].1 as int,
                g.width as int,
                g.height as int,
            );
            crate::grid::lemma_row_major_distinct(
                s2[k].0 as int,
                s2[k].1 as int,
                t.0 as int,
                t.1 as int,
                g.width as int,
            );
        }
    } else {
        claims.remove_ensures(f);
        assert forall|i: int, j: int| 0 <= i < j < s2.len() implies s2[i] != s2[j] by {
            if j < f {
                assert(s2[i] == claims[i] && s2[j] == claims[j]);
            } else if i < f {
                assert(s2[i] == claims[i] && s2[j] == claims[j + 1]);
            } else {
                assert(s2[i] == claims[i + 1] && s2[j] == claims[j + 1]);
            }
        }
        assert forall|k: int| 0 <= k < s2.len() implies ((#[trigger] s2[k]).0 < g.width && s2[k].1
            < g.height && s2[k] != t) by {
            if k < f {
                assert(s2[k] == claims[k]);
                crate::claims::lemma_find_index_first(claims, t, k);
            } else {
                assert(s2[k] == claims[k + 1]);
                assert(claims[f] == t);
                assert(claims[f] != claims[k + 1]);
            }
        }
        assert(!s2.contains(t));
        assert forall|k: int| 0 <= k < s2.len() implies cells2[(#[trigger] s2[k]).1 * g.width
            + s2[k].0].is_resource() by {
            assert(s2[k] != t);
            if k < f {
                assert(s2[k] == claims[k]);
            } else {
                assert(s2[k] == claims[k + 1]);
            }
            crate::grid::lemma_row_major_index(
                s2[k].0 as int,
                s2[k].1 as int,
                g.width as int,
                g.height as int,
            );
            crate::grid::lemma_row_major_distinct(
                s2[k].0 as int,
                s2[k].1 as int,
                t.0 as int,
                t.1 as int,
                g.width as int,
            );
        }
    }
}

} // verus!
