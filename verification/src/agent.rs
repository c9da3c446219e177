//! Agents: the per-agent record, movement on the torus grid, and the
//! per-tick decision function of each role.

use vstd::prelude::*;
use crate::MAX_INVENTORY;
use crate::grid::{Terrain, WorldGrid};
use crate::claims::{remove_coord, reported, ClaimRegistry};
use crate::logbuf::{logged, LogBuffer, LogEvent};

verus! {

/// An agent's role, fixed at creation.
#[derive(Clone, Copy, PartialEq, Eq, Structural, Debug)]
pub enum RobotType {
    Explorer,
    Miner,
}

/// Per-agent state. Everything but `id` and `robot_type` is mutated only
/// by this agent's own tick.
#[derive(Clone, Copy, Debug)]
pub struct Robot {
    pub id: usize,
    pub x: usize,
    pub y: usize,
    pub robot_type: RobotType,
    /// Collected resource units, in [0, MAX_INVENTORY].
    pub inventory: u32,
    /// The claimed coordinate this miner is heading to, if any.
    pub target: Option<(usize, usize)>,
    /// Whether the secondary miner is in its quota-wait state.
    pub paused: bool,
}

impl Robot {
    /// Validity against a grid: position and target in bounds, inventory
    /// within its bound.
    pub open spec fn wf(self, g: WorldGrid) -> bool {
        &&& self.x < g.width
        &&& self.y < g.height
        &&& self.inventory <= MAX_INVENTORY
        &&& match self.target {
            Some(t) => t.0 < g.width && t.1 < g.height,
            None => true,
        }
    }

    /// A fresh agent at (x, y) with empty inventory and no target.
    pub fn new(id: usize, x: usize, y: usize, robot_type: RobotType) -> (r: Robot)
        ensures
            r == (Robot {
                id,
                x,
                y,
                robot_type,
                inventory: 0u32,
                target: None::<(usize, usize)>,
                paused: false,
            }),
    {
        Robot { id, x, y, robot_type, inventory: 0, target: None, paused: false }
    }
}

/// The neighbour of (x, y) one step in direction `dir` (0 left, 1 right,
/// 2 up, 3 down), wrapping at the edges: torus topology.
pub open spec fn torus_step(x: int, y: int, dir: int, w: int, h: int) -> (int, int) {
    if dir == 0 {
        ((if x == 0 { w - 1 } else { x - 1 }), y)
    } else if dir == 1 {
        ((if x + 1 == w { 0 } else { x + 1 }), y)
    } else if dir == 2 {
        (x, (if y == 0 { h - 1 } else { y - 1 }))
    } else {
        (x, (if y + 1 == h { 0 } else { y + 1 }))
    }
}

/// One step from (x, y) toward (tx, ty), moving in x and in y
/// simultaneously when not yet aligned: diagonal steps allowed.
pub open spec fn toward_step(x: int, y: int, tx: int, ty: int) -> (int, int) {
    (
        (if x < tx { x + 1 } else if x > tx { x - 1 } else { x }),
        (if y < ty { y + 1 } else if y > ty { y - 1 } else { y }),
    )
}

/// The wander outcome: step to the chosen cardinal neighbour if it is
/// passable, else stay put for this tick (no alternate direction tried).
pub open spec fn random_move_spec(r: Robot, g: WorldGrid, dir: int) -> Robot {
    let p = torus_step(r.x as int, r.y as int, dir, g.width as int, g.height as int);
    if g.cell(p.0, p.1).spec_passable() {
        Robot { x: p.0 as usize, y: p.1 as usize, ..r }
    } else {
        r
    }
}

/// The directed-move outcome: the diagonal-permitting step toward the
/// target if that cell is passable, else one wander step instead.
pub open spec fn move_towards_spec(r: Robot, t: (usize, usize), g: WorldGrid, dir: int) -> Robot {
    let p = toward_step(r.x as int, r.y as int, t.0 as int, t.1 as int);
    if g.cell(p.0, p.1).spec_passable() {
        Robot { x: p.0 as usize, y: p.1 as usize, ..r }
    } else {
        random_move_spec(r, g, dir)
    }
}

/// Whether the agent at roster position i is the "secondary" miner of
/// the assignment policy: a miner preceded by another miner.
pub open spec fn is_secondary_spec(robots: Seq<Robot>, i: int) -> bool {
    robots[i].robot_type == RobotType::Miner && exists|j: int|
        0 <= j < i && (#[trigger] robots[j]).robot_type == RobotType::Miner
}

/// All registered coordinates lie inside the grid.
pub open spec fn claims_in_bounds(s: Seq<(usize, usize)>, g: WorldGrid) -> bool {
    forall|k: int|
        0 <= k < s.len() ==> ((#[trigger] s[k]).0 < g.width && s[k].1 < g.height)
}

/// The whole effect of one agent tick on the shared world state.
pub struct TickEffect {
    pub robot: Robot,
    pub cells: Seq<Terrain>,
    pub claims: Seq<(usize, usize)>,
    pub logs: Seq<LogEvent>,
}

/// The explorer tick: report the cell underfoot if it holds a resource
/// (idempotent; a log entry every time), then one wander step.
pub open spec fn explorer_tick_spec(
    r: Robot,
    g: WorldGrid,
    claims: Seq<(usize, usize)>,
    logs: Seq<LogEvent>,
    dir: int,
) -> TickEffect {
    let here = g.cell(r.x as int, r.y as int);
    let claims1 = if here.is_resource() {
        reported(claims, (r.x, r.y))
    } else {
        claims
    };
    let logs1 = if here.is_resource() {
        logged(logs, LogEvent::ResourceFound { x: r.x, y: r.y })
    } else {
        logs
    };
    TickEffect { robot: random_move_spec(r, g, dir), cells: g.data@, claims: claims1, logs: logs1 }
}

/// The quota-wait nudge: a secondary miner waiting at the base moves one
/// cell aside so it does not occlude the base. It steps only onto a
/// passable cell — the other side is tried next, and with neither side
/// passable it stays put.
pub open spec fn nudge_spec(r: Robot, g: WorldGrid) -> Robot {
    if r.x == g.base_x && r.y == g.base_y {
        if g.base_x + 1 < g.width && g.cell(
            g.base_x as int + 1,
            g.base_y as int,
        ).spec_passable() {
            Robot { x: (g.base_x + 1) as usize, ..r }
        } else if g.base_x > 0 && g.cell(
            g.base_x as int - 1,
            g.base_y as int,
        ).spec_passable() {
            Robot { x: (g.base_x - 1) as usize, ..r }
        } else {
            r
        }
    } else {
        r
    }
}

/// The target a miner acquires this tick, if any: the primary takes the
/// earliest outstanding claim, the secondary the second-earliest (it only
/// gets here once at least two are outstanding).
pub open spec fn acquired_target(
    r: Robot,
    claims: Seq<(usize, usize)>,
    secondary: bool,
) -> Option<(usize, usize)> {
    if r.target is Some {
        None
    } else if secondary {
        if claims.len() >= 2 {
            Some(claims[1])
        } else {
            None
        }
    } else {
        if claims.len() >= 1 {
            Some(claims[0])
        } else {
            None
        }
    }
}

/// The miner tick: quota-wait (secondary only), target acquisition,
/// directed movement, collection with atomic claim release, and returning
/// to the base to deposit a full inventory.
pub open spec fn miner_tick_spec(
    r: Robot,
    g: WorldGrid,
    claims: Seq<(usize, usize)>,
    logs: Seq<LogEvent>,
    secondary: bool,
    dir: int,
) -> TickEffect {
    if r.inventory < MAX_INVENTORY {
        if secondary && claims.len() < 2 && r.target is None {
            let r1 = nudge_spec(r, g);
            let r2 = if !r1.paused {
                Robot { paused: true, ..r1 }
            } else {
                r1
            };
            let logs1 = if !r1.paused {
                logged(logs, LogEvent::MinerWaiting { id: r.id })
            } else {
                logs
            };
            TickEffect { robot: r2, cells: g.data@, claims, logs: logs1 }
        } else {
            let r1 = if secondary {
                Robot { paused: false, ..r }
            } else {
                r
            };
            let acq = acquired_target(r1, claims, secondary);
            let r2 = match acq {
                Some(t) => Robot { target: Some(t), ..r1 },
                None => r1,
            };
            let logs1 = match acq {
                Some(t) => logged(logs, LogEvent::TargetClaimed { id: r.id, x: t.0, y: t.1 }),
                None => logs,
            };
            match r2.target {
                Some(t) => {
                    let r3 = move_towards_spec(r2, t, g, dir);
                    if r3.x == t.0 && r3.y == t.1 {
                        let hit = g.cell(t.0 as int, t.1 as int).is_resource();
                        let newinv = if hit {
                            (r3.inventory + 1) as u32
                        } else {
                            r3.inventory
                        };
                        let cells1 = if hit {
                            g.data@.update(g.idx(t.0 as int, t.1 as int), Terrain::Empty)
                        } else {
                            g.data@
                        };
                        let logs2 = if hit {
                            logged(logs1, LogEvent::ResourceCollected { id: r.id, inventory: newinv })
                        } else {
                            logs1
                        };
                        TickEffect {
                            robot: Robot { inventory: newinv, target: None, ..r3 },
                            cells: cells1,
                            claims: remove_coord(claims, t),
                            logs: logs2,
                        }
                    } else {
                        TickEffect { robot: r3, cells: g.data@, claims, logs: logs1 }
                    }
                },
                None => TickEffect {
                    robot: random_move_spec(r2, g, dir),
                    cells: g.data@,
                    claims,
                    logs: logs1,
                },
            }
        }
    } else {
        let r1 = move_towards_spec(r, (g.base_x, g.base_y), g, dir);
        if r1.x == g.base_x && r1.y == g.base_y {
            TickEffect {
                robot: Robot { inventory: 0u32, ..r1 },
                cells: g.data@,
                claims,
                logs: logged(logs, LogEvent::InventoryDeposited { id: r.id, amount: r1.inventory }),
            }
        } else {
            TickEffect { robot: r1, cells: g.data@, claims, logs }
        }
    }
}

/// One full tick of an agent, by role.
pub open spec fn tick_spec(
    r: Robot,
    g: WorldGrid,
    claims: Seq<(usize, usize)>,
    logs: Seq<LogEvent>,
    secondary: bool,
    dir: int,
) -> TickEffect {
    match r.robot_type {
        RobotType::Explorer => explorer_tick_spec(r, g, claims, logs, dir),
        RobotType::Miner => miner_tick_spec(r, g, claims, logs, secondary, dir),
    }
}

/// The torus neighbour, computed without wraparound arithmetic overflow.
fn torus_step_at(x: usize, y: usize, dir: u8, w: usize, h: usize) -> (p: (usize, usize))
    requires
        dir < 4,
        x < w,
        y < h,
    ensures
        p.0 as int == torus_step(x as int, y as int, dir as int, w as int, h as int).0,
        p.1 as int == torus_step(x as int, y as int, dir as int, w as int, h as int).1,
        p.0 < w,
        p.1 < h,
{
    if dir == 0 {
        (if x == 0 { w - 1 } else { x - 1 }, y)
    } else if dir == 1 {
        (if x + 1 == w { 0 } else { x + 1 }, y)
    } else if dir == 2 {
        (x, if y == 0 { h - 1 } else { y - 1 })
    } else {
        (x, if y + 1 == h { 0 } else { y + 1 })
    }
}

impl Robot {
    /// One random wander step: to the chosen cardinal neighbour on the
    /// torus unless that cell is an obstacle, in which case the agent
    /// stays in place for this tick.
    pub fn move_randomly(&mut self, dir: u8, map: &WorldGrid)
        requires
            map.wf(),
            dir < 4,
            old(self).x < map.width,
            old(self).y < map.height,
        ensures
            *final(self) == random_move_spec(*old(self), *map, dir as int),
            final(self).x < map.width,
            final(self).y < map.height,
    {
        let p = torus_step_at(self.x, self.y, dir, map.width, map.height);
        if map.is_passable(p.0, p.1) {
            self.x = p.0;
            self.y = p.1;
        }
    }

    /// One tick of this agent: the role's decision function, applied to
    /// the shared world state. `dir` is the wander direction drawn for
    /// this tick; `secondary` designates the quota-waiting miner. The
    /// whole effect equals `tick_spec` of the pre-state.
    pub fn perform_task(
        &mut self,
        map: &mut WorldGrid,
        claims: &mut ClaimRegistry,
        logs: &mut LogBuffer,
        secondary: bool,
        dir: u8,
    )
        requires
            old(map).wf(),
            old(claims).wf(),
            old(logs).wf(),
            old(self).wf(*old(map)),
            claims_in_bounds(old(claims)@, *old(map)),
            dir < 4,
        ensures
            ({
                let eff = tick_spec(
                    *old(self),
                    *old(map),
                    old(claims)@,
                    old(logs)@,
                    secondary,
                    dir as int,
                );
                &&& *final(self) == eff.robot
                &&& final(map).data@ == eff.cells
                &&& final(claims)@ == eff.claims
                &&& final(logs)@ == eff.logs
            }),
            final(map).wf(),
            final(map).width == old(map).width,
            final(map).height == old(map).height,
            final(map).base_x == old(map).base_x,
            final(map).base_y == old(map).base_y,
            final(claims).wf(),
            final(logs).wf(),
    {
        match self.robot_type {
            RobotType::Explorer => {
                let here = map.cell_at(self.x, self.y);
                if here.holds_resource() {
                    claims.report(self.x, self.y);
                    logs.log_event(LogEvent::ResourceFound { x: self.x, y: self.y });
                }
                self.move_randomly(dir, map);
            },
            RobotType::Miner => {
                if self.inventory < MAX_INVENTORY {
                    if secondary && claims.size() < 2 && self.target.is_none() {
                        if self.x == map.base_x && self.y == map.base_y {
                            if map.base_x + 1 < map.width && map.is_passable(
                                map.base_x + 1,
                                map.base_y,
                            ) {
                                self.x = map.base_x + 1;
                            } else if map.base_x > 0 && map.is_passable(
                                map.base_x - 1,
                                map.base_y,
                            ) {
                                self.x = map.base_x - 1;
                            }
                        }
                        if !self.paused {
                            logs.log_event(LogEvent::MinerWaiting { id: self.id });
                            self.paused = true;
                        }
                        return ;
                    }
                    if secondary {
                        self.paused = false;
                    }
                    if self.target.is_none() {
                        if secondary {
                            if claims.size() >= 2 {
                                match claims.nth_unclaimed(1) {
                                    Some(t) => {
                                        self.target = Some(t);
                                        logs.log_event(
                                            LogEvent::TargetClaimed { id: self.id, x: t.0, y: t.1 },
                                        );
                                    },
                                    None => {},
                                }
                            }
                        } else {
                            match claims.nth_unclaimed(0) {
                                Some(t) => {
                                    self.target = Some(t);
                                    logs.log_event(
                                        LogEvent::TargetClaimed { id: self.id, x: t.0, y: t.1 },
                                    );
                                },
                                None => {},
                            }
                        }
                    }
                    match self.target {
                        Some(t) => {
                            self.move_towards(t, map, dir);
                            if self.x == t.0 && self.y == t.1 {
                                let arrived = map.cell_at(t.0, t.1);
                                if arrived.holds_resource() {
                                    map.deplete(t.0, t.1);
                                    self.inventory = self.inventory + 1;
                                    logs.log_event(
                                        LogEvent::ResourceCollected {
                                            id: self.id,
                                            inventory: self.inventory,
                                        },
                                    );
                                }
                                claims.release(t.0, t.1);
                                self.target = None;
                            }
                        },
                        None => {
                            self.move_randomly(dir, map);
                        },
                    }
                } else {
                    let base = (map.base_x, map.base_y);
                    self.move_towards(base, map, dir);
                    if self.x == map.base_x && self.y == map.base_y {
                        logs.log_event(
                            LogEvent::InventoryDeposited { id: self.id, amount: self.inventory },
                        );
                        self.inventory = 0;
                    }
                }
            },
        }
    }

    /// One directed step toward `target`, falling back to a wander step
    /// (direction `dir`) when the directed cell is an obstacle.
    pub fn move_towards(&mut self, target: (usize, usize), map: &WorldGrid, dir: u8)
        requires
            map.wf(),
            dir < 4,
            old(self).x < map.width,
            old(self).y < map.height,
            target.0 < map.width,
            target.1 < map.height,
        ensures
            *final(self) == move_towards_spec(*old(self), target, *map, dir as int),
            final(self).x < map.width,
            final(self).y < map.height,
    {
        let nx = if self.x < target.0 {
            self.x + 1
        } else if self.x > target.0 {
            self.x - 1
        } else {
            self.x
        };
        let ny = if self.y < target.1 {
            self.y + 1
        } else if self.y > target.1 {
            self.y - 1
        } else {
            self.y
        };
        if map.is_passable(nx, ny) {
            self.x = nx;
            self.y = ny;
        } else {
            self.move_randomly(dir, map);
        }
    }
}

} // verus!
