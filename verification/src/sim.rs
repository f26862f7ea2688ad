//! The placement controller and the tick simulator.
//!
//! Each tick runs in two phases.  The movement-decision phase walks the live
//! instances in order; each instance scans the ordered neighbor offsets of its
//! movement class and takes the first candidate cell that is inside the grid
//! and either empty or occupied by a strictly less dense particle.  Taking an
//! occupied cell destroys the displaced occupant, which keeps every live
//! instance consistent with the grid store.  The commit phase then copies each
//! instance's pending location onto its resolved location.

use vstd::prelude::*;
use crate::grid::{Grid, grid_write, grid_shape, in_bounds};
use crate::mapper::{map_axis, mouse_to_grid, MAX_COORD, MAX_STEP, MAX_EXTENT};
use crate::particle::{
    GridPos, Particle, ParticleData, ParticleList, ParticleLocations, ParticleType,
};

verus! {

/// The game state resource: configuration and the selection cursor.  The
/// grid extents are in cells, the cell size in the mapper's sub-pixel units.
pub struct GameState {
    pub game_paused: bool,
    pub game_step: bool,
    pub brush_size: usize,
    pub grid_height: usize,
    pub grid_width: usize,
    pub grid_step: i64,
    pub selected_particle: usize,
}

impl GameState {
    /// The configuration is within the ranges the mapper accepts.
    pub open spec fn wf(&self) -> bool {
        &&& 1 <= self.grid_width <= MAX_EXTENT
        &&& 1 <= self.grid_height <= MAX_EXTENT
        &&& 1 <= self.grid_step <= MAX_STEP
        &&& 1 <= self.brush_size
    }

    /// The state the simulation starts in: running, brush of one cell, and
    /// the third catalog entry selected.
    pub fn new(grid_width: usize, grid_height: usize, grid_step: i64) -> (gs: GameState)
        requires
            1 <= grid_width <= MAX_EXTENT,
            1 <= grid_height <= MAX_EXTENT,
            1 <= grid_step <= MAX_STEP,
        ensures
            gs.wf(),
            gs.grid_width == grid_width,
            gs.grid_height == grid_height,
            gs.grid_step == grid_step,
            gs.brush_size == 1,
            gs.selected_particle == 2,
            !gs.game_paused,
            !gs.game_step,
    {
        GameState {
            game_paused: false,
            game_step: false,
            brush_size: 1,
            grid_height,
            grid_width,
            grid_step,
            selected_particle: 2,
        }
    }
}

// ------------------------------------------------------------------
// The movement rules.
// ------------------------------------------------------------------

/// The ordered neighbor offsets of a movement class, highest priority first.
/// Solids fall; liquids fall, then spread; gases are the mirror of liquids.
pub open spec fn offsets(t: ParticleType) -> Seq<(int, int)> {
    match t {
        ParticleType::Solid => seq![(0int, -1int), (-1int, -1int), (1int, -1int)],
        ParticleType::Liquid => seq![
            (0int, -1int),
            (-1int, -1int),
            (1int, -1int),
            (-1int, 0int),
            (1int, 0int),
        ],
        ParticleType::Gas => seq![
            (0int, 1int),
            (-1int, 1int),
            (1int, 1int),
            (-1int, 0int),
            (1int, 0int),
        ],
    }
}

/// The density rule: a cell is a legal destination for a mover of density
/// `density` iff it is empty or its occupant is strictly less dense.
pub open spec fn legal_target(cell: u64, density: u64) -> bool {
    cell == 0 || cell < density
}

/// First-match-wins scan: the first offset whose candidate cell is inside
/// the grid and a legal destination, or `None` when every offset fails.
pub open spec fn pick_move(
    g: Seq<Seq<u64>>, w: int, h: int, x: int, y: int, offs: Seq<(int, int)>, density: u64,
) -> Option<(int, int)>
    decreases offs.len(),
{
    if offs.len() == 0 {
        None
    } else {
        let cx = x + offs[0].0;
        let cy = y + offs[0].1;
        if in_bounds(w, h, cx, cy) && legal_target(g[cx][cy], density) {
            Some((cx, cy))
        } else {
            pick_move(g, w, h, x, y, offs.drop_first(), density)
        }
    }
}

// ------------------------------------------------------------------
// The tick, as a mathematical model.
// ------------------------------------------------------------------

/// A snapshot of the whole simulation state: the grid model and the
/// instance list.
pub struct SimSnapshot {
    pub grid: Seq<Seq<u64>>,
    pub parts: Seq<Particle>,
}

/// Destroy every live instance whose pending location is `(cx, cy)`: the
/// fate of a displaced occupant.
pub open spec fn destroy_at(parts: Seq<Particle>, cx: int, cy: int) -> Seq<Particle> {
    parts.map(
        |j: int, p: Particle|
            if p.alive && p.locations.new_location.x == cx && p.locations.new_location.y == cy {
                Particle { data: p.data, locations: p.locations, alive: false }
            } else {
                p
            },
    )
}

/// The movement decision and its grid effect for the instance at index `i`:
/// on the first legal destination, write the mover's density there, clear the
/// source cell, destroy a displaced occupant, and record the new pending
/// location; otherwise leave the state untouched.
pub open spec fn step_particle(s: SimSnapshot, w: int, h: int, i: int) -> SimSnapshot {
    let p = s.parts[i];
    if !p.alive {
        s
    } else {
        let x = p.locations.new_location.x as int;
        let y = p.locations.new_location.y as int;
        match pick_move(s.grid, w, h, x, y, offsets(p.data.particle_type), p.data.density) {
            None => s,
            Some(c) => {
                let g1 = grid_write(s.grid, c.0, c.1, p.data.density);
                let g2 = grid_write(g1, x, y, 0);
                let moved = Particle {
                    data: p.data,
                    locations: ParticleLocations {
                        old_location: p.locations.old_location,
                        new_location: GridPos { x: c.0 as usize, y: c.1 as usize },
                    },
                    alive: p.alive,
                };
                SimSnapshot { grid: g2, parts: destroy_at(s.parts, c.0, c.1).update(i, moved) }
            },
        }
    }
}

/// The movement-decision phase over the first `n` instances, in order.
pub open spec fn run_calc(s: SimSnapshot, w: int, h: int, n: int) -> SimSnapshot
    decreases n,
{
    if n <= 0 {
        s
    } else {
        step_particle(run_calc(s, w, h, n - 1), w, h, n - 1)
    }
}

/// The commit phase: every instance's resolved location becomes its pending
/// location.
pub open spec fn commit_locations(parts: Seq<Particle>) -> Seq<Particle> {
    parts.map(
        |j: int, p: Particle| Particle {
            data: p.data,
            locations: ParticleLocations {
                old_location: p.locations.new_location,
                new_location: p.locations.new_location,
            },
            alive: p.alive,
        },
    )
}

/// Between ticks every instance's resolved and pending locations agree.
pub open spec fn settled(parts: Seq<Particle>) -> bool {
    forall|i: int|
        0 <= i < parts.len() ==> (#[trigger] parts[i]).locations.old_location
            == parts[i].locations.new_location
}

/// The occupancy invariant: every live instance sits inside the grid, the
/// grid holds exactly its density at its pending location, and no two live
/// instances share a location.
pub open spec fn occupancy_ok(g: Seq<Seq<u64>>, w: int, h: int, parts: Seq<Particle>) -> bool {
    &&& forall|i: int|
        0 <= i < parts.len() && (#[trigger] parts[i]).alive ==> {
            let loc = parts[i].locations.new_location;
            &&& in_bounds(w, h, loc.x as int, loc.y as int)
            &&& parts[i].data.density > 0
            &&& g[loc.x as int][loc.y as int] == parts[i].data.density
        }
    &&& forall|i: int, j: int|
        0 <= i < j < parts.len() && (#[trigger] parts[i]).alive && (#[trigger] parts[j]).alive
            ==> parts[i].locations.new_location != parts[j].locations.new_location
}

// ------------------------------------------------------------------
// Laws of the movement rules.
// ------------------------------------------------------------------

/// What a successful scan means: the chosen cell is inside the grid, is a
/// legal destination, and is the candidate of one of the scanned offsets.
pub proof fn lemma_pick_move_some(
    g: Seq<Seq<u64>>, w: int, h: int, x: int, y: int, offs: Seq<(int, int)>, d: u64, c: (int, int),
)
    requires
        pick_move(g, w, h, x, y, offs, d) == Some(c),
    ensures
        in_bounds(w, h, c.0, c.1),
        legal_target(g[c.0][c.1], d),
        exists|k: int|
            0 <= k < offs.len() && c.0 == x + (#[trigger] offs[k]).0 && c.1 == y + offs[k].1,
    decreases offs.len(),
{
    let cx = x + offs[0].0;
    let cy = y + offs[0].1;
    if in_bounds(w, h, cx, cy) && legal_target(g[cx][cy], d) {
        assert(0 <= 0 < offs.len() && c.0 == x + offs[0].0 && c.1 == y + offs[0].1);
    } else {
        let rest = offs.drop_first();
        lemma_pick_move_some(g, w, h, x, y, rest, d, c);
        let k0 = choose|k: int|
            0 <= k < rest.len() && c.0 == x + (#[trigger] rest[k]).0 && c.1 == y + rest[k].1;
        assert(rest[k0] == offs[k0 + 1]);
        assert(0 <= k0 + 1 < offs.len() && c.0 == x + offs[k0 + 1].0 && c.1 == y + offs[k0 + 1].1);
    }
}

/// When every offset's candidate is outside the grid or an illegal
/// destination, the scan finds nothing.
pub proof fn lemma_pick_move_none(
    g: Seq<Seq<u64>>, w: int, h: int, x: int, y: int, offs: Seq<(int, int)>, d: u64,
)
    requires
        forall|k: int|
            0 <= k < offs.len() ==> {
                let cx = x + (#[trigger] offs[k]).0;
                let cy = y + offs[k].1;
                !(in_bounds(w, h, cx, cy) && legal_target(g[cx][cy], d))
            },
    ensures
        pick_move(g, w, h, x, y, offs, d) is None,
    decreases offs.len(),
{
    if offs.len() > 0 {
        let rest = offs.drop_first();
        assert forall|k: int| 0 <= k < rest.len() implies {
            let cx = x + (#[trigger] rest[k]).0;
            let cy = y + rest[k].1;
            !(in_bounds(w, h, cx, cy) && legal_target(g[cx][cy], d))
        } by {
            assert(rest[k] == offs[k + 1]);
        }
        lemma_pick_move_none(g, w, h, x, y, rest, d);
    }
}

/// No movement class ever lists the zero offset, so a move always leaves
/// its source cell.
proof fn lemma_offsets_nonzero(t: ParticleType)
    ensures
        forall|k: int|
            0 <= k < offsets(t).len()
                ==> !((#[trigger] offsets(t)[k]).0 == 0 && offsets(t)[k].1 == 0),
{
    let s = offsets(t);
    assert forall|k: int|
        0 <= k < s.len() implies !((#[trigger] s[k]).0 == 0 && s[k].1 == 0) by {
        if k == 0 {
            assert(!(s[0].0 == 0 && s[0].1 == 0));
        } else if k == 1 {
            assert(!(s[1].0 == 0 && s[1].1 == 0));
        } else if k == 2 {
            assert(!(s[2].0 == 0 && s[2].1 == 0));
        } else if k == 3 {
            assert(!(s[3].0 == 0 && s[3].1 == 0));
        } else {
            assert(!(s[4].0 == 0 && s[4].1 == 0));
        }
    }
}

/// The movement decision preserves the occupancy invariant: after any one
/// instance is stepped, every live instance still matches the grid and no
/// two live instances share a cell.
pub proof fn lemma_step_preserves_occupancy(s: SimSnapshot, w: int, h: int, i: int)
    requires
        w <= usize::MAX,
        h <= usize::MAX,
        grid_shape(s.grid, w, h),
        occupancy_ok(s.grid, w, h, s.parts),
        0 <= i < s.parts.len(),
    ensures
        ({
            let s2 = step_particle(s, w, h, i);
            &&& grid_shape(s2.grid, w, h)
            &&& s2.parts.len() == s.parts.len()
            &&& occupancy_ok(s2.grid, w, h, s2.parts)
        }),
{
    let p = s.parts[i];
    if p.alive {
        let x = p.locations.new_location.x as int;
        let y = p.locations.new_location.y as int;
        let ty = p.data.particle_type;
        let d = p.data.density;
        match pick_move(s.grid, w, h, x, y, offsets(ty), d) {
            None => {},
            Some(c) => {
                lemma_pick_move_some(s.grid, w, h, x, y, offsets(ty), d, c);
                lemma_offsets_nonzero(ty);
                let k0 = choose|k: int|
                    0 <= k < offsets(ty).len() && c.0 == x + (#[trigger] offsets(ty)[k]).0
                        && c.1 == y + offsets(ty)[k].1;
                assert(c.0 != x || c.1 != y);
                let g1 = grid_write(s.grid, c.0, c.1, d);
                let g2 = grid_write(g1, x, y, 0u64);
                let killed = destroy_at(s.parts, c.0, c.1);
                let s2 = step_particle(s, w, h, i);
                assert(grid_shape(g2, w, h)) by {
                    assert forall|a: int| 0 <= a < w implies (#[trigger] g2[a]).len() == h by {}
                }
                assert forall|a: int|
                    0 <= a < s2.parts.len() && (#[trigger] s2.parts[a]).alive implies {
                    let loc = s2.parts[a].locations.new_location;
                    &&& in_bounds(w, h, loc.x as int, loc.y as int)
                    &&& s2.parts[a].data.density > 0
                    &&& g2[loc.x as int][loc.y as int] == s2.parts[a].data.density
                } by {
                    if a == i {
                        assert(g2[c.0][c.1] == d);
                    } else {
                        assert(s.parts[a].alive);
                        let loc = s.parts[a].locations.new_location;
                        if a < i {
                            assert(s.parts[a].locations.new_location
                                != s.parts[i].locations.new_location);
                        } else {
                            assert(s.parts[i].locations.new_location
                                != s.parts[a].locations.new_location);
                        }
                        assert(loc.x as int != c.0 || loc.y as int != c.1);
                        assert(g2[loc.x as int][loc.y as int] == s.grid[loc.x as int][loc.y as int]);
                    }
                }
                assert forall|a: int, b: int|
                    0 <= a < b < s2.parts.len() && (#[trigger] s2.parts[a]).alive
                        && (#[trigger] s2.parts[b]).alive implies s2.parts[a].locations.new_location
                        != s2.parts[b].locations.new_location by {
                    if a == i {
                        assert(s.parts[b].alive);
                        assert(!(s.parts[b].locations.new_location.x == c.0
                            && s.parts[b].locations.new_location.y == c.1));
                    } else if b == i {
                        assert(s.parts[a].alive);
                        assert(!(s.parts[a].locations.new_location.x == c.0
                            && s.parts[a].locations.new_location.y == c.1));
                    } else {
                        assert(s.parts[a].alive && s.parts[b].alive);
                    }
                }
            },
        }
    }
}

/// The whole movement-decision phase preserves the occupancy invariant.
pub proof fn lemma_run_calc_preserves_occupancy(s: SimSnapshot, w: int, h: int, n: int)
    requires
        w <= usize::MAX,
        h <= usize::MAX,
        grid_shape(s.grid, w, h),
        occupancy_ok(s.grid, w, h, s.parts),
        0 <= n <= s.parts.len(),
    ensures
        ({
            let s2 = run_calc(s, w, h, n);
            &&& grid_shape(s2.grid, w, h)
            &&& s2.parts.len() == s.parts.len()
            &&& occupancy_ok(s2.grid, w, h, s2.parts)
        }),
    decreases n,
{
    if n > 0 {
        lemma_run_calc_preserves_occupancy(s, w, h, n - 1);
        lemma_step_preserves_occupancy(run_calc(s, w, h, n - 1), w, h, n - 1);
    }
}

/// The commit phase touches no grid cell, no density and no pending
/// location, so it preserves the occupancy invariant; afterwards every
/// instance is settled.
pub proof fn lemma_commit_preserves_occupancy(
    g: Seq<Seq<u64>>, w: int, h: int, parts: Seq<Particle>,
)
    requires
        occupancy_ok(g, w, h, parts),
    ensures
        occupancy_ok(g, w, h, commit_locations(parts)),
        settled(commit_locations(parts)),
        commit_locations(parts).len() == parts.len(),
{
    let cp = commit_locations(parts);
    assert forall|i: int| 0 <= i < cp.len() && (#[trigger] cp[i]).alive implies {
        let loc = cp[i].locations.new_location;
        &&& in_bounds(w, h, loc.x as int, loc.y as int)
        &&& cp[i].data.density > 0
        &&& g[loc.x as int][loc.y as int] == cp[i].data.density
    } by {
        assert(parts[i].alive);
    }
    assert forall|i: int, j: int|
        0 <= i < j < cp.len() && (#[trigger] cp[i]).alive && (#[trigger] cp[j]).alive
        implies cp[i].locations.new_location != cp[j].locations.new_location by {
        assert(parts[i].alive && parts[j].alive);
    }
}

// ------------------------------------------------------------------
// The tick, executed.
// ------------------------------------------------------------------

/// How many offsets the movement class of `t` tries.
fn offset_count(t: ParticleType) -> (n: usize)
    ensures
        n == offsets(t).len(),
{
    match t {
        ParticleType::Solid => 3,
        ParticleType::Liquid => 5,
        ParticleType::Gas => 5,
    }
}

/// The `k`-th offset of the movement class of `t`.
fn offset_at(t: ParticleType, k: usize) -> (o: (i8, i8))
    requires
        k < offsets(t).len(),
    ensures
        o.0 as int == offsets(t)[k as int].0,
        o.1 as int == offsets(t)[k as int].1,
        -1 <= o.0 <= 1,
        -1 <= o.1 <= 1,
{
    match t {
        ParticleType::Solid => {
            if k == 0 {
                (0, -1)
            } else if k == 1 {
                (-1, -1)
            } else {
                (1, -1)
            }
        },
        ParticleType::Liquid => {
            if k == 0 {
                (0, -1)
            } else if k == 1 {
                (-1, -1)
            } else if k == 2 {
                (1, -1)
            } else if k == 3 {
                (-1, 0)
            } else {
                (1, 0)
            }
        },
        ParticleType::Gas => {
            if k == 0 {
                (0, 1)
            } else if k == 1 {
                (-1, 1)
            } else if k == 2 {
                (1, 1)
            } else if k == 3 {
                (-1, 0)
            } else {
                (1, 0)
            }
        },
    }
}

/// Apply a unit offset to an in-bounds cell; `None` when the candidate
/// falls outside the `w x h` grid.
fn apply_offset(x: usize, y: usize, dx: i8, dy: i8, w: usize, h: usize) -> (c: Option<
    (usize, usize),
>)
    requires
        x < w,
        y < h,
        -1 <= dx <= 1,
        -1 <= dy <= 1,
    ensures
        match c {
            Some(cc) => in_bounds(w as int, h as int, x + dx, y + dy) && cc.0 == x + dx && cc.1
                == y + dy,
            None => !in_bounds(w as int, h as int, x + dx, y + dy),
        },
{
    let cx: usize = if dx < 0 {
        if x == 0 {
            return None;
        }
        x - 1
    } else if dx > 0 {
        x + 1
    } else {
        x
    };
    let cy: usize = if dy < 0 {
        if y == 0 {
            return None;
        }
        y - 1
    } else if dy > 0 {
        y + 1
    } else {
        y
    };
    if cx < w && cy < h {
        Some((cx, cy))
    } else {
        None
    }
}

/// The movement-decision phase: advance every instance by at most one cell,
/// in instance order, exactly as the model [`run_calc`] describes, and keep
/// the occupancy invariant.
pub fn calc_next_system(grid: &mut Grid, particles: &mut Vec<Particle>)
    requires
        old(grid).wf(),
        occupancy_ok(
            old(grid)@,
            old(grid).width as int,
            old(grid).height as int,
            old(particles)@,
        ),
    ensures
        final(grid).wf(),
        final(grid).width == old(grid).width,
        final(grid).height == old(grid).height,
        ({
            let end = run_calc(
                SimSnapshot { grid: old(grid)@, parts: old(particles)@ },
                old(grid).width as int,
                old(grid).height as int,
                old(particles)@.len() as int,
            );
            &&& final(grid)@ == end.grid
            &&& final(particles)@ == end.parts
        }),
        occupancy_ok(
            final(grid)@,
            old(grid).width as int,
            old(grid).height as int,
            final(particles)@,
        ),
{
    let w = grid.width;
    let h = grid.height;
    let ghost s0 = SimSnapshot { grid: grid@, parts: particles@ };
    let n = particles.len();
    let mut i: usize = 0;
    while i < n
        invariant
            i <= n,
            w == grid.width,
            h == grid.height,
            grid.wf(),
            particles@.len() == n,
            s0.parts.len() == n,
            grid_shape(s0.grid, w as int, h as int),
            occupancy_ok(s0.grid, w as int, h as int, s0.parts),
            grid@ == run_calc(s0, w as int, h as int, i as int).grid,
            particles@ == run_calc(s0, w as int, h as int, i as int).parts,
            occupancy_ok(grid@, w as int, h as int, particles@),
        decreases n - i,
    {
        let ghost pre = SimSnapshot { grid: grid@, parts: particles@ };
        let p = particles[i];
        if p.alive {
            let x = p.locations.new_location.x;
            let y = p.locations.new_location.y;
            let ty = p.data.particle_type;
            let d = p.data.density;
            let cnt = offset_count(ty);
            let mut k: usize = 0;
            let mut moved = false;
            proof {
                assert(offsets(ty).skip(0) =~= offsets(ty));
            }
            while k < cnt && !moved
                invariant
                    k <= cnt,
                    cnt == offsets(ty).len(),
                    w == grid.width,
                    h == grid.height,
                    grid.wf(),
                    particles@.len() == n,
                    i < n,
                    pre.parts.len() == n,
                    p == pre.parts[i as int],
                    p.alive,
                    x == p.locations.new_location.x,
                    y == p.locations.new_location.y,
                    ty == p.data.particle_type,
                    d == p.data.density,
                    x < w,
                    y < h,
                    grid_shape(pre.grid, w as int, h as int),
                    occupancy_ok(pre.grid, w as int, h as int, pre.parts),
                    !moved ==> grid@ == pre.grid && particles@ == pre.parts,
                    !moved ==> pick_move(
                        pre.grid,
                        w as int,
                        h as int,
                        x as int,
                        y as int,
                        offsets(ty),
                        d,
                    ) == pick_move(
                        pre.grid,
                        w as int,
                        h as int,
                        x as int,
                        y as int,
                        offsets(ty).skip(k as int),
                        d,
                    ),
                    moved ==> ({
                        let s2 = step_particle(pre, w as int, h as int, i as int);
                        grid@ == s2.grid && particles@ == s2.parts
                    }),
                decreases cnt - k + (if moved { 0int } else { 1int }),
            {
                let (dx, dy) = offset_at(ty, k);
                let ghost offs_k = offsets(ty).skip(k as int);
                proof {
                    assert(offs_k[0] == offsets(ty)[k as int]);
                    assert(offs_k.drop_first() =~= offsets(ty).skip(k as int + 1));
                }
                match apply_offset(x, y, dx, dy, w, h) {
                    Some(c) => {
                        let nb = grid.get(c.0, c.1);
                        if nb == 0 || nb < d {
                            // A legal destination: the scan stops here.
                            proof {
                                assert(pick_move(
                                    pre.grid,
                                    w as int,
                                    h as int,
                                    x as int,
                                    y as int,
                                    offs_k,
                                    d,
                                ) == Some((c.0 as int, c.1 as int)));
                            }
                            // Destroy a displaced occupant, if any.
                            let mut j: usize = 0;
                            while j < n
                                invariant
                                    j <= n,
                                    particles@.len() == n,
                                    pre.parts.len() == n,
                                    grid@ == pre.grid,
                                    w == grid.width,
                                    h == grid.height,
                                    grid.wf(),
                                    forall|m: int|
                                        0 <= m < j ==> particles@[m] == destroy_at(
                                            pre.parts,
                                            c.0 as int,
                                            c.1 as int,
                                        )[m],
                                    forall|m: int| j <= m < n ==> particles@[m] == pre.parts[m],
                                decreases n - j,
                            {
                                let q = particles[j];
                                if q.alive && q.locations.new_location.x == c.0
                                    && q.locations.new_location.y == c.1 {
                                    let killed = Particle {
                                        data: q.data,
                                        locations: q.locations,
                                        alive: false,
                                    };
                                    particles.set(j, killed);
                                }
                                j = j + 1;
                            }
                            proof {
                                assert(particles@ =~= destroy_at(
                                    pre.parts,
                                    c.0 as int,
                                    c.1 as int,
                                ));
                            }
                            grid.set(c.0, c.1, d);
                            grid.set(x, y, 0);
                            let moved_p = Particle {
                                data: p.data,
                                locations: ParticleLocations {
                                    old_location: p.locations.old_location,
                                    new_location: GridPos { x: c.0, y: c.1 },
                                },
                                alive: p.alive,
                            };
                            particles.set(i, moved_p);
                            moved = true;
                        } else {
                            k = k + 1;
                        }
                    },
                    None => {
                        k = k + 1;
                    },
                }
            }
            proof {
                if !moved {
                    assert(offsets(ty).skip(cnt as int).len() == 0);
                    assert(pick_move(
                        pre.grid,
                        w as int,
                        h as int,
                        x as int,
                        y as int,
                        offsets(ty),
                        d,
                    ) is None);
                }
                lemma_step_preserves_occupancy(pre, w as int, h as int, i as int);
            }
        }
        i = i + 1;
    }
}

/// The commit phase: copy every instance's pending location onto its
/// resolved location, exactly as [`commit_locations`] describes.
pub fn move_next_system(particles: &mut Vec<Particle>)
    ensures
        final(particles)@ == commit_locations(old(particles)@),
        settled(final(particles)@),
{
    let n = particles.len();
    let ghost parts0 = particles@;
    let mut j: usize = 0;
    while j < n
        invariant
            j <= n,
            particles@.len() == n,
            parts0.len() == n,
            forall|m: int| 0 <= m < j ==> particles@[m] == commit_locations(parts0)[m],
            forall|m: int| j <= m < n ==> particles@[m] == parts0[m],
        decreases n - j,
    {
        let q = particles[j];
        let committed = Particle {
            data: q.data,
            locations: ParticleLocations {
                old_location: q.locations.new_location,
                new_location: q.locations.new_location,
            },
            alive: q.alive,
        };
        particles.set(j, committed);
        j = j + 1;
    }
    proof {
        assert(particles@ =~= commit_locations(parts0));
    }
}

/// One full tick: the movement-decision phase over every instance, then the
/// commit phase.  The occupancy invariant holds afterwards and every
/// instance is settled.
pub fn tick(grid: &mut Grid, particles: &mut Vec<Particle>)
    requires
        old(grid).wf(),
        occupancy_ok(
            old(grid)@,
            old(grid).width as int,
            old(grid).height as int,
            old(particles)@,
        ),
    ensures
        final(grid).wf(),
        final(grid).width == old(grid).width,
        final(grid).height == old(grid).height,
        ({
            let end = run_calc(
                SimSnapshot { grid: old(grid)@, parts: old(particles)@ },
                old(grid).width as int,
                old(grid).height as int,
                old(particles)@.len() as int,
            );
            &&& final(grid)@ == end.grid
            &&& final(particles)@ == commit_locations(end.parts)
        }),
        occupancy_ok(
            final(grid)@,
            old(grid).width as int,
            old(grid).height as int,
            final(particles)@,
        ),
        settled(final(particles)@),
{
    calc_next_system(grid, particles);
    let ghost w = grid.width as int;
    let ghost h = grid.height as int;
    proof {
        lemma_commit_preserves_occupancy(grid@, w, h, particles@);
    }
    move_next_system(particles);
}

// ------------------------------------------------------------------
// The placement controller.
// ------------------------------------------------------------------

/// The placement rule: when the target cell is empty, a new settled, live
/// instance of the given kind appears there and the cell takes its density;
/// when the cell is occupied, nothing changes.
pub open spec fn place_spec(s: SimSnapshot, data: ParticleData, x: int, y: int) -> SimSnapshot {
    if s.grid[x][y] == 0 {
        SimSnapshot {
            grid: grid_write(s.grid, x, y, data.density),
            parts: s.parts.push(
                Particle {
                    data,
                    locations: ParticleLocations {
                        old_location: GridPos { x: x as usize, y: y as usize },
                        new_location: GridPos { x: x as usize, y: y as usize },
                    },
                    alive: true,
                },
            ),
        }
    } else {
        s
    }
}

/// Placement preserves the occupancy invariant: the new instance takes an
/// empty cell, so it collides with no live instance.
pub proof fn lemma_place_preserves_occupancy(
    s: SimSnapshot, w: int, h: int, data: ParticleData, x: int, y: int,
)
    requires
        w <= usize::MAX,
        h <= usize::MAX,
        grid_shape(s.grid, w, h),
        occupancy_ok(s.grid, w, h, s.parts),
        in_bounds(w, h, x, y),
        data.wf(),
    ensures
        ({
            let s2 = place_spec(s, data, x, y);
            &&& grid_shape(s2.grid, w, h)
            &&& occupancy_ok(s2.grid, w, h, s2.parts)
        }),
{
    if s.grid[x][y] == 0 {
        let s2 = place_spec(s, data, x, y);
        assert(grid_shape(s2.grid, w, h)) by {
            assert forall|a: int| 0 <= a < w implies (#[trigger] s2.grid[a]).len() == h by {}
        }
        assert forall|a: int|
            0 <= a < s2.parts.len() && (#[trigger] s2.parts[a]).alive implies {
            let loc = s2.parts[a].locations.new_location;
            &&& in_bounds(w, h, loc.x as int, loc.y as int)
            &&& s2.parts[a].data.density > 0
            &&& s2.grid[loc.x as int][loc.y as int] == s2.parts[a].data.density
        } by {
            if a < s.parts.len() {
                assert(s.parts[a].alive);
                let loc = s.parts[a].locations.new_location;
                assert(loc.x as int != x || loc.y as int != y);
            }
        }
        assert forall|a: int, b: int|
            0 <= a < b < s2.parts.len() && (#[trigger] s2.parts[a]).alive
                && (#[trigger] s2.parts[b]).alive implies s2.parts[a].locations.new_location
            != s2.parts[b].locations.new_location by {
            if b == s.parts.len() {
                assert(s.parts[a].alive);
                let loc = s.parts[a].locations.new_location;
                assert(loc.x as int != x || loc.y as int != y);
            }
        }
    }
}

/// Place one particle of the given kind at an in-bounds cell, exactly as
/// [`place_spec`] describes.  Returns whether a new instance was created;
/// an occupied cell is a silent no-op.
pub fn place_particle(
    grid: &mut Grid, particles: &mut Vec<Particle>, data: ParticleData, x: usize, y: usize,
) -> (placed: bool)
    requires
        old(grid).wf(),
        x < old(grid).width,
        y < old(grid).height,
        data.wf(),
        occupancy_ok(
            old(grid)@,
            old(grid).width as int,
            old(grid).height as int,
            old(particles)@,
        ),
    ensures
        final(grid).wf(),
        final(grid).width == old(grid).width,
        final(grid).height == old(grid).height,
        placed == (old(grid)@[x as int][y as int] == 0),
        ({
            let s2 = place_spec(
                SimSnapshot { grid: old(grid)@, parts: old(particles)@ },
                data,
                x as int,
                y as int,
            );
            &&& final(grid)@ == s2.grid
            &&& final(particles)@ == s2.parts
        }),
        occupancy_ok(
            final(grid)@,
            old(grid).width as int,
            old(grid).height as int,
            final(particles)@,
        ),
{
    proof {
        lemma_place_preserves_occupancy(
            SimSnapshot { grid: grid@, parts: particles@ },
            grid.width as int,
            grid.height as int,
            data,
            x as int,
            y as int,
        );
    }
    let cur = grid.get(x, y);
    if cur == 0 {
        grid.set(x, y, data.density);
        particles.push(
            Particle {
                data,
                locations: ParticleLocations {
                    old_location: GridPos { x, y },
                    new_location: GridPos { x, y },
                },
                alive: true,
            },
        );
        true
    } else {
        false
    }
}

/// The paint event handler: map the pointer position to a grid cell and, if
/// the paint trigger is pressed, attempt `brush_size` placements of the
/// selected kind on that cell.  Each attempt repeats the same occupancy
/// check, so only the first can have an effect: the result is exactly one
/// placement attempt, as [`place_spec`] describes.  A missing pointer
/// (outside the window or unavailable) is a neutral no-op, not an error.
pub fn mouse_click_system(
    pressed: bool,
    cursor: Option<(i64, i64)>,
    game_state: &GameState,
    particle_list: &ParticleList,
    grid: &mut Grid,
    particles: &mut Vec<Particle>,
)
    requires
        game_state.wf(),
        particle_list.wf(),
        game_state.selected_particle < particle_list.0@.len(),
        old(grid).wf(),
        old(grid).width == game_state.grid_width,
        old(grid).height == game_state.grid_height,
        cursor matches Some(c) ==> -MAX_COORD <= c.0 <= MAX_COORD && -MAX_COORD <= c.1
            <= MAX_COORD,
        occupancy_ok(
            old(grid)@,
            old(grid).width as int,
            old(grid).height as int,
            old(particles)@,
        ),
    ensures
        final(grid).wf(),
        final(grid).width == old(grid).width,
        final(grid).height == old(grid).height,
        !(pressed && cursor is Some) ==> final(grid)@ == old(grid)@ && final(particles)@
            == old(particles)@,
        pressed && cursor is Some ==> ({
            let c = cursor->0;
            let cell_x = map_axis(
                c.0 as int,
                game_state.grid_step as int,
                game_state.grid_width as int,
            );
            let cell_y = map_axis(
                c.1 as int,
                game_state.grid_step as int,
                game_state.grid_height as int,
            );
            let s2 = place_spec(
                SimSnapshot { grid: old(grid)@, parts: old(particles)@ },
                particle_list.0@[game_state.selected_particle as int],
                cell_x,
                cell_y,
            );
            &&& final(grid)@ == s2.grid
            &&& final(particles)@ == s2.parts
        }),
        occupancy_ok(
            final(grid)@,
            old(grid).width as int,
            old(grid).height as int,
            final(particles)@,
        ),
{
    if !pressed {
        return ;
    }
    let (cursor_x, cursor_y) = match cursor {
        Some(c) => c,
        None => {
            return ;
        },
    };
    let data = particle_list.0[game_state.selected_particle];
    let cell = mouse_to_grid(
        cursor_x,
        cursor_y,
        game_state.grid_step,
        game_state.grid_width,
        game_state.grid_height,
    );
    let ghost s0 = SimSnapshot { grid: grid@, parts: particles@ };
    let ghost s1 = place_spec(s0, data, cell.0 as int, cell.1 as int);
    let w = grid.width;
    let h = grid.height;
    let mut b: usize = 0;
    while b < game_state.brush_size
        invariant
            b <= game_state.brush_size,
            w == grid.width,
            h == grid.height,
            grid.wf(),
            cell.0 < w,
            cell.1 < h,
            data.wf(),
            grid_shape(s0.grid, w as int, h as int),
            s1 == place_spec(s0, data, cell.0 as int, cell.1 as int),
            occupancy_ok(grid@, w as int, h as int, particles@),
            b == 0 ==> grid@ == s0.grid && particles@ == s0.parts,
            b >= 1 ==> grid@ == s1.grid && particles@ == s1.parts,
        decreases game_state.brush_size - b,
    {
        place_particle(grid, particles, data, cell.0, cell.1);
        proof {
            if b == 0 {
                assert(grid@ == s1.grid && particles@ == s1.parts);
            } else {
                // The cell is occupied after the first attempt, so this
                // attempt was a no-op.
                assert(s1.grid[cell.0 as int][cell.1 as int] != 0);
                assert(grid@ == s1.grid && particles@ == s1.parts);
            }
        }
        b = b + 1;
    }
}

// ------------------------------------------------------------------
// Laws of placement and movement.
// ------------------------------------------------------------------

/// Round trip: placing a particle on an empty in-bounds cell and reading
/// the state back yields the same kind and density — the grid holds the
/// kind's density at that cell, and the new instance is live and settled
/// there.
pub proof fn lemma_place_round_trip(
    s: SimSnapshot, w: int, h: int, data: ParticleData, x: int, y: int,
)
    requires
        w <= usize::MAX,
        h <= usize::MAX,
        grid_shape(s.grid, w, h),
        in_bounds(w, h, x, y),
        s.grid[x][y] == 0,
    ensures
        ({
            let s2 = place_spec(s, data, x, y);
            &&& s2.grid[x][y] == data.density
            &&& s2.parts.len() == s.parts.len() + 1
            &&& s2.parts.last().data == data
            &&& s2.parts.last().locations.new_location == (GridPos {
                x: x as usize,
                y: y as usize,
            })
            &&& s2.parts.last().locations.old_location == (GridPos {
                x: x as usize,
                y: y as usize,
            })
            &&& s2.parts.last().alive
        }),
{
}

/// The induction base of the occupancy invariant: a state with no instances
/// satisfies it whatever the grid holds, so a simulation started from an
/// empty instance list keeps the invariant through any sequence of
/// placements and ticks, by the clauses of the placement and tick contracts.
pub proof fn lemma_empty_state_occupancy(g: Seq<Seq<u64>>, w: int, h: int)
    ensures
        occupancy_ok(g, w, h, Seq::<Particle>::empty()),
{
}

/// The density rule in both directions: a strictly lighter occupant can be
/// displaced; an equal-or-denser occupant cannot.
pub proof fn lemma_density_rule(cell: u64, density: u64)
    ensures
        0 < cell < density ==> legal_target(cell, density),
        cell != 0 && cell >= density ==> !legal_target(cell, density),
{
}

/// Movement priority: straight-down is the first offset a solid tries, so
/// whenever the cell below is a legal destination — in particular when it
/// and both diagonals are all empty — the solid moves straight down, not
/// diagonally.
pub proof fn lemma_solid_prefers_straight_down(
    g: Seq<Seq<u64>>, w: int, h: int, x: int, y: int, d: u64,
)
    requires
        in_bounds(w, h, x, y),
        y >= 1,
        legal_target(g[x][y - 1], d),
    ensures
        pick_move(g, w, h, x, y, offsets(ParticleType::Solid), d) == Some((x, y - 1)),
{
    assert(offsets(ParticleType::Solid)[0] == (0int, -1int));
}

/// Displacement: when an instance's scan settles on a cell — in particular
/// on one whose occupant is strictly less dense, which [`lemma_density_rule`]
/// makes a legal destination — the mover takes that cell: the grid holds the
/// mover's density there, the source cell is cleared, the mover's pending
/// location is the taken cell, and a displaced occupant is destroyed.
pub proof fn lemma_mover_takes_cell(s: SimSnapshot, w: int, h: int, i: int, c: (int, int))
    requires
        w <= usize::MAX,
        h <= usize::MAX,
        grid_shape(s.grid, w, h),
        occupancy_ok(s.grid, w, h, s.parts),
        0 <= i < s.parts.len(),
        s.parts[i].alive,
        pick_move(
            s.grid,
            w,
            h,
            s.parts[i].locations.new_location.x as int,
            s.parts[i].locations.new_location.y as int,
            offsets(s.parts[i].data.particle_type),
            s.parts[i].data.density,
        ) == Some(c),
    ensures
        ({
            let s2 = step_particle(s, w, h, i);
            &&& s2.grid[c.0][c.1] == s.parts[i].data.density
            &&& s2.grid[s.parts[i].locations.new_location.x as int][s.parts[i].locations.new_location.y as int]
                == 0
            &&& s2.parts[i].locations.new_location == (GridPos {
                x: c.0 as usize,
                y: c.1 as usize,
            })
            &&& forall|j: int|
                0 <= j < s.parts.len() && j != i && (#[trigger] s.parts[j]).alive
                    && s.parts[j].locations.new_location.x == c.0
                    && s.parts[j].locations.new_location.y == c.1 ==> !step_particle(
                    s,
                    w,
                    h,
                    i,
                ).parts[j].alive
        }),
{
    let p = s.parts[i];
    let x = p.locations.new_location.x as int;
    let y = p.locations.new_location.y as int;
    let ty = p.data.particle_type;
    let d = p.data.density;
    lemma_pick_move_some(s.grid, w, h, x, y, offsets(ty), d, c);
    lemma_offsets_nonzero(ty);
    let k0 = choose|k: int|
        0 <= k < offsets(ty).len() && c.0 == x + (#[trigger] offsets(ty)[k]).0 && c.1 == y
            + offsets(ty)[k].1;
    assert(c.0 != x || c.1 != y);
}

/// No-op on a blocked instance: when every offset's candidate is outside
/// the grid or occupied by an equal-or-denser particle, the instance does
/// not move — the state, and in particular its pending location, is
/// unchanged by its step.
pub proof fn lemma_blocked_particle_stays(s: SimSnapshot, w: int, h: int, i: int)
    requires
        0 <= i < s.parts.len(),
        s.parts[i].alive,
        forall|k: int|
            0 <= k < offsets(s.parts[i].data.particle_type).len() ==> {
                let cx = s.parts[i].locations.new_location.x + (#[trigger] offsets(
                    s.parts[i].data.particle_type,
                )[k]).0;
                let cy = s.parts[i].locations.new_location.y + offsets(
                    s.parts[i].data.particle_type,
                )[k].1;
                !(in_bounds(w, h, cx, cy) && legal_target(
                    s.grid[cx][cy],
                    s.parts[i].data.density,
                ))
            },
    ensures
        step_particle(s, w, h, i) == s,
{
    let p = s.parts[i];
    lemma_pick_move_none(
        s.grid,
        w,
        h,
        p.locations.new_location.x as int,
        p.locations.new_location.y as int,
        offsets(p.data.particle_type),
        p.data.density,
    );
}

} // verus!
