use vstd::prelude::*;
use crate::maze::{Maze, cells, in_grid, cell_of, wall_at, is_wall, cell_at};
use crate::player::{ONE, COORD_LIMIT};

verus! {

/// The farthest a ray marches, in world units; a ray that meets no wall
/// before it reports this distance.
pub const MAX_DISTANCE: u64 = 8192;

/// The symbol reported for a hit outside the grid.
pub const BOUNDARY: char = '#';

/// What a ray met: whether it hit, how far it went, the symbol of the cell hit
/// and the offset of the hit point along the wall face, in `[0, block_size)`,
/// which over `block_size` is the texture-column fraction.
#[derive(Clone, Copy, Debug, PartialEq, Eq, Structural)]
pub struct Intersect {
    pub hit: bool,
    pub distance: u64,
    pub impact: char,
    pub offset: u64,
}

/// A fine coordinate (world units times `ONE`) in world units, rounded down;
/// every negative value maps to `-1`, which lies outside the grid.
pub open spec fn fine_to_world(f: int) -> int {
    if f < 0 {
        -1
    } else {
        f / (ONE as int)
    }
}

/// One coordinate of the ray point at distance `t`: origin `o`, fixed-point direction `d`.
pub open spec fn ray_coord(o: int, d: int, t: int) -> int {
    fine_to_world(o * ONE + t * d)
}

/// The ray point at distance `t` lies in a wall.
pub open spec fn ray_blocked(
    g: Seq<Seq<char>>,
    bs: int,
    ox: int,
    oy: int,
    dx: int,
    dy: int,
    t: int,
) -> bool {
    wall_at(g, bs, ray_coord(ox, dx, t), ray_coord(oy, dy, t))
}

/// The first marching distance from `t` on at which the ray is blocked,
/// or `MAX_DISTANCE + 1` when there is none up to `MAX_DISTANCE`.
pub open spec fn first_wall(
    g: Seq<Seq<char>>,
    bs: int,
    ox: int,
    oy: int,
    dx: int,
    dy: int,
    t: int,
) -> int
    decreases MAX_DISTANCE + 1 - t,
{
    if t > MAX_DISTANCE || t < 0 {
        MAX_DISTANCE + 1
    } else if ray_blocked(g, bs, ox, oy, dx, dy, t) {
        t
    } else {
        first_wall(g, bs, ox, oy, dx, dy, t + 1)
    }
}

/// The symbol of the cell holding world point `(x, y)`, or `BOUNDARY` outside the grid.
pub open spec fn impact_at(g: Seq<Seq<char>>, bs: int, x: int, y: int) -> char {
    let i = cell_of(x, bs);
    let j = cell_of(y, bs);
    if in_grid(g, i, j) {
        g[j][i]
    } else {
        BOUNDARY
    }
}

/// Where along the wall face the point `(x, y)` lies: its offset within the
/// cell along x when that offset is clear of the cell's two edges (a face
/// running along x), else its offset along y.
pub open spec fn face_offset(bs: int, x: int, y: int) -> int {
    if x < 0 || y < 0 {
        0
    } else if 1 < x % bs && x % bs < bs - 1 {
        x % bs
    } else {
        y % bs
    }
}

/// The result of marching from `(ox, oy)` along `(dx, dy)`.
pub open spec fn cast_spec(g: Seq<Seq<char>>, bs: int, ox: int, oy: int, dx: int, dy: int) -> Intersect {
    let t = first_wall(g, bs, ox, oy, dx, dy, 0);
    if t > MAX_DISTANCE {
        Intersect { hit: false, distance: MAX_DISTANCE, impact: ' ', offset: 0 }
    } else {
        let x = ray_coord(ox, dx, t);
        let y = ray_coord(oy, dy, t);
        Intersect {
            hit: true,
            distance: t as u64,
            impact: impact_at(g, bs, x, y),
            offset: face_offset(bs, x, y) as u64,
        }
    }
}

/// The origin and direction a ray may be cast with.
pub open spec fn ray_in_range(ox: int, oy: int, dx: int, dy: int) -> bool {
    &&& -COORD_LIMIT <= ox <= COORD_LIMIT
    &&& -COORD_LIMIT <= oy <= COORD_LIMIT
    &&& -ONE <= dx <= ONE
    &&& -ONE <= dy <= ONE
}

fn ray_coord_exec(o: i64, d: i64, t: u64) -> (r: i64)
    requires
        -COORD_LIMIT <= o <= COORD_LIMIT,
        -ONE <= d <= ONE,
        t <= MAX_DISTANCE,
    ensures
        r == ray_coord(o as int, d as int, t as int),
{
    let ti = t as i64;
    proof {
        assert(-MAX_DISTANCE * ONE <= ti * d <= MAX_DISTANCE * ONE) by (nonlinear_arith)
            requires 0 <= ti <= MAX_DISTANCE, -ONE <= d <= ONE;
    }
    let f = o * ONE + ti * d;
    if f < 0 {
        -1
    } else {
        f / ONE
    }
}

/// Marches from `(ox, oy)` along the fixed-point unit direction `(dx, dy)` one
/// world unit at a time, up to `MAX_DISTANCE`, and reports the first point
/// that lies in a wall (outside the grid counts as wall).
pub fn cast_ray(maze: &Maze, block_size: usize, ox: i64, oy: i64, dx: i64, dy: i64) -> (r: Intersect)
    requires
        block_size > 0,
        ray_in_range(ox as int, oy as int, dx as int, dy as int),
        crate::player::is_unit(dx as int, dy as int),
    ensures
        r == cast_spec(cells(maze), block_size as int, ox as int, oy as int, dx as int, dy as int),
{
    let ghost g = cells(maze);
    let ghost bs = block_size as int;
    let mut t: u64 = 0;
    while t <= MAX_DISTANCE
        invariant
            block_size > 0,
            g == cells(maze),
            bs == block_size as int,
            ray_in_range(ox as int, oy as int, dx as int, dy as int),
            t <= MAX_DISTANCE + 1,
            first_wall(g, bs, ox as int, oy as int, dx as int, dy as int, 0) == first_wall(
                g,
                bs,
                ox as int,
                oy as int,
                dx as int,
                dy as int,
                t as int,
            ),
        decreases MAX_DISTANCE + 1 - t,
    {
        let x = ray_coord_exec(ox, dx, t);
        let y = ray_coord_exec(oy, dy, t);
        if is_wall(x, y, maze, block_size) {
            let impact = match cell_at(x, y, maze, block_size) {
                Some(c) => c,
                None => BOUNDARY,
            };
            let offset: u64 = if x < 0 || y < 0 {
                0
            } else {
                let hx = x as u64 % block_size as u64;
                if 1 < hx && hx + 1 < block_size as u64 {
                    hx
                } else {
                    y as u64 % block_size as u64
                }
            };
            return Intersect { hit: true, distance: t, impact, offset };
        }
        t = t + 1;
    }
    Intersect { hit: false, distance: MAX_DISTANCE, impact: ' ', offset: 0 }
}


proof fn first_wall_bounds(g: Seq<Seq<char>>, bs: int, ox: int, oy: int, dx: int, dy: int, t: int)
    requires
        0 <= t <= MAX_DISTANCE + 1,
    ensures
        t <= first_wall(g, bs, ox, oy, dx, dy, t) <= MAX_DISTANCE + 1,
        first_wall(g, bs, ox, oy, dx, dy, t) <= MAX_DISTANCE ==> ray_blocked(
            g,
            bs,
            ox,
            oy,
            dx,
            dy,
            first_wall(g, bs, ox, oy, dx, dy, t),
        ),
        forall|s: int|
            t <= s < first_wall(g, bs, ox, oy, dx, dy, t) ==> !#[trigger] ray_blocked(
                g,
                bs,
                ox,
                oy,
                dx,
                dy,
                s,
            ),
    decreases MAX_DISTANCE + 1 - t,
{
    if t <= MAX_DISTANCE && !ray_blocked(g, bs, ox, oy, dx, dy, t) {
        first_wall_bounds(g, bs, ox, oy, dx, dy, t + 1);
    }
}

proof fn first_wall_at_most(g: Seq<Seq<char>>, bs: int, ox: int, oy: int, dx: int, dy: int, t: int, s: int)
    requires
        0 <= s <= t <= MAX_DISTANCE,
        ray_blocked(g, bs, ox, oy, dx, dy, t),
    ensures
        first_wall(g, bs, ox, oy, dx, dy, s) <= t,
    decreases t - s,
{
    if s < t && !ray_blocked(g, bs, ox, oy, dx, dy, s) {
        first_wall_at_most(g, bs, ox, oy, dx, dy, t, s + 1);
    }
}

/// A cast reports a hit exactly when some point of the ray within
/// `MAX_DISTANCE` lies in a wall; a reported hit lies in a wall, every point
/// marched before it is open, and its texture-column offset is below
/// `block_size`.
pub proof fn cast_reports_first_wall(g: Seq<Seq<char>>, bs: int, ox: int, oy: int, dx: int, dy: int)
    requires
        bs > 0,
    ensures
        ({
            let r = cast_spec(g, bs, ox, oy, dx, dy);
            &&& r.hit <==> exists|t: int| 0 <= t <= MAX_DISTANCE && #[trigger] ray_blocked(g, bs, ox, oy, dx, dy, t)
            &&& r.hit ==> ray_blocked(g, bs, ox, oy, dx, dy, r.distance as int)
            &&& forall|t: int| 0 <= t < r.distance ==> !#[trigger] ray_blocked(g, bs, ox, oy, dx, dy, t)
            &&& r.distance <= MAX_DISTANCE
            &&& r.offset < bs
        }),
{
    first_wall_bounds(g, bs, ox, oy, dx, dy, 0);
    let t0 = first_wall(g, bs, ox, oy, dx, dy, 0);
    if exists|t: int| 0 <= t <= MAX_DISTANCE && #[trigger] ray_blocked(g, bs, ox, oy, dx, dy, t) {
        let t = choose|t: int| 0 <= t <= MAX_DISTANCE && #[trigger] ray_blocked(g, bs, ox, oy, dx, dy, t);
        first_wall_at_most(g, bs, ox, oy, dx, dy, t, 0);
    }
    if t0 <= MAX_DISTANCE {
        let x = ray_coord(ox, dx, t0);
        let y = ray_coord(oy, dy, t0);
        if x >= 0 && y >= 0 {
            assert(x % bs < bs && y % bs < bs);
        }
    }
}

/// A ray cast due east (direction `(ONE, 0)`) from an open stretch whose first
/// blocked point lies `d` units ahead reports a hit at distance `d`.
pub proof fn cast_east_hits_at_distance(g: Seq<Seq<char>>, bs: int, ox: int, oy: int, d: int)
    requires
        bs > 0,
        0 <= d <= MAX_DISTANCE,
        forall|e: int| 0 <= e < d ==> !#[trigger] wall_at(g, bs, ox + e, oy),
        wall_at(g, bs, ox + d, oy),
    ensures
        cast_spec(g, bs, ox, oy, ONE as int, 0).hit,
        cast_spec(g, bs, ox, oy, ONE as int, 0).distance == d,
        cast_spec(g, bs, ox, oy, ONE as int, 0).offset < bs,
{
    assert forall|t: int| 0 <= t <= d implies cell_of(ray_coord(ox, ONE as int, t), bs) == cell_of(ox + t, bs)
        && cell_of(ray_coord(oy, 0, t), bs) == cell_of(oy, bs) by {
        assert(ox * ONE + t * ONE == (ox + t) * ONE) by (nonlinear_arith);
        assert(oy * ONE + t * 0 == oy * ONE) by (nonlinear_arith);
        if ox + t < 0 {
            assert((ox + t) * ONE < 0) by (nonlinear_arith) requires ox + t < 0;
        } else {
            assert(((ox + t) * ONE) / (ONE as int) == ox + t) by (nonlinear_arith);
        }
        if oy < 0 {
            assert(oy * ONE < 0) by (nonlinear_arith) requires oy < 0;
        } else {
            assert((oy * ONE) / (ONE as int) == oy) by (nonlinear_arith);
        }
    }
    assert forall|t: int| 0 <= t <= d implies #[trigger] ray_blocked(g, bs, ox, oy, ONE as int, 0, t) == wall_at(g, bs, ox + t, oy) by {
        assert(cell_of(ray_coord(ox, ONE as int, t), bs) == cell_of(ox + t, bs));
        assert(cell_of(ray_coord(oy, 0, t), bs) == cell_of(oy, bs));
    }
    assert(ray_blocked(g, bs, ox, oy, ONE as int, 0, d));
    cast_reports_first_wall(g, bs, ox, oy, ONE as int, 0);
    first_wall_at_most(g, bs, ox, oy, ONE as int, 0, d, 0);
    let r = cast_spec(g, bs, ox, oy, ONE as int, 0);
    if r.distance < d {
        assert(!wall_at(g, bs, ox + r.distance, oy));
        assert(ray_blocked(g, bs, ox, oy, ONE as int, 0, r.distance as int));
    }
}


/// A 3 by 3 grid whose only open cell is the center one.
pub open spec fn is_closed_room(g: Seq<Seq<char>>) -> bool {
    &&& g.len() == 3
    &&& forall|j: int| 0 <= j < 3 ==> #[trigger] g[j].len() == 3
    &&& g[1][1] == ' '
    &&& forall|i: int, j: int|
        0 <= i < 3 && 0 <= j < 3 && !(i == 1 && j == 1) ==> #[trigger] g[j][i] != ' '
}

proof fn leaves_center(o: int, d: int, bs: int)
    requires
        bs > 0,
        o == bs + bs / 2,
        d >= ONE / 2 || d <= -(ONE / 2),
        -ONE <= d <= ONE,
    ensures
        cell_of(ray_coord(o, d, bs + 1), bs) != 1,
{
    let f = o * ONE + (bs + 1) * d;
    if d >= ONE / 2 {
        assert(f >= o * ONE + (bs + 1) * 512) by (nonlinear_arith)
            requires f == o * ONE + (bs + 1) * d, d >= 512, bs > 0;
        assert(o * ONE + (bs + 1) * 512 >= 2 * bs * ONE) by (nonlinear_arith)
            requires o == bs + bs / 2, bs > 0;
        assert(f / (ONE as int) >= 2 * bs) by (nonlinear_arith)
            requires f >= 2 * bs * ONE, bs > 0;
        assert((f / (ONE as int)) / bs >= 2) by (nonlinear_arith)
            requires f / (ONE as int) >= 2 * bs, bs > 0;
    } else {
        assert(f <= o * ONE - (bs + 1) * 512) by (nonlinear_arith)
            requires f == o * ONE + (bs + 1) * d, d <= -512, bs > 0;
        assert(o * ONE - (bs + 1) * 512 < bs * ONE) by (nonlinear_arith)
            requires o == bs + bs / 2, bs > 0;
        if f >= 0 {
            assert(f / (ONE as int) < bs) by (nonlinear_arith)
                requires f < bs * ONE, f >= 0, bs > 0;
            assert((f / (ONE as int)) / bs < 1) by (nonlinear_arith)
                requires f / (ONE as int) < bs, f / (ONE as int) >= 0, bs > 0;
        }
    }
}

/// In a closed 3 by 3 room, a ray from the center of the open cell in any
/// heading always hits, no farther than one cell width plus one marching step,
/// and every point marched before the hit lies in the open cell.
pub proof fn closed_room_always_hits(g: Seq<Seq<char>>, bs: int, dx: int, dy: int)
    requires
        is_closed_room(g),
        bs > 0,
        bs + 1 <= MAX_DISTANCE,
        crate::player::is_heading(dx, dy),
    ensures
        ({
            let o = bs + bs / 2;
            let r = cast_spec(g, bs, o, o, dx, dy);
            &&& r.hit
            &&& r.distance <= bs + 1
            &&& forall|t: int| 0 <= t < r.distance ==> {
                &&& cell_of(#[trigger] ray_coord(o, dx, t), bs) == 1
                &&& cell_of(ray_coord(o, dy, t), bs) == 1
            }
        }),
{
    let o = bs + bs / 2;
    assert(dx >= ONE / 2 || dx <= -(ONE / 2) || dy >= ONE / 2 || dy <= -(ONE / 2)) by (nonlinear_arith)
        requires 2 * (dx * dx + dy * dy) >= ONE * ONE;
    if dx >= ONE / 2 || dx <= -(ONE / 2) {
        leaves_center(o, dx, bs);
    } else {
        leaves_center(o, dy, bs);
    }
    let t = bs + 1;
    let i = cell_of(ray_coord(o, dx, t), bs);
    let j = cell_of(ray_coord(o, dy, t), bs);
    if in_grid(g, i, j) {
        assert(g[j][i] != ' ');
    }
    assert(ray_blocked(g, bs, o, o, dx, dy, t));
    first_wall_at_most(g, bs, o, o, dx, dy, t, 0);
    cast_reports_first_wall(g, bs, o, o, dx, dy);
    let r = cast_spec(g, bs, o, o, dx, dy);
    assert forall|t: int| 0 <= t < r.distance implies {
        &&& cell_of(#[trigger] ray_coord(o, dx, t), bs) == 1
        &&& cell_of(ray_coord(o, dy, t), bs) == 1
    } by {
        assert(!ray_blocked(g, bs, o, o, dx, dy, t));
        let i = cell_of(ray_coord(o, dx, t), bs);
        let j = cell_of(ray_coord(o, dy, t), bs);
        assert(in_grid(g, i, j));
        if !(i == 1 && j == 1) {
            assert(g[j][i] != ' ');
        }
    }
}

} // verus!
