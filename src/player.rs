use vstd::prelude::*;
use crate::maze::{Maze, cells, wall_at, is_wall};

verus! {

/// Fixed-point 1.0 for directions and tangents.
pub const ONE: i64 = 1024;

/// Positions stay within this distance of the origin on each axis.
pub const COORD_LIMIT: i64 = 16777216;

/// The largest accepted tangent of the half field of view (16.0).
pub const MAX_TAN: i64 = 16384;

/// The largest movement amount accepted in one step, in world units.
pub const MAX_MOVE: i64 = 65536;

/// Integer division by `ONE`, rounding toward zero.
pub open spec fn div_one(n: int) -> int {
    if n >= 0 {
        n / (ONE as int)
    } else {
        -((-n) / (ONE as int))
    }
}

pub fn exec_div_one(n: i64) -> (r: i64)
    requires
        n > i64::MIN,
    ensures
        r == div_one(n as int),
{
    if n >= 0 {
        n / ONE
    } else {
        let m: i64 = -n;
        -(m / ONE)
    }
}

/// A heading direction: components within one unit and length at least
/// `ONE / sqrt(2)`, as a rounded unit vector `(cos h, sin h) * ONE` always has.
pub open spec fn is_heading(dir_x: int, dir_y: int) -> bool {
    &&& -ONE <= dir_x <= ONE
    &&& -ONE <= dir_y <= ONE
    &&& 2 * (dir_x * dir_x + dir_y * dir_y) >= ONE * ONE
}

/// A fixed-point unit vector, up to the rounding of each component: both
/// components within one unit and the squared length within `2 * ONE` of `ONE * ONE`.
pub open spec fn is_unit(dx: int, dy: int) -> bool {
    &&& -ONE <= dx <= ONE
    &&& -ONE <= dy <= ONE
    &&& ONE * ONE - 2 * ONE <= dx * dx + dy * dy <= ONE * ONE + 2 * ONE
}

/// A unit direction is a heading.
pub proof fn unit_is_heading(dx: int, dy: int)
    requires
        is_unit(dx, dy),
    ensures
        is_heading(dx, dy),
{
}

/// Whether `(dx, dy)` is accepted as a unit direction.
pub fn is_unit_exec(dx: i64, dy: i64) -> (r: bool)
    ensures
        r == is_unit(dx as int, dy as int),
{
    if dx < -ONE || dx > ONE || dy < -ONE || dy > ONE {
        return false;
    }
    proof {
        assert(0 <= dx * dx <= ONE * ONE) by (nonlinear_arith)
            requires -ONE <= dx <= ONE;
        assert(0 <= dy * dy <= ONE * ONE) by (nonlinear_arith)
            requires -ONE <= dy <= ONE;
    }
    let n = dx * dx + dy * dy;
    ONE * ONE - 2 * ONE <= n && n <= ONE * ONE + 2 * ONE
}

/// Whether `(dir_x, dir_y)` is accepted as a heading.
pub fn is_heading_exec(dir_x: i64, dir_y: i64) -> (r: bool)
    ensures
        r == is_heading(dir_x as int, dir_y as int),
{
    if dir_x < -ONE || dir_x > ONE || dir_y < -ONE || dir_y > ONE {
        return false;
    }
    proof {
        assert(dir_x * dir_x <= ONE * ONE) by (nonlinear_arith)
            requires -ONE <= dir_x <= ONE;
        assert(dir_y * dir_y <= ONE * ONE) by (nonlinear_arith)
            requires -ONE <= dir_y <= ONE;
        assert(dir_x * dir_x >= 0) by (nonlinear_arith);
        assert(dir_y * dir_y >= 0) by (nonlinear_arith);
    }
    2 * (dir_x * dir_x + dir_y * dir_y) >= ONE * ONE
}

/// The screen plane for heading `(cos h, sin h)` and half-FOV tangent `t`,
/// at scale `ONE * ONE`: `(sin h * t, -cos h * t)`.
pub open spec fn plane_of(dir_x: int, dir_y: int, tan_half_fov: int) -> (int, int) {
    (dir_y * tan_half_fov, -(dir_x * tan_half_fov))
}

/// The camera: position in world units, heading as a fixed-point unit
/// vector, field of view as the fixed-point tangent of its half angle, and the
/// screen-plane vector derived from the last two.
pub struct Player {
    pub pos_x: i64,
    pub pos_y: i64,
    pub dir_x: i64,
    pub dir_y: i64,
    pub tan_half_fov: i64,
    pub plane_x: i64,
    pub plane_y: i64,
}

impl Player {
    /// Position, heading and field of view are within range.
    pub open spec fn valid_pose(&self) -> bool {
        &&& -COORD_LIMIT <= self.pos_x <= COORD_LIMIT
        &&& -COORD_LIMIT <= self.pos_y <= COORD_LIMIT
        &&& is_heading(self.dir_x as int, self.dir_y as int)
        &&& 0 < self.tan_half_fov <= MAX_TAN
    }

    /// The screen plane agrees with the current heading and field of view.
    pub open spec fn plane_current(&self) -> bool {
        (self.plane_x as int, self.plane_y as int) == plane_of(
            self.dir_x as int,
            self.dir_y as int,
            self.tan_half_fov as int,
        )
    }

    pub open spec fn wf(&self) -> bool {
        self.valid_pose() && self.plane_current()
    }

    /// This camera with its screen plane recomputed.
    pub open spec fn with_plane(self) -> Player {
        Player {
            plane_x: plane_of(self.dir_x as int, self.dir_y as int, self.tan_half_fov as int).0 as i64,
            plane_y: plane_of(self.dir_x as int, self.dir_y as int, self.tan_half_fov as int).1 as i64,
            ..self
        }
    }

    pub fn new(pos_x: i64, pos_y: i64, dir_x: i64, dir_y: i64, tan_half_fov: i64) -> (p: Player)
        requires
            -COORD_LIMIT <= pos_x <= COORD_LIMIT,
            -COORD_LIMIT <= pos_y <= COORD_LIMIT,
            is_heading(dir_x as int, dir_y as int),
            0 < tan_half_fov <= MAX_TAN,
        ensures
            p.wf(),
            p.pos_x == pos_x,
            p.pos_y == pos_y,
            p.dir_x == dir_x,
            p.dir_y == dir_y,
            p.tan_half_fov == tan_half_fov,
    {
        let (plane_x, plane_y) = Self::compute_plane(dir_x, dir_y, tan_half_fov);
        Player { pos_x, pos_y, dir_x, dir_y, tan_half_fov, plane_x, plane_y }
    }

    fn compute_plane(dir_x: i64, dir_y: i64, tan_half_fov: i64) -> (r: (i64, i64))
        requires
            is_heading(dir_x as int, dir_y as int),
            0 < tan_half_fov <= MAX_TAN,
        ensures
            (r.0 as int, r.1 as int) == plane_of(dir_x as int, dir_y as int, tan_half_fov as int),
    {
        proof {
            assert(-ONE * MAX_TAN <= dir_y * tan_half_fov <= ONE * MAX_TAN) by (nonlinear_arith)
                requires
                    -ONE <= dir_y <= ONE,
                    0 < tan_half_fov <= MAX_TAN,
            ;
            assert(-ONE * MAX_TAN <= dir_x * tan_half_fov <= ONE * MAX_TAN) by (nonlinear_arith)
                requires
                    -ONE <= dir_x <= ONE,
                    0 < tan_half_fov <= MAX_TAN,
            ;
        }
        (dir_y * tan_half_fov, -(dir_x * tan_half_fov))
    }

    /// Recomputes the screen plane from the heading and field of view.
    pub fn update_plane(&mut self)
        requires
            old(self).valid_pose(),
        ensures
            *final(self) == old(self).with_plane(),
            final(self).wf(),
    {
        let (px, py) = Self::compute_plane(self.dir_x, self.dir_y, self.tan_half_fov);
        self.plane_x = px;
        self.plane_y = py;
    }

    /// Turns the camera to a new heading; the plane follows.
    pub fn set_heading(&mut self, dir_x: i64, dir_y: i64)
        requires
            old(self).wf(),
            is_heading(dir_x as int, dir_y as int),
        ensures
            *final(self) == (Player { dir_x, dir_y, ..*old(self) }).with_plane(),
            final(self).wf(),
    {
        self.dir_x = dir_x;
        self.dir_y = dir_y;
        self.update_plane();
    }

    /// Changes the field of view; the plane follows.
    pub fn set_fov(&mut self, tan_half_fov: i64)
        requires
            old(self).wf(),
            0 < tan_half_fov <= MAX_TAN,
        ensures
            *final(self) == (Player { tan_half_fov, ..*old(self) }).with_plane(),
            final(self).wf(),
    {
        self.tan_half_fov = tan_half_fov;
        self.update_plane();
    }
}

/// The x displacement of moving `forward` along the heading and `strafe` to its right.
pub open spec fn move_dx(p: Player, forward: int, strafe: int) -> int {
    div_one(forward * p.dir_x + strafe * p.dir_y)
}

/// The y displacement of moving `forward` along the heading and `strafe` to its right.
pub open spec fn move_dy(p: Player, forward: int, strafe: int) -> int {
    div_one(forward * p.dir_y - strafe * p.dir_x)
}

/// A coordinate a camera may move to along one axis, seen from the other axis' old value.
pub open spec fn may_enter(g: Seq<Seq<char>>, block_size: int, x: int, y: int) -> bool {
    -COORD_LIMIT <= x <= COORD_LIMIT && -COORD_LIMIT <= y <= COORD_LIMIT && !wall_at(
        g,
        block_size,
        x,
        y,
    )
}

/// Moves the camera by `(dx, dy)` world units, each axis on its own: the new
/// x is kept only if `(new x, old y)` is open, the new y only if
/// `(old x, new y)` is open. Coordinates beyond `COORD_LIMIT` count as blocked.
pub fn move_by(player: &mut Player, maze: &Maze, block_size: usize, dx: i64, dy: i64)
    requires
        old(player).wf(),
        block_size > 0,
        -2 * MAX_MOVE <= dx <= 2 * MAX_MOVE,
        -2 * MAX_MOVE <= dy <= 2 * MAX_MOVE,
    ensures
        final(player).wf(),
        final(player).dir_x == old(player).dir_x,
        final(player).dir_y == old(player).dir_y,
        final(player).tan_half_fov == old(player).tan_half_fov,
        final(player).plane_x == old(player).plane_x,
        final(player).plane_y == old(player).plane_y,
        ({
            let p = *old(player);
            let nx = p.pos_x + dx;
            let ny = p.pos_y + dy;
            &&& final(player).pos_x == (if may_enter(cells(maze), block_size as int, nx, p.pos_y as int) {
                nx
            } else {
                p.pos_x as int
            })
            &&& final(player).pos_y == (if may_enter(cells(maze), block_size as int, p.pos_x as int, ny) {
                ny
            } else {
                p.pos_y as int
            })
        }),
{
    let old_x = player.pos_x;
    let old_y = player.pos_y;
    let nx = old_x + dx;
    let ny = old_y + dy;
    if -COORD_LIMIT <= nx && nx <= COORD_LIMIT && !is_wall(nx, old_y, maze, block_size) {
        player.pos_x = nx;
    }
    if -COORD_LIMIT <= ny && ny <= COORD_LIMIT && !is_wall(old_x, ny, maze, block_size) {
        player.pos_y = ny;
    }
}

/// Moves the camera by one input step, each axis on its own: the new x is kept
/// only if `(new x, old y)` is open, the new y only if `(old x, new y)` is open.
/// Coordinates beyond `COORD_LIMIT` count as blocked.
pub fn move_player(player: &mut Player, maze: &Maze, block_size: usize, forward: i64, strafe: i64)
    requires
        old(player).wf(),
        block_size > 0,
        -MAX_MOVE <= forward <= MAX_MOVE,
        -MAX_MOVE <= strafe <= MAX_MOVE,
    ensures
        final(player).wf(),
        final(player).dir_x == old(player).dir_x,
        final(player).dir_y == old(player).dir_y,
        final(player).tan_half_fov == old(player).tan_half_fov,
        final(player).plane_x == old(player).plane_x,
        final(player).plane_y == old(player).plane_y,
        ({
            let p = *old(player);
            let nx = p.pos_x + move_dx(p, forward as int, strafe as int);
            let ny = p.pos_y + move_dy(p, forward as int, strafe as int);
            &&& final(player).pos_x == (if may_enter(cells(maze), block_size as int, nx, p.pos_y as int) {
                nx
            } else {
                p.pos_x as int
            })
            &&& final(player).pos_y == (if may_enter(cells(maze), block_size as int, p.pos_x as int, ny) {
                ny
            } else {
                p.pos_y as int
            })
        }),
{
    let dir_x = player.dir_x;
    let dir_y = player.dir_y;
    proof {
        assert(-MAX_MOVE * ONE <= forward * dir_x <= MAX_MOVE * ONE) by (nonlinear_arith)
            requires -MAX_MOVE <= forward <= MAX_MOVE, -ONE <= dir_x <= ONE;
        assert(-MAX_MOVE * ONE <= strafe * dir_y <= MAX_MOVE * ONE) by (nonlinear_arith)
            requires -MAX_MOVE <= strafe <= MAX_MOVE, -ONE <= dir_y <= ONE;
        assert(-MAX_MOVE * ONE <= forward * dir_y <= MAX_MOVE * ONE) by (nonlinear_arith)
            requires -MAX_MOVE <= forward <= MAX_MOVE, -ONE <= dir_y <= ONE;
        assert(-MAX_MOVE * ONE <= strafe * dir_x <= MAX_MOVE * ONE) by (nonlinear_arith)
            requires -MAX_MOVE <= strafe <= MAX_MOVE, -ONE <= dir_x <= ONE;
    }
    let dx = exec_div_one(forward * dir_x + strafe * dir_y);
    let dy = exec_div_one(forward * dir_y - strafe * dir_x);
    proof {
        lemma_div_one_bound(forward * dir_x + strafe * dir_y);
        lemma_div_one_bound(forward * dir_y - strafe * dir_x);
    }
    move_by(player, maze, block_size, dx, dy);
}

proof fn lemma_div_one_bound(n: int)
    requires
        -2 * MAX_MOVE * ONE <= n <= 2 * MAX_MOVE * ONE,
    ensures
        -2 * MAX_MOVE <= div_one(n) <= 2 * MAX_MOVE,
{
    if n >= 0 {
        assert(n / (ONE as int) <= 2 * MAX_MOVE) by (nonlinear_arith)
            requires 0 <= n <= 2 * MAX_MOVE * ONE;
    } else {
        let m = -n;
        assert(m / (ONE as int) <= 2 * MAX_MOVE) by (nonlinear_arith)
            requires 0 <= m <= 2 * MAX_MOVE * ONE;
        assert(m / (ONE as int) >= 0) by (nonlinear_arith)
            requires 0 <= m;
    }
}

/// Recomputing the screen plane twice gives what recomputing it once gave.
pub proof fn update_plane_idempotent(p: Player)
    requires
        p.valid_pose(),
    ensures
        p.with_plane().with_plane() == p.with_plane(),
        p.with_plane().plane_current(),
{
    let t = p.tan_half_fov as int;
    let dx = p.dir_x as int;
    let dy = p.dir_y as int;
    assert(-ONE * MAX_TAN <= dy * t <= ONE * MAX_TAN) by (nonlinear_arith)
        requires -ONE <= dy <= ONE, 0 < t <= MAX_TAN;
    assert(-ONE * MAX_TAN <= dx * t <= ONE * MAX_TAN) by (nonlinear_arith)
        requires -ONE <= dx <= ONE, 0 < t <= MAX_TAN;
}

} // verus!
