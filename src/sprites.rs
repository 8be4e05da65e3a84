use vstd::prelude::*;
use crate::color::{Color, is_transparent, transparent};
use crate::fixed::{root, isqrt};
use crate::framebuffer::Framebuffer;
use crate::player::{Player, ONE, COORD_LIMIT, MAX_TAN};
use crate::projection::{wall_height, wall_height_spec, MAX_SCREEN};
use crate::texture::TextureManager;

verus! {

/// A camera within this distance of a sprite collects it, in world units.
pub const COLLECT_RADIUS: i64 = 80;

/// A billboard placed in the world: position, texture symbol, and whether
/// the camera has collected it.
#[derive(Clone, Copy, Debug, PartialEq, Eq, Structural)]
pub struct Sprite {
    pub x: i64,
    pub y: i64,
    pub texture_char: char,
    pub collected: bool,
}

impl Sprite {
    pub open spec fn wf(&self) -> bool {
        -COORD_LIMIT <= self.x <= COORD_LIMIT && -COORD_LIMIT <= self.y <= COORD_LIMIT
    }

    pub fn new(x: i64, y: i64, texture_char: char) -> (s: Sprite)
        ensures
            s == (Sprite { x, y, texture_char, collected: false }),
    {
        Sprite { x, y, texture_char, collected: false }
    }
}

/// The squared distance from `(x, y)` to the sprite.
pub open spec fn dist2(s: Sprite, x: int, y: int) -> int {
    (s.x - x) * (s.x - x) + (s.y - y) * (s.y - y)
}

fn dist2_exec(s: &Sprite, x: i64, y: i64) -> (r: i64)
    requires
        s.wf(),
        -COORD_LIMIT <= x <= COORD_LIMIT,
        -COORD_LIMIT <= y <= COORD_LIMIT,
    ensures
        r == dist2(*s, x as int, y as int),
        0 <= r <= 8 * COORD_LIMIT * COORD_LIMIT,
{
    let dx = s.x - x;
    let dy = s.y - y;
    proof {
        assert(0 <= dx * dx <= 4 * COORD_LIMIT * COORD_LIMIT) by (nonlinear_arith)
            requires -2 * COORD_LIMIT <= dx <= 2 * COORD_LIMIT;
        assert(0 <= dy * dy <= 4 * COORD_LIMIT * COORD_LIMIT) by (nonlinear_arith)
            requires -2 * COORD_LIMIT <= dy <= 2 * COORD_LIMIT;
    }
    dx * dx + dy * dy
}

/// The sprite after the camera stood at `(x, y)`: collected if it already
/// was or if the camera is closer than `COLLECT_RADIUS`.
pub open spec fn collect_step(s: Sprite, x: int, y: int) -> Sprite {
    Sprite { collected: s.collected || dist2(s, x, y) < COLLECT_RADIUS * COLLECT_RADIUS, ..s }
}

/// Marks every sprite within `COLLECT_RADIUS` of the camera as collected.
pub fn collect_nearby(sprites: &mut Vec<Sprite>, player: &Player)
    requires
        player.valid_pose(),
        forall|i: int| 0 <= i < old(sprites)@.len() ==> (#[trigger] old(sprites)@[i]).wf(),
    ensures
        final(sprites)@.len() == old(sprites)@.len(),
        forall|i: int|
            0 <= i < final(sprites)@.len() ==> #[trigger] final(sprites)@[i] == collect_step(
                old(sprites)@[i],
                player.pos_x as int,
                player.pos_y as int,
            ),
{
    let n = sprites.len();
    let mut i: usize = 0;
    while i < n
        invariant
            player.valid_pose(),
            n == sprites@.len(),
            n == old(sprites)@.len(),
            i <= n,
            forall|k: int| i <= k < n ==> #[trigger] sprites@[k] == old(sprites)@[k],
            forall|k: int| 0 <= k < n ==> (#[trigger] old(sprites)@[k]).wf(),
            forall|k: int|
                0 <= k < i ==> #[trigger] sprites@[k] == collect_step(
                    old(sprites)@[k],
                    player.pos_x as int,
                    player.pos_y as int,
                ),
        decreases n - i,
    {
        let s = sprites[i];
        if !s.collected {
            let d = dist2_exec(&s, player.pos_x, player.pos_y);
            if d < COLLECT_RADIUS * COLLECT_RADIUS {
                sprites.set(i, Sprite { collected: true, ..s });
            }
        }
        i = i + 1;
    }
}

/// Whether every sprite has been collected.
pub fn all_collected(sprites: &Vec<Sprite>) -> (r: bool)
    ensures
        r == (forall|i: int| 0 <= i < sprites@.len() ==> (#[trigger] sprites@[i]).collected),
{
    let mut i: usize = 0;
    while i < sprites.len()
        invariant
            i <= sprites@.len(),
            forall|k: int| 0 <= k < i ==> (#[trigger] sprites@[k]).collected,
        decreases sprites@.len() - i,
    {
        if !sprites[i].collected {
            return false;
        }
        i = i + 1;
    }
    true
}

/// Collection is one-way: a collected sprite stays collected wherever the
/// camera goes, a sprite is collected as soon as the camera comes within
/// `COLLECT_RADIUS`, and a second step from the same place changes nothing.
pub proof fn collection_is_permanent(s: Sprite, x: int, y: int, x2: int, y2: int)
    ensures
        s.collected ==> collect_step(s, x, y).collected,
        dist2(s, x, y) < COLLECT_RADIUS * COLLECT_RADIUS ==> collect_step(s, x, y).collected,
        !s.collected && dist2(s, x, y) >= COLLECT_RADIUS * COLLECT_RADIUS ==> !collect_step(s, x, y).collected,
        collect_step(s, x, y).collected ==> collect_step(collect_step(s, x, y), x2, y2).collected,
        collect_step(collect_step(s, x, y), x, y) == collect_step(s, x, y),
{
}

/// The indices of the sprites not yet collected, farthest from `(x, y)` first.
pub fn visible_order(sprites: &Vec<Sprite>, x: i64, y: i64) -> (order: Vec<usize>)
    requires
        -COORD_LIMIT <= x <= COORD_LIMIT,
        -COORD_LIMIT <= y <= COORD_LIMIT,
        forall|i: int| 0 <= i < sprites@.len() ==> (#[trigger] sprites@[i]).wf(),
    ensures
        order@.no_duplicates(),
        forall|k: int|
            0 <= k < order@.len() ==> #[trigger] order@[k] < sprites@.len() && !sprites@[order@[k] as int].collected,
        forall|i: int| 0 <= i < sprites@.len() && !(#[trigger] sprites@[i]).collected ==> order@.contains(i as usize),
        forall|a: int, b: int|
            0 <= a < b < order@.len() ==> dist2(sprites@[#[trigger] order@[a] as int], x as int, y as int) >= dist2(
                sprites@[#[trigger] order@[b] as int],
                x as int,
                y as int,
            ),
{
    let n = sprites.len();
    let mut order: Vec<usize> = Vec::new();
    let mut keys: Vec<i64> = Vec::new();
    let mut i: usize = 0;
    while i < n
        invariant
            n == sprites@.len(),
            i <= n,
            -COORD_LIMIT <= x <= COORD_LIMIT,
            -COORD_LIMIT <= y <= COORD_LIMIT,
            forall|k: int| 0 <= k < n ==> (#[trigger] sprites@[k]).wf(),
            keys@.len() == order@.len(),
            order@.no_duplicates(),
            forall|k: int|
                0 <= k < order@.len() ==> #[trigger] order@[k] < i && !sprites@[order@[k] as int].collected
                    && keys@[k] == dist2(sprites@[order@[k] as int], x as int, y as int),
            forall|j: int| 0 <= j < i && !(#[trigger] sprites@[j]).collected ==> order@.contains(j as usize),
            forall|a: int, b: int| 0 <= a < b < keys@.len() ==> #[trigger] keys@[a] >= #[trigger] keys@[b],
        decreases n - i,
    {
        if !sprites[i].collected {
            let d = dist2_exec(&sprites[i], x, y);
            let mut j: usize = 0;
            while j < keys.len() && keys[j] >= d
                invariant
                    j <= keys@.len(),
                    forall|m: int| 0 <= m < j ==> #[trigger] keys@[m] >= d,
                decreases keys@.len() - j,
            {
                j = j + 1;
            }
            let ghost old_order = order@;
            let ghost old_keys = keys@;
            order.insert(j, i);
            keys.insert(j, d);
            proof {
                old_order.insert_ensures(j as int, i);
                old_keys.insert_ensures(j as int, d);
                assert forall|k: int| 0 <= k < order@.len() implies #[trigger] order@[k] < i + 1 && !sprites@[order@[k] as int].collected
                    && keys@[k] == dist2(sprites@[order@[k] as int], x as int, y as int) by {
                    if k > j {
                        assert(order@[k] == old_order[k - 1]);
                        assert(keys@[k] == old_keys[k - 1]);
                    }
                }
                assert forall|a: int, b: int| 0 <= a < b < keys@.len() implies #[trigger] keys@[a] >= #[trigger] keys@[b] by {
                    if b > j {
                        assert(keys@[b] == old_keys[b - 1]);
                    }
                    if a > j {
                        assert(keys@[a] == old_keys[a - 1]);
                    }
                    if a < j && b == j {
                        assert(keys@[a] == old_keys[a]);
                    }
                    if a == j && b > j && j < old_keys.len() {
                        assert(old_keys[j as int] < d);
                        assert(old_keys[j as int] >= old_keys[b - 1]);
                    }
                }
                assert forall|p: int, q: int| 0 <= p < order@.len() && 0 <= q < order@.len() && p != q implies order@[p] != order@[q] by {
                    if p != j && q != j {
                        let op = if p < j { p } else { p - 1 };
                        let oq = if q < j { q } else { q - 1 };
                        assert(order@[p] == old_order[op]);
                        assert(order@[q] == old_order[oq]);
                    } else if p == j {
                        let oq = if q < j { q } else { q - 1 };
                        assert(order@[q] == old_order[oq]);
                    } else {
                        let op = if p < j { p } else { p - 1 };
                        assert(order@[p] == old_order[op]);
                    }
                }
                assert forall|jj: int| 0 <= jj < i + 1 && !(#[trigger] sprites@[jj]).collected implies order@.contains(jj as usize) by {
                    if jj < i {
                        let k = choose|k: int| 0 <= k < old_order.len() && old_order[k] == jj as usize;
                        if k < j {
                            assert(order@[k] == jj as usize);
                        } else {
                            assert(order@[k + 1] == jj as usize);
                        }
                    } else {
                        assert(order@[j as int] == i);
                    }
                }
            }
        }
        i = i + 1;
    }
    proof {
        assert forall|a: int, b: int|
            0 <= a < b < order@.len() implies dist2(sprites@[#[trigger] order@[a] as int], x as int, y as int) >= dist2(
                sprites@[#[trigger] order@[b] as int],
                x as int,
                y as int,
            ) by {
            assert(keys@[a] >= keys@[b]);
        }
    }
    order
}

/// The cross product of column direction `d` with `(rx, ry)`: positive when
/// `(rx, ry)` lies counterclockwise of `d`.
pub open spec fn cross(d: (i64, i64), rx: int, ry: int) -> int {
    d.0 * ry - d.1 * rx
}

/// How many of the first `n` column rays lie clockwise of `(rx, ry)`.
pub open spec fn columns_before(dirs: Seq<(i64, i64)>, rx: int, ry: int, n: int) -> int
    decreases n,
{
    if n <= 0 {
        0
    } else {
        columns_before(dirs, rx, ry, n - 1) + if cross(dirs[n - 1], rx, ry) > 0 {
            1int
        } else {
            0
        }
    }
}

/// Where a sprite lands on a screen `h` rows high whose columns look along
/// `dirs`, as `(left, top, size, distance)`; `None` when it lies outside the
/// field of view or at the camera's own position.
///
/// A sprite is in view when it lies ahead of the camera and its lateral offset
/// over its depth is within the tangent of the half field of view, that is
/// within half the field of view of the heading. Its center column is the
/// number of column rays clockwise of it, so it lines up with the walls, and
/// its size is the projected height of a wall at its distance.
pub open spec fn sprite_view(p: Player, s: Sprite, dirs: Seq<(i64, i64)>, h: int) -> Option<(int, int, int, int)> {
    let rx = s.x - p.pos_x;
    let ry = s.y - p.pos_y;
    let depth = rx * p.dir_x + ry * p.dir_y;
    let lateral = rx * p.dir_y - ry * p.dir_x;
    let t = p.tan_half_fov as int;
    let dist = root(rx * rx + ry * ry);
    let lat_abs = if lateral >= 0 { lateral } else { -lateral };
    if depth <= 0 || lat_abs * ONE > depth * t || dist == 0 {
        None
    } else {
        let center = columns_before(dirs, rx, ry, dirs.len() as int);
        let size = wall_height_spec(h, dist);
        Some((center - size / 2, (h - size) / 2, size, dist))
    }
}

/// The color a sprite puts at screen pixel `(x, y)`, if any: inside its
/// square, nearer than the wall in that column, and not transparent.
pub open spec fn sprite_pixel(
    p: Player,
    s: Sprite,
    tm: TextureManager,
    z_buffer: Seq<u64>,
    dirs: Seq<(i64, i64)>,
    h: int,
    x: int,
    y: int,
) -> Option<Color> {
    match sprite_view(p, s, dirs, h) {
        None => None,
        Some((left, top, size, dist)) => match tm.texture_for(s.texture_char) {
            None => None,
            Some(t) => if left <= x < left + size && top <= y < top + size && dist < z_buffer[x] {
                let c = t.clamped_texel((x - left) * t.width / size, (y - top) * t.height / size);
                if is_transparent(c) {
                    None
                } else {
                    Some(c)
                }
            } else {
                None
            },
        },
    }
}

/// The pixel `(x, y)` once the sprite has been drawn over `fb`.
pub open spec fn after_sprite(
    fb: Framebuffer,
    p: Player,
    s: Sprite,
    tm: TextureManager,
    z_buffer: Seq<u64>,
    dirs: Seq<(i64, i64)>,
    x: int,
    y: int,
) -> Color {
    match sprite_pixel(p, s, tm, z_buffer, dirs, fb.height as int, x, y) {
        Some(c) => c,
        None => fb.pixel(x, y),
    }
}

/// Draws one sprite over the surface, testing each pixel against the depth buffer.
pub fn draw_sprite(
    framebuffer: &mut Framebuffer,
    player: &Player,
    sprite: &Sprite,
    texture_manager: &TextureManager,
    z_buffer: &Vec<u64>,
    column_dirs: &Vec<(i64, i64)>,
)
    requires
        crate::projection::column_dirs_ok(column_dirs@, old(framebuffer).width as int),
        old(framebuffer).wf(),
        0 < old(framebuffer).width <= MAX_SCREEN,
        old(framebuffer).height <= MAX_SCREEN,
        player.wf(),
        sprite.wf(),
        texture_manager.wf(),
        z_buffer@.len() == old(framebuffer).width,
    ensures
        final(framebuffer).wf(),
        final(framebuffer).width == old(framebuffer).width,
        final(framebuffer).height == old(framebuffer).height,
        final(framebuffer).background_color == old(framebuffer).background_color,
        forall|px: int, py: int|
            0 <= px < old(framebuffer).width && 0 <= py < old(framebuffer).height ==> (#[trigger] final(framebuffer).pixel(px, py))
                == after_sprite(*old(framebuffer), *player, *sprite, *texture_manager, z_buffer@, column_dirs@, px, py),
{
    let ghost fb0 = *framebuffer;
    let w = framebuffer.width;
    let h = framebuffer.height;
    let rx = sprite.x - player.pos_x;
    let ry = sprite.y - player.pos_y;
    let dir_x = player.dir_x;
    let dir_y = player.dir_y;
    let t = player.tan_half_fov;
    proof {
        assert(-2 * COORD_LIMIT * ONE <= rx * dir_x <= 2 * COORD_LIMIT * ONE) by (nonlinear_arith)
            requires -2 * COORD_LIMIT <= rx <= 2 * COORD_LIMIT, -ONE <= dir_x <= ONE;
        assert(-2 * COORD_LIMIT * ONE <= ry * dir_y <= 2 * COORD_LIMIT * ONE) by (nonlinear_arith)
            requires -2 * COORD_LIMIT <= ry <= 2 * COORD_LIMIT, -ONE <= dir_y <= ONE;
        assert(-2 * COORD_LIMIT * ONE <= rx * dir_y <= 2 * COORD_LIMIT * ONE) by (nonlinear_arith)
            requires -2 * COORD_LIMIT <= rx <= 2 * COORD_LIMIT, -ONE <= dir_y <= ONE;
        assert(-2 * COORD_LIMIT * ONE <= ry * dir_x <= 2 * COORD_LIMIT * ONE) by (nonlinear_arith)
            requires -2 * COORD_LIMIT <= ry <= 2 * COORD_LIMIT, -ONE <= dir_x <= ONE;
    }
    let depth = rx * dir_x + ry * dir_y;
    let lateral = rx * dir_y - ry * dir_x;
    let lat_abs = if lateral >= 0 { lateral } else { -lateral };
    proof {
        assert(0 <= rx * rx <= 4 * COORD_LIMIT * COORD_LIMIT) by (nonlinear_arith)
            requires -2 * COORD_LIMIT <= rx <= 2 * COORD_LIMIT;
        assert(0 <= ry * ry <= 4 * COORD_LIMIT * COORD_LIMIT) by (nonlinear_arith)
            requires -2 * COORD_LIMIT <= ry <= 2 * COORD_LIMIT;
        assert(lat_abs * ONE <= 4 * COORD_LIMIT * ONE * ONE) by (nonlinear_arith)
            requires 0 <= lat_abs <= 4 * COORD_LIMIT * ONE;
        assert(-4 * COORD_LIMIT * ONE * MAX_TAN <= depth * t <= 4 * COORD_LIMIT * ONE * MAX_TAN) by (nonlinear_arith)
            requires -4 * COORD_LIMIT * ONE <= depth <= 4 * COORD_LIMIT * ONE, 0 < t <= MAX_TAN;
    }
    let sq = (rx * rx + ry * ry) as u128;
    let dist = isqrt(sq);
    if depth <= 0 || lat_abs * ONE > depth * t || dist == 0 {
        return;
    }
    let tex = match texture_manager.get(sprite.texture_char) {
        Some(tx) => tx,
        None => {
            return;
        },
    };
    let mut center: i64 = 0;
    let mut c: usize = 0;
    while c < w
        invariant
            c <= w,
            0 <= center <= c,
            w <= MAX_SCREEN,
            crate::projection::column_dirs_ok(column_dirs@, w as int),
            -2 * COORD_LIMIT <= rx <= 2 * COORD_LIMIT,
            -2 * COORD_LIMIT <= ry <= 2 * COORD_LIMIT,
            center == columns_before(column_dirs@, rx as int, ry as int, c as int),
        decreases w - c,
    {
        let (ax, ay) = column_dirs[c];
        assert(crate::player::is_unit(ax as int, ay as int));
        proof {
            assert(-2 * COORD_LIMIT * ONE <= ax * ry <= 2 * COORD_LIMIT * ONE) by (nonlinear_arith)
                requires -2 * COORD_LIMIT <= ry <= 2 * COORD_LIMIT, -ONE <= ax <= ONE;
            assert(-2 * COORD_LIMIT * ONE <= ay * rx <= 2 * COORD_LIMIT * ONE) by (nonlinear_arith)
                requires -2 * COORD_LIMIT <= rx <= 2 * COORD_LIMIT, -ONE <= ay <= ONE;
        }
        if ax * ry - ay * rx > 0 {
            center = center + 1;
        }
        c = c + 1;
    }
    let size = wall_height(h as u64, dist);
    let ghost view = sprite_view(*player, *sprite, column_dirs@, h as int);
    let left: i64 = center - (size / 2) as i64;
    let top: i64 = crate::projection::floor_half(h as i64 - size as i64);
    let sz = size as i64;
    proof {
        let srx = sprite.x - player.pos_x;
        let sry = sprite.y - player.pos_y;
        assert(srx == rx && sry == ry);
        assert(sq == rx * rx + ry * ry);
        assert(dist == root(srx * srx + sry * sry));
        assert(depth == srx * player.dir_x + sry * player.dir_y);
        assert(lateral == srx * player.dir_y - sry * player.dir_x);
        assert(size == wall_height_spec(h as int, dist as int));
    }
    assert(view == Some((left as int, top as int, size as int, dist as int)));
    let x_start: usize = if left < 0 { 0 } else if left as u64 > w as u64 { w } else { left as usize };
    let x_end: usize = if left + sz < 0 { 0 } else if (left + sz) as u64 > w as u64 { w } else { (left + sz) as usize };
    let y_start: usize = if top < 0 { 0 } else { top as usize };
    let y_end: usize = if top + sz > h as i64 { h } else { (top + sz) as usize };
    let tw = tex.width as u64;
    let th = tex.height as u64;
    let mut x: usize = x_start;
    while x < x_end
        invariant
            framebuffer.wf(),
            framebuffer.width == w,
            framebuffer.height == h,
            framebuffer.background_color == fb0.background_color,
            fb0.width == w,
            fb0.height == h,
            w <= MAX_SCREEN,
            h <= MAX_SCREEN,
            z_buffer@.len() == w,
            x_start <= x,
            x_end <= w,
            x < x_end ==> left <= x,
            x_end as int <= left + sz,
            top <= y_start,
            y_start as int == (if top < 0 { 0 } else { top as int }),
            y_end as int == (if top + sz > h { h as int } else { top + sz }),
            y_end <= h,
            y_end as int <= top + sz,
            -300000 <= left <= MAX_SCREEN,
            -300000 <= top <= MAX_SCREEN,
            0 <= sz <= 300000,
            sz == size,
            view == sprite_view(*player, *sprite, column_dirs@, h as int),
            view == Some((left as int, top as int, size as int, dist as int)),
            texture_manager.texture_for(sprite.texture_char) == Some(*tex),
            tex.wf(),
            tw == tex.width,
            th == tex.height,
            forall|px: int, py: int|
                0 <= px < w && 0 <= py < h ==> (#[trigger] framebuffer.pixel(px, py)) == (if px < x {
                    after_sprite(fb0, *player, *sprite, *texture_manager, z_buffer@, column_dirs@, px, py)
                } else {
                    fb0.pixel(px, py)
                }),
        decreases x_end - x,
    {
        proof {
            assert forall|py: int| 0 <= py < y_start implies #[trigger] sprite_pixel(*player, *sprite, *texture_manager, z_buffer@, column_dirs@, h as int, x as int, py) is None by {
                assert(py < top);
            }
        }
        let mut y: usize = y_start;
        while y < y_end
            invariant
                framebuffer.wf(),
                framebuffer.width == w,
                framebuffer.height == h,
                framebuffer.background_color == fb0.background_color,
                fb0.width == w,
                fb0.height == h,
                w <= MAX_SCREEN,
                h <= MAX_SCREEN,
                z_buffer@.len() == w,
                x_start <= x < x_end,
                x_end <= w,
                left <= x,
                x_end as int <= left + sz,
                y_start <= y,
                top <= y_start,
                y_start as int == (if top < 0 { 0 } else { top as int }),
                y_end as int == (if top + sz > h { h as int } else { top + sz }),
                y_end <= h,
                y_end as int <= top + sz,
                -300000 <= left <= MAX_SCREEN,
                -300000 <= top <= MAX_SCREEN,
                0 <= sz <= 300000,
                sz == size,
                view == sprite_view(*player, *sprite, column_dirs@, h as int),
                view == Some((left as int, top as int, size as int, dist as int)),
                texture_manager.texture_for(sprite.texture_char) == Some(*tex),
                tex.wf(),
                tw == tex.width,
                th == tex.height,
                forall|px: int, py: int|
                    0 <= px < w && 0 <= py < h ==> (#[trigger] framebuffer.pixel(px, py)) == (if px < x || (px
                        == x && py < y) {
                        after_sprite(fb0, *player, *sprite, *texture_manager, z_buffer@, column_dirs@, px, py)
                    } else {
                        fb0.pixel(px, py)
                    }),
            decreases y_end - y,
        {
            if dist < z_buffer[x] {
                let rel_x = (x as i64 - left) as u64;
                let rel_y = (y as i64 - top) as u64;
                proof {
                    assert(rel_x * tw <= 300000 * 4096) by (nonlinear_arith)
                        requires rel_x <= 300000, tw <= 4096;
                    assert(rel_y * th <= 300000 * 4096) by (nonlinear_arith)
                        requires rel_y <= 300000, th <= 4096;
                    assert(rel_x * tw / (sz as int) < tw) by (nonlinear_arith)
                        requires rel_x < sz, sz > 0, tw > 0;
                    assert(rel_y * th / (sz as int) < th) by (nonlinear_arith)
                        requires rel_y < sz, sz > 0, th > 0;
                }
                let tx = rel_x * tw / size;
                let ty = rel_y * th / size;
                let c = tex.pixel(tx as u32, ty as u32);
                if !transparent(c) {
                    framebuffer.put_pixel(x, y, c);
                }
            }
            y = y + 1;
        }
        proof {
            assert forall|py: int| y <= py < h implies #[trigger] sprite_pixel(*player, *sprite, *texture_manager, z_buffer@, column_dirs@, h as int, x as int, py) is None by {
                assert(py >= top + sz);
            }
        }
        x = x + 1;
    }
    proof {
        assert forall|px: int, py: int| x <= px < w && 0 <= py < h implies #[trigger] sprite_pixel(*player, *sprite, *texture_manager, z_buffer@, column_dirs@, h as int, px, py) is None by {
            assert(px >= left + sz);
        }
    }
}

/// A sprite that lies behind the walls in every column, its distance no
/// less than the depth buffer's anywhere, leaves every pixel as it was.
pub proof fn occluded_sprite_draws_nothing(
    fb: Framebuffer,
    p: Player,
    s: Sprite,
    tm: TextureManager,
    z_buffer: Seq<u64>,
    dirs: Seq<(i64, i64)>,
)
    requires
        z_buffer.len() == fb.width,
        forall|x: int|
            0 <= x < fb.width ==> #[trigger] z_buffer[x] <= root(
                dist2(s, p.pos_x as int, p.pos_y as int),
            ),
    ensures
        forall|px: int, py: int|
            0 <= px < fb.width && 0 <= py < fb.height ==> #[trigger] after_sprite(fb, p, s, tm, z_buffer, dirs, px, py)
                == fb.pixel(px, py),
{
    assert forall|px: int, py: int| 0 <= px < fb.width && 0 <= py < fb.height implies #[trigger] after_sprite(fb, p, s, tm, z_buffer, dirs, px, py)
        == fb.pixel(px, py) by {
        let rx = s.x - p.pos_x;
        let ry = s.y - p.pos_y;
        assert(dist2(s, p.pos_x as int, p.pos_y as int) == rx * rx + ry * ry);
        assert(z_buffer[px] <= root(rx * rx + ry * ry));
    }
}

/// Column rays in angular order: each column lies counterclockwise of every
/// earlier one, as the evenly spaced angles of a field of view below a half
/// turn do.
pub open spec fn dirs_ordered(dirs: Seq<(i64, i64)>) -> bool {
    forall|a: int, b: int| 0 <= a < b < dirs.len() ==> #[trigger] cross(dirs[a], dirs[b].0 as int, dirs[b].1 as int) > 0
}

proof fn columns_before_on_ray(dirs: Seq<(i64, i64)>, m: int, k: int, rx: int, ry: int, n: int)
    requires
        dirs_ordered(dirs),
        0 <= m < dirs.len(),
        k > 0,
        rx == k * dirs[m].0,
        ry == k * dirs[m].1,
        0 <= n <= dirs.len(),
    ensures
        columns_before(dirs, rx, ry, n) == (if n <= m { n } else { m }),
    decreases n,
{
    if n == 0 {
        assert(columns_before(dirs, rx, ry, 0) == 0);
    } else {
        columns_before_on_ray(dirs, m, k, rx, ry, n - 1);
        let c = n - 1;
        let dc = dirs[c];
        let dm = dirs[m];
        let x = cross(dc, dm.0 as int, dm.1 as int);
        assert(columns_before(dirs, rx, ry, n) == columns_before(dirs, rx, ry, n - 1) + if cross(dc, rx, ry) > 0 {
            1int
        } else {
            0
        });
        assert(cross(dc, rx, ry) == k * x) by (nonlinear_arith)
            requires rx == k * dm.0, ry == k * dm.1, x == dc.0 * dm.1 - dc.1 * dm.0,
                cross(dc, rx, ry) == dc.0 * ry - dc.1 * rx;
        if c < m {
            assert(x > 0);
            assert(k * x > 0) by (nonlinear_arith) requires k > 0, x > 0;
            assert(columns_before(dirs, rx, ry, n) == n);
        } else if c == m {
            assert(x == 0) by (nonlinear_arith) requires x == dc.0 * dm.1 - dc.1 * dm.0, dc == dm;
            assert(k * x == 0) by (nonlinear_arith) requires x == 0;
        } else {
            assert(cross(dm, dc.0 as int, dc.1 as int) > 0);
            assert(cross(dm, dc.0 as int, dc.1 as int) == -x) by (nonlinear_arith)
                requires x == dc.0 * dm.1 - dc.1 * dm.0,
                    cross(dm, dc.0 as int, dc.1 as int) == dm.0 * dc.1 - dm.1 * dc.0;
            assert(x < 0);
            assert(k * x < 0) by (nonlinear_arith) requires k > 0, x < 0;
        }
    }
}

/// A sprite straight ahead of the camera (its offset a positive multiple of
/// the heading) is in view and centred on the column that looks along the
/// heading, the middle one for evenly spaced column angles.
pub proof fn sprite_ahead_is_centred(p: Player, s: Sprite, dirs: Seq<(i64, i64)>, m: int, k: int, h: int)
    requires
        p.wf(),
        dirs_ordered(dirs),
        0 <= m < dirs.len(),
        dirs[m] == (p.dir_x, p.dir_y),
        k > 0,
        s.x == p.pos_x + k * p.dir_x,
        s.y == p.pos_y + k * p.dir_y,
        h >= 0,
    ensures
        sprite_view(p, s, dirs, h) matches Some((left, top, size, dist)) && left + size / 2 == m,
{
    let dx = p.dir_x as int;
    let dy = p.dir_y as int;
    let t = p.tan_half_fov as int;
    let rx = s.x - p.pos_x;
    let ry = s.y - p.pos_y;
    assert(rx == k * dx && ry == k * dy);
    let depth = rx * dx + ry * dy;
    let lateral = rx * dy - ry * dx;
    assert(lateral == 0) by (nonlinear_arith)
        requires rx == k * dx, ry == k * dy, lateral == rx * dy - ry * dx;
    assert(depth == k * (dx * dx + dy * dy)) by (nonlinear_arith)
        requires rx == k * dx, ry == k * dy, depth == rx * dx + ry * dy;
    assert(depth > 0) by (nonlinear_arith)
        requires depth == k * (dx * dx + dy * dy), k > 0, 2 * (dx * dx + dy * dy) >= ONE * ONE;
    let n = rx * rx + ry * ry;
    assert(n >= 1) by (nonlinear_arith)
        requires n == rx * rx + ry * ry, rx * dx + ry * dy > 0;
    root_exists_pos(n);
    assert(depth * t >= 0) by (nonlinear_arith) requires depth > 0, t > 0;
    columns_before_on_ray(dirs, m, k, rx, ry, dirs.len() as int);
}

proof fn root_exists_pos(n: int)
    requires
        n >= 1,
    ensures
        root(n) >= 1,
{
    crate::fixed::root_exists(n);
    if root(n) == 0 {
        assert((root(n) + 1) * (root(n) + 1) == 1);
    }
}

/// Pixel `(x, y)` of `fb` after drawing `layers` in order, later ones over earlier ones.
pub open spec fn layered_pixel(
    fb: Framebuffer,
    p: Player,
    layers: Seq<Sprite>,
    tm: TextureManager,
    z_buffer: Seq<u64>,
    dirs: Seq<(i64, i64)>,
    x: int,
    y: int,
) -> Color
    decreases layers.len(),
{
    if layers.len() == 0 {
        fb.pixel(x, y)
    } else {
        match sprite_pixel(p, layers.last(), tm, z_buffer, dirs, fb.height as int, x, y) {
            Some(c) => c,
            None => layered_pixel(fb, p, layers.drop_last(), tm, z_buffer, dirs, x, y),
        }
    }
}

/// The sprites at the given indices, in that order.
pub open spec fn pick(sprites: Seq<Sprite>, order: Seq<usize>) -> Seq<Sprite> {
    order.map_values(|i: usize| sprites[i as int])
}

/// Draws the sprites not yet collected, farthest first, so that nearer ones
/// cover farther ones; returns the order in which they were drawn.
pub fn render_sprites(
    framebuffer: &mut Framebuffer,
    player: &Player,
    sprites: &Vec<Sprite>,
    z_buffer: &Vec<u64>,
    texture_manager: &TextureManager,
    column_dirs: &Vec<(i64, i64)>,
) -> (order: Vec<usize>)
    requires
        crate::projection::column_dirs_ok(column_dirs@, old(framebuffer).width as int),
        old(framebuffer).wf(),
        0 < old(framebuffer).width <= MAX_SCREEN,
        old(framebuffer).height <= MAX_SCREEN,
        player.wf(),
        forall|i: int| 0 <= i < sprites@.len() ==> (#[trigger] sprites@[i]).wf(),
        texture_manager.wf(),
        z_buffer@.len() == old(framebuffer).width,
    ensures
        final(framebuffer).wf(),
        final(framebuffer).width == old(framebuffer).width,
        final(framebuffer).height == old(framebuffer).height,
        final(framebuffer).background_color == old(framebuffer).background_color,
        order@.no_duplicates(),
        forall|k: int|
            0 <= k < order@.len() ==> #[trigger] order@[k] < sprites@.len() && !sprites@[order@[k] as int].collected,
        forall|i: int| 0 <= i < sprites@.len() && !(#[trigger] sprites@[i]).collected ==> order@.contains(i as usize),
        forall|a: int, b: int|
            0 <= a < b < order@.len() ==> dist2(sprites@[#[trigger] order@[a] as int], player.pos_x as int, player.pos_y as int)
                >= dist2(sprites@[#[trigger] order@[b] as int], player.pos_x as int, player.pos_y as int),
        forall|px: int, py: int|
            0 <= px < old(framebuffer).width && 0 <= py < old(framebuffer).height ==> (#[trigger] final(framebuffer).pixel(px, py))
                == layered_pixel(*old(framebuffer), *player, pick(sprites@, order@), *texture_manager, z_buffer@, column_dirs@, px, py),
{
    let order = visible_order(sprites, player.pos_x, player.pos_y);
    let ghost fb0 = *framebuffer;
    let ghost layers = pick(sprites@, order@);
    let mut k: usize = 0;
    while k < order.len()
        invariant
            framebuffer.wf(),
            framebuffer.width == fb0.width,
            framebuffer.height == fb0.height,
            framebuffer.background_color == fb0.background_color,
            0 < fb0.width <= MAX_SCREEN,
            fb0.height <= MAX_SCREEN,
            player.wf(),
            texture_manager.wf(),
            z_buffer@.len() == fb0.width,
            forall|i: int| 0 <= i < sprites@.len() ==> (#[trigger] sprites@[i]).wf(),
            forall|j: int| 0 <= j < order@.len() ==> #[trigger] order@[j] < sprites@.len(),
            layers == pick(sprites@, order@),
            crate::projection::column_dirs_ok(column_dirs@, fb0.width as int),
            k <= order@.len(),
            forall|px: int, py: int|
                0 <= px < fb0.width && 0 <= py < fb0.height ==> (#[trigger] framebuffer.pixel(px, py))
                    == layered_pixel(fb0, *player, layers.take(k as int), *texture_manager, z_buffer@, column_dirs@, px, py),
        decreases order@.len() - k,
    {
        let idx = order[k];
        let ghost before = *framebuffer;
        draw_sprite(framebuffer, player, &sprites[idx], texture_manager, z_buffer, column_dirs);
        proof {
            assert(layers.take(k + 1).drop_last() =~= layers.take(k as int));
            assert(layers.take(k + 1).last() == sprites@[idx as int]);
            assert forall|px: int, py: int| 0 <= px < fb0.width && 0 <= py < fb0.height implies (#[trigger] framebuffer.pixel(px, py))
                == layered_pixel(fb0, *player, layers.take(k + 1), *texture_manager, z_buffer@, column_dirs@, px, py) by {
                assert(before.pixel(px, py) == layered_pixel(fb0, *player, layers.take(k as int), *texture_manager, z_buffer@, column_dirs@, px, py));
            }
        }
        k = k + 1;
    }
    proof {
        assert(layers.take(order@.len() as int) =~= layers);
    }
    order
}

/// The symbols that stand for sprites in a map.
pub open spec fn is_sprite_symbol(c: char) -> bool {
    c == 'A' || c == 'B' || c == 'G'
}

/// The sprite a map cell `(i, j)` holding `c` yields, at the cell's center.
pub open spec fn cell_sprite(i: int, j: int, c: char, block_size: int) -> Sprite {
    Sprite {
        x: (i * block_size + block_size / 2) as i64,
        y: (j * block_size + block_size / 2) as i64,
        texture_char: c,
        collected: false,
    }
}

/// Every cell of the grid lies within `COORD_LIMIT` once scaled by `block_size`.
pub open spec fn grid_fits(g: Seq<Seq<char>>, block_size: int) -> bool {
    &&& g.len() * block_size <= COORD_LIMIT
    &&& forall|j: int| 0 <= j < g.len() ==> #[trigger] g[j].len() * block_size <= COORD_LIMIT
}

impl Sprite {
    /// A sprite for symbol `ch` at `(x, y)`, if the symbol has a texture.
    pub fn from_char(ch: char, x: i64, y: i64, texture_manager: &TextureManager) -> (r: Option<Sprite>)
        requires
            texture_manager.wf(),
        ensures
            r is Some <==> texture_manager.texture_for(ch) is Some,
            r matches Some(s) ==> s == (Sprite { x, y, texture_char: ch, collected: false }),
    {
        match texture_manager.get(ch) {
            Some(_) => Some(Sprite::new(x, y, ch)),
            None => None,
        }
    }
}

/// The sprite that cell `(i, j)` of the grid yields, if any.
pub open spec fn cell_yield(g: Seq<Seq<char>>, tm: TextureManager, block_size: int, i: int, j: int) -> Seq<Sprite> {
    if is_sprite_symbol(g[j][i]) && tm.texture_for(g[j][i]) is Some {
        seq![cell_sprite(i, j, g[j][i], block_size)]
    } else {
        Seq::empty()
    }
}

/// The sprites the first `n` cells of row `j` yield, left to right.
pub open spec fn row_sprites(g: Seq<Seq<char>>, tm: TextureManager, block_size: int, j: int, n: int) -> Seq<Sprite>
    decreases n,
{
    if n <= 0 {
        Seq::empty()
    } else {
        row_sprites(g, tm, block_size, j, n - 1) + cell_yield(g, tm, block_size, n - 1, j)
    }
}

/// The sprites the first `n` rows yield, in row-major order.
pub open spec fn grid_sprites(g: Seq<Seq<char>>, tm: TextureManager, block_size: int, n: int) -> Seq<Sprite>
    decreases n,
{
    if n <= 0 {
        Seq::empty()
    } else {
        grid_sprites(g, tm, block_size, n - 1) + row_sprites(g, tm, block_size, n - 1, g[n - 1].len() as int)
    }
}

/// The sprites a map places: one at the center of each cell holding a sprite
/// symbol that has a texture, in row-major order.
pub fn find_sprites(maze: &crate::maze::Maze, block_size: usize, texture_manager: &TextureManager) -> (r: Vec<Sprite>)
    requires
        0 < block_size,
        grid_fits(crate::maze::cells(maze), block_size as int),
        texture_manager.wf(),
    ensures
        r@ == grid_sprites(crate::maze::cells(maze), *texture_manager, block_size as int, crate::maze::cells(maze).len() as int),
        forall|k: int| 0 <= k < r@.len() ==> (#[trigger] r@[k]).wf(),
{
    let ghost g = crate::maze::cells(maze);
    let ghost bs = block_size as int;
    let ghost tm = *texture_manager;
    let mut out: Vec<Sprite> = Vec::new();
    let mut j: usize = 0;
    while j < maze.len()
        invariant
            g == crate::maze::cells(maze),
            bs == block_size,
            tm == *texture_manager,
            0 < block_size,
            grid_fits(g, bs),
            texture_manager.wf(),
            j <= g.len(),
            out@ == grid_sprites(g, tm, bs, j as int),
            forall|k: int| 0 <= k < out@.len() ==> (#[trigger] out@[k]).wf(),
        decreases g.len() - j,
    {
        let row = &maze[j];
        assert(row@ == g[j as int]);
        let ghost base = out@;
        let mut i: usize = 0;
        while i < row.len()
            invariant
                g == crate::maze::cells(maze),
                bs == block_size,
                tm == *texture_manager,
                0 < block_size,
                grid_fits(g, bs),
                texture_manager.wf(),
                j < g.len(),
                row@ == g[j as int],
                i <= row@.len(),
                base == grid_sprites(g, tm, bs, j as int),
                out@ == base + row_sprites(g, tm, bs, j as int, i as int),
                forall|k: int| 0 <= k < out@.len() ==> (#[trigger] out@[k]).wf(),
            decreases row@.len() - i,
        {
            let cell = row[i];
            let ghost prev = out@;
            if cell == 'A' || cell == 'B' || cell == 'G' {
                proof {
                    assert(g[j as int].len() * bs <= COORD_LIMIT);
                    assert(i * bs + bs <= COORD_LIMIT) by (nonlinear_arith)
                        requires i < g[j as int].len(), g[j as int].len() * bs <= COORD_LIMIT, bs > 0;
                    assert(j * bs + bs <= COORD_LIMIT) by (nonlinear_arith)
                        requires j < g.len(), g.len() * bs <= COORD_LIMIT, bs > 0;
                }
                let x = (i * block_size + block_size / 2) as i64;
                let y = (j * block_size + block_size / 2) as i64;
                match Sprite::from_char(cell, x, y, texture_manager) {
                    Some(s) => {
                        out.push(s);
                        assert(s == cell_sprite(i as int, j as int, g[j as int][i as int], bs));
                    },
                    None => {},
                }
            }
            proof {
                assert(out@ =~= prev + cell_yield(g, tm, bs, i as int, j as int));
                assert(row_sprites(g, tm, bs, j as int, i + 1) == row_sprites(g, tm, bs, j as int, i as int)
                    + cell_yield(g, tm, bs, i as int, j as int));
                assert(out@ =~= base + row_sprites(g, tm, bs, j as int, i + 1));
            }
            i = i + 1;
        }
        assert(grid_sprites(g, tm, bs, j + 1) == grid_sprites(g, tm, bs, j as int) + row_sprites(g, tm, bs, j as int, g[j as int].len() as int));
        j = j + 1;
    }
    out
}

} // verus!
