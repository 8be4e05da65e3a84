use vstd::prelude::*;
use crate::caster::{Intersect, cast_spec, cast_ray, cast_reports_first_wall};
use crate::color::{Color, white, skyblue, lightgreen};
use crate::framebuffer::Framebuffer;
use crate::maze::{Maze, cells};
use crate::player::{Player, is_unit, ONE};
use crate::texture::TextureManager;

verus! {

/// The distance to the projection plane: the scale factor between the half
/// screen height over a distance and a projected height.
pub const PROJECTION_PLANE: u64 = 70;

/// The largest accepted screen side, in pixels.
pub const MAX_SCREEN: usize = 4096;

/// The projected height of a wall `distance` units away on a screen `height`
/// rows high: half the screen height over the distance, times
/// `PROJECTION_PLANE`, rounded down. A zero distance projects as distance one
/// would, the largest height there is.
pub open spec fn wall_height_spec(height: int, distance: int) -> int {
    if distance == 0 {
        height * PROJECTION_PLANE / 2
    } else {
        height * PROJECTION_PLANE / (2 * distance)
    }
}

pub fn wall_height(height: u64, distance: u64) -> (h: u64)
    requires
        height <= MAX_SCREEN,
    ensures
        h == wall_height_spec(height as int, distance as int),
        h <= height * PROJECTION_PLANE / 2,
{
    if distance == 0 {
        height * PROJECTION_PLANE / 2
    } else {
        let d2: u64 = if distance > 0x1000_0000 { 0x2000_0000 } else { 2 * distance };
        proof {
            if distance > 0x1000_0000 {
                assert(height * PROJECTION_PLANE / (2 * distance as int) == 0) by (nonlinear_arith)
                    requires height * PROJECTION_PLANE < 2 * distance, height * PROJECTION_PLANE >= 0;
                assert(height * PROJECTION_PLANE / (d2 as int) == 0) by (nonlinear_arith)
                    requires height * PROJECTION_PLANE < d2, height * PROJECTION_PLANE >= 0;
            }
            assert(height * PROJECTION_PLANE / (d2 as int) <= height * PROJECTION_PLANE / 2) by (nonlinear_arith)
                requires d2 >= 2, height >= 0;
        }
        height * PROJECTION_PLANE / d2
    }
}

/// `n` halved, rounded down (also for negative `n`).
pub fn floor_half(n: i64) -> (r: i64)
    requires
        n > i64::MIN,
    ensures
        r == n as int / 2,
{
    if n >= 0 {
        n / 2
    } else {
        let m: i64 = -n;
        proof {
            vstd::arithmetic::div_mod::lemma_fundamental_div_mod(n as int, 2);
            vstd::arithmetic::div_mod::lemma_fundamental_div_mod(m - 1, 2);
        }
        -((m - 1) / 2) - 1
    }
}

/// The wall stake `(top, bottom)` of a column on a screen `height` rows high:
/// the projected height centred on the screen, before clipping.
pub open spec fn stake(height: int, distance: int) -> (int, int) {
    let h = wall_height_spec(height, distance);
    let top = (height - h) / 2;
    (top, top + h)
}

/// The color of screen row `y` in a wall stake from `top` to `bottom`: the
/// texture of the symbol hit, its column from the hit offset, its row from
/// the position of `y` in the stake.
pub open spec fn wall_color(
    tm: TextureManager,
    inter: Intersect,
    block_size: int,
    top: int,
    bottom: int,
    y: int,
) -> Color {
    match tm.texture_for(inter.impact) {
        Some(t) => t.clamped_texel(
            inter.offset * t.width / block_size,
            (y - top) * t.height / (bottom - top),
        ),
        None => white(),
    }
}

/// The background of row `y`: sky above the middle row, ground from it down.
pub open spec fn backdrop(height: int, y: int) -> Color {
    if y < height / 2 {
        skyblue()
    } else {
        lightgreen()
    }
}

/// What the ray of screen column `c` meets, cast from the camera along `dirs[c]`.
pub open spec fn column_hit(g: Seq<Seq<char>>, bs: int, p: Player, dirs: Seq<(i64, i64)>, c: int) -> Intersect {
    cast_spec(g, bs, p.pos_x as int, p.pos_y as int, dirs[c].0 as int, dirs[c].1 as int)
}

/// The column directions are unit vectors, one per screen column.
pub open spec fn column_dirs_ok(dirs: Seq<(i64, i64)>, width: int) -> bool {
    &&& dirs.len() == width
    &&& forall|c: int| 0 <= c < width ==> #[trigger] is_unit(dirs[c].0 as int, dirs[c].1 as int)
}

/// The color of pixel `(x, y)` of a rendered view.
pub open spec fn view_pixel(
    g: Seq<Seq<char>>,
    bs: int,
    p: Player,
    tm: TextureManager,
    dirs: Seq<(i64, i64)>,
    height: int,
    x: int,
    y: int,
) -> Color {
    let inter = column_hit(g, bs, p, dirs, x);
    let (top, bottom) = stake(height, inter.distance as int);
    if top <= y < bottom {
        wall_color(tm, inter, bs, top, bottom, y)
    } else {
        backdrop(height, y)
    }
}

/// The largest accepted cell size, in world units.
pub const MAX_BLOCK_SIZE: usize = 65536;

/// Draws the wall stake of screen column `x` for what its ray met: every row
/// of the stake inside the surface gets the texture color of that row; all
/// other pixels stay as they were.
pub fn draw_column(
    fb: &mut Framebuffer,
    tm: &TextureManager,
    x: usize,
    inter: Intersect,
    block_size: usize,
)
    requires
        old(fb).wf(),
        x < old(fb).width,
        old(fb).height <= MAX_SCREEN,
        tm.wf(),
        0 < block_size <= MAX_BLOCK_SIZE,
        inter.offset < block_size,
    ensures
        final(fb).wf(),
        final(fb).width == old(fb).width,
        final(fb).height == old(fb).height,
        final(fb).background_color == old(fb).background_color,
        ({
            let (top, bottom) = stake(old(fb).height as int, inter.distance as int);
            forall|px: int, py: int|
                0 <= px < old(fb).width && 0 <= py < old(fb).height ==> (#[trigger] final(fb).pixel(px, py))
                    == (if px == x && top <= py < bottom {
                    wall_color(*tm, inter, block_size as int, top, bottom, py)
                } else {
                    old(fb).pixel(px, py)
                })
        }),
{
    let height = fb.height;
    let h = wall_height(height as u64, inter.distance);
    let top: i64 = floor_half(height as i64 - h as i64);
    let bottom: i64 = top + h as i64;
    let ghost span = stake(height as int, inter.distance as int);
    assert(span == (top as int, bottom as int));
    let y_start: usize = if top < 0 { 0 } else { top as usize };
    let y_end: usize = if bottom > height as i64 { height } else { bottom as usize };
    let tex = tm.get(inter.impact);
    let mut y: usize = y_start;
    while y < y_end
        invariant
            fb.wf(),
            fb.width == old(fb).width,
            fb.height == height,
            height == old(fb).height,
            fb.background_color == old(fb).background_color,
            x < fb.width,
            y_start <= y <= y_end,
            y_end <= height,
            0 <= top <= y_start || (top < 0 && y_start == 0),
            -200000 <= top <= bottom <= 200000,
            bottom - top <= 4096 * 35,
            y_end as int <= bottom,
            y_end as int == bottom || y_end as int == height,
            height <= MAX_SCREEN,
            0 < block_size <= MAX_BLOCK_SIZE,
            inter.offset < block_size,
            match tex {
                Some(t) => tm.texture_for(inter.impact) == Some(*t) && t.wf(),
                None => tm.texture_for(inter.impact) is None,
            },
            forall|px: int, py: int|
                0 <= px < fb.width && 0 <= py < fb.height ==> (#[trigger] fb.pixel(px, py)) == (if px == x
                    && top <= py < y {
                    wall_color(*tm, inter, block_size as int, top as int, bottom as int, py)
                } else {
                    old(fb).pixel(px, py)
                }),
        decreases y_end - y,
    {
        let color = match tex {
            Some(t) => {
                let off = inter.offset;
                let tw = t.width as u64;
                let th = t.height as u64;
                assert(y < 4096);
                let rel = (y as i64 - top) as u64;
                let span_len = (bottom - top) as u64;
                proof {
                    assert(off * tw <= MAX_BLOCK_SIZE * 4096) by (nonlinear_arith)
                        requires off < MAX_BLOCK_SIZE, tw <= 4096;
                    assert(rel * th <= (4096 * 35) * 4096) by (nonlinear_arith)
                        requires rel <= 4096 * 35, th <= 4096;
                    assert(off * tw / (block_size as int) < tw) by (nonlinear_arith)
                        requires off < block_size, block_size > 0, tw > 0;
                    assert(rel * th / (span_len as int) < th) by (nonlinear_arith)
                        requires rel < span_len, span_len > 0, th > 0;
                }
                let tx = off * tw / block_size as u64;
                let ty = rel * th / span_len;
                t.pixel(tx as u32, ty as u32)
            },
            None => white(),
        };
        fb.put_pixel(x, y, color);
        y = y + 1;
    }
    proof {
        assert forall|px: int, py: int|
            0 <= px < fb.width && 0 <= py < fb.height implies (#[trigger] fb.pixel(px, py)) == (if px == x
                && top <= py < bottom {
                wall_color(*tm, inter, block_size as int, top as int, bottom as int, py)
            } else {
                old(fb).pixel(px, py)
            }) by {
            assert(top <= py < bottom <==> top <= py < y);
        }
    }
}

/// Fills the upper half of the surface with sky and the lower half with ground.
pub fn fill_backdrop(fb: &mut Framebuffer)
    requires
        old(fb).wf(),
    ensures
        final(fb).wf(),
        final(fb).width == old(fb).width,
        final(fb).height == old(fb).height,
        final(fb).background_color == old(fb).background_color,
        forall|px: int, py: int|
            0 <= px < final(fb).width && 0 <= py < final(fb).height ==> (#[trigger] final(fb).pixel(px, py))
                == backdrop(final(fb).height as int, py),
{
    let w = fb.width;
    let h = fb.height;
    let mut x: usize = 0;
    while x < w
        invariant
            fb.wf(),
            fb.width == w,
            fb.height == h,
            fb.background_color == old(fb).background_color,
            x <= w,
            forall|px: int, py: int|
                0 <= px < x && 0 <= py < h ==> (#[trigger] fb.pixel(px, py)) == backdrop(h as int, py),
        decreases w - x,
    {
        let mut y: usize = 0;
        while y < h
            invariant
                fb.wf(),
                fb.width == w,
                fb.height == h,
                fb.background_color == old(fb).background_color,
                x < w,
                y <= h,
                forall|px: int, py: int|
                    0 <= px < x && 0 <= py < h ==> (#[trigger] fb.pixel(px, py)) == backdrop(h as int, py),
                forall|py: int| 0 <= py < y ==> (#[trigger] fb.pixel(x as int, py)) == backdrop(h as int, py),
            decreases h - y,
        {
            let c = if y < h / 2 { skyblue() } else { lightgreen() };
            fb.put_pixel(x, y, c);
            y = y + 1;
        }
        x = x + 1;
    }
}


/// Renders the 3-D view: backdrop, then for each screen column `c` a ray cast
/// from the camera along `column_dirs[c]` and its wall stake drawn. Returns
/// the depth buffer, the distance each column's ray travelled.
///
/// Column `c` looks along `heading - FOV/2 + FOV * c / width`; the caller
/// supplies those directions as fixed-point unit vectors.
pub fn render_world(
    framebuffer: &mut Framebuffer,
    maze: &Maze,
    block_size: usize,
    player: &Player,
    texture_cache: &TextureManager,
    column_dirs: &Vec<(i64, i64)>,
) -> (depth: Vec<u64>)
    requires
        column_dirs_ok(column_dirs@, old(framebuffer).width as int),
        old(framebuffer).wf(),
        0 < old(framebuffer).width <= MAX_SCREEN,
        old(framebuffer).height <= MAX_SCREEN,
        0 < block_size <= MAX_BLOCK_SIZE,
        player.wf(),
        texture_cache.wf(),
    ensures
        final(framebuffer).wf(),
        final(framebuffer).width == old(framebuffer).width,
        final(framebuffer).height == old(framebuffer).height,
        final(framebuffer).background_color == old(framebuffer).background_color,
        depth@.len() == old(framebuffer).width,
        forall|c: int|
            0 <= c < depth@.len() ==> #[trigger] depth@[c] == column_hit(
                cells(maze),
                block_size as int,
                *player,
                column_dirs@,
                c,
            ).distance,
        forall|px: int, py: int|
            0 <= px < final(framebuffer).width && 0 <= py < final(framebuffer).height ==> (#[trigger] final(framebuffer).pixel(px, py)) == view_pixel(
                cells(maze),
                block_size as int,
                *player,
                *texture_cache,
                column_dirs@,
                old(framebuffer).height as int,
                px,
                py,
            ),
{
    let ghost g = cells(maze);
    let ghost bs = block_size as int;
    let w = framebuffer.width;
    let h = framebuffer.height;
    fill_backdrop(framebuffer);
    let mut depth: Vec<u64> = Vec::new();
    let mut c: usize = 0;
    while c < w
        invariant
            framebuffer.wf(),
            framebuffer.width == w,
            framebuffer.height == h,
            framebuffer.background_color == old(framebuffer).background_color,
            w == old(framebuffer).width,
            h == old(framebuffer).height,
            0 < w <= MAX_SCREEN,
            h <= MAX_SCREEN,
            0 < block_size <= MAX_BLOCK_SIZE,
            player.wf(),
            texture_cache.wf(),
            g == cells(maze),
            bs == block_size as int,
            column_dirs_ok(column_dirs@, w as int),
            c <= w,
            depth@.len() == c,
            forall|k: int|
                0 <= k < c ==> #[trigger] depth@[k] == column_hit(g, bs, *player, column_dirs@, k).distance,
            forall|px: int, py: int|
                0 <= px < w && 0 <= py < h ==> (#[trigger] framebuffer.pixel(px, py)) == (if px < c {
                    view_pixel(g, bs, *player, *texture_cache, column_dirs@, h as int, px, py)
                } else {
                    backdrop(h as int, py)
                }),
        decreases w - c,
    {
        let (dx, dy) = column_dirs[c];
        assert(is_unit(dx as int, dy as int));
        let inter = cast_ray(maze, block_size, player.pos_x, player.pos_y, dx, dy);
        proof {
            cast_reports_first_wall(g, bs, player.pos_x as int, player.pos_y as int, dx as int, dy as int);
        }
        depth.push(inter.distance);
        let ghost before = *framebuffer;
        draw_column(framebuffer, texture_cache, c, inter, block_size);
        proof {
            assert forall|px: int, py: int|
                0 <= px < w && 0 <= py < h implies (#[trigger] framebuffer.pixel(px, py)) == (if px < c + 1 {
                    view_pixel(g, bs, *player, *texture_cache, column_dirs@, h as int, px, py)
                } else {
                    backdrop(h as int, py)
                }) by {
                assert(before.pixel(px, py) == (if px < c {
                    view_pixel(g, bs, *player, *texture_cache, column_dirs@, h as int, px, py)
                } else {
                    backdrop(h as int, py)
                }));
            }
            assert forall|k: int| 0 <= k < c + 1 implies #[trigger] depth@[k] == column_hit(g, bs, *player, column_dirs@, k).distance by {
                if k < c {
                    assert(depth@[k] == depth@.drop_last()[k]);
                }
            }
        }
        c = c + 1;
    }
    depth
}


/// Projected wall height falls as distance grows: doubling a nonzero distance
/// halves the height (rounded down), a farther wall is never taller, and a
/// zero distance yields the largest height, the one of distance one.
pub proof fn wall_height_inverse_in_distance(height: int, d: int, e: int)
    requires
        height >= 0,
        1 <= d <= e,
    ensures
        wall_height_spec(height, 2 * d) == wall_height_spec(height, d) / 2,
        wall_height_spec(height, e) <= wall_height_spec(height, d),
        wall_height_spec(height, d) <= wall_height_spec(height, 0),
        wall_height_spec(height, 0) == wall_height_spec(height, 1),
{
    let x = height * PROJECTION_PLANE;
    vstd::arithmetic::div_mod::lemma_div_denominator(x, 2 * d, 2);
    assert((2 * d) * 2 == 2 * (2 * d));
    vstd::arithmetic::div_mod::lemma_div_is_ordered_by_denominator(x, 2 * d, 2 * e);
    vstd::arithmetic::div_mod::lemma_div_is_ordered_by_denominator(x, 2, 2 * d);
}

/// A stake is exactly the projected height tall, and a nearer wall's stake
/// contains a farther one's: its rows are a superset, for any screen height.
pub proof fn stake_nested(height: int, d: int, e: int)
    requires
        height >= 0,
        0 <= d <= e,
    ensures
        stake(height, d).1 - stake(height, d).0 == wall_height_spec(height, d),
        stake(height, d).0 <= stake(height, e).0,
        stake(height, e).1 <= stake(height, d).1,
{
    let hd = wall_height_spec(height, d);
    let he = wall_height_spec(height, e);
    if d >= 1 {
        wall_height_inverse_in_distance(height, d, e);
    } else if e >= 1 {
        wall_height_inverse_in_distance(height, e, e);
    }
    assert(he <= hd);
    assert((height - hd) / 2 <= (height - he) / 2) by (nonlinear_arith)
        requires height - hd <= height - he;
    assert((height - he) / 2 + he <= (height - hd) / 2 + hd) by (nonlinear_arith)
        requires he <= hd;
}

/// In a closed 3 by 3 room, with the camera at the center of the open cell,
/// every screen column reports a hit no farther than one cell width plus one
/// marching step.
pub proof fn closed_room_columns_hit(g: Seq<Seq<char>>, bs: int, p: Player, dirs: Seq<(i64, i64)>, c: int)
    requires
        crate::caster::is_closed_room(g),
        bs > 0,
        bs + 1 <= crate::caster::MAX_DISTANCE,
        p.pos_x == bs + bs / 2,
        p.pos_y == bs + bs / 2,
        column_dirs_ok(dirs, dirs.len() as int),
        0 <= c < dirs.len(),
    ensures
        column_hit(g, bs, p, dirs, c).hit,
        column_hit(g, bs, p, dirs, c).distance <= bs + 1,
{
    let (dx, dy) = (dirs[c].0 as int, dirs[c].1 as int);
    assert(is_unit(dx, dy));
    crate::player::unit_is_heading(dx, dy);
    crate::caster::closed_room_always_hits(g, bs, dx, dy);
}

/// A screen column looking due east from an open stretch whose first blocked
/// point lies `d` units ahead records depth `d`, with a texture-column offset
/// below the cell size.
pub proof fn column_due_east_depth(g: Seq<Seq<char>>, bs: int, p: Player, dirs: Seq<(i64, i64)>, c: int, d: int)
    requires
        bs > 0,
        0 <= c < dirs.len(),
        dirs[c] == (ONE, 0i64),
        0 <= d <= crate::caster::MAX_DISTANCE,
        forall|e: int| 0 <= e < d ==> !#[trigger] crate::maze::wall_at(g, bs, p.pos_x + e, p.pos_y as int),
        crate::maze::wall_at(g, bs, p.pos_x + d, p.pos_y as int),
    ensures
        column_hit(g, bs, p, dirs, c).hit,
        column_hit(g, bs, p, dirs, c).distance == d,
        column_hit(g, bs, p, dirs, c).offset < bs,
{
    crate::caster::cast_east_hits_at_distance(g, bs, p.pos_x as int, p.pos_y as int, d);
}

} // verus!
