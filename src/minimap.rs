use vstd::prelude::*;
use crate::color::{Color, blueviolet, violet, green, red, white, yellow, spec_blueviolet, spec_violet, spec_green, spec_red, spec_white};
use crate::sprites::Sprite;
use crate::framebuffer::Framebuffer;
use crate::maze::{Maze, cells, in_grid};
use crate::player::Player;
use crate::projection::MAX_SCREEN;
use crate::texture::TextureManager;

verus! {

/// World units per minimap pixel for the camera marker.
pub const MINIMAP_SCALE: i64 = 5;

/// The flat color of a cell symbol that has no texture.
pub open spec fn cell_color(cell: char) -> Color {
    if cell == '+' {
        spec_blueviolet()
    } else if cell == '-' || cell == '|' {
        spec_violet()
    } else if cell == 'g' {
        spec_green()
    } else if cell == 'p' {
        spec_red()
    } else {
        spec_white()
    }
}

pub fn cell_to_color(cell: char) -> (c: Color)
    ensures
        c == cell_color(cell),
{
    match cell {
        '+' => blueviolet(),
        '-' => violet(),
        '|' => violet(),
        'g' => green(),
        'p' => red(),
        _ => white(),
    }
}

/// The color at offset `(dx, dy)` inside a minimap cell of side `size`
/// showing `cell`: its texture scaled down, or its flat color.
pub open spec fn cell_pixel(tm: TextureManager, cell: char, size: int, dx: int, dy: int) -> Color {
    match tm.texture_for(cell) {
        Some(t) => t.clamped_texel(dx * t.width / size, dy * t.height / size),
        None => cell_color(cell),
    }
}

/// Draws one minimap cell with its top-left corner at `(xo, yo)`; nothing
/// for an empty cell. Pixels beyond the surface are skipped.
pub fn draw_cell(
    framebuffer: &mut Framebuffer,
    xo: usize,
    yo: usize,
    block_size: usize,
    cell: char,
    texture_cache: &TextureManager,
)
    requires
        old(framebuffer).wf(),
        old(framebuffer).width <= MAX_SCREEN,
        old(framebuffer).height <= MAX_SCREEN,
        0 < block_size <= MAX_SCREEN,
        xo <= MAX_SCREEN * MAX_SCREEN,
        yo <= MAX_SCREEN * MAX_SCREEN,
        texture_cache.wf(),
    ensures
        final(framebuffer).wf(),
        final(framebuffer).width == old(framebuffer).width,
        final(framebuffer).height == old(framebuffer).height,
        final(framebuffer).background_color == old(framebuffer).background_color,
        forall|px: int, py: int|
            0 <= px < old(framebuffer).width && 0 <= py < old(framebuffer).height ==> (#[trigger] final(framebuffer).pixel(px, py))
                == (if cell != ' ' && xo <= px < xo + block_size && yo <= py < yo + block_size {
                cell_pixel(*texture_cache, cell, block_size as int, px - xo, py - yo)
            } else {
                old(framebuffer).pixel(px, py)
            }),
{
    if cell == ' ' {
        return;
    }
    let ghost fb0 = *framebuffer;
    let w = framebuffer.width;
    let h = framebuffer.height;
    let tex = texture_cache.get(cell);
    let x_end: usize = if xo + block_size < w { xo + block_size } else { w };
    let y_end: usize = if yo + block_size < h { yo + block_size } else { h };
    let mut x: usize = xo;
    while x < x_end
        invariant
            framebuffer.wf(),
            framebuffer.width == w,
            framebuffer.height == h,
            framebuffer.background_color == fb0.background_color,
            fb0.width == w,
            fb0.height == h,
            w <= MAX_SCREEN,
            h <= MAX_SCREEN,
            0 < block_size <= MAX_SCREEN,
            cell != ' ',
            xo <= x,
            x <= x_end || x == xo,
            x_end as int == (if xo + block_size < w { xo + block_size } else { w as int }),
            y_end as int == (if yo + block_size < h { yo + block_size } else { h as int }),
            match tex {
                Some(t) => texture_cache.texture_for(cell) == Some(*t) && t.wf(),
                None => texture_cache.texture_for(cell) is None,
            },
            forall|px: int, py: int|
                0 <= px < w && 0 <= py < h ==> (#[trigger] framebuffer.pixel(px, py)) == (if xo <= px < x && yo
                    <= py < yo + block_size {
                    cell_pixel(*texture_cache, cell, block_size as int, px - xo, py - yo)
                } else {
                    fb0.pixel(px, py)
                }),
        decreases x_end - x,
    {
        let mut y: usize = yo;
        while y < y_end
            invariant
                framebuffer.wf(),
                framebuffer.width == w,
                framebuffer.height == h,
                framebuffer.background_color == fb0.background_color,
                fb0.width == w,
                fb0.height == h,
                w <= MAX_SCREEN,
                h <= MAX_SCREEN,
                0 < block_size <= MAX_SCREEN,
                cell != ' ',
                xo <= x < x_end,
                yo <= y,
                y <= y_end || y == yo,
                x_end as int == (if xo + block_size < w { xo + block_size } else { w as int }),
                y_end as int == (if yo + block_size < h { yo + block_size } else { h as int }),
                match tex {
                    Some(t) => texture_cache.texture_for(cell) == Some(*t) && t.wf(),
                    None => texture_cache.texture_for(cell) is None,
                },
                forall|px: int, py: int|
                    0 <= px < w && 0 <= py < h ==> (#[trigger] framebuffer.pixel(px, py)) == (if (xo <= px < x
                        && yo <= py < yo + block_size) || (px == x && yo <= py < y) {
                        cell_pixel(*texture_cache, cell, block_size as int, px - xo, py - yo)
                    } else {
                        fb0.pixel(px, py)
                    }),
            decreases y_end - y,
        {
            let dx = x - xo;
            let dy = y - yo;
            let color = match tex {
                Some(t) => {
                    proof {
                        assert(dx * t.width <= MAX_SCREEN * 4096) by (nonlinear_arith)
                            requires dx < block_size, block_size <= MAX_SCREEN, t.width <= 4096;
                        assert(dy * t.height <= MAX_SCREEN * 4096) by (nonlinear_arith)
                            requires dy < block_size, block_size <= MAX_SCREEN, t.height <= 4096;
                        assert(dx * t.width / (block_size as int) < t.width) by (nonlinear_arith)
                            requires dx < block_size, block_size > 0, t.width > 0;
                        assert(dy * t.height / (block_size as int) < t.height) by (nonlinear_arith)
                            requires dy < block_size, block_size > 0, t.height > 0;
                    }
                    let tx = dx * t.width / block_size;
                    let ty = dy * t.height / block_size;
                    t.pixel(tx as u32, ty as u32)
                },
                None => cell_to_color(cell),
            };
            framebuffer.put_pixel(x, y, color);
            y = y + 1;
        }
        assert(y >= y_end);
        assert forall|px: int, py: int|
            0 <= px < w && 0 <= py < h implies (#[trigger] framebuffer.pixel(px, py)) == (if xo <= px < x + 1
                && yo <= py < yo + block_size {
                cell_pixel(*texture_cache, cell, block_size as int, px - xo, py - yo)
            } else {
                fb0.pixel(px, py)
            }) by {
            if px == x && yo <= py < yo + block_size {
                assert(py < y);
            }
        }
        x = x + 1;
    }
    assert(x >= x_end);
    assert forall|px: int, py: int|
        0 <= px < w && 0 <= py < h implies (#[trigger] framebuffer.pixel(px, py)) == (if xo <= px < xo + block_size
            && yo <= py < yo + block_size {
            cell_pixel(*texture_cache, cell, block_size as int, px - xo, py - yo)
        } else {
            fb0.pixel(px, py)
        }) by {
        if xo <= px < xo + block_size {
            assert(px < x);
        }
    }
}

/// Pixel `(px, py)` of the minimap drawn over `fb` with cells of side `size`.
pub open spec fn minimap_pixel(fb: Framebuffer, g: Seq<Seq<char>>, size: int, tm: TextureManager, px: int, py: int) -> Color {
    let i = px / size;
    let j = py / size;
    if in_grid(g, i, j) && g[j][i] != ' ' {
        cell_pixel(tm, g[j][i], size, px % size, py % size)
    } else {
        fb.pixel(px, py)
    }
}

/// The minimap pixel that marks the camera, if it falls on the surface.
pub open spec fn marker(p: Player, w: int, h: int) -> Option<(int, int)> {
    if p.pos_x >= 0 && p.pos_y >= 0 && p.pos_x / MINIMAP_SCALE < w && p.pos_y / MINIMAP_SCALE < h {
        Some((p.pos_x / MINIMAP_SCALE, p.pos_y / MINIMAP_SCALE))
    } else {
        None
    }
}

proof fn lemma_in_block(p: int, i: int, size: int)
    requires
        size > 0,
        p >= 0,
        i >= 0,
    ensures
        (i * size <= p < i * size + size) <==> p / size == i,
        p / size == i ==> p - i * size == p % size,
{
    vstd::arithmetic::div_mod::lemma_fundamental_div_mod(p, size);
    let q = p / size;
    let r = p % size;
    assert(0 <= r < size);
    if i * size <= p < i * size + size {
        if q < i {
            assert(size * q + r < i * size) by (nonlinear_arith)
                requires q < i, r < size, size > 0;
        } else if q > i {
            assert(size * q + r >= i * size + size) by (nonlinear_arith)
                requires q > i, r >= 0, size > 0;
        }
    }
    if q == i {
        assert(size * q == i * size) by (nonlinear_arith)
            requires q == i;
    }
}

/// Draws the minimap: each non-empty cell of the maze as a square of side
/// `block_size` in the top-left corner, then the camera as one red pixel at its
/// position over `MINIMAP_SCALE`.
pub fn render_maze(
    framebuffer: &mut Framebuffer,
    maze: &Maze,
    block_size: usize,
    player: &Player,
    texture_cache: &TextureManager,
)
    requires
        old(framebuffer).wf(),
        old(framebuffer).width <= MAX_SCREEN,
        old(framebuffer).height <= MAX_SCREEN,
        0 < block_size <= MAX_SCREEN,
        texture_cache.wf(),
    ensures
        final(framebuffer).wf(),
        final(framebuffer).width == old(framebuffer).width,
        final(framebuffer).height == old(framebuffer).height,
        final(framebuffer).background_color == old(framebuffer).background_color,
        forall|px: int, py: int|
            0 <= px < old(framebuffer).width && 0 <= py < old(framebuffer).height ==> (#[trigger] final(framebuffer).pixel(px, py))
                == (if marker(*player, old(framebuffer).width as int, old(framebuffer).height as int) == Some((px, py)) {
                red()
            } else {
                minimap_pixel(*old(framebuffer), cells(maze), block_size as int, *texture_cache, px, py)
            }),
{
    let ghost fb0 = *framebuffer;
    let ghost g = cells(maze);
    let ghost cs = block_size as int;
    let w = framebuffer.width;
    let h = framebuffer.height;
    let mut j: usize = 0;
    while j < maze.len() && j * block_size < h
        invariant
            framebuffer.wf(),
            framebuffer.width == w,
            framebuffer.height == h,
            framebuffer.background_color == fb0.background_color,
            fb0.width == w,
            fb0.height == h,
            w <= MAX_SCREEN,
            h <= MAX_SCREEN,
            0 < block_size <= MAX_SCREEN,
            cs == block_size,
            g == cells(maze),
            texture_cache.wf(),
            j <= maze@.len(),
            j * block_size <= h + block_size,
            forall|px: int, py: int|
                0 <= px < w && 0 <= py < h ==> (#[trigger] framebuffer.pixel(px, py)) == (if py / cs < j {
                    minimap_pixel(fb0, g, cs, *texture_cache, px, py)
                } else {
                    fb0.pixel(px, py)
                }),
        decreases maze@.len() - j,
    {
        let row = &maze[j];
        let mut i: usize = 0;
        while i < row.len() && i * block_size < w
            invariant
                framebuffer.wf(),
                framebuffer.width == w,
                framebuffer.height == h,
                framebuffer.background_color == fb0.background_color,
                fb0.width == w,
                fb0.height == h,
                w <= MAX_SCREEN,
                h <= MAX_SCREEN,
                0 < block_size <= MAX_SCREEN,
                cs == block_size,
                g == cells(maze),
                texture_cache.wf(),
                j < maze@.len(),
                j * block_size < h,
                row@ == g[j as int],
                i <= row@.len(),
                i * block_size <= w + block_size,
                forall|px: int, py: int|
                    0 <= px < w && 0 <= py < h ==> (#[trigger] framebuffer.pixel(px, py)) == (if py / cs < j
                        || (py / cs == j && px / cs < i) {
                        minimap_pixel(fb0, g, cs, *texture_cache, px, py)
                    } else {
                        fb0.pixel(px, py)
                    }),
            decreases row@.len() - i,
        {
            let xo = i * block_size;
            let yo = j * block_size;
            let cell = row[i];
            let ghost before = *framebuffer;
            draw_cell(framebuffer, xo, yo, block_size, cell, texture_cache);
            proof {
                assert forall|px: int, py: int|
                    0 <= px < w && 0 <= py < h implies (#[trigger] framebuffer.pixel(px, py)) == (if py / cs < j
                        || (py / cs == j && px / cs < i + 1) {
                        minimap_pixel(fb0, g, cs, *texture_cache, px, py)
                    } else {
                        fb0.pixel(px, py)
                    }) by {
                    lemma_in_block(px, i as int, cs);
                    lemma_in_block(py, j as int, cs);
                    vstd::arithmetic::div_mod::lemma_div_pos_is_pos(px, cs);
                    vstd::arithmetic::div_mod::lemma_div_pos_is_pos(py, cs);
                    if px / cs == i && py / cs == j {
                        assert(in_grid(g, i as int, j as int));
                        assert(g[j as int][i as int] == cell);
                    }
                }
            }
            assert((i + 1) * block_size == i * block_size + block_size) by (nonlinear_arith);
            i = i + 1;
        }
        proof {
            assert forall|px: int, py: int|
                0 <= px < w && 0 <= py < h implies (#[trigger] framebuffer.pixel(px, py)) == (if py / cs < j + 1 {
                    minimap_pixel(fb0, g, cs, *texture_cache, px, py)
                } else {
                    fb0.pixel(px, py)
                }) by {
                vstd::arithmetic::div_mod::lemma_div_pos_is_pos(px, cs);
                if py / cs == j && px / cs >= i {
                    // beyond the row's end or right of the surface: nothing to draw
                    if px / cs < row@.len() {
                        assert(i * block_size >= w);
                        lemma_in_block(px, px / cs, cs);
                        assert(i * cs <= (px / cs) * cs) by (nonlinear_arith)
                            requires i <= px / cs, cs > 0;
                    }
                }
            }
        }
        assert((j + 1) * block_size == j * block_size + block_size) by (nonlinear_arith);
        j = j + 1;
    }
    proof {
        assert forall|px: int, py: int|
            0 <= px < w && 0 <= py < h implies (#[trigger] framebuffer.pixel(px, py)) == minimap_pixel(fb0, g, cs, *texture_cache, px, py) by {
            vstd::arithmetic::div_mod::lemma_div_pos_is_pos(py, cs);
            if py / cs >= j && j < maze@.len() {
                assert(j * block_size >= h);
                lemma_in_block(py, py / cs, cs);
                assert(j * cs <= (py / cs) * cs) by (nonlinear_arith)
                    requires j <= py / cs, cs > 0;
            }
        }
    }
    if player.pos_x >= 0 && player.pos_y >= 0 {
        let mx = player.pos_x / MINIMAP_SCALE;
        let my = player.pos_y / MINIMAP_SCALE;
        if mx < w as i64 && my < h as i64 {
            framebuffer.put_pixel(mx as usize, my as usize, red());
        }
    }
}

/// Sprite `s` is still out and its minimap dot is pixel `(px, py)`.
pub open spec fn marks(s: Sprite, px: int, py: int) -> bool {
    !s.collected && s.x >= 0 && s.y >= 0 && s.x / MINIMAP_SCALE == px && s.y / MINIMAP_SCALE == py
}

/// Some sprite among the first `n` has its minimap dot at `(px, py)`.
pub open spec fn marked(sprites: Seq<Sprite>, n: int, px: int, py: int) -> bool {
    exists|k: int| 0 <= k < n && #[trigger] marks(sprites[k], px, py)
}

/// Draws a yellow dot on the minimap for each sprite not yet collected.
pub fn mark_sprites(framebuffer: &mut Framebuffer, sprites: &Vec<Sprite>)
    requires
        old(framebuffer).wf(),
    ensures
        final(framebuffer).wf(),
        final(framebuffer).width == old(framebuffer).width,
        final(framebuffer).height == old(framebuffer).height,
        final(framebuffer).background_color == old(framebuffer).background_color,
        forall|px: int, py: int|
            0 <= px < old(framebuffer).width && 0 <= py < old(framebuffer).height ==> (#[trigger] final(framebuffer).pixel(px, py))
                == (if marked(sprites@, sprites@.len() as int, px, py) {
                yellow()
            } else {
                old(framebuffer).pixel(px, py)
            }),
{
    let ghost fb0 = *framebuffer;
    let w = framebuffer.width;
    let h = framebuffer.height;
    let mut i: usize = 0;
    while i < sprites.len()
        invariant
            framebuffer.wf(),
            framebuffer.width == w,
            framebuffer.height == h,
            framebuffer.background_color == fb0.background_color,
            fb0.width == w,
            fb0.height == h,
            i <= sprites@.len(),
            forall|px: int, py: int|
                0 <= px < w && 0 <= py < h ==> (#[trigger] framebuffer.pixel(px, py)) == (if marked(sprites@, i as int, px, py) {
                    yellow()
                } else {
                    fb0.pixel(px, py)
                }),
        decreases sprites@.len() - i,
    {
        let s = sprites[i];
        if !s.collected && s.x >= 0 && s.y >= 0 {
            let mx = s.x / MINIMAP_SCALE;
            let my = s.y / MINIMAP_SCALE;
            if (mx as u64) < (w as u64) && (my as u64) < (h as u64) {
                framebuffer.put_pixel(mx as usize, my as usize, yellow());
            }
        }
        proof {
            assert forall|px: int, py: int|
                0 <= px < w && 0 <= py < h implies (#[trigger] framebuffer.pixel(px, py)) == (if marked(sprites@, i + 1, px, py) {
                    yellow()
                } else {
                    fb0.pixel(px, py)
                }) by {
                if marks(sprites@[i as int], px, py) {
                    assert(marked(sprites@, i + 1, px, py));
                } else if marked(sprites@, i + 1, px, py) {
                    let k = choose|k: int| 0 <= k < i + 1 && #[trigger] marks(sprites@[k], px, py);
                    assert(marked(sprites@, i as int, px, py));
                } else {
                    assert(!marked(sprites@, i as int, px, py));
                }
            }
        }
        i = i + 1;
    }
}

} // verus!
