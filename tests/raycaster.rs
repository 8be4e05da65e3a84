use raycaster::caster::{cast_ray, MAX_DISTANCE};
use raycaster::color::{self, Color};
use raycaster::fixed::isqrt;
use raycaster::framebuffer::Framebuffer;
use raycaster::maze::{is_wall, load_maze, parse_maze, split_lines, Maze, MazeError};
use raycaster::minimap::{cell_to_color, mark_sprites, render_maze};
use raycaster::player::{is_heading_exec, is_unit_exec, move_by, move_player, Player, ONE};
use raycaster::projection::{render_world, wall_height};
use raycaster::sprites::{
    all_collected, collect_nearby, draw_sprite, find_sprites, render_sprites, visible_order, Sprite,
};
use raycaster::texture::{Texture, TextureManager};

fn grid(rows: &[&str]) -> Maze {
    load_maze(rows.iter().map(|r| r.chars().collect()).collect()).unwrap()
}

fn room() -> Maze {
    grid(&["+++", "+ +", "+++"])
}

fn corridor() -> Maze {
    grid(&["+++++", "+   +", "+++++"])
}

fn solid(w: usize, h: usize, c: Color) -> Texture {
    let mut data = Vec::new();
    for _ in 0..w * h {
        data.extend_from_slice(&[c.r, c.g, c.b, c.a]);
    }
    Texture::from_rgba(w, h, data).unwrap()
}

fn dir(angle: f64) -> (i64, i64) {
    (
        (angle.cos() * ONE as f64).round() as i64,
        (angle.sin() * ONE as f64).round() as i64,
    )
}

const TAN_30: i64 = 591;

fn dirs_for(heading: f64, fov: f64, width: usize) -> Vec<(i64, i64)> {
    (0..width)
        .map(|c| dir(heading - fov / 2.0 + fov * (c as f64 / width as f64)))
        .collect()
}

#[test]
fn load_maze_accepts_rectangular_rows() {
    let m = grid(&["+-+", "| |", "+-+"]);
    assert_eq!(m.len(), 3);
    assert_eq!(m[1], vec!['|', ' ', '|']);
}

#[test]
fn load_maze_rejects_empty_and_ragged() {
    assert_eq!(load_maze(vec![]), Err(MazeError::Empty));
    assert_eq!(load_maze(vec![vec![]]), Err(MazeError::Empty));
    let ragged = vec![vec!['+', '+'], vec!['+', '+'], vec!['+']];
    assert_eq!(load_maze(ragged), Err(MazeError::NotRectangular { row: 2 }));
}

#[test]
fn is_wall_inside_walls_empty_cells_and_outside() {
    let m = room();
    assert!(is_wall(50, 50, &m, 100));
    assert!(is_wall(250, 150, &m, 100));
    assert!(!is_wall(150, 150, &m, 100));
    assert!(!is_wall(100, 199, &m, 100));
    assert!(is_wall(-1, 150, &m, 100));
    assert!(is_wall(150, -5, &m, 100));
    assert!(is_wall(300, 150, &m, 100));
    assert!(is_wall(150, 1000, &m, 100));
}

#[test]
fn plane_follows_heading_and_fov() {
    let mut p = Player::new(150, 150, ONE, 0, TAN_30);
    assert_eq!((p.plane_x, p.plane_y), (0, -(ONE * TAN_30)));
    p.set_heading(0, ONE);
    assert_eq!((p.plane_x, p.plane_y), (ONE * TAN_30, 0));
    let (dx, dy) = dir(2.0);
    p.set_heading(dx, dy);
    assert_eq!((p.plane_x, p.plane_y), (dy * TAN_30, -(dx * TAN_30)));
    p.set_fov(ONE);
    assert_eq!((p.plane_x, p.plane_y), (dy * ONE, -(dx * ONE)));
}

#[test]
fn update_plane_twice_equals_once() {
    let (dx, dy) = dir(-2.5);
    let mut p = Player::new(10, 20, dx, dy, TAN_30);
    p.plane_x = 7;
    p.plane_y = -3;
    p.update_plane();
    let once = (p.plane_x, p.plane_y);
    p.update_plane();
    assert_eq!((p.plane_x, p.plane_y), once);
    assert_eq!(once, (dy * TAN_30, -(dx * TAN_30)));
}

#[test]
fn movement_is_blocked_per_axis() {
    let m = corridor();
    let mut p = Player::new(150, 150, ONE, 0, TAN_30);
    move_player(&mut p, &m, 100, 10, 0);
    assert_eq!((p.pos_x, p.pos_y), (160, 150));
    move_player(&mut p, &m, 100, -20, 0);
    assert_eq!((p.pos_x, p.pos_y), (140, 150));
    // strafing to the right of an east heading moves toward -y, into the wall
    move_player(&mut p, &m, 100, 0, 60);
    assert_eq!((p.pos_x, p.pos_y), (140, 150));
    move_player(&mut p, &m, 100, 0, 40);
    assert_eq!((p.pos_x, p.pos_y), (140, 110));
    move_player(&mut p, &m, 100, -50, 0);
    assert_eq!((p.pos_x, p.pos_y), (140, 110));
}

#[test]
fn cast_toward_wall_at_known_distance() {
    let m = corridor();
    let r = cast_ray(&m, 100, 250, 150, ONE, 0);
    assert!(r.hit);
    assert_eq!(r.distance, 150);
    assert_eq!(r.impact, '+');
    assert!(r.offset < 100);
    let back = cast_ray(&m, 100, 250, 150, -ONE, 0);
    assert!(back.hit);
    assert!(back.distance >= 150 && back.distance <= 151);
}

#[test]
fn cast_offset_follows_hit_point_along_face() {
    let m = corridor();
    let a = cast_ray(&m, 100, 150, 130, ONE, 0);
    let b = cast_ray(&m, 100, 150, 170, ONE, 0);
    assert_eq!(a.distance, 250);
    assert_eq!(a.offset, 30);
    assert_eq!(b.offset, 70);
}

#[test]
fn cast_without_wall_reports_no_hit() {
    let rows: Vec<Vec<char>> = vec![vec![' '; 100]; 3];
    let m = load_maze(rows).unwrap();
    let r = cast_ray(&m, 100, 50, 150, ONE, 0);
    assert!(!r.hit);
    assert_eq!(r.distance, MAX_DISTANCE);
}

#[test]
fn closed_room_hits_in_every_direction() {
    let m = room();
    for k in 0..64 {
        let (dx, dy) = dir(k as f64 * std::f64::consts::PI / 32.0);
        let r = cast_ray(&m, 100, 150, 150, dx, dy);
        assert!(r.hit);
        assert!(r.distance >= 50 && r.distance <= 101, "{} {}", k, r.distance);
    }
}

#[test]
fn wall_height_inverse_to_distance() {
    assert_eq!(wall_height(900, 100), 315);
    assert_eq!(wall_height(900, 200), 157);
    assert_eq!(wall_height(900, 200), wall_height(900, 100) / 2);
    assert!(wall_height(900, 300) <= wall_height(900, 200));
    assert_eq!(wall_height(900, 0), 31500);
    assert_eq!(wall_height(900, 1), 31500);
    // an odd screen height keeps its half row: 31 / 2 / 35 * 70 = 31
    assert_eq!(wall_height(31, 35), 31);
}

#[test]
fn unit_check_accepts_rounded_directions() {
    for k in 0..360 {
        let (dx, dy) = dir(k as f64 * std::f64::consts::PI / 180.0);
        assert!(is_unit_exec(dx, dy));
    }
    assert!(!is_unit_exec(724, 0));
    assert!(!is_unit_exec(ONE + 1, 0));
}

#[test]
fn render_world_follows_even_column_angles() {
    let m = corridor();
    let tm = TextureManager::new();
    let p = Player::new(250, 150, ONE, 0, ONE);
    let mut fb = Framebuffer::new(4, 10);
    // a 90 degree view: columns at -45, -22.5, 0 and 22.5 degrees
    let dirs = dirs_for(0.0, std::f64::consts::FRAC_PI_2, 4);
    let depth = render_world(&mut fb, &m, 100, &p, &tm, &dirs);
    assert_eq!(depth[2], 150);
    assert!((69..=72).contains(&depth[0]), "{}", depth[0]);
    assert!((130..=132).contains(&depth[1]), "{}", depth[1]);
    assert!((130..=132).contains(&depth[3]), "{}", depth[3]);
}

#[test]
fn render_world_fills_depth_and_pixels() {
    let m = corridor();
    let mut tm = TextureManager::new();
    tm.insert('+', solid(4, 4, color::red()));
    let p = Player::new(250, 150, ONE, 0, TAN_30);
    let mut fb = Framebuffer::new(40, 30);
    let depth = render_world(&mut fb, &m, 100, &p, &tm, &dirs_for(0.0, std::f64::consts::FRAC_PI_3, 40));
    assert_eq!(depth.len(), 40);
    assert_eq!(depth[20], 150);
    // the edge rays, 30 degrees off, meet the corridor side walls 50 units away
    assert!(depth.iter().all(|d| *d >= 99 && *d <= 175));
    assert!(depth[0] < 110 && depth[39] < 110);
    // wall height 15 / 150 * 70 = 7 rows, centred: rows 11 to 17
    assert_eq!(fb.get_pixel(20, 15), color::red());
    assert_eq!(fb.get_pixel(20, 11), color::red());
    assert_eq!(fb.get_pixel(20, 17), color::red());
    assert_eq!(fb.get_pixel(20, 10), color::skyblue());
    assert_eq!(fb.get_pixel(20, 18), color::lightgreen());
    assert_eq!(fb.get_pixel(20, 0), color::skyblue());
    assert_eq!(fb.get_pixel(20, 29), color::lightgreen());
}

#[test]
fn render_world_with_camera_inside_wall_clamps_height() {
    let m = room();
    let tm = TextureManager::new();
    let p = Player::new(50, 50, ONE, 0, TAN_30);
    let mut fb = Framebuffer::new(8, 6);
    let depth = render_world(&mut fb, &m, 100, &p, &tm, &dirs_for(0.0, std::f64::consts::FRAC_PI_3, 8));
    assert!(depth.iter().all(|d| *d == 0));
    assert_eq!(fb.get_pixel(3, 0), color::white());
    assert_eq!(fb.get_pixel(3, 5), color::white());
}

fn sprite_setup() -> (Player, TextureManager, Framebuffer) {
    let mut tm = TextureManager::new();
    tm.insert('A', solid(8, 8, color::yellow()));
    let p = Player::new(150, 150, ONE, 0, TAN_30);
    let fb = Framebuffer::new(100, 100);
    (p, tm, fb)
}

#[test]
fn occluded_sprite_writes_nothing() {
    let (p, tm, mut fb) = sprite_setup();
    let s = Sprite::new(250, 150, 'A');
    let z = vec![50u64; 100];
    let before = fb.buffer.clone();
    draw_sprite(&mut fb, &p, &s, &tm, &z, &dirs_for(0.0, std::f64::consts::FRAC_PI_3, 100));
    assert_eq!(fb.buffer, before);
}

#[test]
fn sprite_straight_ahead_is_centred() {
    let (p, tm, mut fb) = sprite_setup();
    let s = Sprite::new(250, 150, 'A');
    let z = vec![1000u64; 100];
    draw_sprite(&mut fb, &p, &s, &tm, &z, &dirs_for(0.0, std::f64::consts::FRAC_PI_3, 100));
    // size 50 * 70 / 100 = 35, centred on column 50: columns 33..68
    assert_eq!(fb.get_pixel(50, 50), color::yellow());
    assert_eq!(fb.get_pixel(33, 50), color::yellow());
    assert_eq!(fb.get_pixel(67, 50), color::yellow());
    assert_eq!(fb.get_pixel(32, 50), color::black());
    assert_eq!(fb.get_pixel(68, 50), color::black());
}

#[test]
fn sprite_behind_or_outside_view_is_skipped() {
    let (p, tm, mut fb) = sprite_setup();
    let z = vec![1000u64; 100];
    let before = fb.buffer.clone();
    draw_sprite(&mut fb, &p, &Sprite::new(50, 150, 'A'), &tm, &z, &dirs_for(0.0, std::f64::consts::FRAC_PI_3, 100));
    draw_sprite(&mut fb, &p, &Sprite::new(160, 400, 'A'), &tm, &z, &dirs_for(0.0, std::f64::consts::FRAC_PI_3, 100));
    draw_sprite(&mut fb, &p, &Sprite::new(150, 150, 'A'), &tm, &z, &dirs_for(0.0, std::f64::consts::FRAC_PI_3, 100));
    draw_sprite(&mut fb, &p, &Sprite::new(250, 150, 'Z'), &tm, &z, &dirs_for(0.0, std::f64::consts::FRAC_PI_3, 100));
    assert_eq!(fb.buffer, before);
}

#[test]
fn transparent_texels_are_skipped() {
    let (p, mut tm, mut fb) = sprite_setup();
    tm.insert('B', solid(8, 8, color::transparent_color()));
    tm.insert('G', solid(8, 8, Color::new(10, 20, 30, 0)));
    let z = vec![1000u64; 100];
    let before = fb.buffer.clone();
    draw_sprite(&mut fb, &p, &Sprite::new(250, 150, 'B'), &tm, &z, &dirs_for(0.0, std::f64::consts::FRAC_PI_3, 100));
    draw_sprite(&mut fb, &p, &Sprite::new(250, 150, 'G'), &tm, &z, &dirs_for(0.0, std::f64::consts::FRAC_PI_3, 100));
    assert_eq!(fb.buffer, before);
}

#[test]
fn nearer_sprites_are_drawn_last() {
    let (p, mut tm, mut fb) = sprite_setup();
    tm.insert('B', solid(8, 8, color::green()));
    let sprites = vec![Sprite::new(200, 150, 'B'), Sprite::new(300, 150, 'A')];
    let z = vec![1000u64; 100];
    let order = render_sprites(&mut fb, &p, &sprites, &z, &tm, &dirs_for(0.0, std::f64::consts::FRAC_PI_3, 100));
    assert_eq!(order, vec![1, 0]);
    assert_eq!(fb.get_pixel(50, 50), color::green());
}

#[test]
fn visible_order_skips_collected_and_sorts_far_to_near() {
    let mut sprites = vec![
        Sprite::new(10, 0, 'A'),
        Sprite::new(30, 0, 'A'),
        Sprite::new(20, 0, 'A'),
        Sprite::new(40, 0, 'A'),
    ];
    sprites[3].collected = true;
    assert_eq!(visible_order(&sprites, 0, 0), vec![1, 2, 0]);
}

#[test]
fn proximity_collects_once_and_for_good() {
    let mut sprites = vec![Sprite::new(200, 150, 'A'), Sprite::new(400, 150, 'B')];
    let mut p = Player::new(150, 150, ONE, 0, TAN_30);
    collect_nearby(&mut sprites, &p);
    assert!(sprites[0].collected);
    assert!(!sprites[1].collected);
    assert!(!all_collected(&sprites));
    p.pos_x = 1000;
    collect_nearby(&mut sprites, &p);
    assert!(sprites[0].collected);
    assert!(!sprites[1].collected);
    p.pos_x = 330;
    collect_nearby(&mut sprites, &p);
    assert!(sprites[1].collected);
    assert!(all_collected(&sprites));
}

#[test]
fn collection_needs_strictly_closer_than_radius() {
    let mut sprites = vec![Sprite::new(230, 150, 'A'), Sprite::new(229, 150, 'A')];
    let p = Player::new(150, 150, ONE, 0, TAN_30);
    collect_nearby(&mut sprites, &p);
    assert!(!sprites[0].collected);
    assert!(sprites[1].collected);
}

#[test]
fn find_sprites_places_textured_symbols_at_cell_centres() {
    let m = grid(&["+++++", "+A B+", "+ G +", "+++++"]);
    let mut tm = TextureManager::new();
    tm.insert('A', solid(2, 2, color::red()));
    tm.insert('G', solid(2, 2, color::green()));
    let s = find_sprites(&m, 100, &tm);
    assert_eq!(s, vec![Sprite::new(150, 150, 'A'), Sprite::new(250, 250, 'G')]);
    let m = grid(&["G A", "A G"]);
    let s = find_sprites(&m, 10, &tm);
    assert_eq!(
        s,
        vec![
            Sprite::new(5, 5, 'G'),
            Sprite::new(25, 5, 'A'),
            Sprite::new(5, 15, 'A'),
            Sprite::new(25, 15, 'G'),
        ]
    );
    assert!(Sprite::from_char('B', 0, 0, &tm).is_none());
}

#[test]
fn texture_lookup_clamps_and_defaults_to_white() {
    let data = vec![
        1, 2, 3, 4, 5, 6, 7, 8, //
        9, 10, 11, 12, 13, 14, 15, 16,
    ];
    let t = Texture::from_rgba(2, 2, data).unwrap();
    assert_eq!(t.pixel(1, 0), Color::new(5, 6, 7, 8));
    assert_eq!(t.pixel(0, 1), Color::new(9, 10, 11, 12));
    assert_eq!(t.pixel(9, 9), Color::new(13, 14, 15, 16));
    let mut tm = TextureManager::new();
    tm.insert('+', t);
    assert_eq!(tm.get_pixel_color('+', 5, 0), Color::new(5, 6, 7, 8));
    assert_eq!(tm.get_pixel_color('x', 0, 0), color::white());
    assert_eq!(tm.get_pixel_color('é', 0, 0), color::white());
    tm.insert('é', solid(1, 1, color::green()));
    assert_eq!(tm.get_pixel_color('é', 3, 3), color::green());
    assert!(Texture::from_rgba(2, 2, vec![0; 15]).is_none());
    assert!(Texture::from_rgba(0, 2, vec![]).is_none());
}

#[test]
fn framebuffer_clear_and_set_pixel() {
    let mut fb = Framebuffer::new(4, 3);
    fb.set_background_color(Color::new(50, 50, 100, 255));
    fb.clear();
    assert!(fb.buffer.iter().all(|c| *c == Color::new(50, 50, 100, 255)));
    fb.set_current_color(color::red());
    fb.set_pixel(3, 2);
    assert_eq!(fb.get_pixel(3, 2), color::red());
    assert_eq!(fb.buffer[11], color::red());
    assert_eq!(fb.get_pixel(2, 2), Color::new(50, 50, 100, 255));
}

#[test]
fn minimap_draws_cells_and_marker() {
    let m = grid(&["+g", " p"]);
    let mut tm = TextureManager::new();
    tm.insert('+', solid(4, 4, color::blueviolet()));
    let p = Player::new(52, 3, ONE, 0, TAN_30);
    let mut fb = Framebuffer::new(30, 30);
    render_maze(&mut fb, &m, 10, &p, &tm);
    assert_eq!(fb.get_pixel(0, 0), color::blueviolet());
    assert_eq!(fb.get_pixel(15, 5), color::green());
    assert_eq!(fb.get_pixel(15, 15), color::red());
    assert_eq!(fb.get_pixel(5, 15), color::black());
    assert_eq!(fb.get_pixel(25, 5), color::black());
    assert_eq!(fb.get_pixel(10, 0), color::red());
    assert_eq!(cell_to_color('-'), color::violet());
    assert_eq!(cell_to_color('?'), color::white());
}

#[test]
fn integer_helpers() {
    assert_eq!(isqrt(0), 0);
    assert_eq!(isqrt(15), 3);
    assert_eq!(isqrt(16), 4);
    assert_eq!(isqrt(1 << 70), 1 << 35);
}

#[test]
fn heading_check_accepts_rounded_unit_vectors() {
    assert!(is_heading_exec(ONE, 0));
    assert!(is_heading_exec(724, -724));
    assert!(!is_heading_exec(0, 0));
    assert!(!is_heading_exec(700, 0));
    assert!(!is_heading_exec(ONE + 1, 0));
}

#[test]
fn minimap_marks_sprites_still_out() {
    let mut fb = Framebuffer::new(50, 50);
    let mut taken = Sprite::new(100, 100, 'B');
    taken.collected = true;
    let sprites = vec![Sprite::new(150, 50, 'A'), taken, Sprite::new(5000, 5, 'G')];
    mark_sprites(&mut fb, &sprites);
    assert_eq!(fb.get_pixel(30, 10), color::yellow());
    assert_eq!(fb.get_pixel(20, 20), color::black());
    assert_eq!(fb.buffer.iter().filter(|c| **c == color::yellow()).count(), 1);
}

#[test]
fn split_lines_handles_line_endings() {
    let t: Vec<char> = "ab\r\n\ncd\n".chars().collect();
    assert_eq!(split_lines(&t), vec![vec!['a', 'b'], vec![], vec!['c', 'd']]);
    let t: Vec<char> = "x\ry".chars().collect();
    assert_eq!(split_lines(&t), vec![vec!['x', '\r', 'y']]);
    assert_eq!(split_lines(&vec![]), Vec::<Vec<char>>::new());
}

#[test]
fn parse_maze_reads_rows_and_rejects_ragged_text() {
    let t: Vec<char> = "+++\n+ +\n+++\n".chars().collect();
    assert_eq!(parse_maze(&t).unwrap(), room());
    let t: Vec<char> = "+++\n+ \n+++".chars().collect();
    assert_eq!(parse_maze(&t), Err(MazeError::NotRectangular { row: 1 }));
    assert_eq!(parse_maze(&vec![]), Err(MazeError::Empty));
}

#[test]
fn zero_distance_fills_a_one_row_screen() {
    let m = room();
    let tm = TextureManager::new();
    let p = Player::new(50, 50, ONE, 0, TAN_30);
    let mut fb = Framebuffer::new(4, 1);
    let depth = render_world(&mut fb, &m, 100, &p, &tm, &dirs_for(0.0, std::f64::consts::FRAC_PI_3, 4));
    assert_eq!(depth, vec![0, 0, 0, 0]);
    assert!(fb.buffer.iter().all(|c| *c == color::white()));
}

#[test]
fn move_by_blocks_each_axis_on_its_own() {
    let m = corridor();
    let mut p = Player::new(150, 150, ONE, 0, TAN_30);
    move_by(&mut p, &m, 100, 30, -60);
    assert_eq!((p.pos_x, p.pos_y), (180, 150));
    move_by(&mut p, &m, 100, -7, 40);
    assert_eq!((p.pos_x, p.pos_y), (173, 190));
}

#[test]
fn odd_screen_sprite_keeps_full_size() {
    let mut tm = TextureManager::new();
    tm.insert('A', solid(8, 8, color::yellow()));
    let p = Player::new(150, 150, ONE, 0, TAN_30);
    let mut fb = Framebuffer::new(100, 31);
    let z = vec![1000u64; 100];
    // size 31 / 2 / 35 * 70 = 31: the whole column height
    draw_sprite(&mut fb, &p, &Sprite::new(185, 150, 'A'), &tm, &z, &dirs_for(0.0, std::f64::consts::FRAC_PI_3, 100));
    assert!((0..31).all(|y| fb.get_pixel(50, y) == color::yellow()));
}
