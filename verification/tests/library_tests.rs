use pixelplay::batch::instance_ranges;
use pixelplay::color::{color_image, rainbow_rgba, Color};
use pixelplay::cube::{CubeControls, CubeKey, Tilt};
use pixelplay::curves::Bezier;
use pixelplay::draw::{image_fits_frame, clear_image, draw_glyph, draw_glyphs, draw_image, draw_rect, set_pixel_at};
use pixelplay::drawable::Material;
use pixelplay::dvd::{dvd_style, dvd_style_fits, DvdState};
use pixelplay::dvd_bounce::{self, DvdBounceAnimation};
use pixelplay::mesh::wireframe_indices;
use pixelplay::space_flight::star_color;
use pixelplay::text::{glyph_cell_index, glyph_origin, layout_text};
use pixelplay::utils::{get_random_position, position_from_samples};

const ALL: [Color; 7] = [
    Color::Red,
    Color::Green,
    Color::Blue,
    Color::Yellow,
    Color::Cyan,
    Color::Purple,
    Color::White,
];

fn pixel(frame: &[u8], x: usize, y: usize, width: usize) -> (u8, u8, u8, u8) {
    let o = (y * width + x) * 4;
    (frame[o], frame[o + 1], frame[o + 2], frame[o + 3])
}

#[test]
fn color_rgb_values() {
    assert_eq!(Color::Red.to_rgb(), (255, 0, 0));
    assert_eq!(Color::Green.to_rgb(), (0, 255, 0));
    assert_eq!(Color::Blue.to_rgb(), (0, 0, 255));
    assert_eq!(Color::Yellow.to_rgb(), (255, 255, 0));
    assert_eq!(Color::Cyan.to_rgb(), (0, 255, 255));
    assert_eq!(Color::Purple.to_rgb(), (255, 0, 255));
    assert_eq!(Color::White.to_rgb(), (255, 255, 255));
}

#[test]
fn color_cycle_has_period_seven() {
    for start in ALL {
        let mut c = start;
        for step in 1..=7 {
            c = c.next();
            assert_eq!(c == start, step == 7);
        }
    }
    assert_eq!(Color::White.next(), Color::Red);
}

#[test]
fn color_from_index_names_the_cycle() {
    for (i, c) in ALL.iter().enumerate() {
        assert_eq!(Color::from_index(i as u32), *c);
    }
    assert_eq!(Color::from_index(7), Color::White);
    assert_eq!(Color::from_index(u32::MAX), Color::White);
}

#[test]
fn random_color_varies() {
    let mut seen_other = false;
    for _ in 0..200 {
        let c = Color::random();
        assert!(ALL.contains(&c));
        if c != Color::White {
            seen_other = true;
        }
    }
    assert!(seen_other);
}

#[test]
fn rainbow_values() {
    assert_eq!(rainbow_rgba(0), (255, 0, 0, 255));
    assert_eq!(rainbow_rgba(100), (255, 100, 0, 255));
    assert_eq!(rainbow_rgba(300), (211, 255, 0, 255));
    assert_eq!(rainbow_rgba(512), (0, 255, 0, 255));
    assert_eq!(rainbow_rgba(1024 + 10), (10, 0, 255, 255));
    assert_eq!(rainbow_rgba(1535), (255, 0, 0, 255));
    assert_eq!(rainbow_rgba(1536), rainbow_rgba(0));
}

#[test]
fn rainbow_is_smooth_and_periodic() {
    for n in 0..4000u32 {
        let a = rainbow_rgba(n);
        let b = rainbow_rgba(n + 1);
        assert!((a.0 as i32 - b.0 as i32).abs() <= 1);
        assert!((a.1 as i32 - b.1 as i32).abs() <= 1);
        assert!((a.2 as i32 - b.2 as i32).abs() <= 1);
        assert_eq!(a.3, 255);
        assert_eq!(rainbow_rgba(n + 1536), a);
    }
}

#[test]
fn color_image_keeps_alpha_and_partial_pixel() {
    let mut img = vec![1, 2, 3, 4, 5, 6];
    color_image(&mut img, (7, 8, 9));
    assert_eq!(img, vec![7, 8, 9, 4, 5, 6]);
}

#[test]
fn set_pixel_writes_its_four_bytes() {
    let mut frame = vec![0u8; 16];
    set_pixel_at(&mut frame, 1, 1, 2, 2, (1, 2, 3, 4));
    assert_eq!(&frame[12..16], &[1, 2, 3, 4]);
    assert!(frame[..12].iter().all(|b| *b == 0));
}

#[test]
fn set_pixel_off_surface_changes_nothing() {
    let mut frame = vec![5u8; 16];
    set_pixel_at(&mut frame, 2, 0, 2, 2, (1, 2, 3, 4));
    set_pixel_at(&mut frame, 0, 2, 2, 2, (1, 2, 3, 4));
    assert_eq!(frame, vec![5u8; 16]);
}

#[test]
fn draw_rect_border_and_fill() {
    let mut frame = vec![0u8; 64];
    let red = (255, 0, 0, 255);
    let green = (0, 255, 0, 255);
    draw_rect(&mut frame, 1, 1, 2, 2, 1, Some(red), true, green, 4, 4);
    for y in 0..4 {
        for x in 0..4 {
            let expected = if (1..3).contains(&x) && (1..3).contains(&y) { green } else { red };
            assert_eq!(pixel(&frame, x, y, 4), expected);
        }
    }
}

#[test]
fn draw_rect_clips_to_surface() {
    let mut frame = vec![0u8; 16];
    draw_rect(&mut frame, -5, -5, 100, 100, 0, None, true, (9, 9, 9, 9), 2, 2);
    assert_eq!(frame, vec![9u8; 16]);
}

#[test]
fn draw_rect_without_border_or_fill_draws_nothing() {
    let mut frame = vec![3u8; 64];
    draw_rect(&mut frame, 0, 0, 4, 4, 0, None, false, (9, 9, 9, 9), 4, 4);
    assert_eq!(frame, vec![3u8; 64]);
}

#[test]
fn draw_image_copies_rows() {
    let mut frame = vec![0u8; 24];
    let img = [1, 2, 3, 4, 5, 6, 7, 8];
    draw_image(&mut frame, &img, 1, 0, 1, 2, 3, 2);
    assert_eq!(pixel(&frame, 1, 0, 3), (1, 2, 3, 4));
    assert_eq!(pixel(&frame, 1, 1, 3), (5, 6, 7, 8));
    assert_eq!(pixel(&frame, 0, 0, 3), (0, 0, 0, 0));
    assert_eq!(pixel(&frame, 2, 1, 3), (0, 0, 0, 0));
}

#[test]
fn clear_image_draws_black_with_alpha() {
    let mut frame = vec![1u8; 8];
    let mut img = vec![9, 9, 9, 7];
    clear_image(&mut frame, &mut img, 0, 0, 1, 1, 2, 1);
    assert_eq!(img, vec![0, 0, 0, 7]);
    assert_eq!(frame, vec![0, 0, 0, 7, 1, 1, 1, 1]);
}

#[test]
fn draw_glyph_uses_coverage_as_alpha() {
    let mut frame = vec![0u8; 8];
    draw_glyph(&mut frame, &[0, 200], (10, 20, 30), 0, 0, 2, 1, 2, 1);
    assert_eq!(frame, vec![0, 0, 0, 0, 10, 20, 30, 200]);
}

#[test]
fn draw_glyph_skips_pixels_off_surface() {
    let mut frame = vec![0u8; 4];
    draw_glyph(&mut frame, &[50, 60, 70, 80], (1, 1, 1), -1, -1, 2, 2, 1, 1);
    assert_eq!(frame, vec![1, 1, 1, 80]);
}

#[test]
fn draw_glyphs_advances_by_glyph_width() {
    let mut frame = vec![0u8; 12];
    let glyphs = vec![vec![255], vec![0], vec![9]];
    draw_glyphs(&mut frame, &glyphs, 1, 1, (4, 5, 6), 0, 0, 3, 1);
    assert_eq!(frame, vec![4, 5, 6, 255, 0, 0, 0, 0, 4, 5, 6, 9]);
}

fn square_state(x: i32, y: i32, speed: i8) -> DvdState {
    DvdState {
        x,
        y,
        img_data: vec![255; 16],
        img_width: 2,
        img_height: 2,
        speed_x: speed,
        speed_y: speed,
        surface_width: 10,
        surface_height: 10,
    }
}

#[test]
fn dvd_style_moves_erases_and_tints() {
    let mut frame = vec![0u8; 400];
    let mut state = square_state(3, 3, 1);
    dvd_style(&mut frame, 0, &mut state);
    assert_eq!((state.x, state.y), (4, 4));
    assert_eq!(pixel(&frame, 3, 3, 10), (0, 0, 0, 255));
    assert_eq!(pixel(&frame, 4, 3, 10), (0, 0, 0, 255));
    assert_eq!(pixel(&frame, 4, 4, 10), (255, 0, 0, 255));
    assert_eq!(pixel(&frame, 5, 5, 10), (255, 0, 0, 255));
    assert_eq!(pixel(&frame, 6, 6, 10), (0, 0, 0, 0));
    assert_eq!(&state.img_data[0..4], &[255, 0, 0, 255]);
}

#[test]
fn dvd_style_bounces_off_left_edge() {
    let mut frame = vec![0u8; 400];
    let mut state = square_state(1, 5, -1);
    dvd_style(&mut frame, 512, &mut state);
    assert_eq!(state.speed_x, 1);
    assert_eq!(state.speed_y, -1);
    assert_eq!((state.x, state.y), (2, 4));
    assert_eq!(pixel(&frame, 2, 4, 10), (0, 255, 0, 255));
}

#[test]
fn dvd_speed_controls() {
    let mut s = square_state(3, 3, 3);
    s.speed_y = -3;
    s.increase_speed_by(2);
    assert_eq!((s.speed_x, s.speed_y), (5, -5));
    s.decrease_speed_by(2);
    assert_eq!((s.speed_x, s.speed_y), (3, -3));
    s.decrease_speed_by(4);
    assert_eq!((s.speed_x, s.speed_y), (-1, 1));
}

#[test]
fn dvd_random_position_is_on_surface() {
    for _ in 0..100 {
        let s = DvdState::with_random_position(2, 7, 3, vec![0; 4], 1, 1);
        assert!(0 <= s.x && s.x < 7);
        assert!(0 <= s.y && s.y < 3);
        assert_eq!((s.speed_x, s.speed_y), (2, 2));
        assert_eq!((s.img_width, s.img_height), (1, 1));
    }
}

#[test]
fn bounce_new_places_image_inside() {
    for _ in 0..100 {
        let a = DvdBounceAnimation::new(10, 10, 100, 50);
        assert!(0 <= a.x && a.x < 90);
        assert!(0 <= a.y && a.y < 40);
        assert_eq!((a.speed_x, a.speed_y), (1, 1));
        assert_eq!(a.color, dvd_bounce::Color::Purple);
        assert_eq!(a.initial_tint(), (255, 0, 255, 255));
    }
}

fn bouncer(x: i32, y: i32, speed_x: i32, speed_y: i32, color: dvd_bounce::Color) -> DvdBounceAnimation {
    DvdBounceAnimation {
        x,
        y,
        speed_x,
        speed_y,
        image_width: 10,
        image_height: 10,
        color,
        surface_width: 100,
        surface_height: 50,
    }
}

#[test]
fn bounce_off_right_edge_advances_tint() {
    let mut a = bouncer(89, 5, 1, 1, dvd_bounce::Color::Purple);
    let tint = a.update_position();
    assert_eq!((a.x, a.y), (90, 6));
    assert_eq!((a.speed_x, a.speed_y), (-1, 1));
    assert_eq!(a.color, dvd_bounce::Color::White);
    assert_eq!(tint, Some((255, 0, 0, 255)));
}

#[test]
fn bounce_off_top_edge() {
    let mut a = bouncer(40, 2, 2, -3, dvd_bounce::Color::Red);
    let tint = a.update_position();
    assert_eq!((a.x, a.y), (42, 0));
    assert_eq!((a.speed_x, a.speed_y), (2, 3));
    assert_eq!(a.color, dvd_bounce::Color::Green);
    assert_eq!(tint, Some((0, 0, 255, 255)));
}

#[test]
fn free_flight_keeps_tint() {
    let mut a = bouncer(10, 10, 1, 1, dvd_bounce::Color::Blue);
    assert_eq!(a.update_position(), None);
    assert_eq!((a.x, a.y), (11, 11));
    assert_eq!(a.color, dvd_bounce::Color::Blue);
}

#[test]
fn bounce_speed_round_trip() {
    let mut a = bouncer(10, 10, -4, 4, dvd_bounce::Color::Blue);
    a.increase_speed_by(3);
    assert_eq!((a.speed_x, a.speed_y), (-7, 7));
    a.decrease_speed_by(3);
    assert_eq!((a.speed_x, a.speed_y), (-4, 4));
}

#[test]
fn tint_cycle() {
    let mut c = dvd_bounce::Color::Red;
    for _ in 0..7 {
        c = c.next();
    }
    assert_eq!(c, dvd_bounce::Color::Red);
    assert_eq!(dvd_bounce::Color::Cyan.rgba(), (0, 255, 255, 255));
}

#[test]
fn wireframe_outlines_each_triangle() {
    let lines = wireframe_indices(&[0, 1, 2, 2, 1, 3, 9]);
    assert_eq!(lines, vec![0, 1, 1, 2, 2, 0, 2, 1, 1, 3, 3, 2]);
    assert!(wireframe_indices(&[]).is_empty());
}

#[test]
fn glyph_cells() {
    assert_eq!(glyph_origin('A'), (0, 0));
    assert_eq!(glyph_origin('B'), (6, 0));
    assert_eq!(glyph_origin('N'), (0, 10));
    assert_eq!(glyph_cell_index('?'), 79);
    assert_eq!(glyph_origin('?'), (6, 60));
    assert_eq!(glyph_origin('~'), (6, 60));
    assert_eq!(glyph_origin(' '), (54, 60));
    for c in [' ', 'z', '9', '$', '\u{e9}'] {
        let (x, y) = glyph_origin(c);
        assert!(x + 6 <= 78 && y + 10 <= 70);
    }
}

#[test]
fn text_layout_restarts_columns_after_line_break() {
    let text: Vec<char> = "ab\ncd\n\ne".chars().collect();
    let cells = layout_text(&text);
    assert_eq!(
        cells,
        vec![
            Some((0, 0)),
            Some((1, 0)),
            None,
            Some((0, 1)),
            Some((1, 1)),
            None,
            None,
            Some((0, 3)),
        ]
    );
}

#[test]
fn cube_controls_toggle_on_release() {
    let mut c = CubeControls::new();
    assert_eq!(c.on_key(CubeKey::One, false), None);
    assert!(!c.x_rotation);
    assert_eq!(c.on_key(CubeKey::One, true), None);
    assert!(c.x_rotation);
    c.on_key(CubeKey::One, true);
    assert_eq!(c, CubeControls::new());
    c.on_key(CubeKey::Space, true);
    assert!(c.wireframe_mode);
    assert!(c.textured_mode);
}

#[test]
fn cube_tilts() {
    let mut c = CubeControls::new();
    assert_eq!(c.on_key(CubeKey::W, false), Some(Tilt::PitchNegative));
    assert_eq!(c.on_key(CubeKey::A, true), Some(Tilt::YawNegative));
    assert_eq!(c.on_key(CubeKey::S, false), Some(Tilt::PitchPositive));
    assert_eq!(c.on_key(CubeKey::D, false), Some(Tilt::YawPositive));
    assert_eq!(c.on_key(CubeKey::Other, true), None);
    assert_eq!(c, CubeControls::new());
}

#[test]
fn material_texture_slots() {
    assert_eq!(Material::Solid.texture_index(), 0);
    assert_eq!(Material::Textured { texture_index: 3 }.texture_index(), 3);
}

#[test]
fn bezier_keeps_control_points() {
    let b = Bezier::new((200, 1000), (300, 800), (700, 1000), (700, 800));
    assert_eq!(b.p0, (200, 1000));
    assert_eq!(b.p1, (300, 800));
    assert_eq!(b.p2, (700, 1000));
    assert_eq!(b.p3, (700, 800));
}

#[test]
fn star_colors() {
    assert_eq!(star_color(false, 200, true), (255, 255, 255));
    assert_eq!(star_color(true, 200, true), (205, 205, 255));
    assert_eq!(star_color(true, 10, false), (255, 245, 245));
    assert_eq!(star_color(true, 149, false), (255, 106, 106));
}

#[test]
fn instance_ranges_sit_end_to_end() {
    let r = instance_ranges(3, 2, 4);
    assert_eq!(r.solid, (0, 3));
    assert_eq!(r.textured, (3, 5));
    assert_eq!(r.wireframe, (5, 9));
}

#[test]
fn positions_from_samples() {
    assert_eq!(position_from_samples(17, 5, 10, 3), (7, 2));
    assert_eq!(position_from_samples(0, u32::MAX, 1, 2), (0, 1));
}

#[test]
fn random_positions_stay_in_bounds() {
    for _ in 0..100 {
        let (x, y) = get_random_position(5, 1);
        assert!(x < 5);
        assert_eq!(y, 0);
    }
}

#[test]
fn image_fit_checks() {
    // a 1 by 2 image at (1, 0) on a 3 by 2 surface
    assert!(image_fits_frame(24, 8, 1, 0, 1, 2, 3, 2));
    // the column right after the image must be on the surface
    assert!(!image_fits_frame(24, 8, 2, 0, 1, 2, 3, 2));
    // the image must hold all its pixels
    assert!(!image_fits_frame(24, 7, 1, 0, 1, 2, 3, 2));
    // the frame must hold the last row
    assert!(!image_fits_frame(20, 8, 1, 0, 1, 2, 3, 2));
    // an image without rows always fits
    assert!(image_fits_frame(0, 0, -5, -5, 3, 0, 0, 0));
}

#[test]
fn dvd_frame_checks() {
    let s = square_state(3, 3, 1);
    assert!(s.can_step());
    assert!(dvd_style_fits(400, &s));
    assert!(!dvd_style_fits(100, &s));
    let mut fast = square_state(3, 3, 127);
    fast.speed_x = -128;
    assert!(!fast.can_step());
}

#[test]
fn dvd_image_stays_on_surface_over_many_frames() {
    let (w, h) = (20usize, 15usize);
    let mut frame = vec![0u8; w * h * 4];
    let mut state = DvdState {
        x: 4,
        y: 9,
        img_data: vec![200; 3 * 3 * 4],
        img_width: 3,
        img_height: 3,
        speed_x: 2,
        speed_y: -3,
        surface_width: w as i32,
        surface_height: h as i32,
    };
    for frame_count in 0..1000u32 {
        assert!(dvd_style_fits(frame.len(), &state));
        dvd_style(&mut frame, frame_count, &mut state);
        assert!(0 <= state.x && state.x + state.img_width < w as i32);
        assert!(0 <= state.y && state.y + state.img_height < h as i32);
        assert_eq!(state.speed_x.abs(), 2);
        assert_eq!(state.speed_y.abs(), 3);
    }
}

#[test]
fn bouncer_stays_inside_horizontally() {
    let mut a = bouncer(50, 20, 7, 5, dvd_bounce::Color::Red);
    let mut bounces = 0;
    for _ in 0..1000 {
        if a.update_position().is_some() {
            bounces += 1;
        }
        assert!(0 <= a.x && a.x <= 90);
        assert!(0 <= a.y);
    }
    assert!(bounces > 0);
}
