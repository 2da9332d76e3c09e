use soft_render::color::Color;
use soft_render::framebuffer::Framebuffer;
use soft_render::material::{material_from_id, noise_points, shade, stripe_period, Material, NoisePoint};
use soft_render::pipeline::{assemble_triangles, draw_fragments, rasterize_mesh, ScreenVertex};
use soft_render::raster::{
    barycentric, bounding_box, edge_function, face_intensity, flat_shading, triangle_fill, Fragment, ScreenPoint,
};

fn pt(x: i64, y: i64, z: i64) -> ScreenPoint {
    ScreenPoint { x, y, z }
}

#[test]
fn edge_function_flips_with_winding() {
    let a = pt(0, 0, 0);
    let b = pt(4000, 0, 0);
    let c = pt(0, 3000, 0);
    assert_eq!(edge_function(&a, &b, &c), 12_000_000);
    assert_eq!(edge_function(&a, &b, &c), -edge_function(&a, &c, &b));
}

#[test]
fn barycentric_weights_sum_to_area() {
    let a = pt(0, 0, 0);
    let b = pt(6000, 0, 0);
    let c = pt(0, 6000, 0);
    let p = pt(1000, 2000, 0);
    let area = edge_function(&a, &b, &c);
    let (w1, w2, w3) = barycentric(&p, &a, &b, &c);
    assert_eq!(w1 + w2 + w3, area);
    for w in [w1, w2, w3] {
        assert!(0 < w && w < area);
    }
    assert_eq!((w1, w2, w3), (18_000_000, 6_000_000, 12_000_000));
}

#[test]
fn bounding_box_floors_and_ceils() {
    let b = bounding_box(&pt(1500, -2500, 0), &pt(3000, 700, 0), &pt(-200, 100, 0));
    assert_eq!(b, (-1, -3, 3, 1));
}

#[test]
fn collinear_triangle_yields_nothing() {
    let fs = triangle_fill(&pt(0, 0, 0), &pt(1000, 1000, 0), &pt(2000, 2000, 0), 1000, 10, 10);
    assert!(fs.is_empty());
}

#[test]
fn quad_covers_every_pixel_with_shared_diagonal_twice() {
    let a = pt(0, 0, 0);
    let b = pt(4000, 0, 0);
    let c = pt(4000, 4000, 0);
    let d = pt(0, 4000, 0);
    let mut all = triangle_fill(&a, &b, &c, 1000, 4, 4);
    all.extend(triangle_fill(&a, &c, &d, 1000, 4, 4));
    let mut count = [[0u32; 4]; 4];
    for f in &all {
        count[f.y as usize][f.x as usize] += 1;
    }
    for y in 0..4 {
        for x in 0..4 {
            let expected = if x == y { 2 } else { 1 };
            assert_eq!(count[y][x], expected);
        }
    }
    assert_eq!(all.len(), 20);
}

#[test]
fn fragments_carry_depth_and_intensity() {
    let fs = triangle_fill(&pt(0, 0, 1000), &pt(4000, 0, 1000), &pt(0, 4000, 1000), 100, 8, 8);
    assert!(!fs.is_empty());
    for f in &fs {
        assert_eq!(f.depth, 1000);
        assert_eq!(f.intensity, 300);
        assert_eq!(f.color, flat_shading(300));
    }
    assert_eq!(face_intensity(800), 800);
    assert_eq!(flat_shading(500), Color::new(50, 50, 50));
}

#[test]
fn triangle_fill_clamps_to_target() {
    let fs = triangle_fill(&pt(-5000, -5000, 0), &pt(20000, -5000, 0), &pt(-5000, 20000, 0), 1000, 3, 2);
    assert_eq!(fs.len(), 6);
    for f in &fs {
        assert!(f.x < 3 && f.y < 2);
    }
}

fn draw_one(fb: &mut Framebuffer, tri: [ScreenPoint; 3], color: Color) {
    let fs = triangle_fill(&tri[0], &tri[1], &tri[2], 1000, 4, 4);
    let cs: Vec<Color> = fs.iter().map(|_| color).collect();
    draw_fragments(fb, &fs, &cs);
}

#[test]
fn nearer_triangle_wins_in_either_order() {
    let near = [pt(0, 0, 1000), pt(3000, 0, 1000), pt(0, 3000, 1000)];
    let far = [pt(0, 0, 2000), pt(3000, 0, 2000), pt(0, 3000, 2000)];
    let red = Color::new(255, 0, 0);
    let blue = Color::new(0, 0, 255);
    for near_first in [true, false] {
        let mut fb = Framebuffer::new(4, 4);
        if near_first {
            draw_one(&mut fb, near, red);
            draw_one(&mut fb, far, blue);
        } else {
            draw_one(&mut fb, far, blue);
            draw_one(&mut fb, near, red);
        }
        assert_eq!(fb.get_color(0, 0), 0xff0000);
    }
}

#[test]
fn framebuffer_point_and_clear() {
    let mut fb = Framebuffer::new(3, 2);
    fb.set_current_color(0x00ff00);
    fb.point(2, 1, 50);
    assert_eq!(fb.get_color(2, 1), 0x00ff00);
    fb.set_current_color(0x0000ff);
    fb.point(2, 1, 60);
    assert_eq!(fb.get_color(2, 1), 0x00ff00);
    fb.point(2, 1, 40);
    assert_eq!(fb.get_color(2, 1), 0x0000ff);
    fb.set_background_color(0x111111);
    fb.clear();
    assert_eq!(fb.color_array_to_u32(), vec![0x111111; 6]);
    fb.point(2, 1, 1000);
    assert_eq!(fb.get_color(2, 1), 0x0000ff);
}

fn sv(x: i64, y: i64) -> ScreenVertex {
    ScreenVertex { position: pt(x, y, 0), light_dot: 1000 }
}

#[test]
fn assembly_drops_trailing_vertices() {
    let vs = vec![sv(0, 0), sv(1, 0), sv(0, 1), sv(5, 5), sv(6, 6)];
    let ts = assemble_triangles(&vs);
    assert_eq!(ts.len(), 1);
    assert_eq!(ts[0], (sv(0, 0), sv(1, 0), sv(0, 1)));
    assert!(assemble_triangles(&Vec::new()).is_empty());
}

#[test]
fn mesh_rasterization() {
    let vs = vec![sv(0, 0), sv(4000, 0), sv(4000, 4000), sv(0, 0), sv(4000, 4000), sv(0, 4000), sv(9, 9)];
    let fs = rasterize_mesh(&vs, 4, 4);
    assert_eq!(fs.len(), 20);
    assert!(rasterize_mesh(&Vec::new(), 4, 4).is_empty());
}

#[test]
fn material_selector_falls_back_to_sun() {
    assert_eq!(material_from_id(1), Material::Sun);
    assert_eq!(material_from_id(4), Material::Earth);
    assert_eq!(material_from_id(7), Material::Neptune);
    assert_eq!(material_from_id(0), Material::Sun);
    assert_eq!(material_from_id(200), Material::Sun);
    assert_eq!(stripe_period(Material::Jupiter), 50);
    assert_eq!(stripe_period(Material::Saturn), 5);
    assert_eq!(stripe_period(Material::Earth), 0);
}

#[test]
fn noise_points_of_the_sun_scroll_with_time() {
    assert_eq!(noise_points(Material::Sun, 2, 3, 7), vec![NoisePoint { x: 67000, y: 65000 }]);
    assert_eq!(noise_points(Material::Earth, 0, 0, 0).len(), 5);
}

#[test]
fn shading_is_deterministic() {
    let f = Fragment::new(500, 350, Color::black(), 0, 1000);
    let materials = [
        Material::Sun,
        Material::Mercury,
        Material::Venus,
        Material::Earth,
        Material::Jupiter,
        Material::Saturn,
        Material::Neptune,
    ];
    for m in materials {
        let n = noise_points(m, f.x, f.y, 3).len();
        let samples: Vec<i64> = (0..n as i64).map(|i| i * 300 - 700).collect();
        let first = shade(m, &f, &samples, 250);
        let second = shade(m, &f, &samples, 250);
        assert_eq!(first, second);
        assert_eq!(noise_points(m, f.x, f.y, 3), noise_points(m, f.x, f.y, 3));
    }
}

#[test]
fn both_windings_rasterize_alike() {
    let a = pt(500, 700, 1000);
    let b = pt(7300, 1200, 3000);
    let c = pt(2100, 6900, 5000);
    let forward = triangle_fill(&a, &b, &c, 800, 10, 10);
    let backward = triangle_fill(&a, &c, &b, 800, 10, 10);
    assert!(!forward.is_empty());
    assert_eq!(forward, backward);
}

#[test]
fn inner_depths_lie_between_corner_depths() {
    let a = pt(0, 0, 1000);
    let b = pt(9000, 0, 4000);
    let c = pt(0, 9000, 7000);
    let fs = triangle_fill(&a, &b, &c, 1000, 10, 10);
    // pixels with x + y <= 9 inside the exclusive box [0, 9) x [0, 9)
    assert_eq!(fs.len(), 53);
    for f in &fs {
        assert!(1000 <= f.depth && f.depth <= 7000);
    }
    let at = |x: u32, y: u32| fs.iter().filter(|f| f.x == x && f.y == y).count();
    assert_eq!(at(2, 3), 1);
    let f = fs.iter().find(|f| f.x == 3 && f.y == 3).unwrap();
    // 1 + 3 * (3 / 9) + 6 * (3 / 9) in thousandths
    assert_eq!(f.depth, 4000);
}
