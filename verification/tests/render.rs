use rawr::renderer::{
    clear, draw_projected, rasterize_bbox, Color, DepthBuffer, RenderError, Renderer,
    INFINITY_BITS,
};

// The floating-point kernel a driver supplies to the verified fill loop:
// signed areas, the barycentric coverage test, and reciprocal-weighted depth
// interpolation, written exactly as the renderer's specification states them.

type V2 = [f32; 2];
type Tri = [[f32; 3]; 3];

fn signed_area(s: V2, e: V2, p: V2) -> f32 {
    (p[0] - s[0]) * (s[1] - e[1]) + (p[1] - s[1]) * (e[0] - s[0])
}

// The barycentric weights of `p`, vertex order (a, b, c): each vertex's
// weight is the signed area of the sub-triangle opposite it, over the total.
// Rejects points not strictly inside a counter-clockwise triangle.
fn depth_weights(t: &Tri, p: V2) -> Option<[f32; 3]> {
    let a = [t[0][0], t[0][1]];
    let b = [t[1][0], t[1][1]];
    let c = [t[2][0], t[2][1]];
    let area_a = signed_area(a, b, p);
    let area_b = signed_area(b, c, p);
    let area_c = signed_area(c, a, p);
    if area_a <= 0.0 || area_b <= 0.0 || area_c <= 0.0 {
        return None;
    }
    let total = area_a + area_b + area_c;
    if total <= 0.0 {
        return None;
    }
    let inv = total.recip();
    Some([area_b * inv, area_c * inv, area_a * inv])
}

fn depth_from_weights(w: [f32; 3], t: &Tri) -> f32 {
    (w[0] * t[0][2].recip() + w[1] * t[1][2].recip() + w[2] * t[2][2].recip()).recip()
}

fn sample(t: &Tri, x: u32, y: u32) -> Option<u32> {
    depth_weights(t, [x as f32, y as f32]).map(|w| depth_from_weights(w, t).to_bits())
}

fn bbox(t: &Tri) -> (u32, u32, u32, u32) {
    let min_x = t[0][0].min(t[1][0]).min(t[2][0]).floor() as u32;
    let max_x = t[0][0].max(t[1][0]).max(t[2][0]).ceil() as u32;
    let min_y = t[0][1].min(t[1][1]).min(t[2][1]).floor() as u32;
    let max_y = t[0][1].max(t[1][1]).max(t[2][1]).ceil() as u32;
    (min_x, max_x, min_y, max_y)
}

fn draw(sink: &mut CountingSink, db: &mut DepthBuffer, t: &Tri, color: Color) {
    let (min_x, max_x, min_y, max_y) = bbox(t);
    rasterize_bbox(
        sink,
        db,
        |x, y| sample(t, x, y),
        color,
        min_x,
        max_x,
        min_y,
        max_y,
    );
}

struct CountingSink {
    width: u32,
    height: u32,
    pixels: Vec<u32>,
    writes: Vec<u32>,
}

impl CountingSink {
    fn new(width: u32, height: u32) -> Self {
        Self {
            width,
            height,
            pixels: vec![0; (width * height) as usize],
            writes: vec![0; (width * height) as usize],
        }
    }

    fn pixel(&self, x: u32, y: u32) -> u32 {
        self.pixels[(y * self.width + x) as usize]
    }
}

impl Renderer for CountingSink {
    fn size(&self) -> (u32, u32) {
        (self.width, self.height)
    }

    fn set_pixel(&mut self, x: u32, y: u32, color: Color) {
        if x < self.width && y < self.height {
            self.pixels[(y * self.width + x) as usize] = color.as_u32();
            self.writes[(y * self.width + x) as usize] += 1;
        }
    }

    fn clear_pixels(&mut self) {
        for p in self.pixels.iter_mut() {
            *p = 0;
        }
    }

    fn commit(&mut self) -> Result<(), RenderError> {
        Ok(())
    }
}

#[test]
fn interior_pixels_are_filled() {
    let mut sink = CountingSink::new(16, 16);
    let mut db = DepthBuffer::new(16, 16);
    let red = Color::new(255, 0, 0);
    let t: Tri = [[1.0, 1.0, 2.0], [9.0, 1.0, 2.0], [1.0, 9.0, 2.0]];
    draw(&mut sink, &mut db, &t, red);

    // a pixel well inside is filled at (about) the constant depth
    assert_eq!(sink.pixel(3, 3), red.as_u32());
    let d = f32::from_bits(db.get_depth(3, 3));
    assert!((d - 2.0).abs() < 1e-3);

    // pixels far outside stay blank at infinite depth
    assert_eq!(sink.pixel(14, 14), 0);
    assert_eq!(db.get_depth(14, 14), INFINITY_BITS);
}

#[test]
fn equal_depth_keeps_the_earlier_triangle() {
    let mut sink = CountingSink::new(16, 16);
    let mut db = DepthBuffer::new(16, 16);
    let red = Color::new(255, 0, 0);
    let blue = Color::new(0, 0, 255);
    let t: Tri = [[1.0, 1.0, 2.0], [9.0, 1.0, 2.0], [1.0, 9.0, 2.0]];
    draw(&mut sink, &mut db, &t, red);
    draw(&mut sink, &mut db, &t, blue);
    assert_eq!(sink.pixel(3, 3), red.as_u32());
}

#[test]
fn strictly_closer_triangle_wins_in_either_order() {
    let far: Tri = [[1.0, 1.0, 4.0], [9.0, 1.0, 4.0], [1.0, 9.0, 4.0]];
    let near: Tri = [[1.0, 1.0, 2.0], [9.0, 1.0, 2.0], [1.0, 9.0, 2.0]];
    let red = Color::new(255, 0, 0);
    let blue = Color::new(0, 0, 255);

    let mut sink = CountingSink::new(16, 16);
    let mut db = DepthBuffer::new(16, 16);
    draw(&mut sink, &mut db, &far, red);
    draw(&mut sink, &mut db, &near, blue);
    assert_eq!(sink.pixel(3, 3), blue.as_u32());
    assert!((f32::from_bits(db.get_depth(3, 3)) - 2.0).abs() < 1e-3);

    // occlusion is the depth test's doing, not the draw order's
    let mut sink = CountingSink::new(16, 16);
    let mut db = DepthBuffer::new(16, 16);
    draw(&mut sink, &mut db, &near, blue);
    draw(&mut sink, &mut db, &far, red);
    assert_eq!(sink.pixel(3, 3), blue.as_u32());
    assert!((f32::from_bits(db.get_depth(3, 3)) - 2.0).abs() < 1e-3);
}

#[test]
fn shared_edge_is_owned_at_most_once() {
    // a quad split along its diagonal: the two triangles traverse the shared
    // edge in opposite directions
    let t1: Tri = [[1.0, 1.0, 2.0], [9.0, 1.0, 2.0], [9.0, 9.0, 2.0]];
    let t2: Tri = [[1.0, 1.0, 1.5], [9.0, 9.0, 1.5], [1.0, 9.0, 1.5]];
    let red = Color::new(255, 0, 0);
    let blue = Color::new(0, 0, 255);

    let mut sink = CountingSink::new(16, 16);
    let mut db = DepthBuffer::new(16, 16);
    draw(&mut sink, &mut db, &t1, red);
    // t2 is strictly closer, so a doubly covered pixel would be written twice
    draw(&mut sink, &mut db, &t2, blue);

    for count in sink.writes.iter() {
        assert!(*count <= 1);
    }
    // no integer pixel lies in both coverage sets
    for y in 0..16 {
        for x in 0..16 {
            assert!(!(sample(&t1, x, y).is_some() && sample(&t2, x, y).is_some()));
        }
    }
    // a pixel exactly on the shared edge (signed area zero for it in both
    // triangles) belongs to neither
    assert_eq!(sample(&t1, 4, 4), None);
    assert_eq!(sample(&t2, 4, 4), None);
    assert_eq!(db.get_depth(4, 4), INFINITY_BITS);
}

#[test]
fn clear_then_full_redraw_hides_prior_frame() {
    let mut sink = CountingSink::new(8, 8);
    let mut db = DepthBuffer::new(8, 8);
    let red = Color::new(255, 0, 0);
    let green = Color::new(0, 255, 0);
    let small: Tri = [[1.0, 1.0, 2.0], [6.0, 1.0, 2.0], [1.0, 6.0, 2.0]];
    draw(&mut sink, &mut db, &small, red);
    assert_eq!(sink.pixel(2, 2), red.as_u32());

    clear(&mut sink, &mut db);
    for y in 0..8 {
        for x in 0..8 {
            assert_eq!(db.get_depth(x, y), INFINITY_BITS);
        }
    }

    // a triangle whose coverage spans the whole viewport
    let big: Tri = [[-50.0, -1.0, 1.0], [50.0, -1.0, 1.0], [0.0, 100.0, 1.0]];
    draw(&mut sink, &mut db, &big, green);
    for y in 0..8 {
        for x in 0..8 {
            assert_eq!(sink.pixel(x, y), green.as_u32());
            assert!(db.get_depth(x, y) != INFINITY_BITS);
        }
    }
}

#[test]
fn mesh_draw_resolves_occlusion_per_pixel() {
    // far triangle first in mesh order, near one second, and the reverse:
    // the nearer color wins either way
    let far: Tri = [[1.0, 1.0, 4.0], [9.0, 1.0, 4.0], [1.0, 9.0, 4.0]];
    let near: Tri = [[1.0, 1.0, 2.0], [9.0, 1.0, 2.0], [1.0, 9.0, 2.0]];
    let red = Color::new(255, 0, 0);
    let blue = Color::new(0, 0, 255);

    for order in [[far, near], [near, far]] {
        let colors = if order[0] == far { vec![red, blue] } else { vec![blue, red] };
        let boxes: Vec<(u32, u32, u32, u32)> = order.iter().map(bbox).collect();
        let mut sink = CountingSink::new(16, 16);
        let mut db = DepthBuffer::new(16, 16);
        draw_projected(&mut sink, &mut db, &boxes, &colors, |i: usize, x: u32, y: u32| {
            sample(&order[i], x, y)
        });
        assert_eq!(sink.pixel(3, 3), blue.as_u32());
        assert!((f32::from_bits(db.get_depth(3, 3)) - 2.0).abs() < 1e-3);
    }
}

#[test]
fn mesh_draw_must_fill_every_covered_pixel() {
    // two disjoint boxes whose samplers always hit: after the draw, every
    // pixel of each box carries its triangle's depth, and nothing else moved
    let boxes = vec![(0u32, 2u32, 0u32, 2u32), (2, 4, 2, 4)];
    let colors = vec![Color::new(255, 0, 0), Color::new(0, 0, 255)];
    let depths = [1.0f32.to_bits(), 2.0f32.to_bits()];
    let mut sink = CountingSink::new(4, 4);
    let mut db = DepthBuffer::new(4, 4);
    draw_projected(&mut sink, &mut db, &boxes, &colors, |i: usize, _x: u32, _y: u32| {
        Some(depths[i])
    });
    for y in 0..4u32 {
        for x in 0..4u32 {
            if x < 2 && y < 2 {
                assert_eq!(db.get_depth(x, y), depths[0]);
                assert_eq!(sink.pixel(x, y), colors[0].as_u32());
            } else if x >= 2 && y >= 2 {
                assert_eq!(db.get_depth(x, y), depths[1]);
                assert_eq!(sink.pixel(x, y), colors[1].as_u32());
            } else {
                assert_eq!(db.get_depth(x, y), INFINITY_BITS);
                assert_eq!(sink.pixel(x, y), 0);
            }
        }
    }
}

#[test]
fn interior_weights_are_positive_and_sum_to_one() {
    let t: Tri = [[0.0, 0.0, 1.0], [4.0, 0.0, 1.0], [0.0, 4.0, 1.0]];
    for &p in &[[1.0f32, 1.0f32], [0.5, 0.5], [2.0, 1.5], [1.0, 2.5]] {
        let w = depth_weights(&t, p).expect("point is strictly inside");
        assert!(w[0] > 0.0 && w[1] > 0.0 && w[2] > 0.0);
        assert!((w[0] + w[1] + w[2] - 1.0).abs() < 1e-6);
    }
}

#[test]
fn weight_at_a_vertex_is_all_on_that_vertex() {
    // on a vertex two edge areas vanish, so the coverage test rejects the
    // point; the raw weight triple there is (1, 0, 0) for the vertex itself
    let a = [0.0f32, 0.0f32];
    let b = [4.0f32, 0.0f32];
    let c = [0.0f32, 4.0f32];
    let t: Tri = [[0.0, 0.0, 1.0], [4.0, 0.0, 1.0], [0.0, 4.0, 1.0]];
    assert!(depth_weights(&t, a).is_none());

    for (p, expect) in [
        (a, [1.0f32, 0.0, 0.0]),
        (b, [0.0, 1.0, 0.0]),
        (c, [0.0, 0.0, 1.0]),
    ] {
        let area_a = signed_area(a, b, p);
        let area_b = signed_area(b, c, p);
        let area_c = signed_area(c, a, p);
        let total = area_a + area_b + area_c;
        let w = [area_b / total, area_c / total, area_a / total];
        for i in 0..3 {
            assert!((w[i] - expect[i]).abs() < 1e-6);
        }
    }
}

#[test]
fn reciprocal_interpolation_is_exact_at_vertices() {
    let t: Tri = [[0.0, 0.0, 2.0], [4.0, 0.0, 4.0], [0.0, 4.0, 8.0]];
    assert_eq!(depth_from_weights([1.0, 0.0, 0.0], &t), 2.0);
    assert_eq!(depth_from_weights([0.0, 1.0, 0.0], &t), 4.0);
    assert_eq!(depth_from_weights([0.0, 0.0, 1.0], &t), 8.0);
}
