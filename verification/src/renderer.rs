//! Colors, the sink capability interface, the depth buffer, and the shared
//! rasterization algorithm.

use vstd::prelude::*;

verus! {

/// An RGB color with three 8-bit channels.
#[derive(Clone, Copy, Debug, PartialEq, Eq, Structural)]
pub struct Color {
    pub r: u8,
    pub g: u8,
    pub b: u8,
}

/// The value of `as_u32`: red in bits 16..24, green in bits 8..16, blue in
/// bits 0..8.
pub open spec fn spec_pack_rgb(r: u8, g: u8, b: u8) -> int {
    (r as u32) * 0x1_0000 + (g as u32) * 0x100 + (b as u32)
}

impl Color {
    pub fn new(r: u8, g: u8, b: u8) -> (c: Self)
        ensures
            c == (Color { r, g, b }),
    {
        Self { r, g, b }
    }

    /// Unpacks a color from its packed 32-bit form; bits 24..32 are ignored.
    pub fn from_u32(packed: u32) -> (c: Self)
        ensures
            c.r == (packed / 0x1_0000) % 0x100,
            c.g == (packed / 0x100) % 0x100,
            c.b == packed % 0x100,
    {
        let r = #[verifier::truncate] ((packed >> 16) as u8);
        let g = #[verifier::truncate] ((packed >> 8) as u8);
        let b = #[verifier::truncate] (packed as u8);
        proof {
            assert(((packed >> 16) as u8) == (packed / 0x1_0000) % 0x100
                && ((packed >> 8) as u8) == (packed / 0x100) % 0x100
                && (packed as u8) == packed % 0x100) by (bit_vector);
        }
        Self { r, g, b }
    }

    /// Packs the channels into one 32-bit value.
    pub fn as_u32(&self) -> (packed: u32)
        ensures
            packed == spec_pack_rgb(self.r, self.g, self.b),
    {
        let r = self.r as u32;
        let g = self.g as u32;
        let b = self.b as u32;
        proof {
            assert(r <= 0xff && g <= 0xff && b <= 0xff ==> (r << 16) == r * 0x1_0000
                && (g << 8) == g * 0x100
                && (r << 16) + (g << 8) + b <= 0xff_ffff) by (bit_vector);
        }
        ((r << 16) + (g << 8)) + b
    }
}

/// Packing and unpacking are inverse: a color survives the round trip through
/// its 32-bit form.
pub proof fn lemma_color_round_trip(c: Color)
    ensures
        (spec_pack_rgb(c.r, c.g, c.b) / 0x1_0000) % 0x100 == c.r,
        (spec_pack_rgb(c.r, c.g, c.b) / 0x100) % 0x100 == c.g,
        spec_pack_rgb(c.r, c.g, c.b) % 0x100 == c.b,
{
}

/// Relies on `rand::random::<u8>`: one sample of the process-wide generator.
/// Every byte is a possible outcome, so nothing more can be said of it.
#[verifier::external_body]
fn random_byte() -> (r: u8)
    ensures
        r <= 0xff,
{
    rand::random::<u8>()
}

impl Color {
    /// A color with each channel drawn from the process-wide random number
    /// generator; used for the per-triangle debug coloring of a mesh.
    pub fn random() -> (c: Self) {
        Self { r: random_byte(), g: random_byte(), b: random_byte() }
    }
}

/// The bit pattern of the 32-bit IEEE-754 positive infinity, the reset value
/// of the depth buffer. Every finite non-negative depth compares below it,
/// and non-negative values order by their bit patterns exactly as they order
/// as floating-point numbers.
pub const INFINITY_BITS: u32 = 0x7F80_0000;

/// What can go wrong inside the rendering core.
#[derive(Clone, Copy, Debug, PartialEq, Eq, Structural)]
pub enum RenderError {
    /// A sink failed to present a finished frame.
    PresentationFailure,
}

/// The capability interface a concrete output sink satisfies. The shared
/// rasterization algorithm is written once against it; pixel storage is the
/// sink's own and is not modeled here, so none of these methods carries a
/// contract. A sink must drop writes outside its own bounds silently.
pub trait Renderer {
    /// The sink's pixel dimensions, `(width, height)`.
    fn size(&self) -> (u32, u32);

    /// Stores one pixel; writes outside the sink's bounds are dropped.
    fn set_pixel(&mut self, x: u32, y: u32, color: Color);

    /// Resets the sink's pixel storage to its blank state.
    fn clear_pixels(&mut self);

    /// Presents the frame; fails when the output surface is gone.
    fn commit(&mut self) -> Result<(), RenderError>;
}

/// A dense row-major buffer of per-pixel depths, one 32-bit bit pattern per
/// pixel. Entries start at positive infinity; lower values are closer and
/// win. Depths of points in front of the camera are non-negative, and
/// non-negative IEEE-754 values order by their bit patterns, so the strict
/// depth test is an ordinary integer comparison on the stored patterns.
pub struct DepthBuffer {
    width: u32,
    height: u32,
    data: Vec<u32>,
}

impl DepthBuffer {
    pub closed spec fn spec_width(&self) -> u32 {
        self.width
    }

    pub closed spec fn spec_height(&self) -> u32 {
        self.height
    }

    /// The stored depth patterns, row-major.
    pub closed spec fn depths(&self) -> Seq<u32> {
        self.data@
    }

    /// One entry per pixel.
    pub open spec fn wf(&self) -> bool {
        self.depths().len() == self.spec_width() * self.spec_height()
    }

    pub open spec fn in_bounds(&self, x: u32, y: u32) -> bool {
        x < self.spec_width() && y < self.spec_height()
    }

    /// The row-major position of pixel `(x, y)`.
    pub open spec fn pixel_index(&self, x: u32, y: u32) -> int {
        y * self.spec_width() + x
    }

    /// The stored depth of a pixel; reads outside the bounds see infinity.
    pub open spec fn depth_at(&self, x: u32, y: u32) -> u32 {
        if self.in_bounds(x, y) {
            self.depths()[self.pixel_index(x, y)]
        } else {
            INFINITY_BITS
        }
    }

    /// A buffer of the given dimensions with every entry at infinity.
    pub fn new(width: u32, height: u32) -> (db: Self)
        requires
            width * height <= usize::MAX,
        ensures
            db.wf(),
            db.spec_width() == width,
            db.spec_height() == height,
            forall|i: int| 0 <= i < db.depths().len() ==> db.depths()[i] == INFINITY_BITS,
    {
        let len: usize = (width as usize) * (height as usize);
        let mut data: Vec<u32> = Vec::new();
        while data.len() < len
            invariant
                data@.len() <= len,
                forall|i: int| 0 <= i < data@.len() ==> data@[i] == INFINITY_BITS,
            decreases len - data@.len(),
        {
            data.push(INFINITY_BITS);
        }
        Self { width, height, data }
    }

    /// The stored depth of pixel `(x, y)`, or infinity outside the bounds.
    pub fn get_depth(&self, x: u32, y: u32) -> (d: u32)
        requires
            self.wf(),
        ensures
            d == self.depth_at(x, y),
    {
        if x < self.width && y < self.height {
            let _len = self.data.len();
            proof {
                lemma_row_major_bound(self.width, self.height, x, y);
            }
            let idx: usize = (y as usize) * (self.width as usize) + (x as usize);
            self.data[idx]
        } else {
            INFINITY_BITS
        }
    }

    /// Stores a depth at pixel `(x, y)`; writes outside the bounds are
    /// dropped.
    pub fn set_depth(&mut self, x: u32, y: u32, d: u32)
        requires
            old(self).wf(),
        ensures
            final(self).wf(),
            final(self).spec_width() == old(self).spec_width(),
            final(self).spec_height() == old(self).spec_height(),
            old(self).in_bounds(x, y) ==> final(self).depths() == old(self).depths().update(
                old(self).pixel_index(x, y),
                d,
            ),
            !old(self).in_bounds(x, y) ==> final(self).depths() == old(self).depths(),
    {
        if x < self.width && y < self.height {
            let _len = self.data.len();
            proof {
                lemma_row_major_bound(self.width, self.height, x, y);
            }
            let idx: usize = (y as usize) * (self.width as usize) + (x as usize);
            self.data[idx] = d;
        }
    }

    /// Resets every entry to infinity, so that the next frame starts with
    /// nothing closer than anything.
    pub fn reset_depth_buffer(&mut self)
        ensures
            final(self).spec_width() == old(self).spec_width(),
            final(self).spec_height() == old(self).spec_height(),
            final(self).depths().len() == old(self).depths().len(),
            forall|i: int|
                0 <= i < final(self).depths().len() ==> final(self).depths()[i] == INFINITY_BITS,
    {
        let len = self.data.len();
        let mut i: usize = 0;
        while i < len
            invariant
                i <= len,
                self.data@.len() == len,
                self.width == old(self).spec_width(),
                self.height == old(self).spec_height(),
                forall|j: int| 0 <= j < i ==> self.data@[j] == INFINITY_BITS,
            decreases len - i,
        {
            self.data[i] = INFINITY_BITS;
            i += 1;
        }
    }
}

/// In a `width * height` buffer the row-major position of an in-bounds pixel
/// lies inside the buffer.
proof fn lemma_row_major_bound(width: u32, height: u32, x: u32, y: u32)
    requires
        x < width,
        y < height,
    ensures
        0 <= y * width + x < width * height,
{
    assert(y < height && x < width ==> y * width + x < width * height && 0 <= y * width + x)
        by (nonlinear_arith);
}

/// Distinct in-bounds pixels occupy distinct row-major positions.
proof fn lemma_row_major_injective(width: u32, x1: u32, y1: u32, x2: u32, y2: u32)
    requires
        x1 < width,
        x2 < width,
        x1 != x2 || y1 != y2,
    ensures
        y1 * width + x1 != y2 * width + x2,
{
    assert(x1 < width && x2 < width && (x1 != x2 || y1 != y2) ==> y1 * width + x1 != y2 * width
        + x2) by (nonlinear_arith);
}

/// Blanks the sink's pixels and resets every depth entry to infinity: the
/// start of a frame. No depth recorded before the call survives it.
pub fn clear<R: Renderer>(sink: &mut R, depth: &mut DepthBuffer)
    ensures
        final(depth).spec_width() == old(depth).spec_width(),
        final(depth).spec_height() == old(depth).spec_height(),
        final(depth).depths().len() == old(depth).depths().len(),
        forall|i: int|
            0 <= i < final(depth).depths().len() ==> final(depth).depths()[i] == INFINITY_BITS,
{
    sink.clear_pixels();
    depth.reset_depth_buffer();
}

/// Writes one candidate pixel through the strict depth test: the pixel and
/// its depth are stored exactly when the candidate depth pattern is strictly
/// below the stored one. On an exact tie nothing changes, so the
/// earlier-drawn triangle keeps the pixel; writes outside the buffer's bounds
/// change no depth entry.
pub fn plot_pixel<R: Renderer>(
    sink: &mut R,
    depth: &mut DepthBuffer,
    x: u32,
    y: u32,
    d: u32,
    color: Color,
)
    requires
        old(depth).wf(),
    ensures
        final(depth).wf(),
        final(depth).spec_width() == old(depth).spec_width(),
        final(depth).spec_height() == old(depth).spec_height(),
        old(depth).in_bounds(x, y) && d < old(depth).depth_at(x, y) ==> final(depth).depths()
            == old(depth).depths().update(old(depth).pixel_index(x, y), d),
        !(old(depth).in_bounds(x, y) && d < old(depth).depth_at(x, y)) ==> final(depth).depths()
            == old(depth).depths(),
{
    let cur = depth.get_depth(x, y);
    if d < cur {
        sink.set_pixel(x, y, color);
        depth.set_depth(x, y, d);
    }
}

/// Every answer the sampler can give for pixel `(x, y)` is a hit strictly
/// closer than `cur`. For such a pixel a fill over it must bring the stored
/// depth down, whatever the sampler returns.
pub open spec fn always_hits_closer<F: Fn(u32, u32) -> Option<u32>>(
    sampler: F,
    x: u32,
    y: u32,
    cur: u32,
) -> bool {
    forall|o: Option<u32>| #[trigger] call_ensures(sampler, (x, y), o) ==> o is Some && o->0 < cur
}

/// Fills one triangle's bounding box. For every pixel of
/// `[min_x, max_x) x [min_y, max_y)` the sampler answers whether the triangle
/// covers the pixel and at what depth — the driver evaluates the barycentric
/// test and the reciprocal depth interpolation on the floating-point values —
/// and each covered pixel goes through the strict depth test.
///
/// The contract pins the fill discipline: no depth entry outside the box ever
/// changes, and an entry inside it either stays or strictly decreases to a
/// depth the sampler returned for exactly that pixel.
pub fn rasterize_bbox<R: Renderer, F: Fn(u32, u32) -> Option<u32>>(
    sink: &mut R,
    depth: &mut DepthBuffer,
    sampler: F,
    color: Color,
    min_x: u32,
    max_x: u32,
    min_y: u32,
    max_y: u32,
)
    requires
        old(depth).wf(),
        forall|x: u32, y: u32| call_requires(sampler, (x, y)),
    ensures
        final(depth).wf(),
        final(depth).spec_width() == old(depth).spec_width(),
        final(depth).spec_height() == old(depth).spec_height(),
        forall|x: u32, y: u32|
            #![trigger final(depth).depth_at(x, y)]
            {
                if min_x <= x < max_x && min_y <= y < max_y {
                    final(depth).depth_at(x, y) == old(depth).depth_at(x, y)
                    || (final(depth).depth_at(x, y) < old(depth).depth_at(x, y)
                        && call_ensures(sampler, (x, y), Some(final(depth).depth_at(x, y))))
                } else {
                    final(depth).depth_at(x, y) == old(depth).depth_at(x, y)
                }
            },
        forall|x: u32, y: u32|
            #![trigger final(depth).depth_at(x, y)]
            min_x <= x < max_x && min_y <= y < max_y && old(depth).in_bounds(x, y)
                && always_hits_closer(sampler, x, y, old(depth).depth_at(x, y))
                ==> final(depth).depth_at(x, y) < old(depth).depth_at(x, y),
{
    let mut x = min_x;
    while x < max_x
        invariant
            depth.wf(),
            depth.spec_width() == old(depth).spec_width(),
            depth.spec_height() == old(depth).spec_height(),
            min_x <= x,
            x <= max_x || x == min_x,
            forall|x: u32, y: u32| call_requires(sampler, (x, y)),
            forall|xx: u32, yy: u32|
                #![trigger depth.depth_at(xx, yy)]
                {
                    if min_x <= xx < x && min_y <= yy < max_y {
                        depth.depth_at(xx, yy) == old(depth).depth_at(xx, yy) || (depth.depth_at(
                            xx,
                            yy,
                        ) < old(depth).depth_at(xx, yy) && call_ensures(
                            sampler,
                            (xx, yy),
                            Some(depth.depth_at(xx, yy)),
                        ))
                    } else {
                        depth.depth_at(xx, yy) == old(depth).depth_at(xx, yy)
                    }
                },
            forall|xx: u32, yy: u32|
                #![trigger depth.depth_at(xx, yy)]
                min_x <= xx < x && min_y <= yy < max_y && old(depth).in_bounds(xx, yy)
                    && always_hits_closer(sampler, xx, yy, old(depth).depth_at(xx, yy))
                    ==> depth.depth_at(xx, yy) < old(depth).depth_at(xx, yy),
        decreases max_x - x,
    {
        let mut y = min_y;
        while y < max_y
            invariant
                depth.wf(),
                depth.spec_width() == old(depth).spec_width(),
                depth.spec_height() == old(depth).spec_height(),
                min_x <= x < max_x,
                min_y <= y,
                y <= max_y || y == min_y,
                forall|x: u32, y: u32| call_requires(sampler, (x, y)),
                forall|xx: u32, yy: u32|
                    #![trigger depth.depth_at(xx, yy)]
                    {
                        if (min_x <= xx < x && min_y <= yy < max_y) || (xx == x && min_y <= yy
                            < y) {
                            depth.depth_at(xx, yy) == old(depth).depth_at(xx, yy) || (
                            depth.depth_at(xx, yy) < old(depth).depth_at(xx, yy) && call_ensures(
                                sampler,
                                (xx, yy),
                                Some(depth.depth_at(xx, yy)),
                            ))
                        } else {
                            depth.depth_at(xx, yy) == old(depth).depth_at(xx, yy)
                        }
                    },
                forall|xx: u32, yy: u32|
                    #![trigger depth.depth_at(xx, yy)]
                    ((min_x <= xx < x && min_y <= yy < max_y) || (xx == x && min_y <= yy < y))
                        && old(depth).in_bounds(xx, yy) && always_hits_closer(
                        sampler,
                        xx,
                        yy,
                        old(depth).depth_at(xx, yy),
                    ) ==> depth.depth_at(xx, yy) < old(depth).depth_at(xx, yy),
            decreases max_y - y,
        {
            let ghost pre = *depth;
            let got = sampler(x, y);
            if let Some(d) = got {
                plot_pixel(sink, depth, x, y, d, color);
                proof {
                    let w = pre.spec_width();
                    let h = pre.spec_height();
                    if pre.in_bounds(x, y) && d < pre.depth_at(x, y) {
                        lemma_row_major_bound(w, h, x, y);
                        assert forall|xx: u32, yy: u32| !(xx == x && yy == y) implies
                            #[trigger] depth.depth_at(xx, yy) == pre.depth_at(xx, yy) by {
                            if pre.in_bounds(xx, yy) {
                                lemma_row_major_bound(w, h, xx, yy);
                                lemma_row_major_injective(w, xx, yy, x, y);
                            }
                        }
                        assert(depth.depth_at(x, y) == d);
                    } else {
                        assert(depth.depths() == pre.depths());
                        assert forall|xx: u32, yy: u32|
                            #[trigger] depth.depth_at(xx, yy) == pre.depth_at(xx, yy) by {}
                    }
                    if always_hits_closer(sampler, x, y, old(depth).depth_at(x, y))
                        && old(depth).in_bounds(x, y) {
                        assert(got is Some && got->0 < old(depth).depth_at(x, y));
                        assert(depth.depth_at(x, y) == d);
                    }
                }
            } else {
                proof {
                    if old(depth).in_bounds(x, y) {
                        assert(call_ensures(sampler, (x, y), got));
                        assert(!always_hits_closer(sampler, x, y, old(depth).depth_at(x, y)));
                    }
                }
            }
            y += 1;
        }
        x += 1;
    }
}

/// Pixel `(x, y)` lies in the half-open box `(min_x, max_x, min_y, max_y)`.
pub open spec fn in_box(b: (u32, u32, u32, u32), x: u32, y: u32) -> bool {
    b.0 <= x < b.1 && b.2 <= y < b.3
}

/// Every answer triangle `i`'s sampler can give for pixel `(x, y)` is a hit
/// strictly closer than `cur`: `always_hits_closer`, lifted to an indexed
/// sampler. A mesh draw over such a pixel must bring its stored depth down.
pub open spec fn indexed_always_hits_closer<F: Fn(usize, u32, u32) -> Option<u32>>(
    sampler: F,
    i: usize,
    x: u32,
    y: u32,
    cur: u32,
) -> bool {
    forall|o: Option<u32>|
        #[trigger] call_ensures(sampler, (i, x, y), o) ==> o is Some && o->0 < cur
}

/// Draws a whole projected mesh: one bounding box and one color per triangle,
/// index-aligned, filled in mesh order. The sampler answers coverage and
/// depth for triangle `i` at a pixel; occlusion between the triangles comes
/// from the per-pixel depth test alone, never from the draw order.
///
/// A depth entry only ever decreases, and it ends either untouched or at a
/// depth some triangle's sampler returned for exactly that pixel, inside that
/// triangle's box.
pub fn draw_projected<R: Renderer, F: Fn(usize, u32, u32) -> Option<u32>>(
    sink: &mut R,
    depth: &mut DepthBuffer,
    boxes: &Vec<(u32, u32, u32, u32)>,
    colors: &Vec<Color>,
    sampler: F,
)
    requires
        old(depth).wf(),
        boxes@.len() == colors@.len(),
        forall|i: usize, x: u32, y: u32|
            i < boxes@.len() ==> call_requires(sampler, (i, x, y)),
    ensures
        final(depth).wf(),
        final(depth).spec_width() == old(depth).spec_width(),
        final(depth).spec_height() == old(depth).spec_height(),
        forall|x: u32, y: u32|
            #![trigger final(depth).depth_at(x, y)]
            final(depth).depth_at(x, y) == old(depth).depth_at(x, y) || (final(depth).depth_at(
                x,
                y,
            ) < old(depth).depth_at(x, y) && exists|i: usize|
                i < boxes@.len() && in_box(#[trigger] boxes@[i as int], x, y) && call_ensures(
                    sampler,
                    (i, x, y),
                    Some(final(depth).depth_at(x, y)),
                )),
        forall|i: usize, x: u32, y: u32|
            i < boxes@.len() && in_box(boxes@[i as int], x, y) && old(depth).in_bounds(x, y)
                && #[trigger] indexed_always_hits_closer(
                sampler,
                i,
                x,
                y,
                old(depth).depth_at(x, y),
            ) ==> final(depth).depth_at(x, y) < old(depth).depth_at(x, y),
{
    let n = boxes.len();
    let mut i: usize = 0;
    while i < n
        invariant
            depth.wf(),
            depth.spec_width() == old(depth).spec_width(),
            depth.spec_height() == old(depth).spec_height(),
            n == boxes@.len(),
            boxes@.len() == colors@.len(),
            0 <= i <= n,
            forall|i: usize, x: u32, y: u32|
                i < boxes@.len() ==> call_requires(sampler, (i, x, y)),
            forall|x: u32, y: u32|
                #![trigger depth.depth_at(x, y)]
                depth.depth_at(x, y) == old(depth).depth_at(x, y) || (depth.depth_at(x, y) < old(
                    depth,
                ).depth_at(x, y) && exists|j: usize|
                    j < i && in_box(#[trigger] boxes@[j as int], x, y) && call_ensures(
                        sampler,
                        (j, x, y),
                        Some(depth.depth_at(x, y)),
                    )),
            forall|j: usize, x: u32, y: u32|
                j < i && in_box(boxes@[j as int], x, y) && old(depth).in_bounds(x, y)
                    && #[trigger] indexed_always_hits_closer(
                    sampler,
                    j,
                    x,
                    y,
                    old(depth).depth_at(x, y),
                ) ==> depth.depth_at(x, y) < old(depth).depth_at(x, y),
        decreases n - i,
    {
        let b = boxes[i];
        let color = colors[i];
        let fi = i;
        let ghost mid = *depth;
        let sref = &sampler;
        let tri_sampler = |x: u32, y: u32| -> (r: Option<u32>)
            ensures
                call_ensures(*sref, (fi, x, y), r),
            { sref(fi, x, y) };
        rasterize_bbox(sink, depth, tri_sampler, color, b.0, b.1, b.2, b.3);
        proof {
            assert forall|x: u32, y: u32| #[trigger] depth.depth_at(x, y) == old(depth).depth_at(
                x,
                y,
            ) || (depth.depth_at(x, y) < old(depth).depth_at(x, y) && exists|j: usize|
                j < i + 1 && in_box(#[trigger] boxes@[j as int], x, y) && call_ensures(
                    sampler,
                    (j, x, y),
                    Some(depth.depth_at(x, y)),
                )) by {
                if depth.depth_at(x, y) != mid.depth_at(x, y) {
                    assert(in_box(boxes@[fi as int], x, y));
                    assert(call_ensures(sampler, (fi, x, y), Some(depth.depth_at(x, y))));
                }
            }
            assert forall|j: usize, x: u32, y: u32|
                j < i + 1 && in_box(boxes@[j as int], x, y) && old(depth).in_bounds(x, y)
                    && #[trigger] indexed_always_hits_closer(
                    sampler,
                    j,
                    x,
                    y,
                    old(depth).depth_at(x, y),
                ) implies depth.depth_at(x, y) < old(depth).depth_at(x, y) by {
                if j == fi && !(mid.depth_at(x, y) < old(depth).depth_at(x, y)) {
                    // the entry still stood at its starting value when this
                    // triangle was filled, so every answer its sampler could
                    // give was a strictly closer hit, and the fill was forced
                    assert(mid.depth_at(x, y) == old(depth).depth_at(x, y));
                    assert forall|o: Option<u32>| #[trigger] call_ensures(
                        tri_sampler,
                        (x, y),
                        o,
                    ) implies o is Some && o->0 < mid.depth_at(x, y) by {
                        assert(call_ensures(sampler, (fi, x, y), o));
                    }
                    assert(always_hits_closer(tri_sampler, x, y, mid.depth_at(x, y)));
                    assert(mid.in_bounds(x, y));
                }
            }
        }
        i += 1;
    }
}

} // verus!
