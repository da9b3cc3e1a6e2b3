use vstd::prelude::*;

use crate::color::Color;
use crate::color::Material;

use vstd::arithmetic::div_mod::lemma_div_is_ordered;
use vstd::arithmetic::div_mod::lemma_fundamental_div_mod_converse;
use vstd::arithmetic::div_mod::lemma_hoist_over_denominator;

verus! {

/// One renderable object: its shape and the material it is drawn with.
///
/// The shape's intersection test is floating-point geometry run by the caller;
/// the scene sees its outcome as a hit key (see [`Scene::find_nearest_obj`]).
pub struct SceneObject<G> {
    pub shape: G,
    pub material: Material,
}

impl<G> SceneObject<G> {
    pub fn new(shape: G, material: Material) -> (o: SceneObject<G>)
        ensures
            o.shape == shape,
            o.material == material,
    {
        SceneObject { shape, material }
    }
}

/// An ordered collection of scene objects.
///
/// Insertion order carries no priority: the object drawn at a pixel is the one
/// whose hit lies nearest along the pixel's ray, the first in order on a tie.
pub struct Scene<G> {
    pub objects: Vec<SceneObject<G>>,
}

/// Index `i` holds the nearest hit among `keys`: it is a hit, no hit has a
/// smaller key, and every hit before it has a strictly larger key.
///
/// A key is the IEEE-754 bit pattern of a non-negative hit time, an encoding
/// that orders such times exactly as the numbers they stand for.
pub open spec fn is_nearest(keys: Seq<Option<u64>>, i: int) -> bool {
    &&& 0 <= i < keys.len()
    &&& keys[i] is Some
    &&& forall|j: int| 0 <= j < keys.len() && #[trigger] keys[j] is Some ==> keys[i]->0 <= keys[j]->0
    &&& forall|j: int| 0 <= j < i && #[trigger] keys[j] is Some ==> keys[i]->0 < keys[j]->0
}

/// No entry of `keys` is a hit.
pub open spec fn no_hit(keys: Seq<Option<u64>>) -> bool {
    forall|j: int| 0 <= j < keys.len() ==> #[trigger] keys[j] is None
}

/// The background colour at the top row of the image.
pub open spec fn sky_top() -> Color {
    Color { r: 0, g: 104, b: 195 }
}

/// The background colour that the gradient reaches at the image's height.
pub open spec fn sky_bottom() -> Color {
    Color { r: 255, g: 255, b: 255 }
}

/// One channel of the vertical gradient: `top + (bottom - top) * row / height`,
/// rounded down, and held at `bottom` from row `height` on.
pub open spec fn blend(top: u8, bottom: u8, row: int, height: int) -> int {
    if row >= height {
        bottom as int
    } else {
        top + (bottom - top) * row / height
    }
}

/// The background colour of pixel row `row` in an image `height` rows tall.
pub open spec fn background(height: u32, row: u32) -> Color {
    Color {
        r: blend(sky_top().r, sky_bottom().r, row as int, height as int) as u8,
        g: blend(sky_top().g, sky_bottom().g, row as int, height as int) as u8,
        b: blend(sky_top().b, sky_bottom().b, row as int, height as int) as u8,
    }
}

/// A blended channel lies between its two end values.
proof fn lemma_blend_between(top: u8, bottom: u8, row: int, height: int)
    requires
        0 <= row,
    ensures
        top <= bottom ==> top <= blend(top, bottom, row, height) <= bottom,
        bottom <= top ==> bottom <= blend(top, bottom, row, height) <= top,
{
    if row < height {
        let d = height as nat;
        let x = (bottom - top) * row;
        lemma_hoist_over_denominator(x, top as int, d);
        assert(x + top * height == top * (height - row) + bottom * row) by (nonlinear_arith)
            requires
                x == (bottom - top) * row,
        ;
        let lo = if top <= bottom { top as int } else { bottom as int };
        let hi = if top <= bottom { bottom as int } else { top as int };
        assert(lo * height <= top * (height - row) + bottom * row <= hi * height) by (nonlinear_arith)
            requires
                0 <= row < height,
                lo <= top <= hi,
                lo <= bottom <= hi,
        ;
        lemma_div_is_ordered(lo * height, top * (height - row) + bottom * row, height);
        lemma_div_is_ordered(top * (height - row) + bottom * row, hi * height, height);
        assert((lo * height) / height == lo) by (nonlinear_arith)
            requires
                0 < height,
        ;
        assert((hi * height) / height == hi) by (nonlinear_arith)
            requires
                0 < height,
        ;
    }
}

/// Computes [`blend`] without overflow: `(top * (height - row) + bottom * row) / height`
/// is the same rounded-down quotient.
fn blend_channel(top: u8, bottom: u8, row: u32, height: u32) -> (v: u8)
    ensures
        v == blend(top, bottom, row as int, height as int),
{
    proof {
        lemma_blend_between(top, bottom, row as int, height as int);
    }
    if row >= height {
        bottom
    } else {
        let rest: u64 = (height - row) as u64;
        assert(top * rest <= 255 * 0xffff_ffff) by (nonlinear_arith)
            requires
                top <= 255,
                rest <= 0xffff_ffff,
        ;
        assert(bottom * row <= 255 * 0xffff_ffff) by (nonlinear_arith)
            requires
                bottom <= 255,
                row <= 0xffff_ffff,
        ;
        let num: u64 = top as u64 * rest + bottom as u64 * row as u64;
        let q: u64 = num / height as u64;
        proof {
            let x = (bottom - top) * row;
            lemma_hoist_over_denominator(x, top as int, height as nat);
            assert(x + top * height == top * (height - row) + bottom * row) by (nonlinear_arith)
                requires
                    x == (bottom - top) * row,
            ;
        }
        q as u8
    }
}

impl<G> Scene<G> {
    /// The colour of a pixel on row `row`: the material colour of the object
    /// `nearest` names, or the background where the ray hit nothing.
    pub open spec fn pixel_color(self, nearest: Option<usize>, img_height: u32, row: u32) -> Color {
        match nearest {
            Some(i) => self.objects[i as int].material.base_color,
            None => background(img_height, row),
        }
    }

    /// The bytes of a whole image, given the nearest object of each pixel in
    /// row-major order: pixel `p` lies on row `p / img_width` and fills bytes
    /// `3 * p` to `3 * p + 2` with red, green and blue.
    pub open spec fn frame_bytes(
        self,
        nearest: Seq<Option<usize>>,
        img_height: u32,
        img_width: u32,
    ) -> Seq<u8> {
        Seq::new(
            3 * nearest.len(),
            |k: int|
                self.pixel_color(
                    nearest[k / 3],
                    img_height,
                    ((k / 3) / img_width as int) as u32,
                ).bytes()[k % 3],
        )
    }

    /// Every index in `nearest` names an object of the scene.
    pub open spec fn names_objects(self, nearest: Seq<Option<usize>>) -> bool {
        forall|p: int|
            0 <= p < nearest.len() && #[trigger] nearest[p] is Some ==> nearest[p]->0
                < self.objects.len()
    }
}

impl<G> Scene<G> {
    pub fn new(objs: Vec<SceneObject<G>>) -> (s: Scene<G>)
        ensures
            s.objects@ == objs@,
    {
        Scene { objects: objs }
    }

    /// Picks the object drawn along one ray.
    ///
    /// `hit_keys[i]` is the key of object `i`'s nearest hit at or past the
    /// self-intersection guard, or `None` where its shape is missed. The sweep
    /// keeps the closest hit so far and replaces it only on a strictly closer
    /// one, so ties go to the object tested first.
    pub fn find_nearest_obj(&self, hit_keys: &Vec<Option<u64>>) -> (r: Option<usize>)
        requires
            hit_keys.len() == self.objects.len(),
        ensures
            match r {
                None => no_hit(hit_keys@),
                Some(i) => is_nearest(hit_keys@, i as int),
            },
    {
        let n = hit_keys.len();
        let mut best: Option<usize> = None;
        let mut closest: u64 = 0;
        let mut i: usize = 0;
        while i < n
            invariant
                n == hit_keys.len(),
                i <= n,
                match best {
                    None => forall|j: int| 0 <= j < i ==> #[trigger] hit_keys@[j] is None,
                    Some(b) => {
                        &&& b < i
                        &&& hit_keys@[b as int] == Some(closest)
                        &&& forall|j: int|
                            0 <= j < i && #[trigger] hit_keys@[j] is Some ==> closest
                                <= hit_keys@[j]->0
                        &&& forall|j: int|
                            0 <= j < b && #[trigger] hit_keys@[j] is Some ==> closest
                                < hit_keys@[j]->0
                    },
                },
            decreases n - i,
        {
            if let Some(k) = hit_keys[i] {
                if best.is_none() || k < closest {
                    best = Some(i);
                    closest = k;
                }
            }
            i = i + 1;
        }
        best
    }

    /// The background colour of pixel row `pixel_y`: a vertical blend from the
    /// top colour to the bottom colour, keyed by the row rather than by the
    /// ray, so that both camera modes draw the same sky. Each channel is
    /// rounded down, and rows at or past `img_height` take the bottom colour.
    pub fn calc_bg_color(img_height: u32, img_width: u32, pixel_y: u32) -> (c: Color)
        ensures
            c == background(img_height, pixel_y),
    {
        Color {
            r: blend_channel(0, 255, pixel_y, img_height),
            g: blend_channel(104, 255, pixel_y, img_height),
            b: blend_channel(195, 255, pixel_y, img_height),
        }
    }

    /// The colour drawn at a pixel of row `pixel_y`, given the object that
    /// [`Scene::find_nearest_obj`] picked for its ray: that object's material
    /// colour, unchanged, or the background where nothing was hit.
    pub fn resolve_color(&self, nearest: Option<usize>, img_height: u32, pixel_y: u32) -> (c: Color)
        requires
            nearest is Some ==> nearest->0 < self.objects.len(),
        ensures
            c == self.pixel_color(nearest, img_height, pixel_y),
    {
        match nearest {
            Some(i) => self.objects[i].material.base_color,
            None => Self::calc_bg_color(img_height, 0, pixel_y),
        }
    }

    /// Lays out a whole image: `nearest` holds, row by row from the top, the
    /// object picked for each pixel's ray, and the result holds three bytes
    /// (red, green, blue) per pixel in the same order.
    pub fn render_pixels(&self, nearest: &Vec<Option<usize>>, img_height: u32, img_width: u32) -> (buf: Vec<u8>)
        requires
            nearest.len() == img_height * img_width,
            self.names_objects(nearest@),
        ensures
            buf@ == self.frame_bytes(nearest@, img_height, img_width),
    {
        let n = nearest.len();
        let mut buf: Vec<u8> = Vec::new();
        let mut p: usize = 0;
        let mut x: u32 = 0;
        let mut y: u32 = 0;
        while p < n
            invariant
                n == nearest.len(),
                n == img_height * img_width,
                self.names_objects(nearest@),
                p <= n,
                x < img_width || n == 0,
                p == y * img_width + x,
                buf.len() == 3 * p,
                forall|k: int| 0 <= k < 3 * p ==> #[trigger] buf@[k] == self.frame_bytes(nearest@, img_height, img_width)[k],
            decreases n - p,
        {
            assert(y < img_height) by (nonlinear_arith)
                requires
                    p < n,
                    n == img_height * img_width,
                    p == y * img_width + x,
                    0 <= x,
            ;
            proof {
                lemma_fundamental_div_mod_converse(p as int, img_width as int, y as int, x as int);
            }
            let c = self.resolve_color(nearest[p], img_height, y);
            let ghost fb = self.frame_bytes(nearest@, img_height, img_width);
            assert(fb[3 * p as int] == c.r);
            assert(fb[3 * p as int + 1] == c.g);
            assert(fb[3 * p as int + 2] == c.b);
            buf.push(c.r);
            buf.push(c.g);
            buf.push(c.b);
            p = p + 1;
            if x + 1 == img_width {
                assert(p == (y + 1) * img_width) by (nonlinear_arith)
                    requires
                        p == y * img_width + x + 1,
                        x + 1 == img_width,
                ;
                x = 0;
                y = y + 1;
            } else {
                x = x + 1;
            }
        }
        assert(buf@ =~= self.frame_bytes(nearest@, img_height, img_width));
        buf
    }
}

} // verus!

verus! {

/// The nearest hit is unique: at most one index of `keys` satisfies
/// [`is_nearest`], so [`Scene::find_nearest_obj`] has one correct answer.
pub proof fn lemma_nearest_is_unique(keys: Seq<Option<u64>>, i: int, j: int)
    requires
        is_nearest(keys, i),
        is_nearest(keys, j),
    ensures
        i == j,
{
    if i < j {
        assert(keys[i] is Some);
    } else if j < i {
        assert(keys[j] is Some);
    }
}

/// Of two objects hit at different times along one ray, the one hit sooner
/// is the nearest, whichever of the two was added to the scene first.
pub proof fn lemma_nearest_of_two_ignores_order(near: u64, far: u64)
    requires
        near < far,
    ensures
        forall|i: int| is_nearest(seq![Some(near), Some(far)], i) <==> i == 0,
        forall|i: int| is_nearest(seq![Some(far), Some(near)], i) <==> i == 1,
{
    let s = seq![Some(near), Some(far)];
    let t = seq![Some(far), Some(near)];
    assert(is_nearest(s, 0));
    assert(is_nearest(t, 1));
    assert forall|i: int| is_nearest(s, i) <==> i == 0 by {
        if is_nearest(s, i) {
            lemma_nearest_is_unique(s, i, 0);
        }
    }
    assert forall|i: int| is_nearest(t, i) <==> i == 1 by {
        if is_nearest(t, i) {
            lemma_nearest_is_unique(t, i, 1);
        }
    }
}

/// The top row of the background is the top colour exactly.
pub proof fn lemma_background_top_row(img_height: u32)
    requires
        img_height > 0,
    ensures
        background(img_height, 0) == sky_top(),
{
}

/// On the last row of an image at least 255 rows tall, each background
/// channel is that of the bottom colour, less at most the one unit that
/// rounding down takes.
pub proof fn lemma_background_last_row(img_height: u32)
    requires
        img_height >= 255,
    ensures
        sky_bottom().r - 1 <= background(img_height, (img_height - 1) as u32).r <= sky_bottom().r,
        sky_bottom().g - 1 <= background(img_height, (img_height - 1) as u32).g <= sky_bottom().g,
        sky_bottom().b - 1 <= background(img_height, (img_height - 1) as u32).b <= sky_bottom().b,
{
    let h = img_height as int;
    let row = h - 1;
    lemma_blend_near_end(0, 255, h);
    lemma_blend_near_end(104, 255, h);
    lemma_blend_near_end(195, 255, h);
    lemma_blend_between(0, 255, row, h);
    lemma_blend_between(104, 255, row, h);
    lemma_blend_between(195, 255, row, h);
}

/// One row before the end, a rising blend has lost less than one unit as
/// long as the image has at least as many rows as the rise.
proof fn lemma_blend_near_end(top: u8, bottom: u8, height: int)
    requires
        top <= bottom,
        bottom - top <= height,
        1 <= height,
    ensures
        blend(top, bottom, height - 1, height) >= bottom - 1,
{
    let d = bottom - top;
    assert(d * (height - 1) >= (d - 1) * height) by (nonlinear_arith)
        requires
            0 <= d <= height,
    ;
    lemma_div_is_ordered((d - 1) * height, d * (height - 1), height);
    assert(((d - 1) * height) / height == d - 1) by (nonlinear_arith)
        requires
            1 <= height,
    ;
}

impl<G> Scene<G> {
    /// When the ray of every pixel hits object `i`, every pixel of the frame
    /// is drawn in that object's material colour and none in the background.
    pub proof fn lemma_frame_all_hits(self, nearest: Seq<Option<usize>>, img_height: u32, img_width: u32, i: usize)
        requires
            i < self.objects.len(),
            forall|p: int| 0 <= p < nearest.len() ==> #[trigger] nearest[p] == Some(i),
        ensures
            forall|p: int|
                0 <= p < nearest.len() ==> #[trigger] self.frame_bytes(nearest, img_height, img_width).subrange(
                    3 * p,
                    3 * p + 3,
                ) == self.objects[i as int].material.base_color.bytes(),
    {
        let fb = self.frame_bytes(nearest, img_height, img_width);
        assert forall|p: int| 0 <= p < nearest.len() implies #[trigger] fb.subrange(3 * p, 3 * p + 3)
            == self.objects[i as int].material.base_color.bytes() by {
            assert(nearest[p] == Some(i));
            assert((3 * p) / 3 == p && (3 * p + 1) / 3 == p && (3 * p + 2) / 3 == p);
            assert(fb.subrange(3 * p, 3 * p + 3) =~= self.objects[i as int].material.base_color.bytes());
        }
    }
}

} // verus!
