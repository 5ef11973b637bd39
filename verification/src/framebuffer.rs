//! The colour image and its depth buffer, with the depth-tested pixel write.
//!
//! Both buffers hold one entry per pixel, row by row. A smaller depth is
//! closer to the viewer; a pixel on which nothing has been drawn holds the
//! depth `Infinity`.

use vstd::prelude::*;
use crate::fixed::ONE;
use crate::vector::Vector3;

verus! {

/// A depth value: a fixed-point number, or one of the values that stand
/// outside the numbers.
#[derive(Clone, Copy, Debug, PartialEq, Eq, Structural)]
pub enum Depth {
    Finite(i32),
    Infinity,
    NegInfinity,
    NotANumber,
}

/// A displayed pixel: one byte per channel.
#[derive(Clone, Copy, Debug, PartialEq, Eq, Structural)]
pub struct Color {
    pub r: u8,
    pub g: u8,
    pub b: u8,
    pub a: u8,
}

impl Depth {
    /// Whether `self` is strictly closer to the viewer than `other`. Nothing
    /// is closer than, and nothing is farther than, `NotANumber`.
    pub open spec fn closer_than(self, other: Depth) -> bool {
        match (self, other) {
            (Depth::NotANumber, _) => false,
            (_, Depth::NotANumber) => false,
            (_, Depth::NegInfinity) => false,
            (Depth::NegInfinity, _) => true,
            (Depth::Infinity, _) => false,
            (Depth::Finite(_), Depth::Infinity) => true,
            (Depth::Finite(a), Depth::Finite(b)) => a < b,
        }
    }

    /// Whether the value is a number.
    pub fn is_finite(&self) -> (finite: bool)
        ensures
            finite == (*self is Finite),
    {
        match self {
            Depth::Finite(_) => true,
            _ => false,
        }
    }

    /// The strict order on depths.
    pub fn is_closer_than(&self, other: &Depth) -> (closer: bool)
        ensures
            closer == self.closer_than(*other),
    {
        match (self, other) {
            (Depth::NotANumber, _) => false,
            (_, Depth::NotANumber) => false,
            (_, Depth::NegInfinity) => false,
            (Depth::NegInfinity, _) => true,
            (Depth::Infinity, _) => false,
            (Depth::Finite(_), Depth::Infinity) => true,
            (Depth::Finite(a), Depth::Finite(b)) => *a < *b,
        }
    }
}

/// A fixed-point channel clamped to `[0, 1]` and scaled to `0..=255`,
/// rounding down.
pub open spec fn channel_byte(c: int) -> int {
    if c <= 0 {
        0
    } else if c >= ONE as int {
        255
    } else {
        c * 255 / (ONE as int)
    }
}

/// The opaque pixel that displays a fixed-point colour.
pub open spec fn display_color(color: Vector3) -> Color {
    Color {
        r: channel_byte(color.x as int) as u8,
        g: channel_byte(color.y as int) as u8,
        b: channel_byte(color.z as int) as u8,
        a: 255,
    }
}

/// Clamps a channel to `[0, 1]` and scales it to a byte.
pub fn to_byte(c: i32) -> (byte: u8)
    ensures
        byte as int == channel_byte(c as int),
{
    if c <= 0 {
        0
    } else if c >= 65536 {
        255
    } else {
        let scaled: i64 = c as i64 * 255 / 65536;
        scaled as u8
    }
}

/// Clamps and scales the three channels of a colour.
pub fn to_color(color: Vector3) -> (pixel: Color)
    ensures
        pixel == display_color(color),
{
    Color { r: to_byte(color.x), g: to_byte(color.y), b: to_byte(color.z), a: 255 }
}

/// What a framebuffer holds, as mathematical sequences indexed by
/// `y * width + x`.
pub struct FramebufferView {
    pub width: nat,
    pub height: nat,
    pub background: Vector3,
    pub colors: Seq<Color>,
    pub depths: Seq<Depth>,
}

impl FramebufferView {
    /// Both buffers have one entry per pixel, and every stored depth is a
    /// number or `Infinity`.
    pub open spec fn well_formed(self) -> bool {
        &&& self.colors.len() == self.width * self.height
        &&& self.depths.len() == self.width * self.height
        &&& forall|i: int|
            0 <= i < self.depths.len() ==> (#[trigger] self.depths[i] is Finite
                || self.depths[i] is Infinity)
    }

    pub open spec fn in_bounds(self, x: int, y: int) -> bool {
        0 <= x < self.width && 0 <= y < self.height
    }

    pub open spec fn index(self, x: int, y: int) -> int {
        y * self.width + x
    }

    /// A buffer of this size on which nothing is drawn.
    pub open spec fn blank(width: nat, height: nat, background: Vector3) -> FramebufferView {
        FramebufferView {
            width,
            height,
            background,
            colors: Seq::new(width * height, |i: int| display_color(background)),
            depths: Seq::new(width * height, |i: int| Depth::Infinity),
        }
    }

    /// The state after `clear`.
    pub open spec fn cleared(self) -> FramebufferView {
        Self::blank(self.width, self.height, self.background)
    }

    /// The state after `set_background_color`.
    pub open spec fn with_background(self, color: Vector3) -> FramebufferView {
        FramebufferView { background: color, ..self }
    }

    /// Whether a write at `(x, y)` with this depth passes the depth test.
    pub open spec fn accepts(self, x: int, y: int, depth: Depth) -> bool {
        &&& self.in_bounds(x, y)
        &&& depth is Finite
        &&& depth.closer_than(self.depths[self.index(x, y)])
    }

    /// The state after `point`.
    pub open spec fn with_point(self, x: int, y: int, color: Vector3, depth: Depth) -> FramebufferView {
        if self.accepts(x, y, depth) {
            FramebufferView {
                colors: self.colors.update(self.index(x, y), display_color(color)),
                depths: self.depths.update(self.index(x, y), depth),
                ..self
            }
        } else {
            self
        }
    }
}

/// The index of an in-bounds pixel is within the buffers.
pub proof fn lemma_index_in_range(width: nat, height: nat, x: int, y: int)
    requires
        0 <= x < width,
        0 <= y < height,
    ensures
        0 <= y * width + x < width * height,
        y * width <= (height - 1) * width,
{
    assert(y * width <= (height - 1) * width) by (nonlinear_arith)
        requires
            0 <= y <= height - 1,
            0 <= width,
    ;
    assert((height - 1) * width + width == width * height) by (nonlinear_arith);
    assert(0 <= y * width) by (nonlinear_arith)
        requires
            0 <= y,
            0 <= width,
    ;
}

/// Two pixels of one image share an index only if they are the same pixel.
pub proof fn lemma_index_injective(width: nat, x1: int, y1: int, x2: int, y2: int)
    requires
        0 <= x1 < width,
        0 <= x2 < width,
        y1 * width + x1 == y2 * width + x2,
    ensures
        x1 == x2,
        y1 == y2,
{
    if y1 < y2 {
        assert(y2 * width >= y1 * width + width) by (nonlinear_arith)
            requires
                y1 + 1 <= y2,
                0 <= width,
        ;
    } else if y2 < y1 {
        assert(y1 * width >= y2 * width + width) by (nonlinear_arith)
            requires
                y2 + 1 <= y1,
                0 <= width,
        ;
    }
}

/// The colour image and the depth buffer of one render target.
pub struct Framebuffer {
    width: u32,
    height: u32,
    image: Vec<Color>,
    background_color: Vector3,
    depth_buffer: Vec<Depth>,
}

impl View for Framebuffer {
    type V = FramebufferView;

    closed spec fn view(&self) -> FramebufferView {
        FramebufferView {
            width: self.width as nat,
            height: self.height as nat,
            background: self.background_color,
            colors: self.image@,
            depths: self.depth_buffer@,
        }
    }
}

impl Framebuffer {
    /// A black framebuffer of the given size with a black background.
    pub fn new(width: u32, height: u32) -> (fb: Framebuffer)
        requires
            width * height <= usize::MAX,
        ensures
            fb@ == FramebufferView::blank(
                width as nat,
                height as nat,
                Vector3 { x: 0, y: 0, z: 0 },
            ),
            fb@.well_formed(),
    {
        let background = Vector3 { x: 0, y: 0, z: 0 };
        let size: usize = width as usize * height as usize;
        let black = to_color(background);
        let mut image: Vec<Color> = Vec::new();
        let mut depth_buffer: Vec<Depth> = Vec::new();
        let mut i: usize = 0;
        while i < size
            invariant
                i <= size,
                image.len() == i,
                depth_buffer.len() == i,
                forall|j: int| 0 <= j < i ==> image[j] == black,
                forall|j: int| 0 <= j < i ==> depth_buffer[j] == Depth::Infinity,
            decreases size - i,
        {
            image.push(black);
            depth_buffer.push(Depth::Infinity);
            i = i + 1;
        }
        let fb = Framebuffer { width, height, image, background_color: background, depth_buffer };
        proof {
            let blank = FramebufferView::blank(width as nat, height as nat, background);
            assert(fb@.colors =~= blank.colors);
            assert(fb@.depths =~= blank.depths);
        }
        fb
    }

    /// Stores the colour that later calls of `clear` fill the image with.
    /// The buffers themselves are left as they are.
    pub fn set_background_color(&mut self, color: Vector3)
        requires
            old(self)@.well_formed(),
        ensures
            final(self)@ == old(self)@.with_background(color),
            final(self)@.well_formed(),
    {
        self.background_color = color;
    }

    /// Fills the image with the background colour and the depth buffer with
    /// `Infinity`.
    pub fn clear(&mut self)
        requires
            old(self)@.well_formed(),
        ensures
            final(self)@ == old(self)@.cleared(),
            final(self)@.well_formed(),
    {
        let fill = to_color(self.background_color);
        let size: usize = self.image.len();
        let mut i: usize = 0;
        while i < size
            invariant
                i <= size,
                self.image.len() == size,
                self.depth_buffer.len() == size,
                size == self.width * self.height,
                self.width == old(self).width,
                self.height == old(self).height,
                self.background_color == old(self).background_color,
                forall|j: int| 0 <= j < i ==> self.image[j] == fill,
                forall|j: int| 0 <= j < i ==> self.depth_buffer[j] == Depth::Infinity,
                forall|j: int|
                    0 <= j < size ==> (#[trigger] self.depth_buffer[j] is Finite
                        || self.depth_buffer[j] is Infinity),
            decreases size - i,
        {
            self.image.set(i, fill);
            self.depth_buffer.set(i, Depth::Infinity);
            i = i + 1;
        }
        proof {
            let cleared = old(self)@.cleared();
            assert(self@.colors =~= cleared.colors);
            assert(self@.depths =~= cleared.depths);
        }
    }

    /// Writes one fragment under the depth test.
    ///
    /// Nothing changes if `(x, y)` is outside the image or `depth` is not a
    /// number. Otherwise the pixel takes the fragment's depth and its
    /// colour, clamped and scaled, if and only if the fragment is strictly
    /// closer than what the pixel holds.
    pub fn point(&mut self, x: i32, y: i32, color: Vector3, depth: Depth)
        requires
            old(self)@.well_formed(),
        ensures
            final(self)@ == old(self)@.with_point(x as int, y as int, color, depth),
            final(self)@.well_formed(),
            !old(self)@.in_bounds(x as int, y as int) || !(depth is Finite) ==> final(self)@ == old(
                self,
            )@,
    {
        if x < 0 || y < 0 || x as u32 >= self.width || y as u32 >= self.height {
            return ;
        }
        if !depth.is_finite() {
            return ;
        }
        proof {
            lemma_index_in_range(self.width as nat, self.height as nat, x as int, y as int);
            assert(self.image@.len() == (self.width as nat) * (self.height as nat));
            assert(0 <= (y as int) * (self.width as int));
            assert((y as int) * (self.width as int) + x < self.image@.len());
        }
        let size: usize = self.image.len();
        assert(y * self.width + x < size);
        let idx: usize = y as usize * self.width as usize + x as usize;
        if depth.is_closer_than(&self.depth_buffer[idx]) {
            self.depth_buffer.set(idx, depth);
            self.image.set(idx, to_color(color));
        }
    }

    pub fn width(&self) -> (w: u32)
        ensures
            w == self@.width,
    {
        self.width
    }

    pub fn height(&self) -> (h: u32)
        ensures
            h == self@.height,
    {
        self.height
    }

    pub fn background_color(&self) -> (color: Vector3)
        ensures
            color == self@.background,
    {
        self.background_color
    }

    /// The finished colour image, row by row.
    pub fn pixels(&self) -> (image: &Vec<Color>)
        ensures
            image@ == self@.colors,
    {
        &self.image
    }

    /// The depth buffer, row by row.
    pub fn depths(&self) -> (buffer: &Vec<Depth>)
        ensures
            buffer@ == self@.depths,
    {
        &self.depth_buffer
    }
}

/// Clearing twice is clearing once, and a cleared buffer holds the
/// background colour and the depth `Infinity` at every pixel.
pub proof fn lemma_clear_idempotent(fb: FramebufferView)
    ensures
        fb.cleared().cleared() == fb.cleared(),
        fb.cleared().well_formed(),
        fb.cleared().width == fb.width,
        fb.cleared().height == fb.height,
        fb.cleared().background == fb.background,
        forall|i: int|
            0 <= i < fb.width * fb.height ==> #[trigger] fb.cleared().depths[i] == Depth::Infinity,
        forall|i: int|
            0 <= i < fb.width * fb.height ==> #[trigger] fb.cleared().colors[i] == display_color(
                fb.background,
            ),
{
}

/// A write outside the image, or with a depth that is not a number, leaves
/// the framebuffer as it was.
pub proof fn lemma_rejected_point_changes_nothing(
    fb: FramebufferView,
    x: int,
    y: int,
    color: Vector3,
    depth: Depth,
)
    requires
        x < 0 || x >= fb.width || y < 0 || y >= fb.height || !(depth is Finite),
    ensures
        fb.with_point(x, y, color, depth) == fb,
{
}

/// A write keeps the buffers well formed.
pub proof fn lemma_point_keeps_well_formed(
    fb: FramebufferView,
    x: int,
    y: int,
    color: Vector3,
    depth: Depth,
)
    requires
        fb.well_formed(),
    ensures
        fb.with_point(x, y, color, depth).well_formed(),
{
    if fb.accepts(x, y, depth) {
        lemma_index_in_range(fb.width, fb.height, x, y);
        let after = fb.with_point(x, y, color, depth);
        assert forall|i: int| 0 <= i < after.depths.len() implies (#[trigger] after.depths[i]
            is Finite || after.depths[i] is Infinity) by {
            if i != fb.index(x, y) {
                assert(fb.depths[i] is Finite || fb.depths[i] is Infinity);
            }
        }
    }
}

/// Of two fragments written to one pixel, the strictly closer one wins in
/// either order: the framebuffer ends as if it alone had been written.
pub proof fn lemma_closest_wins(
    fb: FramebufferView,
    x: int,
    y: int,
    near_color: Vector3,
    near: Depth,
    far_color: Vector3,
    far: Depth,
)
    requires
        fb.well_formed(),
        near is Finite,
        near.closer_than(far),
    ensures
        fb.with_point(x, y, near_color, near).with_point(x, y, far_color, far) == fb.with_point(
            x,
            y,
            near_color,
            near,
        ),
        fb.with_point(x, y, far_color, far).with_point(x, y, near_color, near) == fb.with_point(
            x,
            y,
            near_color,
            near,
        ),
{
    if fb.in_bounds(x, y) {
        lemma_index_in_range(fb.width, fb.height, x, y);
        let i = fb.index(x, y);
        assert(fb.depths[i] is Finite || fb.depths[i] is Infinity);
        let first = fb.with_point(x, y, far_color, far);
        let both = first.with_point(x, y, near_color, near);
        let alone = fb.with_point(x, y, near_color, near);
        assert(both.colors =~= alone.colors);
        assert(both.depths =~= alone.depths);
    }
}

/// Two writes give the same framebuffer in either order, unless they tie:
/// both pass the depth test at one pixel with equal depths and colours that
/// display differently, in which case the first one written stays.
pub proof fn lemma_writes_commute(
    fb: FramebufferView,
    x1: int,
    y1: int,
    color1: Vector3,
    depth1: Depth,
    x2: int,
    y2: int,
    color2: Vector3,
    depth2: Depth,
)
    requires
        fb.well_formed(),
        !(x1 == x2 && y1 == y2 && depth1 == depth2 && fb.accepts(x1, y1, depth1) && display_color(
            color1,
        ) != display_color(color2)),
    ensures
        fb.with_point(x1, y1, color1, depth1).with_point(x2, y2, color2, depth2) == fb.with_point(
            x2,
            y2,
            color2,
            depth2,
        ).with_point(x1, y1, color1, depth1),
{
    let one = fb.with_point(x1, y1, color1, depth1);
    let two = fb.with_point(x2, y2, color2, depth2);
    let left = one.with_point(x2, y2, color2, depth2);
    let right = two.with_point(x1, y1, color1, depth1);
    if fb.in_bounds(x1, y1) && fb.in_bounds(x2, y2) {
        lemma_index_in_range(fb.width, fb.height, x1, y1);
        lemma_index_in_range(fb.width, fb.height, x2, y2);
        let i1 = fb.index(x1, y1);
        let i2 = fb.index(x2, y2);
        assert(fb.depths[i1] is Finite || fb.depths[i1] is Infinity);
        assert(fb.depths[i2] is Finite || fb.depths[i2] is Infinity);
        if i1 == i2 {
            lemma_index_injective(fb.width, x1, y1, x2, y2);
        }
        assert(left.colors =~= right.colors);
        assert(left.depths =~= right.depths);
    } else if fb.in_bounds(x1, y1) {
        lemma_index_in_range(fb.width, fb.height, x1, y1);
    } else if fb.in_bounds(x2, y2) {
        lemma_index_in_range(fb.width, fb.height, x2, y2);
    }
}

} // verus!
