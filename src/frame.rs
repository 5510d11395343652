use vstd::prelude::*;

verus! {

/// Width and height of a rendered frame, in pixels.
///
/// Both are positive and the pixel count fits in a `u32`, so every buffer
/// offset fits in a `u32` as well.
#[derive(Clone, Copy, Debug, PartialEq, Eq, Structural)]
pub struct ImageSize {
    width: u32,
    height: u32,
}

/// A frame size is usable when it has at least one pixel and its pixel
/// count fits in a `u32`.
pub open spec fn valid_size(width: int, height: int) -> bool {
    &&& width > 0
    &&& height > 0
    &&& width * height <= u32::MAX
}

/// Offset in a row-major buffer whose first row is the top of the image,
/// for the pixel at column `x` and row `y`, where row 0 is the bottom.
pub open spec fn offset_of(width: int, height: int, x: int, y: int) -> int {
    x + (height - 1 - y) * width
}

impl ImageSize {
    pub closed spec fn width_spec(self) -> int {
        self.width as int
    }

    pub closed spec fn height_spec(self) -> int {
        self.height as int
    }

    pub open spec fn wf(self) -> bool {
        valid_size(self.width_spec(), self.height_spec())
    }

    pub open spec fn pixels_spec(self) -> int {
        self.width_spec() * self.height_spec()
    }

    pub open spec fn contains(self, x: int, y: int) -> bool {
        0 <= x < self.width_spec() && 0 <= y < self.height_spec()
    }

    /// The frame of the given size; `None` when it has no pixel or more
    /// pixels than a `u32` counts.
    pub fn new(width: u32, height: u32) -> (r: Option<ImageSize>)
        ensures
            r is Some <==> valid_size(width as int, height as int),
            r matches Some(s) ==> s.wf() && s.width_spec() == width && s.height_spec() == height,
    {
        if width == 0 || height == 0 {
            return None;
        }
        assert((width as int) * (height as int) <= u32::MAX * u32::MAX) by (nonlinear_arith)
            requires
                width <= u32::MAX,
                height <= u32::MAX,
        ;
        if (width as u64) * (height as u64) > u32::MAX as u64 {
            return None;
        }
        Some(ImageSize { width, height })
    }

    /// The frame `width` pixels wide whose width to height ratio is
    /// `aspect_w : aspect_h`; the height is rounded down.
    pub fn from_aspect(width: u32, aspect_w: u32, aspect_h: u32) -> (r: Option<ImageSize>)
        ensures
            aspect_w == 0 ==> r is None,
            aspect_w > 0 ==> (r is Some <==> valid_size(
                width as int,
                (width as int * aspect_h as int) / aspect_w as int,
            )),
            r matches Some(s) ==> s.wf() && s.width_spec() == width && s.height_spec() == (
            width as int * aspect_h as int) / aspect_w as int,
    {
        if aspect_w == 0 {
            return None;
        }
        assert((width as int) * (aspect_h as int) <= u32::MAX * u32::MAX) by (nonlinear_arith)
            requires
                width <= u32::MAX,
                aspect_h <= u32::MAX,
        ;
        let h: u64 = (width as u64) * (aspect_h as u64) / (aspect_w as u64);
        if h > u32::MAX as u64 {
            assert(width > 0 ==> (width as int) * (h as int) > u32::MAX) by (nonlinear_arith)
                requires
                    h > u32::MAX,
            ;
            return None;
        }
        ImageSize::new(width, h as u32)
    }

    pub fn width(&self) -> (r: u32)
        ensures
            r == self.width_spec(),
    {
        self.width
    }

    pub fn height(&self) -> (r: u32)
        ensures
            r == self.height_spec(),
    {
        self.height
    }

    /// Number of pixels in the frame.
    pub fn pixel_count(&self) -> (r: u32)
        requires
            self.wf(),
        ensures
            r == self.pixels_spec(),
    {
        self.width * self.height
    }

    /// Position in the output buffer of the pixel at column `x`, row `y`
    /// (row 0 at the bottom of the image; the buffer starts with the top row).
    pub fn pixel_offset(&self, x: u32, y: u32) -> (r: u32)
        requires
            self.wf(),
            self.contains(x as int, y as int),
        ensures
            r == offset_of(self.width_spec(), self.height_spec(), x as int, y as int),
            r < self.pixels_spec(),
    {
        proof {
            lemma_offset_in_frame(self.width_spec(), self.height_spec(), x as int, y as int);
        }
        x + (self.height - 1 - y) * self.width
    }
}

/// Every pixel of the frame lands inside the buffer.
pub proof fn lemma_offset_in_frame(width: int, height: int, x: int, y: int)
    requires
        width > 0,
        height > 0,
        0 <= x < width,
        0 <= y < height,
    ensures
        0 <= offset_of(width, height, x, y) < width * height,
{
    let row = height - 1 - y;
    assert(0 <= row < height);
    assert(0 <= row * width <= (height - 1) * width) by (nonlinear_arith)
        requires
            0 <= row <= height - 1,
            width > 0,
    ;
    assert((height - 1) * width + width == width * height) by (nonlinear_arith);
}

/// Distinct pixels of a frame have distinct buffer offsets, so no worker
/// result can overwrite another's.
pub proof fn lemma_offset_injective(width: int, height: int, x1: int, y1: int, x2: int, y2: int)
    requires
        width > 0,
        height > 0,
        0 <= x1 < width,
        0 <= y1 < height,
        0 <= x2 < width,
        0 <= y2 < height,
        offset_of(width, height, x1, y1) == offset_of(width, height, x2, y2),
    ensures
        x1 == x2 && y1 == y2,
{
    let r1 = height - 1 - y1;
    let r2 = height - 1 - y2;
    assert(x1 + r1 * width == x2 + r2 * width);
    if r1 < r2 {
        assert(r1 * width + width <= r2 * width) by (nonlinear_arith)
            requires
                r1 + 1 <= r2,
                width > 0,
        ;
    } else if r2 < r1 {
        assert(r2 * width + width <= r1 * width) by (nonlinear_arith)
            requires
                r2 + 1 <= r1,
                width > 0,
        ;
    }
}

} // verus!
