//! The combine kernel: the reduction of all species layers of the trail
//! field to one image with four bytes per pixel.

use vstd::prelude::*;
use crate::config::{DisplaySettings, Rgb, MAX_FIELD_CELLS};
use crate::field::{lemma_cell_index_bounds, Field, Grid};
use crate::fixed::{lemma_scale_bounds, scale, scale_spec, ONE};

verus! {

/// The image produced by the combine kernel: rows of pixels, each pixel
/// four bytes in the order red, green, blue, alpha.
#[derive(Clone, Debug, PartialEq, Eq)]
pub struct PresentationBuffer {
    pub width: u32,
    pub height: u32,
    pub pixels: Vec<u8>,
}

impl PresentationBuffer {
    /// The buffer stores exactly four bytes per pixel.
    pub open spec fn wf(&self) -> bool {
        &&& self.pixels@.len() == 4 * (self.width as int * self.height as int)
        &&& self.pixels@.len() <= MAX_FIELD_CELLS
    }

    /// A buffer of the given size with every byte zero.
    pub fn new(width: u32, height: u32) -> (buffer: PresentationBuffer)
        requires
            4 * (width as int * height as int) <= MAX_FIELD_CELLS,
        ensures
            buffer.wf(),
            buffer.width == width,
            buffer.height == height,
            forall|i: int| 0 <= i < buffer.pixels@.len() ==> buffer.pixels@[i] == 0,
    {
        assert(0 <= width as int * height as int <= 0xffff_ffff) by (nonlinear_arith)
            requires
                0 <= width,
                0 <= height,
                4 * (width as int * height as int) <= 0xffff_ffff,
        ;
        let area: u64 = (width as u64) * (height as u64);
        let pixels: Vec<u8> = vec![0u8; (4 * area) as usize];
        PresentationBuffer { width, height, pixels }
    }
}

/// Channel `c` of a colour: 0 is red, 1 is green, anything else is blue.
pub open spec fn channel(color: Rgb, c: int) -> u32 {
    if c == 0 {
        color.r
    } else if c == 1 {
        color.g
    } else {
        color.b
    }
}

/// What one species adds to channel `c` of a pixel: its colour, scaled by
/// its weight and by the trail value.
pub open spec fn contribution(settings: DisplaySettings, value: u32, c: int) -> int {
    scale_spec(scale_spec(channel(settings.color, c) as int, settings.weight as int), value as int)
}

/// The sum over the first `n` species of their contributions to channel `c`
/// of pixel `(x, y)`.
pub open spec fn channel_sum(
    trail: Grid,
    display: Seq<DisplaySettings>,
    x: int,
    y: int,
    c: int,
    n: nat,
) -> int
    decreases n,
{
    if n == 0 {
        0
    } else {
        channel_sum(trail, display, x, y, c, (n - 1) as nat) + contribution(
            display[n - 1],
            trail.at(x, y, n - 1),
            c,
        )
    }
}

/// A channel total as a byte: totals of one and more give 255.
pub open spec fn channel_byte(total: int) -> u8 {
    if total >= ONE {
        255u8
    } else if total <= 0 {
        0u8
    } else {
        (total * 255 / (ONE as int)) as u8
    }
}

/// Byte `c` of pixel `(x, y)`: the three colour channels, then an alpha of
/// one.
pub open spec fn pixel_byte(trail: Grid, display: Seq<DisplaySettings>, x: int, y: int, c: int) -> u8 {
    if c == 3 {
        255u8
    } else {
        channel_byte(channel_sum(trail, display, x, y, c, trail.layers))
    }
}

/// The bytes of the whole image.
pub open spec fn combined(trail: Grid, display: Seq<DisplaySettings>) -> Seq<u8> {
    let w = trail.width as int;
    Seq::new(
        4 * (trail.width * trail.height),
        |i: int| pixel_byte(trail, display, (i / 4) % w, (i / 4) / w, i % 4),
    )
}

/// The sum of contributions is never negative.
pub proof fn lemma_channel_sum_bounds(
    trail: Grid,
    display: Seq<DisplaySettings>,
    x: int,
    y: int,
    c: int,
    n: nat,
)
    ensures
        0 <= channel_sum(trail, display, x, y, c, n) <= n * 0xffff_ffff_ffff_ffff,
    decreases n,
{
    if n > 0 {
        lemma_channel_sum_bounds(trail, display, x, y, c, (n - 1) as nat);
        let s = display[n - 1];
        let v = trail.at(x, y, n - 1);
        lemma_contribution_bounds(s, v, c);
        assert((n - 1) * 0xffff_ffff_ffff_ffff + 0xffff_ffff_ffff_ffff == n * 0xffff_ffff_ffff_ffff)
            by (nonlinear_arith);
    }
}

/// One contribution fits in 64 bits.
pub proof fn lemma_contribution_bounds(settings: DisplaySettings, value: u32, c: int)
    ensures
        0 <= contribution(settings, value, c) <= 0xffff_ffff_ffff_ffff,
{
    let col = channel(settings.color, c) as int;
    let tint = scale_spec(col, settings.weight as int);
    lemma_scale_bounds(col, settings.weight as int);
    assert(col * settings.weight as int <= 0xffff_ffff * 0xffff_ffff) by (nonlinear_arith)
        requires
            0 <= col <= 0xffff_ffff,
            0 <= settings.weight <= 0xffff_ffff,
    ;
    assert(tint <= 0xffff_ffff_ffff);
    lemma_scale_bounds(tint, value as int);
    assert(tint * value as int <= 0xffff_ffff_ffff * 0xffff_ffff) by (nonlinear_arith)
        requires
            0 <= tint <= 0xffff_ffff_ffff,
            0 <= value <= 0xffff_ffff,
    ;
    assert(tint * value as int / 65536 <= 0xffff_ffff_ffff_ffff) by (nonlinear_arith)
        requires
            0 <= tint * value as int <= 0xffff_ffff_ffff * 0xffff_ffff,
    ;
}

/// Determinism: two images combined from one trail field and one table of
/// display settings are equal byte for byte.
pub proof fn lemma_combine_deterministic(
    trail: Grid,
    display: Seq<DisplaySettings>,
    first: Seq<u8>,
    second: Seq<u8>,
)
    requires
        first == combined(trail, display),
        second == combined(trail, display),
    ensures
        first == second,
        first.len() == 4 * (trail.width * trail.height),
{
}

/// The byte of channel `c` of pixel `(x, y)` stands at place
/// `4 * (y * width + x) + c` of the image.
pub proof fn lemma_combined_pixel(trail: Grid, display: Seq<DisplaySettings>, x: int, y: int, c: int)
    requires
        0 <= x < trail.width,
        0 <= y < trail.height,
        0 <= c < 4,
    ensures
        0 <= 4 * (y * trail.width + x) + c < combined(trail, display).len(),
        combined(trail, display)[4 * (y * trail.width + x) + c] == pixel_byte(
            trail,
            display,
            x,
            y,
            c,
        ),
{
    let w = trail.width as int;
    let h = trail.height as int;
    let p = y * w + x;
    assert(0 <= p < w * h && p % w == x && p / w == y) by (nonlinear_arith)
        requires
            0 <= x < w,
            0 <= y < h,
            p == y * w + x,
    ;
    let i = 4 * p + c;
    assert(i / 4 == p && i % 4 == c);
    assert(4 * (trail.width * trail.height) == 4 * (w * h));
}

/// Every pixel of a combined image is opaque.
pub proof fn lemma_combined_alpha(trail: Grid, display: Seq<DisplaySettings>, p: int)
    requires
        0 <= p < trail.width * trail.height,
    ensures
        combined(trail, display).len() == 4 * (trail.width * trail.height),
        combined(trail, display)[4 * p + 3] == 255,
{
}

/// A pixel of an all-zero trail field is black.
pub proof fn lemma_zero_trail_is_black(
    trail: Grid,
    display: Seq<DisplaySettings>,
    x: int,
    y: int,
    c: int,
)
    requires
        trail.wf(),
        trail.is_zero(),
        0 <= x < trail.width,
        0 <= y < trail.height,
        0 <= c < 3,
    ensures
        pixel_byte(trail, display, x, y, c) == 0,
{
    lemma_zero_channel_sum(trail, display, x, y, c, trail.layers);
}

proof fn lemma_zero_channel_sum(
    trail: Grid,
    display: Seq<DisplaySettings>,
    x: int,
    y: int,
    c: int,
    n: nat,
)
    requires
        trail.wf(),
        trail.is_zero(),
        0 <= x < trail.width,
        0 <= y < trail.height,
        n <= trail.layers,
    ensures
        channel_sum(trail, display, x, y, c, n) == 0,
    decreases n,
{
    if n > 0 {
        lemma_zero_channel_sum(trail, display, x, y, c, (n - 1) as nat);
        lemma_cell_index_bounds(
            trail.width as int,
            trail.height as int,
            trail.layers as int,
            x,
            y,
            n - 1,
        );
        let tint = scale_spec(channel(display[n - 1].color, c) as int, display[n - 1].weight as int);
        assert(tint * 0 / 65536 == 0) by (nonlinear_arith);
    }
}

/// One colour channel of a species.
fn channel_of(color: &Rgb, c: u8) -> (value: u32)
    ensures
        value == channel(*color, c as int),
{
    if c == 0 {
        color.r
    } else if c == 1 {
        color.g
    } else {
        color.b
    }
}

/// One colour byte of a pixel.
fn combine_channel(display: &Vec<DisplaySettings>, trail: &Field, x: u32, y: u32, c: u8) -> (byte: u8)
    requires
        trail.wf(),
        display@.len() == trail.layers,
        0 <= x < trail.width,
        0 <= y < trail.height,
        c < 3,
    ensures
        byte == pixel_byte(trail@, display@, x as int, y as int, c as int),
{
    let mut total: u128 = 0;
    let mut layer: u32 = 0;
    while layer < trail.layers
        invariant
            layer <= trail.layers,
            trail.wf(),
            display@.len() == trail.layers,
            0 <= x < trail.width,
            0 <= y < trail.height,
            total == channel_sum(trail@, display@, x as int, y as int, c as int, layer as nat),
        decreases trail.layers - layer,
    {
        proof {
            lemma_channel_sum_bounds(trail@, display@, x as int, y as int, c as int, layer as nat);
            lemma_contribution_bounds(
                display@[layer as int],
                trail.at(x as int, y as int, layer as int),
                c as int,
            );
            assert(layer * 0xffff_ffff_ffff_ffff <= 0xffff_ffff * 0xffff_ffff_ffff_ffff)
                by (nonlinear_arith)
                requires
                    0 <= layer <= 0xffff_ffff,
            ;
        }
        let settings = &display[layer as usize];
        let value: u32 = trail.get(x, y, layer);
        let tint: u64 = scale(channel_of(&settings.color, c), settings.weight);
        assert(tint * value <= 0xffff_ffff_ffff * 0xffff_ffff) by (nonlinear_arith)
            requires
                0 <= tint <= 0xffff_ffff_ffff,
                0 <= value <= 0xffff_ffff,
        ;
        let part: u128 = (tint as u128) * (value as u128) / (ONE as u128);
        total = total + part;
        layer += 1;
    }
    if total >= ONE as u128 {
        255
    } else {
        (total * 255 / (ONE as u128)) as u8
    }
}

/// Runs the kernel over every pixel: reads all layers of `trail` and
/// overwrites `out` with the combined image.
pub fn combine(display: &Vec<DisplaySettings>, trail: &Field, out: &mut PresentationBuffer)
    requires
        trail.wf(),
        old(out).wf(),
        display@.len() == trail.layers,
        old(out).width == trail.width,
        old(out).height == trail.height,
    ensures
        final(out).wf(),
        final(out).width == trail.width,
        final(out).height == trail.height,
        final(out).pixels@ == combined(trail@, display@),
        forall|x: int, y: int, c: int|
            0 <= x < trail.width && 0 <= y < trail.height && 0 <= c < 4 ==> final(out).pixels@[4 * (
                y * trail.width + x) + c] == #[trigger] pixel_byte(trail@, display@, x, y, c),
{
    let n: usize = out.pixels.len();
    let w: usize = trail.width as usize;
    let mut i: usize = 0;
    while i < n
        invariant
            i <= n,
            n == out.pixels@.len(),
            w == trail.width,
            trail.wf(),
            out.wf(),
            display@.len() == trail.layers,
            out.width == trail.width,
            out.height == trail.height,
            forall|j: int| 0 <= j < i ==> out.pixels@[j] == combined(trail@, display@)[j],
        decreases n - i,
    {
        let p: usize = i / 4;
        let c: u8 = (i % 4) as u8;
        assert(w > 0 && p / w < trail.height) by (nonlinear_arith)
            requires
                p == i / 4,
                0 <= i < 4 * (w * trail.height as int),
                w >= 0,
        ;
        let x: u32 = (p % w) as u32;
        let y: u32 = (p / w) as u32;
        let byte: u8 = if c == 3 {
            255
        } else {
            combine_channel(display, trail, x, y, c)
        };
        out.pixels[i] = byte;
        i += 1;
    }
    assert(out.pixels@ =~= combined(trail@, display@));
    assert forall|x: int, y: int, c: int|
        0 <= x < trail.width && 0 <= y < trail.height && 0 <= c < 4 implies out.pixels@[4 * (y
            * trail.width + x) + c] == #[trigger] pixel_byte(trail@, display@, x, y, c) by {
        lemma_combined_pixel(trail@, display@, x, y, c);
    }
}

} // verus!
