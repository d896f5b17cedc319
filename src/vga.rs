//! Raster timing interpreter: rebuilds frames and line timing from the output
//! register alone. Bit 7 is vertical sync, bit 6 horizontal sync, bits 5..0
//! hold blue, green and red as two bits each.
use vstd::prelude::*;

use crate::cpu::RegisterFile;

verus! {

pub const VSYNC: u8 = 0x80;

pub const HSYNC: u8 = 0x40;

/// Phase lengths of one raster axis, in pixels (horizontal) or lines (vertical).
pub struct SyncTiming {
    pub front_porch: i32,
    pub pulse: i32,
    pub back_porch: i32,
    pub visible: i32,
}

impl SyncTiming {
    /// Phase lengths are non-negative and their sum fits an `i32`.
    pub open spec fn wf(&self) -> bool {
        &&& self.front_porch >= 0
        &&& self.pulse >= 0
        &&& self.back_porch >= 0
        &&& self.visible >= 0
        &&& self.total() <= i32::MAX
    }

    /// Length of a whole period: the four phases together.
    pub open spec fn total(&self) -> int {
        self.front_porch + self.pulse + self.back_porch + self.visible
    }

    /// First visible position: after the sync pulse and the back porch.
    pub open spec fn window_start(&self) -> int {
        self.back_porch + self.pulse
    }
}

/// CPU cycles in one frame: each cycle covers four pixels of a line.
pub fn frame_cycles(horiz_timing: &SyncTiming, vert_timing: &SyncTiming) -> (r: u64)
    requires
        horiz_timing.wf(),
        vert_timing.wf(),
    ensures
        r == horiz_timing.total() * vert_timing.total() / 4,
{
    let h = (horiz_timing.front_porch + horiz_timing.pulse + horiz_timing.back_porch
        + horiz_timing.visible) as u64;
    let v = (vert_timing.front_porch + vert_timing.pulse + vert_timing.back_porch
        + vert_timing.visible) as u64;
    proof {
        vstd::arithmetic::mul::lemma_mul_upper_bound(h as int, 0x8000_0000, v as int, 0x8000_0000);
    }
    h * v / 4
}

#[derive(Clone, Copy, Debug, PartialEq, Eq, Structural)]
pub struct TimingResult {
    /// A vertical sync edge was seen: the completed frame should be presented.
    pub should_render: bool,
    /// A horizontal sync edge came after a line of the wrong length.
    pub horiz_cycle_err: bool,
}

pub struct Vga {
    /// Frame being drawn, four bytes (red, green, blue, alpha) per pixel.
    pub framebuffer: Vec<u8>,
    /// Last completed frame, handed over at the latest vertical sync edge.
    pub frame: Vec<u8>,
    /// Visible width and height in pixels.
    pub size: (u32, u32),
    /// Bytes in a frame.
    pub pixel_count: usize,
    /// Expected length of a line, in pixels.
    pub line_len: i32,
    pub min_row: i32,
    pub max_row: i32,
    pub min_col: i32,
    pub max_col: i32,
    pub prev_out: u8,
    pub row: i32,
    pub col: i32,
    /// Byte offset of the next pixel written in `framebuffer`.
    pub pixel: usize,
}

/// Whether the bits of `mask` went from 1 in `prev` to 0 in `out`.
pub open spec fn falling_edge(prev: u8, out: u8, mask: u8) -> bool {
    prev & mask != 0 && out & mask == 0
}

/// The two-bit channel of `out` that starts at bit value `unit` (1, 4 or 16),
/// expanded to 0, 85, 170 or 255.
pub open spec fn channel(out: u8, unit: nat) -> u8 {
    (85 * ((out as nat / unit) % 4)) as u8
}

/// Byte `k` (red, green, blue, alpha) of a pixel of colour `out`.
pub open spec fn pixel_byte(out: u8, k: int) -> u8 {
    if k == 0 {
        channel(out, 1)
    } else if k == 1 {
        channel(out, 4)
    } else if k == 2 {
        channel(out, 16)
    } else {
        255
    }
}

/// `fb` with four pixels of colour `out` written from byte offset `at`.
pub open spec fn paint(fb: Seq<u8>, at: int, out: u8) -> Seq<u8> {
    Seq::new(
        fb.len(),
        |i: int|
            if at <= i < at + 16 {
                pixel_byte(out, (i - at) % 4)
            } else {
                fb[i]
            },
    )
}

/// `v + k`, saturating at the largest `i32`.
pub open spec fn advance(v: i32, k: i32) -> i32 {
    if v + k > i32::MAX {
        i32::MAX
    } else {
        (v + k) as i32
    }
}

/// A frame of `n` zero bytes.
fn blank_frame(n: usize) -> (r: Vec<u8>)
    ensures
        r@ == Seq::new(n as nat, |i: int| 0u8),
{
    let mut v: Vec<u8> = Vec::with_capacity(n);
    let mut i: usize = 0;
    while i < n
        invariant
            i <= n,
            v@ == Seq::new(i as nat, |j: int| 0u8),
        decreases n - i,
    {
        v.push(0);
        i += 1;
    }
    v
}

proof fn lemma_edge_bits(prev: u8, out: u8)
    ensures
        ((prev & !out) & VSYNC != 0) == falling_edge(prev, out, VSYNC),
        ((prev & !out) & HSYNC != 0) == falling_edge(prev, out, HSYNC),
{
    assert(((prev & !out) & 0x80 != 0) == (prev & 0x80 != 0 && out & 0x80 == 0)) by (bit_vector);
    assert(((prev & !out) & 0x40 != 0) == (prev & 0x40 != 0 && out & 0x40 == 0)) by (bit_vector);
}

proof fn lemma_channel_bits(out: u8)
    ensures
        85 * (out & 3) == channel(out, 1),
        85 * ((out >> 2u8) & 3) == channel(out, 4),
        85 * ((out >> 4u8) & 3) == channel(out, 16),
{
    assert(out & 3 == out % 4) by (bit_vector);
    assert((out >> 2u8) & 3 == (out / 4) % 4) by (bit_vector);
    assert((out >> 4u8) & 3 == (out / 16) % 4) by (bit_vector);
}

/// Writes four pixels of colour `out` from byte offset `at`.
fn paint_pixels(fb: &mut Vec<u8>, at: usize, out: u8)
    requires
        at + 16 <= old(fb)@.len(),
    ensures
        final(fb)@ == paint(old(fb)@, at as int, out),
{
    proof {
        lemma_channel_bits(out);
    }
    let ghost before = fb@;
    let r = 85 * (out & 3);
    let g = 85 * ((out >> 2u8) & 3);
    let b = 85 * ((out >> 4u8) & 3);
    let len = fb.len();
    assert(at + 16 <= len);
    let end = at + 16;
    let mut p = at;
    while p < end
        invariant
            end == at + 16,
            at <= p <= end,
            (p - at) % 4 == 0,
            at + 16 <= before.len(),
            fb@.len() == before.len(),
            r == channel(out, 1),
            g == channel(out, 4),
            b == channel(out, 16),
            forall|i: int|
                0 <= i < before.len() ==> #[trigger] fb@[i] == if at <= i < p {
                    pixel_byte(out, (i - at) % 4)
                } else {
                    before[i]
                },
        decreases end - p,
    {
        fb.set(p, r);
        fb.set(p + 1, g);
        fb.set(p + 2, b);
        fb.set(p + 3, 255);
        p = p + 4;
    }
    assert(fb@ =~= paint(before, at as int, out));
}

impl Vga {
    pub open spec fn wf(&self) -> bool {
        &&& self.framebuffer@.len() == self.pixel_count
        &&& self.frame@.len() == self.pixel_count
        &&& self.pixel <= self.pixel_count
        &&& self.pixel_count <= i32::MAX
    }

    /// Whether two interpreters share their configuration.
    pub open spec fn same_config(&self, other: &Vga) -> bool {
        &&& self.size == other.size
        &&& self.pixel_count == other.pixel_count
        &&& self.line_len == other.line_len
        &&& self.min_row == other.min_row
        &&& self.max_row == other.max_row
        &&& self.min_col == other.min_col
        &&& self.max_col == other.max_col
    }

    pub open spec fn vsync_edge(&self, out: u8) -> bool {
        falling_edge(self.prev_out, out, VSYNC)
    }

    pub open spec fn hsync_edge(&self, out: u8) -> bool {
        falling_edge(self.prev_out, out, HSYNC)
    }

    /// Line the cycle with output `out` falls on.
    pub open spec fn row_after(&self, out: u8) -> i32 {
        let r = if self.vsync_edge(out) { -1i32 } else { self.row };
        if self.hsync_edge(out) { advance(r, 1) } else { r }
    }

    /// Column the cycle with output `out` paints at.
    pub open spec fn col_at(&self, out: u8) -> i32 {
        if self.hsync_edge(out) { 0 } else { self.col }
    }

    /// Byte offset the cycle with output `out` paints at.
    pub open spec fn pixel_at(&self, out: u8) -> usize {
        if self.vsync_edge(out) { 0 } else { self.pixel }
    }

    /// Frame the cycle with output `out` paints into.
    pub open spec fn target_frame(&self, out: u8) -> Seq<u8> {
        if self.vsync_edge(out) {
            Seq::new(self.pixel_count as nat, |i: int| 0u8)
        } else {
            self.framebuffer@
        }
    }

    /// Whether the cycle with output `out` lies in the visible window (and
    /// the frame has room for it).
    pub open spec fn paints(&self, out: u8) -> bool {
        &&& self.min_row <= self.row_after(out) < self.max_row
        &&& self.min_col <= self.col_at(out) < self.max_col
        &&& self.pixel_at(out) + 16 <= self.pixel_count
    }

    /// Interpreter for the given horizontal and vertical timings, with a
    /// blank frame and no sync seen yet.
    pub fn new(horiz_timing: &SyncTiming, vert_timing: &SyncTiming) -> (r: Self)
        requires
            horiz_timing.wf(),
            vert_timing.wf(),
            horiz_timing.visible * vert_timing.visible * 4 <= i32::MAX,
        ensures
            r.wf(),
            r.pixel_count == horiz_timing.visible * vert_timing.visible * 4,
            r.size == (horiz_timing.visible as u32, vert_timing.visible as u32),
            r.line_len == horiz_timing.total(),
            r.min_row == vert_timing.window_start(),
            r.max_row == vert_timing.window_start() + vert_timing.visible,
            r.min_col == horiz_timing.window_start(),
            r.max_col == horiz_timing.window_start() + horiz_timing.visible,
            r.framebuffer@ == Seq::new(r.pixel_count as nat, |i: int| 0u8),
            r.frame@ == Seq::new(r.pixel_count as nat, |i: int| 0u8),
            r.prev_out == 0,
            r.row == 0,
            r.col == 0,
            r.pixel == 0,
    {
        let min_row = vert_timing.back_porch + vert_timing.pulse;
        let min_col = horiz_timing.back_porch + horiz_timing.pulse;
        let line_len = horiz_timing.front_porch + horiz_timing.pulse + horiz_timing.back_porch
            + horiz_timing.visible;
        proof {
            vstd::arithmetic::mul::lemma_mul_nonnegative(
                horiz_timing.visible as int,
                vert_timing.visible as int,
            );
        }
        let pixel_count = (horiz_timing.visible * vert_timing.visible * 4) as usize;

        Vga {
            framebuffer: blank_frame(pixel_count),
            frame: blank_frame(pixel_count),
            size: (horiz_timing.visible as u32, vert_timing.visible as u32),
            pixel_count,
            line_len,
            min_row,
            max_row: min_row + vert_timing.visible,
            min_col,
            max_col: min_col + horiz_timing.visible,
            prev_out: 0,
            row: 0,
            col: 0,
            pixel: 0,
        }
    }

    /// Consumes the output register of one cycle. A vertical sync falling edge
    /// hands the drawn frame over to `frame` and starts a new one; a horizontal
    /// sync falling edge starts a new line and checks the previous line's
    /// length. Inside the visible window the cycle paints four pixels, and the
    /// column advances by four.
    pub fn update(&mut self, reg: &RegisterFile) -> (r: TimingResult)
        requires
            old(self).wf(),
        ensures
            final(self).wf(),
            final(self).same_config(old(self)),
            r == (TimingResult {
                should_render: old(self).vsync_edge(reg.out),
                horiz_cycle_err: old(self).hsync_edge(reg.out) && old(self).col != old(self).line_len,
            }),
            final(self).prev_out == reg.out,
            final(self).frame@ == if old(self).vsync_edge(reg.out) {
                old(self).framebuffer@
            } else {
                old(self).frame@
            },
            final(self).row == old(self).row_after(reg.out),
            final(self).col == advance(old(self).col_at(reg.out), 4),
            final(self).framebuffer@ == if old(self).paints(reg.out) {
                paint(old(self).target_frame(reg.out), old(self).pixel_at(reg.out) as int, reg.out)
            } else {
                old(self).target_frame(reg.out)
            },
            final(self).pixel == if old(self).paints(reg.out) {
                old(self).pixel_at(reg.out) + 16
            } else {
                old(self).pixel_at(reg.out) as int
            },
    {
        let out = reg.out;
        let falling = self.prev_out & !out;
        proof {
            lemma_edge_bits(self.prev_out, out);
        }
        self.prev_out = out;

        let render = falling & VSYNC != 0;
        if render {
            self.row = -1;
            self.pixel = 0;
            let mut fresh = blank_frame(self.pixel_count);
            std::mem::swap(&mut self.framebuffer, &mut fresh);
            self.frame = fresh;
        }
        let ghost target = self.framebuffer@;

        let mut horiz_cycle_err = false;
        if falling & HSYNC != 0 {
            if self.col != self.line_len {
                horiz_cycle_err = true;
            }
            self.col = 0;
            if self.row < i32::MAX {
                self.row = self.row + 1;
            }
        }

        if (self.row >= self.min_row && self.row < self.max_row) && (self.col >= self.min_col
            && self.col < self.max_col) && self.pixel + 16 <= self.framebuffer.len() {
            paint_pixels(&mut self.framebuffer, self.pixel, out);
            self.pixel = self.pixel + 16;
        }

        if self.col <= i32::MAX - 4 {
            self.col = self.col + 4;
        } else {
            self.col = i32::MAX;
        }

        TimingResult { should_render: render, horiz_cycle_err }
    }
}

} // verus!
