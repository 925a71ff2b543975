//! Turning one RGBA image into the planes of a 4:2:0 video frame.

use crate::timing::{clamp_i64, magnitude, round_div, rounded_quotient};
use crate::{ConversionFailure, Error, StateFailure};
use vstd::prelude::*;

verus! {

/// What [`frame_to_pts`] returns: `frame_idx / fps * ticks_per_second`
/// rounded to the nearest tick and limited to 64 bits.
///
/// A zero frame rate has no quotient: the result is then 0 where the product
/// `frame_idx * ticks_per_second` is 0, and otherwise the limit on the side
/// of that product's sign.
pub open spec fn spec_frame_to_pts(frame_idx: i64, fps: i64, ticks_per_second: i64) -> i64 {
    let ticks = frame_idx * ticks_per_second;
    if fps != 0 {
        clamp_i64(round_div(ticks, fps as int)) as i64
    } else if ticks == 0 {
        0
    } else if ticks < 0 {
        i64::MIN
    } else {
        i64::MAX
    }
}

/// Converts frame index to a presentation time stamp
pub fn frame_to_pts(frame_idx: i64, fps: i64, ticks_per_second: i64) -> (pts: i64)
    ensures
        pts == spec_frame_to_pts(frame_idx, fps, ticks_per_second),
{
    assert(-0x4000_0000_0000_0000_0000_0000_0000_0000 <= frame_idx * ticks_per_second
        <= 0x4000_0000_0000_0000_0000_0000_0000_0000) by (nonlinear_arith)
        requires
            -0x8000_0000_0000_0000 <= frame_idx <= 0x7fff_ffff_ffff_ffff,
            -0x8000_0000_0000_0000 <= ticks_per_second <= 0x7fff_ffff_ffff_ffff,
    ;
    let ticks: i128 = (frame_idx as i128) * (ticks_per_second as i128);
    if fps == 0 {
        return if ticks == 0 {
            0
        } else if ticks < 0 {
            i64::MIN
        } else {
            i64::MAX
        };
    }
    let a: u128 = if ticks < 0 {
        (-ticks) as u128
    } else {
        ticks as u128
    };
    let b: u128 = if fps < 0 {
        (-(fps as i128)) as u128
    } else {
        fps as u128
    };
    let q = rounded_quotient(a, b);
    assert(a == magnitude(ticks as int) && b == magnitude(fps as int));
    if (ticks < 0) != (fps < 0) {
        if q >= 0x8000_0000_0000_0000 {
            i64::MIN
        } else {
            -(q as i64)
        }
    } else {
        if q > 0x7fff_ffff_ffff_ffff {
            i64::MAX
        } else {
            q as i64
        }
    }
}

/// Edge length of the work groups of the conversion dispatch.
pub const WORK_GROUP_SIZE: u32 = 16;

/// The value that fills the chroma planes of a frame that carries alpha:
/// the chroma of no colour.
pub const NEUTRAL_CHROMA: u8 = 128;

/// The extent of a plane along one axis: the luma extent divided by the
/// subsampling factor, rounded up.
pub open spec fn plane_extent(luma: int, divisor: int) -> int
    recommends
        luma >= 0,
        divisor > 0,
{
    (luma + divisor - 1) / divisor
}

/// Computes [`plane_extent`]; also the number of work groups that cover
/// `luma` texels.
pub fn div_ceil(luma: u32, divisor: u32) -> (extent: u32)
    requires
        divisor > 0,
    ensures
        extent == plane_extent(luma as int, divisor as int),
        extent <= luma,
{
    let whole = luma / divisor;
    let rest = luma % divisor;
    proof {
        let l = luma as int;
        let d = divisor as int;
        vstd::arithmetic::div_mod::lemma_fundamental_div_mod(l, d);
        assert(d * (l / d) == (l / d) * d) by (nonlinear_arith);
        assert((whole as int + 1) * d == whole as int * d + d) by (nonlinear_arith);
        if rest == 0 {
            vstd::arithmetic::div_mod::lemma_fundamental_div_mod_converse(
                l + d - 1,
                d,
                whole as int,
                d - 1,
            );
        } else {
            vstd::arithmetic::div_mod::lemma_fundamental_div_mod_converse(
                l + d - 1,
                d,
                whole as int + 1,
                rest as int - 1,
            );
        }
        assert(whole as int * d >= whole as int) by (nonlinear_arith)
            requires
                d >= 1,
                whole >= 0,
        ;
    }
    if rest == 0 {
        whole
    } else {
        whole + 1
    }
}

/// How many bytes of row `row` are copied: the plane's width, cut down to
/// what is left of the source past the start of that row, and to what is
/// left of the destination past the start of that line.
pub open spec fn row_copy_len(src_len: int, dst_len: int, row: int, width: int, line_size: int) -> int {
    let src_left = if src_len > row * width {
        src_len - row * width
    } else {
        0
    };
    let dst_left = if dst_len > row * line_size {
        dst_len - row * line_size
    } else {
        0
    };
    let n = if width < src_left {
        width
    } else {
        src_left
    };
    if n < dst_left {
        n
    } else {
        dst_left
    }
}

/// The destination after one row has been copied into it: `n` bytes from
/// `src_start` of the source come to stand from `dst_start` on.
pub open spec fn with_row(dst: Seq<u8>, src: Seq<u8>, dst_start: int, src_start: int, n: int) -> Seq<u8> {
    Seq::new(
        dst.len(),
        |j: int|
            if dst_start <= j < dst_start + n {
                src[src_start + (j - dst_start)]
            } else {
                dst[j]
            },
    )
}

/// The destination after the first `rows` rows of a tightly packed source
/// of the given width have been copied into it, row `r` to the line that
/// starts at `r * line_size`, each row cut as [`row_copy_len`] says.
pub open spec fn rows_copied(dst: Seq<u8>, src: Seq<u8>, width: int, line_size: int, rows: nat) -> Seq<u8>
    decreases rows,
{
    if rows == 0 {
        dst
    } else {
        let row = rows - 1;
        let before = rows_copied(dst, src, width, line_size, row as nat);
        with_row(
            before,
            src,
            row * line_size,
            row * width,
            row_copy_len(src.len() as int, dst.len() as int, row, width, line_size),
        )
    }
}

/// Copying rows never changes the length of the destination.
pub proof fn lemma_rows_copied_len(dst: Seq<u8>, src: Seq<u8>, width: int, line_size: int, rows: nat)
    ensures
        rows_copied(dst, src, width, line_size, rows).len() == dst.len(),
    decreases rows,
{
    if rows > 0 {
        lemma_rows_copied_len(dst, src, width, line_size, (rows - 1) as nat);
    }
}

/// Copies a tightly packed plane of `width` by `height` bytes into a buffer
/// whose lines are `line_size` bytes apart.
///
/// A row is copied only as far as both the source and the destination
/// reach, so no length of either slice is refused.
pub fn copy_rows(src: &[u8], dst: &mut [u8], width: usize, height: usize, line_size: usize)
    ensures
        final(dst)@ == rows_copied(old(dst)@, src@, width as int, line_size as int, height as nat),
{
    let ghost start = dst@;
    let src_len = src.len();
    let dst_len = dst.len();
    let mut row: usize = 0;
    while row < height
        invariant
            row <= height,
            src@.len() == src_len,
            dst@.len() == dst_len,
            start.len() == dst_len,
            dst@ == rows_copied(start, src@, width as int, line_size as int, row as nat),
        decreases height - row,
    {
        let ghost before = dst@;
        let src_left = match row.checked_mul(width) {
            Some(src_start) => src_len.saturating_sub(src_start),
            None => 0,
        };
        let dst_left = match row.checked_mul(line_size) {
            Some(dst_start) => dst_len.saturating_sub(dst_start),
            None => 0,
        };
        let mut n = width;
        if src_left < n {
            n = src_left;
        }
        if dst_left < n {
            n = dst_left;
        }
        assert(n == row_copy_len(
            src_len as int,
            dst_len as int,
            row as int,
            width as int,
            line_size as int,
        ));
        if n > 0 {
            let src_start = row * width;
            let dst_start = row * line_size;
            let mut k: usize = 0;
            while k < n
                invariant
                    k <= n,
                    src_start + n <= src_len,
                    dst_start + n <= dst_len,
                    src@.len() == src_len,
                    dst@.len() == dst_len,
                    before.len() == dst_len,
                    dst@ == with_row(before, src@, dst_start as int, src_start as int, k as int),
                decreases n - k,
            {
                dst[dst_start + k] = src[src_start + k];
                k += 1;
            }
        } else {
            assert(dst@ == with_row(before, src@, row * line_size, row * width, 0));
        }
        row += 1;
    }
}

/// The place of the byte at `row` and `col` in a buffer whose lines are
/// `stride` bytes apart.
pub open spec fn cell(row: int, col: int, stride: int) -> int {
    row * stride + col
}

/// Where the lines are at least as long as the rows and both buffers are
/// large enough, every byte of every row arrives at its place in its line,
/// and the padding behind each row and every line past the last row is left
/// as it was.
pub proof fn lemma_rows_copied_regular(dst: Seq<u8>, src: Seq<u8>, width: int, line_size: int, rows: nat)
    requires
        0 <= width <= line_size,
        src.len() >= rows * width,
        rows > 0 ==> dst.len() >= (rows - 1) * line_size + width,
    ensures
        rows_copied(dst, src, width, line_size, rows).len() == dst.len(),
        forall|r: int, c: int|
            0 <= r < rows && 0 <= c < width ==> #[trigger] rows_copied(
                dst,
                src,
                width,
                line_size,
                rows,
            )[cell(r, c, line_size)] == src[cell(r, c, width)],
        forall|r: int, c: int|
            0 <= r && 0 <= c < line_size && cell(r, c, line_size) < dst.len() && (r >= rows || c
                >= width) ==> #[trigger] rows_copied(dst, src, width, line_size, rows)[cell(
                r,
                c,
                line_size,
            )] == dst[cell(r, c, line_size)],
    decreases rows,
{
    lemma_rows_copied_len(dst, src, width, line_size, rows);
    if rows > 0 {
        let row = rows - 1;
        let before = rows_copied(dst, src, width, line_size, row as nat);
        let out = rows_copied(dst, src, width, line_size, rows);
        assert(row * width <= rows * width) by (nonlinear_arith)
            requires
                row == rows - 1,
                width >= 0,
        ;
        assert(rows * width == row * width + width) by (nonlinear_arith)
            requires
                row == rows - 1,
        ;
        if row > 0 {
            assert((row - 1) * line_size + width <= row * line_size + width) by (nonlinear_arith)
                requires
                    line_size >= 0,
            ;
        }
        lemma_rows_copied_regular(dst, src, width, line_size, row as nat);
        lemma_rows_copied_len(dst, src, width, line_size, row as nat);
        let n = row_copy_len(src.len() as int, dst.len() as int, row, width, line_size);
        assert(n == width);
        assert(out == with_row(before, src, row * line_size, row * width, width));
        assert forall|r: int, c: int| 0 <= r < rows && 0 <= c < width implies #[trigger] out[cell(
            r,
            c,
            line_size,
        )] == src[cell(r, c, width)] by {
            if r < row {
                assert((r + 1) * line_size <= row * line_size) by (nonlinear_arith)
                    requires
                        r + 1 <= row,
                        line_size >= 0,
                ;
                assert((r + 1) * line_size == r * line_size + line_size) by (nonlinear_arith);
                assert(r * line_size >= 0) by (nonlinear_arith)
                    requires
                        r >= 0,
                        line_size >= 0,
                ;
                assert(out[cell(r, c, line_size)] == before[cell(r, c, line_size)]);
            }
        }
        assert forall|r: int, c: int|
            0 <= r && 0 <= c < line_size && cell(r, c, line_size) < dst.len() && (r >= rows || c
                >= width) implies #[trigger] out[cell(r, c, line_size)] == dst[cell(
            r,
            c,
            line_size,
        )] by {
            assert(r * line_size >= 0) by (nonlinear_arith)
                requires
                    r >= 0,
                    line_size >= 0,
            ;
            if r < row {
                assert((r + 1) * line_size <= row * line_size) by (nonlinear_arith)
                    requires
                        r + 1 <= row,
                        line_size >= 0,
                ;
                assert((r + 1) * line_size == r * line_size + line_size) by (nonlinear_arith);
            } else if r > row {
                assert((row + 1) * line_size <= r * line_size) by (nonlinear_arith)
                    requires
                        row + 1 <= r,
                        line_size >= 0,
                ;
                assert((row + 1) * line_size == row * line_size + line_size) by (nonlinear_arith);
            }
            assert(out[cell(r, c, line_size)] == before[cell(r, c, line_size)]);
        }
    }
}

/// Sets every byte of a buffer to one value.
pub fn fill(buf: &mut [u8], value: u8)
    ensures
        final(buf)@ == Seq::new(old(buf)@.len(), |i: int| value),
{
    let n = buf.len();
    let mut i: usize = 0;
    while i < n
        invariant
            i <= n,
            buf@.len() == n,
            forall|j: int| 0 <= j < i ==> buf@[j] == value,
        decreases n - i,
    {
        buf[i] = value;
        i += 1;
    }
    assert(buf@ =~= Seq::new(n as nat, |i: int| value));
}

/// The packed layout of the image that comes in.
#[derive(Clone, Copy, Debug, PartialEq, Eq, Structural)]
pub enum Format {
    L8,
    Rgb8,
    Rgba8,
}

/// The pixel format of the frames that go out.
#[derive(Clone, Copy, Debug, PartialEq, Eq, Structural)]
pub enum Pixel {
    Gray8,
    Nv12,
    Rgb24,
    Rgba,
    Yuv420p,
    Yuv422p,
    Yuv444p,
    Yuva420p,
}

impl Pixel {
    /// The formats whose planes the conversion knows how to lay out: the
    /// planar 4:2:0 formats, with or without alpha.
    pub open spec fn spec_has_plane_layout(self) -> bool {
        self == Pixel::Yuv420p || self == Pixel::Yuva420p
    }

    /// Whether the conversion can produce this format.
    pub fn has_plane_layout(&self) -> (r: bool)
        ensures
            r == self.spec_has_plane_layout(),
    {
        match self {
            Pixel::Yuv420p | Pixel::Yuva420p => true,
            _ => false,
        }
    }
}

/// The factor by which each axis of the chroma planes is subsampled.
pub const CHROMA_DIVISOR: u32 = 2;

/// One plane of a frame: `height` rows of `width` samples, row `r` starting
/// at byte `r * stride` of `data`.
#[derive(Debug)]
pub struct Plane {
    pub width: usize,
    pub height: usize,
    pub stride: usize,
    pub data: Vec<u8>,
}

impl Plane {
    /// The rows fit in their lines and the buffer holds every line.
    pub open spec fn wf(&self) -> bool {
        &&& self.width <= self.stride
        &&& self.data@.len() == self.stride * self.height
    }

    /// The sample at `row` and `col`.
    pub open spec fn sample(&self, row: int, col: int) -> u8
        recommends
            0 <= row < self.height,
            0 <= col < self.width,
    {
        self.data@[cell(row, col, self.stride as int)]
    }

    /// Whether the plane is well formed.
    pub fn is_well_formed(&self) -> (r: bool)
        ensures
            r == self.wf(),
    {
        if self.width > self.stride {
            return false;
        }
        let len = self.data.len();
        match self.stride.checked_mul(self.height) {
            Some(size) => len == size,
            None => false,
        }
    }

    /// A zeroed plane, or nothing where the rows do not fit in the lines or
    /// the buffer's size does not fit in `usize`.
    pub fn new(width: usize, height: usize, stride: usize) -> (plane: Option<Plane>)
        ensures
            plane is Some <==> width <= stride && stride * height <= usize::MAX,
            plane matches Some(p) ==> {
                &&& p.wf()
                &&& p.width == width
                &&& p.height == height
                &&& p.stride == stride
                &&& p.data@ == Seq::new((stride * height) as nat, |i: int| 0u8)
            },
    {
        if width > stride {
            return None;
        }
        match stride.checked_mul(height) {
            Some(size) => {
                let data = vec![0u8; size];
                assert(data@ =~= Seq::new(size as nat, |i: int| 0u8));
                Some(Plane { width, height, stride, data })
            },
            None => None,
        }
    }
}

/// A planar 4:2:0 frame: a full-size luma plane and two chroma planes of
/// half the extent, rounded up, along each axis.
#[derive(Debug)]
pub struct VideoFrame {
    pub width: u32,
    pub height: u32,
    pub pts: Option<i64>,
    pub y: Plane,
    pub u: Plane,
    pub v: Plane,
}

impl VideoFrame {
    /// The three planes are well formed and have the extents that the
    /// frame's size calls for.
    pub open spec fn wf(&self) -> bool {
        &&& self.y.wf()
        &&& self.u.wf()
        &&& self.v.wf()
        &&& self.y.width == self.width
        &&& self.y.height == self.height
        &&& self.u.width == plane_extent(self.width as int, CHROMA_DIVISOR as int)
        &&& self.u.height == plane_extent(self.height as int, CHROMA_DIVISOR as int)
        &&& self.v.width == self.u.width
        &&& self.v.height == self.u.height
    }

    /// Whether the frame is well formed.
    pub fn is_well_formed(&self) -> (r: bool)
        ensures
            r == self.wf(),
    {
        let chroma_width = div_ceil(self.width, CHROMA_DIVISOR) as usize;
        let chroma_height = div_ceil(self.height, CHROMA_DIVISOR) as usize;
        self.y.is_well_formed() && self.u.is_well_formed() && self.v.is_well_formed()
            && self.y.width == self.width as usize && self.y.height == self.height as usize
            && self.u.width == chroma_width && self.u.height == chroma_height && self.v.width
            == chroma_width && self.v.height == chroma_height
    }

    /// Whether lines of these lengths hold a frame of this size in memory.
    pub open spec fn fits(width: u32, height: u32, y_stride: usize, u_stride: usize, v_stride: usize) -> bool {
        let chroma_width = plane_extent(width as int, CHROMA_DIVISOR as int);
        let chroma_height = plane_extent(height as int, CHROMA_DIVISOR as int);
        &&& width <= y_stride
        &&& chroma_width <= u_stride
        &&& chroma_width <= v_stride
        &&& y_stride * height <= usize::MAX
        &&& u_stride * chroma_height <= usize::MAX
        &&& v_stride * chroma_height <= usize::MAX
    }

    /// A zeroed frame without a timestamp whose lines have the given
    /// lengths, or nothing where [`VideoFrame::fits`] fails.
    pub fn with_strides(width: u32, height: u32, y_stride: usize, u_stride: usize, v_stride: usize) -> (frame:
        Option<VideoFrame>)
        ensures
            frame is Some <==> Self::fits(width, height, y_stride, u_stride, v_stride),
            frame matches Some(f) ==> {
                &&& f.wf()
                &&& f.width == width
                &&& f.height == height
                &&& f.pts is None
                &&& f.y.stride == y_stride
                &&& f.u.stride == u_stride
                &&& f.v.stride == v_stride
                &&& f.y.data@ == Seq::new((y_stride * height) as nat, |i: int| 0u8)
                &&& f.u.data@ == Seq::new((u_stride * f.u.height) as nat, |i: int| 0u8)
                &&& f.v.data@ == Seq::new((v_stride * f.v.height) as nat, |i: int| 0u8)
            },
    {
        let chroma_width = div_ceil(width, CHROMA_DIVISOR) as usize;
        let chroma_height = div_ceil(height, CHROMA_DIVISOR) as usize;
        let y = match Plane::new(width as usize, height as usize, y_stride) {
            Some(p) => p,
            None => {
                return None;
            },
        };
        let u = match Plane::new(chroma_width, chroma_height, u_stride) {
            Some(p) => p,
            None => {
                return None;
            },
        };
        let v = match Plane::new(chroma_width, chroma_height, v_stride) {
            Some(p) => p,
            None => {
                return None;
            },
        };
        Some(VideoFrame { width, height, pts: None, y, u, v })
    }

    /// A zeroed frame without a timestamp and without padding, or nothing
    /// where its planes do not fit in memory.
    pub fn new(width: u32, height: u32) -> (frame: Option<VideoFrame>)
        ensures
            frame is Some <==> Self::fits(
                width,
                height,
                width as usize,
                plane_extent(width as int, CHROMA_DIVISOR as int) as usize,
                plane_extent(width as int, CHROMA_DIVISOR as int) as usize,
            ),
            frame matches Some(f) ==> {
                &&& f.wf()
                &&& f.width == width
                &&& f.height == height
                &&& f.pts is None
                &&& f.y.stride == width
                &&& f.u.stride == f.u.width
                &&& f.v.stride == f.v.width
                &&& f.y.data@ == Seq::new((width * height) as nat, |i: int| 0u8)
                &&& f.u.data@ == Seq::new((f.u.width * f.u.height) as nat, |i: int| 0u8)
                &&& f.v.data@ == Seq::new((f.v.width * f.v.height) as nat, |i: int| 0u8)
            },
    {
        let chroma_width = div_ceil(width, CHROMA_DIVISOR) as usize;
        Self::with_strides(width, height, width as usize, chroma_width, chroma_width)
    }

    /// Stamps the frame: every plane of a frame shares this one timestamp.
    pub fn set_pts(&mut self, pts: Option<i64>)
        ensures
            final(self).pts == pts,
            final(self).width == old(self).width,
            final(self).height == old(self).height,
            final(self).y == old(self).y,
            final(self).u == old(self).u,
            final(self).v == old(self).v,
    {
        self.pts = pts;
    }
}


/// What a resource of the conversion stage is for.
#[derive(Clone, Copy, Debug, PartialEq, Eq, Structural)]
pub enum ResourceKind {
    Device,
    Shader,
    Pipeline,
    Sampler,
    Scratch,
    Luma,
    ChromaU,
    ChromaV,
    Alpha,
    UniformSet,
}


/// How many resources a conversion context holds once it is complete.
pub const RESOURCE_COUNT: usize = 10;

/// One resource that the device is asked for. For a texture `width` and
/// `height` give its size and `binding` its slot in the uniform set; the
/// sampler has a binding only; for the others the three are 0.
#[derive(Clone, Copy, Debug, PartialEq, Eq, Structural)]
pub struct ResourceRequest {
    pub kind: ResourceKind,
    pub binding: u32,
    pub width: u32,
    pub height: u32,
}

/// One resource that the device has handed out.
#[derive(Clone, Copy, Debug, PartialEq, Eq, Structural)]
pub struct Resource {
    pub kind: ResourceKind,
    pub handle: u64,
}

/// Texture containers
/// The scratch buffer is used to store the rgb frame to be yuv'd
#[derive(Clone, Copy, Debug, PartialEq, Eq, Structural)]
pub enum Channels {
    YUVA420p { scratch: u64, y: u64, u: u64, v: u64, a: u64 },
}

/// The kind of the resource that is acquired at place `index`.
pub open spec fn planned_kind(index: int) -> ResourceKind {
    if index == 0 {
        ResourceKind::Device
    } else if index == 1 {
        ResourceKind::Shader
    } else if index == 2 {
        ResourceKind::Pipeline
    } else if index == 3 {
        ResourceKind::Sampler
    } else if index == 4 {
        ResourceKind::Scratch
    } else if index == 5 {
        ResourceKind::Luma
    } else if index == 6 {
        ResourceKind::ChromaU
    } else if index == 7 {
        ResourceKind::ChromaV
    } else if index == 8 {
        ResourceKind::Alpha
    } else {
        ResourceKind::UniformSet
    }
}

/// The place at which the resource of a kind is acquired.
pub open spec fn planned_index(kind: ResourceKind) -> int {
    match kind {
        ResourceKind::Device => 0,
        ResourceKind::Shader => 1,
        ResourceKind::Pipeline => 2,
        ResourceKind::Sampler => 3,
        ResourceKind::Scratch => 4,
        ResourceKind::Luma => 5,
        ResourceKind::ChromaU => 6,
        ResourceKind::ChromaV => 7,
        ResourceKind::Alpha => 8,
        ResourceKind::UniformSet => 9,
    }
}

/// The request that is made at place `index` for an image of the given
/// size: the scratch, luma and alpha textures have the image's size, the
/// chroma textures half of it, rounded up, along each axis.
pub open spec fn planned_request(index: int, width: u32, height: u32) -> ResourceRequest {
    let kind = planned_kind(index);
    let chroma_width = plane_extent(width as int, CHROMA_DIVISOR as int) as u32;
    let chroma_height = plane_extent(height as int, CHROMA_DIVISOR as int) as u32;
    match kind {
        ResourceKind::Sampler => ResourceRequest { kind, binding: 5, width: 0, height: 0 },
        ResourceKind::Scratch => ResourceRequest { kind, binding: 0, width, height },
        ResourceKind::Luma => ResourceRequest { kind, binding: 1, width, height },
        ResourceKind::ChromaU => ResourceRequest {
            kind,
            binding: 2,
            width: chroma_width,
            height: chroma_height,
        },
        ResourceKind::ChromaV => ResourceRequest {
            kind,
            binding: 3,
            width: chroma_width,
            height: chroma_height,
        },
        ResourceKind::Alpha => ResourceRequest { kind, binding: 4, width, height },
        _ => ResourceRequest { kind, binding: 0, width: 0, height: 0 },
    }
}

/// The kind of the resource at place `index` of the plan.
fn kind_at(index: usize) -> (kind: ResourceKind)
    ensures
        kind == planned_kind(index as int),
{
    if index == 0 {
        ResourceKind::Device
    } else if index == 1 {
        ResourceKind::Shader
    } else if index == 2 {
        ResourceKind::Pipeline
    } else if index == 3 {
        ResourceKind::Sampler
    } else if index == 4 {
        ResourceKind::Scratch
    } else if index == 5 {
        ResourceKind::Luma
    } else if index == 6 {
        ResourceKind::ChromaU
    } else if index == 7 {
        ResourceKind::ChromaV
    } else if index == 8 {
        ResourceKind::Alpha
    } else {
        ResourceKind::UniformSet
    }
}

/// The planes of one converted image as the device hands them back, each
/// tightly packed.
#[derive(Debug)]
pub struct PlaneData {
    pub y: Vec<u8>,
    pub u: Vec<u8>,
    pub v: Vec<u8>,
    pub a: Vec<u8>,
}

/// The conversion stage: the size it was made for and the handles of the
/// device resources it has acquired so far, oldest first.
#[derive(Debug)]
pub struct ConversionContext {
    width: u32,
    height: u32,
    handles: Vec<u64>,
}

impl ConversionContext {
    /// No more handles are held than the plan has places, and none is null.
    #[verifier::type_invariant]
    spec fn inv(&self) -> bool {
        &&& self.handles@.len() <= RESOURCE_COUNT
        &&& forall|i: int| 0 <= i < self.handles@.len() ==> self.handles@[i] != 0
    }

    /// The handles acquired so far, in the order of acquisition.
    pub closed spec fn handles(&self) -> Seq<u64> {
        self.handles@
    }

    /// The width of the images that the stage converts.
    pub closed spec fn spec_width(&self) -> u32 {
        self.width
    }

    /// The height of the images that the stage converts.
    pub closed spec fn spec_height(&self) -> u32 {
        self.height
    }

    /// The width of the images that the stage converts.
    #[verifier::when_used_as_spec(spec_width)]
    pub fn width(&self) -> (w: u32)
        ensures
            w == self.spec_width(),
    {
        self.width
    }

    /// The height of the images that the stage converts.
    #[verifier::when_used_as_spec(spec_height)]
    pub fn height(&self) -> (h: u32)
        ensures
            h == self.spec_height(),
    {
        self.height
    }

    /// Every resource of the plan is in place.
    pub open spec fn spec_is_ready(&self) -> bool {
        self.handles().len() == RESOURCE_COUNT
    }

    /// Starts a conversion stage for images of the given size. Nothing is
    /// acquired yet, so a refusal leaves nothing behind.
    ///
    /// Fails with `UnsupportedFormat` exactly when the target format has no
    /// plane layout.
    pub fn new(from: Format, to: Pixel, width: u32, height: u32) -> (r: Result<Self, Error>)
        ensures
            to.spec_has_plane_layout() ==> (r matches Ok(ctx) && ctx.width() == width && ctx.height()
                == height && ctx.handles().len() == 0),
            !to.spec_has_plane_layout() ==> (r matches Err(e) && e == Error::Conversion(
                ConversionFailure::UnsupportedFormat { from, to },
            )),
    {
        if !to.has_plane_layout() {
            return Err(Error::Conversion(ConversionFailure::UnsupportedFormat { from, to }));
        }
        Ok(ConversionContext { width, height, handles: Vec::new() })
    }

    /// Whether every resource is in place.
    pub fn is_ready(&self) -> (r: bool)
        ensures
            r == self.spec_is_ready(),
    {
        self.handles.len() == RESOURCE_COUNT
    }

    /// The resource to acquire next, or nothing once all are in place.
    pub fn next_request(&self) -> (request: Option<ResourceRequest>)
        ensures
            request == (if self.spec_is_ready() {
                None
            } else {
                Some(planned_request(self.handles().len() as int, self.width(), self.height()))
            }),
    {
        proof {
            use_type_invariant(self);
        }
        let index = self.handles.len();
        if index == RESOURCE_COUNT {
            return None;
        }
        let kind = kind_at(index);
        let width = self.width;
        let height = self.height;
        let request = match kind {
            ResourceKind::Sampler => ResourceRequest { kind, binding: 5, width: 0, height: 0 },
            ResourceKind::Scratch => ResourceRequest { kind, binding: 0, width, height },
            ResourceKind::Luma => ResourceRequest { kind, binding: 1, width, height },
            ResourceKind::ChromaU => ResourceRequest {
                kind,
                binding: 2,
                width: div_ceil(width, CHROMA_DIVISOR),
                height: div_ceil(height, CHROMA_DIVISOR),
            },
            ResourceKind::ChromaV => ResourceRequest {
                kind,
                binding: 3,
                width: div_ceil(width, CHROMA_DIVISOR),
                height: div_ceil(height, CHROMA_DIVISOR),
            },
            ResourceKind::Alpha => ResourceRequest { kind, binding: 4, width, height },
            _ => ResourceRequest { kind, binding: 0, width: 0, height: 0 },
        };
        Some(request)
    }

    /// What [`ConversionContext::acquired`] answers to a handle.
    pub open spec fn acquisition_failure(&self, handle: u64) -> Option<Error> {
        if self.spec_is_ready() {
            Some(Error::State(StateFailure::NothingRequested))
        } else if handle != 0 {
            None
        } else if self.handles().len() == 0 {
            Some(Error::Conversion(ConversionFailure::DeviceUnavailable))
        } else {
            Some(
                Error::Conversion(
                    ConversionFailure::ResourceCreation(planned_kind(self.handles().len() as int)),
                ),
            )
        }
    }

    /// Records the handle that the device gave for the pending request.
    ///
    /// The null handle stands for a failed creation: it is refused, as
    /// `DeviceUnavailable` for the device itself and as `ResourceCreation`
    /// for anything else. A handle that no request asked for is refused as
    /// `NothingRequested`. A refusal changes nothing.
    pub fn acquired(&mut self, handle: u64) -> (r: Result<(), Error>)
        ensures
            final(self).width() == old(self).width(),
            final(self).height() == old(self).height(),
            match old(self).acquisition_failure(handle) {
                Some(failure) => {
                    &&& r == Err::<(), Error>(failure)
                    &&& final(self).handles() == old(self).handles()
                },
                None => {
                    &&& r == Ok::<(), Error>(())
                    &&& final(self).handles() == old(self).handles().push(handle)
                },
            },
    {
        proof {
            use_type_invariant(&*self);
        }
        let index = self.handles.len();
        if index == RESOURCE_COUNT {
            return Err(Error::State(StateFailure::NothingRequested));
        }
        if handle == 0 {
            if index == 0 {
                return Err(Error::Conversion(ConversionFailure::DeviceUnavailable));
            }
            return Err(Error::Conversion(ConversionFailure::ResourceCreation(kind_at(index))));
        }
        let mut handles: Vec<u64> = Vec::new();
        let mut i: usize = 0;
        while i < index
            invariant
                i <= index,
                index == self.handles@.len(),
                handles@ == self.handles@.subrange(0, i as int),
            decreases index - i,
        {
            handles.push(self.handles[i]);
            i += 1;
        }
        handles.push(handle);
        proof {
            use_type_invariant(&*self);
            assert(handles@ == self.handles@.push(handle));
        }
        self.handles = handles;
        Ok(())
    }

    /// The handle of the resource of a kind, once it is acquired.
    pub fn handle(&self, kind: ResourceKind) -> (handle: Option<u64>)
        ensures
            planned_kind(planned_index(kind)) == kind,
            handle == (if planned_index(kind) < self.handles().len() {
                Some(self.handles()[planned_index(kind)])
            } else {
                None
            }),
    {
        let index: usize = match kind {
            ResourceKind::Device => 0,
            ResourceKind::Shader => 1,
            ResourceKind::Pipeline => 2,
            ResourceKind::Sampler => 3,
            ResourceKind::Scratch => 4,
            ResourceKind::Luma => 5,
            ResourceKind::ChromaU => 6,
            ResourceKind::ChromaV => 7,
            ResourceKind::Alpha => 8,
            ResourceKind::UniformSet => 9,
        };
        if index < self.handles.len() {
            Some(self.handles[index])
        } else {
            None
        }
    }

    /// The textures of a complete context.
    pub fn channels(&self) -> (channels: Option<Channels>)
        ensures
            channels == (if self.spec_is_ready() {
                Some(
                    Channels::YUVA420p {
                        scratch: self.handles()[4],
                        y: self.handles()[5],
                        u: self.handles()[6],
                        v: self.handles()[7],
                        a: self.handles()[8],
                    },
                )
            } else {
                None
            }),
    {
        proof {
            use_type_invariant(self);
        }
        if self.handles.len() != RESOURCE_COUNT {
            return None;
        }
        Some(
            Channels::YUVA420p {
                scratch: self.handles[4],
                y: self.handles[5],
                u: self.handles[6],
                v: self.handles[7],
                a: self.handles[8],
            },
        )
    }

    /// The number of work groups of the conversion dispatch along each
    /// axis: enough groups of 16 by 16 texels to cover the image.
    pub fn work_groups(&self) -> (groups: (u32, u32, u32))
        ensures
            groups.0 == plane_extent(self.width() as int, WORK_GROUP_SIZE as int),
            groups.1 == plane_extent(self.height() as int, WORK_GROUP_SIZE as int),
            groups.2 == 1,
    {
        (div_ceil(self.width, WORK_GROUP_SIZE), div_ceil(self.height, WORK_GROUP_SIZE), 1)
    }

    /// What [`ConversionContext::release`] returns for the given handles:
    /// each with its kind, the one acquired last coming first.
    pub open spec fn release_order(handles: Seq<u64>) -> Seq<Resource> {
        Seq::new(
            handles.len(),
            |i: int|
                Resource {
                    kind: planned_kind(handles.len() - 1 - i),
                    handle: handles[handles.len() - 1 - i],
                },
        )
    }

    /// Ends the stage and hands back every resource it holds, each exactly
    /// once, in the reverse order of acquisition. The caller frees them in
    /// the order given.
    pub fn release(self) -> (resources: Vec<Resource>)
        ensures
            resources@ == Self::release_order(self.handles()),
    {
        let mut resources: Vec<Resource> = Vec::new();
        let n = self.handles.len();
        let mut i: usize = 0;
        while i < n
            invariant
                i <= n,
                n == self.handles@.len(),
                resources@.len() == i,
                forall|j: int|
                    0 <= j < i ==> resources@[j] == (Resource {
                        kind: planned_kind(n - 1 - j),
                        handle: self.handles@[n - 1 - j],
                    }),
            decreases n - i,
        {
            let at = n - 1 - i;
            resources.push(Resource { kind: kind_at(at), handle: self.handles[at] });
            i += 1;
        }
        assert(resources@ =~= Self::release_order(self.handles()));
        resources
    }

    /// Copies the plane that the device read back into a frame's buffer.
    /// The plane has the image's extent divided by `divisor`, rounded up,
    /// along each axis.
    pub fn copy_plane_data(&self, tex: &[u8], buf: &mut [u8], line_size: usize, divisor: u32)
        requires
            divisor > 0,
        ensures
            final(buf)@ == rows_copied(
                old(buf)@,
                tex@,
                plane_extent(self.width() as int, divisor as int),
                line_size as int,
                plane_extent(self.height() as int, divisor as int) as nat,
            ),
    {
        let plane_height = div_ceil(self.height, divisor) as usize;
        let plane_width = div_ceil(self.width, divisor) as usize;
        copy_rows(tex, buf, plane_width, plane_height, line_size);
    }

    /// Moves the planes of one converted image into a frame, and the alpha
    /// plane into a second frame where one is given.
    ///
    /// The luma plane goes to `frame.y`, the chroma planes to `frame.u` and
    /// `frame.v`. The alpha plane goes to the luma plane of `alpha_frame`,
    /// whose chroma planes are filled with the neutral value. Only the
    /// planes' bytes change. A context that is not complete refuses with
    /// `NotReady` and changes nothing.
    pub fn convert(&self, data: &PlaneData, frame: &mut VideoFrame, alpha_frame: Option<&mut VideoFrame>) -> (r:
        Result<(), Error>)
        ensures
            r == (if self.spec_is_ready() {
                Ok::<(), Error>(())
            } else {
                Err::<(), Error>(Error::State(StateFailure::NotReady))
            }),
            !self.spec_is_ready() ==> *final(frame) == *old(frame),
            self.spec_is_ready() ==> self.converted(data, *old(frame), *final(frame)),
            match alpha_frame {
                Some(alpha) => if self.spec_is_ready() {
                    self.alpha_converted(data, *alpha, *final(alpha))
                } else {
                    *final(alpha) == *alpha
                },
                None => true,
            },
    {
        if !self.is_ready() {
            return Err(Error::State(StateFailure::NotReady));
        }
        self.copy_plane_data(data.y.as_slice(), frame.y.data.as_mut_slice(), frame.y.stride, 1);
        self.copy_plane_data(
            data.u.as_slice(),
            frame.u.data.as_mut_slice(),
            frame.u.stride,
            CHROMA_DIVISOR,
        );
        self.copy_plane_data(
            data.v.as_slice(),
            frame.v.data.as_mut_slice(),
            frame.v.stride,
            CHROMA_DIVISOR,
        );
        match alpha_frame {
            Some(alpha) => {
                self.copy_plane_data(
                    data.a.as_slice(),
                    alpha.y.data.as_mut_slice(),
                    alpha.y.stride,
                    1,
                );
                fill(alpha.u.data.as_mut_slice(), NEUTRAL_CHROMA);
                fill(alpha.v.data.as_mut_slice(), NEUTRAL_CHROMA);
            },
            None => {},
        }
        Ok(())
    }

    /// A plane after the conversion: the bytes as [`rows_copied`] gives
    /// them for a source plane of the image's extent divided by `divisor`,
    /// everything else as before.
    pub open spec fn plane_converted(&self, tex: Seq<u8>, divisor: int, before: Plane, after: Plane) -> bool {
        &&& after.width == before.width
        &&& after.height == before.height
        &&& after.stride == before.stride
        &&& after.data@ == rows_copied(
            before.data@,
            tex,
            plane_extent(self.width() as int, divisor),
            before.stride as int,
            plane_extent(self.height() as int, divisor) as nat,
        )
    }

    /// The frame after the conversion.
    pub open spec fn converted(&self, data: &PlaneData, before: VideoFrame, after: VideoFrame) -> bool {
        &&& after.width == before.width
        &&& after.height == before.height
        &&& after.pts == before.pts
        &&& self.plane_converted(data.y@, 1, before.y, after.y)
        &&& self.plane_converted(data.u@, CHROMA_DIVISOR as int, before.u, after.u)
        &&& self.plane_converted(data.v@, CHROMA_DIVISOR as int, before.v, after.v)
    }

    /// A chroma plane of the alpha frame after the conversion: every byte
    /// of its buffer is the neutral value.
    pub open spec fn neutral(before: Plane, after: Plane) -> bool {
        &&& after.width == before.width
        &&& after.height == before.height
        &&& after.stride == before.stride
        &&& after.data@ == Seq::new(before.data@.len(), |i: int| NEUTRAL_CHROMA)
    }

    /// The alpha frame after the conversion.
    pub open spec fn alpha_converted(&self, data: &PlaneData, before: VideoFrame, after: VideoFrame) -> bool {
        &&& after.width == before.width
        &&& after.height == before.height
        &&& after.pts == before.pts
        &&& self.plane_converted(data.a@, 1, before.y, after.y)
        &&& Self::neutral(before.u, after.u)
        &&& Self::neutral(before.v, after.v)
    }
}

/// A plane holds, sample for sample, what the device read back, and its
/// padding is as it was.
pub open spec fn plane_holds(tex: Seq<u8>, before: Plane, after: Plane) -> bool {
    &&& after.wf()
    &&& after.width == before.width
    &&& after.height == before.height
    &&& after.stride == before.stride
    &&& forall|r: int, c: int|
        0 <= r < after.height && 0 <= c < after.width ==> #[trigger] after.sample(r, c) == tex[cell(
            r,
            c,
            after.width as int,
        )]
    &&& forall|r: int, c: int|
        0 <= r < after.height && after.width <= c < after.stride ==> #[trigger] after.sample(r, c)
            == before.sample(r, c)
}

/// A well-formed plane of the extent that the stage produces for `divisor`
/// receives exactly the plane that was read back: every sample of it, each
/// at its row and column, and nothing else changes.
pub proof fn lemma_plane_converted(
    ctx: ConversionContext,
    tex: Seq<u8>,
    divisor: int,
    before: Plane,
    after: Plane,
)
    requires
        divisor > 0,
        before.wf(),
        before.width == plane_extent(ctx.width() as int, divisor),
        before.height == plane_extent(ctx.height() as int, divisor),
        tex.len() == before.width * before.height,
        ctx.plane_converted(tex, divisor, before, after),
    ensures
        plane_holds(tex, before, after),
{
    let width = before.width as int;
    let height = before.height as int;
    let stride = before.stride as int;
    assert(height * width == width * height) by (nonlinear_arith);
    if height > 0 {
        assert(stride * height == (height - 1) * stride + stride) by (nonlinear_arith);
    }
    lemma_rows_copied_regular(before.data@, tex, width, stride, height as nat);
    assert forall|r: int, c: int| 0 <= r < height && 0 <= c < stride implies cell(r, c, stride)
        < before.data@.len() by {
        assert((r + 1) * stride <= height * stride) by (nonlinear_arith)
            requires
                r + 1 <= height,
                stride >= 0,
        ;
        assert((r + 1) * stride == r * stride + stride) by (nonlinear_arith);
        assert(height * stride == stride * height) by (nonlinear_arith);
    }
    assert forall|r: int, c: int| 0 <= r < after.height && 0 <= c < after.width implies #[trigger] after.sample(
        r,
        c,
    ) == tex[cell(r, c, after.width as int)] by {
        assert(after.data@[cell(r, c, stride)] == tex[cell(r, c, width)]);
    }
    assert forall|r: int, c: int|
        0 <= r < after.height && after.width <= c < after.stride implies #[trigger] after.sample(
        r,
        c,
    ) == before.sample(r, c) by {
        assert(cell(r, c, stride) < before.data@.len());
        assert(after.data@[cell(r, c, stride)] == before.data@[cell(r, c, stride)]);
    }
}

/// For every image size, a conversion into a well-formed frame of that size
/// yields a luma plane of exactly width by height samples and two chroma
/// planes of half that extent, rounded up, along each axis, each holding
/// what the device read back.
pub proof fn lemma_converted_planes(
    ctx: ConversionContext,
    data: &PlaneData,
    before: VideoFrame,
    after: VideoFrame,
)
    requires
        before.wf(),
        before.width == ctx.width(),
        before.height == ctx.height(),
        data.y@.len() == before.y.width * before.y.height,
        data.u@.len() == before.u.width * before.u.height,
        data.v@.len() == before.v.width * before.v.height,
        ctx.converted(data, before, after),
    ensures
        after.wf(),
        after.y.width == ctx.width(),
        after.y.height == ctx.height(),
        after.u.width == plane_extent(ctx.width() as int, 2),
        after.u.height == plane_extent(ctx.height() as int, 2),
        after.v.width == plane_extent(ctx.width() as int, 2),
        after.v.height == plane_extent(ctx.height() as int, 2),
        plane_holds(data.y@, before.y, after.y),
        plane_holds(data.u@, before.u, after.u),
        plane_holds(data.v@, before.v, after.v),
{
    assert(plane_extent(ctx.width() as int, 1) == ctx.width());
    assert(plane_extent(ctx.height() as int, 1) == ctx.height());
    lemma_plane_converted(ctx, data.y@, 1, before.y, after.y);
    lemma_plane_converted(ctx, data.u@, CHROMA_DIVISOR as int, before.u, after.u);
    lemma_plane_converted(ctx, data.v@, CHROMA_DIVISOR as int, before.v, after.v);
}

/// Where alpha is asked for, the alpha frame's luma plane holds the alpha
/// plane, width by height samples, and its chroma planes hold the neutral
/// value throughout.
pub proof fn lemma_converted_alpha(
    ctx: ConversionContext,
    data: &PlaneData,
    before: VideoFrame,
    after: VideoFrame,
)
    requires
        before.wf(),
        before.width == ctx.width(),
        before.height == ctx.height(),
        data.a@.len() == before.y.width * before.y.height,
        ctx.alpha_converted(data, before, after),
    ensures
        after.wf(),
        after.y.width == ctx.width(),
        after.y.height == ctx.height(),
        plane_holds(data.a@, before.y, after.y),
        forall|i: int| 0 <= i < after.u.data@.len() ==> after.u.data@[i] == NEUTRAL_CHROMA,
        forall|i: int| 0 <= i < after.v.data@.len() ==> after.v.data@[i] == NEUTRAL_CHROMA,
{
    assert(plane_extent(ctx.width() as int, 1) == ctx.width());
    assert(plane_extent(ctx.height() as int, 1) == ctx.height());
    lemma_plane_converted(ctx, data.a@, 1, before.y, after.y);
}

/// At a positive frame rate and with a time base that does not run
/// backwards, a later frame never has the earlier timestamp.
pub proof fn lemma_frame_to_pts_monotonic(earlier: i64, later: i64, fps: i64, ticks_per_second: i64)
    requires
        earlier <= later,
        fps > 0,
        ticks_per_second >= 0,
    ensures
        spec_frame_to_pts(earlier, fps, ticks_per_second) <= spec_frame_to_pts(
            later,
            fps,
            ticks_per_second,
        ),
{
    assert(earlier * ticks_per_second <= later * ticks_per_second) by (nonlinear_arith)
        requires
            earlier <= later,
            ticks_per_second >= 0,
    ;
    crate::timing::lemma_round_div_monotonic(
        earlier * ticks_per_second,
        later * ticks_per_second,
        fps as int,
    );
}

/// Where the time base has a whole number of ticks per frame, frame `k`
/// has exactly `k` times that number as its timestamp.
pub proof fn lemma_frame_to_pts_exact(frame_idx: i64, fps: i64, ticks_per_frame: i64)
    requires
        fps > 0,
        i64::MIN <= fps * ticks_per_frame <= i64::MAX,
        i64::MIN <= frame_idx * ticks_per_frame <= i64::MAX,
    ensures
        spec_frame_to_pts(frame_idx, fps, (fps * ticks_per_frame) as i64) == frame_idx
            * ticks_per_frame,
{
    assert(frame_idx * (fps * ticks_per_frame) == (frame_idx * ticks_per_frame) * fps)
        by (nonlinear_arith);
    crate::timing::lemma_round_div_exact(frame_idx * ticks_per_frame, fps as int);
}

} // verus!
