//! The compute-device boundary: thread/block tiling, device-visible byte
//! buffers with upload and download, and the flat RGBA byte form of an
//! image that crosses that boundary.
//!
//! The CPU reference device here keeps buffers in host memory; a GPU
//! backend substitutes its own memory and scheduler behind the same
//! operations. Tiling follows the reference policy exactly: per axis the
//! thread count is the axis extent capped at the device maximum, unless
//! the two capped counts multiply past 1024, in which case each axis
//! falls back to a 32nd of its extent; the block count then covers the
//! axis by ceiling division. Any tiling that covers every pixel exactly
//! once is acceptable to the kernels; this one is reproduced for parity.

use vstd::prelude::*;

use crate::color::SKIDColor;
use crate::image::SKIDImage;

verus! {

/// Success at the boundary.
pub const STATUS_OK: i32 = 0;

/// A required pointer or buffer was absent.
pub const STATUS_NULL_POINTER: i32 = -1;

/// A handle was zero, unknown, or already freed.
pub const STATUS_INVALID_HANDLE: i32 = -2;

/// A caller-supplied output buffer was smaller than the data.
pub const STATUS_BUFFER_TOO_SMALL: i32 = -3;

/// A logical execution target: the CPU reference backend, or a GPU-class
/// backend identified by a device id.
#[derive(Debug, Clone, Copy, PartialEq, Eq, Structural)]
pub enum DeviceKind {
    Cpu,
    Gpu(u32),
}

/// A 2-D thread/block tiling covering an image's pixel grid.
#[derive(Debug, Clone, Copy, PartialEq, Eq, Structural)]
pub struct LaunchGeometry {
    pub threads_x: u64,
    pub threads_y: u64,
    pub blocks_x: u64,
    pub blocks_y: u64,
}

/// The per-axis thread count before the product cap: the extent capped at
/// the device maximum.
pub open spec fn capped_threads(dim: int, dev_max: int) -> int {
    if dim < dev_max {
        dim
    } else {
        dev_max
    }
}

/// Whether the reference policy falls back to the per-32 tiling.
pub open spec fn tile_fallback(w: int, h: int, mx: int, my: int) -> bool {
    capped_threads(w, mx) * capped_threads(h, my) > 1024
}

/// The thread count of one axis under the reference policy, never zero.
pub open spec fn axis_threads(dim: int, dev_max: int, fallback: bool) -> int {
    if fallback {
        if dim / 32 >= 1 {
            dim / 32
        } else {
            1
        }
    } else {
        capped_threads(dim, dev_max)
    }
}

/// The block count that covers one axis: ceiling division.
pub open spec fn axis_blocks(dim: int, threads: int) -> int {
    (dim + threads - 1) / threads
}

/// Ceiling division covers the axis.
proof fn lemma_blocks_cover(dim: int, threads: int)
    requires
        1 <= threads,
        0 <= dim,
    ensures
        axis_blocks(dim, threads) * threads >= dim,
{
    assert((dim + threads - 1) / threads * threads >= dim) by (nonlinear_arith)
        requires
            1 <= threads,
            0 <= dim,
    ;
}

/// Computes the reference thread/block tiling for a `width` by `height`
/// grid on a device with the given per-axis thread maxima. The tiling
/// always covers every pixel.
pub fn compute_launch_geometry(width: u64, height: u64, max_x: u64, max_y: u64) -> (geo:
    LaunchGeometry)
    requires
        1 <= width <= 0x7FFF_FFFF,
        1 <= height <= 0x7FFF_FFFF,
        1 <= max_x,
        1 <= max_y,
    ensures
        ({
            let fb = tile_fallback(width as int, height as int, max_x as int, max_y as int);
            geo.threads_x == axis_threads(width as int, max_x as int, fb) && geo.threads_y
                == axis_threads(height as int, max_y as int, fb)
        }),
        geo.blocks_x == axis_blocks(width as int, geo.threads_x as int),
        geo.blocks_y == axis_blocks(height as int, geo.threads_y as int),
        1 <= geo.threads_x,
        1 <= geo.threads_y,
        geo.blocks_x * geo.threads_x >= width,
        geo.blocks_y * geo.threads_y >= height,
{
    let tx0: u64 = if width < max_x {
        width
    } else {
        max_x
    };
    let ty0: u64 = if height < max_y {
        height
    } else {
        max_y
    };
    proof {
        assert(tx0 * ty0 <= 0x3FFF_FFFF_0000_0001) by (nonlinear_arith)
            requires
                tx0 <= 0x7FFF_FFFF,
                ty0 <= 0x7FFF_FFFF,
        ;
    }
    let fallback: bool = tx0 * ty0 > 1024;
    let tx: u64 = if fallback {
        if width / 32 >= 1 {
            width / 32
        } else {
            1
        }
    } else {
        tx0
    };
    let ty: u64 = if fallback {
        if height / 32 >= 1 {
            height / 32
        } else {
            1
        }
    } else {
        ty0
    };
    let bx: u64 = (width + tx - 1) / tx;
    let by: u64 = (height + ty - 1) / ty;
    proof {
        lemma_blocks_cover(width as int, tx as int);
        lemma_blocks_cover(height as int, ty as int);
    }
    LaunchGeometry { threads_x: tx, threads_y: ty, blocks_x: bx, blocks_y: by }
}

/// The CPU reference device: buffers are plain host byte vectors, indexed
/// by the order of their allocation.
pub struct CpuDevice {
    buffers: Vec<Vec<u8>>,
}

impl CpuDevice {
    /// The contents of every allocated buffer.
    pub closed spec fn bufs(self) -> Seq<Seq<u8>> {
        self.buffers@.map_values(|b: Vec<u8>| b@)
    }

    /// A device with no buffers.
    pub fn new() -> (dev: CpuDevice)
        ensures
            dev.bufs().len() == 0,
    {
        CpuDevice { buffers: Vec::new() }
    }

    /// Allocates a zero-filled buffer of `size` bytes and hands back its
    /// id; existing buffers are untouched.
    pub fn alloc_buffer(&mut self, size: usize) -> (id: usize)
        ensures
            id == old(self).bufs().len(),
            final(self).bufs().len() == old(self).bufs().len() + 1,
            final(self).bufs()[id as int].len() == size,
            forall|i: int| 0 <= i < size ==> final(self).bufs()[id as int][i] == 0u8,
            forall|b: int|
                0 <= b < old(self).bufs().len() ==> final(self).bufs()[b] == old(self).bufs()[b],
    {
        let id = self.buffers.len();
        let mut buf: Vec<u8> = Vec::new();
        let mut i: usize = 0;
        while i < size
            invariant
                i <= size,
                buf@.len() == i,
                forall|k: int| 0 <= k < i ==> buf@[k] == 0u8,
            decreases size - i,
        {
            buf.push(0);
            i = i + 1;
        }
        self.buffers.push(buf);
        id
    }

    /// Uploads host bytes into the buffer behind `id`, replacing its
    /// contents; reports whether the id names a buffer.
    pub fn upload(&mut self, id: usize, data: &Vec<u8>) -> (ok: bool)
        ensures
            ok == (id < old(self).bufs().len()),
            ok ==> final(self).bufs() == old(self).bufs().update(id as int, data@),
            !ok ==> final(self).bufs() == old(self).bufs(),
    {
        if id < self.buffers.len() {
            let copy = data.clone();
            self.buffers.set(id, copy);
            proof {
                assert(self.bufs() =~= old(self).bufs().update(id as int, data@));
            }
            true
        } else {
            false
        }
    }

    /// Downloads the buffer behind `id` into the front of a caller-owned
    /// vector. When the caller's vector is too small nothing at all is
    /// written; an unknown id is reported likewise.
    pub fn download(&self, id: usize, out: &mut Vec<u8>) -> (status: i32)
        ensures
            id >= self.bufs().len() ==> status == STATUS_INVALID_HANDLE && final(out)@ == old(
                out,
            )@,
            id < self.bufs().len() && old(out)@.len() < self.bufs()[id as int].len() ==> status
                == STATUS_BUFFER_TOO_SMALL && final(out)@ == old(out)@,
            id < self.bufs().len() && old(out)@.len() >= self.bufs()[id as int].len() ==> status
                == STATUS_OK && final(out)@.len() == old(out)@.len() && (forall|i: int|
                0 <= i < self.bufs()[id as int].len() ==> final(out)@[i] == self.bufs()[id as int][i])
                && (forall|i: int|
                self.bufs()[id as int].len() <= i < old(out)@.len() ==> final(out)@[i] == old(
                    out,
                )@[i]),
    {
        if id >= self.buffers.len() {
            return STATUS_INVALID_HANDLE;
        }
        let n = self.buffers[id].len();
        if out.len() < n {
            return STATUS_BUFFER_TOO_SMALL;
        }
        let mut i: usize = 0;
        while i < n
            invariant
                i <= n,
                id < self.buffers@.len(),
                n == self.bufs()[id as int].len(),
                out@.len() == old(out)@.len(),
                n <= out@.len(),
                forall|k: int| 0 <= k < i ==> out@[k] == self.bufs()[id as int][k],
                forall|k: int| n <= k < out@.len() ==> out@[k] == old(out)@[k],
                forall|k: int| i <= k < out@.len() ==> out@[k] == old(out)@[k],
            decreases n - i,
        {
            let b = self.buffers[id][i];
            out.set(i, b);
            i = i + 1;
        }
        STATUS_OK
    }
}

/// The flat byte form of an image: four bytes per pixel, row-major, in
/// r, g, b, a order.
pub open spec fn image_bytes(img: SKIDImage) -> Seq<u8> {
    Seq::new(
        (4 * img.spec_width() * img.spec_height()) as nat,
        |i: int|
            {
                let c = img.pixels()[i / 4];
                if i % 4 == 0 {
                    c.r
                } else if i % 4 == 1 {
                    c.g
                } else if i % 4 == 2 {
                    c.b
                } else {
                    c.a
                }
            },
    )
}

/// Flattens an image into its byte form for upload across the boundary.
pub fn image_to_bytes(img: &SKIDImage) -> (bytes: Vec<u8>)
    requires
        img.wf(),
        4 * img.spec_width() * img.spec_height() <= usize::MAX,
    ensures
        bytes@ == image_bytes(*img),
{
    let n = img.len();
    proof {
        assert(4 * img.spec_width() * img.spec_height() == 4 * img.pixels().len())
            by (nonlinear_arith)
            requires
                img.pixels().len() == img.spec_width() * img.spec_height(),
        ;
    }
    let mut bytes: Vec<u8> = Vec::new();
    let mut i: usize = 0;
    while i < n
        invariant
            img.wf(),
            n == img.pixels().len(),
            4 * img.spec_width() * img.spec_height() == 4 * n,
            i <= n,
            bytes@.len() == 4 * i,
            forall|k: int| 0 <= k < 4 * i ==> bytes@[k] == image_bytes(*img)[k],
        decreases n - i,
    {
        let c = img.pixel_flat(i);
        let ghost pre = bytes@;
        bytes.push(c.r);
        bytes.push(c.g);
        bytes.push(c.b);
        bytes.push(c.a);
        proof {
            assert forall|k: int| 0 <= k < 4 * (i + 1) implies bytes@[k] == image_bytes(*img)[k] by {
                if k < 4 * i {
                    assert(bytes@[k] == pre[k]);
                } else {
                    assert(k / 4 == i && (k % 4 == 0 || k % 4 == 1 || k % 4 == 2 || k % 4 == 3));
                }
            }
        }
        i = i + 1;
    }
    bytes
}

/// Rebuilds an image from its flat byte form after download.
pub fn image_from_bytes(width: usize, height: usize, bytes: &Vec<u8>) -> (img: SKIDImage)
    requires
        bytes@.len() == 4 * width * height,
        width * height <= usize::MAX,
    ensures
        img.wf(),
        img.spec_width() == width,
        img.spec_height() == height,
        image_bytes(img) == bytes@,
{
    proof {
        assert(width * height <= bytes@.len()) by (nonlinear_arith)
            requires
                bytes@.len() == 4 * width * height,
                0 <= width,
                0 <= height,
        ;
    }
    let total: usize = bytes.len();
    let n: usize = width * height;
    proof {
        assert(bytes@.len() == 4 * (width * height)) by (nonlinear_arith)
            requires
                bytes@.len() == 4 * width * height,
        ;
    }
    let mut data: Vec<SKIDColor> = Vec::new();
    let mut i: usize = 0;
    while i < n
        invariant
            bytes@.len() == 4 * n,
            total == 4 * n,
            i <= n,
            data@.len() == i,
            forall|k: int|
                0 <= k < i ==> data@[k] == (SKIDColor {
                    r: bytes@[4 * k],
                    g: bytes@[4 * k + 1],
                    b: bytes@[4 * k + 2],
                    a: bytes@[4 * k + 3],
                }),
        decreases n - i,
    {
        let c = SKIDColor { r: bytes[4 * i], g: bytes[4 * i + 1], b: bytes[4 * i + 2], a: bytes[4 * i + 3] };
        data.push(c);
        i = i + 1;
    }
    let img = SKIDImage::from_data(width, height, data);
    proof {
        assert forall|k: int| 0 <= k < 4 * n implies image_bytes(img)[k] == bytes@[k] by {
            assert(img.pixels()[k / 4] == data@[k / 4]);
        }
        assert(image_bytes(img) =~= bytes@);
    }
    img
}

/// Copies an image's byte form into the front of a caller-owned buffer;
/// fails with a reported status — writing nothing — when the buffer is
/// smaller than the data.
pub fn copy_image_to_buffer(img: &SKIDImage, out: &mut Vec<u8>) -> (status: i32)
    requires
        img.wf(),
        4 * img.spec_width() * img.spec_height() <= usize::MAX,
    ensures
        old(out)@.len() < 4 * img.spec_width() * img.spec_height() ==> status
            == STATUS_BUFFER_TOO_SMALL && final(out)@ == old(out)@,
        old(out)@.len() >= 4 * img.spec_width() * img.spec_height() ==> status == STATUS_OK
            && final(out)@.len() == old(out)@.len() && (forall|i: int|
            0 <= i < 4 * img.spec_width() * img.spec_height() ==> final(out)@[i] == image_bytes(
                *img,
            )[i]) && (forall|i: int|
            4 * img.spec_width() * img.spec_height() <= i < old(out)@.len() ==> final(out)@[i]
                == old(out)@[i]),
{
    let n = img.len();
    proof {
        assert(4 * img.spec_width() * img.spec_height() == 4 * img.pixels().len())
            by (nonlinear_arith)
            requires
                img.pixels().len() == img.spec_width() * img.spec_height(),
        ;
    }
    if out.len() < 4 * n {
        return STATUS_BUFFER_TOO_SMALL;
    }
    let mut i: usize = 0;
    while i < n
        invariant
            img.wf(),
            n == img.pixels().len(),
            4 * img.spec_width() * img.spec_height() == 4 * n,
            4 * n <= usize::MAX,
            i <= n,
            out@.len() == old(out)@.len(),
            4 * n <= out@.len(),
            forall|k: int| 0 <= k < 4 * i ==> out@[k] == image_bytes(*img)[k],
            forall|k: int| 4 * i <= k < out@.len() ==> out@[k] == old(out)@[k],
        decreases n - i,
    {
        let c = img.pixel_flat(i);
        let ghost pre = out@;
        out.set(4 * i, c.r);
        out.set(4 * i + 1, c.g);
        out.set(4 * i + 2, c.b);
        out.set(4 * i + 3, c.a);
        proof {
            assert forall|k: int| 0 <= k < 4 * (i + 1) implies out@[k] == image_bytes(*img)[k] by {
                if k < 4 * i {
                    assert(out@[k] == pre[k]);
                } else {
                    assert(k / 4 == i && (k % 4 == 0 || k % 4 == 1 || k % 4 == 2 || k % 4 == 3));
                }
            }
        }
        i = i + 1;
    }
    STATUS_OK
}

} // verus!
