//! Framebuffer synchronization engine.
//!
//! Locating runs once: the type-info reader resolves the byte offsets of the
//! kernel framebuffer descriptor's fields, the live-memory reader resolves
//! the descriptor's address and reads the pixel buffer's base address, byte
//! size and pixel dimensions.  Steady state then mirrors application images
//! into the device: every [`Framebuffer::apply`] call converts the image
//! into the device's channel order, diffs it against a shadow copy of the
//! device memory, and flushes only the dirty chunks, in an order randomized
//! by an unbiased Fisher-Yates shuffle so that simultaneous changes dissolve
//! instead of sweeping across the display.
//!
//! The device's native pixel layout is a fixed contract of the supported
//! device class: four bytes per pixel, the first three holding the source
//! RGB triplet reversed, the fourth reserved and never touched.

use vstd::prelude::*;

use vstd::pervasive::VecAdditionalExecFns;
use vstd::slice::slice_subrange;

use crate::ctf::lookup_struct_spec;
use crate::ctf::offset_of_spec;
use crate::ctf::Ctf;
use crate::ctf::TypeRecord;
use crate::kvm::locate_spec;
use crate::kvm::read_u16_spec;
use crate::kvm::read_usize_spec;
use crate::kvm::Kvm;
use crate::kvm::Symbol;
use crate::Error;

verus! {

/// The resolved description of the hardware pixel buffer: its base address
/// in kernel memory, its size in bytes, and its pixel dimensions.  Resolved
/// exactly once; immutable afterwards.
#[derive(Clone, Copy, Debug, PartialEq, Eq, Structural)]
pub struct FbDesc {
    pub baseaddr: usize,
    pub size: usize,
    pub width: u16,
    pub height: u16,
}

/// The name of the kernel global holding the framebuffer descriptor.
pub const FB_SYMBOL: &'static str = "fb_info";

/// What the whole locating phase returns, as one function of the type table
/// and the kernel image: the struct lookups and member-offset resolutions,
/// the symbol lookup, then the four field reads.  Any failure is returned
/// unchanged; an address sum that leaves the machine's address space fails
/// like a failed read.
pub open spec fn locate_fb_spec(
    types: Seq<TypeRecord>,
    symbols: Seq<Symbol>,
    base: usize,
    mem: Seq<u8>,
) -> Result<FbDesc, Error> {
    match lookup_struct_spec(types, "struct fb_info"@) {
        Err(e) => Err(e),
        Ok(fb_info) => match offset_of_spec(types, fb_info, "fb"@) {
            Err(e) => Err(e),
            Ok(fb_off) => match offset_of_spec(types, fb_info, "fb_size"@) {
                Err(e) => Err(e),
                Ok(size_off) => match offset_of_spec(types, fb_info, "screen"@) {
                    Err(e) => Err(e),
                    Ok(screen_off) => match lookup_struct_spec(
                        types,
                        "struct fb_info_pixel_coord"@,
                    ) {
                        Err(e) => Err(e),
                        Ok(coord) => match offset_of_spec(types, coord, "x"@) {
                            Err(e) => Err(e),
                            Ok(x_off) => match offset_of_spec(types, coord, "y"@) {
                                Err(e) => Err(e),
                                Ok(y_off) => match locate_spec(symbols, "fb_info"@) {
                                    Err(e) => Err(e),
                                    Ok(addr) => locate_fb_reads_spec(
                                        base,
                                        mem,
                                        addr,
                                        fb_off,
                                        size_off,
                                        screen_off,
                                        x_off,
                                        y_off,
                                    ),
                                },
                            },
                        },
                    },
                },
            },
        },
    }
}

/// The field reads of the locating phase: the pixel buffer's base pointer
/// and byte size at machine-word width, then the width and height as 16-bit
/// fields of the screen sub-structure.
pub open spec fn locate_fb_reads_spec(
    base: usize,
    mem: Seq<u8>,
    addr: usize,
    fb_off: usize,
    size_off: usize,
    screen_off: usize,
    x_off: usize,
    y_off: usize,
) -> Result<FbDesc, Error> {
    if addr + fb_off > usize::MAX || addr + size_off > usize::MAX || addr + screen_off + x_off
        > usize::MAX || addr + screen_off + y_off > usize::MAX {
        Err(Error::IoError)
    } else {
        match read_usize_spec(base, mem, (addr + fb_off) as usize) {
            Err(e) => Err(e),
            Ok(baseaddr) => match read_usize_spec(base, mem, (addr + size_off) as usize) {
                Err(e) => Err(e),
                Ok(size) => match read_u16_spec(base, mem, (addr + screen_off + x_off) as usize) {
                    Err(e) => Err(e),
                    Ok(width) => match read_u16_spec(
                        base,
                        mem,
                        (addr + screen_off + y_off) as usize,
                    ) {
                        Err(e) => Err(e),
                        Ok(height) => Ok(FbDesc { baseaddr, size, width, height }),
                    },
                },
            },
        }
    }
}

/// Locates the hardware pixel buffer: resolves the layout of the kernel's
/// framebuffer-descriptor struct and its nested pixel-coordinate struct from
/// the type table, resolves the descriptor's global address from the symbol
/// table, and reads the buffer's base address, byte size and pixel
/// dimensions out of kernel memory.  Runs once at startup; every failure is
/// fatal to engine construction.
pub fn locate_framebuffer(ctf: &Ctf, kvm: &Kvm) -> (r: Result<FbDesc, Error>)
    ensures
        r == locate_fb_spec(ctf@, kvm.symbols@, kvm.base, kvm.mem@),
{
    let fb_info = match ctf.lookup_struct("struct fb_info") {
        Ok(v) => v,
        Err(e) => {
            return Err(e);
        },
    };
    let fb_off = match ctf.offset_of(fb_info, "fb") {
        Ok(v) => v,
        Err(e) => {
            return Err(e);
        },
    };
    let size_off = match ctf.offset_of(fb_info, "fb_size") {
        Ok(v) => v,
        Err(e) => {
            return Err(e);
        },
    };
    let screen_off = match ctf.offset_of(fb_info, "screen") {
        Ok(v) => v,
        Err(e) => {
            return Err(e);
        },
    };
    let coord = match ctf.lookup_struct("struct fb_info_pixel_coord") {
        Ok(v) => v,
        Err(e) => {
            return Err(e);
        },
    };
    let x_off = match ctf.offset_of(coord, "x") {
        Ok(v) => v,
        Err(e) => {
            return Err(e);
        },
    };
    let y_off = match ctf.offset_of(coord, "y") {
        Ok(v) => v,
        Err(e) => {
            return Err(e);
        },
    };
    let addr = match kvm.locate(FB_SYMBOL) {
        Ok(v) => v,
        Err(e) => {
            return Err(e);
        },
    };

    let max = usize::MAX as u128;
    if (addr as u128) + (fb_off as u128) > max || (addr as u128) + (size_off as u128) > max || (addr
        as u128) + (screen_off as u128) + (x_off as u128) > max || (addr as u128) + (screen_off
        as u128) + (y_off as u128) > max {
        return Err(Error::IoError);
    }

    let baseaddr = match kvm.read_usize(addr + fb_off) {
        Ok(v) => v,
        Err(e) => {
            return Err(e);
        },
    };
    let size = match kvm.read_usize(addr + size_off) {
        Ok(v) => v,
        Err(e) => {
            return Err(e);
        },
    };
    let width = match kvm.read_u16(addr + screen_off + x_off) {
        Ok(v) => v,
        Err(e) => {
            return Err(e);
        },
    };
    let height = match kvm.read_u16(addr + screen_off + y_off) {
        Ok(v) => v,
        Err(e) => {
            return Err(e);
        },
    };
    Ok(FbDesc { baseaddr, size, width, height })
}

/// A true-color image of fixed dimensions: three bytes per pixel in RGB
/// order, rows first.
pub struct Image {
    pub width: usize,
    pub height: usize,
    pub data: Vec<u8>,
}

impl Image {
    /// Well-formedness: the pixel data covers the dimensions exactly.
    pub open spec fn wf(&self) -> bool {
        self.data@.len() == 3 * self.width * self.height
    }

    /// Wraps raw RGB pixel data of the given dimensions; rejects data whose
    /// length does not cover the dimensions exactly.
    pub fn new(width: u16, height: u16, data: Vec<u8>) -> (r: Option<Image>)
        ensures
            r matches Some(img) ==> img.wf() && img.width == width && img.height == height
                && img.data@ == data@,
            r is None ==> data@.len() != 3 * width * height,
    {
        let wu: u64 = width as u64;
        let hu: u64 = height as u64;
        proof {
            assert(3 * wu * hu <= 3 * 0xFFFF * 0xFFFF) by (nonlinear_arith)
                requires
                    wu <= 0xFFFF,
                    hu <= 0xFFFF,
            ;
        }
        let need: u64 = 3u64 * wu * hu;
        if (data.len() as u64) != need {
            return None;
        }
        Some(Image { width: width as usize, height: height as usize, data })
    }
}

/// A source of randomness for the flush-order shuffle.  An implementation
/// should return a value uniformly distributed in `[0, bound)`; the engine
/// reduces whatever comes back modulo the bound, so the shuffle stays a
/// permutation for every implementation.
pub trait Entropy {
    /// One random draw below `bound`.
    fn draw(&mut self, bound: u32) -> u32;
}

/// The raw-memory window the engine flushes chunks through.  A write is
/// best-effort: the engine ignores the result, so a short or failed write
/// degrades one frame but never stops the renderer.
pub trait ChunkSink {
    /// Writes `data` at byte offset `offset` inside the pixel buffer and
    /// reports how many bytes were written, negative on failure.
    fn write(&mut self, offset: usize, data: &[u8]) -> isize;
}

/// A byte vector of length `n` holding zeroes.
fn zero_bytes(n: usize) -> (v: Vec<u8>)
    ensures
        v@ == Seq::new(n as nat, |i: int| 0u8),
{
    let mut v: Vec<u8> = Vec::new();
    let mut i: usize = 0;
    while i < n
        invariant
            i <= n,
            v@ =~= Seq::new(i as nat, |j: int| 0u8),
        decreases n - i,
    {
        v.push(0u8);
        proof {
            assert(v@ =~= Seq::new((i + 1) as nat, |j: int| 0u8));
        }
        i += 1;
    }
    proof {
        assert(v@ =~= Seq::new(n as nat, |j: int| 0u8));
    }
    v
}

/// A flag vector of length `n` holding `false`.
fn false_flags(n: usize) -> (v: Vec<bool>)
    ensures
        v@ == Seq::new(n as nat, |i: int| false),
{
    let mut v: Vec<bool> = Vec::new();
    let mut i: usize = 0;
    while i < n
        invariant
            i <= n,
            v@ =~= Seq::new(i as nat, |j: int| false),
        decreases n - i,
    {
        v.push(false);
        proof {
            assert(v@ =~= Seq::new((i + 1) as nat, |j: int| false));
        }
        i += 1;
    }
    proof {
        assert(v@ =~= Seq::new(n as nat, |j: int| false));
    }
    v
}

/// The abstract state of the engine: the resolved buffer description, the
/// chunk count, the shadow copy of device memory, and the forced-redraw
/// bookkeeping.
#[verifier::ext_equal]
pub struct FbModel {
    pub baseaddr: nat,
    pub size: nat,
    pub width: nat,
    pub height: nat,
    pub chunks: nat,
    pub shadow: Seq<u8>,
    pub clear: bool,
    pub last_clear: nat,
}

/// Well-formedness of the engine state: the shadow mirrors the device
/// byte-for-byte, there is at least one chunk, and every component fits its
/// machine representation.
pub open spec fn fb_model_wf(m: FbModel) -> bool {
    &&& m.shadow.len() == m.size
    &&& 1 <= m.chunks <= usize::MAX
    &&& m.width <= 0xFFFF
    &&& m.height <= 0xFFFF
    &&& m.size <= usize::MAX
    &&& m.baseaddr <= usize::MAX
    &&& m.last_clear <= u64::MAX
}

/// Pixels per chunk: the pixel buffer splits into `chunks` equal contiguous
/// partitions, integer division leaving any remainder pixels to the final
/// chunk.
pub open spec fn chunk_px(m: FbModel) -> nat {
    (m.width * m.height) / m.chunks
}

/// How many pixels a diff covers: every pixel of the image, held to what
/// the device buffer can carry at four bytes per pixel.
pub open spec fn num_px(m: FbModel) -> nat {
    let wh = m.width * m.height;
    if wh <= m.size / 4 {
        wh
    } else {
        m.size / 4
    }
}

/// The dirty-tracking chunk owning pixel `p`: equal partitions of
/// `chunk_px` pixels, with all remainder pixels extending the final chunk.
pub open spec fn chunk_of_pixel(m: FbModel, p: nat) -> nat {
    let chpx = chunk_px(m);
    if chpx == 0 {
        (m.chunks - 1) as nat
    } else if p / chpx < m.chunks - 1 {
        p / chpx
    } else {
        (m.chunks - 1) as nat
    }
}

/// First byte of chunk `c` inside the device buffer.
pub open spec fn chunk_lo(m: FbModel, c: nat) -> nat {
    let b = 4 * c * chunk_px(m);
    if b <= m.size {
        b
    } else {
        m.size
    }
}

/// One past the last byte of chunk `c`: the final chunk extends to the end
/// of the buffer.
pub open spec fn chunk_hi(m: FbModel, c: nat) -> nat {
    if c + 1 == m.chunks {
        m.size
    } else {
        chunk_lo(m, c + 1)
    }
}

/// The shadow after converting the first `npx` pixels of `img` into the
/// device's channel order: each pixel's byte triplet is reversed into the
/// first three of its four device bytes, the fourth byte of every pixel is
/// reserved and keeps its old value, and everything past `4 * npx` stays.
pub open spec fn shadow_after(shadow: Seq<u8>, img: Seq<u8>, npx: nat) -> Seq<u8> {
    Seq::new(
        shadow.len(),
        |i: int|
            if i < 4 * npx && i % 4 != 3 {
                img[3 * (i / 4) + 2 - (i % 4)]
            } else {
                shadow[i]
            },
    )
}

/// True when pixel `p` of `img` differs from the shadow in any channel.
pub open spec fn pixel_dirty(shadow: Seq<u8>, img: Seq<u8>, p: int) -> bool {
    shadow[4 * p] != img[3 * p + 2] || shadow[4 * p + 1] != img[3 * p + 1] || shadow[4 * p + 2]
        != img[3 * p]
}

/// True when some pixel among the first `npx` lies in chunk `c` and differs
/// from the shadow.
pub open spec fn chunk_dirty_upto(m: FbModel, img: Seq<u8>, npx: nat, c: nat) -> bool {
    exists|p: nat|
        p < npx && #[trigger] pixel_dirty(m.shadow, img, p as int) && chunk_of_pixel(m, p) == c
}

/// True when chunk `c` holds a pixel that differs from the shadow.
pub open spec fn chunk_dirty(m: FbModel, img: Seq<u8>, c: nat) -> bool {
    chunk_dirty_upto(m, img, num_px(m), c)
}

/// True when more than 15 whole seconds have elapsed since the last forced
/// full redraw.
pub open spec fn timer_fired(last: nat, now: nat) -> bool {
    now >= last && (now - last) / 1000 > 15
}

/// Helper: one more diffed pixel extends the dirty chunks by exactly that
/// pixel's verdict.
proof fn lemma_chunk_dirty_step(m: FbModel, img: Seq<u8>, p: nat, c: nat)
    ensures
        chunk_dirty_upto(m, img, p + 1, c) <==> (chunk_dirty_upto(m, img, p, c) || (pixel_dirty(
            m.shadow,
            img,
            p as int,
        ) && chunk_of_pixel(m, p) == c)),
{
    if chunk_dirty_upto(m, img, p + 1, c) {
        let q = choose|q: nat|
            q < p + 1 && #[trigger] pixel_dirty(m.shadow, img, q as int) && chunk_of_pixel(m, q)
                == c;
        if q < p {
            assert(chunk_dirty_upto(m, img, p, c));
        }
    }
    if chunk_dirty_upto(m, img, p, c) {
        let q = choose|q: nat|
            q < p && #[trigger] pixel_dirty(m.shadow, img, q as int) && chunk_of_pixel(m, q) == c;
        assert(q < p + 1 && pixel_dirty(m.shadow, img, q as int) && chunk_of_pixel(m, q) == c);
    }
}

/// Helper: a position below the chunk count times the pixels-per-chunk
/// quotient never passes the pixel count.
proof fn lemma_chunk_mul_bound(c: nat, chunks: nat, wh: nat)
    requires
        1 <= chunks,
        c <= chunks,
    ensures
        c * (wh / chunks) <= wh,
{
    let q = wh / chunks;
    assert(c * q <= chunks * q) by (nonlinear_arith)
        requires
            c <= chunks,
            0 <= q,
    ;
    assert(chunks * q <= wh) by {
        vstd::arithmetic::div_mod::lemma_fundamental_div_mod(wh as int, chunks as int);
    }
}

/// Law: dirty-chunk diffing is idempotent.  After one diff of an image into
/// the shadow, diffing the same image again finds no dirty chunk: every
/// covered pixel of the updated shadow already carries the image's bytes in
/// device order.
pub proof fn lemma_diff_idempotent(m: FbModel, img: Seq<u8>, c: nat)
    requires
        fb_model_wf(m),
        img.len() == 3 * m.width * m.height,
    ensures
        !chunk_dirty(FbModel { shadow: shadow_after(m.shadow, img, num_px(m)), ..m }, img, c),
{
    let m2 = FbModel { shadow: shadow_after(m.shadow, img, num_px(m)), ..m };
    let npx = num_px(m);
    assert(4 * npx <= m.shadow.len());
    assert forall|p: nat| p < npx implies !pixel_dirty(m2.shadow, img, p as int) by {
        let q = p as int;
        assert(m2.shadow[4 * q] == img[3 * q + 2]);
        assert(m2.shadow[4 * q + 1] == img[3 * q + 1]);
        assert(m2.shadow[4 * q + 2] == img[3 * q]);
    }
}

/// The framebuffer synchronization engine.
pub struct Framebuffer {
    desc: FbDesc,
    chunks: usize,
    shadow: Vec<u8>,
    clear: bool,
    last_clear: u64,
}

impl View for Framebuffer {
    type V = FbModel;

    closed spec fn view(&self) -> FbModel {
        FbModel {
            baseaddr: self.desc.baseaddr as nat,
            size: self.desc.size as nat,
            width: self.desc.width as nat,
            height: self.desc.height as nat,
            chunks: self.chunks as nat,
            shadow: self.shadow@,
            clear: self.clear,
            last_clear: self.last_clear as nat,
        }
    }
}

impl Framebuffer {
    /// Well-formedness of the engine.
    pub open spec fn wf(&self) -> bool {
        fb_model_wf(self@)
    }

    /// Brings the engine up against a resolved buffer description, with the
    /// pixel buffer partitioned into `chunks` dirty-tracking chunks.  The
    /// shadow starts zero-filled and a full redraw is pending, stamped at
    /// time `now_ms` (milliseconds on a monotonic clock).
    pub fn new(desc: FbDesc, chunks: usize, now_ms: u64) -> (fb: Framebuffer)
        requires
            1 <= chunks,
        ensures
            fb.wf(),
            fb@.baseaddr == desc.baseaddr,
            fb@.size == desc.size,
            fb@.width == desc.width,
            fb@.height == desc.height,
            fb@.chunks == chunks,
            fb@.shadow == Seq::new(desc.size as nat, |i: int| 0u8),
            fb@.clear == true,
            fb@.last_clear == now_ms,
    {
        let shadow = zero_bytes(desc.size);
        Framebuffer { desc, chunks, shadow, clear: true, last_clear: now_ms }
    }

    /// Converts `img` into the device's channel order while diffing it
    /// against the shadow: every differing channel byte is written into the
    /// shadow in place and marks the owning chunk dirty.  Returns one flag
    /// per chunk.
    fn diff_into_shadow(&mut self, img: &Image) -> (dirty: Vec<bool>)
        requires
            old(self).wf(),
            img.wf(),
            img.width == old(self)@.width,
            img.height == old(self)@.height,
        ensures
            final(self).wf(),
            final(self)@ == (FbModel {
                shadow: shadow_after(old(self)@.shadow, img.data@, num_px(old(self)@)),
                ..old(self)@
            }),
            dirty@.len() == old(self)@.chunks,
            forall|c: int|
                0 <= c < dirty@.len() ==> dirty@[c] == chunk_dirty(
                    old(self)@,
                    img.data@,
                    c as nat,
                ),
    {
        let ghost m0 = self@;
        let w = self.desc.width as usize;
        let h = self.desc.height as usize;
        proof {
            assert(w * h <= 0xFFFF * 0xFFFF) by (nonlinear_arith)
                requires
                    w <= 0xFFFF,
                    h <= 0xFFFF,
            ;
        }
        let wh = w * h;
        let quarter = self.shadow.len() / 4;
        let npx = if wh <= quarter {
            wh
        } else {
            quarter
        };
        let chpx = wh / self.chunks;
        let nchunks = self.chunks;
        let mut dirty = false_flags(nchunks);
        proof {
            assert(npx == num_px(m0));
            assert(chpx == chunk_px(m0));
            assert(4 * npx <= m0.shadow.len());
            assert(3 * w * h == 3 * wh) by (nonlinear_arith)
                requires
                    wh == w * h,
            ;
            assert(3 * npx <= img.data@.len());
            assert(self.shadow@ =~= shadow_after(m0.shadow, img.data@, 0));
            assert(forall|c: int|
                0 <= c < dirty@.len() ==> dirty@[c] == chunk_dirty_upto(
                    m0,
                    img.data@,
                    0,
                    c as nat,
                ));
        }
        let mut p: usize = 0;
        while p < npx
            invariant
                p <= npx,
                fb_model_wf(m0),
                img.wf(),
                npx == num_px(m0),
                chpx == chunk_px(m0),
                nchunks == m0.chunks,
                4 * npx <= m0.shadow.len(),
                3 * npx <= img.data@.len(),
                self@ == (FbModel { shadow: self@.shadow, ..m0 }),
                self@.shadow == shadow_after(m0.shadow, img.data@, p as nat),
                dirty@.len() == m0.chunks,
                forall|c: int|
                    0 <= c < dirty@.len() ==> dirty@[c] == chunk_dirty_upto(
                        m0,
                        img.data@,
                        p as nat,
                        c as nat,
                    ),
            decreases npx - p,
        {
            let base_s = 4 * p;
            let base_i = 3 * p;
            let mut d = false;
            let r = img.data[base_i];
            let g = img.data[base_i + 1];
            let b = img.data[base_i + 2];
            proof {
                assert(self@.shadow[base_s as int] == m0.shadow[base_s as int]);
                assert(self@.shadow[base_s + 1] == m0.shadow[base_s + 1]);
                assert(self@.shadow[base_s + 2] == m0.shadow[base_s + 2]);
            }
            if self.shadow[base_s + 2] != r {
                self.shadow.set(base_s + 2, r);
                d = true;
            }
            if self.shadow[base_s + 1] != g {
                self.shadow.set(base_s + 1, g);
                d = true;
            }
            if self.shadow[base_s] != b {
                self.shadow.set(base_s, b);
                d = true;
            }
            proof {
                assert(d == pixel_dirty(m0.shadow, img.data@, p as int));
                assert(self.shadow@ =~= shadow_after(m0.shadow, img.data@, (p + 1) as nat));
            }
            if d {
                let c = if chpx == 0 {
                    nchunks - 1
                } else {
                    let q = p / chpx;
                    if q < nchunks - 1 {
                        q
                    } else {
                        nchunks - 1
                    }
                };
                proof {
                    assert(c == chunk_of_pixel(m0, p as nat));
                }
                dirty.set(c, true);
            }
            proof {
                assert forall|c: int|
                    0 <= c < dirty@.len() implies dirty@[c] == chunk_dirty_upto(
                    m0,
                    img.data@,
                    (p + 1) as nat,
                    c as nat,
                ) by {
                    lemma_chunk_dirty_step(m0, img.data@, p as nat, c as nat);
                }
            }
            p += 1;
        }
        dirty
    }

    /// Mirrors one application image into the device, given the current
    /// time `now_ms` (milliseconds on a monotonic clock), a randomness
    /// source for the flush order and the raw-memory window to write
    /// through.
    ///
    /// After more than 15 seconds without one, a full redraw is forced and
    /// the timer resets: the console may scribble over the framebuffer
    /// out-of-band, and the periodic repaint self-heals without change
    /// notifications from the kernel.  The image is converted into device
    /// channel order and diffed against the shadow; the dirty chunks (all
    /// chunks when a redraw is forced, which includes the engine's first
    /// call) are flushed in randomized order.  Chunk writes are best-effort:
    /// a short or failed write is swallowed, never an error.  Returns the
    /// flushed chunk indices in the order written.
    pub fn apply<E: Entropy, S: ChunkSink>(
        &mut self,
        img: &Image,
        now_ms: u64,
        rng: &mut E,
        sink: &mut S,
    ) -> (flushed: Vec<usize>)
        requires
            old(self).wf(),
            img.wf(),
            img.width == old(self)@.width,
            img.height == old(self)@.height,
        ensures
            final(self).wf(),
            final(self)@.shadow == shadow_after(old(self)@.shadow, img.data@, num_px(old(self)@)),
            final(self)@.clear == false,
            final(self)@.last_clear == (if timer_fired(old(self)@.last_clear, now_ms as nat) {
                now_ms as nat
            } else {
                old(self)@.last_clear
            }),
            final(self)@.baseaddr == old(self)@.baseaddr,
            final(self)@.size == old(self)@.size,
            final(self)@.width == old(self)@.width,
            final(self)@.height == old(self)@.height,
            final(self)@.chunks == old(self)@.chunks,
            ({
                let forced = old(self)@.clear || timer_fired(old(self)@.last_clear, now_ms as nat);
                &&& forall|k: int|
                    0 <= k < flushed@.len() ==> flushed@[k] < old(self)@.chunks && (forced
                        || chunk_dirty(old(self)@, img.data@, flushed@[k] as nat))
                &&& forall|c: usize|
                    c < old(self)@.chunks && (forced || chunk_dirty(
                        old(self)@,
                        img.data@,
                        c as nat,
                    )) ==> #[trigger] flushed@.contains(c)
                &&& flushed@.no_duplicates()
            }),
    {
        let ghost m0 = self@;

        let fired = now_ms >= self.last_clear && (now_ms - self.last_clear) / 1000 > 15;
        if fired {
            self.clear = true;
            self.last_clear = now_ms;
        }
        let force = self.clear;
        let ghost m1 = self@;
        proof {
            assert(fired == timer_fired(m0.last_clear, now_ms as nat));
            assert(force == (m0.clear || fired));
            assert(m1.shadow == m0.shadow);
        }

        let dirty = self.diff_into_shadow(img);
        self.clear = false;
        proof {
            assert(num_px(m1) == num_px(m0));
            assert(self@.shadow =~= shadow_after(m0.shadow, img.data@, num_px(m0)));
            assert forall|c: int| 0 <= c < dirty@.len() implies dirty@[c] == chunk_dirty(
                m0,
                img.data@,
                c as nat,
            ) by {
                assert(chunk_dirty_upto(m1, img.data@, num_px(m1), c as nat) == chunk_dirty_upto(
                    m0,
                    img.data@,
                    num_px(m0),
                    c as nat,
                ));
            }
        }

        let mut plan = flush_plan(&dirty, force);
        let ghost pre = plan@;
        shuffle(&mut plan, rng);
        proof {
            assert forall|k: int|
                0 <= k < plan@.len() implies plan@[k] < m0.chunks && (force || chunk_dirty(
                m0,
                img.data@,
                plan@[k] as nat,
            )) by {
                assert(plan@.contains(plan@[k]));
                assert(pre.contains(plan@[k]));
                let j = choose|j: int| 0 <= j < pre.len() && pre[j] == plan@[k];
                assert(pre[j] < dirty@.len() && (force || dirty@[pre[j] as int]));
            }
            assert forall|c: usize|
                c < m0.chunks && (force || chunk_dirty(m0, img.data@, c as nat)) implies #[trigger] plan@.contains(c) by {
                assert(dirty@[c as int] == chunk_dirty(m0, img.data@, c as nat));
                assert(pre.contains(c));
            }
        }

        let w = self.desc.width as usize;
        let h = self.desc.height as usize;
        proof {
            assert(w * h <= 0xFFFF * 0xFFFF) by (nonlinear_arith)
                requires
                    w <= 0xFFFF,
                    h <= 0xFFFF,
            ;
        }
        let wh = w * h;
        let chpx = wh / self.chunks;
        let nchunks = self.chunks;
        let size = self.shadow.len();
        let ghost m2 = self@;
        let mut k: usize = 0;
        while k < plan.len()
            invariant
                k <= plan@.len(),
                self@ == m2,
                fb_model_wf(m2),
                wh == m2.width * m2.height,
                wh <= 0xFFFF * 0xFFFF,
                chpx == chunk_px(m2),
                nchunks == m2.chunks,
                size == m2.size,
                forall|k2: int| 0 <= k2 < plan@.len() ==> plan@[k2] < nchunks,
            decreases plan@.len() - k,
        {
            let c = plan[k];
            proof {
                assert(plan@[k as int] < nchunks);
                lemma_chunk_mul_bound(c as nat, nchunks as nat, wh as nat);
                lemma_chunk_mul_bound((c + 1) as nat, nchunks as nat, wh as nat);
                assert(((c + 1) as int) * (chpx as int) == (c as int) * (chpx as int) + chpx as int)
                    by (nonlinear_arith);
            }
            let prod = (c as u64) * (chpx as u64);
            let lo64 = 4u64 * prod;
            let lo = if lo64 > (size as u64) {
                size
            } else {
                lo64 as usize
            };
            let hi = if c + 1 == nchunks {
                size
            } else {
                let prod2 = ((c + 1) as u64) * (chpx as u64);
                let hi64 = 4u64 * prod2;
                if hi64 > (size as u64) {
                    size
                } else {
                    hi64 as usize
                }
            };
            proof {
                assert(4 * (c as int) * (chpx as int) == 4 * ((c as int) * (chpx as int)))
                    by (nonlinear_arith);
                assert(4 * ((c as int) + 1) * (chpx as int) == 4 * (((c as int) + 1) * (
                chpx as int))) by (nonlinear_arith);
                assert(lo == chunk_lo(m2, c as nat));
                assert(hi == chunk_hi(m2, c as nat));
                assert(lo <= hi && hi <= self.shadow@.len());
            }
            let sl = slice_subrange(self.shadow.as_slice(), lo, hi);
            let _ = sink.write(lo, sl);
            k += 1;
        }
        plan
    }

    /// The immutably-resolved width of the display, in pixels.
    pub fn width(&self) -> (w: usize)
        ensures
            w == self@.width,
    {
        self.desc.width as usize
    }

    /// The immutably-resolved height of the display, in pixels.
    pub fn height(&self) -> (h: usize)
        ensures
            h == self@.height,
    {
        self.desc.height as usize
    }
}

/// Builds the list of chunk indices to flush, in ascending order: every
/// chunk on a forced redraw, exactly the dirty ones otherwise.
fn flush_plan(dirty: &Vec<bool>, force: bool) -> (plan: Vec<usize>)
    ensures
        forall|k: int|
            0 <= k < plan@.len() ==> plan@[k] < dirty@.len() && (force || dirty@[plan@[k] as int]),
        forall|c: usize|
            c < dirty@.len() && (force || dirty@[c as int]) ==> #[trigger] plan@.contains(c),
        forall|k1: int, k2: int| 0 <= k1 < k2 < plan@.len() ==> plan@[k1] < plan@[k2],
        plan@.no_duplicates(),
{
    let mut plan: Vec<usize> = Vec::new();
    let mut c: usize = 0;
    while c < dirty.len()
        invariant
            c <= dirty@.len(),
            forall|k: int|
                0 <= k < plan@.len() ==> plan@[k] < c && (force || dirty@[plan@[k] as int]),
            forall|c2: usize|
                c2 < c && (force || dirty@[c2 as int]) ==> #[trigger] plan@.contains(c2),
            forall|k1: int, k2: int| 0 <= k1 < k2 < plan@.len() ==> plan@[k1] < plan@[k2],
        decreases dirty@.len() - c,
    {
        if force || dirty[c] {
            let ghost prev = plan@;
            plan.push(c);
            proof {
                assert forall|c2: usize|
                    c2 < c + 1 && (force || dirty@[c2 as int]) implies plan@.contains(c2) by {
                    if c2 == c {
                        assert(plan@[plan@.len() - 1] == c2);
                    } else {
                        assert(prev.contains(c2));
                        let k = choose|k: int| 0 <= k < prev.len() && prev[k] == c2;
                        assert(plan@[k] == c2);
                    }
                }
            }
        }
        c += 1;
    }
    proof {
        assert forall|k1: int, k2: int|
            0 <= k1 < plan@.len() && 0 <= k2 < plan@.len() && k1 != k2 implies plan@[k1]
            != plan@[k2] by {
            if k1 < k2 {
                assert(plan@[k1] < plan@[k2]);
            } else {
                assert(plan@[k2] < plan@[k1]);
            }
        }
    }
    plan
}

/// Randomizes the order of `v` with an unbiased Fisher-Yates shuffle: for
/// every position from the second onward, the occupant is swapped with a
/// uniformly random position at or before it.  Whatever the entropy source
/// returns, the result holds exactly the elements of the input: a
/// permutation.
pub fn shuffle<E: Entropy>(v: &mut Vec<usize>, rng: &mut E)
    ensures
        final(v)@.to_multiset() == old(v)@.to_multiset(),
        final(v)@.len() == old(v)@.len(),
        forall|x: usize| final(v)@.contains(x) <==> old(v)@.contains(x),
        old(v)@.no_duplicates() ==> final(v)@.no_duplicates(),
{
    broadcast use vstd::seq_lib::group_to_multiset_ensures;
    broadcast use vstd::multiset::group_multiset_axioms;

    let mut i: usize = 1;
    while i < v.len()
        invariant
            1 <= i,
            v@.len() == old(v)@.len(),
            v@.to_multiset() == old(v)@.to_multiset(),
        decreases v@.len() - i,
    {
        let j = (rng.draw(#[verifier::truncate] ((i + 1) as u32)) as usize) % (i + 1);
        let ghost s0 = v@;
        let a = v[i];
        let b = v[j];
        v.set(i, b);
        let ghost s1 = v@;
        v.set(j, a);
        proof {
            broadcast use vstd::seq_lib::group_to_multiset_ensures;
            broadcast use vstd::multiset::group_multiset_axioms;

            assert(s0.contains(a)) by {
                assert(s0[i as int] == a);
            }
            assert(s0.to_multiset().count(a) > 0);
            vstd::seq_lib::to_multiset_update(s0, i as int, b);
            vstd::seq_lib::to_multiset_update(s1, j as int, a);
            assert(s1[j as int] == b);
            assert(v@.to_multiset() =~= s0.to_multiset());
        }
        i += 1;
    }
    proof {
        assert forall|x: usize| #[trigger] v@.contains(x) <==> old(v)@.contains(x) by {
            if v@.contains(x) {
                assert(v@.to_multiset().count(x) > 0);
            }
            if old(v)@.contains(x) {
                assert(old(v)@.to_multiset().count(x) > 0);
            }
        };
        if old(v)@.no_duplicates() {
            old(v)@.lemma_multiset_has_no_duplicates();
            v@.lemma_multiset_has_no_duplicates_conv();
        }
    }
}

} // verus!
