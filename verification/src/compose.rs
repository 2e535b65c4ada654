use vstd::prelude::*;

use crate::capture::{gather_rows, lemma_mul_bounded, reinterpret_u32, swap_rb, CapturedScreen, RgbaBuffer};
use crate::geom::{as_u32_int, fits_i32, in_i32, Rect};
use vstd::arithmetic::div_mod::{lemma_fundamental_div_mod, lemma_fundamental_div_mod_converse};

verus! {

/// `row_bytes` rounded up to a multiple of `align`.
pub fn align_up(row_bytes: u32, align: u32) -> (r: u32)
    requires
        align > 0,
        row_bytes + (align - 1) <= u32::MAX,
    ensures
        r == (row_bytes + align - 1) / (align as int) * align,
        r % align == 0,
        row_bytes <= r < row_bytes + align,
{
    let q = (row_bytes + (align - 1)) / align;
    proof {
        lemma_mul_bounded(q as int, align as int, q as int, align as int);
        assert(q * align <= row_bytes + align - 1) by (nonlinear_arith)
            requires
                q == (row_bytes + align - 1) / (align as int),
                align > 0,
        ;
        assert(q * align > row_bytes - 1) by (nonlinear_arith)
            requires
                q == (row_bytes + align - 1) / (align as int),
                align > 0,
        ;
        assert((q * align) % (align as int) == 0) by (nonlinear_arith)
            requires
                align > 0,
        ;
    }
    q * align
}

/// wgpu's required alignment of `bytes_per_row` in buffer/texture copies:
/// the constant `wgpu::COPY_BYTES_PER_ROW_ALIGNMENT`, which wgpu-types
/// defines as 256.
#[verifier::external_body]
fn copy_bytes_per_row_alignment() -> (a: u32)
    ensures
        a == 256,
{
    wgpu::COPY_BYTES_PER_ROW_ALIGNMENT
}

/// Align row bytes to wgpu's copy row alignment (256).
pub fn align_row_bytes(row_bytes: u32) -> (r: u32)
    requires
        row_bytes + 255 <= u32::MAX,
    ensures
        r == (row_bytes + 255) / 256 * 256,
        r % 256 == 0,
        row_bytes <= r < row_bytes + 256,
{
    let align = copy_bytes_per_row_alignment();
    align_up(row_bytes, align)
}

/// `dst` with the `len` bytes at `d_off` replaced by the `len` bytes of
/// `src` at `s_off`, when both ranges lie within their buffers; `dst`
/// unchanged otherwise.
pub open spec fn copy_span(dst: Seq<u8>, src: Seq<u8>, s_off: int, d_off: int, len: int) -> Seq<u8> {
    if 0 <= s_off && s_off + len <= src.len() && 0 <= d_off && d_off + len <= dst.len() {
        Seq::new(dst.len(), |i: int| if d_off <= i < d_off + len { src[s_off + (i - d_off)] } else { dst[i] })
    } else {
        dst
    }
}

/// Geometry of a rectangular copy between two 4-byte-per-pixel buffers.
pub struct CopyGeometry {
    pub src_stride: u32,
    pub src_x: u32,
    pub src_y: u32,
    pub src_w: u32,
    pub src_h: u32,
    pub dst_stride: u32,
    pub dst_x: u32,
    pub dst_y: u32,
}

/// The first `n` rows of a rectangular copy applied in order.
pub open spec fn copy_rows(dst: Seq<u8>, src: Seq<u8>, g: CopyGeometry, n: nat) -> Seq<u8>
    decreases n,
{
    if n == 0 {
        dst
    } else {
        let y = n - 1;
        copy_span(
            copy_rows(dst, src, g, (n - 1) as nat),
            src,
            (g.src_y + y) * g.src_stride + g.src_x * 4,
            (g.dst_y + y) * g.dst_stride + g.dst_x * 4,
            g.src_w * 4,
        )
    }
}

/// Copies `src_w x src_h` pixels from `src` at `(src_x, src_y)` to `dst` at
/// `(dst_x, dst_y)`, row by row; a row that does not fit either buffer is
/// skipped.
pub fn copy_region(src: &[u8], dst: &mut Vec<u8>, g: &CopyGeometry)
    ensures
        final(dst)@ == copy_rows(old(dst)@, src@, *g, g.src_h as nat),
{
    let len: u128 = g.src_w as u128 * 4;
    let mut y: u32 = 0;
    while y < g.src_h
        invariant
            y <= g.src_h,
            len == g.src_w * 4,
            dst@ == copy_rows(old(dst)@, src@, *g, y as nat),
        decreases g.src_h - y,
    {
        proof {
            lemma_mul_bounded((g.src_y + y) as int, g.src_stride as int, 0x2_0000_0000, u32::MAX as int);
            lemma_mul_bounded((g.dst_y + y) as int, g.dst_stride as int, 0x2_0000_0000, u32::MAX as int);
        }
        let s_off: u128 = (g.src_y as u128 + y as u128) * g.src_stride as u128 + g.src_x as u128 * 4;
        let d_off: u128 = (g.dst_y as u128 + y as u128) * g.dst_stride as u128 + g.dst_x as u128 * 4;
        copy_span_exec(src, dst, s_off, d_off, len);
        y = y + 1;
    }
}

/// Executable form of [`copy_span`].
fn copy_span_exec(src: &[u8], dst: &mut Vec<u8>, s_off: u128, d_off: u128, len: u128)
    requires
        s_off < 0x10_0000_0000_0000_0000_0000_0000,
        d_off < 0x10_0000_0000_0000_0000_0000_0000,
        len < 0x1_0000_0000_0000,
    ensures
        final(dst)@ == copy_span(old(dst)@, src@, s_off as int, d_off as int, len as int),
{
    if s_off + len <= src.len() as u128 && d_off + len <= dst.len() as u128 {
        let ghost d0 = dst@;
        let mut k: u128 = 0;
        while k < len
            invariant
                k <= len,
                s_off < 0x10_0000_0000_0000_0000_0000_0000,
                d_off < 0x10_0000_0000_0000_0000_0000_0000,
                len < 0x1_0000_0000_0000,
                src@.len() <= usize::MAX,
                d0.len() <= usize::MAX,
                s_off + len <= src@.len(),
                d_off + len <= d0.len(),
                dst@.len() == d0.len(),
                forall|i: int|
                    0 <= i < dst@.len() ==> #[trigger] dst@[i] == (if d_off <= i < d_off + k {
                        src@[s_off + (i - d_off)]
                    } else {
                        d0[i]
                    }),
            decreases len - k,
        {
            let b = src[(s_off + k) as usize];
            let di = (d_off + k) as usize;
            assert(di == d_off + k);
            dst.set(di, b);
            k = k + 1;
        }
        proof {
            assert(dst@ =~= copy_span(d0, src@, s_off as int, d_off as int, len as int));
        }
    }
}

/// Geometry of a nearest-neighbour rescale between two pixel buffers.
pub struct ScaleGeometry {
    pub copy: CopyGeometry,
    pub src_scale: u32,
    pub dst_scale: u32,
}

/// Width and height of the rescaled area in destination pixels.
pub open spec fn scaled_size(g: ScaleGeometry) -> (int, int) {
    (
        ((g.copy.src_w as int) / (g.src_scale as int)) * g.dst_scale,
        ((g.copy.src_h as int) / (g.src_scale as int)) * g.dst_scale,
    )
}

/// Source byte offset read for destination pixel `(x, y)`.
pub open spec fn scale_src_offset(g: ScaleGeometry, x: int, y: int) -> int {
    let src_y_phys = g.copy.src_y + (y / (g.dst_scale as int)) * g.src_scale;
    let src_x_phys = g.copy.src_x + (x / (g.dst_scale as int)) * g.src_scale;
    src_y_phys * g.copy.src_stride + src_x_phys * 4
}

/// Destination byte offset of destination pixel `(x, y)`.
pub open spec fn scale_dst_offset(g: ScaleGeometry, x: int, y: int) -> int {
    (g.copy.dst_y + y) * g.copy.dst_stride + (g.copy.dst_x + x) * 4
}

/// Row `y` of a rescale, its first `n` pixels applied in order.
pub open spec fn scale_row(dst: Seq<u8>, src: Seq<u8>, g: ScaleGeometry, y: int, n: nat) -> Seq<u8>
    decreases n,
{
    if n == 0 {
        dst
    } else {
        let x = n - 1;
        copy_span(scale_row(dst, src, g, y, (n - 1) as nat), src, scale_src_offset(g, x, y), scale_dst_offset(g, x, y), 4)
    }
}

/// The first `n` rows of a rescale applied in order.
pub open spec fn scale_rows(dst: Seq<u8>, src: Seq<u8>, g: ScaleGeometry, n: nat) -> Seq<u8>
    decreases n,
{
    if n == 0 {
        dst
    } else {
        scale_row(scale_rows(dst, src, g, (n - 1) as nat), src, g, n - 1, scaled_size(g).0 as nat)
    }
}

/// Copies a `src_w x src_h` area of `src` drawn at `src_scale` into `dst`
/// drawn at `dst_scale`, picking for each destination pixel the source pixel
/// of the same logical position (nearest neighbour). All offsets, the source
/// origin `(src_x, src_y)` among them, are physical pixels of their buffer.
pub fn scale_region(src: &[u8], dst: &mut Vec<u8>, g: &ScaleGeometry)
    requires
        g.src_scale > 0,
    ensures
        final(dst)@ == scale_rows(old(dst)@, src@, *g, scaled_size(*g).1 as nat),
{
    let logical_w = g.copy.src_w / g.src_scale;
    let logical_h = g.copy.src_h / g.src_scale;
    proof {
        lemma_mul_bounded(logical_w as int, g.dst_scale as int, u32::MAX as int, u32::MAX as int);
        lemma_mul_bounded(logical_h as int, g.dst_scale as int, u32::MAX as int, u32::MAX as int);
    }
    let dst_w: u64 = logical_w as u64 * g.dst_scale as u64;
    let dst_h: u64 = logical_h as u64 * g.dst_scale as u64;
    proof {
        assert(dst_w > 0 ==> g.dst_scale > 0) by (nonlinear_arith)
            requires
                dst_w == logical_w * g.dst_scale,
        ;
    }
    let mut y: u64 = 0;
    while y < dst_h
        invariant
            y <= dst_h,
            g.src_scale > 0,
            dst_w > 0 ==> g.dst_scale > 0,
            dst_w == scaled_size(*g).0,
            dst_h == scaled_size(*g).1,
            dst_w <= u32::MAX * u32::MAX,
            dst_h <= u32::MAX * u32::MAX,
            dst@ == scale_rows(old(dst)@, src@, *g, y as nat),
        decreases dst_h - y,
    {
        let ghost row_start = dst@;
        let mut x: u64 = 0;
        while x < dst_w
            invariant
                x <= dst_w,
                y < dst_h,
                dst_h == scaled_size(*g).1,
                g.src_scale > 0,
                dst_w > 0 ==> g.dst_scale > 0,
                dst_w == scaled_size(*g).0,
                dst_w <= u32::MAX * u32::MAX,
                dst_h <= u32::MAX * u32::MAX,
                dst@ == scale_row(row_start, src@, *g, y as int, x as nat),
            decreases dst_w - x,
        {
            let (s_off, d_off) = scale_offsets(g, x, y);
            copy_span_exec(src, dst, s_off, d_off, 4);
            x = x + 1;
        }
        y = y + 1;
    }
}

/// Source and destination byte offsets of destination pixel `(x, y)`.
fn scale_offsets(g: &ScaleGeometry, x: u64, y: u64) -> (r: (u128, u128))
    requires
        g.src_scale > 0,
        g.dst_scale > 0,
        x < scaled_size(*g).0,
        y < scaled_size(*g).1,
    ensures
        r.0 == scale_src_offset(*g, x as int, y as int),
        r.1 == scale_dst_offset(*g, x as int, y as int),
        r.0 < 0x10_0000_0000_0000_0000_0000_0000,
        r.1 < 0x10_0000_0000_0000_0000_0000_0000,
{
    let ds = g.dst_scale as u128;
    let ss = g.src_scale as u128;
    let yl: u128 = y as u128 / ds;
    let xl: u128 = x as u128 / ds;
    proof {
        let lw = (g.copy.src_w as int) / (g.src_scale as int);
        let lh = (g.copy.src_h as int) / (g.src_scale as int);
        assert(lw <= u32::MAX && lh <= u32::MAX);
        assert(xl < lw) by (nonlinear_arith)
            requires
                x < lw * ds,
                ds > 0,
                xl == (x as int) / (ds as int),
        ;
        assert(yl < lh) by (nonlinear_arith)
            requires
                y < lh * ds,
                ds > 0,
                yl == (y as int) / (ds as int),
        ;
        lemma_mul_bounded(lh as int, ds as int, u32::MAX as int, u32::MAX as int);
        lemma_mul_bounded(yl as int, ss as int, u32::MAX as int, u32::MAX as int);
        lemma_mul_bounded(xl as int, ss as int, u32::MAX as int, u32::MAX as int);
    }
    let src_y_phys: u128 = g.copy.src_y as u128 + yl * ss;
    let src_x_phys: u128 = g.copy.src_x as u128 + xl * ss;
    proof {
        lemma_mul_bounded(src_y_phys as int, g.copy.src_stride as int, 0x2_0000_0000_0000_0000, u32::MAX as int);
        lemma_mul_bounded((g.copy.dst_y + y) as int, g.copy.dst_stride as int, 0x2_0000_0000_0000_0000, u32::MAX as int);
    }
    let s_off = src_y_phys * g.copy.src_stride as u128 + src_x_phys * 4;
    let d_off = (g.copy.dst_y as u128 + y as u128) * g.copy.dst_stride as u128 + (g.copy.dst_x as u128 + x as u128) * 4;
    (s_off, d_off)
}

/// Exchanges the first and third byte of every 4-byte pixel (BGRA <-> RGBA).
pub fn swap_red_blue(buf: &mut Vec<u8>)
    requires
        old(buf)@.len() % 4 == 0,
    ensures
        final(buf)@ == swap_rb(old(buf)@),
{
    let ghost b0 = buf@;
    let n = buf.len();
    let mut i: usize = 0;
    while i < n
        invariant
            i <= n,
            n == b0.len(),
            n % 4 == 0,
            i % 4 == 0,
            buf@.len() == n,
            forall|j: int| 0 <= j < i ==> #[trigger] buf@[j] == swap_rb(b0)[j],
            forall|j: int| i <= j < n ==> #[trigger] buf@[j] == b0[j],
        decreases n - i,
    {
        assert(i + 4 <= n) by {
            assert(i / 4 < n / 4);
        }
        let b = buf[i];
        let r = buf[i + 2];
        buf.set(i, r);
        buf.set(i + 2, b);
        proof {
            assert forall|j: int| 0 <= j < i + 4 implies #[trigger] buf@[j] == swap_rb(b0)[j] by {
                if j >= i {
                    assert(j % 4 == j - i);
                }
            }
        }
        i = i + 4;
    }
    proof {
        assert(buf@ =~= swap_rb(b0));
    }
}

/// An output's geometry as the compositor reports it.
#[derive(Debug, Clone, Copy, PartialEq, Eq)]
pub struct OutputGeometry {
    /// Logical position of the output in the global compositor space.
    pub output_pos: (i32, i32),
    /// Logical size.
    pub width: u32,
    pub height: u32,
    pub scale_factor: i32,
}

/// What one output contributes to a composed selection.
#[derive(Debug, Clone, Copy, PartialEq, Eq)]
pub struct OutputTile {
    pub output_pos: (i32, i32),
    pub logical_size: (u32, u32),
    pub scale: u32,
    /// Size of the output's rendering in physical pixels.
    pub phys_size: (u32, u32),
    /// The part of the selection on this output, in global logical coordinates.
    pub overlap: Rect,
}

/// Scale factor of an output; factors below one count as one.
pub open spec fn effective_scale(scale_factor: i32) -> int {
    if scale_factor >= 1 {
        scale_factor as int
    } else {
        1
    }
}

/// The output's logical bounds in global coordinates.
pub open spec fn output_bounds(o: OutputGeometry) -> Rect {
    Rect { x: o.output_pos.0, y: o.output_pos.1, w: o.width as i32, h: o.height as i32 }
}

/// The output's physical size fits `u32`.
pub open spec fn plan_ok(o: OutputGeometry) -> bool {
    o.width * effective_scale(o.scale_factor) <= u32::MAX && o.height * effective_scale(o.scale_factor) <= u32::MAX
}

/// Plan an output's part of a composed selection: `None` when the output
/// does not overlap the selection.
pub fn plan_output(selection_rect: Rect, o: &OutputGeometry) -> (r: Option<OutputTile>)
    requires
        plan_ok(*o),
    ensures
        selection_rect.spec_intersect(output_bounds(*o)) is None ==> r is None,
        selection_rect.spec_intersect(output_bounds(*o)) matches Some(overlap) ==> r == Some(
            OutputTile {
                output_pos: o.output_pos,
                logical_size: (o.width, o.height),
                scale: effective_scale(o.scale_factor) as u32,
                phys_size: (
                    (o.width * effective_scale(o.scale_factor)) as u32,
                    (o.height * effective_scale(o.scale_factor)) as u32,
                ),
                overlap,
            },
        ),
{
    let output_logical = Rect { x: o.output_pos.0, y: o.output_pos.1, w: o.width as i32, h: o.height as i32 };
    let overlap = match selection_rect.intersect(&output_logical) {
        Some(r) => r,
        None => return None,
    };
    let scale: u32 = if o.scale_factor >= 1 { o.scale_factor as u32 } else { 1 };
    Some(
        OutputTile {
            output_pos: o.output_pos,
            logical_size: (o.width, o.height),
            scale,
            phys_size: (o.width * scale, o.height * scale),
            overlap,
        },
    )
}

/// A tile's rendering read back from the GPU: `phys_size` BGRA pixels,
/// `4 * phys_size.0` bytes per row.
pub struct RenderedTile {
    pub tile: OutputTile,
    pub pixels: Vec<u8>,
}

/// The largest scale among the tiles (one when there are none).
pub open spec fn max_scale(tiles: Seq<OutputTile>) -> int
    decreases tiles.len(),
{
    if tiles.len() == 0 {
        1
    } else if tiles.len() == 1 {
        tiles[0].scale as int
    } else {
        let m = max_scale(tiles.drop_last());
        if tiles.last().scale >= m {
            tiles.last().scale as int
        } else {
            m
        }
    }
}

/// Size of the composed image in physical pixels: the selection at the
/// largest scale.
pub open spec fn composed_size(sel: Rect, ms: int) -> (int, int) {
    (as_u32_int(sel.w) * ms, as_u32_int(sel.h) * ms)
}

/// The copy that places a tile's pixels into the composed image.
pub open spec fn tile_geometry(t: OutputTile, sel: Rect, ms: int) -> CopyGeometry {
    let lx = t.overlap.x - t.output_pos.0;
    let ly = t.overlap.y - t.output_pos.1;
    CopyGeometry {
        src_stride: (t.phys_size.0 * 4) as u32,
        src_x: (as_u32_int(lx as i32) * t.scale) as u32,
        src_y: (as_u32_int(ly as i32) * t.scale) as u32,
        src_w: (as_u32_int(t.overlap.w) * t.scale) as u32,
        src_h: (as_u32_int(t.overlap.h) * t.scale) as u32,
        dst_stride: (composed_size(sel, ms).0 * 4) as u32,
        dst_x: (as_u32_int((t.overlap.x - sel.x) as i32) * ms) as u32,
        dst_y: (as_u32_int((t.overlap.y - sel.y) as i32) * ms) as u32,
    }
}

/// The arithmetic placing a tile stays within `i32` and `u32`, as the
/// composition computes it.
pub open spec fn tile_ok(t: OutputTile, sel: Rect, ms: int) -> bool {
    let lx = t.overlap.x - t.output_pos.0;
    let ly = t.overlap.y - t.output_pos.1;
    &&& in_i32(lx) && in_i32(ly)
    &&& in_i32(t.overlap.x - sel.x) && in_i32(t.overlap.y - sel.y)
    &&& t.phys_size.0 * 4 <= u32::MAX
    &&& as_u32_int(lx as i32) * t.scale <= u32::MAX
    &&& as_u32_int(ly as i32) * t.scale <= u32::MAX
    &&& as_u32_int(t.overlap.w) * t.scale <= u32::MAX
    &&& as_u32_int(t.overlap.h) * t.scale <= u32::MAX
    &&& as_u32_int((t.overlap.x - sel.x) as i32) * ms <= u32::MAX
    &&& as_u32_int((t.overlap.y - sel.y) as i32) * ms <= u32::MAX
    &&& t.scale > 0
}

/// `prev` with tile `t` copied in (or rescaled, when its scale differs from
/// the largest).
pub open spec fn apply_tile(prev: Seq<u8>, t: RenderedTile, sel: Rect, ms: int) -> Seq<u8> {
    let g = tile_geometry(t.tile, sel, ms);
    if t.tile.scale == ms {
        copy_rows(prev, t.pixels@, g, g.src_h as nat)
    } else {
        let sg = ScaleGeometry { copy: g, src_scale: t.tile.scale, dst_scale: ms as u32 };
        scale_rows(prev, t.pixels@, sg, scaled_size(sg).1 as nat)
    }
}

/// The composed image before the channel swap: each of the first `n`
/// tiles applied in order.
pub open spec fn apply_tiles(dst: Seq<u8>, tiles: Seq<RenderedTile>, sel: Rect, ms: int, n: nat) -> Seq<u8>
    decreases n,
{
    if n == 0 {
        dst
    } else {
        apply_tile(apply_tiles(dst, tiles, sel, ms, (n - 1) as nat), tiles[n - 1], sel, ms)
    }
}

/// The tiles' placement descriptions.
pub open spec fn tiles_of(tiles: Seq<RenderedTile>) -> Seq<OutputTile> {
    tiles.map_values(|t: RenderedTile| t.tile)
}

/// The composition's sizes and every tile's placement fit their integer types.
pub open spec fn compose_ok(tiles: Seq<RenderedTile>, sel: Rect) -> bool {
    let ms = max_scale(tiles_of(tiles));
    let (fw, fh) = composed_size(sel, ms);
    &&& fw <= u32::MAX && fh <= u32::MAX
    &&& fw * 4 <= u32::MAX
    &&& fw * fh * 4 <= usize::MAX
    &&& forall|i: int| 0 <= i < tiles.len() ==> #[trigger] tile_ok(tiles[i].tile, sel, ms)
}

/// The largest tile scale, computed.
fn compute_max_scale(tiles: &[RenderedTile]) -> (m: u32)
    ensures
        m == max_scale(tiles_of(tiles@)),
{
    let mut m: u32 = 1;
    let mut i: usize = 0;
    while i < tiles.len()
        invariant
            i <= tiles@.len(),
            m == max_scale(tiles_of(tiles@.take(i as int))),
        decreases tiles@.len() - i,
    {
        let s = tiles[i].tile.scale;
        proof {
            assert(tiles_of(tiles@.take(i + 1)).drop_last() =~= tiles_of(tiles@.take(i as int)));
        }
        if i == 0 || s >= m {
            m = s;
        }
        i = i + 1;
    }
    proof {
        assert(tiles@.take(tiles@.len() as int) =~= tiles@);
    }
    m
}

/// `a * b <= u32::MAX`, computed without overflow.
fn product_fits_u32(a: u32, b: u32) -> (r: bool)
    ensures
        r == (a * b <= u32::MAX),
{
    proof {
        lemma_mul_bounded(a as int, b as int, u32::MAX as int, u32::MAX as int);
    }
    (a as u64) * (b as u64) <= u32::MAX as u64
}

/// Whether tile `t` can be placed within the integer types (see [`tile_ok`]).
fn tile_fits(t: &OutputTile, sel: Rect, ms: u32) -> (r: bool)
    ensures
        r == tile_ok(*t, sel, ms as int),
{
    let lx = t.overlap.x as i64 - t.output_pos.0 as i64;
    let ly = t.overlap.y as i64 - t.output_pos.1 as i64;
    let ox = t.overlap.x as i64 - sel.x as i64;
    let oy = t.overlap.y as i64 - sel.y as i64;
    if !(fits_i32(lx) && fits_i32(ly) && fits_i32(ox) && fits_i32(oy)) {
        return false;
    }
    if !product_fits_u32(t.phys_size.0, 4) {
        return false;
    }
    product_fits_u32(reinterpret_u32(lx as i32), t.scale)
        && product_fits_u32(reinterpret_u32(ly as i32), t.scale)
        && product_fits_u32(reinterpret_u32(t.overlap.w), t.scale)
        && product_fits_u32(reinterpret_u32(t.overlap.h), t.scale)
        && product_fits_u32(reinterpret_u32(ox as i32), ms)
        && product_fits_u32(reinterpret_u32(oy as i32), ms)
        && t.scale > 0
}

/// Whether the tiles can be composited for `selection_rect` within the
/// integer types (what [`composite_tiles`] needs).
pub fn compose_fits(tiles: &[RenderedTile], selection_rect: Rect) -> (b: bool)
    ensures
        b == compose_ok(tiles@, selection_rect),
{
    let ms = compute_max_scale(tiles);
    let sw = reinterpret_u32(selection_rect.w);
    let sh = reinterpret_u32(selection_rect.h);
    if !product_fits_u32(sw, ms) || !product_fits_u32(sh, ms) {
        return false;
    }
    let fw = sw * ms;
    let fh = sh * ms;
    if !product_fits_u32(fw, 4) {
        return false;
    }
    proof {
        lemma_mul_bounded(fw as int, fh as int, u32::MAX as int, u32::MAX as int);
    }
    let total: u128 = (fw as u128) * (fh as u128) * 4;
    if total > usize::MAX as u128 {
        return false;
    }
    let mut i: usize = 0;
    while i < tiles.len()
        invariant
            i <= tiles@.len(),
            ms == max_scale(tiles_of(tiles@)),
            forall|j: int| 0 <= j < i ==> #[trigger] tile_ok(tiles@[j].tile, selection_rect, ms as int),
        decreases tiles@.len() - i,
    {
        if !tile_fits(&tiles[i].tile, selection_rect, ms) {
            return false;
        }
        i = i + 1;
    }
    true
}

/// Composite the outputs' renderings into one RGBA image of the selection,
/// at the largest scale among the outputs; `None` when no output
/// contributes a tile.
pub fn composite_tiles(tiles: &[RenderedTile], selection_rect: Rect) -> (img: Option<RgbaBuffer>)
    requires
        compose_ok(tiles@, selection_rect),
    ensures
        img is None <==> tiles@.len() == 0,
        img matches Some(b) ==> {
            let ms = max_scale(tiles_of(tiles@));
            let (fw, fh) = composed_size(selection_rect, ms);
            &&& b.width == fw && b.height == fh
            &&& b.data@ == swap_rb(
                apply_tiles(zeroed((fw * fh * 4) as nat), tiles@, selection_rect, ms, tiles@.len()),
            )
        },
{
    if tiles.len() == 0 {
        return None;
    }
    let ms = compute_max_scale(tiles);
    let sw = reinterpret_u32(selection_rect.w);
    let sh = reinterpret_u32(selection_rect.h);
    let fw: u32 = sw * ms;
    let fh: u32 = sh * ms;
    let total: usize = fw as usize * fh as usize * 4;
    let mut img: Vec<u8> = vec![0u8; total];
    proof {
        assert(img@ =~= zeroed((fw * fh * 4) as nat));
    }
    let ghost zeros = img@;
    let mut k: usize = 0;
    while k < tiles.len()
        invariant
            k <= tiles@.len(),
            compose_ok(tiles@, selection_rect),
            ms == max_scale(tiles_of(tiles@)),
            fw == composed_size(selection_rect, ms as int).0,
            img@.len() == zeros.len(),
            zeros.len() == fw * fh * 4,
            img@ == apply_tiles(zeros, tiles@, selection_rect, ms as int, k as nat),
        decreases tiles@.len() - k,
    {
        let t = &tiles[k];
        assert(tile_ok(tiles@[k as int].tile, selection_rect, ms as int));
        let g = tile_copy_geometry(&t.tile, &selection_rect, ms, fw);
        if t.tile.scale == ms {
            copy_region(&t.pixels, &mut img, &g);
        } else {
            let sg = ScaleGeometry { copy: g, src_scale: t.tile.scale, dst_scale: ms };
            scale_region(&t.pixels, &mut img, &sg);
        }
        proof {
            lemma_copy_rows_len(zeros, tiles@, selection_rect, ms as int, (k + 1) as nat);
        }
        k = k + 1;
    }
    proof {
        assert(tiles@.len() as nat == k as nat);
        assert(img@.len() % 4 == 0) by (nonlinear_arith)
            requires
                img@.len() == fw * fh * 4,
        ;
    }
    swap_red_blue(&mut img);
    Some(RgbaBuffer { width: fw, height: fh, data: img })
}

/// Copies and rescales keep the buffer's length.
pub proof fn lemma_copy_rows_len(dst: Seq<u8>, tiles: Seq<RenderedTile>, sel: Rect, ms: int, n: nat)
    ensures
        apply_tiles(dst, tiles, sel, ms, n).len() == dst.len(),
    decreases n,
{
    if n > 0 {
        lemma_copy_rows_len(dst, tiles, sel, ms, (n - 1) as nat);
        let prev = apply_tiles(dst, tiles, sel, ms, (n - 1) as nat);
        let t = tiles[n - 1];
        let g = tile_geometry(t.tile, sel, ms);
        lemma_copy_rows_keeps_len(prev, t.pixels@, g, g.src_h as nat);
        let sg = ScaleGeometry { copy: g, src_scale: t.tile.scale, dst_scale: ms as u32 };
        lemma_scale_rows_keeps_len(prev, t.pixels@, sg, scaled_size(sg).1 as nat);
    }
}

proof fn lemma_copy_rows_keeps_len(dst: Seq<u8>, src: Seq<u8>, g: CopyGeometry, n: nat)
    ensures
        copy_rows(dst, src, g, n).len() == dst.len(),
    decreases n,
{
    if n > 0 {
        lemma_copy_rows_keeps_len(dst, src, g, (n - 1) as nat);
    }
}

proof fn lemma_scale_row_keeps_len(dst: Seq<u8>, src: Seq<u8>, g: ScaleGeometry, y: int, n: nat)
    ensures
        scale_row(dst, src, g, y, n).len() == dst.len(),
    decreases n,
{
    if n > 0 {
        lemma_scale_row_keeps_len(dst, src, g, y, (n - 1) as nat);
    }
}

proof fn lemma_scale_rows_keeps_len(dst: Seq<u8>, src: Seq<u8>, g: ScaleGeometry, n: nat)
    ensures
        scale_rows(dst, src, g, n).len() == dst.len(),
    decreases n,
{
    if n > 0 {
        lemma_scale_rows_keeps_len(dst, src, g, (n - 1) as nat);
        lemma_scale_row_keeps_len(scale_rows(dst, src, g, (n - 1) as nat), src, g, n - 1, scaled_size(g).0 as nat);
    }
}

/// Executable form of [`tile_geometry`].
fn tile_copy_geometry(t: &OutputTile, sel: &Rect, ms: u32, fw: u32) -> (g: CopyGeometry)
    requires
        tile_ok(*t, *sel, ms as int),
        fw == composed_size(*sel, ms as int).0,
        fw * 4 <= u32::MAX,
    ensures
        g == tile_geometry(*t, *sel, ms as int),
{
    let lx = t.overlap.x - t.output_pos.0;
    let ly = t.overlap.y - t.output_pos.1;
    let ox = t.overlap.x - sel.x;
    let oy = t.overlap.y - sel.y;
    CopyGeometry {
        src_stride: t.phys_size.0 * 4,
        src_x: reinterpret_u32(lx) * t.scale,
        src_y: reinterpret_u32(ly) * t.scale,
        src_w: reinterpret_u32(t.overlap.w) * t.scale,
        src_h: reinterpret_u32(t.overlap.h) * t.scale,
        dst_stride: fw * 4,
        dst_x: reinterpret_u32(ox) * ms,
        dst_y: reinterpret_u32(oy) * ms,
    }
}

/// Copies out the first `row_bytes` of each of `rows` rows spaced
/// `bytes_per_row` apart (a GPU readback padded to an alignment).
pub fn unpad_rows(data: &[u8], bytes_per_row: u32, row_bytes: u32, rows: u32) -> (r: Vec<u8>)
    requires
        rows > 0 ==> (rows - 1) * bytes_per_row + row_bytes <= data@.len(),
    ensures
        r@ == gather_rows(data@, 0, bytes_per_row as int, 0, row_bytes as int, rows as nat),
{
    let mut out: Vec<u8> = Vec::new();
    let mut y: u32 = 0;
    while y < rows
        invariant
            y <= rows,
            rows > 0 ==> (rows - 1) * bytes_per_row + row_bytes <= data@.len(),
            out@ == gather_rows(data@, 0, bytes_per_row as int, 0, row_bytes as int, y as nat),
        decreases rows - y,
    {
        proof {
            lemma_mul_bounded(y as int, bytes_per_row as int, (rows - 1) as int, bytes_per_row as int);
            lemma_mul_bounded(y as int, bytes_per_row as int, u32::MAX as int, u32::MAX as int);
        }
        let start: u64 = y as u64 * bytes_per_row as u64;
        let dlen = data.len();
        let ghost before = out@;
        let mut k: u64 = 0;
        while k < row_bytes as u64
            invariant
                k <= row_bytes,
                start + row_bytes <= data@.len(),
                data@.len() <= usize::MAX,
                out@ == before + data@.subrange(start as int, start + k),
            decreases row_bytes - k,
        {
            out.push(data[(start + k) as usize]);
            k = k + 1;
            proof {
                assert(out@ =~= before + data@.subrange(start as int, start + k));
            }
        }
        y = y + 1;
    }
    out
}

/// Source offset of row `r` of a rectangular copy.
pub open spec fn copy_src_off(g: CopyGeometry, r: int) -> int {
    (g.src_y + r) * g.src_stride + g.src_x * 4
}

/// Destination offset of row `r` of a rectangular copy.
pub open spec fn copy_dst_off(g: CopyGeometry, r: int) -> int {
    (g.dst_y + r) * g.dst_stride + g.dst_x * 4
}

/// Byte `c` after offset `off`.
pub open spec fn byte_at(s: Seq<u8>, off: int, c: int) -> u8 {
    s[off + c]
}

/// When every row of a copy fits both buffers and destination rows do not
/// overlap, each copied row lands intact at its place: byte `c` of row `r`
/// in the destination is byte `c` of row `r` in the source.
pub proof fn lemma_copy_rows_place(dst: Seq<u8>, src: Seq<u8>, g: CopyGeometry, n: nat)
    requires
        g.dst_stride >= g.src_w * 4,
        forall|r: int|
            0 <= r < n ==> #[trigger] copy_src_off(g, r) + g.src_w * 4 <= src.len() && copy_dst_off(g, r)
                + g.src_w * 4 <= dst.len(),
    ensures
        copy_rows(dst, src, g, n).len() == dst.len(),
        forall|r: int, c: int|
            0 <= r < n && 0 <= c < g.src_w * 4 ==> #[trigger] byte_at(
                copy_rows(dst, src, g, n),
                copy_dst_off(g, r),
                c,
            ) == byte_at(src, copy_src_off(g, r), c),
    decreases n,
{
    lemma_copy_rows_keeps_len(dst, src, g, n);
    if n > 0 {
        let m = (n - 1) as nat;
        assert forall|r: int| 0 <= r < m implies #[trigger] copy_src_off(g, r) + g.src_w * 4 <= src.len()
            && copy_dst_off(g, r) + g.src_w * 4 <= dst.len() by {
            assert(r < n);
        }
        lemma_copy_rows_place(dst, src, g, m);
        let prev = copy_rows(dst, src, g, m);
        let len = g.src_w * 4;
        assert(copy_src_off(g, m as int) + len <= src.len());
        assert(copy_dst_off(g, m as int) + len <= dst.len());
        assert forall|r: int, c: int| 0 <= r < n && 0 <= c < len implies #[trigger] byte_at(
            copy_rows(dst, src, g, n),
            copy_dst_off(g, r),
            c,
        ) == byte_at(src, copy_src_off(g, r), c) by {
            if r < m {
                assert(copy_dst_off(g, r) + g.dst_stride <= copy_dst_off(g, m as int)) by (nonlinear_arith)
                    requires
                        0 <= r < m,
                        g.dst_stride >= 0,
                ;
                assert(byte_at(prev, copy_dst_off(g, r), c) == byte_at(src, copy_src_off(g, r), c));
            }
        }
    }
}

/// Byte `c` of pixel `(x, y)` in a 4-byte-per-pixel buffer of `stride`
/// bytes per row.
pub open spec fn px_off(stride: int, x: int, y: int, c: int) -> int {
    y * stride + x * 4 + c
}

/// The bytes of pixels `dx .. dx + w` of row `r` hold byte `c` of pixel
/// `(x, y)` exactly when that pixel is one of them.
proof fn lemma_span_hit(s: int, x: int, y: int, c: int, r: int, dx: int, w: int)
    requires
        0 <= x,
        x * 4 + 4 <= s,
        0 <= c < 4,
        0 <= dx,
        0 <= w,
        (dx + w) * 4 <= s,
    ensures
        (r * s + dx * 4 <= px_off(s, x, y, c) < r * s + (dx + w) * 4) <==> (y == r && dx <= x < dx + w),
{
    if y > r {
        assert(y * s >= r * s + s) by (nonlinear_arith)
            requires
                y >= r + 1,
                s >= 0,
        ;
    } else if y < r {
        assert(r * s >= y * s + s) by (nonlinear_arith)
            requires
                r >= y + 1,
                s >= 0,
        ;
    }
}

/// Byte `c` of pixel `(x, y)` after a rectangular copy whose rows all fit:
/// the source's corresponding byte inside the copied area, the old byte
/// outside it.
proof fn lemma_copy_rows_at(dst: Seq<u8>, src: Seq<u8>, g: CopyGeometry, n: nat, x: int, y: int, c: int)
    requires
        (g.dst_x + g.src_w) * 4 <= g.dst_stride,
        0 <= x,
        x * 4 + 4 <= g.dst_stride,
        0 <= c < 4,
        0 <= px_off(g.dst_stride as int, x, y, c) < dst.len(),
        forall|r: int|
            0 <= r < n ==> #[trigger] copy_src_off(g, r) + g.src_w * 4 <= src.len() && copy_dst_off(g, r)
                + g.src_w * 4 <= dst.len(),
    ensures
        copy_rows(dst, src, g, n)[px_off(g.dst_stride as int, x, y, c)] == (if g.dst_y <= y < g.dst_y + n
            && g.dst_x <= x < g.dst_x + g.src_w {
            src[copy_src_off(g, y - g.dst_y) + (x - g.dst_x) * 4 + c]
        } else {
            dst[px_off(g.dst_stride as int, x, y, c)]
        }),
    decreases n,
{
    if n > 0 {
        let m = (n - 1) as nat;
        lemma_copy_rows_at(dst, src, g, m, x, y, c);
        lemma_copy_rows_keeps_len(dst, src, g, m);
        assert(copy_src_off(g, m as int) + g.src_w * 4 <= src.len());
        lemma_mul_bounded((g.src_y + m) as int, g.src_stride as int, (g.src_y + m) as int, g.src_stride as int);
        lemma_mul_bounded((g.dst_y + m) as int, g.dst_stride as int, (g.dst_y + m) as int, g.dst_stride as int);
        lemma_span_hit(g.dst_stride as int, x, y, c, g.dst_y + m, g.dst_x as int, g.src_w as int);
    }
}

/// Byte `c` of pixel `(x, y)` after the first `n` pixels of row `yr` of a
/// rescale, when all their reads and writes fit.
proof fn lemma_scale_row_at(dst: Seq<u8>, src: Seq<u8>, g: ScaleGeometry, yr: int, n: nat, x: int, y: int, c: int)
    requires
        (g.copy.dst_x + n) * 4 <= g.copy.dst_stride,
        0 <= x,
        x * 4 + 4 <= g.copy.dst_stride,
        0 <= c < 4,
        0 <= yr,
        0 <= px_off(g.copy.dst_stride as int, x, y, c) < dst.len(),
        forall|i: int|
            0 <= i < n ==> 0 <= #[trigger] scale_src_offset(g, i, yr) && scale_src_offset(g, i, yr) + 4
                <= src.len() && scale_dst_offset(g, i, yr) + 4 <= dst.len(),
    ensures
        scale_row(dst, src, g, yr, n)[px_off(g.copy.dst_stride as int, x, y, c)] == (if y == g.copy.dst_y + yr
            && g.copy.dst_x <= x < g.copy.dst_x + n {
            src[scale_src_offset(g, x - g.copy.dst_x, yr) + c]
        } else {
            dst[px_off(g.copy.dst_stride as int, x, y, c)]
        }),
    decreases n,
{
    if n > 0 {
        let m = (n - 1) as nat;
        lemma_scale_row_at(dst, src, g, yr, m, x, y, c);
        lemma_scale_row_keeps_len(dst, src, g, yr, m);
        assert(0 <= scale_src_offset(g, m as int, yr));
        lemma_mul_bounded(g.copy.dst_y + yr, g.copy.dst_stride as int, g.copy.dst_y + yr, g.copy.dst_stride as int);
        lemma_span_hit(g.copy.dst_stride as int, x, y, c, g.copy.dst_y + yr, g.copy.dst_x + m, 1);
    }
}

/// Byte `c` of pixel `(x, y)` after the first `n` rows of a rescale whose
/// reads and writes all fit: the source byte it picks inside the rescaled
/// area, the old byte outside it.
proof fn lemma_scale_rows_at(dst: Seq<u8>, src: Seq<u8>, g: ScaleGeometry, n: nat, x: int, y: int, c: int)
    requires
        scaled_size(g).0 >= 0,
        (g.copy.dst_x + scaled_size(g).0) * 4 <= g.copy.dst_stride,
        0 <= x,
        x * 4 + 4 <= g.copy.dst_stride,
        0 <= c < 4,
        0 <= px_off(g.copy.dst_stride as int, x, y, c) < dst.len(),
        forall|yr: int, i: int|
            0 <= yr < n && 0 <= i < scaled_size(g).0 ==> 0 <= #[trigger] scale_src_offset(g, i, yr)
                && scale_src_offset(g, i, yr) + 4 <= src.len() && scale_dst_offset(g, i, yr) + 4 <= dst.len(),
    ensures
        scale_rows(dst, src, g, n)[px_off(g.copy.dst_stride as int, x, y, c)] == (if g.copy.dst_y <= y
            < g.copy.dst_y + n && g.copy.dst_x <= x < g.copy.dst_x + scaled_size(g).0 {
            src[scale_src_offset(g, x - g.copy.dst_x, y - g.copy.dst_y) + c]
        } else {
            dst[px_off(g.copy.dst_stride as int, x, y, c)]
        }),
    decreases n,
{
    if n > 0 {
        let m = (n - 1) as nat;
        lemma_scale_rows_at(dst, src, g, m, x, y, c);
        lemma_scale_rows_keeps_len(dst, src, g, m);
        let prev = scale_rows(dst, src, g, m);
        lemma_scale_row_at(prev, src, g, m as int, scaled_size(g).0 as nat, x, y, c);
    }
}

/// Tile `t` is where its placement says: its overlap is a part (with
/// non-negative size) of both the selection and its output, and its
/// rendering holds the output's physical pixels, row by row.
pub open spec fn tile_in_place(t: RenderedTile, sel: Rect) -> bool {
    let o = t.tile.overlap;
    let s = t.tile.scale as int;
    let lx = o.x - t.tile.output_pos.0;
    let ly = o.y - t.tile.output_pos.1;
    &&& o.w >= 0 && o.h >= 0
    &&& sel.x <= o.x && o.x + o.w <= sel.x + sel.w
    &&& sel.y <= o.y && o.y + o.h <= sel.y + sel.h
    &&& 0 <= lx && 0 <= ly
    &&& (lx + o.w) * s <= t.tile.phys_size.0
    &&& (ly + o.h) * s <= t.tile.phys_size.1
    &&& t.pixels@.len() == t.tile.phys_size.0 * t.tile.phys_size.1 * 4
}

/// Every tile is in place (see [`tile_in_place`]) for a selection of
/// non-negative size.
pub open spec fn tiles_in_place(tiles: Seq<RenderedTile>, sel: Rect) -> bool {
    &&& sel.w >= 0 && sel.h >= 0
    &&& forall|k: int| 0 <= k < tiles.len() ==> #[trigger] tile_in_place(tiles[k], sel)
}

/// The overlap of tile `t` holds the global logical point `(px, py)`.
pub open spec fn tile_covers(t: OutputTile, px: int, py: int) -> bool {
    t.overlap.x <= px < t.overlap.x + t.overlap.w && t.overlap.y <= py < t.overlap.y + t.overlap.h
}

/// Byte `c` of physical pixel `(x, y)` of a tile's rendering.
pub open spec fn tile_byte(t: RenderedTile, x: int, y: int, c: int) -> u8 {
    t.pixels@[px_off(t.tile.phys_size.0 * 4, x, y, c)]
}

/// The largest scale bounds every tile's scale, fits `u32`, and is
/// positive when every scale is.
proof fn lemma_max_scale_bounds(ts: Seq<OutputTile>)
    ensures
        forall|k: int| 0 <= k < ts.len() ==> #[trigger] ts[k].scale <= max_scale(ts),
        max_scale(ts) <= u32::MAX,
        (forall|k: int| 0 <= k < ts.len() ==> #[trigger] ts[k].scale > 0) ==> max_scale(ts) > 0,
    decreases ts.len(),
{
    if ts.len() > 1 {
        let d = ts.drop_last();
        lemma_max_scale_bounds(d);
        assert forall|k: int| 0 <= k < ts.len() implies #[trigger] ts[k].scale <= max_scale(ts) by {
            if k < d.len() {
                assert(d[k] == ts[k]);
            }
        }
        if forall|k: int| 0 <= k < ts.len() ==> #[trigger] ts[k].scale > 0 {
            assert forall|k: int| 0 <= k < d.len() implies #[trigger] d[k].scale > 0 by {
                assert(d[k] == ts[k]);
            }
        }
    }
}

/// The copy placing a tile that is in place, in plain integers.
proof fn lemma_tile_geometry_values(t: RenderedTile, sel: Rect, ms: int)
    requires
        tile_ok(t.tile, sel, ms),
        tile_in_place(t, sel),
        ms > 0,
        composed_size(sel, ms).0 * 4 <= u32::MAX,
        sel.w >= 0,
    ensures
        ({
            let g = tile_geometry(t.tile, sel, ms);
            let o = t.tile.overlap;
            let s = t.tile.scale as int;
            &&& g.src_stride == t.tile.phys_size.0 * 4
            &&& g.src_x == (o.x - t.tile.output_pos.0) * s
            &&& g.src_y == (o.y - t.tile.output_pos.1) * s
            &&& g.src_w == o.w * s
            &&& g.src_h == o.h * s
            &&& g.dst_stride == sel.w * ms * 4
            &&& g.dst_x == (o.x - sel.x) * ms
            &&& g.dst_y == (o.y - sel.y) * ms
        }),
{
}

/// A `w`-pixel run starting at pixel `(x0, y0 + r)` lies within a buffer of
/// `h` rows of `p` pixels when it fits the row and the row is in the buffer.
proof fn lemma_block_row_fits(p: int, h: int, x0: int, y0: int, w: int, r: int)
    requires
        0 <= x0,
        0 <= y0,
        0 <= w,
        x0 + w <= p,
        0 <= r,
        y0 + r < h,
    ensures
        0 <= (y0 + r) * (p * 4) + x0 * 4,
        (y0 + r) * (p * 4) + x0 * 4 + w * 4 <= p * h * 4,
{
    assert(0 <= (y0 + r) * (p * 4)) by (nonlinear_arith)
        requires
            0 <= y0 + r,
            0 <= p,
    ;
    assert((y0 + r) * (p * 4) + p * 4 <= h * (p * 4)) by (nonlinear_arith)
        requires
            y0 + r + 1 <= h,
            0 <= p,
    ;
    assert(h * (p * 4) == p * h * 4) by (nonlinear_arith);
}

/// `l * ms + i` (with `0 <= i < ms`) falls in `[a * ms, (a + w) * ms)` only
/// when `l` is in `[a, a + w)`.
proof fn lemma_block_in(l: int, a: int, w: int, ms: int, i: int)
    requires
        ms > 0,
        0 <= i < ms,
    ensures
        a * ms <= l * ms + i < a * ms + w * ms ==> a <= l < a + w,
{
    if l < a {
        assert(l * ms + ms <= a * ms) by (nonlinear_arith)
            requires
                l + 1 <= a,
                ms > 0,
        ;
    }
    if l >= a + w {
        assert(l * ms >= a * ms + w * ms) by (nonlinear_arith)
            requires
                l >= a + w,
                ms > 0,
        ;
    }
}

/// Byte `c` of image pixel `(x, y)` after tile `t` is applied: inside the
/// tile's block of the image it is a byte of the tile's pixel shown there,
/// the same physical pixel when the tile has the image's scale and else the
/// top-left physical pixel of the same logical pixel; elsewhere the byte is
/// unchanged.
proof fn lemma_apply_tile_at(prev: Seq<u8>, t: RenderedTile, sel: Rect, ms: int, x: int, y: int, c: int)
    requires
        tile_ok(t.tile, sel, ms),
        tile_in_place(t, sel),
        sel.w >= 0 && sel.h >= 0,
        0 < t.tile.scale <= ms <= u32::MAX,
        composed_size(sel, ms).0 * 4 <= u32::MAX,
        prev.len() == (sel.w * ms) * (sel.h * ms) * 4,
        0 <= x < sel.w * ms,
        0 <= y < sel.h * ms,
        0 <= c < 4,
    ensures
        ({
            let o = t.tile.overlap;
            let s = t.tile.scale as int;
            let dx = (o.x - sel.x) * ms;
            let dy = (o.y - sel.y) * ms;
            let lx = o.x - t.tile.output_pos.0;
            let ly = o.y - t.tile.output_pos.1;
            let q = px_off(sel.w * ms * 4, x, y, c);
            &&& 0 <= q < prev.len()
            &&& apply_tile(prev, t, sel, ms)[q] == if dx <= x < dx + o.w * ms && dy <= y < dy + o.h * ms {
                if s == ms {
                    tile_byte(t, lx * s + (x - dx), ly * s + (y - dy), c)
                } else {
                    tile_byte(t, lx * s + ((x - dx) / ms) * s, ly * s + ((y - dy) / ms) * s, c)
                }
            } else {
                prev[q]
            }
        }),
{
    let o = t.tile.overlap;
    let s = t.tile.scale as int;
    let lx = o.x - t.tile.output_pos.0;
    let ly = o.y - t.tile.output_pos.1;
    let pw = t.tile.phys_size.0 as int;
    let ph = t.tile.phys_size.1 as int;
    let fw = sel.w * ms;
    let fh = sel.h * ms;
    let g = tile_geometry(t.tile, sel, ms);
    lemma_tile_geometry_values(t, sel, ms);
    let dx = (o.x - sel.x) * ms;
    let dy = (o.y - sel.y) * ms;
    assert(0 <= dx && dx + o.w * ms <= fw) by (nonlinear_arith)
        requires
            0 <= o.x - sel.x,
            o.x - sel.x + o.w <= sel.w,
            ms > 0,
            dx == (o.x - sel.x) * ms,
            fw == sel.w * ms,
    ;
    assert(0 <= dy && dy + o.h * ms <= fh) by (nonlinear_arith)
        requires
            0 <= o.y - sel.y,
            o.y - sel.y + o.h <= sel.h,
            ms > 0,
            dy == (o.y - sel.y) * ms,
            fh == sel.h * ms,
    ;
    assert(0 <= o.w * ms && 0 <= o.h * ms) by (nonlinear_arith)
        requires
            o.w >= 0,
            o.h >= 0,
            ms > 0,
    ;
    lemma_block_row_fits(fw, fh, x, y, 1, 0);
    assert(fw * 4 * 1 == fw * 4);
    if s == ms {
        assert(lx * s + o.w * s <= pw && ly * s + o.h * s <= ph && 0 <= lx * s && 0 <= ly * s) by (nonlinear_arith)
            requires
                (lx + o.w) * s <= pw,
                (ly + o.h) * s <= ph,
                lx >= 0,
                ly >= 0,
                s > 0,
        ;
        assert forall|r: int| 0 <= r < g.src_h implies #[trigger] copy_src_off(g, r) + g.src_w * 4
            <= t.pixels@.len() && copy_dst_off(g, r) + g.src_w * 4 <= prev.len() by {
            lemma_block_row_fits(pw, ph, lx * s, ly * s, o.w * s, r);
            lemma_block_row_fits(fw, fh, dx, dy, o.w * ms, r);
        }
        lemma_copy_rows_at(prev, t.pixels@, g, g.src_h as nat, x, y, c);
    } else {
        let sg = ScaleGeometry { copy: g, src_scale: t.tile.scale, dst_scale: ms as u32 };
        lemma_fundamental_div_mod_converse(o.w * s, s, o.w as int, 0);
        lemma_fundamental_div_mod_converse(o.h * s, s, o.h as int, 0);
        assert(scaled_size(sg) == (o.w * ms, o.h * ms));
        assert forall|yr: int, i: int| 0 <= yr < o.h * ms && 0 <= i < o.w * ms implies 0
            <= #[trigger] scale_src_offset(sg, i, yr) && scale_src_offset(sg, i, yr) + 4 <= t.pixels@.len()
            && scale_dst_offset(sg, i, yr) + 4 <= prev.len() by {
            let qi = i / ms;
            let qy = yr / ms;
            assert(0 <= qi < o.w) by (nonlinear_arith)
                requires
                    0 <= i < o.w * ms,
                    ms > 0,
                    qi == i / ms,
            ;
            assert(0 <= qy < o.h) by (nonlinear_arith)
                requires
                    0 <= yr < o.h * ms,
                    ms > 0,
                    qy == yr / ms,
            ;
            assert(0 <= lx * s + qi * s && lx * s + qi * s + 1 <= pw) by (nonlinear_arith)
                requires
                    (lx + o.w) * s <= pw,
                    0 <= qi < o.w,
                    lx >= 0,
                    s >= 1,
            ;
            assert(0 <= ly * s + qy * s && ly * s + qy * s < ph) by (nonlinear_arith)
                requires
                    (ly + o.h) * s <= ph,
                    0 <= qy < o.h,
                    ly >= 0,
                    s >= 1,
            ;
            lemma_block_row_fits(pw, ph, lx * s + qi * s, ly * s + qy * s, 1, 0);
            lemma_block_row_fits(fw, fh, dx + i, dy, 1, yr);
        }
        lemma_scale_rows_at(prev, t.pixels@, sg, (o.h * ms) as nat, x, y, c);
    }
}

/// Image column of sub-pixel `i` of logical column `x` of tile `t`'s
/// overlap, in an image of the selection at scale `ms`.
pub open spec fn composed_col(t: OutputTile, sel: Rect, ms: int, x: int, i: int) -> int {
    (t.overlap.x - sel.x + x) * ms + i
}

/// Image row of sub-pixel `j` of logical row `y` of tile `t`'s overlap.
pub open spec fn composed_row(t: OutputTile, sel: Rect, ms: int, y: int, j: int) -> int {
    (t.overlap.y - sel.y + y) * ms + j
}

/// Physical column of tile `t`'s rendering shown at sub-pixel `i` of logical
/// column `x` of its overlap: that sub-pixel itself when the tile has the
/// image's scale `ms`, else the logical pixel's first physical column.
pub open spec fn source_col(t: OutputTile, ms: int, x: int, i: int) -> int {
    (t.overlap.x - t.output_pos.0 + x) * t.scale + (if t.scale == ms { i } else { 0 })
}

/// Physical row of tile `t`'s rendering shown at sub-pixel `j` of logical
/// row `y` of its overlap (see [`source_col`]).
pub open spec fn source_row(t: OutputTile, ms: int, y: int, j: int) -> int {
    (t.overlap.y - t.output_pos.1 + y) * t.scale + (if t.scale == ms { j } else { 0 })
}

/// Channel of a BGRA pixel that becomes channel `c` of the RGBA pixel.
pub open spec fn bgra_channel(c: int) -> int {
    if c == 0 {
        2
    } else if c == 2 {
        0
    } else {
        c
    }
}

/// `(x, y)` and `(i, j)` name a logical pixel of tile `k`'s overlap and a
/// sub-pixel of it at scale `ms`, and no tile after `k` (before `n`) covers
/// that logical pixel.
pub open spec fn shown_spot(tiles: Seq<RenderedTile>, n: int, k: int, ms: int, x: int, y: int, i: int, j: int) -> bool {
    &&& 0 <= k < n <= tiles.len()
    &&& 0 <= x < tiles[k].tile.overlap.w
    &&& 0 <= y < tiles[k].tile.overlap.h
    &&& 0 <= i < ms
    &&& 0 <= j < ms
    &&& forall|m: int|
        k < m < n ==> !#[trigger] tile_covers(
            tiles[m].tile,
            tiles[k].tile.overlap.x + x,
            tiles[k].tile.overlap.y + y,
        )
}

/// The first `n` tiles applied: each spot of a tile that no later one covers
/// holds that tile's pixel (before the channel swap).
proof fn lemma_apply_tiles_at(
    dst: Seq<u8>,
    tiles: Seq<RenderedTile>,
    sel: Rect,
    n: nat,
    k: int,
    x: int,
    y: int,
    i: int,
    j: int,
    c: int,
)
    requires
        compose_ok(tiles, sel),
        tiles_in_place(tiles, sel),
        shown_spot(tiles, n as int, k, max_scale(tiles_of(tiles)), x, y, i, j),
        dst.len() == (sel.w * max_scale(tiles_of(tiles))) * (sel.h * max_scale(tiles_of(tiles))) * 4,
        0 <= c < 4,
    ensures
        ({
            let ms = max_scale(tiles_of(tiles));
            let t = tiles[k].tile;
            apply_tiles(dst, tiles, sel, ms, n)[px_off(
                sel.w * ms * 4,
                composed_col(t, sel, ms, x, i),
                composed_row(t, sel, ms, y, j),
                c,
            )] == tile_byte(tiles[k], source_col(t, ms, x, i), source_row(t, ms, y, j), c)
        }),
    decreases n,
{
    let ms = max_scale(tiles_of(tiles));
    let ts = tiles_of(tiles);
    lemma_max_scale_bounds(ts);
    assert forall|m: int| 0 <= m < ts.len() implies #[trigger] ts[m].scale > 0 by {
        assert(tile_ok(tiles[m].tile, sel, ms));
        assert(ts[m] == tiles[m].tile);
    }
    let m = (n - 1) as int;
    let t = tiles[m];
    assert(ts[m] == t.tile);
    assert(ts[k] == tiles[k].tile);
    assert(tile_ok(t.tile, sel, ms));
    assert(tile_in_place(t, sel));
    let tk = tiles[k].tile;
    assert(tile_in_place(tiles[k], sel));
    let ax = tk.overlap.x - sel.x + x;
    let ay = tk.overlap.y - sel.y + y;
    let cx = composed_col(tk, sel, ms, x, i);
    let cy = composed_row(tk, sel, ms, y, j);
    assert(0 <= cx < sel.w * ms) by (nonlinear_arith)
        requires
            0 <= ax,
            ax + 1 <= sel.w,
            0 <= i < ms,
            cx == ax * ms + i,
    ;
    assert(0 <= cy < sel.h * ms) by (nonlinear_arith)
        requires
            0 <= ay,
            ay + 1 <= sel.h,
            0 <= j < ms,
            cy == ay * ms + j,
    ;
    let prev = apply_tiles(dst, tiles, sel, ms, m as nat);
    lemma_copy_rows_len(dst, tiles, sel, ms, m as nat);
    lemma_apply_tile_at(prev, t, sel, ms, cx, cy, c);
    if m == k {
        let s = tk.scale as int;
        let lx = tk.overlap.x - tk.output_pos.0;
        let ly = tk.overlap.y - tk.output_pos.1;
        let dx = (tk.overlap.x - sel.x) * ms;
        let dy = (tk.overlap.y - sel.y) * ms;
        assert(cx - dx == x * ms + i && 0 <= x * ms + i < tk.overlap.w * ms) by (nonlinear_arith)
            requires
                cx == (tk.overlap.x - sel.x + x) * ms + i,
                dx == (tk.overlap.x - sel.x) * ms,
                0 <= x,
                x + 1 <= tk.overlap.w,
                0 <= i < ms,
        ;
        assert(cy - dy == y * ms + j && 0 <= y * ms + j < tk.overlap.h * ms) by (nonlinear_arith)
            requires
                cy == (tk.overlap.y - sel.y + y) * ms + j,
                dy == (tk.overlap.y - sel.y) * ms,
                0 <= y,
                y + 1 <= tk.overlap.h,
                0 <= j < ms,
        ;
        assert(lx * s + x * s == (lx + x) * s && ly * s + y * s == (ly + y) * s) by (nonlinear_arith);
        if s != ms {
            lemma_fundamental_div_mod_converse(x * ms + i, ms, x, i);
            lemma_fundamental_div_mod_converse(y * ms + j, ms, y, j);
        }
    } else {
        lemma_apply_tiles_at(dst, tiles, sel, m as nat, k, x, y, i, j, c);
        let tm = t.tile;
        assert(!tile_covers(tm, tk.overlap.x + x, tk.overlap.y + y));
        lemma_block_in(ax, tm.overlap.x - sel.x, tm.overlap.w as int, ms, i);
        lemma_block_in(ay, tm.overlap.y - sel.y, tm.overlap.h as int, ms, j);
        assert((tm.overlap.x - sel.x) * ms + tm.overlap.w * ms == (tm.overlap.x - sel.x) * ms + tm.overlap.w * ms);
    }
}

/// A zero-filled buffer of `n` bytes.
pub open spec fn zeroed(n: nat) -> Seq<u8> {
    Seq::new(n, |q: int| 0u8)
}

/// The composed image shows every tile's pixels where they lie in the
/// selection. With `ms` the largest scale, sub-pixel `(i, j)` of logical
/// pixel `(x, y)` of a tile's overlap is image pixel
/// `((overlap.x - sel.x + x) * ms + i, (overlap.y - sel.y + y) * ms + j)`,
/// and it holds, converted from BGRA to RGBA, the tile's physical pixel for
/// that spot: the same sub-pixel when the tile has scale `ms`, else the
/// top-left physical pixel of that logical pixel. Only a later tile whose
/// overlap holds the same logical pixel is drawn over it.
pub proof fn lemma_composite_places_tiles(
    tiles: Seq<RenderedTile>,
    sel: Rect,
    k: int,
    x: int,
    y: int,
    i: int,
    j: int,
    c: int,
)
    requires
        compose_ok(tiles, sel),
        tiles_in_place(tiles, sel),
        shown_spot(tiles, tiles.len() as int, k, max_scale(tiles_of(tiles)), x, y, i, j),
        0 <= c < 4,
    ensures
        ({
            let ms = max_scale(tiles_of(tiles));
            let (fw, fh) = composed_size(sel, ms);
            let img = swap_rb(apply_tiles(zeroed((fw * fh * 4) as nat), tiles, sel, ms, tiles.len()));
            let t = tiles[k].tile;
            img[px_off(fw * 4, composed_col(t, sel, ms, x, i), composed_row(t, sel, ms, y, j), c)] == tile_byte(
                tiles[k],
                source_col(t, ms, x, i),
                source_row(t, ms, y, j),
                bgra_channel(c),
            )
        }),
{
    let ms = max_scale(tiles_of(tiles));
    let fw = sel.w * ms;
    let fh = sel.h * ms;
    let z = zeroed((fw * fh * 4) as nat);
    assert(0 <= fw * fh) by (nonlinear_arith)
        requires
            0 <= fw,
            0 <= fh,
    ;
    let a = apply_tiles(z, tiles, sel, ms, tiles.len());
    lemma_copy_rows_len(z, tiles, sel, ms, tiles.len());
    let t = tiles[k].tile;
    assert(tile_in_place(tiles[k], sel));
    let ax = t.overlap.x - sel.x + x;
    let ay = t.overlap.y - sel.y + y;
    let cx = composed_col(t, sel, ms, x, i);
    let cy = composed_row(t, sel, ms, y, j);
    assert(0 <= cx < fw) by (nonlinear_arith)
        requires
            0 <= ax,
            ax + 1 <= sel.w,
            0 <= i < ms,
            cx == ax * ms + i,
            fw == sel.w * ms,
    ;
    assert(0 <= cy < fh) by (nonlinear_arith)
        requires
            0 <= ay,
            ay + 1 <= sel.h,
            0 <= j < ms,
            cy == ay * ms + j,
            fh == sel.h * ms,
    ;
    lemma_block_row_fits(fw, fh, cx, cy, 1, 0);
    let q = px_off(fw * 4, cx, cy, c);
    assert(q == (cy * fw + cx) * 4 + c) by (nonlinear_arith)
        requires
            q == cy * (fw * 4) + cx * 4 + c,
    ;
    lemma_fundamental_div_mod_converse(q, 4, cy * fw + cx, c);
    lemma_apply_tiles_at(z, tiles, sel, tiles.len(), k, x, y, i, j, bgra_channel(c));
}

/// Applying tiles leaves alone each image pixel whose logical pixel none of
/// them covers.
proof fn lemma_apply_tiles_blank(dst: Seq<u8>, tiles: Seq<RenderedTile>, sel: Rect, n: nat, x: int, y: int, c: int)
    requires
        compose_ok(tiles, sel),
        tiles_in_place(tiles, sel),
        n <= tiles.len(),
        dst.len() == (sel.w * max_scale(tiles_of(tiles))) * (sel.h * max_scale(tiles_of(tiles))) * 4,
        0 <= x < sel.w * max_scale(tiles_of(tiles)),
        0 <= y < sel.h * max_scale(tiles_of(tiles)),
        0 <= c < 4,
        forall|m: int|
            0 <= m < n ==> !#[trigger] tile_covers(
                tiles[m].tile,
                sel.x + x / max_scale(tiles_of(tiles)),
                sel.y + y / max_scale(tiles_of(tiles)),
            ),
    ensures
        apply_tiles(dst, tiles, sel, max_scale(tiles_of(tiles)), n)[px_off(
            sel.w * max_scale(tiles_of(tiles)) * 4,
            x,
            y,
            c,
        )] == dst[px_off(sel.w * max_scale(tiles_of(tiles)) * 4, x, y, c)],
    decreases n,
{
    if n > 0 {
        let ms = max_scale(tiles_of(tiles));
        let ts = tiles_of(tiles);
        lemma_max_scale_bounds(ts);
        assert forall|m: int| 0 <= m < ts.len() implies #[trigger] ts[m].scale > 0 by {
            assert(tile_ok(tiles[m].tile, sel, ms));
            assert(ts[m] == tiles[m].tile);
        }
        let m = (n - 1) as int;
        let t = tiles[m];
        assert(ts[m] == t.tile);
        assert(tile_ok(t.tile, sel, ms));
        assert(tile_in_place(t, sel));
        lemma_apply_tiles_blank(dst, tiles, sel, m as nat, x, y, c);
        let prev = apply_tiles(dst, tiles, sel, ms, m as nat);
        lemma_copy_rows_len(dst, tiles, sel, ms, m as nat);
        lemma_apply_tile_at(prev, t, sel, ms, x, y, c);
        assert(!tile_covers(t.tile, sel.x + x / ms, sel.y + y / ms));
        lemma_fundamental_div_mod(x, ms);
        lemma_fundamental_div_mod(y, ms);
        assert(x == (x / ms) * ms + x % ms && y == (y / ms) * ms + y % ms) by (nonlinear_arith)
            requires
                x == ms * (x / ms) + (x % ms),
                y == ms * (y / ms) + (y % ms),
        ;
        lemma_block_in(x / ms, t.tile.overlap.x - sel.x, t.tile.overlap.w as int, ms, x % ms);
        lemma_block_in(y / ms, t.tile.overlap.y - sel.y, t.tile.overlap.h as int, ms, y % ms);
    }
}

/// Image pixels whose logical pixel of the selection no tile covers are
/// left all zero (transparent black).
pub proof fn lemma_composite_blank_outside_tiles(tiles: Seq<RenderedTile>, sel: Rect, x: int, y: int, c: int)
    requires
        compose_ok(tiles, sel),
        tiles_in_place(tiles, sel),
        0 <= x < composed_size(sel, max_scale(tiles_of(tiles))).0,
        0 <= y < composed_size(sel, max_scale(tiles_of(tiles))).1,
        0 <= c < 4,
        forall|m: int|
            0 <= m < tiles.len() ==> !#[trigger] tile_covers(
                tiles[m].tile,
                sel.x + x / max_scale(tiles_of(tiles)),
                sel.y + y / max_scale(tiles_of(tiles)),
            ),
    ensures
        ({
            let ms = max_scale(tiles_of(tiles));
            let (fw, fh) = composed_size(sel, ms);
            let img = swap_rb(apply_tiles(zeroed((fw * fh * 4) as nat), tiles, sel, ms, tiles.len()));
            img[px_off(fw * 4, x, y, c)] == 0
        }),
{
    let ms = max_scale(tiles_of(tiles));
    let fw = sel.w * ms;
    let fh = sel.h * ms;
    let z = zeroed((fw * fh * 4) as nat);
    assert(0 <= fw * fh) by (nonlinear_arith)
        requires
            0 <= fw,
            0 <= fh,
    ;
    lemma_copy_rows_len(z, tiles, sel, ms, tiles.len());
    lemma_block_row_fits(fw, fh, x, y, 1, 0);
    let q = px_off(fw * 4, x, y, c);
    assert(q == (y * fw + x) * 4 + c) by (nonlinear_arith)
        requires
            q == y * (fw * 4) + x * 4 + c,
    ;
    lemma_fundamental_div_mod_converse(q, 4, y * fw + x, c);
    lemma_apply_tiles_blank(z, tiles, sel, tiles.len(), x, y, bgra_channel(c));
}

} // verus!
