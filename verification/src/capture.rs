use vstd::prelude::*;

use crate::geom::as_u32_int;
use crate::kwin::screenshot::CaptureMetadata;

verus! {

/// A captured screen: raw BGRA data + metadata.
#[derive(Debug)]
pub struct CapturedScreen {
    pub name: String,
    pub bgra: Vec<u8>,
    pub width: u32,
    pub height: u32,
    pub stride: u32,
}

/// Output geometry needed for cropping a workspace capture to per-output screens.
#[derive(Debug)]
pub struct OutputCaptureInfo {
    pub name: String,
    pub logical_x: i32,
    pub logical_y: i32,
    pub logical_w: i32,
    pub logical_h: i32,
    pub scale_factor: i32,
}

/// A tightly packed RGBA image: `4 * width` bytes per row, rows top to bottom.
#[derive(Debug)]
pub struct RgbaBuffer {
    pub width: u32,
    pub height: u32,
    pub data: Vec<u8>,
}

/// Why an output's region could not be cut from a workspace capture.
#[derive(Debug, Clone, PartialEq, Eq)]
pub enum CropError {
    /// The output's physical region `(x, y) + w x h` does not lie within the
    /// workspace image of the given size.
    ExceedsWorkspace { name: String, x: u64, y: u64, w: u64, h: u64, workspace_w: u32, workspace_h: u32 },
    /// The workspace data ends before the given row of the region.
    Truncated { row: u64 },
}

/// Why BGRA data could not be converted to RGBA.
#[derive(Debug, Clone, Copy, PartialEq, Eq, Structural)]
pub enum ConvertError {
    /// The stride is shorter than a row of pixels.
    StrideTooSmall { stride: u32, width: u32 },
    /// The data ends before the given row is complete.
    Truncated { row: u32 },
}

/// The `n` rows of `row_len` bytes each, where row `r` starts in `src` at
/// `(first_row + r) * stride + x_bytes`, laid end to end.
pub open spec fn gather_rows(src: Seq<u8>, first_row: int, stride: int, x_bytes: int, row_len: int, n: nat) -> Seq<u8>
    decreases n,
{
    if n == 0 {
        Seq::empty()
    } else {
        let off = (first_row + n - 1) * stride + x_bytes;
        gather_rows(src, first_row, stride, x_bytes, row_len, (n - 1) as nat) + src.subrange(off, off + row_len)
    }
}

/// Every 4-byte pixel with its first and third byte exchanged (BGRA <-> RGBA).
pub open spec fn swap_rb(s: Seq<u8>) -> Seq<u8> {
    Seq::new(
        s.len(),
        |i: int|
            if i % 4 == 0 {
                s[i + 2]
            } else if i % 4 == 2 {
                s[i - 2]
            } else {
                s[i]
            },
    )
}

/// The first `n` rows of a BGRA image with the given stride, each cut to
/// `row_len` bytes and converted to RGBA.
pub open spec fn rgba_rows(src: Seq<u8>, stride: int, row_len: int, n: nat) -> Seq<u8>
    decreases n,
{
    if n == 0 {
        Seq::empty()
    } else {
        let off = (n - 1) * stride;
        rgba_rows(src, stride, row_len, (n - 1) as nat) + swap_rb(src.subrange(off, off + row_len))
    }
}

/// Output scale used for cropping; factors below one count as one.
pub open spec fn crop_scale(o: &OutputCaptureInfo) -> int {
    if o.scale_factor >= 1 {
        o.scale_factor as int
    } else {
        1
    }
}

/// The output's region in physical workspace pixels: each logical
/// coordinate read as `u32` and multiplied by the scale.
pub open spec fn crop_region(o: &OutputCaptureInfo) -> (int, int, int, int) {
    let s = crop_scale(o);
    (as_u32_int(o.logical_x) * s, as_u32_int(o.logical_y) * s, as_u32_int(o.logical_w) * s, as_u32_int(o.logical_h) * s)
}

/// Byte offset in the workspace of row `r` of the region.
pub open spec fn crop_row_offset(o: &OutputCaptureInfo, meta: &CaptureMetadata, r: int) -> int {
    let (px, py, pw, ph) = crop_region(o);
    (py + r) * meta.stride + px * 4
}

/// The region lies within the workspace image.
pub open spec fn crop_in_workspace(o: &OutputCaptureInfo, meta: &CaptureMetadata) -> bool {
    let (px, py, pw, ph) = crop_region(o);
    px + pw <= meta.width && py + ph <= meta.height
}

/// Row `r` of the region is complete in data of length `len`.
pub open spec fn crop_row_present(o: &OutputCaptureInfo, meta: &CaptureMetadata, len: int, r: int) -> bool {
    crop_row_offset(o, meta, r) + 4 * crop_region(o).2 <= len
}

/// Products of bounded non-negative factors are bounded by the product of the bounds.
pub proof fn lemma_mul_bounded(a: int, b: int, am: int, bm: int)
    by (nonlinear_arith)
    requires
        0 <= a <= am,
        0 <= b <= bm,
    ensures
        0 <= a * b <= am * bm,
{
}

/// `v` reinterpreted as an unsigned 32-bit value.
pub fn reinterpret_u32(v: i32) -> (r: u32)
    ensures
        r == as_u32_int(v),
{
    if v >= 0 {
        v as u32
    } else {
        (v as i64 + 0x1_0000_0000) as u32
    }
}

/// The next capture to make while capturing the outputs.
#[derive(Debug, Clone, Copy, PartialEq, Eq, Structural)]
pub enum CaptureStep {
    /// Capture output `i` on its own.
    Screen(usize),
    /// Capture the whole workspace once and cut it per output.
    Workspace,
    /// Every output has its capture.
    Done,
}

/// The first capture: per output, unless the workspace is asked for or
/// there are no outputs to name.
pub fn first_capture_step(force_workspace: bool, n_outputs: usize) -> (step: CaptureStep)
    ensures
        step == (if force_workspace || n_outputs == 0 {
            CaptureStep::Workspace
        } else {
            CaptureStep::Screen(0)
        }),
{
    if force_workspace || n_outputs == 0 {
        CaptureStep::Workspace
    } else {
        CaptureStep::Screen(0)
    }
}

/// The capture after that of output `i`: any failure falls back to the
/// workspace; otherwise the next output, until all are done.
pub fn next_capture_step(i: usize, captured_ok: bool, n_outputs: usize) -> (step: CaptureStep)
    requires
        i < n_outputs,
    ensures
        !captured_ok ==> step == CaptureStep::Workspace,
        captured_ok && i + 1 < n_outputs ==> step == CaptureStep::Screen((i + 1) as usize),
        captured_ok && i + 1 == n_outputs ==> step == CaptureStep::Done,
{
    if !captured_ok {
        CaptureStep::Workspace
    } else if i + 1 < n_outputs {
        CaptureStep::Screen(i + 1)
    } else {
        CaptureStep::Done
    }
}

/// The whole workspace as one screen named "workspace" (used when no
/// output is known to cut it for).
pub fn whole_workspace(bgra: Vec<u8>, meta: &CaptureMetadata) -> (c: CapturedScreen)
    ensures
        c.name@ == "workspace"@,
        c.bgra@ == bgra@,
        c.width == meta.width,
        c.height == meta.height,
        c.stride == meta.stride,
{
    CapturedScreen {
        name: String::from_str("workspace"),
        bgra,
        width: meta.width,
        height: meta.height,
        stride: meta.stride,
    }
}

/// Whether cutting the output's region can describe its rows in `u32`
/// (what [`crop_workspace_to_output`] needs).
pub fn crop_fits(workspace_meta: &CaptureMetadata, output: &OutputCaptureInfo) -> (b: bool)
    ensures
        b == (crop_in_workspace(output, workspace_meta) ==> 4 * crop_region(output).2 <= u32::MAX),
{
    let scale: u64 = if output.scale_factor >= 1 { output.scale_factor as u64 } else { 1 };
    let lx = reinterpret_u32(output.logical_x) as u64;
    let ly = reinterpret_u32(output.logical_y) as u64;
    let lw = reinterpret_u32(output.logical_w) as u64;
    let lh = reinterpret_u32(output.logical_h) as u64;
    proof {
        lemma_mul_bounded(lx as int, scale as int, u32::MAX as int, i32::MAX as int);
        lemma_mul_bounded(ly as int, scale as int, u32::MAX as int, i32::MAX as int);
        lemma_mul_bounded(lw as int, scale as int, u32::MAX as int, i32::MAX as int);
        lemma_mul_bounded(lh as int, scale as int, u32::MAX as int, i32::MAX as int);
    }
    let px: u64 = lx * scale;
    let py: u64 = ly * scale;
    let pw: u64 = lw * scale;
    let ph: u64 = lh * scale;
    let inside = px + pw <= workspace_meta.width as u64 && py + ph <= workspace_meta.height as u64;
    !inside || pw <= (u32::MAX / 4) as u64
}

/// Cut an output's region out of a workspace capture.
pub fn crop_workspace_to_output(
    workspace_bgra: &[u8],
    workspace_meta: &CaptureMetadata,
    output: &OutputCaptureInfo,
) -> (r: Result<CapturedScreen, CropError>)
    requires
        crop_in_workspace(output, workspace_meta) ==> 4 * crop_region(output).2 <= u32::MAX,
    ensures
        !crop_in_workspace(output, workspace_meta) ==> r == Err::<CapturedScreen, CropError>(
            CropError::ExceedsWorkspace {
                name: output.name,
                x: crop_region(output).0 as u64,
                y: crop_region(output).1 as u64,
                w: crop_region(output).2 as u64,
                h: crop_region(output).3 as u64,
                workspace_w: workspace_meta.width,
                workspace_h: workspace_meta.height,
            },
        ),
        crop_in_workspace(output, workspace_meta) ==> (r is Ok <==> forall|row: int|
            0 <= row < crop_region(output).3 ==> crop_row_present(
                output,
                workspace_meta,
                workspace_bgra@.len() as int,
                row,
            )),
        r matches Err(CropError::Truncated { row }) ==> {
            let first = row - crop_region(output).1;
            &&& 0 <= first < crop_region(output).3
            &&& !crop_row_present(output, workspace_meta, workspace_bgra@.len() as int, first)
            &&& forall|k: int|
                0 <= k < first ==> crop_row_present(
                    output,
                    workspace_meta,
                    workspace_bgra@.len() as int,
                    k,
                )
        },
        r matches Ok(c) ==> {
            let (px, py, pw, ph) = crop_region(output);
            &&& c.name@ == output.name@
            &&& c.width == pw && c.height == ph && c.stride == 4 * pw
            &&& c.bgra@ == gather_rows(
                workspace_bgra@,
                py,
                workspace_meta.stride as int,
                px * 4,
                4 * pw,
                ph as nat,
            )
        },
{
    let scale: u64 = if output.scale_factor >= 1 { output.scale_factor as u64 } else { 1 };
    let lx = reinterpret_u32(output.logical_x) as u64;
    let ly = reinterpret_u32(output.logical_y) as u64;
    let lw = reinterpret_u32(output.logical_w) as u64;
    let lh = reinterpret_u32(output.logical_h) as u64;
    proof {
        lemma_mul_bounded(lx as int, scale as int, u32::MAX as int, i32::MAX as int);
        lemma_mul_bounded(ly as int, scale as int, u32::MAX as int, i32::MAX as int);
        lemma_mul_bounded(lw as int, scale as int, u32::MAX as int, i32::MAX as int);
        lemma_mul_bounded(lh as int, scale as int, u32::MAX as int, i32::MAX as int);
    }
    let px: u64 = lx * scale;
    let py: u64 = ly * scale;
    let pw: u64 = lw * scale;
    let ph: u64 = lh * scale;

    if px + pw > workspace_meta.width as u64 || py + ph > workspace_meta.height as u64 {
        return Err(
            CropError::ExceedsWorkspace {
                name: output.name.clone(),
                x: px,
                y: py,
                w: pw,
                h: ph,
                workspace_w: workspace_meta.width,
                workspace_h: workspace_meta.height,
            },
        );
    }

    let stride = workspace_meta.stride as u128;
    let row_len: u128 = pw as u128 * 4;
    let len = workspace_bgra.len() as u128;
    let mut cropped: Vec<u8> = Vec::new();
    let mut y: u64 = 0;
    while y < ph
        invariant
            y <= ph,
            ph == crop_region(output).3,
            px == crop_region(output).0,
            py == crop_region(output).1,
            pw == crop_region(output).2,
            py + ph <= workspace_meta.height,
            px + pw <= workspace_meta.width,
            stride == workspace_meta.stride,
            row_len == 4 * pw,
            len == workspace_bgra@.len(),
            cropped@ == gather_rows(workspace_bgra@, py as int, stride as int, px * 4, row_len as int, y as nat),
            forall|k: int|
                0 <= k < y ==> crop_row_present(output, workspace_meta, workspace_bgra@.len() as int, k),
        decreases ph - y,
    {
        proof {
            lemma_mul_bounded((py + y) as int, stride as int, u32::MAX as int, u32::MAX as int);
        }
        let src_offset: u128 = (py + y) as u128 * stride + px as u128 * 4;
        let src_end: u128 = src_offset + row_len;
        proof {
            assert(src_offset == crop_row_offset(output, workspace_meta, y as int));
        }
        if src_end > len {
            proof {
                assert(!crop_row_present(output, workspace_meta, workspace_bgra@.len() as int, y as int));
            }
            return Err(CropError::Truncated { row: py + y });
        }
        let ghost before = cropped@;
        let mut k: u128 = 0;
        while k < row_len
            invariant
                k <= row_len,
                src_offset + row_len <= len,
                len == workspace_bgra@.len(),
                cropped@ == before + workspace_bgra@.subrange(src_offset as int, src_offset + k),
            decreases row_len - k,
        {
            cropped.push(workspace_bgra[(src_offset + k) as usize]);
            k = k + 1;
            proof {
                assert(cropped@ =~= before + workspace_bgra@.subrange(src_offset as int, src_offset + k));
            }
        }
        y = y + 1;
    }

    Ok(
        CapturedScreen {
            name: output.name.clone(),
            bgra: cropped,
            width: pw as u32,
            height: ph as u32,
            stride: (pw * 4) as u32,
        },
    )
}

/// Row `row` of an image with the given stride and row length ends within `len` bytes.
pub open spec fn row_fits(row: int, stride: int, row_len: int, len: int) -> bool {
    row * stride + row_len <= len
}

/// Convert BGRA raw data to tightly packed RGBA rows.
pub fn bgra_to_rgba(captured: &CapturedScreen) -> (r: Result<RgbaBuffer, ConvertError>)
    ensures
        captured.stride < 4 * captured.width ==> r == Err::<RgbaBuffer, ConvertError>(
            ConvertError::StrideTooSmall { stride: captured.stride, width: captured.width },
        ),
        captured.stride >= 4 * captured.width ==> (r is Ok <==> forall|row: int|
            0 <= row < captured.height ==> #[trigger] row_fits(
                row,
                captured.stride as int,
                4 * captured.width,
                captured.bgra@.len() as int,
            )),
        r matches Err(ConvertError::Truncated { row }) ==> {
            &&& row < captured.height
            &&& !row_fits(row as int, captured.stride as int, 4 * captured.width, captured.bgra@.len() as int)
            &&& forall|k: int|
                0 <= k < row ==> #[trigger] row_fits(
                    k,
                    captured.stride as int,
                    4 * captured.width,
                    captured.bgra@.len() as int,
                )
        },
        r matches Ok(img) ==> {
            &&& img.width == captured.width && img.height == captured.height
            &&& img.data@ == rgba_rows(
                captured.bgra@,
                captured.stride as int,
                4 * captured.width,
                captured.height as nat,
            )
        },
{
    let w = captured.width;
    let h = captured.height;
    let stride = captured.stride as u64;
    let row_bytes: u64 = w as u64 * 4;
    if stride < row_bytes {
        return Err(ConvertError::StrideTooSmall { stride: captured.stride, width: w });
    }
    let len = captured.bgra.len() as u64;
    let mut rgba: Vec<u8> = Vec::new();
    let mut y: u32 = 0;
    while y < h
        invariant
            y <= h,
            h == captured.height,
            w == captured.width,
            stride == captured.stride,
            row_bytes == 4 * w,
            stride >= row_bytes,
            len == captured.bgra@.len(),
            len <= usize::MAX,
            rgba@ == rgba_rows(captured.bgra@, stride as int, row_bytes as int, y as nat),
            forall|k: int| 0 <= k < y ==> #[trigger] row_fits(k, stride as int, row_bytes as int, len as int),
        decreases h - y,
    {
        proof {
            lemma_mul_bounded(y as int, stride as int, u32::MAX as int, u32::MAX as int);
        }
        let row_start: u64 = y as u64 * stride;
        let row_end: u64 = row_start + row_bytes;
        if row_end > len {
            proof {
                assert(!row_fits(y as int, stride as int, row_bytes as int, len as int));
            }
            return Err(ConvertError::Truncated { row: y });
        }
        let ghost before = rgba@;
        let ghost row = captured.bgra@.subrange(row_start as int, row_end as int);
        let mut px: u64 = 0;
        while px < row_bytes
            invariant
                px <= row_bytes,
                px % 4 == 0,
                row_bytes % 4 == 0,
                row_end == row_start + row_bytes,
                row_end <= len,
                len == captured.bgra@.len(),
                len <= usize::MAX,
                row == captured.bgra@.subrange(row_start as int, row_end as int),
                rgba@ == before + swap_rb(row.take(px as int)),
            decreases row_bytes - px,
        {
            proof {
                assert(px + 4 <= row_bytes) by {
                    assert(px / 4 < row_bytes / 4);
                }
            }
            assert(row_start + px + 4 <= len);
            assert(len <= usize::MAX);
            let i = (row_start + px) as usize;
            let b = captured.bgra[i];
            let g = captured.bgra[i + 1];
            let r = captured.bgra[i + 2];
            let a = captured.bgra[i + 3];
            rgba.push(r);
            rgba.push(g);
            rgba.push(b);
            rgba.push(a);
            proof {
                let t0 = row.take(px as int);
                let t1 = row.take(px + 4);
                assert(swap_rb(t1) =~= swap_rb(t0) + seq![r, g, b, a]) by {
                    assert forall|j: int| 0 <= j < px implies #[trigger] swap_rb(t1)[j] == swap_rb(t0)[j] by {
                        if j % 4 == 0 {
                            assert(j + 2 < px);
                        }
                    }
                }
            }
            px = px + 4;
        }
        proof {
            assert(row.take(row_bytes as int) =~= row);
        }
        y = y + 1;
    }
    Ok(RgbaBuffer { width: w, height: h, data: rgba })
}

/// Index of the first screen named `name`.
pub fn position_named(captured: &[CapturedScreen], name: &String) -> (r: Option<usize>)
    ensures
        r matches Some(i) ==> i < captured@.len() && captured@[i as int].name@ == name@ && forall|j: int|
            0 <= j < i ==> #[trigger] captured@[j].name@ != name@,
        r is None ==> forall|j: int| 0 <= j < captured@.len() ==> #[trigger] captured@[j].name@ != name@,
{
    let mut i: usize = 0;
    while i < captured.len()
        invariant
            i <= captured@.len(),
            forall|j: int| 0 <= j < i ==> #[trigger] captured@[j].name@ != name@,
        decreases captured@.len() - i,
    {
        if captured[i].name == *name {
            return Some(i);
        }
        i = i + 1;
    }
    None
}

/// `r` is the first screen named `name`.
pub open spec fn is_first_named(captured: Seq<CapturedScreen>, name: Seq<char>, r: CapturedScreen) -> bool {
    exists|i: int|
        0 <= i < captured.len() && captured[i] == r && captured[i].name@ == name && forall|j: int|
            0 <= j < i ==> #[trigger] captured[j].name@ != name
}

/// No screen is named `name`.
pub open spec fn none_named(captured: Seq<CapturedScreen>, name: Seq<char>) -> bool {
    forall|j: int| 0 <= j < captured.len() ==> #[trigger] captured[j].name@ != name
}

/// The capture for an output: the first one with the output's name, or the
/// first capture of all when the output has no name.
pub fn find_captured<'a>(captured: &'a [CapturedScreen], output_name: &Option<String>) -> (r: Option<&'a CapturedScreen>)
    ensures
        output_name is None ==> (r is Some <==> captured@.len() > 0),
        output_name is None ==> (r matches Some(c) ==> *c == captured@[0]),
        output_name matches Some(n) ==> (r is None <==> none_named(captured@, n@)),
        output_name matches Some(n) ==> (r matches Some(c) ==> is_first_named(captured@, n@, *c)),
{
    match output_name {
        Some(name) => match position_named(captured, name) {
            Some(i) => Some(&captured[i]),
            None => None,
        },
        None => {
            if captured.len() > 0 {
                Some(&captured[0])
            } else {
                None
            }
        },
    }
}

/// The capture shown on an output: the first one with the output's name,
/// falling back to the first capture of all.
pub fn find_captured_or_first<'a>(captured: &'a [CapturedScreen], output_name: &Option<String>) -> (r: Option<&'a CapturedScreen>)
    ensures
        r is None <==> captured@.len() == 0,
        output_name matches Some(n) ==> (!none_named(captured@, n@) ==> (r matches Some(c) && is_first_named(captured@, n@, *c))),
        (output_name is None || none_named(captured@, output_name->0@)) ==> (r matches Some(c) ==> *c == captured@[0]),
{
    if let Some(name) = output_name {
        if let Some(i) = position_named(captured, name) {
            return Some(&captured[i]);
        }
    }
    if captured.len() > 0 {
        Some(&captured[0])
    } else {
        None
    }
}

/// Byte `c` of row `r` of a buffer with rows of `row_len` bytes laid end to end.
pub open spec fn cell(s: Seq<u8>, r: int, row_len: int, c: int) -> u8 {
    s[r * row_len + c]
}

/// Row `r` of a gathered region starts at `(first_row + r) * stride + x_bytes` of the source.
pub open spec fn gather_offset(first_row: int, stride: int, x_bytes: int, r: int) -> int {
    (first_row + r) * stride + x_bytes
}

/// Gathered rows are the source's bytes: byte `c` of row `r` of the result
/// is byte `c` of the `r`-th source row, and the result holds exactly `n`
/// rows of `row_len` bytes. (Cropping a workspace capture takes exactly the
/// output's region.)
pub proof fn lemma_gather_rows_cells(src: Seq<u8>, first_row: int, stride: int, x_bytes: int, row_len: int, n: nat)
    requires
        row_len >= 0,
        forall|r: int|
            0 <= r < n ==> 0 <= #[trigger] gather_offset(first_row, stride, x_bytes, r) && gather_offset(
                first_row,
                stride,
                x_bytes,
                r,
            ) + row_len <= src.len(),
    ensures
        gather_rows(src, first_row, stride, x_bytes, row_len, n).len() == n * row_len,
        forall|r: int, c: int|
            0 <= r < n && 0 <= c < row_len ==> #[trigger] cell(
                gather_rows(src, first_row, stride, x_bytes, row_len, n),
                r,
                row_len,
                c,
            ) == src[gather_offset(first_row, stride, x_bytes, r) + c],
    decreases n,
{
    if n > 0 {
        let m = (n - 1) as nat;
        assert(forall|r: int| 0 <= r < m ==> 0 <= #[trigger] gather_offset(first_row, stride, x_bytes, r)
            && gather_offset(first_row, stride, x_bytes, r) + row_len <= src.len()) by {
            assert forall|r: int| 0 <= r < m implies 0 <= #[trigger] gather_offset(first_row, stride, x_bytes, r)
                && gather_offset(first_row, stride, x_bytes, r) + row_len <= src.len() by {
                assert(r < n);
            }
        }
        lemma_gather_rows_cells(src, first_row, stride, x_bytes, row_len, m);
        let prev = gather_rows(src, first_row, stride, x_bytes, row_len, m);
        let off = gather_offset(first_row, stride, x_bytes, m as int);
        assert(off == (first_row + n - 1) * stride + x_bytes);
        let whole = gather_rows(src, first_row, stride, x_bytes, row_len, n);
        assert(whole == prev + src.subrange(off, off + row_len));
        assert(m * row_len + row_len == n * row_len) by (nonlinear_arith)
            requires
                m + 1 == n,
        ;
        assert forall|r: int, c: int| 0 <= r < n && 0 <= c < row_len implies #[trigger] cell(whole, r, row_len, c)
            == src[gather_offset(first_row, stride, x_bytes, r) + c] by {
            if r < m {
                assert(r * row_len + c < m * row_len) by (nonlinear_arith)
                    requires
                        0 <= r < m,
                        0 <= c < row_len,
                ;
                assert(cell(prev, r, row_len, c) == src[gather_offset(first_row, stride, x_bytes, r) + c]);
            } else {
                assert(r == m);
                assert(r * row_len + c - m * row_len == c);
            }
        }
        assert(whole.len() == prev.len() + row_len);
    } else {
        assert(n * row_len == 0) by (nonlinear_arith)
            requires
                n == 0,
        ;
    }
}

/// The four bytes of pixel `x` of row `r` of rows of `row_len` bytes laid end to end.
pub open spec fn pixel(s: Seq<u8>, r: int, row_len: int, x: int) -> (u8, u8, u8, u8) {
    (cell(s, r, row_len, 4 * x), cell(s, r, row_len, 4 * x + 1), cell(s, r, row_len, 4 * x + 2), cell(s, r, row_len, 4 * x + 3))
}

/// The four bytes of pixel `x` of row `r` of an image with the given stride.
pub open spec fn strided_pixel(s: Seq<u8>, r: int, stride: int, x: int) -> (u8, u8, u8, u8) {
    let o = r * stride + 4 * x;
    (s[o], s[o + 1], s[o + 2], s[o + 3])
}

/// Converting BGRA rows gives tightly packed rows where every pixel is the
/// source pixel at the same place with its first and third bytes exchanged
/// (B, G, R, A becomes R, G, B, A).
pub proof fn lemma_rgba_pixels(src: Seq<u8>, stride: int, w: int, row_len: int, n: nat)
    requires
        w >= 0,
        row_len == 4 * w,
        forall|r: int| 0 <= r < n ==> #[trigger] row_fits(r, stride, row_len, src.len() as int),
        stride >= 0,
    ensures
        rgba_rows(src, stride, row_len, n).len() == n * row_len,
        forall|r: int, x: int|
            0 <= r < n && 0 <= x < w ==> {
                let p = #[trigger] pixel(rgba_rows(src, stride, row_len, n), r, row_len, x);
                let q = strided_pixel(src, r, stride, x);
                p == (q.2, q.1, q.0, q.3)
            },
    decreases n,
{
    if n > 0 {
        let m = (n - 1) as nat;
        assert forall|r: int| 0 <= r < m implies #[trigger] row_fits(r, stride, row_len, src.len() as int) by {
            assert(r < n);
        }
        lemma_rgba_pixels(src, stride, w, row_len, m);
        let prev = rgba_rows(src, stride, row_len, m);
        let off = m * stride;
        assert(row_fits(m as int, stride, row_len, src.len() as int));
        assert(0 <= m * stride) by (nonlinear_arith)
            requires
                stride >= 0,
                m >= 0,
        ;
        let sub = src.subrange(off, off + row_len);
        let whole = rgba_rows(src, stride, row_len, n);
        assert(whole == prev + swap_rb(sub));
        assert(m * row_len + row_len == n * row_len) by (nonlinear_arith)
            requires
                m + 1 == n,
        ;
        assert forall|r: int, x: int| 0 <= r < n && 0 <= x < w implies {
            let p = #[trigger] pixel(whole, r, row_len, x);
            let q = strided_pixel(src, r, stride, x);
            p == (q.2, q.1, q.0, q.3)
        } by {
            assert(4 * x + 3 < row_len);
            if r < m {
                assert((r + 1) * row_len <= m * row_len) by (nonlinear_arith)
                    requires
                        0 <= r,
                        r + 1 <= m,
                        row_len >= 0,
                ;
                assert(r * row_len + row_len == (r + 1) * row_len) by (nonlinear_arith);
                assert(pixel(prev, r, row_len, x) == pixel(whole, r, row_len, x));
            } else {
                assert(r == m);
                let b = r * row_len;
                assert(b == m * row_len);
                assert((4 * x) % 4 == 0 && (4 * x + 1) % 4 == 1 && (4 * x + 2) % 4 == 2 && (4 * x + 3) % 4 == 3)
                    by (nonlinear_arith)
                    requires
                        x >= 0,
                ;
                assert(cell(whole, r, row_len, 4 * x) == swap_rb(sub)[4 * x]);
                assert(cell(whole, r, row_len, 4 * x + 1) == swap_rb(sub)[4 * x + 1]);
                assert(cell(whole, r, row_len, 4 * x + 2) == swap_rb(sub)[4 * x + 2]);
                assert(cell(whole, r, row_len, 4 * x + 3) == swap_rb(sub)[4 * x + 3]);
                assert(r * stride == off);
            }
        }
    } else {
        assert(n * row_len == 0) by (nonlinear_arith)
            requires
                n == 0,
        ;
    }
}

} // verus!
