//! One frame's full-window RGBA snapshot and the verified row-wise
//! extraction of a viewport's sub-image from it.

use vstd::prelude::*;

use crate::viewport::{spec_crop_height, spec_crop_width, Viewport};

verus! {

/// A full-window RGBA pixel snapshot: `data` holds `width * height` pixels
/// of 4 bytes each, row by row, the row stride equal to the full width.
pub struct CaptureBuffer {
    pub width: u32,
    pub height: u32,
    pub data: Vec<u8>,
}

impl CaptureBuffer {
    /// The byte buffer holds exactly one RGBA quadruple per pixel.
    pub open spec fn wf(self) -> bool {
        self.data@.len() == self.width as int * self.height as int * 4
    }

    /// Byte `k` (`0..4`) of the pixel at column `x`, row `y`.
    pub open spec fn byte_at(self, x: int, y: int, k: int) -> u8 {
        self.data@[(y * self.width as int + x) * 4 + k]
    }

    /// The bytes of row `j` of a crop of `vp`: `crop width * 4` contiguous
    /// bytes starting at the crop position within capture row `vp.y + j`.
    pub open spec fn crop_row(self, vp: Viewport, j: int) -> Seq<u8> {
        Seq::new(
            (spec_crop_width(vp, self.width) * 4) as nat,
            |t: int| self.data@[((vp.y + j) * self.width as int + vp.x) * 4 + t],
        )
    }

    /// The first `n` rows of a crop of `vp`, concatenated.
    pub open spec fn crop_rows(self, vp: Viewport, n: int) -> Seq<u8>
        decreases n,
    {
        if n <= 0 {
            Seq::empty()
        } else {
            self.crop_rows(vp, n - 1) + self.crop_row(vp, n - 1)
        }
    }

    /// The whole sub-image a crop of `vp` extracts: every clamped row,
    /// strided source rows packed into one contiguous buffer.
    pub open spec fn spec_extract(self, vp: Viewport) -> Seq<u8> {
        self.crop_rows(vp, spec_crop_height(vp, self.height))
    }

    /// Wraps a raw RGBA buffer, accepting it exactly when its length
    /// matches the claimed dimensions.
    pub fn new(width: u32, height: u32, data: Vec<u8>) -> (r: Option<CaptureBuffer>)
        ensures
            r is Some <==> data@.len() == width as int * height as int * 4,
            r is Some ==> r->Some_0 == (CaptureBuffer { width, height, data }) && r->Some_0.wf(),
    {
        proof {
            assert(width as int * height as int * 4 < u128::MAX) by (nonlinear_arith)
                requires
                    width <= 0xffff_ffffu32,
                    height <= 0xffff_ffffu32,
            ;
        }
        if data.len() as u128 == width as u128 * height as u128 * 4 {
            Some(CaptureBuffer { width, height, data })
        } else {
            None
        }
    }

    /// Extracts the intersection of `vp` with the capture bounds into a new
    /// contiguous RGBA buffer, copying `crop width * 4` bytes per clamped row.
    pub fn extract_region(&self, vp: &Viewport) -> (out: Vec<u8>)
        requires
            self.wf(),
        ensures
            out@ == self.spec_extract(*vp),
            out@.len() == spec_crop_width(*vp, self.width) * spec_crop_height(*vp, self.height)
                * 4,
    {
        let actual_width = vp.crop_width(self.width);
        let actual_height = vp.crop_height(self.height);
        let mut out: Vec<u8> = Vec::new();
        if actual_width == 0 || actual_height == 0 {
            proof {
                lemma_crop_rows_len(*self, *vp, spec_crop_height(*vp, self.height));
                assert(spec_crop_height(*vp, self.height) * spec_crop_width(*vp, self.width) * 4
                    == 0 && spec_crop_width(*vp, self.width) * spec_crop_height(*vp, self.height)
                    * 4 == 0) by (nonlinear_arith)
                    requires
                        spec_crop_width(*vp, self.width) == 0 || spec_crop_height(
                            *vp,
                            self.height,
                        ) == 0,
                ;
                assert(out@ =~= self.spec_extract(*vp));
            }
            return out;
        }
        let data_len: usize = self.data.len();
        proof {
            crate::viewport::lemma_crop_within_capture(*vp, self.width, self.height);
            assert(actual_width * 4 <= self.width as int * self.height as int * 4)
                by (nonlinear_arith)
                requires
                    0 <= actual_width <= self.width,
                    self.height >= 1,
            ;
        }
        let row_bytes: usize = actual_width as usize * 4;
        proof {
            assert(out@ =~= self.crop_rows(*vp, 0));
        }
        let mut j: u32 = 0;
        while j < actual_height
            invariant
                self.wf(),
                data_len == self.data@.len(),
                1 <= actual_width,
                1 <= actual_height,
                actual_width == spec_crop_width(*vp, self.width),
                actual_height == spec_crop_height(*vp, self.height),
                vp.x + actual_width <= self.width,
                vp.y + actual_height <= self.height,
                row_bytes == actual_width * 4,
                0 <= j <= actual_height,
                out@ == self.crop_rows(*vp, j as int),
                out@.len() == j * actual_width * 4,
            decreases actual_height - j,
        {
            proof {
                assert((vp.y + j) * self.width as int + vp.x + actual_width <= self.width as int
                    * self.height as int) by (nonlinear_arith)
                    requires
                        0 <= vp.y,
                        0 <= j,
                        vp.y + j < self.height,
                        0 <= vp.x,
                        1 <= actual_width,
                        vp.x + actual_width <= self.width,
                ;
                assert(j * actual_width * 4 + actual_width * 4 == (j + 1) * actual_width * 4)
                    by (nonlinear_arith);
            }
            let row_start: usize = ((vp.y as usize + j as usize) * self.width as usize
                + vp.x as usize) * 4;
            let ghost prefix = out@;
            let mut t: usize = 0;
            while t < row_bytes
                invariant
                    self.wf(),
                    data_len == self.data@.len(),
                    0 <= t <= row_bytes,
                    row_bytes == actual_width * 4,
                    row_start == ((vp.y + j) * self.width as int + vp.x) * 4,
                    row_start + row_bytes <= data_len,
                    out@ == prefix + self.data@.subrange(row_start as int, row_start + t),
                decreases row_bytes - t,
            {
                let b = self.data[row_start + t];
                out.push(b);
                proof {
                    assert(self.data@.subrange(row_start as int, row_start + t + 1)
                        =~= self.data@.subrange(row_start as int, row_start + t as int).push(
                        self.data@[row_start + t]));
                }
                t = t + 1;
            }
            proof {
                assert(out@ =~= self.crop_rows(*vp, j + 1));
            }
            j = j + 1;
        }
        proof {
            assert(actual_height as int * actual_width as int * 4 == actual_width as int
                * actual_height as int * 4) by (nonlinear_arith);
        }
        out
    }
}

/// Indexing into `n` concatenated crop rows at row `j`, byte `t` of the row,
/// lands on byte `t` of `crop_row(j)`.
pub proof fn lemma_crop_rows_index(cap: CaptureBuffer, vp: Viewport, n: int, j: int, t: int)
    requires
        0 <= j < n,
        0 <= t < spec_crop_width(vp, cap.width) * 4,
    ensures
        cap.crop_rows(vp, n)[j * (spec_crop_width(vp, cap.width) * 4) + t] == cap.crop_row(
            vp,
            j,
        )[t],
    decreases n,
{
    let aw = spec_crop_width(vp, cap.width);
    lemma_crop_rows_len(cap, vp, n - 1);
    assert((n - 1) * aw * 4 == (n - 1) * (aw * 4)) by (nonlinear_arith);
    if j == n - 1 {
        assert(j * (aw * 4) + t - (n - 1) * (aw * 4) == t);
    } else {
        lemma_crop_rows_index(cap, vp, n - 1, j, t);
        assert(j * (aw * 4) + t < (n - 1) * (aw * 4)) by (nonlinear_arith)
            requires
                0 <= j < n - 1,
                0 <= t < aw * 4,
        ;
    }
}

/// The extracted sub-image reads back the capture: byte `k` of its pixel
/// `(i, j)` equals byte `k` of the capture buffer's pixel at
/// `(vp.x + i, vp.y + j)`, for every `(i, j)` within the clamped crop extent.
pub proof fn lemma_extract_pixel(cap: CaptureBuffer, vp: Viewport, i: int, j: int, k: int)
    requires
        0 <= i < spec_crop_width(vp, cap.width),
        0 <= j < spec_crop_height(vp, cap.height),
        0 <= k < 4,
    ensures
        cap.spec_extract(vp)[(j * spec_crop_width(vp, cap.width) + i) * 4 + k] == cap.byte_at(
            vp.x + i,
            vp.y + j,
            k,
        ),
{
    let aw = spec_crop_width(vp, cap.width);
    lemma_crop_rows_index(cap, vp, spec_crop_height(vp, cap.height), j, i * 4 + k);
    assert(((vp.y + j) * cap.width as int + vp.x) * 4 + (i * 4 + k) == ((vp.y + j)
        * cap.width as int + (vp.x + i)) * 4 + k) by (nonlinear_arith);
    assert((j * aw + i) * 4 + k == j * (aw * 4) + (i * 4 + k)) by (nonlinear_arith);
}

/// A crop never reaches outside the capture: the clamped extent stays within
/// what remains past the position, and every byte the extraction reads lies
/// inside `[0, width * height * 4)`.
pub proof fn lemma_crop_access_in_bounds(cap: CaptureBuffer, vp: Viewport, i: int, j: int, k: int)
    requires
        vp.x <= cap.width,
        vp.y <= cap.height,
        0 <= i < spec_crop_width(vp, cap.width),
        0 <= j < spec_crop_height(vp, cap.height),
        0 <= k < 4,
    ensures
        spec_crop_width(vp, cap.width) <= cap.width - vp.x,
        spec_crop_height(vp, cap.height) <= cap.height - vp.y,
        0 <= ((vp.y + j) * cap.width as int + (vp.x + i)) * 4 + k < cap.width as int
            * cap.height as int * 4,
{
    crate::viewport::lemma_crop_within_capture(vp, cap.width, cap.height);
    assert(0 <= ((vp.y + j) * cap.width as int + (vp.x + i)) * 4 + k < cap.width as int
        * cap.height as int * 4) by (nonlinear_arith)
        requires
            0 <= vp.y + j,
            vp.y + j < cap.height,
            0 <= vp.x + i,
            vp.x + i < cap.width,
            0 <= k < 4,
    ;
}

/// Each crop row holds `crop width * 4` bytes, so `n` concatenated rows hold
/// `n * crop width * 4` bytes.
pub proof fn lemma_crop_rows_len(cap: CaptureBuffer, vp: Viewport, n: int)
    requires
        n >= 0,
    ensures
        cap.crop_rows(vp, n).len() == n * spec_crop_width(vp, cap.width) * 4,
    decreases n,
{
    let aw = spec_crop_width(vp, cap.width);
    assert(aw >= 0);
    if n > 0 {
        lemma_crop_rows_len(cap, vp, n - 1);
        assert(cap.crop_row(vp, n - 1).len() == aw * 4);
        assert((n - 1) * aw * 4 + aw * 4 == n * aw * 4) by (nonlinear_arith);
    } else {
        assert(n * aw * 4 == 0) by (nonlinear_arith)
            requires
                n == 0,
        ;
    }
}

} // verus!
