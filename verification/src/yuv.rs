//! Cutting a YUY2 (YUV 4:2:2) payload into per-pixel (Y, U, V) samples and
//! assembling the RGB image from a per-pixel colour conversion.
//!
//! A YUY2 row stores pixels in pairs, each pair in a 4-byte group
//! `[Y1, U, Y2, V]`: both pixels share the chroma `U, V`, the first has luma
//! `Y1` and the second `Y2`. Rows are `stride` bytes apart; bytes of a row past
//! its pixels are padding.

use vstd::arithmetic::div_mod::{lemma_basic_div, lemma_div_plus_one};
use vstd::prelude::*;

verus! {

/// The samples `(Y, U, V)` of pixel `x` of a YUY2 row.
pub open spec fn pixel_sample(row: Seq<u8>, x: int) -> (u8, u8, u8) {
    let group = 4 * (x / 2);
    (row[group + 2 * (x % 2)], row[group + 1], row[group + 3])
}

/// The samples of the first `pixels` pixels of a row.
pub open spec fn row_samples(row: Seq<u8>, pixels: nat) -> Seq<(u8, u8, u8)> {
    Seq::new(pixels, |x: int| pixel_sample(row, x))
}

/// Pixels taken from each row: `width`, as far as the row holds whole groups;
/// that is `ceil(width / 2)` groups, at most `stride / 4` of them, of which
/// only the first `width` pixels are kept.
pub open spec fn pixels_per_row(width: nat, stride: nat) -> nat {
    if width <= 2 * (stride / 4) {
        width
    } else {
        2 * (stride / 4)
    }
}

/// The samples of the first `rows` whole rows of `yuv`, rows `stride` bytes
/// apart, `pixels` pixels per row; a trailing partial row is not read.
pub open spec fn rows_samples(yuv: Seq<u8>, stride: nat, pixels: nat, rows: nat) -> Seq<(u8, u8, u8)>
    decreases rows,
{
    if rows == 0 || stride == 0 || yuv.len() < stride {
        Seq::empty()
    } else {
        row_samples(yuv.take(stride as int), pixels) + rows_samples(
            yuv.skip(stride as int),
            stride,
            pixels,
            (rows - 1) as nat,
        )
    }
}

/// The per-pixel samples of a YUY2 payload, row after row: every whole row
/// of the payload is read, whatever the image's `height`.
pub open spec fn spec_yuy2_samples(width: nat, height: nat, stride: nat, yuv: Seq<u8>) -> Seq<
    (u8, u8, u8),
> {
    rows_samples(yuv, stride, pixels_per_row(width, stride), yuv.len() / stride)
}

/// The concatenation of the colour values of all pixels.
pub open spec fn concat_colours(parts: Seq<Vec<u8>>) -> Seq<u8>
    decreases parts.len(),
{
    if parts.len() == 0 {
        Seq::empty()
    } else {
        concat_colours(parts.drop_last()) + parts.last()@
    }
}

/// `out` is the concatenation of one result of `convert` for each sample, in
/// order; each sample is handed to `convert` as `(Y, U, V)`.
pub open spec fn converted_by<F: Fn(i32, i32, i32) -> Vec<u8>>(
    convert: F,
    samples: Seq<(u8, u8, u8)>,
    out: Seq<u8>,
) -> bool {
    exists|parts: Seq<Vec<u8>>|
        {
            &&& parts.len() == samples.len()
            &&& forall|i: int|
                0 <= i < samples.len() ==> convert.ensures(
                    (samples[i].0 as i32, samples[i].1 as i32, samples[i].2 as i32),
                    #[trigger] parts[i],
                )
            &&& out == concat_colours(parts)
        }
}

proof fn lemma_rows_samples_unfold(yuv: Seq<u8>, stride: nat, pixels: nat, rows: nat)
    requires
        0 < stride <= yuv.len(),
        rows > 0,
    ensures
        rows_samples(yuv, stride, pixels, rows) == row_samples(yuv.take(stride as int), pixels)
            + rows_samples(yuv.skip(stride as int), stride, pixels, (rows - 1) as nat),
        yuv.skip(stride as int).len() / stride + 1 == yuv.len() / stride,
{
    let rest_len = yuv.skip(stride as int).len() as int;
    lemma_div_plus_one(rest_len, stride as int);
    assert(stride + rest_len == yuv.len());
}

/// Rows read of the first `height`: all, or the whole rows the payload holds
/// if fewer.
spec fn rows_read(height: nat, len: nat, stride: nat) -> nat {
    if height <= len / stride {
        height
    } else {
        len / stride
    }
}

proof fn lemma_rows_samples_len(yuv: Seq<u8>, stride: nat, pixels: nat, rows: nat)
    requires
        stride > 0,
    ensures
        rows_samples(yuv, stride, pixels, rows).len() == pixels * rows_read(rows, yuv.len(), stride),
    decreases rows,
{
    if yuv.len() < stride {
        lemma_basic_div(yuv.len() as int, stride as int);
        assert(pixels * 0 == 0);
    } else if rows == 0 {
        assert(pixels * 0 == 0);
    } else {
        let rest = yuv.skip(stride as int);
        lemma_rows_samples_unfold(yuv, stride, pixels, rows);
        lemma_rows_samples_len(rest, stride, pixels, (rows - 1) as nat);
        let k = rows_read((rows - 1) as nat, rest.len(), stride);
        assert(rows_read(rows, yuv.len(), stride) == k + 1);
        assert(pixels + pixels * k == pixels * (k + 1)) by (nonlinear_arith);
    }
}

proof fn lemma_step_offsets(r: nat, r1: nat, stride: nat, pixels: nat)
    requires
        r1 + 1 == r,
    ensures
        r1 * pixels + pixels == r * pixels,
        r1 * stride + stride == r * stride,
{
    assert(r1 * pixels + pixels == r * pixels) by (nonlinear_arith)
        requires
            r1 + 1 == r,
    ;
    assert(r1 * stride + stride == r * stride) by (nonlinear_arith)
        requires
            r1 + 1 == r,
    ;
}

proof fn lemma_rows_samples_at(
    yuv: Seq<u8>,
    stride: nat,
    pixels: nat,
    rows: nat,
    r: nat,
    x: int,
    out_at: int,
    in_at: int,
)
    requires
        stride > 0,
        pixels <= 2 * (stride / 4),
        r < rows_read(rows, yuv.len(), stride),
        0 <= x < pixels,
        out_at == r * pixels,
        in_at == r * stride,
    ensures
        in_at + stride <= yuv.len(),
        rows_samples(yuv, stride, pixels, rows).len() > out_at + x,
        rows_samples(yuv, stride, pixels, rows)[out_at + x] == pixel_sample(
            yuv.subrange(in_at, in_at + stride),
            x,
        ),
    decreases r,
{
    if yuv.len() < stride {
        lemma_basic_div(yuv.len() as int, stride as int);
    }
    lemma_rows_samples_unfold(yuv, stride, pixels, rows);
    lemma_rows_samples_len(yuv, stride, pixels, rows);
    let first = row_samples(yuv.take(stride as int), pixels);
    let rest = yuv.skip(stride as int);
    let rest_samples = rows_samples(rest, stride, pixels, (rows - 1) as nat);
    if r == 0 {
        assert(0 * pixels == 0 && 0 * stride == 0);
        assert(yuv.take(stride as int) =~= yuv.subrange(0, stride as int));
        assert(rows_samples(yuv, stride, pixels, rows)[x] == first[x]);
        assert(pixels * rows_read(rows, yuv.len(), stride) >= pixels * 1) by (nonlinear_arith)
            requires
                rows_read(rows, yuv.len(), stride) >= 1,
        ;
    } else {
        let r1 = (r - 1) as nat;
        lemma_step_offsets(r, r1, stride, pixels);
        lemma_rows_samples_at(
            rest,
            stride,
            pixels,
            (rows - 1) as nat,
            r1,
            x,
            out_at - pixels,
            in_at - stride,
        );
        assert(rows_samples(yuv, stride, pixels, rows)[out_at + x] == rest_samples[out_at - pixels
            + x]);
        assert(rest.subrange(in_at - stride, in_at) =~= yuv.subrange(in_at, in_at + stride));
    }
}

/// Number of samples: each whole row of the payload gives `width` pixels, or
/// two per 4-byte group of the row (`2 * (stride / 4)`) when it holds fewer.
pub proof fn law_sample_count(width: nat, height: nat, stride: nat, yuv: Seq<u8>)
    requires
        stride > 0,
    ensures
        spec_yuy2_samples(width, height, stride, yuv).len() == (if width <= 2 * (stride / 4) {
            width
        } else {
            2 * (stride / 4)
        }) * (yuv.len() / stride),
{
    lemma_rows_samples_len(yuv, stride, pixels_per_row(width, stride), yuv.len() / stride);
}

/// Sample placement: with `pixels` the pixels of a row (`width`, or
/// `2 * (stride / 4)` when the row holds fewer), sample `r * pixels + x` is
/// pixel `x` of row `r`, which starts at byte `r * stride`: the luma `Y1` or
/// `Y2` of group `x / 2` as `x` is even or odd, with that group's `U` and `V`.
pub proof fn law_sample_position(width: nat, height: nat, stride: nat, yuv: Seq<u8>, r: nat, x: nat)
    requires
        stride > 0,
        r < yuv.len() / stride,
        x < width,
        x < 2 * (stride / 4),
    ensures
        ({
            let pixels = if width <= 2 * (stride / 4) {
                width
            } else {
                2 * (stride / 4)
            };
            let start = (r * stride) as int;
            let group = start + 4 * (x / 2);
            let s = spec_yuy2_samples(width, height, stride, yuv)[(r * pixels + x) as int];
            &&& s.0 == yuv[group + 2 * (x % 2)]
            &&& s.1 == yuv[group + 1]
            &&& s.2 == yuv[group + 3]
        }),
{
    let pixels = pixels_per_row(width, stride);
    let start = (r * stride) as int;
    lemma_rows_samples_at(
        yuv,
        stride,
        pixels,
        yuv.len() / stride,
        r,
        x as int,
        (r * pixels) as int,
        start,
    );
    let row = yuv.subrange(start, start + stride);
    assert(4 * (x / 2) + 3 < stride);
    let xi = x as int;
    assert(row[4 * (xi / 2) + 2 * (xi % 2)] == yuv[start + 4 * (xi / 2) + 2 * (xi % 2)]);
}

/// Appends the samples of the first `pixels` pixels of the row of `yuv` that
/// starts at `row_start` and is `stride` bytes long.
fn push_row_samples(
    yuv: &Vec<u8>,
    row_start: usize,
    stride: usize,
    pixels: usize,
    out: &mut Vec<(u8, u8, u8)>,
)
    requires
        row_start + stride <= yuv@.len(),
        pixels <= 2 * (stride / 4),
    ensures
        final(out)@ == old(out)@ + row_samples(
            yuv@.subrange(row_start as int, row_start + stride),
            pixels as nat,
        ),
{
    let ghost row = yuv@.subrange(row_start as int, row_start + stride);
    let ghost start = old(out)@;
    let len = yuv.len();
    let mut x: usize = 0;
    while x < pixels
        invariant
            len == yuv@.len(),
            row_start + stride <= yuv@.len(),
            pixels <= 2 * (stride / 4),
            row == yuv@.subrange(row_start as int, row_start + stride),
            x <= pixels,
            out@ == start + row_samples(row, x as nat),
        decreases pixels - x,
    {
        let group = row_start + 4 * (x / 2);
        let y = yuv[group + 2 * (x % 2)];
        let u = yuv[group + 1];
        let v = yuv[group + 3];
        assert((y, u, v) == pixel_sample(row, x as int));
        out.push((y, u, v));
        assert(out@ =~= start + row_samples(row, (x + 1) as nat));
        x = x + 1;
    }
}

/// The `(Y, U, V)` samples of the pixels of a YUY2 payload whose rows are
/// `stride` bytes apart, row after row. Each row yields `width` pixels as far
/// as it holds whole groups; every whole row of the payload is read (`height`
/// does not limit them), and a trailing partial row is not.
pub fn yuy2_samples(width: u32, height: u32, stride: u32, yuv: &Vec<u8>) -> (samples: Vec<(u8, u8, u8)>)
    requires
        stride > 0,
    ensures
        samples@ == spec_yuy2_samples(width as nat, height as nat, stride as nat, yuv@),
        samples@.len() == (if width <= 2 * (stride / 4) {
            width as nat
        } else {
            2 * (stride / 4) as nat
        }) * (yuv@.len() / stride as nat),
{
    let stride_len = stride as usize;
    let len = yuv.len();
    let width_len = width as usize;
    let pixels = if width_len <= 2 * (stride_len / 4) {
        width_len
    } else {
        2 * (stride_len / 4)
    };
    let mut out: Vec<(u8, u8, u8)> = Vec::new();
    let mut row_start: usize = 0;
    let rows = len / stride_len;
    let mut rows_left: usize = rows;
    assert(yuv@.skip(0) =~= yuv@);
    assert(out@ + rows_samples(yuv@, stride as nat, pixels as nat, rows as nat) =~= rows_samples(
        yuv@,
        stride as nat,
        pixels as nat,
        rows as nat,
    ));
    while rows_left > 0 && len - row_start >= stride_len
        invariant
            stride_len == stride,
            stride_len > 0,
            len == yuv@.len(),
            pixels == pixels_per_row(width as nat, stride as nat),
            row_start <= len,
            out@ + rows_samples(
                yuv@.skip(row_start as int),
                stride as nat,
                pixels as nat,
                rows_left as nat,
            ) == rows_samples(yuv@, stride as nat, pixels as nat, rows as nat),
            rows == yuv@.len() / (stride as nat),
        decreases rows_left,
    {
        let ghost rest = yuv@.skip(row_start as int);
        let ghost before = out@;
        push_row_samples(yuv, row_start, stride_len, pixels, &mut out);
        assert(rest.take(stride as int) =~= yuv@.subrange(row_start as int, row_start + stride_len));
        assert(rest.skip(stride as int) =~= yuv@.skip(row_start + stride_len));
        assert(out@ + rows_samples(
            yuv@.skip(row_start + stride_len),
            stride as nat,
            pixels as nat,
            (rows_left - 1) as nat,
        ) =~= before + rows_samples(rest, stride as nat, pixels as nat, rows_left as nat));
        row_start = row_start + stride_len;
        rows_left = rows_left - 1;
    }
    assert(rows_samples(yuv@.skip(row_start as int), stride as nat, pixels as nat, rows_left as nat)
        =~= Seq::empty());
    assert(out@ =~= out@ + Seq::<(u8, u8, u8)>::empty());
    proof {
        law_sample_count(width as nat, height as nat, stride as nat, yuv@);
    }
    out
}

/// Converts a YUY2 image to packed RGB: the samples of `yuy2_samples`, each
/// handed to `yuv_to_rgb` as `(Y, U, V)`, and the results concatenated in
/// order.
pub fn convert_yuy2_to_rgb<F: Fn(i32, i32, i32) -> Vec<u8>>(
    width: u32,
    height: u32,
    stride: u32,
    yuv: &Vec<u8>,
    yuv_to_rgb: F,
) -> (rgb: Vec<u8>)
    requires
        stride > 0,
        forall|y: i32, u: i32, v: i32| yuv_to_rgb.requires((y, u, v)),
    ensures
        converted_by(
            yuv_to_rgb,
            spec_yuy2_samples(width as nat, height as nat, stride as nat, yuv@),
            rgb@,
        ),
{
    let samples = yuy2_samples(width, height, stride, yuv);
    let mut out: Vec<u8> = Vec::new();
    let ghost mut parts: Seq<Vec<u8>> = Seq::empty();
    let mut i: usize = 0;
    while i < samples.len()
        invariant
            forall|y: i32, u: i32, v: i32| yuv_to_rgb.requires((y, u, v)),
            i <= samples@.len(),
            parts.len() == i,
            forall|j: int|
                0 <= j < i ==> yuv_to_rgb.ensures(
                    (samples@[j].0 as i32, samples@[j].1 as i32, samples@[j].2 as i32),
                    #[trigger] parts[j],
                ),
            out@ == concat_colours(parts),
        decreases samples@.len() - i,
    {
        let (y, u, v) = samples[i];
        let mut colour = yuv_to_rgb(y as i32, u as i32, v as i32);
        let ghost c = colour;
        let ghost before = out@;
        out.append(&mut colour);
        proof {
            let next = parts.push(c);
            assert(next.drop_last() =~= parts);
            parts = next;
            assert(out@ =~= before + c@);
        }
        i = i + 1;
    }
    assert(converted_by(
        yuv_to_rgb,
        spec_yuy2_samples(width as nat, height as nat, stride as nat, yuv@),
        out@,
    ));
    out
}

} // verus!
