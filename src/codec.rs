//! Pixel codec: texel channel codes to and from the byte layout of a GPU texture.
//!
//! A texel's four channels travel here as integer codes already in the texture's numeric
//! domain: an 8-bit unsigned normalised value, the bits of a binary16, or the bits of a
//! binary32. Codes are laid out little-endian, channel after channel, texel after texel.
use vstd::prelude::*;
use crate::error::{invalid_argument, ProcessingError};

verus! {

#[derive(Clone, Copy, Debug, PartialEq, Eq, Structural, Hash)]
pub enum TextureFormat {
    Rgba8Unorm,
    Rgba8UnormSrgb,
    Rgba16Float,
    Rgba32Float,
    Bgra8Unorm,
    Bgra8UnormSrgb,
    R8Unorm,
    R32Float,
    Depth32Float,
    Other,
}

/// Bytes per channel of a supported format; zero for the others.
pub open spec fn channel_width(format: TextureFormat) -> nat {
    match format {
        TextureFormat::Rgba8Unorm | TextureFormat::Rgba8UnormSrgb => 1,
        TextureFormat::Rgba16Float => 2,
        TextureFormat::Rgba32Float => 4,
        _ => 0,
    }
}

pub open spec fn is_supported(format: TextureFormat) -> bool {
    channel_width(format) > 0
}

pub open spec fn spec_pixel_size(format: TextureFormat) -> nat {
    4 * channel_width(format)
}

/// One texel as four channel codes.
#[derive(Clone, Copy, Debug, PartialEq, Eq, Structural, Hash)]
pub struct Texel {
    pub r: u32,
    pub g: u32,
    pub b: u32,
    pub a: u32,
}

/// `256^n`: the number of codes that `n` bytes hold.
pub open spec fn code_limit(n: nat) -> nat
    decreases n,
{
    if n == 0 {
        1
    } else {
        256 * code_limit((n - 1) as nat)
    }
}

/// Whether every channel of a texel fits in `n` bytes.
pub open spec fn texel_fits(t: Texel, n: nat) -> bool {
    &&& t.r < code_limit(n)
    &&& t.g < code_limit(n)
    &&& t.b < code_limit(n)
    &&& t.a < code_limit(n)
}

/// The low `n` bytes of a code, least significant first.
pub open spec fn le_bytes(code: nat, n: nat) -> Seq<u8>
    decreases n,
{
    if n == 0 {
        seq![]
    } else {
        seq![(code % 256) as u8] + le_bytes(code / 256, (n - 1) as nat)
    }
}

/// The number that a little-endian byte string denotes.
pub open spec fn le_value(bytes: Seq<u8>) -> nat
    decreases bytes.len(),
{
    if bytes.len() == 0 {
        0
    } else {
        bytes[0] as nat + 256 * le_value(bytes.drop_first())
    }
}

pub open spec fn texel_bytes(t: Texel, n: nat) -> Seq<u8> {
    le_bytes(t.r as nat, n) + le_bytes(t.g as nat, n) + le_bytes(t.b as nat, n) + le_bytes(
        t.a as nat,
        n,
    )
}

/// The bytes of a run of texels, with no padding.
pub open spec fn encode_texels(ts: Seq<Texel>, n: nat) -> Seq<u8>
    decreases ts.len(),
{
    if ts.len() == 0 {
        seq![]
    } else {
        encode_texels(ts.drop_last(), n) + texel_bytes(ts.last(), n)
    }
}

/// The texel whose `4 * n` bytes start at `off`.
pub open spec fn texel_at(data: Seq<u8>, off: int, n: nat) -> Texel {
    Texel {
        r: le_value(data.subrange(off, off + n)) as u32,
        g: le_value(data.subrange(off + n, off + 2 * n)) as u32,
        b: le_value(data.subrange(off + 2 * n, off + 3 * n)) as u32,
        a: le_value(data.subrange(off + 3 * n, off + 4 * n)) as u32,
    }
}

/// The texels of the first `width` pixels of row `row` in rows of `padded` bytes.
pub open spec fn row_texels(data: Seq<u8>, n: nat, width: nat, padded: nat, row: nat) -> Seq<Texel> {
    Seq::new(width, |col: int| texel_at(data, row * padded + col * (4 * n), n))
}

/// The texels of `rows` padded rows, row after row, padding left out.
pub open spec fn unpadded_texels(data: Seq<u8>, n: nat, width: nat, padded: nat, rows: nat) -> Seq<
    Texel,
>
    decreases rows,
{
    if rows == 0 {
        seq![]
    } else {
        unpadded_texels(data, n, width, padded, (rows - 1) as nat) + row_texels(
            data,
            n,
            width,
            padded,
            (rows - 1) as nat,
        )
    }
}

/// Whether every texel of a run fits the channel width `n`.
pub open spec fn all_fit(ts: Seq<Texel>, n: nat) -> bool {
    forall|i: int| 0 <= i < ts.len() ==> texel_fits(#[trigger] ts[i], n)
}

/// Size in bytes of one texel of the given format.
pub fn pixel_size(format: TextureFormat) -> (r: Result<usize, ProcessingError>)
    ensures
        is_supported(format) ==> r == Ok::<usize, ProcessingError>(spec_pixel_size(format) as usize),
        !is_supported(format) ==> r == Err::<usize, ProcessingError>(
            ProcessingError::UnsupportedTextureFormat,
        ),
{
    match format {
        TextureFormat::Rgba8Unorm | TextureFormat::Rgba8UnormSrgb => Ok(4),
        TextureFormat::Rgba16Float => Ok(8),
        TextureFormat::Rgba32Float => Ok(16),
        _ => Err(ProcessingError::UnsupportedTextureFormat),
    }
}

/// Appends the low `n` bytes of `code`, least significant first.
fn push_code(out: &mut Vec<u8>, code: u32, n: usize)
    requires
        n == 1 || n == 2 || n == 4,
    ensures
        final(out)@ == old(out)@ + le_bytes(code as nat, n as nat),
{
    proof {
        reveal_with_fuel(le_bytes, 5);
    }
    let ghost start = out@;
    out.push((code % 256) as u8);
    if n >= 2 {
        out.push(((code / 256) % 256) as u8);
    }
    if n == 4 {
        out.push(((code / 0x1_0000) % 256) as u8);
        out.push(((code / 0x100_0000) % 256) as u8);
    }
    proof {
        let c = code as nat;
        assert(c / 256 / 256 == c / 0x1_0000) by (nonlinear_arith);
        assert(c / 256 / 256 / 256 == c / 0x100_0000) by (nonlinear_arith);
        if n == 1 {
            assert(le_bytes(c, 1) =~= seq![(c % 256) as u8]);
        } else if n == 2 {
            assert(le_bytes(c, 2) =~= seq![(c % 256) as u8, ((c / 256) % 256) as u8]);
        } else {
            assert(le_bytes(c, 4) =~= seq![
                (c % 256) as u8,
                ((c / 256) % 256) as u8,
                ((c / 0x1_0000) % 256) as u8,
                ((c / 0x100_0000) % 256) as u8,
            ]);
        }
        assert(out@ =~= start + le_bytes(c, n as nat));
    }
}

/// Reads the little-endian code of `n` bytes that starts at `off`.
fn read_code(data: &[u8], off: usize, n: usize) -> (r: u32)
    requires
        n == 1 || n == 2 || n == 4,
        off + n <= data@.len(),
    ensures
        r as nat == le_value(data@.subrange(off as int, off + n)),
{
    proof {
        reveal_with_fuel(le_value, 5);
    }
    let s = Ghost(data@.subrange(off as int, off + n));
    let b0 = data[off] as u32;
    if n == 1 {
        proof {
            assert(s@.drop_first().len() == 0);
        }
        b0
    } else if n == 2 {
        let b1 = data[off + 1] as u32;
        proof {
            assert(s@.drop_first().drop_first().len() == 0);
            assert(s@.drop_first()[0] == b1);
        }
        b0 + 256 * b1
    } else {
        let b1 = data[off + 1] as u32;
        let b2 = data[off + 2] as u32;
        let b3 = data[off + 3] as u32;
        proof {
            let d1 = s@.drop_first();
            let d2 = d1.drop_first();
            let d3 = d2.drop_first();
            assert(d3.drop_first().len() == 0);
            assert(d1[0] == b1 && d2[0] == b2 && d3[0] == b3);
        }
        b0 + 256 * b1 + 0x1_0000 * b2 + 0x100_0000 * b3
    }
}

/// Whether each channel code of a texel fits in `n` bytes.
fn fits(t: Texel, n: usize) -> (r: bool)
    requires
        n == 1 || n == 2 || n == 4,
    ensures
        r == texel_fits(t, n as nat),
{
    proof {
        reveal_with_fuel(code_limit, 5);
    }
    if n == 4 {
        true
    } else {
        let limit: u32 = if n == 1 {
            256
        } else {
            0x1_0000
        };
        t.r < limit && t.g < limit && t.b < limit && t.a < limit
    }
}

/// Encodes texels for a write to a texture region: each texel's channels in order, each
/// channel in the format's width, no row padding. A code wider than the channel is an
/// invalid argument.
pub fn pixels_to_bytes(pixels: &[Texel], format: TextureFormat) -> (r: Result<
    Vec<u8>,
    ProcessingError,
>)
    ensures
        is_supported(format) && all_fit(pixels@, channel_width(format)) ==> (r matches Ok(v)
            && v@ == encode_texels(pixels@, channel_width(format))),
        is_supported(format) && !all_fit(pixels@, channel_width(format)) ==> r matches Err(
            ProcessingError::InvalidArgument(_),
        ),
        !is_supported(format) ==> r == Err::<Vec<u8>, ProcessingError>(
            ProcessingError::UnsupportedTextureFormat,
        ),
{
    let px = pixel_size(format)?;
    let n = px / 4;
    let mut k: usize = 0;
    while k < pixels.len()
        invariant
            n == channel_width(format),
            n == 1 || n == 2 || n == 4,
            k <= pixels@.len(),
            forall|j: int| 0 <= j < k ==> texel_fits(#[trigger] pixels@[j], n as nat),
        decreases pixels@.len() - k,
    {
        if !fits(pixels[k], n) {
            return Err(invalid_argument("a channel code is wider than the format's channel"));
        }
        k = k + 1;
    }
    let mut out: Vec<u8> = Vec::new();
    let mut i: usize = 0;
    while i < pixels.len()
        invariant
            n == channel_width(format),
            n == 1 || n == 2 || n == 4,
            i <= pixels@.len(),
            out@ == encode_texels(pixels@.take(i as int), n as nat),
        decreases pixels@.len() - i,
    {
        let t = pixels[i];
        push_code(&mut out, t.r, n);
        push_code(&mut out, t.g, n);
        push_code(&mut out, t.b, n);
        push_code(&mut out, t.a, n);
        proof {
            let next = pixels@.take(i + 1);
            assert(next.drop_last() =~= pixels@.take(i as int));
            assert(next.last() == t);
            assert(out@ =~= encode_texels(next, n as nat));
        }
        i = i + 1;
    }
    proof {
        assert(pixels@.take(i as int) =~= pixels@);
    }
    Ok(out)
}

/// Decodes a readback buffer of `height` rows of `padded_bytes_per_row` bytes each, keeping
/// only the first `width` texels of every row. A buffer shorter than `height` rows is an
/// invalid argument.
pub fn bytes_to_pixels(
    data: &[u8],
    format: TextureFormat,
    width: u32,
    height: u32,
    padded_bytes_per_row: usize,
) -> (r: Result<Vec<Texel>, ProcessingError>)
    ensures
        !is_supported(format) ==> r == Err::<Vec<Texel>, ProcessingError>(
            ProcessingError::UnsupportedTextureFormat,
        ),
        is_supported(format) && (padded_bytes_per_row == 0 || padded_bytes_per_row < width
            * spec_pixel_size(format)) ==> r matches Err(ProcessingError::InvalidArgument(_)),
        is_supported(format) && padded_bytes_per_row > 0 && padded_bytes_per_row >= width
            * spec_pixel_size(format) && data@.len() < height * padded_bytes_per_row ==> r matches Err(
            ProcessingError::InvalidArgument(_),
        ),
        is_supported(format) && padded_bytes_per_row > 0 && padded_bytes_per_row >= width
            * spec_pixel_size(format) && data@.len() >= height * padded_bytes_per_row ==> (r matches Ok(
            v,
        ) && v@ == unpadded_texels(
            data@,
            channel_width(format),
            width as nat,
            padded_bytes_per_row as nat,
            height as nat,
        ) && v@.len() == width * height),
{
    let px = pixel_size(format)?;
    let n = px / 4;
    let padded = padded_bytes_per_row;
    if padded == 0 || padded / px < width as usize {
        proof {
            if padded > 0 && padded >= width * px {
                assert(padded as int / (px as int) >= width) by (nonlinear_arith)
                    requires
                        padded >= width * px,
                        px > 0,
                ;
            }
        }
        return Err(invalid_argument("row padding is smaller than a row of texels"));
    }
    let w = width as usize;
    proof {
        assert(w * px <= padded) by (nonlinear_arith)
            requires
                padded as int / (px as int) >= w,
                px > 0,
        ;
    }
    if data.len() / padded < height as usize {
        proof {
            if data@.len() >= height * padded {
                assert(data@.len() as int / (padded as int) >= height) by (nonlinear_arith)
                    requires
                        data@.len() >= height * padded,
                        padded > 0,
                ;
            }
        }
        return Err(invalid_argument("buffer holds fewer rows than the texture's height"));
    }
    let rows = height as usize;
    let data_len = data.len();
    proof {
        assert(rows * padded <= data@.len()) by (nonlinear_arith)
            requires
                rows <= data@.len() as int / (padded as int),
                padded > 0,
        ;
    }
    let mut out: Vec<Texel> = Vec::new();
    let mut y: usize = 0;
    let mut row_start: usize = 0;
    while y < rows
        invariant
            n == channel_width(format),
            n == 1 || n == 2 || n == 4,
            px == 4 * n,
            w * px <= padded,
            rows * padded <= data@.len(),
            data@.len() == data_len,
            y <= rows,
            row_start == y * padded,
            out@ == unpadded_texels(data@, n as nat, w as nat, padded as nat, y as nat),
        decreases rows - y,
    {
        assert(row_start + padded <= data@.len()) by (nonlinear_arith)
            requires
                row_start == y * padded,
                y < rows,
                rows * padded <= data@.len(),
        ;
        let ghost before = out@;
        let mut x: usize = 0;
        let mut off: usize = row_start;
        while x < w
            invariant
                n == channel_width(format),
                n == 1 || n == 2 || n == 4,
                px == 4 * n,
                w * px <= padded,
                row_start + padded <= data@.len(),
                data@.len() == data_len,
                row_start == y * padded,
                x <= w,
                off == row_start + x * px,
                out@ == before + Seq::new(
                    x as nat,
                    |col: int| texel_at(data@, y * padded + col * (4 * n), n as nat),
                ),
            decreases w - x,
        {
            assert(off + px <= row_start + padded) by (nonlinear_arith)
                requires
                    off == row_start + x * px,
                    x < w,
                    w * px <= padded,
            ;
            assert(off + px <= data@.len());
            let t = Texel {
                r: read_code(data, off, n),
                g: read_code(data, off + n, n),
                b: read_code(data, off + 2 * n, n),
                a: read_code(data, off + 3 * n, n),
            };
            let ghost old_out = out@;
            out.push(t);
            proof {
                assert(t == texel_at(data@, y * padded + x * (4 * n), n as nat));
                assert(out@ =~= before + Seq::new(
                    (x + 1) as nat,
                    |col: int| texel_at(data@, y * padded + col * (4 * n), n as nat),
                ));
            }
            x = x + 1;
            off = off + px;
            assert(off == row_start + x * px) by (nonlinear_arith)
                requires
                    off == row_start + (x - 1) * px + px,
            ;
        }
        proof {
            assert(out@ =~= unpadded_texels(
                data@,
                n as nat,
                w as nat,
                padded as nat,
                (y + 1) as nat,
            ));
        }
        assert(row_start + padded <= data@.len());
        y = y + 1;
        row_start = row_start + padded;
        assert(row_start == y * padded) by (nonlinear_arith)
            requires
                row_start == (y - 1) * padded + padded,
        ;
    }
    proof {
        lemma_unpadded_len(data@, n as nat, w as nat, padded as nat, rows as nat);
    }
    Ok(out)
}

/// `len` rounded up to the next multiple of 256, the alignment that a GPU copy demands of
/// each row of a readback buffer.
pub open spec fn spec_align_row(len: int) -> int {
    (len + 255) / 256 * 256
}

/// Bytes per row of a readback buffer for a texture `width` texels wide: the unpadded row
/// rounded up to the copy alignment.
pub fn padded_bytes_per_row(width: u32, format: TextureFormat) -> (r: Result<
    usize,
    ProcessingError,
>)
    ensures
        is_supported(format) ==> r == Ok::<usize, ProcessingError>(
            spec_align_row(width * spec_pixel_size(format)) as usize,
        ),
        !is_supported(format) ==> r == Err::<usize, ProcessingError>(
            ProcessingError::UnsupportedTextureFormat,
        ),
{
    let px = pixel_size(format)?;
    assert(width as u64 * px as u64 <= 0xffff_ffff * 16) by (nonlinear_arith)
        requires
            px <= 16,
    ;
    let row = width as u64 * px as u64;
    let padded = (row + 255) / 256 * 256;
    Ok(padded as usize)
}

/// Size in bytes of the readback buffer of a `width` by `height` texture; a size past
/// `u64` is an invalid argument.
pub fn readback_buffer_size(width: u32, height: u32, format: TextureFormat) -> (r: Result<
    u64,
    ProcessingError,
>)
    ensures
        is_supported(format) && spec_align_row(width * spec_pixel_size(format)) * height
            <= u64::MAX ==> r == Ok::<u64, ProcessingError>(
            (spec_align_row(width * spec_pixel_size(format)) * height) as u64,
        ),
        is_supported(format) && spec_align_row(width * spec_pixel_size(format)) * height
            > u64::MAX ==> r matches Err(ProcessingError::InvalidArgument(_)),
        !is_supported(format) ==> r == Err::<u64, ProcessingError>(
            ProcessingError::UnsupportedTextureFormat,
        ),
{
    let px = pixel_size(format)?;
    assert(width as u64 * px as u64 <= 0xffff_ffff * 16) by (nonlinear_arith)
        requires
            px <= 16,
    ;
    let row = width as u64 * px as u64;
    let padded = (row + 255) / 256 * 256;
    match padded.checked_mul(height as u64) {
        Some(size) => Ok(size),
        None => Err(invalid_argument("readback buffer size overflows")),
    }
}

/// Whether a region lies inside a texture.
pub open spec fn region_fits(x: nat, y: nat, width: nat, height: nat, tex_width: nat, tex_height: nat) -> bool {
    x + width <= tex_width && y + height <= tex_height
}

/// Rejects a region that reaches past the texture's bounds.
pub fn check_region(x: u32, y: u32, width: u32, height: u32, tex_width: u32, tex_height: u32) -> (r:
    Result<(), ProcessingError>)
    ensures
        region_fits(x as nat, y as nat, width as nat, height as nat, tex_width as nat, tex_height as nat)
            ==> r is Ok,
        !region_fits(x as nat, y as nat, width as nat, height as nat, tex_width as nat, tex_height as nat)
            ==> r matches Err(ProcessingError::InvalidArgument(_)),
{
    if x as u64 + width as u64 > tex_width as u64 || y as u64 + height as u64 > tex_height as u64 {
        return Err(invalid_argument("region exceeds the texture's bounds"));
    }
    Ok(())
}

/// Validates the texels of a `width` by `height` region write and encodes them; returns the
/// bytes and the size of one texel.
pub fn prepare_update_region(width: u32, height: u32, pixels: &[Texel], format: TextureFormat) -> (r:
    Result<(Vec<u8>, u32), ProcessingError>)
    ensures
        pixels@.len() != width * height ==> r matches Err(ProcessingError::InvalidArgument(_)),
        pixels@.len() == width * height && !is_supported(format) ==> r == Err::<
            (Vec<u8>, u32),
            ProcessingError,
        >(ProcessingError::UnsupportedTextureFormat),
        pixels@.len() == width * height && is_supported(format) && !all_fit(
            pixels@,
            channel_width(format),
        ) ==> r matches Err(ProcessingError::InvalidArgument(_)),
        pixels@.len() == width * height && is_supported(format) && all_fit(
            pixels@,
            channel_width(format),
        ) ==> (r matches Ok((bytes, px)) && px == spec_pixel_size(format) && bytes@ == encode_texels(
            pixels@,
            channel_width(format),
        )),
{
    assert(width as u64 * height as u64 <= 0xffff_ffff * 0xffff_ffff) by (nonlinear_arith)
        requires
            width <= 0xffff_ffff,
            height <= 0xffff_ffff,
    ;
    if pixels.len() as u64 != width as u64 * height as u64 {
        return Err(invalid_argument("texel count does not match the region's size"));
    }
    let px = pixel_size(format)?;
    let bytes = pixels_to_bytes(pixels, format)?;
    Ok((bytes, px as u32))
}

proof fn lemma_unpadded_len(data: Seq<u8>, n: nat, width: nat, padded: nat, rows: nat)
    ensures
        unpadded_texels(data, n, width, padded, rows).len() == width * rows,
    decreases rows,
{
    if rows > 0 {
        lemma_unpadded_len(data, n, width, padded, (rows - 1) as nat);
        assert(width * (rows - 1) + width == width * rows) by (nonlinear_arith);
    } else {
        assert(width * rows == 0) by (nonlinear_arith)
            requires
                rows == 0,
        ;
    }
}

proof fn lemma_le_round_trip(code: nat, n: nat)
    requires
        code < code_limit(n),
    ensures
        le_bytes(code, n).len() == n,
        le_value(le_bytes(code, n)) == code,
    decreases n,
{
    if n > 0 {
        let m = (n - 1) as nat;
        assert(code / 256 < code_limit(m)) by (nonlinear_arith)
            requires
                code < 256 * code_limit(m),
        ;
        lemma_le_round_trip(code / 256, m);
        let b = le_bytes(code, n);
        assert(b.drop_first() =~= le_bytes(code / 256, m));
        assert(code % 256 + 256 * (code / 256) == code) by (nonlinear_arith);
    }
}

proof fn lemma_encode_len(ts: Seq<Texel>, n: nat)
    ensures
        encode_texels(ts, n).len() == ts.len() * (4 * n),
    decreases ts.len(),
{
    if ts.len() > 0 {
        lemma_encode_len(ts.drop_last(), n);
        lemma_le_len(ts.last().r as nat, n);
        lemma_le_len(ts.last().g as nat, n);
        lemma_le_len(ts.last().b as nat, n);
        lemma_le_len(ts.last().a as nat, n);
        assert((ts.len() - 1) * (4 * n) + 4 * n == ts.len() * (4 * n)) by (nonlinear_arith);
    }
}

proof fn lemma_le_len(code: nat, n: nat)
    ensures
        le_bytes(code, n).len() == n,
    decreases n,
{
    if n > 0 {
        lemma_le_len(code / 256, (n - 1) as nat);
    }
}

/// The bytes of texel `i` sit at `i * 4n` in an encoding.
proof fn lemma_encode_slot(ts: Seq<Texel>, n: nat, i: int)
    requires
        0 <= i < ts.len(),
    ensures
        i * (4 * n) + 4 * n <= encode_texels(ts, n).len(),
        encode_texels(ts, n).subrange(i * (4 * n), i * (4 * n) + 4 * n) == texel_bytes(ts[i], n),
    decreases ts.len(),
{
    let init = ts.drop_last();
    lemma_encode_len(ts, n);
    lemma_encode_len(init, n);
    let e = encode_texels(ts, n);
    let ei = encode_texels(init, n);
    let tb = texel_bytes(ts.last(), n);
    assert(e == ei + tb);
    assert(i * (4 * n) + 4 * n <= ts.len() * (4 * n)) by (nonlinear_arith)
        requires
            i < ts.len(),
    ;
    if i < init.len() {
        lemma_encode_slot(init, n, i);
        assert(e.subrange(i * (4 * n), i * (4 * n) + 4 * n) =~= ei.subrange(
            i * (4 * n),
            i * (4 * n) + 4 * n,
        ));
    } else {
        lemma_le_len(ts.last().r as nat, n);
        lemma_le_len(ts.last().g as nat, n);
        lemma_le_len(ts.last().b as nat, n);
        lemma_le_len(ts.last().a as nat, n);
        assert(i == init.len());
        assert(i * (4 * n) == ei.len());
        assert(e.subrange(i * (4 * n), i * (4 * n) + 4 * n) =~= tb);
    }
}

/// A texel read back from its own bytes is the texel, when its codes fit.
proof fn lemma_texel_at_slot(data: Seq<u8>, off: int, t: Texel, n: nat)
    requires
        0 <= off,
        off + 4 * n <= data.len(),
        data.subrange(off, off + 4 * n) == texel_bytes(t, n),
        texel_fits(t, n),
    ensures
        texel_at(data, off, n) == t,
{
    lemma_le_round_trip(t.r as nat, n);
    lemma_le_round_trip(t.g as nat, n);
    lemma_le_round_trip(t.b as nat, n);
    lemma_le_round_trip(t.a as nat, n);
    let tb = texel_bytes(t, n);
    let k = n as int;
    assert(data.subrange(off, off + n) =~= tb.subrange(0, k));
    assert(data.subrange(off + n, off + 2 * n) =~= tb.subrange(k, 2 * k));
    assert(data.subrange(off + 2 * n, off + 3 * n) =~= tb.subrange(2 * k, 3 * k));
    assert(data.subrange(off + 3 * n, off + 4 * n) =~= tb.subrange(3 * k, 4 * k));
    assert(tb.subrange(0, k) =~= le_bytes(t.r as nat, n));
    assert(tb.subrange(k, 2 * k) =~= le_bytes(t.g as nat, n));
    assert(tb.subrange(2 * k, 3 * k) =~= le_bytes(t.b as nat, n));
    assert(tb.subrange(3 * k, 4 * k) =~= le_bytes(t.a as nat, n));
}

proof fn lemma_unpadded_tight(ts: Seq<Texel>, n: nat, width: nat, rows: nat)
    requires
        n > 0,
        rows * width <= ts.len(),
        forall|i: int| 0 <= i < ts.len() ==> texel_fits(#[trigger] ts[i], n),
    ensures
        unpadded_texels(encode_texels(ts, n), n, width, width * (4 * n), rows) == ts.take(
            (rows * width) as int,
        ),
    decreases rows,
{
    let data = encode_texels(ts, n);
    let p = 4 * n;
    if rows > 0 {
        let r = (rows - 1) as nat;
        assert(r * width <= rows * width) by (nonlinear_arith)
            requires
                r < rows,
        ;
        lemma_unpadded_tight(ts, n, width, r);
        let row = row_texels(data, n, width, width * p, r);
        assert forall|col: int| 0 <= col < width implies row[col] == ts[r * width + col] by {
            let i = r * width + col;
            assert(i < rows * width) by (nonlinear_arith)
                requires
                    i == r * width + col,
                    col < width,
                    r + 1 == rows,
            ;
            assert(r * (width * p) + col * p == i * p) by (nonlinear_arith)
                requires
                    i == r * width + col,
            ;
            lemma_encode_slot(ts, n, i);
            lemma_texel_at_slot(data, i * p, ts[i], n);
        }
        assert(rows * width == r * width + width) by (nonlinear_arith)
            requires
                r + 1 == rows,
        ;
        let prev = unpadded_texels(data, n, width, width * p, r);
        let whole = unpadded_texels(data, n, width, width * p, rows);
        assert(whole == prev + row);
        assert(prev == ts.take((r * width) as int));
        assert forall|j: int| 0 <= j < rows * width implies whole[j] == ts[j] by {
            if j < r * width {
                assert(whole[j] == prev[j]);
            } else {
                let col = j - r * width;
                assert(whole[j] == row[col]);
                assert(row[col] == ts[r * width + col]);
            }
        }
        assert(whole =~= ts.take((rows * width) as int));
    } else {
        assert(rows * width == 0) by (nonlinear_arith)
            requires
                rows == 0,
        ;
        assert(ts.take(0) =~= seq![]);
    }
}

/// Encoding texels with no padding and decoding them with a row stride of exactly one row
/// gives back the texels, whenever each channel code fits the format's channel width: the
/// encoding holds exactly `height` such rows, so decoding succeeds.
pub proof fn lemma_codec_round_trip(
    pixels: Seq<Texel>,
    format: TextureFormat,
    width: nat,
    height: nat,
)
    requires
        is_supported(format),
        width > 0,
        pixels.len() == width * height,
        all_fit(pixels, channel_width(format)),
    ensures
        ({
            let n = channel_width(format);
            let data = encode_texels(pixels, n);
            let padded = width * spec_pixel_size(format);
            &&& padded > 0
            &&& data.len() == height * padded
            &&& unpadded_texels(data, n, width, padded, height) == pixels
        }),
{
    let n = channel_width(format);
    let data = encode_texels(pixels, n);
    let padded = width * (4 * n);
    lemma_encode_len(pixels, n);
    assert(data.len() == height * padded) by (nonlinear_arith)
        requires
            data.len() == pixels.len() * (4 * n),
            pixels.len() == width * height,
            padded == width * (4 * n),
    ;
    assert(padded > 0) by (nonlinear_arith)
        requires
            padded == width * (4 * n),
            width > 0,
            n > 0,
    ;
    assert(height * width == width * height) by (nonlinear_arith);
    lemma_unpadded_tight(pixels, n, width, height);
    assert(pixels.take((height * width) as int) =~= pixels) by {
        assert(height * width == width * height) by (nonlinear_arith);
    }
}

} // verus!
