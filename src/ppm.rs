//! Plain-text PPM ("P3") encoding of 8-bit RGB pixels.
use vstd::prelude::*;

verus! {

/// One output pixel, each channel already quantised to `0..=255`.
#[derive(Clone, Copy, Debug, PartialEq, Eq, Structural)]
pub struct Rgb8 {
    pub r: u8,
    pub g: u8,
    pub b: u8,
}

pub const NEWLINE: u8 = 10;

pub const SPACE: u8 = 32;

pub const DIGIT_ZERO: u8 = 48;

/// ASCII decimal digits of `n`, most significant first, without leading zeros.
pub open spec fn decimal(n: nat) -> Seq<u8>
    decreases n,
{
    if n < 10 {
        seq![(DIGIT_ZERO + n) as u8]
    } else {
        decimal(n / 10).push((DIGIT_ZERO + n % 10) as u8)
    }
}

/// `P3`, the width and height separated by a space, and the maximum channel value 255,
/// each on a line of its own.
pub open spec fn header_text(width: nat, height: nat) -> Seq<u8> {
    seq![80u8, 51u8, NEWLINE] + decimal(width) + seq![SPACE] + decimal(height) + seq![
        NEWLINE,
        50u8,
        53u8,
        53u8,
        NEWLINE,
    ]
}

/// The line `"{r} {g} {b}\n"` of one pixel.
pub open spec fn line_text(p: Rgb8) -> Seq<u8> {
    decimal(p.r as nat) + seq![SPACE] + decimal(p.g as nat) + seq![SPACE] + decimal(p.b as nat)
        + seq![NEWLINE]
}

/// The lines of `pixels`, one after the other, in the order given.
pub open spec fn pixels_text(pixels: Seq<Rgb8>) -> Seq<u8>
    decreases pixels.len(),
{
    if pixels.len() == 0 {
        Seq::empty()
    } else {
        pixels_text(pixels.drop_last()) + line_text(pixels.last())
    }
}

/// A whole image file: the header, then one line per pixel, row-major, top row first.
pub open spec fn ppm_text(width: nat, height: nat, pixels: Seq<Rgb8>) -> Seq<u8> {
    header_text(width, height) + pixels_text(pixels)
}

/// Appends the decimal digits of `n` to `out`.
fn push_decimal(out: &mut Vec<u8>, n: u32)
    ensures
        final(out)@ == old(out)@ + decimal(n as nat),
    decreases n,
{
    if n >= 10 {
        push_decimal(out, n / 10);
    }
    out.push(DIGIT_ZERO + (n % 10) as u8);
    assert(out@ =~= old(out)@ + decimal(n as nat));
}

/// The header of a PPM file for a `width` by `height` image.
pub fn ppm_header(width: u32, height: u32) -> (r: Vec<u8>)
    ensures
        r@ == header_text(width as nat, height as nat),
{
    let mut out: Vec<u8> = Vec::new();
    out.push(80u8);
    out.push(51u8);
    out.push(NEWLINE);
    push_decimal(&mut out, width);
    out.push(SPACE);
    push_decimal(&mut out, height);
    out.push(NEWLINE);
    out.push(50u8);
    out.push(53u8);
    out.push(53u8);
    out.push(NEWLINE);
    assert(out@ =~= header_text(width as nat, height as nat));
    out
}

/// Appends the line of pixel `p` to `out`.
fn push_line(out: &mut Vec<u8>, p: Rgb8)
    ensures
        final(out)@ == old(out)@ + line_text(p),
{
    push_decimal(out, p.r as u32);
    out.push(SPACE);
    push_decimal(out, p.g as u32);
    out.push(SPACE);
    push_decimal(out, p.b as u32);
    out.push(NEWLINE);
    assert(out@ =~= old(out)@ + line_text(p));
}

/// The text `"{r} {g} {b}\n"` of one pixel.
pub fn pixel_line(p: Rgb8) -> (r: Vec<u8>)
    ensures
        r@ == line_text(p),
{
    let mut out: Vec<u8> = Vec::new();
    push_line(&mut out, p);
    assert(out@ =~= line_text(p));
    out
}

/// The lines of `pixels`, in order: one scanline or a whole image body.
pub fn encode_pixels(pixels: &Vec<Rgb8>) -> (r: Vec<u8>)
    ensures
        r@ == pixels_text(pixels@),
{
    let mut out: Vec<u8> = Vec::new();
    let mut i: usize = 0;
    while i < pixels.len()
        invariant
            i <= pixels@.len(),
            out@ == pixels_text(pixels@.take(i as int)),
        decreases pixels@.len() - i,
    {
        let p: Rgb8 = pixels[i];
        push_line(&mut out, p);
        assert(pixels@.take(i + 1).drop_last() =~= pixels@.take(i as int));
        i += 1;
    }
    assert(pixels@.take(i as int) =~= pixels@);
    out
}

/// The whole PPM file of a `width` by `height` image whose pixels are given
/// row-major, top row first.
pub fn encode_ppm(width: u32, height: u32, pixels: &Vec<Rgb8>) -> (r: Vec<u8>)
    requires
        pixels@.len() == width * height,
    ensures
        r@ == ppm_text(width as nat, height as nat, pixels@),
{
    let mut out: Vec<u8> = ppm_header(width, height);
    let mut body: Vec<u8> = encode_pixels(pixels);
    out.append(&mut body);
    out
}

/// Writing an image scanline by scanline gives the same text as writing all
/// its pixels at once.
pub proof fn lemma_pixels_text_concat(a: Seq<Rgb8>, b: Seq<Rgb8>)
    ensures
        pixels_text(a + b) == pixels_text(a) + pixels_text(b),
    decreases b.len(),
{
    if b.len() == 0 {
        assert(a + b =~= a);
        assert(pixels_text(b) =~= Seq::empty());
        assert(pixels_text(a) + pixels_text(b) =~= pixels_text(a));
    } else {
        lemma_pixels_text_concat(a, b.drop_last());
        assert((a + b).drop_last() =~= a + b.drop_last());
        assert((a + b).last() == b.last());
        assert(pixels_text(a + b) =~= pixels_text(a) + pixels_text(b));
    }
}

} // verus!
