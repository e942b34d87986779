use vstd::prelude::*;

use crate::image::{Image, Rgb8};

verus! {

/// ASCII codes of the characters that the stream holds besides digits.
pub const NEWLINE: u8 = 10;

pub const SPACE: u8 = 32;

pub const LETTER_P: u8 = 80;

pub const DIGIT_ZERO: u8 = 48;

/// ASCII code of the digit `d` (0..=9).
pub open spec fn digit_byte(d: nat) -> u8 {
    (DIGIT_ZERO + d) as u8
}

/// Decimal text of `n`, most significant digit first, without leading zeros.
pub open spec fn decimal(n: nat) -> Seq<u8>
    decreases n,
{
    if n < 10 {
        seq![digit_byte(n)]
    } else {
        decimal(n / 10).push(digit_byte(n % 10))
    }
}

/// Appends the decimal text of `n` to `out`.
pub fn push_decimal(out: &mut Vec<u8>, n: usize)
    ensures
        final(out)@ == old(out)@ + decimal(n as nat),
    decreases n,
{
    if n >= 10 {
        push_decimal(out, n / 10);
    }
    out.push(DIGIT_ZERO + (n % 10) as u8);
}

/// The header of a plain (ASCII) PPM stream: the magic `P3`, then `<width> <height>`,
/// then the largest channel value `255`, one per line.
pub open spec fn header_text(width: nat, height: nat) -> Seq<u8> {
    seq![LETTER_P, digit_byte(3), NEWLINE] + decimal(width) + seq![SPACE] + decimal(height) + seq![
        NEWLINE,
        digit_byte(2),
        digit_byte(5),
        digit_byte(5),
        NEWLINE,
    ]
}

/// One pixel as the line `<r> <g> <b>`.
pub open spec fn pixel_text(p: Rgb8) -> Seq<u8> {
    decimal(p.r as nat) + seq![SPACE] + decimal(p.g as nat) + seq![SPACE] + decimal(p.b as nat)
        + seq![NEWLINE]
}

/// The lines of `ps`, one per pixel, in order.
pub open spec fn pixels_text(ps: Seq<Rgb8>) -> Seq<u8>
    decreases ps.len(),
{
    if ps.len() == 0 {
        Seq::empty()
    } else {
        pixels_text(ps.drop_last()) + pixel_text(ps.last())
    }
}

/// The whole image stream: the header, then one line per pixel in emission order.
pub open spec fn ppm_text(width: nat, height: nat, ps: Seq<Rgb8>) -> Seq<u8> {
    header_text(width, height) + pixels_text(ps)
}

/// Appends the three header lines of a `width` by `height` image.
pub fn push_header(out: &mut Vec<u8>, width: usize, height: usize)
    ensures
        final(out)@ == old(out)@ + header_text(width as nat, height as nat),
{
    let ghost start = out@;
    out.push(LETTER_P);
    out.push(DIGIT_ZERO + 3);
    out.push(NEWLINE);
    push_decimal(out, width);
    out.push(SPACE);
    push_decimal(out, height);
    out.push(NEWLINE);
    out.push(DIGIT_ZERO + 2);
    out.push(DIGIT_ZERO + 5);
    out.push(DIGIT_ZERO + 5);
    out.push(NEWLINE);
    assert(out@ =~= start + header_text(width as nat, height as nat));
}

/// Appends the line of one pixel.
pub fn push_pixel(out: &mut Vec<u8>, p: Rgb8)
    ensures
        final(out)@ == old(out)@ + pixel_text(p),
{
    let ghost start = out@;
    push_decimal(out, p.r as usize);
    out.push(SPACE);
    push_decimal(out, p.g as usize);
    out.push(SPACE);
    push_decimal(out, p.b as usize);
    out.push(NEWLINE);
    assert(out@ =~= start + pixel_text(p));
}

/// The image as a text stream: the header, then every pixel, top row first.
pub fn encode(img: &Image) -> (out: Vec<u8>)
    ensures
        out@ == ppm_text(img.spec_width(), img.spec_height(), img@),
{
    let mut out: Vec<u8> = Vec::new();
    push_header(&mut out, img.width(), img.height());
    let ps = img.pixels();
    let ghost head = out@;
    let mut k: usize = 0;
    while k < ps.len()
        invariant
            k <= ps@.len(),
            ps@ == img@,
            head == header_text(img.spec_width(), img.spec_height()),
            out@ == head + pixels_text(ps@.take(k as int)),
        decreases ps@.len() - k,
    {
        let ghost before = out@;
        push_pixel(&mut out, ps[k]);
        proof {
            let t = ps@.take(k as int + 1);
            assert(t.drop_last() =~= ps@.take(k as int));
            assert(t.last() == ps@[k as int]);
            assert(out@ =~= head + pixels_text(t));
        }
        k = k + 1;
    }
    assert(ps@.take(ps@.len() as int) =~= ps@);
    out
}

} // verus!
