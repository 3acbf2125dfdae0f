//! The plain-text pixel image format: a `P3` header line, a
//! `<width> <height>` line, a `255` line, then one `<r> <g> <b>` line per
//! pixel in row-major order.

use vstd::prelude::*;
use vstd::string::*;

use crate::decimal::{all_digits, decimal, lemma_decimal_digits, push_decimal};

verus! {

/// The three header lines of an image of the given size.
pub open spec fn ppm_header(width: nat, height: nat) -> Seq<char> {
    seq!['P', '3', '\n'] + decimal(width) + seq![' '] + decimal(height) + seq![
        '\n',
        '2',
        '5',
        '5',
        '\n',
    ]
}

/// The line of one pixel, channels in decimal separated by single spaces.
pub open spec fn pixel_line(r: u8, g: u8, b: u8) -> Seq<char> {
    decimal(r as nat) + seq![' '] + decimal(g as nat) + seq![' '] + decimal(b as nat) + seq!['\n']
}

/// The lines of a sequence of pixels, in order.
pub open spec fn pixel_lines(pixels: Seq<(u8, u8, u8)>) -> Seq<char>
    decreases pixels.len(),
{
    if pixels.len() == 0 {
        Seq::empty()
    } else {
        let p = pixels.last();
        pixel_lines(pixels.drop_last()) + pixel_line(p.0, p.1, p.2)
    }
}

/// A whole image: the header followed by the line of every pixel.
pub open spec fn ppm_image(width: nat, height: nat, pixels: Seq<(u8, u8, u8)>) -> Seq<char> {
    ppm_header(width, height) + pixel_lines(pixels)
}

/// The number of line breaks in `s`.
pub open spec fn line_count(s: Seq<char>) -> nat
    decreases s.len(),
{
    if s.len() == 0 {
        0
    } else {
        line_count(s.drop_last()) + if s.last() == '\n' {
            1nat
        } else {
            0nat
        }
    }
}

/// Starts an image with its header lines.
pub fn initialize_ppm(width: u32, height: u32) -> (r: String)
    ensures
        r@ == ppm_header(width as nat, height as nat),
{
    let mut s = String::from_str("P3\n");
    push_decimal(&mut s, width);
    s.append(" ");
    push_decimal(&mut s, height);
    s.append("\n255\n");
    proof {
        reveal_strlit("P3\n");
        reveal_strlit(" ");
        reveal_strlit("\n255\n");
        assert(s@ =~= ppm_header(width as nat, height as nat));
    }
    s
}

/// Appends the line of one pixel, given its three channel values.
pub fn add_pixel_to_ppm(img: &mut String, r: u8, g: u8, b: u8)
    ensures
        final(img)@ == old(img)@ + pixel_line(r, g, b),
{
    push_decimal(img, r as u32);
    img.append(" ");
    push_decimal(img, g as u32);
    img.append(" ");
    push_decimal(img, b as u32);
    img.append("\n");
    proof {
        reveal_strlit(" ");
        reveal_strlit("\n");
        assert(img@ =~= old(img)@ + pixel_line(r, g, b));
    }
}

proof fn lemma_line_count_concat(a: Seq<char>, b: Seq<char>)
    ensures
        line_count(a + b) == line_count(a) + line_count(b),
    decreases b.len(),
{
    if b.len() > 0 {
        lemma_line_count_concat(a, b.drop_last());
        assert((a + b).drop_last() =~= a + b.drop_last());
    }
}

proof fn lemma_line_count_digits(s: Seq<char>)
    requires
        all_digits(s),
    ensures
        line_count(s) == 0,
    decreases s.len(),
{
    if s.len() > 0 {
        assert(all_digits(s.drop_last()));
        lemma_line_count_digits(s.drop_last());
    }
}

proof fn lemma_pixel_line_count(r: u8, g: u8, b: u8)
    ensures
        line_count(pixel_line(r, g, b)) == 1,
{
    reveal_with_fuel(line_count, 2);
    let sp = seq![' '];
    let nl = seq!['\n'];
    lemma_decimal_digits(r as nat);
    lemma_decimal_digits(g as nat);
    lemma_decimal_digits(b as nat);
    lemma_line_count_digits(decimal(r as nat));
    lemma_line_count_digits(decimal(g as nat));
    lemma_line_count_digits(decimal(b as nat));
    assert(line_count(sp) == 0) by {
        assert(sp.drop_last() =~= Seq::<char>::empty());
    }
    assert(line_count(nl) == 1) by {
        assert(nl.drop_last() =~= Seq::<char>::empty());
    }
    let s1 = decimal(r as nat) + sp;
    let s2 = s1 + decimal(g as nat);
    let s3 = s2 + sp;
    let s4 = s3 + decimal(b as nat);
    lemma_line_count_concat(decimal(r as nat), sp);
    lemma_line_count_concat(s1, decimal(g as nat));
    lemma_line_count_concat(s2, sp);
    lemma_line_count_concat(s3, decimal(b as nat));
    lemma_line_count_concat(s4, nl);
}

proof fn lemma_pixel_lines_count(pixels: Seq<(u8, u8, u8)>)
    ensures
        line_count(pixel_lines(pixels)) == pixels.len(),
    decreases pixels.len(),
{
    if pixels.len() > 0 {
        let p = pixels.last();
        lemma_pixel_lines_count(pixels.drop_last());
        lemma_pixel_line_count(p.0, p.1, p.2);
        lemma_line_count_concat(pixel_lines(pixels.drop_last()), pixel_line(p.0, p.1, p.2));
    }
}

proof fn lemma_header_count(width: nat, height: nat)
    ensures
        line_count(ppm_header(width, height)) == 3,
{
    reveal_with_fuel(line_count, 6);
    let a = seq!['P', '3', '\n'];
    let sp = seq![' '];
    let z = seq!['\n', '2', '5', '5', '\n'];
    lemma_decimal_digits(width);
    lemma_decimal_digits(height);
    lemma_line_count_digits(decimal(width));
    lemma_line_count_digits(decimal(height));
    assert(line_count(sp) == 0) by {
        assert(sp.drop_last() =~= Seq::<char>::empty());
    }
    assert(line_count(a) == 1) by {
        assert(a.drop_last() =~= seq!['P', '3']);
        assert(a.drop_last().drop_last() =~= seq!['P']);
        assert(a.drop_last().drop_last().drop_last() =~= Seq::<char>::empty());
    }
    assert(line_count(z) == 2) by {
        assert(z.drop_last() =~= seq!['\n', '2', '5', '5']);
        assert(z.drop_last().drop_last() =~= seq!['\n', '2', '5']);
        assert(z.drop_last().drop_last().drop_last() =~= seq!['\n', '2']);
        assert(z.drop_last().drop_last().drop_last().drop_last() =~= seq!['\n']);
        assert(seq!['\n'].drop_last() =~= Seq::<char>::empty());
    }
    let s1 = a + decimal(width);
    let s2 = s1 + sp;
    let s3 = s2 + decimal(height);
    lemma_line_count_concat(a, decimal(width));
    lemma_line_count_concat(s1, sp);
    lemma_line_count_concat(s2, decimal(height));
    lemma_line_count_concat(s3, z);
}

/// Appending the line of one more pixel to the text of an image gives the
/// image with that pixel added last: the text that `initialize_ppm` and a
/// run of `add_pixel_to_ppm` calls build is `ppm_image` of those pixels.
pub proof fn lemma_ppm_image_push(width: nat, height: nat, pixels: Seq<(u8, u8, u8)>, p: (u8, u8, u8))
    ensures
        ppm_image(width, height, pixels.push(p)) == ppm_image(width, height, pixels) + pixel_line(
            p.0,
            p.1,
            p.2,
        ),
{
    assert(pixels.push(p).drop_last() =~= pixels);
    assert(ppm_image(width, height, pixels.push(p)) =~= ppm_image(width, height, pixels)
        + pixel_line(p.0, p.1, p.2));
}

/// An image of `width` by `height` pixels written with `initialize_ppm`
/// and one `add_pixel_to_ppm` per pixel holds exactly three header lines
/// and `width * height` pixel lines, and ends with a line break.
pub proof fn lemma_ppm_image_lines(width: u32, height: u32, pixels: Seq<(u8, u8, u8)>)
    requires
        pixels.len() == width * height,
    ensures
        line_count(ppm_image(width as nat, height as nat, pixels)) == 3 + width * height,
        ppm_image(width as nat, height as nat, pixels).last() == '\n',
{
    lemma_header_count(width as nat, height as nat);
    lemma_pixel_lines_count(pixels);
    lemma_line_count_concat(ppm_header(width as nat, height as nat), pixel_lines(pixels));
    let img = ppm_image(width as nat, height as nat, pixels);
    if pixels.len() == 0 {
        assert(img =~= ppm_header(width as nat, height as nat));
    } else {
        let p = pixels.last();
        assert(img =~= (ppm_header(width as nat, height as nat) + pixel_lines(pixels.drop_last()))
            + pixel_line(p.0, p.1, p.2));
    }
}

} // verus!
