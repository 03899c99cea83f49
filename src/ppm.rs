use vstd::prelude::*;

verus! {

/// One pixel as it is written to a PPM file: three channels of 0 to 255.
#[derive(Clone, Copy, Debug, PartialEq, Eq, Structural)]
pub struct Rgb8 {
    pub r: u8,
    pub g: u8,
    pub b: u8,
}

/// The ASCII digit for `d`, where `d < 10`.
pub open spec fn digit_char(d: nat) -> char {
    ((d + 48) as u8) as char
}

/// `n` in decimal, with no leading zeros.
pub open spec fn decimal(n: nat) -> Seq<char>
    decreases n,
{
    if n < 10 {
        seq![digit_char(n)]
    } else {
        decimal(n / 10).push(digit_char(n % 10))
    }
}

/// The line `"<r> <g> <b>\n"` of one pixel.
pub open spec fn pixel_line(p: Rgb8) -> Seq<char> {
    decimal(p.r as nat) + seq![' '] + decimal(p.g as nat) + seq![' '] + decimal(p.b as nat)
        + seq!['\n']
}

/// The pixel lines of `px`, in order.
pub open spec fn pixel_lines(px: Seq<Rgb8>) -> Seq<char>
    decreases px.len(),
{
    if px.len() == 0 {
        Seq::empty()
    } else {
        pixel_line(px[0]) + pixel_lines(px.drop_first())
    }
}

/// The three header lines: the magic number of plain-text PPM,
/// `"<width> <height>"` and the maximum channel value `"255"`.
pub open spec fn ppm_header(width: nat, height: nat) -> Seq<char> {
    seq!['P', '3', '\n'] + decimal(width) + seq![' '] + decimal(height) + seq![
        '\n',
        '2',
        '5',
        '5',
        '\n',
    ]
}

/// A plain-text PPM file: the header, then one line per pixel.
pub open spec fn ppm_text(width: nat, height: nat, px: Seq<Rgb8>) -> Seq<char> {
    ppm_header(width, height) + pixel_lines(px)
}

pub open spec fn is_digit(c: char) -> bool {
    '0' <= c && c <= '9'
}

/// The value of the digit `c`.
pub open spec fn digit_value(c: char) -> nat {
    (c as u32 - '0' as u32) as nat
}

/// How many decimal digits `s` starts with.
pub open spec fn digits_len(s: Seq<char>) -> nat
    decreases s.len(),
{
    if s.len() > 0 && is_digit(s[0]) {
        1 + digits_len(s.drop_first())
    } else {
        0
    }
}

/// The number that the digits `s` write.
pub open spec fn digits_value(s: Seq<char>) -> nat
    decreases s.len(),
{
    if s.len() == 0 {
        0
    } else {
        digits_value(s.drop_last()) * 10 + digit_value(s.last())
    }
}

/// Reads a number and the separator `sep` that ends it: the number and what
/// follows the separator.
pub open spec fn read_field(s: Seq<char>, sep: char) -> Option<(nat, Seq<char>)> {
    let k = digits_len(s);
    if 0 < k && k < s.len() && s[k as int] == sep {
        Some((digits_value(s.take(k as int)), s.skip(k + 1 as int)))
    } else {
        None
    }
}

/// Reads pixel lines up to the end of `s`.
pub open spec fn read_pixels(s: Seq<char>) -> Option<Seq<Rgb8>>
    decreases s.len(),
{
    if s.len() == 0 {
        Some(Seq::empty())
    } else {
        match read_field(s, ' ') {
            Some((r, s1)) => match read_field(s1, ' ') {
                Some((g, s2)) => match read_field(s2, '\n') {
                    Some((b, s3)) => {
                        if r <= 255 && g <= 255 && b <= 255 && s3.len() < s.len() {
                            match read_pixels(s3) {
                                Some(rest) => Some(
                                    seq![Rgb8 { r: r as u8, g: g as u8, b: b as u8 }] + rest,
                                ),
                                None => None,
                            }
                        } else {
                            None
                        }
                    },
                    None => None,
                },
                None => None,
            },
            None => None,
        }
    }
}

/// Reads a plain-text PPM file with a maximum channel value of 255: its
/// width, its height and its pixels, if it is one.
pub open spec fn ppm_parse(s: Seq<char>) -> Option<(nat, nat, Seq<Rgb8>)> {
    if s.len() >= 3 && s.take(3) == seq!['P', '3', '\n'] {
        match read_field(s.skip(3), ' ') {
            Some((w, s1)) => match read_field(s1, '\n') {
                Some((h, s2)) => match read_field(s2, '\n') {
                    Some((m, s3)) => {
                        if m == 255 {
                            match read_pixels(s3) {
                                Some(px) => {
                                    if px.len() == w * h {
                                        Some((w, h, px))
                                    } else {
                                        None
                                    }
                                },
                                None => None,
                            }
                        } else {
                            None
                        }
                    },
                    None => None,
                },
                None => None,
            },
            None => None,
        }
    } else {
        None
    }
}

proof fn lemma_digit_char(d: nat)
    requires
        d < 10,
    ensures
        is_digit(digit_char(d)),
        digit_value(digit_char(d)) == d,
{
}

proof fn lemma_decimal_digits(n: nat)
    ensures
        decimal(n).len() > 0,
        forall|i: int| 0 <= i < decimal(n).len() ==> is_digit(#[trigger] decimal(n)[i]),
        digits_value(decimal(n)) == n,
    decreases n,
{
    if n >= 10 {
        lemma_decimal_digits(n / 10);
        lemma_digit_char(n % 10);
        let d = decimal(n);
        assert(d.drop_last() =~= decimal(n / 10));
        assert(n / 10 * 10 + n % 10 == n);
    } else {
        lemma_digit_char(n);
        assert(decimal(n).drop_last() =~= Seq::<char>::empty());
        assert(digits_value(Seq::<char>::empty()) == 0);
    }
}

proof fn lemma_digits_len(d: Seq<char>, rest: Seq<char>)
    requires
        forall|i: int| 0 <= i < d.len() ==> is_digit(#[trigger] d[i]),
        rest.len() > 0,
        !is_digit(rest[0]),
    ensures
        digits_len(d + rest) == d.len(),
    decreases d.len(),
{
    if d.len() == 0 {
        assert(d + rest =~= rest);
    } else {
        assert((d + rest).drop_first() =~= d.drop_first() + rest);
        lemma_digits_len(d.drop_first(), rest);
    }
}

proof fn lemma_read_field(n: nat, sep: char, rest: Seq<char>)
    requires
        !is_digit(sep),
    ensures
        read_field(decimal(n) + seq![sep] + rest, sep) == Some((n, rest)),
{
    let d = decimal(n);
    let s = d + seq![sep] + rest;
    lemma_decimal_digits(n);
    assert(s =~= d + (seq![sep] + rest));
    lemma_digits_len(d, seq![sep] + rest);
    assert(s.take(d.len() as int) =~= d);
    assert(s.skip(d.len() + 1 as int) =~= rest);
}

proof fn lemma_read_pixels(px: Seq<Rgb8>)
    ensures
        read_pixels(pixel_lines(px)) == Some(px),
    decreases px.len(),
{
    if px.len() > 0 {
        let p = px[0];
        let tail = pixel_lines(px.drop_first());
        let s = pixel_lines(px);
        let s3 = tail;
        let s2 = decimal(p.b as nat) + seq!['\n'] + s3;
        let s1 = decimal(p.g as nat) + seq![' '] + s2;
        assert(s =~= decimal(p.r as nat) + seq![' '] + s1);
        lemma_read_field(p.r as nat, ' ', s1);
        lemma_read_field(p.g as nat, ' ', s2);
        lemma_read_field(p.b as nat, '\n', s3);
        assert(s3.len() < s.len());
        lemma_read_pixels(px.drop_first());
        assert(seq![Rgb8 { r: p.r, g: p.g, b: p.b }] + px.drop_first() =~= px);
        assert(read_field(s, ' ') == Some((p.r as nat, s1)));
        assert(read_field(s1, ' ') == Some((p.g as nat, s2)));
        assert(read_field(s2, '\n') == Some((p.b as nat, s3)));
        assert(read_pixels(s3) == Some(px.drop_first()));
    } else {
        assert(pixel_lines(px) =~= Seq::<char>::empty());
    }
}

/// Decoding the PPM text of an image gives back its width, its height and
/// every pixel's channel values.
pub proof fn lemma_ppm_round_trip(width: nat, height: nat, px: Seq<Rgb8>)
    requires
        px.len() == width * height,
    ensures
        ppm_parse(ppm_text(width, height, px)) == Some((width, height, px)),
{
    let s = ppm_text(width, height, px);
    let s3 = pixel_lines(px);
    let s2 = decimal(255) + seq!['\n'] + s3;
    let s1 = decimal(height) + seq!['\n'] + s2;
    let s0 = decimal(width) + seq![' '] + s1;
    assert(decimal(255) =~= seq!['2', '5', '5']) by {
        assert(decimal(25) =~= seq!['2', '5']) by {
            assert(decimal(2) =~= seq!['2']);
        }
    }
    assert(s =~= seq!['P', '3', '\n'] + s0);
    assert(s.take(3) =~= seq!['P', '3', '\n']);
    assert(s.skip(3) =~= s0);
    lemma_read_field(width, ' ', s1);
    lemma_read_field(height, '\n', s2);
    lemma_read_field(255, '\n', s3);
    lemma_read_pixels(px);
}

/// Relies on `String::push`: appends one character at the end.
#[verifier::external_body]
fn push_char(s: &mut String, c: char)
    ensures
        final(s)@ == old(s)@.push(c),
{
    s.push(c)
}

fn push_digit(s: &mut String, d: usize)
    requires
        d < 10,
    ensures
        final(s)@ == old(s)@.push(digit_char(d as nat)),
{
    let b: u8 = d as u8;
    push_char(s, (b + 48) as char);
}

/// Appends `n` in decimal.
fn push_decimal(s: &mut String, n: usize)
    ensures
        final(s)@ == old(s)@ + decimal(n as nat),
    decreases n,
{
    if n >= 10 {
        push_decimal(s, n / 10);
    }
    push_digit(s, n % 10);
}

fn push_pixel_line(s: &mut String, p: Rgb8)
    ensures
        final(s)@ == old(s)@ + pixel_line(p),
{
    push_decimal(s, p.r as usize);
    push_char(s, ' ');
    push_decimal(s, p.g as usize);
    push_char(s, ' ');
    push_decimal(s, p.b as usize);
    push_char(s, '\n');
}

proof fn lemma_pixel_lines_push(px: Seq<Rgb8>, p: Rgb8)
    ensures
        pixel_lines(px.push(p)) == pixel_lines(px) + pixel_line(p),
    decreases px.len(),
{
    if px.len() == 0 {
        assert(px.push(p).drop_first() =~= Seq::<Rgb8>::empty());
        assert(pixel_lines(px.push(p).drop_first()) == Seq::<char>::empty());
        assert(pixel_lines(px.push(p)) =~= pixel_lines(px) + pixel_line(p));
    } else {
        lemma_pixel_lines_push(px.drop_first(), p);
        assert(px.push(p).drop_first() =~= px.drop_first().push(p));
        assert(px.push(p)[0] == px[0]);
        assert(pixel_lines(px.push(p)) =~= pixel_lines(px) + pixel_line(p));
    }
}

/// Encodes a `width` x `height` image, given row by row from the top, as
/// plain-text PPM.
pub fn encode_ppm(width: usize, height: usize, pixels: &Vec<Rgb8>) -> (r: String)
    ensures
        r@ == ppm_text(width as nat, height as nat, pixels@),
{
    let mut s = String::new();
    push_char(&mut s, 'P');
    push_char(&mut s, '3');
    push_char(&mut s, '\n');
    push_decimal(&mut s, width);
    push_char(&mut s, ' ');
    push_decimal(&mut s, height);
    push_char(&mut s, '\n');
    push_char(&mut s, '2');
    push_char(&mut s, '5');
    push_char(&mut s, '5');
    push_char(&mut s, '\n');
    assert(s@ =~= ppm_header(width as nat, height as nat));
    let ghost header = s@;
    let mut i: usize = 0;
    while i < pixels.len()
        invariant
            i <= pixels.len(),
            s@ == header + pixel_lines(pixels@.take(i as int)),
        decreases pixels.len() - i,
    {
        proof {
            lemma_pixel_lines_push(pixels@.take(i as int), pixels@[i as int]);
            assert(pixels@.take(i as int).push(pixels@[i as int]) =~= pixels@.take(i + 1));
        }
        push_pixel_line(&mut s, pixels[i]);
        i = i + 1;
    }
    assert(pixels@.take(i as int) =~= pixels@);
    s
}

} // verus!
