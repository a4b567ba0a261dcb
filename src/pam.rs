//! Encoding of images in the PAM format (RGB with alpha, 8 bits per channel).
use vstd::prelude::*;

use vstd::string::StringSliceAdditionalSpecFns;

use crate::renderer::Image;

verus! {

/// The ASCII decimal digits of `n`, most significant first, without leading zeros.
pub open spec fn decimal(n: nat) -> Seq<u8>
    decreases n,
{
    if n < 10 {
        seq![(48 + n) as u8]
    } else {
        decimal(n / 10).push((48 + n % 10) as u8)
    }
}

/// The header of a PAM image of the given size.
pub open spec fn pam_header(width: nat, height: nat) -> Seq<u8> {
    "P7\nWIDTH ".spec_bytes() + decimal(width) + "\nHEIGHT ".spec_bytes() + decimal(height)
        + "\nDEPTH 4\nMAXVAL 255\nTUPLTYPE RGB_ALPHA\nENDHDR\n".spec_bytes()
}

/// The first `rows` rows of `data`: `row_len` bytes at the start of every
/// `stride` bytes.
pub open spec fn pam_rows(data: Seq<u8>, row_len: nat, stride: nat, rows: nat) -> Seq<u8>
    decreases rows,
{
    if rows == 0 {
        Seq::empty()
    } else {
        let start = (rows - 1) * stride;
        pam_rows(data, row_len, stride, (rows - 1) as nat) + data.subrange(
            start as int,
            start + row_len,
        )
    }
}

/// The PAM encoding of an image: the header, then each row without its padding.
pub open spec fn pam_bytes(image: Image) -> Seq<u8> {
    let m = image.meta;
    pam_header(m.width as nat, m.height as nat) + pam_rows(
        image.data@,
        (m.width * 4) as nat,
        m.stride as nat,
        m.height as nat,
    )
}

fn push_text(out: &mut Vec<u8>, text: &str)
    ensures
        final(out)@ == old(out)@ + text.spec_bytes(),
{
    let bytes = text.as_bytes();
    let mut i: usize = 0;
    while i < bytes.len()
        invariant
            bytes@ == text.spec_bytes(),
            i <= bytes@.len(),
            out@ == old(out)@ + bytes@.take(i as int),
        decreases bytes@.len() - i,
    {
        out.push(bytes[i]);
        i = i + 1;
        assert(out@ =~= old(out)@ + bytes@.take(i as int));
    }
    assert(bytes@.take(i as int) =~= bytes@);
}

fn push_decimal(out: &mut Vec<u8>, n: usize)
    ensures
        final(out)@ == old(out)@ + decimal(n as nat),
    decreases n,
{
    if n >= 10 {
        push_decimal(out, n / 10);
    }
    let digit: u8 = (n % 10) as u8;
    out.push(48u8 + digit);
    assert(out@ =~= old(out)@ + decimal(n as nat));
}

/// Appends the PAM encoding of `image` to `writer`.
pub fn write_pam(writer: &mut Vec<u8>, image: &Image)
    requires
        image.meta.width * 4 <= image.meta.stride,
        image.data@.len() == image.meta.height * image.meta.stride,
    ensures
        final(writer)@ == old(writer)@ + pam_bytes(*image),
{
    let bytes_per_pixel: usize = 4;
    let bytes_per_row: usize = image.meta.width * bytes_per_pixel;
    let height = image.meta.height;
    let stride = image.meta.stride;

    push_text(writer, "P7\nWIDTH ");
    push_decimal(writer, image.meta.width);
    push_text(writer, "\nHEIGHT ");
    push_decimal(writer, height);
    push_text(writer, "\nDEPTH 4\nMAXVAL 255\nTUPLTYPE RGB_ALPHA\nENDHDR\n");
    let ghost head = writer@;
    assert(head == old(writer)@ + pam_header(image.meta.width as nat, height as nat));

    let total: usize = image.data.len();
    let mut y: usize = 0;
    while y < height
        invariant
            y <= height,
            bytes_per_row == image.meta.width * 4,
            height == image.meta.height,
            stride == image.meta.stride,
            bytes_per_row <= stride,
            image.data@.len() == height * stride,
            total == image.data@.len(),
            writer@ == head + pam_rows(image.data@, bytes_per_row as nat, stride as nat, y as nat),
        decreases height - y,
    {
        proof {
            assert((y + 1) * stride <= height * stride) by (nonlinear_arith)
                requires
                    y < height,
            ;
            assert((y + 1) * stride == y * stride + stride) by (nonlinear_arith);
            assert(y * stride + bytes_per_row <= image.data@.len());
        }
        let start = y * stride;
        let end = start + bytes_per_row;
        let ghost before = writer@;
        let mut i: usize = start;
        while i < end
            invariant
                start <= i <= end,
                end <= image.data@.len(),
                writer@ == before + image.data@.subrange(start as int, i as int),
            decreases end - i,
        {
            writer.push(image.data[i]);
            i = i + 1;
            assert(writer@ =~= before + image.data@.subrange(start as int, i as int));
        }
        y = y + 1;
        assert(writer@ =~= head + pam_rows(image.data@, bytes_per_row as nat, stride as nat, y as nat));
    }
}

} // verus!
