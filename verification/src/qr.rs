//! Rendering text as a QR code bitmap, with its PNG encoding.

use qrcode::QrCode;
use vstd::prelude::*;
use vstd::string::StringSliceAdditionalSpecFns;

verus! {

/// The side, in pixels, of a QR bitmap.
pub const QR_SIDE: u32 = 280;

/// A rendered QR code: its size, its pixels as RGBA bytes row by row, and the
/// same image encoded as PNG.
#[derive(Debug, Clone, PartialEq, Eq)]
pub struct GeneratedQr {
    pub width: u32,
    pub height: u32,
    pub rgba: Vec<u8>,
    pub png_bytes: Vec<u8>,
}

/// Why `qrcode` refuses to encode `data`, in its own words; none when it
/// accepts the data.
pub uninterp spec fn qr_rejection(data: Seq<u8>) -> Option<Seq<char>>;

/// The width, height and 8-bit grey pixels (row by row, quiet zone included)
/// of the image that `qrcode` renders, towards `side` pixels, for the QR code
/// it makes of `data`.
pub uninterp spec fn qr_render(data: Seq<u8>, side: u32) -> (u32, u32, Seq<u8>);

/// How many modules wide the QR code is that `qrcode` makes of `data`.
pub uninterp spec fn qr_modules(data: Seq<u8>) -> nat;

/// The side, in pixels, of a rendering towards `side` of a code `modules`
/// wide: the code plus a quiet zone of four modules on each side, each module
/// as many pixels as fit whole into `side`, and at least one.
pub open spec fn qr_side(modules: nat, side: nat) -> nat {
    let w = modules + 8;
    w * (if side / w >= 1 { side / w } else { 1 })
}

/// The PNG file that `image` writes for an RGBA image of the given size and
/// pixels, or its error message.
pub uninterp spec fn png_encoding(width: u32, height: u32, rgba: Seq<u8>) -> Result<Seq<u8>, Seq<char>>;

/// `qrcode::QrCode::new(data)` (medium error correction, smallest normal QR
/// version 1 to 40 that holds the data), then its image renderer
/// (`render::<image::Luma<u8>>()`, `min_dimensions(side, side)`,
/// `max_dimensions(side, side)`, `build()`); the error becomes its `Display`
/// text. The contract names the outcome as a function of data and side, and
/// claims what the source shows of it: the code is 21 to 177 modules wide, the
/// image is a square of [`qr_side`] pixels, one byte per pixel, each dark (0)
/// or light (255).
#[verifier::external_body]
fn render_qr(data: &[u8], side: u32) -> (r: Result<(u32, u32, Vec<u8>), String>)
    requires
        0 < side <= 4096,
    ensures
        r is Ok <==> qr_rejection(data@) is None,
        r matches Err(e) ==> qr_rejection(data@) == Some(e@),
        r matches Ok((w, h, g)) ==> {
            &&& (w, h, g@) == qr_render(data@, side)
            &&& 21 <= qr_modules(data@) <= 177
            &&& w == h
            &&& w == qr_side(qr_modules(data@), side as nat)
            &&& g@.len() == w * h
            &&& forall|i: int| 0 <= i < g@.len() ==> #[trigger] g@[i] == 0 || g@[i] == 255
        },
{
    match QrCode::new(data) {
        Err(e) => Err(e.to_string()),
        Ok(code) => {
            let image = code.render::<image::Luma<u8>>().min_dimensions(side, side).max_dimensions(side, side).build();
            Ok((image.width(), image.height(), image.into_raw()))
        },
    }
}

/// Encodes an RGBA image as PNG through `image::RgbaImage::from_raw` and
/// `image::ImageBuffer::write_to` with `image::ImageFormat::Png` into memory,
/// handing the pixels back through `image::ImageBuffer::into_raw`.
/// The contract names the outcome, the error's `Display` text on failure, as a
/// function of size and pixels, and claims success for a non-empty image of at
/// most 4096 by 4096 pixels: the encoder fails on a zero width or height, and
/// otherwise only on chunks past 2 GiB, which such an image cannot reach.
#[verifier::external_body]
fn encode_png(width: u32, height: u32, rgba: Vec<u8>) -> (r: (Vec<u8>, Result<Vec<u8>, String>))
    requires
        rgba@.len() == 4 * width * height,
    ensures
        r.0@ == rgba@,
        match png_encoding(width, height, rgba@) {
            Ok(bytes) => r.1 matches Ok(v) && v@ == bytes,
            Err(m) => r.1 matches Err(e) && e@ == m,
        },
        0 < width <= 4096 && 0 < height <= 4096 ==> r.1 is Ok,
{
    let image = image::RgbaImage::from_raw(width, height, rgba).unwrap();
    let mut png = Vec::new();
    let outcome = match image.write_to(&mut std::io::Cursor::new(&mut png), image::ImageFormat::Png) {
        Ok(()) => Ok(png),
        Err(e) => Err(e.to_string()),
    };
    (image.into_raw(), outcome)
}

/// The RGBA bytes of grey pixels: each grey value `g` becomes `g, g, g, 255`.
pub open spec fn rgba_of(gray: Seq<u8>) -> Seq<u8>
    decreases gray.len(),
{
    if gray.len() == 0 {
        seq![]
    } else {
        rgba_of(gray.drop_last()) + seq![gray.last(), gray.last(), gray.last(), 255u8]
    }
}

proof fn lemma_rgba_len(gray: Seq<u8>)
    ensures
        rgba_of(gray).len() == 4 * gray.len(),
    decreases gray.len(),
{
    if gray.len() > 0 {
        lemma_rgba_len(gray.drop_last());
    }
}

/// Opaque RGBA pixels from grey ones.
pub fn gray_to_rgba(gray: &Vec<u8>) -> (r: Vec<u8>)
    ensures
        r@ == rgba_of(gray@),
{
    let mut out: Vec<u8> = Vec::new();
    let mut i: usize = 0;
    assert(gray@.take(0) =~= seq![]);
    while i < gray.len()
        invariant
            i <= gray.len(),
            out@ == rgba_of(gray@.take(i as int)),
        decreases gray.len() - i,
    {
        let g: u8 = gray[i];
        assert(gray@.take(i + 1).drop_last() =~= gray@.take(i as int));
        out.push(g);
        out.push(g);
        out.push(g);
        out.push(255);
        assert(out@ =~= rgba_of(gray@.take(i + 1)));
        i = i + 1;
    }
    assert(gray@.take(i as int) =~= gray@);
    out
}

/// `n` light (255) grey pixels.
pub open spec fn light_run(n: int) -> Seq<u8> {
    Seq::new(n as nat, |i: int| 255u8)
}

/// The margin, in pixels, left of and above a `w` pixel wide image centred
/// in a `side` pixel wide square.
pub open spec fn margin(w: int, side: int) -> int {
    (side - w) / 2
}

/// Row `y` of the `w` by `w` grey image `gray` centred in a `side` by `side`
/// square of light pixels.
pub open spec fn centred_row(gray: Seq<u8>, w: int, side: int, y: int) -> Seq<u8> {
    let off = margin(w, side);
    if off <= y < off + w {
        light_run(off) + gray.subrange((y - off) * w, (y - off) * w + w) + light_run(side - off - w)
    } else {
        light_run(side)
    }
}

/// The first `n` rows of `gray` centred in a `side` pixel square.
pub open spec fn centred_rows(gray: Seq<u8>, w: int, side: int, n: nat) -> Seq<u8>
    decreases n,
{
    if n == 0 {
        seq![]
    } else {
        centred_rows(gray, w, side, (n - 1) as nat) + centred_row(gray, w, side, n - 1)
    }
}

/// The `w` by `w` grey image `gray` centred, row by row, in a `side` by `side`
/// square padded with light pixels.
pub open spec fn centred(gray: Seq<u8>, w: int, side: int) -> Seq<u8> {
    centred_rows(gray, w, side, side as nat)
}

/// The grey pixels of the QR image that [`generate_qr`] returns for `data`:
/// `qrcode`'s rendering centred in a 280 by 280 square of light pixels.
pub open spec fn qr_image(data: Seq<u8>) -> Seq<u8> {
    centred(qr_render(data, QR_SIDE).2, qr_render(data, QR_SIDE).0 as int, QR_SIDE as int)
}

proof fn lemma_row_fits(r: int, w: int)
    requires
        0 <= r < w,
    ensures
        0 <= r * w,
        r * w + w <= w * w,
{
    assert(0 <= r * w && r * w + w <= w * w) by (nonlinear_arith)
        requires
            0 <= r < w,
    ;
}

proof fn lemma_centred_rows(gray: Seq<u8>, w: int, side: int, n: nat)
    requires
        0 < w <= side,
        gray.len() == w * w,
    ensures
        centred_rows(gray, w, side, n).len() == n * side,
        (forall|i: int| 0 <= i < gray.len() ==> #[trigger] gray[i] == 0 || gray[i] == 255) ==>
            forall|i: int| 0 <= i < centred_rows(gray, w, side, n).len() ==>
                #[trigger] centred_rows(gray, w, side, n)[i] == 0 || centred_rows(gray, w, side, n)[i] == 255,
    decreases n,
{
    if n > 0 {
        let m = (n - 1) as nat;
        lemma_centred_rows(gray, w, side, m);
        let off = margin(w, side);
        let y = n - 1;
        if off <= y < off + w {
            lemma_row_fits(y - off, w);
        }
        let row = centred_row(gray, w, side, y);
        assert(row.len() == side);
        assert(m * side + side == n * side) by (nonlinear_arith)
            requires
                m + 1 == n,
        ;
        if forall|i: int| 0 <= i < gray.len() ==> #[trigger] gray[i] == 0 || gray[i] == 255 {
            let front = centred_rows(gray, w, side, m);
            let all = centred_rows(gray, w, side, n);
            assert forall|i: int| 0 <= i < all.len() implies #[trigger] all[i] == 0 || all[i] == 255 by {
                if i < front.len() {
                    assert(all[i] == front[i]);
                } else {
                    let k = i - front.len();
                    assert(all[i] == row[k]);
                    if off <= y < off + w && off <= k < off + w {
                        assert(row[k] == gray[(y - off) * w + (k - off)]);
                    }
                }
            }
        }
    }
}

/// Appends `n` light pixels.
fn push_light(out: &mut Vec<u8>, n: usize)
    ensures
        final(out)@ == old(out)@ + light_run(n as int),
{
    let mut i: usize = 0;
    while i < n
        invariant
            i <= n,
            out@ == old(out)@ + light_run(i as int),
        decreases n - i,
    {
        out.push(255);
        i = i + 1;
        assert(out@ =~= old(out)@ + light_run(i as int));
    }
}

/// The `w` by `w` grey image `gray` centred in a `side` by `side` square of
/// light pixels.
pub fn centre_in_square(gray: &Vec<u8>, w: usize, side: usize) -> (r: Vec<u8>)
    requires
        0 < w <= side <= 4096,
        gray@.len() == w * w,
    ensures
        r@ == centred(gray@, w as int, side as int),
{
    let off: usize = (side - w) / 2;
    let mut out: Vec<u8> = Vec::new();
    let mut y: usize = 0;
    while y < side
        invariant
            0 < w <= side <= 4096,
            gray@.len() == w * w,
            off as int == margin(w as int, side as int),
            y <= side,
            out@ == centred_rows(gray@, w as int, side as int, y as nat),
        decreases side - y,
    {
        let ghost before = out@;
        if off <= y && y < off + w {
            proof {
                lemma_row_fits((y - off) as int, w as int);
                assert(w * w <= 4096 * 4096) by (nonlinear_arith)
                    requires
                        w <= 4096,
                ;
            }
            let start: usize = (y - off) * w;
            push_light(&mut out, off);
            let mut x: usize = 0;
            while x < w
                invariant
                    x <= w,
                    start + w <= gray@.len(),
                    gray@.len() == gray.len(),
                    out@ == before + light_run(off as int) + gray@.subrange(start as int, start + x),
                decreases w - x,
            {
                out.push(gray[start + x]);
                x = x + 1;
                assert(out@ =~= before + light_run(off as int) + gray@.subrange(start as int, start + x));
            }
            push_light(&mut out, side - off - w);
        } else {
            push_light(&mut out, side);
        }
        assert(out@ =~= centred_rows(gray@, w as int, side as int, (y + 1) as nat));
        y = y + 1;
    }
    out
}

/// Encodes `data` as a QR code, its image centred in 280 by 280 light pixels,
/// with its PNG encoding. Fails exactly when `qrcode` cannot encode the data.
pub fn generate_qr(data: &str) -> (r: Result<GeneratedQr, String>)
    ensures
        match qr_rejection(data.spec_bytes()) {
            Some(m) => r matches Err(e) && e@ == "QR generation failed: "@ + m,
            None => r matches Ok(g) && {
                &&& g.width == QR_SIDE
                &&& g.height == QR_SIDE
                &&& g.rgba@ == rgba_of(qr_image(data.spec_bytes()))
                &&& qr_image(data.spec_bytes()).len() == QR_SIDE * QR_SIDE
                &&& forall|i: int| 0 <= i < qr_image(data.spec_bytes()).len() ==>
                    #[trigger] qr_image(data.spec_bytes())[i] == 0 || qr_image(data.spec_bytes())[i] == 255
                &&& 21 <= qr_modules(data.spec_bytes()) <= 177
                &&& qr_render(data.spec_bytes(), QR_SIDE).0 == qr_side(qr_modules(data.spec_bytes()), QR_SIDE as nat)
                &&& png_encoding(g.width, g.height, g.rgba@) == Ok::<Seq<u8>, Seq<char>>(g.png_bytes@)
            },
        },
{
    let (width, height, gray) = match render_qr(data.as_bytes(), QR_SIDE) {
        Ok(bitmap) => bitmap,
        Err(message) => {
            let mut e = String::from_str("QR generation failed: ");
            e.append(message.as_str());
            return Err(e);
        },
    };
    proof {
        law_qr_side_within_target(qr_modules(data.spec_bytes()), QR_SIDE as nat);
    }
    let square = centre_in_square(&gray, width as usize, QR_SIDE as usize);
    proof {
        lemma_centred_rows(gray@, width as int, QR_SIDE as int, QR_SIDE as nat);
        lemma_rgba_len(square@);
    }
    let rgba = gray_to_rgba(&square);
    let (rgba, png) = encode_png(QR_SIDE, QR_SIDE, rgba);
    match png {
        Ok(png_bytes) => Ok(GeneratedQr { width: QR_SIDE, height: QR_SIDE, rgba, png_bytes }),
        Err(message) => {
            let mut e = String::from_str("Failed to encode PNG: ");
            e.append(message.as_str());
            Err(e)
        },
    }
}

/// A QR image rendered towards `side` pixels, for a code that fits with its
/// quiet zone, is at most `side` pixels wide and short of it by less than the
/// code's width in modules plus its quiet zone: the largest whole number of
/// pixels per module that fits.
pub proof fn law_qr_side_within_target(modules: nat, side: nat)
    requires
        0 < modules + 8 <= side,
    ensures
        qr_side(modules, side) <= side,
        side < qr_side(modules, side) + modules + 8,
{
    let w: int = (modules + 8) as int;
    vstd::arithmetic::div_mod::lemma_fundamental_div_mod(side as int, w);
    vstd::arithmetic::div_mod::lemma_mod_pos_bound(side as int, w);
    vstd::arithmetic::div_mod::lemma_div_pos_is_pos(side as int, w);
    assert(side as int / w >= 1) by {
        vstd::arithmetic::div_mod::lemma_div_is_ordered(w, side as int, w);
        vstd::arithmetic::div_mod::lemma_div_basics(w);
    }
}

} // verus!
