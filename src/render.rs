use image::ImageEncoder;
use vstd::arithmetic::div_mod::lemma_fundamental_div_mod_converse;
use vstd::prelude::*;

verus! {

/// The PNG file that image's encoder writes for an 8-bit RGB buffer of
/// `width` × `height` pixels, or `None` where it reports an error.
pub uninterp spec fn png_of(width: u32, height: u32, rgb: Seq<u8>) -> Option<Seq<u8>>;

/// Relies on image's `PngEncoder::write_image` with `ColorType::Rgb8`, writing
/// into a `Vec`: the bytes written depend on the buffer and the dimensions
/// alone. It panics unless the buffer holds three bytes per pixel.
#[verifier::external_body]
fn encode_png(rgb: &Vec<u8>, width: u32, height: u32) -> (r: Option<Vec<u8>>)
    requires
        rgb@.len() == 3 * width * height,
    ensures
        match r {
            Some(b) => png_of(width, height, rgb@) == Some(b@),
            None => png_of(width, height, rgb@) is None,
        },
{
    let mut out: Vec<u8> = Vec::new();
    let encoder = image::codecs::png::PngEncoder::new(&mut out);
    match encoder.write_image(rgb, width, height, image::ColorType::Rgb8) {
        Ok(()) => Some(out),
        Err(_) => None,
    }
}

/// The gzip stream that flate2's encoder (default level, default header)
/// writes for `data`, or `None` where it reports an error.
pub uninterp spec fn gzip_of(data: Seq<u8>) -> Option<Seq<u8>>;

/// Relies on flate2's `GzEncoder` at the default level, writing into a `Vec`:
/// the header carries no time or platform, so the stream depends on the data
/// alone.
#[verifier::external_body]
pub(crate) fn gzip(data: &Vec<u8>) -> (r: Option<Vec<u8>>)
    ensures
        match r {
            Some(b) => gzip_of(data@) == Some(b@),
            None => gzip_of(data@) is None,
        },
{
    let mut encoder = flate2::write::GzEncoder::new(Vec::new(), flate2::Compression::default());
    match std::io::Write::write_all(&mut encoder, data) {
        Ok(()) => encoder.finish().ok(),
        Err(_) => None,
    }
}

/// Channel `k` (0 red, 1 green, 2 blue) of an RGB triple.
pub open spec fn channel(c: (u8, u8, u8), k: int) -> u8 {
    if k == 0 {
        c.0
    } else if k == 1 {
        c.1
    } else {
        c.2
    }
}

/// The RGB value of the pixel at column `x`, row `y` of the image.
pub open spec fn pixel_rgb(palette: Seq<(u8, u8, u8)>, colors: Seq<u8>, height: nat, x: int, y: int) -> (u8, u8, u8) {
    palette[colors[x * height + y] as int]
}

/// The raw image of a grid, row after row from the top, three bytes per
/// pixel; cell `(x, y)` is column `x` of row `y`.
pub open spec fn rgb_of(palette: Seq<(u8, u8, u8)>, colors: Seq<u8>, width: nat, height: nat) -> Seq<u8> {
    Seq::new(
        3 * width * height,
        |i: int| channel(pixel_rgb(palette, colors, height, (i / 3) % width as int, (i / 3) / width as int), i % 3),
    )
}

/// Turns a grid of palette indices (stored column after column) into the raw
/// RGB image.
pub fn render_rgb(palette: &Vec<(u8, u8, u8)>, colors: &Vec<u8>, width: usize, height: usize) -> (r: Vec<u8>)
    requires
        colors@.len() == width * height,
        3 * width * height <= usize::MAX,
        forall|i: int| 0 <= i < colors@.len() ==> (#[trigger] colors@[i] as int) < palette@.len(),
    ensures
        r@ == rgb_of(palette@, colors@, width as nat, height as nat),
{
    let mut out: Vec<u8> = Vec::new();
    let ghost full = rgb_of(palette@, colors@, width as nat, height as nat);
    let mut y: usize = 0;
    while y < height
        invariant
            colors@.len() == width * height,
            3 * width * height <= usize::MAX,
            forall|i: int| 0 <= i < colors@.len() ==> (#[trigger] colors@[i] as int) < palette@.len(),
            full == rgb_of(palette@, colors@, width as nat, height as nat),
            y <= height,
            out@.len() == 3 * (y * width),
            forall|i: int| 0 <= i < out@.len() ==> out@[i] == #[trigger] full[i],
        decreases height - y,
    {
        let mut x: usize = 0;
        while x < width
            invariant
                colors@.len() == width * height,
                3 * width * height <= usize::MAX,
                forall|i: int| 0 <= i < colors@.len() ==> (#[trigger] colors@[i] as int) < palette@.len(),
                full == rgb_of(palette@, colors@, width as nat, height as nat),
                y < height,
                x <= width,
                out@.len() == 3 * (y * width + x),
                forall|i: int| 0 <= i < out@.len() ==> out@[i] == #[trigger] full[i],
            decreases width - x,
        {
            proof {
                assert(x * height + y < width * height) by (nonlinear_arith)
                    requires x < width, y < height;
                assert(x * height <= x * height + y);
                assert(width * height <= 3 * width * height) by (nonlinear_arith);
                assert(y * width + x < width * height) by (nonlinear_arith)
                    requires x < width, y < height;
            }
            let c = palette[colors[x * height + y] as usize];
            let ghost p: int = (y * width + x) as int;
            proof {
                lemma_fundamental_div_mod_converse(p, width as int, y as int, x as int);
                assert forall|k: int| 0 <= k < 3 implies full[3 * p + k] == channel(c, k) by {
                    lemma_fundamental_div_mod_converse(3 * p + k, 3, p, k);
                    assert(3 * p + k < 3 * width * height) by (nonlinear_arith)
                        requires p < width * height, 0 <= k < 3;
                }
            }
            out.push(c.0);
            out.push(c.1);
            out.push(c.2);
            proof {
                assert(full[3 * p + 0] == channel(c, 0));
                assert(full[3 * p + 1] == channel(c, 1));
                assert(full[3 * p + 2] == channel(c, 2));
                assert(out@.len() == 3 * (y * width + x + 1)) by (nonlinear_arith)
                    requires out@.len() == 3 * (y * width + x) + 3;
            }
            x = x + 1;
        }
        proof {
            assert(3 * (y * width + width) == 3 * ((y + 1) * width)) by (nonlinear_arith);
        }
        y = y + 1;
    }
    proof {
        assert(3 * (height * width) == 3 * width * height) by (nonlinear_arith);
        assert(out@.len() == full.len());
        assert(out@ =~= full);
    }
    out
}

/// Renders a grid as a PNG image: the raw RGB image, then the encoder.
pub fn render_png(palette: &Vec<(u8, u8, u8)>, colors: &Vec<u8>, width: u32, height: u32) -> (r: Option<Vec<u8>>)
    requires
        colors@.len() == width * height,
        3 * width * height <= usize::MAX,
        forall|i: int| 0 <= i < colors@.len() ==> (#[trigger] colors@[i] as int) < palette@.len(),
    ensures
        match r {
            Some(b) => png_of(width, height, rgb_of(palette@, colors@, width as nat, height as nat)) == Some(b@),
            None => png_of(width, height, rgb_of(palette@, colors@, width as nat, height as nat)) is None,
        },
{
    let rgb = render_rgb(palette, colors, width as usize, height as usize);
    encode_png(&rgb, width, height)
}

} // verus!
