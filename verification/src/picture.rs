//! A picture of the window as a PNG file.
use vstd::prelude::*;

verus! {

/// What the `png` crate writes for an image of red, green, blue and opacity, eight bits each, or
/// what it says of one that it does not write.
pub uninterp spec fn png_file(rgba: Seq<u8>, width: u32, height: u32) -> Result<
    Seq<u8>,
    Seq<char>,
>;

/// `png::Encoder` with `write_header` and `png::Writer::write_image_data`, into memory: what is
/// written depends on the pixels and the size alone. An image is written if and only if neither side
/// is zero and there are four bytes for each pixel. Which bytes make up the file is not stated.
#[verifier::external_body]
fn write_png(rgba: &[u8], width: u32, height: u32) -> (r: Result<Vec<u8>, String>)
    requires
        width * height * 4 <= usize::MAX,
    ensures
        match (r, png_file(rgba@, width, height)) {
            (Ok(file), Ok(expected)) => file@ == expected,
            (Err(reason), Err(expected)) => reason@ == expected,
            _ => false,
        },
        (r is Ok) == (width != 0 && height != 0 && rgba@.len() == width * height * 4),
{
    let mut file = Vec::new();
    let mut encoder = png::Encoder::new(&mut file, width, height);
    encoder.set_color(png::ColorType::Rgba);
    encoder.set_depth(png::BitDepth::Eight);
    let written = encoder.write_header().and_then(|mut writer| writer.write_image_data(rgba));
    match written {
        Ok(()) => Ok(file),
        Err(error) => Err(error.to_string()),
    }
}

/// The bytes of pixels, one pixel behind the other.
pub open spec fn flat_pixels(pixels: Seq<[u8; 4]>) -> Seq<u8> {
    Seq::new((pixels.len() * 4) as nat, |i: int| pixels[i / 4]@[i % 4])
}

/// The bytes of pixels, one pixel behind the other.
pub fn pixel_bytes(pixels: &[[u8; 4]]) -> (bytes: Vec<u8>)
    ensures
        bytes@ == flat_pixels(pixels@),
{
    let mut bytes: Vec<u8> = Vec::new();
    for i in 0..pixels.len()
        invariant
            bytes@.len() == 4 * i,
            forall|j: int| 0 <= j < 4 * i ==> #[trigger] bytes@[j] == pixels@[j / 4]@[j % 4],
    {
        let pixel = pixels[i];
        bytes.push(pixel[0]);
        bytes.push(pixel[1]);
        bytes.push(pixel[2]);
        bytes.push(pixel[3]);
    }
    assert(bytes@ =~= flat_pixels(pixels@));
    bytes
}

/// What is said of a size that is too large for the file.
pub open spec fn too_large() -> Seq<char> {
    "out of range integral type conversion attempted"@
}

/// The file of a picture.
pub open spec fn picture_file(pixels: Seq<[u8; 4]>, width: usize, height: usize) -> Result<
    Seq<u8>,
    Seq<char>,
> {
    if width > u32::MAX || height > u32::MAX {
        Err(too_large())
    } else {
        png_file(flat_pixels(pixels), width as u32, height as u32)
    }
}

/// Writes the file of a picture.
pub fn encode_picture(pixels: &[[u8; 4]], width: usize, height: usize) -> (r: Result<
    Vec<u8>,
    String,
>)
    requires
        width * height * 4 <= usize::MAX,
    ensures
        match (r, picture_file(pixels@, width, height)) {
            (Ok(file), Ok(expected)) => file@ == expected,
            (Err(reason), Err(expected)) => reason@ == expected,
            _ => false,
        },
        r is Ok <==> 0 < width <= u32::MAX && 0 < height <= u32::MAX && pixels@.len() == width
            * height,
{
    if width > u32::MAX as usize || height > u32::MAX as usize {
        return Err("out of range integral type conversion attempted".to_owned());
    }
    let bytes = pixel_bytes(pixels);
    assert((width as u32) * (height as u32) * 4 == width * height * 4);
    write_png(bytes.as_slice(), width as u32, height as u32)
}

/// Whether the pixels of a process's picture are as many as its size says.
pub fn icon_fits(width: u32, height: u32, bytes: usize) -> (r: bool)
    ensures
        r == (width * height * 4 == bytes),
{
    proof {
        assert(width * height <= u32::MAX * u32::MAX) by (nonlinear_arith)
            requires
                width <= u32::MAX,
                height <= u32::MAX,
        ;
        assert(0 <= width * height) by (nonlinear_arith);
    }
    width as u128 * height as u128 * 4 == bytes as u128
}

} // verus!
