//! Decoding the application's icon and logo into RGBA pixels of an exact
//! size, through the `image` crate.
use vstd::prelude::*;

verus! {

#[verifier::external_type_specification]
#[verifier::external_body]
pub struct ExDynamicImage(image::DynamicImage);

/// Relies on image::load_from_memory: decodes an image whose format is
/// guessed from its bytes, or fails.
#[verifier::external_body]
fn decode_image(bytes: &[u8]) -> (r: Option<image::DynamicImage>) {
    image::load_from_memory(bytes).ok()
}

/// Relies on image::DynamicImage::to_rgba8: the image as 8-bit RGBA samples,
/// with its width and height; the buffer holds at least four samples per
/// pixel.
#[verifier::external_body]
fn rgba_samples(img: &image::DynamicImage) -> (r: (Vec<u8>, u32, u32))
    ensures
        r.0@.len() >= 4 * (r.1 as int) * (r.2 as int),
{
    let rgba = img.to_rgba8();
    let (width, height) = rgba.dimensions();
    (rgba.into_raw(), width, height)
}

/// Relies on image::DynamicImage::resize_exact with the Lanczos3 filter: the
/// image scaled to the given size. The size is bounded so that the new
/// buffer's length cannot overflow.
#[verifier::external_body]
fn resize_image(img: &image::DynamicImage, width: u32, height: u32) -> (r: image::DynamicImage)
    requires
        (width as int) * (height as int) <= 0x100_0000,
{
    img.resize_exact(width, height, image::imageops::FilterType::Lanczos3)
}

/// An image as 8-bit RGBA samples, row by row.
pub struct IconImage {
    pub rgba: Vec<u8>,
    pub width: u32,
    pub height: u32,
}

/// The number of samples of an RGBA image of the given size.
pub open spec fn sample_count(width: u32, height: u32) -> int {
    4 * (width as int) * (height as int)
}

impl IconImage {
    /// Exactly four samples per pixel.
    pub open spec fn well_formed(&self) -> bool {
        self.rgba@.len() == sample_count(self.width, self.height)
    }

    /// The image of the given size whose samples are the first of `samples`;
    /// none when there are too few of them.
    pub fn from_samples(samples: Vec<u8>, width: u32, height: u32) -> (r: Option<IconImage>)
        ensures
            r is Some <==> samples@.len() >= sample_count(width, height),
            r matches Some(img) ==> img.well_formed() && img.width == width && img.height == height
                && img.rgba@ == samples@.subrange(0, sample_count(width, height)),
    {
        let mut samples = samples;
        let need: usize = if width == 0 || height == 0 {
            assert(sample_count(width, height) == 0) by (nonlinear_arith)
                requires
                    width == 0 || height == 0,
            ;
            0
        } else {
            let w = width as usize;
            let h = height as usize;
            match w.checked_mul(h) {
                Some(p) => match p.checked_mul(4) {
                    Some(n) => {
                        assert(sample_count(width, height) == n) by (nonlinear_arith)
                            requires
                                p == (width as int) * (height as int),
                                n == 4 * (p as int),
                        ;
                        n
                    },
                    None => {
                        assert(sample_count(width, height) == 4 * (p as int)) by (nonlinear_arith)
                            requires
                                p == (width as int) * (height as int),
                        ;
                        assert(samples@.len() == samples.len());
                        return None;
                    },
                },
                None => {
                    assert(sample_count(width, height) > usize::MAX) by (nonlinear_arith)
                        requires
                            (width as int) * (height as int) > usize::MAX,
                    ;
                    assert(samples@.len() == samples.len());
                    return None;
                },
            }
        };
        assert(need == sample_count(width, height));
        if samples.len() < need {
            return None;
        }
        samples.truncate(need);
        Some(IconImage { rgba: samples, width, height })
    }
}

/// Decodes an image into RGBA samples of its own size. Whether the bytes
/// decode is for the decoder to say; what comes back is well formed.
pub fn decode_icon(bytes: &[u8]) -> (r: Option<IconImage>)
    ensures
        r matches Some(img) ==> img.well_formed(),
{
    match decode_image(bytes) {
        Some(img) => {
            let (samples, width, height) = rgba_samples(&img);
            IconImage::from_samples(samples, width, height)
        },
        None => None,
    }
}

/// Decodes an image and scales it to `size` by `size` pixels.
pub fn decode_logo(bytes: &[u8], size: u32) -> (r: Option<IconImage>)
    requires
        size <= 4096,
    ensures
        r matches Some(img) ==> img.well_formed() && img.width == size && img.height == size,
{
    match decode_image(bytes) {
        Some(img) => {
            assert((size as int) * (size as int) <= 0x100_0000) by (nonlinear_arith)
                requires
                    size <= 4096,
            ;
            let scaled = resize_image(&img, size, size);
            let (samples, width, height) = rgba_samples(&scaled);
            if width != size || height != size {
                return None;
            }
            IconImage::from_samples(samples, width, height)
        },
        None => None,
    }
}

} // verus!
