use vstd::prelude::*;

verus! {

#[verifier::external_type_specification]
#[verifier::external_body]
pub struct ExDynamicImage(image::DynamicImage);

/// What a decoded image holds: the four RGBA channel bytes of the pixel at
/// each (x, y) position, a fixed function of the image value alone.
pub uninterp spec fn image_pixels(im: image::DynamicImage) -> Map<(int, int), Seq<u8>>;

/// A decoded image's width and height in pixels.
pub uninterp spec fn image_dims(im: image::DynamicImage) -> (int, int);

/// An opaque-white RGBA pixel: all four channel bytes at 255.
pub open spec fn is_white(p: Seq<u8>) -> bool {
    p =~= seq![255u8, 255u8, 255u8, 255u8]
}

/// Relies on image::GenericImageView::dimensions for DynamicImage: it
/// returns the image's width and height in pixels.
#[verifier::external_body]
pub(crate) fn image_dimensions(im: &image::DynamicImage) -> (r: (u32, u32))
    ensures
        image_dims(*im) == (r.0 as int, r.1 as int),
{
    image::GenericImageView::dimensions(im)
}

/// Relies on image::GenericImageView::get_pixel for DynamicImage: it returns
/// the RGBA pixel at (x, y), and panics outside the image's bounds.
#[verifier::external_body]
pub(crate) fn image_pixel_at(im: &image::DynamicImage, x: u32, y: u32) -> (r: [u8; 4])
    requires
        (x as int) < image_dims(*im).0,
        (y as int) < image_dims(*im).1,
    ensures
        r@ == image_pixels(*im)[(x as int, y as int)],
{
    image::GenericImageView::get_pixel(im, x, y).0
}

} // verus!
