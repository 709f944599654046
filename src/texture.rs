use image::RgbImage;
use vstd::prelude::*;

verus! {

/// The pixels of a `width` by `height` image stored row-major, three samples
/// (red, green, blue) per pixel: row by row from the top, each left to right.
pub open spec fn rows_of(width: nat, height: nat, samples: Seq<u8>) -> Seq<Seq<(u8, u8, u8)>> {
    Seq::new(
        height,
        |y: int|
            Seq::new(
                width,
                |x: int|
                    {
                        let base = 3 * (y * width + x);
                        (samples[base], samples[base + 1], samples[base + 2])
                    },
            ),
    )
}

/// A texture that looks colors up in a decoded RGB image.
#[verifier::external_body]
pub struct Image {
    image: RgbImage,
}

/// The pixels of an image texture, row by row from the top.
pub uninterp spec fn image_rows(img: Image) -> Seq<Seq<(u8, u8, u8)>>;

/// The smaller of `a` and `b`.
pub open spec fn min_nat(a: nat, b: nat) -> nat {
    if a <= b { a } else { b }
}

/// The texel of `rows` at column `i`, row `j`, each index clamped to the last
/// pixel; none for an image without pixels.
pub open spec fn texel_of(rows: Seq<Seq<(u8, u8, u8)>>, i: nat, j: nat) -> Option<(u8, u8, u8)> {
    if rows.len() == 0 || rows[0].len() == 0 {
        None
    } else {
        let y = min_nat(j, (rows.len() - 1) as nat);
        Some(rows[y as int][min_nat(i, (rows[y as int].len() - 1) as nat) as int])
    }
}

impl Image {
    /// Relies on `ImageBuffer::from_raw`: it keeps the samples as a row-major
    /// image when they hold at least three per pixel, and gives `None` otherwise.
    #[verifier::external_body]
    pub fn new(width: u32, height: u32, samples: Vec<u8>) -> (r: Option<Image>)
        ensures
            r is Some <==> samples@.len() >= 3 * width * height,
            r matches Some(img) ==> image_rows(img) == rows_of(width as nat, height as nat, samples@),
    {
        RgbImage::from_raw(width, height, samples).map(|image| Image { image })
    }

    /// Relies on `ImageBuffer::height`: the number of pixel rows.
    #[verifier::external_body]
    fn height(&self) -> (r: u32)
        ensures
            r == image_rows(*self).len(),
    {
        self.image.height()
    }

    /// Relies on `ImageBuffer::width`: the number of pixels in every row.
    #[verifier::external_body]
    fn width(&self) -> (r: u32)
        ensures
            forall|y: int| 0 <= y < image_rows(*self).len() ==> #[trigger] image_rows(*self)[y].len() == r,
    {
        self.image.width()
    }

    /// Relies on `ImageBuffer::get_pixel`: the pixel in column `x` of row `y`,
    /// which panics outside the image.
    #[verifier::external_body]
    fn pixel(&self, x: u32, y: u32) -> (r: (u8, u8, u8))
        requires
            y < image_rows(*self).len(),
            x < image_rows(*self)[y as int].len(),
        ensures
            r == image_rows(*self)[y as int][x as int],
    {
        let p = self.image.get_pixel(x, y);
        (p.0[0], p.0[1], p.0[2])
    }

    /// The pixel at column `i`, row `j` (from the top), with indices past the
    /// edge clamped to the last column or row; `None` when the image is empty.
    pub fn texel(&self, i: u32, j: u32) -> (r: Option<(u8, u8, u8)>)
        ensures
            r == texel_of(image_rows(*self), i as nat, j as nat),
    {
        let height = self.height();
        let width = self.width();
        if height == 0 || width == 0 {
            return None;
        }
        let x = if i < width { i } else { width - 1 };
        let y = if j < height { j } else { height - 1 };
        Some(self.pixel(x, y))
    }
}

/// Whether the checker cell at integer coordinates `(x, y, z)` takes the even
/// texture: the coordinates sum to an even number.
pub fn checker_is_even(x: i64, y: i64, z: i64) -> (r: bool)
    ensures
        r == ((x + y + z) % 2 == 0),
{
    let s: i128 = x as i128 + y as i128 + z as i128;
    s % 2 == 0
}

} // verus!
