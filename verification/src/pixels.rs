//! The finished picture: bytes in rows, three to a pixel.
//!
//! The host traces the rays and averages their colours. What it hands over,
//! one vector per pixel, is cut down to bytes and laid out here, and read back
//! pixel by pixel when the picture is shown.

use crate::colors::holds_color;
use crate::colors::lemma_color_round_trip;
use crate::colors::spec_get_color;
use crate::colors::Color;
use crate::vector::Vector3;
use vstd::arithmetic::div_mod::lemma_fundamental_div_mod_converse;
use vstd::prelude::*;

verus! {

/// How many bytes a picture of `width` by `height` pixels takes.
pub open spec fn spec_byte_count(width: u32, height: u32) -> int {
    3 * (width as int) * (height as int)
}

/// Where the three bytes of the pixel in column `column` of row `row` start in
/// a picture that is `width` pixels wide. Rows follow one another from the top.
pub open spec fn spec_offset(width: u32, column: u32, row: u32) -> int {
    3 * ((row as int) * (width as int) + (column as int))
}

/// The byte that channel `channel` of the colour of `vec` becomes: red, green,
/// blue for 0, 1, 2.
pub open spec fn spec_channel_byte(vec: Vector3, channel: int) -> u8 {
    vec.spec_component(channel).spec_to_u8()
}

/// The bytes of a picture whose pixels have the colours `colors`, pixel after
/// pixel: each component cut down to its whole part and held to the range of a
/// byte.
pub open spec fn spec_bytes(colors: Seq<Vector3>) -> Seq<u8> {
    Seq::new(3 * colors.len(), |k: int| spec_channel_byte(colors[k / 3], k % 3))
}

/// The row of the view, counted from its bottom, that row `row` of a picture
/// of `height` rows shows: the picture is stored from the top down, the view
/// is sampled from the bottom up.
pub open spec fn spec_traced_row(height: u32, row: u32) -> int {
    height - 1 - row
}

/// The column and the row of the view, the row counted from the bottom, that
/// pixel `k` of a picture of `width` by `height` pixels shows; none where the
/// picture has no such pixel. Divided by the width and the height they are
/// the coordinates on the image plane of the ray that fills the pixel.
pub open spec fn spec_sample_position(width: u32, height: u32, k: int) -> Option<(u32, u32)> {
    if 0 <= k < (width as int) * (height as int) {
        Some(((k % (width as int)) as u32, (height - 1 - k / (width as int)) as u32))
    } else {
        None
    }
}

/// Finds the column and the row of the view that pixel `k` of a picture
/// shows.
pub fn sample_position(width: u32, height: u32, k: usize) -> (at: Option<(u32, u32)>)
    ensures
        at == spec_sample_position(width, height, k as int),
        at matches Some((column, row)) ==> column < width && row < height,
{
    assert(0 <= (width as int) * (height as int) <= 0xFFFF_FFFF * 0xFFFF_FFFF) by (nonlinear_arith)
        requires
            0 <= width <= 0xFFFF_FFFF,
            0 <= height <= 0xFFFF_FFFF,
    ;
    let pixels: u64 = (width as u64) * (height as u64);
    if (k as u64) < pixels {
        let across: u64 = width as u64;
        assert(across > 0) by (nonlinear_arith)
            requires
                0 <= k < across * height,
        ;
        let column: u64 = k as u64 % across;
        let down: u64 = k as u64 / across;
        assert(down < height) by (nonlinear_arith)
            requires
                k < across * height,
                down == k as int / across as int,
                across > 0,
        ;
        Some((column as u32, height - 1 - down as u32))
    } else {
        None
    }
}

/// A picture: its width and height in pixels, and three bytes for each pixel,
/// row after row from the top.
pub struct PixelBuffer {
    width: u32,
    height: u32,
    data: Vec<u8>,
}

impl View for PixelBuffer {
    type V = Seq<u8>;

    closed spec fn view(&self) -> Seq<u8> {
        self.data@
    }
}

impl PixelBuffer {
    #[verifier::type_invariant]
    spec fn sized(self) -> bool {
        self.data@.len() == spec_byte_count(self.width, self.height)
    }

    pub closed spec fn spec_width(self) -> u32 {
        self.width
    }

    pub closed spec fn spec_height(self) -> u32 {
        self.height
    }

    /// The colour of the pixel in column `column` of row `row`; none outside
    /// the picture.
    pub open spec fn spec_pixel(self, column: u32, row: u32) -> Option<Color> {
        if column < self.spec_width() && row < self.spec_height() {
            let at = spec_offset(self.spec_width(), column, row);
            Some(Color { r: self@[at], g: self@[at + 1], b: self@[at + 2], a: 255 })
        } else {
            None
        }
    }

    /// Makes the picture of `width` by `height` pixels whose pixels, row after
    /// row from the top, have the colours `colors`. There is no picture where
    /// `colors` does not hold one colour for each pixel, or where the bytes
    /// would be more than the machine can count.
    pub fn assemble(width: u32, height: u32, colors: &Vec<Vector3>) -> (picture: Option<
        PixelBuffer,
    >)
        ensures
            picture is Some <==> colors@.len() == width * height && spec_byte_count(width, height)
                <= usize::MAX,
            picture matches Some(p) ==> p.spec_width() == width && p.spec_height() == height && p@
                == spec_bytes(colors@),
    {
        assert(0 <= (width as int) * (height as int) <= 0xFFFF_FFFF * 0xFFFF_FFFF
            && 3 * (width as int) * (height as int) == 3 * ((width as int) * (height as int)))
            by (nonlinear_arith)
            requires
                0 <= width <= 0xFFFF_FFFF,
                0 <= height <= 0xFFFF_FFFF,
        ;
        let pixels: u64 = (width as u64) * (height as u64);
        if colors.len() as u64 != pixels || pixels > (usize::MAX / 3) as u64 {
            return None;
        }
        let mut data: Vec<u8> = Vec::new();
        let mut index: usize = 0;
        while index < colors.len()
            invariant
                index <= colors.len(),
                data@.len() == 3 * index,
                forall|k: int|
                    0 <= k < data@.len() ==> #[trigger] data@[k] == spec_channel_byte(
                        colors@[k / 3],
                        k % 3,
                    ),
            decreases colors.len() - index,
        {
            let color = colors[index];
            data.push(color.x.to_u8());
            data.push(color.y.to_u8());
            data.push(color.z.to_u8());
            index = index + 1;
        }
        assert(data@ =~= spec_bytes(colors@));
        Some(PixelBuffer { width, height, data })
    }

    /// The width of the picture in pixels.
    pub fn width(&self) -> (w: u32)
        ensures
            w == self.spec_width(),
    {
        self.width
    }

    /// The height of the picture in pixels.
    pub fn height(&self) -> (h: u32)
        ensures
            h == self.spec_height(),
    {
        self.height
    }

    /// The bytes of the picture, three to a pixel, row after row from the top.
    pub fn bytes(&self) -> (b: &Vec<u8>)
        ensures
            b@ == self@,
            b@.len() == spec_byte_count(self.spec_width(), self.spec_height()),
    {
        proof {
            use_type_invariant(self);
        }
        &self.data
    }

    /// Reads the colour of the pixel in column `column` of row `row`.
    pub fn pixel(&self, column: u32, row: u32) -> (c: Option<Color>)
        ensures
            c == self.spec_pixel(column, row),
    {
        proof {
            use_type_invariant(self);
        }
        if column < self.width && row < self.height {
            let across: usize = self.width as usize;
            let down: usize = row as usize;
            proof {
                lemma_offset_fits(self.width, self.height, column, row);
                assert(self.data.len() == spec_byte_count(self.width, self.height));
                assert((down as int) * (across as int) == (row as int) * (self.width as int))
                    by (nonlinear_arith)
                    requires
                        down as int == row as int,
                        across as int == self.width as int,
                ;
            }
            let at: usize = 3 * (down * across + column as usize);
            Some(Color::RGB(self.data[at], self.data[at + 1], self.data[at + 2]))
        } else {
            None
        }
    }
}

/// The three bytes of a pixel inside the picture lie inside its bytes.
pub proof fn lemma_offset_fits(width: u32, height: u32, column: u32, row: u32)
    requires
        column < width,
        row < height,
    ensures
        0 <= spec_offset(width, column, row),
        spec_offset(width, column, row) + 2 < spec_byte_count(width, height),
        0 <= (row as int) * (width as int),
        (row as int) * (width as int) + (column as int) < (width as int) * (height as int),
        spec_byte_count(width, height) == 3 * ((width as int) * (height as int)),
{
    let w = width as int;
    let h = height as int;
    let c = column as int;
    let r = row as int;
    assert(r * w + c < w * h && 0 <= r * w && 3 * w * h == 3 * (w * h)) by (nonlinear_arith)
        requires
            0 <= c < w,
            0 <= r < h,
    ;
}

/// A pixel of an assembled picture has the colour that its vector is shown
/// as: the picture holds the colours in rows of `width`, from the top.
pub proof fn lemma_pixel_shows_color(
    picture: PixelBuffer,
    colors: Seq<Vector3>,
    column: u32,
    row: u32,
)
    requires
        picture@ == spec_bytes(colors),
        colors.len() == picture.spec_width() * picture.spec_height(),
        column < picture.spec_width(),
        row < picture.spec_height(),
    ensures
        picture.spec_pixel(column, row) == Some(
            spec_get_color(colors[row * picture.spec_width() + column]),
        ),
{
    lemma_offset_fits(picture.spec_width(), picture.spec_height(), column, row);
}

/// The colour `col` with full opacity.
pub open spec fn opaque(col: Color) -> Color {
    Color { r: col.r, g: col.g, b: col.b, a: 255 }
}

/// A picture assembled from nothing but one colour shows that colour in every
/// pixel: where each vector holds `col`, each pixel is `col`, made opaque.
pub proof fn lemma_one_color_everywhere(
    picture: PixelBuffer,
    colors: Seq<Vector3>,
    col: Color,
    column: u32,
    row: u32,
)
    requires
        picture@ == spec_bytes(colors),
        colors.len() == picture.spec_width() * picture.spec_height(),
        forall|k: int| 0 <= k < colors.len() ==> holds_color(#[trigger] colors[k], col),
        column < picture.spec_width(),
        row < picture.spec_height(),
    ensures
        picture.spec_pixel(column, row) == Some(opaque(col)),
{
    lemma_pixel_shows_color(picture, colors, column, row);
    lemma_offset_fits(picture.spec_width(), picture.spec_height(), column, row);
    lemma_color_round_trip(colors[row * picture.spec_width() + column], col);
}

/// The pixel in column `column` of row `row` is pixel `row * width + column`
/// of the picture, and shows the view at that column and at the row as far
/// from the bottom as `row` is from the top.
pub proof fn lemma_sample_of_pixel(width: u32, height: u32, column: u32, row: u32)
    requires
        column < width,
        row < height,
    ensures
        spec_offset(width, column, row) == 3 * (row * width + column),
        spec_sample_position(width, height, row * width + column) == Some(
            (column, spec_traced_row(height, row) as u32),
        ),
{
    lemma_offset_fits(width, height, column, row);
    assert(width as int * row as int == row as int * width as int) by (nonlinear_arith);
    lemma_fundamental_div_mod_converse(
        row as int * width as int + column as int,
        width as int,
        row as int,
        column as int,
    );
}

} // verus!
