//! Bitmaps in the BMP file format, with eight bits per pixel and a color
//! table, and how they get on the screen.
use crate::uefi::{
    black, in_rect, Pixel, Screen, NO_OF_PIXELS, NO_OF_PIXELS_IN_A_COLUMN, NO_OF_PIXELS_IN_A_ROW,
};
use vstd::prelude::*;

verus! {

/// The number of bytes that make up the file header.
pub const FILE_HEADER_SIZE: usize = 14;

/// The number of bytes that make up the DIB header.
pub const DIB_HEADER_SIZE: usize = 124;

/// The offset of the color table, which comes immediately after the file
/// header and the DIB header.
pub const COLOR_TABLE_OFFSET: usize = FILE_HEADER_SIZE + DIB_HEADER_SIZE;

/// The number of colors in the color table.
pub const NO_OF_COLORS: usize = 256;

/// The offset of the first byte after the color table.
pub const COLOR_TABLE_END: usize = COLOR_TABLE_OFFSET + 4 * NO_OF_COLORS;

/// The first section of a file in the BMP file format.
#[derive(Debug, Clone, Copy)]
pub struct FileHeader {
    /// The first 2 bytes in the file which are always 0x42 and 0x4d, "BM" in ASCII
    pub bmp_id: [u8; 2],
    /// The size of the whole BMP file in bytes
    pub file_size: u32,
    /// These bytes are reserved
    pub reserved: [u8; 4],
    /// The offset into the file of the starting byte of the bitmap pixel array
    pub pixel_array_offset: u32,
}

/// Gives some information about the BMP file.
#[derive(Debug, Clone, Copy, PartialEq, Eq, Structural)]
pub struct DIBHeader {
    /// The size of the DIB header itself
    pub size_of_self: u32,
    /// The width of the image
    pub image_width: u32,
    /// The height of the image
    pub image_height: u32,
    /// A number that is always 1
    pub always_1: u16,
    /// The number of bits used to define a single pixel in the bitmap's
    /// pixel array, which is taken to be 8
    pub bits_per_pixel: u16,
}

/// A color in the color table.
#[derive(Debug, Clone, Copy, PartialEq, Eq, Structural)]
pub struct Color {
    /// The blue intensity of the color
    pub blue: u8,
    /// The green intensity of the color
    pub green: u8,
    /// The red intensity of the color
    pub red: u8,
    /// These bits are reserved
    pub reserved: u8,
}

/// The colors that the bytes of the pixel array stand for.
#[derive(Debug)]
pub struct ColorTable(pub Vec<Color>);

/// A structure for handling bitmaps.
#[derive(Debug)]
pub struct Bitmap {
    /// The bitmap's file header
    pub file_header: FileHeader,
    /// The bitmap's DIB header
    pub dib_header: DIBHeader,
    /// The bitmap's color table
    pub color_table: ColorTable,
    /// The bitmap's pixel array
    pub pixel_array: Vec<u8>,
}

/// The number that the two bytes at `at` stand for, least significant
/// first.
pub open spec fn u16_at(bytes: Seq<u8>, at: int) -> int {
    bytes[at] + bytes[at + 1] * 0x100
}

/// The number that the four bytes at `at` stand for, least significant
/// first.
pub open spec fn u32_at(bytes: Seq<u8>, at: int) -> int {
    bytes[at] + bytes[at + 1] * 0x100 + bytes[at + 2] * 0x1_0000 + bytes[at + 3] * 0x100_0000
}

/// The color that the four bytes at `at` stand for: blue, green, red and
/// the reserved byte.
pub open spec fn color_at(bytes: Seq<u8>, at: int) -> Color {
    Color { blue: bytes[at], green: bytes[at + 1], red: bytes[at + 2], reserved: bytes[at + 3] }
}

/// The pixel of a color.
pub open spec fn pixel_of(color: Color) -> Pixel {
    Pixel { red: color.red, green: color.green, blue: color.blue, reserved: 0 }
}

/// Reads the number that the two bytes at `at` stand for.
fn read_u16(bytes: &[u8], at: usize) -> (n: u16)
    requires
        at + 2 <= bytes@.len(),
    ensures
        n == u16_at(bytes@, at as int),
{
    bytes[at] as u16 + bytes[at + 1] as u16 * 0x100
}

/// Reads the number that the four bytes at `at` stand for.
fn read_u32(bytes: &[u8], at: usize) -> (n: u32)
    requires
        at + 4 <= bytes@.len(),
    ensures
        n == u32_at(bytes@, at as int),
{
    bytes[at] as u32 + bytes[at + 1] as u32 * 0x100 + bytes[at + 2] as u32 * 0x1_0000 + bytes[at
        + 3] as u32 * 0x100_0000
}

impl Bitmap {
    /// The invariant of a bitmap: its color table has a color for every
    /// byte, and its pixel array a byte for every pixel of the image.
    pub open spec fn wf(&self) -> bool {
        &&& self.color_table.0@.len() == NO_OF_COLORS
        &&& self.dib_header.image_height * self.dib_header.image_width <= self.pixel_array@.len()
    }

    /// The height of the image.
    pub open spec fn spec_height(&self) -> usize {
        self.dib_header.image_height as usize
    }

    /// The width of the image.
    pub open spec fn spec_width(&self) -> usize {
        self.dib_header.image_width as usize
    }

    /// The color of the image at (`row`, `col`), from the top left. The
    /// image is upside down in the pixel array, so the rows of the pixel
    /// array are taken from the bottom up.
    pub open spec fn color(&self, row: int, col: int) -> Color {
        self.color_table.0@[self.pixel_array@[(self.spec_height() - row - 1) * self.spec_width()
            + col] as int]
    }

    /// Initializes the Bitmap structure from the bitmap bytes: the file
    /// header, the DIB header, the color table, and, from the offset that
    /// the file header gives, the pixel array.
    pub fn new(bitmap_bytes: &[u8]) -> (bitmap: Bitmap)
        requires
            bitmap_bytes@.len() >= COLOR_TABLE_END,
            u32_at(bitmap_bytes@, 10) <= bitmap_bytes@.len(),
        ensures
            bitmap.file_header.bmp_id@ == bitmap_bytes@.subrange(0, 2),
            bitmap.file_header.file_size == u32_at(bitmap_bytes@, 2),
            bitmap.file_header.reserved@ == bitmap_bytes@.subrange(6, 10),
            bitmap.file_header.pixel_array_offset == u32_at(bitmap_bytes@, 10),
            bitmap.dib_header.size_of_self == u32_at(bitmap_bytes@, 14),
            bitmap.dib_header.image_width == u32_at(bitmap_bytes@, 18),
            bitmap.dib_header.image_height == u32_at(bitmap_bytes@, 22),
            bitmap.dib_header.always_1 == u16_at(bitmap_bytes@, 26),
            bitmap.dib_header.bits_per_pixel == u16_at(bitmap_bytes@, 28),
            bitmap.color_table.0@.len() == NO_OF_COLORS,
            forall|i: int|
                0 <= i < NO_OF_COLORS ==> #[trigger] bitmap.color_table.0@[i] == color_at(
                    bitmap_bytes@,
                    COLOR_TABLE_OFFSET + 4 * i,
                ),
            bitmap.pixel_array@ == bitmap_bytes@.subrange(
                u32_at(bitmap_bytes@, 10),
                bitmap_bytes@.len() as int,
            ),
    {
        // Interpreting the first section of the bitmap as the file header
        let file_header = FileHeader {
            bmp_id: [bitmap_bytes[0], bitmap_bytes[1]],
            file_size: read_u32(bitmap_bytes, 2),
            reserved: [bitmap_bytes[6], bitmap_bytes[7], bitmap_bytes[8], bitmap_bytes[9]],
            pixel_array_offset: read_u32(bitmap_bytes, 10),
        };
        assert(file_header.bmp_id@ =~= bitmap_bytes@.subrange(0, 2));
        assert(file_header.reserved@ =~= bitmap_bytes@.subrange(6, 10));
        // Interpreting the second section of the bitmap as the DIB header
        let dib_header = DIBHeader {
            size_of_self: read_u32(bitmap_bytes, FILE_HEADER_SIZE),
            image_width: read_u32(bitmap_bytes, FILE_HEADER_SIZE + 4),
            image_height: read_u32(bitmap_bytes, FILE_HEADER_SIZE + 8),
            always_1: read_u16(bitmap_bytes, FILE_HEADER_SIZE + 12),
            bits_per_pixel: read_u16(bitmap_bytes, FILE_HEADER_SIZE + 14),
        };
        // Interpreting the bytes at `COLOR_TABLE_OFFSET` as the color table
        let mut colors: Vec<Color> = Vec::new();
        let mut i: usize = 0;
        while i < NO_OF_COLORS
            invariant
                i <= NO_OF_COLORS,
                bitmap_bytes@.len() >= COLOR_TABLE_END,
                colors@.len() == i,
                forall|j: int|
                    0 <= j < i ==> #[trigger] colors@[j] == color_at(
                        bitmap_bytes@,
                        COLOR_TABLE_OFFSET + 4 * j,
                    ),
            decreases NO_OF_COLORS - i,
        {
            let at = COLOR_TABLE_OFFSET + 4 * i;
            colors.push(
                Color {
                    blue: bitmap_bytes[at],
                    green: bitmap_bytes[at + 1],
                    red: bitmap_bytes[at + 2],
                    reserved: bitmap_bytes[at + 3],
                },
            );
            i += 1;
        }
        // Get the bitmap's pixel array
        let mut pixel_array: Vec<u8> = Vec::new();
        let mut at = file_header.pixel_array_offset as usize;
        let ghost start = at;
        while at < bitmap_bytes.len()
            invariant
                start <= at <= bitmap_bytes@.len(),
                pixel_array@ == bitmap_bytes@.subrange(start as int, at as int),
            decreases bitmap_bytes@.len() - at,
        {
            pixel_array.push(bitmap_bytes[at]);
            at += 1;
            assert(pixel_array@ =~= bitmap_bytes@.subrange(start as int, at as int));
        }
        Bitmap { file_header, dib_header, color_table: ColorTable(colors), pixel_array }
    }

    /// Returns the height of the image.
    #[verifier::when_used_as_spec(spec_height)]
    pub fn height(&self) -> (height: usize)
        ensures
            height == self.spec_height(),
            height == self.dib_header.image_height,
    {
        // Retrieving the image height from the DIB header as a usize, so
        // that it can be used to index into arrays and slices
        self.dib_header.image_height as usize
    }

    /// Returns the width of the image.
    #[verifier::when_used_as_spec(spec_width)]
    pub fn width(&self) -> (width: usize)
        ensures
            width == self.spec_width(),
            width == self.dib_header.image_width,
    {
        // Retrieving the image width from the DIB header as a usize, so
        // that it can be used to index into arrays and slices
        self.dib_header.image_width as usize
    }
}

/// The pixels after `bitmap` is drawn with its top left corner at `pos`:
/// inside the image's rectangle the colors of the image, outside it what
/// was there.
pub open spec fn with_bitmap(pixels: Seq<Pixel>, bitmap: &Bitmap, pos: (usize, usize)) -> Seq<
    Pixel,
> {
    Seq::new(
        pixels.len(),
        |k: int|
            if in_rect(k, pos, bitmap.spec_height() as int, bitmap.spec_width() as int) {
                pixel_of(
                    bitmap.color(
                        k / (NO_OF_PIXELS_IN_A_ROW as int) - pos.0,
                        k % (NO_OF_PIXELS_IN_A_ROW as int) - pos.1,
                    ),
                )
            } else {
                pixels[k]
            },
    )
}

/// The pixels after the rectangle of `height` rows and `width` columns at
/// `pos` is blacked out.
pub open spec fn with_black_rect(pixels: Seq<Pixel>, pos: (usize, usize), height: int, width: int) -> Seq<
    Pixel,
> {
    Seq::new(
        pixels.len(),
        |k: int|
            if in_rect(k, pos, height, width) {
                black()
            } else {
                pixels[k]
            },
    )
}

/// Draws the bitmap on the screen, with its top left corner at `pos`, a row
/// and a column.
pub fn draw_bitmap(screen: &mut Screen, bitmap: &Bitmap, pos: (usize, usize))
    requires
        old(screen).wf(),
        bitmap.wf(),
        pos.0 + bitmap.spec_height() <= NO_OF_PIXELS_IN_A_COLUMN,
        pos.1 + bitmap.spec_width() <= NO_OF_PIXELS_IN_A_ROW,
    ensures
        final(screen).wf(),
        final(screen)@ == with_bitmap(old(screen)@, bitmap, pos),
{
    let ghost before = screen@;
    let height = bitmap.height();
    let width = bitmap.width();
    let mut row: usize = 0;
    while row < height
        invariant
            row <= height,
            height == bitmap.spec_height(),
            width == bitmap.spec_width(),
            screen.wf(),
            bitmap.wf(),
            before.len() == NO_OF_PIXELS,
            pos.0 + height <= NO_OF_PIXELS_IN_A_COLUMN,
            pos.1 + width <= NO_OF_PIXELS_IN_A_ROW,
            forall|k: int|
                0 <= k < NO_OF_PIXELS ==> #[trigger] screen@[k] == if in_rect(
                    k,
                    pos,
                    row as int,
                    width as int,
                ) {
                    with_bitmap(before, bitmap, pos)[k]
                } else {
                    before[k]
                },
        decreases height - row,
    {
        let mut col: usize = 0;
        while col < width
            invariant
                row < height,
                col <= width,
                height == bitmap.spec_height(),
                width == bitmap.spec_width(),
                screen.wf(),
                bitmap.wf(),
                before.len() == NO_OF_PIXELS,
                pos.0 + height <= NO_OF_PIXELS_IN_A_COLUMN,
                pos.1 + width <= NO_OF_PIXELS_IN_A_ROW,
                forall|k: int|
                    0 <= k < NO_OF_PIXELS ==> #[trigger] screen@[k] == if in_rect(
                        k,
                        pos,
                        row as int,
                        width as int,
                    ) || in_rect(k, ((pos.0 + row) as usize, pos.1), 1, col as int) {
                        with_bitmap(before, bitmap, pos)[k]
                    } else {
                        before[k]
                    },
            decreases width - col,
        {
            // The image is upside down in the pixel array,
            // so the pixel array's rows have to retrieved from the bottom up
            let inverted_row = height - row - 1;
            assert(0 <= inverted_row * width && inverted_row * width + col < height * width)
                by (nonlinear_arith)
                requires
                    0 <= inverted_row < height,
                    0 <= col < width,
            ;
            assert(height * width == bitmap.dib_header.image_height
                * bitmap.dib_header.image_width);
            assert(bitmap.pixel_array@.len() <= usize::MAX) by {
                vstd::std_specs::vec::axiom_spec_len(&bitmap.pixel_array);
            }
            let color_table_index = bitmap.pixel_array[inverted_row * width + col];
            let color = bitmap.color_table.0[color_table_index as usize];
            screen.set_pixel(
                row + pos.0,
                col + pos.1,
                Pixel { red: color.red, green: color.green, blue: color.blue, reserved: 0 },
            );
            col += 1;
        }
        row += 1;
    }
    assert(screen@ =~= with_bitmap(before, bitmap, pos));
}

/// Erases a bitmap from the screen: blacks out the rectangle that the
/// bitmap takes when it is drawn at `pos`.
pub fn erase_bitmap(screen: &mut Screen, bitmap: &Bitmap, pos: (usize, usize))
    requires
        old(screen).wf(),
        pos.0 + bitmap.spec_height() <= NO_OF_PIXELS_IN_A_COLUMN,
        pos.1 + bitmap.spec_width() <= NO_OF_PIXELS_IN_A_ROW,
    ensures
        final(screen).wf(),
        final(screen)@ == with_black_rect(
            old(screen)@,
            pos,
            bitmap.spec_height() as int,
            bitmap.spec_width() as int,
        ),
{
    let ghost before = screen@;
    let height = bitmap.height();
    let width = bitmap.width();
    let mut row: usize = 0;
    while row < height
        invariant
            row <= height,
            screen.wf(),
            before.len() == NO_OF_PIXELS,
            pos.0 + height <= NO_OF_PIXELS_IN_A_COLUMN,
            pos.1 + width <= NO_OF_PIXELS_IN_A_ROW,
            forall|k: int|
                0 <= k < NO_OF_PIXELS ==> #[trigger] screen@[k] == if in_rect(
                    k,
                    pos,
                    row as int,
                    width as int,
                ) {
                    black()
                } else {
                    before[k]
                },
        decreases height - row,
    {
        let mut col: usize = 0;
        while col < width
            invariant
                row < height,
                col <= width,
                screen.wf(),
                before.len() == NO_OF_PIXELS,
                pos.0 + height <= NO_OF_PIXELS_IN_A_COLUMN,
                pos.1 + width <= NO_OF_PIXELS_IN_A_ROW,
                forall|k: int|
                    0 <= k < NO_OF_PIXELS ==> #[trigger] screen@[k] == if in_rect(
                        k,
                        pos,
                        row as int,
                        width as int,
                    ) || in_rect(k, ((pos.0 + row) as usize, pos.1), 1, col as int) {
                        black()
                    } else {
                        before[k]
                    },
            decreases width - col,
        {
            // Blacking out the bitmap on screen
            // A color value of all 0s is black
            screen.set_pixel(
                row + pos.0,
                col + pos.1,
                Pixel { red: 0, green: 0, blue: 0, reserved: 0 },
            );
            col += 1;
        }
        row += 1;
    }
    assert(screen@ =~= with_black_rect(before, pos, height as int, width as int));
}

} // verus!
