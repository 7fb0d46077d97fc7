use vstd::prelude::*;

use crate::error::GalleryError;
use crate::fit::{fit, fit_size, fit_unreserved, lemma_full_height_reserves_row};

verus! {

/// One terminal cell of the output grid: left blank, or filled with a color.
#[derive(Clone, Copy, Debug, PartialEq, Eq, Structural)]
pub enum Cell {
    Blank,
    Filled(u8, u8, u8),
}

/// The cell for a pixel: transparency is all or nothing, so only an alpha of
/// exactly zero leaves the cell blank; any other alpha keeps the color as it is.
pub open spec fn cell_of(r: u8, g: u8, b: u8, a: u8) -> Cell {
    if a == 0 {
        Cell::Blank
    } else {
        Cell::Filled(r, g, b)
    }
}

/// The cell for pixel `(x, y)` of a row-major RGBA buffer `width` pixels wide.
pub open spec fn cell_at(pixels: Seq<u8>, width: int, x: int, y: int) -> Cell {
    let i = 4 * (y * width + x);
    cell_of(pixels[i], pixels[i + 1], pixels[i + 2], pixels[i + 3])
}

/// The cell that shows one pixel with the given channels.
pub fn cell_of_pixel(r: u8, g: u8, b: u8, a: u8) -> (c: Cell)
    ensures
        c == cell_of(r, g, b, a),
        a == 0 ==> c == Cell::Blank,
        a != 0 ==> c == Cell::Filled(r, g, b),
{
    if a == 0 {
        Cell::Blank
    } else {
        Cell::Filled(r, g, b)
    }
}

/// `grid` holds `height` rows of `width` cells, each the cell of the pixel at
/// the same place in `pixels`.
pub open spec fn is_grid_of(grid: Seq<Vec<Cell>>, pixels: Seq<u8>, width: int, height: int) -> bool {
    &&& grid.len() == height
    &&& forall|y: int| 0 <= y < height ==> (#[trigger] grid[y])@.len() == width
    &&& forall|y: int, x: int|
        0 <= y < height && 0 <= x < width ==> (#[trigger] grid[y]@[x]) == cell_at(
            pixels,
            width,
            x,
            y,
        )
}

/// A decoded image: `width` by `height` pixels, four bytes (red, green, blue,
/// alpha) each, row by row from the top left.
pub struct SourceImage {
    pub width: u32,
    pub height: u32,
    pub pixels: Vec<u8>,
}

impl SourceImage {
    pub open spec fn wf(&self) -> bool {
        &&& self.width > 0
        &&& self.height > 0
        &&& self.pixels@.len() == 4 * self.width * self.height
    }

    /// Takes `pixels` as an image of `width` by `height`, provided neither is
    /// zero and the buffer holds exactly four bytes for each pixel.
    pub fn from_rgba(width: u32, height: u32, pixels: Vec<u8>) -> (r: Result<
        SourceImage,
        GalleryError,
    >)
        ensures
            r is Ok <==> (width > 0 && height > 0 && pixels@.len() == 4 * width * height),
            match r {
                Ok(img) => img.wf() && img.width == width && img.height == height && img.pixels@
                    == pixels@,
                Err(e) => e == GalleryError::MalformedImage,
            },
    {
        if width == 0 || height == 0 {
            return Err(GalleryError::MalformedImage);
        }
        assert(4 * (width as u128) * (height as u128) <= 4 * 0xffff_ffffu128 * 0xffff_ffffu128)
            by (nonlinear_arith)
            requires
                width <= 0xffff_ffffu32,
                height <= 0xffff_ffffu32,
        ;
        let expected: u128 = 4 * (width as u128) * (height as u128);
        if pixels.len() as u128 != expected {
            return Err(GalleryError::MalformedImage);
        }
        Ok(SourceImage { width, height, pixels })
    }
}

proof fn lemma_pixel_in_buffer(x: int, y: int, width: int, height: int)
    requires
        0 <= x < width,
        0 <= y < height,
    ensures
        0 <= y * width + x,
        4 * (y * width + x) + 4 <= 4 * width * height,
{
    assert(4 * width * height == 4 * (width * height)) by (nonlinear_arith);
    assert(y * width + x + 1 <= width * height) by (nonlinear_arith)
        requires
            0 <= x < width,
            0 <= y < height,
    ;
    assert(0 <= y * width) by (nonlinear_arith)
        requires
            0 <= y,
            0 <= width,
    ;
}

/// Turns a row-major RGBA buffer of `width` by `height` pixels into the grid of
/// cells that shows it, top row first and each row from the left.
pub fn cells_from_rgba(pixels: &Vec<u8>, width: u32, height: u32) -> (grid: Vec<Vec<Cell>>)
    requires
        pixels@.len() == 4 * width * height,
    ensures
        is_grid_of(grid@, pixels@, width as int, height as int),
{
    let total: usize = pixels.len();
    let mut grid: Vec<Vec<Cell>> = Vec::new();
    let mut y: u32 = 0;
    while y < height
        invariant
            y <= height,
            pixels@.len() == 4 * width * height,
            total == pixels@.len(),
            is_grid_of(grid@, pixels@, width as int, y as int),
        decreases height - y,
    {
        let mut row: Vec<Cell> = Vec::new();
        let mut x: u32 = 0;
        while x < width
            invariant
                x <= width,
                y < height,
                pixels@.len() == 4 * width * height,
                row@.len() == x,
                total == pixels@.len(),
                forall|k: int| 0 <= k < x ==> row@[k] == cell_at(pixels@, width as int, k, y as int),
            decreases width - x,
        {
            proof {
                lemma_pixel_in_buffer(x as int, y as int, width as int, height as int);
            }
            let i: usize = 4 * ((y as usize) * (width as usize) + (x as usize));
            let cell = cell_of_pixel(pixels[i], pixels[i + 1], pixels[i + 2], pixels[i + 3]);
            row.push(cell);
            x = x + 1;
        }
        grid.push(row);
        y = y + 1;
    }
    grid
}

/// What the `image` crate makes of `pixels`, a `src_w` by `src_h` RGBA buffer,
/// when resampling it to `w` by `h` with its triangle filter.
pub uninterp spec fn resampled_of(pixels: Seq<u8>, src_w: u32, src_h: u32, w: u32, h: u32) -> Seq<u8>;

/// Relies on `image::imageops::resize` with `FilterType::Triangle`: it returns a
/// fresh buffer of exactly `w` by `h` RGBA pixels, which depends on its arguments
/// alone. Its working buffers of `src_w` by `h` and `w` by `h` pixels must have a
/// length that fits in `usize`, else allocating them panics.
#[verifier::external_body]
fn resample_rgba(pixels: &Vec<u8>, src_w: u32, src_h: u32, w: u32, h: u32) -> (r: Vec<u8>)
    requires
        src_w > 0,
        src_h > 0,
        w > 0,
        h > 0,
        pixels@.len() == 4 * src_w * src_h,
        4 * src_w * h <= usize::MAX,
        4 * w * h <= usize::MAX,
    ensures
        r@ == resampled_of(pixels@, src_w, src_h, w, h),
        r@.len() == 4 * w * h,
{
    let src = image::RgbaImage::from_raw(src_w, src_h, pixels.clone()).unwrap();
    image::imageops::resize(&src, w, h, image::imageops::FilterType::Triangle).into_raw()
}

/// Resamples `image` to `target_width` by `target_height` pixels and turns the
/// result into exactly that many cells, row by row.
pub fn rasterize(image: &SourceImage, target_width: u32, target_height: u32) -> (grid: Vec<
    Vec<Cell>,
>)
    requires
        image.wf(),
        target_width > 0,
        target_height > 0,
        4 * image.width * target_height <= usize::MAX,
        4 * target_width * target_height <= usize::MAX,
    ensures
        is_grid_of(
            grid@,
            resampled_of(image.pixels@, image.width, image.height, target_width, target_height),
            target_width as int,
            target_height as int,
        ),
{
    let resampled = resample_rgba(
        &image.pixels,
        image.width,
        image.height,
        target_width,
        target_height,
    );
    cells_from_rgba(&resampled, target_width, target_height)
}

/// Relies on `image::load_from_memory`, which guesses the format from the bytes
/// and decodes them, and on `DynamicImage::to_rgba8`, which converts the result
/// into a fresh buffer of four bytes for each pixel. The decoded pixels may differ
/// from one machine to another (the JPEG decoder picks CPU-specific code), so
/// nothing more is stated of them.
#[verifier::external_body]
fn decode_rgba(bytes: &Vec<u8>) -> (r: Option<(u32, u32, Vec<u8>)>)
    ensures
        match r {
            Some(t) => t.2@.len() == 4 * t.0 * t.1,
            None => true,
        },
{
    match image::load_from_memory(bytes) {
        Ok(img) => {
            let rgba = img.to_rgba8();
            Some((rgba.width(), rgba.height(), rgba.into_raw()))
        },
        Err(_) => None,
    }
}

/// Decodes an encoded image file held in `bytes`. Bytes that the decoder cannot
/// read, or that hold an image with no pixels, are refused as malformed.
pub fn decode_image(bytes: &Vec<u8>) -> (r: Result<SourceImage, GalleryError>)
    ensures
        match r {
            Ok(img) => img.wf(),
            Err(e) => e == GalleryError::MalformedImage,
        },
{
    match decode_rgba(bytes) {
        Some((w, h, p)) => SourceImage::from_rgba(w, h, p),
        None => Err(GalleryError::MalformedImage),
    }
}

/// The working buffers of resampling a `src_w` pixels wide image to `w` by `h`
/// can be addressed on this machine.
pub open spec fn resample_fits(src_w: int, w: int, h: int) -> bool {
    4 * src_w * h <= usize::MAX && 4 * w * h <= usize::MAX
}

/// `grid` has between one and `rows` rows, each of between one and `cols` cells.
pub open spec fn within_region(grid: Seq<Vec<Cell>>, cols: int, rows: int) -> bool {
    &&& 1 <= grid.len() <= rows
    &&& forall|y: int| 0 <= y < grid.len() ==> 1 <= (#[trigger] grid[y])@.len() <= cols
}

/// Everything one frame shows of `image` in a region of `cols` by `rows` cells:
/// fit, resample and convert to cells.
///
/// Where the fitted size is too large for this machine to hold (never the case
/// with 64-bit addresses), the image is refused as malformed.
pub fn render_image(image: &SourceImage, cols: u16, rows: u16) -> (r: Result<
    Vec<Vec<Cell>>,
    GalleryError,
>)
    requires
        image.wf(),
    ensures
        r == Err::<Vec<Vec<Cell>>, GalleryError>(GalleryError::RegionTooSmall) <==> (cols == 0
            || rows == 0),
        cols > 0 && rows > 0 ==> {
            let size = fit_size(image.width as int, image.height as int, cols as int, rows as int);
            if resample_fits(image.width as int, size.0, size.1) {
                match r {
                    Ok(grid) => is_grid_of(
                        grid@,
                        resampled_of(
                            image.pixels@,
                            image.width,
                            image.height,
                            size.0 as u32,
                            size.1 as u32,
                        ),
                        size.0,
                        size.1,
                    ),
                    Err(_) => false,
                }
            } else {
                r == Err::<Vec<Vec<Cell>>, GalleryError>(GalleryError::MalformedImage)
            }
        },
        match r {
            Ok(grid) => {
                &&& within_region(grid@, cols as int, rows as int)
                &&& fit_unreserved(image.width as int, image.height as int, cols as int, rows as int).1
                    == rows ==> grid@.len() == (if rows > 1 {
                    rows - 1
                } else {
                    1
                })
            },
            Err(_) => true,
        },
{
    let (w, h) = fit(image.width, image.height, cols, rows)?;
    proof {
        if fit_unreserved(image.width as int, image.height as int, cols as int, rows as int).1
            == rows {
            lemma_full_height_reserves_row(
                image.width as int,
                image.height as int,
                cols as int,
                rows as int,
            );
        }
    }
    assert(4 * (image.width as u64) * (h as u64) <= 4 * 0xffff_ffffu64 * 0xffffu64) by (
    nonlinear_arith)
        requires
            image.width <= 0xffff_ffffu32,
            h <= 0xffffu32,
    ;
    assert(4 * (w as u64) * (h as u64) <= 4 * 0xffffu64 * 0xffffu64) by (nonlinear_arith)
        requires
            w <= 0xffffu32,
            h <= 0xffffu32,
    ;
    let src_cells: u64 = 4 * (image.width as u64) * (h as u64);
    let dst_cells: u64 = 4 * (w as u64) * (h as u64);
    if src_cells > usize::MAX as u64 || dst_cells > usize::MAX as u64 {
        return Err(GalleryError::MalformedImage);
    }
    Ok(rasterize(image, w, h))
}

/// Everything one frame shows of an encoded image in a region of `cols` by
/// `rows` cells: decode, then as `render_image`. The image is checked before the
/// region; a drawn grid always stays inside the region.
pub fn render_cells(bytes: &Vec<u8>, cols: u16, rows: u16) -> (r: Result<
    Vec<Vec<Cell>>,
    GalleryError,
>)
    ensures
        r == Err::<Vec<Vec<Cell>>, GalleryError>(GalleryError::RegionTooSmall) ==> (cols == 0
            || rows == 0),
        match r {
            Ok(grid) => cols > 0 && rows > 0 && within_region(grid@, cols as int, rows as int),
            Err(e) => e == GalleryError::MalformedImage || e == GalleryError::RegionTooSmall,
        },
{
    let image = decode_image(bytes)?;
    render_image(&image, cols, rows)
}

} // verus!
