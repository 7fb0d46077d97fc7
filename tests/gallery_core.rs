use term_gallery::assets::{get_image_path, image_names};
use term_gallery::error::GalleryError;
use term_gallery::fit::fit;
use term_gallery::gallery::{command_for_char, App, Command};
use term_gallery::raster::{
    cell_of_pixel, cells_from_rgba, decode_image, rasterize, render_cells, render_image, Cell,
    SourceImage,
};

fn png_bytes(width: u32, height: u32, pixels: Vec<u8>) -> Vec<u8> {
    let img = image::RgbaImage::from_raw(width, height, pixels).unwrap();
    let mut out = std::io::Cursor::new(Vec::new());
    img.write_to(&mut out, image::ImageOutputFormat::Png).unwrap();
    out.into_inner()
}

fn uniform(width: u32, height: u32, px: [u8; 4]) -> Vec<u8> {
    let mut v = Vec::new();
    for _ in 0..(width * height) {
        v.extend_from_slice(&px);
    }
    v
}

fn names(list: &[&str]) -> Vec<String> {
    list.iter().map(|s| s.to_string()).collect()
}

#[test]
fn fit_image_already_fits() {
    assert_eq!(fit(10, 6, 100, 100), Ok((10, 3)));
    assert_eq!(fit(10, 7, 100, 100), Ok((10, 4)));
    assert_eq!(fit(1, 1, 1, 1), Ok((1, 1)));
}

#[test]
fn fit_width_bound() {
    // 50 * 80 / 200 = 20 half-rows, so 10 rows.
    assert_eq!(fit(200, 50, 80, 100), Ok((80, 10)));
}

#[test]
fn fit_width_bound_height_floor_is_one() {
    assert_eq!(fit(1000, 1, 10, 10), Ok((10, 1)));
}

#[test]
fn fit_height_bound_reserves_a_row() {
    // 2 * 50 = 100 half-rows; 100 * 100 / 400 = 25 columns; 50 rows become 49.
    assert_eq!(fit(100, 400, 80, 50), Ok((25, 49)));
}

#[test]
fn fit_single_row_is_not_reserved() {
    assert_eq!(fit(100, 400, 80, 1), Ok((1, 1)));
    assert_eq!(fit(10, 2, 80, 1), Ok((10, 1)));
}

#[test]
fn fit_no_scale_full_height_reserves_a_row() {
    assert_eq!(fit(10, 20, 100, 10), Ok((10, 9)));
}

#[test]
fn fit_errors() {
    assert_eq!(fit(0, 5, 10, 10), Err(GalleryError::MalformedImage));
    assert_eq!(fit(5, 0, 10, 10), Err(GalleryError::MalformedImage));
    assert_eq!(fit(0, 5, 0, 0), Err(GalleryError::MalformedImage));
    assert_eq!(fit(5, 5, 0, 10), Err(GalleryError::RegionTooSmall));
    assert_eq!(fit(5, 5, 10, 0), Err(GalleryError::RegionTooSmall));
}

#[test]
fn fit_stays_in_bounds() {
    let sizes: [u32; 7] = [1, 2, 3, 7, 64, 333, 4096];
    let bounds: [u16; 6] = [1, 2, 5, 40, 200, 65535];
    for &w in sizes.iter() {
        for &h in sizes.iter() {
            for &c in bounds.iter() {
                for &r in bounds.iter() {
                    let (ow, oh) = fit(w, h, c, r).unwrap();
                    assert!(ow >= 1 && ow <= c as u32);
                    assert!(oh >= 1 && oh <= r as u32);
                }
            }
        }
    }
}

#[test]
fn alpha_zero_is_blank() {
    assert_eq!(cell_of_pixel(255, 10, 20, 0), Cell::Blank);
    assert_eq!(cell_of_pixel(0, 0, 0, 0), Cell::Blank);
}

#[test]
fn alpha_one_keeps_exact_color() {
    assert_eq!(cell_of_pixel(255, 10, 20, 1), Cell::Filled(255, 10, 20));
    assert_eq!(cell_of_pixel(1, 2, 3, 128), Cell::Filled(1, 2, 3));
}

#[test]
fn cells_follow_row_major_order() {
    let pixels = vec![1, 2, 3, 255, 4, 5, 6, 0, 7, 8, 9, 1, 10, 11, 12, 200, 13, 14, 15, 9, 0, 0, 0, 0];
    let grid = cells_from_rgba(&pixels, 3, 2);
    assert_eq!(
        grid,
        vec![
            vec![Cell::Filled(1, 2, 3), Cell::Blank, Cell::Filled(7, 8, 9)],
            vec![Cell::Filled(10, 11, 12), Cell::Filled(13, 14, 15), Cell::Blank],
        ]
    );
}

#[test]
fn source_image_checks_its_buffer() {
    assert!(SourceImage::from_rgba(2, 2, vec![0; 16]).is_ok());
    assert_eq!(SourceImage::from_rgba(0, 2, vec![]).err(), Some(GalleryError::MalformedImage));
    assert_eq!(SourceImage::from_rgba(2, 0, vec![]).err(), Some(GalleryError::MalformedImage));
    assert_eq!(SourceImage::from_rgba(2, 2, vec![0; 15]).err(), Some(GalleryError::MalformedImage));
    assert_eq!(SourceImage::from_rgba(2, 2, vec![0; 20]).err(), Some(GalleryError::MalformedImage));
}

#[test]
fn rasterize_grid_shape() {
    let img = SourceImage::from_rgba(5, 3, uniform(5, 3, [9, 9, 9, 255])).unwrap();
    for (w, h) in [(1u32, 1u32), (2, 2), (5, 3), (7, 11), (3, 1)] {
        let grid = rasterize(&img, w, h);
        assert_eq!(grid.len(), h as usize);
        for row in grid.iter() {
            assert_eq!(row.len(), w as usize);
        }
    }
}

#[test]
fn rasterize_upscales_uniform_color() {
    let img = SourceImage::from_rgba(1, 1, vec![10, 20, 30, 255]).unwrap();
    let grid = rasterize(&img, 2, 2);
    assert_eq!(grid, vec![vec![Cell::Filled(10, 20, 30); 2]; 2]);
}

#[test]
fn rasterize_transparent_image_is_blank() {
    let img = SourceImage::from_rgba(4, 4, uniform(4, 4, [200, 100, 50, 0])).unwrap();
    let grid = rasterize(&img, 2, 2);
    assert_eq!(grid, vec![vec![Cell::Blank; 2]; 2]);
}

#[test]
fn rasterize_same_size_keeps_pixels() {
    let pixels = vec![1, 2, 3, 255, 4, 5, 6, 0];
    let img = SourceImage::from_rgba(2, 1, pixels).unwrap();
    let grid = rasterize(&img, 2, 1);
    assert_eq!(grid, vec![vec![Cell::Filled(1, 2, 3), Cell::Blank]]);
}

#[test]
fn decode_rejects_garbage() {
    assert_eq!(decode_image(&vec![1, 2, 3, 4]).err(), Some(GalleryError::MalformedImage));
    assert_eq!(decode_image(&vec![]).err(), Some(GalleryError::MalformedImage));
}

#[test]
fn decode_reads_png() {
    let pixels = vec![1, 2, 3, 255, 4, 5, 6, 0, 7, 8, 9, 10];
    let bytes = png_bytes(3, 1, pixels.clone());
    let img = decode_image(&bytes).unwrap();
    assert_eq!(img.width, 3);
    assert_eq!(img.height, 1);
    assert_eq!(img.pixels, pixels);
}

#[test]
fn render_cells_fits_the_region() {
    let bytes = png_bytes(200, 50, uniform(200, 50, [5, 6, 7, 255]));
    let grid = render_cells(&bytes, 80, 100).unwrap();
    assert_eq!(grid.len(), 10);
    assert!(grid.iter().all(|row| row.len() == 80));
    assert!(grid.iter().all(|row| row.iter().all(|c| *c == Cell::Filled(5, 6, 7))));
}

#[test]
fn render_cells_errors() {
    let bytes = png_bytes(2, 2, uniform(2, 2, [5, 6, 7, 255]));
    assert_eq!(render_cells(&bytes, 0, 10).err(), Some(GalleryError::RegionTooSmall));
    assert_eq!(render_cells(&bytes, 10, 0).err(), Some(GalleryError::RegionTooSmall));
    assert_eq!(render_cells(&vec![0, 1, 2], 10, 10).err(), Some(GalleryError::MalformedImage));
    assert_eq!(render_cells(&vec![0, 1, 2], 0, 0).err(), Some(GalleryError::MalformedImage));
}

#[test]
fn empty_gallery_is_rejected() {
    assert_eq!(App::new(Vec::new()).err(), Some(GalleryError::NoImagesFound));
}

#[test]
fn selection_wraps_around() {
    let mut app = App::new(names(&["a", "b", "c"])).unwrap();
    assert_eq!(app.selected_index(), 0);
    app.prev_image();
    assert_eq!(app.selected_index(), 2);
    assert_eq!(app.selected_name(), "c");
    app.next_image();
    assert_eq!(app.selected_index(), 0);
    app.next_image();
    app.next_image();
    assert_eq!(app.selected_index(), 2);
    app.next_image();
    assert_eq!(app.selected_index(), 0);
}

#[test]
fn full_cycle_returns_to_start() {
    let mut app = App::new(names(&["a", "b", "c"])).unwrap();
    app.next_image();
    for _ in 0..3 {
        app.next_image();
    }
    assert_eq!(app.selected_index(), 1);
    assert_eq!(app.items().len(), 3);
}

#[test]
fn single_image_stays_selected() {
    let mut app = App::new(names(&["only"])).unwrap();
    app.next_image();
    assert_eq!(app.selected_index(), 0);
    app.prev_image();
    assert_eq!(app.selected_index(), 0);
}

#[test]
fn image_path_joins_directory() {
    assert_eq!(get_image_path("images", "cat"), "images/cat_preview.jpg");
    assert_eq!(get_image_path("/srv/images/", "cat"), "/srv/images/cat_preview.jpg");
    assert_eq!(get_image_path("", "dog"), "dog_preview.jpg");
}

#[test]
fn image_names_skip_previews_and_extensions() {
    let files = names(&["cat.jpg", "cat_preview.jpg", "dog.png", ".hidden", "a.b.c", "plain", "x."]);
    assert_eq!(image_names(&files), names(&["cat", "dog", ".hidden", "a.b", "plain", "x"]));
    assert_eq!(image_names(&Vec::new()), Vec::<String>::new());
}

#[test]
fn commands_from_keys() {
    assert_eq!(command_for_char('q'), Command::Quit);
    assert_eq!(command_for_char('j'), Command::SelectNext);
    assert_eq!(command_for_char('k'), Command::SelectPrev);
    assert_eq!(command_for_char('h'), Command::PanLeft);
    assert_eq!(command_for_char('l'), Command::PanRight);
    assert_eq!(command_for_char('x'), Command::Ignore);
}

#[test]
fn handle_moves_selection_and_quits() {
    let mut app = App::new(names(&["a", "b", "c"])).unwrap();
    assert!(app.handle(Command::SelectNext));
    assert_eq!(app.selected_index(), 1);
    assert!(app.handle(Command::PanLeft));
    assert!(app.handle(Command::PanRight));
    assert!(app.handle(Command::Ignore));
    assert_eq!(app.selected_index(), 1);
    assert!(app.handle(Command::SelectPrev));
    assert!(app.handle(Command::SelectPrev));
    assert_eq!(app.selected_index(), 2);
    assert!(!app.handle(Command::Quit));
    assert_eq!(app.selected_index(), 2);
}

#[test]
fn image_path_absolute_name_stands_alone() {
    assert_eq!(get_image_path("images", "/tmp/x"), "/tmp/x_preview.jpg");
}

fn grid_dims(grid: &Vec<Vec<Cell>>) -> (usize, Vec<usize>) {
    (grid.len(), grid.iter().map(|row| row.len()).collect())
}

#[test]
fn render_image_stays_in_region() {
    let img = SourceImage::from_rgba(200, 50, uniform(200, 50, [1, 2, 3, 255])).unwrap();
    let grid = render_image(&img, 80, 100).unwrap();
    assert_eq!(grid_dims(&grid), (10, vec![80; 10]));
}

#[test]
fn render_image_degenerate_tall_image() {
    let img = SourceImage::from_rgba(1, 1000, uniform(1, 1000, [1, 2, 3, 255])).unwrap();
    let grid = render_image(&img, 10, 1).unwrap();
    assert_eq!(grid_dims(&grid), (1, vec![1]));
}

#[test]
fn render_image_reserves_border_row() {
    let img = SourceImage::from_rgba(100, 400, uniform(100, 400, [1, 2, 3, 255])).unwrap();
    let grid = render_image(&img, 80, 50).unwrap();
    assert_eq!(grid_dims(&grid), (49, vec![25; 49]));
}

#[test]
fn render_image_zero_region() {
    let img = SourceImage::from_rgba(2, 2, uniform(2, 2, [1, 2, 3, 255])).unwrap();
    assert_eq!(render_image(&img, 0, 5).err(), Some(GalleryError::RegionTooSmall));
    assert_eq!(render_image(&img, 5, 0).err(), Some(GalleryError::RegionTooSmall));
}
