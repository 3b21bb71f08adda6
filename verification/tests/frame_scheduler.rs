use raytracer::scheduler::{assemble_pixels, pixel_position, tile_ranges};

#[test]
fn pixel_position_is_row_major() {
    assert_eq!(pixel_position(0, 3), (0, 0));
    assert_eq!(pixel_position(2, 3), (2, 0));
    assert_eq!(pixel_position(3, 3), (0, 1));
    assert_eq!(pixel_position(7, 3), (1, 2));
}

#[test]
fn tile_ranges_exact_multiple() {
    assert_eq!(tile_ranges(10, 5), vec![(0, 5), (5, 5)]);
}

#[test]
fn tile_ranges_with_remainder() {
    assert_eq!(tile_ranges(7, 3), vec![(0, 3), (3, 3), (6, 1)]);
}

#[test]
fn tile_ranges_empty_frame() {
    assert_eq!(tile_ranges(0, 100), Vec::<(usize, usize)>::new());
}

#[test]
fn tile_ranges_single_partial_tile() {
    assert_eq!(tile_ranges(5, 100), vec![(0, 5)]);
}

#[test]
fn assemble_pixels_concatenates_tiles_in_order() {
    let tiles = vec![vec![(1, 2, 3), (4, 5, 6)], vec![], vec![(7, 8, 9)]];
    assert_eq!(assemble_pixels(&tiles), vec![1, 2, 3, 4, 5, 6, 7, 8, 9]);
}

#[test]
fn assemble_pixels_empty() {
    let tiles: Vec<Vec<(u8, u8, u8)>> = Vec::new();
    assert_eq!(assemble_pixels(&tiles), Vec::<u8>::new());
}

#[test]
fn assembled_frame_is_row_major_bytes() {
    // A 3-wide, 2-tall frame in tiles of 4 pixels: each pixel's three
    // bytes land at three times its linear index, whatever the tiling.
    let width: usize = 3;
    let pixels: Vec<(u8, u8, u8)> = (0..6).map(|i| (i as u8, 100 + i as u8, 200 + i as u8)).collect();
    let mut tiles: Vec<Vec<(u8, u8, u8)>> = Vec::new();
    for (start, len) in tile_ranges(pixels.len(), 4) {
        tiles.push(pixels[start..start + len].to_vec());
    }
    let bytes = assemble_pixels(&tiles);
    assert_eq!(bytes.len(), 3 * pixels.len());
    for y in 0..2 {
        for x in 0..width {
            let i = y * width + x;
            assert_eq!(pixel_position(i, width), (x, y));
            assert_eq!(bytes[3 * i], pixels[i].0);
            assert_eq!(bytes[3 * i + 1], pixels[i].1);
            assert_eq!(bytes[3 * i + 2], pixels[i].2);
        }
    }
}
