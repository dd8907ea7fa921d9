use wang_tiles::generator::{generate_grid_from, GridError};
use wang_tiles::image::{generate_tiles_image, local_coordinate_u, local_coordinate_v, render_grid};
use wang_tiles::matrix::Matrix;
use wang_tiles::rgba::RGBA;
use wang_tiles::shader::wang_shader;
use wang_tiles::texture::Texture;

fn pixel(tex: &Texture, x: usize, y: usize) -> RGBA {
    tex.data[y * tex.width + x]
}

#[test]
fn local_coordinates_run_from_border_to_border() {
    assert_eq!(local_coordinate_u(0, 64), -64);
    assert_eq!(local_coordinate_u(16, 64), -32);
    assert_eq!(local_coordinate_u(32, 64), 0);
    assert_eq!(local_coordinate_u(63, 64), 62);
    assert_eq!(local_coordinate_v(0, 64), 64);
    assert_eq!(local_coordinate_v(16, 64), 32);
    assert_eq!(local_coordinate_v(32, 64), 0);
    assert_eq!(local_coordinate_v(63, 64), -62);
    assert_eq!(local_coordinate_u(1, 3), -1);
    assert_eq!(local_coordinate_v(2, 3), -1);
}

#[test]
fn local_coordinates_fit_for_the_largest_tile() {
    assert_eq!(local_coordinate_u(usize::MAX - 1, usize::MAX), usize::MAX as i128 - 2);
    assert_eq!(local_coordinate_v(usize::MAX - 1, usize::MAX), 2 - usize::MAX as i128);
}

#[test]
fn an_image_of_one_tile_as_ppm() {
    let grid = generate_grid_from(1, 1, &vec![0b1010]).unwrap();
    let tex = render_grid(&grid, 64).unwrap();
    assert_eq!(tex.width, 64);
    assert_eq!(tex.height, 64);
    let bytes = tex.encode_ppm();
    let header = b"P6\n64 64 255\n";
    assert_eq!(&bytes[..header.len()], header);
    assert_eq!(bytes.len(), header.len() + 64 * 64 * 3);
    for triple in bytes[header.len()..].chunks(3) {
        assert!(triple == [255, 0, 0] || triple == [255, 255, 255]);
    }
}

#[test]
fn render_grid_paints_each_tile_by_its_edges() {
    let grid = Matrix { width: 2, height: 1, data: vec![0b0010u8, 0b1000] };
    let tex = render_grid(&grid, 8).unwrap();
    assert_eq!(tex.width, 16);
    assert_eq!(tex.height, 8);
    assert_eq!(pixel(&tex, 7, 4), RGBA::red());
    assert_eq!(pixel(&tex, 1, 4), RGBA::white());
    assert_eq!(pixel(&tex, 4, 1), RGBA::white());
    assert_eq!(pixel(&tex, 4, 7), RGBA::white());
    assert_eq!(pixel(&tex, 8, 4), RGBA::red());
    assert_eq!(pixel(&tex, 15, 4), RGBA::white());
    assert_eq!(pixel(&tex, 12, 1), RGBA::white());
    assert_eq!(pixel(&tex, 12, 7), RGBA::white());
}

#[test]
fn render_grid_puts_the_top_of_a_tile_in_its_first_rows() {
    let grid = Matrix { width: 1, height: 2, data: vec![0b0001u8, 0b0100] };
    let tex = render_grid(&grid, 4).unwrap();
    assert_eq!(tex.width, 4);
    assert_eq!(tex.height, 8);
    let rows: Vec<Vec<u8>> = (0..8)
        .map(|y| (0..4).map(|x| if pixel(&tex, x, y) == RGBA::red() { 1 } else { 0 }).collect())
        .collect();
    assert_eq!(
        rows,
        vec![
            vec![0, 0, 0, 0],
            vec![0, 0, 0, 0],
            vec![0, 0, 1, 0],
            vec![0, 1, 1, 1],
            vec![1, 1, 1, 1],
            vec![0, 1, 1, 0],
            vec![0, 0, 0, 0],
            vec![0, 0, 0, 0],
        ]
    );
}

#[test]
fn render_grid_rejects_a_tile_size_of_zero() {
    let grid = Matrix { width: 3, height: 2, data: vec![0u8; 6] };
    assert!(matches!(render_grid(&grid, 0), Err(GridError::InvalidDimension)));
}

#[test]
fn render_grid_rejects_a_grid_without_cells() {
    let no_columns: Matrix<u8> = Matrix { width: 0, height: 2, data: vec![] };
    let no_rows: Matrix<u8> = Matrix { width: 2, height: 0, data: vec![] };
    assert!(matches!(render_grid(&no_columns, 8), Err(GridError::InvalidDimension)));
    assert!(matches!(render_grid(&no_rows, 8), Err(GridError::InvalidDimension)));
    assert!(matches!(render_grid(&no_rows, 0), Err(GridError::InvalidDimension)));
}

#[test]
fn render_grid_shades_every_pixel_with_the_shader() {
    let nibbles: Vec<u8> = (0..12u8).map(|i| (i * 5 + 3) % 16).collect();
    let grid = generate_grid_from(4, 3, &nibbles).unwrap();
    let tex = render_grid(&grid, 6).unwrap();
    assert_eq!(tex.width, 24);
    assert_eq!(tex.height, 18);
    for y in 0..18 {
        for x in 0..24 {
            let mut expected = RGBA::black();
            let id = *grid.at(x / 6, y / 6);
            wang_shader(&mut expected, 2 * (x % 6) as i128 - 6, 6 - 2 * (y % 6) as i128, id);
            assert_eq!(pixel(&tex, x, y), expected);
        }
    }
}

#[test]
fn the_tile_sheet_holds_sixteen_tiles() {
    let tex = generate_tiles_image(8).unwrap();
    assert_eq!(tex.width, 32);
    assert_eq!(tex.height, 32);
    assert_eq!(tex.data.len(), 32 * 32);
}

#[test]
fn the_tile_sheet_shades_the_first_row_and_column_of_each_tile() {
    let tex = generate_tiles_image(8).unwrap();
    for id in 0usize..16 {
        let left = (id % 4) * 8;
        let top = (id / 4) * 8;
        let side = if id & 8 != 0 { RGBA::red() } else { RGBA::white() };
        let up = if id & 4 != 0 { RGBA::red() } else { RGBA::white() };
        assert_eq!(pixel(&tex, left, top + 4), side);
        assert_eq!(pixel(&tex, left, top + 5), side);
        assert_eq!(pixel(&tex, left + 4, top), up);
        assert_eq!(pixel(&tex, left + 5, top), up);
        assert_eq!(pixel(&tex, left, top), up);
    }
}

#[test]
fn the_tile_sheet_shows_the_tiles_in_order() {
    let tex = generate_tiles_image(8).unwrap();
    for id in 0usize..16 {
        let left = (id % 4) * 8;
        let top = (id / 4) * 8;
        let bottom = pixel(&tex, left + 4, top + 7) == RGBA::red();
        let right = pixel(&tex, left + 7, top + 4) == RGBA::red();
        let up = pixel(&tex, left + 4, top + 1) == RGBA::red();
        let side = pixel(&tex, left + 1, top + 4) == RGBA::red();
        assert_eq!(bottom, id & 1 != 0);
        assert_eq!(right, id & 2 != 0);
        assert_eq!(up, id & 4 != 0);
        assert_eq!(side, id & 8 != 0);
    }
}

#[test]
fn the_tile_sheet_is_red_and_white_and_shaded_like_a_grid() {
    let tex = generate_tiles_image(5).unwrap();
    assert_eq!(tex.width, 20);
    assert_eq!(tex.height, 20);
    for y in 0..20 {
        for x in 0..20 {
            let color = pixel(&tex, x, y);
            assert!(color == RGBA::red() || color == RGBA::white());
            let mut expected = RGBA::black();
            let id = ((y / 5) * 4 + x / 5) as u8;
            wang_shader(&mut expected, 2 * (x % 5) as i128 - 5, 5 - 2 * (y % 5) as i128, id);
            assert_eq!(color, expected);
        }
    }
}

#[test]
fn the_tile_sheet_is_the_image_of_the_grid_of_all_tiles() {
    let all: Vec<u8> = (0u8..16).collect();
    let grid = Matrix { width: 4, height: 4, data: all };
    let sheet = generate_tiles_image(7).unwrap();
    let image = render_grid(&grid, 7).unwrap();
    assert_eq!(sheet.width, image.width);
    assert_eq!(sheet.height, image.height);
    assert_eq!(sheet.data, image.data);
}

#[test]
fn the_tile_sheet_of_one_pixel_tiles_shows_each_corner() {
    let tex = generate_tiles_image(1).unwrap();
    assert_eq!(tex.width, 4);
    assert_eq!(tex.height, 4);
    for id in 0usize..16 {
        let up = if id & 4 != 0 { RGBA::red() } else { RGBA::white() };
        assert_eq!(pixel(&tex, id % 4, id / 4), up);
    }
}

#[test]
fn the_tile_sheet_rejects_a_tile_size_of_zero() {
    assert!(matches!(generate_tiles_image(0), Err(GridError::InvalidDimension)));
}
