use mandelbrot::pixel::{invert_pixel, Digit, Grid, Rgb};
use mandelbrot::{frame_buffer, insert_frame_counter, WindowDimensions};

#[test]
fn inversion_is_inverted() {
    for b in 0..=u8::MAX {
        assert_eq!(!b, 255 - b);
    }
}

#[test]
fn pixel_inversion_matches_complement() {
    assert_eq!(invert_pixel(0), u32::MAX);
    assert_eq!(invert_pixel(u32::MAX), 0);
    assert_eq!(invert_pixel(0x00FF_00FF), 0xFF00_FF00);
    assert_eq!(invert_pixel(5), !5);
}

#[test]
fn packs_channels_big_endian() {
    assert_eq!(Rgb::from_channels(0x12, 0x34, 0x56).to_u32(), 0x0012_3456);
    assert_eq!(Rgb::from_channels(0, 0, 0).to_u32(), 0);
    assert_eq!(Rgb::from_channels(255, 255, 255).to_u32(), 0x00FF_FFFF);
    assert_eq!(Rgb::from_channels(255, 0, 0).to_u32(), 0x00FF_0000);
}

#[test]
fn digits_of_small_numbers() {
    let ds = Digit::from_u64(0);
    assert_eq!(ds.len(), 1);
    assert_eq!(ds[0].0, 0);

    let ds = Digit::from_u64(7);
    assert_eq!(ds.len(), 1);
    assert_eq!(ds[0].0, 7);

    let ds = Digit::from_u64(10);
    assert_eq!(ds.len(), 2);
    assert_eq!((ds[0].0, ds[1].0), (1, 0));

    let ds = Digit::from_u64(123);
    let vals: Vec<u8> = ds.iter().map(|d| d.0).collect();
    assert_eq!(vals, vec![1, 2, 3]);
}

#[test]
fn digits_of_largest_value() {
    let ds = Digit::from_u64(u64::MAX);
    let vals: Vec<u8> = ds.iter().map(|d| d.0).collect();
    let expected: Vec<u8> = "18446744073709551615".bytes().map(|c| c - b'0').collect();
    assert_eq!(vals, expected);
}

#[test]
fn grid_addresses_rows() {
    let g = Grid { row_len: 16 };
    assert_eq!(g.subslice_range(0), (0, 16));
    assert_eq!(g.subslice_range(3), (48, 64));
}

#[test]
fn frame_buffer_is_zeroed() {
    let dim = WindowDimensions { width: 7, height: 3 };
    let buf = frame_buffer(dim);
    assert_eq!(buf.len(), 21);
    assert!(buf.iter().all(|&p| p == 0));
}

#[test]
fn flat_length_multiplies() {
    let dim = WindowDimensions { width: 7, height: 3 };
    assert_eq!(dim.flat_length(), 21);
    let dim = WindowDimensions::default();
    assert_eq!((dim.width, dim.height), (1000, 1000));
    assert_eq!(dim.flat_length(), 1_000_000);
}

// The 5-row, 3-column glyph bitmaps, the oracle for the overlay tests.
fn glyph_rows(d: u8) -> [[u8; 3]; 5] {
    match d {
        0 => [[0, 1, 0], [1, 0, 1], [1, 0, 1], [1, 0, 1], [0, 1, 0]],
        1 => [[0, 1, 0], [1, 1, 0], [0, 1, 0], [0, 1, 0], [1, 1, 1]],
        _ => panic!("only the digits drawn by these tests are tabulated"),
    }
}

// The flat indices a digit drawn at (`horiz`, `vert`) must invert.
fn expected_flips(d: u8, width: usize, horiz: usize, vert: usize) -> Vec<usize> {
    let rows = glyph_rows(d);
    let mut idxs = Vec::new();
    for y in 0..5 {
        for x in 0..3 {
            if rows[y][x] == 1 {
                for dy in 0..2 {
                    for dx in 0..2 {
                        idxs.push((vert + 2 * y + dy) * width + horiz + 2 * x + dx);
                    }
                }
            }
        }
    }
    idxs
}

#[test]
fn renders_one_digit_by_inverting_its_cells() {
    let dim = WindowDimensions { width: 16, height: 16 };
    let mut buf = vec![5u32; 256];
    Digit(1).render_6_10(&mut buf, dim, 1, 1);

    let flips = expected_flips(1, 16, 1, 1);
    assert_eq!(flips.len(), 32);
    for k in 0..256 {
        if flips.contains(&k) {
            assert_eq!(buf[k], !5u32, "pixel {k} must be inverted");
        } else {
            assert_eq!(buf[k], 5, "pixel {k} must be untouched");
        }
    }
}

#[test]
fn frame_counter_draws_each_digit_once() {
    let dim = WindowDimensions { width: 32, height: 32 };
    let mut buf = frame_buffer(dim);
    insert_frame_counter(10, &mut buf, dim);

    let mut flips = expected_flips(1, 32, 1, 1);
    flips.extend(expected_flips(0, 32, 9, 1));
    for k in 0..buf.len() {
        if flips.contains(&k) {
            assert_eq!(buf[k], u32::MAX, "pixel {k} must be inverted");
        } else {
            assert_eq!(buf[k], 0, "pixel {k} must be untouched");
        }
    }
}

#[test]
fn frame_counter_twice_restores_the_frame() {
    let dim = WindowDimensions { width: 64, height: 16 };
    let mut buf: Vec<u32> = (0..dim.flat_length() as u32).collect();
    let orig = buf.clone();
    insert_frame_counter(907, &mut buf, dim);
    assert_ne!(buf, orig);
    insert_frame_counter(907, &mut buf, dim);
    assert_eq!(buf, orig);
}
