//! Tests of the logical image type and the bit-packing transform.

use epaper::bytes::Bytes;
use epaper::error::PaperError;
use epaper::packer::{
    img_2_display_buf, LogicalImage, BLACK_PIXEL, BUF_LEN, HEIGHT, PIXEL_COUNT, WHITE_PIXEL, WIDTH,
};

#[test]
fn all_white_packs_to_all_bits_set() {
    let img = LogicalImage::new(WIDTH, HEIGHT, WHITE_PIXEL).unwrap();
    let buf = img_2_display_buf(&img);
    assert_eq!(buf.len(), BUF_LEN);
    assert_eq!(buf.len(), (WIDTH as usize) * (HEIGHT as usize) / 8);
    assert!(buf.iter().all(|&b| b == 0xff));
}

#[test]
fn all_white_means_any_nonzero_luminance() {
    let img = LogicalImage::new(WIDTH, HEIGHT, 1).unwrap();
    let buf = img_2_display_buf(&img);
    assert!(buf.iter().all(|&b| b == 0xff));
}

#[test]
fn all_black_packs_to_all_bits_clear() {
    let img = LogicalImage::new(WIDTH, HEIGHT, BLACK_PIXEL).unwrap();
    let buf = img_2_display_buf(&img);
    assert_eq!(buf.len(), BUF_LEN);
    assert!(buf.iter().all(|&b| b == 0x00));
}

#[test]
fn single_black_pixel_clears_exactly_one_bit() {
    let x: u32 = 5;
    let y: u32 = 3;
    let mut img = LogicalImage::new(WIDTH, HEIGHT, WHITE_PIXEL).unwrap();
    img.set_pixel(x, y, BLACK_PIXEL);
    let buf = img_2_display_buf(&img);

    let idx = (((WIDTH - x - 1) * HEIGHT + y) / 8) as usize;
    let expected = !(0x80u8 >> (y % 8));
    assert_eq!(idx, 1220);
    assert_eq!(expected, 0xEF);
    for (i, &b) in buf.iter().enumerate() {
        if i == idx {
            assert_eq!(b, expected);
        } else {
            assert_eq!(b, 0xff);
        }
    }
}

#[test]
fn corner_pixels_land_on_the_expected_bits() {
    let mut img = LogicalImage::new(WIDTH, HEIGHT, WHITE_PIXEL).unwrap();
    img.set_pixel(0, 0, BLACK_PIXEL);
    let buf = img_2_display_buf(&img);
    assert_eq!(buf[1270], 0x7F);

    let mut img2 = LogicalImage::new(WIDTH, HEIGHT, WHITE_PIXEL).unwrap();
    img2.set_pixel(WIDTH - 1, HEIGHT - 1, BLACK_PIXEL);
    let buf2 = img_2_display_buf(&img2);
    assert_eq!(buf2[9], 0xFE);
}

#[test]
fn packing_twice_yields_identical_buffers() {
    let mut img = LogicalImage::new(WIDTH, HEIGHT, WHITE_PIXEL).unwrap();
    for y in 0..HEIGHT {
        for x in 0..WIDTH {
            if (x + y) % 3 == 0 {
                img.set_pixel(x, y, BLACK_PIXEL);
            }
        }
    }
    let first = img_2_display_buf(&img);
    let second = img_2_display_buf(&img);
    assert_eq!(first, second);
}

#[test]
fn wrong_dimensions_are_a_size_mismatch() {
    assert_eq!(
        LogicalImage::new(HEIGHT, WIDTH, WHITE_PIXEL).unwrap_err(),
        PaperError::SizeMismatch
    );
    assert_eq!(
        LogicalImage::new(0, 0, WHITE_PIXEL).unwrap_err(),
        PaperError::SizeMismatch
    );
}

#[test]
fn from_pixels_checks_dimensions_and_length() {
    let img = LogicalImage::from_pixels(vec![WHITE_PIXEL; PIXEL_COUNT], WIDTH, HEIGHT).unwrap();
    assert_eq!(img.pixel(0, 0), WHITE_PIXEL);
    assert_eq!(
        LogicalImage::from_pixels(vec![0u8; 5], WIDTH, HEIGHT).unwrap_err(),
        PaperError::SizeMismatch
    );
    assert_eq!(
        LogicalImage::from_pixels(vec![0u8; PIXEL_COUNT], WIDTH, HEIGHT + 1).unwrap_err(),
        PaperError::SizeMismatch
    );
}

#[test]
fn set_pixel_is_read_back_by_pixel() {
    let mut img = LogicalImage::new(WIDTH, HEIGHT, WHITE_PIXEL).unwrap();
    img.set_pixel(17, 42, BLACK_PIXEL);
    assert_eq!(img.pixel(17, 42), BLACK_PIXEL);
    assert_eq!(img.pixel(17, 41), WHITE_PIXEL);
    assert_eq!(img.pixel(16, 42), WHITE_PIXEL);
}

#[test]
fn byte_views_expose_each_payload_shape() {
    assert_eq!(0x42u8.bytes(), &[0x42u8]);

    let owned: Vec<u8> = vec![1, 2, 3];
    assert_eq!(owned.bytes(), &[1u8, 2, 3]);

    let backing = [4u8, 5, 6];
    let slice: &[u8] = &backing;
    assert_eq!(slice.bytes(), &[4u8, 5, 6]);

    let frame = [0xAAu8; 1280];
    let frame_ref = &frame;
    assert_eq!(frame_ref.bytes().len(), 1280);
    assert!(frame_ref.bytes().iter().all(|&b| b == 0xAA));
}
