use image::{ImageFormat, Rgba, RgbaImage};
use mapmap_ui::picture::first_decoded;
use std::io::Cursor;

fn png_bytes(width: u32, height: u32, pixel: [u8; 4]) -> Vec<u8> {
    let img = RgbaImage::from_pixel(width, height, Rgba(pixel));
    let mut bytes: Vec<u8> = Vec::new();
    img.write_to(&mut Cursor::new(&mut bytes), ImageFormat::Png).unwrap();
    bytes
}

#[test]
fn no_candidates_no_picture() {
    assert!(first_decoded(&vec![]).is_none());
}

#[test]
fn undecodable_bytes_are_skipped() {
    assert!(first_decoded(&vec![vec![1, 2, 3], b"not an image".to_vec()]).is_none());
}

#[test]
fn first_picture_that_decodes_wins() {
    let red = png_bytes(2, 1, [255, 0, 0, 255]);
    let blue = png_bytes(3, 3, [0, 0, 255, 128]);
    let (index, w, h, pixels) = first_decoded(&vec![vec![9, 9], red.clone(), blue.clone()]).unwrap();
    assert_eq!(index, 1);
    assert_eq!((w, h), (2, 1));
    assert_eq!(pixels, vec![255, 0, 0, 255, 255, 0, 0, 255]);
    assert_ne!(pixels, red);
}

#[test]
fn a_later_picture_is_found_when_earlier_ones_fail() {
    let blue = png_bytes(3, 2, [0, 0, 255, 128]);
    let (index, w, h, pixels) =
        first_decoded(&vec![vec![], b"junk".to_vec(), vec![0; 8], blue]).unwrap();
    assert_eq!((index, w, h), (3, 3, 2));
    assert_eq!(pixels.len(), 24);
}
