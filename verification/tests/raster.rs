use doclayout_detector::raster::{
    bgra_to_rgb_and_rgba, checked_page_range, encode_png_rgba, PageRangeError,
};

#[test]
fn bgra_rows_become_rgb_and_rgba_without_row_padding() {
    // Two pixels per row, rows padded to 12 bytes.
    let src = [
        1, 2, 3, 4, 5, 6, 7, 8, 99, 99, 99, 99, //
        9, 10, 11, 12, 13, 14, 15, 16, 99, 99, 99, 99,
    ];

    let (rgb, rgba) = bgra_to_rgb_and_rgba(&src, 2, 2, 12);

    assert_eq!(rgb, vec![3, 2, 1, 7, 6, 5, 11, 10, 9, 15, 14, 13]);
    assert_eq!(
        rgba,
        vec![3, 2, 1, 4, 7, 6, 5, 8, 11, 10, 9, 12, 15, 14, 13, 16]
    );
}

#[test]
fn bgra_conversion_of_empty_bitmap_is_empty() {
    let (rgb, rgba) = bgra_to_rgb_and_rgba(&[], 4, 0, 16);
    assert!(rgb.is_empty());
    assert!(rgba.is_empty());
}

#[test]
fn page_ranges_are_one_based_and_inside_the_document() {
    assert_eq!(checked_page_range(1, 3, 5), Ok(3));
    assert_eq!(checked_page_range(5, 1, 5), Ok(5));
    assert_eq!(checked_page_range(0, 1, 5), Err(PageRangeError::ZeroStartPage));
    assert_eq!(checked_page_range(2, 0, 5), Err(PageRangeError::ZeroCount));
    assert_eq!(checked_page_range(u32::MAX, 2, 5), Err(PageRangeError::Overflow));
    assert_eq!(checked_page_range(4, 3, 5), Err(PageRangeError::OutOfRange));
}

#[test]
fn page_range_messages_name_the_range() {
    assert_eq!(
        PageRangeError::ZeroStartPage.message(0, 1, 5),
        "startPage is 1-based and must be greater than 0"
    );
    assert_eq!(PageRangeError::ZeroCount.message(1, 0, 5), "count must be greater than 0");
    assert_eq!(PageRangeError::Overflow.message(u32::MAX, 2, 5), "page range overflow");
    assert_eq!(
        PageRangeError::OutOfRange.message(4, 3, 5),
        "page range 4-6 out of range; document has 5 pages"
    );
}

#[test]
fn pages_encode_as_the_png_crate_writes_them() {
    let rgba = [10u8, 20, 30, 255, 40, 50, 60, 128];
    let mut expected = Vec::new();
    {
        let mut encoder = png::Encoder::new(&mut expected, 2, 1);
        encoder.set_color(png::ColorType::Rgba);
        encoder.set_depth(png::BitDepth::Eight);
        let mut writer = encoder.write_header().unwrap();
        writer.write_image_data(&rgba).unwrap();
    }
    let encoded = encode_png_rgba(&rgba, 2, 1).unwrap();
    assert_eq!(encoded, expected);
    assert_eq!(&encoded[..8], &[137, 80, 78, 71, 13, 10, 26, 10]);

    assert_eq!(encode_png_rgba(&rgba, 0, 1), Err("Zero width not allowed".to_string()));
    assert_eq!(encode_png_rgba(&rgba, 2, 0), Err("Zero height not allowed".to_string()));
    assert_eq!(
        encode_png_rgba(&rgba[..7], 2, 1),
        Err("wrong data size, expected 8 got 7".to_string())
    );
}
