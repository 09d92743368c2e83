use doclayout_detector::annotate::{
    annotate_page_pixels, box_is_drawable, boxes_are_drawable, PixelBox, Rect,
};
use doclayout_detector::pp_doclayout::PPDocLayoutV3Label;

// The boxes below are the PDF-point boxes of the scenarios, scaled to
// pixels: x * image_width / page_width, rounded, and likewise for y.

#[test]
fn annotation_maps_pdf_points_to_rendered_pixels() {
    // Page 100 x 50 points rendered at 200 x 100 pixels; box x 10, y 20, w 30, h 10.
    let mut rgba = vec![255; 200 * 100 * 4];
    let boxes = [PixelBox {
        label: PPDocLayoutV3Label::Text,
        rect: Rect { left: 20, top: 40, right: 80, bottom: 60 },
    }];

    annotate_page_pixels(&mut rgba, 200, 100, &boxes);

    let top_left = ((40 * 200 + 20) * 4) as usize;
    assert_eq!(&rgba[top_left..top_left + 4], &[0x43, 0xA0, 0x47, 255]);

    let bottom_right = ((60 * 200 + 80) * 4) as usize;
    assert_eq!(
        &rgba[bottom_right..bottom_right + 4],
        &[0x43, 0xA0, 0x47, 255]
    );
}

#[test]
fn annotation_ignores_out_of_bounds_edges_without_resizing_buffer() {
    // Page 8 x 8 points at 8 x 8 pixels; box x -10, y -10, w 40, h 40.
    let mut rgba = vec![255; 8 * 8 * 4];
    let len_before = rgba.len();
    let boxes = [PixelBox {
        label: PPDocLayoutV3Label::Table,
        rect: Rect { left: -10, top: -10, right: 30, bottom: 30 },
    }];

    annotate_page_pixels(&mut rgba, 8, 8, &boxes);

    assert_eq!(rgba.len(), len_before);
    assert_eq!(&rgba[0..4], &[0x00, 0x96, 0x88, 255]);
}

#[test]
fn annotation_uses_pp_doclayout_label_enum_colors() {
    // Page 20 x 20 points at 20 x 20 pixels; box x 2, y 2, w 8, h 8.
    let mut rgba = vec![255; 20 * 20 * 4];
    let boxes = [PixelBox {
        label: PPDocLayoutV3Label::DocTitle,
        rect: Rect { left: 2, top: 2, right: 10, bottom: 10 },
    }];

    annotate_page_pixels(&mut rgba, 20, 20, &boxes);

    let top_left = ((2 * 20 + 2) * 4) as usize;
    assert_eq!(
        &rgba[top_left..top_left + 4],
        &PPDocLayoutV3Label::DocTitle.debug_color_rgba()
    );
}

fn pixel(rgba: &[u8], width: usize, x: usize, y: usize) -> [u8; 4] {
    let offset = (y * width + x) * 4;
    [rgba[offset], rgba[offset + 1], rgba[offset + 2], rgba[offset + 3]]
}

#[test]
fn annotation_draws_two_pixel_thick_outline_and_leaves_inside_untouched() {
    let mut rgba = vec![255; 10 * 10 * 4];
    let boxes = [PixelBox {
        label: PPDocLayoutV3Label::Image,
        rect: Rect { left: 1, top: 1, right: 8, bottom: 8 },
    }];

    annotate_page_pixels(&mut rgba, 10, 10, &boxes);

    let color = PPDocLayoutV3Label::Image.debug_color_rgba();
    for (x, y) in [(1, 1), (2, 2), (8, 8), (7, 7), (1, 5), (2, 5), (8, 5), (7, 5), (5, 1), (5, 2), (5, 8), (5, 7)] {
        assert_eq!(pixel(&rgba, 10, x, y), color, "outline pixel ({x}, {y})");
    }
    for (x, y) in [(0, 0), (9, 9), (3, 3), (6, 6), (5, 5), (0, 5), (9, 5)] {
        assert_eq!(pixel(&rgba, 10, x, y), [255; 4], "untouched pixel ({x}, {y})");
    }
}

#[test]
fn annotation_later_box_paints_over_earlier_box() {
    let mut rgba = vec![0; 6 * 6 * 4];
    let boxes = [
        PixelBox {
            label: PPDocLayoutV3Label::Table,
            rect: Rect { left: 0, top: 0, right: 5, bottom: 5 },
        },
        PixelBox {
            label: PPDocLayoutV3Label::Text,
            rect: Rect { left: 0, top: 0, right: 3, bottom: 3 },
        },
    ];

    annotate_page_pixels(&mut rgba, 6, 6, &boxes);

    assert_eq!(pixel(&rgba, 6, 0, 0), PPDocLayoutV3Label::Text.debug_color_rgba());
    assert_eq!(pixel(&rgba, 6, 5, 5), PPDocLayoutV3Label::Table.debug_color_rgba());
}

#[test]
fn annotation_skips_inverted_boxes_and_mismatched_buffers() {
    let mut rgba = vec![7; 4 * 4 * 4];
    let inverted = [PixelBox {
        label: PPDocLayoutV3Label::Text,
        rect: Rect { left: 3, top: 0, right: 1, bottom: 3 },
    }];
    annotate_page_pixels(&mut rgba, 4, 4, &inverted);
    assert_eq!(rgba, vec![7; 4 * 4 * 4]);

    let mut short = vec![7; 10];
    let full = [PixelBox {
        label: PPDocLayoutV3Label::Text,
        rect: Rect { left: 0, top: 0, right: 3, bottom: 3 },
    }];
    annotate_page_pixels(&mut short, 4, 4, &full);
    assert_eq!(short, vec![7; 10]);

    let mut empty_image = vec![7; 16];
    annotate_page_pixels(&mut empty_image, 0, 4, &full);
    assert_eq!(empty_image, vec![7; 16]);
}

#[test]
fn drawability_follows_the_drawn_pixels_not_the_page() {
    let near = Rect { left: 0, top: 0, right: 10, bottom: 10 };
    let far = Rect { left: 49_990, top: 49_990, right: 49_999, bottom: 49_999 };
    let inverted = Rect { left: 5, top: 0, right: 1, bottom: 3 };
    // A 50000 x 50000 page has 10^10 bytes, past i32::MAX.
    assert!(box_is_drawable(50_000, 50_000, near));
    assert!(!box_is_drawable(50_000, 50_000, far));
    assert!(box_is_drawable(50_000, 50_000, inverted));
    assert!(box_is_drawable(u32::MAX, 1, inverted));
    assert!(!box_is_drawable(u32::MAX, 1, near));
    assert!(box_is_drawable(200, 100, Rect { left: -10, top: -10, right: 500, bottom: 500 }));
    let boxes = [
        PixelBox { label: PPDocLayoutV3Label::Text, rect: near },
        PixelBox { label: PPDocLayoutV3Label::Table, rect: far },
    ];
    assert!(boxes_are_drawable(50_000, 50_000, &boxes[..1]));
    assert!(!boxes_are_drawable(50_000, 50_000, &boxes));
    // The last drawn row of a one-pixel-high box lies one row below it.
    let row_limit = (i32::MAX as u32 / 4) / 1000;
    let thin = Rect { left: 0, top: row_limit as i32, right: 0, bottom: row_limit as i32 };
    let on_row = Rect { left: 0, top: row_limit as i32, right: 0, bottom: row_limit as i32 + 1 };
    assert!(!box_is_drawable(1000, row_limit + 5, on_row));
    assert!(box_is_drawable(1000, row_limit + 1, thin));
    assert!(!box_is_drawable(1000, row_limit + 5, thin));
}
