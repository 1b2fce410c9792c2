use oneko::render::{
    draw_pixels, input_region_spans, pixels_le_bytes, render_sprite, Span, BLACK, SIZE,
    TRANSPARENT, WHITE,
};

fn pixel(frame: &[u32], x: usize, y: usize) -> u32 {
    frame[y * 32 + x]
}

#[test]
fn sprite_size() {
    assert_eq!(SIZE, 32);
}

#[test]
fn render_decodes_xbm_bits() {
    let mut sprite = [0u8; 128];
    let mut mask = [0u8; 128];
    // row 0: pixels 0..4 in the mask, pixels 0 and 2 black
    mask[0] = 0b0000_1111;
    sprite[0] = 0b0000_0101;
    // row 0, pixel 8 (first bit of the second byte): white
    mask[1] = 0b0000_0001;
    // row 1, pixel 31 (last bit of the row's fourth byte): black
    mask[7] = 0b1000_0000;
    sprite[7] = 0b1000_0000;
    // a sprite bit without a mask bit stays transparent
    sprite[127] = 0xFF;
    let frame = render_sprite(&sprite, &mask);
    assert_eq!(frame.len(), 1024);
    assert_eq!(pixel(&frame, 0, 0), BLACK);
    assert_eq!(pixel(&frame, 1, 0), WHITE);
    assert_eq!(pixel(&frame, 2, 0), BLACK);
    assert_eq!(pixel(&frame, 3, 0), WHITE);
    assert_eq!(pixel(&frame, 4, 0), TRANSPARENT);
    assert_eq!(pixel(&frame, 8, 0), WHITE);
    assert_eq!(pixel(&frame, 31, 1), 0xFF00_0000);
    assert_eq!(pixel(&frame, 30, 1), 0x0000_0000);
    assert_eq!(pixel(&frame, 31, 31), TRANSPARENT);
    let opaque = frame.iter().filter(|p| **p != 0).count();
    assert_eq!(opaque, 6);
}

#[test]
fn full_mask_renders_white_and_black() {
    let sprite = [0xAAu8; 128];
    let mask = [0xFFu8; 128];
    let frame = render_sprite(&sprite, &mask);
    for y in 0..32 {
        for x in 0..32 {
            let expected = if x % 2 == 1 { 0xFF00_0000 } else { 0xFFFF_FFFF };
            assert_eq!(pixel(&frame, x, y), expected);
        }
    }
}

#[test]
fn inactive_surface_draws_nothing() {
    let sprite = [0xFFu8; 128];
    let mask = [0xFFu8; 128];
    let frame = draw_pixels(&sprite, &mask, false);
    assert_eq!(frame.len(), 1024);
    assert!(frame.iter().all(|p| *p == TRANSPARENT));
    assert_eq!(draw_pixels(&sprite, &mask, true), render_sprite(&sprite, &mask));
}

#[test]
fn le_bytes_of_pixels() {
    let bytes = pixels_le_bytes(&vec![0xFF00_0000, 0xFFFF_FFFF, 0x1234_5678]);
    assert_eq!(
        bytes,
        vec![0, 0, 0, 0xFF, 0xFF, 0xFF, 0xFF, 0xFF, 0x78, 0x56, 0x34, 0x12]
    );
    assert_eq!(pixels_le_bytes(&vec![]), Vec::<u8>::new());
}

#[test]
fn region_of_active_surface_follows_mask() {
    let mut mask = [0u8; 128];
    // row 0: pixels 0..4 and 6..10 (crossing into the next byte)
    mask[0] = 0b1100_1111;
    mask[1] = 0b0000_0011;
    // row 2: pixels 30, 31 (run reaching the right edge)
    mask[11] = 0b1100_0000;
    // row 31: the whole row
    mask[124] = 0xFF;
    mask[125] = 0xFF;
    mask[126] = 0xFF;
    mask[127] = 0xFF;
    let spans = input_region_spans(&mask, true);
    assert_eq!(
        spans,
        vec![
            Span { x: 0, y: 0, width: 4 },
            Span { x: 6, y: 0, width: 4 },
            Span { x: 30, y: 2, width: 2 },
            Span { x: 0, y: 31, width: 32 },
        ]
    );
}

#[test]
fn region_of_empty_mask_is_empty() {
    assert!(input_region_spans(&[0u8; 128], true).is_empty());
}

#[test]
fn region_of_inactive_surface_is_whole_surface() {
    let mut mask = [0u8; 128];
    mask[5] = 0x0F;
    let spans = input_region_spans(&mask, false);
    assert_eq!(spans.len(), 32);
    for (k, s) in spans.iter().enumerate() {
        assert_eq!(*s, Span { x: 0, y: k as i32, width: 32 });
    }
}

#[test]
fn region_matches_opaque_pixels() {
    let mut mask = [0u8; 128];
    let sprite = [0x55u8; 128];
    for (i, b) in mask.iter_mut().enumerate() {
        *b = (i as u8).wrapping_mul(37) ^ 0x5A;
    }
    let frame = render_sprite(&sprite, &mask);
    let spans = input_region_spans(&mask, true);
    for y in 0..32i32 {
        for x in 0..32i32 {
            let covered = spans
                .iter()
                .any(|s| s.y == y && s.x <= x && x < s.x + s.width);
            assert_eq!(covered, pixel(&frame, x as usize, y as usize) != 0);
        }
    }
}
