use oneko::ppm::{find_ledge_in_ppm, ppm_scan_is_defined, Ledge};

fn image(header: &str, w: usize, h: usize, paint: impl Fn(usize, usize) -> (u8, u8, u8)) -> Vec<u8> {
    let mut d = header.as_bytes().to_vec();
    for y in 0..h {
        for x in 0..w {
            let (r, g, b) = paint(x, y);
            d.push(r);
            d.push(g);
            d.push(b);
        }
    }
    d
}

fn white_band_at(row: usize) -> impl Fn(usize, usize) -> (u8, u8, u8) {
    move |_x, y| if y == row { (255, 255, 255) } else { (0, 0, 0) }
}

#[test]
fn finds_ledge_on_first_scanned_row() {
    let d = image("P6\n400 60\n255\n", 400, 60, white_band_at(50));
    assert!(ppm_scan_is_defined(&d));
    assert_eq!(find_ledge_in_ppm(&d), Some(Ledge { x: 0, y: 50, len: 301 }));
}

#[test]
fn ledge_starts_after_a_break() {
    // row 70 is white from x = 20 on; row 50 has a run of only 300
    let d = image("P6 400 80 255\n", 400, 80, |x, y| {
        if (y == 70 && x >= 20) || (y == 50 && x < 300) {
            (200, 200, 200)
        } else {
            (0, 0, 0)
        }
    });
    assert_eq!(find_ledge_in_ppm(&d), Some(Ledge { x: 20, y: 70, len: 301 }));
}

#[test]
fn rows_between_scanned_rows_are_skipped() {
    let d = image("P6\n400 80\n255\n", 400, 80, white_band_at(60));
    assert_eq!(find_ledge_in_ppm(&d), None);
}

#[test]
fn uneven_colour_breaks_a_ledge() {
    // alternating shades differ by 20 from their neighbours: never a run
    let d = image("P6\n400 60\n255\n", 400, 60, |x, y| {
        if y == 50 {
            if x % 2 == 0 { (200, 200, 200) } else { (220, 200, 200) }
        } else {
            (0, 0, 0)
        }
    });
    assert_eq!(find_ledge_in_ppm(&d), None);
    // a difference of 14 keeps the run going
    let d = image("P6\n400 60\n255\n", 400, 60, |x, y| {
        if y == 50 {
            if x % 2 == 0 { (200, 200, 200) } else { (214, 200, 200) }
        } else {
            (0, 0, 0)
        }
    });
    assert_eq!(find_ledge_in_ppm(&d), Some(Ledge { x: 0, y: 50, len: 301 }));
}

#[test]
fn weak_contrast_is_no_edge() {
    // 20 per channel: a sum of 60 is not more than 60
    let d = image("P6\n400 60\n255\n", 400, 60, |_x, y| if y == 50 { (20, 20, 20) } else { (0, 0, 0) });
    assert_eq!(find_ledge_in_ppm(&d), None);
    let d = image("P6\n400 60\n255\n", 400, 60, |_x, y| if y == 50 { (21, 20, 20) } else { (0, 0, 0) });
    assert_eq!(find_ledge_in_ppm(&d), Some(Ledge { x: 0, y: 50, len: 301 }));
}

#[test]
fn narrow_image_has_no_ledge() {
    let d = image("P6\n300 60\n255\n", 300, 60, white_band_at(50));
    assert_eq!(find_ledge_in_ppm(&d), None);
}

#[test]
fn header_errors() {
    let body = |hdr: &str| image(hdr, 400, 60, white_band_at(50));
    assert_eq!(find_ledge_in_ppm(&body("P3\n400 60\n255\n")), None);
    assert_eq!(find_ledge_in_ppm(&body("P6\n400 60\n65535\n")), None);
    assert_eq!(find_ledge_in_ppm(&body("P6\n400 x60\n255\n")), None);
    assert_eq!(find_ledge_in_ppm(&body("P6\n-400 60\n255\n")), None);
    assert_eq!(find_ledge_in_ppm(&body("P6\n+ 60\n255\n")), None);
    assert_eq!(find_ledge_in_ppm(b""), None);
    assert_eq!(find_ledge_in_ppm(b"P6"), None);
    // a leading plus sign is accepted
    assert_eq!(
        find_ledge_in_ppm(&body("P6\n+400 +60\n+255\n")),
        Some(Ledge { x: 0, y: 50, len: 301 })
    );
}

#[test]
fn truncated_pixels() {
    let mut d = image("P6\n400 60\n255\n", 400, 60, white_band_at(50));
    d.pop();
    assert!(ppm_scan_is_defined(&d));
    assert_eq!(find_ledge_in_ppm(&d), None);
}

#[test]
fn scan_definedness() {
    // nothing after the maximum value
    assert!(!ppm_scan_is_defined(b"P6 1 1 255"));
    // width times height times three does not fit
    let huge = format!("P6 {} {} 255\n", usize::MAX, 2);
    assert!(!ppm_scan_is_defined(huge.as_bytes()));
    // other inputs are fine, even when not a valid image
    assert!(ppm_scan_is_defined(b"P6 1 1 254"));
    assert!(ppm_scan_is_defined(b"hello"));
    assert!(ppm_scan_is_defined(b"P6 1 1 255\n"));
    assert_eq!(find_ledge_in_ppm(b"P6 1 1 255\n"), None);
}
