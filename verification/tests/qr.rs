use icsqr::generate_qr;

#[test]
fn qr_for_short_text() {
    let qr = generate_qr("BEGIN:VCALENDAR\r\nEND:VCALENDAR\r\n").unwrap();
    assert_eq!((qr.width, qr.height), (280, 280));
    assert_eq!(qr.rgba.len(), (qr.width * qr.height * 4) as usize);
    for px in qr.rgba.chunks(4) {
        assert!(px[0] == 0 || px[0] == 255);
        assert_eq!(px[0], px[1]);
        assert_eq!(px[1], px[2]);
        assert_eq!(px[3], 255);
    }
    assert_eq!(&qr.png_bytes[..8], &[0x89, b'P', b'N', b'G', 0x0d, 0x0a, 0x1a, 0x0a]);
}

#[test]
fn qr_bitmap_is_280_by_280() {
    for text in ["x".to_string(), "y".repeat(300), "z".repeat(2000)] {
        let qr = generate_qr(&text).unwrap();
        assert_eq!((qr.width, qr.height), (280, 280));
        assert_eq!(qr.rgba.len(), 280 * 280 * 4);
        let png = image::load_from_memory(&qr.png_bytes).unwrap().to_rgba8();
        assert_eq!(png.dimensions(), (280, 280));
    }
}

#[test]
fn qr_pixels_for_a() {
    // Version 1: 21 modules plus a quiet zone of 4 on each side make 29; 9
    // pixels per module give 261 pixels, centred with a margin of 9, so the
    // finder pattern starts at pixel 9 + 4 * 9 = 45.
    let qr = generate_qr("A").unwrap();
    let png = image::load_from_memory(&qr.png_bytes).unwrap().to_rgba8();
    assert_eq!(png.get_pixel(0, 0).0, [255, 255, 255, 255]);
    assert_eq!(png.get_pixel(40, 40).0, [255, 255, 255, 255]);
    assert_eq!(png.get_pixel(44, 45).0, [255, 255, 255, 255]);
    assert_eq!(png.get_pixel(45, 45).0, [0, 0, 0, 255]);
    assert_eq!(png.get_pixel(50, 50).0, [0, 0, 0, 255]);
    assert_eq!(png.get_pixel(279, 279).0, [255, 255, 255, 255]);
    let at = |x: usize, y: usize| &qr.rgba[(y * 280 + x) * 4..][..4];
    assert_eq!(at(44, 45), &[255, 255, 255, 255]);
    assert_eq!(at(45, 45), &[0, 0, 0, 255]);
    assert_eq!(png.into_raw(), qr.rgba);
}

#[test]
fn qr_is_a_function_of_the_text() {
    let a = generate_qr("BEGIN:VEVENT").unwrap();
    let b = generate_qr("BEGIN:VEVENT").unwrap();
    assert_eq!(a, b);
    let c = generate_qr("BEGIN:VEVENS").unwrap();
    assert_ne!(a.rgba, c.rgba);
}

#[test]
fn qr_rejects_too_much_data() {
    let data = "a".repeat(5000);
    assert_eq!(generate_qr(&data).unwrap_err(), "QR generation failed: data too long");
}
