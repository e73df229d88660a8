use qrgen::code::QRCode;
use qrgen::encode::generate;
use qrgen::render::as_image;
use qrgen::render::generate_image;
use qrgen::types::QRBit;

#[test]
fn image_has_one_pixel_per_module() {
    let code = generate(b"hello", 1).unwrap();
    let img = generate_image(code);
    assert_eq!(img.width(), 21);
    assert_eq!(img.height(), 21);
    assert_eq!(img.into_raw().len(), 21 * 21);
}

#[test]
fn pixels_round_trip_the_module_states() {
    let code = generate(b"hello", 1).unwrap();
    let mut modules = Vec::new();
    for y in 0..21u32 {
        for x in 0..21u32 {
            modules.push(code.get(x, y).unwrap());
        }
    }
    let raw = generate_image(code).into_raw();
    assert_eq!(raw.len(), modules.len());
    for y in 0..21usize {
        for x in 0..21usize {
            let pixel = raw[y * 21 + x];
            match modules[y * 21 + x] {
                QRBit::Light => assert_eq!(pixel, 255),
                QRBit::Dark => assert_eq!(pixel, 0),
            }
        }
    }
}

#[test]
fn rendered_anchors_are_white_on_black() {
    let img = as_image(b"hello", 1).unwrap();
    assert_eq!(img.width(), 21);
    assert_eq!(img.height(), 21);
    let raw = img.into_raw();
    // The raw buffer is packed row by row: slot y * width + x.
    assert_eq!(raw[1 * 21 + 1], 255);
    assert_eq!(raw[3 * 21 + 3], 0);
    assert_eq!(raw[7 * 21 + 7], 255);
    assert_eq!(raw[1 * 21 + 15], 255);
    assert_eq!(raw[19 * 21 + 1], 255);
    assert_eq!(raw[0], 0);
}

#[test]
fn as_image_rejects_out_of_range_versions() {
    assert!(as_image(b"hello", 0).is_err());
    assert!(as_image(b"hello", 41).is_err());
}

#[test]
fn a_fresh_matrix_renders_fully_black() {
    let code = QRCode::new(1).unwrap();
    let raw = generate_image(code).into_raw();
    assert!(raw.iter().all(|&pixel| pixel == 0));
}
