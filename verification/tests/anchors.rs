use qrgen::code::QRCode;
use qrgen::ecl::ErrorCorrectionLevel;
use qrgen::encode::create_positional_anchors;
use qrgen::encode::generate;
use qrgen::types::QRBit;
use qrgen::types::QRError;

fn grid_of(code: &QRCode) -> Vec<QRBit> {
    let (w, h) = code.dimensions();
    let mut cells = Vec::new();
    for x in 0..w {
        for y in 0..h {
            cells.push(code.get(x, y).unwrap());
        }
    }
    cells
}

#[test]
fn generate_places_the_version_one_scenario() {
    let code = generate(b"hello", 1).unwrap();
    assert_eq!(code.dimensions(), (21, 21));
    // Inner ring corner of the top-left block.
    assert_eq!(code.get(1, 1).unwrap(), QRBit::Light);
    // Centre of the top-left pattern stays dark.
    assert_eq!(code.get(3, 3).unwrap(), QRBit::Dark);
    // Separator corner of the top-left block.
    assert_eq!(code.get(7, 7).unwrap(), QRBit::Light);
    // Mirrored top-right block: width - 6 == 15.
    assert_eq!(code.get(15, 1).unwrap(), QRBit::Light);
    // Mirrored bottom-left block: height - 2 == 19.
    assert_eq!(code.get(1, 19).unwrap(), QRBit::Light);
}

#[test]
fn generate_rejects_out_of_range_versions() {
    assert_eq!(generate(b"hello", 0).unwrap_err(), QRError::InvalidVersion);
    assert_eq!(generate(b"hello", 41).unwrap_err(), QRError::InvalidVersion);
}

#[test]
fn generate_leaves_the_bottom_right_corner_dark() {
    let code = generate(b"hello", 1).unwrap();
    for x in 13..21 {
        for y in 13..21 {
            assert_eq!(code.get(x, y).unwrap(), QRBit::Dark);
        }
    }
}

#[test]
fn placing_anchors_twice_is_idempotent() {
    let mut once = QRCode::new(1).unwrap();
    create_positional_anchors(&mut once);
    let mut twice = QRCode::new(1).unwrap();
    create_positional_anchors(&mut twice);
    create_positional_anchors(&mut twice);
    assert_eq!(grid_of(&once), grid_of(&twice));
}

#[test]
fn placing_anchors_twice_is_idempotent_on_a_larger_version() {
    let mut once = QRCode::new(7).unwrap();
    create_positional_anchors(&mut once);
    let mut twice = QRCode::new(7).unwrap();
    create_positional_anchors(&mut twice);
    create_positional_anchors(&mut twice);
    assert_eq!(grid_of(&once), grid_of(&twice));
}

#[test]
fn anchors_mirror_to_the_far_corners_on_version_two() {
    // Version 2 is 25 by 25: the reflected offsets move with the dimensions.
    let code = generate(b"hello", 2).unwrap();
    assert_eq!(code.get(25 - 6, 1).unwrap(), QRBit::Light);
    assert_eq!(code.get(1, 25 - 2).unwrap(), QRBit::Light);
    assert_eq!(code.get(3, 3).unwrap(), QRBit::Dark);
}

#[test]
fn as_type_selects_by_cell_state() {
    assert_eq!(QRBit::Light.as_type(1, 0), 1);
    assert_eq!(QRBit::Dark.as_type(1, 0), 0);
    assert_eq!(QRBit::Light.as_type("light", "dark"), "light");
}

#[test]
fn error_correction_levels_report_their_percentages() {
    assert_eq!(ErrorCorrectionLevel::Low.as_percent(), 7);
    assert_eq!(ErrorCorrectionLevel::Medium.as_percent(), 15);
    assert_eq!(ErrorCorrectionLevel::Quartile.as_percent(), 25);
    assert_eq!(ErrorCorrectionLevel::High.as_percent(), 30);
}
