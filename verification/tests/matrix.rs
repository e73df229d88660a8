use qrgen::code::QRCode;
use qrgen::types::QRBit;
use qrgen::types::QRError;

#[test]
fn new_version_one_is_21_by_21() {
    let code = QRCode::new(1).unwrap();
    assert_eq!(code.version(), 1);
    assert_eq!(code.dimensions(), (21, 21));
    assert_eq!(code.get(0, 0).unwrap(), QRBit::Dark);
}

#[test]
fn dimensions_follow_version_for_every_supported_version() {
    for version in 1..=40u32 {
        let code = QRCode::new(version).unwrap();
        let side = 21 + 4 * (version - 1);
        assert_eq!(code.dimensions(), (side, side));
        assert_eq!(code.version(), version);
    }
}

#[test]
fn new_rejects_version_zero_and_forty_one() {
    assert_eq!(QRCode::new(0).unwrap_err(), QRError::InvalidVersion);
    assert_eq!(QRCode::new(41).unwrap_err(), QRError::InvalidVersion);
    assert_eq!(QRCode::new(u32::MAX).unwrap_err(), QRError::InvalidVersion);
}

#[test]
fn fresh_matrix_is_all_dark() {
    let code = QRCode::new(1).unwrap();
    for x in 0..21 {
        for y in 0..21 {
            assert_eq!(code.get(x, y).unwrap(), QRBit::Dark);
        }
    }
}

#[test]
fn get_rejects_out_of_bounds_coordinates() {
    let code = QRCode::new(1).unwrap();
    assert_eq!(code.get(21, 0).unwrap_err(), QRError::OutOfBounds);
    assert_eq!(code.get(0, 21).unwrap_err(), QRError::OutOfBounds);
    assert_eq!(code.get(21, 21).unwrap_err(), QRError::OutOfBounds);
    assert_eq!(code.get(u32::MAX, 0).unwrap_err(), QRError::OutOfBounds);
    assert_eq!(code.get(0, u32::MAX).unwrap_err(), QRError::OutOfBounds);
}

#[test]
fn place_light_overwrites_one_cell() {
    let mut code = QRCode::new(1).unwrap();
    code.place_light(0, 0).unwrap();
    assert_eq!(code.get(0, 0).unwrap(), QRBit::Light);
    assert_eq!(code.get(0, 1).unwrap(), QRBit::Dark);
    assert_eq!(code.get(1, 0).unwrap(), QRBit::Dark);
}

#[test]
fn place_dark_overwrites_a_light_cell() {
    let mut code = QRCode::new(1).unwrap();
    code.place_light(0, 0).unwrap();
    code.place_dark(0, 0).unwrap();
    assert_eq!(code.get(0, 0).unwrap(), QRBit::Dark);
}

#[test]
fn place_rejects_out_of_bounds_coordinates() {
    let mut code = QRCode::new(1).unwrap();
    assert_eq!(code.place_light(21, 0).unwrap_err(), QRError::OutOfBounds);
    assert_eq!(code.place_dark(0, 21).unwrap_err(), QRError::OutOfBounds);
}

#[test]
fn clear_resets_the_matrix_to_all_dark() {
    let mut code = QRCode::new(1).unwrap();
    code.place_light(5, 5).unwrap();
    code.place_light(20, 0).unwrap();
    code.clear();
    assert_eq!(code.dimensions(), (21, 21));
    for x in 0..21 {
        for y in 0..21 {
            assert_eq!(code.get(x, y).unwrap(), QRBit::Dark);
        }
    }
}

#[test]
fn position_as_index_matches_the_x_major_formula() {
    assert_eq!(QRCode::position_as_index(1, 2, 21), 23);
    assert_eq!(QRCode::position_as_index(0, 0, 21), 0);
    assert_eq!(QRCode::position_as_index(20, 20, 21), 440);
}

#[test]
fn position_as_index_is_a_bijection_on_version_one() {
    let mut seen = vec![false; 21 * 21];
    for x in 0..21u32 {
        for y in 0..21u32 {
            let i = QRCode::position_as_index(x, y, 21);
            assert!(i < 21 * 21);
            assert!(!seen[i], "two coordinates map to slot {}", i);
            seen[i] = true;
        }
    }
    assert!(seen.iter().all(|&hit| hit));
}
