use gainmap_convert::black_body::LocusCoords;
use gainmap_convert::colorimetry::{CIEXYZCoords, CIExyCoords, CIExyYCoords, COORD_SCALE};

fn xy(x: i128, y: i128) -> CIExyCoords {
    CIExyCoords { x, y }
}

fn xyy(x: i128, y: i128, luma: i128, luma_den: i128) -> CIExyYCoords {
    CIExyYCoords { coords: xy(x, y), coords_den: COORD_SCALE as i128, luma, luma_den }
}

#[test]
fn black_xyz_gives_illuminant_with_zero_luma() {
    let d65 = xy(31270, 32900);
    let black = CIEXYZCoords { x: 0, y: 0, z: 0, den: 1 };
    let r = black.to_xyy(d65);
    assert_eq!(r.coords, d65);
    assert_eq!(r.luma, 0);
    let d50 = xy(34567, 35850);
    assert_eq!(black.to_xyy(d50), d50.with_luma(0));
    let negative = CIEXYZCoords { x: -1, y: -2, z: 0, den: 7 };
    assert_eq!(negative.to_xyy(d50), d50.with_luma(0));
}

#[test]
fn xyy_round_trip_is_exact() {
    let illuminant = xy(31270, 32900);
    for c in [
        xyy(31270, 32900, COORD_SCALE as i128, COORD_SCALE as i128),
        xyy(64000, 33000, 21260, 100000),
        xyy(10, -7700, 123456, 100000),
        xyy(15000, 6000, 1, 3),
    ] {
        let back = c.to_xyz().to_xyy(illuminant);
        assert_eq!(back.coords.x * c.coords_den, c.coords.x * back.coords_den);
        assert_eq!(back.coords.y * c.coords_den, c.coords.y * back.coords_den);
        assert_eq!(back.luma * c.luma_den, c.luma * back.luma_den);
    }
}

#[test]
fn xyz_round_trip_is_exact() {
    let illuminant = xy(31270, 32900);
    for v in [
        CIEXYZCoords { x: 1, y: 1, z: 1, den: 3 },
        CIEXYZCoords { x: 41239, y: 21264, z: 1933, den: 100000 },
        CIEXYZCoords { x: 1000000, y: 1, z: 0, den: 1 },
        CIEXYZCoords { x: 1741, y: 49, z: 8209, den: 1 },
        CIEXYZCoords { x: -5, y: 2, z: 9, den: 11 },
        CIEXYZCoords { x: 3, y: 1, z: -9, den: 2 },
    ] {
        let w = v.to_xyy(illuminant).to_xyz();
        assert!(w.den > 0);
        assert_eq!(w.x * v.den, v.x * w.den);
        assert_eq!(w.y * v.den, v.y * w.den);
        assert_eq!(w.z * v.den, v.z * w.den);
    }
}

#[test]
fn xyy_to_xyz_formula() {
    // x = 0.25, y = 0.5, Y = 2: X = 1, Z = 1.
    let xyz = xyy(25000, 50000, 2, 1).to_xyz();
    assert_eq!(xyz.x as f64 / xyz.den as f64, 1.0);
    assert_eq!(xyz.y as f64 / xyz.den as f64, 2.0);
    assert_eq!(xyz.z as f64 / xyz.den as f64, 1.0);
}

#[test]
fn black_xyy_gives_zero_xyz() {
    let z = CIEXYZCoords { x: 0, y: 0, z: 0, den: 1 };
    assert_eq!(xyy(30000, 60000, 0, 1).to_xyz(), z);
    assert_eq!(xyy(30000, 0, 5, 1).to_xyz(), z);
}

#[test]
fn xyz_to_xyy_is_exact() {
    // X = Y = Z = 1/3: x = y = 1/3, Y = 1/3.
    let r = CIEXYZCoords { x: 1, y: 1, z: 1, den: 3 }.to_xyy(xy(0, 0));
    assert_eq!((r.coords, r.coords_den), (xy(1, 1), 3));
    assert_eq!((r.luma, r.luma_den), (1, 3));
    let r = CIEXYZCoords { x: 100000, y: 1, z: 0, den: 1 }.to_xyy(xy(0, 0));
    assert_eq!((r.coords, r.coords_den), (xy(100000, 1), 100001));
}

#[test]
fn xyz_to_xyy_outside_unit_square() {
    // X = 3, Y = -1, Z = -1: x = 3, y = -1.
    let r = CIEXYZCoords { x: 3, y: -1, z: -1, den: 1 }.to_xyy(xy(0, 0));
    assert_eq!((r.coords, r.coords_den), (xy(3, -1), 1));
    assert_eq!((r.luma, r.luma_den), (-1, 1));
    // A negative sum: x = -1/2, y = 3/2.
    let r = CIEXYZCoords { x: 1, y: -3, z: 0, den: 2 }.to_xyy(xy(0, 0));
    assert_eq!((r.coords, r.coords_den), (xy(-1, 3), 2));
}

#[test]
fn xy_negatives_and_luma() {
    assert!(xy(10, -7700).has_negatives());
    assert!(xy(-1, 0).has_negatives());
    assert!(!xy(0, 0).has_negatives());
    let c = xy(31270, 32900).with_luma(7);
    assert_eq!(c, xyy(31270, 32900, 7, 100000));
}

#[test]
fn black_body_daylight_locus() {
    // Close to D50 and D65.
    let d50 = CIExyCoords::from_black_body(5003);
    assert_eq!(d50, LocusCoords { x: 345653048908, y: 358596159707 });
    assert_eq!(d50.to_coords(), xy(34565, 35859));
    let d65 = CIExyCoords::from_black_body(6504);
    assert_eq!(d65, LocusCoords { x: 312714056882, y: 329119099136 });
    assert_eq!(d65.to_coords(), xy(31271, 32911));
    // Above 7000 K the second set of coefficients applies.
    assert_eq!(CIExyCoords::from_black_body(7500).to_coords(), xy(29909, 31502));
    // Outside the intended range the formula is still evaluated.
    assert_eq!(CIExyCoords::from_black_body(1000).to_coords(), xy(-129603, -903366));
    assert_eq!(CIExyCoords::from_black_body(10).x, -4577311844937000000);
    assert_eq!(CIExyCoords::from_black_body(u32::MAX).x, 237040057621);
}

#[test]
fn black_body_x_falls_with_temperature() {
    let a = CIExyCoords::from_black_body(24000);
    let b = CIExyCoords::from_black_body(24001);
    assert_eq!((a.x, b.x), (250508263888, 250507577267));
    assert!(b.x < a.x);
    assert!(CIExyCoords::from_black_body(7001).x < CIExyCoords::from_black_body(7000).x);
    let mut last = CIExyCoords::from_black_body(4000).x;
    for t in (4100..=25000).step_by(100) {
        let x = CIExyCoords::from_black_body(t).x;
        assert!(x < last, "{}", t);
        last = x;
    }
}
