use gainmap_convert::chromaticities::{Chromaticities, Matrix3};
use gainmap_convert::color_spaces::{ColorSpace, Illuminant};
use gainmap_convert::colorimetry::CIExyCoords;

fn xy(x: i128, y: i128) -> CIExyCoords {
    CIExyCoords { x, y }
}

fn value(m: &Matrix3, i: usize, j: usize) -> f64 {
    m.num[i][j] as f64 / m.den[i] as f64
}

/// `a × b` where the rows of `b` share one denominator: numerators and denominators.
fn product(a: &Matrix3, b: &Matrix3) -> ([[i128; 3]; 3], [i128; 3]) {
    let mut num = [[0i128; 3]; 3];
    let mut den = [0i128; 3];
    for i in 0..3 {
        for j in 0..3 {
            num[i][j] = (0..3).map(|k| a.num[i][k] * b.num[k][j]).sum();
        }
        den[i] = a.den[i] * b.den[0];
    }
    (num, den)
}

const ALL: [ColorSpace; 6] = [
    ColorSpace::Rec709,
    ColorSpace::Rec2020,
    ColorSpace::Rec2100,
    ColorSpace::AcesAp0,
    ColorSpace::AcesAp1,
    ColorSpace::DisplayP3,
];

#[test]
fn rec709_rgb_to_xyz_matches_srgb_matrix() {
    let m = ColorSpace::Rec709.chromaticities().rgb_to_xyz_matrix().unwrap();
    let expected = [
        [0.4124, 0.3576, 0.1805],
        [0.2126, 0.7152, 0.0722],
        [0.0193, 0.1192, 0.9505],
    ];
    for i in 0..3 {
        for j in 0..3 {
            assert!((value(&m, i, j) - expected[i][j]).abs() < 1e-4, "{} {}", i, j);
        }
    }
}

#[test]
fn rgb_white_maps_to_white_point() {
    for space in ALL {
        let c = space.chromaticities();
        let m = c.rgb_to_xyz_matrix().unwrap();
        let w = c.white;
        let yw = w.y as i128;
        let white = [w.x as i128, yw, 100000 - w.x as i128 - yw];
        for i in 0..3 {
            let row: i128 = m.num[i].iter().sum();
            assert_eq!(row * yw, m.den[i] * white[i]);
        }
    }
}

#[test]
fn xyz_to_rgb_inverts_rgb_to_xyz() {
    for space in ALL {
        let c = space.chromaticities();
        let forward = c.rgb_to_xyz_matrix().unwrap();
        let inverse = c.xyz_to_rgb_matrix().unwrap();
        let (num, den) = product(&inverse, &forward);
        for i in 0..3 {
            for j in 0..3 {
                assert_eq!(num[i][j], if i == j { den[i] } else { 0 });
            }
        }
    }
}

#[test]
fn conversion_to_self_is_identity() {
    let c = ColorSpace::DisplayP3.chromaticities();
    let m = c.rgb_space_conversion_matrix(&c).unwrap();
    for i in 0..3 {
        for j in 0..3 {
            assert_eq!(m.num[i][j], if i == j { m.den[i] } else { 0 });
        }
    }
}

#[test]
fn conversion_keeps_shared_white() {
    let src = ColorSpace::Rec709.chromaticities();
    let dst = ColorSpace::Rec2020.chromaticities();
    let m = src.rgb_space_conversion_matrix(&dst).unwrap();
    for i in 0..3 {
        let row: i128 = m.num[i].iter().sum();
        assert_eq!(row, m.den[i]);
    }
    // Rec. 709 red expressed in Rec. 2020.
    assert!((value(&m, 0, 0) - 0.6274).abs() < 1e-4);
    assert!((value(&m, 0, 1) - 0.3293).abs() < 1e-4);
    assert!((value(&m, 0, 2) - 0.0433).abs() < 1e-4);
}

#[test]
fn conversion_between_white_points_moves_white() {
    let src = ColorSpace::Rec709.chromaticities();
    let dst = ColorSpace::AcesAp1.chromaticities();
    let m = src.rgb_space_conversion_matrix(&dst).unwrap();
    let row: i128 = m.num[0].iter().sum();
    assert_ne!(row, m.den[0]);
}

#[test]
fn conversion_keeps_source_white_xyz() {
    let src = ColorSpace::Rec709.chromaticities();
    let dst = ColorSpace::AcesAp1.chromaticities();
    let m = src.rgb_space_conversion_matrix(&dst).unwrap();
    let inv = dst.xyz_to_rgb_matrix().unwrap();
    let fwd = dst.rgb_to_xyz_matrix().unwrap();
    let w = src.white;
    let white = [w.x as f64 / w.y as f64, 1.0, (100000 - w.x - w.y) as f64 / w.y as f64];
    let mut rgb = [0.0f64; 3];
    for i in 0..3 {
        rgb[i] = (0..3).map(|j| value(&m, i, j)).sum();
        let expected: f64 = (0..3).map(|k| value(&inv, i, k) * white[k]).sum();
        assert!((rgb[i] - expected).abs() < 1e-9);
    }
    // Back in XYZ through the destination's own matrix: the source white.
    for i in 0..3 {
        let xyz: f64 = (0..3).map(|j| value(&fwd, i, j) * rgb[j]).sum();
        assert!((xyz - white[i]).abs() < 1e-9);
    }
}

#[test]
fn contains_own_primaries_and_centroid() {
    for space in ALL {
        let c = space.chromaticities();
        assert!(c.contains_color(c.red));
        assert!(c.contains_color(c.green));
        assert!(c.contains_color(c.blue));
        let centroid = xy(
            (c.red.x + c.green.x + c.blue.x) / 3,
            (c.red.y + c.green.y + c.blue.y) / 3,
        );
        assert!(c.contains_color(centroid));
    }
    let t = Chromaticities { red: xy(60000, 30000), green: xy(30000, 60000), blue: xy(15000, 6000), white: xy(31270, 32900) };
    assert!(t.contains_color(xy(35000, 32000)));
}

#[test]
fn contains_color_edges_and_outside() {
    let c = ColorSpace::Rec709.chromaticities();
    // Midpoint of the red-green edge.
    assert!(c.contains_color(xy(47000, 46500)));
    assert!(!c.contains_color(xy(70000, 29000)));
    assert!(!c.contains_color(xy(0, 100000)));
}

#[test]
fn contains_space_compares_gamuts() {
    let rec709 = ColorSpace::Rec709.chromaticities();
    let rec2020 = ColorSpace::Rec2020.chromaticities();
    let p3 = ColorSpace::DisplayP3.chromaticities();
    assert!(rec2020.contains_space(&rec709));
    assert!(p3.contains_space(&rec709));
    // Display P3 red lies just outside the Rec. 2020 triangle.
    assert!(!rec2020.contains_space(&p3));
    assert!(!rec709.contains_space(&rec2020));
    assert!(!p3.contains_space(&rec2020));
    assert!(!rec709.contains_space(&p3));
    assert!(rec709.contains_space(&rec709));
}

#[test]
fn collinear_primaries_have_no_matrix() {
    let c = Chromaticities { red: xy(10000, 10000), green: xy(20000, 20000), blue: xy(30000, 30000), white: xy(31270, 32900) };
    assert!(c.rgb_to_xyz_matrix().is_none());
    assert!(c.xyz_to_rgb_matrix().is_none());
    assert!(c.luminance_values().is_none());
    let rec709 = ColorSpace::Rec709.chromaticities();
    assert!(c.rgb_space_conversion_matrix(&rec709).is_none());
    assert!(rec709.rgb_space_conversion_matrix(&c).is_none());
    let repeated = Chromaticities { green: rec709.red, ..rec709 };
    assert!(repeated.rgb_to_xyz_matrix().is_none());
}

#[test]
fn white_on_an_edge_has_no_inverse() {
    let rec709 = ColorSpace::Rec709.chromaticities();
    let c = Chromaticities { white: xy(47000, 46500), ..rec709 };
    assert!(c.rgb_to_xyz_matrix().is_some());
    assert!(c.xyz_to_rgb_matrix().is_none());
    let flat_white = Chromaticities { white: xy(31270, 0), ..rec709 };
    assert!(flat_white.rgb_to_xyz_matrix().is_none());
}

#[test]
fn rec709_luminance_weights() {
    let l = ColorSpace::Rec709.chromaticities().luminance_values().unwrap();
    let d = l.den as f64;
    assert!((l.red as f64 / d - 0.2126).abs() < 1e-4);
    assert!((l.green as f64 / d - 0.7152).abs() < 1e-4);
    assert!((l.blue as f64 / d - 0.0722).abs() < 1e-4);
}

#[test]
fn space_negatives() {
    assert!(ColorSpace::AcesAp0.chromaticities().has_negatives());
    assert!(!ColorSpace::Rec709.chromaticities().has_negatives());
    let c = Chromaticities { white: xy(-1, 30000), ..ColorSpace::Rec709.chromaticities() };
    assert!(c.has_negatives());
}

#[test]
fn presets_and_white_points() {
    assert_eq!(ColorSpace::Rec2100.chromaticities(), ColorSpace::Rec2020.chromaticities());
    let rec709 = ColorSpace::Rec709.chromaticities();
    assert_eq!(rec709.red, xy(64000, 33000));
    assert_eq!(rec709.green, xy(30000, 60000));
    assert_eq!(rec709.blue, xy(15000, 6000));
    assert_eq!(rec709.white, Illuminant::D65.white());
    assert_eq!(Illuminant::D65.white(), xy(31270, 32900));
    assert_eq!(Illuminant::D50.white(), xy(34567, 35850));
    assert_eq!(Illuminant::Aces.white(), xy(32168, 33767));
    assert_eq!(ColorSpace::AcesAp0.chromaticities().blue, xy(10, -7700));
    assert_eq!(ColorSpace::AcesAp1.chromaticities().white, Illuminant::Aces.white());
    assert_eq!(ColorSpace::DisplayP3.chromaticities().red, xy(68000, 32000));
}
