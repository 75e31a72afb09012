use gainmap_convert::chromaticities::Chromaticities;
use gainmap_convert::color_spaces::{ColorSpace, Illuminant};
use gainmap_convert::colorimetry::CIExyCoords;
use gainmap_convert::pipeline::{
    plan_conversion, resolve_input_chromaticities, resolve_output_chromaticities, ColorError,
};

fn xy(x: i128, y: i128) -> CIExyCoords {
    CIExyCoords { x, y }
}

#[test]
fn narrower_output_space_warns() {
    let input = ColorSpace::Rec2020.chromaticities();
    let output = ColorSpace::Rec709.chromaticities();
    let plan = plan_conversion(&input, Some(output)).unwrap();
    assert!(plan.gamut_warning);
    assert!(plan.matrix.is_some());
    assert_eq!(plan.write_chromaticities, output);
}

#[test]
fn wider_output_space_does_not_warn() {
    let input = ColorSpace::Rec709.chromaticities();
    let plan = plan_conversion(&input, Some(ColorSpace::Rec2020.chromaticities())).unwrap();
    assert!(!plan.gamut_warning);
    let plan = plan_conversion(&input, None).unwrap();
    assert!(!plan.gamut_warning);
    assert!(plan.matrix.is_none());
    assert_eq!(plan.write_chromaticities, input);
}

#[test]
fn plan_luminance_follows_written_space() {
    let input = ColorSpace::Rec709.chromaticities();
    let output = ColorSpace::Rec2020.chromaticities();
    let plan = plan_conversion(&input, Some(output)).unwrap();
    let l = output.luminance_values().unwrap();
    assert_eq!((plan.luminance.red, plan.luminance.green, plan.luminance.blue, plan.luminance.den), (l.red, l.green, l.blue, l.den));
    let g = plan.luminance.green as f64 / plan.luminance.den as f64;
    assert!((g - 0.6780).abs() < 1e-3);
}

#[test]
fn plan_reports_degenerate_spaces() {
    let flat = Chromaticities { red: xy(10000, 10000), green: xy(20000, 20000), blue: xy(30000, 30000), white: xy(31270, 32900) };
    let rec709 = ColorSpace::Rec709.chromaticities();
    assert_eq!(plan_conversion(&flat, None).err(), Some(ColorError::DegenerateInput));
    assert_eq!(plan_conversion(&flat, Some(rec709)).err(), Some(ColorError::DegenerateInput));
    assert_eq!(plan_conversion(&rec709, Some(flat)).err(), Some(ColorError::DegenerateOutput));
}

#[test]
fn input_falls_back_to_rec709() {
    let r = resolve_input_chromaticities(None, None, None).unwrap();
    assert!(r.assumed);
    assert_eq!(r.chromaticities, ColorSpace::Rec709.chromaticities());
}

#[test]
fn input_prefers_selection_then_image() {
    let from_image = ColorSpace::AcesAp0.chromaticities();
    let r = resolve_input_chromaticities(Some(ColorSpace::DisplayP3), Some(from_image), None).unwrap();
    assert!(!r.assumed);
    assert_eq!(r.chromaticities, ColorSpace::DisplayP3.chromaticities());
    let r = resolve_input_chromaticities(None, Some(from_image), Some(Illuminant::D50)).unwrap();
    assert!(!r.assumed);
    assert_eq!(r.chromaticities, Chromaticities { white: xy(34567, 35850), ..from_image });
}

#[test]
fn input_from_image_out_of_range_is_rejected() {
    let bad = Chromaticities { red: xy(150000, 0), ..ColorSpace::Rec709.chromaticities() };
    assert_eq!(resolve_input_chromaticities(None, Some(bad), None).err(), Some(ColorError::InvalidChromaticities));
}

#[test]
fn output_resolution() {
    let input = ColorSpace::Rec2020.chromaticities();
    assert_eq!(resolve_output_chromaticities(&input, None, None), None);
    assert_eq!(resolve_output_chromaticities(&input, Some(ColorSpace::Rec709), None), Some(ColorSpace::Rec709.chromaticities()));
    assert_eq!(
        resolve_output_chromaticities(&input, Some(ColorSpace::Rec709), Some(Illuminant::D50)),
        Some(Chromaticities { white: Illuminant::D50.white(), ..ColorSpace::Rec709.chromaticities() })
    );
    let forked = resolve_output_chromaticities(&input, None, Some(Illuminant::Aces)).unwrap();
    assert_eq!(forked, Chromaticities { white: Illuminant::Aces.white(), ..input });
    // Same primaries, other white point: a conversion is still planned.
    let plan = plan_conversion(&input, Some(forked)).unwrap();
    assert!(plan.matrix.is_some());
    assert!(!plan.gamut_warning);
}

#[test]
fn validity_check() {
    assert!(ColorSpace::AcesAp0.chromaticities().is_valid());
    let bad = Chromaticities { white: xy(0, -100001), ..ColorSpace::Rec709.chromaticities() };
    assert!(!bad.is_valid());
}
