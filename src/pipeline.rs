use vstd::prelude::*;

use crate::chromaticities::{Chromaticities, LuminanceCoefficients, Matrix3};
use crate::color_spaces::{ColorSpace, Illuminant};
use crate::colorimetry::CIExyCoords;

verus! {

/// Why the colour settings of a run cannot be used.
#[derive(Clone, Copy, Debug, PartialEq, Eq, Structural)]
pub enum ColorError {
    /// Chromaticities read from the image lie outside [-1, 1].
    InvalidChromaticities,
    /// The input space has collinear primaries or a white point with `y = 0`.
    DegenerateInput,
    /// The output space has no invertible RGB to XYZ matrix.
    DegenerateOutput,
}

/// The input space of a run, and whether it had to be assumed.
#[derive(Clone, Copy, Debug)]
pub struct InputChromaticities {
    pub chromaticities: Chromaticities,
    /// Neither a selection nor the image gave the space; Rec. 709 was assumed.
    pub assumed: bool,
}

/// What a run does with colour: the optional conversion matrix, the space the output
/// is written in, its luminance weights, and whether to warn about clipped colours.
#[derive(Clone, Copy, Debug)]
pub struct ConversionPlan {
    pub matrix: Option<Matrix3>,
    pub write_chromaticities: Chromaticities,
    pub luminance: LuminanceCoefficients,
    /// The output space does not contain the input space: colours will clip.
    pub gamut_warning: bool,
}

pub open spec fn with_white(c: Chromaticities, w: CIExyCoords) -> Chromaticities {
    Chromaticities { white: w, ..c }
}

impl Chromaticities {
    /// Are all coordinates within [-1, 1]?
    pub fn is_valid(&self) -> (r: bool)
        ensures
            r == self.valid(),
    {
        coord_ok(self.red) && coord_ok(self.green) && coord_ok(self.blue) && coord_ok(self.white)
    }
}

fn coord_ok(p: CIExyCoords) -> (r: bool)
    ensures
        r == p.valid(),
{
    -100000 <= p.x && p.x <= 100000 && -100000 <= p.y && p.y <= 100000
}

/// The input space: the selected preset, else the image's own chromaticities, else
/// Rec. 709 (marked as assumed); then the white point override, if any.
pub fn resolve_input_chromaticities(
    selected: Option<ColorSpace>,
    from_image: Option<Chromaticities>,
    white: Option<Illuminant>,
) -> (r: Result<InputChromaticities, ColorError>)
    ensures
        ({
            let base = match selected {
                Some(s) => s.spec_chromaticities(),
                None => match from_image {
                    Some(c) => c,
                    None => ColorSpace::Rec709.spec_chromaticities(),
                },
            };
            let resolved = match white {
                Some(w) => with_white(base, w.spec_white()),
                None => base,
            };
            match r {
                Ok(i) => base.valid() && i.chromaticities == resolved && i.chromaticities.valid()
                    && i.assumed == (selected is None && from_image is None),
                Err(e) => !base.valid() && e == ColorError::InvalidChromaticities,
            }
        }),
{
    let base = match selected {
        Some(s) => s.chromaticities(),
        None => match from_image {
            Some(c) => c,
            None => ColorSpace::Rec709.chromaticities(),
        },
    };
    if !base.is_valid() {
        return Err(ColorError::InvalidChromaticities);
    }
    let mut chromaticities = base;
    if let Some(w) = white {
        chromaticities.white = w.white();
    }
    Ok(InputChromaticities { chromaticities, assumed: selected.is_none() && from_image.is_none() })
}

/// The output space: the selected preset, with the white point override if any; with
/// only a white point override, the input space with that white point (which still
/// asks for a conversion); with neither, none.
pub fn resolve_output_chromaticities(
    input: &Chromaticities,
    selected: Option<ColorSpace>,
    white: Option<Illuminant>,
) -> (r: Option<Chromaticities>)
    ensures
        r == match (selected, white) {
            (Some(s), None) => Some(s.spec_chromaticities()),
            (Some(s), Some(w)) => Some(with_white(s.spec_chromaticities(), w.spec_white())),
            (None, Some(w)) => Some(with_white(*input, w.spec_white())),
            (None, None) => None::<Chromaticities>,
        },
{
    let mut output = match selected {
        Some(s) => Some(s.chromaticities()),
        None => None,
    };
    if let Some(w) = white {
        match output {
            Some(c) => {
                output = Some(Chromaticities { white: w.white(), ..c });
            },
            None => {
                output = Some(Chromaticities { white: w.white(), ..*input });
            },
        }
    }
    output
}

/// Plans the colour work of a run from its input space and optional output space.
pub fn plan_conversion(input: &Chromaticities, output: Option<Chromaticities>) -> (r: Result<
    ConversionPlan,
    ColorError,
>)
    requires
        input.valid(),
        output matches Some(o) ==> o.valid(),
    ensures
        input.is_degenerate() ==> r == Err::<ConversionPlan, ColorError>(ColorError::DegenerateInput),
        !input.is_degenerate() && (output matches Some(o) && !o.has_xyz_to_rgb()) ==> r == Err::<
            ConversionPlan,
            ColorError,
        >(ColorError::DegenerateOutput),
        r is Ok <==> !input.is_degenerate() && (output matches Some(o) ==> o.has_xyz_to_rgb()),
        r matches Ok(p) ==> {
            &&& p.write_chromaticities == match output {
                Some(o) => o,
                None => *input,
            }
            &&& p.gamut_warning == (output matches Some(o) && !(o.contains(input.red) && o.contains(
                input.green,
            ) && o.contains(input.blue)))
            &&& (p.matrix is Some <==> output is Some)
            &&& (p.matrix matches Some(m) ==> output matches Some(o) && forall|i: int, j: int|
                0 <= i < 3 && 0 <= j < 3 ==> m.num[i][j] == input.conversion_num(o, i, j))
            &&& (p.matrix matches Some(m) ==> output matches Some(o) && forall|i: int|
                0 <= i < 3 ==> m.den[i] == input.conversion_den(o, i))
            &&& p.luminance.red == p.write_chromaticities.rgb_to_xyz_num(1, 0)
            &&& p.luminance.green == p.write_chromaticities.rgb_to_xyz_num(1, 1)
            &&& p.luminance.blue == p.write_chromaticities.rgb_to_xyz_num(1, 2)
            &&& p.luminance.den == p.write_chromaticities.rgb_to_xyz_den()
        },
{
    let input_luminance = match input.luminance_values() {
        Some(l) => l,
        None => return Err(ColorError::DegenerateInput),
    };
    match output {
        None => Ok(
            ConversionPlan {
                matrix: None,
                write_chromaticities: *input,
                luminance: input_luminance,
                gamut_warning: false,
            },
        ),
        Some(o) => {
            let matrix = match input.rgb_space_conversion_matrix(&o) {
                Some(m) => m,
                None => return Err(ColorError::DegenerateOutput),
            };
            let luminance = match o.luminance_values() {
                Some(l) => l,
                None => return Err(ColorError::DegenerateOutput),
            };
            Ok(
                ConversionPlan {
                    matrix: Some(matrix),
                    write_chromaticities: o,
                    luminance,
                    gamut_warning: !o.contains_space(input),
                },
            )
        },
    }
}

} // verus!
