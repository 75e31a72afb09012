use vstd::prelude::*;

use crate::chromaticities::Chromaticities;
use crate::colorimetry::CIExyCoords;

verus! {

/// The colour spaces that can be selected by name.
#[derive(Clone, Copy, Debug, PartialEq, Eq, Structural)]
pub enum ColorSpace {
    Rec709,
    Rec2020,
    Rec2100,
    AcesAp0,
    AcesAp1,
    DisplayP3,
}

/// Standard white points.
#[derive(Clone, Copy, Debug, PartialEq, Eq, Structural)]
pub enum Illuminant {
    D50,
    D65,
    Aces,
}

pub open spec fn xy(x: i128, y: i128) -> CIExyCoords {
    CIExyCoords { x, y }
}

/// CIE D50: (0.34567, 0.35850).
pub open spec fn d50() -> CIExyCoords {
    xy(34567, 35850)
}

/// CIE D65 as ITU-R BT.709 and BT.2020 give it: (0.3127, 0.3290).
pub open spec fn d65() -> CIExyCoords {
    xy(31270, 32900)
}

/// The ACES white point: (0.32168, 0.33767).
pub open spec fn aces_white() -> CIExyCoords {
    xy(32168, 33767)
}

pub open spec fn space(r: CIExyCoords, g: CIExyCoords, b: CIExyCoords, w: CIExyCoords) -> Chromaticities {
    Chromaticities { red: r, green: g, blue: b, white: w }
}

impl Illuminant {
    pub open spec fn spec_white(self) -> CIExyCoords {
        match self {
            Illuminant::D50 => d50(),
            Illuminant::D65 => d65(),
            Illuminant::Aces => aces_white(),
        }
    }

    /// The chromaticity of this white point.
    pub fn white(&self) -> (r: CIExyCoords)
        ensures
            r == self.spec_white(),
            r.valid(),
    {
        match self {
            Illuminant::D50 => CIExyCoords { x: 34567, y: 35850 },
            Illuminant::D65 => CIExyCoords { x: 31270, y: 32900 },
            Illuminant::Aces => CIExyCoords { x: 32168, y: 33767 },
        }
    }
}

impl ColorSpace {
    /// The primaries and white point of each space (Rec. 2100 shares those of Rec. 2020).
    pub open spec fn spec_chromaticities(self) -> Chromaticities {
        match self {
            ColorSpace::Rec709 => space(xy(64000, 33000), xy(30000, 60000), xy(15000, 6000), d65()),
            ColorSpace::Rec2020 | ColorSpace::Rec2100 => space(
                xy(70800, 29200),
                xy(17000, 79700),
                xy(13100, 4600),
                d65(),
            ),
            ColorSpace::AcesAp0 => space(xy(73470, 26530), xy(0, 100000), xy(10, -7700i128), aces_white()),
            ColorSpace::AcesAp1 => space(xy(71300, 29300), xy(16500, 83000), xy(12800, 4400), aces_white()),
            ColorSpace::DisplayP3 => space(xy(68000, 32000), xy(26500, 69000), xy(15000, 6000), d65()),
        }
    }

    /// The chromaticities of this space. Every preset has an invertible RGB to XYZ
    /// matrix.
    pub fn chromaticities(&self) -> (r: Chromaticities)
        ensures
            r == self.spec_chromaticities(),
            r.valid(),
            r.has_xyz_to_rgb(),
    {
        let d65 = Illuminant::D65.white();
        let aces = Illuminant::Aces.white();
        match self {
            ColorSpace::Rec709 => Chromaticities {
                red: CIExyCoords { x: 64000, y: 33000 },
                green: CIExyCoords { x: 30000, y: 60000 },
                blue: CIExyCoords { x: 15000, y: 6000 },
                white: d65,
            },
            ColorSpace::Rec2020 | ColorSpace::Rec2100 => Chromaticities {
                red: CIExyCoords { x: 70800, y: 29200 },
                green: CIExyCoords { x: 17000, y: 79700 },
                blue: CIExyCoords { x: 13100, y: 4600 },
                white: d65,
            },
            ColorSpace::AcesAp0 => Chromaticities {
                red: CIExyCoords { x: 73470, y: 26530 },
                green: CIExyCoords { x: 0, y: 100000 },
                blue: CIExyCoords { x: 10, y: -7700 },
                white: aces,
            },
            ColorSpace::AcesAp1 => Chromaticities {
                red: CIExyCoords { x: 71300, y: 29300 },
                green: CIExyCoords { x: 16500, y: 83000 },
                blue: CIExyCoords { x: 12800, y: 4400 },
                white: aces,
            },
            ColorSpace::DisplayP3 => Chromaticities {
                red: CIExyCoords { x: 68000, y: 32000 },
                green: CIExyCoords { x: 26500, y: 69000 },
                blue: CIExyCoords { x: 15000, y: 6000 },
                white: d65,
            },
        }
    }
}

} // verus!
