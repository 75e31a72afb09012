use vstd::prelude::*;

verus! {

/// Chromaticity coordinates are fixed-point values in units of 1/100000.
pub const COORD_SCALE: i64 = 100000;

/// Largest magnitude of an XYZ numerator or denominator that converts to xyY (2^60).
pub const XYZ_LIMIT: i128 = 1152921504606846976;

/// Largest magnitude of an xyY numerator or denominator that converts to XYZ (2^62).
pub const XYY_LIMIT: i128 = 4611686018427387904;

/// A CIE 1931 xy chromaticity, each coordinate in units of 1/100000.
///
/// Coordinates may be negative (imaginary primaries of wide-gamut spaces).
#[derive(Clone, Copy, Debug, PartialEq, Eq, Structural)]
pub struct CIExyCoords {
    pub x: i128,
    pub y: i128,
}

/// A chromaticity together with a luma `Y`, all held exactly: the chromaticity is
/// `(coords.x / coords_den, coords.y / coords_den)` and the luma `luma / luma_den`.
#[derive(Clone, Copy, Debug, PartialEq, Eq, Structural)]
pub struct CIExyYCoords {
    pub coords: CIExyCoords,
    pub coords_den: i128,
    pub luma: i128,
    pub luma_den: i128,
}

/// CIE XYZ tristimulus values held exactly as fractions over a shared positive
/// denominator: the value of `X` is `x / den`, and likewise for `Y` and `Z`.
#[derive(Clone, Copy, Debug, PartialEq, Eq, Structural)]
pub struct CIEXYZCoords {
    pub x: i128,
    pub y: i128,
    pub z: i128,
    pub den: i128,
}

pub open spec fn within(v: int, limit: int) -> bool {
    -limit <= v <= limit
}

impl CIExyCoords {
    /// Both coordinates lie in [-1, 1].
    pub open spec fn valid(self) -> bool {
        within(self.x as int, COORD_SCALE as int) && within(self.y as int, COORD_SCALE as int)
    }

    /// The implied third coordinate `z = 1 - x - y`, in the same units.
    pub open spec fn z(self) -> int {
        COORD_SCALE - self.x - self.y
    }

    /// Adds a luma in units of 1/100000, turning the chromaticity into xyY coordinates.
    pub fn with_luma(self, luma: i128) -> (r: CIExyYCoords)
        ensures
            r == (CIExyYCoords {
                coords: self,
                coords_den: COORD_SCALE as i128,
                luma,
                luma_den: COORD_SCALE as i128,
            }),
    {
        CIExyYCoords {
            coords: self,
            coords_den: COORD_SCALE as i128,
            luma,
            luma_den: COORD_SCALE as i128,
        }
    }

    /// True when either coordinate is negative.
    pub fn has_negatives(&self) -> (r: bool)
        ensures
            r == (self.x < 0 || self.y < 0),
    {
        self.x < 0 || self.y < 0
    }
}

impl CIExyYCoords {
    /// Positive denominators, and numerators small enough for exact conversion.
    pub open spec fn valid(self) -> bool {
        &&& within(self.coords.x as int, XYY_LIMIT as int)
        &&& within(self.coords.y as int, XYY_LIMIT as int)
        &&& 0 < self.coords_den <= XYY_LIMIT
        &&& within(self.luma as int, XYY_LIMIT as int)
        &&& 0 < self.luma_den <= XYY_LIMIT
    }

    /// Numerator of the implied third coordinate `z = 1 - x - y`.
    pub open spec fn z_num(self) -> int {
        self.coords_den - self.coords.x - self.coords.y
    }

    /// No luma, or a chromaticity on the line `y = 0`: the colour carries no light.
    pub open spec fn is_black(self) -> bool {
        self.luma <= 0 || self.coords.y == 0
    }

    /// The XYZ coordinates of this colour: `X = x Y / y`, `Z = (1 - x - y) Y / y`,
    /// and exact zero for black. The denominator `y` is made positive.
    pub open spec fn xyz(self) -> CIEXYZCoords {
        if self.is_black() {
            CIEXYZCoords { x: 0, y: 0, z: 0, den: 1 }
        } else if self.coords.y > 0 {
            CIEXYZCoords {
                x: (self.coords.x * self.luma) as i128,
                y: (self.coords.y * self.luma) as i128,
                z: (self.z_num() * self.luma) as i128,
                den: (self.coords.y * self.luma_den) as i128,
            }
        } else {
            CIEXYZCoords {
                x: (-(self.coords.x * self.luma)) as i128,
                y: (-(self.coords.y * self.luma)) as i128,
                z: (-(self.z_num() * self.luma)) as i128,
                den: (-(self.coords.y * self.luma_den)) as i128,
            }
        }
    }

    /// Converts to XYZ; black gives exact zero instead of dividing by a vanishing `y`.
    pub fn to_xyz(self) -> (r: CIEXYZCoords)
        requires
            self.valid(),
        ensures
            r == self.xyz(),
            r.den > 0,
    {
        if self.luma <= 0 || self.coords.y == 0 {
            return CIEXYZCoords { x: 0, y: 0, z: 0, den: 1 };
        }
        let x = self.coords.x;
        let y = self.coords.y;
        let z = self.coords_den - x - y;
        let l = self.luma;
        let d = self.luma_den;
        proof {
            lemma_product_within(x as int, l as int, XYY_LIMIT as int, XYY_LIMIT as int);
            lemma_product_within(y as int, l as int, XYY_LIMIT as int, XYY_LIMIT as int);
            lemma_product_within(z as int, l as int, 3 * XYY_LIMIT, XYY_LIMIT as int);
            lemma_product_within(y as int, d as int, XYY_LIMIT as int, XYY_LIMIT as int);
            assert(y > 0 ==> y * d > 0) by (nonlinear_arith)
                requires
                    d > 0,
            ;
            assert(y < 0 ==> y * d < 0) by (nonlinear_arith)
                requires
                    d > 0,
            ;
        }
        let r = CIEXYZCoords { x: x * l, y: y * l, z: z * l, den: y * d };
        if y > 0 {
            r
        } else {
            CIEXYZCoords { x: -r.x, y: -r.y, z: -r.z, den: -r.den }
        }
    }
}

impl CIEXYZCoords {
    /// A positive denominator, and numerators small enough for exact conversion.
    pub open spec fn valid(self) -> bool {
        &&& 0 < self.den <= XYZ_LIMIT
        &&& within(self.x as int, XYZ_LIMIT as int)
        &&& within(self.y as int, XYZ_LIMIT as int)
        &&& within(self.z as int, XYZ_LIMIT as int)
    }

    /// No component carries light.
    pub open spec fn is_black(self) -> bool {
        self.x <= 0 && self.y <= 0 && self.z <= 0
    }

    pub open spec fn sum(self) -> int {
        self.x + self.y + self.z
    }

    /// The xyY coordinates of these values, exactly: the chromaticity
    /// `(X / (X + Y + Z), Y / (X + Y + Z))` over a positive denominator, and the luma
    /// `Y`. Black gives the illuminant's chromaticity with zero luma.
    pub open spec fn xyy(self, illuminant: CIExyCoords) -> CIExyYCoords {
        if self.is_black() {
            CIExyYCoords {
                coords: illuminant,
                coords_den: COORD_SCALE as i128,
                luma: 0,
                luma_den: COORD_SCALE as i128,
            }
        } else if self.sum() > 0 {
            CIExyYCoords {
                coords: CIExyCoords { x: self.x, y: self.y },
                coords_den: self.sum() as i128,
                luma: self.y,
                luma_den: self.den,
            }
        } else {
            CIExyYCoords {
                coords: CIExyCoords { x: (-self.x) as i128, y: (-self.y) as i128 },
                coords_den: (-self.sum()) as i128,
                luma: self.y,
                luma_den: self.den,
            }
        }
    }

    /// Converts to xyY; black gives the illuminant's chromaticity with zero luma,
    /// where `X / (X + Y + Z)` would divide by zero.
    pub fn to_xyy(self, illuminant: CIExyCoords) -> (r: CIExyYCoords)
        requires
            self.valid(),
            self.is_black() || self.sum() != 0,
        ensures
            r == self.xyy(illuminant),
            !self.is_black() ==> r.valid(),
    {
        if self.x <= 0 && self.y <= 0 && self.z <= 0 {
            return illuminant.with_luma(0);
        }
        let sum = self.x + self.y + self.z;
        if sum > 0 {
            CIExyYCoords {
                coords: CIExyCoords { x: self.x, y: self.y },
                coords_den: sum,
                luma: self.y,
                luma_den: self.den,
            }
        } else {
            CIExyYCoords {
                coords: CIExyCoords { x: -self.x, y: -self.y },
                coords_den: -sum,
                luma: self.y,
                luma_den: self.den,
            }
        }
    }
}

/// Converting a non-black xyY colour to XYZ and back gives back the same chromaticity
/// and luma, as fractions, wherever the XYZ values stay within the limits of `to_xyy`.
pub proof fn lemma_xyy_round_trip(c: CIExyYCoords, illuminant: CIExyCoords)
    requires
        c.valid(),
        !c.is_black(),
        c.xyz().valid(),
    ensures
        !c.xyz().is_black(),
        c.xyz().sum() != 0,
        c.xyz().xyy(illuminant).coords.x * c.coords_den == c.coords.x * c.xyz().xyy(
            illuminant,
        ).coords_den,
        c.xyz().xyy(illuminant).coords.y * c.coords_den == c.coords.y * c.xyz().xyy(
            illuminant,
        ).coords_den,
        c.xyz().xyy(illuminant).luma * c.luma_den == c.luma * c.xyz().xyy(illuminant).luma_den,
{
    let x = c.coords.x as int;
    let y = c.coords.y as int;
    let cd = c.coords_den as int;
    let l = c.luma as int;
    let ld = c.luma_den as int;
    let e = c.xyz();
    lemma_product_within(x, l, XYY_LIMIT as int, XYY_LIMIT as int);
    lemma_product_within(y, l, XYY_LIMIT as int, XYY_LIMIT as int);
    lemma_product_within(cd - x - y, l, 3 * XYY_LIMIT, XYY_LIMIT as int);
    lemma_product_within(y, ld, XYY_LIMIT as int, XYY_LIMIT as int);
    assert(x * l + y * l + (cd - x - y) * l == cd * l) by (nonlinear_arith);
    assert(cd * l > 0) by (nonlinear_arith)
        requires
            cd > 0,
            l > 0,
    ;
    assert((x * l) * cd == x * (cd * l)) by (nonlinear_arith);
    assert((y * l) * cd == y * (cd * l)) by (nonlinear_arith);
    assert((y * l) * ld == l * (y * ld)) by (nonlinear_arith);
    if y > 0 {
        assert(y * l > 0) by (nonlinear_arith)
            requires
                y > 0,
                l > 0,
        ;
        assert(e.sum() == cd * l);
    } else {
        assert(-(y * l) > 0) by (nonlinear_arith)
            requires
                y < 0,
                l > 0,
        ;
        assert(e.sum() == -(cd * l));
        assert(-(y * l) * ld == l * -(y * ld)) by (nonlinear_arith);
    }
}

/// Converting XYZ values with a positive `Y` to xyY and back gives back `X`, `Y` and
/// `Z` exactly, as fractions.
pub proof fn lemma_xyz_round_trip(v: CIEXYZCoords, illuminant: CIExyCoords)
    requires
        v.valid(),
        v.y > 0,
        v.sum() != 0,
    ensures
        v.xyy(illuminant).valid(),
        !v.xyy(illuminant).is_black(),
        v.xyy(illuminant).xyz().den > 0,
        v.xyy(illuminant).xyz().x * v.den == v.x * v.xyy(illuminant).xyz().den,
        v.xyy(illuminant).xyz().y * v.den == v.y * v.xyy(illuminant).xyz().den,
        v.xyy(illuminant).xyz().z * v.den == v.z * v.xyy(illuminant).xyz().den,
{
    let (x, y, z, d) = (v.x as int, v.y as int, v.z as int, v.den as int);
    let c = v.xyy(illuminant);
    lemma_product_within(x, y, XYY_LIMIT as int, XYY_LIMIT as int);
    lemma_product_within(y, y, XYY_LIMIT as int, XYY_LIMIT as int);
    lemma_product_within(z, y, 3 * XYY_LIMIT, XYY_LIMIT as int);
    lemma_product_within(y, d, XYY_LIMIT as int, XYY_LIMIT as int);
    assert(y * d > 0) by (nonlinear_arith)
        requires
            y > 0,
            d > 0,
    ;
    assert((x * y) * d == x * (y * d)) by (nonlinear_arith);
    assert((y * y) * d == y * (y * d)) by (nonlinear_arith);
    assert((z * y) * d == z * (y * d)) by (nonlinear_arith);
    if v.sum() > 0 {
        assert(c.z_num() == z);
    } else {
        assert(c.z_num() == -z);
        assert(-(-x * y) == x * y) by (nonlinear_arith);
        assert(-(-y * y) == y * y) by (nonlinear_arith);
        assert(-(-z * y) == z * y) by (nonlinear_arith);
        assert(-(-y * d) == y * d) by (nonlinear_arith);
    }
}

/// `|a| <= la` and `|b| <= lb` bound `|a * b|` by `la * lb`.
pub(crate) proof fn lemma_product_within(a: int, b: int, la: int, lb: int)
    requires
        within(a, la),
        within(b, lb),
    ensures
        within(a * b, la * lb),
{
    assert(within(a * b, la * lb)) by (nonlinear_arith)
        requires
            within(a, la),
            within(b, lb),
    ;
}

} // verus!
