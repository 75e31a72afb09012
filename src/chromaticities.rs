use vstd::prelude::*;

use crate::colorimetry::{lemma_product_within, within, CIExyCoords, COORD_SCALE};

verus! {

/// A colour space: three primaries and a white point.
#[derive(Clone, Copy, Debug, PartialEq, Eq, Structural)]
pub struct Chromaticities {
    pub red: CIExyCoords,
    pub green: CIExyCoords,
    pub blue: CIExyCoords,
    pub white: CIExyCoords,
}

/// A 3×3 matrix of exact fractions: entry `(i, j)` is `num[i][j] / den[i]`.
#[derive(Clone, Copy, Debug)]
pub struct Matrix3 {
    pub num: [[i128; 3]; 3],
    pub den: [i128; 3],
}

/// Per-channel weights of a pixel's luminance, as fractions over a shared
/// denominator: the middle row of the RGB to XYZ matrix.
#[derive(Clone, Copy, Debug)]
pub struct LuminanceCoefficients {
    pub red: i128,
    pub green: i128,
    pub blue: i128,
    pub den: i128,
}

/// Twice the signed area of the triangle `(p, q, r)`: positive when counter-clockwise,
/// zero when the points are collinear.
pub open spec fn area2(p: CIExyCoords, q: CIExyCoords, r: CIExyCoords) -> int {
    (q.x - p.x) * (r.y - p.y) - (r.x - p.x) * (q.y - p.y)
}

/// Component `i` of `(x, y, 1 - x - y)` for a chromaticity.
pub open spec fn component(p: CIExyCoords, i: int) -> int {
    if i == 0 {
        p.x as int
    } else if i == 1 {
        p.y as int
    } else {
        p.z()
    }
}

/// Component `j` of the cross product of `p` and `q`, taken as `(x, y, z)` vectors.
pub open spec fn cross_component(p: CIExyCoords, q: CIExyCoords, j: int) -> int {
    component(p, (j + 1) % 3) * component(q, (j + 2) % 3) - component(p, (j + 2) % 3) * component(
        q,
        (j + 1) % 3,
    )
}

/// The determinant of the matrix with columns `p`, `q`, `r`, taken as `(x, y, z)` vectors.
pub open spec fn triple(p: CIExyCoords, q: CIExyCoords, r: CIExyCoords) -> int {
    cross_component(p, q, 0) * component(r, 0) + cross_component(p, q, 1) * component(r, 1)
        + cross_component(p, q, 2) * component(r, 2)
}

impl Chromaticities {
    pub open spec fn valid(self) -> bool {
        self.red.valid() && self.green.valid() && self.blue.valid() && self.white.valid()
    }

    /// Primary `j`: red, green, blue for 0, 1, 2.
    pub open spec fn primary(self, j: int) -> CIExyCoords {
        if j == 0 {
            self.red
        } else if j == 1 {
            self.green
        } else {
            self.blue
        }
    }

    /// The matrix whose columns are the primaries' `(x, y, z)`.
    pub open spec fn q(self, i: int, j: int) -> int {
        component(self.primary(j), i)
    }

    /// Twice the signed area of the primaries' triangle.
    pub open spec fn area(self) -> int {
        area2(self.red, self.green, self.blue)
    }

    /// The white point's barycentric weight on primary `j`, times `area()`.
    pub open spec fn weight(self, j: int) -> int {
        if j == 0 {
            area2(self.white, self.green, self.blue)
        } else if j == 1 {
            area2(self.red, self.white, self.blue)
        } else {
            area2(self.red, self.green, self.white)
        }
    }

    /// Collinear (or repeated) primaries, or a white point with `y = 0`: no
    /// RGB to XYZ matrix exists.
    pub open spec fn is_degenerate(self) -> bool {
        self.area() == 0 || self.white.y == 0
    }

    /// Numerator of entry `(i, j)` of the RGB to XYZ matrix: the primary's XYZ column
    /// scaled so that RGB `(1, 1, 1)` maps to the white point at unit luma.
    pub open spec fn rgb_to_xyz_num(self, i: int, j: int) -> int {
        self.q(i, j) * self.weight(j)
    }

    /// `p` lies inside the primaries' triangle or on its boundary: the three cross
    /// products of `p` against the edges do not take both signs.
    pub open spec fn contains(self, p: CIExyCoords) -> bool {
        let d1 = area2(p, self.red, self.green);
        let d2 = area2(p, self.green, self.blue);
        let d3 = area2(p, self.blue, self.red);
        let has_neg = d1 < 0 || d2 < 0 || d3 < 0;
        let has_pos = d1 > 0 || d2 > 0 || d3 > 0;
        !(has_neg && has_pos)
    }

    /// Common denominator of the RGB to XYZ matrix.
    pub open spec fn rgb_to_xyz_den(self) -> int {
        self.area() * self.white.y
    }

    /// Entry `(i, j)` of the adjugate of the primaries matrix: row `i` is the cross
    /// product of the two other primaries.
    pub open spec fn adjugate(self, i: int, j: int) -> int {
        cross_component(self.primary((i + 1) % 3), self.primary((i + 2) % 3), j)
    }

    /// The RGB to XYZ matrix exists and is invertible: no weight of the white point
    /// vanishes, that is, the white point lies on no line through two primaries.
    pub open spec fn has_xyz_to_rgb(self) -> bool {
        !self.is_degenerate() && self.weight(0) != 0 && self.weight(1) != 0 && self.weight(2)
            != 0
    }

    /// Numerator of entry `(i, j)` of the XYZ to RGB matrix.
    pub open spec fn xyz_to_rgb_num(self, i: int, j: int) -> int {
        self.white.y * self.adjugate(i, j)
    }

    /// Denominator of row `i` of the XYZ to RGB matrix.
    pub open spec fn xyz_to_rgb_den(self, i: int) -> int {
        COORD_SCALE * self.weight(i)
    }

    /// Numerator of entry `(i, j)` of the matrix taking RGB in this space to RGB in
    /// `destination`: `destination`'s XYZ to RGB matrix times this RGB to XYZ matrix.
    pub open spec fn conversion_num(self, destination: Chromaticities, i: int, j: int) -> int {
        destination.xyz_to_rgb_num(i, 0) * self.rgb_to_xyz_num(0, j)
            + destination.xyz_to_rgb_num(i, 1) * self.rgb_to_xyz_num(1, j)
            + destination.xyz_to_rgb_num(i, 2) * self.rgb_to_xyz_num(2, j)
    }

    /// Denominator of row `i` of the conversion matrix to `destination`.
    pub open spec fn conversion_den(self, destination: Chromaticities, i: int) -> int {
        destination.xyz_to_rgb_den(i) * self.rgb_to_xyz_den()
    }
}

/// Bound on the magnitude of an entry of the primaries matrix: three units.
pub open spec fn q_bound() -> int {
    300000
}

/// Bound on twice a triangle's area: `2 * 2 * 2` square units.
pub open spec fn area_bound() -> int {
    80000000000
}

fn area2_exec(p: CIExyCoords, q: CIExyCoords, r: CIExyCoords) -> (a: i128)
    requires
        p.valid(),
        q.valid(),
        r.valid(),
    ensures
        a == area2(p, q, r),
        within(a as int, area_bound()),
{
    let dqx = q.x as i128 - p.x as i128;
    let dqy = q.y as i128 - p.y as i128;
    let drx = r.x as i128 - p.x as i128;
    let dry = r.y as i128 - p.y as i128;
    proof {
        let b = 2 * COORD_SCALE;
        lemma_product_within(dqx as int, dry as int, b, b);
        lemma_product_within(drx as int, dqy as int, b, b);
    }
    dqx * dry - drx * dqy
}

/// `(x, y, 1 - x - y)` of a chromaticity.
fn components(p: CIExyCoords) -> (c: [i128; 3])
    requires
        p.valid(),
    ensures
        c[0] == component(p, 0),
        c[1] == component(p, 1),
        c[2] == component(p, 2),
        within(c[0] as int, q_bound()),
        within(c[1] as int, q_bound()),
        within(c[2] as int, q_bound()),
{
    let x = p.x as i128;
    let y = p.y as i128;
    [x, y, COORD_SCALE as i128 - x - y]
}

/// Each component of `c` times `t`.
fn scale_column(c: [i128; 3], t: i128) -> (r: [i128; 3])
    requires
        within(c[0] as int, q_bound()),
        within(c[1] as int, q_bound()),
        within(c[2] as int, q_bound()),
        within(t as int, area_bound()),
    ensures
        r[0] == c[0] * t,
        r[1] == c[1] * t,
        r[2] == c[2] * t,
{
    proof {
        lemma_product_within(c[0] as int, t as int, q_bound(), area_bound());
        lemma_product_within(c[1] as int, t as int, q_bound(), area_bound());
        lemma_product_within(c[2] as int, t as int, q_bound(), area_bound());
    }
    [c[0] * t, c[1] * t, c[2] * t]
}

pub open spec fn cross_bound() -> int {
    180000000000
}

/// The cross product of `p` and `q` as `(x, y, z)` vectors.
fn cross(p: CIExyCoords, q: CIExyCoords) -> (r: [i128; 3])
    requires
        p.valid(),
        q.valid(),
    ensures
        r[0] == cross_component(p, q, 0),
        r[1] == cross_component(p, q, 1),
        r[2] == cross_component(p, q, 2),
        within(r[0] as int, cross_bound()),
        within(r[1] as int, cross_bound()),
        within(r[2] as int, cross_bound()),
{
    let u = components(p);
    let v = components(q);
    proof {
        let b = q_bound();
        lemma_product_within(u[1] as int, v[2] as int, b, b);
        lemma_product_within(u[2] as int, v[1] as int, b, b);
        lemma_product_within(u[2] as int, v[0] as int, b, b);
        lemma_product_within(u[0] as int, v[2] as int, b, b);
        lemma_product_within(u[0] as int, v[1] as int, b, b);
        lemma_product_within(u[1] as int, v[0] as int, b, b);
    }
    [u[1] * v[2] - u[2] * v[1], u[2] * v[0] - u[0] * v[2], u[0] * v[1] - u[1] * v[0]]
}

/// Each component of a row of the adjugate times `f`.
fn scale_row(c: [i128; 3], f: i128) -> (r: [i128; 3])
    requires
        within(c[0] as int, cross_bound()),
        within(c[1] as int, cross_bound()),
        within(c[2] as int, cross_bound()),
        within(f as int, COORD_SCALE as int),
    ensures
        r[0] == f * c[0],
        r[1] == f * c[1],
        r[2] == f * c[2],
{
    proof {
        lemma_product_within(f as int, c[0] as int, COORD_SCALE as int, cross_bound());
        lemma_product_within(f as int, c[1] as int, COORD_SCALE as int, cross_bound());
        lemma_product_within(f as int, c[2] as int, COORD_SCALE as int, cross_bound());
    }
    [f * c[0], f * c[1], f * c[2]]
}

pub open spec fn inverse_bound() -> int {
    18000000000000000
}

pub open spec fn forward_bound() -> int {
    24000000000000000
}

pub open spec fn den_bound() -> int {
    8000000000000000
}

impl Matrix3 {
    /// Numerator of entry `(i, j)` of the product with `other`, when `other`'s rows share
    /// one denominator.
    pub open spec fn product_num(self, other: Matrix3, i: int, j: int) -> int {
        self.num[i][0] * other.num[0][j] + self.num[i][1] * other.num[1][j] + self.num[i][2]
            * other.num[2][j]
    }

    pub open spec fn nums_within(self, bound: int) -> bool {
        forall|i: int, j: int| 0 <= i < 3 && 0 <= j < 3 ==> within(self.num[i][j] as int, bound)
    }

    pub open spec fn dens_within(self, bound: int) -> bool {
        forall|i: int| 0 <= i < 3 ==> within(self.den[i] as int, bound)
    }
}

fn product_entry(a: &Matrix3, b: &Matrix3, i: usize, j: usize) -> (r: i128)
    requires
        i < 3,
        j < 3,
        a.nums_within(inverse_bound()),
        b.nums_within(forward_bound()),
    ensures
        r == a.product_num(*b, i as int, j as int),
{
    proof {
        lemma_product_within(a.num[i as int][0] as int, b.num[0][j as int] as int, inverse_bound(), forward_bound());
        lemma_product_within(a.num[i as int][1] as int, b.num[1][j as int] as int, inverse_bound(), forward_bound());
        lemma_product_within(a.num[i as int][2] as int, b.num[2][j as int] as int, inverse_bound(), forward_bound());
    }
    a.num[i][0] * b.num[0][j] + a.num[i][1] * b.num[1][j] + a.num[i][2] * b.num[2][j]
}

/// The product `a × b`, where the rows of `b` share one denominator.
fn product(a: &Matrix3, b: &Matrix3) -> (r: Matrix3)
    requires
        a.nums_within(inverse_bound()),
        b.nums_within(forward_bound()),
        a.dens_within(den_bound()),
        b.dens_within(den_bound()),
    ensures
        forall|i: int, j: int| 0 <= i < 3 && 0 <= j < 3 ==> r.num[i][j] == a.product_num(*b, i, j),
        forall|i: int| 0 <= i < 3 ==> r.den[i] == a.den[i] * b.den[0],
{
    proof {
        lemma_product_within(a.den[0] as int, b.den[0] as int, den_bound(), den_bound());
        lemma_product_within(a.den[1] as int, b.den[0] as int, den_bound(), den_bound());
        lemma_product_within(a.den[2] as int, b.den[0] as int, den_bound(), den_bound());
    }
    Matrix3 {
        num: [
            [product_entry(a, b, 0, 0), product_entry(a, b, 0, 1), product_entry(a, b, 0, 2)],
            [product_entry(a, b, 1, 0), product_entry(a, b, 1, 1), product_entry(a, b, 1, 2)],
            [product_entry(a, b, 2, 0), product_entry(a, b, 2, 1), product_entry(a, b, 2, 2)],
        ],
        den: [a.den[0] * b.den[0], a.den[1] * b.den[0], a.den[2] * b.den[0]],
    }
}

impl Chromaticities {
    /// The RGB to XYZ matrix of this space: each column is a primary's XYZ, scaled so
    /// that RGB `(1, 1, 1)` maps to the white point at unit luma.
    ///
    /// `None` when the primaries are collinear or the white point has `y = 0`.
    pub fn rgb_to_xyz_matrix(&self) -> (r: Option<Matrix3>)
        requires
            self.valid(),
        ensures
            r is None <==> self.is_degenerate(),
            r matches Some(m) ==> forall|i: int, j: int|
                0 <= i < 3 && 0 <= j < 3 ==> m.num[i][j] == self.rgb_to_xyz_num(i, j),
            r matches Some(m) ==> forall|i: int| 0 <= i < 3 ==> m.den[i] == self.rgb_to_xyz_den(),
            // RGB (1, 1, 1) goes to the white point's XYZ at unit luma, (x / y, 1, z / y).
            r matches Some(m) ==> forall|i: int|
                0 <= i < 3 ==> (m.num[i][0] + m.num[i][1] + m.num[i][2]) * self.white.y
                    == m.den[i] * component(self.white, i),
    {
        proof {
            lemma_barycentric(*self);
            assert forall|i: int| 0 <= i < 3 implies (self.rgb_to_xyz_num(i, 0) + self.rgb_to_xyz_num(
                i,
                1,
            ) + self.rgb_to_xyz_num(i, 2)) * self.white.y == self.rgb_to_xyz_den() * component(
                self.white,
                i,
            ) by {
                let yw = self.white.y as int;
                let wi = component(self.white, i);
                let area = self.area();
                assert((area * wi) * yw == (area * yw) * wi) by (nonlinear_arith);
            }
        }
        let area = area2_exec(self.red, self.green, self.blue);
        if area == 0 || self.white.y == 0 {
            return None;
        }
        let t0 = area2_exec(self.white, self.green, self.blue);
        let t1 = area2_exec(self.red, self.white, self.blue);
        let t2 = area2_exec(self.red, self.green, self.white);
        let cr = scale_column(components(self.red), t0);
        let cg = scale_column(components(self.green), t1);
        let cb = scale_column(components(self.blue), t2);
        proof {
            lemma_product_within(area as int, self.white.y as int, area_bound(), COORD_SCALE as int);
        }
        let den = area * self.white.y as i128;
        Some(Matrix3 {
            num: [[cr[0], cg[0], cb[0]], [cr[1], cg[1], cb[1]], [cr[2], cg[2], cb[2]]],
            den: [den, den, den],
        })
    }

    /// Does this space contain the colour `p`? Points on an edge count as contained.
    pub fn contains_color(&self, p: CIExyCoords) -> (r: bool)
        requires
            self.valid(),
            p.valid(),
        ensures
            r == self.contains(p),
    {
        let d1 = area2_exec(p, self.red, self.green);
        let d2 = area2_exec(p, self.green, self.blue);
        let d3 = area2_exec(p, self.blue, self.red);
        let has_neg = d1 < 0 || d2 < 0 || d3 < 0;
        let has_pos = d1 > 0 || d2 > 0 || d3 > 0;
        !(has_neg && has_pos)
    }

    /// Does this space cover all three primaries of `other`? The white point is not
    /// considered.
    pub fn contains_space(&self, other: &Chromaticities) -> (r: bool)
        requires
            self.valid(),
            other.valid(),
        ensures
            r == (self.contains(other.red) && self.contains(other.green) && self.contains(
                other.blue,
            )),
    {
        self.contains_color(other.red) && self.contains_color(other.green) && self.contains_color(
            other.blue,
        )
    }

    /// True when any coordinate of a primary or of the white point is negative.
    pub fn has_negatives(&self) -> (r: bool)
        ensures
            r == (self.red.x < 0 || self.red.y < 0 || self.green.x < 0 || self.green.y < 0
                || self.blue.x < 0 || self.blue.y < 0 || self.white.x < 0 || self.white.y < 0),
    {
        self.red.has_negatives() || self.green.has_negatives() || self.blue.has_negatives()
            || self.white.has_negatives()
    }

    /// The luminance weights of this space: the middle row of `rgb_to_xyz_matrix`.
    ///
    /// `None` under the same condition as that matrix.
    pub fn luminance_values(&self) -> (r: Option<LuminanceCoefficients>)
        requires
            self.valid(),
        ensures
            r is None <==> self.is_degenerate(),
            r matches Some(l) ==> {
                &&& l.red == self.rgb_to_xyz_num(1, 0)
                &&& l.green == self.rgb_to_xyz_num(1, 1)
                &&& l.blue == self.rgb_to_xyz_num(1, 2)
                &&& l.den == self.rgb_to_xyz_den()
            },
    {
        match self.rgb_to_xyz_matrix() {
            Some(m) => Some(
                LuminanceCoefficients {
                    red: m.num[1][0],
                    green: m.num[1][1],
                    blue: m.num[1][2],
                    den: m.den[1],
                },
            ),
            None => None,
        }
    }

    /// The XYZ to RGB matrix of this space, the inverse of `rgb_to_xyz_matrix`.
    ///
    /// `None` when that matrix does not exist or is singular.
    pub fn xyz_to_rgb_matrix(&self) -> (r: Option<Matrix3>)
        requires
            self.valid(),
        ensures
            r is None <==> !self.has_xyz_to_rgb(),
            r matches Some(m) ==> forall|i: int, j: int|
                0 <= i < 3 && 0 <= j < 3 ==> m.num[i][j] == self.xyz_to_rgb_num(i, j),
            r matches Some(m) ==> forall|i: int| 0 <= i < 3 ==> m.den[i] == self.xyz_to_rgb_den(i),
    {
        let area = area2_exec(self.red, self.green, self.blue);
        if area == 0 || self.white.y == 0 {
            return None;
        }
        let t0 = area2_exec(self.white, self.green, self.blue);
        let t1 = area2_exec(self.red, self.white, self.blue);
        let t2 = area2_exec(self.red, self.green, self.white);
        if t0 == 0 || t1 == 0 || t2 == 0 {
            return None;
        }
        let yw = self.white.y as i128;
        let row0 = scale_row(cross(self.green, self.blue), yw);
        let row1 = scale_row(cross(self.blue, self.red), yw);
        let row2 = scale_row(cross(self.red, self.green), yw);
        let scale = COORD_SCALE as i128;
        Some(Matrix3 { num: [row0, row1, row2], den: [scale * t0, scale * t1, scale * t2] })
    }

    /// The matrix taking RGB in this space to RGB in `destination`:
    /// `destination.xyz_to_rgb_matrix() × self.rgb_to_xyz_matrix()`.
    ///
    /// `None` when either factor does not exist.
    pub fn rgb_space_conversion_matrix(&self, destination: &Chromaticities) -> (r: Option<
        Matrix3,
    >)
        requires
            self.valid(),
            destination.valid(),
        ensures
            r is None <==> (self.is_degenerate() || !destination.has_xyz_to_rgb()),
            r matches Some(m) ==> forall|i: int, j: int|
                0 <= i < 3 && 0 <= j < 3 ==> m.num[i][j] == self.conversion_num(*destination, i, j),
            r matches Some(m) ==> forall|i: int| 0 <= i < 3 ==> m.den[i] == self.conversion_den(*destination, i),
    {
        let inverse = match destination.xyz_to_rgb_matrix() {
            Some(m) => m,
            None => return None,
        };
        let forward = match self.rgb_to_xyz_matrix() {
            Some(m) => m,
            None => return None,
        };
        proof {
            lemma_matrix_bounds(*self, *destination);
            assert forall|i: int, j: int| 0 <= i < 3 && 0 <= j < 3 implies within(
                inverse.num[i][j] as int,
                inverse_bound(),
            ) && within(forward.num[i][j] as int, forward_bound()) by {
                assert(inverse.num[i][j] == destination.xyz_to_rgb_num(i, j));
                assert(forward.num[i][j] == self.rgb_to_xyz_num(i, j));
            }
            assert(forward.den[0] == self.rgb_to_xyz_den());
            assert(forward.den[1] == self.rgb_to_xyz_den());
            assert(forward.den[2] == self.rgb_to_xyz_den());
            assert(inverse.den[0] == destination.xyz_to_rgb_den(0));
            assert(inverse.den[1] == destination.xyz_to_rgb_den(1));
            assert(inverse.den[2] == destination.xyz_to_rgb_den(2));
        }
        let m = product(&inverse, &forward);
        proof {
            assert forall|i: int, j: int| 0 <= i < 3 && 0 <= j < 3 implies m.num[i][j]
                == self.conversion_num(*destination, i, j) by {
                assert(m.num[i][j] == inverse.product_num(forward, i, j));
                assert(inverse.num[i][0] == destination.xyz_to_rgb_num(i, 0));
                assert(inverse.num[i][1] == destination.xyz_to_rgb_num(i, 1));
                assert(inverse.num[i][2] == destination.xyz_to_rgb_num(i, 2));
                assert(forward.num[0][j] == self.rgb_to_xyz_num(0, j));
                assert(forward.num[1][j] == self.rgb_to_xyz_num(1, j));
                assert(forward.num[2][j] == self.rgb_to_xyz_num(2, j));
            }
        }
        Some(m)
    }
}

/// Bounds on the entries of the matrices of valid spaces.
proof fn lemma_matrix_bounds(c: Chromaticities, d: Chromaticities)
    requires
        c.valid(),
        d.valid(),
    ensures
        forall|i: int, j: int| 0 <= i < 3 && 0 <= j < 3 ==> {
            &&& within(c.rgb_to_xyz_num(i, j), forward_bound())
            &&& within(d.xyz_to_rgb_num(i, j), inverse_bound())
        },
        within(c.rgb_to_xyz_den(), den_bound()),
        forall|i: int| 0 <= i < 3 ==> within(d.xyz_to_rgb_den(i), den_bound()),
{
    assert forall|i: int, j: int| 0 <= i < 3 && 0 <= j < 3 implies {
        &&& within(c.rgb_to_xyz_num(i, j), forward_bound())
        &&& within(d.xyz_to_rgb_num(i, j), inverse_bound())
    } by {
        lemma_component_bound(c.primary(j), i);
        lemma_weight_bound(c, j);
        lemma_product_within(c.q(i, j), c.weight(j), q_bound(), area_bound());
        lemma_cross_bound(d.primary((i + 1) % 3), d.primary((i + 2) % 3), j);
        lemma_product_within(d.white.y as int, d.adjugate(i, j), COORD_SCALE as int, cross_bound());
    }
    lemma_area_bound(c.red, c.green, c.blue);
    lemma_product_within(c.area(), c.white.y as int, area_bound(), COORD_SCALE as int);
    assert forall|i: int| 0 <= i < 3 implies within(d.xyz_to_rgb_den(i), den_bound()) by {
        lemma_weight_bound(d, i);
        lemma_product_within(COORD_SCALE as int, d.weight(i), COORD_SCALE as int, area_bound());
    }
}

proof fn lemma_component_bound(p: CIExyCoords, i: int)
    requires
        p.valid(),
    ensures
        within(component(p, i), q_bound()),
{
}

proof fn lemma_area_bound(p: CIExyCoords, q: CIExyCoords, r: CIExyCoords)
    requires
        p.valid(),
        q.valid(),
        r.valid(),
    ensures
        within(area2(p, q, r), area_bound()),
{
    let b = 200000;
    lemma_product_within(q.x - p.x, r.y - p.y, b, b);
    lemma_product_within(r.x - p.x, q.y - p.y, b, b);
}

proof fn lemma_weight_bound(c: Chromaticities, j: int)
    requires
        c.valid(),
    ensures
        within(c.weight(j), area_bound()),
{
    lemma_area_bound(c.white, c.green, c.blue);
    lemma_area_bound(c.red, c.white, c.blue);
    lemma_area_bound(c.red, c.green, c.white);
}

proof fn lemma_cross_bound(p: CIExyCoords, q: CIExyCoords, j: int)
    requires
        p.valid(),
        q.valid(),
    ensures
        within(cross_component(p, q, j), cross_bound()),
{
    let b = q_bound();
    lemma_component_bound(p, (j + 1) % 3);
    lemma_component_bound(p, (j + 2) % 3);
    lemma_component_bound(q, (j + 1) % 3);
    lemma_component_bound(q, (j + 2) % 3);
    lemma_product_within(component(p, (j + 1) % 3), component(q, (j + 2) % 3), b, b);
    lemma_product_within(component(p, (j + 2) % 3), component(q, (j + 1) % 3), b, b);
}

/// Since `x + y + z` is the same for every chromaticity, the determinant of three of
/// them is proportional to the area of their triangle.
proof fn lemma_triple_is_area(p: CIExyCoords, q: CIExyCoords, r: CIExyCoords)
    ensures
        triple(p, q, r) == COORD_SCALE * area2(p, q, r),
{
    let (a, b) = (p.x as int, p.y as int);
    let (d, e) = (q.x as int, q.y as int);
    let (f, g) = (r.x as int, r.y as int);
    let s = COORD_SCALE as int;
    let k = a * e - b * d;
    let c0 = b * (s - d - e) - (s - a - b) * e;
    let c1 = (s - a - b) * d - a * (s - d - e);
    assert(triple(p, q, r) == c0 * f + c1 * g + k * (s - f - g));
    assert(c0 == s * (b - e) + k) by (nonlinear_arith)
        requires
            c0 == b * (s - d - e) - (s - a - b) * e,
            k == a * e - b * d,
    ;
    assert(c1 == s * (d - a) + k) by (nonlinear_arith)
        requires
            c1 == (s - a - b) * d - a * (s - d - e),
            k == a * e - b * d,
    ;
    let m0 = s * (b - e);
    let m1 = s * (d - a);
    assert((m0 + k) * f + (m1 + k) * g + k * (s - f - g) == m0 * f + m1 * g + k * s)
        by (nonlinear_arith);
    assert(m0 * f + m1 * g + k * s == s * ((b - e) * f + (d - a) * g + k)) by (nonlinear_arith)
        requires
            m0 == s * (b - e),
            m1 == s * (d - a),
    ;
    assert((b - e) * f + (d - a) * g + k == (d - a) * (g - b) - (f - a) * (e - b))
        by (nonlinear_arith)
        requires
            k == a * e - b * d,
    ;
}

proof fn lemma_cross_cycle(
    rx: int,
    ry: int,
    gx: int,
    gy: int,
    bx: int,
    by: int,
    t0: int,
    t1: int,
    t2: int,
) by (nonlinear_arith)
    requires
        t0 == gx * by - bx * gy,
        t1 == bx * ry - rx * by,
        t2 == rx * gy - gx * ry,
    ensures
        rx * t0 + gx * t1 + bx * t2 == 0,
{
}

proof fn lemma_weighted_coordinate(
    a: int,
    d: int,
    f: int,
    u: int,
    t0: int,
    t1: int,
    t2: int,
    area: int,
) by (nonlinear_arith)
    requires
        (a - u) * t0 + (d - u) * t1 + (f - u) * t2 == 0,
        t0 + t1 + t2 == area,
    ensures
        a * t0 + d * t1 + f * t2 == area * u,
{
}

proof fn lemma_opposite_sum(
    p0: int,
    p1: int,
    p2: int,
    q0: int,
    q1: int,
    q2: int,
    t0: int,
    t1: int,
    t2: int,
) by (nonlinear_arith)
    requires
        p0 * t0 + p1 * t1 + p2 * t2 == 0,
        q0 * t0 + q1 * t1 + q2 * t2 == 0,
    ensures
        (-p0 - q0) * t0 + (-p1 - q1) * t1 + (-p2 - q2) * t2 == 0,
{
}

/// The weights relative to the white point are cross products of the primaries
/// taken relative to it.
proof fn lemma_weights_relative(c: Chromaticities)
    ensures
        c.weight(0) == (c.green.x - c.white.x) * (c.blue.y - c.white.y) - (c.blue.x
            - c.white.x) * (c.green.y - c.white.y),
        c.weight(1) == (c.blue.x - c.white.x) * (c.red.y - c.white.y) - (c.red.x - c.white.x)
            * (c.blue.y - c.white.y),
        c.weight(2) == (c.red.x - c.white.x) * (c.green.y - c.white.y) - (c.green.x
            - c.white.x) * (c.red.y - c.white.y),
        c.weight(0) + c.weight(1) + c.weight(2) == c.area(),
{
    let (a, b) = (c.red.x as int, c.red.y as int);
    let (d, e) = (c.green.x as int, c.green.y as int);
    let (f, g) = (c.blue.x as int, c.blue.y as int);
    let (u, v) = (c.white.x as int, c.white.y as int);
    assert((u - a) * (g - b) - (f - a) * (v - b) == (f - u) * (b - v) - (a - u) * (g - v))
        by (nonlinear_arith);
    assert((d - a) * (v - b) - (u - a) * (e - b) == (a - u) * (e - v) - (d - u) * (b - v))
        by (nonlinear_arith);
    let t0 = c.weight(0);
    let t1 = c.weight(1);
    let t2 = c.weight(2);
    let area = c.area();
    assert(t0 + t1 + t2 == area) by (nonlinear_arith)
        requires
            t0 == (d - u) * (g - v) - (f - u) * (e - v),
            t1 == (u - a) * (g - b) - (f - a) * (v - b),
            t2 == (d - a) * (v - b) - (u - a) * (e - b),
            area == (d - a) * (g - b) - (f - a) * (e - b),
    ;
}

/// The white point is the weighted mean of the primaries: the weights sum to `area()`,
/// and `sum_j weight(j) * primary(j) == area() * white`.
proof fn lemma_barycentric(c: Chromaticities)
    ensures
        c.weight(0) + c.weight(1) + c.weight(2) == c.area(),
        forall|k: int| 0 <= k < 3 ==>
            c.q(k, 0) * c.weight(0) + c.q(k, 1) * c.weight(1) + c.q(k, 2) * c.weight(2)
                == c.area() * component(c.white, k),
{
    let (a, b) = (c.red.x as int, c.red.y as int);
    let (d, e) = (c.green.x as int, c.green.y as int);
    let (f, g) = (c.blue.x as int, c.blue.y as int);
    let (u, v) = (c.white.x as int, c.white.y as int);
    let t0 = c.weight(0);
    let t1 = c.weight(1);
    let t2 = c.weight(2);
    let area = c.area();
    lemma_weights_relative(c);
    lemma_cross_cycle(a - u, b - v, d - u, e - v, f - u, g - v, t0, t1, t2);
    lemma_cross_cycle(b - v, a - u, e - v, d - u, g - v, f - u, -t0, -t1, -t2);
    assert((b - v) * -t0 + (e - v) * -t1 + (g - v) * -t2 == -((b - v) * t0 + (e - v) * t1 + (g
        - v) * t2)) by (nonlinear_arith);
    lemma_weighted_coordinate(a, d, f, u, t0, t1, t2, area);
    lemma_weighted_coordinate(b, e, g, v, t0, t1, t2, area);
    let s = COORD_SCALE as int;
    lemma_opposite_sum(a - u, d - u, f - u, b - v, e - v, g - v, t0, t1, t2);
    lemma_weighted_coordinate(s - a - b, s - d - e, s - f - g, s - u - v, t0, t1, t2, area);
}

proof fn lemma_regroup(y: int, a: int, w: int, z: int)
    ensures
        (y * a) * (w * z) == (y * z) * (a * w),
        (y * a) * (z * w) == (y * z) * (a * w),
{
    vstd::arithmetic::mul::lemma_mul_is_associative(y, a, w * z);
    vstd::arithmetic::mul::lemma_mul_is_associative(a, w, z);
    vstd::arithmetic::mul::lemma_mul_is_commutative(a * w, z);
    vstd::arithmetic::mul::lemma_mul_is_associative(y, z, a * w);
    vstd::arithmetic::mul::lemma_mul_is_commutative(w, z);
}

proof fn lemma_factor(y: int, z: int, a0: int, a1: int, a2: int, w0: int, w1: int, w2: int)
    ensures
        (y * a0) * (w0 * z) + (y * a1) * (w1 * z) + (y * a2) * (w2 * z) == (y * z) * (a0 * w0 + a1
            * w1 + a2 * w2),
        (y * a0) * (z * w0) + (y * a1) * (z * w1) + (y * a2) * (z * w2) == (y * z) * (a0 * w0 + a1
            * w1 + a2 * w2),
{
    lemma_regroup(y, a0, w0, z);
    lemma_regroup(y, a1, w1, z);
    lemma_regroup(y, a2, w2, z);
    lemma_distribute(y * z, a0 * w0, a1 * w1, a2 * w2);
}

proof fn lemma_distribute(a: int, b0: int, b1: int, b2: int) by (nonlinear_arith)
    ensures
        a * b0 + a * b1 + a * b2 == a * (b0 + b1 + b2),
{
}

/// Twice the area of a triangle does not change when its vertices are rotated, and
/// vanishes when two of them coincide.
proof fn lemma_area_rotation(p: CIExyCoords, q: CIExyCoords, r: CIExyCoords)
    ensures
        area2(p, q, r) == area2(q, r, p),
        area2(p, q, p) == 0,
        area2(p, q, q) == 0,
{
    let (a, b) = (p.x as int, p.y as int);
    let (d, e) = (q.x as int, q.y as int);
    let (f, g) = (r.x as int, r.y as int);
    assert((d - a) * (g - b) - (f - a) * (e - b) == (f - d) * (b - e) - (a - d) * (g - e))
        by (nonlinear_arith);
    assert((d - a) * (b - b) - (a - a) * (e - b) == 0) by (nonlinear_arith);
    assert((d - a) * (e - b) - (d - a) * (e - b) == 0);
}

/// Entry `(i, j)` of `destination`'s XYZ to RGB matrix times this space's RGB to XYZ
/// matrix, with the common factors drawn out.
proof fn lemma_conversion_entry(c: Chromaticities, d: Chromaticities, i: int, j: int)
    requires
        0 <= i < 3,
        0 <= j < 3,
    ensures
        c.conversion_num(d, i, j) == (d.white.y * c.weight(j)) * triple(
            d.primary((i + 1) % 3),
            d.primary((i + 2) % 3),
            c.primary(j),
        ),
{
    lemma_factor(
        d.white.y as int,
        c.weight(j),
        d.adjugate(i, 0),
        d.adjugate(i, 1),
        d.adjugate(i, 2),
        c.q(0, j),
        c.q(1, j),
        c.q(2, j),
    );
}

/// A space's XYZ to RGB matrix is the inverse of its RGB to XYZ matrix: their product
/// `xyz_to_rgb_matrix() × rgb_to_xyz_matrix()`, the conversion of the space to itself,
/// has `1` on its diagonal and `0` elsewhere.
pub proof fn lemma_conversion_to_self_is_identity(c: Chromaticities)
    requires
        c.has_xyz_to_rgb(),
    ensures
        forall|i: int, j: int|
            0 <= i < 3 && 0 <= j < 3 ==> c.conversion_num(c, i, j) == if i == j {
                c.conversion_den(c, i)
            } else {
                0
            },
        forall|i: int| 0 <= i < 3 ==> c.conversion_den(c, i) != 0,
{
    assert forall|i: int, j: int| 0 <= i < 3 && 0 <= j < 3 implies c.conversion_num(c, i, j)
        == if i == j {
        c.conversion_den(c, i)
    } else {
        0
    } by {
        let p = c.primary((i + 1) % 3);
        let q = c.primary((i + 2) % 3);
        lemma_conversion_entry(c, c, i, j);
        lemma_triple_is_area(p, q, c.primary(j));
        lemma_area_rotation(c.primary(j), p, q);
        lemma_area_rotation(c.red, c.green, c.blue);
        lemma_area_rotation(c.green, c.blue, c.red);
        let yw = c.white.y as int;
        let t = c.weight(j);
        let s = COORD_SCALE as int;
        let area = c.area();
        if i == j {
            assert(area2(p, q, c.primary(j)) == area);
            assert((yw * t) * (s * area) == (s * t) * (area * yw)) by (nonlinear_arith);
        } else {
            assert(area2(p, q, c.primary(j)) == 0);
            assert((yw * t) * (s * 0) == 0) by (nonlinear_arith);
        }
    }
    assert forall|i: int| 0 <= i < 3 implies c.conversion_den(c, i) != 0 by {
        let s = COORD_SCALE as int;
        let t = c.weight(i);
        let area = c.area();
        let yw = c.white.y as int;
        assert((s * t) * (area * yw) != 0) by (nonlinear_arith)
            requires
                s != 0,
                t != 0,
                area != 0,
                yw != 0,
        ;
    }
}

/// Between two spaces with the same white point, the conversion matrix maps white to
/// white: RGB `(1, 1, 1)` of this space, its white point at unit luma, goes to RGB
/// `(1, 1, 1)` of `destination`, whose white point at unit luma is the same colour.
pub proof fn lemma_conversion_keeps_white(c: Chromaticities, d: Chromaticities)
    requires
        c.white == d.white,
    ensures
        forall|i: int|
            0 <= i < 3 ==> c.conversion_num(d, i, 0) + c.conversion_num(d, i, 1)
                + c.conversion_num(d, i, 2) == c.conversion_den(d, i),
{
    lemma_barycentric(c);
    assert forall|i: int| 0 <= i < 3 implies c.conversion_num(d, i, 0) + c.conversion_num(d, i, 1)
        + c.conversion_num(d, i, 2) == c.conversion_den(d, i) by {
        let a0 = d.xyz_to_rgb_num(i, 0);
        let a1 = d.xyz_to_rgb_num(i, 1);
        let a2 = d.xyz_to_rgb_num(i, 2);
        lemma_distribute(a0, c.rgb_to_xyz_num(0, 0), c.rgb_to_xyz_num(0, 1), c.rgb_to_xyz_num(0, 2));
        lemma_distribute(a1, c.rgb_to_xyz_num(1, 0), c.rgb_to_xyz_num(1, 1), c.rgb_to_xyz_num(1, 2));
        lemma_distribute(a2, c.rgb_to_xyz_num(2, 0), c.rgb_to_xyz_num(2, 1), c.rgb_to_xyz_num(2, 2));
        let area = c.area();
        let w = c.white;
        assert(c.rgb_to_xyz_num(0, 0) + c.rgb_to_xyz_num(0, 1) + c.rgb_to_xyz_num(0, 2) == area
            * component(w, 0));
        assert(c.rgb_to_xyz_num(1, 0) + c.rgb_to_xyz_num(1, 1) + c.rgb_to_xyz_num(1, 2) == area
            * component(w, 1));
        assert(c.rgb_to_xyz_num(2, 0) + c.rgb_to_xyz_num(2, 1) + c.rgb_to_xyz_num(2, 2) == area
            * component(w, 2));
        let yw = d.white.y as int;
        lemma_factor(
            yw,
            area,
            d.adjugate(i, 0),
            d.adjugate(i, 1),
            d.adjugate(i, 2),
            component(w, 0),
            component(w, 1),
            component(w, 2),
        );
        let p = d.primary((i + 1) % 3);
        let q = d.primary((i + 2) % 3);
        lemma_triple_is_area(p, q, w);
        lemma_area_rotation(p, q, w);
        lemma_area_rotation(q, w, p);
        let s = COORD_SCALE as int;
        let t = d.weight(i);
        assert(area2(p, q, w) == t);
        assert((yw * area) * (s * t) == (s * t) * (area * yw)) by (nonlinear_arith);
    }
}

/// Each primary of a space lies in the space.
proof fn lemma_pull_factor(f: int, a0: int, a1: int, a2: int, w0: int, w1: int, w2: int)
    ensures
        a0 * (f * w0) + a1 * (f * w1) + a2 * (f * w2) == f * (a0 * w0 + a1 * w1 + a2 * w2),
{
    assert(a0 * (f * w0) == f * (a0 * w0)) by (nonlinear_arith);
    assert(a1 * (f * w1) == f * (a1 * w1)) by (nonlinear_arith);
    assert(a2 * (f * w2) == f * (a2 * w2)) by (nonlinear_arith);
    lemma_distribute(f, a0 * w0, a1 * w1, a2 * w2);
}

/// Whatever the two white points, the conversion matrix takes RGB `(1, 1, 1)` of this
/// space to what `destination`'s XYZ to RGB matrix makes of this space's white point
/// at unit luma, `(x / y, 1, z / y)`: the white's XYZ is kept, and no chromatic
/// adaptation takes place.
pub proof fn lemma_conversion_maps_source_white(c: Chromaticities, d: Chromaticities)
    ensures
        forall|i: int|
            0 <= i < 3 ==> (c.conversion_num(d, i, 0) + c.conversion_num(d, i, 1)
                + c.conversion_num(d, i, 2)) * (d.xyz_to_rgb_den(i) * c.white.y)
                == c.conversion_den(d, i) * (d.xyz_to_rgb_num(i, 0) * component(c.white, 0)
                + d.xyz_to_rgb_num(i, 1) * component(c.white, 1) + d.xyz_to_rgb_num(i, 2)
                * component(c.white, 2)),
{
    lemma_barycentric(c);
    assert forall|i: int| 0 <= i < 3 implies (c.conversion_num(d, i, 0) + c.conversion_num(d, i, 1)
        + c.conversion_num(d, i, 2)) * (d.xyz_to_rgb_den(i) * c.white.y) == c.conversion_den(d, i)
        * (d.xyz_to_rgb_num(i, 0) * component(c.white, 0) + d.xyz_to_rgb_num(i, 1) * component(
        c.white,
        1,
    ) + d.xyz_to_rgb_num(i, 2) * component(c.white, 2)) by {
        let a0 = d.xyz_to_rgb_num(i, 0);
        let a1 = d.xyz_to_rgb_num(i, 1);
        let a2 = d.xyz_to_rgb_num(i, 2);
        lemma_distribute(a0, c.rgb_to_xyz_num(0, 0), c.rgb_to_xyz_num(0, 1), c.rgb_to_xyz_num(0, 2));
        lemma_distribute(a1, c.rgb_to_xyz_num(1, 0), c.rgb_to_xyz_num(1, 1), c.rgb_to_xyz_num(1, 2));
        lemma_distribute(a2, c.rgb_to_xyz_num(2, 0), c.rgb_to_xyz_num(2, 1), c.rgb_to_xyz_num(2, 2));
        let area = c.area();
        let w = c.white;
        assert(c.rgb_to_xyz_num(0, 0) + c.rgb_to_xyz_num(0, 1) + c.rgb_to_xyz_num(0, 2) == area
            * component(w, 0));
        assert(c.rgb_to_xyz_num(1, 0) + c.rgb_to_xyz_num(1, 1) + c.rgb_to_xyz_num(1, 2) == area
            * component(w, 1));
        assert(c.rgb_to_xyz_num(2, 0) + c.rgb_to_xyz_num(2, 1) + c.rgb_to_xyz_num(2, 2) == area
            * component(w, 2));
        lemma_pull_factor(area, a0, a1, a2, component(w, 0), component(w, 1), component(w, 2));
        let x = a0 * component(w, 0) + a1 * component(w, 1) + a2 * component(w, 2);
        let di = d.xyz_to_rgb_den(i);
        let yw = w.y as int;
        assert((area * x) * (di * yw) == (di * (area * yw)) * x) by (nonlinear_arith);
    }
}

pub proof fn lemma_contains_own_primaries(c: Chromaticities)
    ensures
        c.contains(c.red),
        c.contains(c.green),
        c.contains(c.blue),
{
    lemma_area_rotation(c.red, c.green, c.blue);
    lemma_area_rotation(c.green, c.blue, c.red);
    lemma_area_rotation(c.blue, c.red, c.green);
    lemma_area_rotation(c.red, c.blue, c.red);
    lemma_area_rotation(c.green, c.red, c.green);
    lemma_area_rotation(c.blue, c.green, c.blue);
}

/// The centroid of a space's triangle lies in the space (stated for a centroid whose
/// coordinates are whole units).
pub proof fn lemma_contains_centroid(c: Chromaticities, p: CIExyCoords)
    requires
        3 * p.x == c.red.x + c.green.x + c.blue.x,
        3 * p.y == c.red.y + c.green.y + c.blue.y,
    ensures
        c.contains(p),
{
    let (a, b) = (c.red.x as int, c.red.y as int);
    let (d, e) = (c.green.x as int, c.green.y as int);
    let (f, g) = (c.blue.x as int, c.blue.y as int);
    let (u, v) = (p.x as int, p.y as int);
    let area = c.area();
    assert(9 * area2(p, c.red, c.green) == 3 * area) by (nonlinear_arith)
        requires
            3 * u == a + d + f,
            3 * v == b + e + g,
            area2(p, c.red, c.green) == (a - u) * (e - v) - (d - u) * (b - v),
            area == (d - a) * (g - b) - (f - a) * (e - b),
    ;
    assert(9 * area2(p, c.green, c.blue) == 3 * area) by (nonlinear_arith)
        requires
            3 * u == a + d + f,
            3 * v == b + e + g,
            area2(p, c.green, c.blue) == (d - u) * (g - v) - (f - u) * (e - v),
            area == (d - a) * (g - b) - (f - a) * (e - b),
    ;
    assert(9 * area2(p, c.blue, c.red) == 3 * area) by (nonlinear_arith)
        requires
            3 * u == a + d + f,
            3 * v == b + e + g,
            area2(p, c.blue, c.red) == (f - u) * (b - v) - (a - u) * (g - v),
            area == (d - a) * (g - b) - (f - a) * (e - b),
    ;
}

} // verus!
