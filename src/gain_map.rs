use vstd::prelude::*;

verus! {

/// Log2 gains are fixed-point values in units of 1/65536.
pub const LOG2_SCALE: i64 = 65536;

/// The recovery value of every pixel of an image whose gain does not vary.
pub const FLAT_RECOVERY: u8 = 128;

/// The smallest and largest log2 gain over an image.
#[derive(Clone, Copy, Debug, PartialEq, Eq, Structural)]
pub struct GainMapRange {
    pub min_log2: i64,
    pub max_log2: i64,
}

/// `g` is the range of `log_gains`: both bounds are attained, and every gain lies
/// between them.
pub open spec fn is_range_of(g: GainMapRange, log_gains: Seq<i64>) -> bool {
    &&& exists|i: int| 0 <= i < log_gains.len() && log_gains[i] == g.min_log2
    &&& exists|i: int| 0 <= i < log_gains.len() && log_gains[i] == g.max_log2
    &&& forall|i: int|
        0 <= i < log_gains.len() ==> g.min_log2 <= #[trigger] log_gains[i] <= g.max_log2
}

/// The encoded recovery of a pixel with log2 gain `log_gain`: its position in the
/// range, clamped to [0, 1], times 255, rounded half up (map gamma 1). A range with
/// no width gives the midpoint.
pub open spec fn recovery(log_gain: int, g: GainMapRange) -> int {
    let width = g.max_log2 - g.min_log2;
    if width <= 0 {
        FLAT_RECOVERY as int
    } else if log_gain <= g.min_log2 {
        0
    } else if log_gain >= g.max_log2 {
        255
    } else {
        (510 * (log_gain - g.min_log2) + width) / (2 * width)
    }
}

/// The first pass: the range of the log2 gains. `None` for an empty image.
pub fn log2_range(log_gains: &Vec<i64>) -> (r: Option<GainMapRange>)
    ensures
        r is None <==> log_gains@.len() == 0,
        r matches Some(g) ==> is_range_of(g, log_gains@),
{
    if log_gains.len() == 0 {
        return None;
    }
    let mut lo = log_gains[0];
    let mut hi = log_gains[0];
    let mut lo_at: usize = 0;
    let mut hi_at: usize = 0;
    let mut i: usize = 1;
    while i < log_gains.len()
        invariant
            1 <= i <= log_gains@.len(),
            lo_at < i,
            hi_at < i,
            log_gains@[lo_at as int] == lo,
            log_gains@[hi_at as int] == hi,
            forall|k: int| 0 <= k < i ==> lo <= #[trigger] log_gains@[k] <= hi,
        decreases log_gains@.len() - i,
    {
        let v = log_gains[i];
        if v < lo {
            lo = v;
            lo_at = i;
        }
        if v > hi {
            hi = v;
            hi_at = i;
        }
        i += 1;
    }
    let g = GainMapRange { min_log2: lo, max_log2: hi };
    assert(log_gains@[lo_at as int] == g.min_log2);
    assert(log_gains@[hi_at as int] == g.max_log2);
    Some(g)
}

/// The second pass for one pixel: its 8-bit recovery value.
pub fn encode_recovery(log_gain: i64, range: &GainMapRange) -> (r: u8)
    requires
        range.min_log2 <= range.max_log2,
    ensures
        r == recovery(log_gain as int, *range),
{
    if range.max_log2 == range.min_log2 {
        return FLAT_RECOVERY;
    }
    if log_gain <= range.min_log2 {
        return 0;
    }
    if log_gain >= range.max_log2 {
        return 255;
    }
    let width = range.max_log2 as i128 - range.min_log2 as i128;
    let d = log_gain as i128 - range.min_log2 as i128;
    let q = (510 * d + width) / (2 * width);
    proof {
        assert(0 <= q < 256) by (nonlinear_arith)
            requires
                0 < d < width,
                q == (510 * d + width) / (2 * width),
        {
            vstd::arithmetic::div_mod::lemma_fundamental_div_mod(510 * d + width, 2 * width);
        }
    }
    q as u8
}

/// Both passes over an image's log2 gains: the range, then each pixel's recovery
/// value in order. `None` for an empty image.
pub fn encode_recoveries(log_gains: &Vec<i64>) -> (r: Option<(Vec<u8>, GainMapRange)>)
    ensures
        r is None <==> log_gains@.len() == 0,
        r matches Some((encoded, g)) ==> {
            &&& is_range_of(g, log_gains@)
            &&& encoded@.len() == log_gains@.len()
            &&& forall|i: int|
                0 <= i < log_gains@.len() ==> encoded@[i] == recovery(log_gains@[i] as int, g)
        },
{
    let range = match log2_range(log_gains) {
        Some(g) => g,
        None => return None,
    };
    proof {
        assert(range.min_log2 <= log_gains@[0] <= range.max_log2);
    }
    let mut encoded: Vec<u8> = Vec::with_capacity(log_gains.len());
    let mut i: usize = 0;
    while i < log_gains.len()
        invariant
            range.min_log2 <= range.max_log2,
            i <= log_gains@.len(),
            encoded@.len() == i,
            forall|k: int| 0 <= k < i ==> encoded@[k] == recovery(log_gains@[k] as int, range),
        decreases log_gains@.len() - i,
    {
        encoded.push(encode_recovery(log_gains[i], &range));
        i += 1;
    }
    Some((encoded, range))
}

/// In an image whose gains vary, a pixel of the smallest gain encodes to 0 and one of
/// the largest gain to 255.
pub proof fn lemma_extremes_encode_to_bounds(log_gains: Seq<i64>, g: GainMapRange)
    requires
        is_range_of(g, log_gains),
        g.min_log2 < g.max_log2,
    ensures
        recovery(g.min_log2 as int, g) == 0,
        recovery(g.max_log2 as int, g) == 255,
        forall|i: int|
            0 <= i < log_gains.len() ==> 0 <= #[trigger] recovery(log_gains[i] as int, g) <= 255,
{
    assert forall|i: int| 0 <= i < log_gains.len() implies 0 <= #[trigger] recovery(
        log_gains[i] as int,
        g,
    ) <= 255 by {
        let width = g.max_log2 - g.min_log2;
        let d = log_gains[i] - g.min_log2;
        if 0 < d < width {
            let q = (510 * d + width) / (2 * width);
            assert(0 <= q < 256) by (nonlinear_arith)
                requires
                    0 < d < width,
                    q == (510 * d + width) / (2 * width),
            {
                vstd::arithmetic::div_mod::lemma_fundamental_div_mod(510 * d + width, 2 * width);
            }
        }
    }
}

/// When every pixel has the same gain, the range has no width and every pixel encodes
/// to the midpoint: no division by zero takes place.
pub proof fn lemma_flat_image_encodes_midpoint(log_gains: Seq<i64>, g: GainMapRange)
    requires
        is_range_of(g, log_gains),
        log_gains.len() > 0,
        forall|i: int, j: int|
            0 <= i < log_gains.len() && 0 <= j < log_gains.len() ==> log_gains[i] == log_gains[j],
    ensures
        g.min_log2 == g.max_log2,
        forall|i: int|
            0 <= i < log_gains.len() ==> #[trigger] recovery(log_gains[i] as int, g)
                == FLAT_RECOVERY,
{
    let i0 = choose|i: int| 0 <= i < log_gains.len() && log_gains[i] == g.min_log2;
    let i1 = choose|i: int| 0 <= i < log_gains.len() && log_gains[i] == g.max_log2;
    assert(log_gains[i0] == log_gains[i1]);
}

} // verus!
