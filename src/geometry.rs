use vstd::prelude::*;

verus! {

/// Every coordinate is held within `[-FIELD_LIMIT, FIELD_LIMIT]`.
pub const FIELD_LIMIT: i64 = 10_000_000_000_000_000;

/// The largest move `shift` takes in one call.
pub const STEP_LIMIT: i128 = 100_000_000_000_000_000_000_000_000_000_000;

pub open spec fn clamped(v: int, lo: int, hi: int) -> int {
    if v < lo {
        lo
    } else if v > hi {
        hi
    } else {
        v
    }
}

pub open spec fn on_field(p: int) -> bool {
    -FIELD_LIMIT <= p <= FIELD_LIMIT
}

/// `p + d`, held to the field.
pub open spec fn shifted(p: int, d: int) -> int {
    clamped(p + d, -FIELD_LIMIT as int, FIELD_LIMIT as int)
}

/// Two circles overlap iff the squared distance of their centers is below the
/// square of the sum of their radii (`reach`).
pub open spec fn touching(ax: int, ay: int, bx: int, by: int, reach: int) -> bool {
    (ax - bx) * (ax - bx) + (ay - by) * (ay - by) < reach * reach
}

pub open spec fn is_isqrt(n: int, r: int) -> bool {
    0 <= r && r * r <= n < (r + 1) * (r + 1)
}

/// Moves a coordinate by `d`, saturating at the field's edges.
pub fn shift(p: i64, d: i128) -> (r: i64)
    requires
        on_field(p as int),
        -STEP_LIMIT <= d <= STEP_LIMIT,
    ensures
        r == shifted(p as int, d as int),
        on_field(r as int),
{
    let s: i128 = p as i128 + d;
    if s < -(FIELD_LIMIT as i128) {
        -FIELD_LIMIT
    } else if s > FIELD_LIMIT as i128 {
        FIELD_LIMIT
    } else {
        s as i64
    }
}

pub proof fn lemma_square_bound(a: int, m: int)
    requires
        -m <= a <= m,
    ensures
        0 <= a * a <= m * m,
{
    assert(0 <= a * a <= m * m) by (nonlinear_arith)
        requires
            -m <= a <= m,
    ;
}

/// `v` held to `[lo, hi]`.
pub fn clamp_to(v: i128, lo: i64, hi: i64) -> (r: i64)
    requires
        lo <= hi,
    ensures
        r == clamped(v as int, lo as int, hi as int),
{
    if v < lo as i128 {
        lo
    } else if v > hi as i128 {
        hi
    } else {
        v as i64
    }
}

/// Circle overlap test on field coordinates.
pub fn overlaps(ax: i64, ay: i64, bx: i64, by: i64, reach: i64) -> (r: bool)
    requires
        on_field(ax as int),
        on_field(ay as int),
        on_field(bx as int),
        on_field(by as int),
        0 <= reach <= FIELD_LIMIT,
    ensures
        r == touching(ax as int, ay as int, bx as int, by as int, reach as int),
{
    let dx: i128 = ax as i128 - bx as i128;
    let dy: i128 = ay as i128 - by as i128;
    proof {
        lemma_square_bound(dx as int, 2 * FIELD_LIMIT);
        lemma_square_bound(dy as int, 2 * FIELD_LIMIT);
        lemma_square_bound(reach as int, FIELD_LIMIT as int);
    }
    let rr: i128 = reach as i128;
    dx * dx + dy * dy < rr * rr
}

/// Integer square root: the largest `r` with `r * r <= n`.
pub fn isqrt(n: u64) -> (r: u64)
    ensures
        is_isqrt(n as int, r as int),
{
    let mut lo: u64 = 0;
    let mut hi: u64 = 0x1_0000_0000;
    assert(hi * hi > n) by (nonlinear_arith)
        requires
            hi == 0x1_0000_0000,
            n <= u64::MAX,
    ;
    while hi - lo > 1
        invariant
            lo < hi <= 0x1_0000_0000,
            lo * lo <= n,
            n < hi * hi,
        decreases hi - lo,
    {
        let mid: u64 = lo + (hi - lo) / 2;
        assert(mid * mid <= 0x1_0000_0000 * 0x1_0000_0000) by (nonlinear_arith)
            requires
                mid < 0x1_0000_0000,
        ;
        if (mid as u128) * (mid as u128) <= n as u128 {
            lo = mid;
        } else {
            hi = mid;
        }
    }
    assert(hi == lo + 1);
    lo
}

} // verus!
