//! Settling a point of the plane on a cell of the lattice.

use vstd::prelude::*;
use crate::hex::HexCoord;

verus! {

/// The cell that the rounding rule settles on, as `(q, r)`: of the three rounded
/// components, the one whose rounding error is largest is given up and taken from
/// the other two, so that the three sum to zero again. Where two or all three
/// errors are largest together, the first of them in the order `q`, `r`, `s` is
/// given up.
pub open spec fn spec_round(rq: int, rr: int, rs: int, q_err: int, r_err: int, s_err: int) -> (
    int,
    int,
) {
    if q_err >= r_err && q_err >= s_err {
        (-rr - rs, rr)
    } else if r_err >= s_err {
        (rq, -rq - rs)
    } else {
        (rq, rr)
    }
}

/// Whether `v` is the value of an `i32`.
pub open spec fn fits_i32(v: int) -> bool {
    i32::MIN <= v <= i32::MAX
}

/// The cell of `spec_round`, where all three of its components are values of `i32`.
pub open spec fn rounded(rq: int, rr: int, rs: int, q_err: int, r_err: int, s_err: int) -> Option<
    HexCoord,
> {
    let c = spec_round(rq, rr, rs, q_err, r_err, s_err);
    if fits_i32(c.0) && fits_i32(c.1) && fits_i32(-c.0 - c.1) {
        Some(HexCoord { q: c.0 as i32, r: c.1 as i32, s: (-c.0 - c.1) as i32 })
    } else {
        None
    }
}

/// A point at the center of a cell is settled on that cell: where the rounded
/// components are those of a cell, the rule returns it, however the errors rank.
pub proof fn lemma_round_trip(c: HexCoord, q_err: int, r_err: int, s_err: int)
    requires
        c.wf(),
    ensures
        rounded(c.q as int, c.r as int, c.s as int, q_err, r_err, s_err) == Some(c),
{
}

/// Settles a point of the plane on a cell. `rq`, `rr`, `rs` are its three
/// fractional cube components, each rounded to the nearest integer; `q_err`,
/// `r_err`, `s_err` rank the three rounding errors: any integers ordered as the
/// errors are. The result is the cell of `spec_round`, or nothing where that cell
/// has a component outside `i32`.
pub fn round_to_hex(rq: i32, rr: i32, rs: i32, q_err: u32, r_err: u32, s_err: u32) -> (hit: Option<
    HexCoord,
>)
    ensures
        hit == rounded(rq as int, rr as int, rs as int, q_err as int, r_err as int, s_err as int),
        hit.is_some() ==> hit.unwrap().wf(),
        rq + rr + rs == 0 ==> hit == Some(HexCoord { q: rq, r: rr, s: rs }),
{
    let mut q: i64 = rq as i64;
    let mut r: i64 = rr as i64;
    if q_err >= r_err && q_err >= s_err {
        q = 0i64 - (rr as i64) - (rs as i64);
    } else if r_err >= s_err {
        r = 0i64 - (rq as i64) - (rs as i64);
    }
    let s: i64 = 0i64 - q - r;
    let lo: i64 = -0x8000_0000i64;
    let hi: i64 = 0x7fff_ffffi64;
    if q < lo || q > hi || r < lo || r > hi || s < lo || s > hi {
        None
    } else {
        Some(HexCoord::new(q as i32, r as i32))
    }
}

} // verus!
