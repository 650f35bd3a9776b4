//! Page arithmetic for listings.

use vstd::prelude::*;

verus! {

/// The number of pages of `limit` rows that `total_count` rows fill: the
/// quotient rounded up. With `limit == 0` the quotient is unbounded and the
/// result is pinned to the end of the `i64` range on the side of
/// `total_count`'s sign (zero for zero rows).
pub open spec fn total_pages(total_count: int, limit: int) -> int {
    if limit > 0 {
        -((-total_count) / limit)
    } else if limit < 0 {
        -(total_count / (-limit))
    } else if total_count > 0 {
        i64::MAX as int
    } else if total_count < 0 {
        i64::MIN as int
    } else {
        0
    }
}

/// `total_pages` cut to the `i64` range.
pub open spec fn total_pages_saturated(total_count: int, limit: int) -> int {
    let pages = total_pages(total_count, limit);
    if pages > i64::MAX {
        i64::MAX as int
    } else if pages < i64::MIN {
        i64::MIN as int
    } else {
        pages
    }
}

/// The page that a listing shows where the caller names none.
pub const DEFAULT_PAGE: i64 = 1;

/// The number of tasks on a page where the caller names none.
pub const DEFAULT_TASKS_PER_PAGE: i64 = 5;

/// The number of users or projects on a page where the caller names none.
pub const DEFAULT_PAGE_SIZE: i64 = 10;

/// The number of rows that come before page `page` of `limit` rows.
pub open spec fn rows_before(page: int, limit: int) -> int {
    (page - 1) * limit
}

/// The number of rows to skip for page `page`, or nothing where it does
/// not fit the width.
pub fn page_offset(page: i64, limit: i64) -> (offset: Option<i64>)
    ensures
        match offset {
            Some(rows) => rows == rows_before(page as int, limit as int),
            None => rows_before(page as int, limit as int) < i64::MIN || rows_before(
                page as int,
                limit as int,
            ) > i64::MAX,
        },
{
    proof {
        product_fits_wide(page as int - 1, limit as int);
    }
    let wide: i128 = (page as i128 - 1) * (limit as i128);
    if wide < -9223372036854775808 || wide > 9223372036854775807 {
        None
    } else {
        Some(wide as i64)
    }
}

/// The product of two numbers of about 64 bits fits 128 bits.
proof fn product_fits_wide(a: int, b: int)
    requires
        -0x8000_0000_0000_0001 <= a <= 0x8000_0000_0000_0001,
        -0x8000_0000_0000_0001 <= b <= 0x8000_0000_0000_0001,
    ensures
        -0x4000_0000_0000_0001_0000_0000_0000_0001 <= a * b
            <= 0x4000_0000_0000_0001_0000_0000_0000_0001,
{
    let m: int = 0x8000_0000_0000_0001;
    assert(m * m == 0x4000_0000_0000_0001_0000_0000_0000_0001) by (nonlinear_arith)
        requires
            m == 0x8000_0000_0000_0001,
    ;
    assert(a * b <= m * m && a * b >= -(m * m)) by (nonlinear_arith)
        requires
            -m <= a <= m,
            -m <= b <= m,
            m > 0,
    ;
}

/// For a positive page size, the page count is the least number of pages
/// that hold every row.
pub proof fn total_pages_is_least_cover(total_count: int, limit: int)
    requires
        limit > 0,
    ensures
        total_pages(total_count, limit) * limit >= total_count,
        (total_pages(total_count, limit) - 1) * limit < total_count,
{
    let neg: int = -total_count;
    let q: int = neg / limit;
    vstd::arithmetic::div_mod::lemma_fundamental_div_mod(neg, limit);
    vstd::arithmetic::div_mod::lemma_mod_bound(neg, limit);
    assert(neg == limit * q + neg % limit);
    assert((-q) * limit == -(limit * q)) by (nonlinear_arith);
    assert((-q - 1) * limit == -(limit * q) - limit) by (nonlinear_arith);
}

/// Ceiling of `a / b` on magnitudes.
fn ceil_div_magnitude(a: u64, b: u64) -> (q: u64)
    requires
        b > 0,
    ensures
        q as int == -((-(a as int)) / (b as int)),
        q <= a,
{
    let whole: u64 = a / b;
    let rest: u64 = a % b;
    proof {
        let ai: int = a as int;
        let bi: int = b as int;
        vstd::arithmetic::div_mod::lemma_fundamental_div_mod(ai, bi);
        vstd::arithmetic::div_mod::lemma_fundamental_div_mod(-ai, bi);
        vstd::arithmetic::div_mod::lemma_mod_bound(-ai, bi);
        vstd::arithmetic::div_mod::lemma_mod_bound(ai, bi);
        let w: int = ai / bi;
        let n: int = (-ai) / bi;
        assert(ai == bi * w + ai % bi);
        assert(-ai == bi * n + (-ai) % bi);
        // bi * (w + n) == -(ai % bi) - ((-ai) % bi), a multiple of bi in (-2bi, 0]
        assert(bi * (w + n) == -(ai % bi) - ((-ai) % bi)) by (nonlinear_arith)
            requires
                ai == bi * w + ai % bi,
                -ai == bi * n + (-ai) % bi,
        ;
        if ai % bi == 0 {
            assert(w + n == 0) by (nonlinear_arith)
                requires
                    bi > 0,
                    bi * (w + n) == -((-ai) % bi),
                    0 <= (-ai) % bi < bi,
            ;
        } else {
            assert(w + n == -1) by (nonlinear_arith)
                requires
                    bi > 0,
                    bi * (w + n) == -(ai % bi) - ((-ai) % bi),
                    0 < ai % bi < bi,
                    0 <= (-ai) % bi < bi,
            ;
        }
        assert(w <= ai) by (nonlinear_arith)
            requires
                bi > 0,
                ai >= 0,
                ai == bi * w + ai % bi,
                0 <= ai % bi < bi,
        ;
        assert(rest != 0 ==> w < ai) by (nonlinear_arith)
            requires
                bi > 0,
                ai >= 0,
                ai == bi * w + ai % bi,
                0 <= ai % bi < bi,
                rest as int == ai % bi,
        ;
    }
    if rest == 0 {
        whole
    } else {
        whole + 1
    }
}

/// Floor of `a / b` on magnitudes.
fn floor_div_magnitude(a: u64, b: u64) -> (q: u64)
    requires
        b > 0,
    ensures
        q as int == (a as int) / (b as int),
        q <= a,
{
    proof {
        let ai: int = a as int;
        let bi: int = b as int;
        vstd::arithmetic::div_mod::lemma_fundamental_div_mod(ai, bi);
        vstd::arithmetic::div_mod::lemma_mod_bound(ai, bi);
        let w: int = ai / bi;
        assert(w <= ai) by (nonlinear_arith)
            requires
                bi > 0,
                ai >= 0,
                ai == bi * w + ai % bi,
                0 <= ai % bi < bi,
        ;
    }
    a / b
}

/// The magnitude of a signed number.
fn magnitude(x: i64) -> (m: u64)
    ensures
        m as int == if x < 0 { -(x as int) } else { x as int },
{
    if x < 0 {
        if x == i64::MIN {
            9223372036854775808u64
        } else {
            (-x) as u64
        }
    } else {
        x as u64
    }
}

/// The number of pages of `limit` rows needed for `total_count` rows.
pub fn calculate_total_pages(total_count: i64, limit: i64) -> (pages: i64)
    ensures
        pages as int == total_pages_saturated(total_count as int, limit as int),
{
    if limit == 0 {
        if total_count > 0 {
            i64::MAX
        } else if total_count < 0 {
            i64::MIN
        } else {
            0
        }
    } else {
        let rows: u64 = magnitude(total_count);
        let size: u64 = magnitude(limit);
        if (total_count >= 0) == (limit > 0) {
            // The quotient is not negative: round away from zero.
            let q: u64 = ceil_div_magnitude(rows, size);
            proof {
                lemma_same_sign_quotient(total_count as int, limit as int);
            }
            if q > 9223372036854775807u64 {
                i64::MAX
            } else {
                q as i64
            }
        } else {
            // The quotient is not positive: round towards zero.
            let q: u64 = floor_div_magnitude(rows, size);
            proof {
                lemma_mixed_sign_quotient(total_count as int, limit as int);
            }
            if q > 9223372036854775807u64 {
                i64::MIN
            } else {
                -(q as i64)
            }
        }
    }
}

proof fn lemma_same_sign_quotient(total: int, limit: int)
    requires
        limit != 0,
        (total >= 0) == (limit > 0),
    ensures
        total_pages(total, limit) == -((-(if total < 0 { -total } else { total })) / (if limit < 0 { -limit } else { limit })),
{
    if limit < 0 {
        // total < 0: -(total / (-limit)) with total == -(|total|)
    }
}

proof fn lemma_mixed_sign_quotient(total: int, limit: int)
    requires
        limit != 0,
        (total >= 0) != (limit > 0),
    ensures
        total_pages(total, limit) == -((if total < 0 { -total } else { total }) / (if limit < 0 { -limit } else { limit })),
{
}

} // verus!
