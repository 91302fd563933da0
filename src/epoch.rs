//! Epoch-aligned registration instants.

use vstd::prelude::*;

verus! {

/// Whether some aligned instant `offset + k * interval` (k >= 0) lies at or after `now`.
pub open spec fn boundary_exists(offset: int, interval: int, now: int) -> bool {
    now <= offset || interval > 0
}

/// The smallest `offset + k * interval` with `k >= 0` that is not before `now`
/// (meaningful when `boundary_exists`).
pub open spec fn next_boundary(offset: int, interval: int, now: int) -> int {
    if now <= offset {
        offset
    } else {
        offset + ((now - offset - 1) / interval + 1) * interval
    }
}

/// `b` is an aligned instant of the schedule.
pub open spec fn is_aligned(offset: int, interval: int, b: int) -> bool {
    exists|k: int| k >= 0 && b == offset + #[trigger] (k * interval)
}

/// The boundary is aligned, not before `now`, and no aligned instant lies in `[now, boundary)`.
pub proof fn lemma_next_boundary_is_least(offset: int, interval: int, now: int)
    requires
        offset >= 0,
        interval >= 0,
        boundary_exists(offset, interval, now),
    ensures
        is_aligned(offset, interval, next_boundary(offset, interval, now)),
        next_boundary(offset, interval, now) >= now,
        forall|k: int|
            k >= 0 && #[trigger] (k * interval) + offset >= now ==> offset + k * interval
                >= next_boundary(offset, interval, now),
{
    let b = next_boundary(offset, interval, now);
    if now <= offset {
        assert(b == offset + 0 * interval);
        assert forall|k: int| k >= 0 && #[trigger] (k * interval) + offset >= now implies offset
            + k * interval >= b by {
            assert(k * interval >= 0) by (nonlinear_arith)
                requires
                    k >= 0,
                    interval >= 0,
            ;
        }
    } else {
        let d = now - offset;
        let q = (d - 1) / interval + 1;
        assert((d - 1) == interval * ((d - 1) / interval) + (d - 1) % interval) by {
            vstd::arithmetic::div_mod::lemma_fundamental_div_mod(d - 1, interval);
        }
        assert(0 <= (d - 1) % interval < interval) by {
            vstd::arithmetic::div_mod::lemma_mod_bound(d - 1, interval);
        }
        assert(q >= 1) by {
            vstd::arithmetic::div_mod::lemma_div_pos_is_pos(d - 1, interval);
        }
        assert(q * interval >= d && (q - 1) * interval < d) by (nonlinear_arith)
            requires
                q == (d - 1) / interval + 1,
                (d - 1) == interval * ((d - 1) / interval) + (d - 1) % interval,
                0 <= (d - 1) % interval < interval,
        ;
        assert(b == offset + q * interval);
        assert forall|k: int| k >= 0 && #[trigger] (k * interval) + offset >= now implies offset
            + k * interval >= b by {
            assert(k * interval >= q * interval) by (nonlinear_arith)
                requires
                    k * interval >= d,
                    (q - 1) * interval < d,
                    interval > 0,
            ;
        }
    }
}

/// Computes the next registration instant for the schedule `offset + k * interval`
/// (k >= 0): the smallest such instant that is not before `now`. Returns `None`
/// when no such instant exists (a zero interval with `now` past the offset) or when
/// it does not fit in a `u64`.
pub fn next_registration_instant(offset: u64, interval: u64, now: u64) -> (r: Option<u64>)
    ensures
        r is Some <==> (boundary_exists(offset as int, interval as int, now as int)
            && next_boundary(offset as int, interval as int, now as int) <= u64::MAX),
        r matches Some(b) ==> b == next_boundary(offset as int, interval as int, now as int),
{
    if now <= offset {
        return Some(offset);
    }
    if interval == 0 {
        return None;
    }
    let d: u64 = now - offset;
    let q: u64 = (d - 1) / interval + 1;
    assert(q * interval >= 0) by (nonlinear_arith)
        requires
            q >= 0,
            interval >= 0,
    ;
    match q.checked_mul(interval) {
        Some(span) => offset.checked_add(span),
        None => {
            assert(offset + q * interval > u64::MAX);
            None
        },
    }
}

/// Seconds to wait from `now` until the next registration instant, or `None`
/// when there is no such instant within `u64`.
pub fn registration_delay(offset: u64, interval: u64, now: u64) -> (r: Option<u64>)
    ensures
        r is Some <==> (boundary_exists(offset as int, interval as int, now as int)
            && next_boundary(offset as int, interval as int, now as int) <= u64::MAX),
        r matches Some(w) ==> w == next_boundary(offset as int, interval as int, now as int)
            - now,
{
    match next_registration_instant(offset, interval, now) {
        Some(b) => {
            proof {
                lemma_next_boundary_is_least(offset as int, interval as int, now as int);
            }
            Some(b - now)
        },
        None => None,
    }
}

} // verus!
