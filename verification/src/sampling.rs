//! Which stargazer pages to fetch for one repository.
//!
//! Up to 15 pages are fetched. A list of at most 15 pages is fetched
//! whole; a longer one is sampled: 15 page numbers spread evenly from
//! page 1 to the last page, trading precision for a bounded request
//! count. The exact spread is a policy choice; the one here takes
//! `1 + k * (total - 1) / 14` for `k` in `0..15`, so the first and the
//! last page are always among the samples.

use vstd::prelude::*;
use vstd::arithmetic::div_mod::{
    lemma_div_is_ordered,
    lemma_div_multiples_vanish,
    lemma_div_plus_one,
    lemma_div_pos_is_pos,
};
use vstd::arithmetic::mul::{lemma_mul_inequality, lemma_mul_nonnegative};

verus! {

/// Most pages fetched for one repository.
pub const PAGE_CAP: u32 = 15;

/// The `k`-th sampled page when the list spans `total` pages: the cap's
/// worth of pages spread evenly over `[1, total]`.
pub open spec fn spec_sampled_page(total: int, k: int) -> int {
    1 + k * (total - 1) / 14
}

/// The pages fetched for a list of `total` pages: all of them up to the
/// cap, an even spread beyond it.
pub open spec fn spec_pages_to_fetch(total: int) -> Seq<int> {
    if total <= 15 {
        Seq::new(total as nat, |k: int| k + 1)
    } else {
        Seq::new(15, |k: int| spec_sampled_page(total, k))
    }
}

proof fn lemma_sampled_page_bounds(total: int, k: int)
    requires
        total > 15,
        0 <= k <= 14,
    ensures
        1 <= spec_sampled_page(total, k) <= total,
        k == 0 ==> spec_sampled_page(total, k) == 1,
        k == 14 ==> spec_sampled_page(total, k) == total,
{
    lemma_mul_nonnegative(k, total - 1);
    lemma_div_pos_is_pos(k * (total - 1), 14);
    lemma_mul_inequality(k, 14, total - 1);
    lemma_div_is_ordered(k * (total - 1), 14 * (total - 1), 14);
    lemma_div_multiples_vanish(total - 1, 14);
    assert(14 * (total - 1) / 14 == total - 1);
    if k == 0 {
        assert(0 * (total - 1) == 0);
        assert(spec_sampled_page(total, 0) == 1);
    }
    if k == 14 {
        assert(spec_sampled_page(total, 14) == total);
    }
}

/// Sampled pages strictly increase with their index: consecutive sample
/// positions differ by at least `(total - 1) / 14 >= 1` pages.
proof fn lemma_sampled_page_increases(total: int, a: int, b: int)
    requires
        total > 15,
        0 <= a < b,
    ensures
        spec_sampled_page(total, a) < spec_sampled_page(total, b),
{
    lemma_mul_inequality(a + 1, b, total - 1);
    assert((a + 1) * (total - 1) == a * (total - 1) + (total - 1)) by (nonlinear_arith);
    lemma_div_plus_one(a * (total - 1), 14);
    assert((14 + a * (total - 1)) / 14 == 1 + a * (total - 1) / 14);
    lemma_div_is_ordered(14 + a * (total - 1), b * (total - 1), 14);
}

/// The page numbers to request for a repository whose stargazer list
/// spans `total` pages. The result always starts with page 1, stays
/// within `[1, total]`, strictly increases, and is the whole range when
/// `total` is at most the cap, else exactly 15 evenly spread pages ending
/// at the last one.
pub fn pages_to_fetch(total: u32) -> (r: Vec<u32>)
    requires
        1 <= total,
    ensures
        r@.len() == spec_pages_to_fetch(total as int).len(),
        forall|k: int|
            0 <= k < r@.len() ==> #[trigger] r@[k] == spec_pages_to_fetch(total as int)[k],
        r@.len() >= 1,
        r@[0] == 1,
        forall|a: int, b: int| 0 <= a < b < r@.len() ==> r@[a] < r@[b],
        forall|k: int| 0 <= k < r@.len() ==> 1 <= #[trigger] r@[k] <= total,
        total <= 15 ==> r@.len() == total,
        total > 15 ==> r@.len() == 15 && r@[14] == total,
{
    let mut r: Vec<u32> = Vec::new();
    if total <= PAGE_CAP {
        let mut p: u32 = 1;
        while p <= total
            invariant
                total <= 15,
                1 <= p <= total + 1,
                r@.len() == p - 1,
                forall|k: int| 0 <= k < r@.len() ==> #[trigger] r@[k] == k + 1,
            decreases total + 1 - p,
        {
            r.push(p);
            p = p + 1;
        }
    } else {
        let mut k: u32 = 0;
        while k < PAGE_CAP
            invariant
                total > 15,
                k <= 15,
                r@.len() == k,
                forall|j: int|
                    0 <= j < r@.len() ==> #[trigger] r@[j] == spec_sampled_page(total as int, j),
            decreases 15 - k,
        {
            proof {
                lemma_sampled_page_bounds(total as int, k as int);
            }
            let page: u64 = 1 + (k as u64) * ((total - 1) as u64) / 14;
            r.push(page as u32);
            k = k + 1;
        }
        proof {
            assert forall|a: int, b: int| 0 <= a < b < r@.len() implies r@[a] < r@[b] by {
                lemma_sampled_page_increases(total as int, a, b);
            }
            assert forall|j: int| 0 <= j < r@.len() implies 1 <= #[trigger] r@[j] <= total by {
                lemma_sampled_page_bounds(total as int, j);
            }
            lemma_sampled_page_bounds(total as int, 0);
            lemma_sampled_page_bounds(total as int, 14);
        }
    }
    r
}

} // verus!
