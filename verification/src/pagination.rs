//! Reading the total page count out of a pagination link header.
//!
//! The stargazer endpoint announces its page count in a `link` response
//! header; the last-page entry looks like
//! `<https://...?page=6>; rel="last"`. The page count is the number
//! captured by the pattern `page=(\d*)>; rel="last"` at its leftmost
//! occurrence. A missing header means the list has exactly one page.

use vstd::prelude::*;
use crate::error::FetchError;

verus! {

pub open spec fn is_ascii_digit(b: u8) -> bool {
    48 <= b <= 57
}

/// The bytes of `page=`.
pub open spec fn pattern_head() -> Seq<u8> {
    seq![112u8, 97u8, 103u8, 101u8, 61u8]
}

/// The bytes of `>; rel="last"`.
pub open spec fn pattern_tail() -> Seq<u8> {
    seq![62u8, 59u8, 32u8, 114u8, 101u8, 108u8, 61u8, 34u8, 108u8, 97u8, 115u8, 116u8, 34u8]
}

/// End of the run of ASCII digits that starts at `k`.
pub open spec fn digit_run_end(s: Seq<u8>, k: int) -> int
    recommends
        0 <= k <= s.len(),
    decreases s.len() - k,
{
    if k < s.len() && is_ascii_digit(s[k]) {
        digit_run_end(s, k + 1)
    } else {
        k
    }
}

/// The pattern matches at position `i`: the head `page=`, then a maximal
/// (possibly empty) digit run, then the tail `>; rel="last"`.
pub open spec fn match_at(s: Seq<u8>, i: int) -> bool {
    &&& 0 <= i
    &&& i + 5 <= s.len()
    &&& s.subrange(i, i + 5) == pattern_head()
    &&& digit_run_end(s, i + 5) + 13 <= s.len()
    &&& s.subrange(digit_run_end(s, i + 5), digit_run_end(s, i + 5) + 13) == pattern_tail()
}

/// The digit run captured by the match at `i`.
pub open spec fn capture_at(s: Seq<u8>, i: int) -> Seq<u8> {
    s.subrange(i + 5, digit_run_end(s, i + 5))
}

/// The pattern matches at `i` and nowhere earlier.
pub open spec fn first_match_at(s: Seq<u8>, i: int) -> bool {
    &&& match_at(s, i)
    &&& forall|k: int| 0 <= k < i ==> !match_at(s, k)
}

/// The number written by a sequence of ASCII digits, most significant
/// first.
pub open spec fn digits_val(s: Seq<u8>) -> int
    decreases s.len(),
{
    if s.len() == 0 {
        0
    } else {
        digits_val(s.drop_last()) * 10 + (s.last() - 48)
    }
}

/// The page number the header announces: the value of the digit run
/// captured at the leftmost occurrence of the pattern, if there is an
/// occurrence, its capture is not empty, and the value fits in `u32`.
pub open spec fn spec_last_page(s: Seq<u8>) -> Option<int> {
    if exists|i: int|
        first_match_at(s, i) && capture_at(s, i).len() > 0 && digits_val(capture_at(s, i))
            <= u32::MAX as int {
        Some(digits_val(capture_at(s, choose|i: int| first_match_at(s, i))))
    } else {
        None
    }
}

proof fn lemma_first_match_unique(s: Seq<u8>, i: int, j: int)
    requires
        first_match_at(s, i),
        first_match_at(s, j),
    ensures
        i == j,
{
    if i < j {
        assert(!match_at(s, i));
    }
    if j < i {
        assert(!match_at(s, j));
    }
}

proof fn lemma_digits_val_nonneg(s: Seq<u8>)
    requires
        forall|k: int| 0 <= k < s.len() ==> is_ascii_digit(#[trigger] s[k]),
    ensures
        digits_val(s) >= 0,
    decreases s.len(),
{
    if s.len() > 0 {
        lemma_digits_val_nonneg(s.drop_last());
    }
}

/// A digit run is worth at least any of its prefixes.
proof fn lemma_digits_val_prefix_le(s: Seq<u8>, m: int)
    requires
        0 <= m <= s.len(),
        forall|k: int| 0 <= k < s.len() ==> is_ascii_digit(#[trigger] s[k]),
    ensures
        digits_val(s.subrange(0, m)) <= digits_val(s),
    decreases s.len() - m,
{
    if m == s.len() {
        assert(s.subrange(0, m) =~= s);
    } else {
        lemma_digits_val_prefix_le(s, m + 1);
        let p = s.subrange(0, m + 1);
        assert(p.drop_last() =~= s.subrange(0, m));
        lemma_digits_val_nonneg(s.subrange(0, m));
    }
}

fn head_matches(h: &[u8], i: usize) -> (r: bool)
    requires
        i + 5 <= h@.len(),
    ensures
        r == (h@.subrange(i as int, i as int + 5) == pattern_head()),
{
    let r = h[i] == 112 && h[i + 1] == 97 && h[i + 2] == 103 && h[i + 3] == 101 && h[i + 4] == 61;
    proof {
        let sub = h@.subrange(i as int, i as int + 5);
        if r {
            assert(sub =~= pattern_head());
        } else {
            assert(sub == pattern_head() ==> sub[0] == 112 && sub[1] == 97 && sub[2] == 103
                && sub[3] == 101 && sub[4] == 61);
        }
    }
    r
}

fn tail_matches(h: &[u8], j: usize) -> (r: bool)
    requires
        j + 13 <= h@.len(),
    ensures
        r == (h@.subrange(j as int, j as int + 13) == pattern_tail()),
{
    let r = h[j] == 62 && h[j + 1] == 59 && h[j + 2] == 32 && h[j + 3] == 114 && h[j + 4] == 101
        && h[j + 5] == 108 && h[j + 6] == 61 && h[j + 7] == 34 && h[j + 8] == 108 && h[j + 9] == 97
        && h[j + 10] == 115 && h[j + 11] == 116 && h[j + 12] == 34;
    proof {
        let sub = h@.subrange(j as int, j as int + 13);
        if r {
            assert(sub =~= pattern_tail());
        } else {
            assert(sub == pattern_tail() ==> sub[0] == 62 && sub[1] == 59 && sub[2] == 32 && sub[3]
                == 114 && sub[4] == 101 && sub[5] == 108 && sub[6] == 61 && sub[7] == 34 && sub[8]
                == 108 && sub[9] == 97 && sub[10] == 115 && sub[11] == 116 && sub[12] == 34);
        }
    }
    r
}

fn find_digit_run_end(h: &[u8], start: usize) -> (j: usize)
    requires
        start <= h@.len(),
    ensures
        j == digit_run_end(h@, start as int),
        start <= j <= h@.len(),
        forall|k: int| start <= k < j ==> is_ascii_digit(#[trigger] h@[k]),
{
    let mut j = start;
    while j < h.len() && h[j] >= 48 && h[j] <= 57
        invariant
            start <= j <= h@.len(),
            digit_run_end(h@, start as int) == digit_run_end(h@, j as int),
            forall|k: int| start <= k < j ==> is_ascii_digit(#[trigger] h@[k]),
        decreases h@.len() - j,
    {
        j = j + 1;
    }
    j
}

fn parse_digits(h: &[u8], start: usize, end: usize) -> (r: Option<u32>)
    requires
        start < end <= h@.len(),
        forall|k: int| start <= k < end ==> is_ascii_digit(#[trigger] h@[k]),
    ensures
        ({
            let cap = h@.subrange(start as int, end as int);
            match r {
                Some(v) => v as int == digits_val(cap),
                None => digits_val(cap) > u32::MAX as int,
            }
        }),
{
    let ghost cap = h@.subrange(start as int, end as int);
    let mut acc: u32 = 0;
    let mut k = start;
    while k < end
        invariant
            start <= k <= end <= h@.len(),
            forall|j: int| start <= j < end ==> is_ascii_digit(#[trigger] h@[j]),
            cap == h@.subrange(start as int, end as int),
            acc as int == digits_val(h@.subrange(start as int, k as int)),
        decreases end - k,
    {
        let d: u32 = (h[k] - 48) as u32;
        let ghost pre = h@.subrange(start as int, k as int);
        let ghost pre2 = h@.subrange(start as int, k as int + 1);
        proof {
            assert(pre2.drop_last() =~= pre);
            assert(digits_val(pre2) == digits_val(pre) * 10 + d);
        }
        if acc > (u32::MAX - d) / 10 {
            proof {
                assert(digits_val(pre2) > u32::MAX as int) by {
                    assert(acc as int * 10 + d > u32::MAX as int) by (nonlinear_arith)
                        requires
                            acc as int > (u32::MAX as int - d as int) / 10,
                            0 <= d < 10,
                    ;
                };
                assert(cap.subrange(0, k as int + 1 - start) =~= pre2);
                assert(forall|j: int| 0 <= j < cap.len() ==> is_ascii_digit(#[trigger] cap[j]));
                lemma_digits_val_prefix_le(cap, k as int + 1 - start);
            }
            return None;
        }
        proof {
            assert(acc as int * 10 + d <= u32::MAX as int) by (nonlinear_arith)
                requires
                    acc as int <= (u32::MAX as int - d as int) / 10,
                    0 <= d < 10,
            ;
        }
        acc = acc * 10 + d;
        k = k + 1;
    }
    proof {
        assert(h@.subrange(start as int, k as int) =~= cap);
    }
    Some(acc)
}

/// Scans a link header for the leftmost occurrence of
/// `page=(\d*)>; rel="last"` and returns the page number it captures.
/// Returns `None` when the pattern does not occur, when its digit run is
/// empty, or when the number does not fit in `u32`.
pub fn extract_last_page(header: &[u8]) -> (r: Option<u32>)
    ensures
        match spec_last_page(header@) {
            Some(v) => r == Some(v as u32),
            None => r == None::<u32>,
        },
{
    let n = header.len();
    let mut i: usize = 0;
    while i < n
        invariant
            i <= n,
            n == header@.len(),
            forall|k: int| 0 <= k < i ==> !match_at(header@, k),
        decreases n - i,
    {
        if n - i >= 5 && head_matches(header, i) {
            let j = find_digit_run_end(header, i + 5);
            if n - j >= 13 && tail_matches(header, j) {
                proof {
                    assert(match_at(header@, i as int));
                    assert(first_match_at(header@, i as int));
                }
                let ghost cap = capture_at(header@, i as int);
                proof {
                    assert(cap =~= header@.subrange(i as int + 5, j as int));
                }
                if i + 5 == j {
                    proof {
                        lemma_no_good_match(header@, i as int);
                    }
                    return None;
                }
                let parsed = parse_digits(header, i + 5, j);
                match parsed {
                    Some(v) => {
                        proof {
                            lemma_good_match(header@, i as int);
                        }
                        return Some(v);
                    },
                    None => {
                        proof {
                            lemma_no_good_match(header@, i as int);
                        }
                        return None;
                    },
                }
            }
        }
        i = i + 1;
    }
    proof {
        if exists|k: int|
            first_match_at(header@, k) && capture_at(header@, k).len() > 0 && digits_val(
                capture_at(header@, k),
            ) <= u32::MAX as int {
            let k = choose|k: int|
                first_match_at(header@, k) && capture_at(header@, k).len() > 0 && digits_val(
                    capture_at(header@, k),
                ) <= u32::MAX as int;
            assert(!match_at(header@, k));
        }
    }
    None
}

/// With a first match at `i` whose capture is empty or too large, the
/// header announces no page number.
proof fn lemma_no_good_match(s: Seq<u8>, i: int)
    requires
        first_match_at(s, i),
        capture_at(s, i).len() == 0 || digits_val(capture_at(s, i)) > u32::MAX as int,
    ensures
        spec_last_page(s) is None,
{
    if exists|k: int|
        first_match_at(s, k) && capture_at(s, k).len() > 0 && digits_val(capture_at(s, k))
            <= u32::MAX as int {
        let k = choose|k: int|
            first_match_at(s, k) && capture_at(s, k).len() > 0 && digits_val(capture_at(s, k))
                <= u32::MAX as int;
        lemma_first_match_unique(s, i, k);
    }
}

/// With a first match at `i` whose capture is a nonempty digit run of
/// value at most `u32::MAX`, that value is the announced page number.
proof fn lemma_good_match(s: Seq<u8>, i: int)
    requires
        first_match_at(s, i),
        capture_at(s, i).len() > 0,
        digits_val(capture_at(s, i)) <= u32::MAX as int,
    ensures
        spec_last_page(s) == Some(digits_val(capture_at(s, i))),
{
    let k = choose|k: int| first_match_at(s, k);
    lemma_first_match_unique(s, i, k);
}

/// The total number of stargazer pages a first response announces: one
/// when no link header came back, else the number the header's last-page
/// pattern captures; a header the pattern cannot read is an error.
pub fn total_pages(link: Option<&[u8]>) -> (r: Result<u32, FetchError>)
    ensures
        match link {
            None => r == Ok::<u32, FetchError>(1u32),
            Some(h) => match spec_last_page(h@) {
                Some(v) => r == Ok::<u32, FetchError>(v as u32),
                None => r == Err::<u32, FetchError>(FetchError::MalformedLinkHeader),
            },
        },
{
    match link {
        None => Ok(1),
        Some(h) => match extract_last_page(h) {
            Some(n) => Ok(n),
            None => Err(FetchError::MalformedLinkHeader),
        },
    }
}

} // verus!
