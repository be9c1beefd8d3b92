//! Offset/limit paging of result rows.
//!
//! `offset` rows are skipped first, then at most `limit` rows are kept; a
//! `limit` of 0 means no limit.

use vstd::prelude::*;

verus! {

/// Index of the first row of the page.
pub open spec fn page_start(n: nat, offset: nat) -> nat {
    if offset <= n { offset } else { n }
}

/// Index one past the last row of the page.
pub open spec fn page_end(n: nat, limit: nat, offset: nat) -> nat {
    let start = page_start(n, offset);
    if limit == 0 || start + limit >= n { n } else { start + limit }
}

/// The rows of `s` that a request with `limit` and `offset` returns.
pub open spec fn page<T>(s: Seq<T>, limit: nat, offset: nat) -> Seq<T> {
    s.subrange(page_start(s.len(), offset) as int, page_end(s.len(), limit, offset) as int)
}

/// Keeps in `rows` the page that `limit` and `offset` select, and returns the
/// number of rows before paging (`total_rows`) and after (`returned_rows`).
pub fn paginate<T>(rows: &mut Vec<T>, limit: usize, offset: usize) -> (counts: (usize, usize))
    ensures
        final(rows)@ == page(old(rows)@, limit as nat, offset as nat),
        counts.0 == old(rows)@.len(),
        counts.1 == final(rows)@.len(),
{
    let ghost s = rows@;
    let total = rows.len();
    if offset > 0 {
        if offset >= rows.len() {
            rows.clear();
        } else {
            let rest = rows.split_off(offset);
            *rows = rest;
        }
    }
    if limit > 0 && rows.len() > limit {
        rows.truncate(limit);
    }
    assert(rows@ =~= page(s, limit as nat, offset as nat));
    let returned = rows.len();
    (total, returned)
}

/// Law: the page holds `min(limit, n - offset)` rows (all `n - offset` when
/// `limit` is 0, none when `offset` is past the end), so never more than the
/// rows there are, nor more than `limit`.
pub proof fn law_page_len<T>(s: Seq<T>, limit: nat, offset: nat)
    ensures
        page(s, limit, offset).len() == (if offset >= s.len() {
            0
        } else if limit == 0 || s.len() - offset <= limit {
            (s.len() - offset) as nat
        } else {
            limit
        }),
        page(s, limit, offset).len() <= s.len(),
        limit > 0 ==> page(s, limit, offset).len() <= limit,
{
}

/// Law: the `i`-th row of the page is row `offset + i` of the whole result.
pub proof fn law_page_rows<T>(s: Seq<T>, limit: nat, offset: nat, i: int)
    requires
        0 <= i < page(s, limit, offset).len(),
    ensures
        page(s, limit, offset)[i] == s[offset + i],
{
}

/// Law: with no limit and no offset every row is returned.
pub proof fn law_no_paging_is_identity<T>(s: Seq<T>)
    ensures
        page(s, 0, 0) == s,
{
    assert(page(s, 0, 0) =~= s);
}

/// Law: an offset at or past the end returns no rows.
pub proof fn law_offset_past_end<T>(s: Seq<T>, limit: nat, offset: nat)
    requires
        offset >= s.len(),
    ensures
        page(s, limit, offset) == Seq::<T>::empty(),
{
    assert(page(s, limit, offset) =~= Seq::<T>::empty());
}

/// Law: two consecutive pages of size `k` together are the page of size `2k`
/// that starts where the first one starts.
pub proof fn law_pages_tile<T>(s: Seq<T>, k: nat, offset: nat)
    requires
        k > 0,
    ensures
        page(s, k, offset) + page(s, k, offset + k) == page(s, 2 * k, offset),
{
    assert(page(s, k, offset) + page(s, k, offset + k) =~= page(s, 2 * k, offset));
}

} // verus!
