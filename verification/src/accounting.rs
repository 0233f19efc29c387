//! Token accounting: the incremental cost of the newest exchange, and the
//! eviction cut that keeps the stored history within the configured budget.
//!
//! The completion service reports the total token count of a whole request.
//! The cost attributed to the newest exchange is that total minus the cost
//! already accounted to the stored history. When a budget is configured
//! (`memory_limit != 0`), enough of the oldest exchanges are evicted that the
//! incremental cost plus the cost of the kept suffix stays within the budget;
//! a suffix that exactly exhausts the budget is kept, not evicted.

use vstd::prelude::*;

use crate::model::{
    Exchange, ExchangeView, history_total, history_wf, lemma_total_nonneg, lemma_total_skip_le,
    lemma_total_skip_step, lemma_total_take_all, lemma_total_take_step,
};

verus! {

/// The kept suffix starting at `k` fits: the new exchange's cost plus the
/// suffix's accumulated cost stays within the budget.
pub open spec fn fits(h: Seq<ExchangeView>, limit: int, inc: int, k: int) -> bool {
    inc + history_total(h.skip(k)) <= limit
}

/// The eviction cut: the smallest index `k` such that the suffix `h[k..]`
/// together with the new exchange fits the budget, or `h.len()` when not even
/// the empty suffix fits (the new exchange alone exceeds the budget).
pub open spec fn cut_index(h: Seq<ExchangeView>, limit: int, inc: int) -> int
    decreases h.len(),
{
    if h.len() == 0 {
        0
    } else if inc + history_total(h) <= limit {
        0
    } else {
        1 + cut_index(h.skip(1), limit, inc)
    }
}

/// `cut_index` is the least fitting index: everything before it does not fit,
/// and it fits itself whenever it lies inside the history.
pub proof fn lemma_cut_index_least(h: Seq<ExchangeView>, limit: int, inc: int)
    ensures
        0 <= cut_index(h, limit, inc) <= h.len(),
        forall|k: int| 0 <= k < cut_index(h, limit, inc) ==> !fits(h, limit, inc, k),
        cut_index(h, limit, inc) < h.len() ==> fits(h, limit, inc, cut_index(h, limit, inc)),
        cut_index(h, limit, inc) == h.len() && inc <= limit ==> fits(h, limit, inc, cut_index(h, limit, inc)),
    decreases h.len(),
{
    let c = cut_index(h, limit, inc);
    if h.len() == 0 {
        assert(h.skip(0) =~= h);
    } else if inc + history_total(h) <= limit {
        assert(h.skip(0) =~= h);
    } else {
        lemma_cut_index_least(h.skip(1), limit, inc);
        let t = h.skip(1);
        assert(forall|k: int| 0 <= k <= t.len() ==> t.skip(k) =~= h.skip(k + 1));
        assert(h.skip(0) =~= h);
        assert(forall|k: int| 1 <= k < c ==> !fits(h, limit, inc, k)) by {
            assert(forall|k: int|
                1 <= k < c ==> !fits(t, limit, inc, k - 1) && t.skip(k - 1) =~= h.skip(k));
        }
        if c < h.len() {
            assert(fits(t, limit, inc, c - 1));
            assert(t.skip(c - 1) =~= h.skip(c));
        }
        if c == h.len() && inc <= limit {
            assert(fits(t, limit, inc, c - 1));
            assert(t.skip(c - 1) =~= h.skip(c));
        }
    }
}

/// The history after eviction and append: the kept suffix, then the new
/// exchange. With no budget (`limit == 0`) nothing is ever evicted.
pub open spec fn evicted_history(h: Seq<ExchangeView>, limit: int, e: ExchangeView) -> Seq<ExchangeView> {
    if limit == 0 {
        h + seq![e]
    } else {
        h.skip(cut_index(h, limit, e.token_cost)) + seq![e]
    }
}

/// Budget law: with a budget configured, the history left by eviction and
/// append stays within the budget, unless the single newest exchange alone
/// exceeds it, in which case it is kept alone rather than refused.
pub proof fn lemma_budget_invariant(h: Seq<ExchangeView>, limit: int, e: ExchangeView)
    requires
        history_wf(h),
        e.wf(),
        limit > 0,
    ensures
        history_total(evicted_history(h, limit, e)) <= limit || evicted_history(h, limit, e) =~= seq![e],
        e.token_cost <= limit ==> history_total(evicted_history(h, limit, e)) <= limit,
{
    let c = cut_index(h, limit, e.token_cost);
    lemma_cut_index_least(h, limit, e.token_cost);
    let kept = h.skip(c);
    let after = evicted_history(h, limit, e);
    assert(after.drop_last() =~= kept);
    assert(after.last() == e);
    assert(history_total(after) == history_total(kept) + e.token_cost);
    if c < h.len() {
        assert(fits(h, limit, e.token_cost, c));
    } else {
        assert(kept =~= Seq::<ExchangeView>::empty());
        if e.token_cost <= limit {
        } else {
            assert(after =~= seq![e]);
        }
    }
}

/// Atomicity law: eviction and append is one step that removes some prefix
/// of oldest exchanges — never part of one — and appends exactly the new
/// exchange.
pub proof fn lemma_evict_append_atomic(h: Seq<ExchangeView>, limit: int, e: ExchangeView)
    ensures
        exists|c: int|
            0 <= c <= h.len() && evicted_history(h, limit, e) == h.skip(c) + seq![e],
{
    if limit == 0 {
        assert(h.skip(0) =~= h);
        assert(0 <= 0 <= h.len() && evicted_history(h, limit, e) == h.skip(0) + seq![e]);
    } else {
        lemma_cut_index_least(h, limit, e.token_cost);
        let c = cut_index(h, limit, e.token_cost);
        assert(0 <= c <= h.len() && evicted_history(h, limit, e) == h.skip(c) + seq![e]);
    }
}

/// Unbounded-memory law: with no budget configured, eviction never triggers,
/// whatever cost the history has accumulated — the new exchange is simply
/// appended.
pub proof fn lemma_unbounded_never_evicts(h: Seq<ExchangeView>, e: ExchangeView)
    ensures
        evicted_history(h, 0, e) == h + seq![e],
{
}

/// Sum the stored token costs of a history.
pub fn total_tokens(history: &Vec<Exchange>) -> (total: i64)
    requires
        history_wf(history.deep_view()),
        history_total(history.deep_view()) <= i64::MAX as int,
    ensures
        total as int == history_total(history.deep_view()),
{
    let ghost h = history.deep_view();
    let mut total: i64 = 0;
    let mut i: usize = 0;
    while i < history.len()
        invariant
            0 <= i <= history.len(),
            h == history.deep_view(),
            h.len() == history.len(),
            history_wf(h),
            history_total(h) <= i64::MAX as int,
            total as int == history_total(h.take(i as int)),
        decreases history.len() - i,
    {
        proof {
            lemma_total_take_step(h, i as int);
            assert(h[i as int].wf());
            // the prefix so far plus this entry is itself a prefix sum,
            // bounded by the whole history's total
            lemma_take_is_skip_complement(h, i as int + 1);
        }
        total = total + history[i].token_cost;
        i = i + 1;
    }
    proof {
        lemma_total_take_all(h);
    }
    total
}

/// A prefix's total is the whole minus the matching suffix's total, so a
/// well-formed prefix sum never exceeds the whole history's total.
proof fn lemma_take_is_skip_complement(h: Seq<ExchangeView>, k: int)
    requires
        history_wf(h),
        0 <= k <= h.len(),
    ensures
        history_total(h.take(k)) + history_total(h.skip(k)) == history_total(h),
        0 <= history_total(h.take(k)) <= history_total(h),
    decreases h.len() - k,
{
    if k == h.len() {
        assert(h.take(k) =~= h);
        assert(h.skip(k) =~= Seq::<ExchangeView>::empty());
        lemma_total_nonneg(h);
    } else {
        lemma_take_is_skip_complement(h, k + 1);
        lemma_total_take_step(h, k);
        lemma_total_skip_step(h, k);
        assert(h[k].wf());
        lemma_total_skip_le(h, k + 1);
        assert(history_wf(h.take(k))) by {
            assert(forall|i: int| 0 <= i < h.take(k).len() ==> h.take(k)[i] == #[trigger] h[i]);
        }
        lemma_total_nonneg(h.take(k));
    }
}

/// Compute the eviction cut for a budget `limit` and an incremental cost
/// `inc`: the oldest exchanges up to (excluding) the returned index are the
/// ones to evict.
pub fn compute_cut(history: &Vec<Exchange>, limit: i64, inc: i64) -> (cut: usize)
    requires
        history_wf(history.deep_view()),
        history_total(history.deep_view()) <= i64::MAX as int,
        limit >= 0,
        inc >= 0,
    ensures
        cut as int == cut_index(history.deep_view(), limit as int, inc as int),
        cut <= history.len(),
{
    let ghost h = history.deep_view();
    proof {
        lemma_cut_index_least(h, limit as int, inc as int);
    }
    let mut remaining: i128 = 0;
    let mut i: usize = 0;
    // accumulate the whole history's cost
    while i < history.len()
        invariant
            0 <= i <= history.len(),
            h == history.deep_view(),
            h.len() == history.len(),
            history_wf(h),
            history_total(h) <= i64::MAX as int,
            remaining as int == history_total(h.take(i as int)),
            0 <= remaining <= i64::MAX as i128,
        decreases history.len() - i,
    {
        proof {
            lemma_total_take_step(h, i as int);
            lemma_take_is_skip_complement(h, i as int + 1);
        }
        remaining = remaining + history[i].token_cost as i128;
        i = i + 1;
    }
    proof {
        lemma_total_take_all(h);
        assert(h.skip(0) =~= h);
    }
    // drop oldest entries until the new exchange plus the kept suffix fits
    let mut k: usize = 0;
    while k < history.len() && (inc as i128) + remaining > (limit as i128)
        invariant
            0 <= k <= history.len(),
            h == history.deep_view(),
            h.len() == history.len(),
            history_wf(h),
            history_total(h) <= i64::MAX as int,
            remaining as int == history_total(h.skip(k as int)),
            0 <= remaining <= i64::MAX as i128,
            forall|j: int| 0 <= j < k ==> !fits(h, limit as int, inc as int, j),
        decreases history.len() - k,
    {
        proof {
            lemma_total_skip_step(h, k as int);
            lemma_total_skip_le(h, k as int + 1);
        }
        remaining = remaining - history[k].token_cost as i128;
        k = k + 1;
    }
    proof {
        let c = cut_index(h, limit as int, inc as int);
        if c < k as int {
            // everything before the loop's stopping point does not fit
            assert(fits(h, limit as int, inc as int, c));
            assert(false);
        }
        if k < history.len() {
            // the loop stopped on a fitting suffix, the least one
            assert(fits(h, limit as int, inc as int, k as int));
            if c > k as int {
                assert(!fits(h, limit as int, inc as int, k as int));
                assert(false);
            }
        }
    }
    k
}

/// Evict the oldest exchanges as the budget demands, then append the new
/// exchange — one atomic step: exactly the new exchange is added and a prefix
/// of oldest exchanges (possibly empty) removed. With no budget
/// (`limit == 0`) nothing is evicted. A history that exactly exhausts the
/// budget is kept.
pub fn evict_and_append(history: &mut Vec<Exchange>, e: Exchange, limit: i64)
    requires
        history_wf(old(history).deep_view()),
        e@.wf(),
        limit >= 0,
        history_total(old(history).deep_view()) <= i64::MAX as int,
        e@.token_cost + history_total(old(history).deep_view()) <= i64::MAX as int,
    ensures
        final(history).deep_view() == evicted_history(old(history).deep_view(), limit as int, e@),
        history_wf(final(history).deep_view()),
        history_total(final(history).deep_view()) <= i64::MAX as int,
        limit > 0 ==> history_total(final(history).deep_view()) <= limit as int
            || final(history).deep_view() =~= seq![e@],
        limit > 0 && e@.token_cost <= limit as int ==> history_total(final(history).deep_view())
            <= limit as int,
{
    let ghost h0 = history.deep_view();
    if limit != 0 {
        let cut = compute_cut(history, limit, e.token_cost);
        let mut r: usize = 0;
        while r < cut
            invariant
                0 <= r <= cut <= h0.len(),
                history.deep_view() == h0.skip(r as int),
                history.len() == h0.len() - r,
            decreases cut - r,
        {
            let ghost pre = history.deep_view();
            history.remove(0);
            r = r + 1;
            proof {
                assert(history.deep_view() =~= pre.skip(1));
                assert(pre.skip(1) =~= h0.skip(r as int));
            }
        }
        proof {
            lemma_budget_invariant(h0, limit as int, e@);
        }
    } else {
        proof {
            assert(history.deep_view() =~= h0.skip(0));
        }
    }
    let ghost kept = history.deep_view();
    history.push(e);
    proof {
        assert(history.deep_view() =~= kept + seq![e@]);
        let after = history.deep_view();
        assert(after.drop_last() =~= kept);
        assert(after.last() == e@);
        if limit != 0 {
            let c = cut_index(h0, limit as int, e@.token_cost);
            lemma_cut_index_least(h0, limit as int, e@.token_cost);
            assert(kept =~= h0.skip(c));
            lemma_total_skip_le(h0, c);
            assert(history_wf(after)) by {
                assert(forall|i: int|
                    0 <= i < kept.len() ==> kept[i] == #[trigger] h0[i + c]);
            }
        } else {
            assert(kept =~= h0);
            assert(history_wf(after)) by {
                assert(forall|i: int|
                    0 <= i < kept.len() ==> #[trigger] after[i] == h0[i]);
            }
        }
        assert(history_total(after) == history_total(kept) + e@.token_cost);
    }
}

} // verus!
