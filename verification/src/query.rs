//! Filtered, paginated reads over a list kept in insertion order.

use vstd::prelude::*;

verus! {

/// A filter over records of type `T`.
pub trait Criterion<T> {
    /// Whether `item` passes the filter.
    spec fn admits(&self, item: T) -> bool;

    /// Decides `admits` at run time.
    fn test(&self, item: &T) -> (b: bool)
        ensures
            b == self.admits(*item),
    ;
}

/// The records of `items` that pass `c`, in the order in which `items` holds them.
pub open spec fn matching<T, C: Criterion<T>>(items: Seq<T>, c: C) -> Seq<T> {
    items.filter(|x: T| c.admits(x))
}

/// The window of `hits` that starts after `offset` records and holds at most
/// `limit` of them.
pub open spec fn page_of<T>(hits: Seq<T>, offset: nat, limit: nat) -> Seq<T> {
    let start = if offset <= hits.len() { offset } else { hits.len() };
    let end = if offset + limit <= hits.len() { offset + limit } else { hits.len() };
    hits.subrange(start as int, end as int)
}

/// Returns the page `(offset, limit)` of the records of `items` that pass `c`.
///
/// The scan stops as soon as the page is full.
pub fn select_page<T: Copy, C: Criterion<T>>(items: &Vec<T>, c: &C, offset: u32, limit: u32) -> (page:
    Vec<T>)
    ensures
        page@ == page_of(matching(items@, *c), offset as nat, limit as nat),
{
    let mut page: Vec<T> = Vec::new();
    let mut skipped: u32 = 0;
    let mut i: usize = 0;
    let ghost pred = |x: T| c.admits(x);
    while i < items.len() && page.len() < limit as usize
        invariant
            i <= items.len(),
            pred == (|x: T| c.admits(x)),
            skipped <= offset,
            page.len() <= limit,
            skipped + page.len() == items@.take(i as int).filter(pred).len(),
            skipped < offset ==> page.len() == 0,
            page@ == page_of(items@.take(i as int).filter(pred), offset as nat, limit as nat),
        decreases items.len() - i,
    {
        let item = items[i];
        proof {
            assert(items@.take(i as int + 1) == items@.take(i as int).push(item));
            items@.take(i as int).lemma_filter_push(item, pred);
        }
        if c.test(&item) {
            if skipped < offset {
                skipped = skipped + 1;
            } else {
                page.push(item);
            }
        }
        i = i + 1;
    }
    proof {
        let seen = items@.take(i as int);
        let rest = items@.skip(i as int);
        assert(items@ == seen + rest);
        Seq::filter_distributes_over_add(seen, rest, pred);
        if i < items.len() {
            assert(page.len() == limit);
        } else {
            assert(rest.len() == 0);
            assert(rest.filter(pred).len() == 0) by {
                rest.lemma_filter_len(pred);
            }
        }
        assert(page@ == page_of(items@.filter(pred), offset as nat, limit as nat));
    }
    page
}

/// Reading one page and then the page that follows it gives what one read of
/// both lengths together gives: pages neither overlap nor leave a gap.
pub proof fn lemma_pages_concatenate<T>(hits: Seq<T>, offset: nat, first: nat, second: nat)
    ensures
        page_of(hits, offset, first) + page_of(hits, offset + first, second) == page_of(
            hits,
            offset,
            first + second,
        ),
{
    assert(page_of(hits, offset, first) + page_of(hits, offset + first, second) =~= page_of(
        hits,
        offset,
        first + second,
    ));
}

/// `n` consecutive pages of `k` records each, read from the start, are
/// together the single page `(0, n * k)`.
pub open spec fn pages_from_start<T>(hits: Seq<T>, n: nat, k: nat) -> Seq<T>
    decreases n,
{
    if n == 0 {
        Seq::empty()
    } else {
        pages_from_start(hits, (n - 1) as nat, k) + page_of(hits, ((n - 1) * k) as nat, k)
    }
}

/// Concatenating the pages `(0, k)`, `(k, k)`, ... up to `n` of them equals
/// the one page `(0, n * k)`.
pub proof fn lemma_paging_is_lossless<T>(hits: Seq<T>, n: nat, k: nat)
    ensures
        pages_from_start(hits, n, k) == page_of(hits, 0, n * k),
    decreases n,
{
    if n == 0 {
        assert(page_of(hits, 0, 0) =~= Seq::<T>::empty());
        assert(n * k == 0) by (nonlinear_arith)
            requires
                n == 0,
        ;
    } else {
        lemma_paging_is_lossless(hits, (n - 1) as nat, k);
        assert((n - 1) * k + k == n * k) by (nonlinear_arith);
        assert((n - 1) * k >= 0) by (nonlinear_arith)
            requires
                n >= 1,
                k >= 0,
        ;
        lemma_pages_concatenate(hits, 0, ((n - 1) * k) as nat, k);
    }
}

/// The position of the first record of `s` that satisfies `pred`, or the
/// length of `s` if none does.
pub open spec fn first_index<T>(s: Seq<T>, pred: spec_fn(T) -> bool) -> int
    decreases s.len(),
{
    if s.len() == 0 {
        0
    } else if pred(s.first()) {
        0
    } else {
        1 + first_index(s.drop_first(), pred)
    }
}

/// `first_index` is in range, names a record that satisfies `pred` when it is
/// below the length, and no earlier record satisfies `pred`.
pub proof fn lemma_first_index<T>(s: Seq<T>, pred: spec_fn(T) -> bool)
    ensures
        0 <= first_index(s, pred) <= s.len(),
        first_index(s, pred) < s.len() ==> pred(s[first_index(s, pred)]),
        forall|i: int| 0 <= i < first_index(s, pred) ==> !pred(s[i]),
    decreases s.len(),
{
    if s.len() > 0 && !pred(s.first()) {
        let rest = s.drop_first();
        lemma_first_index(rest, pred);
        assert forall|i: int| 0 <= i < first_index(s, pred) implies !pred(s[i]) by {
            if i > 0 {
                assert(rest[i - 1] == s[i]);
            }
        }
    }
}

/// A position with no match before it, which is the length or holds a match,
/// is the `first_index`.
pub proof fn lemma_first_index_is<T>(s: Seq<T>, pred: spec_fn(T) -> bool, i: int)
    requires
        0 <= i <= s.len(),
        forall|j: int| 0 <= j < i ==> !pred(s[j]),
        i < s.len() ==> pred(s[i]),
    ensures
        first_index(s, pred) == i,
{
    lemma_first_index(s, pred);
    let f = first_index(s, pred);
    if f < i {
        assert(pred(s[f]));
    }
}

/// Puts the records of `src` behind those of `dst`.
pub fn extend_with<T: Copy>(dst: &mut Vec<T>, src: &Vec<T>)
    ensures
        final(dst)@ == old(dst)@ + src@,
{
    let mut i: usize = 0;
    while i < src.len()
        invariant
            i <= src.len(),
            dst@ == old(dst)@ + src@.take(i as int),
        decreases src.len() - i,
    {
        dst.push(src[i]);
        assert(src@.take(i as int + 1) == src@.take(i as int).push(src@[i as int]));
        i = i + 1;
    }
    assert(src@.take(src.len() as int) == src@);
}

/// Returns all records of `items` that pass `c`.
pub fn select_all<T: Copy, C: Criterion<T>>(items: &Vec<T>, c: &C) -> (hits: Vec<T>)
    ensures
        hits@ == matching(items@, *c),
{
    let mut hits: Vec<T> = Vec::new();
    let mut i: usize = 0;
    let ghost pred = |x: T| c.admits(x);
    while i < items.len()
        invariant
            i <= items.len(),
            pred == (|x: T| c.admits(x)),
            hits@ == items@.take(i as int).filter(pred),
        decreases items.len() - i,
    {
        let item = items[i];
        proof {
            assert(items@.take(i as int + 1) == items@.take(i as int).push(item));
            items@.take(i as int).lemma_filter_push(item, pred);
        }
        if c.test(&item) {
            hits.push(item);
        }
        i = i + 1;
    }
    assert(items@.take(i as int) == items@);
    hits
}

/// The sum of `f` over the records of `s`.
pub open spec fn total<T>(s: Seq<T>, f: spec_fn(T) -> int) -> int
    decreases s.len(),
{
    if s.len() == 0 {
        0
    } else {
        total(s.drop_last(), f) + f(s.last())
    }
}

/// One more record adds its share to the sum.
pub proof fn lemma_total_push<T>(s: Seq<T>, x: T, f: spec_fn(T) -> int)
    ensures
        total(s.push(x), f) == total(s, f) + f(x),
{
    assert(s.push(x).drop_last() =~= s);
}

/// Replacing a record takes its share out of the sum and puts the share of
/// the new record in.
pub proof fn lemma_total_update<T>(s: Seq<T>, i: int, x: T, f: spec_fn(T) -> int)
    requires
        0 <= i < s.len(),
    ensures
        total(s.update(i, x), f) == total(s, f) - f(s[i]) + f(x),
    decreases s.len(),
{
    if i == s.len() - 1 {
        assert(s.update(i, x).drop_last() =~= s.drop_last());
    } else {
        lemma_total_update(s.drop_last(), i, x, f);
        assert(s.update(i, x).drop_last() =~= s.drop_last().update(i, x));
    }
}

/// Where no share is negative, the sum is not negative and no share exceeds
/// it.
pub proof fn lemma_total_bounds<T>(s: Seq<T>, f: spec_fn(T) -> int)
    requires
        forall|i: int| 0 <= i < s.len() ==> f(#[trigger] s[i]) >= 0,
    ensures
        total(s, f) >= 0,
        forall|i: int| 0 <= i < s.len() ==> f(#[trigger] s[i]) <= total(s, f),
    decreases s.len(),
{
    if s.len() > 0 {
        let head = s.drop_last();
        assert forall|i: int| 0 <= i < head.len() implies f(#[trigger] head[i]) >= 0 by {
            assert(head[i] == s[i]);
        }
        lemma_total_bounds(head, f);
        assert(f(s[s.len() - 1]) >= 0);
        assert forall|i: int| 0 <= i < s.len() implies f(#[trigger] s[i]) <= total(s, f) by {
            if i < head.len() {
                assert(head[i] == s[i]);
            }
        }
    }
}

/// The sum over two lists put together is the two sums together.
pub proof fn lemma_total_concat<T>(a: Seq<T>, b: Seq<T>, f: spec_fn(T) -> int)
    ensures
        total(a + b, f) == total(a, f) + total(b, f),
    decreases b.len(),
{
    if b.len() == 0 {
        assert(a + b =~= a);
    } else {
        lemma_total_concat(a, b.drop_last(), f);
        assert((a + b).drop_last() =~= a + b.drop_last());
    }
}

} // verus!
