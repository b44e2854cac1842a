//! The order a report lists its repositories in: by repository, in
//! character order, then by how much changed, then as they came.

use vstd::prelude::*;
use crate::app::sync::prepare::same_str;
use crate::text::chars_of;

verus! {

/// Whether text `a` comes strictly before `b` in character order, a proper
/// prefix first (the order of `str`, whose UTF-8 bytes order as the
/// characters do).
pub open spec fn text_before(a: Seq<char>, b: Seq<char>) -> bool
    decreases a.len(),
{
    if a.len() == 0 {
        b.len() > 0
    } else if b.len() == 0 {
        false
    } else if a[0] != b[0] {
        (a[0] as int) < (b[0] as int)
    } else {
        text_before(a.skip(1), b.skip(1))
    }
}

proof fn lemma_skip_eq(a: Seq<char>, b: Seq<char>)
    requires
        a.len() > 0,
        b.len() > 0,
        a[0] == b[0],
        a.skip(1) == b.skip(1),
    ensures
        a == b,
{
    assert(a =~= seq![a[0]] + a.skip(1));
    assert(b =~= seq![b[0]] + b.skip(1));
}

proof fn lemma_text_irreflexive(a: Seq<char>)
    ensures
        !text_before(a, a),
    decreases a.len(),
{
    if a.len() > 0 {
        lemma_text_irreflexive(a.skip(1));
    }
}

proof fn lemma_text_total(a: Seq<char>, b: Seq<char>)
    ensures
        text_before(a, b) ==> !text_before(b, a),
        a != b ==> text_before(a, b) || text_before(b, a),
    decreases a.len(),
{
    if a.len() > 0 && b.len() > 0 && a[0] == b[0] {
        lemma_text_total(a.skip(1), b.skip(1));
        if a != b && a.skip(1) == b.skip(1) {
            lemma_skip_eq(a, b);
        }
    }
    if a.len() == 0 && b.len() == 0 {
        assert(a =~= b);
    }
    if a.len() > 0 && b.len() > 0 && a[0] != b[0] {
        assert((a[0] as int) != (b[0] as int));
    }
}

proof fn lemma_text_transitive(a: Seq<char>, b: Seq<char>, c: Seq<char>)
    ensures
        text_before(a, b) && text_before(b, c) ==> text_before(a, c),
    decreases a.len(),
{
    if a.len() > 0 && b.len() > 0 && c.len() > 0 {
        lemma_text_transitive(a.skip(1), b.skip(1), c.skip(1));
    }
}

/// Character order is a strict total order.
pub proof fn lemma_text_order(a: Seq<char>, b: Seq<char>, c: Seq<char>)
    ensures
        !text_before(a, a),
        text_before(a, b) ==> !text_before(b, a),
        a != b ==> text_before(a, b) || text_before(b, a),
        text_before(a, b) && text_before(b, c) ==> text_before(a, c),
{
    lemma_text_irreflexive(a);
    lemma_text_total(a, b);
    lemma_text_transitive(a, b, c);
}

/// Whether text `a` comes strictly before `b`.
pub fn text_less(a: &str, b: &str) -> (res: bool)
    ensures
        res == text_before(a@, b@),
{
    let x = chars_of(a);
    let y = chars_of(b);
    let mut i: usize = 0;
    assert(x@.skip(0) =~= x@);
    assert(y@.skip(0) =~= y@);
    while i < x.len() && i < y.len() && x[i] == y[i]
        invariant
            i <= x@.len(),
            i <= y@.len(),
            x@ == a@,
            y@ == b@,
            text_before(a@, b@) == text_before(x@.skip(i as int), y@.skip(i as int)),
        decreases x@.len() - i,
    {
        assert(x@.skip(i as int).skip(1) =~= x@.skip(i + 1));
        assert(y@.skip(i as int).skip(1) =~= y@.skip(i + 1));
        i = i + 1;
    }
    if i == x.len() {
        assert(x@.skip(i as int).len() == 0);
        i < y.len()
    } else if i == y.len() {
        assert(y@.skip(i as int).len() == 0);
        false
    } else {
        assert(x@.skip(i as int)[0] == x@[i as int]);
        assert(y@.skip(i as int)[0] == y@[i as int]);
        x[i] < y[i]
    }
}

/// Whether item `x` is listed before item `y`: by its text, then by its
/// rank, then by its position.
pub open spec fn precedes(texts: Seq<Seq<char>>, ranks: Seq<u8>, x: int, y: int) -> bool {
    ||| text_before(texts[x], texts[y])
    ||| texts[x] == texts[y] && ranks[x] < ranks[y]
    ||| texts[x] == texts[y] && ranks[x] == ranks[y] && x < y
}

/// `order` lists every item exactly once, each before the next.
pub open spec fn listing(texts: Seq<Seq<char>>, ranks: Seq<u8>, order: Seq<usize>) -> bool {
    &&& forall|i: int| 0 <= i < order.len() ==> (#[trigger] order[i]) < texts.len()
    &&& forall|v: usize| v < texts.len() ==> #[trigger] order.contains(v)
    &&& forall|i: int, j: int|
        0 <= i < j < order.len() ==> precedes(texts, ranks, #[trigger] order[i] as int, #[trigger] order[j] as int)
}

proof fn lemma_precedes(texts: Seq<Seq<char>>, ranks: Seq<u8>, x: int, y: int, z: int)
    ensures
        !precedes(texts, ranks, x, x),
        x != y ==> precedes(texts, ranks, x, y) || precedes(texts, ranks, y, x),
        precedes(texts, ranks, x, y) && precedes(texts, ranks, y, z) ==> precedes(texts, ranks, x, z),
{
    lemma_text_order(texts[x], texts[y], texts[z]);
    lemma_text_order(texts[x], texts[x], texts[x]);
    lemma_text_order(texts[y], texts[x], texts[z]);
    lemma_text_order(texts[x], texts[z], texts[y]);
    lemma_text_order(texts[y], texts[z], texts[x]);
}

/// The order in which items with these texts and ranks are listed: by text,
/// then by rank, then by position.
pub fn listing_order(texts: &Vec<String>, ranks: &Vec<u8>) -> (order: Vec<usize>)
    requires
        ranks@.len() == texts@.len(),
    ensures
        order@.len() == texts@.len(),
        listing(texts.deep_view(), ranks@, order@),
{
    let ghost tv = texts.deep_view();
    let mut order: Vec<usize> = Vec::new();
    let mut x: usize = 0;
    while x < texts.len()
        invariant
            tv == texts.deep_view(),
            ranks@.len() == texts@.len(),
            tv.len() == texts@.len(),
            x <= texts@.len(),
            order@.len() == x,
            forall|i: int| 0 <= i < order@.len() ==> (#[trigger] order@[i]) < x,
            forall|v: usize| v < x ==> #[trigger] order@.contains(v),
            forall|i: int, j: int|
                0 <= i < j < order@.len() ==> precedes(tv, ranks@, #[trigger] order@[i] as int, #[trigger] order@[j] as int),
        decreases texts@.len() - x,
    {
        let mut p: usize = 0;
        while p < order.len() && !(text_less(texts[x].as_str(), texts[order[p]].as_str()) || (same_str(
            texts[x].as_str(),
            texts[order[p]].as_str(),
        ) && ranks[x] < ranks[order[p]]))
            invariant
                tv == texts.deep_view(),
                ranks@.len() == texts@.len(),
                tv.len() == texts@.len(),
                x < texts@.len(),
                p <= order@.len(),
                forall|i: int| 0 <= i < order@.len() ==> (#[trigger] order@[i]) < x,
                forall|k: int| 0 <= k < p ==> !precedes(tv, ranks@, x as int, #[trigger] order@[k] as int),
            decreases order@.len() - p,
        {
            assert(tv[x as int] == texts@[x as int]@);
            assert(tv[order@[p as int] as int] == texts@[order@[p as int] as int]@);
            p = p + 1;
        }
        proof {
            if p < order@.len() {
                assert(tv[x as int] == texts@[x as int]@);
                assert(tv[order@[p as int] as int] == texts@[order@[p as int] as int]@);
                assert(precedes(tv, ranks@, x as int, order@[p as int] as int));
            }
        }
        let ghost before = order@;
        order.insert(p, x);
        proof {
            assert forall|i: int, j: int|
                0 <= i < j < order@.len() implies precedes(tv, ranks@, #[trigger] order@[i] as int, #[trigger] order@[j] as int) by {
                if j < p {
                    assert(order@[i] == before[i] && order@[j] == before[j]);
                } else if j == p {
                    assert(order@[j] == x);
                    assert(order@[i] == before[i]);
                    lemma_precedes(tv, ranks@, before[i] as int, x as int, x as int);
                    assert(!precedes(tv, ranks@, x as int, before[i] as int));
                } else if i == p {
                    assert(order@[i] == x);
                    assert(order@[j] == before[j - 1]);
                    if j - 1 > p {
                        assert(precedes(tv, ranks@, before[p as int] as int, before[j - 1] as int));
                    }
                    lemma_precedes(tv, ranks@, x as int, before[p as int] as int, before[j - 1] as int);
                } else if i < p {
                    assert(order@[i] == before[i] && order@[j] == before[j - 1]);
                } else {
                    assert(order@[i] == before[i - 1] && order@[j] == before[j - 1]);
                }
            }
            assert forall|v: usize| v < x + 1 implies #[trigger] order@.contains(v) by {
                if v < x {
                    assert(before.contains(v));
                    let k = choose|k: int| 0 <= k < before.len() && before[k] == v;
                    if k < p {
                        assert(order@[k] == v);
                    } else {
                        assert(order@[k + 1] == v);
                    }
                } else {
                    assert(order@[p as int] == x);
                }
            }
        }
        x = x + 1;
    }
    order
}

} // verus!
