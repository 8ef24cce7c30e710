//! Name lists kept sorted and free of duplicates.

use vstd::prelude::*;
use crate::util::text::{lemma_texts_push, same_chars, texts, to_chars};

verus! {

/// Lexicographic order by code point: whether `a` comes strictly before `b`.
pub open spec fn text_lt(a: Seq<char>, b: Seq<char>) -> bool
    decreases a.len(),
{
    if b.len() == 0 {
        false
    } else if a.len() == 0 {
        true
    } else if a[0] != b[0] {
        a[0] < b[0]
    } else {
        text_lt(a.drop_first(), b.drop_first())
    }
}

/// Each element comes strictly before every later one.
pub open spec fn strictly_sorted(s: Seq<Seq<char>>) -> bool {
    forall|i: int, j: int| 0 <= i < j < s.len() ==> text_lt(#[trigger] s[i], #[trigger] s[j])
}

/// `r` lists the elements of `s` in strictly increasing order.
pub open spec fn is_sorted_listing(r: Seq<Seq<char>>, s: Seq<Seq<char>>) -> bool {
    &&& strictly_sorted(r)
    &&& forall|e: Seq<char>| r.contains(e) <==> s.contains(e)
}

/// The elements of `s` in strictly increasing order, each once.
pub open spec fn sorted_unique(s: Seq<Seq<char>>) -> Seq<Seq<char>> {
    choose|r: Seq<Seq<char>>| is_sorted_listing(r, s)
}

/// No text comes before itself.
pub proof fn lemma_lt_irreflexive(a: Seq<char>)
    ensures
        !text_lt(a, a),
    decreases a.len(),
{
    if a.len() > 0 {
        lemma_lt_irreflexive(a.drop_first());
    }
}

/// The order is transitive.
pub proof fn lemma_lt_transitive(a: Seq<char>, b: Seq<char>, c: Seq<char>)
    requires
        text_lt(a, b),
        text_lt(b, c),
    ensures
        text_lt(a, c),
    decreases a.len(),
{
    if a.len() > 0 && b.len() > 0 && c.len() > 0 {
        if a[0] == b[0] && b[0] == c[0] {
            lemma_lt_transitive(a.drop_first(), b.drop_first(), c.drop_first());
        }
    }
}

/// Two different texts are ordered one way or the other.
pub proof fn lemma_lt_total(a: Seq<char>, b: Seq<char>)
    requires
        a != b,
    ensures
        text_lt(a, b) || text_lt(b, a),
    decreases a.len(),
{
    if a.len() > 0 && b.len() > 0 {
        if a[0] == b[0] {
            if a.drop_first() == b.drop_first() {
                assert(a =~= seq![a[0]] + a.drop_first());
                assert(b =~= seq![b[0]] + b.drop_first());
            }
            lemma_lt_total(a.drop_first(), b.drop_first());
        }
    } else if a.len() == 0 && b.len() == 0 {
        assert(a =~= b);
    }
}

/// A set of texts has one strictly increasing listing only.
pub proof fn lemma_sorted_listing_unique(x: Seq<Seq<char>>, y: Seq<Seq<char>>)
    requires
        strictly_sorted(x),
        strictly_sorted(y),
        forall|e: Seq<char>| x.contains(e) <==> y.contains(e),
    ensures
        x == y,
    decreases x.len(),
{
    if x.len() == 0 {
        if y.len() > 0 {
            assert(y.contains(y[0]));
            assert(x.contains(y[0]));
        }
        assert(x =~= y);
    } else {
        assert(x.contains(x[0]));
        assert(y.contains(x[0]));
        assert(y.contains(y[0]));
        assert(x.contains(y[0]));
        let i = choose|i: int| 0 <= i < y.len() && y[i] == x[0];
        let j = choose|j: int| 0 <= j < x.len() && x[j] == y[0];
        if x[0] != y[0] {
            assert(text_lt(y[0], y[i]));
            assert(text_lt(x[0], x[j]));
            lemma_lt_transitive(x[0], y[0], x[0]);
            lemma_lt_irreflexive(x[0]);
        }
        let xs = x.drop_first();
        let ys = y.drop_first();
        assert forall|e: Seq<char>| xs.contains(e) <==> ys.contains(e) by {
            if xs.contains(e) {
                let k = choose|k: int| 0 <= k < xs.len() && xs[k] == e;
                assert(x[k + 1] == e);
                assert(text_lt(x[0], x[k + 1]));
                lemma_lt_irreflexive(x[0]);
                assert(x.contains(e));
                let m = choose|m: int| 0 <= m < y.len() && y[m] == e;
                assert(m != 0);
                assert(ys[m - 1] == e);
            }
            if ys.contains(e) {
                let k = choose|k: int| 0 <= k < ys.len() && ys[k] == e;
                assert(y[k + 1] == e);
                assert(text_lt(y[0], y[k + 1]));
                lemma_lt_irreflexive(y[0]);
                assert(y.contains(e));
                let m = choose|m: int| 0 <= m < x.len() && x[m] == e;
                assert(m != 0);
                assert(xs[m - 1] == e);
            }
        }
        assert(strictly_sorted(xs)) by {
            assert forall|a: int, b: int| 0 <= a < b < xs.len() implies text_lt(
                #[trigger] xs[a],
                #[trigger] xs[b],
            ) by {
                assert(text_lt(x[a + 1], x[b + 1]));
            }
        }
        assert(strictly_sorted(ys)) by {
            assert forall|a: int, b: int| 0 <= a < b < ys.len() implies text_lt(
                #[trigger] ys[a],
                #[trigger] ys[b],
            ) by {
                assert(text_lt(y[a + 1], y[b + 1]));
            }
        }
        lemma_sorted_listing_unique(xs, ys);
        assert(x =~= seq![x[0]] + xs);
        assert(y =~= seq![y[0]] + ys);
    }
}

/// `r` with `x` put in its place, unless `r` holds it already.
spec fn inserted(r: Seq<Seq<char>>, x: Seq<char>) -> Seq<Seq<char>>
    decreases r.len(),
{
    if r.len() == 0 {
        seq![x]
    } else if r[0] == x {
        r
    } else if text_lt(x, r[0]) {
        seq![x] + r
    } else {
        seq![r[0]] + inserted(r.drop_first(), x)
    }
}

/// The elements of `s`, put in their places one after the other.
spec fn listing(s: Seq<Seq<char>>) -> Seq<Seq<char>>
    decreases s.len(),
{
    if s.len() == 0 {
        Seq::empty()
    } else {
        inserted(listing(s.drop_last()), s.last())
    }
}

proof fn lemma_inserted(r: Seq<Seq<char>>, x: Seq<char>)
    requires
        strictly_sorted(r),
    ensures
        strictly_sorted(inserted(r, x)),
        forall|e: Seq<char>| #[trigger] inserted(r, x).contains(e) <==> (r.contains(e) || e == x),
    decreases r.len(),
{
    let out = inserted(r, x);
    if r.len() == 0 {
        assert(out[0] == x);
    } else if r[0] == x {
        assert(r.contains(x));
    } else if text_lt(x, r[0]) {
        assert forall|a: int, b: int| 0 <= a < b < out.len() implies text_lt(
            #[trigger] out[a],
            #[trigger] out[b],
        ) by {
            if a == 0 {
                assert(out[b] == r[b - 1]);
                if b - 1 > 0 {
                    assert(text_lt(r[0], r[b - 1]));
                    lemma_lt_transitive(x, r[0], r[b - 1]);
                }
            } else {
                assert(text_lt(r[a - 1], r[b - 1]));
            }
        }
        assert forall|e: Seq<char>| out.contains(e) <==> (r.contains(e) || e == x) by {
            if out.contains(e) {
                let k = choose|k: int| 0 <= k < out.len() && out[k] == e;
                if k > 0 {
                    assert(r[k - 1] == e);
                }
            }
            if r.contains(e) {
                let k = choose|k: int| 0 <= k < r.len() && r[k] == e;
                assert(out[k + 1] == e);
            }
            if e == x {
                assert(out[0] == e);
            }
        }
    } else {
        let rest = r.drop_first();
        assert forall|a: int, b: int| 0 <= a < b < rest.len() implies text_lt(
            #[trigger] rest[a],
            #[trigger] rest[b],
        ) by {
            assert(text_lt(r[a + 1], r[b + 1]));
        }
        lemma_inserted(rest, x);
        let tail = inserted(rest, x);
        lemma_lt_total(x, r[0]);
        assert forall|a: int, b: int| 0 <= a < b < out.len() implies text_lt(
            #[trigger] out[a],
            #[trigger] out[b],
        ) by {
            if a == 0 {
                assert(out[b] == tail[b - 1]);
                assert(tail.contains(tail[b - 1]));
                if rest.contains(tail[b - 1]) {
                    let k = choose|k: int| 0 <= k < rest.len() && rest[k] == tail[b - 1];
                    assert(text_lt(r[0], r[k + 1]));
                }
            } else {
                assert(out[a] == tail[a - 1] && out[b] == tail[b - 1]);
                assert(text_lt(tail[a - 1], tail[b - 1]));
            }
        }
        assert forall|e: Seq<char>| out.contains(e) <==> (r.contains(e) || e == x) by {
            if out.contains(e) {
                let k = choose|k: int| 0 <= k < out.len() && out[k] == e;
                if k == 0 {
                    assert(r[0] == e);
                } else {
                    assert(tail[k - 1] == e);
                    assert(tail.contains(e));
                    if rest.contains(e) {
                        let m = choose|m: int| 0 <= m < rest.len() && rest[m] == e;
                        assert(r[m + 1] == e);
                    }
                }
            }
            if r.contains(e) {
                let k = choose|k: int| 0 <= k < r.len() && r[k] == e;
                if k == 0 {
                    assert(out[0] == e);
                } else {
                    assert(rest[k - 1] == e);
                    assert(rest.contains(e));
                    assert(tail.contains(e));
                    let m = choose|m: int| 0 <= m < tail.len() && tail[m] == e;
                    assert(out[m + 1] == e);
                }
            }
            if e == x {
                assert(tail.contains(e));
                let m = choose|m: int| 0 <= m < tail.len() && tail[m] == e;
                assert(out[m + 1] == e);
            }
        }
    }
}

proof fn lemma_listing(s: Seq<Seq<char>>)
    ensures
        is_sorted_listing(listing(s), s),
    decreases s.len(),
{
    if s.len() > 0 {
        let front = s.drop_last();
        lemma_listing(front);
        lemma_inserted(listing(front), s.last());
        assert forall|e: Seq<char>| listing(s).contains(e) <==> s.contains(e) by {
            if s.contains(e) {
                let k = choose|k: int| 0 <= k < s.len() && s[k] == e;
                if k < front.len() {
                    assert(front[k] == e);
                    assert(front.contains(e));
                }
            }
            if front.contains(e) {
                let k = choose|k: int| 0 <= k < front.len() && front[k] == e;
                assert(s[k] == e);
            }
            if e == s.last() {
                assert(s[s.len() - 1] == e);
            }
        }
    }
}

/// Every sequence of texts has a strictly increasing listing, so
/// `sorted_unique` names it: the result is strictly increasing and holds
/// exactly the elements of `s`.
pub proof fn lemma_sorted_unique(s: Seq<Seq<char>>)
    ensures
        is_sorted_listing(sorted_unique(s), s),
        strictly_sorted(sorted_unique(s)),
        forall|e: Seq<char>| sorted_unique(s).contains(e) <==> s.contains(e),
{
    lemma_listing(s);
}


/// Whether `a` comes strictly before `b`.
pub fn text_less(a: &[char], b: &[char]) -> (r: bool)
    ensures
        r == text_lt(a@, b@),
{
    let mut i: usize = 0;
    assert(a@.skip(0) =~= a@ && b@.skip(0) =~= b@);
    while i < a.len() && i < b.len()
        invariant
            i <= a@.len(),
            i <= b@.len(),
            text_lt(a@, b@) == text_lt(a@.skip(i as int), b@.skip(i as int)),
        decreases a@.len() - i,
    {
        proof {
            assert(a@.skip(i as int).drop_first() =~= a@.skip(i + 1));
            assert(b@.skip(i as int).drop_first() =~= b@.skip(i + 1));
        }
        if a[i] != b[i] {
            return a[i] < b[i];
        }
        i += 1;
    }
    i < b.len()
}

/// The names of `v` in strictly increasing order, each once.
pub fn sort_unique(v: &[String]) -> (r: Vec<String>)
    ensures
        texts(r@) == sorted_unique(texts(v@)),
        is_sorted_listing(texts(r@), texts(v@)),
{
    let mut out: Vec<String> = Vec::new();
    let mut i: usize = 0;
    while i < v.len()
        invariant
            i <= v@.len(),
            is_sorted_listing(texts(out@), texts(v@.subrange(0, i as int))),
        decreases v@.len() - i,
    {
        let item = to_chars(v[i].as_str());
        let ghost before = texts(out@);
        let ghost seen = texts(v@.subrange(0, i as int));
        let mut j: usize = 0;
        let mut stop = false;
        let mut found = false;
        while j < out.len() && !stop
            invariant
                i < v@.len(),
                j <= out@.len(),
                before == texts(out@),
                item@ == v@[i as int]@,
                forall|k: int| 0 <= k < j ==> text_lt(#[trigger] before[k], item@),
                stop ==> j < out@.len() && !text_lt(before[j as int], item@) && found == (before[j as int]
                    == item@),
                !stop ==> !found,
            decreases out@.len() - j + if stop { 0int } else { 1int },
        {
            let other = to_chars(out[j].as_str());
            assert(other@ == before[j as int]);
            if text_less(other.as_slice(), item.as_slice()) {
                j += 1;
            } else {
                found = same_chars(other.as_slice(), item.as_slice());
                stop = true;
            }
        }
        proof {
            lemma_texts_push(v@.subrange(0, i as int), v@[i as int]);
            assert(v@.subrange(0, i + 1) =~= v@.subrange(0, i as int).push(v@[i as int]));
        }
        let ghost now = seen.push(item@);
        if !found {
            let fresh = v[i].clone();
            out.insert(j, fresh);
            proof {
                let after = texts(out@);
                assert(after =~= before.insert(j as int, item@));
                assert forall|a: int, b: int| 0 <= a < b < after.len() implies text_lt(
                    #[trigger] after[a],
                    #[trigger] after[b],
                ) by {
                    if b == j {
                        assert(after[a] == before[a]);
                    } else if a == j {
                        assert(after[b] == before[b - 1]);
                        assert(stop);
                        lemma_lt_total(before[j as int], item@);
                        if b - 1 > j {
                            assert(text_lt(before[j as int], before[b - 1]));
                            lemma_lt_transitive(item@, before[j as int], before[b - 1]);
                        }
                    } else if a < j && b > j {
                        assert(after[a] == before[a]);
                        assert(after[b] == before[b - 1]);
                        assert(text_lt(before[a], before[b - 1]));
                    } else if a < j {
                        assert(text_lt(before[a], before[b]));
                    } else {
                        assert(text_lt(before[a - 1], before[b - 1]));
                    }
                }
                assert forall|e: Seq<char>| after.contains(e) <==> now.contains(e) by {
                    if after.contains(e) {
                        let k = choose|k: int| 0 <= k < after.len() && after[k] == e;
                        if k == j {
                            assert(now[now.len() - 1] == e);
                        } else {
                            let m = if k < j { k } else { k - 1 };
                            assert(before[m] == e);
                            assert(before.contains(e));
                            assert(seen.contains(e));
                            let q = choose|q: int| 0 <= q < seen.len() && seen[q] == e;
                            assert(now[q] == e);
                        }
                    }
                    if now.contains(e) {
                        let k = choose|k: int| 0 <= k < now.len() && now[k] == e;
                        if k == now.len() - 1 {
                            assert(after[j as int] == e);
                        } else {
                            assert(seen[k] == e);
                            assert(seen.contains(e));
                            assert(before.contains(e));
                            let q = choose|q: int| 0 <= q < before.len() && before[q] == e;
                            let m = if q < j { q } else { q + 1 };
                            assert(after[m] == e);
                        }
                    }
                }
            }
        } else {
            proof {
                assert(before[j as int] == item@);
                assert forall|e: Seq<char>| before.contains(e) <==> now.contains(e) by {
                    if before.contains(e) {
                        assert(seen.contains(e));
                        let q = choose|q: int| 0 <= q < seen.len() && seen[q] == e;
                        assert(now[q] == e);
                    }
                    if now.contains(e) {
                        let k = choose|k: int| 0 <= k < now.len() && now[k] == e;
                        if k == now.len() - 1 {
                            assert(before.contains(e));
                        } else {
                            assert(seen[k] == e);
                            assert(seen.contains(e));
                        }
                    }
                }
            }
        }
        i += 1;
    }
    proof {
        assert(v@.subrange(0, v@.len() as int) =~= v@);
        let pick = sorted_unique(texts(v@));
        assert(is_sorted_listing(pick, texts(v@)));
        lemma_sorted_listing_unique(texts(out@), pick);
    }
    out
}

} // verus!
