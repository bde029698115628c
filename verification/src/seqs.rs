//! Facts about sequences with one value taken out.

use vstd::prelude::*;

verus! {

/// `s` with every occurrence of `x` taken out, the rest in order.
pub open spec fn seq_without<A>(s: Seq<A>, x: A) -> Seq<A>
    decreases s.len(),
{
    if s.len() == 0 {
        s
    } else if s.last() == x {
        seq_without(s.drop_last(), x)
    } else {
        seq_without(s.drop_last(), x).push(s.last())
    }
}

/// What `seq_without` keeps: exactly the other values of `s`.
pub proof fn lemma_without_contains<A>(s: Seq<A>, x: A, y: A)
    ensures
        seq_without(s, x).contains(y) <==> (s.contains(y) && y != x),
    decreases s.len(),
{
    if s.len() > 0 {
        lemma_without_contains(s.drop_last(), x, y);
        assert(s =~= s.drop_last().push(s.last()));
        if s.drop_last().contains(y) {
            let j = choose|j: int| 0 <= j < s.drop_last().len() && s.drop_last()[j] == y;
            assert(s[j] == y);
        }
        if s.contains(y) && y != s.last() {
            let j = choose|j: int| 0 <= j < s.len() && s[j] == y;
            assert(s.drop_last()[j] == y);
        }
        let w = seq_without(s.drop_last(), x);
        if s.last() != x {
            assert(w.push(s.last())[w.len() as int] == s.last());
            if w.contains(y) {
                let j = choose|j: int| 0 <= j < w.len() && w[j] == y;
                assert(w.push(s.last())[j] == y);
            }
            if w.push(s.last()).contains(y) && y != s.last() {
                let j = choose|j: int| 0 <= j < w.len() + 1 && w.push(s.last())[j] == y;
                assert(w[j] == y);
            }
        }
    }
}

/// Taking out a value that does not occur changes nothing.
pub proof fn lemma_without_absent<A>(s: Seq<A>, x: A)
    requires
        !s.contains(x),
    ensures
        seq_without(s, x) == s,
    decreases s.len(),
{
    if s.len() > 0 {
        assert(s.last() == s[s.len() - 1]);
        assert(!s.drop_last().contains(x)) by {
            if s.drop_last().contains(x) {
                let j = choose|j: int| 0 <= j < s.drop_last().len() && s.drop_last()[j] == x;
                assert(s[j] == x);
            }
        }
        lemma_without_absent(s.drop_last(), x);
        assert(s =~= s.drop_last().push(s.last()));
    }
}

/// Taking a value out keeps a sequence free of duplicates.
pub proof fn lemma_without_no_duplicates<A>(s: Seq<A>, x: A)
    requires
        s.no_duplicates(),
    ensures
        seq_without(s, x).no_duplicates(),
    decreases s.len(),
{
    if s.len() > 0 {
        assert(s.drop_last().no_duplicates()) by {
            assert forall|i: int, j: int|
                0 <= i < s.drop_last().len() && 0 <= j < s.drop_last().len() && i != j
                implies s.drop_last()[i] != s.drop_last()[j] by {
                assert(s[i] == s.drop_last()[i] && s[j] == s.drop_last()[j]);
            }
        }
        lemma_without_no_duplicates(s.drop_last(), x);
        let w = seq_without(s.drop_last(), x);
        if s.last() != x {
            lemma_without_contains(s.drop_last(), x, s.last());
            assert(!s.drop_last().contains(s.last())) by {
                if s.drop_last().contains(s.last()) {
                    let j = choose|j: int| 0 <= j < s.drop_last().len() && s.drop_last()[j] == s.last();
                    assert(s[j] == s[s.len() - 1]);
                }
            }
            assert forall|i: int, j: int|
                0 <= i < w.push(s.last()).len() && 0 <= j < w.push(s.last()).len() && i != j
                implies w.push(s.last())[i] != w.push(s.last())[j] by {
                if i < w.len() && j < w.len() {
                } else if i < w.len() {
                    assert(w.contains(w[i]));
                } else if j < w.len() {
                    assert(w.contains(w[j]));
                }
            }
        }
    }
}

/// One more element of `s` processed: how `seq_without` of a prefix grows.
pub proof fn lemma_without_take_step<A>(s: Seq<A>, x: A, i: int)
    requires
        0 <= i < s.len(),
    ensures
        seq_without(s.take(i + 1), x) == (if s[i] == x {
            seq_without(s.take(i), x)
        } else {
            seq_without(s.take(i), x).push(s[i])
        }),
{
    assert(s.take(i + 1).drop_last() =~= s.take(i));
    assert(s.take(i + 1).last() == s[i]);
}

/// The values of `s` with `x` pushed are those of `s` and `x`.
pub proof fn lemma_push_to_set<A>(s: Seq<A>, x: A)
    ensures
        s.push(x).to_set() == s.to_set().insert(x),
{
    let t = s.push(x);
    assert forall|y: A| t.contains(y) <==> (s.contains(y) || y == x) by {
        if t.contains(y) && y != x {
            let j = choose|j: int| 0 <= j < t.len() && t[j] == y;
            assert(s[j] == y);
        }
        if s.contains(y) {
            let j = choose|j: int| 0 <= j < s.len() && s[j] == y;
            assert(t[j] == y);
        }
        assert(t[s.len() as int] == x);
    }
    assert(t.to_set() =~= s.to_set().insert(x));
}

} // verus!
