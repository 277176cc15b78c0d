//! The keys of a map from stream indices, in increasing order, and the walk
//! over a `BTreeMap` that yields them.
use std::collections::BTreeMap;
use vstd::prelude::*;
use vstd::std_specs::btree::increasing_seq;
use vstd::std_specs::cmp::OrdSpec;
use vstd::std_specs::iter::IteratorSpec;

verus! {

/// The members of `d` below `n`, in increasing order.
pub open spec fn keys_below(d: Set<usize>, n: nat) -> Seq<usize>
    decreases n,
{
    if n == 0 {
        Seq::empty()
    } else {
        let rest = keys_below(d, (n - 1) as nat);
        if d.contains((n - 1) as usize) {
            rest.push((n - 1) as usize)
        } else {
            rest
        }
    }
}

/// One more than the largest stream index.
pub open spec fn index_bound() -> nat {
    usize::MAX as nat + 1
}

/// The members of `d` in increasing order.
pub open spec fn ordered_keys(d: Set<usize>) -> Seq<usize> {
    keys_below(d, index_bound())
}

pub open spec fn strictly_increasing(s: Seq<usize>) -> bool {
    forall|i: int, j: int| 0 <= i < j < s.len() ==> s[i] < s[j]
}

/// `keys_below(d, n)` is the one strictly increasing sequence that holds
/// exactly the members of `d` below `n`.
proof fn lemma_keys_below_unique(d: Set<usize>, n: nat, s: Seq<usize>)
    requires
        n <= index_bound(),
        strictly_increasing(s),
        forall|x: usize| s.contains(x) <==> (d.contains(x) && x < n),
    ensures
        s == keys_below(d, n),
    decreases n,
{
    if n == 0 {
        if s.len() > 0 {
            assert(s.contains(s[0]));
        }
        assert(s =~= Seq::<usize>::empty());
    } else {
        let top = (n - 1) as usize;
        if d.contains(top) {
            assert(s.contains(top));
            let k = choose|k: int| 0 <= k < s.len() && s[k] == top;
            if k < s.len() - 1 {
                assert(s.contains(s[k + 1]));
                assert(s[k] < s[k + 1]);
            }
            let rest = s.drop_last();
            assert forall|x: usize| rest.contains(x) <==> (d.contains(x) && x < n - 1) by {
                if rest.contains(x) {
                    let i = choose|i: int| 0 <= i < rest.len() && rest[i] == x;
                    assert(s[i] == x && s[i] < s[s.len() - 1]);
                    assert(s.contains(x));
                }
                if d.contains(x) && x < n - 1 {
                    assert(s.contains(x));
                    let i = choose|i: int| 0 <= i < s.len() && s[i] == x;
                    assert(i != s.len() - 1);
                    assert(rest[i] == x);
                }
            }
            lemma_keys_below_unique(d, (n - 1) as nat, rest);
            assert(s =~= rest.push(top));
        } else {
            assert forall|x: usize| s.contains(x) <==> (d.contains(x) && x < n - 1) by {
                if s.contains(x) {
                    assert(x != top);
                }
            }
            lemma_keys_below_unique(d, (n - 1) as nat, s);
        }
    }
}

/// The members of `d` below `n` are exactly the elements of `keys_below`,
/// which strictly increase.
pub proof fn lemma_keys_below_props(d: Set<usize>, n: nat)
    requires
        n <= index_bound(),
    ensures
        strictly_increasing(keys_below(d, n)),
        forall|x: usize| keys_below(d, n).contains(x) <==> (d.contains(x) && x < n),
    decreases n,
{
    if n > 0 {
        lemma_keys_below_props(d, (n - 1) as nat);
        let rest = keys_below(d, (n - 1) as nat);
        let top = (n - 1) as usize;
        assert(top == n - 1);
        assert(forall|x: usize| rest.contains(x) <==> (d.contains(x) && x < n - 1));
        assert(strictly_increasing(rest));
        if d.contains(top) {
            let s = rest.push(top);
            assert forall|i: int, j: int| 0 <= i < j < s.len() implies s[i] < s[j] by {
                assert(s[i] == rest[i]);
                assert(rest.contains(rest[i]));
                if j < s.len() - 1 {
                    assert(s[j] == rest[j]);
                }
            }
            assert forall|x: usize| s.contains(x) <==> (d.contains(x) && x < n) by {
                if s.contains(x) {
                    let i = choose|i: int| 0 <= i < s.len() && s[i] == x;
                    if i < s.len() - 1 {
                        assert(rest[i] == x);
                        assert(rest.contains(x));
                    }
                }
                if d.contains(x) && x < n {
                    if x == top {
                        assert(s[s.len() - 1] == x);
                    } else {
                        assert(rest.contains(x));
                        let i = choose|i: int| 0 <= i < rest.len() && rest[i] == x;
                        assert(s[i] == x);
                    }
                }
            }
        } else {
            assert forall|x: usize| rest.contains(x) <==> (d.contains(x) && x < n) by {
                if d.contains(x) && x < n {
                    assert(x != top);
                }
            }
        }
    }
}

/// Stream indices are compared as numbers, which is what a `BTreeMap` keyed
/// by them relies on.
pub open spec fn index_keys_ordered() -> bool {
    vstd::laws_cmp::obeys_cmp::<usize>()
}

/// Stream indices compare as numbers, so the key order of a `BTreeMap`
/// keyed by them is numeric order.
pub proof fn lemma_index_keys_ordered()
    ensures
        index_keys_ordered(),
{
    broadcast use vstd::laws_cmp::group_laws_cmp;
}

/// The keys of `m` in increasing order, as a `BTreeMap` walks them.
pub fn ordered_keys_of<V>(m: &BTreeMap<usize, V>) -> (r: Vec<usize>)
    ensures
        r@ == ordered_keys(m@.dom()),
{
    broadcast use vstd::std_specs::btree::group_btree_axioms, vstd::laws_cmp::group_laws_cmp;
    let mut keys: Vec<usize> = Vec::new();
    let iter = m.iter();
    let ghost walked = iter.remaining().map_values(|p: (&usize, &V)| *p.0);
    assert(increasing_seq(walked));
    for kv in it: iter
        invariant
            it.seq() == iter.remaining(),
            walked == it.seq().map_values(|p: (&usize, &V)| *p.0),
            keys@ == it.seq().take(it.index()).map_values(|p: (&usize, &V)| *p.0),
    {
        keys.push(*kv.0);
        assert(it.seq().take(it.index() + 1).map_values(|p: (&usize, &V)| *p.0) =~= keys@);
    }
    assert(keys@ =~= walked);
    assert forall|i: int, j: int| 0 <= i < j < keys@.len() implies keys@[i] < keys@[j] by {
        assert(walked[i].cmp_spec(&walked[j]) is Less);
    }
    assert forall|x: usize| keys@.contains(x) <==> (m@.dom().contains(x) && x < index_bound()) by {
        let r = iter.remaining();
        if m@.contains_key(x) {
            assert(r.contains((&x, &m@[x])));
            let i = choose|i: int| 0 <= i < r.len() && r[i] == (&x, &m@[x]);
            assert(walked[i] == x);
        }
        if keys@.contains(x) {
            let i = choose|i: int| 0 <= i < keys@.len() && keys@[i] == x;
            assert(m@.contains_key(*r[i].0));
        }
    }
    proof {
        lemma_keys_below_unique(m@.dom(), index_bound(), keys@);
    }
    keys
}

} // verus!
