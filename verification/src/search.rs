//! The search engine's filter: all registry names with a given literal
//! prefix, in registry order, and its monotonicity in the query.

use vstd::prelude::*;

use crate::strings::str_is_prefix;
use crate::views::lemma_deep_view_push;

verus! {

/// The names of the list that start with `p`, in their given order.
pub open spec fn spec_filter(names: Seq<Seq<char>>, p: Seq<char>) -> Seq<Seq<char>>
    decreases names.len(),
{
    if names.len() == 0 {
        Seq::empty()
    } else {
        let rest = spec_filter(names.drop_last(), p);
        if p.is_prefix_of(names.last()) {
            rest.push(names.last())
        } else {
            rest
        }
    }
}

/// The filter keeps exactly the listed names that carry the prefix.
pub proof fn lemma_filter_contains(names: Seq<Seq<char>>, p: Seq<char>, n: Seq<char>)
    ensures
        spec_filter(names, p).contains(n) <==> names.contains(n) && p.is_prefix_of(n),
    decreases names.len(),
{
    if names.len() > 0 {
        lemma_filter_contains(names.drop_last(), p, n);
        let rest = spec_filter(names.drop_last(), p);
        if names.drop_last().contains(n) {
            let i = choose|i: int|
                0 <= i < names.drop_last().len() && names.drop_last()[i] == n;
            assert(names[i] == n);
        }
        if names.contains(n) && n != names.last() {
            let i = choose|i: int| 0 <= i < names.len() && names[i] == n;
            assert(i < names.len() - 1);
            assert(names.drop_last()[i] == n);
        }
        if p.is_prefix_of(names.last()) {
            assert(spec_filter(names, p) == rest.push(names.last()));
            if spec_filter(names, p).contains(n) {
                let i = choose|i: int|
                    0 <= i < spec_filter(names, p).len() && spec_filter(names, p)[i] == n;
                if i < rest.len() {
                    assert(rest.contains(n));
                } else {
                    assert(n == names.last());
                    assert(names[names.len() - 1] == n);
                }
            }
            if names.contains(n) && p.is_prefix_of(n) {
                if n == names.last() {
                    assert(spec_filter(names, p)[rest.len() as int] == n);
                } else {
                    assert(rest.contains(n));
                    let i = choose|i: int| 0 <= i < rest.len() && rest[i] == n;
                    assert(rest.push(names.last())[i] == n);
                }
            }
        } else {
            if names.contains(n) && p.is_prefix_of(n) {
                assert(n != names.last());
            }
        }
    }
}

/// A prefix of a prefix of `n` is itself a prefix of `n`.
pub proof fn lemma_prefix_trans(p: Seq<char>, q: Seq<char>, n: Seq<char>)
    requires
        p.is_prefix_of(q),
        q.is_prefix_of(n),
    ensures
        p.is_prefix_of(n),
{
    assert(p =~= n.subrange(0, p.len() as int)) by {
        assert(forall|i: int|
            0 <= i < p.len() ==> p[i] == #[trigger] q.subrange(0, p.len() as int)[i]);
        assert(forall|i: int|
            0 <= i < q.len() ==> q[i] == #[trigger] n.subrange(0, q.len() as int)[i]);
    }
}

/// Growing the query can only narrow the matches: every name matched after
/// one more character was already matched before it.
pub proof fn lemma_filter_monotonic(names: Seq<Seq<char>>, p: Seq<char>, c: char)
    ensures
        forall|n: Seq<char>| #[trigger]
            spec_filter(names, p.push(c)).contains(n) ==> spec_filter(names, p).contains(n),
{
    assert forall|n: Seq<char>| #[trigger]
        spec_filter(names, p.push(c)).contains(n) implies spec_filter(names, p).contains(n) by {
        lemma_filter_contains(names, p.push(c), n);
        lemma_filter_contains(names, p, n);
        assert(p.is_prefix_of(p.push(c))) by {
            assert(p =~= p.push(c).subrange(0, p.len() as int));
        }
        lemma_prefix_trans(p, p.push(c), n);
    }
}

/// All names of the list that start with the literal prefix, in order.
pub fn filter_names(names: &Vec<String>, prefix: &str) -> (r: Vec<String>)
    ensures
        r.deep_view() == spec_filter(names.deep_view(), prefix@),
{
    let ghost all = names.deep_view();
    let mut r: Vec<String> = Vec::new();
    let mut i: usize = 0;
    proof {
        assert(r.deep_view() =~= spec_filter(all.take(0), prefix@));
    }
    while i < names.len()
        invariant
            i <= all.len(),
            all == names.deep_view(),
            all.len() == names@.len(),
            r.deep_view() == spec_filter(all.take(i as int), prefix@),
        decreases all.len() - i,
    {
        let ghost pre = r;
        proof {
            assert(all.take(i + 1).drop_last() =~= all.take(i as int));
            assert(all.take(i + 1).last() == all[i as int]);
        }
        if str_is_prefix(prefix, names[i].as_str()) {
            let s = names[i].clone();
            let ghost sg = s;
            r.push(s);
            proof {
                lemma_deep_view_push(pre, r, sg);
            }
        }
        i = i + 1;
    }
    proof {
        assert(all.take(all.len() as int) =~= all);
    }
    r
}

} // verus!
