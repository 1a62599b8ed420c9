//! Facts about finite sequences that the proofs of this crate share.

use vstd::prelude::*;

verus! {

/// The first element that passes the test.
pub open spec fn first_match<A>(s: Seq<A>, test: spec_fn(A) -> bool) -> Option<A>
    decreases s.len(),
{
    if s.len() == 0 {
        None
    } else if test(s.first()) {
        Some(s.first())
    } else {
        first_match(s.drop_first(), test)
    }
}

/// Filtering a prefix that is one element longer.
pub proof fn filter_extends<A>(s: Seq<A>, keep: spec_fn(A) -> bool, n: int)
    requires
        0 <= n < s.len(),
    ensures
        s.take(n + 1).filter(keep) == if keep(s[n]) {
            s.take(n).filter(keep).push(s[n])
        } else {
            s.take(n).filter(keep)
        },
{
    reveal(Seq::filter);
    assert(s.take(n + 1).drop_last() =~= s.take(n));
    assert(s.take(n + 1).last() == s[n]);
}

/// What a filter keeps is what was there and passes the test.
pub proof fn filter_members<A>(s: Seq<A>, keep: spec_fn(A) -> bool)
    ensures
        forall|a: A| #[trigger] s.filter(keep).contains(a) <==> s.contains(a) && keep(a),
    decreases s.len(),
{
    reveal(Seq::filter);
    if s.len() > 0 {
        let front = s.drop_last();
        filter_members(front, keep);
        assert forall|a: A| #[trigger] s.filter(keep).contains(a) <==> s.contains(a) && keep(a) by {
            let kept = front.filter(keep);
            if s.contains(a) && keep(a) {
                if front.contains(a) {
                    let i = choose|i: int| 0 <= i < kept.len() && kept[i] == a;
                    assert(kept.contains(a));
                    assert(s.filter(keep)[i] == a);
                } else {
                    let i = choose|i: int| 0 <= i < s.len() && s[i] == a;
                    assert(i == s.len() - 1) by {
                        if i < s.len() - 1 {
                            assert(front[i] == a);
                        }
                    }
                    assert(s.filter(keep).last() == a);
                }
            }
            if s.filter(keep).contains(a) {
                let i = choose|i: int| 0 <= i < s.filter(keep).len() && s.filter(keep)[i] == a;
                if i < kept.len() {
                    assert(kept[i] == a);
                    assert(kept.contains(a));
                    let j = choose|j: int| 0 <= j < front.len() && front[j] == a;
                    assert(s[j] == a);
                } else {
                    assert(s.last() == a);
                }
            }
        }
    }
}

/// Filtering a sequence that is one element longer.
pub proof fn filter_push<A>(s: Seq<A>, a: A, keep: spec_fn(A) -> bool)
    ensures
        s.push(a).filter(keep) == if keep(a) {
            s.filter(keep).push(a)
        } else {
            s.filter(keep)
        },
{
    reveal(Seq::filter);
    assert(s.push(a).drop_last() =~= s);
}

/// A filter makes no sequence longer.
pub proof fn filter_len<A>(s: Seq<A>, keep: spec_fn(A) -> bool)
    ensures
        s.filter(keep).len() <= s.len(),
    decreases s.len(),
{
    reveal(Seq::filter);
    if s.len() > 0 {
        filter_len(s.drop_last(), keep);
    }
}

/// A second filter that asks for more makes the first one superfluous.
pub proof fn filter_twice<A>(s: Seq<A>, weak: spec_fn(A) -> bool, strong: spec_fn(A) -> bool)
    requires
        forall|a: A| #[trigger] strong(a) ==> weak(a),
    ensures
        s.filter(weak).filter(strong) == s.filter(strong),
    decreases s.len(),
{
    reveal(Seq::filter);
    if s.len() > 0 {
        filter_twice(s.drop_last(), weak, strong);
        filter_push(s.drop_last().filter(weak), s.last(), strong);
    }
}

/// Putting an element that passes the filter wherever the old one did keeps the count.
pub proof fn filter_update_len<A>(s: Seq<A>, i: int, a: A, keep: spec_fn(A) -> bool)
    requires
        0 <= i < s.len(),
        keep(s[i]) ==> keep(a),
    ensures
        s.update(i, a).filter(keep).len() >= s.filter(keep).len(),
    decreases s.len(),
{
    reveal(Seq::filter);
    if i == s.len() - 1 {
        assert(s.update(i, a).drop_last() =~= s.drop_last());
    } else {
        assert(s.update(i, a).drop_last() =~= s.drop_last().update(i, a));
        filter_update_len(s.drop_last(), i, a, keep);
    }
}

/// The first match is an element that passes the test and that no element before it
/// passes; there is none only where no element passes.
pub proof fn first_match_is_first<A>(s: Seq<A>, test: spec_fn(A) -> bool)
    ensures
        forall|i: int|
            0 <= i < s.len() && test(#[trigger] s[i]) && (forall|k: int|
                0 <= k < i ==> !test(#[trigger] s[k])) ==> first_match(s, test) == Some(s[i]),
        first_match(s, test) is None <==> forall|i: int| 0 <= i < s.len() ==> !test(#[trigger] s[i]),
        first_match(s, test) matches Some(found) ==> test(found) && s.contains(found),
    decreases s.len(),
{
    if s.len() > 0 {
        let rest = s.drop_first();
        first_match_is_first(rest, test);
        assert(forall|k: int| 0 <= k < rest.len() ==> #[trigger] rest[k] == s[k + 1]);
        assert(s[0] == s.first());
        assert forall|i: int|
            0 <= i < s.len() && test(#[trigger] s[i]) && (forall|k: int|
                0 <= k < i ==> !test(#[trigger] s[k])) implies first_match(s, test) == Some(
            s[i],
        ) by {
            if i > 0 {
                assert(!test(s[0]));
                assert(rest[i - 1] == s[i]);
                assert(forall|k: int| 0 <= k < i - 1 ==> !test(#[trigger] rest[k]));
            }
        }
        if first_match(s, test) is None {
            assert forall|i: int| 0 <= i < s.len() implies !test(#[trigger] s[i]) by {
                if i > 0 {
                    assert(!test(rest[i - 1]));
                }
            }
        }
        if forall|i: int| 0 <= i < s.len() ==> !test(#[trigger] s[i]) {
            assert(!test(s[0]));
            assert forall|k: int| 0 <= k < rest.len() implies !test(#[trigger] rest[k]) by {
                assert(!test(s[k + 1]));
            }
        }
        if first_match(s, test) is Some && !test(s.first()) {
            let found = first_match(rest, test)->0;
            let k = choose|k: int| 0 <= k < rest.len() && rest[k] == found;
            assert(s[k + 1] == found);
        }
    }
}

} // verus!
