//! Facts about sequences that the stages share: reading a filtered or
//! collected sequence one element at a time.

use vstd::prelude::*;

verus! {

/// The successes of `rs` in order if all succeed, else the first failure.
pub open spec fn collect<T, E>(rs: Seq<Result<T, E>>) -> Result<Seq<T>, E>
    decreases rs.len(),
{
    if rs.len() == 0 {
        Ok(Seq::empty())
    } else {
        match collect(rs.drop_last()) {
            Err(e) => Err(e),
            Ok(ts) => match rs.last() {
                Ok(t) => Ok(ts.push(t)),
                Err(e) => Err(e),
            },
        }
    }
}

/// Collecting one element more keeps an earlier failure, and else goes by
/// that element.
pub proof fn lemma_collect_next<T, E>(rs: Seq<Result<T, E>>, k: int)
    requires
        0 <= k < rs.len(),
    ensures
        collect(rs.take(k + 1)) == (match collect(rs.take(k)) {
            Err(e) => Err(e),
            Ok(ts) => match rs[k] {
                Ok(t) => Ok(ts.push(t)),
                Err(e) => Err(e),
            },
        }),
{
    assert(rs.take(k + 1).drop_last() =~= rs.take(k));
    assert(rs.take(k + 1).last() == rs[k]);
}

/// A failure among the first `k` elements is the outcome of the whole.
pub proof fn lemma_collect_failure_stays<T, E>(rs: Seq<Result<T, E>>, k: int)
    requires
        0 <= k <= rs.len(),
        collect(rs.take(k)) is Err,
    ensures
        collect(rs) == collect(rs.take(k)),
    decreases rs.len() - k,
{
    if k == rs.len() {
        assert(rs.take(k) =~= rs);
    } else {
        lemma_collect_next(rs, k);
        lemma_collect_failure_stays(rs, k + 1);
    }
}

/// A failure of the whole is the failure of one of the elements.
pub proof fn lemma_collect_failure_is_one<T, E>(rs: Seq<Result<T, E>>) -> (i: int)
    requires
        collect(rs) is Err,
    ensures
        0 <= i < rs.len(),
        rs[i] == Err::<T, E>(collect(rs)->Err_0),
    decreases rs.len(),
{
    if collect(rs.drop_last()) is Err {
        let i = lemma_collect_failure_is_one(rs.drop_last());
        assert(rs.drop_last()[i] == rs[i]);
        i
    } else {
        rs.len() - 1
    }
}

/// Where every element succeeds, the collected sequence holds each success
/// at its element's position.
pub proof fn lemma_collect_all<T, E>(rs: Seq<Result<T, E>>)
    requires
        collect(rs) is Ok,
    ensures
        collect(rs)->Ok_0.len() == rs.len(),
        forall|i: int| 0 <= i < rs.len() ==> #[trigger] rs[i] == Ok::<T, E>(collect(rs)->Ok_0[i]),
    decreases rs.len(),
{
    if rs.len() > 0 {
        let front = rs.drop_last();
        lemma_collect_all(front);
        assert forall|i: int| 0 <= i < rs.len() implies #[trigger] rs[i] == Ok::<T, E>(
            collect(rs)->Ok_0[i],
        ) by {
            if i < front.len() {
                assert(front[i] == rs[i]);
            }
        }
    }
}

/// Filtering one element more appends that element if it passes.
pub proof fn lemma_filter_next<A>(s: Seq<A>, pred: spec_fn(A) -> bool, k: int)
    requires
        0 <= k < s.len(),
    ensures
        s.take(k + 1).filter(pred) == (if pred(s[k]) {
            s.take(k).filter(pred).push(s[k])
        } else {
            s.take(k).filter(pred)
        }),
{
    reveal(Seq::filter);
    assert(s.take(k + 1).drop_last() =~= s.take(k));
    assert(s.take(k + 1).last() == s[k]);
}

/// Nothing passes the filter exactly when no element passes.
pub proof fn lemma_filter_empty<A>(s: Seq<A>, pred: spec_fn(A) -> bool)
    ensures
        s.filter(pred).len() == 0 <==> (forall|i: int| 0 <= i < s.len() ==> !pred(#[trigger] s[i])),
    decreases s.len(),
{
    reveal(Seq::filter);
    if s.len() > 0 {
        lemma_filter_empty(s.drop_last(), pred);
        if s.filter(pred).len() == 0 {
            assert forall|i: int| 0 <= i < s.len() implies !pred(#[trigger] s[i]) by {
                if i < s.len() - 1 {
                    assert(s.drop_last()[i] == s[i]);
                }
            }
        } else if forall|i: int| 0 <= i < s.len() ==> !pred(#[trigger] s[i]) {
            assert forall|i: int| 0 <= i < s.drop_last().len() implies !pred(
                #[trigger] s.drop_last()[i],
            ) by {
                assert(s.drop_last()[i] == s[i]);
            }
            assert(!pred(s[s.len() - 1]));
        }
    }
}

} // verus!
