//! Gathering a list of results into one.

use vstd::prelude::*;

verus! {

/// The views of a list of values.
pub open spec fn views<T: View>(values: Seq<T>) -> Seq<T::V> {
    Seq::new(values.len(), |i: int| values[i]@)
}

/// A result with its value taken by the view.
pub open spec fn result_view<T: View, E>(result: Result<T, E>) -> Result<T::V, E> {
    match result {
        Ok(value) => Ok(value@),
        Err(e) => Err(e),
    }
}

/// A list in a result, its items taken by the view.
pub open spec fn list_view<T: View, E>(result: Result<Vec<T>, E>) -> Result<Seq<T::V>, E> {
    match result {
        Ok(values) => Ok(views(values@)),
        Err(e) => Err(e),
    }
}

/// A list of results, each with its value taken by the view.
pub open spec fn result_views<T: View, E>(results: Seq<Result<T, E>>) -> Seq<Result<T::V, E>> {
    Seq::new(results.len(), |i: int| result_view(results[i]))
}

/// The values of a list of results, or the error that comes first in it.
pub open spec fn collected<T, E>(results: Seq<Result<T, E>>) -> Result<Seq<T>, E>
    decreases results.len(),
{
    if results.len() == 0 {
        Ok(Seq::empty())
    } else {
        match collected(results.drop_last()) {
            Ok(values) => match results.last() {
                Ok(value) => Ok(values.push(value)),
                Err(e) => Err(e),
            },
            Err(e) => Err(e),
        }
    }
}

/// Unpacks a list of results into the list of their values, or into the error
/// that comes first.
pub fn collect_results<T, E>(results: Vec<Result<T, E>>) -> (gathered: Result<Vec<T>, E>)
    ensures
        match gathered {
            Ok(values) => collected(results@) == Ok::<Seq<T>, E>(values@),
            Err(e) => collected(results@) == Err::<Seq<T>, E>(e),
        },
{
    let ghost all = results@;
    let mut values: Vec<T> = Vec::new();
    for result in it: results.into_iter()
        invariant
            it.seq() == all,
            collected(all.take(it.index() as int)) == Ok::<Seq<T>, E>(values@),
    {
        proof {
            let n = it.index() as int;
            assert(all.take(n + 1).drop_last() =~= all.take(n));
            assert(all.take(n + 1).last() == result);
        }
        match result {
            Ok(value) => {
                values.push(value);
            },
            Err(e) => {
                proof {
                    prefix_error_is_the_error(all, it.index() as int + 1);
                }
                return Err(e);
            },
        }
    }
    assert(all.take(all.len() as int) =~= all);
    Ok(values)
}

/// An error met in a prefix of the list is the error of the whole list.
pub proof fn prefix_error_is_the_error<T, E>(results: Seq<Result<T, E>>, n: int)
    requires
        0 <= n <= results.len(),
        collected(results.take(n)) is Err,
    ensures
        collected(results) == collected(results.take(n)),
    decreases results.len() - n,
{
    if n == results.len() {
        assert(results.take(n) =~= results);
    } else {
        assert(results.take(n + 1).drop_last() =~= results.take(n));
        prefix_error_is_the_error(results, n + 1);
    }
}

/// Gathering succeeds exactly when every result does, and then keeps every
/// value in its place.
pub proof fn collected_is_ok_iff_all_are<T, E>(results: Seq<Result<T, E>>)
    ensures
        collected(results) is Ok <==> forall|i: int| 0 <= i < results.len() ==> #[trigger]
            results[i] is Ok,
        collected(results) matches Ok(values) ==> {
            &&& values.len() == results.len()
            &&& forall|i: int|
                0 <= i < results.len() ==> #[trigger] results[i] == Ok::<T, E>(values[i])
        },
    decreases results.len(),
{
    if results.len() > 0 {
        let rest = results.drop_last();
        collected_is_ok_iff_all_are(rest);
        assert(forall|i: int| 0 <= i < rest.len() ==> #[trigger] rest[i] == results[i]);
        if forall|i: int| 0 <= i < results.len() ==> #[trigger] results[i] is Ok {
            assert(forall|i: int| 0 <= i < rest.len() ==> #[trigger] rest[i] is Ok);
        }
        if collected(results) is Ok {
            let last = results.len() - 1;
            assert(results[last] == results.last());
            let values = collected(results)->Ok_0;
            assert forall|i: int| 0 <= i < results.len() implies #[trigger] results[i] == Ok::<
                T,
                E,
            >(values[i]) by {
                if i < last {
                    assert(rest[i] is Ok);
                }
            }
        }
    }
}

/// Where gathering fails, the error is that of the first result that is one.
pub proof fn collected_error_comes_first<T, E>(results: Seq<Result<T, E>>, n: int)
    requires
        0 <= n < results.len(),
        forall|i: int| 0 <= i < n ==> #[trigger] results[i] is Ok,
        results[n] is Err,
    ensures
        collected(results) == Err::<Seq<T>, E>(results[n]->Err_0),
{
    let upto = results.take(n + 1);
    assert(upto.drop_last() =~= results.take(n));
    collected_is_ok_iff_all_are(results.take(n));
    assert(forall|i: int| 0 <= i < n ==> results.take(n)[i] == #[trigger] results[i]);
    assert(forall|i: int| 0 <= i < n ==> #[trigger] results.take(n)[i] is Ok);
    assert(upto.last() == results[n]);
    prefix_error_is_the_error(results, n + 1);
}

/// Taking views before gathering or after it comes to the same.
pub proof fn collected_commutes_with_views<T: View, E>(results: Seq<Result<T, E>>)
    ensures
        collected(result_views(results)) == match collected(results) {
            Ok(values) => Ok(views(values)),
            Err(e) => Err(e),
        },
    decreases results.len(),
{
    let viewed = result_views(results);
    if results.len() == 0 {
        assert(views(Seq::<T>::empty()) =~= Seq::<T::V>::empty());
    } else {
        let rest = results.drop_last();
        collected_commutes_with_views(rest);
        assert(viewed.drop_last() =~= result_views(rest));
        assert(viewed.last() == result_view(results.last()));
        if let Ok(values) = collected(rest) {
            if let Ok(value) = results.last() {
                assert(views(values.push(value)) =~= views(values).push(value@));
            }
        }
    }
}

/// Gathering a list of two parts gathers the first, then the second.
pub proof fn collected_of_concatenation<T, E>(a: Seq<Result<T, E>>, b: Seq<Result<T, E>>)
    ensures
        collected(a + b) == match collected(a) {
            Ok(first) => match collected(b) {
                Ok(second) => Ok(first + second),
                Err(e) => Err(e),
            },
            Err(e) => Err(e),
        },
    decreases b.len(),
{
    if b.len() == 0 {
        assert(a + b =~= a);
        if let Ok(first) = collected(a) {
            assert(first + Seq::<T>::empty() =~= first);
        }
    } else {
        collected_of_concatenation(a, b.drop_last());
        assert((a + b).drop_last() =~= a + b.drop_last());
        assert((a + b).last() == b.last());
        if let Ok(first) = collected(a) {
            if let Ok(second) = collected(b.drop_last()) {
                if let Ok(value) = b.last() {
                    assert((first + second).push(value) =~= first + second.push(value));
                }
            }
        }
    }
}

/// Views are taken item by item: there are as many as items, each in the place of
/// its item.
pub proof fn views_keep_every_item<T: View>(values: Seq<T>)
    ensures
        views(values).len() == values.len(),
        forall|i: int| 0 <= i < values.len() ==> #[trigger] views(values)[i] == values[i]@,
{
}

/// Taking a result by the view keeps its error, or the view of its value.
pub proof fn results_keep_value_and_error<T: View, E>(result: Result<T, E>)
    ensures
        result matches Ok(value) ==> result_view(result) == Ok::<T::V, E>(value@),
        result matches Err(e) ==> result_view(result) == Err::<T::V, E>(e),
{
}

/// Taking a list in a result by the view keeps its error, or every item in its
/// place.
pub proof fn lists_keep_items_and_error<T: View, E>(result: Result<Vec<T>, E>)
    ensures
        result matches Ok(values) ==> list_view(result) matches Ok(seen) && seen.len()
            == values@.len() && forall|i: int|
            0 <= i < values@.len() ==> #[trigger] seen[i] == values@[i]@,
        result matches Err(e) ==> list_view(result) == Err::<Seq<T::V>, E>(e),
{
}

/// Taking a list of results by the view keeps each value and each error in its
/// place.
pub proof fn result_lists_keep_every_item<T: View, E>(results: Seq<Result<T, E>>)
    ensures
        result_views(results).len() == results.len(),
        forall|i: int|
            0 <= i < results.len() ==> match #[trigger] results[i] {
                Ok(value) => result_views(results)[i] == Ok::<T::V, E>(value@),
                Err(e) => result_views(results)[i] == Err::<T::V, E>(e),
            },
{
}

} // verus!
