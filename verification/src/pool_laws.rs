//! What holds of the pool over several calls.

use crate::error::ConnectError;
use crate::pool::{
    all_succeeded, connect_all, connect_result, connected, created, listed_names, missing_names,
    next_missing,
};
use vstd::prelude::*;

verus! {

/// Connecting is idempotent: once an attempt for a target has succeeded, the
/// target needs no transport again, and a second attempt is a success that
/// leaves the pool as it is, whatever it carries.
pub proof fn lemma_connect_is_idempotent<C>(
    cache: Map<Seq<char>, C>,
    name: Seq<char>,
    first: Result<C, ConnectError>,
    second: Result<C, ConnectError>,
)
    requires
        connect_result(cache, name, first) is Ok,
    ensures
        connected(cache, name, first).contains_key(name),
        connect_result(connected(cache, name, first), name, second) == Ok::<(), ConnectError>(()),
        connected(connected(cache, name, first), name, second) == connected(cache, name, first),
{
}

/// A failed attempt leaves the pool as it was, and the target still to be
/// connected.
pub proof fn lemma_failed_connect_changes_nothing<C>(
    cache: Map<Seq<char>, C>,
    name: Seq<char>,
    outcome: Result<C, ConnectError>,
)
    requires
        connect_result(cache, name, outcome) is Err,
    ensures
        connected(cache, name, outcome) == cache,
        !cache.contains_key(name),
{
}

/// A target that was removed is not found again without a new connection:
/// the pool no longer holds its name, a lookup that the store does not
/// answer changes nothing, and one that connects holds the new connection.
pub proof fn lemma_removed_is_forgotten<C>(cache: Map<Seq<char>, C>, name: Seq<char>, fresh: C)
    ensures
        !cache.remove(name).contains_key(name),
        created(cache.remove(name), name, None) == cache.remove(name),
        created(cache.remove(name), name, Some(Ok(fresh))) == cache.remove(name).insert(
            name,
            fresh,
        ),
        !cache.contains_key(name) ==> cache.remove(name) == cache,
{
    if !cache.contains_key(name) {
        assert(cache.remove(name) =~= cache);
    }
}

/// Attempts never take a connection out of the pool, nor change one.
pub proof fn lemma_connect_all_keeps<C>(
    cache: Map<Seq<char>, C>,
    names: Seq<Seq<char>>,
    outcomes: Seq<Result<C, ConnectError>>,
)
    ensures
        forall|name: Seq<char>| #[trigger]
            cache.contains_key(name) ==> connect_all(cache, names, outcomes).0.contains_key(name)
                && connect_all(cache, names, outcomes).0[name] == cache[name],
    decreases names.len(),
{
    if names.len() == 0 || outcomes.len() == 0 {
    } else if connect_result(cache, names[0], outcomes[0]) is Ok {
        let next = connected(cache, names[0], outcomes[0]);
        lemma_connect_all_keeps(next, names.skip(1), outcomes.skip(1));
        assert forall|name: Seq<char>| #[trigger] cache.contains_key(name) implies connect_all(
            cache,
            names,
            outcomes,
        ).0.contains_key(name) && connect_all(cache, names, outcomes).0[name] == cache[name] by {
            assert(next.contains_key(name) && next[name] == cache[name]);
        }
    }
}

/// Where every attempt succeeds, every name ends up connected.
pub proof fn lemma_connect_all_succeeds<C>(
    cache: Map<Seq<char>, C>,
    names: Seq<Seq<char>>,
    outcomes: Seq<Result<C, ConnectError>>,
)
    requires
        names.len() <= outcomes.len(),
        forall|i: int| 0 <= i < names.len() ==> (#[trigger] outcomes[i]) is Ok,
    ensures
        connect_all(cache, names, outcomes).1 is None,
        forall|i: int|
            0 <= i < names.len() ==> connect_all(cache, names, outcomes).0.contains_key(
                #[trigger] names[i],
            ),
    decreases names.len(),
{
    if names.len() > 0 {
        let next = connected(cache, names[0], outcomes[0]);
        let rest = names.skip(1);
        let left = outcomes.skip(1);
        assert(outcomes[0] is Ok);
        assert forall|i: int| 0 <= i < rest.len() implies (#[trigger] left[i]) is Ok by {
            assert(left[i] == outcomes[i + 1]);
        }
        lemma_connect_all_succeeds(next, rest, left);
        lemma_connect_all_keeps(next, rest, left);
        assert forall|i: int| 0 <= i < names.len() implies connect_all(
            cache,
            names,
            outcomes,
        ).0.contains_key(#[trigger] names[i]) by {
            if i > 0 {
                assert(rest[i - 1] == names[i]);
            } else {
                assert(next.contains_key(names[0]));
            }
        }
    }
}

/// A sequence whose elements all pass a filter passes it whole.
proof fn lemma_filter_keeps_all<A>(s: Seq<A>, pred: spec_fn(A) -> bool)
    requires
        forall|i: int| 0 <= i < s.len() ==> pred(#[trigger] s[i]),
    ensures
        s.filter(pred) == s,
    decreases s.len(),
{
    if s.len() == 0 {
        assert(s.filter(pred) =~= s) by {
            s.lemma_filter_len(pred);
        }
    } else {
        let front = s.drop_last();
        lemma_filter_keeps_all(front, pred);
        front.lemma_filter_push(s.last(), pred);
        assert(front.push(s.last()) =~= s);
    }
}

/// A list is complete once all attempts succeed: where each missing target
/// of a snapshot has an attempt and every attempt succeeded, no failure is
/// reported and every target of the snapshot is listed, once for each time
/// the snapshot names it.
pub proof fn lemma_list_is_complete<C>(
    cache: Map<Seq<char>, C>,
    names: Seq<Seq<char>>,
    outcomes: Seq<Result<C, ConnectError>>,
)
    requires
        outcomes.len() == missing_names(cache, names).len(),
        forall|i: int| 0 <= i < outcomes.len() ==> (#[trigger] outcomes[i]) is Ok,
    ensures
        connect_all(cache, missing_names(cache, names), outcomes).1 is None,
        listed_names(connect_all(cache, missing_names(cache, names), outcomes).0, names) == names,
{
    let absent = |name: Seq<char>| !cache.contains_key(name);
    let missing = missing_names(cache, names);
    let after = connect_all(cache, missing, outcomes).0;
    let kept = |name: Seq<char>| after.contains_key(name);
    lemma_connect_all_succeeds(cache, missing, outcomes);
    lemma_connect_all_keeps(cache, missing, outcomes);
    assert forall|i: int| 0 <= i < names.len() implies kept(#[trigger] names[i]) by {
        if !cache.contains_key(names[i]) {
            names.lemma_filter_contains(absent, i);
            let j = choose|j: int| 0 <= j < missing.len() && missing[j] == names[i];
            assert(after.contains_key(missing[j]));
        }
    }
    lemma_filter_keeps_all(names, kept);
}

/// The attempts up to the first failure are kept, and that failure is what
/// is reported.
pub proof fn lemma_connect_all_fails_fast<C>(
    cache: Map<Seq<char>, C>,
    names: Seq<Seq<char>>,
    outcomes: Seq<Result<C, ConnectError>>,
    k: int,
)
    requires
        names.no_duplicates(),
        forall|i: int| 0 <= i < names.len() ==> !cache.contains_key(#[trigger] names[i]),
        0 <= k < names.len(),
        k < outcomes.len(),
        forall|j: int| 0 <= j < k ==> (#[trigger] outcomes[j]) is Ok,
        outcomes[k] is Err,
    ensures
        connect_all(cache, names, outcomes).1 == Some(outcomes[k]->Err_0),
        forall|j: int|
            0 <= j < k ==> connect_all(cache, names, outcomes).0.contains_key(#[trigger] names[j])
                && connect_all(cache, names, outcomes).0[names[j]] == outcomes[j]->Ok_0,
        forall|j: int|
            k <= j < names.len() ==> !connect_all(cache, names, outcomes).0.contains_key(
                #[trigger] names[j],
            ),
    decreases k,
{
    if k > 0 {
        assert(outcomes[0] is Ok);
        let next = connected(cache, names[0], outcomes[0]);
        let rest = names.skip(1);
        let left = outcomes.skip(1);
        assert forall|i: int| 0 <= i < rest.len() implies !next.contains_key(
            #[trigger] rest[i],
        ) by {
            assert(rest[i] == names[i + 1]);
        }
        assert forall|j: int| 0 <= j < k - 1 implies (#[trigger] left[j]) is Ok by {
            assert(left[j] == outcomes[j + 1]);
        }
        assert(left[k - 1] == outcomes[k]);
        lemma_connect_all_fails_fast(next, rest, left, k - 1);
        lemma_connect_all_keeps(next, rest, left);
        let after = connect_all(cache, names, outcomes).0;
        assert forall|j: int| 0 <= j < k implies after.contains_key(#[trigger] names[j])
            && after[names[j]] == outcomes[j]->Ok_0 by {
            if j > 0 {
                assert(rest[j - 1] == names[j]);
                assert(left[j - 1] == outcomes[j]);
            } else {
                assert(next.contains_key(names[0]) && next[names[0]] == outcomes[0]->Ok_0);
            }
        }
        assert forall|j: int| k <= j < names.len() implies !after.contains_key(
            #[trigger] names[j],
        ) by {
            assert(rest[j - 1] == names[j]);
        }
    }
}

/// A filter leaves a sequence without duplicates without duplicates.
proof fn lemma_filter_no_duplicates<A>(s: Seq<A>, pred: spec_fn(A) -> bool)
    requires
        s.no_duplicates(),
    ensures
        s.filter(pred).no_duplicates(),
    decreases s.len(),
{
    if s.len() == 0 {
        s.lemma_filter_len(pred);
    } else {
        let front = s.drop_last();
        lemma_filter_no_duplicates(front, pred);
        front.lemma_filter_push(s.last(), pred);
        assert(front.push(s.last()) =~= s);
        if pred(s.last()) {
            let kept = front.filter(pred);
            assert forall|i: int| 0 <= i < kept.len() implies kept[i] != s.last() by {
                front.lemma_filter_contains_rev(pred, kept[i]);
                assert(front.contains(kept[i]));
                let j = choose|j: int| 0 <= j < front.len() && front[j] == kept[i];
                assert(s[j] == front[j]);
            }
        }
    }
}

/// A list fails fast: where the targets of a snapshot bear distinct names and
/// the attempt for one missing target is the first to fail, that failure is
/// reported, the targets attempted before it are connected nonetheless, and
/// no target after it is.
pub proof fn lemma_list_fails_fast<C>(
    cache: Map<Seq<char>, C>,
    names: Seq<Seq<char>>,
    outcomes: Seq<Result<C, ConnectError>>,
    k: int,
)
    requires
        names.no_duplicates(),
        0 <= k < missing_names(cache, names).len(),
        k < outcomes.len(),
        forall|j: int| 0 <= j < k ==> (#[trigger] outcomes[j]) is Ok,
        outcomes[k] is Err,
    ensures
        connect_all(cache, missing_names(cache, names), outcomes).1 == Some(outcomes[k]->Err_0),
        forall|j: int|
            0 <= j < k ==> connect_all(
                cache,
                missing_names(cache, names),
                outcomes,
            ).0.contains_key(#[trigger] missing_names(cache, names)[j]),
        forall|j: int|
            k <= j < missing_names(cache, names).len() ==> !connect_all(
                cache,
                missing_names(cache, names),
                outcomes,
            ).0.contains_key(#[trigger] missing_names(cache, names)[j]),
{
    let absent = |name: Seq<char>| !cache.contains_key(name);
    let missing = missing_names(cache, names);
    lemma_filter_no_duplicates(names, absent);
    assert forall|i: int| 0 <= i < missing.len() implies !cache.contains_key(
        #[trigger] missing[i],
    ) by {
        names.lemma_filter_pred(absent, i);
    }
    lemma_connect_all_fails_fast(cache, missing, outcomes, k);
}

/// Attempts that were made one after the other, each where it was the next,
/// until none was left, are no more than the missing targets and end in one
/// of two ways: every missing target was attempted and all succeeded, or the
/// last attempt is the only one that failed. No target is attempted after a
/// failure.
pub proof fn lemma_attempts_end<C>(missing: nat, outcomes: Seq<Result<C, ConnectError>>)
    requires
        next_missing(missing, outcomes) is None,
        forall|n: int|
            0 <= n < outcomes.len() ==> next_missing(missing, #[trigger] outcomes.take(n)) == Some(
                n as usize,
            ),
    ensures
        outcomes.len() <= missing,
        all_succeeded(outcomes) ==> outcomes.len() == missing,
        !all_succeeded(outcomes) ==> outcomes.len() > 0 && outcomes.last() is Err && all_succeeded(
            outcomes.drop_last(),
        ),
{
    if outcomes.len() > 0 {
        let before = outcomes.take(outcomes.len() - 1);
        assert(next_missing(missing, before) == Some((outcomes.len() - 1) as usize));
        assert(before =~= outcomes.drop_last());
        assert(all_succeeded(before));
        if outcomes.last() is Ok {
            assert forall|i: int| 0 <= i < outcomes.len() implies (
            #[trigger] outcomes[i]) is Ok by {
                if i < outcomes.len() - 1 {
                    assert(before[i] == outcomes[i]);
                }
            }
        }
    }
}

} // verus!
