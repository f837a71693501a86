//! Decoding the raw items of a response into typed records.

use crate::error::Error;
use crate::json::json_array;
use serde_json::Value;
use vstd::prelude::*;

verus! {

/// Where the first failed element of a run of results stands; the length of
/// the run where none failed.
pub open spec fn first_failure<T>(results: Seq<Result<T, Error>>) -> int
    decreases results.len(),
{
    if results.len() == 0 {
        0
    } else if results[0] is Err {
        0
    } else {
        1 + first_failure(results.drop_first())
    }
}

/// What a run of results hands on: every element up to the first failed one,
/// and that one with them.
pub open spec fn up_to_failure<T>(results: Seq<Result<T, Error>>) -> Seq<Result<T, Error>> {
    if first_failure(results) < results.len() {
        results.take(first_failure(results) + 1)
    } else {
        results
    }
}

/// The records inside a run of results, where each of them is `Ok`.
pub open spec fn records_of<T>(results: Seq<Result<T, Error>>) -> Seq<T> {
    Seq::new(results.len(), |i: int| results[i]->Ok_0)
}

/// The first failure stands inside the run or at its end, nothing before it
/// failed, and what stands there did.
pub proof fn lemma_first_failure<T>(results: Seq<Result<T, Error>>)
    ensures
        0 <= first_failure(results) <= results.len(),
        forall|i: int| 0 <= i < first_failure(results) ==> (#[trigger] results[i]) is Ok,
        first_failure(results) < results.len() ==> results[first_failure(results)] is Err,
    decreases results.len(),
{
    if results.len() > 0 && results[0] is Ok {
        let rest = results.drop_first();
        lemma_first_failure(rest);
        assert forall|i: int| 0 <= i < first_failure(results) implies (#[trigger] results[i])
            is Ok by {
            if i > 0 {
                assert(results[i] == rest[i - 1]);
            }
        }
    }
}

/// A place before which nothing failed, and which is the end of the run or
/// holds a failure, is where the first failure stands.
pub proof fn lemma_first_failure_is<T>(results: Seq<Result<T, Error>>, k: int)
    requires
        0 <= k <= results.len(),
        forall|i: int| 0 <= i < k ==> (#[trigger] results[i]) is Ok,
        k < results.len() ==> results[k] is Err,
    ensures
        first_failure(results) == k,
{
    lemma_first_failure(results);
    let f = first_failure(results);
    if f < k {
        assert(results[f] is Ok);
    } else if k < f {
        assert(results[k] is Ok);
    }
}

/// Whether `out` is what decoding `items` one by one, in order, up to the
/// first failure can give: each element is a result of the decoder on the
/// item in its place, only the last may be a failure, and items are left
/// out only behind a failure.
pub open spec fn decoded_from<R, T, F: Fn(&R) -> Result<T, Error>>(
    decode: F,
    items: Seq<R>,
    out: Seq<Result<T, Error>>,
) -> bool {
    &&& out.len() <= items.len()
    &&& forall|i: int|
        0 <= i < out.len() ==> call_ensures(decode, (&items[i],), #[trigger] out[i])
    &&& first_failure(out) >= out.len() - 1
    &&& out.len() < items.len() ==> first_failure(out) == out.len() - 1
}

/// Decodes raw items one by one, in order, and stops behind the first that
/// the decoder refuses.
pub fn decode_items<R, T, F: Fn(&R) -> Result<T, Error>>(items: &Vec<R>, decode: &F) -> (out: Vec<
    Result<T, Error>,
>)
    requires
        forall|i: int| 0 <= i < items@.len() ==> call_requires(*decode, (&#[trigger] items@[i],)),
    ensures
        decoded_from(*decode, items@, out@),
{
    let mut out: Vec<Result<T, Error>> = Vec::new();
    let mut i: usize = 0;
    let mut failed = false;
    while i < items.len() && !failed
        invariant
            i <= items@.len(),
            out@.len() == i,
            forall|j: int| 0 <= j < items@.len() ==> call_requires(*decode, (&#[trigger] items@[j],)),
            forall|j: int| 0 <= j < i ==> call_ensures(*decode, (&items@[j],), #[trigger] out@[j]),
            forall|j: int| 0 <= j < i - 1 ==> (#[trigger] out@[j]) is Ok,
            failed <==> (i > 0 && out@[i - 1] is Err),
        decreases items@.len() - i + (if failed { 0int } else { 1int }),
    {
        let result = decode(&items[i]);
        failed = result.is_err();
        out.push(result);
        i += 1;
    }
    proof {
        if failed {
            lemma_first_failure_is(out@, i - 1);
        } else {
            lemma_first_failure_is(out@, i as int);
        }
    }
    out
}

/// Whether `r` is what a run of results comes to as a whole: its records,
/// where none failed, and else its first failure.
pub open spec fn gathered<T>(results: Seq<Result<T, Error>>, r: Result<Vec<T>, Error>) -> bool {
    match r {
        Ok(records) => first_failure(results) == results.len() && records@ == records_of(results),
        Err(e) => first_failure(results) < results.len() && results[first_failure(results)]
            == Err::<T, Error>(e),
    }
}

/// Turns a run of results into its records, or into its first failure.
pub fn gather<T>(results: Vec<Result<T, Error>>) -> (r: Result<Vec<T>, Error>)
    ensures
        gathered(results@, r),
{
    let ghost all = results@;
    let mut records: Vec<T> = Vec::new();
    for result in it: results
        invariant
            it.seq() == all,
            records@.len() == it.index(),
            forall|j: int| 0 <= j < it.index() ==> (#[trigger] all[j]) == Ok::<T, Error>(records@[j]),
    {
        match result {
            Ok(record) => records.push(record),
            Err(e) => {
                proof {
                    lemma_first_failure_is(all, it.index() as int);
                }
                return Err(e);
            },
        }
    }
    proof {
        lemma_first_failure_is(all, all.len() as int);
        assert(records@ =~= records_of(all));
    }
    Ok(records)
}

/// Reads the body of a list response: a JSON array, each element of which
/// is one record. A body of any other kind is a malformed envelope; an
/// element that the decoder refuses fails the whole list with the decoder's
/// error, and the elements behind it are not decoded.
pub fn read_list<T, F: Fn(&Value) -> Result<T, Error>>(body: &Value, decode: &F) -> (r: Result<
    Vec<T>,
    Error,
>)
    requires
        forall|v: &Value| call_requires(*decode, (v,)),
    ensures
        json_array(*body) is None ==> r == Err::<Vec<T>, Error>(Error::MalformedEnvelope),
        json_array(*body) is Some ==> exists|results: Seq<Result<T, Error>>|
            decoded_from(*decode, json_array(*body)->0, results) && gathered(results, r),
{
    match body.as_array() {
        None => Err(Error::MalformedEnvelope),
        Some(items) => {
            let results = decode_items(items, decode);
            let ghost decoded = results@;
            let r = gather(results);
            assert(decoded_from(*decode, json_array(*body)->0, decoded) && gathered(decoded, r));
            r
        },
    }
}

} // verus!
