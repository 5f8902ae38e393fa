use vstd::prelude::*;

verus! {

/// The outcome of a run of checks over the indices `k..n`: the error of the
/// first check that fails, or success when none does.
pub open spec fn first_failure<E>(k: int, n: int, check: spec_fn(int) -> Option<E>) -> Result<(), E>
    decreases n - k,
{
    if k >= n {
        Ok(())
    } else {
        match check(k) {
            Some(m) => Err(m),
            None => first_failure(k + 1, n, check),
        }
    }
}

/// The message held by an exec outcome, as a sequence of characters.
pub open spec fn outcome(r: Result<(), String>) -> Result<(), Seq<char>> {
    match r {
        Ok(()) => Ok(()),
        Err(m) => Err(m@),
    }
}

/// A run of checks from `k` gives what a run from `0` gives when every check
/// before `k` passes.
pub proof fn lemma_first_failure_skip<E>(k: int, n: int, check: spec_fn(int) -> Option<E>)
    requires
        0 <= k,
        forall|j: int| 0 <= j < k ==> #[trigger] check(j) is None,
    ensures
        first_failure(0, n, check) == first_failure(k, n, check),
    decreases k,
{
    if k > 0 {
        lemma_first_failure_skip(k - 1, n, check);
        if k - 1 < n {
            assert(check(k - 1) is None);
        }
    }
}

/// A run of checks succeeds exactly when every check in it passes, and fails
/// with the message of a failing check before which every check passes.
pub proof fn lemma_first_failure_meaning<E>(k: int, n: int, check: spec_fn(int) -> Option<E>)
    ensures
        first_failure(k, n, check) is Ok <==> forall|j: int| k <= j < n ==> #[trigger] check(j) is None,
        first_failure(k, n, check) matches Err(m) ==> exists|i: int|
            #![trigger check(i)]
            k <= i < n && check(i) == Some(m) && forall|j: int|
                k <= j < i ==> #[trigger] check(j) is None,
    decreases n - k,
{
    if k < n {
        lemma_first_failure_meaning(k + 1, n, check);
        if check(k) is None {
            if let Err(m) = first_failure(k, n, check) {
                let i = choose|i: int|
                    #![trigger check(i)]
                    k + 1 <= i < n && check(i) == Some(m) && forall|j: int|
                        k + 1 <= j < i ==> #[trigger] check(j) is None;
                assert(forall|j: int| k <= j < i ==> #[trigger] check(j) is None);
            }
        }
    }
}

} // verus!
