use vstd::prelude::*;

verus! {

/// Result of a single gas benchmark run.
#[derive(Clone, Debug)]
pub struct BenchmarkResult {
    pub function_name: String,
    pub iteration: u32,
    pub gas_used: u64,
    pub success: bool,
    pub error: Option<String>,
}

/// The gas figures of the successful runs of `name`, in the order the runs were recorded.
pub open spec fn gas_samples(results: Seq<BenchmarkResult>, name: Seq<char>) -> Seq<u64>
    decreases results.len(),
{
    if results.len() == 0 {
        Seq::empty()
    } else {
        let earlier = gas_samples(results.drop_last(), name);
        let last = results.last();
        if last.success && last.function_name@ == name {
            earlier.push(last.gas_used)
        } else {
            earlier
        }
    }
}

/// Extending the recorded runs by one run adds that run's gas exactly when it succeeded
/// under the given name.
pub proof fn lemma_gas_samples_step(results: Seq<BenchmarkResult>, i: int, name: Seq<char>)
    requires
        0 <= i < results.len(),
    ensures
        gas_samples(results.take(i + 1), name) == (if results[i].success
            && results[i].function_name@ == name {
            gas_samples(results.take(i), name).push(results[i].gas_used)
        } else {
            gas_samples(results.take(i), name)
        }),
{
    assert(results.take(i + 1).drop_last() =~= results.take(i));
}

impl BenchmarkResult {
    /// The record of one run of `function_name`: the gas estimate when there is
    /// one, or else no gas and the error message.
    pub fn from_outcome(function_name: String, iteration: u32, outcome: Result<u64, String>) -> (r:
        BenchmarkResult)
        ensures
            r.function_name == function_name,
            r.iteration == iteration,
            match outcome {
                Ok(gas) => r.success && r.gas_used == gas && r.error is None,
                Err(message) => !r.success && r.gas_used == 0 && r.error == Some(message),
            },
    {
        match outcome {
            Ok(gas) => BenchmarkResult { function_name, iteration, gas_used: gas, success: true, error: None },
            Err(message) => BenchmarkResult {
                function_name,
                iteration,
                gas_used: 0,
                success: false,
                error: Some(message),
            },
        }
    }
}

/// The gas samples of two lists of runs recorded one after the other are those
/// of the first list followed by those of the second.
pub proof fn lemma_gas_samples_concat(a: Seq<BenchmarkResult>, b: Seq<BenchmarkResult>, name: Seq<char>)
    ensures
        gas_samples(a + b, name) == gas_samples(a, name) + gas_samples(b, name),
    decreases b.len(),
{
    if b.len() == 0 {
        assert(a + b =~= a);
        assert(gas_samples(a, name) + gas_samples(b, name) =~= gas_samples(a, name));
    } else {
        lemma_gas_samples_concat(a, b.drop_last(), name);
        assert((a + b).drop_last() =~= a + b.drop_last());
        assert((a + b).last() == b.last());
        if b.last().success && b.last().function_name@ == name {
            assert(gas_samples(a, name) + gas_samples(b, name) =~= (gas_samples(a, name)
                + gas_samples(b.drop_last(), name)).push(b.last().gas_used));
        }
    }
}

/// A failed run contributes no gas sample: recording it changes the samples of no
/// function.
pub proof fn lemma_failed_run_ignored(results: Seq<BenchmarkResult>, failed: BenchmarkResult, name: Seq<char>)
    requires
        !failed.success,
    ensures
        gas_samples(results.push(failed), name) == gas_samples(results, name),
{
    assert(results.push(failed).drop_last() =~= results);
}

/// Every function has the same gas samples, up to their order, in `a` as in `b`.
pub open spec fn same_samples(a: Seq<BenchmarkResult>, b: Seq<BenchmarkResult>) -> bool {
    forall|name: Seq<char>|
        #[trigger] gas_samples(a, name).to_multiset() == gas_samples(b, name).to_multiset()
}

/// A failed run recorded at any position contributes no gas sample: the samples
/// of every function stay as they were.
pub proof fn lemma_failed_run_inserted(
    results: Seq<BenchmarkResult>,
    pos: int,
    failed: BenchmarkResult,
)
    requires
        !failed.success,
        0 <= pos <= results.len(),
    ensures
        forall|name: Seq<char>|
            #[trigger] gas_samples(results.insert(pos, failed), name) == gas_samples(results, name),
        same_samples(results, results.insert(pos, failed)),
{
    let front = results.take(pos);
    let back = results.skip(pos);
    assert(results.insert(pos, failed) =~= front.push(failed) + back);
    assert(results =~= front + back);
    assert forall|name: Seq<char>| #[trigger] gas_samples(results.insert(pos, failed), name)
        == gas_samples(results, name) by {
        lemma_gas_samples_concat(front.push(failed), back, name);
        lemma_gas_samples_concat(front, back, name);
        lemma_failed_run_ignored(front, failed, name);
    }
}

/// Recording the same runs in another order leaves every function the same gas
/// samples, up to their order.
pub proof fn lemma_permuted_runs(a: Seq<BenchmarkResult>, b: Seq<BenchmarkResult>)
    requires
        a.to_multiset() == b.to_multiset(),
    ensures
        same_samples(a, b),
{
    assert forall|name: Seq<char>| #[trigger] gas_samples(a, name).to_multiset() == gas_samples(
        b,
        name,
    ).to_multiset() by {
        lemma_permuted_samples(a, b, name);
    }
}

/// The samples of one function under a reordering of the runs.
proof fn lemma_permuted_samples(a: Seq<BenchmarkResult>, b: Seq<BenchmarkResult>, name: Seq<char>)
    requires
        a.to_multiset() == b.to_multiset(),
    ensures
        gas_samples(a, name).to_multiset() == gas_samples(b, name).to_multiset(),
    decreases a.len(),
{
    broadcast use vstd::seq_lib::group_to_multiset_ensures;
    broadcast use vstd::multiset::group_multiset_axioms;

    if a.len() == 0 {
        assert(b.to_multiset().len() == 0);
        assert(b =~= Seq::<BenchmarkResult>::empty());
        assert(a =~= Seq::<BenchmarkResult>::empty());
    } else {
        let x = a.last();
        let rest_a = a.drop_last();
        assert(rest_a.push(x) =~= a);
        assert(a.to_multiset() == rest_a.to_multiset().insert(x));
        assert(b.to_multiset().count(x) > 0);
        assert(b.contains(x));
        let k = choose|k: int| 0 <= k < b.len() && b[k] == x;
        let rest_b = b.remove(k);
        assert(rest_b.to_multiset() == b.to_multiset().remove(x));
        assert(rest_a.to_multiset() =~= rest_b.to_multiset());
        lemma_permuted_samples(rest_a, rest_b, name);
        let one = seq![x];
        let front = b.take(k);
        let back = b.skip(k + 1);
        assert(b =~= front + one + back);
        assert(rest_b =~= front + back);
        assert(a =~= rest_a + one);
        lemma_gas_samples_concat(rest_a, one, name);
        lemma_gas_samples_concat(front + one, back, name);
        lemma_gas_samples_concat(front, one, name);
        lemma_gas_samples_concat(front, back, name);
        let (gf, go, gb, gr) = (
            gas_samples(front, name),
            gas_samples(one, name),
            gas_samples(back, name),
            gas_samples(rest_a, name),
        );
        vstd::seq_lib::lemma_multiset_commutative(gr, go);
        vstd::seq_lib::lemma_multiset_commutative(gf + go, gb);
        vstd::seq_lib::lemma_multiset_commutative(gf, go);
        vstd::seq_lib::lemma_multiset_commutative(gf, gb);
        assert(gas_samples(a, name).to_multiset() =~= gas_samples(b, name).to_multiset());
    }
}

} // verus!
