use vstd::prelude::*;

use crate::results::{
    gas_samples, lemma_failed_run_inserted, lemma_gas_samples_step, lemma_permuted_runs,
    same_samples, BenchmarkResult,
};

verus! {

/// Aggregated gas figures of one function across its successful runs.
///
/// `gas_values` holds every successful run's gas, smallest first; the other
/// figures are read off it.
#[derive(Clone, Debug)]
pub struct FunctionStats {
    pub function_name: String,
    pub iterations: u32,
    pub min_gas: u64,
    pub max_gas: u64,
    pub median_gas: u64,
    pub total_gas: u128,
    pub gas_values: Vec<u64>,
}

/// `s` is in ascending order.
pub open spec fn is_sorted(s: Seq<u64>) -> bool {
    forall|i: int, j: int| 0 <= i <= j < s.len() ==> s[i] <= s[j]
}

/// Sum of the elements of `s`.
pub open spec fn seq_sum(s: Seq<u64>) -> int
    decreases s.len(),
{
    if s.len() == 0 {
        0
    } else {
        seq_sum(s.drop_last()) + s.last()
    }
}

/// A count reported as a `u32`: the count modulo 2^32.
pub open spec fn truncated_count(n: nat) -> u32 {
    (n % 0x1_0000_0000) as u32
}

impl FunctionStats {
    /// These figures describe the gas samples `samples`.
    pub open spec fn summarizes(&self, samples: Seq<u64>) -> bool {
        let v = self.gas_values@;
        &&& v.len() > 0
        &&& is_sorted(v)
        &&& v.to_multiset() == samples.to_multiset()
        &&& self.iterations == truncated_count(v.len())
        &&& self.min_gas == v[0]
        &&& self.max_gas == v.last()
        &&& self.median_gas == v[(self.iterations / 2) as int]
        &&& self.total_gas == seq_sum(v)
    }

    /// The exact average gas of `self` is at least that of `other`
    /// (total over number of samples, compared without rounding).
    pub open spec fn average_at_least(&self, other: &FunctionStats) -> bool {
        self.total_gas * other.gas_values@.len() >= other.total_gas * self.gas_values@.len()
    }
}

/// Whether some element of `names` reads `name`.
fn contains_name(names: &Vec<String>, name: &String) -> (found: bool)
    ensures
        found <==> exists|m: int| 0 <= m < names.len() && #[trigger] names@[m]@ == name@,
{
    let mut k: usize = 0;
    while k < names.len()
        invariant
            k <= names.len(),
            forall|m: int| 0 <= m < k ==> #[trigger] names@[m]@ != name@,
        decreases names.len() - k,
    {
        if names[k] == *name {
            return true;
        }
        k += 1;
    }
    false
}

/// The names of the functions with at least one successful run, each once,
/// in the order of their first successful run.
fn successful_names(results: &[BenchmarkResult]) -> (names: Vec<String>)
    ensures
        forall|k: int|
            0 <= k < names.len() ==> gas_samples(results@, #[trigger] names@[k]@).len() > 0,
        forall|a: int, b: int| 0 <= a < b < names.len() ==> names@[a]@ != names@[b]@,
        forall|n: Seq<char>|
            gas_samples(results@, n).len() > 0 ==> exists|k: int|
                0 <= k < names.len() && #[trigger] names@[k]@ == n,
{
    let mut names: Vec<String> = Vec::new();
    let mut i: usize = 0;
    while i < results.len()
        invariant
            i <= results.len(),
            forall|k: int|
                0 <= k < names.len() ==> gas_samples(results@.take(i as int), #[trigger] names@[k]@).len()
                    > 0,
            forall|a: int, b: int| 0 <= a < b < names.len() ==> names@[a]@ != names@[b]@,
            forall|n: Seq<char>|
                gas_samples(results@.take(i as int), n).len() > 0 ==> exists|k: int|
                    0 <= k < names.len() && #[trigger] names@[k]@ == n,
        decreases results.len() - i,
    {
        let ghost before = names@;
        let r = &results[i];
        if r.success {
            if !contains_name(&names, &r.function_name) {
                names.push(r.function_name.clone());
            }
        }
        proof {
            let next = results@.take(i + 1);
            assert forall|k: int|
                0 <= k < names.len() implies gas_samples(next, #[trigger] names@[k]@).len() > 0 by {
                lemma_gas_samples_step(results@, i as int, names@[k]@);
            }
            assert forall|n: Seq<char>|
                #[trigger] gas_samples(next, n).len() > 0 implies exists|k: int|
                    0 <= k < names.len() && #[trigger] names@[k]@ == n by {
                lemma_gas_samples_step(results@, i as int, n);
                if gas_samples(results@.take(i as int), n).len() > 0 {
                    let k = choose|k: int| 0 <= k < before.len() && #[trigger] before[k]@ == n;
                    assert(names@[k] == before[k]);
                } else {
                    assert(r.success && r.function_name@ == n);
                    if names.len() > before.len() {
                        assert(names@[before.len() as int]@ == n);
                    }
                }
            }
        }
        i += 1;
    }
    proof {
        assert(results@.take(results.len() as int) =~= results@);
    }
    names
}

/// The gas of the successful runs of `name`, in recorded order.
fn samples_for(results: &[BenchmarkResult], name: &String) -> (samples: Vec<u64>)
    ensures
        samples@ == gas_samples(results@, name@),
{
    let mut samples: Vec<u64> = Vec::new();
    let mut i: usize = 0;
    while i < results.len()
        invariant
            i <= results.len(),
            samples@ == gas_samples(results@.take(i as int), name@),
        decreases results.len() - i,
    {
        if results[i].success && results[i].function_name == *name {
            samples.push(results[i].gas_used);
        }
        proof {
            lemma_gas_samples_step(results@, i as int, name@);
        }
        i += 1;
    }
    proof {
        assert(results@.take(results.len() as int) =~= results@);
    }
    samples
}

/// The values of `values` in ascending order.
fn sort_gas(values: &Vec<u64>) -> (sorted: Vec<u64>)
    ensures
        is_sorted(sorted@),
        sorted@.to_multiset() == values@.to_multiset(),
{
    broadcast use vstd::seq_lib::group_to_multiset_ensures;

    let mut sorted: Vec<u64> = Vec::new();
    let mut i: usize = 0;
    while i < values.len()
        invariant
            i <= values.len(),
            is_sorted(sorted@),
            sorted@.to_multiset() == values@.take(i as int).to_multiset(),
        decreases values.len() - i,
    {
        let x = values[i];
        let mut pos: usize = 0;
        while pos < sorted.len() && sorted[pos] <= x
            invariant
                pos <= sorted.len(),
                forall|k: int| 0 <= k < pos ==> sorted@[k] <= x,
            decreases sorted.len() - pos,
        {
            pos += 1;
        }
        let ghost prev = sorted@;
        sorted.insert(pos, x);
        proof {
            prev.insert_ensures(pos as int, x);
            vstd::seq_lib::to_multiset_insert(prev, pos as int, x);
            vstd::seq_lib::to_multiset_build(values@.take(i as int), x);
            assert(values@.take(i + 1) =~= values@.take(i as int).push(x));
            assert forall|a: int, b: int|
                0 <= a <= b < sorted@.len() implies sorted@[a] <= sorted@[b] by {
                if a < pos && b < pos {
                } else if a < pos && b == pos {
                } else if a < pos {
                    assert(sorted@[b] == prev[b - 1]);
                } else if a == pos && b == pos {
                } else if a == pos {
                    assert(sorted@[b] == prev[b - 1]);
                    assert(prev[pos as int] > x);
                } else {
                    assert(sorted@[a] == prev[a - 1]);
                    assert(sorted@[b] == prev[b - 1]);
                }
            }
        }
        i += 1;
    }
    proof {
        assert(values@.take(values.len() as int) =~= values@);
    }
    sorted
}

/// A sum of values that all lie between `lo` and `hi` lies between `lo` and `hi`
/// times their number.
proof fn lemma_sum_between(s: Seq<u64>, lo: int, hi: int)
    requires
        forall|i: int| 0 <= i < s.len() ==> lo <= #[trigger] s[i] <= hi,
    ensures
        lo * s.len() <= seq_sum(s) <= hi * s.len(),
    decreases s.len(),
{
    if s.len() > 0 {
        lemma_sum_between(s.drop_last(), lo, hi);
        assert(lo * s.len() == lo * (s.len() - 1) + lo) by (nonlinear_arith);
        assert(hi * s.len() == hi * (s.len() - 1) + hi) by (nonlinear_arith);
    }
}

/// The figures of a summary agree with each other and with its samples: there are
/// as many values as samples, minimum, median and maximum come in order, every
/// sample lies between minimum and maximum, and the total lies between the number
/// of samples times the minimum and times the maximum.
pub proof fn lemma_summary_figures(stats: FunctionStats, samples: Seq<u64>)
    requires
        stats.summarizes(samples),
    ensures
        stats.gas_values@.len() == samples.len(),
        stats.min_gas <= stats.median_gas <= stats.max_gas,
        forall|i: int| 0 <= i < samples.len() ==> stats.min_gas <= #[trigger] samples[i] <= stats.max_gas,
        stats.min_gas * samples.len() <= stats.total_gas <= stats.max_gas * samples.len(),
        samples.len() < 0x1_0000_0000 ==> stats.iterations == samples.len(),
        samples.contains(stats.min_gas) && samples.contains(stats.median_gas) && samples.contains(
            stats.max_gas,
        ),
{
    broadcast use vstd::seq_lib::group_to_multiset_ensures;

    let v = stats.gas_values@;
    assert(v.to_multiset().len() == samples.to_multiset().len());
    let mid = (stats.iterations / 2) as int;
    assert(stats.iterations as int <= v.len());
    assert(0 <= mid < v.len());
    assert forall|i: int| 0 <= i < samples.len() implies stats.min_gas <= #[trigger] samples[i]
        <= stats.max_gas by {
        assert(samples.contains(samples[i]));
        assert(samples.to_multiset().count(samples[i]) > 0);
        assert(v.contains(samples[i]));
        let j = choose|j: int| 0 <= j < v.len() && v[j] == samples[i];
        assert(v[0] <= v[j] <= v[v.len() - 1]);
    }
    assert forall|i: int| 0 <= i < v.len() implies stats.min_gas <= #[trigger] v[i]
        <= stats.max_gas by {
        assert(v[0] <= v[i] <= v[v.len() - 1]);
    }
    lemma_sum_between(v, stats.min_gas as int, stats.max_gas as int);
    assert forall|j: int| 0 <= j < v.len() implies samples.contains(#[trigger] v[j]) by {
        assert(v.contains(v[j]));
        assert(v.to_multiset().count(v[j]) > 0);
    }
    assert(samples.contains(v[0]));
    assert(samples.contains(v[mid]));
    assert(samples.contains(v[v.len() - 1]));
}

/// The figures of one function from its gas samples.
fn summarize(name: String, samples: &Vec<u64>) -> (stats: FunctionStats)
    requires
        samples.len() > 0,
    ensures
        stats.summarizes(samples@),
        stats.function_name == name,
{
    broadcast use vstd::seq_lib::group_to_multiset_ensures;

    let values = sort_gas(samples);
    assert(values@.len() == samples@.len()) by {
        assert(values@.to_multiset().len() == samples@.to_multiset().len());
    }
    let n = values.len();
    let count: u32 = (n as u64 % 0x1_0000_0000u64) as u32;
    let mut total: u128 = 0;
    let mut k: usize = 0;
    while k < n
        invariant
            n == values.len(),
            k <= n,
            total == seq_sum(values@.take(k as int)),
            total <= k * 0xffff_ffff_ffff_ffffu128,
        decreases n - k,
    {
        proof {
            assert(values@.take(k + 1).drop_last() =~= values@.take(k as int));
        }
        total = total + values[k] as u128;
        k += 1;
    }
    proof {
        assert(values@.take(n as int) =~= values@);
    }
    let median = values[(count / 2) as usize];
    let smallest = values[0];
    let largest = values[n - 1];
    FunctionStats {
        function_name: name,
        iterations: count,
        min_gas: smallest,
        max_gas: largest,
        median_gas: median,
        total_gas: total,
        gas_values: values,
    }
}

/// Comparing `ta / na` with `tb / nb` through whole quotients and remainders.
proof fn lemma_fraction_order(ta: int, na: int, tb: int, nb: int)
    requires
        na > 0,
        nb > 0,
        ta >= 0,
        tb >= 0,
    ensures
        (ta * nb >= tb * na) == (if ta / na != tb / nb {
            ta / na > tb / nb
        } else {
            (ta % na) * nb >= (tb % nb) * na
        }),
{
    let qa = ta / na;
    let ra = ta % na;
    let qb = tb / nb;
    let rb = tb % nb;
    vstd::arithmetic::div_mod::lemma_fundamental_div_mod(ta, na);
    vstd::arithmetic::div_mod::lemma_fundamental_div_mod(tb, nb);
    vstd::arithmetic::div_mod::lemma_mod_bound(ta, na);
    vstd::arithmetic::div_mod::lemma_mod_bound(tb, nb);
    let p = na * nb;
    assert(ta * nb - tb * na == (qa - qb) * p + ra * nb - rb * na) by (nonlinear_arith)
        requires
            ta == na * qa + ra,
            tb == nb * qb + rb,
            p == na * nb,
    ;
    assert(0 <= ra * nb < p) by (nonlinear_arith)
        requires
            0 <= ra < na,
            nb > 0,
            p == na * nb,
    ;
    assert(0 <= rb * na < p) by (nonlinear_arith)
        requires
            0 <= rb < nb,
            na > 0,
            p == na * nb,
    ;
    if qa > qb {
        assert((qa - qb) * p >= p) by (nonlinear_arith)
            requires
                qa - qb >= 1,
                p > 0,
        ;
        assert(ta * nb - tb * na > 0);
    } else if qa < qb {
        assert((qa - qb) * p <= -p) by (nonlinear_arith)
            requires
                qa - qb <= -1,
                p > 0,
        ;
        assert(ta * nb - tb * na < 0);
    } else {
        assert((qa - qb) * p == 0) by (nonlinear_arith)
            requires
                qa == qb,
        ;
        assert(ta * nb - tb * na == ra * nb - rb * na);
    }
}

/// Whether the exact average gas of `a` is at least that of `b`.
fn average_at_least(a: &FunctionStats, b: &FunctionStats) -> (r: bool)
    requires
        a.gas_values.len() > 0,
        b.gas_values.len() > 0,
    ensures
        r == a.average_at_least(b),
{
    let na = a.gas_values.len() as u128;
    let nb = b.gas_values.len() as u128;
    let qa = a.total_gas / na;
    let ra = a.total_gas % na;
    let qb = b.total_gas / nb;
    let rb = b.total_gas % nb;
    proof {
        lemma_fraction_order(a.total_gas as int, na as int, b.total_gas as int, nb as int);
    }
    if qa != qb {
        qa > qb
    } else {
        assert(ra * nb < 0x1_0000_0000_0000_0000_0000_0000_0000_0000) by (nonlinear_arith)
            requires
                ra < na,
                na <= 0xffff_ffff_ffff_ffff,
                nb <= 0xffff_ffff_ffff_ffff,
        ;
        assert(rb * na < 0x1_0000_0000_0000_0000_0000_0000_0000_0000) by (nonlinear_arith)
            requires
                rb < nb,
                na <= 0xffff_ffff_ffff_ffff,
                nb <= 0xffff_ffff_ffff_ffff,
        ;
        ra * nb >= rb * na
    }
}

/// The average order is transitive.
proof fn lemma_average_transitive(a: FunctionStats, b: FunctionStats, c: FunctionStats)
    requires
        a.gas_values@.len() > 0,
        b.gas_values@.len() > 0,
        c.gas_values@.len() > 0,
        a.average_at_least(&b),
        b.average_at_least(&c),
    ensures
        a.average_at_least(&c),
{
    let (ta, na) = (a.total_gas as int, a.gas_values@.len() as int);
    let (tb, nb) = (b.total_gas as int, b.gas_values@.len() as int);
    let (tc, nc) = (c.total_gas as int, c.gas_values@.len() as int);
    assert(ta * nc >= tc * na) by (nonlinear_arith)
        requires
            ta * nb >= tb * na,
            tb * nc >= tc * nb,
            na > 0,
            nb > 0,
            nc > 0,
    ;
}

/// The average order is total.
proof fn lemma_average_total(a: FunctionStats, b: FunctionStats)
    ensures
        a.average_at_least(&b) || b.average_at_least(&a),
{
}

/// Every entry of `s` has samples, and the entries come by exact average, highest first.
spec fn ordered_by_average(s: Seq<FunctionStats>) -> bool {
    &&& forall|k: int| 0 <= k < s.len() ==> (#[trigger] s[k]).gas_values@.len() > 0
    &&& forall|a: int, b: int| 0 <= a < b < s.len() ==> s[a].average_at_least(&s[b])
}

/// No two entries of `s` share a name.
spec fn distinct_names(s: Seq<FunctionStats>) -> bool {
    forall|a: int, b: int| 0 <= a < b < s.len() ==> s[a].function_name@ != s[b].function_name@
}

/// Inserting `x` after the entries whose average is at least its own, and before
/// the first whose average is below it, keeps the order.
proof fn lemma_insert_by_average(prev: Seq<FunctionStats>, pos: int, x: FunctionStats)
    requires
        ordered_by_average(prev),
        x.gas_values@.len() > 0,
        0 <= pos <= prev.len(),
        forall|k: int| 0 <= k < pos ==> (#[trigger] prev[k]).average_at_least(&x),
        pos < prev.len() ==> !prev[pos].average_at_least(&x),
    ensures
        ordered_by_average(prev.insert(pos, x)),
{
    let next = prev.insert(pos, x);
    prev.insert_ensures(pos, x);
    if pos < prev.len() {
        lemma_average_total(prev[pos], x);
    }
    assert forall|k: int| 0 <= k < next.len() implies (#[trigger] next[k]).gas_values@.len() > 0 by {
        if k > pos {
            assert(next[k] == prev[k - 1]);
        }
    }
    assert forall|a: int, b: int| 0 <= a < b < next.len() implies next[a].average_at_least(
        &next[b],
    ) by {
        if b < pos {
        } else if b == pos {
        } else if a < pos {
            assert(next[b] == prev[b - 1]);
        } else if a == pos {
            assert(next[b] == prev[b - 1]);
            if b - 1 > pos {
                lemma_average_transitive(x, prev[pos], prev[b - 1]);
            }
        } else {
            assert(next[a] == prev[a - 1]);
            assert(next[b] == prev[b - 1]);
        }
    }
}

/// Inserting an entry whose name no entry has keeps the names distinct.
proof fn lemma_insert_distinct(prev: Seq<FunctionStats>, pos: int, x: FunctionStats)
    requires
        distinct_names(prev),
        0 <= pos <= prev.len(),
        forall|k: int| 0 <= k < prev.len() ==> (#[trigger] prev[k]).function_name@ != x.function_name@,
    ensures
        distinct_names(prev.insert(pos, x)),
{
    let next = prev.insert(pos, x);
    prev.insert_ensures(pos, x);
    assert forall|a: int, b: int| 0 <= a < b < next.len() implies next[a].function_name@
        != next[b].function_name@ by {
        if b < pos {
        } else if b == pos {
        } else if a < pos {
            assert(next[b] == prev[b - 1]);
        } else if a == pos {
            assert(next[b] == prev[b - 1]);
        } else {
            assert(next[a] == prev[a - 1]);
            assert(next[b] == prev[b - 1]);
        }
    }
}

/// Every entry of `s` describes the successful runs of its own name.
spec fn entries_describe(results: Seq<BenchmarkResult>, s: Seq<FunctionStats>) -> bool {
    forall|i: int|
        0 <= i < s.len() ==> (#[trigger] s[i]).summarizes(gas_samples(results, s[i].function_name@))
}

/// Every name of `names` has an entry in `s`.
spec fn names_covered(s: Seq<FunctionStats>, names: Seq<String>) -> bool {
    forall|n: int|
        0 <= n < names.len() ==> exists|i: int|
            0 <= i < s.len() && #[trigger] s[i].function_name@ == #[trigger] names[n]@
}

/// Every entry of `s` has a name of `names`.
spec fn names_within(s: Seq<FunctionStats>, names: Seq<String>) -> bool {
    forall|i: int|
        0 <= i < s.len() ==> exists|n: int|
            0 <= n < names.len() && #[trigger] s[i].function_name@ == #[trigger] names[n]@
}

/// Inserting an entry that describes its name keeps every entry describing its name.
proof fn lemma_insert_describes(
    results: Seq<BenchmarkResult>,
    prev: Seq<FunctionStats>,
    pos: int,
    x: FunctionStats,
)
    requires
        0 <= pos <= prev.len(),
        entries_describe(results, prev),
        x.summarizes(gas_samples(results, x.function_name@)),
    ensures
        entries_describe(results, prev.insert(pos, x)),
{
    let next = prev.insert(pos, x);
    prev.insert_ensures(pos, x);
    assert forall|i: int| 0 <= i < next.len() implies (#[trigger] next[i]).summarizes(
        gas_samples(results, next[i].function_name@),
    ) by {
        if i > pos {
            assert(next[i] == prev[i - 1]);
        }
    }
}

/// Inserting the entry of the last name makes every name of the list have an entry.
proof fn lemma_insert_covers(names: Seq<String>, prev: Seq<FunctionStats>, pos: int, x: FunctionStats)
    requires
        names.len() > 0,
        0 <= pos <= prev.len(),
        names_covered(prev, names.drop_last()),
        x.function_name@ == names.last()@,
    ensures
        names_covered(prev.insert(pos, x), names),
{
    let next = prev.insert(pos, x);
    let before = names.drop_last();
    prev.insert_ensures(pos, x);
    assert forall|n: int| 0 <= n < names.len() implies exists|i: int|
        0 <= i < next.len() && #[trigger] next[i].function_name@ == #[trigger] names[n]@ by {
        if n == names.len() - 1 {
            assert(next[pos].function_name@ == names[n]@);
        } else {
            assert(before[n] == names[n]);
            let i = choose|i: int|
                0 <= i < prev.len() && #[trigger] prev[i].function_name@ == #[trigger] before[n]@;
            if i < pos {
                assert(next[i] == prev[i]);
            } else {
                assert(next[i + 1] == prev[i]);
            }
        }
    }
}

/// Inserting the entry of the last name keeps every entry's name on the list.
proof fn lemma_insert_within(names: Seq<String>, prev: Seq<FunctionStats>, pos: int, x: FunctionStats)
    requires
        names.len() > 0,
        0 <= pos <= prev.len(),
        names_within(prev, names.drop_last()),
        x.function_name@ == names.last()@,
    ensures
        names_within(prev.insert(pos, x), names),
{
    let next = prev.insert(pos, x);
    let before = names.drop_last();
    prev.insert_ensures(pos, x);
    assert forall|i: int| 0 <= i < next.len() implies exists|n: int|
        0 <= n < names.len() && #[trigger] next[i].function_name@ == #[trigger] names[n]@ by {
        if i == pos {
            assert(next[i].function_name@ == names[names.len() - 1]@);
        } else {
            let j = if i < pos {
                i
            } else {
                i - 1
            };
            assert(next[i] == prev[j]);
            let n = choose|n: int|
                0 <= n < before.len() && #[trigger] prev[j].function_name@ == #[trigger] before[n]@;
            assert(before[n] == names[n]);
        }
    }
}

/// The position at which `x` goes: after every entry whose average is at least its own.
fn insertion_point(sorted: &Vec<FunctionStats>, x: &FunctionStats) -> (pos: usize)
    requires
        ordered_by_average(sorted@),
        x.gas_values@.len() > 0,
    ensures
        pos <= sorted.len(),
        forall|k: int| 0 <= k < pos ==> (#[trigger] sorted@[k]).average_at_least(x),
        pos < sorted.len() ==> !sorted@[pos as int].average_at_least(x),
{
    let mut pos: usize = 0;
    while pos < sorted.len() && average_at_least(&sorted[pos], x)
        invariant
            pos <= sorted.len(),
            ordered_by_average(sorted@),
            x.gas_values@.len() > 0,
            forall|k: int| 0 <= k < pos ==> (#[trigger] sorted@[k]).average_at_least(x),
        decreases sorted.len() - pos,
    {
        pos += 1;
    }
    pos
}

/// `stats` aggregates the successful runs of `results` per function name: each
/// entry summarizes the gas samples of its name, no two entries share a name,
/// every function with a successful run has an entry, and entries come by exact
/// average, highest first.
pub open spec fn describes_runs(results: Seq<BenchmarkResult>, stats: Seq<FunctionStats>) -> bool {
    &&& forall|i: int|
        0 <= i < stats.len() ==> (#[trigger] stats[i]).summarizes(
            gas_samples(results, stats[i].function_name@),
        )
    &&& forall|i: int, j: int|
        0 <= i < j < stats.len() ==> stats[i].function_name@ != stats[j].function_name@
    &&& forall|name: Seq<char>|
        gas_samples(results, name).len() > 0 ==> exists|i: int|
            0 <= i < stats.len() && #[trigger] stats[i].function_name@ == name
    &&& forall|i: int, j: int| 0 <= i < j < stats.len() ==> stats[i].average_at_least(&stats[j])
}

/// Two entries report the same function with the same figures.
pub open spec fn same_figures(a: FunctionStats, b: FunctionStats) -> bool {
    &&& a.function_name@ == b.function_name@
    &&& a.iterations == b.iterations
    &&& a.min_gas == b.min_gas
    &&& a.max_gas == b.max_gas
    &&& a.median_gas == b.median_gas
    &&& a.total_gas == b.total_gas
    &&& a.gas_values@ == b.gas_values@
}

/// Two ascending sequences with the same elements are equal.
proof fn lemma_sorted_unique(a: Seq<u64>, b: Seq<u64>)
    requires
        is_sorted(a),
        is_sorted(b),
        a.to_multiset() == b.to_multiset(),
    ensures
        a == b,
    decreases a.len(),
{
    broadcast use vstd::seq_lib::group_to_multiset_ensures;
    broadcast use vstd::multiset::group_multiset_axioms;

    vstd::seq_lib::to_multiset_len(a);
    vstd::seq_lib::to_multiset_len(b);
    assert(a.len() == b.len());
    if a.len() > 0 {
        let n = a.len() - 1;
        assert(a.contains(a[n]));
        assert(b.to_multiset().count(a[n]) > 0);
        assert(b.contains(a[n]));
        let j = choose|j: int| 0 <= j < b.len() && b[j] == a[n];
        assert(b.contains(b[n]));
        assert(a.to_multiset().count(b[n]) > 0);
        assert(a.contains(b[n]));
        let k = choose|k: int| 0 <= k < a.len() && a[k] == b[n];
        assert(a[n] == b[n]);
        assert(a.remove(n) =~= a.drop_last());
        assert(b.remove(n) =~= b.drop_last());
        assert(a.drop_last().to_multiset() =~= b.drop_last().to_multiset());
        lemma_sorted_unique(a.drop_last(), b.drop_last());
        assert forall|i: int| 0 <= i < a.len() implies a[i] == b[i] by {
            if i < n {
                assert(a[i] == a.drop_last()[i]);
                assert(b[i] == b.drop_last()[i]);
            }
        }
        assert(a =~= b);
    } else {
        assert(a =~= b);
    }
}

/// Summaries of samples with the same elements have the same figures.
proof fn lemma_summaries_agree(x: FunctionStats, y: FunctionStats, sx: Seq<u64>, sy: Seq<u64>)
    requires
        x.summarizes(sx),
        y.summarizes(sy),
        sx.to_multiset() == sy.to_multiset(),
        x.function_name@ == y.function_name@,
    ensures
        same_figures(x, y),
{
    lemma_sorted_unique(x.gas_values@, y.gas_values@);
}

/// Where two lists of runs give every function the same samples, an entry of a
/// description of the one has an entry with the same figures in a description of
/// the other.
proof fn lemma_entry_matched(
    r1: Seq<BenchmarkResult>,
    r2: Seq<BenchmarkResult>,
    s1: Seq<FunctionStats>,
    s2: Seq<FunctionStats>,
    i: int,
) -> (j: int)
    requires
        describes_runs(r1, s1),
        describes_runs(r2, s2),
        same_samples(r1, r2),
        0 <= i < s1.len(),
    ensures
        0 <= j < s2.len(),
        same_figures(s1[i], s2[j]),
{
    broadcast use vstd::seq_lib::group_to_multiset_ensures;

    let name = s1[i].function_name@;
    assert(s1[i].summarizes(gas_samples(r1, name)));
    assert(gas_samples(r1, name).to_multiset() == gas_samples(r2, name).to_multiset());
    assert(s1[i].gas_values@.to_multiset().len() == gas_samples(r1, name).to_multiset().len());
    assert(gas_samples(r2, name).to_multiset().len() > 0);
    let j = choose|j: int| 0 <= j < s2.len() && #[trigger] s2[j].function_name@ == name;
    assert(s2[j].summarizes(gas_samples(r2, name)));
    lemma_summaries_agree(s1[i], s2[j], gas_samples(r1, name), gas_samples(r2, name));
    j
}

/// The names of the entries.
spec fn entry_names(s: Seq<FunctionStats>) -> Seq<Seq<char>> {
    s.map_values(|x: FunctionStats| x.function_name@)
}

/// In a strictly increasing sequence, values grow at least as fast as positions.
proof fn lemma_increasing_gap(m: Seq<int>, i: int, j: int)
    requires
        forall|a: int, b: int| 0 <= a < b < m.len() ==> m[a] < m[b],
        0 <= i <= j < m.len(),
    ensures
        m[j] - m[i] >= j - i,
    decreases j - i,
{
    if i < j {
        lemma_increasing_gap(m, i, j - 1);
    }
}

/// Some entry of `s` has the same figures as `x`.
pub open spec fn has_match(x: FunctionStats, s: Seq<FunctionStats>) -> bool {
    exists|j: int| 0 <= j < s.len() && same_figures(x, #[trigger] s[j])
}

/// Every entry of the one description has a match in the other.
proof fn lemma_entries_matched(
    r1: Seq<BenchmarkResult>,
    r2: Seq<BenchmarkResult>,
    s1: Seq<FunctionStats>,
    s2: Seq<FunctionStats>,
)
    requires
        describes_runs(r1, s1),
        describes_runs(r2, s2),
        same_samples(r1, r2),
    ensures
        forall|i: int| 0 <= i < s1.len() ==> has_match(#[trigger] s1[i], s2),
{
    assert forall|i: int| 0 <= i < s1.len() implies has_match(#[trigger] s1[i], s2) by {
        let j = lemma_entry_matched(r1, r2, s1, s2, i);
    }
}

/// The two descriptions have as many entries.
proof fn lemma_same_count(
    r1: Seq<BenchmarkResult>,
    r2: Seq<BenchmarkResult>,
    s1: Seq<FunctionStats>,
    s2: Seq<FunctionStats>,
)
    requires
        describes_runs(r1, s1),
        describes_runs(r2, s2),
        same_samples(r1, r2),
    ensures
        s1.len() == s2.len(),
{
    assert(same_samples(r2, r1));
    let n1 = entry_names(s1);
    let n2 = entry_names(s2);
    assert(n1.no_duplicates());
    assert(n2.no_duplicates());
    assert forall|x: Seq<char>| n1.to_set().contains(x) <==> n2.to_set().contains(x) by {
        if n1.contains(x) {
            let i = choose|i: int| 0 <= i < n1.len() && n1[i] == x;
            let j = lemma_entry_matched(r1, r2, s1, s2, i);
            assert(n2[j] == x);
        }
        if n2.contains(x) {
            let j = choose|j: int| 0 <= j < n2.len() && n2[j] == x;
            let i = lemma_entry_matched(r2, r1, s2, s1, j);
            assert(n1[i] == x);
        }
    }
    assert(n1.to_set() =~= n2.to_set());
    n1.unique_seq_to_set();
    n2.unique_seq_to_set();
}

/// Where the averages of the one description all differ, the entries of both come
/// in the same order.
proof fn lemma_same_order(
    r1: Seq<BenchmarkResult>,
    r2: Seq<BenchmarkResult>,
    s1: Seq<FunctionStats>,
    s2: Seq<FunctionStats>,
)
    requires
        describes_runs(r1, s1),
        describes_runs(r2, s2),
        same_samples(r1, r2),
        s1.len() == s2.len(),
        forall|a: int, b: int| 0 <= a < b < s1.len() ==> !s1[b].average_at_least(&s1[a]),
    ensures
        forall|i: int| 0 <= i < s1.len() ==> same_figures(#[trigger] s1[i], s2[i]),
{
    let m = Seq::new(s1.len(), |i: int| chosen_match(s1, s2, i));
    assert forall|i: int| 0 <= i < s1.len() implies 0 <= #[trigger] m[i] < s2.len() && same_figures(
        s1[i],
        s2[m[i]],
    ) by {
        let j = lemma_entry_matched(r1, r2, s1, s2, i);
    }
    assert forall|a: int, b: int| 0 <= a < b < m.len() implies m[a] < m[b] by {
        assert(0 <= m[a] < s2.len() && same_figures(s1[a], s2[m[a]]));
        assert(0 <= m[b] < s2.len() && same_figures(s1[b], s2[m[b]]));
        if m[b] < m[a] {
            assert(s2[m[b]].average_at_least(&s2[m[a]]));
            assert(s1[b].average_at_least(&s1[a]));
        } else if m[a] == m[b] {
            assert(s1[a].function_name@ == s1[b].function_name@);
        }
    }
    assert forall|i: int| 0 <= i < s1.len() implies same_figures(#[trigger] s1[i], s2[i]) by {
        assert(0 <= m[i] < s2.len() && same_figures(s1[i], s2[m[i]]));
        lemma_increasing_gap(m, 0, i);
        lemma_increasing_gap(m, i, s1.len() - 1);
        assert(0 <= m[0] < s2.len());
        assert(0 <= m[s1.len() - 1] < s2.len());
    }
}

/// An entry of `s2` with the same figures as entry `i` of `s1`, when there is one.
spec fn chosen_match(s1: Seq<FunctionStats>, s2: Seq<FunctionStats>, i: int) -> int {
    choose|j: int| 0 <= j < s2.len() && same_figures(s1[i], s2[j])
}

/// Where two lists of runs give every function the same samples, any two
/// descriptions of them hold the same entries, with the same figures; and where
/// the averages of the one are all different, the entries also come in the same
/// order.
pub proof fn lemma_same_samples_same_stats(
    r1: Seq<BenchmarkResult>,
    r2: Seq<BenchmarkResult>,
    s1: Seq<FunctionStats>,
    s2: Seq<FunctionStats>,
)
    requires
        describes_runs(r1, s1),
        describes_runs(r2, s2),
        same_samples(r1, r2),
    ensures
        s1.len() == s2.len(),
        forall|i: int| 0 <= i < s1.len() ==> has_match(#[trigger] s1[i], s2),
        forall|j: int| 0 <= j < s2.len() ==> has_match(#[trigger] s2[j], s1),
        (forall|a: int, b: int| 0 <= a < b < s1.len() ==> !s1[b].average_at_least(&s1[a]))
            ==> forall|i: int| 0 <= i < s1.len() ==> same_figures(#[trigger] s1[i], s2[i]),
{
    lemma_entries_matched(r1, r2, s1, s2);
    assert(same_samples(r2, r1));
    lemma_entries_matched(r2, r1, s2, s1);
    lemma_same_count(r1, r2, s1, s2);
    if forall|a: int, b: int| 0 <= a < b < s1.len() ==> !s1[b].average_at_least(&s1[a]) {
        lemma_same_order(r1, r2, s1, s2);
    }
}

/// Recording a failed run anywhere among the runs changes no entry of the
/// statistics: a description of the runs with it and one without hold the same
/// entries with the same figures, in the same order where the averages differ.
pub proof fn lemma_failed_run_changes_no_stats(
    results: Seq<BenchmarkResult>,
    pos: int,
    failed: BenchmarkResult,
    without: Seq<FunctionStats>,
    with: Seq<FunctionStats>,
)
    requires
        !failed.success,
        0 <= pos <= results.len(),
        describes_runs(results, without),
        describes_runs(results.insert(pos, failed), with),
    ensures
        without.len() == with.len(),
        forall|i: int| 0 <= i < without.len() ==> has_match(#[trigger] without[i], with),
        forall|j: int| 0 <= j < with.len() ==> has_match(#[trigger] with[j], without),
        (forall|a: int, b: int|
            0 <= a < b < without.len() ==> !without[b].average_at_least(&without[a])) ==> forall|
            i: int,
        |
            0 <= i < without.len() ==> same_figures(#[trigger] without[i], with[i]),
{
    lemma_failed_run_inserted(results, pos, failed);
    lemma_same_samples_same_stats(results, results.insert(pos, failed), without, with);
}

/// Reordering the runs changes no entry of the statistics: descriptions of the
/// two orders hold the same entries with the same figures, in the same order
/// where the averages differ.
pub proof fn lemma_run_order_changes_no_stats(
    results: Seq<BenchmarkResult>,
    reordered: Seq<BenchmarkResult>,
    s1: Seq<FunctionStats>,
    s2: Seq<FunctionStats>,
)
    requires
        results.to_multiset() == reordered.to_multiset(),
        describes_runs(results, s1),
        describes_runs(reordered, s2),
    ensures
        s1.len() == s2.len(),
        forall|i: int| 0 <= i < s1.len() ==> has_match(#[trigger] s1[i], s2),
        forall|j: int| 0 <= j < s2.len() ==> has_match(#[trigger] s2[j], s1),
        (forall|a: int, b: int| 0 <= a < b < s1.len() ==> !s1[b].average_at_least(&s1[a]))
            ==> forall|i: int| 0 <= i < s1.len() ==> same_figures(#[trigger] s1[i], s2[i]),
{
    lemma_permuted_runs(results, reordered);
    lemma_same_samples_same_stats(results, reordered, s1, s2);
}

/// Aggregates the successful runs in `results` per function name.
///
/// Each function with at least one successful run gets exactly one entry, which
/// summarizes the gas of its successful runs; failed runs are left out. Entries
/// come in order of exact average gas, highest first.
pub fn compute_stats(results: &[BenchmarkResult]) -> (stats: Vec<FunctionStats>)
    ensures
        describes_runs(results@, stats@),
{
    let names = successful_names(results);
    let mut stats: Vec<FunctionStats> = Vec::new();
    let mut k: usize = 0;
    while k < names.len()
        invariant
            k <= names.len(),
            forall|n: int|
                0 <= n < names.len() ==> gas_samples(results@, #[trigger] names@[n]@).len() > 0,
            forall|a: int, b: int| 0 <= a < b < names.len() ==> names@[a]@ != names@[b]@,
            entries_describe(results@, stats@),
            names_covered(stats@, names@.take(k as int)),
            names_within(stats@, names@.take(k as int)),
            distinct_names(stats@),
            ordered_by_average(stats@),
        decreases names.len() - k,
    {
        let samples = samples_for(results, &names[k]);
        let entry = summarize(names[k].clone(), &samples);
        let pos = insertion_point(&stats, &entry);
        let ghost prev = stats@;
        proof {
            assert forall|i: int| 0 <= i < prev.len() implies (#[trigger] prev[i]).function_name@
                != entry.function_name@ by {
                let n = choose|n: int|
                    0 <= n < k && #[trigger] prev[i].function_name@ == #[trigger] names@.take(
                        k as int,
                    )[n]@;
                assert(names@.take(k as int)[n] == names@[n]);
            }
            assert(names@.take(k + 1).drop_last() =~= names@.take(k as int));
            lemma_insert_describes(results@, prev, pos as int, entry);
            lemma_insert_covers(names@.take(k + 1), prev, pos as int, entry);
            lemma_insert_within(names@.take(k + 1), prev, pos as int, entry);
            lemma_insert_by_average(prev, pos as int, entry);
            lemma_insert_distinct(prev, pos as int, entry);
        }
        stats.insert(pos, entry);
        k += 1;
    }
    proof {
        assert(names@.take(names.len() as int) =~= names@);
        assert forall|name: Seq<char>| gas_samples(results@, name).len() > 0 implies exists|i: int|
            0 <= i < stats.len() && #[trigger] stats@[i].function_name@ == name by {
            let n = choose|n: int| 0 <= n < names.len() && #[trigger] names@[n]@ == name;
            let i = choose|i: int|
                0 <= i < stats.len() && #[trigger] stats@[i].function_name@ == #[trigger] names@[n]@;
        }
    }
    stats
}

} // verus!
