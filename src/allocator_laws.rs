//! Properties of the core allocator that hold for every state and request.

use vstd::prelude::*;
use crate::core_allocator::{
    allocation_result,
    auto_pick,
    conflict_entries,
    cursor_after,
    lemma_names_on_absent,
    lemma_names_on_entry,
    names_on,
    AllocatorView,
    CoreAffinityConfig,
};
use crate::text::{contains_text, decimal, lemma_contains_middle};

verus! {

/// A `Fixed` request for a core that is not available fails, and its message
/// names both the worker and the requested core. (Where no core is
/// available at all, pinning is skipped instead.)
pub proof fn lemma_fixed_unavailable_fails(
    v: AllocatorView,
    name: Seq<char>,
    id: usize,
    instance_index: Option<usize>,
)
    requires
        v.available.len() > 0,
        !v.available.contains(id),
    ensures
        allocation_result(v.available, v.cursor, name, CoreAffinityConfig::Fixed(id), instance_index) is Err,
        contains_text(
            allocation_result(v.available, v.cursor, name, CoreAffinityConfig::Fixed(id), instance_index)->Err_0,
            name,
        ),
        contains_text(
            allocation_result(v.available, v.cursor, name, CoreAffinityConfig::Fixed(id), instance_index)->Err_0,
            decimal(id as nat),
        ),
{
    let a = "Core "@;
    let d = decimal(id as nat);
    let b = " requested by task '"@;
    let c = "' is not available. Available cores: "@ + crate::text::list_text(v.available);
    let m = allocation_result(v.available, v.cursor, name, CoreAffinityConfig::Fixed(id), instance_index)->Err_0;
    assert(m =~= a + d + (b + name + c));
    lemma_contains_middle(a, d, b + name + c);
    assert(m =~= (a + d + b) + name + c);
    lemma_contains_middle(a + d + b, name, c);
}

/// A `Range` request with no available core in its bounds fails, and its
/// message names the worker and both bounds. (Where no core is available at
/// all, pinning is skipped instead.)
pub proof fn lemma_empty_range_fails(
    v: AllocatorView,
    name: Seq<char>,
    start: usize,
    end: usize,
    instance_index: Option<usize>,
)
    requires
        v.available.len() > 0,
        forall|i: int| 0 <= i < v.available.len() ==> !(start <= #[trigger] v.available[i] <= end),
    ensures
        allocation_result(v.available, v.cursor, name, CoreAffinityConfig::Range { start, end }, instance_index) is Err,
        contains_text(
            allocation_result(v.available, v.cursor, name, CoreAffinityConfig::Range { start, end }, instance_index)->Err_0,
            name,
        ),
        contains_text(
            allocation_result(v.available, v.cursor, name, CoreAffinityConfig::Range { start, end }, instance_index)->Err_0,
            decimal(start as nat),
        ),
        contains_text(
            allocation_result(v.available, v.cursor, name, CoreAffinityConfig::Range { start, end }, instance_index)->Err_0,
            decimal(end as nat),
        ),
{
    let range = crate::core_allocator::cores_in_range(v.available, start, end);
    let pred = |c: usize| start <= c && c <= end;
    if range.len() > 0 {
        v.available.lemma_filter_contains_rev(pred, range[0]);
        assert(range.contains(range[0]));
        let i = choose|i: int| 0 <= i < v.available.len() && v.available[i] == range[0];
        v.available.lemma_filter_pred(pred, 0);
    }
    let a = "No cores available in range "@;
    let s = decimal(start as nat);
    let dash = "-"@;
    let e = decimal(end as nat);
    let b = " for task '"@;
    let c = "'. Available cores: "@ + crate::text::list_text(v.available);
    let m = allocation_result(v.available, v.cursor, name, CoreAffinityConfig::Range { start, end }, instance_index)->Err_0;
    assert(m =~= a + s + (dash + e + b + name + c));
    lemma_contains_middle(a, s, dash + e + b + name + c);
    assert(m =~= (a + s + dash) + e + (b + name + c));
    lemma_contains_middle(a + s + dash, e, b + name + c);
    assert(m =~= (a + s + dash + e + b) + name + c);
    lemma_contains_middle(a + s + dash + e + b, name, c);
}

/// An `Auto` request of a single worker (no instance index) fails whenever
/// some core is available: there is no deterministic choice for it.
pub proof fn lemma_auto_single_fails(v: AllocatorView, name: Seq<char>)
    requires
        v.available.len() > 0,
    ensures
        allocation_result(v.available, v.cursor, name, CoreAffinityConfig::Auto, None) is Err,
{
}

/// `Auto` requests of worker instances take the available cores in order.
/// A new allocator starts with its cursor at zero, and every served `Auto`
/// request raises it by one, so the `k`-th such request (counting from zero)
/// is served with the cursor at `k`: it gets the available core at position
/// `k` modulo their number. The first requests take every available core
/// once, in order, and the next one wraps around to the first core.
pub proof fn lemma_auto_round_robin(
    available: Seq<usize>,
    k: nat,
    name: Seq<char>,
    instance: usize,
)
    requires
        available.len() > 0,
    ensures
        cursor_after(available, k, CoreAffinityConfig::Auto, Some(instance)) == k + 1,
        allocation_result(available, k, name, CoreAffinityConfig::Auto, Some(instance))
            == Ok::<Option<usize>, Seq<char>>(Some(available[(k % available.len()) as int])),
        k < available.len() ==> allocation_result(
            available,
            k,
            name,
            CoreAffinityConfig::Auto,
            Some(instance),
        ) == Ok::<Option<usize>, Seq<char>>(Some(available[k as int])),
        k == available.len() ==> allocation_result(
            available,
            k,
            name,
            CoreAffinityConfig::Auto,
            Some(instance),
        ) == Ok::<Option<usize>, Seq<char>>(Some(available[0])),
{
    let n = available.len();
    if k < n {
        vstd::arithmetic::div_mod::lemma_small_mod(k, n);
    }
    if k == n {
        vstd::arithmetic::div_mod::lemma_mod_self_0(n as int);
    }
}

/// Served one after another from a new allocator, the first `Auto`
/// requests, one per available core, get exactly the available cores in
/// their order, and the next request gets the first core again.
pub proof fn lemma_auto_first_round(available: Seq<usize>)
    requires
        available.len() > 0,
    ensures
        Seq::new(available.len(), |k: int| auto_pick(available, k as nat)) == available,
        auto_pick(available, available.len()) == available[0],
{
    let n = available.len();
    assert forall|k: int| 0 <= k < n implies auto_pick(available, k as nat) == available[k] by {
        vstd::arithmetic::div_mod::lemma_small_mod(k as nat, n);
    }
    assert(Seq::new(n, |k: int| auto_pick(available, k as nat)) =~= available);
    vstd::arithmetic::div_mod::lemma_mod_self_0(n as int);
}

/// Over distinct available cores, the first `Auto` requests of a new
/// allocator, one per available core, get pairwise different cores.
pub proof fn lemma_auto_cores_distinct(available: Seq<usize>, j: nat, k: nat)
    requires
        available.no_duplicates(),
        j < k < available.len(),
    ensures
        auto_pick(available, j) != auto_pick(available, k),
{
    vstd::arithmetic::div_mod::lemma_small_mod(j, available.len());
    vstd::arithmetic::div_mod::lemma_small_mod(k, available.len());
}

/// `get_conflicts` reports exactly the cores with two names or more, each
/// with all its names: a core with a single name is never reported.
pub proof fn lemma_conflicts_are_shared_cores(v: AllocatorView)
    requires
        v.well_formed(),
    ensures
        forall|k: int|
            0 <= k < conflict_entries(v.usage).len() ==> {
                &&& (#[trigger] conflict_entries(v.usage)[k]).1.len() >= 2
                &&& names_on(v.usage, conflict_entries(v.usage)[k].0) == conflict_entries(
                    v.usage,
                )[k].1
            },
        forall|c: usize|
            #![trigger names_on(v.usage, c)]
            names_on(v.usage, c).len() >= 2 ==> exists|k: int|
                0 <= k < conflict_entries(v.usage).len() && conflict_entries(v.usage)[k].0 == c,
        forall|c: usize, k: int|
            0 <= k < conflict_entries(v.usage).len() && #[trigger] names_on(v.usage, c).len() == 1
                ==> #[trigger] conflict_entries(v.usage)[k].0 != c,
{
    let usage = v.usage;
    let pred = |e: (usize, Seq<Seq<char>>)| e.1.len() >= 2;
    let cs = conflict_entries(usage);
    assert forall|k: int| 0 <= k < cs.len() implies {
        &&& (#[trigger] cs[k]).1.len() >= 2
        &&& names_on(usage, cs[k].0) == cs[k].1
    } by {
        usage.lemma_filter_pred(pred, k);
        assert(cs.contains(cs[k]));
        usage.lemma_filter_contains_rev(pred, cs[k]);
        let i = choose|i: int| 0 <= i < usage.len() && usage[i] == cs[k];
        lemma_names_on_entry(usage, i);
    }
    assert forall|c: usize| #[trigger] names_on(usage, c).len() >= 2 implies exists|k: int|
        0 <= k < cs.len() && cs[k].0 == c by {
        if forall|i: int| 0 <= i < usage.len() ==> usage[i].0 != c {
            lemma_names_on_absent(usage, c);
        } else {
            let i = choose|i: int| 0 <= i < usage.len() && usage[i].0 == c;
            lemma_names_on_entry(usage, i);
            usage.lemma_filter_contains(pred, i);
            let k = choose|k: int| 0 <= k < cs.len() && cs[k] == usage[i];
            assert(cs[k].0 == c);
        }
    }
}

} // verus!
