//! The aggregator: turns the two registries into the execution plan.
//!
//! Every singular entry is invoked once and yields one descriptor; every
//! parameterized entry is invoked once and yields an ordered group of
//! descriptors. The plan is the singular descriptors, in registry order,
//! followed by every group's descriptors, flattened in order. Aggregation
//! performs no deduplication and no filtering: every contributed entry's
//! output appears in the plan exactly once.

use vstd::prelude::*;

use crate::registry::Registry;
use libtest_mimic::Trial;

verus! {

/// The flattening of a sequence of descriptor groups: each group's internal
/// order is preserved, and the groups follow one another in order.
pub open spec fn concat_all<T>(groups: Seq<Seq<T>>) -> Seq<T>
    decreases groups.len(),
{
    if groups.len() == 0 {
        Seq::empty()
    } else {
        groups.first() + concat_all(groups.drop_first())
    }
}

/// The total number of descriptors held by a sequence of groups.
pub open spec fn total_len<T>(groups: Seq<Seq<T>>) -> nat
    decreases groups.len(),
{
    if groups.len() == 0 {
        0
    } else {
        groups.first().len() + total_len(groups.drop_first())
    }
}

/// The execution plan determined by the singular results and the
/// parameterized groups: singular descriptors first, then the flattened
/// groups.
pub open spec fn plan_spec<T>(singular: Seq<T>, groups: Seq<Seq<T>>) -> Seq<T> {
    singular + concat_all(groups)
}

/// The views of a sequence of produced descriptor vectors.
pub open spec fn views_of<T>(groups: Seq<Vec<T>>) -> Seq<Seq<T>> {
    groups.map_values(|g: Vec<T>| g@)
}

/// Where group `j`'s descriptors begin inside the flattened groups.
pub open spec fn group_offset<T>(groups: Seq<Seq<T>>, j: int) -> nat {
    total_len(groups.take(j))
}

proof fn lemma_concat_all_push<T>(groups: Seq<Seq<T>>, g: Seq<T>)
    ensures
        concat_all(groups.push(g)) == concat_all(groups) + g,
    decreases groups.len(),
{
    let p = groups.push(g);
    if groups.len() == 0 {
        assert(p.drop_first() =~= Seq::<Seq<T>>::empty());
        assert(p.first() == g);
        assert(concat_all(p.drop_first()) =~= Seq::<T>::empty());
        assert(concat_all(p) == g + concat_all(p.drop_first()));
        assert(concat_all(groups) =~= Seq::<T>::empty());
        assert(g + Seq::<T>::empty() =~= concat_all(groups) + g);
    } else {
        assert(p.first() == groups.first());
        assert(p.drop_first() =~= groups.drop_first().push(g));
        lemma_concat_all_push(groups.drop_first(), g);
        assert(concat_all(p) == groups.first() + concat_all(groups.drop_first().push(g)));
        assert(groups.first() + (concat_all(groups.drop_first()) + g) =~= (groups.first()
            + concat_all(groups.drop_first())) + g);
        assert(concat_all(groups) == groups.first() + concat_all(groups.drop_first()));
    }
}

proof fn lemma_concat_all_len<T>(groups: Seq<Seq<T>>)
    ensures
        concat_all(groups).len() == total_len(groups),
    decreases groups.len(),
{
    if groups.len() > 0 {
        lemma_concat_all_len(groups.drop_first());
    }
}

proof fn lemma_concat_all_index<T>(groups: Seq<Seq<T>>, j: int, k: int)
    requires
        0 <= j < groups.len(),
        0 <= k < groups[j].len(),
    ensures
        group_offset(groups, j) + k < concat_all(groups).len(),
        concat_all(groups)[group_offset(groups, j) + k] == groups[j][k],
    decreases j,
{
    lemma_concat_all_len(groups);
    if j == 0 {
        assert(groups.take(0) =~= Seq::<Seq<T>>::empty());
        assert(groups.first() == groups[0]);
        lemma_concat_all_len(groups.drop_first());
    } else {
        lemma_concat_all_index(groups.drop_first(), j - 1, k);
        assert(groups.take(j).drop_first() =~= groups.drop_first().take(j - 1));
        assert(groups.take(j).first() == groups[0]);
        assert(group_offset(groups, j) == groups[0].len() + group_offset(groups.drop_first(), j
            - 1));
        assert(concat_all(groups)[group_offset(groups, j) + k] == concat_all(groups.drop_first())[
            group_offset(groups.drop_first(), j - 1) + k]);
    }
}

/// Law: no entry is dropped or duplicated. The plan is exactly as long as the
/// number of singular results plus the sum of the parameterized groups'
/// lengths; the singular results stand first, in order; and each group's
/// descriptors stand after them, contiguous, in group order and in each
/// group's own order.
pub proof fn lemma_plan_complete<T>(singular: Seq<T>, groups: Seq<Seq<T>>)
    ensures
        plan_spec(singular, groups).len() == singular.len() + total_len(groups),
        forall|i: int|
            0 <= i < singular.len() ==> plan_spec(singular, groups)[i] == singular[i],
        forall|j: int, k: int|
            0 <= j < groups.len() && 0 <= k < groups[j].len() ==> plan_spec(singular, groups)[
                singular.len() + group_offset(groups, j) + k] == groups[j][k],
{
    lemma_concat_all_len(groups);
    assert forall|j: int, k: int|
        0 <= j < groups.len() && 0 <= k < groups[j].len() implies plan_spec(singular, groups)[
        singular.len() + group_offset(groups, j) + k] == groups[j][k] by {
        lemma_concat_all_index(groups, j, k);
    }
}

/// Law: aggregation order is deterministic. The plan is a function of the
/// contributed entries' produced descriptors alone, so the same contributions
/// yield the same plan, in the same order, on every run of the same built
/// program.
pub proof fn lemma_plan_deterministic<T>(
    singular: Seq<T>,
    groups: Seq<Seq<T>>,
    plan1: Seq<T>,
    plan2: Seq<T>,
)
    requires
        plan1 == plan_spec(singular, groups),
        plan2 == plan_spec(singular, groups),
    ensures
        plan1 == plan2,
{
}

/// Invokes every entry of a singular registry once, in registry order, and
/// collects the descriptor each entry produced.
pub fn invoke_all<F: Fn() -> Trial>(reg: &Registry<F>) -> (produced: Vec<Trial>)
    requires
        forall|i: int| 0 <= i < reg@.len() ==> call_requires(#[trigger] reg@[i], ()),
    ensures
        produced@.len() == reg@.len(),
        forall|i: int|
            0 <= i < reg@.len() ==> call_ensures(reg@[i], (), #[trigger] produced@[i]),
{
    let mut produced: Vec<Trial> = Vec::new();
    let mut i: usize = 0;
    let n = reg.len();
    while i < n
        invariant
            n == reg@.len(),
            i <= n,
            forall|k: int| 0 <= k < reg@.len() ==> call_requires(#[trigger] reg@[k], ()),
            produced@.len() == i,
            forall|k: int| 0 <= k < i ==> call_ensures(reg@[k], (), #[trigger] produced@[k]),
        decreases n - i,
    {
        let entry = reg.get(i);
        let descriptor = entry();
        produced.push(descriptor);
        i += 1;
    }
    produced
}

/// Invokes every entry of a parameterized registry once, in registry order,
/// and collects the descriptor group each entry produced.
pub fn invoke_all_parameterized<G: Fn() -> Vec<Trial>>(reg: &Registry<G>) -> (produced: Vec<
    Vec<Trial>,
>)
    requires
        forall|i: int| 0 <= i < reg@.len() ==> call_requires(#[trigger] reg@[i], ()),
    ensures
        produced@.len() == reg@.len(),
        forall|i: int|
            0 <= i < reg@.len() ==> call_ensures(reg@[i], (), #[trigger] produced@[i]),
{
    let mut produced: Vec<Vec<Trial>> = Vec::new();
    let mut i: usize = 0;
    let n = reg.len();
    while i < n
        invariant
            n == reg@.len(),
            i <= n,
            forall|k: int| 0 <= k < reg@.len() ==> call_requires(#[trigger] reg@[k], ()),
            produced@.len() == i,
            forall|k: int| 0 <= k < i ==> call_ensures(reg@[k], (), #[trigger] produced@[k]),
        decreases n - i,
    {
        let entry = reg.get(i);
        let group = entry();
        produced.push(group);
        i += 1;
    }
    produced
}

/// Concatenates the singular descriptors and the parameterized groups into
/// the execution plan: the singular descriptors first, in order, then every
/// group's descriptors, each group kept contiguous and in its own order.
pub fn build_plan(singular: Vec<Trial>, groups: Vec<Vec<Trial>>) -> (plan: Vec<Trial>)
    ensures
        plan@ == plan_spec(singular@, views_of(groups@)),
{
    let ghost singular0 = singular@;
    let ghost groups0 = groups@;
    let mut plan = singular;
    let mut remaining = groups;
    let ghost mut j: int = 0;
    proof {
        assert(groups0.take(0) =~= Seq::<Vec<Trial>>::empty());
        assert(views_of(Seq::<Vec<Trial>>::empty()) =~= Seq::<Seq<Trial>>::empty());
        assert(plan@ =~= plan_spec(singular0, views_of(groups0.take(0))));
    }
    while remaining.len() > 0
        invariant
            0 <= j <= groups0.len(),
            remaining@ == groups0.skip(j),
            plan@ == plan_spec(singular0, views_of(groups0.take(j))),
        decreases remaining@.len(),
    {
        let mut group = remaining.remove(0);
        proof {
            assert(groups0.skip(j)[0] == groups0[j]);
            assert(groups0.skip(j).remove(0) =~= groups0.skip(j + 1));
        }
        plan.append(&mut group);
        proof {
            assert(views_of(groups0.take(j + 1)) =~= views_of(groups0.take(j)).push(
                groups0[j]@,
            ));
            lemma_concat_all_push(views_of(groups0.take(j)), groups0[j]@);
            assert(singular0 + (concat_all(views_of(groups0.take(j))) + groups0[j]@) =~= (
            singular0 + concat_all(views_of(groups0.take(j)))) + groups0[j]@);
            j = j + 1;
        }
    }
    proof {
        assert(groups0.take(j) =~= groups0);
    }
    plan
}

/// Builds the execution plan from the two registries: invokes every singular
/// entry once, then every parameterized entry once, and concatenates all
/// produced descriptors, singular results first, each parameterized group
/// flattened in its own order. Some sequence of produced descriptors and
/// groups — one per registry entry, each a possible output of its entry —
/// determines the plan exactly.
pub fn aggregate<F: Fn() -> Trial, G: Fn() -> Vec<Trial>>(
    singular: &Registry<F>,
    parameterized: &Registry<G>,
) -> (plan: Vec<Trial>)
    requires
        forall|i: int| 0 <= i < singular@.len() ==> call_requires(#[trigger] singular@[i], ()),
        forall|i: int|
            0 <= i < parameterized@.len() ==> call_requires(#[trigger] parameterized@[i], ()),
    ensures
        exists|produced: Seq<Trial>, groups: Seq<Vec<Trial>>|
            produced.len() == singular@.len() && groups.len() == parameterized@.len() && (
            forall|i: int|
                0 <= i < produced.len() ==> call_ensures(
                    singular@[i],
                    (),
                    #[trigger] produced[i],
                )) && (forall|i: int|
                0 <= i < groups.len() ==> call_ensures(
                    parameterized@[i],
                    (),
                    #[trigger] groups[i],
                )) && plan@ == #[trigger] plan_spec(produced, views_of(groups)),
{
    let singular_produced = invoke_all(singular);
    let parameterized_produced = invoke_all_parameterized(parameterized);
    let ghost produced = singular_produced@;
    let ghost groups = parameterized_produced@;
    let plan = build_plan(singular_produced, parameterized_produced);
    proof {
        assert(plan@ == plan_spec(produced, views_of(groups)));
    }
    plan
}

} // verus!
