//! The mathematical model of property resolution.
//!
//! [`spec_calculate`] defines, purely over sequences, sets and maps, what a
//! calculation over a sheet returns: the modifier index built from the
//! active feature sets in sheet order (a later definition of the same
//! property wins), the result store seeded with the user values, and a
//! depth-first, memoized, cycle-guarded resolution of every indexed
//! property.  The executable engine is proved to return exactly this map.
//!
//! Cycle handling: when resolution of a property reaches a property that is
//! already on the resolution stack, a pending chain of cycle nodes travels
//! back up the stack, each frame on the cycle prepending its own node; the
//! frame at which the chain closes writes, for every member of the cycle,
//! a `Cycle` error holding the full cycle in traversal order, rotated to
//! start at that member.  A property whose dependency already resolved to an
//! error receives that same error.

use vstd::prelude::*;

use crate::character_sheet_collection::{
    CalculatedValueView, FeatureSetView, FeatureView, ScriptView, ValueView,
};
use crate::engine::{
    CalcInfoView, CycleNodeView, MissingDependencyView, ResultView, ValueCalculationErrorView,
};
use crate::text::spec_parse_i32;

verus! {

/// The outcome of resolving one property: either the property (and possibly
/// others) received a value, or a cycle was detected and its chain of nodes
/// is still travelling up to the frame where it closes.
pub enum ResolveOutcomeView {
    Done,
    Pending(Seq<CycleNodeView>),
}

/// The outcome of resolving the dependency list of a script.
pub enum DepsOutcomeView {
    /// Every dependency has a successful value.
    AllOk,
    /// A dependency failed or is missing; the error the property shall
    /// carry.
    Failed(ValueCalculationErrorView),
    /// A cycle was detected below and its chain is travelling up.
    Pending(Seq<CycleNodeView>),
}

/// The message carried by a script error: only integer literals are
/// interpreted today.
pub open spec fn script_error_message() -> Seq<char> {
    "script is not an integer literal"@
}

/// What evaluating a script returns: the value of the script text read as a
/// decimal integer literal, or a script error.
pub open spec fn spec_eval_script(s: ScriptView) -> ResultView {
    match spec_parse_i32(s.script) {
        Some(n) => Ok(ValueView::Number(n)),
        None => Err(ValueCalculationErrorView::ScriptError(script_error_message())),
    }
}

/// The cycle node describing the definition site of property `p`.
pub open spec fn node_of(idx: Map<Seq<char>, CalcInfoView>, p: Seq<char>) -> CycleNodeView {
    CycleNodeView {
        feature_set: idx[p].feature_set,
        feature: idx[p].feature,
        property: idx[p].modifier.property,
    }
}

/// The index entries contributed by one feature: one entry per modifier, in
/// order, keyed by the modifier's target property.
pub open spec fn mods_of_feature(set_name: Seq<char>, f: FeatureView) -> Seq<
    (Seq<char>, CalcInfoView),
> {
    Seq::new(
        f.modifiers.len(),
        |i: int|
            (
                f.modifiers[i].property,
                CalcInfoView { feature_set: set_name, feature: f.name, modifier: f.modifiers[i] },
            ),
    )
}

/// The index entries contributed by the first `j` features of a feature
/// set.
pub open spec fn mods_of_set_upto(fs: FeatureSetView, j: int) -> Seq<(Seq<char>, CalcInfoView)>
    decreases j,
{
    if j <= 0 {
        Seq::empty()
    } else {
        mods_of_set_upto(fs, j - 1) + mods_of_feature(fs.name, fs.features[j - 1])
    }
}

/// The index entries contributed by a feature set.
pub open spec fn mods_of_set(fs: FeatureSetView) -> Seq<(Seq<char>, CalcInfoView)> {
    mods_of_set_upto(fs, fs.features.len() as int)
}

/// The index entries contributed by the first `i` feature sets.
pub open spec fn mods_upto(active: Seq<FeatureSetView>, i: int) -> Seq<(Seq<char>, CalcInfoView)>
    decreases i,
{
    if i <= 0 {
        Seq::empty()
    } else {
        mods_upto(active, i - 1) + mods_of_set(active[i - 1])
    }
}

/// All index entries of the active feature sets, in sheet order.
pub open spec fn mods_of(active: Seq<FeatureSetView>) -> Seq<(Seq<char>, CalcInfoView)> {
    mods_upto(active, active.len() as int)
}

/// The modifier index denoted by a sequence of entries: a later entry for
/// the same property wins.
pub open spec fn index_map(entries: Seq<(Seq<char>, CalcInfoView)>) -> Map<Seq<char>, CalcInfoView>
    decreases entries.len(),
{
    if entries.len() == 0 {
        Map::empty()
    } else {
        index_map(entries.drop_last()).insert(entries.last().0, entries.last().1)
    }
}

/// The distinct keys of a sequence of entries, in first-appearance order.
pub open spec fn index_keys(entries: Seq<(Seq<char>, CalcInfoView)>) -> Seq<Seq<char>>
    decreases entries.len(),
{
    if entries.len() == 0 {
        Seq::empty()
    } else {
        let rest = index_keys(entries.drop_last());
        if rest.contains(entries.last().0) {
            rest
        } else {
            rest.push(entries.last().0)
        }
    }
}

/// A well-formed index maps each property to an entry whose modifier
/// targets that very property.
pub open spec fn wf_index(idx: Map<Seq<char>, CalcInfoView>) -> bool {
    forall|p: Seq<char>| #[trigger]
        idx.dom().contains(p) ==> idx[p].modifier.property == p
}

/// The conditions under which resolution is well-defined: the index is
/// finite and the in-progress set is a finite subset of its domain.
pub open spec fn state_ok(idx: Map<Seq<char>, CalcInfoView>, in_prog: Set<Seq<char>>) -> bool {
    idx.dom().finite() && in_prog.finite() && in_prog.subset_of(idx.dom())
}

/// The rotation of a cycle that starts at its `i`-th member.
pub open spec fn rotation(full: Seq<CycleNodeView>, i: int) -> Seq<CycleNodeView> {
    full.subrange(i, full.len() as int) + full.subrange(0, i)
}

/// Writes, for the first `upto` members of the closed cycle `full`, the
/// `Cycle` error rotated to start at that member.
pub open spec fn write_cycles(
    values: Map<Seq<char>, ResultView>,
    full: Seq<CycleNodeView>,
    upto: int,
) -> Map<Seq<char>, ResultView>
    decreases upto,
{
    if upto <= 0 {
        values
    } else {
        write_cycles(values, full, upto - 1).insert(
            full[upto - 1].property,
            Err(ValueCalculationErrorView::Cycle(rotation(full, upto - 1))),
        )
    }
}

/// Resolves one property: the updated store and the outcome.
///
/// A property that already has a value is left alone.  A property that is
/// already being resolved starts a pending cycle chain.  A constant
/// modifier publishes its value.  A script modifier resolves its declared
/// dependencies in order and then publishes the script's value, the error
/// of a failed dependency, or — when a pending chain closes here — a cycle
/// error for every member of the cycle.
pub open spec fn resolve_one(
    idx: Map<Seq<char>, CalcInfoView>,
    curr: Seq<char>,
    values: Map<Seq<char>, ResultView>,
    in_prog: Set<Seq<char>>,
) -> (Map<Seq<char>, ResultView>, ResolveOutcomeView)
    decreases (idx.dom() - in_prog).len(), 0nat, 0nat,
        when state_ok(idx, in_prog) && idx.dom().contains(curr)
        via resolve_one_decreases
{
    if values.dom().contains(curr) {
        (values, ResolveOutcomeView::Done)
    } else if in_prog.contains(curr) {
        (values, ResolveOutcomeView::Pending(seq![node_of(idx, curr)]))
    } else {
        match idx[curr].modifier.value {
            CalculatedValueView::StaticValue(v) => (
                values.insert(curr, Ok(v)),
                ResolveOutcomeView::Done,
            ),
            CalculatedValueView::Script(s) => {
                let r = resolve_deps(idx, idx[curr], s.dependencies, values, in_prog.insert(curr));
                match r.1 {
                    DepsOutcomeView::AllOk => (
                        r.0.insert(curr, spec_eval_script(s)),
                        ResolveOutcomeView::Done,
                    ),
                    DepsOutcomeView::Failed(e) => (
                        r.0.insert(curr, Err(e)),
                        ResolveOutcomeView::Done,
                    ),
                    DepsOutcomeView::Pending(chain) => {
                        if chain.len() > 0 && chain.last().property == curr {
                            let full = seq![chain.last()] + chain.drop_last();
                            (write_cycles(r.0, full, full.len() as int), ResolveOutcomeView::Done)
                        } else {
                            (
                                r.0,
                                ResolveOutcomeView::Pending(seq![node_of(idx, curr)] + chain),
                            )
                        }
                    },
                }
            },
        }
    }
}

/// Resolves the dependencies `deps` of the property whose definition site
/// is `info`; `in_prog` already contains that property.
pub open spec fn resolve_deps(
    idx: Map<Seq<char>, CalcInfoView>,
    info: CalcInfoView,
    deps: Seq<Seq<char>>,
    values: Map<Seq<char>, ResultView>,
    in_prog: Set<Seq<char>>,
) -> (Map<Seq<char>, ResultView>, DepsOutcomeView)
    decreases (idx.dom() - in_prog).len(), 1nat, deps.len(),
        when state_ok(idx, in_prog)
{
    if deps.len() == 0 {
        (values, DepsOutcomeView::AllOk)
    } else {
        let d = deps[0];
        if values.dom().contains(d) {
            match values[d] {
                Ok(_) => resolve_deps(idx, info, deps.drop_first(), values, in_prog),
                Err(e) => (values, DepsOutcomeView::Failed(e)),
            }
        } else if !idx.dom().contains(d) {
            (values, DepsOutcomeView::Failed(missing_error(info, d)))
        } else {
            let r = resolve_one(idx, d, values, in_prog);
            match r.1 {
                ResolveOutcomeView::Done => {
                    if r.0.dom().contains(d) {
                        match r.0[d] {
                            Ok(_) => resolve_deps(idx, info, deps.drop_first(), r.0, in_prog),
                            Err(e) => (r.0, DepsOutcomeView::Failed(e)),
                        }
                    } else {
                        // resolving with a Done outcome always records a value
                        // for the property; the executable code treats an
                        // absent value the same way as a missing dependency
                        (r.0, DepsOutcomeView::Failed(missing_error(info, d)))
                    }
                },
                ResolveOutcomeView::Pending(chain) => (r.0, DepsOutcomeView::Pending(chain)),
            }
        }
    }
}

/// The error reported when `info`'s script depends on the undefined,
/// non-user-supplied property `d`.
pub open spec fn missing_error(info: CalcInfoView, d: Seq<char>) -> ValueCalculationErrorView {
    ValueCalculationErrorView::MissingDependency(
        MissingDependencyView {
            missing_dependency: d,
            found_in_feature_set: info.feature_set,
            found_in_feature: info.feature,
            found_in_property: info.modifier.property,
        },
    )
}

#[via_fn]
proof fn resolve_one_decreases(
    idx: Map<Seq<char>, CalcInfoView>,
    curr: Seq<char>,
    values: Map<Seq<char>, ResultView>,
    in_prog: Set<Seq<char>>,
) {
    if !values.dom().contains(curr) && !in_prog.contains(curr) {
        lemma_measure_insert(idx, curr, in_prog);
    }
}

/// Marking one more indexed property as in progress shrinks the measure of
/// the resolution.
pub proof fn lemma_measure_insert(
    idx: Map<Seq<char>, CalcInfoView>,
    curr: Seq<char>,
    in_prog: Set<Seq<char>>,
)
    requires
        state_ok(idx, in_prog),
        idx.dom().contains(curr),
        !in_prog.contains(curr),
    ensures
        (idx.dom() - in_prog.insert(curr)).len() < (idx.dom() - in_prog).len(),
{
    let before = idx.dom() - in_prog;
    let after = idx.dom() - in_prog.insert(curr);
    assert(before.finite()) by {
        vstd::set::axiom_set_difference_finite(idx.dom(), in_prog);
    }
    assert(after =~= before.remove(curr));
    assert(before.contains(curr));
    assert(before.remove(curr).len() == before.len() - 1);
}

/// Resolves, from left to right, every property of `keys`; the in-progress
/// set is empty between top-level properties.
pub open spec fn resolve_all(
    idx: Map<Seq<char>, CalcInfoView>,
    keys: Seq<Seq<char>>,
    values: Map<Seq<char>, ResultView>,
) -> Map<Seq<char>, ResultView>
    decreases keys.len(),
{
    if keys.len() == 0 {
        values
    } else {
        let prev = resolve_all(idx, keys.drop_last(), values);
        resolve_one(idx, keys.last(), prev, Set::empty()).0
    }
}

/// The result store seeded with every user value as a success.
pub open spec fn seed_values(user: Map<Seq<char>, ValueView>) -> Map<Seq<char>, ResultView> {
    Map::new(|k: Seq<char>| user.dom().contains(k), |k: Seq<char>| Ok(user[k]))
}

/// What a calculation over a sheet returns: the store seeded from the user
/// values and completed by resolving every indexed property in index
/// order.
pub open spec fn spec_calculate(
    user: Map<Seq<char>, ValueView>,
    active: Seq<FeatureSetView>,
) -> Map<Seq<char>, ResultView> {
    let entries = mods_of(active);
    resolve_all(index_map(entries), index_keys(entries), seed_values(user))
}

/// The set of property names that the scripts of `entries` declare as
/// dependencies.
pub open spec fn deps_of_entries(entries: Seq<(Seq<char>, CalcInfoView)>) -> Set<Seq<char>>
    decreases entries.len(),
{
    if entries.len() == 0 {
        Set::empty()
    } else {
        deps_of_entries(entries.drop_last()) + (match entries.last().1.modifier.value {
            CalculatedValueView::Script(s) => crate::string_map::names_set(s.dependencies),
            CalculatedValueView::StaticValue(_) => Set::empty(),
        })
    }
}

/// The set of property names that the modifiers of `entries` define.
pub open spec fn targets_of_entries(entries: Seq<(Seq<char>, CalcInfoView)>) -> Set<Seq<char>>
    decreases entries.len(),
{
    if entries.len() == 0 {
        Set::empty()
    } else {
        targets_of_entries(entries.drop_last()).insert(entries.last().0)
    }
}

/// The defined targets are exactly the domain of the modifier index.
pub proof fn lemma_targets_dom(entries: Seq<(Seq<char>, CalcInfoView)>)
    ensures
        targets_of_entries(entries) == index_map(entries).dom(),
    decreases entries.len(),
{
    if entries.len() == 0 {
        assert(targets_of_entries(entries) =~= index_map(entries).dom());
    } else {
        lemma_targets_dom(entries.drop_last());
        assert(targets_of_entries(entries) =~= index_map(entries).dom());
    }
}

/// The keys of the modifier index are exactly the keys occurring in the
/// entry sequence, and they are pairwise distinct.
pub proof fn lemma_index_keys(entries: Seq<(Seq<char>, CalcInfoView)>)
    ensures
        forall|k: Seq<char>| #[trigger]
            index_keys(entries).contains(k) <==> index_map(entries).dom().contains(k),
        index_keys(entries).no_duplicates(),
    decreases entries.len(),
{
    if entries.len() > 0 {
        let rest = entries.drop_last();
        lemma_index_keys(rest);
        let k0 = entries.last().0;
        if index_keys(rest).contains(k0) {
            assert(forall|k: Seq<char>| #[trigger]
                index_keys(entries).contains(k) <==> index_map(entries).dom().contains(k));
        } else {
            let keys = index_keys(rest).push(k0);
            assert forall|k: Seq<char>| #[trigger] keys.contains(k) implies index_map(
                entries,
            ).dom().contains(k) by {
                let i = choose|i: int| 0 <= i < keys.len() && keys[i] == k;
                if i < keys.len() - 1 {
                    assert(index_keys(rest)[i] == k);
                    assert(index_keys(rest).contains(k));
                }
            }
            assert forall|k: Seq<char>| #[trigger] index_map(entries).dom().contains(k) implies
                keys.contains(k) by {
                if k == k0 {
                    assert(keys[keys.len() - 1] == k);
                } else {
                    assert(index_map(rest).dom().contains(k));
                    assert(index_keys(rest).contains(k));
                    let i = choose|i: int|
                        0 <= i < index_keys(rest).len() && index_keys(rest)[i] == k;
                    assert(keys[i] == k);
                }
            }
            assert(keys.no_duplicates()) by {
                assert(forall|i: int|
                    0 <= i < keys.len() - 1 ==> #[trigger] keys[i] == index_keys(rest)[i]);
                assert(!index_keys(rest).contains(k0));
            }
        }
    }
}

/// An index built from entries keyed by their own modifier's target is
/// well formed.
pub proof fn lemma_index_map_wf(entries: Seq<(Seq<char>, CalcInfoView)>)
    requires
        forall|i: int|
            0 <= i < entries.len() ==> #[trigger] entries[i].1.modifier.property == entries[i].0,
    ensures
        wf_index(index_map(entries)),
    decreases entries.len(),
{
    if entries.len() > 0 {
        let rest = entries.drop_last();
        assert(forall|i: int|
            0 <= i < rest.len() ==> #[trigger] rest[i].1.modifier.property == rest[i].0);
        lemma_index_map_wf(rest);
        assert(entries[entries.len() - 1].1.modifier.property == entries[entries.len() - 1].0);
    }
}

/// The first `i` user values, seeded as successes.
pub open spec fn seed_upto(
    user: Map<Seq<char>, ValueView>,
    keys: Seq<Seq<char>>,
    i: int,
) -> Map<Seq<char>, ResultView>
    decreases i,
{
    if i <= 0 {
        Map::empty()
    } else {
        seed_upto(user, keys, i - 1).insert(keys[i - 1], Ok(user[keys[i - 1]]))
    }
}

proof fn lemma_seed_upto_props(user: Map<Seq<char>, ValueView>, keys: Seq<Seq<char>>, i: int)
    requires
        0 <= i <= keys.len(),
        forall|j: int| 0 <= j < keys.len() ==> user.dom().contains(#[trigger] keys[j]),
    ensures
        forall|k: Seq<char>| #[trigger]
            seed_upto(user, keys, i).dom().contains(k) <==> (exists|j: int|
                0 <= j < i && keys[j] == k),
        forall|k: Seq<char>| #[trigger]
            seed_upto(user, keys, i).dom().contains(k) ==> seed_upto(user, keys, i)[k]
                == Ok::<ValueView, ValueCalculationErrorView>(user[k]),
    decreases i,
{
    if i > 0 {
        lemma_seed_upto_props(user, keys, i - 1);
        assert(keys[i - 1] == keys[i - 1]);
    }
}

/// Seeding all user values, one after the other in any enumeration of
/// their names, yields the seeded store.
pub proof fn lemma_seed_upto_full(user: Map<Seq<char>, ValueView>, keys: Seq<Seq<char>>)
    requires
        forall|j: int| 0 <= j < keys.len() ==> user.dom().contains(#[trigger] keys[j]),
        forall|k: Seq<char>| #[trigger] user.dom().contains(k) ==> keys.contains(k),
    ensures
        seed_upto(user, keys, keys.len() as int) == seed_values(user),
{
    lemma_seed_upto_props(user, keys, keys.len() as int);
    assert(seed_upto(user, keys, keys.len() as int) =~= seed_values(user));
}

/// Whether `info` is a constant modifier.
pub open spec fn is_static(info: CalcInfoView) -> bool {
    info.modifier.value matches CalculatedValueView::StaticValue(_)
}

/// The constant of a constant modifier.
pub open spec fn static_value_of(info: CalcInfoView) -> ValueView {
    info.modifier.value->StaticValue_0
}

/// How a resolution step may change the store: entries are never removed
/// or overwritten, new keys come from the index, and a key defined by a
/// constant modifier only ever receives that constant.
pub open spec fn store_evolves(
    idx: Map<Seq<char>, CalcInfoView>,
    values: Map<Seq<char>, ResultView>,
    after: Map<Seq<char>, ResultView>,
) -> bool {
    (forall|k: Seq<char>| #[trigger]
        values.dom().contains(k) ==> after.dom().contains(k) && after[k] == values[k])
        && (forall|k: Seq<char>| #[trigger]
        after.dom().contains(k) ==> values.dom().contains(k) || idx.dom().contains(k))
        && (forall|k: Seq<char>|
        idx.dom().contains(k) && is_static(#[trigger] idx[k]) && after.dom().contains(k)
            && !values.dom().contains(k) ==> after[k] == Ok::<ValueView,
            ValueCalculationErrorView,
        >(static_value_of(idx[k])))
}

/// The in-progress discipline: a property on the stack has no value yet
/// and is defined by a script.
pub open spec fn prog_ok(
    idx: Map<Seq<char>, CalcInfoView>,
    values: Map<Seq<char>, ResultView>,
    in_prog: Set<Seq<char>>,
) -> bool {
    forall|k: Seq<char>| #[trigger]
        in_prog.contains(k) ==> !values.dom().contains(k) && idx.dom().contains(k)
            && (idx[k].modifier.value matches CalculatedValueView::Script(_))
}

/// What holds of a pending cycle chain: it is non-empty, it ends at an
/// in-progress property, every node is the definition site of its own
/// script-defined property, none of its members has a value, and only the
/// last member is in progress.
pub open spec fn chain_ok(
    idx: Map<Seq<char>, CalcInfoView>,
    in_prog: Set<Seq<char>>,
    after: Map<Seq<char>, ResultView>,
    chain: Seq<CycleNodeView>,
) -> bool {
    chain.len() > 0 && in_prog.contains(chain.last().property) && (forall|i: int|
        0 <= i < chain.len() ==> (#[trigger] chain[i]) == node_of(idx, chain[i].property)
            && idx.dom().contains(chain[i].property) && (idx[chain[i].property].modifier.value
            matches CalculatedValueView::Script(_)) && !after.dom().contains(chain[i].property))
        && (forall|i: int|
        0 <= i < chain.len() - 1 ==> !in_prog.contains((#[trigger] chain[i]).property))
}

/// `store_evolves` composes.
pub proof fn lemma_evolves_trans(
    idx: Map<Seq<char>, CalcInfoView>,
    a: Map<Seq<char>, ResultView>,
    b: Map<Seq<char>, ResultView>,
    c: Map<Seq<char>, ResultView>,
)
    requires
        store_evolves(idx, a, b),
        store_evolves(idx, b, c),
    ensures
        store_evolves(idx, a, c),
{
    assert forall|k: Seq<char>|
        idx.dom().contains(k) && is_static(#[trigger] idx[k]) && c.dom().contains(k)
            && !a.dom().contains(k) implies c[k] == Ok::<ValueView, ValueCalculationErrorView>(
        static_value_of(idx[k]),
    ) by {
        if b.dom().contains(k) {
            assert(b[k] == Ok::<ValueView, ValueCalculationErrorView>(static_value_of(idx[k])));
        }
    }
}

/// The effect of `write_cycles` on the store: members written, everything
/// else untouched; every write is a cycle error.
pub proof fn lemma_write_cycles_frame(
    values: Map<Seq<char>, ResultView>,
    full: Seq<CycleNodeView>,
    upto: int,
)
    requires
        0 <= upto <= full.len(),
    ensures
        forall|k: Seq<char>| #[trigger]
            write_cycles(values, full, upto).dom().contains(k) <==> (values.dom().contains(k)
                || exists|i: int| 0 <= i < upto && (#[trigger] full[i]).property == k),
        forall|k: Seq<char>|
            (forall|i: int| 0 <= i < upto ==> (#[trigger] full[i]).property != k) ==> (
            #[trigger] write_cycles(values, full, upto)[k] == values[k]),
        forall|k: Seq<char>|
            #[trigger] write_cycles(values, full, upto).dom().contains(k)
                && !values.dom().contains(k) ==> (write_cycles(values, full, upto)[k] matches Err(
                e,
            ) && e matches ValueCalculationErrorView::Cycle(_)),
    decreases upto,
{
    if upto > 0 {
        lemma_write_cycles_frame(values, full, upto - 1);
        assert(full[upto - 1].property == full[upto - 1].property);
        assert forall|k: Seq<char>| #[trigger]
            write_cycles(values, full, upto).dom().contains(k) implies (values.dom().contains(k)
                || exists|i: int| 0 <= i < upto && (#[trigger] full[i]).property == k) by {
            if k == full[upto - 1].property {
                assert(full[upto - 1].property == k);
            } else {
                assert(write_cycles(values, full, upto - 1).dom().contains(k));
            }
        }
    }
}

/// The frame property of resolving one property: the store only grows as
/// [`store_evolves`] allows, in-progress properties stay unwritten, a
/// `Done` outcome means the property has a value, and a pending chain
/// satisfies [`chain_ok`].
pub proof fn lemma_frame_one(
    idx: Map<Seq<char>, CalcInfoView>,
    curr: Seq<char>,
    values: Map<Seq<char>, ResultView>,
    in_prog: Set<Seq<char>>,
)
    requires
        state_ok(idx, in_prog),
        wf_index(idx),
        idx.dom().contains(curr),
        prog_ok(idx, values, in_prog),
    ensures
        ({
            let r = resolve_one(idx, curr, values, in_prog);
            store_evolves(idx, values, r.0) && prog_ok(idx, r.0, in_prog) && (r.1 matches
                ResolveOutcomeView::Done ==> r.0.dom().contains(curr)) && (r.1 matches
                ResolveOutcomeView::Pending(chain) ==> chain_ok(idx, in_prog, r.0, chain))
        }),
    decreases (idx.dom() - in_prog).len(), 0nat, 0nat,
{
    let r = resolve_one(idx, curr, values, in_prog);
    if values.dom().contains(curr) {
    } else if in_prog.contains(curr) {
        assert(node_of(idx, curr).property == curr);
        let chain = seq![node_of(idx, curr)];
        assert(chain.last() == node_of(idx, curr));
        assert(chain_ok(idx, in_prog, values, chain));
    } else {
        match idx[curr].modifier.value {
            CalculatedValueView::StaticValue(v) => {
                let after = values.insert(curr, Ok::<ValueView, ValueCalculationErrorView>(v));
                assert(static_value_of(idx[curr]) == v);
                assert(store_evolves(idx, values, after));
                assert(prog_ok(idx, after, in_prog));
                assert(r.0 == after);
            },
            CalculatedValueView::Script(s) => {
                let ip2 = in_prog.insert(curr);
                lemma_measure_insert(idx, curr, in_prog);
                lemma_frame_deps(idx, idx[curr], s.dependencies, values, ip2);
                let rd = resolve_deps(idx, idx[curr], s.dependencies, values, ip2);
                match rd.1 {
                    DepsOutcomeView::AllOk => {
                        let after = rd.0.insert(curr, spec_eval_script(s));
                        assert(ip2.contains(curr));
                        assert(!rd.0.dom().contains(curr));
                        assert(store_evolves(idx, rd.0, after));
                        lemma_evolves_trans(idx, values, rd.0, after);
                        assert(prog_ok(idx, after, in_prog)) by {
                            assert forall|k: Seq<char>| #[trigger]
                                in_prog.contains(k) implies !after.dom().contains(k) by {
                                assert(ip2.contains(k));
                                assert(!rd.0.dom().contains(k));
                                assert(k != curr);
                            }
                        }
                        assert(r.0 == after);
                    },
                    DepsOutcomeView::Failed(e) => {
                        let after = rd.0.insert(curr, Err(e));
                        assert(ip2.contains(curr));
                        assert(!rd.0.dom().contains(curr));
                        assert(store_evolves(idx, rd.0, after));
                        lemma_evolves_trans(idx, values, rd.0, after);
                        assert(prog_ok(idx, after, in_prog)) by {
                            assert forall|k: Seq<char>| #[trigger]
                                in_prog.contains(k) implies !after.dom().contains(k) by {
                                assert(ip2.contains(k));
                                assert(!rd.0.dom().contains(k));
                                assert(k != curr);
                            }
                        }
                        assert(r.0 == after);
                    },
                    DepsOutcomeView::Pending(chain) => {
                        if chain.len() > 0 && chain.last().property == curr {
                            let full = seq![chain.last()] + chain.drop_last();
                            let after = write_cycles(rd.0, full, full.len() as int);
                            lemma_write_cycles_frame(rd.0, full, full.len() as int);
                            assert forall|i: int| 0 <= i < full.len() implies idx.dom().contains(
                                (#[trigger] full[i]).property,
                            ) && (idx[full[i].property].modifier.value matches
                                CalculatedValueView::Script(_)) && !rd.0.dom().contains(
                                full[i].property,
                            ) && !in_prog.contains(full[i].property) by {
                                if i == 0 {
                                    assert(full[0] == chain.last());
                                    assert(chain[chain.len() - 1] == chain.last());
                                } else {
                                    assert(full[i] == chain[i - 1]);
                                    if i - 1 < chain.len() - 1 {
                                        assert(!ip2.contains(chain[i - 1].property));
                                    } else {
                                        assert(chain[i - 1] == chain.last());
                                    }
                                }
                            }
                            assert(store_evolves(idx, rd.0, after)) by {
                                assert forall|k: Seq<char>| #[trigger]
                                    rd.0.dom().contains(k) implies after.dom().contains(k)
                                    && after[k] == rd.0[k] by {
                                    assert forall|i: int| 0 <= i < full.len() implies (
                                    #[trigger] full[i]).property != k by {
                                        assert(!rd.0.dom().contains(full[i].property));
                                    }
                                }
                                assert forall|k: Seq<char>| #[trigger]
                                    after.dom().contains(k) implies rd.0.dom().contains(k)
                                    || idx.dom().contains(k) by {
                                    if !rd.0.dom().contains(k) {
                                        assert(exists|i: int|
                                            0 <= i < full.len() && (#[trigger] full[i]).property
                                                == k);
                                        let i = choose|i: int|
                                            0 <= i < full.len() && (#[trigger] full[i]).property
                                                == k;
                                        assert(idx.dom().contains(full[i].property));
                                    }
                                }
                                assert forall|k: Seq<char>|
                                    idx.dom().contains(k) && is_static(#[trigger] idx[k])
                                        && after.dom().contains(k) && !rd.0.dom().contains(k)
                                    implies after[k] == Ok::<ValueView,
                                    ValueCalculationErrorView,
                                >(static_value_of(idx[k])) by {
                                    assert(exists|i: int|
                                        0 <= i < full.len() && (#[trigger] full[i]).property == k);
                                    let i = choose|i: int|
                                        0 <= i < full.len() && (#[trigger] full[i]).property == k;
                                    assert(idx[full[i].property].modifier.value matches
                                        CalculatedValueView::Script(_));
                                }
                            }
                            lemma_evolves_trans(idx, values, rd.0, after);
                            assert(prog_ok(idx, after, in_prog)) by {
                                assert forall|k: Seq<char>| #[trigger]
                                    in_prog.contains(k) implies !after.dom().contains(k) by {
                                    assert(ip2.contains(k));
                                    assert(!rd.0.dom().contains(k));
                                    assert forall|i: int| 0 <= i < full.len() implies (
                                    #[trigger] full[i]).property != k by {
                                        assert(!in_prog.contains(full[i].property));
                                    }
                                }
                            }
                            assert(after.dom().contains(curr)) by {
                                assert(full[0].property == curr);
                            }
                        } else {
                            let chain2 = seq![node_of(idx, curr)] + chain;
                            assert(prog_ok(idx, rd.0, in_prog)) by {
                                assert forall|k: Seq<char>| #[trigger]
                                    in_prog.contains(k) implies !rd.0.dom().contains(k) by {
                                    assert(ip2.contains(k));
                                }
                            }
                            assert(chain_ok(idx, ip2, rd.0, chain));
                            assert(chain2.last() == chain.last()) by {
                                assert(chain2[chain2.len() - 1] == chain[chain.len() - 1]);
                            }
                            assert(chain.last().property != curr);
                            assert(in_prog.contains(chain2.last().property)) by {
                                assert(ip2.contains(chain.last().property));
                            }
                            assert(chain_ok(idx, in_prog, rd.0, chain2)) by {
                                assert(node_of(idx, curr).property == curr);
                                assert(chain2[0] == node_of(idx, curr));
                                assert forall|i: int| 0 <= i < chain2.len() implies (
                                #[trigger] chain2[i]) == node_of(idx, chain2[i].property)
                                    && idx.dom().contains(chain2[i].property) && (
                                idx[chain2[i].property].modifier.value matches
                                    CalculatedValueView::Script(_)) && !rd.0.dom().contains(
                                    chain2[i].property,
                                ) by {
                                    if i > 0 {
                                        assert(chain2[i] == chain[i - 1]);
                                    } else {
                                        assert(ip2.contains(curr));
                                        assert(!rd.0.dom().contains(curr));
                                    }
                                }
                                assert forall|i: int| 0 <= i < chain2.len() - 1 implies
                                    !in_prog.contains((#[trigger] chain2[i]).property) by {
                                    if i > 0 {
                                        assert(chain2[i] == chain[i - 1]);
                                        assert(!ip2.contains(chain[i - 1].property));
                                    }
                                }
                            }
                        }
                    },
                }
            },
        }
    }
}

/// The frame property of resolving a dependency list.
pub proof fn lemma_frame_deps(
    idx: Map<Seq<char>, CalcInfoView>,
    info: CalcInfoView,
    deps: Seq<Seq<char>>,
    values: Map<Seq<char>, ResultView>,
    in_prog: Set<Seq<char>>,
)
    requires
        state_ok(idx, in_prog),
        wf_index(idx),
        prog_ok(idx, values, in_prog),
    ensures
        ({
            let r = resolve_deps(idx, info, deps, values, in_prog);
            store_evolves(idx, values, r.0) && prog_ok(idx, r.0, in_prog) && (r.1 matches
                DepsOutcomeView::Pending(chain) ==> chain_ok(idx, in_prog, r.0, chain))
        }),
    decreases (idx.dom() - in_prog).len(), 1nat, deps.len(),
{
    if deps.len() == 0 {
    } else {
        let d = deps[0];
        if values.dom().contains(d) {
            match values[d] {
                Ok(_) => {
                    lemma_frame_deps(idx, info, deps.drop_first(), values, in_prog);
                },
                Err(_) => {},
            }
        } else if !idx.dom().contains(d) {
        } else {
            lemma_frame_one(idx, d, values, in_prog);
            let r = resolve_one(idx, d, values, in_prog);
            match r.1 {
                ResolveOutcomeView::Done => {
                    if r.0.dom().contains(d) {
                        match r.0[d] {
                            Ok(_) => {
                                lemma_frame_deps(idx, info, deps.drop_first(), r.0, in_prog);
                                let r2 = resolve_deps(idx, info, deps.drop_first(), r.0, in_prog);
                                lemma_evolves_trans(idx, values, r.0, r2.0);
                            },
                            Err(_) => {},
                        }
                    }
                },
                ResolveOutcomeView::Pending(_) => {},
            }
        }
    }
}

/// Every index entry is keyed by its own modifier's target property.
proof fn lemma_mods_of_set_keyed(fs: FeatureSetView, j: int)
    ensures
        forall|i: int|
            0 <= i < mods_of_set_upto(fs, j).len() ==> (#[trigger] mods_of_set_upto(
                fs,
                j,
            )[i]).1.modifier.property == mods_of_set_upto(fs, j)[i].0,
    decreases j,
{
    if j > 0 {
        lemma_mods_of_set_keyed(fs, j - 1);
        let prev = mods_of_set_upto(fs, j - 1);
        let part = mods_of_feature(fs.name, fs.features[j - 1]);
        assert forall|i: int|
            0 <= i < mods_of_set_upto(fs, j).len() implies (#[trigger] mods_of_set_upto(
            fs,
            j,
        )[i]).1.modifier.property == mods_of_set_upto(fs, j)[i].0 by {
            if i < prev.len() {
                assert(mods_of_set_upto(fs, j)[i] == prev[i]);
            } else {
                assert(mods_of_set_upto(fs, j)[i] == part[i - prev.len()]);
            }
        }
    }
}

/// As [`lemma_mods_of_set_keyed`], for a prefix of feature sets.
proof fn lemma_mods_upto_keyed(active: Seq<FeatureSetView>, n: int)
    ensures
        forall|i: int|
            0 <= i < mods_upto(active, n).len() ==> (#[trigger] mods_upto(
                active,
                n,
            )[i]).1.modifier.property == mods_upto(active, n)[i].0,
    decreases n,
{
    if n > 0 {
        lemma_mods_upto_keyed(active, n - 1);
        lemma_mods_of_set_keyed(active[n - 1], active[n - 1].features.len() as int);
        let prev = mods_upto(active, n - 1);
        let part = mods_of_set(active[n - 1]);
        assert forall|i: int|
            0 <= i < mods_upto(active, n).len() implies (#[trigger] mods_upto(
            active,
            n,
        )[i]).1.modifier.property == mods_upto(active, n)[i].0 by {
            if i < prev.len() {
                assert(mods_upto(active, n)[i] == prev[i]);
            } else {
                assert(mods_upto(active, n)[i] == part[i - prev.len()]);
            }
        }
    }
}

/// Every entry of [`mods_of`] is keyed by its own modifier's target, so the
/// modifier index built from it is well formed.
pub proof fn lemma_mods_keyed(active: Seq<FeatureSetView>)
    ensures
        forall|i: int|
            0 <= i < mods_of(active).len() ==> (#[trigger] mods_of(
                active,
            )[i]).1.modifier.property == mods_of(active)[i].0,
        wf_index(index_map(mods_of(active))),
{
    lemma_mods_upto_keyed(active, active.len() as int);
    lemma_index_map_wf(mods_of(active));
}

/// The domain of a modifier index is finite.
pub proof fn lemma_index_map_finite(entries: Seq<(Seq<char>, CalcInfoView)>)
    ensures
        index_map(entries).dom().finite(),
    decreases entries.len(),
{
    if entries.len() > 0 {
        lemma_index_map_finite(entries.drop_last());
    }
}

/// The frame property of the top-level resolution: the store only grows as
/// [`store_evolves`] allows, and every listed property ends with a value.
pub proof fn lemma_resolve_all_frame(
    idx: Map<Seq<char>, CalcInfoView>,
    keys: Seq<Seq<char>>,
    values: Map<Seq<char>, ResultView>,
)
    requires
        idx.dom().finite(),
        wf_index(idx),
        forall|j: int| 0 <= j < keys.len() ==> idx.dom().contains(#[trigger] keys[j]),
    ensures
        store_evolves(idx, values, resolve_all(idx, keys, values)),
        forall|j: int|
            0 <= j < keys.len() ==> resolve_all(idx, keys, values).dom().contains(
                #[trigger] keys[j],
            ),
    decreases keys.len(),
{
    if keys.len() > 0 {
        let rest = keys.drop_last();
        lemma_resolve_all_frame(idx, rest, values);
        let prev = resolve_all(idx, rest, values);
        assert(state_ok(idx, Set::empty()));
        assert(prog_ok(idx, prev, Set::empty()));
        assert(idx.dom().contains(keys.last())) by {
            assert(keys[keys.len() - 1] == keys.last());
        }
        lemma_frame_one(idx, keys.last(), prev, Set::empty());
        lemma_pending_one(idx, keys.last(), prev, Set::empty());
        let r = resolve_one(idx, keys.last(), prev, Set::empty());
        lemma_evolves_trans(idx, values, prev, r.0);
        match r.1 {
            ResolveOutcomeView::Done => {},
            ResolveOutcomeView::Pending(chain) => {
                assert(false);
            },
        }
        assert forall|j: int|
            0 <= j < keys.len() implies resolve_all(idx, keys, values).dom().contains(
            #[trigger] keys[j],
        ) by {
            if j < keys.len() - 1 {
                assert(rest[j] == keys[j]);
                assert(prev.dom().contains(keys[j]));
            } else {
                assert(keys[j] == keys.last());
            }
        }
    }
}

/// A pending outcome always carries a non-empty chain whose last node names
/// a property that is in progress.
pub proof fn lemma_pending_one(
    idx: Map<Seq<char>, CalcInfoView>,
    curr: Seq<char>,
    values: Map<Seq<char>, ResultView>,
    in_prog: Set<Seq<char>>,
)
    requires
        state_ok(idx, in_prog),
        idx.dom().contains(curr),
        wf_index(idx),
    ensures
        resolve_one(idx, curr, values, in_prog).1 matches ResolveOutcomeView::Pending(chain)
            ==> chain.len() > 0 && in_prog.contains(chain.last().property),
    decreases (idx.dom() - in_prog).len(), 0nat, 0nat,
{
    if values.dom().contains(curr) {
    } else if in_prog.contains(curr) {
        assert(node_of(idx, curr).property == curr);
    } else {
        match idx[curr].modifier.value {
            CalculatedValueView::StaticValue(_) => {},
            CalculatedValueView::Script(s) => {
                lemma_measure_insert(idx, curr, in_prog);
                lemma_pending_deps(idx, idx[curr], s.dependencies, values, in_prog.insert(curr));
                let r = resolve_deps(idx, idx[curr], s.dependencies, values, in_prog.insert(curr));
                match r.1 {
                    DepsOutcomeView::AllOk => {},
                    DepsOutcomeView::Failed(_) => {},
                    DepsOutcomeView::Pending(chain) => {
                        if chain.len() > 0 && chain.last().property == curr {
                        } else {
                            assert((seq![node_of(idx, curr)] + chain).last() == chain.last());
                        }
                    },
                }
            },
        }
    }
}

/// As [`lemma_pending_one`], for a dependency list.
pub proof fn lemma_pending_deps(
    idx: Map<Seq<char>, CalcInfoView>,
    info: CalcInfoView,
    deps: Seq<Seq<char>>,
    values: Map<Seq<char>, ResultView>,
    in_prog: Set<Seq<char>>,
)
    requires
        state_ok(idx, in_prog),
        wf_index(idx),
    ensures
        resolve_deps(idx, info, deps, values, in_prog).1 matches DepsOutcomeView::Pending(chain)
            ==> chain.len() > 0 && in_prog.contains(chain.last().property),
    decreases (idx.dom() - in_prog).len(), 1nat, deps.len(),
{
    if deps.len() == 0 {
    } else {
        let d = deps[0];
        if values.dom().contains(d) {
            match values[d] {
                Ok(_) => {
                    lemma_pending_deps(idx, info, deps.drop_first(), values, in_prog);
                },
                Err(_) => {},
            }
        } else if !idx.dom().contains(d) {
        } else {
            lemma_pending_one(idx, d, values, in_prog);
            let r = resolve_one(idx, d, values, in_prog);
            match r.1 {
                ResolveOutcomeView::Done => {
                    if r.0.dom().contains(d) {
                        match r.0[d] {
                            Ok(_) => {
                                lemma_pending_deps(idx, info, deps.drop_first(), r.0, in_prog);
                            },
                            Err(_) => {},
                        }
                    }
                },
                ResolveOutcomeView::Pending(_) => {},
            }
        }
    }
}

/// The set of property names that the active feature sets require as user
/// values: every name declared as a script dependency that no modifier
/// defines.
pub open spec fn spec_required_user_values(active: Seq<FeatureSetView>) -> Set<Seq<char>> {
    deps_of_entries(mods_of(active)) - index_map(mods_of(active)).dom()
}

} // verus!
