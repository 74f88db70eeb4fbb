//! The laws of the engine, proved once and for all over the mathematical
//! model [`crate::resolution::spec_calculate`].  The executable
//! [`crate::engine::CharacterSheet::calculate_all_values`] returns exactly
//! that model, so each law holds of every calculation result.

use vstd::prelude::*;

use crate::character_sheet_collection::{FeatureSetView, ValueView};
use crate::engine::{CharacterSheetView, ValueCalculationErrorView};
use crate::resolution::{
    index_map, is_static, lemma_index_keys, lemma_index_map_finite, lemma_mods_keyed,
    lemma_resolve_all_frame, mods_of, seed_values, spec_calculate, spec_required_user_values,
    static_value_of, store_evolves,
};

verus! {

/// Determinism: the calculation result is a mathematical function of the
/// sheet's user values and active feature sets, so repeated calls on an
/// unmodified sheet return identical maps.
pub proof fn lemma_calculate_deterministic(
    user: Map<Seq<char>, ValueView>,
    active: Seq<FeatureSetView>,
    r1: Map<Seq<char>, Result<ValueView, ValueCalculationErrorView>>,
    r2: Map<Seq<char>, Result<ValueView, ValueCalculationErrorView>>,
)
    requires
        r1 == spec_calculate(user, active),
        r2 == spec_calculate(user, active),
    ensures
        r1 == r2,
{
}

/// The common setup of the laws below: the store evolves from the seeds,
/// and every indexed property receives a value.
proof fn lemma_calculate_frame(user: Map<Seq<char>, ValueView>, active: Seq<FeatureSetView>)
    ensures
        store_evolves(index_map(mods_of(active)), seed_values(user), spec_calculate(user, active)),
        forall|k: Seq<char>| #[trigger]
            index_map(mods_of(active)).dom().contains(k) ==> spec_calculate(
                user,
                active,
            ).dom().contains(k),
{
    let entries = mods_of(active);
    let idx = index_map(entries);
    let keys = crate::resolution::index_keys(entries);
    lemma_mods_keyed(active);
    lemma_index_map_finite(entries);
    lemma_index_keys(entries);
    assert(forall|j: int| 0 <= j < keys.len() ==> idx.dom().contains(#[trigger] keys[j])) by {
        assert(forall|j: int| 0 <= j < keys.len() ==> keys.contains(#[trigger] keys[j]));
    }
    lemma_resolve_all_frame(idx, keys, seed_values(user));
    assert forall|k: Seq<char>| #[trigger] idx.dom().contains(k) implies spec_calculate(
        user,
        active,
    ).dom().contains(k) by {
        assert(keys.contains(k));
        let j = choose|j: int| 0 <= j < keys.len() && keys[j] == k;
        assert(crate::resolution::resolve_all(idx, keys, seed_values(user)).dom().contains(
            keys[j],
        ));
    }
}

/// Totality: the keys of the result map are exactly the user-value names
/// together with the properties of the modifier index; each appears once,
/// a map holding each key at most once.
pub proof fn lemma_calculate_totality(user: Map<Seq<char>, ValueView>, active: Seq<FeatureSetView>)
    ensures
        forall|k: Seq<char>| #[trigger]
            spec_calculate(user, active).dom().contains(k) <==> (user.dom().contains(k)
                || index_map(mods_of(active)).dom().contains(k)),
{
    lemma_calculate_frame(user, active);
    let seeds = seed_values(user);
    let result = spec_calculate(user, active);
    assert forall|k: Seq<char>| #[trigger] result.dom().contains(k) implies (user.dom().contains(k)
        || index_map(mods_of(active)).dom().contains(k)) by {
        if !user.dom().contains(k) {
            assert(!seeds.dom().contains(k));
        }
    }
    assert forall|k: Seq<char>|
        user.dom().contains(k) || index_map(mods_of(active)).dom().contains(k) implies
        #[trigger] result.dom().contains(k) by {
        if user.dom().contains(k) {
            assert(seeds.dom().contains(k));
        }
    }
}

/// User-value precedence: a property present in the user values resolves
/// to that value, even when a same-named modifier exists; the modifier is
/// never evaluated for that name.
pub proof fn lemma_user_value_precedence(
    user: Map<Seq<char>, ValueView>,
    active: Seq<FeatureSetView>,
    name: Seq<char>,
)
    requires
        user.dom().contains(name),
    ensures
        spec_calculate(user, active).dom().contains(name),
        spec_calculate(user, active)[name] == Ok::<ValueView, ValueCalculationErrorView>(
            user[name],
        ),
{
    lemma_calculate_frame(user, active);
    let seeds = seed_values(user);
    assert(seeds.dom().contains(name));
    assert(seeds[name] == Ok::<ValueView, ValueCalculationErrorView>(user[name]));
}

/// Constant modifiers never fail: a property whose authoritative modifier
/// is a constant, and that is not overridden by a user value, resolves to
/// that constant as a success.
pub proof fn lemma_constant_modifier(
    user: Map<Seq<char>, ValueView>,
    active: Seq<FeatureSetView>,
    name: Seq<char>,
)
    requires
        index_map(mods_of(active)).dom().contains(name),
        !user.dom().contains(name),
        is_static(index_map(mods_of(active))[name]),
    ensures
        spec_calculate(user, active).dom().contains(name),
        spec_calculate(user, active)[name] == Ok::<ValueView, ValueCalculationErrorView>(
            static_value_of(index_map(mods_of(active))[name]),
        ),
{
    lemma_calculate_frame(user, active);
    assert(!seed_values(user).dom().contains(name));
}

/// The invariant behind the missing-dependency law: `p`'s script names
/// the undefined `d` first, `q`'s script names `p` first, and whenever
/// either has a value it is the missing-dependency error naming `d` at
/// `p`'s site.
spec fn missing_inv(
    idx: Map<Seq<char>, crate::engine::CalcInfoView>,
    values: Map<Seq<char>, Result<ValueView, ValueCalculationErrorView>>,
    p: Seq<char>,
    q: Seq<char>,
    d: Seq<char>,
) -> bool {
    &&& idx.dom().contains(p)
    &&& idx.dom().contains(q)
    &&& !idx.dom().contains(d)
    &&& p != q
    &&& d != p
    &&& d != q
    &&& (idx[p].modifier.value matches crate::character_sheet_collection::CalculatedValueView::Script(
        s,
    ) && s.dependencies.len() > 0 && s.dependencies[0] == d)
    &&& (idx[q].modifier.value matches crate::character_sheet_collection::CalculatedValueView::Script(
        t,
    ) && t.dependencies.len() > 0 && t.dependencies[0] == p)
    &&& !values.dom().contains(d)
    &&& (values.dom().contains(p) ==> values[p] == Err::<ValueView, ValueCalculationErrorView>(
        crate::resolution::missing_error(idx[p], d),
    ))
    &&& (values.dom().contains(q) ==> values[q] == Err::<ValueView, ValueCalculationErrorView>(
        crate::resolution::missing_error(idx[p], d),
    ))
}

/// Resolving any property preserves [`missing_inv`], and no pending chain
/// ever carries `p` or `q`.
proof fn lemma_missing_inv_one(
    idx: Map<Seq<char>, crate::engine::CalcInfoView>,
    curr: Seq<char>,
    values: Map<Seq<char>, Result<ValueView, ValueCalculationErrorView>>,
    in_prog: Set<Seq<char>>,
    p: Seq<char>,
    q: Seq<char>,
    d: Seq<char>,
)
    requires
        crate::resolution::state_ok(idx, in_prog),
        crate::resolution::wf_index(idx),
        idx.dom().contains(curr),
        crate::resolution::prog_ok(idx, values, in_prog),
        missing_inv(idx, values, p, q, d),
        !in_prog.contains(p),
        !in_prog.contains(q),
    ensures
        ({
            let r = crate::resolution::resolve_one(idx, curr, values, in_prog);
            missing_inv(idx, r.0, p, q, d) && (r.1 matches
                crate::resolution::ResolveOutcomeView::Pending(chain) ==> forall|i: int|
                0 <= i < chain.len() ==> (#[trigger] chain[i]).property != p && chain[i].property
                    != q)
        }),
    decreases (idx.dom() - in_prog).len(), 0nat, 0nat,
{
    let r = crate::resolution::resolve_one(idx, curr, values, in_prog);
    if values.dom().contains(curr) {
    } else if in_prog.contains(curr) {
        assert(crate::resolution::node_of(idx, curr).property == curr);
    } else if curr == p {
        // p's frame fails on its first dependency at once and records the
        // error
        let s = idx[p].modifier.value->Script_0;
        let ip2 = in_prog.insert(p);
        let rd = crate::resolution::resolve_deps(idx, idx[p], s.dependencies, values, ip2);
        assert(crate::resolution::state_ok(idx, ip2));
        assert(rd == (
            values,
            crate::resolution::DepsOutcomeView::Failed(
                crate::resolution::missing_error(idx[p], d),
            ),
        ));
        assert(r.0 == values.insert(
            p,
            Err::<ValueView, ValueCalculationErrorView>(
                crate::resolution::missing_error(idx[p], d),
            ),
        ));
    } else if curr == q {
        // q's frame resolves p, finds or produces p's error, and inherits
        // it
        let t = idx[q].modifier.value->Script_0;
        let ip2 = in_prog.insert(q);
        assert(crate::resolution::state_ok(idx, ip2)) by {
            assert(ip2.subset_of(idx.dom()));
        }
        assert(crate::resolution::prog_ok(idx, values, ip2));
        let rd = crate::resolution::resolve_deps(idx, idx[q], t.dependencies, values, ip2);
        let e_missing = Err::<ValueView, ValueCalculationErrorView>(
            crate::resolution::missing_error(idx[p], d),
        );
        if values.dom().contains(p) {
            assert(values[p] == e_missing);
            assert(rd == (
                values,
                crate::resolution::DepsOutcomeView::Failed(
                    crate::resolution::missing_error(idx[p], d),
                ),
            ));
            assert(r.0 == values.insert(q, e_missing));
        } else {
            // p is resolved as q's dependency: compute its frame directly
            let rp = crate::resolution::resolve_one(idx, p, values, ip2);
            let s = idx[p].modifier.value->Script_0;
            let ip3 = ip2.insert(p);
            assert(crate::resolution::state_ok(idx, ip3)) by {
                assert(ip3.subset_of(idx.dom()));
            }
            let rdp = crate::resolution::resolve_deps(idx, idx[p], s.dependencies, values, ip3);
            assert(rdp == (
                values,
                crate::resolution::DepsOutcomeView::Failed(
                    crate::resolution::missing_error(idx[p], d),
                ),
            ));
            assert(!ip2.contains(p));
            assert(rp.0 == values.insert(p, e_missing));
            assert(rp.1 == crate::resolution::ResolveOutcomeView::Done);
            assert(rp.0.dom().contains(p));
            assert(rd == (rp.0, crate::resolution::DepsOutcomeView::Failed(
                crate::resolution::missing_error(idx[p], d),
            )));
            assert(r.0 == rp.0.insert(q, e_missing));
        }
    } else {
        match idx[curr].modifier.value {
            crate::character_sheet_collection::CalculatedValueView::StaticValue(_) => {},
            crate::character_sheet_collection::CalculatedValueView::Script(s) => {
                let ip2 = in_prog.insert(curr);
                crate::resolution::lemma_measure_insert(idx, curr, in_prog);
                lemma_missing_inv_deps(idx, idx[curr], s.dependencies, values, ip2, p, q, d);
                crate::resolution::lemma_frame_deps(idx, idx[curr], s.dependencies, values, ip2);
                let rd = crate::resolution::resolve_deps(idx, idx[curr], s.dependencies, values, ip2);
                match rd.1 {
                    crate::resolution::DepsOutcomeView::AllOk => {
                        assert(missing_inv(idx, r.0, p, q, d));
                    },
                    crate::resolution::DepsOutcomeView::Failed(_) => {
                        assert(missing_inv(idx, r.0, p, q, d));
                    },
                    crate::resolution::DepsOutcomeView::Pending(chain) => {
                        if chain.len() > 0 && chain.last().property == curr {
                            let full = seq![chain.last()] + chain.drop_last();
                            crate::resolution::lemma_write_cycles_frame(
                                rd.0,
                                full,
                                full.len() as int,
                            );
                            assert forall|i: int| 0 <= i < full.len() implies (
                            #[trigger] full[i]).property != p && full[i].property != q
                                && full[i].property != d by {
                                if i == 0 {
                                    assert(full[0] == chain.last());
                                    assert(chain[chain.len() - 1] == chain.last());
                                } else {
                                    assert(full[i] == chain[i - 1]);
                                }
                                assert(idx.dom().contains(full[i].property));
                            }
                            assert(missing_inv(idx, r.0, p, q, d)) by {
                                assert(!r.0.dom().contains(d));
                                if rd.0.dom().contains(p) {
                                    assert(r.0[p] == rd.0[p]);
                                }
                                if rd.0.dom().contains(q) {
                                    assert(r.0[q] == rd.0[q]);
                                }
                                assert(r.0.dom().contains(p) ==> rd.0.dom().contains(p));
                                assert(r.0.dom().contains(q) ==> rd.0.dom().contains(q));
                            }
                        } else {
                            assert(crate::resolution::node_of(idx, curr).property == curr);
                            let chain2 = seq![crate::resolution::node_of(idx, curr)] + chain;
                            assert forall|i: int| 0 <= i < chain2.len() implies (
                            #[trigger] chain2[i]).property != p && chain2[i].property != q by {
                                if i > 0 {
                                    assert(chain2[i] == chain[i - 1]);
                                }
                            }
                        }
                    },
                }
            },
        }
    }
}

/// As [`lemma_missing_inv_one`], for a dependency list.
proof fn lemma_missing_inv_deps(
    idx: Map<Seq<char>, crate::engine::CalcInfoView>,
    info: crate::engine::CalcInfoView,
    deps: Seq<Seq<char>>,
    values: Map<Seq<char>, Result<ValueView, ValueCalculationErrorView>>,
    in_prog: Set<Seq<char>>,
    p: Seq<char>,
    q: Seq<char>,
    d: Seq<char>,
)
    requires
        crate::resolution::state_ok(idx, in_prog),
        crate::resolution::wf_index(idx),
        crate::resolution::prog_ok(idx, values, in_prog),
        missing_inv(idx, values, p, q, d),
        !in_prog.contains(p),
        !in_prog.contains(q),
    ensures
        ({
            let r = crate::resolution::resolve_deps(idx, info, deps, values, in_prog);
            missing_inv(idx, r.0, p, q, d) && (r.1 matches
                crate::resolution::DepsOutcomeView::Pending(chain) ==> forall|i: int|
                0 <= i < chain.len() ==> (#[trigger] chain[i]).property != p && chain[i].property
                    != q)
        }),
    decreases (idx.dom() - in_prog).len(), 1nat, deps.len(),
{
    if deps.len() == 0 {
    } else {
        let dep = deps[0];
        if values.dom().contains(dep) {
            match values[dep] {
                Ok(_) => {
                    lemma_missing_inv_deps(idx, info, deps.drop_first(), values, in_prog, p, q, d);
                },
                Err(_) => {},
            }
        } else if !idx.dom().contains(dep) {
        } else {
            lemma_missing_inv_one(idx, dep, values, in_prog, p, q, d);
            crate::resolution::lemma_frame_one(idx, dep, values, in_prog);
            let r = crate::resolution::resolve_one(idx, dep, values, in_prog);
            match r.1 {
                crate::resolution::ResolveOutcomeView::Done => {
                    if r.0.dom().contains(dep) {
                        match r.0[dep] {
                            Ok(_) => {
                                lemma_missing_inv_deps(
                                    idx,
                                    info,
                                    deps.drop_first(),
                                    r.0,
                                    in_prog,
                                    p,
                                    q,
                                    d,
                                );
                            },
                            Err(_) => {},
                        }
                    }
                },
                crate::resolution::ResolveOutcomeView::Pending(_) => {},
            }
        }
    }
}

/// As [`lemma_missing_inv_one`], for the top-level traversal.
proof fn lemma_missing_inv_all(
    idx: Map<Seq<char>, crate::engine::CalcInfoView>,
    keys: Seq<Seq<char>>,
    values: Map<Seq<char>, Result<ValueView, ValueCalculationErrorView>>,
    p: Seq<char>,
    q: Seq<char>,
    d: Seq<char>,
)
    requires
        idx.dom().finite(),
        crate::resolution::wf_index(idx),
        forall|j: int| 0 <= j < keys.len() ==> idx.dom().contains(#[trigger] keys[j]),
        missing_inv(idx, values, p, q, d),
    ensures
        missing_inv(idx, crate::resolution::resolve_all(idx, keys, values), p, q, d),
    decreases keys.len(),
{
    if keys.len() > 0 {
        let rest = keys.drop_last();
        lemma_missing_inv_all(idx, rest, values, p, q, d);
        let prev = crate::resolution::resolve_all(idx, rest, values);
        assert(crate::resolution::state_ok(idx, Set::empty()));
        assert(crate::resolution::prog_ok(idx, prev, Set::empty()));
        assert(idx.dom().contains(keys.last())) by {
            assert(keys[keys.len() - 1] == keys.last());
        }
        lemma_missing_inv_one(idx, keys.last(), prev, Set::empty(), p, q, d);
    }
}

/// Missing-dependency propagation, on any sheet: a script on `p` whose
/// first dependency `d` no modifier defines and no user value supplies
/// resolves to a missing-dependency error naming `d` and `p`'s declaring
/// site; a script on `q` whose first dependency is `p` inherits that very
/// error, naming the original missing property, not `q`'s own site.
pub proof fn lemma_missing_dependency_propagation(
    user: Map<Seq<char>, ValueView>,
    active: Seq<FeatureSetView>,
    p: Seq<char>,
    q: Seq<char>,
    d: Seq<char>,
)
    requires
        ({
            let idx = index_map(mods_of(active));
            idx.dom().contains(p) && idx.dom().contains(q) && !idx.dom().contains(d) && p != q
                && d != p && d != q && (idx[p].modifier.value matches
                crate::character_sheet_collection::CalculatedValueView::Script(s)
                && s.dependencies.len() > 0 && s.dependencies[0] == d) && (idx[q].modifier.value
                matches crate::character_sheet_collection::CalculatedValueView::Script(t)
                && t.dependencies.len() > 0 && t.dependencies[0] == p)
        }),
        !user.dom().contains(p),
        !user.dom().contains(q),
        !user.dom().contains(d),
    ensures
        spec_calculate(user, active).dom().contains(p),
        spec_calculate(user, active).dom().contains(q),
        spec_calculate(user, active)[p] == Err::<ValueView, ValueCalculationErrorView>(
            crate::resolution::missing_error(index_map(mods_of(active))[p], d),
        ),
        spec_calculate(user, active)[q] == Err::<ValueView, ValueCalculationErrorView>(
            crate::resolution::missing_error(index_map(mods_of(active))[p], d),
        ),
{
    let entries = mods_of(active);
    let idx = index_map(entries);
    let keys = crate::resolution::index_keys(entries);
    let seeds = seed_values(user);
    lemma_mods_keyed(active);
    lemma_index_map_finite(entries);
    lemma_index_keys(entries);
    assert(missing_inv(idx, seeds, p, q, d));
    assert(forall|j: int| 0 <= j < keys.len() ==> idx.dom().contains(#[trigger] keys[j])) by {
        assert(forall|j: int| 0 <= j < keys.len() ==> keys.contains(#[trigger] keys[j]));
    }
    lemma_missing_inv_all(idx, keys, seeds, p, q, d);
    lemma_calculate_totality(user, active);
}

/// The invariant behind the two-node-cycle law: `a`'s script names `b`
/// first and `b`'s names `a` first, the two receive values only together,
/// and those values are the cycle error rotated to start at each member.
spec fn cycle_inv(
    idx: Map<Seq<char>, crate::engine::CalcInfoView>,
    values: Map<Seq<char>, Result<ValueView, ValueCalculationErrorView>>,
    a: Seq<char>,
    b: Seq<char>,
) -> bool {
    &&& idx.dom().contains(a)
    &&& idx.dom().contains(b)
    &&& a != b
    &&& (idx[a].modifier.value matches crate::character_sheet_collection::CalculatedValueView::Script(
        s,
    ) && s.dependencies == seq![b])
    &&& (idx[b].modifier.value matches crate::character_sheet_collection::CalculatedValueView::Script(
        t,
    ) && t.dependencies == seq![a])
    &&& (values.dom().contains(a) <==> values.dom().contains(b))
    &&& (values.dom().contains(a) ==> values[a] == Err::<ValueView, ValueCalculationErrorView>(
        ValueCalculationErrorView::Cycle(
            seq![crate::resolution::node_of(idx, a), crate::resolution::node_of(idx, b)],
        ),
    ) && values[b] == Err::<ValueView, ValueCalculationErrorView>(
        ValueCalculationErrorView::Cycle(
            seq![crate::resolution::node_of(idx, b), crate::resolution::node_of(idx, a)],
        ),
    ))
}

/// Resolving either cycle member writes both rotations at once; resolving
/// anything else leaves the pair alone, and no pending chain ever carries
/// `a` or `b`.
proof fn lemma_cycle_inv_one(
    idx: Map<Seq<char>, crate::engine::CalcInfoView>,
    curr: Seq<char>,
    values: Map<Seq<char>, Result<ValueView, ValueCalculationErrorView>>,
    in_prog: Set<Seq<char>>,
    a: Seq<char>,
    b: Seq<char>,
)
    requires
        crate::resolution::state_ok(idx, in_prog),
        crate::resolution::wf_index(idx),
        idx.dom().contains(curr),
        crate::resolution::prog_ok(idx, values, in_prog),
        cycle_inv(idx, values, a, b),
        !in_prog.contains(a),
        !in_prog.contains(b),
    ensures
        ({
            let r = crate::resolution::resolve_one(idx, curr, values, in_prog);
            cycle_inv(idx, r.0, a, b) && (r.1 matches
                crate::resolution::ResolveOutcomeView::Pending(chain) ==> forall|i: int|
                0 <= i < chain.len() ==> (#[trigger] chain[i]).property != a && chain[i].property
                    != b)
        }),
    decreases (idx.dom() - in_prog).len(), 0nat, 0nat,
{
    let r = crate::resolution::resolve_one(idx, curr, values, in_prog);
    let node_a = crate::resolution::node_of(idx, a);
    let node_b = crate::resolution::node_of(idx, b);
    assert(node_a.property == a);
    assert(node_b.property == b);
    if values.dom().contains(curr) {
    } else if in_prog.contains(curr) {
        assert(crate::resolution::node_of(idx, curr).property == curr);
    } else if curr == a || curr == b {
        // resolving one member runs into the other, the chain closes at
        // the first, and both rotations are written together; the names
        // of the two rotations come out the same whichever member went
        // first
        let first = curr;
        let second = if curr == a {
            b
        } else {
            a
        };
        let node_first = crate::resolution::node_of(idx, first);
        let node_second = crate::resolution::node_of(idx, second);
        let deps_first = idx[first].modifier.value->Script_0.dependencies;
        let deps_second = idx[second].modifier.value->Script_0.dependencies;
        assert(deps_first == seq![second]);
        assert(deps_second == seq![first]);
        assert(!values.dom().contains(second));
        let ip1 = in_prog.insert(first);
        let ip2 = ip1.insert(second);
        assert(crate::resolution::state_ok(idx, ip1)) by {
            assert(ip1.subset_of(idx.dom()));
        }
        assert(crate::resolution::state_ok(idx, ip2)) by {
            assert(ip2.subset_of(idx.dom()));
        }
        // innermost: `first` is already in progress, a chain starts
        let r_inner = crate::resolution::resolve_one(idx, first, values, ip2);
        assert(ip2.contains(first));
        assert(r_inner == (
            values,
            crate::resolution::ResolveOutcomeView::Pending(seq![node_first]),
        ));
        // `second`'s frame prepends its node
        assert(deps_second[0] == first);
        assert(deps_second.drop_first() =~= Seq::<Seq<char>>::empty());
        let rd_second = crate::resolution::resolve_deps(idx, idx[second], deps_second, values, ip2);
        assert(rd_second == (
            values,
            crate::resolution::DepsOutcomeView::Pending(seq![node_first]),
        ));
        let r_second = crate::resolution::resolve_one(idx, second, values, ip1);
        assert(!ip1.contains(second));
        assert(seq![node_first].last() == node_first);
        assert(node_first.property != second);
        assert(seq![node_second] + seq![node_first] =~= seq![node_second, node_first]);
        assert(r_second == (
            values,
            crate::resolution::ResolveOutcomeView::Pending(seq![node_second, node_first]),
        ));
        // `first`'s frame closes the cycle and writes both rotations
        assert(deps_first[0] == second);
        let rd_first = crate::resolution::resolve_deps(idx, idx[first], deps_first, values, ip1);
        assert(rd_first == (
            values,
            crate::resolution::DepsOutcomeView::Pending(seq![node_second, node_first]),
        ));
        let chain = seq![node_second, node_first];
        assert(chain.last() == node_first);
        let full = seq![chain.last()] + chain.drop_last();
        assert(chain.drop_last() =~= seq![node_second]);
        assert(full =~= seq![node_first, node_second]);
        assert(crate::resolution::rotation(full, 0) =~= seq![node_first, node_second]);
        assert(crate::resolution::rotation(full, 1) =~= seq![node_second, node_first]);
        assert(full[0].property == first);
        assert(full[1].property == second);
        let v1 = values.insert(
            first,
            Err::<ValueView, ValueCalculationErrorView>(
                ValueCalculationErrorView::Cycle(seq![node_first, node_second]),
            ),
        );
        let v2 = v1.insert(
            second,
            Err::<ValueView, ValueCalculationErrorView>(
                ValueCalculationErrorView::Cycle(seq![node_second, node_first]),
            ),
        );
        assert(crate::resolution::write_cycles(values, full, 0) == values);
        assert(crate::resolution::write_cycles(values, full, 1) == v1);
        assert(crate::resolution::write_cycles(values, full, 2) == v2);
        assert(r == (v2, crate::resolution::ResolveOutcomeView::Done));
        assert(cycle_inv(idx, v2, a, b));
    } else {
        match idx[curr].modifier.value {
            crate::character_sheet_collection::CalculatedValueView::StaticValue(_) => {},
            crate::character_sheet_collection::CalculatedValueView::Script(s) => {
                let ip2 = in_prog.insert(curr);
                crate::resolution::lemma_measure_insert(idx, curr, in_prog);
                lemma_cycle_inv_deps(idx, idx[curr], s.dependencies, values, ip2, a, b);
                crate::resolution::lemma_frame_deps(idx, idx[curr], s.dependencies, values, ip2);
                let rd = crate::resolution::resolve_deps(idx, idx[curr], s.dependencies, values, ip2);
                match rd.1 {
                    crate::resolution::DepsOutcomeView::AllOk => {
                        assert(cycle_inv(idx, r.0, a, b));
                    },
                    crate::resolution::DepsOutcomeView::Failed(_) => {
                        assert(cycle_inv(idx, r.0, a, b));
                    },
                    crate::resolution::DepsOutcomeView::Pending(chain) => {
                        if chain.len() > 0 && chain.last().property == curr {
                            let full = seq![chain.last()] + chain.drop_last();
                            crate::resolution::lemma_write_cycles_frame(
                                rd.0,
                                full,
                                full.len() as int,
                            );
                            assert forall|i: int| 0 <= i < full.len() implies (
                            #[trigger] full[i]).property != a && full[i].property != b by {
                                if i == 0 {
                                    assert(full[0] == chain.last());
                                    assert(chain[chain.len() - 1] == chain.last());
                                } else {
                                    assert(full[i] == chain[i - 1]);
                                }
                            }
                            assert(cycle_inv(idx, r.0, a, b)) by {
                                if rd.0.dom().contains(a) {
                                    assert(r.0[a] == rd.0[a]);
                                }
                                if rd.0.dom().contains(b) {
                                    assert(r.0[b] == rd.0[b]);
                                }
                                assert(r.0.dom().contains(a) ==> rd.0.dom().contains(a));
                                assert(r.0.dom().contains(b) ==> rd.0.dom().contains(b));
                            }
                        } else {
                            assert(crate::resolution::node_of(idx, curr).property == curr);
                            let chain2 = seq![crate::resolution::node_of(idx, curr)] + chain;
                            assert forall|i: int| 0 <= i < chain2.len() implies (
                            #[trigger] chain2[i]).property != a && chain2[i].property != b by {
                                if i > 0 {
                                    assert(chain2[i] == chain[i - 1]);
                                }
                            }
                        }
                    },
                }
            },
        }
    }
}

/// As [`lemma_cycle_inv_one`], for a dependency list.
proof fn lemma_cycle_inv_deps(
    idx: Map<Seq<char>, crate::engine::CalcInfoView>,
    info: crate::engine::CalcInfoView,
    deps: Seq<Seq<char>>,
    values: Map<Seq<char>, Result<ValueView, ValueCalculationErrorView>>,
    in_prog: Set<Seq<char>>,
    a: Seq<char>,
    b: Seq<char>,
)
    requires
        crate::resolution::state_ok(idx, in_prog),
        crate::resolution::wf_index(idx),
        crate::resolution::prog_ok(idx, values, in_prog),
        cycle_inv(idx, values, a, b),
        !in_prog.contains(a),
        !in_prog.contains(b),
    ensures
        ({
            let r = crate::resolution::resolve_deps(idx, info, deps, values, in_prog);
            cycle_inv(idx, r.0, a, b) && (r.1 matches
                crate::resolution::DepsOutcomeView::Pending(chain) ==> forall|i: int|
                0 <= i < chain.len() ==> (#[trigger] chain[i]).property != a && chain[i].property
                    != b)
        }),
    decreases (idx.dom() - in_prog).len(), 1nat, deps.len(),
{
    if deps.len() == 0 {
    } else {
        let dep = deps[0];
        if values.dom().contains(dep) {
            match values[dep] {
                Ok(_) => {
                    lemma_cycle_inv_deps(idx, info, deps.drop_first(), values, in_prog, a, b);
                },
                Err(_) => {},
            }
        } else if !idx.dom().contains(dep) {
        } else {
            lemma_cycle_inv_one(idx, dep, values, in_prog, a, b);
            crate::resolution::lemma_frame_one(idx, dep, values, in_prog);
            let r = crate::resolution::resolve_one(idx, dep, values, in_prog);
            match r.1 {
                crate::resolution::ResolveOutcomeView::Done => {
                    if r.0.dom().contains(dep) {
                        match r.0[dep] {
                            Ok(_) => {
                                lemma_cycle_inv_deps(
                                    idx,
                                    info,
                                    deps.drop_first(),
                                    r.0,
                                    in_prog,
                                    a,
                                    b,
                                );
                            },
                            Err(_) => {},
                        }
                    }
                },
                crate::resolution::ResolveOutcomeView::Pending(_) => {},
            }
        }
    }
}

/// As [`lemma_cycle_inv_one`], for the top-level traversal.
proof fn lemma_cycle_inv_all(
    idx: Map<Seq<char>, crate::engine::CalcInfoView>,
    keys: Seq<Seq<char>>,
    values: Map<Seq<char>, Result<ValueView, ValueCalculationErrorView>>,
    a: Seq<char>,
    b: Seq<char>,
)
    requires
        idx.dom().finite(),
        crate::resolution::wf_index(idx),
        forall|j: int| 0 <= j < keys.len() ==> idx.dom().contains(#[trigger] keys[j]),
        cycle_inv(idx, values, a, b),
    ensures
        cycle_inv(idx, crate::resolution::resolve_all(idx, keys, values), a, b),
    decreases keys.len(),
{
    if keys.len() > 0 {
        let rest = keys.drop_last();
        lemma_cycle_inv_all(idx, rest, values, a, b);
        let prev = crate::resolution::resolve_all(idx, rest, values);
        assert(crate::resolution::state_ok(idx, Set::empty()));
        assert(crate::resolution::prog_ok(idx, prev, Set::empty()));
        assert(idx.dom().contains(keys.last())) by {
            assert(keys[keys.len() - 1] == keys.last());
        }
        lemma_cycle_inv_one(idx, keys.last(), prev, Set::empty(), a, b);
    }
}

/// Cycle detection, on any sheet: when `a`'s script depends on `b` alone
/// and `b`'s script on `a` alone, and neither is a user value, both
/// properties resolve to a cycle error whose path has length two, lists
/// the full closed cycle in traversal order, and starts at the property
/// that carries it.
pub proof fn lemma_two_node_cycle(
    user: Map<Seq<char>, ValueView>,
    active: Seq<FeatureSetView>,
    a: Seq<char>,
    b: Seq<char>,
)
    requires
        ({
            let idx = index_map(mods_of(active));
            idx.dom().contains(a) && idx.dom().contains(b) && a != b && (idx[a].modifier.value
                matches crate::character_sheet_collection::CalculatedValueView::Script(s)
                && s.dependencies == seq![b]) && (idx[b].modifier.value matches
                crate::character_sheet_collection::CalculatedValueView::Script(t)
                && t.dependencies == seq![a])
        }),
        !user.dom().contains(a),
        !user.dom().contains(b),
    ensures
        spec_calculate(user, active).dom().contains(a),
        spec_calculate(user, active).dom().contains(b),
        spec_calculate(user, active)[a] == Err::<ValueView, ValueCalculationErrorView>(
            ValueCalculationErrorView::Cycle(
                seq![
                    crate::resolution::node_of(index_map(mods_of(active)), a),
                    crate::resolution::node_of(index_map(mods_of(active)), b),
                ],
            ),
        ),
        spec_calculate(user, active)[b] == Err::<ValueView, ValueCalculationErrorView>(
            ValueCalculationErrorView::Cycle(
                seq![
                    crate::resolution::node_of(index_map(mods_of(active)), b),
                    crate::resolution::node_of(index_map(mods_of(active)), a),
                ],
            ),
        ),
{
    let entries = mods_of(active);
    let idx = index_map(entries);
    let keys = crate::resolution::index_keys(entries);
    let seeds = seed_values(user);
    lemma_mods_keyed(active);
    lemma_index_map_finite(entries);
    lemma_index_keys(entries);
    assert(cycle_inv(idx, seeds, a, b));
    assert(forall|j: int| 0 <= j < keys.len() ==> idx.dom().contains(#[trigger] keys[j])) by {
        assert(forall|j: int| 0 <= j < keys.len() ==> keys.contains(#[trigger] keys[j]));
    }
    lemma_cycle_inv_all(idx, keys, seeds, a, b);
    lemma_calculate_totality(user, active);
}

/// The invariant behind the three-node-cycle law: `a`'s script names `b`,
/// `b`'s names `c`, `c`'s names `a`, the three receive values only
/// together, and those values are the cycle error rotated to start at
/// each member.
spec fn cycle3_inv(
    idx: Map<Seq<char>, crate::engine::CalcInfoView>,
    values: Map<Seq<char>, Result<ValueView, ValueCalculationErrorView>>,
    a: Seq<char>,
    b: Seq<char>,
    c: Seq<char>,
) -> bool {
    &&& idx.dom().contains(a)
    &&& idx.dom().contains(b)
    &&& idx.dom().contains(c)
    &&& a != b
    &&& b != c
    &&& a != c
    &&& (idx[a].modifier.value matches crate::character_sheet_collection::CalculatedValueView::Script(
        s,
    ) && s.dependencies == seq![b])
    &&& (idx[b].modifier.value matches crate::character_sheet_collection::CalculatedValueView::Script(
        t,
    ) && t.dependencies == seq![c])
    &&& (idx[c].modifier.value matches crate::character_sheet_collection::CalculatedValueView::Script(
        u,
    ) && u.dependencies == seq![a])
    &&& (values.dom().contains(a) <==> values.dom().contains(b))
    &&& (values.dom().contains(a) <==> values.dom().contains(c))
    &&& (values.dom().contains(a) ==> values[a] == cycle3_error(idx, a, b, c) && values[b]
        == cycle3_error(idx, b, c, a) && values[c] == cycle3_error(idx, c, a, b))
}

/// The cycle error of the member `x` of the cycle `x → y → z → x`.
pub open spec fn cycle3_error(
    idx: Map<Seq<char>, crate::engine::CalcInfoView>,
    x: Seq<char>,
    y: Seq<char>,
    z: Seq<char>,
) -> Result<ValueView, ValueCalculationErrorView> {
    Err(
        ValueCalculationErrorView::Cycle(
            seq![
                crate::resolution::node_of(idx, x),
                crate::resolution::node_of(idx, y),
                crate::resolution::node_of(idx, z),
            ],
        ),
    )
}

/// Resolving any member of a three-node cycle writes all three rotations
/// at once; resolving anything else leaves the triple alone, and no
/// pending chain ever carries a member.
proof fn lemma_cycle3_inv_one(
    idx: Map<Seq<char>, crate::engine::CalcInfoView>,
    curr: Seq<char>,
    values: Map<Seq<char>, Result<ValueView, ValueCalculationErrorView>>,
    in_prog: Set<Seq<char>>,
    a: Seq<char>,
    b: Seq<char>,
    c: Seq<char>,
)
    requires
        crate::resolution::state_ok(idx, in_prog),
        crate::resolution::wf_index(idx),
        idx.dom().contains(curr),
        crate::resolution::prog_ok(idx, values, in_prog),
        cycle3_inv(idx, values, a, b, c),
        !in_prog.contains(a),
        !in_prog.contains(b),
        !in_prog.contains(c),
    ensures
        ({
            let r = crate::resolution::resolve_one(idx, curr, values, in_prog);
            cycle3_inv(idx, r.0, a, b, c) && (r.1 matches
                crate::resolution::ResolveOutcomeView::Pending(chain) ==> forall|i: int|
                0 <= i < chain.len() ==> (#[trigger] chain[i]).property != a && chain[i].property
                    != b && chain[i].property != c)
        }),
    decreases (idx.dom() - in_prog).len(), 0nat, 0nat,
{
    let r = crate::resolution::resolve_one(idx, curr, values, in_prog);
    if values.dom().contains(curr) {
    } else if in_prog.contains(curr) {
        assert(crate::resolution::node_of(idx, curr).property == curr);
    } else if curr == a || curr == b || curr == c {
        // resolving one member walks the cycle, the chain closes at the
        // entry member, and all three rotations are written together; the
        // values come out the same whichever member went first
        let first = curr;
        let second = if curr == a {
            b
        } else if curr == b {
            c
        } else {
            a
        };
        let third = if curr == a {
            c
        } else if curr == b {
            a
        } else {
            b
        };
        let n1 = crate::resolution::node_of(idx, first);
        let n2 = crate::resolution::node_of(idx, second);
        let n3 = crate::resolution::node_of(idx, third);
        assert(n1.property == first);
        assert(n2.property == second);
        assert(n3.property == third);
        let deps1 = idx[first].modifier.value->Script_0.dependencies;
        let deps2 = idx[second].modifier.value->Script_0.dependencies;
        let deps3 = idx[third].modifier.value->Script_0.dependencies;
        assert(deps1 == seq![second]);
        assert(deps2 == seq![third]);
        assert(deps3 == seq![first]);
        assert(!values.dom().contains(second));
        assert(!values.dom().contains(third));
        let ip1 = in_prog.insert(first);
        let ip2 = ip1.insert(second);
        let ip3 = ip2.insert(third);
        assert(crate::resolution::state_ok(idx, ip1)) by {
            assert(ip1.subset_of(idx.dom()));
        }
        assert(crate::resolution::state_ok(idx, ip2)) by {
            assert(ip2.subset_of(idx.dom()));
        }
        assert(crate::resolution::state_ok(idx, ip3)) by {
            assert(ip3.subset_of(idx.dom()));
        }
        // innermost: `first` is already in progress, a chain starts
        let r_first_again = crate::resolution::resolve_one(idx, first, values, ip3);
        assert(ip3.contains(first));
        assert(r_first_again == (
            values,
            crate::resolution::ResolveOutcomeView::Pending(seq![n1]),
        ));
        // `third`'s frame prepends its node
        assert(deps3[0] == first);
        assert(deps3.drop_first() =~= Seq::<Seq<char>>::empty());
        let rd_third = crate::resolution::resolve_deps(idx, idx[third], deps3, values, ip3);
        assert(rd_third == (values, crate::resolution::DepsOutcomeView::Pending(seq![n1])));
        let r_third = crate::resolution::resolve_one(idx, third, values, ip2);
        assert(!ip2.contains(third));
        assert(seq![n1].last() == n1);
        assert(n1.property != third);
        assert(seq![n3] + seq![n1] =~= seq![n3, n1]);
        assert(r_third == (
            values,
            crate::resolution::ResolveOutcomeView::Pending(seq![n3, n1]),
        ));
        // `second`'s frame prepends its node as well
        assert(deps2[0] == third);
        let rd_second = crate::resolution::resolve_deps(idx, idx[second], deps2, values, ip2);
        assert(rd_second == (
            values,
            crate::resolution::DepsOutcomeView::Pending(seq![n3, n1]),
        ));
        let r_second = crate::resolution::resolve_one(idx, second, values, ip1);
        assert(!ip1.contains(second));
        assert(seq![n3, n1].last() == n1);
        assert(n1.property != second);
        assert(seq![n2] + seq![n3, n1] =~= seq![n2, n3, n1]);
        assert(r_second == (
            values,
            crate::resolution::ResolveOutcomeView::Pending(seq![n2, n3, n1]),
        ));
        // `first`'s frame closes the cycle and writes the rotations
        assert(deps1[0] == second);
        let rd_first = crate::resolution::resolve_deps(idx, idx[first], deps1, values, ip1);
        assert(rd_first == (
            values,
            crate::resolution::DepsOutcomeView::Pending(seq![n2, n3, n1]),
        ));
        let chain = seq![n2, n3, n1];
        assert(chain.last() == n1);
        let full = seq![chain.last()] + chain.drop_last();
        assert(chain.drop_last() =~= seq![n2, n3]);
        assert(full =~= seq![n1, n2, n3]);
        assert(crate::resolution::rotation(full, 0) =~= seq![n1, n2, n3]);
        assert(crate::resolution::rotation(full, 1) =~= seq![n2, n3, n1]);
        assert(crate::resolution::rotation(full, 2) =~= seq![n3, n1, n2]);
        assert(full[0].property == first);
        assert(full[1].property == second);
        assert(full[2].property == third);
        let v1 = values.insert(first, cycle3_error(idx, first, second, third));
        let v2 = v1.insert(second, cycle3_error(idx, second, third, first));
        let v3 = v2.insert(third, cycle3_error(idx, third, first, second));
        assert(crate::resolution::write_cycles(values, full, 0) == values);
        assert(crate::resolution::write_cycles(values, full, 1) == v1);
        assert(crate::resolution::write_cycles(values, full, 2) == v2);
        assert(crate::resolution::write_cycles(values, full, 3) == v3);
        assert(r == (v3, crate::resolution::ResolveOutcomeView::Done));
        assert(cycle3_inv(idx, v3, a, b, c));
    } else {
        match idx[curr].modifier.value {
            crate::character_sheet_collection::CalculatedValueView::StaticValue(_) => {},
            crate::character_sheet_collection::CalculatedValueView::Script(s) => {
                let ip2 = in_prog.insert(curr);
                crate::resolution::lemma_measure_insert(idx, curr, in_prog);
                lemma_cycle3_inv_deps(idx, idx[curr], s.dependencies, values, ip2, a, b, c);
                crate::resolution::lemma_frame_deps(idx, idx[curr], s.dependencies, values, ip2);
                let rd = crate::resolution::resolve_deps(idx, idx[curr], s.dependencies, values, ip2);
                match rd.1 {
                    crate::resolution::DepsOutcomeView::AllOk => {
                        assert(cycle3_inv(idx, r.0, a, b, c));
                    },
                    crate::resolution::DepsOutcomeView::Failed(_) => {
                        assert(cycle3_inv(idx, r.0, a, b, c));
                    },
                    crate::resolution::DepsOutcomeView::Pending(chain) => {
                        if chain.len() > 0 && chain.last().property == curr {
                            let full = seq![chain.last()] + chain.drop_last();
                            crate::resolution::lemma_write_cycles_frame(
                                rd.0,
                                full,
                                full.len() as int,
                            );
                            assert forall|i: int| 0 <= i < full.len() implies (
                            #[trigger] full[i]).property != a && full[i].property != b
                                && full[i].property != c by {
                                if i == 0 {
                                    assert(full[0] == chain.last());
                                    assert(chain[chain.len() - 1] == chain.last());
                                } else {
                                    assert(full[i] == chain[i - 1]);
                                }
                            }
                            assert(cycle3_inv(idx, r.0, a, b, c)) by {
                                if rd.0.dom().contains(a) {
                                    assert(r.0[a] == rd.0[a]);
                                }
                                if rd.0.dom().contains(b) {
                                    assert(r.0[b] == rd.0[b]);
                                }
                                if rd.0.dom().contains(c) {
                                    assert(r.0[c] == rd.0[c]);
                                }
                                assert(r.0.dom().contains(a) ==> rd.0.dom().contains(a));
                                assert(r.0.dom().contains(b) ==> rd.0.dom().contains(b));
                                assert(r.0.dom().contains(c) ==> rd.0.dom().contains(c));
                            }
                        } else {
                            assert(crate::resolution::node_of(idx, curr).property == curr);
                            let chain2 = seq![crate::resolution::node_of(idx, curr)] + chain;
                            assert forall|i: int| 0 <= i < chain2.len() implies (
                            #[trigger] chain2[i]).property != a && chain2[i].property != b
                                && chain2[i].property != c by {
                                if i > 0 {
                                    assert(chain2[i] == chain[i - 1]);
                                }
                            }
                        }
                    },
                }
            },
        }
    }
}

/// As [`lemma_cycle3_inv_one`], for a dependency list.
proof fn lemma_cycle3_inv_deps(
    idx: Map<Seq<char>, crate::engine::CalcInfoView>,
    info: crate::engine::CalcInfoView,
    deps: Seq<Seq<char>>,
    values: Map<Seq<char>, Result<ValueView, ValueCalculationErrorView>>,
    in_prog: Set<Seq<char>>,
    a: Seq<char>,
    b: Seq<char>,
    c: Seq<char>,
)
    requires
        crate::resolution::state_ok(idx, in_prog),
        crate::resolution::wf_index(idx),
        crate::resolution::prog_ok(idx, values, in_prog),
        cycle3_inv(idx, values, a, b, c),
        !in_prog.contains(a),
        !in_prog.contains(b),
        !in_prog.contains(c),
    ensures
        ({
            let r = crate::resolution::resolve_deps(idx, info, deps, values, in_prog);
            cycle3_inv(idx, r.0, a, b, c) && (r.1 matches
                crate::resolution::DepsOutcomeView::Pending(chain) ==> forall|i: int|
                0 <= i < chain.len() ==> (#[trigger] chain[i]).property != a && chain[i].property
                    != b && chain[i].property != c)
        }),
    decreases (idx.dom() - in_prog).len(), 1nat, deps.len(),
{
    if deps.len() == 0 {
    } else {
        let dep = deps[0];
        if values.dom().contains(dep) {
            match values[dep] {
                Ok(_) => {
                    lemma_cycle3_inv_deps(idx, info, deps.drop_first(), values, in_prog, a, b, c);
                },
                Err(_) => {},
            }
        } else if !idx.dom().contains(dep) {
        } else {
            lemma_cycle3_inv_one(idx, dep, values, in_prog, a, b, c);
            crate::resolution::lemma_frame_one(idx, dep, values, in_prog);
            let r = crate::resolution::resolve_one(idx, dep, values, in_prog);
            match r.1 {
                crate::resolution::ResolveOutcomeView::Done => {
                    if r.0.dom().contains(dep) {
                        match r.0[dep] {
                            Ok(_) => {
                                lemma_cycle3_inv_deps(
                                    idx,
                                    info,
                                    deps.drop_first(),
                                    r.0,
                                    in_prog,
                                    a,
                                    b,
                                    c,
                                );
                            },
                            Err(_) => {},
                        }
                    }
                },
                crate::resolution::ResolveOutcomeView::Pending(_) => {},
            }
        }
    }
}

/// As [`lemma_cycle3_inv_one`], for the top-level traversal.
proof fn lemma_cycle3_inv_all(
    idx: Map<Seq<char>, crate::engine::CalcInfoView>,
    keys: Seq<Seq<char>>,
    values: Map<Seq<char>, Result<ValueView, ValueCalculationErrorView>>,
    a: Seq<char>,
    b: Seq<char>,
    c: Seq<char>,
)
    requires
        idx.dom().finite(),
        crate::resolution::wf_index(idx),
        forall|j: int| 0 <= j < keys.len() ==> idx.dom().contains(#[trigger] keys[j]),
        cycle3_inv(idx, values, a, b, c),
    ensures
        cycle3_inv(idx, crate::resolution::resolve_all(idx, keys, values), a, b, c),
    decreases keys.len(),
{
    if keys.len() > 0 {
        let rest = keys.drop_last();
        lemma_cycle3_inv_all(idx, rest, values, a, b, c);
        let prev = crate::resolution::resolve_all(idx, rest, values);
        assert(crate::resolution::state_ok(idx, Set::empty()));
        assert(crate::resolution::prog_ok(idx, prev, Set::empty()));
        assert(idx.dom().contains(keys.last())) by {
            assert(keys[keys.len() - 1] == keys.last());
        }
        lemma_cycle3_inv_one(idx, keys.last(), prev, Set::empty(), a, b, c);
    }
}

/// Cycle detection for cycles of length three, on any sheet: when `a`'s
/// script depends on `b` alone, `b`'s on `c` alone and `c`'s on `a`
/// alone, and none is a user value, every member resolves to a cycle
/// error whose path has length three, lists the full closed cycle in
/// traversal order, and starts at the property that carries it.
pub proof fn lemma_three_node_cycle(
    user: Map<Seq<char>, ValueView>,
    active: Seq<FeatureSetView>,
    a: Seq<char>,
    b: Seq<char>,
    c: Seq<char>,
)
    requires
        ({
            let idx = index_map(mods_of(active));
            idx.dom().contains(a) && idx.dom().contains(b) && idx.dom().contains(c) && a != b && b
                != c && a != c && (idx[a].modifier.value matches
                crate::character_sheet_collection::CalculatedValueView::Script(s)
                && s.dependencies == seq![b]) && (idx[b].modifier.value matches
                crate::character_sheet_collection::CalculatedValueView::Script(t)
                && t.dependencies == seq![c]) && (idx[c].modifier.value matches
                crate::character_sheet_collection::CalculatedValueView::Script(u)
                && u.dependencies == seq![a])
        }),
        !user.dom().contains(a),
        !user.dom().contains(b),
        !user.dom().contains(c),
    ensures
        spec_calculate(user, active).dom().contains(a),
        spec_calculate(user, active).dom().contains(b),
        spec_calculate(user, active).dom().contains(c),
        spec_calculate(user, active)[a] == cycle3_error(index_map(mods_of(active)), a, b, c),
        spec_calculate(user, active)[b] == cycle3_error(index_map(mods_of(active)), b, c, a),
        spec_calculate(user, active)[c] == cycle3_error(index_map(mods_of(active)), c, a, b),
{
    let entries = mods_of(active);
    let idx = index_map(entries);
    let keys = crate::resolution::index_keys(entries);
    let seeds = seed_values(user);
    lemma_mods_keyed(active);
    lemma_index_map_finite(entries);
    lemma_index_keys(entries);
    assert(cycle3_inv(idx, seeds, a, b, c));
    assert(forall|j: int| 0 <= j < keys.len() ==> idx.dom().contains(#[trigger] keys[j])) by {
        assert(forall|j: int| 0 <= j < keys.len() ==> keys.contains(#[trigger] keys[j]));
    }
    lemma_cycle3_inv_all(idx, keys, seeds, a, b, c);
    lemma_calculate_totality(user, active);
}

/// Analyzer purity: the minimal set of required user values is a function
/// of the active feature sets alone, so changing the user values of a
/// sheet — for instance inserting an unrelated fact before asking — does
/// not change the returned set.
pub proof fn lemma_required_user_values_pure(s1: CharacterSheetView, s2: CharacterSheetView)
    requires
        s1.active_features == s2.active_features,
    ensures
        spec_required_user_values(s1.active_features) == spec_required_user_values(
            s2.active_features,
        ),
{
}

} // verus!
