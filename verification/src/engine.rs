//! The character-sheet engine: a depth-first, memoized, cycle-guarded
//! resolver that turns the modifiers of a sheet's active feature sets into a
//! complete map from property names to values or structured errors, and a
//! static analysis that computes the minimal set of user-supplied inputs a
//! sheet requires.
//!
//! The behaviour of [`CharacterSheet::calculate_all_values`] is pinned down
//! completely: its result equals the mathematical interpreter
//! [`crate::resolution::spec_calculate`], which makes the calculation
//! deterministic by construction.

use vstd::prelude::*;

use crate::character_sheet_collection::{
    CalculatedValue, CalculatedValueView, FeatureModifier, FeatureModifierView, FeatureSet,
    Script, StaticValueType, ValueView,
};
use crate::string_map::{Modeled, StringMap, StringSet};
use vstd::string::StringExecFns;

verus! {

/// The per-property result of a calculation.
pub type ResultValue = Result<StaticValueType, ValueCalculationError>;

/// Mathematical view of a [`ResultValue`].
pub type ResultView = Result<ValueView, ValueCalculationErrorView>;

/// Mathematical view of a [`CycleNode`].
#[verifier::ext_equal]
pub struct CycleNodeView {
    pub feature_set: Seq<char>,
    pub feature: Seq<char>,
    pub property: Seq<char>,
}

/// Mathematical view of a [`MissingDependency`].
#[verifier::ext_equal]
pub struct MissingDependencyView {
    pub missing_dependency: Seq<char>,
    pub found_in_feature_set: Seq<char>,
    pub found_in_feature: Seq<char>,
    pub found_in_property: Seq<char>,
}

/// Mathematical view of a [`ValueCalculationError`].
#[verifier::ext_equal]
pub enum ValueCalculationErrorView {
    Cycle(Seq<CycleNodeView>),
    ScriptError(Seq<char>),
    MissingDependency(MissingDependencyView),
}

/// Mathematical view of a [`CharacterSheet`].
#[verifier::ext_equal]
pub struct CharacterSheetView {
    pub user_values: Map<Seq<char>, ValueView>,
    pub active_features: Seq<crate::character_sheet_collection::FeatureSetView>,
    pub inactive_features: Seq<crate::character_sheet_collection::FeatureSetView>,
}

/// Value set by the user of the sheet.
/// Aka the base values like the character's class, level, characteristics
/// etc.
#[derive(Debug, PartialEq, Eq)]
pub struct UserValue {
    pub named: String,
    pub value: StaticValueType,
}

impl Clone for UserValue {
    fn clone(&self) -> (res: Self)
        ensures
            res.named@ == self.named@,
            res.value.deep_view() == self.value.deep_view(),
    {
        UserValue { named: self.named.clone(), value: self.value.clone() }
    }
}

/// One hop of a cyclic dependency chain, in traversal order.
#[derive(Debug, PartialEq, Eq)]
pub struct CycleNode {
    pub feature_set: String,
    pub feature: String,
    pub property: String,
}

impl DeepView for CycleNode {
    type V = CycleNodeView;

    open spec fn deep_view(&self) -> CycleNodeView {
        CycleNodeView {
            feature_set: self.feature_set@,
            feature: self.feature@,
            property: self.property@,
        }
    }
}

impl Clone for CycleNode {
    fn clone(&self) -> (res: Self)
        ensures
            res.deep_view() == self.deep_view(),
    {
        CycleNode {
            feature_set: self.feature_set.clone(),
            feature: self.feature.clone(),
            property: self.property.clone(),
        }
    }
}

/// A property had no value or feature reference, but is required as a
/// dependency.  The `found_in` fields name the site whose script declared
/// the dependency.
#[derive(Debug, PartialEq, Eq)]
pub struct MissingDependency {
    pub missing_dependency: String,
    pub found_in_feature_set: String,
    pub found_in_feature: String,
    pub found_in_property: String,
}

impl DeepView for MissingDependency {
    type V = MissingDependencyView;

    open spec fn deep_view(&self) -> MissingDependencyView {
        MissingDependencyView {
            missing_dependency: self.missing_dependency@,
            found_in_feature_set: self.found_in_feature_set@,
            found_in_feature: self.found_in_feature@,
            found_in_property: self.found_in_property@,
        }
    }
}

impl Clone for MissingDependency {
    fn clone(&self) -> (res: Self)
        ensures
            res.deep_view() == self.deep_view(),
    {
        MissingDependency {
            missing_dependency: self.missing_dependency.clone(),
            found_in_feature_set: self.found_in_feature_set.clone(),
            found_in_feature: self.found_in_feature.clone(),
            found_in_property: self.found_in_property.clone(),
        }
    }
}

/// Errors during the calculation of a property.
#[derive(Debug, PartialEq, Eq)]
pub enum ValueCalculationError {
    /// A cyclic dependency was found.
    Cycle(Vec<CycleNode>),
    /// Evaluation of the script threw some error.
    ScriptError(String),
    /// A property had no value or feature reference, but is required as a
    /// dependency.
    MissingDependency(MissingDependency),
}

impl DeepView for ValueCalculationError {
    type V = ValueCalculationErrorView;

    open spec fn deep_view(&self) -> ValueCalculationErrorView {
        match self {
            ValueCalculationError::Cycle(nodes) => ValueCalculationErrorView::Cycle(
                nodes.deep_view(),
            ),
            ValueCalculationError::ScriptError(msg) => ValueCalculationErrorView::ScriptError(
                msg@,
            ),
            ValueCalculationError::MissingDependency(m) => {
                ValueCalculationErrorView::MissingDependency(m.deep_view())
            },
        }
    }
}

impl Clone for ValueCalculationError {
    fn clone(&self) -> (res: Self)
        ensures
            res.deep_view() == self.deep_view(),
    {
        match self {
            ValueCalculationError::Cycle(nodes) => {
                let cloned_nodes = nodes.clone();
                proof {
                    assert(cloned_nodes.deep_view() =~= nodes.deep_view());
                }
                ValueCalculationError::Cycle(cloned_nodes)
            },
            ValueCalculationError::ScriptError(msg) => {
                ValueCalculationError::ScriptError(msg.clone())
            },
            ValueCalculationError::MissingDependency(m) => {
                ValueCalculationError::MissingDependency(m.clone())
            },
        }
    }
}

/// The current values of the character sheet do not allow a calculation of
/// any of its values.  Calculation never fails as a whole — failures are
/// carried per property inside the result map — so this error is never
/// produced; the type is kept so that the result type spells that out.
#[derive(Debug, Clone, Copy, PartialEq, Eq)]
pub enum IllegalSheetError {
    /// Never produced by the engine.
    Unreachable,
}

impl Modeled for StaticValueType {
    type ModelT = ValueView;

    open spec fn model(&self) -> ValueView {
        self.deep_view()
    }
}

impl Modeled for ResultValue {
    type ModelT = ResultView;

    open spec fn model(&self) -> ResultView {
        match self {
            Ok(v) => Ok(v.deep_view()),
            Err(e) => Err(e.deep_view()),
        }
    }
}

/// The store of per-property results that a calculation fills and returns.
pub type ValueStore = StringMap<ResultValue>;

/// Mathematical view of a [`CalcInfo`].
#[verifier::ext_equal]
pub struct CalcInfoView {
    pub feature_set: Seq<char>,
    pub feature: Seq<char>,
    pub modifier: FeatureModifierView,
}

/// The authoritative definition site of one property: the feature set and
/// feature it came from, and the modifier itself.
#[derive(Debug)]
pub struct CalcInfo {
    pub feature_set: String,
    pub feature: String,
    pub modifier: FeatureModifier,
}

impl Modeled for CalcInfo {
    type ModelT = CalcInfoView;

    open spec fn model(&self) -> CalcInfoView {
        CalcInfoView {
            feature_set: self.feature_set@,
            feature: self.feature@,
            modifier: self.modifier.deep_view(),
        }
    }
}

/// The data behind a character sheet.
/// The base class of the engine.
#[derive(Debug, PartialEq, Eq)]
pub struct CharacterSheet {
    /// User values are values explicitly set by the user of the sheet.
    /// Generally speaking this includes two different use cases:
    /// - Selections during the character creation (e.g. stat spread, level).
    /// - Overwrites by the user.
    /// User values always overwrite those set by features.
    pub user_values: StringMap<StaticValueType>,
    /// Active features will apply their modifications to the properties of
    /// the character.
    pub active_features: Vec<FeatureSet>,
    /// Inactive features will not affect the character's properties.
    /// They are still included, because oftentimes you may still want to
    /// display them.  An example for this would be an item that the
    /// character is carrying, but that is not equipped.
    pub inactive_features: Vec<FeatureSet>,
}

impl CharacterSheet {
    /// Well-formedness of a sheet: the user-value table holds each name at
    /// most once.
    pub open spec fn wf(&self) -> bool {
        self.user_values.wf()
    }

    /// Mathematical view of the sheet.
    pub open spec fn view(&self) -> CharacterSheetView {
        CharacterSheetView {
            user_values: self.user_values@,
            active_features: self.active_features.deep_view(),
            inactive_features: self.inactive_features.deep_view(),
        }
    }

    /// Creates an empty sheet: no user values, no features.
    pub fn new() -> (res: CharacterSheet)
        ensures
            res.wf(),
            res@.user_values == Map::<Seq<char>, ValueView>::empty(),
            res@.active_features == Seq::<
                crate::character_sheet_collection::FeatureSetView,
            >::empty(),
            res@.inactive_features == Seq::<
                crate::character_sheet_collection::FeatureSetView,
            >::empty(),
    {
        let res = CharacterSheet {
            user_values: StringMap::new(),
            active_features: Vec::new(),
            inactive_features: Vec::new(),
        };
        proof {
            assert(res.active_features.deep_view() =~= Seq::<
                crate::character_sheet_collection::FeatureSetView,
            >::empty());
            assert(res.inactive_features.deep_view() =~= Seq::<
                crate::character_sheet_collection::FeatureSetView,
            >::empty());
        }
        res
    }
}

/// The outcome that one resolution step hands back to its caller.
enum ResolveOutcome {
    /// The property has a value in the store (a success or an error).
    Done,
    /// A cycle was detected below; the chain of cycle nodes gathered so
    /// far, travelling up to the frame where the cycle closes.
    Pending(Vec<CycleNode>),
}

impl ResolveOutcome {
    /// The mathematical view of the outcome.
    spec fn outcome_view(&self) -> crate::resolution::ResolveOutcomeView {
        match self {
            ResolveOutcome::Done => crate::resolution::ResolveOutcomeView::Done,
            ResolveOutcome::Pending(chain) => crate::resolution::ResolveOutcomeView::Pending(
                chain.deep_view(),
            ),
        }
    }
}

impl CharacterSheet {
    /// Builds the modifier index: property name → authoritative
    /// (feature set, feature, modifier) definition site, scanning all
    /// active feature sets, features and modifiers in sheet order.  A later
    /// modifier for the same property overwrites an earlier one, so the
    /// last definition in sheet order wins; the key keeps its first
    /// position.
    fn build_modifier_index(&self) -> (idx: StringMap<CalcInfo>)
        ensures
            idx.wf(),
            idx@ == crate::resolution::index_map(crate::resolution::mods_of(self@.active_features)),
            idx.key_seq() == crate::resolution::index_keys(
                crate::resolution::mods_of(self@.active_features),
            ),
            crate::resolution::wf_index(idx@),
    {
        let ghost active = self.active_features.deep_view();
        let mut idx: StringMap<CalcInfo> = StringMap::new();
        let ghost mut es: Seq<(Seq<char>, CalcInfoView)> = Seq::empty();
        proof {
            assert(idx@ =~= crate::resolution::index_map(es));
            assert(idx.key_seq() =~= crate::resolution::index_keys(es));
        }
        let mut i: usize = 0;
        while i < self.active_features.len()
            invariant
                i <= self.active_features.len(),
                active == self.active_features.deep_view(),
                active.len() == self.active_features.len(),
                es == crate::resolution::mods_upto(active, i as int),
                idx.wf(),
                idx@ == crate::resolution::index_map(es),
                idx.key_seq() == crate::resolution::index_keys(es),
                forall|t: int|
                    0 <= t < es.len() ==> #[trigger] es[t].1.modifier.property == es[t].0,
            decreases self.active_features.len() - i,
        {
            let fs = &self.active_features[i];
            let ghost fsv = active[i as int];
            let ghost es_set_base = es;
            proof {
                assert(fsv == self.active_features@[i as int].deep_view());
            }
            let mut j: usize = 0;
            while j < fs.features.len()
                invariant
                    j <= fs.features.len(),
                    fsv == fs.deep_view(),
                    fsv.features.len() == fs.features.len(),
                    es == es_set_base + crate::resolution::mods_of_set_upto(fsv, j as int),
                    idx.wf(),
                    idx@ == crate::resolution::index_map(es),
                    idx.key_seq() == crate::resolution::index_keys(es),
                    forall|t: int|
                        0 <= t < es.len() ==> #[trigger] es[t].1.modifier.property == es[t].0,
                decreases fs.features.len() - j,
            {
                let f = &fs.features[j];
                let ghost fv = fsv.features[j as int];
                let ghost es_feature_base = es;
                proof {
                    assert(fv == fs.features@[j as int].deep_view());
                }
                let mut k: usize = 0;
                while k < f.modifiers.len()
                    invariant
                        k <= f.modifiers.len(),
                        fv == f.deep_view(),
                        fsv.name == fs.name@,
                        fv.modifiers.len() == f.modifiers.len(),
                        es == es_feature_base + crate::resolution::mods_of_feature(
                            fsv.name,
                            fv,
                        ).subrange(0, k as int),
                        idx.wf(),
                        idx@ == crate::resolution::index_map(es),
                        idx.key_seq() == crate::resolution::index_keys(es),
                        forall|t: int|
                            0 <= t < es.len() ==> #[trigger] es[t].1.modifier.property == es[t].0,
                    decreases f.modifiers.len() - k,
                {
                    let m = &f.modifiers[k];
                    let info = CalcInfo {
                        feature_set: fs.name.clone(),
                        feature: f.name.clone(),
                        modifier: m.clone(),
                    };
                    let ghost e = (m.property@, info.model());
                    proof {
                        assert(m.deep_view() == fv.modifiers[k as int]);
                        assert(e == crate::resolution::mods_of_feature(fsv.name, fv)[k as int]);
                        crate::resolution::lemma_index_keys(es);
                        idx.lemma_dom();
                    }
                    idx.insert(m.property.clone(), info);
                    proof {
                        let es2 = es.push(e);
                        assert(es2.drop_last() =~= es);
                        assert(es2.last() == e);
                        assert(idx@ == crate::resolution::index_map(es2));
                        assert(idx.key_seq() == crate::resolution::index_keys(es2));
                        es = es2;
                        assert(es == es_feature_base + crate::resolution::mods_of_feature(
                            fsv.name,
                            fv,
                        ).subrange(0, k + 1 as int)) by {
                            assert(crate::resolution::mods_of_feature(fsv.name, fv).subrange(
                                0,
                                k + 1 as int,
                            ) =~= crate::resolution::mods_of_feature(fsv.name, fv).subrange(
                                0,
                                k as int,
                            ).push(e));
                            assert(es =~= es_feature_base + crate::resolution::mods_of_feature(
                                fsv.name,
                                fv,
                            ).subrange(0, k as int).push(e));
                        }
                    }
                    k = k + 1;
                }
                proof {
                    assert(crate::resolution::mods_of_feature(fsv.name, fv).subrange(
                        0,
                        fv.modifiers.len() as int,
                    ) =~= crate::resolution::mods_of_feature(fsv.name, fv));
                    assert(crate::resolution::mods_of_set_upto(fsv, j + 1 as int)
                        == crate::resolution::mods_of_set_upto(fsv, j as int)
                        + crate::resolution::mods_of_feature(fsv.name, fsv.features[j as int]));
                    assert(es =~= es_set_base + crate::resolution::mods_of_set_upto(
                        fsv,
                        j + 1 as int,
                    ));
                }
                j = j + 1;
            }
            proof {
                assert(crate::resolution::mods_of_set(fsv) == crate::resolution::mods_of_set_upto(
                    fsv,
                    fsv.features.len() as int,
                ));
                assert(crate::resolution::mods_upto(active, i + 1 as int)
                    == crate::resolution::mods_upto(active, i as int)
                    + crate::resolution::mods_of_set(active[i as int]));
                assert(es =~= crate::resolution::mods_upto(active, i + 1 as int));
            }
            i = i + 1;
        }
        proof {
            assert(es == crate::resolution::mods_of(active));
            crate::resolution::lemma_index_map_wf(es);
        }
        idx
    }

    /// Seeds the result store with every user value as a success.
    fn add_user_values(&self, values: &mut ValueStore)
        requires
            self.wf(),
            old(values).wf(),
            old(values)@ == Map::<Seq<char>, ResultView>::empty(),
        ensures
            final(values).wf(),
            final(values)@ == crate::resolution::seed_values(self@.user_values),
    {
        let ghost user = self.user_values@;
        let ghost keys = self.user_values.key_seq();
        proof {
            self.user_values.lemma_dom();
            assert(values@ =~= crate::resolution::seed_upto(user, keys, 0));
        }
        let n = self.user_values.len();
        let mut i: usize = 0;
        while i < n
            invariant
                i <= n,
                n == keys.len(),
                self.wf(),
                user == self.user_values@,
                keys == self.user_values.key_seq(),
                values.wf(),
                values@ == crate::resolution::seed_upto(user, keys, i as int),
                forall|j: int| 0 <= j < keys.len() ==> user.dom().contains(#[trigger] keys[j]),
            decreases n - i,
        {
            let entry = self.user_values.entry_at(i);
            let name = entry.0.clone();
            let value = entry.1.clone();
            values.insert(name, Ok(value));
            proof {
                assert(values@ =~= crate::resolution::seed_upto(user, keys, i + 1 as int));
            }
            i = i + 1;
        }
        proof {
            crate::resolution::lemma_seed_upto_full(user, keys);
        }
    }

    /// Evaluates a script whose dependencies all have values.  Today only
    /// literal decimal integers are interpreted; everything else yields a
    /// script error.
    fn evaluate_script(&self, script: &Script, _values: &ValueStore) -> (r: ResultValue)
        ensures
            r.model() == crate::resolution::spec_eval_script(script.deep_view()),
    {
        match crate::text::parse_i32(script.script.as_str()) {
            Some(val) => Ok(StaticValueType::Number(val)),
            None => Err(
                ValueCalculationError::ScriptError(
                    String::from_str("script is not an integer literal"),
                ),
            ),
        }
    }

    /// Returns an owned copy of a stored result.
    fn clone_result_value(rv: &ResultValue) -> (r: ResultValue)
        ensures
            r.model() == rv.model(),
    {
        match rv {
            Ok(v) => Ok(v.clone()),
            Err(e) => Err(e.clone()),
        }
    }

    /// Looks the value of `dep` up in the store, as an owned copy.
    fn lookup(values: &ValueStore, dep: &str) -> (r: Option<ResultValue>)
        requires
            values.wf(),
        ensures
            match r {
                Some(rv) => values@.dom().contains(dep@) && rv.model() == values@[dep@],
                None => !values@.dom().contains(dep@),
            },
    {
        match values.get(dep) {
            Some(rv) => Some(Self::clone_result_value(rv)),
            None => None,
        }
    }

    /// Resolves the property that `calc_info` defines, unless it already
    /// has a value: publishes its constant, or resolves its script's
    /// dependencies depth-first and publishes the script's value, the
    /// error inherited from a failed or missing dependency, or — when a
    /// cycle closes here — a cycle error for every member of the cycle.
    ///
    /// Behaves exactly as the mathematical [`crate::resolution::resolve_one`];
    /// the in-progress set is handed back as it was received.
    fn add_or_calc(
        &self,
        values: &mut ValueStore,
        currently_calculating: &mut StringSet,
        calc_map: &StringMap<CalcInfo>,
        calc_info: &CalcInfo,
    ) -> (r: ResolveOutcome)
        requires
            old(values).wf(),
            old(currently_calculating).wf(),
            calc_map.wf(),
            crate::resolution::state_ok(calc_map@, old(currently_calculating)@),
            crate::resolution::wf_index(calc_map@),
            calc_map@.dom().contains(calc_info.modifier.property@),
            calc_map@[calc_info.modifier.property@] == calc_info.model(),
        ensures
            final(values).wf(),
            final(currently_calculating).wf(),
            final(currently_calculating)@ == old(currently_calculating)@,
            ({
                let rr = crate::resolution::resolve_one(
                    calc_map@,
                    calc_info.modifier.property@,
                    old(values)@,
                    old(currently_calculating)@,
                );
                final(values)@ == rr.0 && r.outcome_view() == rr.1
            }),
        decreases (calc_map@.dom() - old(currently_calculating)@).len(),
    {
        let curr: &String = &calc_info.modifier.property;
        let ghost idxv = calc_map@;
        let ghost currv = curr@;
        let ghost values0 = values@;
        let ghost ip0 = currently_calculating@;

        if values.contains_key(curr.as_str()) {
            return ResolveOutcome::Done;
        }
        if currently_calculating.contains(curr.as_str()) {
            let node = CycleNode {
                feature_set: calc_info.feature_set.clone(),
                feature: calc_info.feature.clone(),
                property: calc_info.modifier.property.clone(),
            };
            let mut chain: Vec<CycleNode> = Vec::new();
            chain.push(node);
            proof {
                assert(chain.deep_view() =~= seq![crate::resolution::node_of(idxv, currv)]);
            }
            return ResolveOutcome::Pending(chain);
        }
        match &calc_info.modifier.value {
            CalculatedValue::StaticValue(v) => {
                values.insert(curr.clone(), Ok(v.clone()));
                ResolveOutcome::Done
            },
            CalculatedValue::Script(script) => {
                currently_calculating.insert(curr.clone());
                let ghost ipv = currently_calculating@;
                let ghost infov = idxv[currv];
                let ghost depsv = script.dependencies.deep_view();
                let ghost values_entry = values@;
                proof {
                    assert(infov.modifier.value == CalculatedValueView::Script(
                        script.deep_view(),
                    ));
                    assert(script.deep_view().dependencies == depsv);
                    assert(depsv.skip(0) =~= depsv);
                }
                let n = script.dependencies.len();
                let mut di: usize = 0;
                while di < n
                    invariant
                        di <= n,
                        n == script.dependencies.len(),
                        depsv == script.dependencies.deep_view(),
                        depsv.len() == n,
                        values.wf(),
                        currently_calculating.wf(),
                        currently_calculating@ == ipv,
                        ipv == ip0.insert(currv),
                        calc_map.wf(),
                        idxv == calc_map@,
                        crate::resolution::wf_index(idxv),
                        crate::resolution::state_ok(idxv, ipv),
                        crate::resolution::state_ok(idxv, ip0),
                        idxv.dom().contains(currv),
                        !ip0.contains(currv),
                        ip0 == old(currently_calculating)@,
                        values_entry == old(values)@,
                        !old(values)@.dom().contains(currv),
                        infov == idxv[currv],
                        infov == calc_info.model(),
                        currv == calc_info.modifier.property@,
                        currv == curr@,
                        calc_info.modifier.value == CalculatedValue::Script(*script)
                            || true,
                        infov.modifier.value == CalculatedValueView::Script(script.deep_view()),
                        crate::resolution::resolve_deps(
                            idxv,
                            infov,
                            depsv.skip(di as int),
                            values@,
                            ipv,
                        ) == crate::resolution::resolve_deps(idxv, infov, depsv, values_entry, ipv),
                    decreases n - di,
                {
                    let dep: &String = &script.dependencies[di];
                    let ghost values_pre = values@;
                    let ghost rest = depsv.skip(di as int);
                    proof {
                        assert(dep@ == depsv[di as int]);
                        assert(rest.len() > 0);
                        assert(rest[0] == depsv[di as int]);
                        assert(rest.drop_first() =~= depsv.skip(di + 1 as int));
                    }
                    match Self::lookup(values, dep.as_str()) {
                        Some(rv) => {
                            match rv {
                                Ok(_) => {
                                    // dependency already satisfied
                                    proof {
                                        assert(values_pre[dep@] matches Ok(_));
                                    }
                                },
                                Err(err) => {
                                    // the dependency failed: the property
                                    // inherits the dependency's error
                                    let ghost ev = err.deep_view();
                                    proof {
                                        assert(values_pre[dep@] == Err::<
                                            ValueView,
                                            ValueCalculationErrorView,
                                        >(ev));
                                        assert(crate::resolution::resolve_deps(
                                            idxv,
                                            infov,
                                            rest,
                                            values_pre,
                                            ipv,
                                        ) == (
                                            values_pre,
                                            crate::resolution::DepsOutcomeView::Failed(ev),
                                        ));
                                    }
                                    values.insert(curr.clone(), Err(err));
                                    currently_calculating.remove(curr.as_str());
                                    proof {
                                        assert(currently_calculating@ =~= ip0);
                                    }
                                    return ResolveOutcome::Done;
                                },
                            }
                        },
                        None => {
                            match calc_map.get(dep.as_str()) {
                                None => {
                                    // no value, no definition: missing
                                    // dependency, attributed to this site
                                    let missing = MissingDependency {
                                        missing_dependency: dep.clone(),
                                        found_in_feature_set: calc_info.feature_set.clone(),
                                        found_in_feature: calc_info.feature.clone(),
                                        found_in_property: calc_info.modifier.property.clone(),
                                    };
                                    proof {
                                        assert(missing.deep_view()
                                            == crate::resolution::missing_error(infov, dep@)
                                            ->MissingDependency_0);
                                        assert(crate::resolution::resolve_deps(
                                            idxv,
                                            infov,
                                            rest,
                                            values_pre,
                                            ipv,
                                        ) == (
                                            values_pre,
                                            crate::resolution::DepsOutcomeView::Failed(
                                                crate::resolution::missing_error(infov, dep@),
                                            ),
                                        ));
                                    }
                                    values.insert(
                                        curr.clone(),
                                        Err(ValueCalculationError::MissingDependency(missing)),
                                    );
                                    currently_calculating.remove(curr.as_str());
                                    proof {
                                        assert(currently_calculating@ =~= ip0);
                                    }
                                    return ResolveOutcome::Done;
                                },
                                Some(dep_info) => {
                                    proof {
                                        crate::resolution::lemma_measure_insert(
                                            idxv,
                                            currv,
                                            ip0,
                                        );
                                    }
                                    let ghost rr = crate::resolution::resolve_one(
                                        idxv,
                                        dep@,
                                        values_pre,
                                        ipv,
                                    );
                                    let sub = self.add_or_calc(
                                        values,
                                        currently_calculating,
                                        calc_map,
                                        dep_info,
                                    );
                                    match sub {
                                        ResolveOutcome::Done => {
                                            match Self::lookup(values, dep.as_str()) {
                                                Some(rv) => {
                                                    match rv {
                                                        Ok(_) => {
                                                            // resolved successfully
                                                            proof {
                                                                assert(rr.0[dep@] matches Ok(_));
                                                            }
                                                        },
                                                        Err(err) => {
                                                            let ghost ev = err.deep_view();
                                                            proof {
                                                                assert(rr.0[dep@] == Err::<
                                                                    ValueView,
                                                                    ValueCalculationErrorView,
                                                                >(ev));
                                                            }
                                                            values.insert(curr.clone(), Err(err));
                                                            currently_calculating.remove(
                                                                curr.as_str(),
                                                            );
                                                            proof {
                                                                assert(currently_calculating@
                                                                    =~= ip0);
                                                            }
                                                            return ResolveOutcome::Done;
                                                        },
                                                    }
                                                },
                                                None => {
                                                    // defensive: treated as a
                                                    // missing dependency, as the
                                                    // model does
                                                    let missing = MissingDependency {
                                                        missing_dependency: dep.clone(),
                                                        found_in_feature_set:
                                                            calc_info.feature_set.clone(),
                                                        found_in_feature:
                                                            calc_info.feature.clone(),
                                                        found_in_property:
                                                            calc_info.modifier.property.clone(),
                                                    };
                                                    values.insert(
                                                        curr.clone(),
                                                        Err(
                                                            ValueCalculationError::MissingDependency(
                                                                missing,
                                                            ),
                                                        ),
                                                    );
                                                    currently_calculating.remove(curr.as_str());
                                                    proof {
                                                        assert(currently_calculating@ =~= ip0);
                                                    }
                                                    return ResolveOutcome::Done;
                                                },
                                            }
                                        },
                                        ResolveOutcome::Pending(chain) => {
                                            proof {
                                                crate::resolution::lemma_pending_one(
                                                    idxv,
                                                    dep@,
                                                    values_pre,
                                                    ipv,
                                                );
                                            }
                                            let ghost chainv = chain.deep_view();
                                            let last_idx = chain.len() - 1;
                                            proof {
                                                assert(chainv.len() == chain@.len());
                                                assert(chain@[last_idx as int].deep_view()
                                                    == chainv.last());
                                            }
                                            if crate::string_map::str_eq(
                                                chain[last_idx].property.as_str(),
                                                curr.as_str(),
                                            ) {
                                                // the cycle closes here: write,
                                                // for every member, the cycle
                                                // rotated to start at it
                                                let r = Self::close_cycle(
                                                    values,
                                                    &chain,
                                                    Ghost(rr.0),
                                                );
                                                currently_calculating.remove(curr.as_str());
                                                proof {
                                                    assert(currently_calculating@ =~= ip0);
                                                }
                                                return r;
                                            } else {
                                                // not a member frame of the
                                                // closing point: prepend this
                                                // frame's node and keep
                                                // unwinding
                                                let node = CycleNode {
                                                    feature_set: calc_info.feature_set.clone(),
                                                    feature: calc_info.feature.clone(),
                                                    property: calc_info.modifier.property.clone(),
                                                };
                                                let mut chain2 = chain;
                                                chain2.insert(0, node);
                                                currently_calculating.remove(curr.as_str());
                                                proof {
                                                    assert(currently_calculating@ =~= ip0);
                                                    assert(chain2.deep_view() =~= seq![
                                                        crate::resolution::node_of(idxv, currv),
                                                    ] + chainv);
                                                }
                                                return ResolveOutcome::Pending(chain2);
                                            }
                                        },
                                    }
                                },
                            }
                        },
                    }
                    di = di + 1;
                }
                // every dependency has a successful value: evaluate the
                // script and publish its result
                proof {
                    assert(depsv.skip(n as int) =~= Seq::<Seq<char>>::empty());
                }
                let computed = self.evaluate_script(script, values);
                values.insert(curr.clone(), computed);
                currently_calculating.remove(curr.as_str());
                proof {
                    assert(currently_calculating@ =~= ip0);
                }
                ResolveOutcome::Done
            },
        }
    }

    /// Writes, for every member of the closed cycle `chain`, a `Cycle`
    /// error carrying the full cycle in traversal order, rotated to start
    /// at that member.  `chain` is the chain as it arrived at the closing
    /// frame: the detection node last, the closing frame's node first.
    fn close_cycle(
        values: &mut ValueStore,
        chain: &Vec<CycleNode>,
        Ghost(base): Ghost<Map<Seq<char>, ResultView>>,
    ) -> (r: ResolveOutcome)
        requires
            old(values).wf(),
            chain@.len() > 0,
            old(values)@ == base,
        ensures
            final(values).wf(),
            final(values)@ == ({
                let chainv = chain.deep_view();
                let full = seq![chainv.last()] + chainv.drop_last();
                crate::resolution::write_cycles(base, full, full.len() as int)
            }),
            r.outcome_view() == crate::resolution::ResolveOutcomeView::Done,
    {
        let ghost chainv = chain.deep_view();
        let ghost fullv = seq![chainv.last()] + chainv.drop_last();
        let last_idx = chain.len() - 1;
        let mut full: Vec<CycleNode> = Vec::new();
        full.push(chain[last_idx].clone());
        proof {
            assert(full.deep_view() =~= seq![chainv.last()] + chainv.subrange(0, 0));
        }
        let mut u: usize = 0;
        while u < last_idx
            invariant
                u <= last_idx,
                last_idx == chain@.len() - 1,
                chainv == chain.deep_view(),
                chainv.len() == chain@.len(),
                full.deep_view() == seq![chainv.last()] + chainv.subrange(0, u as int),
            decreases last_idx - u,
        {
            let ghost old_fd = full.deep_view();
            let cl = chain[u].clone();
            proof {
                assert(cl.deep_view() == chainv[u as int]);
            }
            full.push(cl);
            proof {
                assert(full.deep_view() =~= old_fd.push(chainv[u as int]));
                assert(full.deep_view() =~= seq![chainv.last()] + chainv.subrange(
                    0,
                    u + 1 as int,
                ));
            }
            u = u + 1;
        }
        proof {
            assert(chainv.subrange(0, last_idx as int) =~= chainv.drop_last());
            assert(full.deep_view() =~= fullv);
        }
        let total = full.len();
        let mut t: usize = 0;
        while t < total
            invariant
                t <= total,
                total == full@.len(),
                values.wf(),
                full.deep_view() == fullv,
                fullv.len() == total,
                values@ == crate::resolution::write_cycles(base, fullv, t as int),
            decreases total - t,
        {
            let mut rot: Vec<CycleNode> = Vec::new();
            let mut v1: usize = t;
            while v1 < total
                invariant
                    t <= v1 <= total,
                    total == full@.len(),
                    full.deep_view() == fullv,
                    fullv.len() == total,
                    rot.deep_view() == fullv.subrange(t as int, v1 as int),
                decreases total - v1,
            {
                let ghost old_rd = rot.deep_view();
                let cl = full[v1].clone();
                proof {
                    assert(cl.deep_view() == fullv[v1 as int]);
                }
                rot.push(cl);
                proof {
                    assert(rot.deep_view() =~= old_rd.push(fullv[v1 as int]));
                    assert(rot.deep_view() =~= fullv.subrange(t as int, v1 + 1 as int));
                }
                v1 = v1 + 1;
            }
            let mut v2: usize = 0;
            while v2 < t
                invariant
                    v2 <= t <= total,
                    total == full@.len(),
                    full.deep_view() == fullv,
                    fullv.len() == total,
                    rot.deep_view() == fullv.subrange(t as int, total as int) + fullv.subrange(
                        0,
                        v2 as int,
                    ),
                decreases t - v2,
            {
                let ghost old_rd = rot.deep_view();
                let cl = full[v2].clone();
                proof {
                    assert(cl.deep_view() == fullv[v2 as int]);
                }
                rot.push(cl);
                proof {
                    assert(rot.deep_view() =~= old_rd.push(fullv[v2 as int]));
                    assert(rot.deep_view() =~= fullv.subrange(t as int, total as int)
                        + fullv.subrange(0, v2 + 1 as int));
                }
                v2 = v2 + 1;
            }
            proof {
                assert(rot.deep_view() =~= crate::resolution::rotation(fullv, t as int));
                assert(full@[t as int].deep_view() == fullv[t as int]);
            }
            values.insert(full[t].property.clone(), Err(ValueCalculationError::Cycle(rot)));
            proof {
                assert(values@ =~= crate::resolution::write_cycles(base, fullv, t + 1 as int));
            }
            t = t + 1;
        }
        ResolveOutcome::Done
    }

    /// Calculates and returns all values: the store seeded with every user
    /// value and completed, per property of the modifier index, with the
    /// property's value or the error that befell it.  The call itself
    /// never fails; failures are carried per property inside the map.
    pub fn calculate_all_values(&self) -> (r: Result<ValueStore, IllegalSheetError>)
        requires
            self.wf(),
        ensures
            r matches Ok(vs) && vs.wf() && vs@ == crate::resolution::spec_calculate(
                self@.user_values,
                self@.active_features,
            ),
    {
        let ghost active = self.active_features.deep_view();
        let ghost entries = crate::resolution::mods_of(active);
        let mut values: ValueStore = StringMap::new();
        self.add_user_values(&mut values);
        let calc_map = self.build_modifier_index();
        let mut currently_calculating = StringSet::new();
        let ghost idxv = calc_map@;
        let ghost keys = calc_map.key_seq();
        let ghost seeded = values@;
        proof {
            calc_map.lemma_dom_finite();
            crate::resolution::lemma_index_keys(entries);
            calc_map.lemma_dom();
            assert(keys.subrange(0, 0) =~= Seq::<Seq<char>>::empty());
        }
        let total = calc_map.len();
        let mut i: usize = 0;
        while i < total
            invariant
                i <= total,
                total == keys.len(),
                keys == calc_map.key_seq(),
                idxv == calc_map@,
                calc_map.wf(),
                crate::resolution::wf_index(idxv),
                idxv.dom().finite(),
                forall|j: int| 0 <= j < keys.len() ==> idxv.dom().contains(#[trigger] keys[j]),
                values.wf(),
                currently_calculating.wf(),
                currently_calculating@ == Set::<Seq<char>>::empty(),
                values@ == crate::resolution::resolve_all(
                    idxv,
                    keys.subrange(0, i as int),
                    seeded,
                ),
            decreases total - i,
        {
            let entry = calc_map.entry_at(i);
            let ghost values_pre = values@;
            proof {
                assert(entry.1.model().modifier.property == keys[i as int]);
            }
            let sub = self.add_or_calc(
                &mut values,
                &mut currently_calculating,
                &calc_map,
                &entry.1,
            );
            proof {
                crate::resolution::lemma_pending_one(idxv, keys[i as int], values_pre, Set::empty());
                let rr = crate::resolution::resolve_one(
                    idxv,
                    keys[i as int],
                    values_pre,
                    Set::empty(),
                );
                assert(values@ == rr.0);
                let prefix2 = keys.subrange(0, i + 1 as int);
                assert(prefix2.drop_last() =~= keys.subrange(0, i as int));
                assert(prefix2.last() == keys[i as int]);
                assert(values@ == crate::resolution::resolve_all(idxv, prefix2, seeded));
            }
            i = i + 1;
        }
        proof {
            assert(keys.subrange(0, total as int) =~= keys);
            assert(values@ == crate::resolution::spec_calculate(
                self@.user_values,
                self@.active_features,
            ));
        }
        Ok(values)
    }

    /// Finds all values that are used as a dependency, but that don't have
    /// a feature that defines them.  The result depends on the active
    /// feature sets alone: it is the set of script-declared dependency
    /// names minus the set of modifier targets, whether or not any user
    /// value is currently present.
    pub fn find_minimum_required_user_values(&self) -> (r: StringSet)
        ensures
            r.wf(),
            r@ == crate::resolution::spec_required_user_values(self@.active_features),
    {
        let ghost active = self.active_features.deep_view();
        let mut specified_properties = StringSet::new();
        let mut required_properties = StringSet::new();
        let ghost mut es: Seq<(Seq<char>, CalcInfoView)> = Seq::empty();
        let mut i: usize = 0;
        while i < self.active_features.len()
            invariant
                i <= self.active_features.len(),
                active == self.active_features.deep_view(),
                active.len() == self.active_features.len(),
                es == crate::resolution::mods_upto(active, i as int),
                specified_properties.wf(),
                required_properties.wf(),
                specified_properties@ == crate::resolution::targets_of_entries(es),
                required_properties@ == crate::resolution::deps_of_entries(es),
            decreases self.active_features.len() - i,
        {
            let fs = &self.active_features[i];
            let ghost fsv = active[i as int];
            let ghost es_set_base = es;
            proof {
                assert(fsv == self.active_features@[i as int].deep_view());
            }
            let mut j: usize = 0;
            while j < fs.features.len()
                invariant
                    j <= fs.features.len(),
                    fsv == fs.deep_view(),
                    fsv.features.len() == fs.features.len(),
                    es == es_set_base + crate::resolution::mods_of_set_upto(fsv, j as int),
                    specified_properties.wf(),
                    required_properties.wf(),
                    specified_properties@ == crate::resolution::targets_of_entries(es),
                    required_properties@ == crate::resolution::deps_of_entries(es),
                decreases fs.features.len() - j,
            {
                let f = &fs.features[j];
                let ghost fv = fsv.features[j as int];
                let ghost es_feature_base = es;
                proof {
                    assert(fv == fs.features@[j as int].deep_view());
                }
                let mut k: usize = 0;
                while k < f.modifiers.len()
                    invariant
                        k <= f.modifiers.len(),
                        fv == f.deep_view(),
                        fsv.name == fs.name@,
                        fv.modifiers.len() == f.modifiers.len(),
                        es == es_feature_base + crate::resolution::mods_of_feature(
                            fsv.name,
                            fv,
                        ).subrange(0, k as int),
                        specified_properties.wf(),
                        required_properties.wf(),
                        specified_properties@ == crate::resolution::targets_of_entries(es),
                        required_properties@ == crate::resolution::deps_of_entries(es),
                    decreases f.modifiers.len() - k,
                {
                    let m = &f.modifiers[k];
                    let ghost e = crate::resolution::mods_of_feature(fsv.name, fv)[k as int];
                    proof {
                        assert(m.deep_view() == fv.modifiers[k as int]);
                    }
                    specified_properties.insert(m.property.clone());
                    match &m.value {
                        CalculatedValue::StaticValue(_) => {
                            proof {
                                let es2 = es.push(e);
                                assert(es2.drop_last() =~= es);
                                assert(es2.last() == e);
                                assert(required_properties@ =~= crate::resolution::deps_of_entries(
                                    es2,
                                ));
                                es = es2;
                            }
                        },
                        CalculatedValue::Script(script) => {
                            let ghost depsv = script.dependencies.deep_view();
                            let ghost req_base = required_properties@;
                            proof {
                                assert(required_properties@ =~= req_base
                                    + crate::string_map::names_set(depsv.subrange(0, 0)));
                            }
                            let mut t: usize = 0;
                            while t < script.dependencies.len()
                                invariant
                                    t <= script.dependencies.len(),
                                    depsv == script.dependencies.deep_view(),
                                    depsv.len() == script.dependencies.len(),
                                    required_properties.wf(),
                                    required_properties@ == req_base
                                        + crate::string_map::names_set(
                                        depsv.subrange(0, t as int),
                                    ),
                                decreases script.dependencies.len() - t,
                            {
                                let dep = &script.dependencies[t];
                                proof {
                                    assert(dep@ == depsv[t as int]);
                                }
                                required_properties.insert(dep.clone());
                                proof {
                                    assert(depsv.subrange(0, t + 1 as int).drop_last()
                                        =~= depsv.subrange(0, t as int));
                                    assert(required_properties@ =~= req_base
                                        + crate::string_map::names_set(
                                        depsv.subrange(0, t + 1 as int),
                                    ));
                                }
                                t = t + 1;
                            }
                            proof {
                                assert(depsv.subrange(0, depsv.len() as int) =~= depsv);
                                let es2 = es.push(e);
                                assert(es2.drop_last() =~= es);
                                assert(es2.last() == e);
                                assert(e.1.modifier == fv.modifiers[k as int]);
                                assert(e.1.modifier.value
                                    == CalculatedValueView::Script(script.deep_view()));
                                assert(required_properties@ =~= crate::resolution::deps_of_entries(
                                    es2,
                                ));
                                es = es2;
                            }
                        },
                    }
                    proof {
                        assert(specified_properties@ =~= crate::resolution::targets_of_entries(es));
                    }
                    k = k + 1;
                }
                proof {
                    assert(crate::resolution::mods_of_feature(fsv.name, fv).subrange(
                        0,
                        fv.modifiers.len() as int,
                    ) =~= crate::resolution::mods_of_feature(fsv.name, fv));
                    assert(crate::resolution::mods_of_set_upto(fsv, j + 1 as int)
                        == crate::resolution::mods_of_set_upto(fsv, j as int)
                        + crate::resolution::mods_of_feature(fsv.name, fsv.features[j as int]));
                    assert(es =~= es_set_base + crate::resolution::mods_of_set_upto(
                        fsv,
                        j + 1 as int,
                    ));
                }
                j = j + 1;
            }
            proof {
                assert(crate::resolution::mods_of_set(fsv) == crate::resolution::mods_of_set_upto(
                    fsv,
                    fsv.features.len() as int,
                ));
                assert(crate::resolution::mods_upto(active, i + 1 as int)
                    == crate::resolution::mods_upto(active, i as int)
                    + crate::resolution::mods_of_set(active[i as int]));
                assert(es =~= crate::resolution::mods_upto(active, i + 1 as int));
            }
            i = i + 1;
        }
        proof {
            assert(es == crate::resolution::mods_of(active));
        }
        // All properties that were specified as a dependency, but not as a
        // feature.
        let mut result = StringSet::new();
        let ghost req_names = required_properties.name_seq();
        let n = required_properties.len();
        let mut t: usize = 0;
        while t < n
            invariant
                t <= n,
                n == req_names.len(),
                req_names == required_properties.name_seq(),
                required_properties.wf(),
                specified_properties.wf(),
                result.wf(),
                result@ == crate::string_map::names_set(req_names.subrange(0, t as int))
                    - specified_properties@,
            decreases n - t,
        {
            let name = required_properties.name_at(t);
            let keep = !specified_properties.contains(name.as_str());
            let ghost prefix2 = req_names.subrange(0, t + 1 as int);
            proof {
                assert(prefix2.drop_last() =~= req_names.subrange(0, t as int));
                assert(prefix2.last() == name@);
            }
            if keep {
                let owned = name.clone();
                result.insert(owned);
            }
            proof {
                assert(result@ =~= crate::string_map::names_set(prefix2)
                    - specified_properties@);
            }
            t = t + 1;
        }
        proof {
            assert(req_names.subrange(0, n as int) =~= req_names);
            required_properties.lemma_view_names_set();
            crate::resolution::lemma_targets_dom(es);
            assert(result@ =~= crate::resolution::spec_required_user_values(active));
        }
        result
    }
}

} // verus!
