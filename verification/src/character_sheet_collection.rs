//! The data model of a character-sheet collection: feature sets bundling
//! features, whose modifiers assign constant or script-calculated values to
//! named properties, together with the dice-expression value types.
//!
//! Every type carries a mathematical view (`deep_view`) over `Seq` and plain
//! values; the contracts of the engine are stated over these views.

use vstd::prelude::*;

verus! {

/// Mathematical view of a [`Dice`] value.
#[verifier::ext_equal]
pub struct DiceView {
    pub amount: u32,
    pub sides: u32,
    pub modifiers: Seq<DiceModifier>,
}

/// Mathematical view of a [`DiceValue`].
#[verifier::ext_equal]
pub struct DiceValueView {
    pub dice: Seq<DiceView>,
    pub bonus: i32,
}

/// Mathematical view of a [`StaticValueType`].
#[verifier::ext_equal]
pub enum ValueView {
    Number(i32),
    Dice(DiceValueView),
}

/// Mathematical view of a [`Script`].
#[verifier::ext_equal]
pub struct ScriptView {
    pub script: Seq<char>,
    pub dependencies: Seq<Seq<char>>,
}

/// Mathematical view of a [`CalculatedValue`].
#[verifier::ext_equal]
pub enum CalculatedValueView {
    StaticValue(ValueView),
    Script(ScriptView),
}

/// Mathematical view of a [`FeatureModifier`].
#[verifier::ext_equal]
pub struct FeatureModifierView {
    pub property: Seq<char>,
    pub value: CalculatedValueView,
}

/// Mathematical view of a [`Feature`].
#[verifier::ext_equal]
pub struct FeatureView {
    pub name: Seq<char>,
    pub description: Seq<char>,
    pub base_type: Seq<char>,
    pub modifiers: Seq<FeatureModifierView>,
}

/// Mathematical view of a [`FeatureSet`].
#[verifier::ext_equal]
pub struct FeatureSetView {
    pub name: Seq<char>,
    pub description: Seq<char>,
    pub features: Seq<FeatureView>,
}

/// Selects a group of dice in a given dice roll.
#[derive(Debug, Clone, Copy, PartialEq, Eq, Structural)]
pub enum DiceSelector {
    /// highest x rolls of this dice set
    Highest(u16),
    /// lowest x rolls of this dice set
    Lowest(u16),
    /// all rolls of this dice set with a roll higher than x
    HigherThan(u16),
    /// all rolls of this dice set with a roll lower than x
    LowerThan(u16),
    /// all rolls of this dice set with a roll equal to x
    Exactly(u16),
    /// all rolled dice (useful for e.g. the count modifier)
    All,
}

impl DeepView for DiceSelector {
    type V = DiceSelector;

    open spec fn deep_view(&self) -> DiceSelector {
        *self
    }
}

/// Modifiers on a dice roll.
#[derive(Debug, Clone, Copy, PartialEq, Eq, Structural)]
pub enum DiceModifier {
    /// Only considers these dice and ignores all others.
    Keep(DiceSelector),
    /// Ignores the results of the given dice.
    Drop(DiceSelector),
    /// Rerolls the dice and takes the new result. Does not repeat.
    Reroll(DiceSelector),
    /// Rerolls the dice and adds the results together. May happen multiple
    /// times on the same die.
    Explode(DiceSelector),
    /// Counts the amount of dice fulfilling the selector.
    Count(DiceSelector),
}

impl DeepView for DiceModifier {
    type V = DiceModifier;

    open spec fn deep_view(&self) -> DiceModifier {
        *self
    }
}

/// One set of dice with the same count of sides.
#[derive(Debug, PartialEq, Eq)]
pub struct Dice {
    pub amount: u32,
    pub sides: u32,
    pub modifiers: Vec<DiceModifier>,
}

impl DeepView for Dice {
    type V = DiceView;

    open spec fn deep_view(&self) -> DiceView {
        DiceView {
            amount: self.amount,
            sides: self.sides,
            modifiers: self.modifiers.deep_view(),
        }
    }
}

impl Clone for Dice {
    fn clone(&self) -> (res: Self)
        ensures
            res.deep_view() == self.deep_view(),
    {
        let res = Dice {
            amount: self.amount,
            sides: self.sides,
            modifiers: self.modifiers.clone(),
        };
        proof {
            assert(res.modifiers.deep_view() =~= self.modifiers.deep_view());
            assert(res.deep_view() =~= self.deep_view());
        }
        res
    }
}

/// A value that consists of a set of dice that should be rolled to get the
/// actual value.
#[derive(Debug, PartialEq, Eq)]
pub struct DiceValue {
    /// The dice sets to be rolled.
    pub dice: Vec<Dice>,
    /// A static bonus to the result of the roll.
    pub bonus: i32,
}

impl DeepView for DiceValue {
    type V = DiceValueView;

    open spec fn deep_view(&self) -> DiceValueView {
        DiceValueView { dice: self.dice.deep_view(), bonus: self.bonus }
    }
}

impl Clone for DiceValue {
    fn clone(&self) -> (res: Self)
        ensures
            res.deep_view() == self.deep_view(),
    {
        let res = DiceValue { dice: self.dice.clone(), bonus: self.bonus };
        proof {
            assert(res.dice.deep_view() =~= self.dice.deep_view());
            assert(res.deep_view() =~= self.deep_view());
        }
        res
    }
}

/// An actual value that a property may have.
#[derive(Debug, PartialEq, Eq)]
pub enum StaticValueType {
    Number(i32),
    Dice(DiceValue),
}

impl DeepView for StaticValueType {
    type V = ValueView;

    open spec fn deep_view(&self) -> ValueView {
        match self {
            StaticValueType::Number(n) => ValueView::Number(*n),
            StaticValueType::Dice(d) => ValueView::Dice(d.deep_view()),
        }
    }
}

impl Clone for StaticValueType {
    fn clone(&self) -> (res: Self)
        ensures
            res.deep_view() == self.deep_view(),
    {
        match self {
            StaticValueType::Number(n) => StaticValueType::Number(*n),
            StaticValueType::Dice(d) => StaticValueType::Dice(d.clone()),
        }
    }
}

impl Default for StaticValueType {
    /// The default value of a property is the number zero.
    fn default() -> (res: Self)
        ensures
            res.deep_view() == ValueView::Number(0),
    {
        StaticValueType::Number(0)
    }
}

/// A script is a value that depends on some operations and usually other
/// properties.
#[derive(Debug, PartialEq, Eq)]
pub struct Script {
    /// The script that specifies how the value should be calculated once all
    /// dependencies are calculated.
    /// May reference the dependencies, but never other properties outside of
    /// them.
    pub script: String,
    /// The list of properties that this script depends on.  The declared list
    /// is authoritative: the resolver never inspects the script text to
    /// discover dependencies.
    pub dependencies: Vec<String>,
}

impl DeepView for Script {
    type V = ScriptView;

    open spec fn deep_view(&self) -> ScriptView {
        ScriptView {
            script: self.script.deep_view(),
            dependencies: self.dependencies.deep_view(),
        }
    }
}

impl Clone for Script {
    fn clone(&self) -> (res: Self)
        ensures
            res.deep_view() == self.deep_view(),
    {
        let res = Script { script: self.script.clone(), dependencies: self.dependencies.clone() };
        proof {
            assert(res.dependencies.deep_view() =~= self.dependencies.deep_view());
            assert(res.deep_view() =~= self.deep_view());
        }
        res
    }
}

/// A set of operations that will result in a specific value.
#[derive(Debug, PartialEq, Eq)]
pub enum CalculatedValue {
    /// A static value always has the same value.
    StaticValue(StaticValueType),
    /// A script is a value that depends on some operations and usually other
    /// properties.
    Script(Script),
}

impl DeepView for CalculatedValue {
    type V = CalculatedValueView;

    open spec fn deep_view(&self) -> CalculatedValueView {
        match self {
            CalculatedValue::StaticValue(v) => CalculatedValueView::StaticValue(v.deep_view()),
            CalculatedValue::Script(s) => CalculatedValueView::Script(s.deep_view()),
        }
    }
}

impl Clone for CalculatedValue {
    fn clone(&self) -> (res: Self)
        ensures
            res.deep_view() == self.deep_view(),
    {
        match self {
            CalculatedValue::StaticValue(v) => CalculatedValue::StaticValue(v.clone()),
            CalculatedValue::Script(s) => CalculatedValue::Script(s.clone()),
        }
    }
}

impl Default for CalculatedValue {
    /// The default calculated value is the default static value.
    fn default() -> (res: Self)
        ensures
            res.deep_view() == CalculatedValueView::StaticValue(ValueView::Number(0)),
    {
        CalculatedValue::StaticValue(StaticValueType::Number(0))
    }
}

/// A set of changes to a given property.
#[derive(Debug, PartialEq, Eq)]
pub struct FeatureModifier {
    /// The property of the character that this references.
    pub property: String,
    /// The changes applied to the property.
    pub value: CalculatedValue,
}

impl DeepView for FeatureModifier {
    type V = FeatureModifierView;

    open spec fn deep_view(&self) -> FeatureModifierView {
        FeatureModifierView { property: self.property.deep_view(), value: self.value.deep_view() }
    }
}

impl Clone for FeatureModifier {
    fn clone(&self) -> (res: Self)
        ensures
            res.deep_view() == self.deep_view(),
    {
        FeatureModifier { property: self.property.clone(), value: self.value.clone() }
    }
}

/// A feature is any actual value that a character may have.
/// This can range from things like HP or Mana all the way to attacks and
/// spells.
#[derive(Debug, PartialEq, Eq)]
pub struct Feature {
    pub name: String,
    pub description: String,
    /// The base types should mostly be specified by the base rules for the
    /// game system.  They help categorizing the feature into the proper
    /// sections of a UI; resolution never reads them.
    pub base_type: String,
    /// The modifiers specify which values will be changed how, if this
    /// feature is active.
    pub modifiers: Vec<FeatureModifier>,
}

impl DeepView for Feature {
    type V = FeatureView;

    open spec fn deep_view(&self) -> FeatureView {
        FeatureView {
            name: self.name.deep_view(),
            description: self.description.deep_view(),
            base_type: self.base_type.deep_view(),
            modifiers: self.modifiers.deep_view(),
        }
    }
}

impl Clone for Feature {
    fn clone(&self) -> (res: Self)
        ensures
            res.deep_view() == self.deep_view(),
    {
        let res = Feature {
            name: self.name.clone(),
            description: self.description.clone(),
            base_type: self.base_type.clone(),
            modifiers: self.modifiers.clone(),
        };
        proof {
            assert(res.modifiers.deep_view() =~= self.modifiers.deep_view());
            assert(res.deep_view() =~= self.deep_view());
        }
        res
    }
}

/// As the name implies a feature set bundles a bunch of features together.
/// In most games this may be anything from classes to races to items or even
/// spells in some cases.
#[derive(Debug, PartialEq, Eq)]
pub struct FeatureSet {
    pub name: String,
    pub description: String,
    pub features: Vec<Feature>,
}

impl DeepView for FeatureSet {
    type V = FeatureSetView;

    open spec fn deep_view(&self) -> FeatureSetView {
        FeatureSetView {
            name: self.name.deep_view(),
            description: self.description.deep_view(),
            features: self.features.deep_view(),
        }
    }
}

impl Clone for FeatureSet {
    fn clone(&self) -> (res: Self)
        ensures
            res.deep_view() == self.deep_view(),
    {
        let res = FeatureSet {
            name: self.name.clone(),
            description: self.description.clone(),
            features: self.features.clone(),
        };
        proof {
            assert(res.features.deep_view() =~= self.features.deep_view());
            assert(res.deep_view() =~= self.deep_view());
        }
        res
    }
}

/// A selector selects a given value out of a list of possible ones.
#[derive(Debug, PartialEq, Eq)]
pub struct Selector {
    /// The identifier of the selector, for example `highest`.
    /// The list of supported selectors depends on the execution engine.
    pub identifier: String,
    /// Potential arguments for the selector.
    pub arguments: Vec<String>,
}

impl Clone for Selector {
    fn clone(&self) -> (res: Self)
        ensures
            res.identifier.deep_view() == self.identifier.deep_view(),
            res.arguments.deep_view() == self.arguments.deep_view(),
    {
        let res = Selector {
            identifier: self.identifier.clone(),
            arguments: self.arguments.clone(),
        };
        proof {
            assert(res.arguments.deep_view() =~= self.arguments.deep_view());
        }
        res
    }
}

/// A limiter limits the possible values of a property.
#[derive(Debug, PartialEq, Eq)]
pub struct Limiter {
    /// The identifier of the limiter, for example `maximum`.
    /// The list of supported limiters depends on the execution engine.
    pub identifier: String,
    /// Potential arguments for the limiter.
    pub arguments: Vec<String>,
}

impl Clone for Limiter {
    fn clone(&self) -> (res: Self)
        ensures
            res.identifier.deep_view() == self.identifier.deep_view(),
            res.arguments.deep_view() == self.arguments.deep_view(),
    {
        let res = Limiter {
            identifier: self.identifier.clone(),
            arguments: self.arguments.clone(),
        };
        proof {
            assert(res.arguments.deep_view() =~= self.arguments.deep_view());
        }
        res
    }
}

/// Definition of the type of a property.
#[derive(Debug, PartialEq, Eq)]
pub struct PropertyDefinition {
    /// Name of the property.
    pub name: String,
    /// In case multiple values for this property are possible, this selector
    /// specifies which ones should be kept.
    pub selector: Selector,
    /// The limiters limit the possible values of this property.
    pub limiters: Vec<Limiter>,
}

/// A collection of types and items.
///
/// The type definitions may mention properties that are not in any feature,
/// as well as miss some properties that are: a definition that is missing for
/// a referenced property should be treated as the default.
#[derive(Debug, PartialEq, Eq)]
pub struct CSCollection {
    /// Type definitions of all properties.
    pub properties: Vec<PropertyDefinition>,
    /// The feature sets of the collection.
    pub items: Vec<FeatureSet>,
}

impl CSCollection {
    /// Creates an empty collection.
    pub fn new() -> (res: Self)
        ensures
            res.properties@.len() == 0,
            res.items@.len() == 0,
    {
        CSCollection { properties: Vec::new(), items: Vec::new() }
    }
}

} // verus!
