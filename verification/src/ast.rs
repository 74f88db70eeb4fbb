//! The abstract syntax tree of the rule-definition language: a model of
//! features, each with named modifiers that set a property or add a bonus
//! to it.

use vstd::prelude::*;

verus! {

/// Mathematical view of a [`Scope`].
#[verifier::ext_equal]
pub enum ScopeView {
    Character,
    Feature(Seq<char>),
}

/// Mathematical view of a [`Reference`].
#[verifier::ext_equal]
pub struct ReferenceView {
    pub scope: ScopeView,
    pub name: Seq<char>,
}

/// Mathematical view of a [`Modifier`].
#[verifier::ext_equal]
pub struct ModifierView {
    pub referencing: ReferenceView,
    pub value: ModifierValue,
}

/// Mathematical view of a [`Feature`].
#[verifier::ext_equal]
pub struct FeatureView {
    pub name: Seq<char>,
    pub description: Seq<char>,
    pub modifiers: Seq<ModifierView>,
}

/// Mathematical view of a [`Model`].
#[verifier::ext_equal]
pub struct ModelView {
    pub features: Seq<FeatureView>,
}

/// Mathematical view of an [`AST`].
#[verifier::ext_equal]
pub struct ASTView {
    pub model: ModelView,
    pub references: Seq<ReferenceView>,
}

/// The scope a reference lives in.
#[derive(Debug, PartialEq, Eq)]
pub enum Scope {
    /// Essentially the global scope.
    Character,
    /// For referencing the properties of one feature.
    Feature(String),
}

impl DeepView for Scope {
    type V = ScopeView;

    open spec fn deep_view(&self) -> ScopeView {
        match self {
            Scope::Character => ScopeView::Character,
            Scope::Feature(name) => ScopeView::Feature(name@),
        }
    }
}

/// A scoped reference to a property.
#[derive(Debug, PartialEq, Eq)]
pub struct Reference {
    pub scope: Scope,
    pub name: String,
}

impl DeepView for Reference {
    type V = ReferenceView;

    open spec fn deep_view(&self) -> ReferenceView {
        ReferenceView { scope: self.scope.deep_view(), name: self.name@ }
    }
}

/// The value a modifier applies: written `+n name;`, `bonus to name of n;`
/// or `set name to n;`.
#[derive(Debug, Clone, Copy, PartialEq, Eq, Structural)]
pub enum ModifierValue {
    /// A bonus written in the short form.
    SimpleBonus(i32),
    /// A bonus written in the long form.
    Bonus(i32),
    /// Sets the property to the value.
    SetTo(i32),
}

impl DeepView for ModifierValue {
    type V = ModifierValue;

    open spec fn deep_view(&self) -> ModifierValue {
        *self
    }
}

/// One modifier of a feature.
#[derive(Debug, PartialEq, Eq)]
pub struct Modifier {
    pub referencing: Reference,
    pub value: ModifierValue,
}

impl DeepView for Modifier {
    type V = ModifierView;

    open spec fn deep_view(&self) -> ModifierView {
        ModifierView { referencing: self.referencing.deep_view(), value: self.value }
    }
}

/// One feature of a model.
#[derive(Debug, PartialEq, Eq)]
pub struct Feature {
    pub name: String,
    pub description: String,
    pub modifiers: Vec<Modifier>,
}

impl DeepView for Feature {
    type V = FeatureView;

    open spec fn deep_view(&self) -> FeatureView {
        FeatureView {
            name: self.name@,
            description: self.description@,
            modifiers: self.modifiers.deep_view(),
        }
    }
}

/// The model a parsed input denotes: its features in order.
#[derive(Debug, PartialEq, Eq)]
pub struct Model {
    pub features: Vec<Feature>,
}

impl DeepView for Model {
    type V = ModelView;

    open spec fn deep_view(&self) -> ModelView {
        ModelView { features: self.features.deep_view() }
    }
}

/// A parsed input: the model and the references its modifiers make.
#[derive(Debug, PartialEq, Eq)]
pub struct AST {
    pub model: Model,
    pub references: Vec<Reference>,
}

impl DeepView for AST {
    type V = ASTView;

    open spec fn deep_view(&self) -> ASTView {
        ASTView { model: self.model.deep_view(), references: self.references.deep_view() }
    }
}

} // verus!
