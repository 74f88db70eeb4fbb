//! The calculator-facing data model: a library of named functions over
//! static values, property selectors and limiters, and items whose feature
//! modifiers reference properties through scoped references.

use vstd::prelude::*;

pub use crate::character_sheet_collection::{
    Dice, DiceModifier, DiceSelector, DiceValue, StaticValueType,
};
use crate::string_map::{Modeled, StringMap};

verus! {

/// The arguments handed to a calculator function.
pub type FunctionArgs = Vec<StaticValueType>;

/// An error raised while applying a calculator function.
#[derive(Debug, PartialEq, Eq)]
pub struct CalculatorError {
    /// Message used for debugging, that may not be fit to be shown to the
    /// end user.
    pub internal_message: String,
    /// Message that may be shown to the end user.  Should not use internal
    /// or technical information.
    pub public_message: String,
}

impl CalculatorError {
    /// Creates an error with distinct internal and public messages.
    pub fn new(internal_message: String, public_message: String) -> (res: Self)
        ensures
            res.internal_message@ == internal_message@,
            res.public_message@ == public_message@,
    {
        CalculatorError { internal_message, public_message }
    }

    /// Creates an error whose one message may be shown to the end user.
    pub fn new_public(message: String) -> (res: Self)
        ensures
            res.internal_message@ == message@,
            res.public_message@ == message@,
    {
        let internal_message = message.clone();
        CalculatorError { internal_message, public_message: message }
    }
}

/// The calculator functions this crate ships.
#[derive(Debug, Clone, Copy, PartialEq, Eq, Structural)]
pub enum StandardFunction {
    Add,
    Subtract,
    Divide,
    Multiply,
}

/// A named calculator function.
#[derive(Debug, PartialEq, Eq)]
pub struct FunctionDefinition {
    pub name: String,
    /// Which of the standard functions the name denotes.
    pub function: StandardFunction,
}

impl Modeled for FunctionDefinition {
    type ModelT = (Seq<char>, StandardFunction);

    open spec fn model(&self) -> (Seq<char>, StandardFunction) {
        (self.name@, self.function)
    }
}

impl Clone for FunctionDefinition {
    fn clone(&self) -> (res: Self)
        ensures
            res.model() == self.model(),
    {
        FunctionDefinition { name: self.name.clone(), function: self.function }
    }
}

/// The library of calculator functions, by name.
#[derive(Debug, PartialEq, Eq)]
pub struct Library {
    pub functions: StringMap<FunctionDefinition>,
}

/// A selector selects a given value out of a list of possible ones.
pub trait Selector {
    /// Picks one of the values; the list holds at least one.
    fn select(&self, items: Vec<StaticValueType>) -> StaticValueType
        requires
            items@.len() > 0,
    ;

    /// A short name for display.
    fn string_representation(&self) -> String;
}

/// A limiter limits the possible values of a property.
pub trait Limiter {
    /// Clamps the value in place.
    fn apply_limits(&self, value: &mut StaticValueType);

    /// A short name for display.
    fn string_representation(&self) -> String;
}

/// The selector used when a property definition names none.
pub fn default_selector() -> (r: crate::selectors::FirstSelector) {
    crate::selectors::FirstSelector {  }
}

/// The limiter used when a property definition names none.
pub fn default_limiter() -> (r: crate::limiters::NoLimiter) {
    crate::limiters::NoLimiter {  }
}

/// An item a character may hold.
#[derive(Debug, PartialEq, Eq)]
pub struct Item {
    pub features: Vec<ItemFeature>,
}

/// A feature contributed by an item.
#[derive(Debug, PartialEq, Eq)]
pub struct ItemFeature {
    pub name: String,
    pub description: String,
    pub base_type: String,
    pub modifiers: Vec<ItemFeatureModifier>,
}

/// One change that an item feature applies to a referenced property.
#[derive(Debug, PartialEq, Eq)]
pub struct ItemFeatureModifier {
    pub referencing: Reference,
    pub value: CalculatedValue,
}

/// A possibly nested reference to a property.
#[derive(Debug, PartialEq, Eq)]
pub struct Reference {
    pub parent: Option<Box<Reference>>,
    pub name: String,
}

/// A value computed for a property: a constant, or a call of a library
/// function on static arguments.
#[derive(Debug, PartialEq, Eq)]
pub enum CalculatedValue {
    StaticValue(StaticValueType),
    FunctionCall { function: String, arguments: FunctionArgs },
}

impl Default for CalculatedValue {
    /// The default calculated value is the default static value.
    fn default() -> (res: Self)
        ensures
            res matches CalculatedValue::StaticValue(v) && v.deep_view()
                == crate::character_sheet_collection::ValueView::Number(0),
    {
        CalculatedValue::StaticValue(StaticValueType::Number(0))
    }
}

} // verus!
