//! Property mutation vocabulary shared with the authoring tools.

use vstd::prelude::*;

verus! {

/// A property whose value is derived rather than stored.
#[derive(Debug, Clone, Copy, PartialEq, Eq)]
pub struct CalculatedPropertyDefinition<'a> {
    pub description: Option<&'a str>,
}

/// The arithmetic a stackable property mutation applies.
#[derive(Debug, Clone, Copy, PartialEq, Eq, Structural)]
pub enum ArithmeticMutation {
    Addition,
    Substraction,
    Multiplication,
    Division,
}

} // verus!
