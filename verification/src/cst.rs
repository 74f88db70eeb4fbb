//! The plain concrete syntax tree: features and modifiers with their
//! source offsets, without formatting bookkeeping.

use vstd::prelude::*;

verus! {

/// A concrete syntax tree.
#[derive(Debug, PartialEq, Eq)]
pub struct CST {
    pub model: CSTModel,
}

/// The model node: its source extent and its features.
#[derive(Debug, PartialEq, Eq)]
pub struct CSTModel {
    pub offset: i32,
    pub end_offset: i32,
    pub features: Vec<CSTFeature>,
}

impl CSTModel {
    /// The offset the node starts at.
    pub fn get_offset(&self) -> (r: i32)
        ensures
            r == self.offset,
    {
        self.offset
    }

    /// The offset right after the node.
    pub fn get_end_offset(&self) -> (r: i32)
        ensures
            r == self.end_offset,
    {
        self.end_offset
    }
}

/// A feature node.
#[derive(Debug, PartialEq, Eq)]
pub struct CSTFeature {
    pub offset: i32,
    pub end_offset: i32,
    pub name: String,
    pub description: String,
    pub modifiers: Vec<CSTModifier>,
}

impl CSTFeature {
    /// The offset the node starts at.
    pub fn get_offset(&self) -> (r: i32)
        ensures
            r == self.offset,
    {
        self.offset
    }

    /// The offset right after the node.
    pub fn get_end_offset(&self) -> (r: i32)
        ensures
            r == self.end_offset,
    {
        self.end_offset
    }
}

/// A modifier node.
#[derive(Debug, PartialEq, Eq)]
pub struct CSTModifier {
    pub offset: i32,
    pub end_offset: i32,
    pub reference: String,
    pub value: CSTModifierValue,
}

impl CSTModifier {
    /// The offset the node starts at.
    pub fn get_offset(&self) -> (r: i32)
        ensures
            r == self.offset,
    {
        self.offset
    }

    /// The offset right after the node.
    pub fn get_end_offset(&self) -> (r: i32)
        ensures
            r == self.end_offset,
    {
        self.end_offset
    }
}

/// The value node of a modifier.
#[derive(Debug, Clone, Copy, PartialEq, Eq, Structural)]
pub enum CSTModifierValue {
    Bonus { offset: i32, end_offset: i32, value: i32 },
    SetTo { offset: i32, end_offset: i32, value: i32 },
}

impl CSTModifierValue {
    /// The offset the node starts at.
    pub fn get_offset(&self) -> (r: i32)
        ensures
            r == match self {
                CSTModifierValue::Bonus { offset, .. } => offset,
                CSTModifierValue::SetTo { offset, .. } => offset,
            },
    {
        match self {
            CSTModifierValue::Bonus { offset, .. } => *offset,
            CSTModifierValue::SetTo { offset, .. } => *offset,
        }
    }
}

} // verus!
