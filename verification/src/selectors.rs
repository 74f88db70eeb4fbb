//! Standard selectors.

use vstd::prelude::*;
use vstd::string::StringExecFns;

use crate::character_sheet::Selector;
use crate::character_sheet_collection::StaticValueType;

verus! {

/// A selector that keeps the first of the possible values.
#[derive(Debug, PartialEq, Eq)]
pub struct FirstSelector {}

impl Selector for FirstSelector {
    fn select(&self, mut items: Vec<StaticValueType>) -> StaticValueType {
        items.remove(0)
    }

    fn string_representation(&self) -> String {
        String::from_str("FirstSelector")
    }
}

} // verus!
