//! Standard limiters.

use vstd::prelude::*;
use vstd::string::StringExecFns;

use crate::character_sheet::Limiter;
use crate::character_sheet_collection::StaticValueType;

verus! {

/// A limiter that accepts every value unchanged.
#[derive(Debug, PartialEq, Eq)]
pub struct NoLimiter {}

impl Limiter for NoLimiter {
    fn apply_limits(&self, _value: &mut StaticValueType) {
        // no limits to apply
    }

    fn string_representation(&self) -> String {
        String::from_str("NoLimiter")
    }
}

} // verus!
