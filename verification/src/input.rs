//! The plain input model a front end edits before it builds a plan:
//! which field is being edited, and the raw text of each field.
use vstd::prelude::*;

verus! {

use vstd::string::StringExecFns;

/// Which input field, if any, currently receives keystrokes.
#[derive(PartialEq, Eq)]
pub enum InputMode {
    Normal,
    Start1,
    Start2,
    RangeStart,
    RangeEnd,
    FilterValue,
}

/// The raw, unparsed text of the five input fields.
pub struct InputFields {
    pub start1: String,
    pub start2: String,
    pub range_start: String,
    pub range_end: String,
    pub filter_value: String,
}

impl Default for InputFields {
    /// The default field texts: the classic seed pair, the first twenty
    /// indices, and a filter bound of ten.
    fn default() -> (r: Self)
        ensures
            r.start1@ == "0"@,
            r.start2@ == "1"@,
            r.range_start@ == "0"@,
            r.range_end@ == "20"@,
            r.filter_value@ == "10"@,
    {
        InputFields {
            start1: String::from_str("0"),
            start2: String::from_str("1"),
            range_start: String::from_str("0"),
            range_end: String::from_str("20"),
            filter_value: String::from_str("10"),
        }
    }
}

} // verus!
