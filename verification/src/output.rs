//! Output format selection.
use vstd::prelude::*;

use crate::text::{lower, to_chars, to_lower};

verus! {

#[derive(Debug, Clone, Copy, PartialEq, Eq, Structural)]
pub enum Format {
    Table,
    Json,
}

impl Format {
    /// `json` (ASCII case ignored) selects JSON; anything else is a table.
    pub fn parse(s: &str) -> (r: Self)
        ensures
            r == if lower(s@) == "json"@ {
                Format::Json
            } else {
                Format::Table
            },
    {
        let sc = to_chars(s);
        let l = to_lower(sc.as_slice());
        let j = to_chars("json");
        if crate::text::chars_eq(l.as_slice(), j.as_slice()) {
            Format::Json
        } else {
            Format::Table
        }
    }
}

} // verus!
