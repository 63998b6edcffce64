//! Options for printing records.

use crate::print_format::PrintFormat;
use vstd::prelude::*;

verus! {

#[derive(Debug, Clone, Copy)]
pub struct PrintOptions {
    pub format: PrintFormat,
    pub quiet: bool,
}

/// The noun of the timing line: `"row"` for exactly one row, else `"rows"`.
pub fn row_label(row_count: usize) -> (label: &'static str)
    ensures
        label@ == if row_count == 1 {
            "row"@
        } else {
            "rows"@
        },
{
    if row_count == 1 {
        "row"
    } else {
        "rows"
    }
}

} // verus!
