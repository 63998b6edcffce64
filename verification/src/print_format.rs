//! The formats in which records are printed.

use vstd::prelude::*;

verus! {

/// The formats in which records can be printed.
#[derive(Debug, PartialEq, Eq, Clone, Copy, Structural)]
pub enum PrintFormat {
    Csv,
    Tsv,
    Table,
    Json,
    NdJson,
}

impl PrintFormat {
    /// The field delimiter of the two delimiter-separated formats: a comma
    /// for `Csv`, a tab for `Tsv`, none for the others.
    pub fn delimiter(&self) -> (d: Option<u8>)
        ensures
            d == match *self {
                PrintFormat::Csv => Some(0x2cu8),
                PrintFormat::Tsv => Some(0x09u8),
                _ => None::<u8>,
            },
    {
        match self {
            PrintFormat::Csv => Some(0x2c),
            PrintFormat::Tsv => Some(0x09),
            _ => None,
        }
    }
}

} // verus!
