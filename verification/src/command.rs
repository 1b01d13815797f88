use vstd::prelude::*;

verus! {

/// One of the four countable quantities.
///
/// The declaration order is the canonical order in which metrics appear as
/// report columns: lines, then words, then characters, then bytes. Every
/// place that walks the full metric set walks it in this order.
#[derive(Debug, PartialEq, Eq, Hash, Clone, Copy, Structural)]
pub enum Command {
    CountLines,
    CountWords,
    CountChars,
    CountBytes,
}

} // verus!
