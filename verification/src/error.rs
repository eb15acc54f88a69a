use vstd::prelude::*;

verus! {

/// The errors the subnet engine reports. They are returned as values,
/// never raised by panicking.
#[derive(Debug, PartialEq, Eq)]
pub enum Error {
    /// A textual input could not be read as a network (raised by the
    /// parsing layer around the engine, passed through unchanged).
    AddrParse(String),
    /// A prefix length lies beyond the address family's bit width.
    PrefixLen,
    /// A split was requested whose new prefix length does not narrow the
    /// network: the first field is the requested prefix length, the second
    /// the network's own.
    SplitSmallerThanPrefixLen(u8, u8),
    /// A split was requested beyond the family's bit width: the first field
    /// is the width, the second the requested prefix length.
    SplitTooBig(u8, u8),
}

} // verus!
