//! Channels and flushing rules: a flush names table columns whose row
//! events are pushed to or pulled from a channel, with a multiplicity and
//! optional selector columns.

use vstd::prelude::*;

verus! {

/// Identifier of a channel.
pub type ChannelId = usize;

/// Index of a column within a table.
pub type ColumnIndex = usize;

/// Which way a flush moves row events.
#[derive(Debug, Clone, Copy, PartialEq, Eq, Structural)]
pub enum FlushDirection {
    Push,
    Pull,
}

/// A flushing rule within a table.
#[derive(Debug)]
pub struct Flush {
    pub column_indices: Vec<ColumnIndex>,
    pub channel_id: ChannelId,
    pub direction: FlushDirection,
    /// The number of times the values are flushed to the channel.
    pub multiplicity: u32,
    /// Selector columns that determine which row events are flushed.
    ///
    /// The referenced selector columns must hold 1-bit values.
    pub selectors: Vec<ColumnIndex>,
}

/// Options for a channel flush.
#[derive(Debug)]
pub struct FlushOpts {
    /// The number of times the values are flushed to the channel.
    pub multiplicity: u32,
    /// Selector columns that determine which row events are flushed.
    ///
    /// The referenced selector columns must hold 1-bit values and contain
    /// only zeros after the index that is the height of the table. If the
    /// selectors are empty, all values up to the table height are flushed.
    pub selectors: Vec<ColumnIndex>,
}

impl Default for FlushOpts {
    /// Flush once, with no selectors.
    fn default() -> (r: Self)
        ensures
            r.multiplicity == 1,
            r.selectors.len() == 0,
    {
        FlushOpts { multiplicity: 1, selectors: Vec::new() }
    }
}

/// A channel.
#[derive(Debug)]
pub struct Channel {
    pub name: String,
}

} // verus!
