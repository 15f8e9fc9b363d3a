//! The kinds of data that are kept in static files.

use crate::compression::Compression;
use vstd::prelude::*;

verus! {

/// Segment of the data that can be moved to static files.
#[derive(Debug, Copy, Clone, Eq, PartialEq, Structural, Hash, Ord, PartialOrd)]
pub enum StaticFileSegment {
    /// Static File segment responsible for the `CanonicalHeaders`, `Headers`,
    /// `HeaderTerminalDifficulties` tables.
    Headers,
    /// Static File segment responsible for the `Transactions` table.
    Transactions,
    /// Static File segment responsible for the `Receipts` table.
    Receipts,
    /// Static File segment responsible for the `BlockBodyIndices`, `BlockOmmers`,
    /// `BlockWithdrawals` tables.
    BlockMeta,
}

/// Configuration used on the segment.
#[derive(Debug, Clone, Copy)]
pub struct SegmentConfig {
    /// Compression used on the segment
    pub compression: Compression,
}

impl StaticFileSegment {
    /// The name under which the segment appears in file names.
    pub open spec fn name(self) -> Seq<char> {
        match self {
            StaticFileSegment::Headers => "headers"@,
            StaticFileSegment::Transactions => "transactions"@,
            StaticFileSegment::Receipts => "receipts"@,
            StaticFileSegment::BlockMeta => "blockmeta"@,
        }
    }

    /// All segments, in the order in which they have to be handled: block
    /// metadata comes before the transactions that rest on it.
    pub open spec fn all() -> Seq<StaticFileSegment> {
        seq![
            StaticFileSegment::Headers,
            StaticFileSegment::BlockMeta,
            StaticFileSegment::Transactions,
            StaticFileSegment::Receipts,
        ]
    }

    /// A row of the segment belongs to a transaction.
    pub open spec fn spec_is_tx_based(&self) -> bool {
        *self is Receipts || *self is Transactions
    }

    /// A row of the segment belongs to a block.
    pub open spec fn spec_is_block_based(&self) -> bool {
        *self is Headers || *self is BlockMeta
    }

    /// Returns the segment as a string.
    pub fn as_str(&self) -> (r: &'static str)
        ensures
            r@ == self.name(),
    {
        match self {
            Self::Headers => "headers",
            Self::Transactions => "transactions",
            Self::Receipts => "receipts",
            Self::BlockMeta => "blockmeta",
        }
    }

    /// Returns all segments.
    pub fn iter() -> (r: [Self; 4])
        ensures
            r@ == Self::all(),
    {
        // The order of segments is significant and must be maintained to ensure correctness. For
        // example, Transactions require BlockBodyIndices from Blockmeta to be sound.
        [Self::Headers, Self::BlockMeta, Self::Transactions, Self::Receipts]
    }

    /// Returns the default configuration of the segment.
    pub fn config(&self) -> (r: SegmentConfig)
        ensures
            r == (SegmentConfig { compression: Compression::Lz4 }),
    {
        SegmentConfig { compression: Compression::Lz4 }
    }

    /// Returns the number of columns for the segment
    pub fn columns(&self) -> (r: usize)
        ensures
            r == if self.is_block_based() {
                3usize
            } else {
                1usize
            },
    {
        match self {
            Self::Headers | Self::BlockMeta => 3,
            Self::Transactions | Self::Receipts => 1,
        }
    }

    /// Returns `true` if the segment is `StaticFileSegment::Headers`.
    pub fn is_headers(&self) -> (r: bool)
        ensures
            r == (*self is Headers),
    {
        matches!(self, Self::Headers)
    }

    /// Returns `true` if the segment is `StaticFileSegment::BlockMeta`.
    pub fn is_block_meta(&self) -> (r: bool)
        ensures
            r == (*self is BlockMeta),
    {
        matches!(self, Self::BlockMeta)
    }

    /// Returns `true` if the segment is `StaticFileSegment::Receipts`.
    pub fn is_receipts(&self) -> (r: bool)
        ensures
            r == (*self is Receipts),
    {
        matches!(self, Self::Receipts)
    }

    /// Returns `true` if a segment row is linked to a transaction.
    #[verifier::when_used_as_spec(spec_is_tx_based)]
    pub fn is_tx_based(&self) -> (r: bool)
        ensures
            r == self.is_tx_based(),
            r != self.is_block_based(),
    {
        matches!(self, Self::Receipts | Self::Transactions)
    }

    /// Returns `true` if a segment row is linked to a block.
    #[verifier::when_used_as_spec(spec_is_block_based)]
    pub fn is_block_based(&self) -> (r: bool)
        ensures
            r == self.is_block_based(),
            r != self.is_tx_based(),
    {
        matches!(self, Self::Headers | Self::BlockMeta)
    }
}

} // verus!
