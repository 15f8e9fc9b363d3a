//! The header of a static file: which segment it holds, the block range it was
//! made for, and the ranges of what has been written to it so far. The ranges
//! are inclusive `u64` ranges that are cheap to grow and shrink in place.

use crate::segment::StaticFileSegment;
use crate::text::{decimal, push_decimal};
use alloy_primitives::{BlockNumber, TxNumber};
use core::ops::RangeInclusive;
use vstd::prelude::*;
use vstd::std_specs::convert::FromSpecImpl;
use vstd::string::*;

verus! {

/// The mathematical content of a range: both bounds belong to it.
pub struct Span {
    pub start: u64,
    pub end: u64,
}

impl Span {
    /// The bounds are in order, so the span holds at least one number.
    pub open spec fn ordered(self) -> bool {
        self.start <= self.end
    }

    /// How many numbers the span holds.
    pub open spec fn count(self) -> int {
        self.end - self.start + 1
    }

    /// The span as text: both bounds in decimal with `..=` between them.
    pub open spec fn text(self) -> Seq<char> {
        decimal(self.start as nat) + "..="@ + decimal(self.end as nat)
    }
}

/// An inclusive range of block or transaction numbers.
///
/// The bounds are not checked against each other: keeping `start <= end` is up
/// to whoever builds the range.
#[derive(Debug, Eq, PartialEq, Structural, Hash, Clone, Copy)]
pub struct SegmentRangeInclusive {
    start: u64,
    end: u64,
}

impl View for SegmentRangeInclusive {
    type V = Span;

    closed spec fn view(&self) -> Span {
        Span { start: self.start, end: self.end }
    }
}

impl SegmentRangeInclusive {
    /// Creates the range `start..=end`.
    pub fn new(start: u64, end: u64) -> (r: Self)
        ensures
            r@ == (Span { start, end }),
    {
        Self { start, end }
    }

    /// First number of the range.
    pub fn start(&self) -> (r: u64)
        ensures
            r == self@.start,
    {
        self.start
    }

    /// Last number of the range.
    pub fn end(&self) -> (r: u64)
        ensures
            r == self@.end,
    {
        self.end
    }

    /// How many numbers the range holds, where that is a number a `u64` can
    /// hold: from none, for a start just behind the end, to all but one.
    fn len(&self) -> (r: u64)
        requires
            0 <= self@.count() <= u64::MAX,
        ensures
            r == self@.count(),
    {
        if self.start <= self.end {
            self.end - self.start + 1
        } else {
            0
        }
    }

    /// The range with the given bounds.
    pub closed spec fn of(span: Span) -> SegmentRangeInclusive {
        SegmentRangeInclusive { start: span.start, end: span.end }
    }

    /// A range is known by its bounds.
    pub proof fn lemma_of_view(self)
        ensures
            Self::of(self@) == self,
    {
    }

    /// The bounds of the range made from a span are that span.
    pub proof fn lemma_view_of(span: Span)
        ensures
            Self::of(span)@ == span,
    {
    }

    /// The same range as a standard inclusive range, not yet walked.
    pub fn to_range(&self) -> (r: RangeInclusive<u64>)
        ensures
            r@.start == self@.start,
            r@.end == self@.end,
            !r@.exhausted,
    {
        RangeInclusive::new(self.start, self.end)
    }

    /// The range as text: `{start}..={end}`.
    pub fn to_string(&self) -> (r: String)
        ensures
            r@ == self@.text(),
    {
        let mut out = String::new();
        push_decimal(&mut out, self.start);
        out.append("..=");
        push_decimal(&mut out, self.end);
        assert(out@ =~= self@.text());
        out
    }
}

/// `RangeInclusive::start`: the lower bound that the range was made with.
pub assume_specification<Idx>[ RangeInclusive::<Idx>::start ](
    range: &RangeInclusive<Idx>,
) -> (r: &Idx)
    ensures
        *r == range@.start,
;

/// `RangeInclusive::end`: the upper bound that the range was made with.
pub assume_specification<Idx>[ RangeInclusive::<Idx>::end ](range: &RangeInclusive<Idx>) -> (r:
    &Idx)
    ensures
        *r == range@.end,
;

impl From<RangeInclusive<u64>> for SegmentRangeInclusive {
    /// The range with the bounds of a standard inclusive range.
    fn from(value: RangeInclusive<u64>) -> (r: Self)
        ensures
            r@ == (Span { start: value@.start, end: value@.end }),
    {
        Self { start: *value.start(), end: *value.end() }
    }
}

impl FromSpecImpl<RangeInclusive<u64>> for SegmentRangeInclusive {
    open spec fn obeys_from_spec() -> bool {
        true
    }

    open spec fn from_spec(value: RangeInclusive<u64>) -> Self {
        SegmentRangeInclusive::of(Span { start: value@.start, end: value@.end })
    }
}

/// Some standard range with the given bounds that has not been walked. Two
/// such ranges need not be the same value, so the conversions below promise
/// the bounds of their result and not that it is this one.
pub open spec fn fresh_range(span: Span) -> RangeInclusive<u64> {
    choose|r: RangeInclusive<u64>| r@.start == span.start && r@.end == span.end && !r@.exhausted
}

impl From<&SegmentRangeInclusive> for RangeInclusive<u64> {
    /// The same range as a standard inclusive range, not yet walked.
    fn from(value: &SegmentRangeInclusive) -> (r: Self)
        ensures
            r@.start == value@.start,
            r@.end == value@.end,
            !r@.exhausted,
    {
        value.to_range()
    }
}

impl FromSpecImpl<&SegmentRangeInclusive> for RangeInclusive<u64> {
    open spec fn obeys_from_spec() -> bool {
        false
    }

    open spec fn from_spec(value: &SegmentRangeInclusive) -> Self {
        fresh_range(value@)
    }
}

impl From<SegmentRangeInclusive> for RangeInclusive<u64> {
    /// The same range as a standard inclusive range, not yet walked.
    fn from(value: SegmentRangeInclusive) -> (r: Self)
        ensures
            r@.start == value@.start,
            r@.end == value@.end,
            !r@.exhausted,
    {
        value.to_range()
    }
}

impl FromSpecImpl<SegmentRangeInclusive> for RangeInclusive<u64> {
    open spec fn obeys_from_spec() -> bool {
        false
    }

    open spec fn from_spec(value: SegmentRangeInclusive) -> Self {
        fresh_range(value@)
    }
}

/// The bounds of a range that may be absent.
pub open spec fn span_of(range: Option<SegmentRangeInclusive>) -> Option<Span> {
    match range {
        Some(r) => Some(r@),
        None => None,
    }
}

/// The content of a header, and the steps that writing and pruning take on it.
pub struct HeaderModel {
    /// The block range the file was made for. No step changes it.
    pub expected_block_range: Span,
    /// The blocks written so far, if any.
    pub block_range: Option<Span>,
    /// The transactions written so far, if any.
    pub tx_range: Option<Span>,
    /// The kind of data in the file.
    pub segment: StaticFileSegment,
}

impl HeaderModel {
    /// Every range that is present has its bounds in order.
    pub open spec fn ordered(self) -> bool {
        &&& self.block_range matches Some(r) ==> r.ordered()
        &&& self.tx_range matches Some(r) ==> r.ordered()
    }

    /// The range that counts the rows of the file: blocks for a block-based
    /// segment, transactions for a transaction-based one.
    pub open spec fn row_range(self) -> Option<Span> {
        if self.segment.is_block_based() {
            self.block_range
        } else {
            self.tx_range
        }
    }

    /// The first block written, if any.
    pub open spec fn block_start(self) -> Option<u64> {
        match self.block_range {
            Some(r) => Some(r.start),
            None => None,
        }
    }

    /// The last block written, if any.
    pub open spec fn block_end(self) -> Option<u64> {
        match self.block_range {
            Some(r) => Some(r.end),
            None => None,
        }
    }

    /// The first transaction written, if any.
    pub open spec fn tx_start(self) -> Option<u64> {
        match self.tx_range {
            Some(r) => Some(r.start),
            None => None,
        }
    }

    /// The last transaction written, if any.
    pub open spec fn tx_end(self) -> Option<u64> {
        match self.tx_range {
            Some(r) => Some(r.end),
            None => None,
        }
    }

    /// The number of blocks written: both bounds count.
    pub open spec fn block_len(self) -> Option<int> {
        match self.block_range {
            Some(r) => Some(r.count()),
            None => None,
        }
    }

    /// The number of transactions written: both bounds count.
    pub open spec fn tx_len(self) -> Option<int> {
        match self.tx_range {
            Some(r) => Some(r.count()),
            None => None,
        }
    }

    /// The number of the first row of the file.
    pub open spec fn start(self) -> Option<u64> {
        match self.row_range() {
            Some(r) => Some(r.start),
            None => None,
        }
    }

    /// One more block: the range grows by one at its end, and a file without
    /// blocks gets its first one at the expected start.
    pub open spec fn increment_block(self) -> HeaderModel {
        let grown = match self.block_range {
            Some(r) => Span { start: r.start, end: (r.end + 1) as u64 },
            None => Span {
                start: self.expected_block_range.start,
                end: self.expected_block_range.start,
            },
        };
        HeaderModel { block_range: Some(grown), ..self }
    }

    /// One more transaction, which only a transaction-based segment records:
    /// the range grows by one at its end, or starts as `0..=0`.
    pub open spec fn increment_tx(self) -> HeaderModel {
        if self.segment.is_tx_based() {
            let grown = match self.tx_range {
                Some(r) => Span { start: r.start, end: (r.end + 1) as u64 },
                None => Span { start: 0, end: 0 },
            };
            HeaderModel { tx_range: Some(grown), ..self }
        } else {
            self
        }
    }

    /// A range without its last `num` numbers; nothing is left of it where
    /// `num` is more than the distance from its start to its end, as it
    /// always is where the end lies before the start.
    pub open spec fn shorten(range: Option<Span>, num: u64) -> Option<Span> {
        match range {
            Some(r) => if num > r.end - r.start {
                None
            } else {
                Some(Span { start: r.start, end: (r.end - num) as u64 })
            },
            None => None,
        }
    }

    /// The last `num` rows removed from the range that counts the rows.
    pub open spec fn prune(self, num: u64) -> HeaderModel {
        if self.segment.is_block_based() {
            HeaderModel { block_range: Self::shorten(self.block_range, num), ..self }
        } else {
            HeaderModel { tx_range: Self::shorten(self.tx_range, num), ..self }
        }
    }

    /// `n` blocks added one after the other.
    pub open spec fn grow_blocks(self, n: nat) -> HeaderModel
        decreases n,
    {
        if n == 0 {
            self
        } else {
            self.grow_blocks((n - 1) as nat).increment_block()
        }
    }

    /// `n` transactions added one after the other.
    pub open spec fn grow_txs(self, n: nat) -> HeaderModel
        decreases n,
    {
        if n == 0 {
            self
        } else {
            self.grow_txs((n - 1) as nat).increment_tx()
        }
    }
}

/// A segment header that contains information common to all segments. Used for storage.
#[derive(Debug, Eq, PartialEq, Hash, Clone)]
pub struct SegmentHeader {
    /// Defines the expected block range for a static file segment. This attribute is crucial for
    /// scenarios where the file contains no data, allowing for a representation beyond a
    /// simple `start..=start` range. It ensures clarity in differentiating between an empty file
    /// and a file with a single block numbered 0.
    expected_block_range: SegmentRangeInclusive,
    /// Block range of data on the static file segment
    block_range: Option<SegmentRangeInclusive>,
    /// Transaction range of data of the static file segment
    tx_range: Option<SegmentRangeInclusive>,
    /// Segment type
    segment: StaticFileSegment,
}

impl View for SegmentHeader {
    type V = HeaderModel;

    closed spec fn view(&self) -> HeaderModel {
        HeaderModel {
            expected_block_range: self.expected_block_range@,
            block_range: span_of(self.block_range),
            tx_range: span_of(self.tx_range),
            segment: self.segment,
        }
    }
}

impl SegmentHeader {
    /// Returns [`SegmentHeader`].
    pub fn new(
        expected_block_range: SegmentRangeInclusive,
        block_range: Option<SegmentRangeInclusive>,
        tx_range: Option<SegmentRangeInclusive>,
        segment: StaticFileSegment,
    ) -> (r: Self)
        ensures
            r@ == (HeaderModel {
                expected_block_range: expected_block_range@,
                block_range: span_of(block_range),
                tx_range: span_of(tx_range),
                segment,
            }),
    {
        Self { expected_block_range, block_range, tx_range, segment }
    }

    /// Returns the static file segment kind.
    pub fn segment(&self) -> (r: StaticFileSegment)
        ensures
            r == self@.segment,
    {
        self.segment
    }

    /// Returns the block range.
    pub fn block_range(&self) -> (r: Option<&SegmentRangeInclusive>)
        ensures
            r is Some <==> self@.block_range is Some,
            r matches Some(range) ==> Some(range@) == self@.block_range,
    {
        self.block_range.as_ref()
    }

    /// Returns the transaction range.
    pub fn tx_range(&self) -> (r: Option<&SegmentRangeInclusive>)
        ensures
            r is Some <==> self@.tx_range is Some,
            r matches Some(range) ==> Some(range@) == self@.tx_range,
    {
        self.tx_range.as_ref()
    }

    /// The expected block start of the segment.
    pub fn expected_block_start(&self) -> (r: BlockNumber)
        ensures
            r == self@.expected_block_range.start,
    {
        self.expected_block_range.start()
    }

    /// The expected block end of the segment.
    pub fn expected_block_end(&self) -> (r: BlockNumber)
        ensures
            r == self@.expected_block_range.end,
    {
        self.expected_block_range.end()
    }

    /// Returns the first block number of the segment.
    pub fn block_start(&self) -> (r: Option<BlockNumber>)
        ensures
            r == self@.block_start(),
    {
        match &self.block_range {
            Some(b) => Some(b.start()),
            None => None,
        }
    }

    /// Returns the last block number of the segment.
    pub fn block_end(&self) -> (r: Option<BlockNumber>)
        ensures
            r == self@.block_end(),
    {
        match &self.block_range {
            Some(b) => Some(b.end()),
            None => None,
        }
    }

    /// Returns the first transaction number of the segment.
    pub fn tx_start(&self) -> (r: Option<TxNumber>)
        ensures
            r == self@.tx_start(),
    {
        match &self.tx_range {
            Some(t) => Some(t.start()),
            None => None,
        }
    }

    /// Returns the last transaction number of the segment.
    pub fn tx_end(&self) -> (r: Option<TxNumber>)
        ensures
            r == self@.tx_end(),
    {
        match &self.tx_range {
            Some(t) => Some(t.end()),
            None => None,
        }
    }

    /// Number of transactions.
    pub fn tx_len(&self) -> (r: Option<u64>)
        requires
            self@.tx_range matches Some(range) ==> 0 <= range.count() <= u64::MAX,
        ensures
            r is Some <==> self@.tx_len() is Some,
            r matches Some(n) ==> self@.tx_len() == Some(n as int),
    {
        match &self.tx_range {
            Some(t) => Some(t.len()),
            None => None,
        }
    }

    /// Number of blocks.
    pub fn block_len(&self) -> (r: Option<u64>)
        requires
            self@.block_range matches Some(range) ==> 0 <= range.count() <= u64::MAX,
        ensures
            r is Some <==> self@.block_len() is Some,
            r matches Some(n) ==> self@.block_len() == Some(n as int),
    {
        match &self.block_range {
            Some(b) => Some(b.len()),
            None => None,
        }
    }

    /// Increments block end range depending on segment
    pub fn increment_block(&mut self) -> (r: BlockNumber)
        requires
            old(self)@.block_range matches Some(range) ==> range.end < u64::MAX,
        ensures
            final(self)@ == old(self)@.increment_block(),
            final(self)@.block_range matches Some(range) && r == range.end,
    {
        if let Some(block_range) = &mut self.block_range {
            block_range.end += 1;
            block_range.end
        } else {
            self.block_range = Some(
                SegmentRangeInclusive::new(
                    self.expected_block_start(),
                    self.expected_block_start(),
                ),
            );
            self.expected_block_start()
        }
    }

    /// Increments tx end range depending on segment
    pub fn increment_tx(&mut self)
        requires
            old(self)@.segment.is_tx_based() ==> (old(self)@.tx_range matches Some(range)
                ==> range.end < u64::MAX),
        ensures
            final(self)@ == old(self)@.increment_tx(),
    {
        if self.segment.is_tx_based() {
            if let Some(tx_range) = &mut self.tx_range {
                tx_range.end += 1;
            } else {
                self.tx_range = Some(SegmentRangeInclusive::new(0, 0));
            }
        }
    }

    /// Removes `num` elements from end of tx or block range.
    pub fn prune(&mut self, num: u64)
        ensures
            final(self)@ == old(self)@.prune(num),
    {
        if self.segment.is_block_based() {
            if let Some(range) = &mut self.block_range {
                if range.start > range.end || num > range.end - range.start {
                    self.block_range = None;
                } else {
                    range.end = range.end.saturating_sub(num);
                }
            };
        } else if let Some(range) = &mut self.tx_range {
            if range.start > range.end || num > range.end - range.start {
                self.tx_range = None;
            } else {
                range.end = range.end.saturating_sub(num);
            }
        }
    }

    /// Sets a new `block_range`.
    pub fn set_block_range(&mut self, block_start: BlockNumber, block_end: BlockNumber)
        ensures
            final(self)@ == (HeaderModel {
                block_range: Some(Span { start: block_start, end: block_end }),
                ..old(self)@
            }),
    {
        if let Some(block_range) = &mut self.block_range {
            block_range.start = block_start;
            block_range.end = block_end;
        } else {
            self.block_range = Some(SegmentRangeInclusive::new(block_start, block_end))
        }
    }

    /// Sets a new `tx_range`.
    pub fn set_tx_range(&mut self, tx_start: TxNumber, tx_end: TxNumber)
        ensures
            final(self)@ == (HeaderModel {
                tx_range: Some(Span { start: tx_start, end: tx_end }),
                ..old(self)@
            }),
    {
        if let Some(tx_range) = &mut self.tx_range {
            tx_range.start = tx_start;
            tx_range.end = tx_end;
        } else {
            self.tx_range = Some(SegmentRangeInclusive::new(tx_start, tx_end))
        }
    }

    /// Returns the row offset which depends on whether the segment is block or transaction based.
    pub fn start(&self) -> (r: Option<u64>)
        ensures
            r == self@.start(),
    {
        if self.segment.is_block_based() {
            return self.block_start();
        }
        self.tx_start()
    }
}

impl SegmentHeader {
    /// A header is known by its content: two headers with the same content
    /// are the same header.
    pub proof fn lemma_known_by_view(self, other: SegmentHeader)
        requires
            self@ == other@,
        ensures
            self == other,
    {
        self.expected_block_range.lemma_of_view();
        other.expected_block_range.lemma_of_view();
        if let Some(range) = self.block_range {
            range.lemma_of_view();
            other.block_range->0.lemma_of_view();
        }
        if let Some(range) = self.tx_range {
            range.lemma_of_view();
            other.tx_range->0.lemma_of_view();
        }
    }
}

/// A file that holds no blocks yet gets its first block at the expected
/// start, and each further block moves the end of the range by one.
pub proof fn lemma_block_growth(header: HeaderModel, further: nat)
    requires
        header.block_range is None,
        header.expected_block_range.start + further <= u64::MAX,
    ensures
        header.grow_blocks(further + 1) == (HeaderModel {
            block_range: Some(
                Span {
                    start: header.expected_block_range.start,
                    end: (header.expected_block_range.start + further) as u64,
                },
            ),
            ..header
        }),
    decreases further,
{
    if further == 0 {
        assert(header.grow_blocks(1) == header.grow_blocks(0).increment_block());
    } else {
        lemma_block_growth(header, (further - 1) as nat);
    }
}

/// The first transaction is number 0 whatever blocks the file holds, and each
/// further one moves the end of the range by one.
pub proof fn lemma_tx_growth(header: HeaderModel, further: nat)
    requires
        header.segment.is_tx_based(),
        header.tx_range is None,
        further <= u64::MAX,
    ensures
        header.grow_txs(further + 1) == (HeaderModel {
            tx_range: Some(Span { start: 0, end: further as u64 }),
            ..header
        }),
    decreases further,
{
    if further == 0 {
        assert(header.grow_txs(1) == header.grow_txs(0).increment_tx());
    } else {
        lemma_tx_growth(header, (further - 1) as nat);
    }
}

/// Counting transactions changes nothing in the header of a block-based
/// segment, however often it is done.
pub proof fn lemma_tx_ignored_when_block_based(header: HeaderModel, times: nat)
    requires
        header.segment.is_block_based(),
    ensures
        header.grow_txs(times) == header,
    decreases times,
{
    if times > 0 {
        lemma_tx_ignored_when_block_based(header, (times - 1) as nat);
    }
}

/// Pruning takes rows from the end only: what is left of the range starts
/// where it started, ends `num` earlier and is still in order; nothing is
/// left exactly where `num` is more than the distance between the bounds.
/// The other ranges and the segment stay as they are.
pub proof fn lemma_prune(header: HeaderModel, num: u64)
    ensures
        header.prune(num).expected_block_range == header.expected_block_range,
        header.prune(num).segment == header.segment,
        header.segment.is_block_based() ==> header.prune(num).tx_range == header.tx_range,
        header.segment.is_tx_based() ==> header.prune(num).block_range == header.block_range,
        header.row_range() is None ==> header.prune(num).row_range() is None,
        header.row_range() matches Some(range) ==> (header.prune(num).row_range() is None
            <==> num > range.end - range.start),
        header.row_range() matches Some(range) ==> (header.prune(num).row_range() matches Some(
            left,
        ) ==> left.start == range.start && left.end == range.end - num && left.ordered()),
{
}

/// Writing and pruning keep the bounds of every range in order.
pub proof fn lemma_steps_keep_order(header: HeaderModel, num: u64)
    requires
        header.ordered(),
    ensures
        header.block_range matches Some(range) && range.end < u64::MAX
            ==> header.increment_block().ordered(),
        header.block_range is None ==> header.increment_block().ordered(),
        header.tx_range matches Some(range) && range.end < u64::MAX
            ==> header.increment_tx().ordered(),
        header.tx_range is None ==> header.increment_tx().ordered(),
        header.prune(num).ordered(),
{
}

} // verus!
