//! The bytes of a header as it is stored: the expected block range, the block
//! range, the transaction range and the segment, in this order. A number is
//! eight bytes, the lowest first; a range is its two bounds; a range that may
//! be absent has a byte in front that says whether it is there; the segment
//! is its place among the segments, in four bytes, the lowest first.

use crate::header::{span_of, HeaderModel, SegmentHeader, SegmentRangeInclusive, Span};
use crate::segment::StaticFileSegment;
use vstd::bytes::{
    lemma_auto_spec_u64_to_from_le_bytes, spec_u64_from_le_bytes, spec_u64_to_le_bytes,
    spec_u64_to_le_bytes_open, spec_u64_to_le_bytes_to_open, u64_from_le_bytes,
    u64_to_le_bytes,
};
use vstd::prelude::*;
use vstd::slice::slice_subrange;

verus! {

/// The number that stands for a segment in a stored header.
pub open spec fn segment_tag(segment: StaticFileSegment) -> u32 {
    match segment {
        StaticFileSegment::Headers => 0,
        StaticFileSegment::Transactions => 1,
        StaticFileSegment::Receipts => 2,
        StaticFileSegment::BlockMeta => 3,
    }
}

/// The segment that a number stands for.
pub open spec fn segment_of_tag(tag: u32) -> Option<StaticFileSegment> {
    if tag == 0 {
        Some(StaticFileSegment::Headers)
    } else if tag == 1 {
        Some(StaticFileSegment::Transactions)
    } else if tag == 2 {
        Some(StaticFileSegment::Receipts)
    } else if tag == 3 {
        Some(StaticFileSegment::BlockMeta)
    } else {
        None
    }
}

/// The four bytes of a number, the lowest first.
pub open spec fn tag_bytes(tag: u32) -> Seq<u8> {
    seq![
        (tag % 256) as u8,
        (tag / 256 % 256) as u8,
        (tag / 65536 % 256) as u8,
        (tag / 16777216) as u8,
    ]
}

/// The number whose four bytes start at `at`.
pub open spec fn tag_at(bytes: Seq<u8>, at: int) -> int {
    bytes[at] + 256 * bytes[at + 1] + 65536 * bytes[at + 2] + 16777216 * bytes[at + 3]
}

/// The bytes of a range: its start, then its end.
pub open spec fn span_bytes(span: Span) -> Seq<u8> {
    spec_u64_to_le_bytes(span.start) + spec_u64_to_le_bytes(span.end)
}

/// The bytes of a range that may be absent.
pub open spec fn opt_span_bytes(span: Option<Span>) -> Seq<u8> {
    match span {
        Some(s) => seq![1u8] + span_bytes(s),
        None => seq![0u8],
    }
}

/// The bytes of a header.
pub open spec fn header_bytes(header: HeaderModel) -> Seq<u8> {
    span_bytes(header.expected_block_range) + opt_span_bytes(header.block_range)
        + opt_span_bytes(header.tx_range) + tag_bytes(segment_tag(header.segment))
}

/// The range whose bytes start at `at`, if sixteen bytes are there.
pub open spec fn span_at(bytes: Seq<u8>, at: int) -> Option<Span> {
    if 0 <= at && at + 16 <= bytes.len() {
        Some(
            Span {
                start: spec_u64_from_le_bytes(bytes.subrange(at, at + 8)),
                end: spec_u64_from_le_bytes(bytes.subrange(at + 8, at + 16)),
            },
        )
    } else {
        None
    }
}

/// The range that may be absent whose bytes start at `at`, and the place
/// behind it. The byte in front is 0 or 1.
pub open spec fn opt_span_at(bytes: Seq<u8>, at: int) -> Option<(Option<Span>, int)> {
    if 0 <= at < bytes.len() {
        if bytes[at] == 0 {
            Some((None, at + 1))
        } else if bytes[at] == 1 {
            match span_at(bytes, at + 1) {
                Some(s) => Some((Some(s), at + 17)),
                None => None,
            }
        } else {
            None
        }
    } else {
        None
    }
}

/// The segment whose number starts at `at`, if four bytes are there and
/// stand for a segment.
pub open spec fn segment_at(bytes: Seq<u8>, at: int) -> Option<StaticFileSegment> {
    if 0 <= at && at + 4 <= bytes.len() {
        segment_of_tag(tag_at(bytes, at) as u32)
    } else {
        None
    }
}

/// The header that the bytes start with, and how many bytes it takes. What
/// follows the header is not looked at.
pub open spec fn header_at_front(bytes: Seq<u8>) -> Option<(HeaderModel, int)> {
    match span_at(bytes, 0) {
        Some(expected_block_range) => match opt_span_at(bytes, 16) {
            Some((block_range, after_blocks)) => match opt_span_at(bytes, after_blocks) {
                Some((tx_range, after_txs)) => match segment_at(bytes, after_txs) {
                    Some(segment) => Some(
                        (
                            HeaderModel { expected_block_range, block_range, tx_range, segment },
                            after_txs + 4,
                        ),
                    ),
                    None => None,
                },
                None => None,
            },
            None => None,
        },
        None => None,
    }
}

/// The bytes of a range are sixteen, and the range is read back from them
/// wherever they stand.
pub proof fn lemma_span_at(front: Seq<u8>, span: Span, back: Seq<u8>)
    ensures
        span_bytes(span).len() == 16,
        span_at(front + span_bytes(span) + back, front.len() as int) == Some(span),
{
    lemma_auto_spec_u64_to_from_le_bytes();
    let whole = front + span_bytes(span) + back;
    let at = front.len() as int;
    assert(whole.subrange(at, at + 8) =~= spec_u64_to_le_bytes(span.start));
    assert(whole.subrange(at + 8, at + 16) =~= spec_u64_to_le_bytes(span.end));
}

/// A range that may be absent is read back from its bytes wherever they
/// stand.
pub proof fn lemma_opt_span_at(front: Seq<u8>, span: Option<Span>, back: Seq<u8>)
    ensures
        opt_span_bytes(span).len() == if span is Some {
            17int
        } else {
            1int
        },
        opt_span_at(front + opt_span_bytes(span) + back, front.len() as int) == Some(
            (span, (front.len() + opt_span_bytes(span).len()) as int),
        ),
{
    match span {
        Some(s) => {
            lemma_span_at(front + seq![1u8], s, back);
            assert(front + opt_span_bytes(span) + back =~= (front + seq![1u8]) + span_bytes(s)
                + back);
        },
        None => {},
    }
}

/// Reading the bytes of a header gives the header back, whatever follows
/// them.
pub proof fn lemma_header_round_trip(header: HeaderModel, rest: Seq<u8>)
    ensures
        header_at_front(header_bytes(header) + rest) == Some(
            (header, header_bytes(header).len() as int),
        ),
{
    let expected = span_bytes(header.expected_block_range);
    let blocks = opt_span_bytes(header.block_range);
    let txs = opt_span_bytes(header.tx_range);
    let tag = tag_bytes(segment_tag(header.segment));
    let whole = header_bytes(header) + rest;
    lemma_span_at(Seq::empty(), header.expected_block_range, blocks + txs + tag + rest);
    assert(whole =~= Seq::<u8>::empty() + expected + (blocks + txs + tag + rest));
    lemma_opt_span_at(expected, header.block_range, txs + tag + rest);
    assert(whole =~= expected + blocks + (txs + tag + rest));
    lemma_opt_span_at(expected + blocks, header.tx_range, tag + rest);
    assert(whole =~= (expected + blocks) + txs + (tag + rest));
    let at = (expected + blocks + txs).len() as int;
    assert(whole.subrange(at, at + 4) =~= tag);
    assert(tag_at(whole, at) == tag_at(tag, 0)) by {
        assert(whole[at] == tag[0]);
        assert(whole[at + 1] == tag[1]);
        assert(whole[at + 2] == tag[2]);
        assert(whole[at + 3] == tag[3]);
    }
}

/// What was read from the front of some bytes is what those bytes hold: the
/// bytes of the header that was read are the bytes that were taken.
pub proof fn lemma_header_read_is_written(bytes: Seq<u8>)
    ensures
        header_at_front(bytes) matches Some((header, taken)) ==> 0 <= taken <= bytes.len()
            && header_bytes(header) == bytes.take(taken),
{
    lemma_auto_spec_u64_to_from_le_bytes();
    if let Some((header, taken)) = header_at_front(bytes) {
        let (block_range, after_blocks) = opt_span_at(bytes, 16)->0;
        let (tx_range, after_txs) = opt_span_at(bytes, after_blocks)->0;
        assert(span_bytes(header.expected_block_range) =~= bytes.subrange(0, 16)) by {
            assert(bytes.subrange(0, 16) =~= bytes.subrange(0, 8) + bytes.subrange(8, 16));
        }
        assert(opt_span_bytes(block_range) =~= bytes.subrange(16, after_blocks)) by {
            if block_range is Some {
                assert(bytes.subrange(16, 33) =~= seq![1u8] + (bytes.subrange(17, 25)
                    + bytes.subrange(25, 33)));
            }
        }
        assert(opt_span_bytes(tx_range) =~= bytes.subrange(after_blocks, after_txs)) by {
            if tx_range is Some {
                assert(bytes.subrange(after_blocks, after_blocks + 17) =~= seq![1u8] + (
                bytes.subrange(after_blocks + 1, after_blocks + 9) + bytes.subrange(
                    after_blocks + 9,
                    after_blocks + 17,
                )));
            }
        }
        assert(segment_tag(header.segment) == tag_at(bytes, after_txs));
        assert(tag_bytes(segment_tag(header.segment)) =~= bytes.subrange(
            after_txs,
            after_txs + 4,
        ));
        assert(header_bytes(header) =~= bytes.take(taken));
    }
}

/// The eight bytes of a number below `2^24`: its three low bytes, then zeros.
pub proof fn lemma_small_number_bytes(x: u64)
    requires
        x < 0x100_0000,
    ensures
        spec_u64_to_le_bytes(x) == seq![
            (x % 256) as u8,
            (x / 256 % 256) as u8,
            (x / 65536) as u8,
            0u8,
            0u8,
            0u8,
            0u8,
            0u8,
        ],
{
    spec_u64_to_le_bytes_to_open(x);
    assert(x < 0x100_0000 ==> (x & 0xff) == x % 256 && ((x >> 8) & 0xff) == (x / 256) % 256 && ((x
        >> 16) & 0xff) == x / 65536 && ((x >> 24) & 0xff) == 0 && ((x >> 32) & 0xff) == 0 && ((x
        >> 40) & 0xff) == 0 && ((x >> 48) & 0xff) == 0 && ((x >> 56) & 0xff) == 0)
        by (bit_vector);
    assert(spec_u64_to_le_bytes_open(x) =~= seq![
        (x % 256) as u8,
        (x / 256 % 256) as u8,
        (x / 65536) as u8,
        0u8,
        0u8,
        0u8,
        0u8,
        0u8,
    ]);
}

/// A file of the headers of blocks 0 to 499999, as it was written: a version
/// word of eight bytes, the header, then the file's own counters.
pub open spec fn stored_headers_file() -> Seq<u8> {
    seq![
        0x01u8, 0x00, 0x00, 0x00, 0x00, 0x00, 0x00, 0x00, 0x00, 0x00, 0x00, 0x00,
        0x00, 0x00, 0x00, 0x00, 0x1f, 0xa1, 0x07, 0x00, 0x00, 0x00, 0x00, 0x00,
        0x01, 0x00, 0x00, 0x00, 0x00, 0x00, 0x00, 0x00, 0x00, 0x1f, 0xa1, 0x07,
        0x00, 0x00, 0x00, 0x00, 0x00, 0x00, 0x00, 0x00, 0x00, 0x00, 0x03, 0x00,
        0x00, 0x00, 0x00, 0x00, 0x00, 0x00, 0x20, 0xa1, 0x07, 0x00, 0x00, 0x00,
        0x00, 0x00, 0x01, 0x01, 0x00, 0x00, 0x00, 0x4a, 0x02, 0x00, 0x00, 0x00,
        0x00, 0x00, 0x00,
    ]
}

/// A file of the transactions of blocks 0 to 499999, as it was written.
pub open spec fn stored_transactions_file() -> Seq<u8> {
    seq![
        0x01u8, 0x00, 0x00, 0x00, 0x00, 0x00, 0x00, 0x00, 0x00, 0x00, 0x00, 0x00,
        0x00, 0x00, 0x00, 0x00, 0x1f, 0xa1, 0x07, 0x00, 0x00, 0x00, 0x00, 0x00,
        0x01, 0x00, 0x00, 0x00, 0x00, 0x00, 0x00, 0x00, 0x00, 0x1f, 0xa1, 0x07,
        0x00, 0x00, 0x00, 0x00, 0x00, 0x01, 0x00, 0x00, 0x00, 0x00, 0x00, 0x00,
        0x00, 0x00, 0x34, 0xa1, 0x07, 0x00, 0x00, 0x00, 0x00, 0x00, 0x01, 0x00,
        0x00, 0x00, 0x01, 0x00, 0x00, 0x00, 0x00, 0x00, 0x00, 0x00, 0x35, 0xa1,
        0x07, 0x00, 0x00, 0x00, 0x00, 0x00, 0x00, 0x40, 0x10, 0x00, 0x00, 0x00,
        0x00, 0x00, 0x00,
    ]
}

/// A file made for the receipts of blocks 0 to 499999, as it was written
/// with one block in it.
pub open spec fn stored_receipts_file() -> Seq<u8> {
    seq![
        0x01u8, 0x00, 0x00, 0x00, 0x00, 0x00, 0x00, 0x00, 0x00, 0x00, 0x00, 0x00,
        0x00, 0x00, 0x00, 0x00, 0x1f, 0xa1, 0x07, 0x00, 0x00, 0x00, 0x00, 0x00,
        0x01, 0x00, 0x00, 0x00, 0x00, 0x00, 0x00, 0x00, 0x00, 0x00, 0x00, 0x00,
        0x00, 0x00, 0x00, 0x00, 0x00, 0x00, 0x02, 0x00, 0x00, 0x00, 0x01, 0x00,
        0x00, 0x00, 0x00, 0x00, 0x00, 0x00, 0x00, 0x00, 0x00, 0x00, 0x00, 0x00,
        0x00, 0x00, 0x00, 0x00, 0x00, 0x00, 0x00, 0x00, 0x00, 0x00, 0x00,
    ]
}

/// Where the header starts in a stored file: behind the version word.
pub open spec fn stored_header_offset() -> int {
    8
}

/// The headers of files that exist are read as what they were written for:
/// each was made for blocks 0 to 499999; the headers file holds all of these
/// blocks and no transactions, the transactions file holds them with the
/// transactions 0 to 500020, and the receipts file holds block 0 alone.
pub proof fn lemma_stored_headers_read()
    ensures
        header_at_front(stored_headers_file().skip(stored_header_offset())) == Some(
            (
                HeaderModel {
                    expected_block_range: Span { start: 0, end: 499999 },
                    block_range: Some(Span { start: 0, end: 499999 }),
                    tx_range: None,
                    segment: StaticFileSegment::Headers,
                },
                38int,
            ),
        ),
        header_at_front(stored_transactions_file().skip(stored_header_offset())) == Some(
            (
                HeaderModel {
                    expected_block_range: Span { start: 0, end: 499999 },
                    block_range: Some(Span { start: 0, end: 499999 }),
                    tx_range: Some(Span { start: 0, end: 500020 }),
                    segment: StaticFileSegment::Transactions,
                },
                54int,
            ),
        ),
        header_at_front(stored_receipts_file().skip(stored_header_offset())) == Some(
            (
                HeaderModel {
                    expected_block_range: Span { start: 0, end: 499999 },
                    block_range: Some(Span { start: 0, end: 0 }),
                    tx_range: None,
                    segment: StaticFileSegment::Receipts,
                },
                38int,
            ),
        ),
{
    lemma_small_number_bytes(0);
    lemma_small_number_bytes(499999);
    lemma_small_number_bytes(500020);
    let expected = Span { start: 0, end: 499999 };
    {
        let header = HeaderModel {
            expected_block_range: expected,
            block_range: Some(expected),
            tx_range: None,
            segment: StaticFileSegment::Headers,
        };
        let file = stored_headers_file();
        assert(header_bytes(header) =~= file.subrange(8, 46));
        assert(file.skip(8) =~= header_bytes(header) + file.skip(46));
        lemma_header_round_trip(header, file.skip(46));
    }
    {
        let header = HeaderModel {
            expected_block_range: expected,
            block_range: Some(expected),
            tx_range: Some(Span { start: 0, end: 500020 }),
            segment: StaticFileSegment::Transactions,
        };
        let file = stored_transactions_file();
        assert(header_bytes(header) =~= file.subrange(8, 62));
        assert(file.skip(8) =~= header_bytes(header) + file.skip(62));
        lemma_header_round_trip(header, file.skip(62));
    }
    {
        let header = HeaderModel {
            expected_block_range: expected,
            block_range: Some(Span { start: 0, end: 0 }),
            tx_range: None,
            segment: StaticFileSegment::Receipts,
        };
        let file = stored_receipts_file();
        assert(header_bytes(header) =~= file.subrange(8, 46));
        assert(file.skip(8) =~= header_bytes(header) + file.skip(46));
        lemma_header_round_trip(header, file.skip(46));
    }
}

/// Appends all of `bytes`.
fn put(out: &mut Vec<u8>, bytes: &Vec<u8>)
    ensures
        final(out)@ == old(out)@ + bytes@,
{
    let mut k: usize = 0;
    while k < bytes.len()
        invariant
            k <= bytes@.len(),
            out@ == old(out)@ + bytes@.take(k as int),
        decreases bytes@.len() - k,
    {
        out.push(bytes[k]);
        assert(out@ =~= old(out)@ + bytes@.take(k + 1));
        k += 1;
    }
    assert(bytes@.take(k as int) =~= bytes@);
}

/// Appends the bytes of a range.
fn put_range(out: &mut Vec<u8>, range: &SegmentRangeInclusive)
    ensures
        final(out)@ == old(out)@ + span_bytes(range@),
{
    put(out, &u64_to_le_bytes(range.start()));
    put(out, &u64_to_le_bytes(range.end()));
    assert(out@ =~= old(out)@ + span_bytes(range@));
}

/// Appends the bytes of a range that may be absent.
fn put_opt_range(out: &mut Vec<u8>, range: Option<&SegmentRangeInclusive>)
    ensures
        final(out)@ == old(out)@ + opt_span_bytes(
            match range {
                Some(r) => Some(r@),
                None => None,
            },
        ),
{
    match range {
        Some(r) => {
            out.push(1);
            put_range(out, r);
            assert(out@ =~= old(out)@ + (seq![1u8] + span_bytes(r@)));
        },
        None => {
            out.push(0);
            assert(out@ =~= old(out)@ + seq![0u8]);
        },
    }
}

/// Reads the range whose bytes start at `at`.
fn get_range(bytes: &[u8], at: usize) -> (r: Option<SegmentRangeInclusive>)
    ensures
        span_of(r) == span_at(bytes@, at as int),
{
    if bytes.len() < 16 || at > bytes.len() - 16 {
        return None;
    }
    let start = u64_from_le_bytes(slice_subrange(bytes, at, at + 8));
    let end = u64_from_le_bytes(slice_subrange(bytes, at + 8, at + 16));
    Some(SegmentRangeInclusive::new(start, end))
}

/// Reads the range that may be absent whose bytes start at `at`, and says
/// where the next field starts.
fn get_opt_range(bytes: &[u8], at: usize) -> (r: Option<(Option<SegmentRangeInclusive>, usize)>)
    ensures
        match r {
            Some((range, next)) => opt_span_at(bytes@, at as int) == Some(
                (span_of(range), next as int),
            ),
            None => opt_span_at(bytes@, at as int) is None,
        },
{
    if at >= bytes.len() {
        return None;
    }
    let flag = bytes[at];
    if flag == 0 {
        Some((None, at + 1))
    } else if flag == 1 {
        match get_range(bytes, at + 1) {
            Some(range) => Some((Some(range), at + 17)),
            None => None,
        }
    } else {
        None
    }
}

impl StaticFileSegment {
    /// The number that stands for the segment in a stored header.
    pub fn tag(&self) -> (r: u32)
        ensures
            r == segment_tag(*self),
    {
        match self {
            Self::Headers => 0,
            Self::Transactions => 1,
            Self::Receipts => 2,
            Self::BlockMeta => 3,
        }
    }

    /// The segment that a number stands for in a stored header.
    pub fn from_tag(tag: u32) -> (r: Option<Self>)
        ensures
            r == segment_of_tag(tag),
    {
        if tag == 0 {
            Some(Self::Headers)
        } else if tag == 1 {
            Some(Self::Transactions)
        } else if tag == 2 {
            Some(Self::Receipts)
        } else if tag == 3 {
            Some(Self::BlockMeta)
        } else {
            None
        }
    }
}

impl SegmentHeader {
    /// The bytes under which the header is stored.
    pub fn to_bytes(&self) -> (r: Vec<u8>)
        ensures
            r@ == header_bytes(self@),
    {
        let mut out: Vec<u8> = Vec::new();
        let expected = SegmentRangeInclusive::new(
            self.expected_block_start(),
            self.expected_block_end(),
        );
        put_range(&mut out, &expected);
        put_opt_range(&mut out, self.block_range());
        put_opt_range(&mut out, self.tx_range());
        let tag = self.segment().tag();
        let ghost before = out@;
        out.push((tag % 256) as u8);
        out.push((tag / 256 % 256) as u8);
        out.push((tag / 65536 % 256) as u8);
        out.push((tag / 16777216) as u8);
        assert(out@ =~= before + tag_bytes(tag));
        assert(out@ =~= header_bytes(self@));
        out
    }

    /// Reads a header from the front of `bytes` and says how many bytes it
    /// took. `None` where the bytes end too early, or hold a presence byte
    /// other than 0 and 1 or a number that stands for no segment.
    pub fn from_bytes(bytes: &[u8]) -> (r: Option<(SegmentHeader, usize)>)
        ensures
            match r {
                Some((header, taken)) => header_at_front(bytes@) == Some(
                    (header@, taken as int),
                ),
                None => header_at_front(bytes@) is None,
            },
    {
        let expected = match get_range(bytes, 0) {
            Some(range) => range,
            None => {
                return None;
            },
        };
        let (block_range, after_blocks) = match get_opt_range(bytes, 16) {
            Some(found) => found,
            None => {
                return None;
            },
        };
        let (tx_range, after_txs) = match get_opt_range(bytes, after_blocks) {
            Some(found) => found,
            None => {
                return None;
            },
        };
        if bytes.len() < 4 || after_txs > bytes.len() - 4 {
            return None;
        }
        let tag: u32 = bytes[after_txs] as u32 + 256 * (bytes[after_txs + 1] as u32) + 65536 * (
        bytes[after_txs + 2] as u32) + 16777216 * (bytes[after_txs + 3] as u32);
        let segment = match StaticFileSegment::from_tag(tag) {
            Some(segment) => segment,
            None => {
                return None;
            },
        };
        Some((SegmentHeader::new(expected, block_range, tx_range, segment), after_txs + 4))
    }
}

} // verus!
