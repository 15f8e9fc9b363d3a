//! The name of a static file: `static_file_<segment>_<start>_<end>`, with
//! `_<filters>_<compression>` behind it where the configuration is recorded.
//! Reading a name back looks at its first five tokens only.

use crate::compression::Compression;
use crate::header::{SegmentRangeInclusive, Span};
use crate::segment::StaticFileSegment;
use crate::text::{
    all_digits, chars_of, decimal, digit_value, lemma_decimal, lemma_parse_decimal,
    parse_decimal, parse_u64, push_decimal,
};
use vstd::prelude::*;
use vstd::string::*;

verus! {

/// No character of the text is the separator `_`.
pub open spec fn no_sep(s: Seq<char>) -> bool {
    forall|i: int| 0 <= i < s.len() ==> s[i] != '_'
}

/// Where the first `_` of a text stands; the length of the text if it has none.
pub open spec fn first_sep(s: Seq<char>) -> int
    decreases s.len(),
{
    if s.len() == 0 || s[0] == '_' {
        0
    } else {
        1 + first_sep(s.skip(1))
    }
}

/// The pieces into which the separators cut a text. A text without separator
/// is one piece, and a piece may be empty.
pub open spec fn tokens(s: Seq<char>) -> Seq<Seq<char>>
    decreases s.len(),
{
    let n = first_sep(s);
    if 0 <= n < s.len() {
        seq![s.take(n)] + tokens(s.skip(n + 1))
    } else {
        seq![s]
    }
}

impl StaticFileSegment {
    /// The segment that goes by a name.
    pub open spec fn from_name(name: Seq<char>) -> Option<StaticFileSegment> {
        if name == StaticFileSegment::Headers.name() {
            Some(StaticFileSegment::Headers)
        } else if name == StaticFileSegment::Transactions.name() {
            Some(StaticFileSegment::Transactions)
        } else if name == StaticFileSegment::Receipts.name() {
            Some(StaticFileSegment::Receipts)
        } else if name == StaticFileSegment::BlockMeta.name() {
            Some(StaticFileSegment::BlockMeta)
        } else {
            None
        }
    }
}

/// The name of the file that holds `range` of a segment.
pub open spec fn filename_spec(segment: StaticFileSegment, range: Span) -> Seq<char> {
    "static_file_"@ + segment.name() + seq!['_'] + decimal(range.start as nat) + seq!['_']
        + decimal(range.end as nat)
}

/// The name of such a file with its configuration: no filters are recorded
/// yet, so their place holds `none`.
pub open spec fn filename_with_configuration_spec(
    segment: StaticFileSegment,
    compression: Compression,
    range: Span,
) -> Seq<char> {
    filename_spec(segment, range) + "_none_"@ + compression.name()
}

/// What a file name says: its first two tokens are `static` and `file`, the
/// third names a segment, the fourth and fifth are numbers in order. Whatever
/// follows the fifth token is not looked at.
pub open spec fn parse_filename_spec(name: Seq<char>) -> Option<(StaticFileSegment, Span)> {
    let t = tokens(name);
    if t.len() >= 5 && t[0] == "static"@ && t[1] == "file"@ {
        match (StaticFileSegment::from_name(t[2]), parse_u64(t[3]), parse_u64(t[4])) {
            (Some(segment), Some(start), Some(end)) => if start <= end {
                Some((segment, Span { start, end }))
            } else {
                None
            },
            _ => None,
        }
    } else {
        None
    }
}

/// Where the token that starts at `from` ends: at the next separator, or at
/// the end of the text.
fn token_end(cs: &Vec<char>, from: usize) -> (end: usize)
    requires
        from <= cs@.len(),
    ensures
        from <= end <= cs@.len(),
        end == from + first_sep(cs@.skip(from as int)),
{
    let mut k: usize = from;
    while k < cs.len() && cs[k] != '_'
        invariant
            from <= k <= cs@.len(),
            forall|i: int| from <= i < k ==> cs@[i] != '_',
        decreases cs@.len() - k,
    {
        k += 1;
    }
    proof {
        let tail = cs@.skip(from as int);
        let head = tail.take(k - from);
        assert forall|i: int| 0 <= i < head.len() implies #[trigger] head[i] != '_' by {
            assert(head[i] == cs@[from + i]);
        }
        lemma_first_sep_at(tail, k - from);
    }
    k
}

/// Whether the characters from `from` up to `to` spell `word`.
fn spells(cs: &Vec<char>, from: usize, to: usize, word: &str) -> (r: bool)
    requires
        from <= to <= cs@.len(),
    ensures
        r == (cs@.subrange(from as int, to as int) == word@),
{
    let w = chars_of(word);
    if w.len() != to - from {
        return false;
    }
    let mut k: usize = 0;
    while k < w.len()
        invariant
            from <= to <= cs@.len(),
            w@ == word@,
            w@.len() == to - from,
            k <= w@.len(),
            forall|i: int| 0 <= i < k ==> cs@[from + i] == w@[i],
        decreases w@.len() - k,
    {
        if cs[from + k] != w[k] {
            assert(cs@.subrange(from as int, to as int)[k as int] != w@[k as int]);
            return false;
        }
        k += 1;
    }
    assert(cs@.subrange(from as int, to as int) =~= w@);
    true
}

/// The segment that the characters from `from` up to `to` name.
fn segment_named(cs: &Vec<char>, from: usize, to: usize) -> (r: Option<StaticFileSegment>)
    requires
        from <= to <= cs@.len(),
    ensures
        r == StaticFileSegment::from_name(cs@.subrange(from as int, to as int)),
{
    if spells(cs, from, to, StaticFileSegment::Headers.as_str()) {
        Some(StaticFileSegment::Headers)
    } else if spells(cs, from, to, StaticFileSegment::Transactions.as_str()) {
        Some(StaticFileSegment::Transactions)
    } else if spells(cs, from, to, StaticFileSegment::Receipts.as_str()) {
        Some(StaticFileSegment::Receipts)
    } else if spells(cs, from, to, StaticFileSegment::BlockMeta.as_str()) {
        Some(StaticFileSegment::BlockMeta)
    } else {
        None
    }
}

/// The text names no segment.
#[derive(Debug, Clone, Copy, PartialEq, Eq)]
pub struct UnknownSegment;

impl core::str::FromStr for StaticFileSegment {
    type Err = UnknownSegment;

    /// The segment that goes by the text, or the error where the text names
    /// none.
    fn from_str(s: &str) -> (r: Result<Self, UnknownSegment>)
        ensures
            r == match StaticFileSegment::from_name(s@) {
                Some(segment) => Ok::<StaticFileSegment, UnknownSegment>(segment),
                None => Err::<StaticFileSegment, UnknownSegment>(UnknownSegment),
            },
    {
        match Self::parse_name(s) {
            Some(segment) => Ok(segment),
            None => Err(UnknownSegment),
        }
    }
}

impl StaticFileSegment {
    /// The segment that goes by `name`, if there is one.
    pub fn parse_name(name: &str) -> (r: Option<Self>)
        ensures
            r == Self::from_name(name@),
    {
        let cs = chars_of(name);
        let n = cs.len();
        assert(cs@.subrange(0, n as int) =~= name@);
        segment_named(&cs, 0, n)
    }

    /// Returns the default file name for the provided segment and range.
    pub fn filename(&self, block_range: &SegmentRangeInclusive) -> (r: String)
        ensures
            r@ == filename_spec(*self, block_range@),
    {
        let mut name = String::from_str("static_file_");
        name.append(self.as_str());
        name.append("_");
        push_decimal(&mut name, block_range.start());
        name.append("_");
        push_decimal(&mut name, block_range.end());
        proof {
            reveal_strlit("_");
            assert("_"@ =~= seq!['_']);
        }
        name
    }

    /// Returns file name for the provided segment and range, alongside filters, compression.
    pub fn filename_with_configuration(
        &self,
        compression: Compression,
        block_range: &SegmentRangeInclusive,
    ) -> (r: String)
        ensures
            r@ == filename_with_configuration_spec(*self, compression, block_range@),
    {
        let mut name = self.filename(block_range);
        let filters_name = "none";
        name.append("_");
        name.append(filters_name);
        name.append("_");
        name.append(compression.as_str());
        proof {
            reveal_strlit("_");
            reveal_strlit("none");
            reveal_strlit("_none_");
            assert("_"@ + "none"@ + "_"@ =~= "_none_"@);
            assert(name@ =~= filename_spec(*self, block_range@) + ("_"@ + "none"@ + "_"@)
                + compression.name());
        }
        name
    }

    /// Parses a filename into a `StaticFileSegment` and its expected block range.
    ///
    /// The filename is expected to follow the format
    /// `static_file_{segment}_{block_start}_{block_end}`: the first two tokens
    /// are checked, then the segment and the two bounds are read, and the
    /// start may not lie behind the end. Tokens that follow are left alone.
    ///
    /// Returns `None` if the name does not have this form.
    pub fn parse_filename(name: &str) -> (r: Option<(Self, SegmentRangeInclusive)>)
        ensures
            match r {
                Some((segment, range)) => parse_filename_spec(name@) == Some((segment, range@)),
                None => parse_filename_spec(name@) is None,
            },
            r matches Some((_, range)) ==> range@.ordered(),
    {
        let cs = chars_of(name);
        let n = cs.len();
        proof {
            assert(cs@.skip(0) =~= cs@);
            lemma_tokens_from(cs@, 0);
        }
        let e0 = token_end(&cs, 0);
        if e0 >= n {
            return None;
        }
        proof {
            lemma_tokens_from(cs@, e0 + 1);
        }
        let e1 = token_end(&cs, e0 + 1);
        if e1 >= n {
            return None;
        }
        proof {
            lemma_tokens_from(cs@, e1 + 1);
        }
        let e2 = token_end(&cs, e1 + 1);
        if e2 >= n {
            return None;
        }
        proof {
            lemma_tokens_from(cs@, e2 + 1);
        }
        let e3 = token_end(&cs, e2 + 1);
        if e3 >= n {
            return None;
        }
        proof {
            lemma_tokens_from(cs@, e3 + 1);
        }
        let e4 = token_end(&cs, e3 + 1);
        proof {
            let t = tokens(cs@);
            assert(t.len() >= 5);
            assert(t[0] == cs@.subrange(0, e0 as int));
            assert(t[1] == cs@.subrange(e0 + 1, e1 as int));
            assert(t[2] == cs@.subrange(e1 + 1, e2 as int));
            assert(t[3] == cs@.subrange(e2 + 1, e3 as int));
            assert(t[4] =~= cs@.subrange(e3 + 1, e4 as int));
        }
        if !(spells(&cs, 0, e0, "static") && spells(&cs, e0 + 1, e1, "file")) {
            return None;
        }
        let segment = match segment_named(&cs, e1 + 1, e2) {
            Some(segment) => segment,
            None => {
                return None;
            },
        };
        let block_start = match parse_decimal(&cs, e2 + 1, e3) {
            Some(number) => number,
            None => {
                return None;
            },
        };
        let block_end = match parse_decimal(&cs, e3 + 1, e4) {
            Some(number) => number,
            None => {
                return None;
            },
        };
        if block_start > block_end {
            return None;
        }
        Some((segment, SegmentRangeInclusive::new(block_start, block_end)))
    }
}

/// The first separator stands where no separator stands before.
pub proof fn lemma_first_sep(s: Seq<char>)
    ensures
        0 <= first_sep(s) <= s.len(),
        no_sep(s.take(first_sep(s))),
        first_sep(s) < s.len() ==> s[first_sep(s)] == '_',
    decreases s.len(),
{
    if s.len() == 0 || s[0] == '_' {
    } else {
        lemma_first_sep(s.skip(1));
        let n = first_sep(s);
        let head = s.take(n);
        let shorter = s.skip(1).take(n - 1);
        assert forall|i: int| 0 <= i < head.len() implies #[trigger] head[i] != '_' by {
            if i > 0 {
                assert(head[i] == shorter[i - 1]);
            }
        }
    }
}

/// A place is the first separator if no separator stands before it and one
/// stands there, or the text ends there.
pub proof fn lemma_first_sep_at(s: Seq<char>, n: int)
    requires
        0 <= n <= s.len(),
        no_sep(s.take(n)),
        n < s.len() ==> s[n] == '_',
    ensures
        first_sep(s) == n,
    decreases n,
{
    if n == 0 {
    } else {
        assert(s[0] == s.take(n)[0]);
        let shorter = s.skip(1).take(n - 1);
        assert forall|i: int| 0 <= i < shorter.len() implies #[trigger] shorter[i] != '_' by {
            assert(shorter[i] == s.take(n)[i + 1]);
        }
        lemma_first_sep_at(s.skip(1), n - 1);
    }
}

/// A text without separator is a single token, and in front of a separator it
/// is the first token of the whole.
pub proof fn lemma_tokens_head(head: Seq<char>, rest: Seq<char>)
    requires
        no_sep(head),
    ensures
        tokens(head) == seq![head],
        tokens(head + seq!['_'] + rest) == seq![head] + tokens(rest),
{
    assert(head.take(head.len() as int) =~= head);
    lemma_first_sep_at(head, head.len() as int);
    let whole = head + seq!['_'] + rest;
    assert(whole.take(head.len() as int) =~= head);
    lemma_first_sep_at(whole, head.len() as int);
    assert(whole.skip(head.len() as int + 1) =~= rest);
}

/// The tokens of a text that is read from a place on: the first one ends at
/// the first separator from there.
pub proof fn lemma_tokens_from(s: Seq<char>, from: int)
    requires
        0 <= from <= s.len(),
    ensures
        ({
            let end = from + first_sep(s.skip(from));
            &&& from <= end <= s.len()
            &&& tokens(s.skip(from)) == if end < s.len() {
                seq![s.subrange(from, end)] + tokens(s.skip(end + 1))
            } else {
                seq![s.skip(from)]
            }
        }),
{
    let tail = s.skip(from);
    lemma_first_sep(tail);
    let n = first_sep(tail);
    if n < tail.len() {
        assert(tail.take(n) =~= s.subrange(from, from + n));
        assert(tail.skip(n + 1) =~= s.skip(from + n + 1));
    }
}

/// The names of the segments hold no separator, and each belongs to one
/// segment only.
pub proof fn lemma_segment_names(segment: StaticFileSegment)
    ensures
        no_sep(segment.name()),
        StaticFileSegment::from_name(segment.name()) == Some(segment),
{
    reveal_strlit("headers");
    reveal_strlit("transactions");
    reveal_strlit("receipts");
    reveal_strlit("blockmeta");
    assert("headers"@.len() == 7);
    assert("transactions"@.len() == 12);
    assert("receipts"@.len() == 8);
    assert("blockmeta"@.len() == 9);
}

/// A number in decimal holds no separator.
pub proof fn lemma_decimal_no_sep(n: nat)
    ensures
        no_sep(decimal(n)),
{
    lemma_decimal(n);
    assert forall|i: int| 0 <= i < decimal(n).len() implies decimal(n)[i] != '_' by {
        assert(digit_value(decimal(n)[i]) is Some);
    }
}

/// A file name starts with the five tokens it was made from, whatever follows
/// them behind a separator.
pub proof fn lemma_filename_tokens(segment: StaticFileSegment, range: Span, rest: Seq<char>)
    ensures
        tokens(filename_spec(segment, range)) == seq![
            "static"@,
            "file"@,
            segment.name(),
            decimal(range.start as nat),
            decimal(range.end as nat),
        ],
        tokens(filename_spec(segment, range) + seq!['_'] + rest) == seq![
            "static"@,
            "file"@,
            segment.name(),
            decimal(range.start as nat),
            decimal(range.end as nat),
        ] + tokens(rest),
{
    reveal_strlit("static_file_");
    reveal_strlit("static");
    reveal_strlit("file");
    let sep = seq!['_'];
    let start = decimal(range.start as nat);
    let end = decimal(range.end as nat);
    lemma_segment_names(segment);
    lemma_decimal_no_sep(range.start as nat);
    lemma_decimal_no_sep(range.end as nat);
    assert("static_file_"@ =~= "static"@ + sep + "file"@ + sep);

    // From the last token back to the first, once with nothing behind the
    // name and once with `rest` behind it.
    let plain4 = end;
    let more4 = end + sep + rest;
    lemma_tokens_head(end, rest);
    let plain3 = start + sep + plain4;
    let more3 = start + sep + more4;
    lemma_tokens_head(start, plain4);
    lemma_tokens_head(start, more4);
    let plain2 = segment.name() + sep + plain3;
    let more2 = segment.name() + sep + more3;
    lemma_tokens_head(segment.name(), plain3);
    lemma_tokens_head(segment.name(), more3);
    let plain1 = "file"@ + sep + plain2;
    let more1 = "file"@ + sep + more2;
    lemma_tokens_head("file"@, plain2);
    lemma_tokens_head("file"@, more2);
    let plain0 = "static"@ + sep + plain1;
    let more0 = "static"@ + sep + more1;
    lemma_tokens_head("static"@, plain1);
    lemma_tokens_head("static"@, more1);
    assert(filename_spec(segment, range) =~= plain0);
    assert(filename_spec(segment, range) + sep + rest =~= more0);
    assert(tokens(plain0) =~= seq!["static"@, "file"@, segment.name(), start, end]);
    assert(tokens(more0) =~= seq!["static"@, "file"@, segment.name(), start, end] + tokens(
        rest,
    ));
}

/// Reading the name of a file gives back the segment and the range it was
/// made from, provided the range has its bounds in order.
pub proof fn lemma_filename_round_trip(segment: StaticFileSegment, range: Span)
    requires
        range.ordered(),
    ensures
        parse_filename_spec(filename_spec(segment, range)) == Some((segment, range)),
{
    lemma_filename_tokens(segment, range, Seq::empty());
    lemma_segment_names(segment);
    lemma_parse_decimal(range.start);
    lemma_parse_decimal(range.end);
}

/// Whatever stands behind a file name and a separator is not looked at.
pub proof fn lemma_filename_suffix_ignored(
    segment: StaticFileSegment,
    range: Span,
    rest: Seq<char>,
)
    requires
        range.ordered(),
    ensures
        parse_filename_spec(filename_spec(segment, range) + seq!['_'] + rest) == Some(
            (segment, range),
        ),
{
    lemma_filename_tokens(segment, range, rest);
    lemma_segment_names(segment);
    lemma_parse_decimal(range.start);
    lemma_parse_decimal(range.end);
}

/// Reading the name of a file with its configuration gives back the segment
/// and the range, whatever the compression, provided the range has its bounds
/// in order.
pub proof fn lemma_configuration_ignored(
    segment: StaticFileSegment,
    compression: Compression,
    range: Span,
)
    requires
        range.ordered(),
    ensures
        parse_filename_spec(filename_with_configuration_spec(segment, compression, range))
            == Some((segment, range)),
{
    reveal_strlit("_none_");
    let rest = "_none_"@.skip(1) + compression.name();
    assert(filename_with_configuration_spec(segment, compression, range) =~= filename_spec(
        segment,
        range,
    ) + seq!['_'] + rest);
    lemma_filename_suffix_ignored(segment, range, rest);
}

} // verus!
