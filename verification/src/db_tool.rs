//! Listing the rows of a table: which rows a filter lets through, and how a
//! page of results is cut out of them.

use crate::search::{build_searcher, find_first_in, occurs, occurs_at, searcher_pattern};
use boyer_moore_magiclen::BMByte;
use vstd::prelude::*;

verus! {

/// Filters the rows coming from a table.
#[derive(Debug)]
pub struct ListFilter {
    /// Skip first N entries.
    pub skip: usize,
    /// Take N entries.
    pub len: usize,
    /// Sequence of bytes that will be searched on values and keys.
    pub search: Vec<u8>,
    /// Minimum row size.
    pub min_row_size: usize,
    /// Minimum key size.
    pub min_key_size: usize,
    /// Minimum value size.
    pub min_value_size: usize,
    /// Reverse order of entries.
    pub reverse: bool,
    /// Only counts the number of filtered entries without returning them.
    pub only_count: bool,
}

/// A row as the table stores it: the bytes of its key and of its value.
#[derive(Debug)]
pub struct RawRow {
    pub key: Vec<u8>,
    pub value: Vec<u8>,
}

/// What a scan has been told to do and how far it has come.
pub struct ScanState {
    /// The bytes that a row must hold; empty where nothing is searched for.
    pub pattern: Seq<u8>,
    pub min_row_size: usize,
    pub min_key_size: usize,
    pub min_value_size: usize,
    pub only_count: bool,
    /// Entries still to be passed over before any is looked at.
    pub to_skip: usize,
    /// Results still wanted.
    pub to_take: usize,
    /// Rows let through so far.
    pub hits: usize,
}

impl ScanState {
    /// No further entry is wanted: the page is full.
    pub open spec fn done(self) -> bool {
        self.to_take == 0
    }

    /// The row is large enough and, where bytes are searched for, holds them
    /// in its value or in its key.
    pub open spec fn admits(self, key: Seq<u8>, value: Seq<u8>) -> bool {
        &&& key.len() + value.len() >= self.min_row_size
        &&& key.len() >= self.min_key_size
        &&& value.len() >= self.min_value_size
        &&& (self.pattern.len() > 0 ==> occurs(self.pattern, value) || occurs(
            self.pattern,
            key,
        ))
    }

    /// The row is looked at (not passed over) and let through.
    pub open spec fn hit(self, key: Seq<u8>, value: Seq<u8>) -> bool {
        !self.done() && self.to_skip == 0 && self.admits(key, value)
    }

    /// The scan after an entry that could not be read: it only uses up one of
    /// the entries to pass over.
    pub open spec fn pass(self) -> ScanState {
        if self.done() || self.to_skip == 0 {
            self
        } else {
            ScanState { to_skip: (self.to_skip - 1) as usize, ..self }
        }
    }

    /// The scan after the row `(key, value)`.
    pub open spec fn feed(self, key: Seq<u8>, value: Seq<u8>) -> ScanState {
        if !self.hit(key, value) {
            self.pass()
        } else if self.only_count {
            ScanState { hits: (self.hits + 1) as usize, ..self }
        } else {
            ScanState {
                hits: (self.hits + 1) as usize,
                to_take: (self.to_take - 1) as usize,
                ..self
            }
        }
    }
}

/// A walk over the entries of a table, fed one entry at a time.
///
/// The caller reads the entries, in the order the filter asks for, and goes on
/// while the scan is not [`done`](ListScan::is_done).
pub struct ListScan {
    searcher: Option<BMByte>,
    min_row_size: usize,
    min_key_size: usize,
    min_value_size: usize,
    only_count: bool,
    to_skip: usize,
    to_take: usize,
    hits: usize,
}

impl View for ListScan {
    type V = ScanState;

    closed spec fn view(&self) -> ScanState {
        ScanState {
            pattern: match self.searcher {
                Some(s) => searcher_pattern(s),
                None => Seq::empty(),
            },
            min_row_size: self.min_row_size,
            min_key_size: self.min_key_size,
            min_value_size: self.min_value_size,
            only_count: self.only_count,
            to_skip: self.to_skip,
            to_take: self.to_take,
            hits: self.hits,
        }
    }
}

impl ListFilter {
    /// If `search` has a list of bytes, then filter for rows that have this sequence.
    pub fn has_search(&self) -> (r: bool)
        ensures
            r == (self.search@.len() > 0),
    {
        !self.search.is_empty()
    }

    /// Updates the page with new `skip` and `len` values.
    pub fn update_page(&mut self, skip: usize, len: usize)
        ensures
            *final(self) == (ListFilter { skip, len, ..*old(self) }),
    {
        self.skip = skip;
        self.len = len;
    }

    /// The state in which a scan under this filter starts.
    pub open spec fn start(&self) -> ScanState {
        ScanState {
            pattern: self.search@,
            min_row_size: self.min_row_size,
            min_key_size: self.min_key_size,
            min_value_size: self.min_value_size,
            only_count: self.only_count,
            to_skip: self.skip,
            to_take: self.len,
            hits: 0,
        }
    }

    /// Starts a scan. A filter without search bytes gets no searcher; every
    /// other pattern is one the searcher accepts, so this cannot fail.
    pub fn scan(&self) -> (r: ListScan)
        ensures
            r@ == self.start(),
    {
        let r = ListScan {
            searcher: build_searcher(&self.search),
            min_row_size: self.min_row_size,
            min_key_size: self.min_key_size,
            min_value_size: self.min_value_size,
            only_count: self.only_count,
            to_skip: self.skip,
            to_take: self.len,
            hits: 0,
        };
        assert(r@.pattern =~= self.search@);
        r
    }
}

impl ListFilter {
    /// Where in the table the `k`-th entry of the walk lies, in a table of `n`
    /// entries: a reverse walk starts at the last entry.
    pub open spec fn visit(&self, n: nat, k: int) -> int {
        if self.reverse {
            n - 1 - k
        } else {
            k
        }
    }

    /// The rows that are let through among the first `upto` entries of the
    /// walk, each by its place in the table, in the order of the walk. The
    /// first `skip` entries of the walk are passed over unseen.
    pub open spec fn admitted(&self, rows: Seq<RawRow>, upto: nat) -> Seq<int>
        decreases upto,
    {
        if upto == 0 {
            Seq::empty()
        } else {
            let k = upto - 1;
            let i = self.visit(rows.len(), k);
            let before = self.admitted(rows, k as nat);
            if k >= self.skip && self.start().admits(rows[i].key@, rows[i].value@) {
                before.push(i)
            } else {
                before
            }
        }
    }

    /// The page of results: the first `len` rows that are let through, or
    /// nothing where rows are only counted.
    pub open spec fn page(&self, rows: Seq<RawRow>) -> Seq<int> {
        let all = self.admitted(rows, rows.len());
        if self.only_count {
            Seq::empty()
        } else if all.len() <= self.len {
            all
        } else {
            all.take(self.len as int)
        }
    }

    /// The number of rows let through before the walk ends: it ends with the
    /// table, or as soon as the page is full. Where rows are only counted the
    /// page never fills; a page of length 0 is full from the start.
    pub open spec fn count(&self, rows: Seq<RawRow>) -> nat {
        let all = self.admitted(rows, rows.len());
        if self.len == 0 {
            0
        } else if self.only_count || all.len() <= self.len {
            all.len()
        } else {
            self.len as nat
        }
    }

    /// No more rows are let through than entries were walked, and each of
    /// them is a row of the table that the filter admits.
    pub proof fn lemma_admitted(&self, rows: Seq<RawRow>, upto: nat)
        requires
            upto <= rows.len(),
        ensures
            self.admitted(rows, upto).len() <= upto,
            forall|j: int|
                0 <= j < self.admitted(rows, upto).len() ==> {
                    let i = #[trigger] self.admitted(rows, upto)[j];
                    0 <= i < rows.len() && self.start().admits(rows[i].key@, rows[i].value@)
                },
        decreases upto,
    {
        if upto > 0 {
            self.lemma_admitted(rows, (upto - 1) as nat);
        }
    }

    /// A page holds no more rows than it has room for, and only rows of the
    /// table that the filter admits.
    pub proof fn lemma_page(&self, rows: Seq<RawRow>)
        ensures
            self.page(rows).len() <= self.len,
            self.page(rows).len() <= rows.len(),
            self.count(rows) <= rows.len(),
            !self.only_count ==> self.page(rows).len() == self.count(rows),
            forall|j: int|
                0 <= j < self.page(rows).len() ==> {
                    let i = #[trigger] self.page(rows)[j];
                    0 <= i < rows.len() && self.start().admits(rows[i].key@, rows[i].value@)
                },
    {
        self.lemma_admitted(rows, rows.len());
    }

    /// Walking further only adds rows at the end.
    pub proof fn lemma_admitted_grows(&self, rows: Seq<RawRow>, upto: nat, further: nat)
        requires
            upto <= further,
        ensures
            self.admitted(rows, upto).len() <= self.admitted(rows, further).len(),
            self.admitted(rows, further).take(self.admitted(rows, upto).len() as int)
                == self.admitted(rows, upto),
        decreases further,
    {
        if upto < further {
            self.lemma_admitted_grows(rows, upto, (further - 1) as nat);
            let shorter = self.admitted(rows, (further - 1) as nat);
            let near = self.admitted(rows, upto);
            assert(self.admitted(rows, further).take(near.len() as int) =~= shorter.take(
                near.len() as int,
            ));
        } else {
            assert(self.admitted(rows, further).take(self.admitted(rows, upto).len() as int)
                =~= self.admitted(rows, upto));
        }
    }

    /// Lists the rows of a table held in memory: the places in `rows` of the
    /// rows that make up the page, in the order of the walk, and the number of
    /// rows that were let through.
    pub fn select(&self, rows: &Vec<RawRow>) -> (r: (Vec<usize>, usize))
        ensures
            r.0@.len() == self.page(rows@).len(),
            forall|j: int| 0 <= j < r.0@.len() ==> r.0@[j] == self.page(rows@)[j],
            r.1 == self.count(rows@),
    {
        let mut scan = self.scan();
        let mut kept: Vec<usize> = Vec::new();
        let n = rows.len();
        let mut k: usize = 0;
        while k < n && !scan.is_done()
            invariant
                k <= n == rows@.len(),
                self.len == 0 ==> k == 0,
                self.admitted(rows@, k as nat).len() <= k,
                scan@ == (ScanState {
                    to_skip: if k >= self.skip {
                        0
                    } else {
                        (self.skip - k) as usize
                    },
                    to_take: if self.only_count {
                        self.len
                    } else {
                        (self.len - self.admitted(rows@, k as nat).len()) as usize
                    },
                    hits: self.admitted(rows@, k as nat).len() as usize,
                    ..self.start()
                }),
                self.only_count || self.admitted(rows@, k as nat).len() <= self.len,
                self.only_count ==> kept@.len() == 0,
                !self.only_count ==> kept@.len() == self.admitted(rows@, k as nat).len(),
                !self.only_count ==> forall|j: int|
                    0 <= j < kept@.len() ==> kept@[j] == self.admitted(rows@, k as nat)[j],
            decreases n - k,
        {
            let i = if self.reverse {
                n - 1 - k
            } else {
                k
            };
            proof {
                self.lemma_admitted(rows@, (k + 1) as nat);
                assert(self.admitted(rows@, (k + 1) as nat) == if k >= self.skip
                    && self.start().admits(rows@[i as int].key@, rows@[i as int].value@) {
                    self.admitted(rows@, k as nat).push(i as int)
                } else {
                    self.admitted(rows@, k as nat)
                });
            }
            let row = &rows[i];
            if scan.feed(&row.key, &row.value) {
                kept.push(i);
            }
            k += 1;
        }
        proof {
            self.lemma_admitted_grows(rows@, k as nat, n as nat);
        }
        (kept, scan.hits())
    }
}

impl ListScan {
    /// Whether the page is full, so that no further entry needs to be read.
    pub fn is_done(&self) -> (r: bool)
        ensures
            r == self@.done(),
    {
        self.to_take == 0
    }

    /// Number of rows let through so far.
    pub fn hits(&self) -> (r: usize)
        ensures
            r == self@.hits,
    {
        self.hits
    }

    fn admits(&self, key: &Vec<u8>, value: &Vec<u8>) -> (r: bool)
        ensures
            r == self@.admits(key@, value@),
    {
        if key.len() < self.min_row_size && value.len() < self.min_row_size - key.len() {
            return false;
        }
        if key.len() < self.min_key_size {
            return false;
        }
        if value.len() < self.min_value_size {
            return false;
        }
        match &self.searcher {
            Some(searcher) => {
                proof {
                    // An empty pattern lies at the start of every text.
                    let pattern = searcher_pattern(*searcher);
                    if pattern.len() == 0 {
                        assert(value@.subrange(0, 0) =~= pattern);
                        assert(occurs_at(pattern, value@, 0));
                    }
                }
                find_first_in(searcher, value).is_some() || find_first_in(searcher, key).is_some()
            },
            None => true,
        }
    }

    /// Takes note of an entry that could not be read.
    pub fn pass(&mut self)
        ensures
            final(self)@ == old(self)@.pass(),
    {
        if self.to_take != 0 && self.to_skip > 0 {
            self.to_skip -= 1;
        }
    }

    /// Takes the next row and says whether it belongs on the page.
    pub fn feed(&mut self, key: &Vec<u8>, value: &Vec<u8>) -> (keep: bool)
        requires
            old(self)@.hits < usize::MAX,
        ensures
            final(self)@ == old(self)@.feed(key@, value@),
            keep == (old(self)@.hit(key@, value@) && !old(self)@.only_count),
    {
        if self.to_take == 0 {
            return false;
        }
        if self.to_skip > 0 {
            self.to_skip -= 1;
            return false;
        }
        if !self.admits(key, value) {
            return false;
        }
        self.hits += 1;
        if self.only_count {
            return false;
        }
        self.to_take -= 1;
        true
    }
}

} // verus!
