use static_file_types::{ListFilter, RawRow};

fn filter() -> ListFilter {
    ListFilter {
        skip: 0,
        len: usize::MAX,
        search: Vec::new(),
        min_row_size: 0,
        min_key_size: 0,
        min_value_size: 0,
        reverse: false,
        only_count: false,
    }
}

fn row(key: &[u8], value: &[u8]) -> RawRow {
    RawRow { key: key.to_vec(), value: value.to_vec() }
}

fn table() -> Vec<RawRow> {
    vec![
        row(b"a", b"coocoocoocoo"),
        row(b"bb", b"nothing here"),
        row(b"oocoo", b"x"),
        row(b"dddd", b""),
        row(b"e", b"ocooco"),
        row(b"ffffff", b"zzoocoozz"),
    ]
}

#[test]
fn has_search_and_update_page() {
    let mut f = filter();
    assert!(!f.has_search());
    f.search = vec![0xde, 0xad];
    assert!(f.has_search());
    f.update_page(3, 7);
    assert_eq!(f.skip, 3);
    assert_eq!(f.len, 7);
    assert_eq!(f.search, vec![0xde, 0xad]);
    assert_eq!(f.min_row_size, 0);
    assert!(!f.reverse);
    assert!(!f.only_count);
}

#[test]
fn without_filter_every_row_is_listed() {
    let rows = table();
    assert_eq!(filter().select(&rows), (vec![0, 1, 2, 3, 4, 5], 6));
    assert_eq!(filter().select(&Vec::new()), (vec![], 0));
}

#[test]
fn search_looks_into_value_and_key() {
    let rows = table();
    let mut f = filter();
    f.search = b"oocoo".to_vec();
    // Row 0 and 5 hold it in the value, row 2 in the key; row 4 holds only
    // parts of it.
    assert_eq!(f.select(&rows), (vec![0, 2, 5], 3));
    f.search = b"zz".to_vec();
    assert_eq!(f.select(&rows), (vec![5], 1));
    f.search = b"not there".to_vec();
    assert_eq!(f.select(&rows), (vec![], 0));
    f.search = b"coocoocoocoo!".to_vec();
    assert_eq!(f.select(&rows), (vec![], 0));
    f.search = b"e".to_vec();
    assert_eq!(f.select(&rows), (vec![1, 4], 2));
}

#[test]
fn size_thresholds() {
    let rows = table();
    let mut f = filter();
    f.min_key_size = 2;
    assert_eq!(f.select(&rows), (vec![1, 2, 3, 5], 4));
    let mut f = filter();
    f.min_value_size = 9;
    assert_eq!(f.select(&rows), (vec![0, 1, 5], 3));
    let mut f = filter();
    f.min_row_size = 13;
    assert_eq!(f.select(&rows), (vec![0, 1, 5], 3));
    f.min_row_size = 14;
    assert_eq!(f.select(&rows), (vec![1, 5], 2));
    f.min_row_size = usize::MAX;
    assert_eq!(f.select(&rows), (vec![], 0));
    let mut f = filter();
    f.min_key_size = 2;
    f.min_value_size = 9;
    f.search = b"oocoo".to_vec();
    assert_eq!(f.select(&rows), (vec![5], 1));
}

#[test]
fn paging() {
    let rows = table();
    let mut f = filter();
    f.update_page(2, 3);
    assert_eq!(f.select(&rows), (vec![2, 3, 4], 3));
    f.update_page(4, 3);
    assert_eq!(f.select(&rows), (vec![4, 5], 2));
    f.update_page(6, 3);
    assert_eq!(f.select(&rows), (vec![], 0));
    f.update_page(100, 3);
    assert_eq!(f.select(&rows), (vec![], 0));
    f.update_page(0, 0);
    assert_eq!(f.select(&rows), (vec![], 0));
    // Entries are passed over before they are looked at.
    f.update_page(1, 1);
    f.search = b"oocoo".to_vec();
    assert_eq!(f.select(&rows), (vec![2], 1));
    f.update_page(1, 5);
    assert_eq!(f.select(&rows), (vec![2, 5], 2));
}

#[test]
fn reverse_walk() {
    let rows = table();
    let mut f = filter();
    f.reverse = true;
    assert_eq!(f.select(&rows), (vec![5, 4, 3, 2, 1, 0], 6));
    f.update_page(1, 2);
    assert_eq!(f.select(&rows), (vec![4, 3], 2));
    f.search = b"oocoo".to_vec();
    f.update_page(0, 2);
    assert_eq!(f.select(&rows), (vec![5, 2], 2));
}

#[test]
fn only_count() {
    let rows = table();
    let mut f = filter();
    f.only_count = true;
    f.update_page(0, 1);
    assert_eq!(f.select(&rows), (vec![], 6));
    f.update_page(2, 1);
    assert_eq!(f.select(&rows), (vec![], 4));
    f.search = b"oocoo".to_vec();
    f.update_page(0, 2);
    assert_eq!(f.select(&rows), (vec![], 3));
    f.update_page(0, 0);
    assert_eq!(f.select(&rows), (vec![], 0));
}

#[test]
fn scan_row_by_row() {
    let rows = table();
    let mut f = filter();
    f.search = b"oocoo".to_vec();
    f.update_page(1, 2);
    let mut scan = f.scan();
    assert!(!scan.is_done());
    assert_eq!(scan.hits(), 0);
    // passed over
    assert!(!scan.feed(&rows[0].key, &rows[0].value));
    assert_eq!(scan.hits(), 0);
    // no match
    assert!(!scan.feed(&rows[1].key, &rows[1].value));
    // match in the key
    assert!(scan.feed(&rows[2].key, &rows[2].value));
    assert_eq!(scan.hits(), 1);
    assert!(!scan.is_done());
    assert!(!scan.feed(&rows[3].key, &rows[3].value));
    assert!(!scan.feed(&rows[4].key, &rows[4].value));
    assert!(scan.feed(&rows[5].key, &rows[5].value));
    assert_eq!(scan.hits(), 2);
    assert!(scan.is_done());
    // A full page takes nothing more.
    assert!(!scan.feed(&rows[0].key, &rows[0].value));
    assert_eq!(scan.hits(), 2);
}

#[test]
fn scan_passes_unreadable_entries() {
    let rows = table();
    let mut f = filter();
    f.update_page(2, 1);
    let mut scan = f.scan();
    scan.pass();
    assert!(!scan.feed(&rows[0].key, &rows[0].value));
    // Both entries to pass over are used up; an unreadable one now changes
    // nothing.
    scan.pass();
    assert_eq!(scan.hits(), 0);
    assert!(!scan.is_done());
    assert!(scan.feed(&rows[1].key, &rows[1].value));
    assert_eq!(scan.hits(), 1);
    assert!(scan.is_done());
}

#[test]
fn scan_that_only_counts_never_fills() {
    let rows = table();
    let mut f = filter();
    f.only_count = true;
    f.update_page(0, 1);
    let mut scan = f.scan();
    for r in &rows {
        assert!(!scan.feed(&r.key, &r.value));
        assert!(!scan.is_done());
    }
    assert_eq!(scan.hits(), 6);
    f.update_page(0, 0);
    let mut scan = f.scan();
    assert!(scan.is_done());
    assert!(!scan.feed(&rows[0].key, &rows[0].value));
    assert_eq!(scan.hits(), 0);
}
