use alloy_primitives::hex;
use static_file_types::{
    Compression, SegmentHeader, SegmentRangeInclusive, StaticFileSegment, UnknownSegment,
};
use std::ops::RangeInclusive;

#[test]
fn test_filename() {
    let test_vectors = [
        (StaticFileSegment::Headers, 2..=30, "static_file_headers_2_30", None),
        (StaticFileSegment::Receipts, 30..=300, "static_file_receipts_30_300", None),
        (
            StaticFileSegment::Transactions,
            1_123_233..=11_223_233,
            "static_file_transactions_1123233_11223233",
            None,
        ),
        (
            StaticFileSegment::Headers,
            2..=30,
            "static_file_headers_2_30_none_lz4",
            Some(Compression::Lz4),
        ),
        (
            StaticFileSegment::Headers,
            2..=30,
            "static_file_headers_2_30_none_zstd",
            Some(Compression::Zstd),
        ),
        (
            StaticFileSegment::Headers,
            2..=30,
            "static_file_headers_2_30_none_zstd-dict",
            Some(Compression::ZstdWithDictionary),
        ),
    ];

    for (segment, block_range, filename, compression) in test_vectors {
        let block_range: SegmentRangeInclusive = block_range.into();
        if let Some(compression) = compression {
            assert_eq!(segment.filename_with_configuration(compression, &block_range), filename);
        } else {
            assert_eq!(segment.filename(&block_range), filename);
        }

        assert_eq!(StaticFileSegment::parse_filename(filename), Some((segment, block_range)));
    }

    assert_eq!(StaticFileSegment::parse_filename("static_file_headers_2"), None);
    assert_eq!(StaticFileSegment::parse_filename("static_file_headers_"), None);

    // roundtrip test
    let dummy_range = SegmentRangeInclusive::new(123, 1230);
    for segment in StaticFileSegment::iter() {
        let filename = segment.filename(&dummy_range);
        assert_eq!(Some((segment, dummy_range)), StaticFileSegment::parse_filename(&filename));
    }
}

#[test]
fn test_segment_config_backwards() {
    let headers = hex::decode("010000000000000000000000000000001fa10700000000000100000000000000001fa10700000000000000000000030000000000000020a107000000000001010000004a02000000000000").unwrap();
    let transactions = hex::decode("010000000000000000000000000000001fa10700000000000100000000000000001fa107000000000001000000000000000034a107000000000001000000010000000000000035a1070000000000004010000000000000").unwrap();
    let receipts = hex::decode("010000000000000000000000000000001fa10700000000000100000000000000000000000000000000000200000001000000000000000000000000000000000000000000000000").unwrap();

    // In each of these files the header stands behind a version word of
    // eight bytes, and the file's own counters follow it.
    {
        let (header, _) = SegmentHeader::from_bytes(&headers[8..]).unwrap();
        assert_eq!(
            &SegmentHeader::new(
                SegmentRangeInclusive::new(0, 499999),
                Some(SegmentRangeInclusive::new(0, 499999)),
                None,
                StaticFileSegment::Headers,
            ),
            &header
        );
    }
    {
        let (header, _) = SegmentHeader::from_bytes(&transactions[8..]).unwrap();
        assert_eq!(
            &SegmentHeader::new(
                SegmentRangeInclusive::new(0, 499999),
                Some(SegmentRangeInclusive::new(0, 499999)),
                Some(SegmentRangeInclusive::new(0, 500020)),
                StaticFileSegment::Transactions,
            ),
            &header
        );
    }
    {
        let (header, _) = SegmentHeader::from_bytes(&receipts[8..]).unwrap();
        assert_eq!(
            &SegmentHeader::new(
                SegmentRangeInclusive::new(0, 499999),
                Some(SegmentRangeInclusive::new(0, 0)),
                None,
                StaticFileSegment::Receipts,
            ),
            &header
        );
    }
}

#[test]
fn stored_header_takes_what_it_needs() {
    let headers = hex::decode("010000000000000000000000000000001fa10700000000000100000000000000001fa10700000000000000000000030000000000000020a107000000000001010000004a02000000000000").unwrap();
    let transactions = hex::decode("010000000000000000000000000000001fa10700000000000100000000000000001fa107000000000001000000000000000034a107000000000001000000010000000000000035a1070000000000004010000000000000").unwrap();
    let (header, taken) = SegmentHeader::from_bytes(&headers[8..]).unwrap();
    assert_eq!(taken, 38);
    assert_eq!(header.to_bytes(), headers[8..46].to_vec());
    let (header, taken) = SegmentHeader::from_bytes(&transactions[8..]).unwrap();
    assert_eq!(taken, 54);
    assert_eq!(header.to_bytes(), transactions[8..62].to_vec());
}

#[test]
fn stored_header_bytes_are_laid_out_field_by_field() {
    let header = SegmentHeader::new(
        SegmentRangeInclusive::new(1, 0x0102030405060708),
        None,
        Some(SegmentRangeInclusive::new(2, 3)),
        StaticFileSegment::BlockMeta,
    );
    let mut expected: Vec<u8> = Vec::new();
    expected.extend_from_slice(&[1, 0, 0, 0, 0, 0, 0, 0]);
    expected.extend_from_slice(&[8, 7, 6, 5, 4, 3, 2, 1]);
    expected.push(0);
    expected.push(1);
    expected.extend_from_slice(&[2, 0, 0, 0, 0, 0, 0, 0]);
    expected.extend_from_slice(&[3, 0, 0, 0, 0, 0, 0, 0]);
    expected.extend_from_slice(&[3, 0, 0, 0]);
    assert_eq!(header.to_bytes(), expected);
    assert_eq!(SegmentHeader::from_bytes(&expected), Some((header, 38)));
}

#[test]
fn stored_header_round_trip() {
    for segment in StaticFileSegment::iter() {
        for block_range in [None, Some(SegmentRangeInclusive::new(7, u64::MAX))] {
            for tx_range in [None, Some(SegmentRangeInclusive::new(0, 12))] {
                let header = SegmentHeader::new(
                    SegmentRangeInclusive::new(500_000, 999_999),
                    block_range,
                    tx_range,
                    segment,
                );
                let mut bytes = header.to_bytes();
                let len = bytes.len();
                assert_eq!(SegmentHeader::from_bytes(&bytes), Some((header.clone(), len)));
                bytes.extend_from_slice(&[0xff, 0xee]);
                assert_eq!(SegmentHeader::from_bytes(&bytes), Some((header, len)));
            }
        }
    }
}

#[test]
fn stored_header_rejects_bad_bytes() {
    let good = SegmentHeader::new(
        SegmentRangeInclusive::new(0, 9),
        Some(SegmentRangeInclusive::new(0, 4)),
        None,
        StaticFileSegment::Receipts,
    )
    .to_bytes();
    assert!(SegmentHeader::from_bytes(&good).is_some());
    // Cut short anywhere.
    for len in 0..good.len() {
        assert_eq!(SegmentHeader::from_bytes(&good[..len]), None);
    }
    // A presence byte that is neither 0 nor 1.
    let mut bad = good.clone();
    bad[16] = 2;
    assert_eq!(SegmentHeader::from_bytes(&bad), None);
    let mut bad = good.clone();
    bad[33] = 0xff;
    assert_eq!(SegmentHeader::from_bytes(&bad), None);
    // A number that stands for no segment.
    let mut bad = good.clone();
    bad[34] = 4;
    assert_eq!(SegmentHeader::from_bytes(&bad), None);
    let mut bad = good;
    bad[37] = 1;
    assert_eq!(SegmentHeader::from_bytes(&bad), None);
}

#[test]
fn segment_tags_follow_the_declaration() {
    assert_eq!(StaticFileSegment::Headers.tag(), 0);
    assert_eq!(StaticFileSegment::Transactions.tag(), 1);
    assert_eq!(StaticFileSegment::Receipts.tag(), 2);
    assert_eq!(StaticFileSegment::BlockMeta.tag(), 3);
    for segment in StaticFileSegment::iter() {
        assert_eq!(StaticFileSegment::from_tag(segment.tag()), Some(segment));
    }
    assert_eq!(StaticFileSegment::from_tag(4), None);
    assert_eq!(StaticFileSegment::from_tag(u32::MAX), None);
}

#[test]
fn segments_come_in_dependency_order() {
    let all: Vec<StaticFileSegment> = StaticFileSegment::iter().into_iter().collect();
    assert_eq!(
        all,
        vec![
            StaticFileSegment::Headers,
            StaticFileSegment::BlockMeta,
            StaticFileSegment::Transactions,
            StaticFileSegment::Receipts,
        ]
    );
}

#[test]
fn segment_names_and_columns() {
    assert_eq!(StaticFileSegment::Headers.as_str(), "headers");
    assert_eq!(StaticFileSegment::Transactions.as_str(), "transactions");
    assert_eq!(StaticFileSegment::Receipts.as_str(), "receipts");
    assert_eq!(StaticFileSegment::BlockMeta.as_str(), "blockmeta");
    assert_eq!(StaticFileSegment::Headers.columns(), 3);
    assert_eq!(StaticFileSegment::BlockMeta.columns(), 3);
    assert_eq!(StaticFileSegment::Transactions.columns(), 1);
    assert_eq!(StaticFileSegment::Receipts.columns(), 1);
}

#[test]
fn segment_names_are_read_back() {
    for segment in StaticFileSegment::iter() {
        assert_eq!(StaticFileSegment::parse_name(segment.as_str()), Some(segment));
        assert_eq!(segment.as_str().parse::<StaticFileSegment>(), Ok(segment));
    }
    assert_eq!(StaticFileSegment::parse_name("Headers"), None);
    assert_eq!(StaticFileSegment::parse_name("header"), None);
    assert_eq!(StaticFileSegment::parse_name("headerss"), None);
    assert_eq!(StaticFileSegment::parse_name(""), None);
    assert_eq!("block_meta".parse::<StaticFileSegment>(), Err(UnknownSegment));
}

#[test]
fn every_segment_is_block_based_or_tx_based() {
    for segment in StaticFileSegment::iter() {
        assert_ne!(segment.is_block_based(), segment.is_tx_based());
    }
    assert!(StaticFileSegment::Headers.is_block_based());
    assert!(StaticFileSegment::BlockMeta.is_block_based());
    assert!(StaticFileSegment::Transactions.is_tx_based());
    assert!(StaticFileSegment::Receipts.is_tx_based());
    assert!(StaticFileSegment::Headers.is_headers());
    assert!(!StaticFileSegment::Receipts.is_headers());
    assert!(StaticFileSegment::BlockMeta.is_block_meta());
    assert!(!StaticFileSegment::Headers.is_block_meta());
    assert!(StaticFileSegment::Receipts.is_receipts());
    assert!(!StaticFileSegment::Transactions.is_receipts());
}

#[test]
fn default_config_is_lz4() {
    for segment in StaticFileSegment::iter() {
        assert_eq!(segment.config().compression, Compression::Lz4);
    }
}

#[test]
fn compression_names() {
    assert_eq!(Compression::Lz4.as_str(), "lz4");
    assert_eq!(Compression::Zstd.as_str(), "zstd");
    assert_eq!(Compression::ZstdWithDictionary.as_str(), "zstd-dict");
    assert_eq!(Compression::Uncompressed.as_str(), "uncompressed");
    assert_eq!(Compression::default(), Compression::Uncompressed);
}

#[test]
fn filename_literals() {
    let range = SegmentRangeInclusive::new(2, 30);
    assert_eq!(StaticFileSegment::Headers.filename(&range), "static_file_headers_2_30");
    assert_eq!(
        StaticFileSegment::Receipts.filename(&SegmentRangeInclusive::new(30, 300)),
        "static_file_receipts_30_300"
    );
    assert_eq!(
        StaticFileSegment::Headers.filename_with_configuration(Compression::Lz4, &range),
        "static_file_headers_2_30_none_lz4"
    );
    assert_eq!(
        StaticFileSegment::BlockMeta
            .filename_with_configuration(Compression::Uncompressed, &range),
        "static_file_blockmeta_2_30_none_uncompressed"
    );
    assert_eq!(
        StaticFileSegment::Transactions.filename(&SegmentRangeInclusive::new(0, u64::MAX)),
        "static_file_transactions_0_18446744073709551615"
    );
    assert_eq!(
        StaticFileSegment::Headers.filename(&SegmentRangeInclusive::new(10, 1000)),
        "static_file_headers_10_1000"
    );
}

#[test]
fn filename_round_trip_over_segments_and_ranges() {
    let bounds = [0u64, 1, 9, 10, 99, 100, 12345, 499_999, u64::MAX - 1, u64::MAX];
    for segment in StaticFileSegment::iter() {
        for (i, start) in bounds.iter().enumerate() {
            for end in &bounds[i..] {
                let range = SegmentRangeInclusive::new(*start, *end);
                let name = segment.filename(&range);
                assert_eq!(StaticFileSegment::parse_filename(&name), Some((segment, range)));
                for compression in [
                    Compression::Lz4,
                    Compression::Zstd,
                    Compression::ZstdWithDictionary,
                    Compression::Uncompressed,
                ] {
                    let name = segment.filename_with_configuration(compression, &range);
                    assert_eq!(
                        StaticFileSegment::parse_filename(&name),
                        Some((segment, range))
                    );
                }
            }
        }
    }
}

#[test]
fn filename_of_an_inverted_range_is_not_read_back() {
    let range = SegmentRangeInclusive::new(5, 2);
    let name = StaticFileSegment::Headers.filename(&range);
    assert_eq!(name, "static_file_headers_5_2");
    assert_eq!(StaticFileSegment::parse_filename(&name), None);
}

#[test]
fn parse_filename_rejections() {
    let parse = StaticFileSegment::parse_filename;
    // prefix
    assert_eq!(parse(""), None);
    assert_eq!(parse("static"), None);
    assert_eq!(parse("static_file"), None);
    assert_eq!(parse("static_files_headers_2_30"), None);
    assert_eq!(parse("Static_file_headers_2_30"), None);
    assert_eq!(parse("file_static_headers_2_30"), None);
    assert_eq!(parse("_static_file_headers_2_30"), None);
    assert_eq!(parse("static__file_headers_2_30"), None);
    assert_eq!(parse("staticfile_headers_2_30"), None);
    // segment
    assert_eq!(parse("static_file_header_2_30"), None);
    assert_eq!(parse("static_file_Headers_2_30"), None);
    assert_eq!(parse("static_file__2_30"), None);
    assert_eq!(parse("static_file_block_meta_2_30"), None);
    // numbers
    assert_eq!(parse("static_file_headers_a_30"), None);
    assert_eq!(parse("static_file_headers_2_b"), None);
    assert_eq!(parse("static_file_headers_2_30x"), None);
    assert_eq!(parse("static_file_headers_-2_30"), None);
    assert_eq!(parse("static_file_headers_2_ 30"), None);
    assert_eq!(parse("static_file_headers_2.0_30"), None);
    assert_eq!(parse("static_file_headers__30"), None);
    assert_eq!(parse("static_file_headers_+_30"), None);
    assert_eq!(parse("static_file_headers_++2_30"), None);
    assert_eq!(parse("static_file_headers_2_18446744073709551616"), None);
    assert_eq!(parse("static_file_headers_2_99999999999999999999999"), None);
    assert_eq!(parse("static_file_headers_\u{0662}_30"), None);
    // order
    assert_eq!(parse("static_file_headers_31_30"), None);
    assert_eq!(parse("static_file_headers_1_0"), None);
}

#[test]
fn parse_filename_tolerance() {
    let parse = StaticFileSegment::parse_filename;
    let want = Some((StaticFileSegment::Headers, SegmentRangeInclusive::new(2, 30)));
    assert_eq!(parse("static_file_headers_2_30"), want);
    assert_eq!(parse("static_file_headers_2_30_"), want);
    assert_eq!(parse("static_file_headers_2_30_anything_at_all"), want);
    assert_eq!(parse("static_file_headers_2_30__"), want);
    assert_eq!(parse("static_file_headers_+2_+30"), want);
    assert_eq!(parse("static_file_headers_002_0030"), want);
    assert_eq!(
        parse("static_file_headers_0000000000000000000000000002_30"),
        want
    );
    assert_eq!(
        parse("static_file_blockmeta_7_7"),
        Some((StaticFileSegment::BlockMeta, SegmentRangeInclusive::new(7, 7)))
    );
    assert_eq!(
        parse("static_file_receipts_0_18446744073709551615"),
        Some((StaticFileSegment::Receipts, SegmentRangeInclusive::new(0, u64::MAX)))
    );
}

#[test]
fn range_accessors_and_text() {
    let range = SegmentRangeInclusive::new(5, 7);
    assert_eq!(range.start(), 5);
    assert_eq!(range.end(), 7);
    assert_eq!(range.to_string(), "5..=7");
    assert_eq!(SegmentRangeInclusive::new(0, u64::MAX).to_string(), "0..=18446744073709551615");
    // The bounds are taken as they come.
    let inverted = SegmentRangeInclusive::new(9, 3);
    assert_eq!(inverted.start(), 9);
    assert_eq!(inverted.end(), 3);
    assert_eq!(inverted.to_string(), "9..=3");
}

#[test]
fn range_conversions() {
    let range: SegmentRangeInclusive = (3..=11).into();
    assert_eq!(range, SegmentRangeInclusive::new(3, 11));
    let back: RangeInclusive<u64> = range.into();
    assert_eq!(back, 3..=11);
    let back: RangeInclusive<u64> = (&range).into();
    assert_eq!(back, 3..=11);
    assert_eq!(range.to_range(), 3..=11);
}
