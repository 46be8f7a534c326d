use paper_utils::sheet::{Sheet, SheetBuilder};
use paper_utils::stream::{MemoryStream, StreamError, StreamReader, FALSE_INDICATOR, TRUE_INDICATOR};

#[test]
fn a_new_builder_is_empty() {
    assert_eq!(SheetBuilder::new().len(), 0);
    assert!(SheetBuilder::new().into_sheet().serialize().is_empty());
    assert!(SheetBuilder::default().into_sheet().serialize().is_empty());
}

#[test]
fn a_boolean_is_one_sentinel_byte() {
    assert_eq!(TRUE_INDICATOR, b'!');
    assert_eq!(FALSE_INDICATOR, b'?');
    assert_eq!(SheetBuilder::new().write_bool(true).into_sheet().serialize(), &[33u8]);
    assert_eq!(SheetBuilder::new().write_bool(false).into_sheet().serialize(), &[63u8]);
}

#[test]
fn a_u8_is_itself() {
    for value in 0..=u8::MAX {
        assert_eq!(SheetBuilder::new().write_u8(value).into_sheet().serialize(), &[value]);
    }
}

#[test]
fn integers_go_little_end_first() {
    let sheet = SheetBuilder::new().write_u16(0x0102).into_sheet();
    assert_eq!(sheet.serialize(), &[0x02u8, 0x01]);

    let sheet = SheetBuilder::new().write_u32(0x0102_0304).into_sheet();
    assert_eq!(sheet.serialize(), &[0x04u8, 0x03, 0x02, 0x01]);

    let sheet = SheetBuilder::new().write_u64(0x0102_0304_0506_0708).into_sheet();
    assert_eq!(sheet.serialize(), &[0x08u8, 0x07, 0x06, 0x05, 0x04, 0x03, 0x02, 0x01]);
}

#[test]
fn integers_are_written_as_std_lays_them_out() {
    for value in [0u16, 1, 255, 256, 0x1234, u16::MAX] {
        let sheet = SheetBuilder::new().write_u16(value).into_sheet();
        assert_eq!(sheet.serialize(), &value.to_le_bytes());
    }
    for value in [0u32, 1, 255, 256, 65_535, 65_536, 0xdead_beef, u32::MAX] {
        let sheet = SheetBuilder::new().write_u32(value).into_sheet();
        assert_eq!(sheet.serialize(), &value.to_le_bytes());
    }
    for value in [0u64, 1, 0xffff_ffff, 0x1_0000_0000, 0x0123_4567_89ab_cdef, u64::MAX] {
        let sheet = SheetBuilder::new().write_u64(value).into_sheet();
        assert_eq!(sheet.serialize(), &value.to_le_bytes());
    }
}

#[test]
fn a_buffer_follows_its_length() {
    let sheet = SheetBuilder::new().write_buf(&[9, 8, 7]).into_sheet();
    assert_eq!(sheet.serialize(), &[3u8, 0, 0, 0, 9, 8, 7]);
}

#[test]
fn the_length_prefix_is_the_length_in_four_bytes() {
    let payload = vec![0xabu8; 0x0001_0203];
    let sheet = SheetBuilder::new().write_buf(&payload).into_sheet();
    let bytes = sheet.serialize();
    assert_eq!(&bytes[..4], &[0x03u8, 0x02, 0x01, 0x00]);
    assert_eq!(&bytes[4..], payload.as_slice());
}

#[test]
fn an_empty_buffer_is_a_zero_prefix_and_nothing_else() {
    let sheet = SheetBuilder::new().write_buf(&[]).into_sheet();
    assert_eq!(sheet.serialize(), &[0u8, 0, 0, 0]);

    let mut stream = MemoryStream::new(sheet.serialize().to_vec());
    let mut reader = StreamReader::new(&mut stream);
    assert_eq!(reader.read_buf().unwrap().as_ref(), &[] as &[u8]);
    assert_eq!(reader.read_u8(), Err(StreamError::ClosedStream));
}

#[test]
fn an_empty_string_is_a_zero_prefix_and_nothing_else() {
    let sheet = SheetBuilder::new().write_str("").into_sheet();
    assert_eq!(sheet.serialize(), &[0u8, 0, 0, 0]);

    let mut stream = MemoryStream::new(sheet.serialize().to_vec());
    let mut reader = StreamReader::new(&mut stream);
    assert_eq!(reader.read_string(), Ok(String::new()));
}

#[test]
fn a_string_is_the_buffer_of_its_utf8() {
    let sheet = SheetBuilder::new().write_str("h\u{e9}!").into_sheet();
    assert_eq!(sheet.serialize(), &[4u8, 0, 0, 0, b'h', 0xc3, 0xa9, b'!']);
}

#[test]
fn fields_follow_each_other_without_padding() {
    let builder = SheetBuilder::new().write_u8(1).write_u16(2).write_u32(3).write_u64(4);
    assert_eq!(builder.len(), 15);
    let sheet = builder.into_sheet();
    assert_eq!(sheet.serialize(), &[1u8, 2, 0, 3, 0, 0, 0, 4, 0, 0, 0, 0, 0, 0, 0]);
}

#[test]
fn the_builder_counts_what_it_holds() {
    let builder = SheetBuilder::new();
    assert_eq!(builder.len(), 0);
    let builder = builder.write_bool(true);
    assert_eq!(builder.len(), 1);
    let builder = builder.write_buf(&[1, 2, 3, 4, 5]);
    assert_eq!(builder.len(), 10);
    let builder = builder.write_str("ab");
    assert_eq!(builder.len(), 16);
}

#[test]
fn the_longest_message_is_a_quarter_of_the_address_space() {
    assert_eq!(SheetBuilder::MAX_LEN, usize::MAX / 4);
}

#[test]
fn a_sheet_hands_out_the_bytes_it_was_made_of() {
    let sheet = Sheet::new(vec![5u8, 6, 7].into_boxed_slice());
    assert_eq!(sheet.serialize(), &[5u8, 6, 7]);
    assert_eq!(sheet.data().as_ref(), &[5u8, 6, 7]);
}

#[test]
fn a_sheet_tells_its_status_without_being_consumed() {
    let ok = SheetBuilder::new().write_bool(true).write_u32(1).into_sheet();
    assert_eq!(ok.status(), Ok(true));
    assert_eq!(ok.serialize().len(), 5);

    let failed = SheetBuilder::new().write_bool(false).into_sheet();
    assert_eq!(failed.status(), Ok(false));

    let request = SheetBuilder::new().write_u8(3).into_sheet();
    assert_eq!(request.status(), Err(StreamError::InvalidData));

    let empty = SheetBuilder::new().into_sheet();
    assert_eq!(empty.status(), Err(StreamError::ClosedStream));
}

#[test]
fn a_successful_response_serializes_and_decodes() {
    let sheet = SheetBuilder::new().write_bool(true).write_u32(42).write_str("ok").into_sheet();
    assert_eq!(sheet.serialize(), &[TRUE_INDICATOR, 42, 0, 0, 0, 2, 0, 0, 0, b'o', b'k']);

    let mut stream = MemoryStream::new(sheet.serialize().to_vec());
    let mut reader = StreamReader::new(&mut stream);
    assert_eq!(reader.read_bool(), Ok(true));
    assert_eq!(reader.read_u32(), Ok(42u32));
    assert_eq!(reader.read_string(), Ok("ok".to_owned()));
}

#[test]
fn a_failed_response_with_an_empty_string_serializes_and_decodes() {
    let sheet = SheetBuilder::new().write_bool(false).write_str("").into_sheet();
    assert_eq!(sheet.serialize(), &[FALSE_INDICATOR, 0, 0, 0, 0]);

    let mut stream = MemoryStream::new(sheet.serialize().to_vec());
    let mut reader = StreamReader::new(&mut stream);
    assert_eq!(reader.read_bool(), Ok(false));
    assert_eq!(reader.read_string(), Ok(String::new()));
}

#[test]
fn a_sheet_written_to_a_stream_arrives_whole() {
    let sheet = SheetBuilder::new().write_bool(true).write_u64(77).write_buf(&[1, 2, 3]).into_sheet();
    for pace in [vec![], vec![1; 40], vec![0, 3, 0, 0, 2, 5], vec![usize::MAX]] {
        let mut stream = MemoryStream::with_pace(Vec::new(), pace);
        assert_eq!(sheet.write(&mut stream), Ok(()));
        assert_eq!(stream.written(), sheet.serialize());
    }
}

#[test]
fn sheets_written_one_after_the_other_stay_in_order() {
    let first = SheetBuilder::new().write_u8(1).into_sheet();
    let second = SheetBuilder::new().write_u16(0x0302).into_sheet();
    let mut stream = MemoryStream::with_pace(Vec::new(), vec![1, 0, 1]);
    assert_eq!(first.write(&mut stream), Ok(()));
    assert_eq!(second.write(&mut stream), Ok(()));
    assert_eq!(stream.written(), &[1u8, 2, 3]);
}

#[test]
fn a_sheet_cannot_be_written_to_a_failed_stream() {
    let sheet = SheetBuilder::new().write_u8(1).into_sheet();
    let mut stream = MemoryStream::new(Vec::new());
    stream.fail();
    assert_eq!(sheet.write(&mut stream), Err(StreamError::InvalidStream));
    assert!(stream.written().is_empty());

    let empty = SheetBuilder::new().into_sheet();
    assert_eq!(empty.write(&mut stream), Ok(()));
}
