use redox_kernel::acpi::aml::{
    parse, parse_device, parse_int, parse_length, parse_name, parse_num, parse_package,
    parse_scope, parse_string, AmlItem,
};

#[test]
fn parse_string_takes_the_run_of_string_bytes() {
    let bytes = b"AB_9\\^ rest";
    let mut i = 0;
    assert_eq!(parse_string(bytes, &mut i), b"AB_9\\^".to_vec());
    assert_eq!(i, 6);
    assert_eq!(parse_string(bytes, &mut i), Vec::<u8>::new());
    assert_eq!(i, 6);
    let mut end = 50;
    assert_eq!(parse_string(bytes, &mut end), Vec::<u8>::new());
    assert_eq!(end, 50);
}

#[test]
fn parse_num_is_little_endian() {
    let bytes = [0x34u8, 0x12, 0x78, 0x56, 0xEF, 0xCD, 0xAB, 0x89, 0x01];
    let mut i = 0;
    assert_eq!(parse_num(&bytes, &mut i, 1), 0x34);
    assert_eq!(i, 1);
    i = 0;
    assert_eq!(parse_num(&bytes, &mut i, 2), 0x1234);
    assert_eq!(i, 2);
    i = 0;
    assert_eq!(parse_num(&bytes, &mut i, 4), 0x56781234);
    assert_eq!(i, 4);
    i = 0;
    assert_eq!(parse_num(&bytes, &mut i, 8), 0x89ABCDEF56781234);
    assert_eq!(i, 8);
}

#[test]
fn parse_num_stops_at_the_end() {
    let bytes = [0xFFu8, 0x01];
    let mut i = 1;
    assert_eq!(parse_num(&bytes, &mut i, 4), 0x01);
    assert_eq!(i, 2);
    assert_eq!(parse_num(&bytes, &mut i, 4), 0);
    assert_eq!(i, 2);
    let mut j = 0;
    assert_eq!(parse_num(&bytes, &mut j, 0), 0);
    assert_eq!(j, 0);
}

#[test]
fn parse_length_of_one_byte_has_six_bits() {
    let mut i = 0;
    assert_eq!(parse_length(&[0x3F], &mut i), 63);
    assert_eq!(i, 1);
    i = 0;
    assert_eq!(parse_length(&[0x00], &mut i), 0);
    assert_eq!(i, 1);
    i = 0;
    assert_eq!(parse_length(&[], &mut i), 0);
    assert_eq!(i, 0);
}

#[test]
fn parse_length_of_more_bytes_has_four_bits_in_the_lead() {
    let mut i = 0;
    assert_eq!(parse_length(&[0x48, 0x12], &mut i), 0x128);
    assert_eq!(i, 2);
    i = 0;
    assert_eq!(parse_length(&[0x8F, 0x34, 0x12], &mut i), 0xF + (0x34 << 4) + (0x12 << 12));
    assert_eq!(i, 3);
    i = 0;
    assert_eq!(
        parse_length(&[0xFF, 0xFF, 0xFF, 0xFF, 0xAA], &mut i),
        0xF + (0xFF << 4) + (0xFF << 12) + (0xFF << 20)
    );
    assert_eq!(i, 4);
    // The lead byte announces two bytes and only one is there.
    i = 0;
    assert_eq!(parse_length(&[0x81, 0x02], &mut i), 0x21);
    assert_eq!(i, 2);
}

#[test]
fn parse_int_reads_constants_and_prefixed_numbers() {
    let mut i = 0;
    assert_eq!(parse_int(&[0x00], &mut i), 0);
    assert_eq!(i, 1);
    i = 0;
    assert_eq!(parse_int(&[0x01], &mut i), 1);
    assert_eq!(i, 1);
    i = 0;
    assert_eq!(parse_int(&[0x0A, 0x2A], &mut i), 42);
    assert_eq!(i, 2);
    i = 0;
    assert_eq!(parse_int(&[0x0B, 0x34, 0x12], &mut i), 0x1234);
    assert_eq!(i, 3);
    i = 0;
    assert_eq!(parse_int(&[0x0C, 1, 0, 0, 0x80], &mut i), 0x80000001);
    assert_eq!(i, 5);
    i = 0;
    assert_eq!(parse_int(&[0x0E, 1, 2, 3, 4, 5, 6, 7, 8], &mut i), 0x0807060504030201);
    assert_eq!(i, 9);
    i = 0;
    assert_eq!(parse_int(&[0x77, 0x2A], &mut i), 0);
    assert_eq!(i, 1);
    i = 3;
    assert_eq!(parse_int(&[0x01], &mut i), 0);
    assert_eq!(i, 3);
}

#[test]
fn parse_name_of_one_segment() {
    let mut i = 0;
    assert_eq!(parse_name(b"_SB_", &mut i), b"_SB".to_vec());
    assert_eq!(i, 4);
    i = 0;
    assert_eq!(parse_name(b"PCI0", &mut i), b"PCI0".to_vec());
    assert_eq!(i, 4);
    i = 0;
    assert_eq!(parse_name(b"AB", &mut i), b"AB".to_vec());
    assert_eq!(i, 4);
}

#[test]
fn parse_name_with_prefixes_and_more_segments() {
    let mut i = 0;
    assert_eq!(parse_name(b"\\_SB_", &mut i), b"\\._SB".to_vec());
    assert_eq!(i, 5);
    i = 0;
    assert_eq!(parse_name(b"^^PCI0", &mut i), b"^^.PCI0".to_vec());
    assert_eq!(i, 6);
    i = 0;
    assert_eq!(parse_name(b"\x2E_SB_PCI0", &mut i), b"_SB.PCI0".to_vec());
    assert_eq!(i, 9);
    i = 0;
    assert_eq!(parse_name(b"\x2F\x03A___B___C___", &mut i), b"A.B.C".to_vec());
    assert_eq!(i, 14);
    i = 0;
    assert_eq!(parse_name(b"\x00ABCD", &mut i), Vec::<u8>::new());
    assert_eq!(i, 1);
    i = 0;
    assert_eq!(parse_name(b"\\\x00", &mut i), b"\\".to_vec());
    assert_eq!(i, 2);
    i = 0;
    assert_eq!(parse_name(b"\x2F", &mut i), Vec::<u8>::new());
    assert_eq!(i, 1);
}

#[test]
fn parse_name_stops_a_segment_at_an_unknown_byte() {
    let mut i = 0;
    assert_eq!(parse_name(b"A!CD", &mut i), b"A".to_vec());
    assert_eq!(i, 4);
    i = 7;
    assert_eq!(parse_name(b"ABCD", &mut i), Vec::<u8>::new());
    assert_eq!(i, 7);
}

#[test]
fn parse_package_reports_its_elements() {
    // length 8, three elements: a byte, a nested empty package, a name.
    let bytes = [0x0Bu8, 0x03, 0x0A, 0x07, 0x12, 0x02, 0x00, b'A', b'B', b'C', b'D'];
    let mut i = 0;
    let items = parse_package(&bytes, &mut i);
    assert_eq!(i, 11);
    assert_eq!(
        items,
        vec![
            AmlItem::Package(3),
            AmlItem::Byte(7),
            AmlItem::Package(0),
            AmlItem::End,
            AmlItem::Path(b"ABCD".to_vec()),
            AmlItem::End,
        ]
    );
}

#[test]
fn parse_package_ends_where_its_length_says() {
    // The length covers the length byte and the count only.
    let bytes = [0x02u8, 0x05, 0x00, 0x01];
    let mut i = 0;
    let items = parse_package(&bytes, &mut i);
    assert_eq!(i, 2);
    assert_eq!(items, vec![AmlItem::Package(5), AmlItem::End]);
}

#[test]
fn parse_device_reports_its_terms() {
    let mut bytes = vec![0x00u8];
    bytes.extend_from_slice(b"DEV0");
    bytes.extend_from_slice(&[0x08]);
    bytes.extend_from_slice(b"_HID");
    bytes.extend_from_slice(&[0x0C, 0x41, 0xD0, 0x0A, 0x03]);
    bytes.extend_from_slice(&[0x0D]);
    bytes.extend_from_slice(b"TXT");
    bytes.extend_from_slice(&[0x14, 0x06]);
    bytes.extend_from_slice(b"_STA");
    bytes.extend_from_slice(&[0x02]);
    bytes.extend_from_slice(&[0x11, 0x03, 0x0A, 0x10]);
    bytes.extend_from_slice(&[0x5B, 0x80]);
    bytes.extend_from_slice(b"REG0");
    bytes.extend_from_slice(&[0x01, 0x0A, 0x20, 0x0B, 0x00, 0x01]);
    bytes.extend_from_slice(&[0x5B, 0x55]);
    bytes.extend_from_slice(&[0xEE, 0x00]);
    bytes[0] = 0x3F;
    let mut i = 0;
    let items = parse_device(&bytes, &mut i);
    assert_eq!(i, 0x3F);
    assert_eq!(
        items,
        vec![
            AmlItem::Device(b"DEV0".to_vec()),
            AmlItem::Name(b"_HID".to_vec()),
            AmlItem::DWord(0x030AD041),
            AmlItem::Text(b"TXT".to_vec()),
            AmlItem::Method { name: b"_STA".to_vec(), flags: 2 },
            AmlItem::Buffer(16),
            AmlItem::OpRegion { name: b"REG0".to_vec(), space: 1, offset: 0x20, size: 0x100 },
            AmlItem::UnknownExt(0x55),
            AmlItem::Unknown(0xEE),
            AmlItem::End,
        ]
    );
}

#[test]
fn parse_scope_reports_nested_blocks() {
    let mut inner = vec![0x00u8];
    inner.extend_from_slice(b"CPU0");
    inner.extend_from_slice(&[0x00, 0x01]);
    inner[0] = inner.len() as u8;

    let mut field = vec![0x00u8];
    field.extend_from_slice(b"FLD0");
    field.extend_from_slice(&[0x01]);
    field.extend_from_slice(b"AAAA");
    field.extend_from_slice(&[0x08]);
    field.extend_from_slice(b"BBBB");
    field.extend_from_slice(&[0x10]);
    field[0] = field.len() as u8;

    let mut bytes = vec![0x00u8, 0x00];
    bytes.extend_from_slice(b"\\\x00");
    bytes.extend_from_slice(&[0x00, 0x01, 0x0A, 0x2A, 0x0B, 0x34, 0x12]);
    bytes.extend_from_slice(&[0x0E, 1, 0, 0, 0, 0, 0, 0, 0]);
    bytes.push(0x10);
    bytes.extend_from_slice(&[0x05]);
    bytes.extend_from_slice(b"_PR_");
    bytes.extend_from_slice(&[0x5B, 0x82]);
    bytes.extend_from_slice(&inner);
    bytes.extend_from_slice(&[0x5B, 0x01]);
    bytes.extend_from_slice(b"MTX0");
    bytes.push(0x07);
    bytes.extend_from_slice(&[0x5B, 0x81]);
    bytes.extend_from_slice(&field);
    bytes.extend_from_slice(&[0x5B, 0x83, 0x0B]);
    bytes.extend_from_slice(b"PRC0");
    bytes.extend_from_slice(&[0, 0, 0, 0, 0, 0]);
    bytes[0] = 0x40 | (bytes.len() & 0x0F) as u8;
    bytes[1] = (bytes.len() >> 4) as u8;
    let mut i = 0;
    let items = parse_scope(&bytes, &mut i);
    assert_eq!(i, bytes.len());
    assert_eq!(
        items,
        vec![
            AmlItem::Scope(b"\\".to_vec()),
            AmlItem::Zero,
            AmlItem::One,
            AmlItem::Byte(42),
            AmlItem::Word(0x1234),
            AmlItem::QWord(1),
            AmlItem::Scope(b"_PR".to_vec()),
            AmlItem::End,
            AmlItem::Device(b"CPU0".to_vec()),
            AmlItem::Zero,
            AmlItem::One,
            AmlItem::End,
            AmlItem::Mutex { name: b"MTX0".to_vec(), flags: 7 },
            AmlItem::Field { name: b"FLD0".to_vec(), flags: 1 },
            AmlItem::FieldUnit { name: b"AAAA".to_vec(), length: 8 },
            AmlItem::FieldUnit { name: b"BBBB".to_vec(), length: 16 },
            AmlItem::End,
            AmlItem::Processor(b"PRC0".to_vec()),
            AmlItem::End,
        ]
    );
}

#[test]
fn a_device_does_not_know_scopes_and_mutexes() {
    let mut bytes = vec![0x0Bu8];
    bytes.extend_from_slice(b"DEV0");
    bytes.extend_from_slice(&[0x5B, 0x01, 0x00, 0x10, 0x00, 0x00]);
    let mut i = 0;
    let items = parse_device(&bytes, &mut i);
    assert_eq!(i, 11);
    assert_eq!(
        items,
        vec![
            AmlItem::Device(b"DEV0".to_vec()),
            AmlItem::UnknownExt(0x01),
            AmlItem::Zero,
            AmlItem::Unknown(0x10),
            AmlItem::End,
        ]
    );
}

#[test]
fn parse_reads_scopes_up_to_an_unknown_operation() {
    let mut bytes = vec![0x10u8, 0x06];
    bytes.extend_from_slice(b"_SB_");
    bytes.push(0x01);
    bytes.extend_from_slice(&[0x10, 0x05]);
    bytes.extend_from_slice(b"_TZ_");
    bytes.extend_from_slice(&[0x42, 0x10]);
    let items = parse(&bytes);
    assert_eq!(
        items,
        vec![
            AmlItem::Scope(b"_SB".to_vec()),
            AmlItem::One,
            AmlItem::End,
            AmlItem::Scope(b"_TZ".to_vec()),
            AmlItem::End,
            AmlItem::Unknown(0x42),
        ]
    );
    assert_eq!(parse(&[]), Vec::<AmlItem>::new());
}
