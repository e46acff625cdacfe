use displayd::edid::checksum::valid_checksum;
use displayd::text::trim;
use displayd::edid::error::Error;
use displayd::edid::parse::{parse, ProductionDate};
use displayd::edid::read::{block_address, EdidReader};

const HEADER: [u8; 8] = [0x00, 0xff, 0xff, 0xff, 0xff, 0xff, 0xff, 0x00];

fn fix_checksum(block: &mut [u8; 128]) {
    let sum = block[..127].iter().fold(0u8, |s, &b| s.wrapping_add(b));
    block[127] = 0u8.wrapping_sub(sum);
}

/// A base block for manufacturer "DEL", product 0xa0f1, serial 0x12345678, week 12 of
/// 2020, named "DELL U2720Q".
fn base_block() -> [u8; 128] {
    let mut b = [0u8; 128];
    b[..8].copy_from_slice(&HEADER);
    // D=4, E=5, L=12: 00100 00101 01100 -> 0b0_00100_00101_01100 = 0x10ac
    b[8] = 0x10;
    b[9] = 0xac;
    b[10] = 0xf1;
    b[11] = 0xa0;
    b[12] = 0x78;
    b[13] = 0x56;
    b[14] = 0x34;
    b[15] = 0x12;
    b[16] = 12;
    b[17] = 30;
    // descriptor 2 (offset 72) is the monitor name
    b[72 + 3] = 0xfc;
    let name = b"DELL U2720Q\n ";
    b[72 + 5..72 + 18].copy_from_slice(name);
    fix_checksum(&mut b);
    b
}

#[test]
fn checksum_of_blocks() {
    let b = base_block();
    assert!(valid_checksum(&b));
    let mut bad = b;
    bad[20] = bad[20].wrapping_add(1);
    assert!(!valid_checksum(&bad));
    assert!(!valid_checksum(&b[..127]));
    assert!(!valid_checksum(&[]));
    let zeros = [0u8; 128];
    assert!(valid_checksum(&zeros));
    let mut long = b.to_vec();
    long.push(0);
    assert!(!valid_checksum(&long));
}

#[test]
fn parse_base_block() {
    let data = parse(&base_block()).unwrap();
    assert_eq!(data.id, "DEL");
    assert_eq!(data.name.as_deref(), Some("DELL U2720Q"));
    assert_eq!(data.product_code, 0xa0f1);
    assert_eq!(data.serial_number, 0x12345678);
    assert_eq!(data.production_date, ProductionDate::Manufacture { week: 12, year: 2020 });
}

#[test]
fn parse_model_year_and_no_name() {
    let mut b = base_block();
    b[16] = 0xff;
    b[17] = 0;
    b[72 + 3] = 0xfd;
    let data = parse(&b).unwrap();
    assert_eq!(data.production_date, ProductionDate::ModelYear { year: 1990 });
    assert!(data.name.is_none());
}

#[test]
fn parse_takes_the_first_name_descriptor() {
    let mut b = base_block();
    b[54 + 3] = 0xfc;
    b[54 + 5..54 + 18].copy_from_slice(b"  ABC\0DEFGHIJ");
    let data = parse(&b).unwrap();
    assert_eq!(data.name.as_deref(), Some("ABC"));
}

#[test]
fn parse_name_without_terminator() {
    let mut b = base_block();
    b[108 + 3] = 0xfc;
    b[72 + 3] = 0x00;
    b[108 + 5..108 + 18].copy_from_slice(b"ABCDEFGHIJKLM");
    let data = parse(&b).unwrap();
    assert_eq!(data.name.as_deref(), Some("ABCDEFGHIJKLM"));
}

#[test]
fn parse_refuses_short_data() {
    assert!(matches!(parse(&base_block()[..127]), Err(Error::InvalidReturnData)));
    assert!(matches!(parse(&[]), Err(Error::InvalidReturnData)));
}

#[test]
fn parse_refuses_bad_manufacturer_letters() {
    let mut b = base_block();
    b[8] = 0x00; // first letter code 0
    assert!(matches!(parse(&b), Err(Error::InvalidReturnData)));
    let mut b = base_block();
    b[9] = (b[9] & 0xe0) | 27; // third letter code 27
    assert!(matches!(parse(&b), Err(Error::InvalidReturnData)));
    let mut b = base_block();
    b[8] = 0x68; // 0b0_11010_00 -> first letter code 26 = 'Z'
    b[9] = 0x21; // second 0b00001 = 'A', third 0b00001 = 'A'
    assert_eq!(parse(&b).unwrap().id, "ZAA");
}

#[test]
fn block_addresses() {
    let a = block_address(0);
    assert_eq!((a.segment, a.offset), (None, 0));
    let a = block_address(1);
    assert_eq!((a.segment, a.offset), (None, 128));
    let a = block_address(2);
    assert_eq!((a.segment, a.offset), (Some(1), 0));
    let a = block_address(5);
    assert_eq!((a.segment, a.offset), (Some(2), 128));
}

#[test]
fn reader_without_extensions() {
    let mut reader = EdidReader::new();
    assert_eq!(reader.next_block(), Some(0));
    reader.accept_block(&base_block()).unwrap();
    assert_eq!(reader.next_block(), None);
    assert_eq!(reader.into_edid(), base_block().to_vec());
}

#[test]
fn reader_with_extensions() {
    let mut base = base_block();
    base[126] = 2;
    fix_checksum(&mut base);
    let mut ext = [0u8; 128];
    ext[0] = 0x02;
    ext[1] = 0x03;
    fix_checksum(&mut ext);

    let mut reader = EdidReader::new();
    reader.accept_block(&base).unwrap();
    assert_eq!(reader.next_block(), Some(1));
    reader.accept_block(&ext).unwrap();
    assert_eq!(reader.next_block(), Some(2));
    let mut bad = ext;
    bad[5] = 1;
    assert!(matches!(reader.accept_block(&bad), Err(Error::InvalidChecksum)));
    assert_eq!(reader.next_block(), Some(2));
    reader.accept_block(&ext).unwrap();
    assert_eq!(reader.next_block(), None);
    let edid = reader.into_edid();
    assert_eq!(edid.len(), 384);
    assert_eq!(&edid[..128], &base[..]);
    assert_eq!(&edid[256..], &ext[..]);
}

#[test]
fn reader_refuses_a_base_block_without_header() {
    let mut b = base_block();
    b[0] = 0x01;
    fix_checksum(&mut b);
    let mut reader = EdidReader::new();
    assert!(matches!(reader.accept_block(&b), Err(Error::InvalidReturnData)));
    assert_eq!(reader.next_block(), Some(0));
    let mut b = base_block();
    b[100] ^= 0x40;
    assert!(matches!(reader.accept_block(&b), Err(Error::InvalidChecksum)));
    assert_eq!(reader.next_block(), Some(0));
}

#[test]
fn parse_trims_unicode_white_space_from_names() {
    let mut b = base_block();
    // no-break space (UTF-8 c2 a0), the name, a tab, then a terminator
    b[72 + 5..72 + 18].copy_from_slice(b"\xc2\xa0AB C\t\x0a     ");
    let data = parse(&b).unwrap();
    assert_eq!(data.name.as_deref(), Some("AB C"));
}

#[test]
fn trim_strips_white_space_at_both_ends() {
    assert_eq!(trim("  a b\t\n"), "a b");
    assert_eq!(trim("\u{3000}x\u{a0}"), "x");
    assert_eq!(trim("\u{200b}x"), "\u{200b}x");
    assert_eq!(trim("   "), "");
    assert_eq!(trim(""), "");
}
