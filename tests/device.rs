use xc2bit::device::{decode_device, decode_entry, DeviceConfiguration, DeviceEntry, ZiaRow};
use xc2bit::errors::{JedParserError, XC2BitError};
use xc2bit::fields::FuseArray;
use xc2bit::jed::{file_checksum, locate_frame, parse_jed};

const OE_TABLE: [(bool, bool, bool, bool); 10] = [
    (false, false, false, false),
    (false, false, false, true),
    (false, false, true, false),
    (false, true, false, false),
    (false, true, true, false),
    (true, false, false, false),
    (true, false, true, false),
    (true, true, false, false),
    (true, true, true, false),
    (true, true, true, true),
];

fn bits(s: &str) -> Vec<bool> {
    s.chars().map(|c| c == '1').collect()
}

fn row(offset: usize, patterns: &[&str]) -> ZiaRow {
    ZiaRow { offset, width: 4, patterns: patterns.iter().map(|p| bits(p)).collect() }
}

fn test_device() -> DeviceEntry {
    DeviceEntry::new(
        "XC2TEST".to_string(),
        16,
        0,
        OE_TABLE.to_vec(),
        vec![
            row(4, &["0000", "1010"]),
            row(8, &["1100"]),
            row(12, &["1111", "0000"]),
        ],
    )
    .unwrap()
}

fn big_device() -> DeviceEntry {
    DeviceEntry::new("XC2BIG".to_string(), 2048, 100, OE_TABLE.to_vec(), vec![]).unwrap()
}

#[test]
fn reference_file_decodes() {
    let input = b"\x02\r\nQF16*F0*\r\nL0 0110 1010*\r\nL8 11000000*\r\n\x0306E3";
    let fuses = parse_jed(input).unwrap();
    let table = vec![big_device(), test_device()];
    assert_eq!(
        decode_device(&fuses, "XC2TEST", &table),
        Ok(DeviceConfiguration { oe: 4, zia: vec![1, 0, 1] })
    );
    let (a, z) = locate_frame(input).unwrap();
    assert_eq!(file_checksum(input, a, z), 0x06e3);
}

#[test]
fn empty_device_name_is_rejected() {
    let input = b"\x02QF4*F0*L0 1010*C0*\x0303BF";
    let fuses = parse_jed(input).unwrap();
    assert_eq!(fuses.fuses, vec![true, false, true, false]);
    let table = vec![test_device(), big_device()];
    assert_eq!(
        decode_device(&fuses, "", &table),
        Err(XC2BitError::BadDeviceName(String::new()))
    );
    assert_eq!(
        decode_device(&fuses, "XC2C32A", &table),
        Err(XC2BitError::BadDeviceName("XC2C32A".to_string()))
    );
}

#[test]
fn wrong_fuse_count() {
    let fuses = FuseArray { fuses: vec![false; 100] };
    let table = vec![test_device(), big_device()];
    assert_eq!(decode_device(&fuses, "XC2BIG", &table), Err(XC2BitError::WrongFuseCount));
    assert_eq!(decode_entry(&fuses, &table[0]), Err(XC2BitError::WrongFuseCount));
}

#[test]
fn right_fuse_count_without_rows() {
    let mut f = vec![false; 2048];
    f[100] = true;
    f[101] = true;
    let fuses = FuseArray { fuses: f };
    assert_eq!(
        decode_device(&fuses, "XC2BIG", &vec![big_device()]),
        Ok(DeviceConfiguration { oe: 7, zia: vec![] })
    );
}

#[test]
fn every_unlisted_oe_value_is_reported_verbatim() {
    let dev = test_device();
    let mut unlisted = 0;
    for n in 0..16u32 {
        let t = (n & 8 != 0, n & 4 != 0, n & 2 != 0, n & 1 != 0);
        let mut f = vec![false; 16];
        f[0] = t.0;
        f[1] = t.1;
        f[2] = t.2;
        f[3] = t.3;
        f[8] = true;
        f[9] = true;
        let r = decode_entry(&FuseArray { fuses: f }, &dev);
        match OE_TABLE.iter().position(|&e| e == t) {
            Some(m) => assert_eq!(r, Ok(DeviceConfiguration { oe: m, zia: vec![0, 0, 1] })),
            None => {
                unlisted += 1;
                assert_eq!(r, Err(XC2BitError::UnsupportedOeConfiguration(t)));
            }
        }
    }
    assert_eq!(unlisted, 6);
}

#[test]
fn every_unlisted_zia_pattern_is_reported_verbatim() {
    let dev = test_device();
    for n in 0..16u32 {
        let p = vec![n & 8 != 0, n & 4 != 0, n & 2 != 0, n & 1 != 0];
        let mut f = vec![false; 16];
        f[8..12].copy_from_slice(&p);
        let r = decode_entry(&FuseArray { fuses: f }, &dev);
        if n == 0b1100 {
            assert_eq!(r, Ok(DeviceConfiguration { oe: 0, zia: vec![0, 0, 1] }));
        } else {
            assert_eq!(r, Err(XC2BitError::UnsupportedZIAConfiguration(p)));
        }
    }
}

#[test]
fn first_bad_row_is_reported() {
    let dev = test_device();
    let f = bits("0000011000000101");
    assert_eq!(
        decode_entry(&FuseArray { fuses: f }, &dev),
        Err(XC2BitError::UnsupportedZIAConfiguration(bits("0110")))
    );
}

#[test]
fn first_matching_entry_is_used() {
    let other = DeviceEntry::new("XC2TEST".to_string(), 4, 0, OE_TABLE.to_vec(), vec![]).unwrap();
    let table = vec![other, test_device()];
    let fuses = FuseArray { fuses: vec![false; 16] };
    assert_eq!(decode_device(&fuses, "XC2TEST", &table), Err(XC2BitError::WrongFuseCount));
}

#[test]
fn layout_must_fit() {
    assert!(DeviceEntry::new("A".to_string(), 3, 0, vec![], vec![]).is_none());
    assert!(DeviceEntry::new("A".to_string(), 8, 4, vec![], vec![]).is_some());
    assert!(DeviceEntry::new("A".to_string(), 8, 5, vec![], vec![]).is_none());
    assert!(DeviceEntry::new("A".to_string(), 8, 0, vec![], vec![row(5, &[])]).is_none());
    let d = DeviceEntry::new("A".to_string(), 8, 0, vec![], vec![row(4, &[])]).unwrap();
    assert_eq!(d.name(), "A");
    assert_eq!(d.fuse_count(), 8);
}

#[test]
fn parse_error_converts() {
    let e: XC2BitError = JedParserError::MissingQF.into();
    assert_eq!(e, XC2BitError::JedParseError(JedParserError::MissingQF));
}
