use xc2bit::errors::{JedParserError, Utf8Fault, XC2BitError};
use xc2bit::text::b2s;

#[test]
fn chained_message() {
    let e = XC2BitError::JedParseError(JedParserError::BadFuseChecksum);
    assert_eq!(e.message(), ".jed parsing failed: invalid fuse checksum");
    assert_eq!(e.description(), ".jed parsing failed");
    assert_eq!(e.cause(), Some(&JedParserError::BadFuseChecksum));
}

#[test]
fn jed_descriptions() {
    let all = [
        (JedParserError::MissingSTX, "STX not found"),
        (JedParserError::MissingETX, "ETX not found"),
        (JedParserError::InvalidCharacter, "invalid character in field"),
        (JedParserError::UnexpectedEnd, "unexpected end of file"),
        (JedParserError::BadFileChecksum, "invalid file checksum"),
        (JedParserError::BadFuseChecksum, "invalid fuse checksum"),
        (JedParserError::InvalidFuseIndex, "invalid fuse index value"),
        (JedParserError::MissingQF, "missing QF field"),
        (JedParserError::MissingF, "missing F field"),
        (JedParserError::UnrecognizedField, "unrecognized field"),
    ];
    for (e, d) in all.iter() {
        assert_eq!(e.description(), *d);
        assert_eq!(e.message(), *d);
        assert_eq!(e.cause(), None);
    }
}

#[test]
fn utf8_messages() {
    let f = Utf8Fault { valid_up_to: 1234, error_len: Some(2) };
    let e: JedParserError = f.into();
    assert_eq!(e, JedParserError::InvalidUtf8(f));
    assert_eq!(e.cause(), Some(f));
    assert_eq!(
        e.message(),
        "invalid utf8 character: invalid utf-8 sequence of 2 bytes from index 1234"
    );
    let g = Utf8Fault { valid_up_to: 0, error_len: None };
    assert_eq!(g.message(), "incomplete utf-8 byte sequence from index 0");
}

#[test]
fn device_messages() {
    assert_eq!(
        XC2BitError::BadDeviceName("XC9999".to_string()).message(),
        "device name \"XC9999\" is invalid/unsupported"
    );
    assert_eq!(XC2BitError::WrongFuseCount.message(), "wrong number of fuses");
    assert_eq!(
        XC2BitError::UnsupportedOeConfiguration((false, true, true, false)).message(),
        "unknown Oe field value 0110"
    );
    assert_eq!(
        XC2BitError::UnsupportedZIAConfiguration(vec![true, true, false, true, false]).message(),
        "unknown ZIA selection bit pattern 11010"
    );
    assert_eq!(
        XC2BitError::UnsupportedZIAConfiguration(vec![]).description(),
        "unknown ZIA selection bit pattern"
    );
    assert_eq!(XC2BitError::WrongFuseCount.cause(), None);
}

#[test]
fn bit_text() {
    assert_eq!(b2s(true), "1");
    assert_eq!(b2s(false), "0");
}
