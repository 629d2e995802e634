//! The two error tiers: format errors of the JED text, and errors of the
//! device-level interpretation of a fuse array.
use vstd::prelude::*;
use vstd::string::StringExecFns;
use crate::text::{b2s, bit_char, bits_text, decimal_text, push_bits, push_decimal};

verus! {

/// Where a byte sequence stopped being valid UTF-8.
#[derive(Debug, Clone, Copy, PartialEq, Eq)]
pub struct Utf8Fault {
    /// Length of the longest prefix that is valid UTF-8.
    pub valid_up_to: usize,
    /// Length of the invalid sequence that starts at `valid_up_to`, or
    /// `None` when the input ended in the middle of a sequence.
    pub error_len: Option<usize>,
}

/// The message that describes a UTF-8 fault.
pub open spec fn utf8_fault_message(f: Utf8Fault) -> Seq<char> {
    match f.error_len {
        Some(n) => "invalid utf-8 sequence of "@ + decimal_text(n as nat) + " bytes from index "@
            + decimal_text(f.valid_up_to as nat),
        None => "incomplete utf-8 byte sequence from index "@ + decimal_text(
            f.valid_up_to as nat,
        ),
    }
}

impl Utf8Fault {
    /// Human-readable description of the fault.
    pub fn message(&self) -> (r: String)
        ensures
            r@ == utf8_fault_message(*self),
    {
        match self.error_len {
            Some(n) => {
                let mut s = String::from_str("invalid utf-8 sequence of ");
                push_decimal(&mut s, n);
                s.append(" bytes from index ");
                push_decimal(&mut s, self.valid_up_to);
                s
            },
            None => {
                let mut s = String::from_str("incomplete utf-8 byte sequence from index ");
                push_decimal(&mut s, self.valid_up_to);
                s
            },
        }
    }
}

/// Errors that can occur when parsing a .jed file
#[derive(Debug, Clone, Copy, PartialEq, Eq)]
pub enum JedParserError {
    /// No STX byte found
    MissingSTX,
    /// No ETX byte found
    MissingETX,
    /// An invalid UTF-8 sequence occurred
    InvalidUtf8(Utf8Fault),
    /// A field contains a character not appropriate for that field (e.g. non-hex digit in a hex field)
    InvalidCharacter,
    /// An unexpected end of file was encountered in the file checksum
    UnexpectedEnd,
    /// The file checksum was incorrect
    BadFileChecksum,
    /// The fuse checksum (`C` field) was nonzero and incorrect
    BadFuseChecksum,
    /// A `L` field index was out of range
    InvalidFuseIndex,
    /// There was no `QF` field
    MissingQF,
    /// There was no `F` field, but not all fuses had a value specified
    MissingF,
    /// There was a field that this program does not recognize
    UnrecognizedField,
}

/// The short description of each format error.
pub open spec fn jed_description(e: JedParserError) -> Seq<char> {
    match e {
        JedParserError::MissingSTX => "STX not found"@,
        JedParserError::MissingETX => "ETX not found"@,
        JedParserError::InvalidUtf8(_) => "invalid utf8 character"@,
        JedParserError::InvalidCharacter => "invalid character in field"@,
        JedParserError::UnexpectedEnd => "unexpected end of file"@,
        JedParserError::BadFileChecksum => "invalid file checksum"@,
        JedParserError::BadFuseChecksum => "invalid fuse checksum"@,
        JedParserError::InvalidFuseIndex => "invalid fuse index value"@,
        JedParserError::MissingQF => "missing QF field"@,
        JedParserError::MissingF => "missing F field"@,
        JedParserError::UnrecognizedField => "unrecognized field"@,
    }
}

/// The full message of a format error: its description, followed by the
/// description of its cause when it has one.
pub open spec fn jed_message(e: JedParserError) -> Seq<char> {
    match e {
        JedParserError::InvalidUtf8(f) => jed_description(e) + ": "@ + utf8_fault_message(f),
        _ => jed_description(e),
    }
}

impl JedParserError {
    /// Short description of the error.
    pub fn description(&self) -> (r: &'static str)
        ensures
            r@ == jed_description(*self),
    {
        match *self {
            JedParserError::MissingSTX => "STX not found",
            JedParserError::MissingETX => "ETX not found",
            JedParserError::InvalidUtf8(_) => "invalid utf8 character",
            JedParserError::InvalidCharacter => "invalid character in field",
            JedParserError::UnexpectedEnd => "unexpected end of file",
            JedParserError::BadFileChecksum => "invalid file checksum",
            JedParserError::BadFuseChecksum => "invalid fuse checksum",
            JedParserError::InvalidFuseIndex => "invalid fuse index value",
            JedParserError::MissingQF => "missing QF field",
            JedParserError::MissingF => "missing F field",
            JedParserError::UnrecognizedField => "unrecognized field",
        }
    }

    /// The underlying fault that caused this error, if any.
    pub fn cause(&self) -> (r: Option<Utf8Fault>)
        ensures
            r == (match *self {
                JedParserError::InvalidUtf8(f) => Some(f),
                _ => None,
            }),
    {
        match *self {
            JedParserError::InvalidUtf8(f) => Some(f),
            _ => None,
        }
    }

    /// Full message: the description, then the cause's message if there is one.
    pub fn message(&self) -> (r: String)
        ensures
            r@ == jed_message(*self),
    {
        let mut s = String::from_str(self.description());
        match self.cause() {
            Some(f) => {
                s.append(": ");
                let m = f.message();
                s.append(m.as_str());
            },
            None => {},
        }
        s
    }
}

impl From<Utf8Fault> for JedParserError {
    fn from(err: Utf8Fault) -> (r: Self) {
        JedParserError::InvalidUtf8(err)
    }
}

impl vstd::std_specs::convert::FromSpecImpl<Utf8Fault> for JedParserError {
    open spec fn obeys_from_spec() -> bool {
        true
    }

    open spec fn from_spec(v: Utf8Fault) -> JedParserError {
        JedParserError::InvalidUtf8(v)
    }
}

/// Errors that can occur when parsing a bitstream
#[derive(Debug, PartialEq, Eq)]
pub enum XC2BitError {
    /// The .jed file could not be parsed
    JedParseError(JedParserError),
    /// The device name is invalid
    BadDeviceName(String),
    /// The number of fuses was incorrect for the device
    WrongFuseCount,
    /// An unknown value was used in the `Oe` field
    UnsupportedOeConfiguration((bool, bool, bool, bool)),
    /// An unknown value was used in the ZIA selection bits
    UnsupportedZIAConfiguration(Vec<bool>),
}

/// The short description of each device-level error.
pub open spec fn xc2_description(e: XC2BitError) -> Seq<char> {
    match e {
        XC2BitError::JedParseError(_) => ".jed parsing failed"@,
        XC2BitError::BadDeviceName(_) => "device name is invalid/unsupported"@,
        XC2BitError::WrongFuseCount => "wrong number of fuses"@,
        XC2BitError::UnsupportedOeConfiguration(_) => "unknown Oe field value"@,
        XC2BitError::UnsupportedZIAConfiguration(_) => "unknown ZIA selection bit pattern"@,
    }
}

/// The full message of a device-level error, naming the offending value.
pub open spec fn xc2_message(e: XC2BitError) -> Seq<char> {
    match e {
        XC2BitError::JedParseError(inner) => xc2_description(e) + ": "@ + jed_message(inner),
        XC2BitError::BadDeviceName(name) => "device name \""@ + name@
            + "\" is invalid/unsupported"@,
        XC2BitError::WrongFuseCount => xc2_description(e),
        XC2BitError::UnsupportedOeConfiguration(bits) => "unknown Oe field value "@ + seq![
            bit_char(bits.0),
            bit_char(bits.1),
            bit_char(bits.2),
            bit_char(bits.3),
        ],
        XC2BitError::UnsupportedZIAConfiguration(bits) => "unknown ZIA selection bit pattern "@
            + bits_text(bits@),
    }
}

impl XC2BitError {
    /// Short description of the error.
    pub fn description(&self) -> (r: &'static str)
        ensures
            r@ == xc2_description(*self),
    {
        match *self {
            XC2BitError::JedParseError(_) => ".jed parsing failed",
            XC2BitError::BadDeviceName(_) => "device name is invalid/unsupported",
            XC2BitError::WrongFuseCount => "wrong number of fuses",
            XC2BitError::UnsupportedOeConfiguration(_) => "unknown Oe field value",
            XC2BitError::UnsupportedZIAConfiguration(_) => "unknown ZIA selection bit pattern",
        }
    }

    /// The format error that caused this error, if any.
    pub fn cause(&self) -> (r: Option<&JedParserError>)
        ensures
            r == (match *self {
                XC2BitError::JedParseError(e) => Some(&e),
                _ => None,
            }),
    {
        match self {
            XC2BitError::JedParseError(e) => Some(e),
            _ => None,
        }
    }

    /// Full message of the error, naming the offending value where there is one.
    pub fn message(&self) -> (r: String)
        ensures
            r@ == xc2_message(*self),
    {
        match self {
            XC2BitError::JedParseError(inner) => {
                let mut s = String::from_str(self.description());
                s.append(": ");
                let m = inner.message();
                s.append(m.as_str());
                s
            },
            XC2BitError::BadDeviceName(name) => {
                let mut s = String::from_str("device name \"");
                s.append(name.as_str());
                s.append("\" is invalid/unsupported");
                s
            },
            XC2BitError::WrongFuseCount => String::from_str(self.description()),
            XC2BitError::UnsupportedOeConfiguration(bits) => {
                let mut s = String::from_str("unknown Oe field value ");
                s.append(b2s(bits.0));
                s.append(b2s(bits.1));
                s.append(b2s(bits.2));
                s.append(b2s(bits.3));
                proof {
                    assert(s@ =~= xc2_message(*self));
                }
                s
            },
            XC2BitError::UnsupportedZIAConfiguration(bits) => {
                let mut s = String::from_str("unknown ZIA selection bit pattern ");
                push_bits(&mut s, bits);
                s
            },
        }
    }
}

impl From<JedParserError> for XC2BitError {
    fn from(err: JedParserError) -> (r: Self) {
        XC2BitError::JedParseError(err)
    }
}

impl vstd::std_specs::convert::FromSpecImpl<JedParserError> for XC2BitError {
    open spec fn obeys_from_spec() -> bool {
        true
    }

    open spec fn from_spec(v: JedParserError) -> XC2BitError {
        XC2BitError::JedParseError(v)
    }
}

} // verus!
