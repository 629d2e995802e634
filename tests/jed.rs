use xc2bit::errors::{JedParserError, Utf8Fault};
use xc2bit::fields::{parse_fields, FuseArray, JedFields};
use xc2bit::jed::{check_frame, file_checksum, locate_frame, parse_jed};

fn framed(body: &[u8]) -> Vec<u8> {
    let mut v = vec![0x02u8];
    v.extend_from_slice(body);
    v.push(0x03);
    let sum: u32 = v.iter().map(|&b| b as u32).sum();
    v.extend_from_slice(format!("{:04X}", sum % 0x10000).as_bytes());
    v
}

fn fuses(bits: &[u8]) -> FuseArray {
    FuseArray { fuses: bits.iter().map(|&b| b == 1).collect() }
}

#[test]
fn small_file_parses() {
    let input = b"\x02QF4*F0*L0 1010*C0*\x0303BF";
    assert_eq!(parse_jed(input), Ok(fuses(&[1, 0, 1, 0])));
}

#[test]
fn small_file_with_space_before_checksum_is_rejected() {
    let input = b"\x02QF4*F0*L0 1010*C0*\x03 0000";
    assert_eq!(parse_jed(input), Err(JedParserError::InvalidCharacter));
}

#[test]
fn zero_file_checksum_is_checked() {
    let input = b"\x02QF4*F0*L0 1010*C0*\x030000";
    assert_eq!(parse_jed(input), Err(JedParserError::BadFileChecksum));
}

#[test]
fn missing_stx() {
    let input = b"QF4*F0*L0 1010*C0*\x03 0000";
    assert_eq!(parse_jed(input), Err(JedParserError::MissingSTX));
    assert_eq!(locate_frame(input), Err(JedParserError::MissingSTX));
}

#[test]
fn missing_etx() {
    let input = b"\x02QF4*F0*L0 1010*C0*";
    assert_eq!(parse_jed(input), Err(JedParserError::MissingETX));
}

#[test]
fn etx_before_stx_is_not_the_frame_end() {
    let input = b"\x03\x02QF4*F0*";
    assert_eq!(parse_jed(input), Err(JedParserError::MissingETX));
}

#[test]
fn checksum_cut_short() {
    let input = b"\x02QF4*F0*\x0312";
    assert_eq!(parse_jed(input), Err(JedParserError::UnexpectedEnd));
}

#[test]
fn frame_bounds_and_checksum() {
    let input = b"xx\x02QF4*F0*L0 1010*C0*\x0303BFyy";
    assert_eq!(locate_frame(input), Ok((2, 21)));
    assert_eq!(file_checksum(input, 2, 21), 0x03bf);
    assert_eq!(check_frame(input), Ok((3, 21)));
}

#[test]
fn lower_case_checksum_digits() {
    let input = b"\x02QF4*F0*L0 1010*C0*\x0303bf";
    assert_eq!(parse_jed(input), Ok(fuses(&[1, 0, 1, 0])));
}

#[test]
fn fuse_checksum_checked_when_nonzero() {
    let input = b"\x02QF4*F0*L0 1010*C0005*\x030454";
    assert_eq!(parse_jed(input), Ok(fuses(&[1, 0, 1, 0])));
    assert_eq!(
        parse_jed(&framed(b"QF4*F0*L0 1010*C0006*")),
        Err(JedParserError::BadFuseChecksum)
    );
}

#[test]
fn fuse_checksum_packs_bytes() {
    // ten set fuses: 0xff for the first byte, 0x03 for the second
    assert_eq!(parse_fields(b"QF10*F1*C0102*").map(|f| f.fuses.len()), Ok(10));
    assert_eq!(parse_fields(b"QF10*F1*C0101*"), Err(JedParserError::BadFuseChecksum));
}

#[test]
fn multiline_body() {
    let input = framed(b"\r\nQF16*F0*\r\nL0 0110 1010*\r\nL8 11000000*\r\n");
    assert_eq!(
        parse_jed(&input),
        Ok(fuses(&[0, 1, 1, 0, 1, 0, 1, 0, 1, 1, 0, 0, 0, 0, 0, 0]))
    );
    assert_eq!(&input[input.len() - 4..], b"06E3");
}

#[test]
fn bit_flip_in_body_is_detected() {
    let good = framed(b"QF4*F0*L0 1010*C0*");
    assert!(parse_jed(&good).is_ok());
    for i in 1..good.len() - 5 {
        for k in 0..8 {
            let mut bad = good.clone();
            bad[i] ^= 1 << k;
            if bad[i] == 0x03 {
                continue;
            }
            assert_eq!(parse_jed(&bad), Err(JedParserError::BadFileChecksum));
        }
    }
}

#[test]
fn invalid_utf8_body() {
    let input = framed(b"QF4*F0*\xff*");
    assert_eq!(
        parse_jed(&input),
        Err(JedParserError::InvalidUtf8(Utf8Fault { valid_up_to: 7, error_len: Some(1) }))
    );
}

#[test]
fn default_fills_unset_fuses() {
    assert_eq!(parse_fields(b"QF6*F1*L2 00*"), Ok(fuses(&[1, 1, 0, 0, 1, 1])));
    assert_eq!(parse_fields(b"F0*QF3*"), Ok(fuses(&[0, 0, 0])));
}

#[test]
fn unset_fuse_without_default() {
    assert_eq!(parse_fields(b"QF4*L0 101*"), Err(JedParserError::MissingF));
    assert_eq!(parse_fields(b"QF4*L0 1011*"), Ok(fuses(&[1, 0, 1, 1])));
    assert_eq!(parse_fields(b"QF0*"), Ok(fuses(&[])));
}

#[test]
fn missing_qf() {
    assert_eq!(parse_fields(b"F0*"), Err(JedParserError::MissingQF));
    assert_eq!(parse_fields(b""), Err(JedParserError::MissingQF));
    assert_eq!(parse_fields(b"L0 1*QF1*"), Err(JedParserError::MissingQF));
}

#[test]
fn fuse_list_past_the_end() {
    assert_eq!(parse_fields(b"QF4*F0*L3 10*"), Err(JedParserError::InvalidFuseIndex));
    assert_eq!(parse_fields(b"QF4*F0*L4*"), Err(JedParserError::InvalidFuseIndex));
    assert_eq!(parse_fields(b"QF4*F0*L2 111*"), Err(JedParserError::InvalidFuseIndex));
    assert_eq!(parse_fields(b"QF4*F0*L3 1*"), Ok(fuses(&[0, 0, 0, 1])));
}

#[test]
fn invalid_characters() {
    assert_eq!(parse_fields(b"QF4*F2*"), Err(JedParserError::InvalidCharacter));
    assert_eq!(parse_fields(b"QF4*F*"), Err(JedParserError::InvalidCharacter));
    assert_eq!(parse_fields(b"QF4*F01*"), Err(JedParserError::InvalidCharacter));
    assert_eq!(parse_fields(b"QF4*F0*L0 10x0*"), Err(JedParserError::InvalidCharacter));
    assert_eq!(parse_fields(b"QF4*F0*Lx 10*"), Err(JedParserError::InvalidCharacter));
    assert_eq!(parse_fields(b"QFx*"), Err(JedParserError::InvalidCharacter));
    assert_eq!(parse_fields(b"QF*"), Err(JedParserError::InvalidCharacter));
    assert_eq!(parse_fields(b"QF4*F0*C12G*"), Err(JedParserError::InvalidCharacter));
    assert_eq!(parse_fields(b"QF4*F0*C10000*"), Err(JedParserError::InvalidCharacter));
    assert_eq!(
        parse_fields(b"QF99999999999999999999999*"),
        Err(JedParserError::InvalidCharacter)
    );
}

#[test]
fn unrecognized_fields() {
    assert_eq!(parse_fields(b"QF4*F0*N note*"), Err(JedParserError::UnrecognizedField));
    assert_eq!(parse_fields(b"QP20*QF4*F0*"), Err(JedParserError::UnrecognizedField));
    assert_eq!(parse_fields(b"Q*"), Err(JedParserError::UnrecognizedField));
}

#[test]
fn first_error_wins() {
    assert_eq!(parse_fields(b"X*QF4*F2*"), Err(JedParserError::UnrecognizedField));
    assert_eq!(parse_fields(b"QF4*F2*X*"), Err(JedParserError::InvalidCharacter));
}

#[test]
fn later_qf_starts_over() {
    assert_eq!(parse_fields(b"QF2*L0 11*QF3*F0*"), Ok(fuses(&[0, 0, 0])));
}

#[test]
fn accumulator_field_by_field() {
    let mut st = JedFields::new();
    assert_eq!(st.apply_field(b"  QF4 "), Ok(()));
    assert_eq!(st.apply_field(b"\nL1 11"), Ok(()));
    assert_eq!(st.finish(), Err(JedParserError::MissingF));
    assert_eq!(st.apply_field(b"F0"), Ok(()));
    assert_eq!(st.finish(), Ok(fuses(&[0, 1, 1, 0])));
    assert_eq!(st.apply_field(b"L3 11"), Err(JedParserError::InvalidFuseIndex));
    assert_eq!(st.apply_field(b""), Ok(()));
}
