//! The outer frame of a JED file: STX, body, ETX, and the file checksum
//! after ETX.
use vstd::prelude::*;
use vstd::utf8::valid_utf8;
use crate::digits::{number, parse_number};
use crate::errors::{JedParserError, Utf8Fault};
use crate::fields::{body_result, fuse_result, parse_fields, FuseArray};

verus! {

/// The byte that opens the body of a JED file.
pub const STX: u8 = 2;

/// The byte that closes the body of a JED file.
pub const ETX: u8 = 3;

/// The first index at or after `from` that holds `c`, if any.
pub open spec fn find_byte(s: Seq<u8>, c: u8, from: int) -> Option<int>
    decreases s.len() - from,
{
    if from < 0 || from >= s.len() {
        None
    } else if s[from] == c {
        Some(from)
    } else {
        find_byte(s, c, from + 1)
    }
}

/// The positions of the first STX and of the first ETX after it.
pub open spec fn frame_of(s: Seq<u8>) -> Result<(int, int), JedParserError> {
    match find_byte(s, STX, 0) {
        None => Err(JedParserError::MissingSTX),
        Some(a) => match find_byte(s, ETX, a + 1) {
            None => Err(JedParserError::MissingETX),
            Some(z) => Ok((a, z)),
        },
    }
}

/// The sum of the bytes of `s`.
pub open spec fn byte_sum(s: Seq<u8>) -> nat
    decreases s.len(),
{
    if s.len() == 0 {
        0
    } else {
        byte_sum(s.drop_last()) + s.last() as nat
    }
}

/// The 16-bit file checksum of a frame: the sum of its bytes from STX to
/// ETX, both included.
pub open spec fn frame_checksum(s: Seq<u8>, a: int, z: int) -> nat {
    byte_sum(s.subrange(a, z + 1)) % 0x10000
}

/// The file checksum declared by the four hexadecimal digits after the ETX
/// at `z`.
pub open spec fn declared_checksum(s: Seq<u8>, z: int) -> Result<nat, JedParserError> {
    if s.len() < z + 5 {
        Err(JedParserError::UnexpectedEnd)
    } else {
        match number(s.subrange(z + 1, z + 5), 16, 0xffff) {
            Some(v) => Ok(v),
            None => Err(JedParserError::InvalidCharacter),
        }
    }
}

/// The body of the JED file `s` (the bytes strictly between STX and ETX),
/// once its frame and file checksum are found correct.
pub open spec fn frame_result(s: Seq<u8>) -> Result<Seq<u8>, JedParserError> {
    match frame_of(s) {
        Err(e) => Err(e),
        Ok((a, z)) => match declared_checksum(s, z) {
            Err(e) => Err(e),
            Ok(v) => if v != frame_checksum(s, a, z) {
                Err(JedParserError::BadFileChecksum)
            } else {
                Ok(s.subrange(a + 1, z))
            },
        },
    }
}

/// What parsing the JED file `s` gives: `r` is the result of `parse_jed`.
pub open spec fn jed_outcome(s: Seq<u8>, r: Result<FuseArray, JedParserError>) -> bool {
    match frame_result(s) {
        Err(e) => r == Err::<FuseArray, JedParserError>(e),
        Ok(body) => if valid_utf8(body) {
            fuse_result(r) == body_result(body)
        } else {
            r matches Err(JedParserError::InvalidUtf8(f)) && f.valid_up_to < body.len()
        },
    }
}

/// Relies on `std::str::from_utf8`: it accepts exactly the valid UTF-8 byte
/// sequences, and its error reports the length of the longest valid prefix.
#[verifier::external_body]
fn utf8_fault(b: &[u8]) -> (r: Option<Utf8Fault>)
    ensures
        r is None <==> valid_utf8(b@),
        r matches Some(f) ==> f.valid_up_to < b@.len() && valid_utf8(
            b@.subrange(0, f.valid_up_to as int),
        ),
{
    match std::str::from_utf8(b) {
        Ok(_) => None,
        Err(e) => Some(Utf8Fault { valid_up_to: e.valid_up_to(), error_len: e.error_len() }),
    }
}

/// The first index at or after `from` that holds `c`, if any.
fn find(s: &[u8], c: u8, from: usize) -> (r: Option<usize>)
    requires
        from <= s.len(),
    ensures
        match find_byte(s@, c, from as int) {
            Some(i) => r == Some(i as usize),
            None => r is None,
        },
{
    let mut j: usize = from;
    while j < s.len()
        invariant
            from <= j <= s.len(),
            find_byte(s@, c, from as int) == find_byte(s@, c, j as int),
        decreases s.len() - j,
    {
        if s[j] == c {
            return Some(j);
        }
        j = j + 1;
    }
    None
}

proof fn lemma_find_byte_bounds(s: Seq<u8>, c: u8, from: int)
    requires
        0 <= from,
    ensures
        find_byte(s, c, from) matches Some(i) ==> from <= i < s.len() && s[i] == c && forall|
            j: int,
        |
            from <= j < i ==> s[j] != c,
    decreases s.len() - from,
{
    if from < s.len() && s[from] != c {
        lemma_find_byte_bounds(s, c, from + 1);
    }
}

/// Locates the first STX and the first ETX after it.
pub fn locate_frame(s: &[u8]) -> (r: Result<(usize, usize), JedParserError>)
    ensures
        match frame_of(s@) {
            Ok((a, z)) => r == Ok::<(usize, usize), JedParserError>((a as usize, z as usize)),
            Err(e) => r == Err::<(usize, usize), JedParserError>(e),
        },
        r matches Ok((a, z)) ==> a < z < s.len() && frame_of(s@) == Ok::<
            (int, int),
            JedParserError,
        >((a as int, z as int)),
{
    proof {
        lemma_find_byte_bounds(s@, STX, 0);
    }
    let a = match find(s, STX, 0) {
        Some(a) => a,
        None => {
            return Err(JedParserError::MissingSTX);
        },
    };
    proof {
        lemma_find_byte_bounds(s@, ETX, a + 1);
    }
    match find(s, ETX, a + 1) {
        Some(z) => Ok((a, z)),
        None => Err(JedParserError::MissingETX),
    }
}

/// The file checksum of the frame `s[a..=z]`.
pub fn file_checksum(s: &[u8], a: usize, z: usize) -> (r: u16)
    requires
        a <= z < s.len(),
    ensures
        r as nat == frame_checksum(s@, a as int, z as int),
{
    let mut sum: u32 = 0;
    let mut i: usize = a;
    while i <= z
        invariant
            a <= i <= z + 1 <= s.len(),
            sum as nat == byte_sum(s@.subrange(a as int, i as int)) % 0x10000,
        decreases z + 1 - i,
    {
        let ghost prev = s@.subrange(a as int, i as int);
        proof {
            assert(s@.subrange(a as int, i as int + 1).drop_last() =~= prev);
            vstd::arithmetic::div_mod::lemma_add_mod_noop(byte_sum(prev) as int, s@[i as int] as int, 0x10000);
            vstd::arithmetic::div_mod::lemma_mod_twice(byte_sum(prev) as int, 0x10000);
        }
        sum = (sum + s[i] as u32) % 0x10000;
        i = i + 1;
    }
    sum as u16
}

/// Checks the frame and file checksum of the JED file `s` and gives back
/// the bounds of its body.
pub fn check_frame(s: &[u8]) -> (r: Result<(usize, usize), JedParserError>)
    ensures
        match frame_result(s@) {
            Ok(body) => r matches Ok((lo, hi)) && lo <= hi <= s.len() && body == s@.subrange(
                lo as int,
                hi as int,
            ),
            Err(e) => r == Err::<(usize, usize), JedParserError>(e),
        },
{
    let (a, z) = match locate_frame(s) {
        Ok(f) => f,
        Err(e) => {
            return Err(e);
        },
    };
    if s.len() - z < 5 {
        return Err(JedParserError::UnexpectedEnd);
    }
    let declared = match parse_number(s, z + 1, z + 5, 16, 0xffff) {
        Some(v) => v,
        None => {
            return Err(JedParserError::InvalidCharacter);
        },
    };
    let computed = file_checksum(s, a, z);
    if declared != computed as u64 {
        return Err(JedParserError::BadFileChecksum);
    }
    Ok((a + 1, z))
}

/// Parses a JED file into its fuse array.
pub fn parse_jed(s: &[u8]) -> (r: Result<FuseArray, JedParserError>)
    ensures
        jed_outcome(s@, r),
{
    let (lo, hi) = match check_frame(s) {
        Ok(b) => b,
        Err(e) => {
            return Err(e);
        },
    };
    let mut body: Vec<u8> = Vec::new();
    let mut i: usize = lo;
    while i < hi
        invariant
            lo <= i <= hi <= s.len(),
            body@ =~= s@.subrange(lo as int, i as int),
        decreases hi - i,
    {
        body.push(s[i]);
        i = i + 1;
    }
    match utf8_fault(body.as_slice()) {
        Some(f) => Err(JedParserError::InvalidUtf8(f)),
        None => parse_fields(body.as_slice()),
    }
}

proof fn lemma_find_byte_same(s: Seq<u8>, t: Seq<u8>, c: u8, from: int, p: int)
    requires
        0 <= from,
        s.len() == t.len(),
        find_byte(s, c, from) == Some(p),
        forall|j: int| from <= j <= p ==> (s[j] == c) == (t[j] == c),
    ensures
        find_byte(t, c, from) == Some(p),
    decreases s.len() - from,
{
    lemma_find_byte_bounds(s, c, from);
    if s[from] != c {
        lemma_find_byte_same(s, t, c, from + 1, p);
    }
}

proof fn lemma_byte_sum_update(s: Seq<u8>, j: int, c: u8)
    requires
        0 <= j < s.len(),
    ensures
        byte_sum(s.update(j, c)) + s[j] == byte_sum(s) + c,
    decreases s.len(),
{
    let t = s.update(j, c);
    if j < s.len() - 1 {
        assert(t.drop_last() =~= s.drop_last().update(j, c));
        lemma_byte_sum_update(s.drop_last(), j, c);
    } else {
        assert(t.drop_last() =~= s.drop_last());
    }
}

/// Two sums that differ by a nonzero amount smaller than 2^16 have
/// different 16-bit checksums.
proof fn lemma_small_change_changes_checksum(x: int, y: int)
    requires
        x >= 0,
        y >= 0,
        x != y,
        -0x10000 < y - x < 0x10000,
    ensures
        x % 0x10000 != y % 0x10000,
{
    if x % 0x10000 == y % 0x10000 {
        vstd::arithmetic::div_mod::lemma_sub_mod_noop(y, x, 0x10000);
        assert((y - x) % 0x10000 == 0);
        vstd::arithmetic::div_mod::lemma_fundamental_div_mod(y - x, 0x10000);
    }
}

/// For a JED file whose frame, body and non-zero declared file checksum are
/// well formed, parsing succeeds exactly when the declared checksum equals
/// the sum of the bytes from STX to ETX.
pub proof fn lemma_file_checksum_decides(s: Seq<u8>, r: Result<FuseArray, JedParserError>)
    requires
        frame_of(s) is Ok,
        declared_checksum(s, frame_of(s)->Ok_0.1) matches Ok(v) && v != 0,
        valid_utf8(s.subrange(frame_of(s)->Ok_0.0 + 1, frame_of(s)->Ok_0.1)),
        body_result(s.subrange(frame_of(s)->Ok_0.0 + 1, frame_of(s)->Ok_0.1)) is Ok,
        jed_outcome(s, r),
    ensures
        r is Ok <==> declared_checksum(s, frame_of(s)->Ok_0.1) == Ok::<nat, JedParserError>(
            frame_checksum(s, frame_of(s)->Ok_0.0, frame_of(s)->Ok_0.1),
        ),
        r is Err ==> r == Err::<FuseArray, JedParserError>(JedParserError::BadFileChecksum),
{
}

/// Changing one bit of one byte of the body of an accepted JED file (other
/// than into ETX) makes it fail with `BadFileChecksum`.
pub proof fn lemma_bit_flip_detected(
    s: Seq<u8>,
    r: Result<FuseArray, JedParserError>,
    i: int,
    k: u8,
    r2: Result<FuseArray, JedParserError>,
)
    requires
        jed_outcome(s, r),
        r is Ok,
        frame_of(s) matches Ok((a, z)) && a < i < z,
        k < 8,
        s[i] ^ (1u8 << k) != ETX,
        jed_outcome(s.update(i, s[i] ^ (1u8 << k)), r2),
    ensures
        r2 == Err::<FuseArray, JedParserError>(JedParserError::BadFileChecksum),
{
    let (a, z) = frame_of(s)->Ok_0;
    let old_b = s[i];
    let c = old_b ^ (1u8 << k);
    assert(c != old_b) by (bit_vector)
        requires
            k < 8,
            c == old_b ^ (1u8 << k),
    ;
    let t = s.update(i, c);
    lemma_find_byte_bounds(s, STX, 0);
    lemma_find_byte_bounds(s, ETX, a + 1);
    lemma_find_byte_same(s, t, STX, 0, a);
    assert(s[i] != ETX);
    lemma_find_byte_same(s, t, ETX, a + 1, z);
    assert(frame_of(t) == Ok::<(int, int), JedParserError>((a, z)));
    assert(s.subrange(z + 1, z + 5) =~= t.subrange(z + 1, z + 5));
    assert(declared_checksum(t, z) == declared_checksum(s, z));
    let fs = s.subrange(a, z + 1);
    assert(t.subrange(a, z + 1) =~= fs.update(i - a, c));
    lemma_byte_sum_update(fs, i - a, c);
    lemma_small_change_changes_checksum(byte_sum(fs) as int, byte_sum(t.subrange(a, z + 1)) as int);
}

/// An accepted JED file declares exactly the checksum of its bytes from
/// STX to ETX: computing it again from the frame gives the declared value.
pub proof fn lemma_accepted_file_checksum(s: Seq<u8>, r: Result<FuseArray, JedParserError>)
    requires
        jed_outcome(s, r),
        r is Ok,
    ensures
        frame_of(s) matches Ok((a, z)) && declared_checksum(s, z) == Ok::<nat, JedParserError>(
            frame_checksum(s, a, z),
        ),
{
}

} // verus!
