//! The `*`-separated fields of a JED body and the accumulator that builds a
//! fuse array from them.
use vstd::prelude::*;
use crate::digits::{number, parse_number};
use crate::errors::JedParserError;

verus! {

/// ASCII whitespace: tab, line feed, vertical tab, form feed, carriage return, space.
pub open spec fn is_ws(c: u8) -> bool {
    (9 <= c && c <= 13) || c == 32
}

/// `s` with leading and trailing whitespace removed.
pub open spec fn trim(s: Seq<u8>) -> Seq<u8>
    decreases s.len(),
{
    if s.len() > 0 && is_ws(s[0]) {
        trim(s.drop_first())
    } else if s.len() > 0 && is_ws(s.last()) {
        trim(s.drop_last())
    } else {
        s
    }
}

/// The first index at or after `from` that holds whitespace, or `s.len()`.
pub open spec fn ws_index(s: Seq<u8>, from: int) -> int
    decreases s.len() - from,
{
    if from >= s.len() {
        s.len() as int
    } else if is_ws(s[from]) {
        from
    } else {
        ws_index(s, from + 1)
    }
}

/// The fuse values written by the non-whitespace bytes of `s`, in order
/// (`1` is a set fuse).
pub open spec fn fuse_bits(s: Seq<u8>) -> Seq<bool>
    decreases s.len(),
{
    if s.len() == 0 {
        Seq::empty()
    } else if is_ws(s.last()) {
        fuse_bits(s.drop_last())
    } else {
        fuse_bits(s.drop_last()).push(s.last() == 49)
    }
}

/// Every byte of `s` is whitespace, `0` or `1`.
pub open spec fn bits_valid(s: Seq<u8>) -> bool {
    forall|i: int| 0 <= i < s.len() ==> is_ws(#[trigger] s[i]) || s[i] == 48 || s[i] == 49
}

/// The accumulated state of a JED body after some of its fields.
pub struct FieldsView {
    /// The fuse values set so far (`None` where none is set yet), once `QF` was seen.
    pub fuses: Option<Seq<Option<bool>>>,
    /// The value of the last `F` field.
    pub default_fuse: Option<bool>,
    /// The value of the last `C` field.
    pub fuse_checksum: Option<nat>,
}

/// The state before any field.
pub open spec fn fields_start() -> FieldsView {
    FieldsView { fuses: None, default_fuse: None, fuse_checksum: None }
}

/// The offset of an `L` field `f`: the digits up to its first whitespace.
pub open spec fn l_offset(f: Seq<u8>) -> Option<nat> {
    number(f.subrange(1, ws_index(f, 1)), 10, usize::MAX as nat)
}

/// The fuse-value text of an `L` field `f`: what follows its offset.
pub open spec fn l_text(f: Seq<u8>) -> Seq<u8> {
    f.subrange(ws_index(f, 1), f.len() as int)
}

/// `fuses` with `bits` written from index `off` on.
pub open spec fn write_bits(fuses: Seq<Option<bool>>, off: nat, bits: Seq<bool>) -> Seq<
    Option<bool>,
> {
    Seq::new(
        fuses.len(),
        |i: int|
            if off <= i < off + bits.len() {
                Some(bits[i - off])
            } else {
                fuses[i]
            },
    )
}

/// The effect of one trimmed field `f` on the state `st`.
pub open spec fn field_step(st: FieldsView, f: Seq<u8>) -> Result<FieldsView, JedParserError> {
    if f.len() == 0 {
        Ok(st)
    } else if f[0] == 81 {
        // `QF<decimal>`
        if f.len() >= 2 && f[1] == 70 {
            match number(f.subrange(2, f.len() as int), 10, usize::MAX as nat) {
                Some(n) => Ok(FieldsView { fuses: Some(Seq::new(n, |i: int| None)), ..st }),
                None => Err(JedParserError::InvalidCharacter),
            }
        } else {
            Err(JedParserError::UnrecognizedField)
        }
    } else if f[0] == 70 {
        // `F<0|1>`
        if f.len() == 2 && (f[1] == 48 || f[1] == 49) {
            Ok(FieldsView { default_fuse: Some(f[1] == 49), ..st })
        } else {
            Err(JedParserError::InvalidCharacter)
        }
    } else if f[0] == 76 {
        // `L<decimal> <bits>`
        match st.fuses {
            None => Err(JedParserError::MissingQF),
            Some(fuses) => match l_offset(f) {
                None => Err(JedParserError::InvalidCharacter),
                Some(off) => if !bits_valid(l_text(f)) {
                    Err(JedParserError::InvalidCharacter)
                } else {
                    let bits = fuse_bits(l_text(f));
                    if off >= fuses.len() || off + bits.len() > fuses.len() {
                        Err(JedParserError::InvalidFuseIndex)
                    } else {
                        Ok(FieldsView { fuses: Some(write_bits(fuses, off, bits)), ..st })
                    }
                },
            },
        }
    } else if f[0] == 67 {
        // `C<hex>`
        match number(f.subrange(1, f.len() as int), 16, 0xffff) {
            Some(c) => Ok(FieldsView { fuse_checksum: Some(c), ..st }),
            None => Err(JedParserError::InvalidCharacter),
        }
    } else {
        Err(JedParserError::UnrecognizedField)
    }
}

/// The first index at or after `from` that holds `*`, or `b.len()`.
pub open spec fn star_index(b: Seq<u8>, from: int) -> int
    decreases b.len() - from,
{
    if from >= b.len() {
        b.len() as int
    } else if b[from] == 42 {
        from
    } else {
        star_index(b, from + 1)
    }
}

/// The state after the fields of `b` that start at `from`, applied to `st`
/// in order, stopping at the first error.
pub open spec fn run_fields(st: FieldsView, b: Seq<u8>, from: int) -> Result<
    FieldsView,
    JedParserError,
>
    recommends
        0 <= from <= b.len(),
    decreases b.len() - from
        via run_fields_decreases
{
    if from < 0 || from > b.len() {
        Ok(st)
    } else {
        let k = star_index(b, from);
        match field_step(st, trim(b.subrange(from, k))) {
            Err(e) => Err(e),
            Ok(next) => if k >= b.len() {
                Ok(next)
            } else {
                run_fields(next, b, k + 1)
            },
        }
    }
}

proof fn lemma_star_index_bounds(b: Seq<u8>, from: int)
    requires
        0 <= from <= b.len(),
    ensures
        from <= star_index(b, from) <= b.len(),
        star_index(b, from) < b.len() ==> b[star_index(b, from)] == 42,
        forall|j: int| from <= j < star_index(b, from) ==> b[j] != 42,
    decreases b.len() - from,
{
    if from < b.len() && b[from] != 42 {
        lemma_star_index_bounds(b, from + 1);
    }
}

#[via_fn]
proof fn run_fields_decreases(st: FieldsView, b: Seq<u8>, from: int) {
    if 0 <= from <= b.len() {
        lemma_star_index_bounds(b, from);
    }
}

/// The weight of a set fuse at index `i` in the fuse checksum: fuses are
/// packed eight to a byte, least significant bit first.
pub open spec fn fuse_weight(i: nat) -> nat {
    let k = i % 8;
    if k == 0 { 1 }
    else if k == 1 { 2 }
    else if k == 2 { 4 }
    else if k == 3 { 8 }
    else if k == 4 { 16 }
    else if k == 5 { 32 }
    else if k == 6 { 64 }
    else { 128 }
}

/// The sum of the bytes that `fuses` packs into.
pub open spec fn fuse_sum(fuses: Seq<bool>) -> nat
    decreases fuses.len(),
{
    if fuses.len() == 0 {
        0
    } else {
        fuse_sum(fuses.drop_last()) + if fuses.last() {
            fuse_weight((fuses.len() - 1) as nat)
        } else {
            0
        }
    }
}

/// The 16-bit fuse checksum of `fuses`.
pub open spec fn fuse_checksum(fuses: Seq<bool>) -> nat {
    fuse_sum(fuses) % 0x10000
}

/// Every fuse has a value or there is a default for it.
pub open spec fn all_fuses_known(fuses: Seq<Option<bool>>, default_fuse: Option<bool>) -> bool {
    default_fuse is Some || forall|i: int| 0 <= i < fuses.len() ==> (#[trigger] fuses[i]) is Some
}

/// The fuse values, with the default where none was set.
pub open spec fn filled(fuses: Seq<Option<bool>>, default_fuse: Option<bool>) -> Seq<bool> {
    Seq::new(
        fuses.len(),
        |i: int|
            match fuses[i] {
                Some(b) => b,
                None => default_fuse->0,
            },
    )
}

/// The fuse array that the state `st` describes once all fields are read.
pub open spec fn fields_finish(st: FieldsView) -> Result<Seq<bool>, JedParserError> {
    match st.fuses {
        None => Err(JedParserError::MissingQF),
        Some(fuses) => if !all_fuses_known(fuses, st.default_fuse) {
            Err(JedParserError::MissingF)
        } else {
            let values = filled(fuses, st.default_fuse);
            match st.fuse_checksum {
                Some(c) => if c != 0 && c != fuse_checksum(values) {
                    Err(JedParserError::BadFuseChecksum)
                } else {
                    Ok(values)
                },
                None => Ok(values),
            }
        },
    }
}

/// The fuse array that the JED body `b` (the text between STX and ETX) describes.
pub open spec fn body_result(b: Seq<u8>) -> Result<Seq<bool>, JedParserError> {
    match run_fields(fields_start(), b, 0) {
        Err(e) => Err(e),
        Ok(st) => fields_finish(st),
    }
}

/// An ordered array of fuse values, as a JED file describes it.
#[derive(Debug, PartialEq, Eq)]
pub struct FuseArray {
    /// The value of each fuse, by index.
    pub fuses: Vec<bool>,
}

impl View for FuseArray {
    type V = Seq<bool>;

    open spec fn view(&self) -> Seq<bool> {
        self.fuses@
    }
}

/// The fuse values of a parse result.
pub open spec fn fuse_result(r: Result<FuseArray, JedParserError>) -> Result<
    Seq<bool>,
    JedParserError,
> {
    match r {
        Ok(a) => Ok(a@),
        Err(e) => Err(e),
    }
}

/// The accumulator that reads the fields of a JED body one at a time.
pub struct JedFields {
    qf_seen: bool,
    fuses: Vec<Option<bool>>,
    default_fuse: Option<bool>,
    fuse_checksum: Option<u16>,
}

impl View for JedFields {
    type V = FieldsView;

    closed spec fn view(&self) -> FieldsView {
        FieldsView {
            fuses: if self.qf_seen {
                Some(self.fuses@)
            } else {
                None
            },
            default_fuse: self.default_fuse,
            fuse_checksum: match self.fuse_checksum {
                Some(c) => Some(c as nat),
                None => None,
            },
        }
    }
}

/// The bounds of `b[lo..hi]` once leading and trailing whitespace is removed.
fn trim_span(b: &[u8], lo: usize, hi: usize) -> (r: (usize, usize))
    requires
        lo <= hi <= b.len(),
    ensures
        lo <= r.0 <= r.1 <= hi,
        b@.subrange(r.0 as int, r.1 as int) == trim(b@.subrange(lo as int, hi as int)),
{
    let mut a: usize = lo;
    while a < hi && (9 <= b[a] && b[a] <= 13 || b[a] == 32)
        invariant
            lo <= a <= hi <= b.len(),
            trim(b@.subrange(lo as int, hi as int)) == trim(b@.subrange(a as int, hi as int)),
        decreases hi - a,
    {
        assert(b@.subrange(a as int, hi as int).drop_first() =~= b@.subrange(
            a as int + 1,
            hi as int,
        ));
        a = a + 1;
    }
    let mut z: usize = hi;
    while z > a && (9 <= b[z - 1] && b[z - 1] <= 13 || b[z - 1] == 32)
        invariant
            lo <= a <= z <= hi <= b.len(),
            a == hi || !is_ws(b@[a as int]),
            trim(b@.subrange(lo as int, hi as int)) == trim(b@.subrange(a as int, z as int)),
        decreases z - a,
    {
        let ghost s = b@.subrange(a as int, z as int);
        assert(s[0] == b@[a as int]);
        assert(s.drop_last() =~= b@.subrange(a as int, z as int - 1));
        z = z - 1;
    }
    proof {
        let s = b@.subrange(a as int, z as int);
        if s.len() > 0 {
            assert(s[0] == b@[a as int]);
            assert(s.last() == b@[z as int - 1]);
        }
    }
    (a, z)
}

/// The first index at or after `from` that holds `*`, or `b.len()`.
fn find_star(b: &[u8], from: usize) -> (r: usize)
    requires
        from <= b.len(),
    ensures
        r == star_index(b@, from as int),
{
    let mut j: usize = from;
    while j < b.len() && b[j] != 42
        invariant
            from <= j <= b.len(),
            star_index(b@, from as int) == star_index(b@, j as int),
        decreases b.len() - j,
    {
        j = j + 1;
    }
    j
}

impl JedFields {
    /// The accumulator before any field.
    pub fn new() -> (r: JedFields)
        ensures
            r@ == fields_start(),
    {
        JedFields { qf_seen: false, fuses: Vec::new(), default_fuse: None, fuse_checksum: None }
    }

    /// Applies one field, given without its `*` terminator; whitespace
    /// around it is ignored.
    pub fn apply_field(&mut self, field: &[u8]) -> (r: Result<(), JedParserError>)
        ensures
            match field_step(old(self)@, trim(field@)) {
                Ok(st) => r is Ok && final(self)@ == st,
                Err(e) => r == Err::<(), JedParserError>(e),
            },
    {
        assert(field@.subrange(0, field@.len() as int) =~= field@);
        self.apply_span(field, 0, field.len())
    }

    /// Applies the field `b[lo..hi]`.
    fn apply_span(&mut self, b: &[u8], lo: usize, hi: usize) -> (r: Result<(), JedParserError>)
        requires
            lo <= hi <= b.len(),
        ensures
            match field_step(old(self)@, trim(b@.subrange(lo as int, hi as int))) {
                Ok(st) => r is Ok && final(self)@ == st,
                Err(e) => r == Err::<(), JedParserError>(e),
            },
    {
        let (a, z) = trim_span(b, lo, hi);
        let ghost f = b@.subrange(a as int, z as int);
        if a == z {
            return Ok(());
        }
        assert(f[0] == b@[a as int]);
        let c = b[a];
        if c == 81 {
            if z - a >= 2 && b[a + 1] == 70 {
                assert(f[1] == b@[a + 1]);
                assert(f.subrange(2, f.len() as int) =~= b@.subrange(a + 2, z as int));
                match parse_number(b, a + 2, z, 10, usize::MAX as u64) {
                    Some(n) => {
                        let n = n as usize;
                        let mut v: Vec<Option<bool>> = Vec::new();
                        let mut i: usize = 0;
                        while i < n
                            invariant
                                i <= n,
                                v@ =~= Seq::new(i as nat, |k: int| None::<bool>),
                            decreases n - i,
                        {
                            v.push(None);
                            i = i + 1;
                        }
                        self.fuses = v;
                        self.qf_seen = true;
                        Ok(())
                    },
                    None => Err(JedParserError::InvalidCharacter),
                }
            } else {
                if z - a >= 2 {
                    assert(f[1] == b@[a + 1]);
                }
                Err(JedParserError::UnrecognizedField)
            }
        } else if c == 70 {
            if z - a == 2 && (b[a + 1] == 48 || b[a + 1] == 49) {
                assert(f[1] == b@[a + 1]);
                self.default_fuse = Some(b[a + 1] == 49);
                Ok(())
            } else {
                if z - a == 2 {
                    assert(f[1] == b@[a + 1]);
                }
                Err(JedParserError::InvalidCharacter)
            }
        } else if c == 76 {
            if !self.qf_seen {
                return Err(JedParserError::MissingQF);
            }
            // the offset runs up to the first whitespace
            let mut w: usize = a + 1;
            while w < z && !(9 <= b[w] && b[w] <= 13 || b[w] == 32)
                invariant
                    a + 1 <= w <= z <= b.len(),
                    f == b@.subrange(a as int, z as int),
                    ws_index(f, 1) == ws_index(f, w - a),
                decreases z - w,
            {
                assert(f[w - a] == b@[w as int]);
                w = w + 1;
            }
            proof {
                if w < z {
                    assert(f[w - a] == b@[w as int]);
                }
            }
            assert(f.subrange(1, ws_index(f, 1)) =~= b@.subrange(a + 1, w as int));
            let off = match parse_number(b, a + 1, w, 10, usize::MAX as u64) {
                Some(o) => o as usize,
                None => {
                    return Err(JedParserError::InvalidCharacter);
                },
            };
            let ghost text = l_text(f);
            assert(text =~= b@.subrange(w as int, z as int));
            assert(l_offset(f) == Some(off as nat));
            let mut bits: Vec<bool> = Vec::new();
            let mut j: usize = w;
            while j < z
                invariant
                    w <= j <= z <= b.len(),
                    text == b@.subrange(w as int, z as int),
                    text == l_text(f),
                    l_offset(f) == Some(off as nat),
                    f == trim(b@.subrange(lo as int, hi as int)),
                    f.len() > 0 && f[0] == 76,
                    self.qf_seen,
                    self@ == old(self)@,
                    bits_valid(b@.subrange(w as int, j as int)),
                    bits@ == fuse_bits(b@.subrange(w as int, j as int)),
                decreases z - j,
            {
                let ghost pre = b@.subrange(w as int, j as int);
                let ghost next = b@.subrange(w as int, j as int + 1);
                assert(next.drop_last() =~= pre);
                let d = b[j];
                if 9 <= d && d <= 13 || d == 32 {
                } else if d == 48 || d == 49 {
                    bits.push(d == 49);
                } else {
                    assert(text[j - w] == d);
                    assert(!bits_valid(text));
                    assert(l_offset(f) == Some(off as nat));
                    return Err(JedParserError::InvalidCharacter);
                }
                assert(bits_valid(next)) by {
                    assert forall|i: int| 0 <= i < next.len() implies is_ws(#[trigger] next[i])
                        || next[i] == 48 || next[i] == 49 by {
                        if i < pre.len() {
                            assert(next[i] == pre[i]);
                        }
                    }
                }
                j = j + 1;
            }
            let n = self.fuses.len();
            if off >= n || bits.len() > n - off {
                return Err(JedParserError::InvalidFuseIndex);
            }
            let ghost before = self.fuses@;
            let mut i: usize = 0;
            while i < bits.len()
                invariant
                    i <= bits.len(),
                    off + bits.len() <= n,
                    self.fuses@.len() == n,
                    before.len() == n,
                    self.qf_seen,
                    self.default_fuse == old(self).default_fuse,
                    self.fuse_checksum == old(self).fuse_checksum,
                    forall|k: int|
                        0 <= k < n ==> #[trigger] self.fuses@[k] == if off <= k < off + i {
                            Some(bits@[k - off])
                        } else {
                            before[k]
                        },
                decreases bits.len() - i,
            {
                self.fuses.set(off + i, Some(bits[i]));
                i = i + 1;
            }
            assert(self.fuses@ =~= write_bits(before, off as nat, bits@));
            Ok(())
        } else if c == 67 {
            assert(f.subrange(1, f.len() as int) =~= b@.subrange(a + 1, z as int));
            match parse_number(b, a + 1, z, 16, 0xffff) {
                Some(v) => {
                    self.fuse_checksum = Some(v as u16);
                    Ok(())
                },
                None => Err(JedParserError::InvalidCharacter),
            }
        } else {
            Err(JedParserError::UnrecognizedField)
        }
    }

    /// The fuse array once every field has been applied.
    pub fn finish(&self) -> (r: Result<FuseArray, JedParserError>)
        ensures
            fuse_result(r) == fields_finish(self@),
    {
        if !self.qf_seen {
            return Err(JedParserError::MissingQF);
        }
        let n = self.fuses.len();
        let mut values: Vec<bool> = Vec::new();
        let mut sum: u32 = 0;
        let mut i: usize = 0;
        while i < n
            invariant
                i <= n == self.fuses@.len(),
                self.qf_seen,
                forall|k: int| 0 <= k < i ==> (#[trigger] self.fuses@[k]) is Some
                    || self.default_fuse is Some,
                values@ =~= filled(self.fuses@, self.default_fuse).subrange(0, i as int),
                sum as nat == fuse_sum(values@) % 0x10000,
            decreases n - i,
        {
            let v = match self.fuses[i] {
                Some(v) => v,
                None => match self.default_fuse {
                    Some(d) => d,
                    None => {
                        return Err(JedParserError::MissingF);
                    },
                },
            };
            let ghost prev = values@;
            values.push(v);
            let wgt: u32 = fuse_weight_exec(i);
            proof {
                assert(values@.drop_last() =~= prev);
                vstd::arithmetic::div_mod::lemma_add_mod_noop(
                    fuse_sum(prev) as int,
                    (if v { wgt as int } else { 0 }),
                    0x10000,
                );
            }
            sum = if v {
                (sum + wgt) % 0x10000
            } else {
                sum
            };
            proof {
                vstd::arithmetic::div_mod::lemma_mod_twice(fuse_sum(prev) as int, 0x10000);
            }
            i = i + 1;
        }
        assert(values@ =~= filled(self.fuses@, self.default_fuse));
        match self.fuse_checksum {
            Some(c) => {
                if c != 0 && c as u32 != sum {
                    return Err(JedParserError::BadFuseChecksum);
                }
            },
            None => {},
        }
        Ok(FuseArray { fuses: values })
    }
}

fn fuse_weight_exec(i: usize) -> (r: u32)
    ensures
        r as nat == fuse_weight(i as nat),
        r <= 128,
{
    let k = i % 8;
    if k == 0 { 1 }
    else if k == 1 { 2 }
    else if k == 2 { 4 }
    else if k == 3 { 8 }
    else if k == 4 { 16 }
    else if k == 5 { 32 }
    else if k == 6 { 64 }
    else { 128 }
}

/// Reads a JED body (the text between STX and ETX) field by field into a
/// fuse array.
pub fn parse_fields(b: &[u8]) -> (r: Result<FuseArray, JedParserError>)
    ensures
        fuse_result(r) == body_result(b@),
{
    let mut st = JedFields::new();
    let mut pos: usize = 0;
    loop
        invariant
            pos <= b.len(),
            run_fields(fields_start(), b@, 0) == run_fields(st@, b@, pos as int),
        decreases b.len() - pos,
    {
        let k = find_star(b, pos);
        proof {
            lemma_star_index_bounds(b@, pos as int);
        }
        match st.apply_span(b, pos, k) {
            Err(e) => {
                return Err(e);
            },
            Ok(()) => {},
        }
        if k >= b.len() {
            return st.finish();
        }
        pos = k + 1;
    }
}

/// Every fuse of a parsed body comes from an `L` field or from the `F`
/// default; a body whose fields leave a fuse unset and give no `F` field
/// fails with `MissingF` rather than defaulting that fuse.
pub proof fn lemma_fuses_come_from_fields(b: Seq<u8>)
    requires
        run_fields(fields_start(), b, 0) matches Ok(st) && st.fuses is Some,
    ensures
        ({
            let st = run_fields(fields_start(), b, 0)->Ok_0;
            let fuses = st.fuses->0;
            &&& (st.default_fuse is None && exists|i: int|
                0 <= i < fuses.len() && (#[trigger] fuses[i]) is None) ==> body_result(b)
                == Err::<Seq<bool>, JedParserError>(JedParserError::MissingF)
            &&& body_result(b) matches Ok(v) ==> v.len() == fuses.len() && forall|i: int|
                0 <= i < v.len() ==> (#[trigger] fuses[i] == Some(v[i]) || (fuses[i] is None
                    && st.default_fuse == Some(v[i])))
        }),
{
}

/// An `L` field whose fuse values would run past the end of the array
/// fails with `InvalidFuseIndex`, whatever its offset.
pub proof fn lemma_l_past_end_rejected(st: FieldsView, f: Seq<u8>)
    requires
        st.fuses is Some,
        f.len() > 0 && f[0] == 76,
        l_offset(f) is Some,
        bits_valid(l_text(f)),
        l_offset(f)->0 + fuse_bits(l_text(f)).len() > st.fuses->0.len(),
    ensures
        field_step(st, f) == Err::<FieldsView, JedParserError>(JedParserError::InvalidFuseIndex),
{
}

} // verus!
