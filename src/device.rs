//! Interpretation of a fuse array as the configuration of one device of a
//! device table.
use vstd::prelude::*;
use crate::errors::XC2BitError;
use crate::fields::FuseArray;

verus! {

/// The position of one ZIA (routing) row in the fuse array, and the bit
/// patterns that are valid selections for it.
pub struct ZiaRow {
    /// Index of the row's first fuse.
    pub offset: usize,
    /// Number of fuses in the row.
    pub width: usize,
    /// The valid selection patterns; a row decodes to the index of its pattern.
    pub patterns: Vec<Vec<bool>>,
}

/// The layout of a device fits in its fuse count: the four output-enable
/// fuses and every ZIA row lie inside the array.
pub open spec fn layout_fits(fuse_count: nat, oe_offset: nat, rows: Seq<ZiaRow>) -> bool {
    &&& oe_offset + 4 <= fuse_count
    &&& forall|k: int| 0 <= k < rows.len() ==> #[trigger] rows[k].offset + rows[k].width <= fuse_count
}

/// One entry of a device table: a part name, its fuse count, and where its
/// configuration bits lie together with their valid values.
pub struct DeviceEntry {
    name: String,
    fuse_count: usize,
    oe_offset: usize,
    oe_table: Vec<(bool, bool, bool, bool)>,
    zia_rows: Vec<ZiaRow>,
}

/// The decoded configuration of a device.
#[derive(Debug, PartialEq, Eq)]
pub struct DeviceConfiguration {
    /// Index, in the device's output-enable table, of the output-enable mode.
    pub oe: usize,
    /// For each ZIA row, the index of its selection pattern.
    pub zia: Vec<usize>,
}

/// The first index at or after `from` where `s` holds `x`.
pub open spec fn first_index<T>(s: Seq<T>, x: T, from: int) -> Option<int>
    decreases s.len() - from,
{
    if from < 0 || from >= s.len() {
        None
    } else if s[from] == x {
        Some(from)
    } else {
        first_index(s, x, from + 1)
    }
}

/// The four output-enable fuses that start at `o`.
pub open spec fn oe_bits(f: Seq<bool>, o: nat) -> (bool, bool, bool, bool) {
    (f[o as int], f[o + 1int], f[o + 2int], f[o + 3int])
}

/// The fuses of a ZIA row.
pub open spec fn row_bits(f: Seq<bool>, row: ZiaRow) -> Seq<bool> {
    f.subrange(row.offset as int, row.offset + row.width)
}

/// The valid patterns of a ZIA row.
pub open spec fn row_patterns(row: ZiaRow) -> Seq<Seq<bool>> {
    row.patterns@.map_values(|p: Vec<bool>| p@)
}

/// The selection that the fuses `f` make in a ZIA row, if it is a valid one.
pub open spec fn row_choice(f: Seq<bool>, row: ZiaRow) -> Option<int> {
    first_index(row_patterns(row), row_bits(f, row), 0)
}

/// The first ZIA row at or after `from` whose fuses match no valid pattern.
pub open spec fn first_bad_row(f: Seq<bool>, rows: Seq<ZiaRow>, from: int) -> Option<int>
    decreases rows.len() - from,
{
    if from < 0 || from >= rows.len() {
        None
    } else if row_choice(f, rows[from]) is None {
        Some(from)
    } else {
        first_bad_row(f, rows, from + 1)
    }
}

/// The first entry at or after `from` of `table` named `name`.
pub open spec fn device_index(table: Seq<DeviceEntry>, name: Seq<char>, from: int) -> Option<int>
    decreases table.len() - from,
{
    if from < 0 || from >= table.len() {
        None
    } else if table[from].name_view() == name {
        Some(from)
    } else {
        device_index(table, name, from + 1)
    }
}

/// `r` is what decoding the fuses `f` for the device `d` gives.
pub open spec fn decode_outcome(
    d: DeviceEntry,
    f: Seq<bool>,
    r: Result<DeviceConfiguration, XC2BitError>,
) -> bool {
    if f.len() != d.fuse_count_view() {
        r matches Err(XC2BitError::WrongFuseCount)
    } else {
        let oe = oe_bits(f, d.oe_offset_view());
        match first_index(d.oe_table_view(), oe, 0) {
            None => r matches Err(XC2BitError::UnsupportedOeConfiguration(t)) && t == oe,
            Some(m) => match first_bad_row(f, d.zia_view(), 0) {
                Some(k) => r matches Err(XC2BitError::UnsupportedZIAConfiguration(v)) && v@
                    == row_bits(f, d.zia_view()[k]),
                None => r matches Ok(c) && c.oe == m && c.zia@.len() == d.zia_view().len() && (
                forall|k: int|
                    0 <= k < d.zia_view().len() ==> Some(#[trigger] c.zia@[k] as int) == row_choice(
                        f,
                        d.zia_view()[k],
                    )),
            },
        }
    }
}

impl DeviceEntry {
    /// The part name.
    pub closed spec fn name_view(&self) -> Seq<char> {
        self.name@
    }

    /// The number of fuses of the part.
    pub closed spec fn fuse_count_view(&self) -> nat {
        self.fuse_count as nat
    }

    /// Index of the first of the four output-enable fuses.
    pub closed spec fn oe_offset_view(&self) -> nat {
        self.oe_offset as nat
    }

    /// The valid output-enable fuse values; a mode is an index in it.
    pub closed spec fn oe_table_view(&self) -> Seq<(bool, bool, bool, bool)> {
        self.oe_table@
    }

    /// The ZIA rows.
    pub closed spec fn zia_view(&self) -> Seq<ZiaRow> {
        self.zia_rows@
    }

    #[verifier::type_invariant]
    spec fn fits(&self) -> bool {
        layout_fits(self.fuse_count as nat, self.oe_offset as nat, self.zia_rows@)
    }

    /// A device entry, if its layout fits in its fuse count.
    pub fn new(
        name: String,
        fuse_count: usize,
        oe_offset: usize,
        oe_table: Vec<(bool, bool, bool, bool)>,
        zia_rows: Vec<ZiaRow>,
    ) -> (r: Option<DeviceEntry>)
        ensures
            r is Some <==> layout_fits(fuse_count as nat, oe_offset as nat, zia_rows@),
            r matches Some(d) ==> {
                &&& d.name_view() == name@
                &&& d.fuse_count_view() == fuse_count
                &&& d.oe_offset_view() == oe_offset
                &&& d.oe_table_view() == oe_table@
                &&& d.zia_view() == zia_rows@
            },
    {
        if oe_offset > fuse_count || fuse_count - oe_offset < 4 {
            return None;
        }
        let mut k: usize = 0;
        while k < zia_rows.len()
            invariant
                k <= zia_rows.len(),
                forall|j: int|
                    0 <= j < k ==> #[trigger] zia_rows@[j].offset + zia_rows@[j].width
                        <= fuse_count,
            decreases zia_rows.len() - k,
        {
            let row = &zia_rows[k];
            if row.offset > fuse_count || fuse_count - row.offset < row.width {
                return None;
            }
            k = k + 1;
        }
        Some(DeviceEntry { name, fuse_count, oe_offset, oe_table, zia_rows })
    }

    /// The part name.
    pub fn name(&self) -> (r: &String)
        ensures
            r@ == self.name_view(),
    {
        &self.name
    }

    /// The number of fuses of the part.
    pub fn fuse_count(&self) -> (r: usize)
        ensures
            r == self.fuse_count_view(),
    {
        self.fuse_count
    }
}

/// Whether two bit sequences are equal.
fn bits_equal(a: &Vec<bool>, b: &Vec<bool>) -> (r: bool)
    ensures
        r == (a@ == b@),
{
    if a.len() != b.len() {
        return false;
    }
    let mut i: usize = 0;
    while i < a.len()
        invariant
            i <= a.len() == b.len(),
            forall|j: int| 0 <= j < i ==> a@[j] == b@[j],
        decreases a.len() - i,
    {
        if a[i] != b[i] {
            return false;
        }
        i = i + 1;
    }
    assert(a@ =~= b@);
    true
}

/// The index of the first valid output-enable value equal to `t`.
fn find_oe(table: &Vec<(bool, bool, bool, bool)>, t: (bool, bool, bool, bool)) -> (r: Option<
    usize,
>)
    ensures
        match r {
            Some(m) => first_index(table@, t, 0) == Some(m as int),
            None => first_index(table@, t, 0) is None,
        },
{
    let mut j: usize = 0;
    while j < table.len()
        invariant
            j <= table.len(),
            first_index(table@, t, 0) == first_index(table@, t, j as int),
        decreases table.len() - j,
    {
        let e = table[j];
        if e.0 == t.0 && e.1 == t.1 && e.2 == t.2 && e.3 == t.3 {
            return Some(j);
        }
        j = j + 1;
    }
    None
}

/// The fuses of a ZIA row, and the index of the valid pattern they match.
fn decode_row(f: &Vec<bool>, row: &ZiaRow) -> (r: (Vec<bool>, Option<usize>))
    requires
        row.offset + row.width <= f@.len(),
    ensures
        r.0@ == row_bits(f@, *row),
        match r.1 {
            Some(m) => row_choice(f@, *row) == Some(m as int),
            None => row_choice(f@, *row) is None,
        },
{
    let mut bits: Vec<bool> = Vec::new();
    let mut i: usize = 0;
    while i < row.width
        invariant
            i <= row.width,
            row.offset + row.width <= f.len(),
            bits@ =~= f@.subrange(row.offset as int, row.offset + i),
        decreases row.width - i,
    {
        bits.push(f[row.offset + i]);
        i = i + 1;
    }
    let ghost pats = row_patterns(*row);
    let mut j: usize = 0;
    while j < row.patterns.len()
        invariant
            j <= row.patterns.len(),
            pats == row_patterns(*row),
            bits@ == row_bits(f@, *row),
            first_index(pats, bits@, 0) == first_index(pats, bits@, j as int),
        decreases row.patterns.len() - j,
    {
        if bits_equal(&row.patterns[j], &bits) {
            return (bits, Some(j));
        }
        j = j + 1;
    }
    (bits, None)
}

/// Decodes the fuse array `fuses` as the configuration of the device named
/// `device_name`, looked up in `table`.
pub fn decode_device(fuses: &FuseArray, device_name: &str, table: &Vec<DeviceEntry>) -> (r: Result<
    DeviceConfiguration,
    XC2BitError,
>)
    ensures
        match device_index(table@, device_name@, 0) {
            None => r matches Err(XC2BitError::BadDeviceName(n)) && n@ == device_name@,
            Some(i) => decode_outcome(table@[i], fuses@, r),
        },
{
    let wanted = device_name.to_owned();
    let mut i: usize = 0;
    while i < table.len()
        invariant
            i <= table.len(),
            wanted@ == device_name@,
            device_index(table@, device_name@, 0) == device_index(table@, device_name@, i as int),
        decreases table.len() - i,
    {
        if table[i].name == wanted {
            return decode_entry(fuses, &table[i]);
        }
        i = i + 1;
    }
    Err(XC2BitError::BadDeviceName(wanted))
}

/// Decodes the fuse array `fuses` as the configuration of the device `d`.
pub fn decode_entry(fuses: &FuseArray, d: &DeviceEntry) -> (r: Result<
    DeviceConfiguration,
    XC2BitError,
>)
    ensures
        decode_outcome(*d, fuses@, r),
{
    proof {
        use_type_invariant(d);
    }
    let f = &fuses.fuses;
    if f.len() != d.fuse_count {
        return Err(XC2BitError::WrongFuseCount);
    }
    let o = d.oe_offset;
    let t = (f[o], f[o + 1], f[o + 2], f[o + 3]);
    let oe = match find_oe(&d.oe_table, t) {
        Some(m) => m,
        None => {
            return Err(XC2BitError::UnsupportedOeConfiguration(t));
        },
    };
    let ghost oe_val = oe_bits(f@, d.oe_offset as nat);
    assert(t == oe_val);
    let mut zia: Vec<usize> = Vec::new();
    let mut k: usize = 0;
    while k < d.zia_rows.len()
        invariant
            k <= d.zia_rows.len(),
            f@.len() == d.fuse_count,
            f@ == fuses@,
            layout_fits(d.fuse_count as nat, d.oe_offset as nat, d.zia_rows@),
            first_bad_row(f@, d.zia_rows@, 0) == first_bad_row(f@, d.zia_rows@, k as int),
            zia@.len() == k,
            first_index(d.oe_table@, oe_val, 0) == Some(oe as int),
            oe_val == oe_bits(f@, d.oe_offset as nat),
            forall|j: int|
                0 <= j < k ==> Some(#[trigger] zia@[j] as int) == row_choice(f@, d.zia_rows@[j]),
        decreases d.zia_rows.len() - k,
    {
        let row = &d.zia_rows[k];
        assert(row.offset + row.width <= f@.len());
        let (bits, choice) = decode_row(f, row);
        match choice {
            Some(m) => {
                zia.push(m);
            },
            None => {
                assert(first_bad_row(f@, d.zia_rows@, k as int) == Some(k as int));
                assert(d.zia_view()[k as int] == *row);
                return Err(XC2BitError::UnsupportedZIAConfiguration(bits));
            },
        }
        k = k + 1;
    }
    Ok(DeviceConfiguration { oe, zia })
}

} // verus!
