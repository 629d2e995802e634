//! Reading unsigned numbers written in decimal or hexadecimal digits.
use vstd::prelude::*;

verus! {

/// The value of the ASCII digit `c` in base `radix` (up to 16, either
/// letter case), or -1 when `c` is no digit of that base.
pub open spec fn digit_value(c: u8, radix: nat) -> int {
    let v: int = if 48 <= c <= 57 {
        c - 48
    } else if 65 <= c <= 70 {
        c - 55
    } else if 97 <= c <= 102 {
        c - 87
    } else {
        16
    };
    if v < radix {
        v
    } else {
        -1
    }
}

/// Every byte of `s` is a digit of base `radix`.
pub open spec fn all_digits(s: Seq<u8>, radix: nat) -> bool {
    forall|i: int| 0 <= i < s.len() ==> digit_value(#[trigger] s[i], radix) >= 0
}

/// The value of the digit string `s` in base `radix`, most significant first.
pub open spec fn digits_value(s: Seq<u8>, radix: nat) -> nat
    decreases s.len(),
{
    if s.len() == 0 {
        0
    } else {
        digits_value(s.drop_last(), radix) * radix + digit_value(s.last(), radix) as nat
    }
}

/// The number that `s` writes in base `radix`, if `s` is a non-empty string
/// of digits whose value is at most `max`.
pub open spec fn number(s: Seq<u8>, radix: nat, max: nat) -> Option<nat> {
    if s.len() > 0 && all_digits(s, radix) && digits_value(s, radix) <= max {
        Some(digits_value(s, radix))
    } else {
        None
    }
}

proof fn lemma_digits_value_grows(s: Seq<u8>, k: int, radix: nat)
    requires
        0 <= k <= s.len(),
        radix >= 1,
        all_digits(s, radix),
    ensures
        digits_value(s.subrange(0, k), radix) <= digits_value(s, radix),
    decreases s.len(),
{
    if k < s.len() {
        let p = s.drop_last();
        assert(all_digits(p, radix));
        lemma_digits_value_grows(p, k, radix);
        assert(p.subrange(0, k) =~= s.subrange(0, k));
        let a = digits_value(p, radix);
        assert(a <= a * radix) by (nonlinear_arith)
            requires
                radix >= 1,
        ;
        assert(digit_value(s[s.len() - 1], radix) >= 0);
    } else {
        assert(s.subrange(0, k) =~= s);
    }
}

/// Value of one digit byte in base `radix`.
pub fn digit_of(c: u8, radix: u64) -> (r: Option<u64>)
    requires
        2 <= radix <= 16,
    ensures
        match r {
            Some(v) => v == digit_value(c, radix as nat),
            None => digit_value(c, radix as nat) < 0,
        },
{
    let v: u64 = if 48 <= c && c <= 57 {
        (c - 48) as u64
    } else if 65 <= c && c <= 70 {
        (c - 55) as u64
    } else if 97 <= c && c <= 102 {
        (c - 87) as u64
    } else {
        16
    };
    if v < radix {
        Some(v)
    } else {
        None
    }
}

/// Reads the number that `s[lo..hi]` writes in base `radix`, accepting it
/// only when it is non-empty, all digits, and at most `max`.
pub fn parse_number(s: &[u8], lo: usize, hi: usize, radix: u64, max: u64) -> (r: Option<u64>)
    requires
        lo <= hi <= s.len(),
        2 <= radix <= 16,
    ensures
        match number(s@.subrange(lo as int, hi as int), radix as nat, max as nat) {
            Some(v) => r == Some(v as u64),
            None => r is None,
        },
{
    let ghost full = s@.subrange(lo as int, hi as int);
    if lo == hi {
        return None;
    }
    let mut v: u64 = 0;
    let mut i: usize = lo;
    while i < hi
        invariant
            lo <= i <= hi <= s.len(),
            2 <= radix <= 16,
            full == s@.subrange(lo as int, hi as int),
            all_digits(s@.subrange(lo as int, i as int), radix as nat),
            v as nat == digits_value(s@.subrange(lo as int, i as int), radix as nat),
            v <= max,
        decreases hi - i,
    {
        let ghost pre = s@.subrange(lo as int, i as int);
        let ghost next = s@.subrange(lo as int, i as int + 1);
        assert(next.drop_last() =~= pre);
        assert(full[i - lo] == s@[i as int]);
        let d = match digit_of(s[i], radix) {
            Some(d) => d,
            None => {
                return None;
            },
        };
        assert(all_digits(next, radix as nat)) by {
            assert forall|j: int| 0 <= j < next.len() implies digit_value(
                #[trigger] next[j],
                radix as nat,
            ) >= 0 by {
                if j < pre.len() {
                    assert(next[j] == pre[j]);
                }
            }
        }
        let m = v.checked_mul(radix);
        let w = match m {
            Some(m) => m.checked_add(d),
            None => None,
        };
        let ok = match w {
            Some(w) => w <= max,
            None => false,
        };
        if !ok {
            proof {
                assert(digits_value(next, radix as nat) > max);
                if all_digits(full, radix as nat) {
                    assert(full.subrange(0, i - lo + 1) =~= next);
                    lemma_digits_value_grows(full, i - lo + 1, radix as nat);
                }
            }
            return None;
        }
        v = w.unwrap();
        i = i + 1;
    }
    assert(s@.subrange(lo as int, i as int) =~= full);
    Some(v)
}

} // verus!
