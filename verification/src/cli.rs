//! The simulator command line: chipset profiles and number arguments.
use vstd::prelude::*;
use vstd::string::StringSliceAdditionalSpecFns;
use crate::mediatek_csi::ChipsetProfile;

verus! {

/// Chipset profile named on the command line.
#[derive(Debug, Clone, Copy, PartialEq, Eq, Structural)]
pub enum Profile {
    Mt7981,
    Mt7986,
    Mt7996,
}

impl Profile {
    /// The chipset profile it stands for.
    pub fn chipset(self) -> (c: ChipsetProfile)
        ensures
            c == match self {
                Profile::Mt7981 => ChipsetProfile::Mt7981Mt7976,
                Profile::Mt7986 => ChipsetProfile::Mt7986Mt7975,
                Profile::Mt7996 => ChipsetProfile::Mt7988Mt7996,
            },
    {
        match self {
            Profile::Mt7981 => ChipsetProfile::Mt7981Mt7976,
            Profile::Mt7986 => ChipsetProfile::Mt7986Mt7975,
            Profile::Mt7996 => ChipsetProfile::Mt7988Mt7996,
        }
    }

    /// Number of RX chains used when none is given: the chipset's maximum.
    pub fn default_chains(self) -> (n: u8)
        ensures
            n == match self {
                Profile::Mt7981 => 3u8,
                Profile::Mt7986 | Profile::Mt7996 => 4u8,
            },
    {
        match self {
            Profile::Mt7981 => 3,
            Profile::Mt7986 | Profile::Mt7996 => 4,
        }
    }
}

/// Why a number argument was refused (the kinds of `core::num::ParseIntError`).
#[derive(Debug, Clone, Copy, PartialEq, Eq, Structural)]
pub enum IntParseError {
    Empty,
    InvalidDigit,
    PosOverflow,
}

/// The value of ASCII digit `b` in base `radix` (2 ..= 36), if it is one.
pub open spec fn digit_value(b: u8, radix: u64) -> Option<u64> {
    let v: int = if 48 <= b <= 57 {
        b - 48
    } else if 97 <= b <= 122 {
        b - 87
    } else if 65 <= b <= 90 {
        b - 55
    } else {
        99
    };
    if v < radix {
        Some(v as u64)
    } else {
        None
    }
}

/// Reads `ds` as digits in base `radix`, most significant first, stopping at the
/// first non-digit or at the first overflow of `u64`.
pub open spec fn fold_digits(ds: Seq<u8>, radix: u64) -> Result<u64, IntParseError>
    decreases ds.len(),
{
    if ds.len() == 0 {
        Ok(0)
    } else {
        match fold_digits(ds.drop_last(), radix) {
            Err(e) => Err(e),
            Ok(acc) => match digit_value(ds.last(), radix) {
                None => Err(IntParseError::InvalidDigit),
                Some(d) => if acc * radix + d > u64::MAX {
                    Err(IntParseError::PosOverflow)
                } else {
                    Ok((acc * radix + d) as u64)
                },
            },
        }
    }
}

/// `u64::from_str_radix`: an optional `+`, then at least one digit.
pub open spec fn spec_from_str_radix(s: Seq<u8>, radix: u64) -> Result<u64, IntParseError> {
    if s.len() == 0 {
        Err(IntParseError::Empty)
    } else if (s[0] == 43 || s[0] == 45) && s.len() == 1 {
        Err(IntParseError::InvalidDigit)
    } else if s[0] == 43 {
        fold_digits(s.skip(1), radix)
    } else {
        fold_digits(s, radix)
    }
}

/// Hexadecimal after a `0x` or `0X` prefix, decimal otherwise.
pub open spec fn spec_parse_u64(s: Seq<u8>) -> Result<u64, IntParseError> {
    if s.len() >= 2 && s[0] == 48 && (s[1] == 120 || s[1] == 88) {
        spec_from_str_radix(s.skip(2), 16)
    } else {
        spec_from_str_radix(s, 10)
    }
}

fn digit(b: u8, radix: u64) -> (r: Option<u64>)
    requires
        2 <= radix <= 36,
    ensures
        r == digit_value(b, radix),
{
    let v: u64 = if 48 <= b && b <= 57 {
        (b - 48) as u64
    } else if 97 <= b && b <= 122 {
        (b - 87) as u64
    } else if 65 <= b && b <= 90 {
        (b - 55) as u64
    } else {
        99
    };
    if v < radix {
        Some(v)
    } else {
        None
    }
}

fn fold_digits_from(s: &[u8], start: usize, radix: u64) -> (r: Result<u64, IntParseError>)
    requires
        start <= s@.len(),
        2 <= radix <= 36,
    ensures
        r == fold_digits(s@.skip(start as int), radix),
{
    let n = s.len();
    let mut acc: u64 = 0;
    let mut i: usize = start;
    let ghost ds = s@.skip(start as int);
    assert(ds.take(0) =~= Seq::<u8>::empty());
    while i < n
        invariant
            start <= i <= n,
            n == s@.len(),
            2 <= radix <= 36,
            ds == s@.skip(start as int),
            fold_digits(ds.take(i - start), radix) == Ok::<u64, IntParseError>(acc),
        decreases n - i,
    {
        let ghost pre = ds.take(i - start);
        let ghost next = ds.take(i - start + 1);
        assert(next.drop_last() =~= pre);
        assert(next.last() == s@[i as int]);
        let d = match digit(s[i], radix) {
            Some(d) => d,
            None => {
                proof {
                    lemma_fold_stops(ds, (i - start + 1) as nat, radix);
                }
                return Err(IntParseError::InvalidDigit);
            },
        };
        let m = match acc.checked_mul(radix) {
            Some(m) => m,
            None => {
                proof {
                    lemma_fold_stops(ds, (i - start + 1) as nat, radix);
                }
                return Err(IntParseError::PosOverflow);
            },
        };
        let t = match m.checked_add(d) {
            Some(t) => t,
            None => {
                proof {
                    lemma_fold_stops(ds, (i - start + 1) as nat, radix);
                }
                return Err(IntParseError::PosOverflow);
            },
        };
        acc = t;
        i = i + 1;
    }
    assert(ds.take(n - start) =~= ds);
    Ok(acc)
}

/// Once reading a prefix fails, reading the whole fails the same way.
proof fn lemma_fold_stops(ds: Seq<u8>, k: nat, radix: u64)
    requires
        k <= ds.len(),
        fold_digits(ds.take(k as int), radix) is Err,
    ensures
        fold_digits(ds, radix) == fold_digits(ds.take(k as int), radix),
    decreases ds.len() - k,
{
    if k < ds.len() {
        let next = ds.take(k + 1 as int);
        assert(next.drop_last() =~= ds.take(k as int));
        lemma_fold_stops(ds, k + 1, radix);
    } else {
        assert(ds.take(k as int) =~= ds);
    }
}

/// `u64::from_str_radix` on the bytes of `s`.
pub fn from_str_radix(s: &[u8], radix: u64) -> (r: Result<u64, IntParseError>)
    requires
        2 <= radix <= 36,
    ensures
        r == spec_from_str_radix(s@, radix),
{
    if s.len() == 0 {
        return Err(IntParseError::Empty);
    }
    if (s[0] == 43 || s[0] == 45) && s.len() == 1 {
        return Err(IntParseError::InvalidDigit);
    }
    if s[0] == 43 {
        fold_digits_from(s, 1, radix)
    } else {
        assert(s@.skip(0) =~= s@);
        fold_digits_from(s, 0, radix)
    }
}

/// Parses a seed: hexadecimal after `0x` or `0X`, decimal otherwise.
pub fn parse_u64(v: &str) -> (r: Result<u64, IntParseError>)
    ensures
        r == spec_parse_u64(v.spec_bytes()),
{
    let b = v.as_bytes();
    if b.len() >= 2 && b[0] == 48 && (b[1] == 120 || b[1] == 88) {
        let n: usize = b.len();
        let rest = &b[2..n];
        assert(rest@ =~= b@.skip(2));
        from_str_radix(rest, 16)
    } else {
        from_str_radix(b, 10)
    }
}

} // verus!
