//! Startup decisions: choosing the advance policy and parsing the
//! inter-generation delay. The process's argument list and all printing
//! stay with the caller; this module only decides.

use vstd::prelude::*;

verus! {

/// How the simulation advances from one generation to the next: on manual
/// confirmation, or automatically after a fixed delay in milliseconds.
#[derive(Clone, Copy, PartialEq, Eq, Structural, Debug)]
pub enum UpdateType {
    Manualy,
    Auto(u64),
}

/// Why startup refused its arguments.
#[derive(Clone, Copy, PartialEq, Eq, Structural, Debug)]
pub enum StartupError {
    /// The policy argument names neither `manualy` nor `auto`.
    UnknownPolicy,
    /// The `auto` policy was chosen without a delay argument.
    MissingDuration,
    /// The delay argument is not a non-negative integer that fits in `u64`.
    BadDuration,
}

/// `c` is an ASCII decimal digit.
pub open spec fn is_digit(c: u8) -> bool {
    0x30 <= c <= 0x39
}

/// Every byte of `s` is an ASCII decimal digit.
pub open spec fn all_digits(s: Seq<u8>) -> bool {
    forall|i: int| 0 <= i < s.len() ==> is_digit(#[trigger] s[i])
}

/// The value of `s` read as a decimal numeral, most significant digit
/// first.
pub open spec fn decimal_value(s: Seq<u8>) -> int
    decreases s.len(),
{
    if s.len() == 0 {
        0
    } else {
        decimal_value(s.drop_last()) * 10 + (s.last() - 0x30)
    }
}

/// A decimal numeral's value is never negative.
proof fn lemma_decimal_value_nonneg(s: Seq<u8>)
    requires
        all_digits(s),
    ensures
        decimal_value(s) >= 0,
    decreases s.len(),
{
    if s.len() > 0 {
        assert(all_digits(s.drop_last()));
        lemma_decimal_value_nonneg(s.drop_last());
    }
}

/// Dropping trailing digits never increases a numeral's value.
proof fn lemma_decimal_prefix_le(s: Seq<u8>, n: int)
    requires
        all_digits(s),
        0 <= n <= s.len(),
    ensures
        decimal_value(s.take(n)) <= decimal_value(s),
    decreases s.len() - n,
{
    if n == s.len() {
        assert(s.take(n) =~= s);
    } else {
        lemma_decimal_prefix_le(s, n + 1);
        assert(s.take(n + 1).drop_last() =~= s.take(n));
        assert(all_digits(s.take(n + 1)));
        lemma_decimal_value_nonneg(s.take(n));
        assert(decimal_value(s.take(n + 1)) == decimal_value(s.take(n)) * 10 + (s[n] - 0x30));
    }
}

/// Reads a delay in milliseconds: the whole input must be a non-empty run
/// of ASCII decimal digits whose value fits in `u64`. Returns the value,
/// or nothing when the input is empty, holds a non-digit, or overflows.
pub fn parse_duration(s: &[u8]) -> (r: Option<u64>)
    ensures
        match r {
            Some(v) => s@.len() > 0 && all_digits(s@) && v as int == decimal_value(s@),
            None => s@.len() == 0 || !all_digits(s@) || decimal_value(s@) > u64::MAX as int,
        },
{
    if s.len() == 0 {
        return None;
    }
    let n = s.len();
    let mut acc: u64 = 0;
    let mut i: usize = 0;
    while i < n
        invariant
            n == s@.len(),
            0 < n,
            i <= n,
            all_digits(s@.take(i as int)),
            acc as int == decimal_value(s@.take(i as int)),
        decreases n - i,
    {
        let c = s[i];
        if c < 0x30 || c > 0x39 {
            return None;
        }
        let d = (c - 0x30) as u64;
        proof {
            assert(s@.take(i as int + 1).drop_last() =~= s@.take(i as int));
            assert(s@.take(i as int + 1).last() == s@[i as int]);
        }
        if acc > 1844674407370955161u64 || (acc == 1844674407370955161u64 && d > 5) {
            proof {
                if all_digits(s@) {
                    lemma_decimal_prefix_le(s@, i as int + 1);
                }
            }
            return None;
        }
        acc = acc * 10 + d;
        i = i + 1;
    }
    proof {
        assert(s@.take(n as int) =~= s@);
    }
    Some(acc)
}

/// Two string slices hold the same characters.
fn str_eq(a: &str, b: &str) -> (r: bool)
    ensures
        r == (a@ == b@),
{
    let a_owned: String = a.to_owned();
    let b_owned: String = b.to_owned();
    a_owned == b_owned
}

/// Decides how the simulation will advance from the startup arguments: the
/// policy selector, and, for `auto`, a delay argument read by
/// `parse_duration`. Exactly one of the error cases names each way the
/// arguments can be refused; no simulation state exists yet when they are.
pub fn select_update(policy: &str, duration_arg: Option<&[u8]>) -> (r: Result<
    UpdateType,
    StartupError,
>)
    ensures
        match r {
            Ok(u) => match u {
                UpdateType::Manualy => policy@ == "manualy"@,
                UpdateType::Auto(d) => policy@ == "auto"@ && (duration_arg matches Some(s)
                    && s@.len() > 0 && all_digits(s@) && d as int == decimal_value(s@)),
            },
            Err(e) => match e {
                StartupError::UnknownPolicy => policy@ != "manualy"@ && policy@ != "auto"@,
                StartupError::MissingDuration => policy@ == "auto"@ && duration_arg is None,
                StartupError::BadDuration => policy@ == "auto"@ && (duration_arg matches Some(s)
                    && (s@.len() == 0 || !all_digits(s@) || decimal_value(s@)
                    > u64::MAX as int)),
            },
        },
{
    if str_eq(policy, "manualy") {
        Ok(UpdateType::Manualy)
    } else if str_eq(policy, "auto") {
        match duration_arg {
            Some(d) => match parse_duration(d) {
                Some(v) => Ok(UpdateType::Auto(v)),
                None => Err(StartupError::BadDuration),
            },
            None => Err(StartupError::MissingDuration),
        }
    } else {
        Err(StartupError::UnknownPolicy)
    }
}

} // verus!
