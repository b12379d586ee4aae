//! Core logic of dockeye, a desktop client for the Docker engine: parsing of
//! user input, the state machines of the GUI and of the background worker, and
//! the text the GUI shows, each with a contract checked by Verus.
pub mod app;
pub mod event;
pub mod text;
pub mod worker;

use vstd::prelude::*;
use vstd::string::*;
use vstd::utf8::*;

use crate::text::{ascii_lower, char_is_ascii_digit, digits_value, is_numeric, lowercase, lowercase_of, numeric};

verus! {

/// Name of the application.
pub const APP_NAME: &'static str = "dockeye";

/// Address of the Docker daemon used when the settings name none.
pub const DEFAULT_DOCKER_ADDR: &'static str = "unix:///var/run/docker.sock";

/// Why a memory size could not be read.
#[derive(Debug)]
pub enum MemoryError {
    /// The number in front of the unit is missing, is not made of decimal
    /// digits, or does not fit in a `u64`.
    InvalidNumber,
    /// The text after the number is not one of the known units.
    InvalidUnit { unit: String },
}

impl View for MemoryError {
    /// `None` for a bad number, `Some(unit)` for a bad unit.
    type V = Option<Seq<char>>;

    open spec fn view(&self) -> Option<Seq<char>> {
        match self {
            MemoryError::InvalidNumber => None,
            MemoryError::InvalidUnit { unit } => Some(unit@),
        }
    }
}

impl MemoryError {
    /// The text of the error as it is shown to the user: "parsing memory
    /// number failed" for a bad number, "invalid unit: " and the unit, as it
    /// was written, for a bad unit.
    pub fn message(&self) -> (r: String)
        ensures
            r@ == match self@ {
                None => "parsing memory number failed"@,
                Some(unit) => "invalid unit: "@ + unit,
            },
    {
        match self {
            MemoryError::InvalidNumber => String::from_str("parsing memory number failed"),
            MemoryError::InvalidUnit { unit } => {
                let mut m = String::from_str("invalid unit: ");
                m.append(unit.as_str());
                m
            },
        }
    }
}

/// Index of the first character of `s` that is not numeric, if there is one.
pub open spec fn first_non_numeric(s: Seq<char>) -> Option<int> {
    if exists|i: int| 0 <= i < s.len() && !numeric(#[trigger] s[i]) {
        Some(
            choose|i: int|
                0 <= i < s.len() && !numeric(#[trigger] s[i]) && forall|j: int|
                    0 <= j < i ==> numeric(#[trigger] s[j]),
        )
    } else {
        None
    }
}

/// Every character of `s` is an ASCII decimal digit.
pub open spec fn all_ascii_digits(s: Seq<char>) -> bool {
    forall|i: int| 0 <= i < s.len() ==> char_is_ascii_digit(#[trigger] s[i])
}

/// What `u64::from_str` gives for a string of numeric characters: the value
/// when the string is a non-empty run of ASCII digits that fits in a `u64`.
pub open spec fn parse_number(s: Seq<char>) -> Option<u64> {
    if s.len() > 0 && all_ascii_digits(s) && digits_value(s) <= u64::MAX {
        Some(digits_value(s) as u64)
    } else {
        None
    }
}

/// `n * factor`, or `u64::MAX` where that does not fit.
pub open spec fn saturated_product(n: u64, factor: nat) -> u64 {
    if n * factor > u64::MAX {
        u64::MAX
    } else {
        (n * factor) as u64
    }
}

/// The factor that a memory unit stands for, the unit taken in lower case.
pub open spec fn unit_factor(unit: Seq<char>) -> Option<nat> {
    if unit == seq!['b'] {
        Some(1)
    } else if unit == seq!['k'] {
        Some(1000)
    } else if unit == seq!['m'] {
        Some(1000_000)
    } else if unit == seq!['g'] {
        Some(1000_000_000)
    } else if unit == seq!['t'] {
        Some(1000_000_000_000)
    } else {
        None
    }
}

/// The meaning of a memory size such as `1G` or `100m`: a number of decimal
/// digits, optionally followed by a unit (`b`, `k`, `m`, `g` or `t`, in either
/// case) that multiplies it by a power of 1000, saturating at `u64::MAX`.
/// `Err(None)` stands for a bad number and `Err(Some(unit))` for a bad unit.
pub open spec fn memory_size(s: Seq<char>) -> Result<u64, Option<Seq<char>>> {
    match first_non_numeric(s) {
        None => match parse_number(s) {
            Some(n) => Ok(n),
            None => Err(None),
        },
        Some(i) => match parse_number(s.take(i)) {
            None => Err(None),
            Some(n) => match unit_factor(lowercase_of(s.skip(i))) {
                Some(f) => Ok(saturated_product(n, f)),
                None => Err(Some(s.skip(i))),
            },
        },
    }
}

/// The number part of `s` is cut out by a byte index equal to the count of
/// the characters in front of the unit; this holds where that index falls on
/// a character boundary, so the cut can be made.
pub open spec fn memory_cut_is_valid(s: &str) -> bool {
    match first_non_numeric(s@) {
        Some(i) => is_char_boundary(s.spec_bytes(), i),
        None => true,
    }
}

proof fn lemma_first_non_numeric(s: Seq<char>, i: int)
    requires
        0 <= i <= s.len(),
        forall|j: int| 0 <= j < i ==> numeric(#[trigger] s[j]),
        i < s.len() ==> !numeric(s[i]),
    ensures
        first_non_numeric(s) == (if i < s.len() { Some(i) } else { None::<int> }),
{
    if i < s.len() {
        assert(!numeric(s[i]));
        let k = choose|k: int|
            0 <= k < s.len() && !numeric(#[trigger] s[k]) && forall|j: int|
                0 <= j < k ==> numeric(#[trigger] s[j]);
        if k < i {
            assert(numeric(s[k]));
        }
        if i < k {
            assert(numeric(s[i]));
        }
    }
}

/// Parses a run of ASCII digits, as `u64::from_str` does for the strings that
/// the memory parser hands it.
fn parse_digits(s: &str, end: usize) -> (r: Option<u64>)
    requires
        end <= s@.len(),
    ensures
        r == parse_number(s@.take(end as int)),
{
    let ghost t = s@.take(end as int);
    if end == 0 {
        return None;
    }
    let mut acc: u64 = 0;
    let mut i: usize = 0;
    while i < end
        invariant
            i <= end <= s@.len(),
            t == s@.take(end as int),
            all_ascii_digits(t.take(i as int)),
            acc == digits_value(t.take(i as int)),
        decreases end - i,
    {
        let c = s.get_char(i);
        if !('0' <= c && c <= '9') {
            assert(!char_is_ascii_digit(t[i as int]));
            return None;
        }
        let d = (c as u32 - '0' as u32) as u64;
        proof {
            assert(t.take(i as int + 1).drop_last() =~= t.take(i as int));
            crate::text::lemma_digits_value_prefix(t, i as int + 1);
        }
        let next = match acc.checked_mul(10) {
            Some(v) => v.checked_add(d),
            None => None,
        };
        match next {
            Some(v) => {
                acc = v;
            },
            None => {
                proof {
                    crate::text::lemma_digits_value_monotone(t, i as int + 1);
                }
                return None;
            },
        }
        i = i + 1;
    }
    assert(t.take(end as int) =~= t);
    Some(acc)
}

/// `n * 1000^k`, saturating at `u64::MAX` at each step.
fn saturating_kilo_power(n: u64, k: u32) -> (r: u64)
    requires
        k <= 4,
    ensures
        r == saturated_product(n, vstd::arithmetic::power::pow(1000, k as nat) as nat),
{
    let mut acc = n;
    let mut j: u32 = 0;
    proof {
        vstd::arithmetic::power::lemma_pow0(1000);
    }
    while j < k
        invariant
            j <= k <= 4,
            acc == saturated_product(n, vstd::arithmetic::power::pow(1000, j as nat) as nat),
        decreases k - j,
    {
        let ghost p = vstd::arithmetic::power::pow(1000, j as nat);
        proof {
            vstd::arithmetic::power::lemma_pow_positive(1000, j as nat);
            vstd::arithmetic::power::lemma_pow_adds(1000, j as nat, 1);
            vstd::arithmetic::power::lemma_pow1(1000);
            assert(vstd::arithmetic::power::pow(1000, (j + 1) as nat) == p * 1000);
            if n * p > u64::MAX {
                assert(n * (p * 1000) >= n * p) by (nonlinear_arith)
                    requires
                        p > 0,
                ;
                assert(n * (p * 1000) == (n * p) * 1000) by (nonlinear_arith);
            } else {
                assert(n * (p * 1000) == (n * p) * 1000) by (nonlinear_arith);
            }
        }
        acc = match acc.checked_mul(1000) {
            Some(v) => v,
            None => u64::MAX,
        };
        j = j + 1;
    }
    acc
}

/// Number of leading numeric characters of `s`.
fn numeric_prefix_len(s: &str) -> (i: usize)
    ensures
        i <= s@.len(),
        forall|j: int| 0 <= j < i ==> numeric(#[trigger] s@[j]),
        i < s@.len() ==> !numeric(s@[i as int]),
{
    let n = s.unicode_len();
    let mut i: usize = 0;
    while i < n && is_numeric(s.get_char(i))
        invariant
            i <= n,
            n == s@.len(),
            forall|j: int| 0 <= j < i ==> numeric(#[trigger] s@[j]),
        decreases n - i,
    {
        i = i + 1;
    }
    i
}

/// The exponent `k` of the factor `1000^k` that a lower-case unit stands for.
fn unit_exponent(u: &str) -> (k: Option<u32>)
    ensures
        match unit_factor(u@) {
            Some(f) => k matches Some(e) && e <= 4 && f == vstd::arithmetic::power::pow(1000, e as nat),
            None => k is None,
        },
{
    proof {
        reveal_with_fuel(vstd::arithmetic::power::pow, 5);
    }
    if u.unicode_len() != 1 {
        return None;
    }
    let c = u.get_char(0);
    proof {
        assert(u@ == seq![u@[0]]);
    }
    if c == 'b' {
        Some(0)
    } else if c == 'k' {
        Some(1)
    } else if c == 'm' {
        Some(2)
    } else if c == 'g' {
        Some(3)
    } else if c == 't' {
        Some(4)
    } else {
        None
    }
}

/// Converts a memory string like `1G`, `100M` etc. into a number of bytes.
///
/// The number is cut out of the text at the byte index equal to the number of
/// characters before the unit (the characters are counted, the text is sliced
/// by bytes); where that index is no character boundary the cut cannot be
/// made, so `requires` leaves those inputs out (`try_convert_memory` takes
/// every input).
pub fn convert_memory(s: &str) -> (r: Result<u64, MemoryError>)
    requires
        memory_cut_is_valid(s),
    ensures
        match r {
            Ok(v) => memory_size(s@) == Ok::<u64, Option<Seq<char>>>(v),
            Err(e) => memory_size(s@) == Err::<u64, Option<Seq<char>>>(e@),
        },
{
    let n = s.unicode_len();
    let i = numeric_prefix_len(s);
    proof {
        lemma_first_non_numeric(s@, i as int);
        assert(s@.take(n as int) =~= s@);
    }
    if i == n {
        return match parse_digits(s, n) {
            Some(v) => Ok(v),
            None => Err(MemoryError::InvalidNumber),
        };
    }
    let num = match parse_digits(s, i) {
        Some(v) => v,
        None => {
            return Err(MemoryError::InvalidNumber);
        },
    };
    let rest = s.substring_char(i, n);
    assert(rest@ =~= s@.skip(i as int));
    let unit = lowercase(rest);
    match unit_exponent(unit.as_str()) {
        Some(k) => Ok(saturating_kilo_power(num, k)),
        None => Err(MemoryError::InvalidUnit { unit: rest.to_owned() }),
    }
}

/// `convert_memory` for every input: `None` exactly where the number part
/// cannot be cut out of `s` (see `memory_cut_is_valid`).
pub fn try_convert_memory(s: &str) -> (r: Option<Result<u64, MemoryError>>)
    ensures
        r is None <==> !memory_cut_is_valid(s),
        r matches Some(res) ==> match res {
            Ok(v) => memory_size(s@) == Ok::<u64, Option<Seq<char>>>(v),
            Err(e) => memory_size(s@) == Err::<u64, Option<Seq<char>>>(e@),
        },
{
    let n = s.unicode_len();
    let i = numeric_prefix_len(s);
    proof {
        lemma_first_non_numeric(s@, i as int);
    }
    if i < n && !s.is_char_boundary(i) {
        return None;
    }
    Some(convert_memory(s))
}

/// The factor of a one-letter unit, in either case.
pub open spec fn unit_letter_factor(c: char) -> Option<nat> {
    unit_factor(seq![ascii_lower(c)])
}

/// Law: a number written with ASCII digits alone is read as that many bytes,
/// where it fits in a `u64`.
pub proof fn lemma_memory_plain_number(digits: Seq<char>)
    requires
        digits.len() > 0,
        all_ascii_digits(digits),
        digits_value(digits) <= u64::MAX,
    ensures
        memory_size(digits) == Ok::<u64, Option<Seq<char>>>(digits_value(digits) as u64),
{
    lemma_first_non_numeric(digits, digits.len() as int);
}

/// Law: a number followed by a unit letter (`b`, `k`, `m`, `g` or `t`, in
/// either case) is read as the number times the unit's power of 1000,
/// saturating at `u64::MAX`; upper and lower case give the same size.
pub proof fn lemma_memory_unit_letter(digits: Seq<char>, unit: char)
    requires
        digits.len() > 0,
        all_ascii_digits(digits),
        digits_value(digits) <= u64::MAX,
        unit_letter_factor(unit) is Some,
    ensures
        memory_size(digits.push(unit)) == Ok::<u64, Option<Seq<char>>>(
            saturated_product(digits_value(digits) as u64, unit_letter_factor(unit)->0),
        ),
        memory_size(digits.push(unit)) == memory_size(digits.push(ascii_lower(unit))),
{
    let s = digits.push(unit);
    let t = digits.push(ascii_lower(unit));
    let l = ascii_lower(unit);
    assert(l == 'b' || l == 'k' || l == 'm' || l == 'g' || l == 't') by {
        if seq![l] == seq!['b'] {
            assert(seq![l][0] == 'b');
        } else if seq![l] == seq!['k'] {
            assert(seq![l][0] == 'k');
        } else if seq![l] == seq!['m'] {
            assert(seq![l][0] == 'm');
        } else if seq![l] == seq!['g'] {
            assert(seq![l][0] == 'g');
        } else if seq![l] == seq!['t'] {
            assert(seq![l][0] == 't');
        }
    }
    assert((unit as u32) >= 65 && (unit as u32) < 128);
    assert(!char_is_ascii_digit(unit));
    assert(!char_is_ascii_digit(ascii_lower(unit)));
    lemma_first_non_numeric(s, digits.len() as int);
    lemma_first_non_numeric(t, digits.len() as int);
    assert(s.take(digits.len() as int) =~= digits);
    assert(t.take(digits.len() as int) =~= digits);
    assert(s.skip(digits.len() as int) =~= seq![unit]);
    assert(t.skip(digits.len() as int) =~= seq![ascii_lower(unit)]);
    assert(lowercase_of(seq![unit]) =~= seq![ascii_lower(unit)]);
    assert(lowercase_of(seq![ascii_lower(unit)]) =~= seq![ascii_lower(ascii_lower(unit))]);
}

} // verus!
