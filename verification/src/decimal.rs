//! Decimal numbers as they stand in header values: reading a length, writing one.
use crate::text::{char_is_digit, chars_of, is_digit};
use vstd::prelude::*;
use vstd::string::StringExecFns;

verus! {

/// Why a text is not a length.
#[derive(Debug, Copy, Clone, PartialEq, Eq, Structural)]
pub enum LengthError {
    /// The text is empty.
    Empty,
    /// A character that is no decimal digit stands where a digit is expected.
    InvalidDigit,
    /// The digits name a number greater than `usize::MAX`.
    Overflow,
}

/// The number that the digit `c` stands for.
pub open spec fn digit_value(c: char) -> nat {
    (c as u32 - 0x30) as nat
}

/// The character for a number below ten.
pub open spec fn digit_char(d: nat) -> char {
    if d == 0 {
        '0'
    } else if d == 1 {
        '1'
    } else if d == 2 {
        '2'
    } else if d == 3 {
        '3'
    } else if d == 4 {
        '4'
    } else if d == 5 {
        '5'
    } else if d == 6 {
        '6'
    } else if d == 7 {
        '7'
    } else if d == 8 {
        '8'
    } else {
        '9'
    }
}

/// `n` written in decimal, without leading zeros.
pub open spec fn decimal(n: nat) -> Seq<char>
    decreases n,
{
    if n < 10 {
        seq![digit_char(n)]
    } else {
        decimal(n / 10).push(digit_char(n % 10))
    }
}

/// The number that the digits of `s` from `lo` up to `hi` name.
pub open spec fn value_between(s: Seq<char>, lo: int, hi: int) -> nat
    decreases hi - lo,
{
    if 0 <= lo < hi && hi <= s.len() {
        value_between(s, lo, hi - 1) * 10 + digit_value(s[hi - 1])
    } else {
        0
    }
}

/// The first position at or after `i` that holds no digit, or the length of `s`.
pub open spec fn digits_end(s: Seq<char>, i: int) -> int
    decreases s.len() - i,
{
    if 0 <= i < s.len() && is_digit(s[i]) {
        digits_end(s, i + 1)
    } else {
        i
    }
}

/// What `s` says as a length: an optional `+`, then one or more digits and nothing else.
/// The text is read from the left, and the first fault met decides the error: a number
/// that has already grown past `usize::MAX` is an overflow even if a character that is
/// no digit follows later.
pub open spec fn parsed_length(s: Seq<char>) -> Result<nat, LengthError> {
    if s.len() == 0 {
        Err(LengthError::Empty)
    } else {
        let lo: int = if s[0] == '+' {
            1
        } else {
            0
        };
        let k = digits_end(s, lo);
        if lo == s.len() {
            Err(LengthError::InvalidDigit)
        } else if value_between(s, lo, k) > usize::MAX {
            Err(LengthError::Overflow)
        } else if k < s.len() {
            Err(LengthError::InvalidDigit)
        } else {
            Ok(value_between(s, lo, k))
        }
    }
}

proof fn lemma_digits_end_is(s: Seq<char>, i: int, k: int)
    requires
        0 <= i <= k <= s.len(),
        forall|j: int| i <= j < k ==> is_digit(#[trigger] s[j]),
        k < s.len() ==> !is_digit(s[k]),
    ensures
        digits_end(s, i) == k,
    decreases k - i,
{
    if i < k {
        assert(is_digit(s[i]));
        lemma_digits_end_is(s, i + 1, k);
    }
}

proof fn lemma_digits_end_bounds(s: Seq<char>, i: int)
    requires
        0 <= i <= s.len(),
    ensures
        i <= digits_end(s, i) <= s.len(),
    decreases s.len() - i,
{
    if i < s.len() && is_digit(s[i]) {
        lemma_digits_end_bounds(s, i + 1);
    }
}

proof fn lemma_value_grows(s: Seq<char>, lo: int, mid: int, hi: int)
    requires
        0 <= lo <= mid <= hi <= s.len(),
    ensures
        value_between(s, lo, mid) <= value_between(s, lo, hi),
    decreases hi - mid,
{
    if mid < hi {
        lemma_value_grows(s, lo, mid, hi - 1);
    }
}

impl LengthError {
    /// The sentence that describes the fault.
    pub open spec fn text(self) -> Seq<char> {
        match self {
            LengthError::Empty => "cannot parse integer from empty string"@,
            LengthError::InvalidDigit => "invalid digit found in string"@,
            LengthError::Overflow => "number too large to fit in target type"@,
        }
    }

    /// The sentence that describes the fault.
    pub fn as_str(&self) -> (s: &'static str)
        ensures
            s@ == self.text(),
    {
        match self {
            LengthError::Empty => "cannot parse integer from empty string",
            LengthError::InvalidDigit => "invalid digit found in string",
            LengthError::Overflow => "number too large to fit in target type",
        }
    }
}

/// Reads a length.
pub fn parse_length(s: &str) -> (r: Result<usize, LengthError>)
    ensures
        match r {
            Ok(n) => parsed_length(s@) == Ok::<nat, LengthError>(n as nat),
            Err(e) => parsed_length(s@) == Err::<nat, LengthError>(e),
        },
{
    let v = chars_of(s);
    if v.len() == 0 {
        return Err(LengthError::Empty);
    }
    let lo: usize = if v[0] == '+' {
        1
    } else {
        0
    };
    if lo == v.len() {
        return Err(LengthError::InvalidDigit);
    }
    let mut acc: usize = 0;
    let mut i: usize = lo;
    while i < v.len()
        invariant
            v@ == s@,
            lo <= i <= v.len(),
            lo < v.len(),
            lo == if v@[0] == '+' {
                1int
            } else {
                0int
            },
            forall|j: int| lo <= j < i ==> is_digit(#[trigger] v@[j]),
            acc == value_between(v@, lo as int, i as int),
        decreases v.len() - i,
    {
        let c = v[i];
        if !char_is_digit(c) {
            proof {
                lemma_digits_end_is(v@, lo as int, i as int);
            }
            return Err(LengthError::InvalidDigit);
        }
        let d: usize = (c as u32 - 0x30) as usize;
        if acc > (usize::MAX - d) / 10 {
            proof {
                lemma_digits_end_bounds(v@, i as int + 1);
                let k = digits_end(v@, i as int + 1);
                assert(digits_end(v@, i as int) == k);
                assert forall|j: int| lo <= j < k implies is_digit(#[trigger] v@[j]) by {
                    if j > i {
                        lemma_digits_run(v@, i as int + 1, j);
                    }
                }
                if k < v@.len() {
                    lemma_digits_stop(v@, i as int + 1);
                }
                lemma_digits_end_is(v@, lo as int, k);
                lemma_value_grows(v@, lo as int, i as int + 1, k);
            }
            return Err(LengthError::Overflow);
        }
        acc = acc * 10 + d;
        i += 1;
    }
    proof {
        lemma_digits_end_is(v@, lo as int, i as int);
    }
    Ok(acc)
}

proof fn lemma_digits_run(s: Seq<char>, i: int, j: int)
    requires
        0 <= i <= j < digits_end(s, i),
        i <= s.len(),
    ensures
        is_digit(s[j]),
    decreases s.len() - i,
{
    if i < s.len() && is_digit(s[i]) {
        if i < j {
            lemma_digits_run(s, i + 1, j);
        }
    }
}

proof fn lemma_digits_stop(s: Seq<char>, i: int)
    requires
        0 <= i <= s.len(),
        digits_end(s, i) < s.len(),
    ensures
        !is_digit(s[digits_end(s, i)]),
    decreases s.len() - i,
{
    if i < s.len() && is_digit(s[i]) {
        lemma_digits_stop(s, i + 1);
    }
}

fn digit_str(d: usize) -> (s: &'static str)
    requires
        d < 10,
    ensures
        s@ == seq![digit_char(d as nat)],
{
    proof {
        reveal_strlit("0");
        reveal_strlit("1");
        reveal_strlit("2");
        reveal_strlit("3");
        reveal_strlit("4");
        reveal_strlit("5");
        reveal_strlit("6");
        reveal_strlit("7");
        reveal_strlit("8");
        reveal_strlit("9");
    }
    let s = match d {
        0 => "0",
        1 => "1",
        2 => "2",
        3 => "3",
        4 => "4",
        5 => "5",
        6 => "6",
        7 => "7",
        8 => "8",
        _ => "9",
    };
    assert(s@ =~= seq![digit_char(d as nat)]);
    s
}

/// Writes `n` in decimal.
pub fn decimal_string(n: usize) -> (s: String)
    ensures
        s@ == decimal(n as nat),
    decreases n,
{
    if n < 10 {
        digit_str(n).to_owned()
    } else {
        let mut s = decimal_string(n / 10);
        s.append(digit_str(n % 10));
        assert(s@ =~= decimal(n as nat));
        s
    }
}

proof fn lemma_value_of_prefix(s: Seq<char>, t: Seq<char>, hi: int)
    requires
        0 <= hi <= s.len(),
        hi <= t.len(),
        forall|j: int| 0 <= j < hi ==> s[j] == t[j],
    ensures
        value_between(s, 0, hi) == value_between(t, 0, hi),
    decreases hi,
{
    if 0 < hi {
        lemma_value_of_prefix(s, t, hi - 1);
    }
}

/// A number written in decimal is one or more digits, and they name that number.
pub proof fn lemma_decimal_digits(n: nat)
    ensures
        decimal(n).len() >= 1,
        forall|j: int| 0 <= j < decimal(n).len() ==> is_digit(#[trigger] decimal(n)[j]),
        value_between(decimal(n), 0, decimal(n).len() as int) == n,
    decreases n,
{
    let s = decimal(n);
    if n < 10 {
        assert(s.len() == 1);
        assert(s[0] == digit_char(n));
        assert(value_between(s, 0, 0) == 0);
        assert(value_between(s, 0, 1) == value_between(s, 0, 0) * 10 + digit_value(s[0]));
    } else {
        let t = decimal(n / 10);
        lemma_decimal_digits(n / 10);
        assert(s == t.push(digit_char(n % 10)));
        assert(s.len() == t.len() + 1);
        assert forall|j: int| 0 <= j < s.len() implies is_digit(#[trigger] s[j]) by {
            if j < t.len() {
                assert(s[j] == t[j]);
            }
        }
        assert forall|j: int| 0 <= j < t.len() implies s[j] == t[j] by {}
        lemma_value_of_prefix(s, t, t.len() as int);
        assert(value_between(s, 0, s.len() as int) == value_between(s, 0, s.len() - 1) * 10
            + digit_value(s[s.len() - 1]));
    }
}

/// A length that is written in decimal is read back as the same length.
pub proof fn lemma_decimal_is_read_back(n: nat)
    requires
        n <= usize::MAX,
    ensures
        parsed_length(decimal(n)) == Ok::<nat, LengthError>(n),
{
    lemma_decimal_digits(n);
    let s = decimal(n);
    assert(is_digit(s[0]));
    lemma_digits_end_is(s, 0, s.len() as int);
}

} // verus!
