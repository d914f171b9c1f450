//! Decimal integers: parsing as `str::parse` does, and formatting.
use vstd::prelude::*;

verus! {

/// Why a decimal integer could not be parsed (the kinds of `ParseIntError`).
#[derive(Debug, Clone, Copy, PartialEq, Eq, Structural)]
pub enum IntError {
    Empty,
    InvalidDigit,
    PosOverflow,
    NegOverflow,
}

pub open spec fn is_digit(c: char) -> bool {
    '0' <= c && c <= '9'
}

pub open spec fn digit_value(c: char) -> int {
    (c as int) - ('0' as int)
}

/// Reading digits left to right into a non-negative value, failing at the
/// first non-digit or as soon as the value would exceed `max`.
pub open spec fn read_up(s: Seq<char>, max: int) -> Result<int, IntError>
    decreases s.len(),
{
    if s.len() == 0 {
        Ok(0)
    } else {
        match read_up(s.drop_last(), max) {
            Err(e) => Err(e),
            Ok(v) => if !is_digit(s.last()) {
                Err(IntError::InvalidDigit)
            } else if v * 10 + digit_value(s.last()) > max {
                Err(IntError::PosOverflow)
            } else {
                Ok(v * 10 + digit_value(s.last()))
            },
        }
    }
}

/// Reading digits left to right into a non-positive value, failing at the
/// first non-digit or as soon as the value would fall below `min`.
pub open spec fn read_down(s: Seq<char>, min: int) -> Result<int, IntError>
    decreases s.len(),
{
    if s.len() == 0 {
        Ok(0)
    } else {
        match read_down(s.drop_last(), min) {
            Err(e) => Err(e),
            Ok(v) => if !is_digit(s.last()) {
                Err(IntError::InvalidDigit)
            } else if v * 10 - digit_value(s.last()) < min {
                Err(IntError::NegOverflow)
            } else {
                Ok(v * 10 - digit_value(s.last()))
            },
        }
    }
}

/// What `u64::from_str` yields: an optional `+`, then at least one digit.
pub open spec fn parse_u64_spec(s: Seq<char>) -> Result<int, IntError> {
    if s.len() == 0 {
        Err(IntError::Empty)
    } else {
        let body = if s[0] == '+' {
            s.drop_first()
        } else {
            s
        };
        if body.len() == 0 {
            Err(IntError::InvalidDigit)
        } else {
            read_up(body, u64::MAX as int)
        }
    }
}

/// What `i16::from_str` yields: an optional sign, then at least one digit.
pub open spec fn parse_i16_spec(s: Seq<char>) -> Result<int, IntError> {
    if s.len() == 0 {
        Err(IntError::Empty)
    } else if s[0] == '-' {
        if s.len() == 1 {
            Err(IntError::InvalidDigit)
        } else {
            read_down(s.drop_first(), i16::MIN as int)
        }
    } else {
        let body = if s[0] == '+' {
            s.drop_first()
        } else {
            s
        };
        if body.len() == 0 {
            Err(IntError::InvalidDigit)
        } else {
            read_up(body, i16::MAX as int)
        }
    }
}

proof fn lemma_read_up_range(s: Seq<char>, max: int)
    requires
        max >= 0,
    ensures
        read_up(s, max) matches Ok(v) ==> 0 <= v <= max,
    decreases s.len(),
{
    if s.len() > 0 {
        lemma_read_up_range(s.drop_last(), max);
    }
}

proof fn lemma_read_down_range(s: Seq<char>, min: int)
    requires
        min <= 0,
    ensures
        read_down(s, min) matches Ok(v) ==> min <= v <= 0,
    decreases s.len(),
{
    if s.len() > 0 {
        lemma_read_down_range(s.drop_last(), min);
    }
}

fn read_digits_up(s: &[char], start: usize, max: u64) -> (r: Result<u64, IntError>)
    requires
        start <= s.len(),
    ensures
        match r {
            Ok(v) => read_up(s@.skip(start as int), max as int) == Ok::<int, IntError>(v as int),
            Err(e) => read_up(s@.skip(start as int), max as int) == Err::<int, IntError>(e),
        },
{
    let ghost body = s@.skip(start as int);
    let mut acc: u64 = 0;
    let mut i: usize = start;
    while i < s.len()
        invariant
            start <= i <= s.len(),
            body == s@.skip(start as int),
            read_up(body.take(i - start), max as int) == Ok::<int, IntError>(acc as int),
            acc <= max,
        decreases s.len() - i,
    {
        let ghost pre = body.take(i - start + 1);
        assert(pre.drop_last() =~= body.take(i - start));
        assert(pre.last() == s@[i as int]);
        let c = s[i];
        if !('0' <= c && c <= '9') {
            proof {
                lemma_read_up_err_persists(body, i - start + 1, max as int);
            }
            return Err(IntError::InvalidDigit);
        }
        let d: u64 = ((c as u32) - 48) as u64;
        if d > max || acc > (max - d) / 10 {
            assert(acc * 10 + d > max) by (nonlinear_arith)
                requires
                    d > max || acc > (max - d) / 10,
                    d <= 9,
                    acc >= 0,
            ;
            proof {
                lemma_read_up_err_persists(body, i - start + 1, max as int);
            }
            return Err(IntError::PosOverflow);
        }
        assert(acc * 10 + d <= max) by (nonlinear_arith)
            requires
                acc <= (max - d) / 10,
                d <= max,
        ;
        acc = acc * 10 + d;
        i = i + 1;
    }
    assert(body.take(s.len() - start) =~= body);
    Ok(acc)
}

proof fn lemma_read_up_err_persists(s: Seq<char>, i: int, max: int)
    requires
        0 <= i <= s.len(),
        read_up(s.take(i), max) is Err,
    ensures
        read_up(s, max) == read_up(s.take(i), max),
    decreases s.len() - i,
{
    if i < s.len() {
        assert(s.take(i + 1).drop_last() =~= s.take(i));
        lemma_read_up_err_persists(s, i + 1, max);
    } else {
        assert(s.take(i) =~= s);
    }
}


proof fn lemma_read_down_err_persists(s: Seq<char>, i: int, min: int)
    requires
        0 <= i <= s.len(),
        read_down(s.take(i), min) is Err,
    ensures
        read_down(s, min) == read_down(s.take(i), min),
    decreases s.len() - i,
{
    if i < s.len() {
        assert(s.take(i + 1).drop_last() =~= s.take(i));
        lemma_read_down_err_persists(s, i + 1, min);
    } else {
        assert(s.take(i) =~= s);
    }
}

fn read_digits_down(s: &[char], start: usize, min: i64) -> (r: Result<i64, IntError>)
    requires
        start <= s.len(),
        -1_000_000 <= min <= 0,
    ensures
        match r {
            Ok(v) => read_down(s@.skip(start as int), min as int) == Ok::<int, IntError>(v as int),
            Err(e) => read_down(s@.skip(start as int), min as int) == Err::<int, IntError>(e),
        },
{
    let ghost body = s@.skip(start as int);
    let mut acc: i64 = 0;
    let mut i: usize = start;
    while i < s.len()
        invariant
            start <= i <= s.len(),
            -1_000_000 <= min <= 0,
            body == s@.skip(start as int),
            read_down(body.take(i - start), min as int) == Ok::<int, IntError>(acc as int),
            min <= acc <= 0,
        decreases s.len() - i,
    {
        let ghost pre = body.take(i - start + 1);
        assert(pre.drop_last() =~= body.take(i - start));
        assert(pre.last() == s@[i as int]);
        let c = s[i];
        if !('0' <= c && c <= '9') {
            proof {
                lemma_read_down_err_persists(body, i - start + 1, min as int);
            }
            return Err(IntError::InvalidDigit);
        }
        let d: i64 = ((c as u32) - 48) as i64;
        let next: i64 = acc * 10 - d;
        if next < min {
            proof {
                lemma_read_down_err_persists(body, i - start + 1, min as int);
            }
            return Err(IntError::NegOverflow);
        }
        acc = next;
        i = i + 1;
    }
    assert(body.take(s.len() - start) =~= body);
    Ok(acc)
}

/// Parses a decimal `u64` as `str::parse::<u64>` does.
pub fn parse_u64(s: &[char]) -> (r: Result<u64, IntError>)
    ensures
        match r {
            Ok(v) => parse_u64_spec(s@) == Ok::<int, IntError>(v as int),
            Err(e) => parse_u64_spec(s@) == Err::<int, IntError>(e),
        },
{
    if s.len() == 0 {
        return Err(IntError::Empty);
    }
    let start: usize = if s[0] == '+' {
        1
    } else {
        0
    };
    assert(s@.skip(start as int) =~= (if s@[0] == '+' {
        s@.drop_first()
    } else {
        s@
    }));
    if start == s.len() {
        return Err(IntError::InvalidDigit);
    }
    read_digits_up(s, start, u64::MAX)
}

/// Parses a decimal `i16` as `str::parse::<i16>` does.
pub fn parse_i16(s: &[char]) -> (r: Result<i16, IntError>)
    ensures
        match r {
            Ok(v) => parse_i16_spec(s@) == Ok::<int, IntError>(v as int),
            Err(e) => parse_i16_spec(s@) == Err::<int, IntError>(e),
        },
{
    if s.len() == 0 {
        return Err(IntError::Empty);
    }
    if s[0] == '-' {
        if s.len() == 1 {
            return Err(IntError::InvalidDigit);
        }
        assert(s@.skip(1) =~= s@.drop_first());
        match read_digits_down(s, 1, -32768) {
            Ok(v) => {
                proof {
                    lemma_read_down_range(s@.drop_first(), -32768);
                }
                return Ok(v as i16);
            },
            Err(e) => {
                return Err(e);
            },
        }
    }
    let start: usize = if s[0] == '+' {
        1
    } else {
        0
    };
    assert(s@.skip(start as int) =~= (if s@[0] == '+' {
        s@.drop_first()
    } else {
        s@
    }));
    if start == s.len() {
        return Err(IntError::InvalidDigit);
    }
    match read_digits_up(s, start, 32767) {
        Ok(v) => {
            proof {
                lemma_read_up_range(s@.skip(start as int), 32767);
            }
            Ok(v as i16)
        },
        Err(e) => Err(e),
    }
}

pub open spec fn int_error_text(e: IntError) -> Seq<char> {
    match e {
        IntError::Empty => "cannot parse integer from empty string"@,
        IntError::InvalidDigit => "invalid digit found in string"@,
        IntError::PosOverflow => "number too large to fit in target type"@,
        IntError::NegOverflow => "number too small to fit in target type"@,
    }
}

impl IntError {
    /// The description that `ParseIntError` displays for this kind.
    pub fn description(self) -> (r: &'static str)
        ensures
            r@ == int_error_text(self),
    {
        match self {
            IntError::Empty => "cannot parse integer from empty string",
            IntError::InvalidDigit => "invalid digit found in string",
            IntError::PosOverflow => "number too large to fit in target type",
            IntError::NegOverflow => "number too small to fit in target type",
        }
    }
}

/// Decimal digits of `n`, most significant first.
pub open spec fn decimal(n: nat) -> Seq<char>
    decreases n,
{
    if n < 10 {
        seq![((('0' as int) + n) as u32) as char]
    } else {
        decimal(n / 10) + seq![((('0' as int) + (n % 10)) as u32) as char]
    }
}

/// The decimal digits of `n`.
pub fn decimal_digits(n: u64) -> (r: Vec<char>)
    ensures
        r@ == decimal(n as nat),
    decreases n,
{
    let d: u8 = (n % 10) as u8;
    let c: char = (48u8 + d) as char;
    if n < 10 {
        let mut v: Vec<char> = Vec::new();
        v.push(c);
        v
    } else {
        let mut v = decimal_digits(n / 10);
        v.push(c);
        v
    }
}

} // verus!
