//! Parsing one delimited item.  The emitted routine parses every
//! substring with the item type's own text-to-value conversion; the trait
//! here states what such a conversion returns, and the signed 32-bit
//! integer conversion is carried out and proved against it.

use vstd::prelude::*;

verus! {

/// The ways a textual item can fail to parse as a signed 32-bit integer.
#[derive(Clone, Copy, PartialEq, Eq, Structural, Debug)]
pub enum IntParseError {
    /// The substring is empty.
    Empty,
    /// A character is not a digit of the expected shape.
    InvalidDigit,
    /// The value exceeds the largest representable value.
    PosOverflow,
    /// The value falls below the smallest representable value.
    NegOverflow,
}

/// Holds when `c` is a decimal digit.
pub open spec fn is_digit(c: char) -> bool {
    ||| c == '0'
    ||| c == '1'
    ||| c == '2'
    ||| c == '3'
    ||| c == '4'
    ||| c == '5'
    ||| c == '6'
    ||| c == '7'
    ||| c == '8'
    ||| c == '9'
}

/// The numeric value of the decimal digit `c`.
pub open spec fn digit_val(c: char) -> int {
    if c == '0' {
        0
    } else if c == '1' {
        1
    } else if c == '2' {
        2
    } else if c == '3' {
        3
    } else if c == '4' {
        4
    } else if c == '5' {
        5
    } else if c == '6' {
        6
    } else if c == '7' {
        7
    } else if c == '8' {
        8
    } else if c == '9' {
        9
    } else {
        10
    }
}

/// Folds decimal digits left to right onto `acc`, stopping at the first
/// character that is not a digit and at the first step whose value passes
/// `limit`; `over` is the error reported in the latter case.
pub open spec fn spec_digits(
    digits: Seq<char>,
    acc: int,
    limit: int,
    over: IntParseError,
) -> Result<int, IntParseError>
    decreases digits.len(),
{
    if digits.len() == 0 {
        Ok(acc)
    } else if !is_digit(digits[0]) {
        Err(IntParseError::InvalidDigit)
    } else if acc * 10 + digit_val(digits[0]) > limit {
        Err(over)
    } else {
        spec_digits(digits.drop_first(), acc * 10 + digit_val(digits[0]), limit, over)
    }
}

/// What parsing a signed 32-bit integer from `s` yields: an optional sign,
/// then decimal digits, scanned left to right with the first offending
/// character or overflowing step reported.
pub open spec fn spec_parse_i32(s: Seq<char>) -> Result<i32, IntParseError> {
    if s.len() == 0 {
        Err(IntParseError::Empty)
    } else {
        let digits = if s[0] == '-' || s[0] == '+' {
            s.drop_first()
        } else {
            s
        };
        if digits.len() == 0 {
            Err(IntParseError::InvalidDigit)
        } else if s[0] == '-' {
            match spec_digits(digits, 0, 2147483648, IntParseError::NegOverflow) {
                Ok(v) => Ok((-v) as i32),
                Err(e) => Err(e),
            }
        } else {
            match spec_digits(digits, 0, 2147483647, IntParseError::PosOverflow) {
                Ok(v) => Ok(v as i32),
                Err(e) => Err(e),
            }
        }
    }
}

/// Parses a signed 32-bit integer from the given characters.
#[verifier::loop_isolation(false)]
pub fn parse_i32_chars(s: &Vec<char>) -> (r: Result<i32, IntParseError>)
    ensures
        r == spec_parse_i32(s@),
{
    if s.len() == 0 {
        return Err(IntParseError::Empty);
    }
    let first = s[0];
    let neg = first == '-';
    let signed = neg || first == '+';
    let start: usize = if signed {
        1
    } else {
        0
    };
    let ghost digits = if signed {
        s@.drop_first()
    } else {
        s@
    };
    if s.len() == start {
        return Err(IntParseError::InvalidDigit);
    }
    let limit: u64 = if neg {
        2147483648
    } else {
        2147483647
    };
    let ghost over = if neg {
        IntParseError::NegOverflow
    } else {
        IntParseError::PosOverflow
    };
    let mut acc: u64 = 0;
    let mut j: usize = start;
    proof {
        assert(digits =~= s@.skip(start as int));
        assert(digits.skip((j - start) as int) =~= digits);
    }
    while j < s.len()
        invariant
            start <= j <= s@.len(),
            start <= 1,
            digits == s@.skip(start as int),
            digits.len() == s@.len() - start,
            acc <= limit,
            limit <= 2147483648,
            spec_digits(digits, 0, limit as int, over) == spec_digits(
                digits.skip((j - start) as int),
                acc as int,
                limit as int,
                over,
            ),
        decreases s@.len() - j,
    {
        let ghost rem = digits.skip((j - start) as int);
        proof {
            assert(rem[0] == digits[j - start]);
            assert(digits[j - start] == s@[j as int]);
        }
        let d: u64 = match s[j] {
            '0' => 0,
            '1' => 1,
            '2' => 2,
            '3' => 3,
            '4' => 4,
            '5' => 5,
            '6' => 6,
            '7' => 7,
            '8' => 8,
            '9' => 9,
            _ => {
                proof {
                    assert(!is_digit(rem[0]));
                    assert(spec_digits(rem, acc as int, limit as int, over) == Err::<
                        int,
                        IntParseError,
                    >(IntParseError::InvalidDigit));
                    assert(spec_digits(digits, 0, limit as int, over) == Err::<
                        int,
                        IntParseError,
                    >(IntParseError::InvalidDigit));
                    assert(spec_parse_i32(s@) == Err::<i32, IntParseError>(
                        IntParseError::InvalidDigit,
                    ));
                }
                return Err(IntParseError::InvalidDigit);
            },
        };
        proof {
            assert(is_digit(rem[0]));
            assert(d as int == digit_val(rem[0]));
        }
        let next = acc * 10 + d;
        if next > limit {
            proof {
                assert(spec_digits(rem, acc as int, limit as int, over) == Err::<
                    int,
                    IntParseError,
                >(over));
                assert(spec_digits(digits, 0, limit as int, over) == Err::<
                    int,
                    IntParseError,
                >(over));
                assert(spec_parse_i32(s@) == Err::<i32, IntParseError>(over));
            }
            return Err(if neg {
                IntParseError::NegOverflow
            } else {
                IntParseError::PosOverflow
            });
        }
        acc = next;
        j = j + 1;
        proof {
            assert(rem.drop_first() =~= digits.skip((j - start) as int));
        }
    }
    proof {
        assert(digits.skip((j - start) as int) =~= Seq::<char>::empty());
        assert(spec_digits(digits, 0, limit as int, over) == Ok::<int, IntParseError>(
            acc as int,
        ));
    }
    if neg {
        Ok((-(acc as i64)) as i32)
    } else {
        Ok(acc as i32)
    }
}

/// The contract a delimited item's type offers the emitted routine: a
/// text-to-value conversion together with the statement of what it
/// returns.
pub trait ItemFromStr: Sized {
    /// The conversion's own error type.
    type ParseErr;

    /// What parsing the given characters yields.
    spec fn spec_parse(s: Seq<char>) -> Result<Self, Self::ParseErr>;

    /// Parses one delimited substring.
    fn parse_item(s: &Vec<char>) -> (r: Result<Self, Self::ParseErr>)
        ensures
            r == Self::spec_parse(s@),
    ;
}

/// The error a textual item yields when it is not exactly one character.
#[derive(Clone, Copy, PartialEq, Eq, Structural, Debug)]
pub struct CharParseError;

impl ItemFromStr for char {
    type ParseErr = CharParseError;

    open spec fn spec_parse(s: Seq<char>) -> Result<char, CharParseError> {
        if s.len() == 1 {
            Ok(s[0])
        } else {
            Err(CharParseError)
        }
    }

    fn parse_item(s: &Vec<char>) -> (r: Result<char, CharParseError>) {
        if s.len() == 1 {
            Ok(s[0])
        } else {
            Err(CharParseError)
        }
    }
}

impl ItemFromStr for i32 {
    type ParseErr = IntParseError;

    open spec fn spec_parse(s: Seq<char>) -> Result<i32, IntParseError> {
        spec_parse_i32(s)
    }

    fn parse_item(s: &Vec<char>) -> (r: Result<i32, IntParseError>) {
        parse_i32_chars(s)
    }
}

} // verus!
