//! Validating a line of user input: the trimmed line must be a
//! decimal integer (an optional leading plus sign, then digits, as
//! Rust's unsigned parsing accepts) naming a column in 1..=7.

use vstd::prelude::*;
use vstd::string::StrSliceExecFns;

verus! {

/// Why a line of input was rejected: not a decimal integer at all, or
/// an integer outside 1..=7.
#[derive(Clone, Copy, Debug, PartialEq, Eq, Structural)]
pub enum InputError {
    ParseError,
    OutOfRange,
}

/// A decimal digit.
pub open spec fn is_digit(c: char) -> bool {
    ||| c == '0'
    ||| c == '1'
    ||| c == '2'
    ||| c == '3'
    ||| c == '4'
    ||| c == '5'
    ||| c == '6'
    ||| c == '7'
    ||| c == '8'
    ||| c == '9'
}

/// The value of a decimal digit.
pub open spec fn digit_val(c: char) -> int {
    if c == '0' {
        0
    } else if c == '1' {
        1
    } else if c == '2' {
        2
    } else if c == '3' {
        3
    } else if c == '4' {
        4
    } else if c == '5' {
        5
    } else if c == '6' {
        6
    } else if c == '7' {
        7
    } else if c == '8' {
        8
    } else {
        9
    }
}

/// Every character is a decimal digit.
pub open spec fn all_digits(s: Seq<char>) -> bool {
    forall|i: int| 0 <= i < s.len() ==> is_digit(#[trigger] s[i])
}

/// The value of a digit string, most significant digit first.
pub open spec fn digits_val(s: Seq<char>) -> int
    decreases s.len(),
{
    if s.len() == 0 {
        0
    } else {
        10 * digits_val(s.drop_last()) + digit_val(s.last())
    }
}

/// The digits of the line, after an optional leading plus sign.
pub open spec fn digits_part(s: Seq<char>) -> Seq<char> {
    if s.len() > 0 && s[0] == '+' {
        s.skip(1)
    } else {
        s
    }
}

/// The line is a decimal integer that fits in 32 unsigned bits: an
/// optional plus sign, then at least one digit.
pub open spec fn parses(s: Seq<char>) -> bool {
    &&& digits_part(s).len() > 0
    &&& all_digits(digits_part(s))
    &&& digits_val(digits_part(s)) <= u32::MAX
}

/// The integer the line denotes.
pub open spec fn parsed_val(s: Seq<char>) -> int {
    digits_val(digits_part(s))
}

/// Parse a trimmed line of input as a 1-based column choice and map
/// it to the 0-based column index.  Lines that are no decimal integer
/// are `ParseError`; integers outside 1..=7 are `OutOfRange`.
pub fn parse_column(s: &str) -> (r: Result<usize, InputError>)
    ensures
        (r == Err::<usize, InputError>(InputError::ParseError)) <==> !parses(s@),
        (r == Err::<usize, InputError>(InputError::OutOfRange)) <==> (parses(s@) && (parsed_val(s@)
            == 0 || parsed_val(s@) > 7)),
        (parses(s@) && 1 <= parsed_val(s@) <= 7) ==> r == Ok::<usize, InputError>(
            (parsed_val(s@) - 1) as usize,
        ),
{
    let n = s.unicode_len();
    let start: usize = if n > 0 && s.get_char(0) == '+' {
        1
    } else {
        0
    };
    if start >= n {
        proof {
            assert(digits_part(s@).len() == 0);
        }
        return Err(InputError::ParseError);
    }
    let mut i: usize = start;
    let mut val: u64 = 0;
    let mut big = false;
    while i < n
        invariant
            start <= i <= n,
            n == s@.len(),
            start <= 1,
            start == 1 ==> n > 0 && s@[0] == '+',
            start == 0 ==> n == 0 || s@[0] != '+',
            all_digits(s@.subrange(start as int, i as int)),
            !big ==> val == digits_val(s@.subrange(start as int, i as int)) && val <= u32::MAX,
            big ==> digits_val(s@.subrange(start as int, i as int)) > u32::MAX,
        decreases n - i,
    {
        let ch = s.get_char(i);
        let d: u64 = match ch {
            '0' => 0,
            '1' => 1,
            '2' => 2,
            '3' => 3,
            '4' => 4,
            '5' => 5,
            '6' => 6,
            '7' => 7,
            '8' => 8,
            '9' => 9,
            _ => {
                proof {
                    assert(digits_part(s@)[i - start] == s@[i as int]);
                    assert(!all_digits(digits_part(s@)));
                }
                return Err(InputError::ParseError);
            },
        };
        proof {
            assert(is_digit(s@[i as int]) && digit_val(s@[i as int]) == d);
            assert(s@.subrange(start as int, i + 1).drop_last() =~= s@.subrange(
                start as int,
                i as int,
            ));
            assert(s@.subrange(start as int, i + 1).last() == s@[i as int]);
            assert(digits_val(s@.subrange(start as int, i + 1)) == 10 * digits_val(
                s@.subrange(start as int, i as int),
            ) + d);
            assert forall|j: int| 0 <= j < i + 1 - start implies is_digit(
                #[trigger] s@.subrange(start as int, i + 1)[j],
            ) by {
                assert(s@.subrange(start as int, i + 1)[j] == s@[start + j]);
                if j < i - start {
                    assert(s@.subrange(start as int, i as int)[j] == s@[start + j]);
                }
            }
        }
        if !big {
            val = val * 10 + d;
            if val > 4294967295 {
                big = true;
            }
        }
        i = i + 1;
    }
    proof {
        assert(s@.subrange(start as int, n as int) =~= digits_part(s@));
    }
    if big {
        return Err(InputError::ParseError);
    }
    if val == 0 || val > 7 {
        return Err(InputError::OutOfRange);
    }
    Ok((val - 1) as usize)
}

} // verus!
