//! Choosing a review by its number.
//!
//! The operator types a decimal number. It is accepted where it lies strictly
//! between 0 and the number of reviews: neither the first review nor a place
//! past the last one can be chosen.

use crate::render::numeral;
use crate::search::{
    first_index, lemma_first_index, lemma_first_index_absent, lemma_first_index_found,
};
use crate::text::{first_line, first_line_of};
use vstd::prelude::*;
use vstd::string::*;

verus! {

/// Why a line was not accepted as the number of a review.
#[derive(Clone, Copy, Debug, PartialEq, Eq, Structural)]
pub enum IndexError {
    /// The line is empty, or there is no line.
    Empty,
    /// The line holds something other than decimal digits after an optional
    /// plus sign, or a sign alone.
    InvalidDigit,
    /// The digits stand for a number beyond `usize::MAX`.
    TooLarge,
    /// The number is 0, or not below the number of reviews.
    OutOfRange,
}

/// Whether `c` is one of the ten decimal digits.
pub open spec fn is_digit(c: char) -> bool {
    48 <= c as u32 <= 57
}

/// The value of a decimal digit.
pub open spec fn digit_of(c: char) -> int {
    c as u32 - 48
}

/// The number that a sequence of decimal digits stands for.
pub open spec fn decimal(digits: Seq<char>) -> int
    decreases digits.len(),
{
    if digits.len() == 0 {
        0
    } else {
        10 * decimal(digits.drop_last()) + digit_of(digits.last())
    }
}

/// For each character of `s`, whether it is a digit.
pub open spec fn digit_flags(s: Seq<char>) -> Seq<bool> {
    s.map_values(|c: char| is_digit(c))
}

/// How many digits `s` starts with.
pub open spec fn digit_run(s: Seq<char>) -> int {
    match first_index(digit_flags(s), false) {
        Some(k) => k,
        None => s.len() as int,
    }
}

/// The line without its plus sign, if it starts with one.
pub open spec fn unsigned(line: Seq<char>) -> Seq<char> {
    if line.len() > 0 && line[0] == '+' {
        line.skip(1)
    } else {
        line
    }
}

/// The number that a line stands for. The line is read from the left: an
/// optional plus sign, then digits. Of a character that is no digit and a
/// value that no longer fits, the one met first decides the error.
pub open spec fn parsed_number(line: Seq<char>) -> Result<usize, IndexError> {
    let body = unsigned(line);
    let run = body.take(digit_run(body));
    if line.len() == 0 {
        Err(IndexError::Empty)
    } else if body.len() == 0 {
        Err(IndexError::InvalidDigit)
    } else if decimal(run) > usize::MAX {
        Err(IndexError::TooLarge)
    } else if run.len() < body.len() {
        Err(IndexError::InvalidDigit)
    } else {
        Ok(decimal(run) as usize)
    }
}

/// The review that a line chooses out of `bound` reviews.
pub open spec fn selected(line: Seq<char>, bound: usize) -> Result<usize, IndexError> {
    match parsed_number(line) {
        Ok(v) => if 0 < v < bound {
            Ok(v)
        } else {
            Err(IndexError::OutOfRange)
        },
        Err(e) => Err(e),
    }
}

/// The review that one read of input chooses out of `bound` reviews: what
/// its first line chooses.
pub open spec fn selected_by(buffer: Seq<char>, bound: usize) -> Result<usize, IndexError> {
    match first_line_of(buffer) {
        Some(line) => selected(line, bound),
        None => Err(IndexError::Empty),
    }
}

/// The digit run is a prefix made of digits, and it ends at the first
/// character that is none.
pub proof fn lemma_digit_run(s: Seq<char>)
    ensures
        0 <= digit_run(s) <= s.len(),
        forall|j: int| 0 <= j < digit_run(s) ==> is_digit(s[j]),
        digit_run(s) < s.len() ==> !is_digit(s[digit_run(s)]),
{
    let flags = digit_flags(s);
    lemma_first_index(flags, false);
    match first_index(flags, false) {
        Some(k) => {
            assert forall|j: int| 0 <= j < k implies is_digit(s[j]) by {
                assert(flags[j] != false);
            }
        },
        None => {
            assert forall|j: int| 0 <= j < s.len() implies is_digit(s[j]) by {
                assert(flags[j] != false);
            }
        },
    }
}

/// A prefix of digits that ends at a character that is none, or at the end,
/// is the digit run.
pub proof fn lemma_digit_run_is(s: Seq<char>, k: int)
    requires
        0 <= k <= s.len(),
        forall|j: int| 0 <= j < k ==> is_digit(s[j]),
        k < s.len() ==> !is_digit(s[k]),
    ensures
        digit_run(s) == k,
{
    let flags = digit_flags(s);
    if k < s.len() {
        lemma_first_index_found(flags, false, k);
    } else {
        lemma_first_index_absent(flags, false);
    }
}

/// More digits never stand for less.
pub proof fn lemma_decimal_grows(s: Seq<char>, a: int, b: int)
    requires
        0 <= a <= b <= s.len(),
        forall|j: int| 0 <= j < b ==> is_digit(s[j]),
    ensures
        0 <= decimal(s.take(a)) <= decimal(s.take(b)),
    decreases b,
{
    if b > 0 {
        assert(s.take(b).drop_last() == s.take(b - 1));
        if a < b {
            lemma_decimal_grows(s, a, b - 1);
        } else {
            lemma_decimal_grows(s, b - 1, b - 1);
        }
    }
}

/// Of `bound` reviews exactly those numbered from 1 to `bound - 1` can be
/// chosen: a line that stands for a number chooses it if and only if the
/// number is above 0 and below `bound`, and nothing else is ever chosen.
pub proof fn lemma_selectable(line: Seq<char>, bound: usize)
    ensures
        selected(line, bound) matches Ok(v) ==> 0 < v < bound && parsed_number(line) == Ok::<
            usize,
            IndexError,
        >(v),
        parsed_number(line) matches Ok(v) ==> (selected(line, bound) is Ok <==> 0 < v < bound),
        selected(line, bound) != Ok::<usize, IndexError>(0),
        selected(line, bound) != Ok::<usize, IndexError>(bound),
{
}

/// A number written out in decimal is made of digits and stands for itself.
pub proof fn lemma_numeral_is_decimal(n: nat)
    ensures
        numeral(n).len() > 0,
        forall|j: int| 0 <= j < numeral(n).len() ==> is_digit(numeral(n)[j]),
        decimal(numeral(n)) == n,
    decreases n,
{
    let s = numeral(n);
    if n < 10 {
        assert(decimal(s) == 10 * decimal(s.drop_last()) + digit_of(s.last()));
    } else {
        lemma_numeral_is_decimal(n / 10);
        assert(s.drop_last() == numeral(n / 10));
    }
}

/// The number under which a review is shown chooses that review: typed as it
/// is shown, the number of any review but the first is accepted as itself.
pub proof fn lemma_shown_number_chooses(i: usize, bound: usize)
    requires
        0 < i < bound,
    ensures
        selected(numeral(i as nat), bound) == Ok::<usize, IndexError>(i),
{
    let s = numeral(i as nat);
    lemma_numeral_is_decimal(i as nat);
    lemma_digit_run_is(s, s.len() as int);
    assert(s.take(s.len() as int) == s);
}

/// Reads a line as a number, the way an unsigned machine integer is written
/// in decimal.
pub fn parse_number(line: &str) -> (r: Result<usize, IndexError>)
    ensures
        r == parsed_number(line@),
{
    let n = line.unicode_len();
    if n == 0 {
        return Err(IndexError::Empty);
    }
    let start: usize = if line.get_char(0) == '+' {
        1
    } else {
        0
    };
    let ghost body = unsigned(line@);
    if start == n {
        return Err(IndexError::InvalidDigit);
    }
    let mut i: usize = 0;
    let mut acc: usize = 0;
    for c in it: line.chars()
        invariant
            it.seq() == line@,
            i == it.index(),
            i <= n,
            start < n,
            n == line@.len(),
            body == line@.skip(start as int),
            body == unsigned(line@),
            body.len() == n - start,
            forall|j: int| 0 <= j < i - start ==> is_digit(body[j]),
            i >= start ==> acc == decimal(body.take(i - start)),
            i < start ==> acc == 0,
    {
        if i >= start {
            let code: u32 = c as u32;
            if code < 48 || code > 57 {
                proof {
                    lemma_digit_run_is(body, i - start);
                }
                return Err(IndexError::InvalidDigit);
            }
            let d: usize = (code - 48) as usize;
            proof {
                assert(body.take(i - start + 1).drop_last() == body.take(i - start));
            }
            let fits: Option<usize> = match acc.checked_mul(10) {
                Some(m) => m.checked_add(d),
                None => None,
            };
            match fits {
                Some(v) => {
                    acc = v;
                },
                None => {
                    proof {
                        lemma_digit_run(body);
                        lemma_decimal_grows(body, i - start + 1, digit_run(body));
                    }
                    return Err(IndexError::TooLarge);
                },
            }
        }
        i += 1;
    }
    proof {
        lemma_digit_run_is(body, body.len() as int);
    }
    Ok(acc)
}

/// Reads the number of the review to change off one read of input, out of
/// `bound` reviews. A number is accepted if and only if it is above 0 and
/// below `bound`.
pub fn parse_index(buffer: &String, bound: usize) -> (r: Result<usize, IndexError>)
    ensures
        r == selected_by(buffer@, bound),
        r matches Ok(v) ==> 0 < v < bound,
{
    match first_line(buffer.as_str()) {
        None => Err(IndexError::Empty),
        Some(line) => match parse_number(line) {
            Ok(v) => if 0 < v && v < bound {
                Ok(v)
            } else {
                Err(IndexError::OutOfRange)
            },
            Err(e) => Err(e),
        },
    }
}

} // verus!
