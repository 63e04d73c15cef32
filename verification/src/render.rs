//! The lines in which reviews are shown.
//!
//! A review is shown as its place in the listing, counted from 0, its title
//! and its rating: `<index>: <title> rating: <rating>`. The rating's text is
//! given by the caller, who knows how to write the number out.

use crate::record::Review;
use vstd::prelude::*;
use vstd::string::*;

verus! {

/// The ten decimal digits, by value.
pub open spec fn digits() -> Seq<char> {
    seq!['0', '1', '2', '3', '4', '5', '6', '7', '8', '9']
}

/// The character of a decimal digit.
pub open spec fn digit_char(d: nat) -> char {
    digits()[d as int]
}

/// A number written in decimal, without sign or leading zeros.
pub open spec fn numeral(n: nat) -> Seq<char>
    decreases n,
{
    if n < 10 {
        seq![digit_char(n)]
    } else {
        numeral(n / 10).push(digit_char(n % 10))
    }
}

/// The line that shows one review.
pub open spec fn line_text(index: nat, title: Seq<char>, rating: Seq<char>) -> Seq<char> {
    numeral(index) + ": "@ + title + " rating: "@ + rating
}

/// The text of one decimal digit.
fn digit_text(d: usize) -> (s: &'static str)
    requires
        d < 10,
    ensures
        s@ == seq![digit_char(d as nat)],
{
    proof {
        reveal_strlit("0");
        reveal_strlit("1");
        reveal_strlit("2");
        reveal_strlit("3");
        reveal_strlit("4");
        reveal_strlit("5");
        reveal_strlit("6");
        reveal_strlit("7");
        reveal_strlit("8");
        reveal_strlit("9");
    }
    if d == 0 {
        "0"
    } else if d == 1 {
        "1"
    } else if d == 2 {
        "2"
    } else if d == 3 {
        "3"
    } else if d == 4 {
        "4"
    } else if d == 5 {
        "5"
    } else if d == 6 {
        "6"
    } else if d == 7 {
        "7"
    } else if d == 8 {
        "8"
    } else {
        "9"
    }
}

/// Writes a number out in decimal.
pub fn numeral_text(n: usize) -> (s: String)
    ensures
        s@ == numeral(n as nat),
    decreases n,
{
    if n < 10 {
        String::from_str(digit_text(n))
    } else {
        let mut s = numeral_text(n / 10);
        s.append(digit_text(n % 10));
        s
    }
}

/// Writes the line that shows one review: its place in the listing, its
/// title, and the rating as the caller wrote it out.
pub fn review_line(index: usize, title: &str, rating: &str) -> (line: String)
    ensures
        line@ == line_text(index as nat, title@, rating@),
{
    let mut line = numeral_text(index);
    line.append(": ");
    line.append(title);
    line.append(" rating: ");
    line.append(rating);
    line
}

/// Writes the lines that show `reviews`, one line for each, numbered from 0
/// in the order given. `ratings` holds the ratings written out, one for each
/// review in the same order; with any other number of them there is nothing
/// to show.
pub fn print_reviews(reviews: &Vec<Review>, ratings: &Vec<String>) -> (lines: Option<Vec<String>>)
    ensures
        lines.is_some() <==> ratings.len() == reviews.len(),
        lines matches Some(out) ==> {
            &&& out.len() == reviews.len()
            &&& forall|i: int|
                0 <= i < out.len() ==> #[trigger] out[i]@ == line_text(
                    i as nat,
                    reviews[i].title@,
                    ratings[i]@,
                )
        },
{
    if ratings.len() != reviews.len() {
        return None;
    }
    let mut out: Vec<String> = Vec::new();
    let mut i: usize = 0;
    while i < reviews.len()
        invariant
            i <= reviews.len(),
            ratings.len() == reviews.len(),
            out.len() == i,
            forall|j: int|
                0 <= j < i ==> #[trigger] out[j]@ == line_text(
                    j as nat,
                    reviews[j].title@,
                    ratings[j]@,
                ),
        decreases reviews.len() - i,
    {
        out.push(review_line(i, reviews[i].title.as_str(), ratings[i].as_str()));
        i += 1;
    }
    Some(out)
}

} // verus!
