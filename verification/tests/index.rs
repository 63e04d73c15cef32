use book_reviews::{numeral_text, parse_index, parse_number, IndexError};
use std::num::IntErrorKind;

fn read(line: &str) -> String {
    String::from(line)
}

#[test]
fn with_three_reviews_one_and_two_can_be_chosen() {
    assert_eq!(parse_index(&read("1\n"), 3), Ok(1));
    assert_eq!(parse_index(&read("2\n"), 3), Ok(2));
}

#[test]
fn with_three_reviews_zero_and_three_are_rejected() {
    assert_eq!(parse_index(&read("0\n"), 3), Err(IndexError::OutOfRange));
    assert_eq!(parse_index(&read("3\n"), 3), Err(IndexError::OutOfRange));
    assert_eq!(parse_index(&read("4\n"), 3), Err(IndexError::OutOfRange));
}

#[test]
fn nothing_can_be_chosen_of_fewer_than_two_reviews() {
    for bound in [0usize, 1] {
        for line in ["0\n", "1\n", "2\n"] {
            assert_eq!(parse_index(&read(line), bound), Err(IndexError::OutOfRange));
        }
    }
    assert_eq!(parse_index(&read("1\n"), 2), Ok(1));
}

#[test]
fn exactly_the_numbers_between_the_ends_are_chosen() {
    let bound = 7usize;
    for v in 0..10usize {
        let got = parse_index(&read(&format!("{}\n", v)), bound);
        if 0 < v && v < bound {
            assert_eq!(got, Ok(v));
        } else {
            assert_eq!(got, Err(IndexError::OutOfRange));
        }
    }
}

#[test]
fn only_the_first_line_counts() {
    assert_eq!(parse_index(&read("2\n1\n"), 3), Ok(2));
    assert_eq!(parse_index(&read("2\r\n"), 3), Ok(2));
    assert_eq!(parse_index(&read("2"), 3), Ok(2));
}

#[test]
fn empty_input_is_empty() {
    assert_eq!(parse_index(&read(""), 3), Err(IndexError::Empty));
    assert_eq!(parse_index(&read("\n"), 3), Err(IndexError::Empty));
    assert_eq!(parse_index(&read("\r\n"), 3), Err(IndexError::Empty));
    assert_eq!(parse_number(""), Err(IndexError::Empty));
}

#[test]
fn what_is_no_number_is_an_invalid_digit() {
    assert_eq!(parse_index(&read("abc\n"), 3), Err(IndexError::InvalidDigit));
    assert_eq!(parse_index(&read("-1\n"), 3), Err(IndexError::InvalidDigit));
    assert_eq!(parse_index(&read(" 1\n"), 3), Err(IndexError::InvalidDigit));
    assert_eq!(parse_index(&read("1 \n"), 3), Err(IndexError::InvalidDigit));
    assert_eq!(parse_index(&read("1.0\n"), 3), Err(IndexError::InvalidDigit));
    assert_eq!(parse_index(&read("+\n"), 3), Err(IndexError::InvalidDigit));
    assert_eq!(parse_index(&read("-\n"), 3), Err(IndexError::InvalidDigit));
    assert_eq!(parse_index(&read("++1\n"), 3), Err(IndexError::InvalidDigit));
    assert_eq!(parse_index(&read("1\r"), 3), Err(IndexError::InvalidDigit));
    assert_eq!(parse_index(&read("١\n"), 3), Err(IndexError::InvalidDigit));
}

#[test]
fn numbers_beyond_the_machine_are_too_large() {
    assert_eq!(
        parse_index(&read("99999999999999999999999999\n"), 3),
        Err(IndexError::TooLarge)
    );
    let next = format!("{}0", usize::MAX);
    assert_eq!(parse_number(&next), Err(IndexError::TooLarge));
}

#[test]
fn the_largest_number_is_read() {
    assert_eq!(parse_number(&format!("{}", usize::MAX)), Ok(usize::MAX));
    assert_eq!(parse_number(&format!("+{}", usize::MAX)), Ok(usize::MAX));
    assert_eq!(parse_number(&format!("000{}", usize::MAX)), Ok(usize::MAX));
}

#[test]
fn plus_sign_and_leading_zeros_are_read() {
    assert_eq!(parse_number("+2"), Ok(2));
    assert_eq!(parse_number("007"), Ok(7));
    assert_eq!(parse_number("0"), Ok(0));
    assert_eq!(parse_number("+0"), Ok(0));
    assert_eq!(parse_number("1234567890"), Ok(1234567890));
    assert_eq!(parse_index(&read("+2\n"), 3), Ok(2));
}

#[test]
fn the_first_fault_from_the_left_decides() {
    assert_eq!(parse_number("99999999999999999999999999x"), Err(IndexError::TooLarge));
    assert_eq!(parse_number("9x9999999999999999999999999"), Err(IndexError::InvalidDigit));
    assert_eq!(parse_number("x99999999999999999999999999"), Err(IndexError::InvalidDigit));
}

#[test]
fn parse_number_agrees_with_the_machine_integer() {
    let max = format!("{}", usize::MAX);
    let over = format!("{}1", usize::MAX);
    let mixed = format!("{}9z", usize::MAX);
    let lines = [
        "", "0", "1", "9", "10", "42", "007", "+", "-", "+1", "-1", "+-1", "1+", "a", "1a",
        "a1", " ", " 1", "1 ", "1_000", "0x10", "1e3", "3.5", "18446744073709551615",
        "18446744073709551616", "4294967295", "4294967296", "99999999999999999999",
        "99999999999999999999a", "9a9999999999999999999", "٣", "１", max.as_str(),
        over.as_str(), mixed.as_str(),
    ];
    for line in lines {
        let ours = parse_number(line);
        match line.parse::<usize>() {
            Ok(v) => assert_eq!(ours, Ok(v), "{:?}", line),
            Err(e) => {
                let kind = match e.kind() {
                    IntErrorKind::Empty => IndexError::Empty,
                    IntErrorKind::InvalidDigit => IndexError::InvalidDigit,
                    IntErrorKind::PosOverflow => IndexError::TooLarge,
                    other => panic!("{:?} on {:?}", other, line),
                };
                assert_eq!(ours, Err(kind), "{:?}", line);
            }
        }
    }
}

#[test]
fn numbers_are_accepted_as_they_are_shown() {
    let bound = 120usize;
    for i in 1..bound {
        let mut typed = numeral_text(i);
        typed.push('\n');
        assert_eq!(parse_index(&typed, bound), Ok(i));
    }
    assert_eq!(parse_number(&numeral_text(usize::MAX)), Ok(usize::MAX));
}
