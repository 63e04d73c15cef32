use book_reviews::{update, Book, ChooseStep, IndexError, RateStep, Rating, Rerating, Review};

fn rating(v: f64) -> Rating {
    Rating::from_bits(v.to_bits())
}

fn book(id: i32, catalog_rating: i32, title: &str) -> Book {
    Book { book_id: id, user_rating: catalog_rating, title: String::from(title) }
}

fn review(id: i32, r: f64, title: &str) -> Review {
    Review { id, rating: rating(r), title: String::from(title) }
}

fn catalog() -> Vec<Book> {
    vec![book(1, 3, "a"), book(2, 4, "b"), book(3, 5, "c")]
}

fn store() -> Vec<Review> {
    vec![review(1, 2.0, "a"), review(2, 5.0, "b"), review(3, 3.5, "c")]
}

fn chosen(line: &str) -> Rerating {
    match update(catalog(), store()).pick(&String::from(line)) {
        ChooseStep::Rate(r) => r,
        _ => panic!("{:?} chose no review", line),
    }
}

#[test]
fn the_reviews_are_shown_in_the_order_of_showing() {
    let first = update(catalog(), store());
    assert_eq!(
        *first.listing(),
        vec![review(2, 5.0, "b"), review(3, 3.5, "c"), review(1, 2.0, "a")]
    );
}

#[test]
fn of_three_reviews_the_second_and_third_can_be_chosen() {
    let r = chosen("1\n");
    assert_eq!(r.chosen_index(), 1);
    assert_eq!(*r.chosen(), review(3, 3.5, "c"));
    assert_eq!(r.catalog_rating(), 5);
    let r = chosen("2\n");
    assert_eq!(r.chosen_index(), 2);
    assert_eq!(*r.chosen(), review(1, 2.0, "a"));
    assert_eq!(r.catalog_rating(), 3);
}

#[test]
fn the_first_review_and_the_place_past_the_last_cannot_be_chosen() {
    for line in ["0\n", "3\n", "4\n"] {
        match update(catalog(), store()).pick(&String::from(line)) {
            ChooseStep::Again(again, why) => {
                assert_eq!(why, IndexError::OutOfRange);
                assert_eq!(again.listing().len(), 3);
            }
            _ => panic!("{:?} was accepted", line),
        }
    }
}

#[test]
fn a_line_that_is_no_number_asks_again() {
    let cases = [
        ("abc\n", IndexError::InvalidDigit),
        ("\n", IndexError::Empty),
        ("", IndexError::Empty),
        ("-1\n", IndexError::InvalidDigit),
        ("99999999999999999999999999\n", IndexError::TooLarge),
    ];
    for (line, want) in cases {
        match update(catalog(), store()).pick(&String::from(line)) {
            ChooseStep::Again(again, why) => {
                assert_eq!(why, want, "{:?}", line);
                assert_eq!(*again.listing(), *update(catalog(), store()).listing());
            }
            _ => panic!("{:?} was accepted", line),
        }
    }
}

#[test]
fn choosing_goes_on_after_a_rejected_line() {
    let step = update(catalog(), store()).pick(&String::from("0\n"));
    let again = match step {
        ChooseStep::Again(again, _) => again,
        _ => panic!("0 was accepted"),
    };
    match again.pick(&String::from("2\n")) {
        ChooseStep::Rate(r) => assert_eq!(r.chosen_index(), 2),
        _ => panic!("2 was rejected"),
    }
}

#[test]
fn a_review_without_a_book_ends_the_command() {
    let books = vec![book(1, 3, "a"), book(2, 4, "b")];
    match update(books, store()).pick(&String::from("1\n")) {
        ChooseStep::Orphan => {}
        _ => panic!("the review names no book"),
    }
}

#[test]
fn the_rating_of_the_review_chosen_is_replaced() {
    match chosen("1\n").answer(rating(0.5)) {
        RateStep::Done(out) => assert_eq!(
            out,
            vec![review(2, 5.0, "b"), review(3, 0.5, "c"), review(1, 2.0, "a")]
        ),
        RateStep::Again(_) => panic!("0.5 was rejected"),
    }
    match chosen("2\n").answer(rating(5.0)) {
        RateStep::Done(out) => assert_eq!(
            out,
            vec![review(2, 5.0, "b"), review(3, 3.5, "c"), review(1, 5.0, "a")]
        ),
        RateStep::Again(_) => panic!("5 was rejected"),
    }
}

#[test]
fn a_rating_out_of_range_asks_again_and_changes_nothing() {
    for v in [-1.0, 6.0, f64::NAN, 5.5] {
        match chosen("1\n").answer(rating(v)) {
            RateStep::Again(same) => {
                assert_eq!(same.chosen_index(), 1);
                assert_eq!(*same.chosen(), review(3, 3.5, "c"));
                match same.answer(rating(4.0)) {
                    RateStep::Done(out) => assert_eq!(out[1], review(3, 4.0, "c")),
                    RateStep::Again(_) => panic!("4 was rejected"),
                }
            }
            RateStep::Done(_) => panic!("{} was accepted", v),
        }
    }
}

#[test]
fn nothing_can_be_chosen_of_a_single_review() {
    for line in ["0\n", "1\n"] {
        match update(catalog(), vec![review(1, 2.0, "a")]).pick(&String::from(line)) {
            ChooseStep::Again(_, why) => assert_eq!(why, IndexError::OutOfRange),
            _ => panic!("{:?} was accepted", line),
        }
    }
}

#[test]
fn the_first_book_with_the_identifier_gives_the_catalog_rating() {
    let books = vec![book(3, 1, "first"), book(3, 2, "second"), book(1, 9, "a")];
    match update(books, store()).pick(&String::from("1\n")) {
        ChooseStep::Rate(r) => assert_eq!(r.catalog_rating(), 1),
        _ => panic!("1 chose no review"),
    }
}
