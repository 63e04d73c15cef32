use book_reviews::{doesnt_have_review, get_book_w_id, Book, Rating, Review};

fn book(id: i32, catalog_rating: i32, title: &str) -> Book {
    Book { book_id: id, user_rating: catalog_rating, title: String::from(title) }
}

fn review(id: i32, rating: f64, title: &str) -> Review {
    Review { id, rating: Rating::from_bits(rating.to_bits()), title: String::from(title) }
}

#[test]
fn book_without_review_has_none() {
    let reviews = vec![review(1, 4.0, "Dune"), review(2, 3.0, "Emma")];
    assert_eq!(doesnt_have_review(&book(3, 5, "Ulysses"), &reviews), None);
    assert_eq!(doesnt_have_review(&book(3, 5, "Ulysses"), &Vec::new()), None);
}

#[test]
fn book_with_review_gets_it() {
    let reviews = vec![review(1, 4.0, "Dune"), review(2, 3.0, "Emma")];
    assert_eq!(doesnt_have_review(&book(2, 5, "Emma"), &reviews), Some(review(2, 3.0, "Emma")));
    assert_eq!(doesnt_have_review(&book(1, 0, "other"), &reviews), Some(review(1, 4.0, "Dune")));
}

#[test]
fn first_of_several_reviews_is_taken() {
    let reviews = vec![
        review(7, 1.0, "first"),
        review(8, 2.0, "between"),
        review(7, 5.0, "second"),
    ];
    assert_eq!(doesnt_have_review(&book(7, 3, "x"), &reviews), Some(review(7, 1.0, "first")));
}

#[test]
fn review_is_matched_by_identifier_only() {
    let reviews = vec![review(1, 4.0, "Dune")];
    assert_eq!(doesnt_have_review(&book(2, 4, "Dune"), &reviews), None);
}

#[test]
fn get_book_w_id_finds_the_first_entry() {
    let books = vec![book(10, 3, "a"), book(20, 4, "b"), book(10, 5, "c")];
    assert_eq!(get_book_w_id(&books, 10), Some(book(10, 3, "a")));
    assert_eq!(get_book_w_id(&books, 20), Some(book(20, 4, "b")));
}

#[test]
fn get_book_w_id_of_unknown_identifier_is_none() {
    let books = vec![book(10, 3, "a"), book(20, 4, "b")];
    assert_eq!(get_book_w_id(&books, 30), None);
    assert_eq!(get_book_w_id(&Vec::new(), 10), None);
    assert_eq!(get_book_w_id(&books, -10), None);
}

#[test]
fn extreme_identifiers_are_matched() {
    let books = vec![book(i32::MIN, 1, "low"), book(i32::MAX, 2, "high")];
    assert_eq!(get_book_w_id(&books, i32::MAX), Some(book(i32::MAX, 2, "high")));
    assert_eq!(get_book_w_id(&books, i32::MIN), Some(book(i32::MIN, 1, "low")));
}

#[test]
fn records_compare_by_content() {
    assert_eq!(review(1, 4.0, "Dune"), review(1, 4.0, "Dune"));
    assert_ne!(review(1, 4.0, "Dune"), review(1, 4.5, "Dune"));
    assert_ne!(review(1, 4.0, "Dune"), review(2, 4.0, "Dune"));
    assert_ne!(review(1, 4.0, "Dune"), review(1, 4.0, "dune"));
    assert_eq!(book(1, 4, "Dune"), book(1, 4, "Dune").clone());
    assert_ne!(book(1, 4, "Dune"), book(1, 5, "Dune"));
    assert_eq!(review(3, 2.5, "t").clone(), review(3, 2.5, "t"));
}
