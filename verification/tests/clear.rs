use book_reviews::{clear, view, Rating, Review};

fn review(id: i32, rating: f64, title: &str) -> Review {
    Review { id, rating: Rating::from_bits(rating.to_bits()), title: String::from(title) }
}

fn store() -> Vec<Review> {
    vec![review(1, 2.0, "a"), review(2, 5.0, "b"), review(3, 3.5, "c")]
}

#[test]
fn confirmed_clear_empties_the_store() {
    let mut s = store();
    assert!(clear(&mut s, &String::from("Y\n")));
    assert!(s.is_empty());
}

#[test]
fn clear_then_view_shows_nothing() {
    let mut s = store();
    assert!(!view(&s).is_empty());
    assert!(clear(&mut s, &String::from("Y\n")));
    assert_eq!(view(&s), Vec::new());
}

#[test]
fn answer_n_leaves_the_store() {
    let mut s = store();
    assert!(!clear(&mut s, &String::from("n\n")));
    assert_eq!(s, store());
    assert_eq!(view(&s).len(), 3);
}

#[test]
fn only_the_capital_letter_confirms() {
    for answer in ["y\n", "Yes\n", "YES\n", " Y\n", "Y \n", "YY\n", "\n", "", "N\n", "\nY\n"] {
        let mut s = store();
        assert!(!clear(&mut s, &String::from(answer)), "{:?}", answer);
        assert_eq!(s, store(), "{:?}", answer);
    }
}

#[test]
fn confirmation_is_read_off_the_first_line() {
    for answer in ["Y", "Y\n", "Y\r\n", "Y\nn\n"] {
        let mut s = store();
        assert!(clear(&mut s, &String::from(answer)), "{:?}", answer);
        assert!(s.is_empty());
    }
}

#[test]
fn clearing_an_empty_store_keeps_it_empty() {
    let mut s: Vec<Review> = Vec::new();
    assert!(clear(&mut s, &String::from("Y\n")));
    assert!(s.is_empty());
    assert!(!clear(&mut s, &String::from("n\n")));
    assert!(s.is_empty());
}
