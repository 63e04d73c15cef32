//! The two records of the tracker: a catalog entry and a review.

use crate::rating::Rating;
use vstd::prelude::*;

verus! {

/// A book of the catalog. The catalog is read, never written.
#[derive(Debug)]
pub struct Book {
    pub book_id: i32,
    pub user_rating: i32,
    pub title: String,
}

/// What a catalog entry holds.
pub struct BookView {
    pub book_id: int,
    pub user_rating: int,
    pub title: Seq<char>,
}

impl View for Book {
    type V = BookView;

    open spec fn view(&self) -> BookView {
        BookView {
            book_id: self.book_id as int,
            user_rating: self.user_rating as int,
            title: self.title@,
        }
    }
}

/// The operator's rating of one book. `id` names the catalog entry, `title`
/// is the entry's title as it was when the review was made.
#[derive(Debug)]
pub struct Review {
    pub id: i32,
    pub rating: Rating,
    pub title: String,
}

/// What a review holds.
pub struct ReviewView {
    pub id: int,
    pub rating: Rating,
    pub title: Seq<char>,
}

impl View for Review {
    type V = ReviewView;

    open spec fn view(&self) -> ReviewView {
        ReviewView { id: self.id as int, rating: self.rating, title: self.title@ }
    }
}

impl Clone for Book {
    fn clone(&self) -> (copy: Book)
        ensures
            copy == *self,
    {
        Book { book_id: self.book_id, user_rating: self.user_rating, title: self.title.clone() }
    }
}

impl Clone for Review {
    fn clone(&self) -> (copy: Review)
        ensures
            copy == *self,
    {
        Review { id: self.id, rating: self.rating, title: self.title.clone() }
    }
}

impl PartialEq for Book {
    fn eq(&self, other: &Book) -> (same: bool) {
        self.book_id == other.book_id && self.user_rating == other.user_rating && self.title
            == other.title
    }
}

impl vstd::std_specs::cmp::PartialEqSpecImpl for Book {
    open spec fn obeys_eq_spec() -> bool {
        true
    }

    open spec fn eq_spec(&self, other: &Book) -> bool {
        self@ == other@
    }
}

impl PartialEq for Review {
    fn eq(&self, other: &Review) -> (same: bool) {
        self.id == other.id && self.rating == other.rating && self.title == other.title
    }
}

impl vstd::std_specs::cmp::PartialEqSpecImpl for Review {
    open spec fn obeys_eq_spec() -> bool {
        true
    }

    open spec fn eq_spec(&self, other: &Review) -> bool {
        self@ == other@
    }
}

} // verus!
