//! The `update` command: a new rating for one review.
//!
//! The reviews are shown in the order of showing, the operator chooses one
//! by its number and enters a rating, and the whole collection is stored
//! again with that one rating changed. The command is a sequence of steps,
//! each of which takes one read of input.

use crate::index::{parse_index, selected_by, IndexError};
use crate::listing::{get_reviews, is_listing};
use crate::matching::{book_of, get_book_w_id};
use crate::rating::{ask_for_review, Rating};
use crate::record::{Book, Review};
use vstd::prelude::*;

verus! {

/// A review with its rating replaced.
pub open spec fn rerated(review: Review, rating: Rating) -> Review {
    Review { id: review.id, rating, title: review.title }
}

/// The command while it waits for the number of a review.
pub struct Choosing {
    reviews: Vec<Review>,
    books: Vec<Book>,
}

/// The command while it waits for the new rating of the review chosen.
pub struct Rerating {
    reviews: Vec<Review>,
    index: usize,
    catalog_rating: i32,
}

/// What follows a read of input while a review is being chosen.
pub enum ChooseStep {
    /// The input chose no review: say why and ask again.
    Again(Choosing, IndexError),
    /// The review chosen names a book that the catalog does not hold. The
    /// command cannot go on.
    Orphan,
    /// A review was chosen: ask for its new rating.
    Rate(Rerating),
}

/// What follows a rating entered for the review chosen.
pub enum RateStep {
    /// The rating lies outside the range from 0 to 5: ask again.
    Again(Rerating),
    /// The collection to store in place of the old one.
    Done(Vec<Review>),
}

impl Choosing {
    /// The reviews, in the order of showing.
    pub closed spec fn reviews(&self) -> Seq<Review> {
        self.reviews@
    }

    /// The catalog.
    pub closed spec fn books(&self) -> Seq<Book> {
        self.books@
    }

    /// The reviews to show, each under the number by which it is chosen.
    pub fn listing(&self) -> (shown: &Vec<Review>)
        ensures
            shown@ == self.reviews(),
    {
        &self.reviews
    }

    /// Takes one read of input as the number of a review. The number is
    /// accepted where it is above 0 and below the number of reviews. The
    /// review chosen must name a book of the catalog.
    pub fn pick(self, buffer: &String) -> (next: ChooseStep)
        ensures
            match selected_by(buffer@, self.reviews().len() as usize) {
                Err(e) => next == ChooseStep::Again(self, e),
                Ok(i) => match book_of(self.books(), self.reviews()[i as int].id) {
                    None => next is Orphan,
                    Some(book) => {
                        &&& next matches ChooseStep::Rate(r)
                        &&& r.wf()
                        &&& r.reviews() == self.reviews()
                        &&& r.index() == i
                        &&& r.book_rating() == book.user_rating
                    },
                },
            },
    {
        match parse_index(buffer, self.reviews.len()) {
            Err(e) => ChooseStep::Again(self, e),
            Ok(index) => match get_book_w_id(&self.books, self.reviews[index].id) {
                None => ChooseStep::Orphan,
                Some(book) => ChooseStep::Rate(
                    Rerating { reviews: self.reviews, index, catalog_rating: book.user_rating },
                ),
            },
        }
    }
}

impl Rerating {
    /// The reviews, in the order of showing.
    pub closed spec fn reviews(&self) -> Seq<Review> {
        self.reviews@
    }

    /// The number of the review chosen.
    pub closed spec fn index(&self) -> usize {
        self.index
    }

    /// The rating that the catalog gives the book of the review chosen.
    pub closed spec fn book_rating(&self) -> i32 {
        self.catalog_rating
    }

    /// What holds of every such value: the number chosen is that of a
    /// review, and not of the first.
    #[verifier::type_invariant]
    pub open spec fn wf(&self) -> bool {
        0 < self.index() < self.reviews().len()
    }

    /// The review chosen, as it stands.
    pub fn chosen(&self) -> (review: &Review)
        ensures
            self.wf(),
            *review == self.reviews()[self.index() as int],
    {
        proof {
            use_type_invariant(self);
        }
        &self.reviews[self.index]
    }

    /// The number of the review chosen.
    pub fn chosen_index(&self) -> (index: usize)
        ensures
            index == self.index(),
            0 < index < self.reviews().len(),
    {
        proof {
            use_type_invariant(self);
        }
        self.index
    }

    /// The rating that the catalog gives the book of the review chosen.
    pub fn catalog_rating(&self) -> (rating: i32)
        ensures
            rating == self.book_rating(),
    {
        self.catalog_rating
    }

    /// Takes the rating that the operator entered. A rating outside the
    /// range from 0 to 5 changes nothing. An accepted rating replaces that
    /// of the review chosen; every other review, and the order, stay.
    pub fn answer(self, candidate: Rating) -> (next: RateStep)
        ensures
            self.wf(),
            !candidate.acceptable() ==> next == RateStep::Again(self),
            candidate.acceptable() ==> {
                &&& next matches RateStep::Done(out)
                &&& out@ == self.reviews().update(
                    self.index() as int,
                    rerated(self.reviews()[self.index() as int], candidate),
                )
            },
    {
        proof {
            use_type_invariant(&self);
        }
        match ask_for_review(candidate) {
            None => RateStep::Again(self),
            Some(rating) => {
                let Rerating { mut reviews, index, .. } = self;
                let mut review = reviews.remove(index);
                review.rating = rating;
                reviews.insert(index, review);
                RateStep::Done(reviews)
            },
        }
    }
}

/// Starts the command on the catalog and the stored reviews: puts the
/// reviews in the order of showing and waits for the number of one of them.
pub fn update(books: Vec<Book>, stored: Vec<Review>) -> (first: Choosing)
    ensures
        first.books() == books@,
        is_listing(first.reviews(), stored@),
{
    Choosing { reviews: get_reviews(stored), books }
}

} // verus!
