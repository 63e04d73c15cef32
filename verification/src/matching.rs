//! Matching catalog entries and reviews by identifier.

use crate::record::{Book, Review};
use crate::search::{first_index, lemma_first_index_absent, lemma_first_index_found};
use vstd::prelude::*;

verus! {

/// The identifiers of a list of reviews, in the list's order.
pub open spec fn review_ids(reviews: Seq<Review>) -> Seq<i32> {
    reviews.map_values(|r: Review| r.id)
}

/// The identifiers of a catalog, in the catalog's order.
pub open spec fn book_ids(books: Seq<Book>) -> Seq<i32> {
    books.map_values(|b: Book| b.book_id)
}

/// The review that `book` has: the first of `reviews` whose `id` is the
/// book's identifier.
pub open spec fn review_of(reviews: Seq<Review>, book_id: i32) -> Option<Review> {
    match first_index(review_ids(reviews), book_id) {
        Some(k) => Some(reviews[k]),
        None => None,
    }
}

/// The catalog entry named by `id`: the first of `books` with that
/// identifier.
pub open spec fn book_of(books: Seq<Book>, id: i32) -> Option<Book> {
    match first_index(book_ids(books), id) {
        Some(k) => Some(books[k]),
        None => None,
    }
}

/// Looks up the review of a catalog entry. Returns a copy of the first
/// review whose `id` equals the entry's identifier, or `None` where the
/// entry has no review yet.
pub fn doesnt_have_review(book: &Book, reviews: &Vec<Review>) -> (found: Option<Review>)
    ensures
        found == review_of(reviews@, book.book_id),
{
    let ghost ids = review_ids(reviews@);
    let mut i: usize = 0;
    while i < reviews.len()
        invariant
            i <= reviews.len(),
            ids == review_ids(reviews@),
            forall|j: int| 0 <= j < i ==> ids[j] != book.book_id,
        decreases reviews.len() - i,
    {
        if reviews[i].id == book.book_id {
            proof {
                lemma_first_index_found(ids, book.book_id, i as int);
            }
            return Some(reviews[i].clone());
        }
        i += 1;
    }
    proof {
        lemma_first_index_absent(ids, book.book_id);
    }
    None
}

/// Looks up a catalog entry by identifier. Returns a copy of the first
/// entry whose `book_id` equals `id`, or `None` where the catalog has no
/// such entry.
pub fn get_book_w_id(books: &Vec<Book>, id: i32) -> (found: Option<Book>)
    ensures
        found == book_of(books@, id),
{
    let ghost ids = book_ids(books@);
    let mut i: usize = 0;
    while i < books.len()
        invariant
            i <= books.len(),
            ids == book_ids(books@),
            forall|j: int| 0 <= j < i ==> ids[j] != id,
        decreases books.len() - i,
    {
        if books[i].book_id == id {
            proof {
                lemma_first_index_found(ids, id, i as int);
            }
            return Some(books[i].clone());
        }
        i += 1;
    }
    proof {
        lemma_first_index_absent(ids, id);
    }
    None
}

} // verus!
