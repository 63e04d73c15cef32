//! The `new` command: a review for every book of the catalog.
//!
//! The catalog is walked in its order. A book that has a review keeps it. For
//! a book without one the operator is asked for a rating, and a review is
//! made from the book and that rating. Reviews of books that the catalog no
//! longer holds are kept, behind the others. The command is a sequence of
//! steps: each step either names the book whose rating is wanted or, at the
//! end of the catalog, hands out what is to be stored and what is to be
//! shown.

use crate::listing::{get_reviews, is_listing};
use crate::matching::{
    book_ids, book_of, doesnt_have_review, get_book_w_id, review_ids, review_of,
};
use crate::rating::{ask_for_review, Rating};
use crate::record::{Book, Review};
use crate::search::{first_index, lemma_first_index};
use vstd::prelude::*;
use vstd::seq_lib::to_multiset_contains;

verus! {

/// The review made for `book` from a rating: the book's identifier, the
/// rating, the book's title.
pub open spec fn reviewed(book: Book, rating: Rating) -> Review {
    Review { id: book.book_id, rating, title: book.title }
}

/// How many of the first `n` books have no review.
pub open spec fn missing(books: Seq<Book>, reviews: Seq<Review>, n: int) -> nat
    decreases n,
{
    if n <= 0 {
        0
    } else {
        let rest = missing(books, reviews, n - 1);
        if review_of(reviews, books[n - 1].book_id) is None {
            rest + 1
        } else {
            rest
        }
    }
}

/// The review that the command settles on for book `i`: the review that the
/// book has, or else the review made from the rating entered for it. Ratings
/// are entered in the catalog's order, one for each book without a review.
pub open spec fn settled_at(
    books: Seq<Book>,
    reviews: Seq<Review>,
    ratings: Seq<Rating>,
    i: int,
) -> Review {
    match review_of(reviews, books[i].book_id) {
        Some(r) => r,
        None => reviewed(books[i], ratings[missing(books, reviews, i) as int]),
    }
}

/// The reviews of the catalog's books: one for each book, in the catalog's
/// order.
pub open spec fn settled(books: Seq<Book>, reviews: Seq<Review>, ratings: Seq<Rating>) -> Seq<
    Review,
> {
    Seq::new(books.len(), |i: int| settled_at(books, reviews, ratings, i))
}

/// The test that picks the reviews whose book the catalog does not hold.
pub open spec fn is_orphan(books: Seq<Book>) -> spec_fn(Review) -> bool {
    |r: Review| book_of(books, r.id) is None
}

/// The reviews whose book the catalog does not hold, in the order in which
/// `reviews` holds them.
pub open spec fn orphans(books: Seq<Book>, reviews: Seq<Review>) -> Seq<Review> {
    reviews.filter(is_orphan(books))
}

/// The collection that the command stores: the reviews of the catalog's
/// books, then the reviews whose book the catalog does not hold.
pub open spec fn merged(books: Seq<Book>, reviews: Seq<Review>, ratings: Seq<Rating>) -> Seq<
    Review,
> {
    settled(books, reviews, ratings) + orphans(books, reviews)
}

/// The count of books without a review never falls along the catalog.
pub proof fn lemma_missing_grows(books: Seq<Book>, reviews: Seq<Review>, a: int, b: int)
    requires
        a <= b,
    ensures
        missing(books, reviews, a) <= missing(books, reviews, b),
    decreases b - a,
{
    if a < b {
        lemma_missing_grows(books, reviews, a, b - 1);
    }
}

/// Ratings entered later change nothing for the books whose ratings were
/// already entered.
proof fn lemma_settled_at_stable(
    books: Seq<Book>,
    reviews: Seq<Review>,
    ratings: Seq<Rating>,
    more: Seq<Rating>,
    i: int,
)
    requires
        0 <= i < books.len(),
        missing(books, reviews, i + 1) <= ratings.len() <= more.len(),
        forall|j: int| 0 <= j < ratings.len() ==> more[j] == ratings[j],
    ensures
        settled_at(books, reviews, more, i) == settled_at(books, reviews, ratings, i),
{
}

/// What the command stores for the catalog's books. There is one review for
/// each book, at the book's place, under the book's identifier. Where the
/// reviews held one with that identifier before, it is that review,
/// unchanged, the first of them in the order of showing. Where they held
/// none, it is the review made from the book and the rating that the
/// operator entered for it.
pub proof fn lemma_merged_books(
    books: Seq<Book>,
    reviews: Seq<Review>,
    ratings: Seq<Rating>,
    i: int,
)
    requires
        0 <= i < books.len(),
    ensures
        merged(books, reviews, ratings).len() >= books.len(),
        merged(books, reviews, ratings)[i] == settled_at(books, reviews, ratings, i),
        merged(books, reviews, ratings)[i].id == books[i].book_id,
        review_ids(reviews).contains(books[i].book_id) ==> {
            &&& reviews.contains(merged(books, reviews, ratings)[i])
            &&& review_of(reviews, books[i].book_id) == Some(merged(books, reviews, ratings)[i])
        },
        !review_ids(reviews).contains(books[i].book_id) ==> {
            &&& merged(books, reviews, ratings)[i] == reviewed(
                books[i],
                ratings[missing(books, reviews, i) as int],
            )
        },
{
    let ids = review_ids(reviews);
    let id = books[i].book_id;
    lemma_first_index(ids, id);
    match first_index(ids, id) {
        Some(k) => {
            assert(ids[k] == id);
            assert(ids.contains(id));
            assert(reviews[k].id == id);
            assert(reviews.contains(reviews[k]));
        },
        None => {
            if ids.contains(id) {
                let j = choose|j: int| 0 <= j < ids.len() && ids[j] == id;
                assert(ids[j] != id);
            }
        },
    }
}

/// What the command stores, review by review. A review under an identifier
/// that the reviews held before is one of those reviews, unchanged. Any
/// other is the review of a book of the catalog, at the book's place, made
/// from the book and the rating that the operator entered for it.
pub proof fn lemma_merged_keeps_and_adds(
    books: Seq<Book>,
    reviews: Seq<Review>,
    ratings: Seq<Rating>,
    j: int,
)
    requires
        0 <= j < merged(books, reviews, ratings).len(),
    ensures
        review_ids(reviews).contains(merged(books, reviews, ratings)[j].id) ==> reviews.contains(
            merged(books, reviews, ratings)[j],
        ),
        !review_ids(reviews).contains(merged(books, reviews, ratings)[j].id) ==> {
            &&& j < books.len()
            &&& merged(books, reviews, ratings)[j] == reviewed(
                books[j],
                ratings[missing(books, reviews, j) as int],
            )
        },
{
    if j < books.len() {
        lemma_merged_books(books, reviews, ratings, j);
    } else {
        let tail = orphans(books, reviews);
        let r = tail[j - books.len()];
        assert(merged(books, reviews, ratings)[j] == r);
        assert(tail.contains(r));
        reviews.lemma_filter_contains_rev(is_orphan(books), r);
        let k = choose|k: int| 0 <= k < reviews.len() && reviews[k] == r;
        assert(review_ids(reviews)[k] == r.id);
    }
}

/// What the command stores besides: every review whose book the catalog
/// does not hold stays in the collection, unchanged.
pub proof fn lemma_merged_keeps_orphans(
    books: Seq<Book>,
    reviews: Seq<Review>,
    ratings: Seq<Rating>,
    k: int,
)
    requires
        0 <= k < reviews.len(),
        !book_ids(books).contains(reviews[k].id),
    ensures
        merged(books, reviews, ratings).contains(reviews[k]),
{
    let ids = book_ids(books);
    lemma_first_index(ids, reviews[k].id);
    if first_index(ids, reviews[k].id) is Some {
        let j = first_index(ids, reviews[k].id)->0;
        assert(ids[j] == reviews[k].id);
        assert(ids.contains(reviews[k].id));
    }
    assert(is_orphan(books)(reviews[k]));
    reviews.lemma_filter_contains(is_orphan(books), k);
    let tail = orphans(books, reviews);
    let j = choose|j: int| 0 <= j < tail.len() && tail[j] == reviews[k];
    let all = merged(books, reviews, ratings);
    assert(all[books.len() + j] == reviews[k]);
}

/// In a catalog whose identifiers differ, each book has one review in what
/// the command stores, and no more: the review at the book's place is the
/// only one under the book's identifier.
pub proof fn lemma_merged_one_per_book(
    books: Seq<Book>,
    reviews: Seq<Review>,
    ratings: Seq<Rating>,
    i: int,
    j: int,
)
    requires
        forall|a: int, b: int|
            0 <= a < b < books.len() ==> books[a].book_id != books[b].book_id,
        0 <= i < books.len(),
        0 <= j < merged(books, reviews, ratings).len(),
        merged(books, reviews, ratings)[j].id == books[i].book_id,
    ensures
        j == i,
{
    let all = merged(books, reviews, ratings);
    if j < books.len() {
        lemma_merged_books(books, reviews, ratings, j);
    } else {
        let tail = orphans(books, reviews);
        let r = tail[j - books.len()];
        assert(all[j] == r);
        assert(tail.contains(r));
        reviews.lemma_filter_pred(is_orphan(books), j - books.len());
        assert(is_orphan(books)(r));
        let ids = book_ids(books);
        lemma_first_index(ids, r.id);
        assert(ids[i] == r.id);
    }
}

/// Where every one of the first `n` books has a review, none is missing.
proof fn lemma_none_missing(books: Seq<Book>, reviews: Seq<Review>, n: int)
    requires
        n <= books.len(),
        forall|i: int| 0 <= i < n ==> review_of(reviews, #[trigger] books[i].book_id) is Some,
    ensures
        missing(books, reviews, n) == 0,
    decreases n,
{
    if n > 0 {
        lemma_none_missing(books, reviews, n - 1);
        assert(review_of(reviews, books[n - 1].book_id) is Some);
    }
}

/// Once the command has run, every book has its review: started again on
/// what it stored, with the same catalog, it finds nothing to ask for.
pub proof fn lemma_merged_is_complete(
    books: Seq<Book>,
    reviews: Seq<Review>,
    ratings: Seq<Rating>,
    shown: Seq<Review>,
)
    requires
        is_listing(shown, merged(books, reviews, ratings)),
    ensures
        missing(books, shown, books.len() as int) == 0,
{
    let all = merged(books, reviews, ratings);
    assert forall|i: int| 0 <= i < books.len() implies review_of(
        shown,
        #[trigger] books[i].book_id,
    ) is Some by {
        lemma_merged_books(books, reviews, ratings, i);
        let r = all[i];
        assert(all.contains(r));
        to_multiset_contains(all, r);
        to_multiset_contains(shown, r);
        let k = choose|k: int| 0 <= k < shown.len() && shown[k] == r;
        let ids = review_ids(shown);
        assert(ids[k] == books[i].book_id);
        lemma_first_index(ids, books[i].book_id);
    }
    lemma_none_missing(books, shown, books.len() as int);
}

/// A rating made into a review for `book`, where it is one that may be
/// entered: a rating outside the range from 0 to 5 makes none.
pub fn get_review(book: &Book, candidate: Rating) -> (made: Option<Review>)
    ensures
        made == if candidate.acceptable() {
            Some(reviewed(*book, candidate))
        } else {
            None::<Review>
        },
{
    match ask_for_review(candidate) {
        Some(rating) => Some(Review { id: book.book_id, rating, title: book.title.clone() }),
        None => None,
    }
}

/// The command while it waits for a rating.
pub struct Merge {
    books: Vec<Book>,
    reviews: Vec<Review>,
    built: Vec<Review>,
    entered: Ghost<Seq<Rating>>,
}

/// What the command ends with.
pub struct Outcome {
    /// The collection to store in place of the old one.
    pub persist: Vec<Review>,
    /// The reviews as they were before the command, in the order of showing.
    pub shown: Vec<Review>,
}

/// One step of the command.
pub enum NewStep {
    /// A book has no review: ask for its rating.
    Ask(Merge),
    /// Every book has its review.
    Done(Outcome),
}

impl Merge {
    /// The catalog.
    pub closed spec fn books(&self) -> Seq<Book> {
        self.books@
    }

    /// The reviews that existed before the command, in the order of showing.
    pub closed spec fn reviews(&self) -> Seq<Review> {
        self.reviews@
    }

    /// The reviews made out so far, one for each book before the one waited
    /// for.
    pub closed spec fn built(&self) -> Seq<Review> {
        self.built@
    }

    /// The ratings accepted so far, in the order in which they were entered.
    pub closed spec fn entered(&self) -> Seq<Rating> {
        self.entered@
    }

    /// What holds of every such value: the next book has no review, one
    /// rating was entered for each book without a review before it, and the
    /// books before it have the reviews that the command settles on.
    #[verifier::type_invariant]
    pub open spec fn wf(&self) -> bool {
        let n = self.built().len() as int;
        &&& n < self.books().len()
        &&& review_of(self.reviews(), self.books()[n].book_id) is None
        &&& self.entered().len() == missing(self.books(), self.reviews(), n)
        &&& self.built() == settled(self.books(), self.reviews(), self.entered()).take(n)
    }

    /// The book whose rating is wanted.
    pub fn entry(&self) -> (book: &Book)
        ensures
            self.wf(),
            *book == self.books()[self.built().len() as int],
            review_of(self.reviews(), book.book_id) is None,
    {
        proof {
            use_type_invariant(self);
        }
        &self.books[self.built.len()]
    }

    /// Takes the rating that the operator entered for the book waited for.
    /// A rating outside the range from 0 to 5 changes nothing: the same book
    /// is asked for again. An accepted rating makes the book's review, and
    /// the command goes on to the next book without a review, or ends. It
    /// ends when a rating was entered for every book without a review.
    pub fn answer(self, candidate: Rating) -> (next: NewStep)
        ensures
            self.wf(),
            !candidate.acceptable() ==> next == NewStep::Ask(self),
            candidate.acceptable() ==> match next {
                NewStep::Ask(m) => {
                    &&& m.wf()
                    &&& m.books() == self.books()
                    &&& m.reviews() == self.reviews()
                    &&& m.entered() == self.entered().push(candidate)
                    &&& m.entered().len() < missing(
                        m.books(),
                        m.reviews(),
                        m.books().len() as int,
                    )
                },
                NewStep::Done(o) => {
                    &&& o.shown@ == self.reviews()
                    &&& o.persist@ == merged(
                        self.books(),
                        self.reviews(),
                        self.entered().push(candidate),
                    )
                    &&& self.entered().len() + 1 == missing(
                        self.books(),
                        self.reviews(),
                        self.books().len() as int,
                    )
                },
            },
    {
        proof {
            use_type_invariant(&self);
        }
        let n = self.built.len();
        match get_review(&self.books[n], candidate) {
            None => NewStep::Ask(self),
            Some(review) => {
                let Merge { books, reviews, mut built, entered } = self;
                let ghost before = built@;
                let ghost more = entered@.push(candidate);
                built.push(review);
                proof {
                    let old_all = settled(books@, reviews@, entered@);
                    let new_all = settled(books@, reviews@, more);
                    assert forall|i: int| 0 <= i < n implies new_all[i] == before[i] by {
                        lemma_missing_grows(books@, reviews@, i + 1, n as int);
                        lemma_settled_at_stable(books@, reviews@, entered@, more, i);
                        assert(before[i] == old_all[i]);
                    }
                    assert(new_all[n as int] == review);
                    assert(built@ == new_all.take(n + 1));
                }
                advance(books, reviews, built, Ghost(more))
            },
        }
    }
}

/// Whether the catalog holds a book with this identifier.
fn has_book(books: &Vec<Book>, id: i32) -> (held: bool)
    ensures
        held == book_of(books@, id).is_some(),
{
    get_book_w_id(books, id).is_some()
}

/// Walks on from the books settled so far: books that have a review keep
/// it, and the walk stops at the first book that has none. At the end of the
/// catalog the reviews of books that it does not hold are put behind.
fn advance(
    books: Vec<Book>,
    reviews: Vec<Review>,
    built: Vec<Review>,
    entered: Ghost<Seq<Rating>>,
) -> (next: NewStep)
    requires
        built.len() <= books.len(),
        entered@.len() == missing(books@, reviews@, built.len() as int),
        built@ == settled(books@, reviews@, entered@).take(built.len() as int),
    ensures
        match next {
            NewStep::Ask(m) => {
                &&& m.wf()
                &&& m.books() == books@
                &&& m.reviews() == reviews@
                &&& m.entered() == entered@
                &&& entered@.len() < missing(books@, reviews@, books.len() as int)
            },
            NewStep::Done(o) => {
                &&& o.shown@ == reviews@
                &&& o.persist@ == merged(books@, reviews@, entered@)
                &&& entered@.len() == missing(books@, reviews@, books.len() as int)
            },
        },
{
    let mut built = built;
    let ghost all = settled(books@, reviews@, entered@);
    while built.len() < books.len()
        invariant
            built.len() <= books.len(),
            all == settled(books@, reviews@, entered@),
            entered@.len() == missing(books@, reviews@, built.len() as int),
            built@ == all.take(built.len() as int),
        decreases books.len() - built.len(),
    {
        let n = built.len();
        match doesnt_have_review(&books[n], &reviews) {
            Some(r) => {
                built.push(r);
                assert(built@ == all.take(n + 1));
            },
            None => {
                proof {
                    lemma_missing_grows(books@, reviews@, n + 1, books.len() as int);
                }
                return NewStep::Ask(Merge { books, reviews, built, entered });
            },
        }
    }
    assert(all.take(built.len() as int) == all);
    let ghost test = is_orphan(books@);
    let mut k: usize = 0;
    assert(reviews@.take(0).filter(test) == Seq::<Review>::empty()) by {
        reveal(Seq::filter);
    }
    while k < reviews.len()
        invariant
            k <= reviews.len(),
            test == is_orphan(books@),
            built@ == all + reviews@.take(k as int).filter(test),
        decreases reviews.len() - k,
    {
        proof {
            assert(reviews@.take(k + 1) == reviews@.take(k as int).push(reviews@[k as int]));
            reviews@.take(k as int).lemma_filter_push(reviews@[k as int], test);
        }
        if !has_book(&books, reviews[k].id) {
            built.push(reviews[k].clone());
        }
        k += 1;
    }
    assert(reviews@.take(k as int) == reviews@);
    NewStep::Done(Outcome { persist: built, shown: reviews })
}

/// Starts the command on the catalog and the stored reviews. The stored
/// reviews are first put in the order of showing; a book's review is the
/// first one in that order that carries the book's identifier. The command
/// ends at once where every book has a review.
pub fn new(books: Vec<Book>, stored: Vec<Review>) -> (first: NewStep)
    ensures
        match first {
            NewStep::Ask(m) => {
                &&& m.wf()
                &&& m.books() == books@
                &&& is_listing(m.reviews(), stored@)
                &&& m.entered() == Seq::<Rating>::empty()
                &&& 0 < missing(m.books(), m.reviews(), m.books().len() as int)
            },
            NewStep::Done(o) => {
                &&& is_listing(o.shown@, stored@)
                &&& o.persist@ == merged(books@, o.shown@, Seq::<Rating>::empty())
                &&& 0 == missing(books@, o.shown@, books.len() as int)
            },
        },
{
    let reviews = get_reviews(stored);
    let built: Vec<Review> = Vec::new();
    assert(built@ == settled(books@, reviews@, Seq::<Rating>::empty()).take(0));
    advance(books, reviews, built, Ghost(Seq::empty()))
}

} // verus!
