//! The `clear` command: all reviews removed, once the operator has said so.

use crate::listing::{is_listing, lemma_listing_len};
use crate::record::Review;
use crate::text::{first_line, first_line_of, same_text};
use vstd::prelude::*;

verus! {

/// Whether one read of input confirms the removal: its first line is the
/// single capital letter `Y`, and nothing else.
pub open spec fn confirms(buffer: Seq<char>) -> bool {
    first_line_of(buffer) == Some("Y"@)
}

/// What the store holds after the command.
pub open spec fn after_clear(stored: Seq<Review>, buffer: Seq<char>) -> Seq<Review> {
    if confirms(buffer) {
        Seq::empty()
    } else {
        stored
    }
}

/// Removes all reviews from the store where the operator's answer confirms
/// it, and leaves the store as it is on any other answer. Returns whether
/// the reviews were removed.
pub fn clear(store: &mut Vec<Review>, buffer: &String) -> (cleared: bool)
    ensures
        cleared == confirms(buffer@),
        final(store)@ == after_clear(old(store)@, buffer@),
{
    let confirmed = match first_line(buffer.as_str()) {
        Some(line) => same_text(line, "Y"),
        None => false,
    };
    if confirmed {
        store.clear();
    }
    confirmed
}

/// After a confirmed `clear` nothing is left to show, whatever was stored;
/// an answer that does not confirm leaves the store, and so what is shown,
/// as it was.
pub proof fn lemma_clear_then_view(stored: Seq<Review>, buffer: Seq<char>, shown: Seq<Review>)
    requires
        is_listing(shown, after_clear(stored, buffer)),
    ensures
        confirms(buffer) ==> shown == Seq::<Review>::empty(),
        !confirms(buffer) ==> after_clear(stored, buffer) == stored && is_listing(shown, stored),
{
    lemma_listing_len(shown, after_clear(stored, buffer));
}

} // verus!
