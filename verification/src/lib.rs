//! A personal book-review tracker: the rules that decide which reviews exist,
//! how they are ordered and shown, and which operator input is accepted.
//!
//! The library holds no files and reads no input. A program around it loads
//! the catalog and the stored reviews, reads the operator's lines, and hands
//! both over as plain values; what comes back says what to show, what to ask
//! next and what to store.

pub mod clear;
pub mod index;
pub mod listing;
pub mod matching;
pub mod menu;
pub mod new_reviews;
pub mod rating;
pub mod record;
pub mod render;
pub mod search;
pub mod text;
pub mod update;

pub use crate::clear::clear;
pub use crate::index::{parse_index, parse_number, IndexError};
pub use crate::listing::{get_reviews, view};
pub use crate::matching::{doesnt_have_review, get_book_w_id};
pub use crate::menu::{choice, is_valid_choice, Choice, Menu, Step};
pub use crate::new_reviews::{get_review, new, Merge, NewStep, Outcome};
pub use crate::rating::{ask_for_review, Rating};
pub use crate::record::{Book, Review};
pub use crate::render::{numeral_text, print_reviews, review_line};
pub use crate::text::{first_line, same_text};
pub use crate::update::{update, ChooseStep, Choosing, RateStep, Rerating};
