//! The menu: which command a line of input selects, and what the program does
//! next.

use crate::text::{first_line, first_line_of, same_text};
use vstd::prelude::*;

verus! {

/// What a line of input at the menu selects.
#[allow(non_camel_case_types)]
#[derive(Clone, Copy, Debug, PartialEq, Eq, Structural)]
pub enum Choice {
    NEW,
    UPDATE,
    VIEW,
    CLEAR,
    EXIT,
    INVALID,
}

/// The choice that a line stands for. The five tokens are matched as they
/// are written, in lower case; every other line is `INVALID`.
pub open spec fn choice_of(line: Seq<char>) -> Choice {
    if line == "new"@ {
        Choice::NEW
    } else if line == "update"@ {
        Choice::UPDATE
    } else if line == "view"@ {
        Choice::VIEW
    } else if line == "clear"@ {
        Choice::CLEAR
    } else if line == "exit"@ {
        Choice::EXIT
    } else {
        Choice::INVALID
    }
}

/// The choice that one read of input stands for: that of its first line.
/// Input without a line is `INVALID`.
pub open spec fn chosen(buffer: Seq<char>) -> Choice {
    match first_line_of(buffer) {
        Some(line) => choice_of(line),
        None => Choice::INVALID,
    }
}

/// Reads the operator's choice off one read of input.
pub fn is_valid_choice(buffer: &String) -> (c: Choice)
    ensures
        c == chosen(buffer@),
{
    match first_line(buffer.as_str()) {
        None => Choice::INVALID,
        Some(line) => {
            if same_text(line, "new") {
                Choice::NEW
            } else if same_text(line, "update") {
                Choice::UPDATE
            } else if same_text(line, "view") {
                Choice::VIEW
            } else if same_text(line, "clear") {
                Choice::CLEAR
            } else if same_text(line, "exit") {
                Choice::EXIT
            } else {
                Choice::INVALID
            }
        },
    }
}

/// The two states of the menu loop. It starts `Running` and ends `Exited`.
#[derive(Clone, Copy, Debug, PartialEq, Eq, Structural)]
pub enum Menu {
    Running,
    Exited,
}

/// What the program does after a read at the menu.
#[derive(Clone, Copy, Debug, PartialEq, Eq, Structural)]
pub enum Step {
    /// Ask for a choice again.
    Ask,
    /// Add the reviews that the catalog still lacks.
    RunNew,
    /// Change the rating of one review.
    RunUpdate,
    /// Show the reviews.
    RunView,
    /// Remove all reviews.
    RunClear,
    /// Leave the loop.
    Stop,
}

/// The menu's transitions. While it runs, each of the four commands is
/// dispatched and leaves it running, `exit` ends it, and anything else asks
/// again. Once exited it stays so.
pub open spec fn step_of(state: Menu, buffer: Seq<char>) -> (Menu, Step) {
    match state {
        Menu::Exited => (Menu::Exited, Step::Stop),
        Menu::Running => match chosen(buffer) {
            Choice::NEW => (Menu::Running, Step::RunNew),
            Choice::UPDATE => (Menu::Running, Step::RunUpdate),
            Choice::VIEW => (Menu::Running, Step::RunView),
            Choice::CLEAR => (Menu::Running, Step::RunClear),
            Choice::EXIT => (Menu::Exited, Step::Stop),
            Choice::INVALID => (Menu::Running, Step::Ask),
        },
    }
}

/// One turn of the menu loop: from the state and one read of input to the
/// next state and what to do.
pub fn choice(state: Menu, buffer: &String) -> (next: (Menu, Step))
    ensures
        next == step_of(state, buffer@),
{
    match state {
        Menu::Exited => (Menu::Exited, Step::Stop),
        Menu::Running => match is_valid_choice(buffer) {
            Choice::NEW => (Menu::Running, Step::RunNew),
            Choice::UPDATE => (Menu::Running, Step::RunUpdate),
            Choice::VIEW => (Menu::Running, Step::RunView),
            Choice::CLEAR => (Menu::Running, Step::RunClear),
            Choice::EXIT => (Menu::Exited, Step::Stop),
            Choice::INVALID => (Menu::Running, Step::Ask),
        },
    }
}

/// Exactly five lines are accepted at the menu: a line selects a command if
/// and only if it is one of the five tokens, letter for letter.
pub proof fn lemma_five_tokens(line: Seq<char>)
    ensures
        choice_of(line) != Choice::INVALID <==> (line == "new"@ || line == "update"@ || line
            == "view"@ || line == "clear"@ || line == "exit"@),
        line == "new"@ ==> choice_of(line) == Choice::NEW,
        line == "update"@ ==> choice_of(line) == Choice::UPDATE,
        line == "view"@ ==> choice_of(line) == Choice::VIEW,
        line == "clear"@ ==> choice_of(line) == Choice::CLEAR,
        line == "exit"@ ==> choice_of(line) == Choice::EXIT,
{
    reveal_strlit("new");
    reveal_strlit("update");
    reveal_strlit("view");
    reveal_strlit("clear");
    reveal_strlit("exit");
    assert("new"@.len() == 3 && "update"@.len() == 6 && "clear"@.len() == 5);
    assert("view"@.len() == 4 && "exit"@.len() == 4 && "view"@[0] != "exit"@[0]);
}

/// Input that selects nothing never ends the loop and never runs a command:
/// a running menu stays running and asks again.
pub proof fn lemma_invalid_asks_again(buffer: Seq<char>)
    requires
        chosen(buffer) == Choice::INVALID,
    ensures
        step_of(Menu::Running, buffer) == (Menu::Running, Step::Ask),
{
}

} // verus!
