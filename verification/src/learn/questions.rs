//! The questionnaire: a numbered menu of questions with their answers, where
//! the user picks one to read, adds their own, or stops.
use vstd::prelude::*;
use crate::strings::{parse_bounded, trim, trimmed, unsigned_value};

verus! {

pub const ANSWER_FOR_ALL: u8 = 42;

pub const QUESTION_OF_ALL: &'static str = "life, the universe and everything";

pub const OK: &'static str = "Ok";

/// The message when the choice is not a number.
pub const EXPECTED_NUMBER: &'static str = "Expected number";

/// Reads a natural number, ignoring surrounding whitespace.
pub fn parse_natural_number(input: &str) -> (r: Result<usize, &'static str>)
    ensures
        r is Ok <==> (unsigned_value(trimmed(input@)) matches Some(v) && v <= usize::MAX),
        r matches Ok(n) ==> unsigned_value(trimmed(input@)) == Some(n as nat),
        r matches Err(e) ==> e == EXPECTED_NUMBER,
{
    match parse_bounded(trim(input), usize::MAX as u64) {
        Some(n) => Ok(n as usize),
        None => Err(EXPECTED_NUMBER),
    }
}

/// The question and answer at menu number `choice` (numbers start at 1).
pub fn get_question(questionarie: &Vec<(String, String)>, choice: usize) -> (r: (&String, &String))
    requires
        1 <= choice <= questionarie.len(),
    ensures
        *r.0 == questionarie@[choice - 1].0,
        *r.1 == questionarie@[choice - 1].1,
{
    let entry = &questionarie[choice - 1];
    (&entry.0, &entry.1)
}

/// Adds the user's question and answer at the end of the menu.
pub fn add_question(questionarie: &mut Vec<(String, String)>, question: String, answer: String)
    ensures
        final(questionarie)@ == old(questionarie)@.push((question, answer)),
{
    questionarie.push((question, answer));
}

/// What a menu number asks for.
#[derive(Debug, Clone, Copy, PartialEq, Eq, Structural)]
pub enum MenuChoice {
    /// Stop asking.
    Stop,
    /// A number beyond the menu.
    Unexpected,
    /// Read the question at this number.
    Ask(usize),
    /// Add a question of one's own.
    AddOwn,
}

/// The meaning of a menu number when the menu lists `questions` questions:
/// 0 stops, the numbers of the questions read them, the next number adds a
/// question, and anything larger is unexpected.
pub fn menu_choice(choice: usize, questions: usize) -> (r: MenuChoice)
    requires
        questions < usize::MAX,
    ensures
        r == (if choice == 0 {
            MenuChoice::Stop
        } else if choice > questions + 1 {
            MenuChoice::Unexpected
        } else if choice == questions + 1 {
            MenuChoice::AddOwn
        } else {
            MenuChoice::Ask(choice)
        }),
{
    let own_choice = questions + 1;
    if choice == 0 {
        MenuChoice::Stop
    } else if choice > own_choice {
        MenuChoice::Unexpected
    } else if choice == own_choice {
        MenuChoice::AddOwn
    } else {
        MenuChoice::Ask(choice)
    }
}

} // verus!
