//! The deterministic automaton that groups character classes into token runs.

use vstd::prelude::*;
use crate::classes::Class;

verus! {

/// What kind of token the automaton is currently accumulating.
///
/// `Start` holds no pending run. `Error` is the sink every non-extending
/// transition leads to.
#[derive(Clone, Copy, Debug, PartialEq, Eq, Structural)]
pub enum State {
    Start,
    Ident,
    Number,
    Operator,
    LParen,
    RParen,
    Error,
}

/// The number of states, and of rows in the transition table.
pub const STATE_COUNT: usize = 7;

/// The number of classes, and of columns in the transition table.
pub const CLASS_COUNT: usize = 7;

/// The transition function, total over all pairs of a state and a class.
///
/// From `Start`, white space stays in `Start` and every class that can begin
/// a token enters that token's state. An identifier goes on with letters and
/// digits, a number with digits. Everything else leads to `Error`: operators
/// and parentheses are one character wide and never go on.
pub open spec fn step(state: State, class: Class) -> State {
    match (state, class) {
        (State::Start, Class::Letter) => State::Ident,
        (State::Start, Class::Digit) => State::Number,
        (State::Start, Class::Operator) => State::Operator,
        (State::Start, Class::LParen) => State::LParen,
        (State::Start, Class::RParen) => State::RParen,
        (State::Start, Class::Whitespace) => State::Start,
        (State::Ident, Class::Letter) => State::Ident,
        (State::Ident, Class::Digit) => State::Ident,
        (State::Number, Class::Digit) => State::Number,
        _ => State::Error,
    }
}

/// Row number of a state in the transition table.
pub open spec fn state_row(state: State) -> int {
    match state {
        State::Start => 0,
        State::Ident => 1,
        State::Number => 2,
        State::Operator => 3,
        State::LParen => 4,
        State::RParen => 5,
        State::Error => 6,
    }
}

/// Column number of a class in the transition table.
pub open spec fn class_column(class: Class) -> int {
    match class {
        Class::Letter => 0,
        Class::Digit => 1,
        Class::Operator => 2,
        Class::LParen => 3,
        Class::RParen => 4,
        Class::Whitespace => 5,
        Class::Other => 6,
    }
}

/// The row of a state in the transition table.
pub fn state_index(s: State) -> (row: usize)
    ensures
        row == state_row(s),
        row < STATE_COUNT,
{
    match s {
        State::Start => 0,
        State::Ident => 1,
        State::Number => 2,
        State::Operator => 3,
        State::LParen => 4,
        State::RParen => 5,
        State::Error => 6,
    }
}

/// The column of a class in the transition table.
pub fn class_index(c: Class) -> (column: usize)
    ensures
        column == class_column(c),
        column < CLASS_COUNT,
{
    match c {
        Class::Letter => 0,
        Class::Digit => 1,
        Class::Operator => 2,
        Class::LParen => 3,
        Class::RParen => 4,
        Class::Whitespace => 5,
        Class::Other => 6,
    }
}

/// The transition table: one row per state, one column per class.
pub const TRANSITIONS: [[State; 7]; 7] = [
    [State::Ident, State::Number, State::Operator, State::LParen, State::RParen, State::Start, State::Error],
    [State::Ident, State::Ident, State::Error, State::Error, State::Error, State::Error, State::Error],
    [State::Error, State::Number, State::Error, State::Error, State::Error, State::Error, State::Error],
    [State::Error, State::Error, State::Error, State::Error, State::Error, State::Error, State::Error],
    [State::Error, State::Error, State::Error, State::Error, State::Error, State::Error, State::Error],
    [State::Error, State::Error, State::Error, State::Error, State::Error, State::Error, State::Error],
    [State::Error, State::Error, State::Error, State::Error, State::Error, State::Error, State::Error],
];

/// Looks the successor of `state` on `class` up in the table.
pub fn transition(state: State, class: Class) -> (next: State)
    ensures
        next == step(state, class),
{
    let row: usize = state_index(state);
    let column: usize = class_index(class);
    TRANSITIONS[row][column]
}

} // verus!
