//! The error taxonomy of the interpreter.
//!
//! Every failure the reader or the evaluator can report is one variant of
//! [`SchemeError`]. Errors are modelled in specifications by [`SpecError`],
//! and rendered for the top-level caller by [`SchemeError::message`].

use vstd::prelude::*;

verus! {

/// An error raised while reading or evaluating a program.
#[derive(Debug)]
pub enum SchemeError {
    /// The reader was invoked on an empty token sequence.
    EmptyProgram,
    /// The tokens ran out before a list's closing parenthesis appeared.
    MissingCloseParen,
    /// A closing parenthesis appeared where a form was expected.
    UnexpectedCloseParen,
    /// A quote mark was not followed by an opening parenthesis.
    ExpectedOpenParenAfterQuote,
    /// An empty combination `()` was evaluated.
    IllFormedExpression,
    /// A symbol was looked up and bound in no scope of the chain.
    UndefinedSymbol(String),
    /// The first element of a combination did not evaluate to a procedure,
    /// or a callable value was required and something else was given.
    NotCallable,
    /// A user-defined procedure was called with the wrong number of
    /// arguments; carries the procedure's name and its parameter count.
    ArityMismatch(String, usize),
    /// The first argument of `define` was neither a symbol nor a list.
    InvalidDefineTarget,
    /// A parameter in a procedure definition was not a symbol.
    NonSymbolInParameterList,
    /// A variable definition was given more than one value, or a
    /// procedure definition had an empty header list.
    IllFormedDefine,
    /// The condition of an `if` did not evaluate to a boolean.
    NonBooleanCondition,
    /// An `if` whose condition was false was given more than two branches.
    TooManyIfBranches,
    /// An integer was required and something else was given.
    NotAnInteger,
    /// `car` or `cdr` was applied to a value that is neither a pair nor a
    /// non-empty sequence.
    ExpectedPair,
    /// A sequence was required and something else was given.
    NotAList,
    /// A symbol was required and something else was given.
    NotASymbol,
    /// A built-in procedure was called with the wrong number of arguments.
    InvalidArgumentCount,
    /// Integer division by zero.
    DivisionByZero,
    /// An arithmetic result fell outside the 32-bit signed range.
    IntegerOverflow,
    /// The `let` procedure is installed but not implemented.
    LetNotDefined,
    /// The evaluator's recursion bound was exhausted; stands in for the
    /// host call stack limit of an unbounded recursive program.
    RecursionLimit,
}

/// The mathematical model of a [`SchemeError`].
pub enum SpecError {
    EmptyProgram,
    MissingCloseParen,
    UnexpectedCloseParen,
    ExpectedOpenParenAfterQuote,
    IllFormedExpression,
    UndefinedSymbol(Seq<char>),
    NotCallable,
    ArityMismatch(Seq<char>, nat),
    InvalidDefineTarget,
    NonSymbolInParameterList,
    IllFormedDefine,
    NonBooleanCondition,
    TooManyIfBranches,
    NotAnInteger,
    ExpectedPair,
    NotAList,
    NotASymbol,
    InvalidArgumentCount,
    DivisionByZero,
    IntegerOverflow,
    LetNotDefined,
    RecursionLimit,
}

/// The model an error value stands for.
pub open spec fn error_view(e: SchemeError) -> SpecError {
    match e {
        SchemeError::EmptyProgram => SpecError::EmptyProgram,
        SchemeError::MissingCloseParen => SpecError::MissingCloseParen,
        SchemeError::UnexpectedCloseParen => SpecError::UnexpectedCloseParen,
        SchemeError::ExpectedOpenParenAfterQuote => SpecError::ExpectedOpenParenAfterQuote,
        SchemeError::IllFormedExpression => SpecError::IllFormedExpression,
        SchemeError::UndefinedSymbol(s) => SpecError::UndefinedSymbol(s@),
        SchemeError::NotCallable => SpecError::NotCallable,
        SchemeError::ArityMismatch(s, n) => SpecError::ArityMismatch(s@, n as nat),
        SchemeError::InvalidDefineTarget => SpecError::InvalidDefineTarget,
        SchemeError::NonSymbolInParameterList => SpecError::NonSymbolInParameterList,
        SchemeError::IllFormedDefine => SpecError::IllFormedDefine,
        SchemeError::NonBooleanCondition => SpecError::NonBooleanCondition,
        SchemeError::TooManyIfBranches => SpecError::TooManyIfBranches,
        SchemeError::NotAnInteger => SpecError::NotAnInteger,
        SchemeError::ExpectedPair => SpecError::ExpectedPair,
        SchemeError::NotAList => SpecError::NotAList,
        SchemeError::NotASymbol => SpecError::NotASymbol,
        SchemeError::InvalidArgumentCount => SpecError::InvalidArgumentCount,
        SchemeError::DivisionByZero => SpecError::DivisionByZero,
        SchemeError::IntegerOverflow => SpecError::IntegerOverflow,
        SchemeError::LetNotDefined => SpecError::LetNotDefined,
        SchemeError::RecursionLimit => SpecError::RecursionLimit,
    }
}

/// The rendering of each error as a human-readable message.
pub open spec fn error_text(e: SpecError) -> Seq<char> {
    match e {
        SpecError::EmptyProgram => "Empty program"@,
        SpecError::MissingCloseParen => "Missing right paren"@,
        SpecError::UnexpectedCloseParen => "Unexpected right paren"@,
        SpecError::ExpectedOpenParenAfterQuote => "Expected ( after quote"@,
        SpecError::IllFormedExpression => "Ill-formed expression"@,
        SpecError::UndefinedSymbol(s) => "Undefined symbol: "@ + s,
        SpecError::NotCallable => "Not a callable"@,
        SpecError::ArityMismatch(s, _) => "Wrong number of arguments for "@ + s,
        SpecError::InvalidDefineTarget => "First argument to define must be a symbol or list"@,
        SpecError::NonSymbolInParameterList => "Non-symbol in parameter list"@,
        SpecError::IllFormedDefine => "Ill formed define"@,
        SpecError::NonBooleanCondition => "First argument to 'if' must be a boolean"@,
        SpecError::TooManyIfBranches => "Too many arguments to 'if'"@,
        SpecError::NotAnInteger => "Not an int"@,
        SpecError::ExpectedPair => "Expected a pair"@,
        SpecError::NotAList => "Not a list"@,
        SpecError::NotASymbol => "Not a symbol"@,
        SpecError::InvalidArgumentCount => "Invalid number of operands"@,
        SpecError::DivisionByZero => "Division by zero"@,
        SpecError::IntegerOverflow => "Integer overflow"@,
        SpecError::LetNotDefined => "let not defined"@,
        SpecError::RecursionLimit => "Recursion limit exceeded"@,
    }
}

impl SchemeError {
    /// Renders the error as the message string reported to the top-level
    /// caller.
    pub fn message(&self) -> (s: String)
        ensures
            s@ == error_text(error_view(*self)),
    {
        match self {
            SchemeError::EmptyProgram => String::from_str("Empty program"),
            SchemeError::MissingCloseParen => String::from_str("Missing right paren"),
            SchemeError::UnexpectedCloseParen => String::from_str("Unexpected right paren"),
            SchemeError::ExpectedOpenParenAfterQuote => String::from_str("Expected ( after quote"),
            SchemeError::IllFormedExpression => String::from_str("Ill-formed expression"),
            SchemeError::UndefinedSymbol(name) => {
                let mut m = String::from_str("Undefined symbol: ");
                m.append(name.as_str());
                m
            },
            SchemeError::NotCallable => String::from_str("Not a callable"),
            SchemeError::ArityMismatch(name, _) => {
                let mut m = String::from_str("Wrong number of arguments for ");
                m.append(name.as_str());
                m
            },
            SchemeError::InvalidDefineTarget => String::from_str(
                "First argument to define must be a symbol or list",
            ),
            SchemeError::NonSymbolInParameterList => String::from_str(
                "Non-symbol in parameter list",
            ),
            SchemeError::IllFormedDefine => String::from_str("Ill formed define"),
            SchemeError::NonBooleanCondition => String::from_str(
                "First argument to 'if' must be a boolean",
            ),
            SchemeError::TooManyIfBranches => String::from_str("Too many arguments to 'if'"),
            SchemeError::NotAnInteger => String::from_str("Not an int"),
            SchemeError::ExpectedPair => String::from_str("Expected a pair"),
            SchemeError::NotAList => String::from_str("Not a list"),
            SchemeError::NotASymbol => String::from_str("Not a symbol"),
            SchemeError::InvalidArgumentCount => String::from_str("Invalid number of operands"),
            SchemeError::DivisionByZero => String::from_str("Division by zero"),
            SchemeError::IntegerOverflow => String::from_str("Integer overflow"),
            SchemeError::LetNotDefined => String::from_str("let not defined"),
            SchemeError::RecursionLimit => String::from_str("Recursion limit exceeded"),
        }
    }
}

} // verus!
