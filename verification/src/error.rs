use vstd::prelude::*;
use vstd::string::*;
use crate::text::{render_nat, write_nat};

verus! {

/// The shape of value that a conversion expected to find.
#[derive(Clone, Copy, Debug, PartialEq, Eq, Structural)]
pub enum Shape {
    Integer,
    Boolean,
    Symbol,
    List,
}

/// A fatal condition. It ends the evaluation that met it and is never a value
/// of the language; a host is expected to abort the request that raised it.
#[derive(Clone, Copy, Debug, PartialEq, Eq, Structural)]
pub enum Fault {
    /// The divisor of `/` was zero.
    DivisionByZero,
    /// Evaluation nested deeper than the recursion limit allows.
    DepthExceeded,
    /// A primitive function of two operands carries a name that is no operator.
    UnknownPrimitive,
    /// A special form was applied to fewer operands than it reads.
    MissingOperand,
}

/// The mathematical content of a [`RuntimeError`].
pub enum Failure {
    UnboundSymbol(Seq<char>),
    TypeMismatch(Shape),
    ArityMismatch(Seq<char>, usize, usize),
    NotCallable(Seq<char>),
    CannotEvalCallable(Seq<char>),
    UnknownSpecialForm(Seq<char>),
    Fault(Fault),
}

/// Why an evaluation did not produce a value.
#[derive(Debug, PartialEq, Eq)]
pub enum RuntimeError {
    /// The symbol has no binding in the active scope chain.
    UnboundSymbol(String),
    /// A value of another shape stood where this shape was expected.
    TypeMismatch(Shape),
    /// The named form takes the first number of operands and was given the second.
    ArityMismatch(String, usize, usize),
    /// The head of a list evaluated to this value, which cannot be applied.
    NotCallable(String),
    /// This callable was met as an expression of its own.
    CannotEvalCallable(String),
    /// A special form carries a name that the evaluator does not know.
    UnknownSpecialForm(String),
    /// A fatal condition.
    Fault(Fault),
}

impl View for RuntimeError {
    type V = Failure;

    open spec fn view(&self) -> Failure {
        match self {
            RuntimeError::UnboundSymbol(name) => Failure::UnboundSymbol(name@),
            RuntimeError::TypeMismatch(shape) => Failure::TypeMismatch(*shape),
            RuntimeError::ArityMismatch(name, expected, actual) => Failure::ArityMismatch(
                name@,
                *expected,
                *actual,
            ),
            RuntimeError::NotCallable(text) => Failure::NotCallable(text@),
            RuntimeError::CannotEvalCallable(text) => Failure::CannotEvalCallable(text@),
            RuntimeError::UnknownSpecialForm(name) => Failure::UnknownSpecialForm(name@),
            RuntimeError::Fault(fault) => Failure::Fault(*fault),
        }
    }
}

/// The word for a shape in a message.
pub open spec fn shape_name(shape: Shape) -> Seq<char> {
    match shape {
        Shape::Integer => "integer"@,
        Shape::Boolean => "boolean"@,
        Shape::Symbol => "symbol"@,
        Shape::List => "list"@,
    }
}

/// The message of a fatal condition.
pub open spec fn fault_message(fault: Fault) -> Seq<char> {
    match fault {
        Fault::DivisionByZero => "Division by zero"@,
        Fault::DepthExceeded => "Recursion limit exceeded"@,
        Fault::UnknownPrimitive => "Unknown primitive function"@,
        Fault::MissingOperand => "Missing operand"@,
    }
}

/// The message of a failure.
pub open spec fn message_of(failure: Failure) -> Seq<char> {
    match failure {
        Failure::UnboundSymbol(name) => "Unknown symbol: "@ + name,
        Failure::TypeMismatch(shape) => "Expected "@ + shape_name(shape),
        Failure::ArityMismatch(name, expected, _) => "Expected "@ + render_nat(expected as nat)
            + " arguments to "@ + name,
        Failure::NotCallable(text) => "Expected callable, got "@ + text,
        Failure::CannotEvalCallable(text) => "Cannot eval "@ + text,
        Failure::UnknownSpecialForm(name) => "Unknown special form: "@ + name,
        Failure::Fault(fault) => fault_message(fault),
    }
}

impl Shape {
    /// The word for the shape in a message.
    pub fn name(&self) -> (word: &'static str)
        ensures
            word@ == shape_name(*self),
    {
        match self {
            Shape::Integer => "integer",
            Shape::Boolean => "boolean",
            Shape::Symbol => "symbol",
            Shape::List => "list",
        }
    }
}

impl Fault {
    /// The message of the condition.
    pub fn message(&self) -> (text: &'static str)
        ensures
            text@ == fault_message(*self),
    {
        match self {
            Fault::DivisionByZero => "Division by zero",
            Fault::DepthExceeded => "Recursion limit exceeded",
            Fault::UnknownPrimitive => "Unknown primitive function",
            Fault::MissingOperand => "Missing operand",
        }
    }
}

impl RuntimeError {
    /// Whether the error is a fatal condition rather than a typed error of the language.
    pub fn is_fault(&self) -> (fatal: bool)
        ensures
            fatal == (self@ is Fault),
    {
        match self {
            RuntimeError::Fault(_) => true,
            _ => false,
        }
    }

    /// The message of the error.
    pub fn message(&self) -> (text: String)
        ensures
            text@ == message_of(self@),
    {
        match self {
            RuntimeError::UnboundSymbol(name) => "Unknown symbol: ".to_owned().concat(
                name.as_str(),
            ),
            RuntimeError::TypeMismatch(shape) => "Expected ".to_owned().concat(shape.name()),
            RuntimeError::ArityMismatch(name, expected, _) => {
                let mut text = "Expected ".to_owned();
                write_nat(&mut text, *expected as u64);
                text.append(" arguments to ");
                text.append(name.as_str());
                text
            },
            RuntimeError::NotCallable(value) => "Expected callable, got ".to_owned().concat(
                value.as_str(),
            ),
            RuntimeError::CannotEvalCallable(value) => "Cannot eval ".to_owned().concat(
                value.as_str(),
            ),
            RuntimeError::UnknownSpecialForm(name) => "Unknown special form: ".to_owned().concat(
                name.as_str(),
            ),
            RuntimeError::Fault(fault) => fault.message().to_owned(),
        }
    }
}

/// Why a text is not a program.
#[derive(Clone, Copy, Debug, PartialEq, Eq, Structural)]
pub enum ParseError {
    /// The text does not begin with an opening parenthesis.
    ExpectedOpenParen,
}

/// The message of a parse error.
pub open spec fn parse_message(error: ParseError) -> Seq<char> {
    "Expected ("@
}

impl ParseError {
    /// The message of the error.
    pub fn message(&self) -> (text: String)
        ensures
            text@ == parse_message(*self),
    {
        "Expected (".to_owned()
    }
}

/// Why a text did not come to a value.
#[derive(Debug, PartialEq, Eq)]
pub enum Error {
    /// The text is not a program.
    Parse(ParseError),
    /// The program failed.
    Runtime(RuntimeError),
}

impl Error {
    /// Whether the error is a fatal condition, which a host does not hand on as a message.
    pub fn is_fault(&self) -> (fatal: bool)
        ensures
            fatal == (self matches Error::Runtime(error) && error@ is Fault),
    {
        match self {
            Error::Parse(_) => false,
            Error::Runtime(error) => error.is_fault(),
        }
    }

    /// The message of the error.
    pub fn message(&self) -> (text: String)
        ensures
            text@ == match self {
                Error::Parse(error) => parse_message(*error),
                Error::Runtime(error) => message_of(error@),
            },
    {
        match self {
            Error::Parse(error) => error.message(),
            Error::Runtime(error) => error.message(),
        }
    }
}

} // verus!
