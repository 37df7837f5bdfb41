//! The errors of evaluation and of the checking of arguments.
use crate::node::Span;
use crate::render::ty::{type_label, Type};
use vstd::prelude::*;
use vstd::string::StringExecFns;

verus! {

/// What is wrong with the arguments of a call.
#[derive(Debug, Clone)]
pub enum ArgumentError {
    /// A required parameter was given no argument.
    MissingRequired { name: String, ty: Type },
    /// A named argument names no parameter.
    UnknownNamed { name: String },
    /// A positional argument has no parameter at its position.
    UnknownPositional { pos: usize },
    /// An argument has a type that its parameter does not accept.
    WrongType { got: Type, expected: Type },
}

/// The message of an error of evaluation.
#[derive(Debug, Clone)]
pub enum EngineErrorMessage {
    Message(String),
    MissingArgument(String),
    WrongArgType { key: String, expected: Type },
    WrongArguments(Vec<String>),
    FunctionNotFound(String),
    SymbolNotFound(String),
    Argument(ArgumentError),
}

/// An error of evaluation at a place of the source.
#[derive(Debug, Clone)]
pub struct EngineError {
    pub span: Span,
    pub msg: EngineErrorMessage,
}

impl EngineError {
    /// An error with its place and message.
    pub fn new(span: Span, msg: EngineErrorMessage) -> (r: Self)
        ensures
            r.span == span,
            r.msg == msg,
    {
        EngineError { span, msg }
    }

    /// An error about the arguments of a call.
    pub fn arg(span: Span, e: ArgumentError) -> (r: Self)
        ensures
            r.span == span,
            r.msg == EngineErrorMessage::Argument(e),
    {
        EngineError { span, msg: EngineErrorMessage::Argument(e) }
    }
}

/// The text that shows a message.
pub open spec fn message_text(m: EngineErrorMessage) -> Seq<char> {
    match m {
        EngineErrorMessage::Message(s) => s@,
        EngineErrorMessage::MissingArgument(s) => "Missing Argument "@ + s@,
        EngineErrorMessage::WrongArgType { key, expected } => "Wrong Type for argument "@ + key@
            + ". Expected "@ + type_label(expected),
        EngineErrorMessage::WrongArguments(_) => "Wrong Arguments"@,
        EngineErrorMessage::FunctionNotFound(s) => "Function '"@ + s@ + "' not found"@,
        EngineErrorMessage::SymbolNotFound(s) => "Symbol '"@ + s@ + "' not found"@,
        EngineErrorMessage::Argument(e) => match e {
            ArgumentError::MissingRequired { name, .. } => "Missing Argument "@ + name@,
            ArgumentError::UnknownNamed { name } => "Unknown argument "@ + name@,
            ArgumentError::UnknownPositional { .. } => "Unknown positional argument"@,
            ArgumentError::WrongType { expected, .. } => "Wrong Type. Expected "@ + type_label(
                expected,
            ),
        },
    }
}

impl EngineErrorMessage {
    /// The text of the message, as it is shown.
    pub fn to_string(&self) -> (r: String)
        ensures
            r@ == message_text(*self),
    {
        match self {
            EngineErrorMessage::Message(s) => s.clone(),
            EngineErrorMessage::MissingArgument(s) => String::from_str("Missing Argument ").concat(
                s.as_str(),
            ),
            EngineErrorMessage::WrongArgType { key, expected } => String::from_str(
                "Wrong Type for argument ",
            ).concat(key.as_str()).concat(". Expected ").concat(expected.to_string().as_str()),
            EngineErrorMessage::WrongArguments(_) => String::from_str("Wrong Arguments"),
            EngineErrorMessage::FunctionNotFound(s) => String::from_str("Function '").concat(
                s.as_str(),
            ).concat("' not found"),
            EngineErrorMessage::SymbolNotFound(s) => String::from_str("Symbol '").concat(
                s.as_str(),
            ).concat("' not found"),
            EngineErrorMessage::Argument(e) => match e {
                ArgumentError::MissingRequired { name, .. } => String::from_str(
                    "Missing Argument ",
                ).concat(name.as_str()),
                ArgumentError::UnknownNamed { name } => String::from_str("Unknown argument ").concat(
                    name.as_str(),
                ),
                ArgumentError::UnknownPositional { .. } => String::from_str(
                    "Unknown positional argument",
                ),
                ArgumentError::WrongType { expected, .. } => String::from_str(
                    "Wrong Type. Expected ",
                ).concat(expected.to_string().as_str()),
            },
        }
    }
}

} // verus!
