use vstd::prelude::*;
use crate::frame::Frame;
use crate::span::TextSpan;
use crate::text::{decimal, push_str, u64_to_decimal};

verus! {

/// The errors of the Roan toolchain: lexing, parsing, resolution and evaluation.
#[derive(Debug)]
pub enum RoanError {
    /// Reported as `IO error: {0}`.
    Io(String),
    /// Reported as `Invalid token: {0}`.
    InvalidToken(String, TextSpan),
    /// Reported as `Expected {0}.`.
    ExpectedToken(String, String, TextSpan),
    /// Reported as `Unexpected token: {0}`.
    UnexpectedToken(String, TextSpan),
    /// Reported as `{0}`.
    SemanticError(String, TextSpan),
    /// Reported as `Semantic error: {0}`.
    ResolverError(String),
    /// Reported as `{0}`.
    ModuleError(String),
    /// Reported as `Tried to import a item that does not exist: {0}`.
    ImportError(String, TextSpan),
    /// Reported as `Failed to import {0}. {1}`.
    FailedToImportModule(String, String, TextSpan),
    /// Reported as `Couldn't find variable: {0}`.
    VariableNotFoundError(String, TextSpan),
    /// Reported as `Call to undefined function: {0}`.
    UndefinedFunctionError(String, TextSpan),
    /// Reported as `Found normal parameter after rest parameter.`.
    RestParameterNotLast(TextSpan),
    /// Reported as `Found rest parameter in non-last position.`.
    RestParameterNotLastPosition(TextSpan),
    /// Reported as `Found more than one rest parameter.`.
    MultipleRestParameters(TextSpan),
    /// Reported as `{0}`.
    Throw(String, Vec<Frame>),
    /// Reported as `Invalid escape sequence: {0}`.
    InvalidEscapeSequence(String, TextSpan),
    /// Reported as `{0} does not evaluate to a boolean.`.
    NonBooleanCondition(String, TextSpan),
    /// Reported as `Index out of bounds: {0} >= {1}`.
    IndexOutOfBounds(usize, usize, TextSpan),
    /// Reported as `Type mismatch: {0}`.
    TypeMismatch(String, TextSpan),
    /// Reported as `Invalid assignment {0}`.
    InvalidAssignment(String, TextSpan),
    /// Reported as `Attempted to access non-existent property: {0}`.
    PropertyNotFoundError(String, TextSpan),
    /// Reported as `Invalid property access`.
    InvalidPropertyAccess(TextSpan),
    /// Reported as `Found break or continue statement outside of loop.`.
    InvalidBreakOrContinue(TextSpan),
    /// Reported as `Break was used outside loop.`.
    LoopBreak(TextSpan),
    /// Reported as `Continue was used outside loop.`.
    LoopContinue(TextSpan),
    /// Reported as `Invalid spread operator usage.`.
    InvalidSpread(TextSpan),
    /// Reported as `Found multiple 'self' parameters.`.
    MultipleSelfParameters(TextSpan),
    /// Reported as `Found 'self' parameter in non-first position.`.
    SelfParameterNotFirst(TextSpan),
    /// Reported as `Self parameter cannot be rest.`.
    SelfParameterCannotBeRest(TextSpan),
    /// Reported as `Struct not found: {0}`.
    StructNotFoundError(String, TextSpan),
    /// Reported as `Trait definition not found: {0}`.
    TraitNotFoundError(String, TextSpan),
    /// Reported as `Struct {0} already implements trait {1}`.
    StructAlreadyImplementsTrait(String, String, TextSpan),
    /// Reported as `Trait {0} doesn't implement required method`.
    TraitMethodNotImplemented(String, Vec<String>, TextSpan),
    /// Reported as `Cannot assign value to static member`.
    StaticMemberAssignment(TextSpan),
    /// Reported as `Attempted to access static member of non-struct type`.
    StaticMemberAccess(TextSpan),
    /// Reported as `Only call expressions can be accessed in a static context`.
    StaticContext(TextSpan),
    /// Reported as `Invalid unary operator: {0}`.
    InvalidUnaryOperation(String, TextSpan),
    /// Reported as `Missing non-nullable parameter: {0}`.
    MissingParameter(String, TextSpan),
    /// Reported as `Invalid type provided: {0}. Available types: {1}`.
    InvalidType(String, String, TextSpan),
    /// Reported as `Missing field: {0} required by struct: {1}`.
    MissingField(String, String, TextSpan),
    /// Reported as `Expected {0} arguments to {1} function, got {2}`.
    TooManyArguments(usize, String, usize, TextSpan),
}

/// The source location an error points at, if it has one.
pub open spec fn error_span(err: RoanError) -> Option<TextSpan> {
    match err {
        RoanError::Io(_) => None,
        RoanError::InvalidToken(_, span) => Some(span),
        RoanError::ExpectedToken(_, _, span) => Some(span),
        RoanError::UnexpectedToken(_, span) => Some(span),
        RoanError::SemanticError(_, span) => Some(span),
        RoanError::ResolverError(_) => None,
        RoanError::ModuleError(_) => None,
        RoanError::ImportError(_, span) => Some(span),
        RoanError::FailedToImportModule(_, _, span) => Some(span),
        RoanError::VariableNotFoundError(_, span) => Some(span),
        RoanError::UndefinedFunctionError(_, span) => Some(span),
        RoanError::RestParameterNotLast(span) => Some(span),
        RoanError::RestParameterNotLastPosition(span) => Some(span),
        RoanError::MultipleRestParameters(span) => Some(span),
        RoanError::Throw(_, _) => None,
        RoanError::InvalidEscapeSequence(_, span) => Some(span),
        RoanError::NonBooleanCondition(_, span) => Some(span),
        RoanError::IndexOutOfBounds(_, _, span) => Some(span),
        RoanError::TypeMismatch(_, span) => Some(span),
        RoanError::InvalidAssignment(_, span) => Some(span),
        RoanError::PropertyNotFoundError(_, span) => Some(span),
        RoanError::InvalidPropertyAccess(span) => Some(span),
        RoanError::InvalidBreakOrContinue(span) => Some(span),
        RoanError::LoopBreak(span) => Some(span),
        RoanError::LoopContinue(span) => Some(span),
        RoanError::InvalidSpread(span) => Some(span),
        RoanError::MultipleSelfParameters(span) => Some(span),
        RoanError::SelfParameterNotFirst(span) => Some(span),
        RoanError::SelfParameterCannotBeRest(span) => Some(span),
        RoanError::StructNotFoundError(_, span) => Some(span),
        RoanError::TraitNotFoundError(_, span) => Some(span),
        RoanError::StructAlreadyImplementsTrait(_, _, span) => Some(span),
        RoanError::TraitMethodNotImplemented(_, _, span) => Some(span),
        RoanError::StaticMemberAssignment(span) => Some(span),
        RoanError::StaticMemberAccess(span) => Some(span),
        RoanError::StaticContext(span) => Some(span),
        RoanError::InvalidUnaryOperation(_, span) => Some(span),
        RoanError::MissingParameter(_, span) => Some(span),
        RoanError::InvalidType(_, _, span) => Some(span),
        RoanError::MissingField(_, _, span) => Some(span),
        RoanError::TooManyArguments(_, _, _, span) => Some(span),
    }
}

/// The one-line message of an error.
pub open spec fn error_message(err: RoanError) -> Seq<char> {
    match err {
        RoanError::Io(a0) => "IO error: "@ + a0@,
        RoanError::InvalidToken(a0, _) => "Invalid token: "@ + a0@,
        RoanError::ExpectedToken(a0, _, _) => "Expected "@ + a0@ + "."@,
        RoanError::UnexpectedToken(a0, _) => "Unexpected token: "@ + a0@,
        RoanError::SemanticError(a0, _) => a0@,
        RoanError::ResolverError(a0) => "Semantic error: "@ + a0@,
        RoanError::ModuleError(a0) => a0@,
        RoanError::ImportError(a0, _) => "Tried to import a item that does not exist: "@ + a0@,
        RoanError::FailedToImportModule(a0, a1, _) => "Failed to import "@ + a0@ + ". "@ + a1@,
        RoanError::VariableNotFoundError(a0, _) => "Couldn't find variable: "@ + a0@,
        RoanError::UndefinedFunctionError(a0, _) => "Call to undefined function: "@ + a0@,
        RoanError::RestParameterNotLast(_) => "Found normal parameter after rest parameter."@,
        RoanError::RestParameterNotLastPosition(_) => "Found rest parameter in non-last position."@,
        RoanError::MultipleRestParameters(_) => "Found more than one rest parameter."@,
        RoanError::Throw(a0, _) => a0@,
        RoanError::InvalidEscapeSequence(a0, _) => "Invalid escape sequence: "@ + a0@,
        RoanError::NonBooleanCondition(a0, _) => a0@ + " does not evaluate to a boolean."@,
        RoanError::IndexOutOfBounds(a0, a1, _) => "Index out of bounds: "@ + decimal(a0 as nat) + " >= "@ + decimal(a1 as nat),
        RoanError::TypeMismatch(a0, _) => "Type mismatch: "@ + a0@,
        RoanError::InvalidAssignment(a0, _) => "Invalid assignment "@ + a0@,
        RoanError::PropertyNotFoundError(a0, _) => "Attempted to access non-existent property: "@ + a0@,
        RoanError::InvalidPropertyAccess(_) => "Invalid property access"@,
        RoanError::InvalidBreakOrContinue(_) => "Found break or continue statement outside of loop."@,
        RoanError::LoopBreak(_) => "Break was used outside loop."@,
        RoanError::LoopContinue(_) => "Continue was used outside loop."@,
        RoanError::InvalidSpread(_) => "Invalid spread operator usage."@,
        RoanError::MultipleSelfParameters(_) => "Found multiple 'self' parameters."@,
        RoanError::SelfParameterNotFirst(_) => "Found 'self' parameter in non-first position."@,
        RoanError::SelfParameterCannotBeRest(_) => "Self parameter cannot be rest."@,
        RoanError::StructNotFoundError(a0, _) => "Struct not found: "@ + a0@,
        RoanError::TraitNotFoundError(a0, _) => "Trait definition not found: "@ + a0@,
        RoanError::StructAlreadyImplementsTrait(a0, a1, _) => "Struct "@ + a0@ + " already implements trait "@ + a1@,
        RoanError::TraitMethodNotImplemented(a0, _, _) => "Trait "@ + a0@ + " doesn't implement required method"@,
        RoanError::StaticMemberAssignment(_) => "Cannot assign value to static member"@,
        RoanError::StaticMemberAccess(_) => "Attempted to access static member of non-struct type"@,
        RoanError::StaticContext(_) => "Only call expressions can be accessed in a static context"@,
        RoanError::InvalidUnaryOperation(a0, _) => "Invalid unary operator: "@ + a0@,
        RoanError::MissingParameter(a0, _) => "Missing non-nullable parameter: "@ + a0@,
        RoanError::InvalidType(a0, a1, _) => "Invalid type provided: "@ + a0@ + ". Available types: "@ + a1@,
        RoanError::MissingField(a0, a1, _) => "Missing field: "@ + a0@ + " required by struct: "@ + a1@,
        RoanError::TooManyArguments(a0, a1, a2, _) => "Expected "@ + decimal(a0 as nat) + " arguments to "@ + a1@ + " function, got "@ + decimal(a2 as nat),
    }
}

impl RoanError {
    /// The one-line message of this error.
    pub fn message(&self) -> (msg: String)
        ensures
            msg@ == error_message(*self),
    {
        let mut s = String::new();
        match self {
            RoanError::Io(a0) => {
                push_str(&mut s, "IO error: ");
                push_str(&mut s, a0.as_str());
            }
            RoanError::InvalidToken(a0, _) => {
                push_str(&mut s, "Invalid token: ");
                push_str(&mut s, a0.as_str());
            }
            RoanError::ExpectedToken(a0, _, _) => {
                push_str(&mut s, "Expected ");
                push_str(&mut s, a0.as_str());
                push_str(&mut s, ".");
            }
            RoanError::UnexpectedToken(a0, _) => {
                push_str(&mut s, "Unexpected token: ");
                push_str(&mut s, a0.as_str());
            }
            RoanError::SemanticError(a0, _) => {
                push_str(&mut s, a0.as_str());
            }
            RoanError::ResolverError(a0) => {
                push_str(&mut s, "Semantic error: ");
                push_str(&mut s, a0.as_str());
            }
            RoanError::ModuleError(a0) => {
                push_str(&mut s, a0.as_str());
            }
            RoanError::ImportError(a0, _) => {
                push_str(&mut s, "Tried to import a item that does not exist: ");
                push_str(&mut s, a0.as_str());
            }
            RoanError::FailedToImportModule(a0, a1, _) => {
                push_str(&mut s, "Failed to import ");
                push_str(&mut s, a0.as_str());
                push_str(&mut s, ". ");
                push_str(&mut s, a1.as_str());
            }
            RoanError::VariableNotFoundError(a0, _) => {
                push_str(&mut s, "Couldn't find variable: ");
                push_str(&mut s, a0.as_str());
            }
            RoanError::UndefinedFunctionError(a0, _) => {
                push_str(&mut s, "Call to undefined function: ");
                push_str(&mut s, a0.as_str());
            }
            RoanError::RestParameterNotLast(_) => {
                push_str(&mut s, "Found normal parameter after rest parameter.");
            }
            RoanError::RestParameterNotLastPosition(_) => {
                push_str(&mut s, "Found rest parameter in non-last position.");
            }
            RoanError::MultipleRestParameters(_) => {
                push_str(&mut s, "Found more than one rest parameter.");
            }
            RoanError::Throw(a0, _) => {
                push_str(&mut s, a0.as_str());
            }
            RoanError::InvalidEscapeSequence(a0, _) => {
                push_str(&mut s, "Invalid escape sequence: ");
                push_str(&mut s, a0.as_str());
            }
            RoanError::NonBooleanCondition(a0, _) => {
                push_str(&mut s, a0.as_str());
                push_str(&mut s, " does not evaluate to a boolean.");
            }
            RoanError::IndexOutOfBounds(a0, a1, _) => {
                push_str(&mut s, "Index out of bounds: ");
                let d = u64_to_decimal(*a0 as u64);
                push_str(&mut s, d.as_str());
                push_str(&mut s, " >= ");
                let d = u64_to_decimal(*a1 as u64);
                push_str(&mut s, d.as_str());
            }
            RoanError::TypeMismatch(a0, _) => {
                push_str(&mut s, "Type mismatch: ");
                push_str(&mut s, a0.as_str());
            }
            RoanError::InvalidAssignment(a0, _) => {
                push_str(&mut s, "Invalid assignment ");
                push_str(&mut s, a0.as_str());
            }
            RoanError::PropertyNotFoundError(a0, _) => {
                push_str(&mut s, "Attempted to access non-existent property: ");
                push_str(&mut s, a0.as_str());
            }
            RoanError::InvalidPropertyAccess(_) => {
                push_str(&mut s, "Invalid property access");
            }
            RoanError::InvalidBreakOrContinue(_) => {
                push_str(&mut s, "Found break or continue statement outside of loop.");
            }
            RoanError::LoopBreak(_) => {
                push_str(&mut s, "Break was used outside loop.");
            }
            RoanError::LoopContinue(_) => {
                push_str(&mut s, "Continue was used outside loop.");
            }
            RoanError::InvalidSpread(_) => {
                push_str(&mut s, "Invalid spread operator usage.");
            }
            RoanError::MultipleSelfParameters(_) => {
                push_str(&mut s, "Found multiple 'self' parameters.");
            }
            RoanError::SelfParameterNotFirst(_) => {
                push_str(&mut s, "Found 'self' parameter in non-first position.");
            }
            RoanError::SelfParameterCannotBeRest(_) => {
                push_str(&mut s, "Self parameter cannot be rest.");
            }
            RoanError::StructNotFoundError(a0, _) => {
                push_str(&mut s, "Struct not found: ");
                push_str(&mut s, a0.as_str());
            }
            RoanError::TraitNotFoundError(a0, _) => {
                push_str(&mut s, "Trait definition not found: ");
                push_str(&mut s, a0.as_str());
            }
            RoanError::StructAlreadyImplementsTrait(a0, a1, _) => {
                push_str(&mut s, "Struct ");
                push_str(&mut s, a0.as_str());
                push_str(&mut s, " already implements trait ");
                push_str(&mut s, a1.as_str());
            }
            RoanError::TraitMethodNotImplemented(a0, _, _) => {
                push_str(&mut s, "Trait ");
                push_str(&mut s, a0.as_str());
                push_str(&mut s, " doesn't implement required method");
            }
            RoanError::StaticMemberAssignment(_) => {
                push_str(&mut s, "Cannot assign value to static member");
            }
            RoanError::StaticMemberAccess(_) => {
                push_str(&mut s, "Attempted to access static member of non-struct type");
            }
            RoanError::StaticContext(_) => {
                push_str(&mut s, "Only call expressions can be accessed in a static context");
            }
            RoanError::InvalidUnaryOperation(a0, _) => {
                push_str(&mut s, "Invalid unary operator: ");
                push_str(&mut s, a0.as_str());
            }
            RoanError::MissingParameter(a0, _) => {
                push_str(&mut s, "Missing non-nullable parameter: ");
                push_str(&mut s, a0.as_str());
            }
            RoanError::InvalidType(a0, a1, _) => {
                push_str(&mut s, "Invalid type provided: ");
                push_str(&mut s, a0.as_str());
                push_str(&mut s, ". Available types: ");
                push_str(&mut s, a1.as_str());
            }
            RoanError::MissingField(a0, a1, _) => {
                push_str(&mut s, "Missing field: ");
                push_str(&mut s, a0.as_str());
                push_str(&mut s, " required by struct: ");
                push_str(&mut s, a1.as_str());
            }
            RoanError::TooManyArguments(a0, a1, a2, _) => {
                push_str(&mut s, "Expected ");
                let d = u64_to_decimal(*a0 as u64);
                push_str(&mut s, d.as_str());
                push_str(&mut s, " arguments to ");
                push_str(&mut s, a1.as_str());
                push_str(&mut s, " function, got ");
                let d = u64_to_decimal(*a2 as u64);
                push_str(&mut s, d.as_str());
            }
        }
        s
    }
}

/// Returns the source location the error points at, or `None` for errors that
/// carry no location (I/O, resolver, module and thrown errors).
pub fn get_span_from_err(err: &RoanError) -> (span: Option<TextSpan>)
    ensures
        span == error_span(*err),
{
    match err {
        RoanError::Io(_) => None,
        RoanError::InvalidToken(_, span) => Some(span.duplicate()),
        RoanError::ExpectedToken(_, _, span) => Some(span.duplicate()),
        RoanError::UnexpectedToken(_, span) => Some(span.duplicate()),
        RoanError::SemanticError(_, span) => Some(span.duplicate()),
        RoanError::ResolverError(_) => None,
        RoanError::ModuleError(_) => None,
        RoanError::ImportError(_, span) => Some(span.duplicate()),
        RoanError::FailedToImportModule(_, _, span) => Some(span.duplicate()),
        RoanError::VariableNotFoundError(_, span) => Some(span.duplicate()),
        RoanError::UndefinedFunctionError(_, span) => Some(span.duplicate()),
        RoanError::RestParameterNotLast(span) => Some(span.duplicate()),
        RoanError::RestParameterNotLastPosition(span) => Some(span.duplicate()),
        RoanError::MultipleRestParameters(span) => Some(span.duplicate()),
        RoanError::Throw(_, _) => None,
        RoanError::InvalidEscapeSequence(_, span) => Some(span.duplicate()),
        RoanError::NonBooleanCondition(_, span) => Some(span.duplicate()),
        RoanError::IndexOutOfBounds(_, _, span) => Some(span.duplicate()),
        RoanError::TypeMismatch(_, span) => Some(span.duplicate()),
        RoanError::InvalidAssignment(_, span) => Some(span.duplicate()),
        RoanError::PropertyNotFoundError(_, span) => Some(span.duplicate()),
        RoanError::InvalidPropertyAccess(span) => Some(span.duplicate()),
        RoanError::InvalidBreakOrContinue(span) => Some(span.duplicate()),
        RoanError::LoopBreak(span) => Some(span.duplicate()),
        RoanError::LoopContinue(span) => Some(span.duplicate()),
        RoanError::InvalidSpread(span) => Some(span.duplicate()),
        RoanError::MultipleSelfParameters(span) => Some(span.duplicate()),
        RoanError::SelfParameterNotFirst(span) => Some(span.duplicate()),
        RoanError::SelfParameterCannotBeRest(span) => Some(span.duplicate()),
        RoanError::StructNotFoundError(_, span) => Some(span.duplicate()),
        RoanError::TraitNotFoundError(_, span) => Some(span.duplicate()),
        RoanError::StructAlreadyImplementsTrait(_, _, span) => Some(span.duplicate()),
        RoanError::TraitMethodNotImplemented(_, _, span) => Some(span.duplicate()),
        RoanError::StaticMemberAssignment(span) => Some(span.duplicate()),
        RoanError::StaticMemberAccess(span) => Some(span.duplicate()),
        RoanError::StaticContext(span) => Some(span.duplicate()),
        RoanError::InvalidUnaryOperation(_, span) => Some(span.duplicate()),
        RoanError::MissingParameter(_, span) => Some(span.duplicate()),
        RoanError::InvalidType(_, _, span) => Some(span.duplicate()),
        RoanError::MissingField(_, _, span) => Some(span.duplicate()),
        RoanError::TooManyArguments(_, _, _, span) => Some(span.duplicate()),
    }
}

} // verus!
