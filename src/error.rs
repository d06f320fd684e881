use vstd::prelude::*;

verus! {

/// Why an authored fingerprint string could not be compiled into a rule.
#[derive(Debug, PartialEq, Eq)]
pub enum ParseError {
    /// A directive segment has no `:` between its key and its value.
    MalformedDirective,
    /// A directive key other than `confidence` or `version`.
    UnknownDirective(String),
    /// A confidence value that is not an integer in `1..=100`.
    InvalidConfidence,
    /// A backslash followed by digits that does not make up the whole value.
    MalformedBackreference,
    /// The condition of a conditional version is not a capture reference.
    ConditionMustReferenceCapture,
    /// A `version` directive with nothing after the `:`.
    EmptyVersionExpression,
    /// The bare pattern is not a valid regular expression.
    InvalidPattern(String),
    /// The bare pattern is not a valid CSS selector.
    InvalidSelector(String),
    /// An existence check whose bare pattern is not empty.
    UnexpectedContent(String),
    /// An existence check whose version refers to a capture group.
    VersionNeedsCapture,
}

/// The mathematical value of a `ParseError`.
pub enum ParseErrorModel {
    MalformedDirective,
    UnknownDirective(Seq<char>),
    InvalidConfidence,
    MalformedBackreference,
    ConditionMustReferenceCapture,
    EmptyVersionExpression,
    InvalidPattern(Seq<char>),
    InvalidSelector(Seq<char>),
    UnexpectedContent(Seq<char>),
    VersionNeedsCapture,
}

impl View for ParseError {
    type V = ParseErrorModel;

    open spec fn view(&self) -> ParseErrorModel {
        match self {
            ParseError::MalformedDirective => ParseErrorModel::MalformedDirective,
            ParseError::UnknownDirective(k) => ParseErrorModel::UnknownDirective(k@),
            ParseError::InvalidConfidence => ParseErrorModel::InvalidConfidence,
            ParseError::MalformedBackreference => ParseErrorModel::MalformedBackreference,
            ParseError::ConditionMustReferenceCapture => ParseErrorModel::ConditionMustReferenceCapture,
            ParseError::EmptyVersionExpression => ParseErrorModel::EmptyVersionExpression,
            ParseError::InvalidPattern(p) => ParseErrorModel::InvalidPattern(p@),
            ParseError::InvalidSelector(p) => ParseErrorModel::InvalidSelector(p@),
            ParseError::UnexpectedContent(p) => ParseErrorModel::UnexpectedContent(p@),
            ParseError::VersionNeedsCapture => ParseErrorModel::VersionNeedsCapture,
        }
    }
}

} // verus!
