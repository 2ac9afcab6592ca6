//! The errors of the matcher.
use crate::text::{join2, join3};
use vstd::prelude::*;

verus! {

/// What can go wrong while a configuration is compiled or a rule is
/// evaluated.
#[derive(Debug, PartialEq)]
pub enum MatcherError {
    /// An expression inside `${` and `}` that names nothing known.
    UnknownAccessor { accessor: String },
    /// A name that is no identifier, or a payload path that cannot be read.
    NotValidIdOrName { message: String },
    /// Two rules of one ruleset with the same name.
    NotUniqueName { name: String },
    /// A regular expression that does not compile.
    InvalidRegex { rule: String, regex: String, cause: String },
    /// An operator that cannot be read.
    ParseOperator { message: String },
    /// A variable that a rule could not extract or an action could not
    /// resolve.
    MissingExtractedVariable { rule: String, variable: String },
    /// A configuration that contradicts itself.
    ConfigurationError { message: String },
    /// A failure of the surrounding system.
    InternalSystemError { message: String },
}

/// What a [`MatcherError`] stands for: all that it carries but the cause
/// of an invalid regular expression, whose wording is not the library's.
pub enum ErrorView {
    UnknownAccessor { accessor: Seq<char> },
    NotValidIdOrName { message: Seq<char> },
    NotUniqueName { name: Seq<char> },
    InvalidRegex { rule: Seq<char>, regex: Seq<char> },
    ParseOperator { message: Seq<char> },
    MissingExtractedVariable { rule: Seq<char>, variable: Seq<char> },
    ConfigurationError { message: Seq<char> },
    InternalSystemError { message: Seq<char> },
}

impl View for MatcherError {
    type V = ErrorView;

    open spec fn view(&self) -> ErrorView {
        match self {
            MatcherError::UnknownAccessor { accessor } => ErrorView::UnknownAccessor {
                accessor: accessor@,
            },
            MatcherError::NotValidIdOrName { message } => ErrorView::NotValidIdOrName {
                message: message@,
            },
            MatcherError::NotUniqueName { name } => ErrorView::NotUniqueName { name: name@ },
            MatcherError::InvalidRegex { rule, regex, .. } => ErrorView::InvalidRegex {
                rule: rule@,
                regex: regex@,
            },
            MatcherError::ParseOperator { message } => ErrorView::ParseOperator {
                message: message@,
            },
            MatcherError::MissingExtractedVariable {
                rule,
                variable,
            } => ErrorView::MissingExtractedVariable { rule: rule@, variable: variable@ },
            MatcherError::ConfigurationError { message } => ErrorView::ConfigurationError {
                message: message@,
            },
            MatcherError::InternalSystemError { message } => ErrorView::InternalSystemError {
                message: message@,
            },
        }
    }
}

/// The sentence that describes an error.
pub open spec fn error_message(e: MatcherError) -> Seq<char> {
    match e {
        MatcherError::UnknownAccessor { accessor } => "Unknown accessor ["@ + accessor@ + "]"@,
        MatcherError::NotValidIdOrName { message } => "Not valid id or name: "@ + message@,
        MatcherError::NotUniqueName { name } => "Not unique name ["@ + name@ + "]"@,
        MatcherError::InvalidRegex { rule, regex, cause } => "Rule ["@ + rule@
            + "]: invalid regular expression ["@ + regex@ + "]: "@ + cause@,
        MatcherError::ParseOperator { message } => "Cannot parse operator: "@ + message@,
        MatcherError::MissingExtractedVariable { rule, variable } => "Rule ["@ + rule@
            + "]: missing extracted variable ["@ + variable@ + "]"@,
        MatcherError::ConfigurationError { message } => "Configuration error: "@ + message@,
        MatcherError::InternalSystemError { message } => "Internal system error: "@ + message@,
    }
}

impl MatcherError {
    /// The sentence that describes the error.
    pub fn message(&self) -> (s: String)
        ensures
            s@ == error_message(*self),
    {
        match self {
            MatcherError::UnknownAccessor { accessor } => join3(
                "Unknown accessor [",
                accessor.as_str(),
                "]",
            ),
            MatcherError::NotValidIdOrName { message } => join2(
                "Not valid id or name: ",
                message.as_str(),
            ),
            MatcherError::NotUniqueName { name } => join3("Not unique name [", name.as_str(), "]"),
            MatcherError::InvalidRegex { rule, regex, cause } => {
                let mut s = join3("Rule [", rule.as_str(), "]: invalid regular expression [");
                s.append(regex.as_str());
                s.append("]: ");
                s.append(cause.as_str());
                s
            },
            MatcherError::ParseOperator { message } => join2(
                "Cannot parse operator: ",
                message.as_str(),
            ),
            MatcherError::MissingExtractedVariable { rule, variable } => {
                let mut s = join3("Rule [", rule.as_str(), "]: missing extracted variable [");
                s.append(variable.as_str());
                s.append("]");
                s
            },
            MatcherError::ConfigurationError { message } => join2(
                "Configuration error: ",
                message.as_str(),
            ),
            MatcherError::InternalSystemError { message } => join2(
                "Internal system error: ",
                message.as_str(),
            ),
        }
    }
}

} // verus!
