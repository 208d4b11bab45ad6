//! Substitution of a named variable into a format string.
//!
//! The format language is that of the `strfmt` crate: `{name}` stands for
//! the value bound to `name`, optionally followed by `:` and a format
//! specification; `{{` and `}}` stand for single braces.

use vstd::prelude::*;
use std::collections::HashMap;

verus! {

/// Why a format string could not be filled in.
#[derive(Clone, Debug, PartialEq, Eq)]
pub enum TemplateError {
    /// The format string is not well formed.
    Invalid(String),
    /// A placeholder names a variable that is not bound.
    KeyError(String),
    /// A placeholder asks for a format that its value does not take.
    TypeError(String),
}

/// The mathematical model of a [`TemplateError`].
pub enum TemplateFault {
    Invalid(Seq<char>),
    KeyError(Seq<char>),
    TypeError(Seq<char>),
}

impl View for TemplateError {
    type V = TemplateFault;

    open spec fn view(&self) -> TemplateFault {
        match self {
            TemplateError::Invalid(m) => TemplateFault::Invalid(m@),
            TemplateError::KeyError(m) => TemplateFault::KeyError(m@),
            TemplateError::TypeError(m) => TemplateFault::TypeError(m@),
        }
    }
}

/// What `strfmt::strfmt` makes of `template` when `name` alone is bound,
/// to `value`.
pub uninterp spec fn formatted(template: Seq<char>, name: Seq<char>, value: Seq<char>) -> Result<
    Seq<char>,
    TemplateFault,
>;

/// The view of a substitution's outcome.
pub open spec fn outcome_view(r: Result<String, TemplateError>) -> Result<Seq<char>, TemplateFault> {
    match r {
        Ok(s) => Ok(s@),
        Err(e) => Err(e@),
    }
}

/// Calls `strfmt::strfmt` on `template` with a map that binds `name` to
/// `value` and nothing else. The contract claims only that the outcome,
/// text or error with its message, is a function of the three arguments;
/// it says nothing of what the text is.
#[verifier::external_body]
pub(crate) fn substitute(template: &str, name: &str, value: &str) -> (r: Result<
    String,
    TemplateError,
>)
    ensures
        outcome_view(r) == formatted(template@, name@, value@),
{
    let mut vars: HashMap<String, String> = HashMap::new();
    vars.insert(name.to_string(), value.to_string());
    match strfmt::strfmt(template, &vars) {
        Ok(text) => Ok(text),
        Err(strfmt::FmtError::Invalid(m)) => Err(TemplateError::Invalid(m)),
        Err(strfmt::FmtError::KeyError(m)) => Err(TemplateError::KeyError(m)),
        Err(strfmt::FmtError::TypeError(m)) => Err(TemplateError::TypeError(m)),
    }
}

} // verus!
