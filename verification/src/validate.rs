//! A check of a configuration against itself, before anything is looked up
//! on disk: every source has a location, every location has a source, and
//! the name of the destination can be filled in.

use vstd::prelude::*;
use vstd::string::*;
use crate::config::{Config, ConfigView};
use crate::table::unmatched;
use crate::template::{formatted, outcome_view, substitute, TemplateError, TemplateFault};

verus! {

/// What is said of a source that has no location.
pub open spec fn no_location_message(name: Seq<char>) -> Seq<char> {
    "Key `"@ + name + "` from [sources] does not exist in [destination.locations]"@
}

/// What is said of a location that has no source.
pub open spec fn no_source_message(name: Seq<char>) -> Seq<char> {
    "Key `"@ + name + "` from [destination.locations] does not exist in [sources]"@
}

/// What is said of a destination name that cannot be filled in.
pub open spec fn template_message(fault: TemplateFault) -> Seq<char> {
    match fault {
        TemplateFault::Invalid(m) => "Value of `destination.name` contains invalid format: "@ + m,
        TemplateFault::KeyError(m) => "Key in `destination.name` format does not exist: "@ + m,
        TemplateFault::TypeError(m) => "Type incorrect: "@ + m,
    }
}

/// The verdict on a configuration, given the outcome of filling in the
/// name of its destination: the first source without a location is
/// reported before the first location without a source, and that before a
/// name that cannot be filled in.
pub open spec fn verdict(c: ConfigView, name: Result<Seq<char>, TemplateFault>) -> Result<
    (),
    Seq<char>,
> {
    let no_location = unmatched(c.source_names, c.destination.location_names);
    let no_source = unmatched(c.destination.location_names, c.source_names);
    if no_location.len() > 0 {
        Err(no_location_message(no_location[0]))
    } else if no_source.len() > 0 {
        Err(no_source_message(no_source[0]))
    } else {
        match name {
            Ok(_) => Ok(()),
            Err(fault) => Err(template_message(fault)),
        }
    }
}

/// The model of a verdict.
pub open spec fn verdict_view(r: Result<(), String>) -> Result<(), Seq<char>> {
    match r {
        Ok(_) => Ok(()),
        Err(m) => Err(m@),
    }
}

/// Validates the contents of a configuration.
pub struct Validator<'a> {
    config: &'a Config,
}

impl<'a> Validator<'a> {
    /// A validator for `config`.
    pub fn from(config: &'a Config) -> (r: Validator<'a>)
        ensures
            r.subject() == config@,
    {
        Validator { config }
    }

    /// The configuration under validation.
    pub closed spec fn subject(&self) -> ConfigView {
        self.config@
    }

    /// Checks the configuration and says in words what is wrong with it,
    /// if anything is.
    pub fn validate(self) -> (r: Result<(), String>)
        ensures
            verdict_view(r) == verdict(
                self.subject(),
                formatted(
                    self.subject().destination.name,
                    "username"@,
                    self.subject().username,
                ),
            ),
    {
        let outcome = substitute(
            self.config.destination().name().as_str(),
            "username",
            self.config.username().as_str(),
        );
        self.judge(outcome)
    }

    /// Checks the configuration, given the outcome of filling in the name
    /// of its destination.
    pub fn judge(self, outcome: Result<String, TemplateError>) -> (r: Result<(), String>)
        ensures
            verdict_view(r) == verdict(self.subject(), outcome_view(outcome)),
    {
        let sources = self.config.source_map();
        let locations = self.config.destination().locations();
        let no_location = sources.names_lacking(locations);
        if no_location.len() > 0 {
            return Err(
                String::from_str("Key `").concat(no_location[0].as_str()).concat(
                    "` from [sources] does not exist in [destination.locations]",
                ),
            );
        }
        let no_source = locations.names_lacking(sources);
        if no_source.len() > 0 {
            return Err(
                String::from_str("Key `").concat(no_source[0].as_str()).concat(
                    "` from [destination.locations] does not exist in [sources]",
                ),
            );
        }
        match outcome {
            Ok(_) => Ok(()),
            Err(TemplateError::Invalid(m)) => Err(
                String::from_str("Value of `destination.name` contains invalid format: ").concat(
                    m.as_str(),
                ),
            ),
            Err(TemplateError::KeyError(m)) => Err(
                String::from_str("Key in `destination.name` format does not exist: ").concat(
                    m.as_str(),
                ),
            ),
            Err(TemplateError::TypeError(m)) => Err(
                String::from_str("Type incorrect: ").concat(m.as_str()),
            ),
        }
    }
}

} // verus!
