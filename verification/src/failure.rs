//! What ends a run before its work is done, the sentence shown for it, and
//! the exit code of a run.
//!
//! A run that came to its end exits with 0, whatever its single targets
//! came to: those are reported line by line. A run that was cut short
//! exits with 1.

use crate::command::UnknownCommand;
use crate::config::{ConfigError, ConfigErrorView};
use crate::directory::ProviderUnavailable;
use crate::present::{describe_error, error_text};
use crate::resolve::{ResolutionError, ResolutionErrorView};
use vstd::prelude::*;

verus! {

/// What cuts a run short.
#[derive(Clone, Debug, PartialEq, Eq)]
pub enum Fatal {
    /// There is no configuration.
    Config(ConfigError),
    /// The inventory could not be listed.
    Provider(ProviderUnavailable),
    /// The command line spells no command.
    Usage(UnknownCommand),
    /// The one instance that the command names did not resolve, or has no
    /// address to connect to.
    Resolution(ResolutionError),
}

/// What a [`Fatal`] holds, as plain values.
pub enum FatalView {
    Config(ConfigErrorView),
    Provider(Seq<char>),
    Usage(Seq<char>),
    Resolution(ResolutionErrorView),
}

impl View for Fatal {
    type V = FatalView;

    open spec fn view(&self) -> FatalView {
        match *self {
            Fatal::Config(e) => FatalView::Config(e@),
            Fatal::Provider(e) => FatalView::Provider(e.reason@),
            Fatal::Usage(e) => FatalView::Usage(e.words@),
            Fatal::Resolution(e) => FatalView::Resolution(e@),
        }
    }
}

/// The exit code of a run that came to its end.
pub const EXIT_DONE: u8 = 0;

/// The exit code of a run that was cut short.
pub const EXIT_FATAL: u8 = 1;

/// The sentence shown for what cut the run short.
pub open spec fn fatal_text(fatal: FatalView) -> Seq<char> {
    match fatal {
        FatalView::Config(ConfigErrorView::Unreadable(reason)) => "cannot read the configuration: "@
            + reason,
        FatalView::Config(ConfigErrorView::Malformed(complaint)) =>
            "the configuration is not valid YAML: "@ + complaint,
        FatalView::Config(ConfigErrorView::MissingRegion) =>
            "the configuration names no region under spec.region"@,
        FatalView::Provider(reason) => "the provider is unavailable: "@ + reason,
        FatalView::Usage(words) => "unknown command: "@ + words,
        FatalView::Resolution(e) => error_text(e),
    }
}

/// The sentence shown for what cut the run short.
pub fn describe_fatal(fatal: &Fatal) -> (text: String)
    ensures
        text@ == fatal_text(fatal@),
{
    let mut text = String::new();
    match fatal {
        Fatal::Config(ConfigError::Unreadable(reason)) => {
            text.append("cannot read the configuration: ");
            text.append(reason.as_str());
        },
        Fatal::Config(ConfigError::Malformed(complaint)) => {
            text.append("the configuration is not valid YAML: ");
            text.append(complaint.as_str());
        },
        Fatal::Config(ConfigError::MissingRegion) => {
            text.append("the configuration names no region under spec.region");
        },
        Fatal::Provider(e) => {
            text.append("the provider is unavailable: ");
            text.append(e.reason.as_str());
        },
        Fatal::Usage(e) => {
            text.append("unknown command: ");
            text.append(e.words.as_str());
        },
        Fatal::Resolution(e) => {
            return describe_error(e);
        },
    }
    assert(text@ =~= fatal_text(fatal@));
    text
}

/// The exit code of a run: 0 where it came to its end, 1 where it was cut
/// short.
pub fn exit_code(run: &Result<(), Fatal>) -> (code: u8)
    ensures
        code == (if *run is Ok {
            EXIT_DONE
        } else {
            EXIT_FATAL
        }),
{
    match run {
        Ok(_) => EXIT_DONE,
        Err(_) => EXIT_FATAL,
    }
}

} // verus!
