//! The baud rate of the log output, chosen from the `log` section of the
//! project configuration.

use vstd::prelude::*;
use crate::names::joined;

verus! {

/// The `log.swo` section: logging through the serial wire output.
#[derive(Clone, Copy, Debug, PartialEq, Eq, Structural)]
pub struct LogSwo {
    pub baud_rate: u32,
}

/// The `log.dso` section: logging through the data serial output.
#[derive(Clone, Copy, Debug, PartialEq, Eq, Structural)]
pub struct LogDso {
    pub baud_rate: u32,
}

/// The `log` section.
#[derive(Clone, Copy, Debug, PartialEq, Eq, Structural)]
pub struct Log {
    pub swo: Option<LogSwo>,
    pub dso: Option<LogDso>,
}

/// Why no baud rate could be chosen.
#[derive(Clone, Copy, Debug, PartialEq, Eq, Structural)]
pub enum BaudRateError {
    /// The configuration has no `log` section.
    MissingLog,
    /// The `log` section has neither `swo` nor `dso`.
    MissingOutput,
}

/// The baud rate that a `log` section selects: that of `swo` where there is
/// one, else that of `dso`.
pub open spec fn selected_baud_rate(log: Option<Log>) -> Result<u32, BaudRateError> {
    match log {
        None => Err(BaudRateError::MissingLog),
        Some(l) => match (l.swo, l.dso) {
            (Some(swo), _) => Ok(swo.baud_rate),
            (None, Some(dso)) => Ok(dso.baud_rate),
            (None, None) => Err(BaudRateError::MissingOutput),
        },
    }
}

/// The log baud rate macro: the baud rate that the configuration's `log`
/// section selects.
pub fn proc_macro(log: Option<Log>) -> (r: Result<u32, BaudRateError>)
    ensures
        r == selected_baud_rate(log),
{
    match log {
        None => Err(BaudRateError::MissingLog),
        Some(l) => {
            if let Some(swo) = l.swo {
                Ok(swo.baud_rate)
            } else if let Some(dso) = l.dso {
                Ok(dso.baud_rate)
            } else {
                Err(BaudRateError::MissingOutput)
            }
        },
    }
}

/// Where the `log` section has an `swo` output, its baud rate is chosen,
/// whatever the `dso` output says.
pub proof fn lemma_swo_first(swo: LogSwo, dso: Option<LogDso>)
    ensures
        selected_baud_rate(Some(Log { swo: Some(swo), dso })) == Ok::<u32, BaudRateError>(
            swo.baud_rate,
        ),
{
}

/// The text of an error, for the configuration file named `config_name`.
pub open spec fn error_text(e: BaudRateError, config_name: Seq<char>) -> Seq<char> {
    match e {
        BaudRateError::MissingLog => "Missing `log` section in `"@ + config_name + "`"@,
        BaudRateError::MissingOutput => "Missing one of `log.swo`, `log.dso` sections in `"@
            + config_name + "`"@,
    }
}

impl BaudRateError {
    /// The error message, for the configuration file named `config_name`.
    pub fn message(&self, config_name: &str) -> (r: String)
        ensures
            r@ == error_text(*self, config_name@),
    {
        match self {
            BaudRateError::MissingLog => joined("Missing `log` section in `", config_name, "`"),
            BaudRateError::MissingOutput => joined(
                "Missing one of `log.swo`, `log.dso` sections in `",
                config_name,
                "`",
            ),
        }
    }
}

} // verus!
