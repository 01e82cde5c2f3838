//! Failures of an encoding call.

use vstd::prelude::*;
use vstd::std_specs::convert::FromSpecImpl;

verus! {

/// Makes `std::io::Error` known as a type; nothing inside an error is visible.
#[verifier::external_type_specification]
#[verifier::external_body]
pub struct ExIoError(std::io::Error);

/// Why an encoding call failed.
#[derive(Debug)]
pub enum PrometheusError {
    /// The output rejected a write.
    Write(std::io::Error),
    /// The value could not be walked, or the output was not valid text.
    Custom(String),
}

/// What an I/O error says of itself.
///
/// Stands for the `Display` form of `std::io::Error`. The text depends on the error and,
/// for errors of the operating system, on the system, so nothing is claimed of it.
#[verifier::external_body]
fn io_error_text(error: &std::io::Error) -> (text: String) {
    format!("{}", error)
}

impl PrometheusError {
    /// Start of the message of a rejected write.
    pub open spec fn write_prefix() -> Seq<char> {
        "failed to write to output: "@
    }

    /// Start of the message of every other failure.
    pub open spec fn custom_prefix() -> Seq<char> {
        "serde internal error: "@
    }

    /// A failure with the given message that is not a rejected write.
    pub fn custom(msg: &str) -> (error: Self)
        ensures
            error matches PrometheusError::Custom(text) && text@ == msg@,
    {
        PrometheusError::Custom(msg.to_owned())
    }

    /// The message of the failure, for people.
    pub fn message(&self) -> (text: String)
        ensures
            match *self {
                PrometheusError::Write(_) => Self::write_prefix().is_prefix_of(text@),
                PrometheusError::Custom(msg) => text@ == Self::custom_prefix() + msg@,
            },
    {
        match self {
            PrometheusError::Write(error) => {
                let mut text = "failed to write to output: ".to_owned();
                let cause = io_error_text(error);
                text.append(cause.as_str());
                text
            },
            PrometheusError::Custom(msg) => {
                let mut text = "serde internal error: ".to_owned();
                text.append(msg.as_str());
                text
            },
        }
    }
}

impl From<std::io::Error> for PrometheusError {
    fn from(error: std::io::Error) -> (converted: Self) {
        PrometheusError::Write(error)
    }
}

impl FromSpecImpl<std::io::Error> for PrometheusError {
    open spec fn obeys_from_spec() -> bool {
        true
    }

    open spec fn from_spec(error: std::io::Error) -> Self {
        PrometheusError::Write(error)
    }
}

} // verus!
