//! The errors of the library and of the command line tool.

use vstd::prelude::*;
use minijinja::Error as TemplateError;
use toml::de::Error as TomlDeError;
use toml::ser::Error as TomlSerError;

verus! {

/// `std::io::Error`, carried as it is.
#[verifier::external_type_specification]
#[verifier::external_body]
pub struct ExIoError(std::io::Error);

/// `toml::de::Error`, carried as it is.
#[verifier::external_type_specification]
#[verifier::external_body]
pub struct ExTomlDeError(TomlDeError);

/// `toml::ser::Error`, carried as it is.
#[verifier::external_type_specification]
#[verifier::external_body]
pub struct ExTomlSerError(TomlSerError);

/// `image::ImageError`, carried as it is.
#[verifier::external_type_specification]
#[verifier::external_body]
pub struct ExImageError(image::ImageError);

/// `minijinja::Error`, carried as it is.
#[verifier::external_type_specification]
#[verifier::external_body]
pub struct ExTemplateError(TemplateError);

/// The errors of loading and saving configuration and cache files, opening
/// images and building templates.
#[derive(Debug)]
pub enum CoreError {
    Io(std::io::Error),
    TomlDe(TomlDeError),
    TomlSer(TomlSerError),
    Image(image::ImageError),
    Template(TemplateError),
}

/// Gecol error wrapper around all the possible errors.
#[derive(Debug)]
pub enum Error {
    IO(std::io::Error),
    Gecol(CoreError),
    Msg(String),
}

impl From<String> for Error {
    fn from(value: String) -> (r: Self) {
        Error::Msg(value)
    }
}

impl vstd::std_specs::convert::FromSpecImpl<String> for Error {
    open spec fn obeys_from_spec() -> bool {
        true
    }

    open spec fn from_spec(v: String) -> Self {
        Error::Msg(v)
    }
}

impl<'a> From<&'a str> for Error {
    fn from(value: &'a str) -> (r: Self)
        ensures
            r matches Error::Msg(m) && m@ == value@,
    {
        Error::Msg(String::from_str(value))
    }
}

impl<'a> vstd::std_specs::convert::FromSpecImpl<&'a str> for Error {
    /// The message is a new `String`, which no spec function can name: what
    /// `from` gives is stated by its own `ensures` instead.
    open spec fn obeys_from_spec() -> bool {
        false
    }

    open spec fn from_spec(v: &'a str) -> Self {
        Error::Msg(arbitrary())
    }
}

impl From<std::io::Error> for Error {
    fn from(value: std::io::Error) -> (r: Self) {
        Error::IO(value)
    }
}

impl vstd::std_specs::convert::FromSpecImpl<std::io::Error> for Error {
    open spec fn obeys_from_spec() -> bool {
        true
    }

    open spec fn from_spec(v: std::io::Error) -> Self {
        Error::IO(v)
    }
}

impl From<CoreError> for Error {
    fn from(value: CoreError) -> (r: Self) {
        Error::Gecol(value)
    }
}

impl vstd::std_specs::convert::FromSpecImpl<CoreError> for Error {
    open spec fn obeys_from_spec() -> bool {
        true
    }

    open spec fn from_spec(v: CoreError) -> Self {
        Error::Gecol(v)
    }
}

} // verus!
