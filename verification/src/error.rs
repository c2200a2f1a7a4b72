//! Error type of the backend.

use vstd::prelude::*;

verus! {

/// The backend's error type. Errors raised by I/O, serialisation and TOML
/// parsing carry the rendered message of the underlying error.
#[derive(Debug)]
pub enum Error {
    Io(String),
    Config(String),
    WebSocket(String),
    KeyboardHook(String),
    MouseHook(String),
    PresetImport(String),
    UI(String),
    Serialization(String),
    TomlParse(String),
    Internal(String),
}

/// Human-readable message of an error, as the error is displayed.
pub open spec fn error_message(e: Error) -> Seq<char> {
    match e {
        Error::Io(m) => "IO error: "@ + m@,
        Error::Config(m) => "Configuration error: "@ + m@,
        Error::WebSocket(m) => "WebSocket error: "@ + m@,
        Error::KeyboardHook(m) => "Keyboard hook error: "@ + m@,
        Error::MouseHook(m) => "Mouse hook error: "@ + m@,
        Error::PresetImport(m) => "Preset import error: "@ + m@,
        Error::UI(m) => "UI error: "@ + m@,
        Error::Serialization(m) => "Serialization error: "@ + m@,
        Error::TomlParse(m) => "TOML parse error: "@ + m@,
        Error::Internal(m) => "Internal error: "@ + m@,
    }
}

impl Error {
    /// Renders the error message (what displaying the error prints).
    pub fn message(&self) -> (r: String)
        ensures
            r@ == error_message(*self),
    {
        let (prefix, m) = match self {
            Error::Io(m) => ("IO error: ", m),
            Error::Config(m) => ("Configuration error: ", m),
            Error::WebSocket(m) => ("WebSocket error: ", m),
            Error::KeyboardHook(m) => ("Keyboard hook error: ", m),
            Error::MouseHook(m) => ("Mouse hook error: ", m),
            Error::PresetImport(m) => ("Preset import error: ", m),
            Error::UI(m) => ("UI error: ", m),
            Error::Serialization(m) => ("Serialization error: ", m),
            Error::TomlParse(m) => ("TOML parse error: ", m),
            Error::Internal(m) => ("Internal error: ", m),
        };
        let mut out = String::from_str(prefix);
        out.append(m.as_str());
        out
    }
}

impl From<String> for Error {
    fn from(msg: String) -> (r: Self)
        ensures
            r == Error::Internal(msg),
    {
        Error::Internal(msg)
    }
}

impl vstd::std_specs::convert::FromSpecImpl<String> for Error {
    open spec fn obeys_from_spec() -> bool {
        true
    }

    open spec fn from_spec(msg: String) -> Self {
        Error::Internal(msg)
    }
}

impl<'a> From<&'a str> for Error {
    fn from(msg: &'a str) -> (r: Self)
        ensures
            r matches Error::Internal(m) && m@ == msg@,
    {
        Error::Internal(String::from_str(msg))
    }
}

impl<'a> vstd::std_specs::convert::FromSpecImpl<&'a str> for Error {
    open spec fn obeys_from_spec() -> bool {
        false
    }

    open spec fn from_spec(msg: &'a str) -> Self {
        Error::Internal(choose|m: String| m@ == msg@)
    }
}

/// Result type of the backend.
pub type Result<T> = core::result::Result<T, Error>;

} // verus!
