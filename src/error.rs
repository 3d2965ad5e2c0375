use vstd::prelude::*;

verus! {

/// The library's error kinds, each with its detail text.
#[derive(Debug, Clone)]
pub enum Error {
    Io(String),
    Config(String),
    Gpu(String),
    Metrics(String),
    Parse(String),
    Tui(String),
    System(String),
    Daemon(String),
    Unknown(String),
}

pub open spec fn error_text(e: Error) -> Seq<char> {
    match e {
        Error::Io(s) => "IO error: "@ + s@,
        Error::Config(s) => "Configuration error: "@ + s@,
        Error::Gpu(s) => "GPU error: "@ + s@,
        Error::Metrics(s) => "Metrics error: "@ + s@,
        Error::Parse(s) => "Parse error: "@ + s@,
        Error::Tui(s) => "TUI error: "@ + s@,
        Error::System(s) => "System error: "@ + s@,
        Error::Daemon(s) => "Daemon error: "@ + s@,
        Error::Unknown(s) => "Unknown error: "@ + s@,
    }
}

impl Error {
    /// The error as one line of text, its kind first.
    pub fn message(&self) -> (r: String)
        ensures
            r@ == error_text(*self),
    {
        let (prefix, detail) = match self {
            Error::Io(s) => ("IO error: ", s),
            Error::Config(s) => ("Configuration error: ", s),
            Error::Gpu(s) => ("GPU error: ", s),
            Error::Metrics(s) => ("Metrics error: ", s),
            Error::Parse(s) => ("Parse error: ", s),
            Error::Tui(s) => ("TUI error: ", s),
            Error::System(s) => ("System error: ", s),
            Error::Daemon(s) => ("Daemon error: ", s),
            Error::Unknown(s) => ("Unknown error: ", s),
        };
        let mut m = String::from_str(prefix);
        m.append(detail.as_str());
        m
    }
}

} // verus!
