use vstd::prelude::*;

verus! {

/// The error taxonomy of the core.
///
/// Every layer forwards the first failure it meets without local recovery:
/// a transport or malformed-backend-response failure is a `Provider` error,
/// an unknown tool name or a failing tool execution is a `Tool`/`ToolError`
/// error, and incomplete agent construction is a `Config` error. Each
/// variant carries a human-readable message.
#[derive(Debug)]
pub enum Error {
    Provider(String),
    Tool(String),
    ToolError(String),
    Config(String),
}

impl Error {
    /// The message carried by this error, whatever its kind.
    pub open spec fn spec_message(&self) -> Seq<char> {
        match self {
            Error::Provider(m) => m@,
            Error::Tool(m) => m@,
            Error::ToolError(m) => m@,
            Error::Config(m) => m@,
        }
    }

    /// Returns the human-readable message carried by this error.
    pub fn message(&self) -> (r: &str)
        ensures
            r@ == self.spec_message(),
    {
        match self {
            Error::Provider(m) => m.as_str(),
            Error::Tool(m) => m.as_str(),
            Error::ToolError(m) => m.as_str(),
            Error::Config(m) => m.as_str(),
        }
    }
}

} // verus!
