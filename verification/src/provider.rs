use vstd::prelude::*;

use crate::error::Error;
use crate::tool::{Function, RustFunction};

pub mod gemini;

verus! {

/// Generation parameters for one request. Attributes are immutable once
/// constructed; a new configuration is built for each differing request.
///
/// Fractional parameters are carried in thousandths so the core stays in
/// exact integer arithmetic: a temperature of 0.7 is 700 thousandths, a
/// top_p of 1.0 is 1000 thousandths.
#[derive(Clone, Copy, Debug, PartialEq, Eq, Structural)]
pub struct GenerationConfig {
    pub temperature_milli: u32,
    pub top_p_milli: u32,
    pub max_output_tokens: i32,
}

impl GenerationConfig {
    /// The fixed defaults a provider applies when the caller gives no
    /// configuration: temperature 0.7, top_p 1.0, 1024 output tokens.
    pub open spec fn spec_default() -> GenerationConfig {
        GenerationConfig { temperature_milli: 700, top_p_milli: 1000, max_output_tokens: 1024 }
    }

    /// The configuration that governs a request: the explicit one when
    /// given, the provider defaults otherwise.
    pub fn effective(config: &Option<GenerationConfig>) -> (r: GenerationConfig)
        ensures
            match config {
                Some(c) => r == c,
                None => r == GenerationConfig::spec_default(),
            },
    {
        match config {
            Some(c) => *c,
            None => GenerationConfig {
                temperature_milli: 700,
                top_p_milli: 1000,
                max_output_tokens: 1024,
            },
        }
    }
}

/// The single conversational turn and generation block a backend needs
/// for its wire request. Turning this into the actual JSON body is the
/// transport's business, not the core's.
pub struct WireRequest {
    pub text: String,
    pub config: GenerationConfig,
}

/// The capability the core needs from an HTTP transport: send one
/// JSON-encodable request to a URL and hand back the decoded JSON
/// response, or the transport failure as a `Provider` error.
/// Implementations live at the edge of the host program; the core depends
/// on nothing transport-specific beyond this.
pub trait HttpTransport {
    /// Sends `request` to `url` and returns the decoded response body.
    fn send(&self, url: &str, request: &WireRequest) -> (r: Result<serde_json::Value, Error>)
        ensures
            r matches Err(e) ==> e matches Error::Provider(_),
    ;
}

/// The capability contract every model backend satisfies: a backend
/// identifier, and a dispatch entry that turns a prompt, an optional
/// generation configuration and the available callables into the next
/// text, or a failure.
pub trait LLMProvider<F: RustFunction + Copy>: Sized {
    /// The backend identifier this provider answers to.
    spec fn spec_name(&self) -> Seq<char>;

    /// What the backend may answer: every successful response text for
    /// `prompt` and `functions` satisfies this predicate. Each backend
    /// states here how its answers relate to the callables it was shown.
    spec fn spec_response_ok(
        &self,
        prompt: Seq<char>,
        functions: Seq<Function<F>>,
        response: Seq<char>,
    ) -> bool;

    /// Returns the backend identifier.
    fn name(&self) -> (r: &str)
        ensures
            r@ == self.spec_name(),
    ;

    /// Produces the backend's answer for `prompt`, given the callables
    /// available for this dispatch.
    fn generate_response(
        &self,
        prompt: &str,
        config: &Option<GenerationConfig>,
        functions: &Vec<Function<F>>,
    ) -> (r: Result<String, Error>)
        ensures
            r matches Ok(s) ==> self.spec_response_ok(prompt@, functions@, s@),
    ;
}

} // verus!
