use vstd::prelude::*;
use vstd::string::StringExecFns;

use crate::error::Error;
use crate::json::{json_as_str, json_get_field, json_get_index};
use crate::numeric::{extract_numbers, i64_to_string, ints_of, spec_dec, spec_numbers};
use crate::provider::{GenerationConfig, HttpTransport, LLMProvider, WireRequest};
use crate::tool::{Function, RustFunction};

verus! {

/// The descriptor line for one callable, as it appears in the prompt.
pub open spec fn spec_function_line<F>(f: Function<F>) -> Seq<char> {
    "- "@ + f.name@ + ": "@ + f.description@
}

/// The newline-joined "- name: description" lines for the available
/// callables.
pub open spec fn spec_function_lines<F>(s: Seq<Function<F>>) -> Seq<char>
    decreases s.len(),
{
    if s.len() == 0 {
        Seq::empty()
    } else if s.len() == 1 {
        spec_function_line(s[0])
    } else {
        spec_function_lines(s.drop_last()) + "\n"@ + spec_function_line(s.last())
    }
}

/// The single combined prompt sent to the backend: a fixed system
/// preamble, the descriptor lines, a fixed instruction asking for
/// whitespace-separated numbers, and the caller's prompt.
pub open spec fn spec_full_prompt<F>(functions: Seq<Function<F>>, prompt: Seq<char>) -> Seq<
    char,
> {
    "You are a helpful AI assistant that can perform calculations.\n\nAvailable functions:\n"@
        + spec_function_lines(functions)
        + "\n\nTo use a function, extract the numbers from the query and format them as: number1 number2 number3...\n\nUser: "@
        + prompt
}

/// The request URL: the fixed endpoint of the backend, with the API key
/// embedded as a query parameter.
pub open spec fn spec_request_url(key: Seq<char>) -> Seq<char> {
    "https://generativelanguage.googleapis.com/v1beta/models/gemini-pro:generateContent?key="@
        + key
}

/// What a dispatch answers once the backend's text stands: with at least
/// one callable available, the first one is invoked on the numbers found
/// in the text and the result is announced; with none, the extracted text
/// (or the fixed placeholder, when no text could be extracted) is returned
/// verbatim.
pub open spec fn spec_resolve<F: RustFunction + Copy>(
    extracted: Option<Seq<char>>,
    functions: Seq<Function<F>>,
) -> Seq<char> {
    let text = match extracted {
        Some(t) => t,
        None => "No response"@,
    };
    if functions.len() > 0 {
        "The result is: "@ + spec_dec(functions[0].function.spec_call(spec_numbers(text)))
    } else {
        text
    }
}

/// Renders the newline-joined descriptor lines.
#[verifier::loop_isolation(false)]
fn function_lines<F: RustFunction + Copy>(functions: &Vec<Function<F>>) -> (r: String)
    ensures
        r@ == spec_function_lines(functions@),
{
    let mut acc = String::new();
    proof {
        assert(functions@.take(0) =~= Seq::<Function<F>>::empty());
    }
    let mut i: usize = 0;
    while i < functions.len()
        invariant
            i <= functions@.len(),
            acc@ == spec_function_lines(functions@.take(i as int)),
        decreases functions@.len() - i,
    {
        if i > 0 {
            acc.append("\n");
        }
        acc.append("- ");
        acc.append(functions[i].name.as_str());
        acc.append(": ");
        acc.append(functions[i].description.as_str());
        proof {
            let s = functions@;
            assert(s.take(i + 1).drop_last() =~= s.take(i as int));
            assert(s.take(i + 1).last() == s[i as int]);
            assert(acc@ =~= spec_function_lines(s.take(i + 1)));
        }
        i = i + 1;
    }
    proof {
        assert(functions@.take(functions@.len() as int) =~= functions@);
    }
    acc
}

/// Renders the single combined prompt.
fn build_full_prompt<F: RustFunction + Copy>(functions: &Vec<Function<F>>, prompt: &str) -> (r:
    String)
    ensures
        r@ == spec_full_prompt(functions@, prompt@),
{
    let mut acc = String::new();
    acc.append(
        "You are a helpful AI assistant that can perform calculations.\n\nAvailable functions:\n",
    );
    let lines = function_lines(functions);
    acc.append(lines.as_str());
    acc.append(
        "\n\nTo use a function, extract the numbers from the query and format them as: number1 number2 number3...\n\nUser: ",
    );
    acc.append(prompt);
    proof {
        assert(acc@ =~= spec_full_prompt(functions@, prompt@));
    }
    acc
}

/// Folds the backend's extracted text and the available callables into
/// the final answer; the outcome is a function of the arguments alone.
pub fn resolve_response<F: RustFunction + Copy>(
    extracted: Option<String>,
    functions: &Vec<Function<F>>,
) -> (r: String)
    ensures
        r@ == spec_resolve(
            match extracted {
                Some(s) => Some(s@),
                None => None,
            },
            functions@,
        ),
{
    let text: String = match extracted {
        Some(t) => t,
        None => "No response".to_owned(),
    };
    if functions.len() > 0 {
        let nums = extract_numbers(text.as_str());
        let value = functions[0].function.call(nums.as_slice());
        let mut out = String::new();
        out.append("The result is: ");
        let rendered = i64_to_string(value);
        out.append(rendered.as_str());
        proof {
            assert(ints_of(nums@) == spec_numbers(text@));
            assert(out@ =~= "The result is: "@ + spec_dec(value as int));
        }
        out
    } else {
        text
    }
}

/// Law: with no callables registered, the dispatch answer is the
/// backend's extracted text, unchanged, whatever numbers it does or does
/// not contain.
pub proof fn lemma_no_functions_returns_text<F: RustFunction + Copy>(
    text: Seq<char>,
    functions: Seq<Function<F>>,
)
    requires
        functions.len() == 0,
    ensures
        spec_resolve(Some(text), functions) == text,
{
}

/// Law: with at least one callable registered, the dispatch answer
/// announces the value of the first callable applied to exactly the
/// numbers extracted from the backend's text.
pub proof fn lemma_first_function_dispatch<F: RustFunction + Copy>(
    text: Seq<char>,
    functions: Seq<Function<F>>,
)
    requires
        functions.len() > 0,
    ensures
        spec_resolve(Some(text), functions) == "The result is: "@ + spec_dec(
            functions[0].function.spec_call(spec_numbers(text)),
        ),
{
}

/// The HTTP-backed reference provider. It renders the combined prompt,
/// sends it through its transport, and resolves the response against the
/// available callables.
pub struct GeminiProvider<C: HttpTransport> {
    api_key: String,
    client: C,
}

impl<C: HttpTransport> GeminiProvider<C> {
    /// The API key this provider embeds in its request URL.
    pub closed spec fn spec_api_key(&self) -> Seq<char> {
        self.api_key@
    }

    /// Creates a provider around an API key and a transport.
    pub fn new(api_key: String, client: C) -> (r: Self)
        ensures
            r.spec_api_key() == api_key@,
    {
        GeminiProvider { api_key, client }
    }

    /// Renders the request URL for this provider.
    fn request_url(&self) -> (r: String)
        ensures
            r@ == spec_request_url(self.spec_api_key()),
    {
        let mut acc = String::new();
        acc.append(
            "https://generativelanguage.googleapis.com/v1beta/models/gemini-pro:generateContent?key=",
        );
        acc.append(self.api_key.as_str());
        acc
    }

    /// Reads the first completion's text, at candidates[0].content.parts[0].text;
    /// any missing step yields no text.
    fn extract_candidate_text(response: &serde_json::Value) -> Option<String> {
        let candidates = match json_get_field(response, "candidates") {
            Some(v) => v,
            None => {
                return None;
            },
        };
        let first = match json_get_index(candidates, 0) {
            Some(v) => v,
            None => {
                return None;
            },
        };
        let content = match json_get_field(first, "content") {
            Some(v) => v,
            None => {
                return None;
            },
        };
        let parts = match json_get_field(content, "parts") {
            Some(v) => v,
            None => {
                return None;
            },
        };
        let part = match json_get_index(parts, 0) {
            Some(v) => v,
            None => {
                return None;
            },
        };
        let text = match json_get_field(part, "text") {
            Some(v) => v,
            None => {
                return None;
            },
        };
        match json_as_str(text) {
            Some(s) => Some(s.to_owned()),
            None => None,
        }
    }

    /// One full provider dispatch: renders the combined prompt, sends it
    /// with the effective generation configuration, extracts the first
    /// completion's text, and resolves the final answer against the
    /// available callables. A failure can only be the transport's, and is
    /// a `Provider` error; whatever text came back, the answer is the
    /// resolution of some extracted text against the given callables.
    pub fn dispatch<F: RustFunction + Copy>(
        &self,
        prompt: &str,
        config: &Option<GenerationConfig>,
        functions: &Vec<Function<F>>,
    ) -> (r: Result<String, Error>)
        ensures
            r matches Err(e) ==> e matches Error::Provider(_),
            r matches Ok(s) ==> exists|t: Option<Seq<char>>|
                s@ == #[trigger] spec_resolve(t, functions@),
    {
        let full_prompt = build_full_prompt(functions, prompt);
        let effective = GenerationConfig::effective(config);
        let url = self.request_url();
        let request = WireRequest { text: full_prompt, config: effective };
        match self.client.send(url.as_str(), &request) {
            Err(e) => Err(e),
            Ok(body) => {
                let extracted = Self::extract_candidate_text(&body);
                let ghost tv: Option<Seq<char>> = match &extracted {
                    Some(s) => Some(s@),
                    None => None,
                };
                let answer = resolve_response(extracted, functions);
                proof {
                    assert(answer@ == spec_resolve(tv, functions@));
                }
                Ok(answer)
            },
        }
    }
}

impl<F: RustFunction + Copy, C: HttpTransport> LLMProvider<F> for GeminiProvider<C> {
    open spec fn spec_name(&self) -> Seq<char> {
        "gemini"@
    }

    open spec fn spec_response_ok(
        &self,
        prompt: Seq<char>,
        functions: Seq<Function<F>>,
        response: Seq<char>,
    ) -> bool {
        exists|t: Option<Seq<char>>| response == #[trigger] spec_resolve(t, functions)
    }

    fn name(&self) -> (r: &str) {
        "gemini"
    }

    fn generate_response(
        &self,
        prompt: &str,
        config: &Option<GenerationConfig>,
        functions: &Vec<Function<F>>,
    ) -> (r: Result<String, Error>) {
        self.dispatch(prompt, config, functions)
    }
}

} // verus!
