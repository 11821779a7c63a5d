use llm_agent::error::Error;
use llm_agent::memory::{memory, DefaultMemory, MemoryHandle};
use llm_agent::provider::gemini::GeminiProvider;
use llm_agent::provider::{GenerationConfig, HttpTransport, LLMProvider, WireRequest};
use llm_agent::agent::Agent;
use llm_agent::tool::ProductFunction;

struct MockTransport {
    body: serde_json::Value,
}

impl HttpTransport for MockTransport {
    fn send(&self, _url: &str, _request: &WireRequest) -> Result<serde_json::Value, Error> {
        Ok(self.body.clone())
    }
}

struct FailingTransport;

impl HttpTransport for FailingTransport {
    fn send(&self, _url: &str, _request: &WireRequest) -> Result<serde_json::Value, Error> {
        Err(Error::Provider("connection refused".to_string()))
    }
}

/// The response body the backend answers with, carrying `text` at
/// candidates[0].content.parts[0].text.
fn backend_response(text: &str) -> serde_json::Value {
    let mut part = serde_json::Map::new();
    part.insert("text".to_string(), serde_json::Value::String(text.to_string()));
    let mut content = serde_json::Map::new();
    content.insert(
        "parts".to_string(),
        serde_json::Value::Array(vec![serde_json::Value::Object(part)]),
    );
    let mut candidate = serde_json::Map::new();
    candidate.insert("content".to_string(), serde_json::Value::Object(content));
    let mut body = serde_json::Map::new();
    body.insert(
        "candidates".to_string(),
        serde_json::Value::Array(vec![serde_json::Value::Object(candidate)]),
    );
    serde_json::Value::Object(body)
}

fn agent_with(
    text: &str,
) -> Agent<GeminiProvider<MockTransport>, DefaultMemory, ProductFunction> {
    let transport = MockTransport { body: backend_response(text) };
    let provider = GeminiProvider::new("test-key".to_string(), transport);
    Agent::new(provider, MemoryHandle::new(memory()))
}

#[test]
fn product_of_extracted_numbers() {
    let mut agent = agent_with("6 7");
    agent.add_function(ProductFunction);
    let answer = agent.generate_response("multiply 6 and 7").unwrap();
    assert_eq!(answer, "The result is: 42");
}

#[test]
fn no_functions_returns_text_verbatim() {
    let agent = agent_with("there are no numbers here");
    let answer = agent.generate_response("anything").unwrap();
    assert_eq!(answer, "there are no numbers here");
}

#[test]
fn unparseable_tokens_are_dropped() {
    let mut agent = agent_with("2 x 3.5 -5");
    agent.add_function(ProductFunction);
    let answer = agent.generate_response("multiply").unwrap();
    assert_eq!(answer, "The result is: -10");
}

#[test]
fn missing_text_falls_back_to_placeholder() {
    let transport = MockTransport { body: serde_json::Value::Null };
    let provider = GeminiProvider::new("test-key".to_string(), transport);
    let agent: Agent<_, DefaultMemory, ProductFunction> =
        Agent::new(provider, MemoryHandle::new(memory()));
    let answer = agent.generate_response("anything").unwrap();
    assert_eq!(answer, "No response");
}

#[test]
fn transport_failure_is_a_provider_error() {
    let provider = GeminiProvider::new("test-key".to_string(), FailingTransport);
    let agent: Agent<_, DefaultMemory, ProductFunction> =
        Agent::new(provider, MemoryHandle::new(memory()));
    let result = agent.generate_response("anything");
    match result {
        Err(Error::Provider(message)) => assert_eq!(message, "connection refused"),
        _ => panic!("expected a provider error"),
    }
}

#[test]
fn descriptors_are_named_in_order() {
    let mut agent = agent_with("1");
    agent.add_function(ProductFunction);
    agent.add_function(ProductFunction);
    agent.add_function(ProductFunction);
    let descriptors = agent.get_descriptors();
    assert_eq!(descriptors.len(), 3);
    assert_eq!(descriptors[0].name, "function_0");
    assert_eq!(descriptors[1].name, "function_1");
    assert_eq!(descriptors[2].name, "function_2");
    assert_eq!(descriptors[0].description, "A mathematical function");
}

#[test]
fn provider_is_named_gemini() {
    let provider = GeminiProvider::new("test-key".to_string(), FailingTransport);
    let name = <GeminiProvider<FailingTransport> as LLMProvider<ProductFunction>>::name(&provider);
    assert_eq!(name, "gemini");
}

#[test]
fn effective_config_defaults() {
    let effective = GenerationConfig::effective(&None);
    assert_eq!(effective.temperature_milli, 700);
    assert_eq!(effective.top_p_milli, 1000);
    assert_eq!(effective.max_output_tokens, 1024);
    let explicit = GenerationConfig {
        temperature_milli: 200,
        top_p_milli: 900,
        max_output_tokens: 64,
    };
    assert_eq!(GenerationConfig::effective(&Some(explicit)), explicit);
}

#[test]
fn no_numbers_still_invokes_the_function() {
    let mut agent = agent_with("nothing numeric here");
    agent.add_function(ProductFunction);
    let answer = agent.generate_response("multiply").unwrap();
    assert_eq!(answer, "The result is: 1");
}
