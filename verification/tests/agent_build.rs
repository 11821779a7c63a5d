use std::sync::Arc;

use llm_agent::agent::{AgentBuilder, AgentConfig};
use llm_agent::error::Error;
use llm_agent::event::{Event, EventHandler};
use llm_agent::memory::{memory, DefaultMemory, MemoryHandle};
use llm_agent::numeric::{extract_numbers, i64_to_string, u64_to_string};
use llm_agent::provider::gemini::GeminiProvider;
use llm_agent::provider::{HttpTransport, WireRequest};
use llm_agent::state::SharedState;
use llm_agent::tool::{Function, SumFunction};

struct NullTransport;

impl HttpTransport for NullTransport {
    fn send(&self, _url: &str, _request: &WireRequest) -> Result<serde_json::Value, Error> {
        Ok(serde_json::Value::Null)
    }
}

fn sample_config() -> AgentConfig {
    let mut config = AgentConfig::new();
    config.name = "assistant".to_string();
    config.task = "arithmetic".to_string();
    config
}

#[test]
fn test_basic_agent_creation() {
    let builder: AgentBuilder<GeminiProvider<NullTransport>, DefaultMemory> = AgentBuilder::new();
    let _agent = builder
        .config(sample_config())
        .provider(GeminiProvider::new("test-key".to_string(), NullTransport))
        .memory(MemoryHandle::new(memory()))
        .build::<SumFunction>();
}

#[test]
fn build_without_provider_fails_with_config_error() {
    let builder: AgentBuilder<GeminiProvider<NullTransport>, DefaultMemory> = AgentBuilder::new();
    let result = builder
        .config(sample_config())
        .memory(MemoryHandle::new(memory()))
        .build::<SumFunction>();
    assert!(matches!(result, Err(Error::Config(_))));
}

#[test]
fn build_without_memory_fails_with_config_error() {
    let builder: AgentBuilder<GeminiProvider<NullTransport>, DefaultMemory> = AgentBuilder::new();
    let result = builder
        .config(sample_config())
        .provider(GeminiProvider::new("test-key".to_string(), NullTransport))
        .build::<SumFunction>();
    assert!(matches!(result, Err(Error::Config(_))));
}

#[test]
fn build_with_everything_succeeds() {
    let builder: AgentBuilder<GeminiProvider<NullTransport>, DefaultMemory> = AgentBuilder::new();
    let result = builder
        .config(sample_config())
        .provider(GeminiProvider::new("test-key".to_string(), NullTransport))
        .memory(MemoryHandle::new(memory()))
        .state(Arc::new(SharedState::new()))
        .build::<SumFunction>();
    assert!(result.is_ok());
}

#[test]
fn error_messages_are_carried() {
    let e = Error::Provider("transport down".to_string());
    assert_eq!(e.message(), "transport down");
    let e = Error::Config("missing provider".to_string());
    assert_eq!(e.message(), "missing provider");
    let e = Error::Tool("boom".to_string());
    assert_eq!(e.message(), "boom");
    let e = Error::ToolError("also boom".to_string());
    assert_eq!(e.message(), "also boom");
}

#[test]
fn function_descriptor_holds_its_parts() {
    let f = Function::new("function_0".to_string(), "A mathematical function".to_string(), SumFunction);
    assert_eq!(f.name, "function_0");
    assert_eq!(f.description, "A mathematical function");
}

struct CountingHandler;

impl EventHandler for CountingHandler {
    fn handle(&self, _event: &Event) -> Result<(), Error> {
        Ok(())
    }
}

#[test]
fn events_can_be_handled() {
    let event = Event {
        event_type: "started".to_string(),
        data: serde_json::Value::String("payload".to_string()),
    };
    let handler = CountingHandler;
    assert!(handler.handle(&event).is_ok());
}

#[test]
fn number_extraction_and_rendering() {
    assert_eq!(extract_numbers("6 7"), vec![6, 7]);
    assert_eq!(extract_numbers("abc 1.5 -3 9999999999999999999999"), vec![-3]);
    assert_eq!(extract_numbers("   "), Vec::<i64>::new());
    assert_eq!(extract_numbers("-9223372036854775808 9223372036854775807"),
        vec![i64::MIN, i64::MAX]);
    assert_eq!(u64_to_string(0), "0");
    assert_eq!(u64_to_string(1024), "1024");
    assert_eq!(i64_to_string(-42), "-42");
    assert_eq!(i64_to_string(i64::MIN), "-9223372036854775808");
}
