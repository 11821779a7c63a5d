use llm_agent::error::Error;
use llm_agent::tools::{EchoTool, EnableLights, SetLightColor, Tool, ToolRegistry};

fn echo(name: &str, description: &str) -> EchoTool {
    EchoTool { name: name.to_string(), description: description.to_string() }
}

#[test]
fn missing_tool_is_not_found() {
    let registry: ToolRegistry<EchoTool> = ToolRegistry::new();
    let result = registry.execute_tool("missing_tool", serde_json::Value::Null);
    match result {
        Err(Error::ToolError(message)) => {
            assert_eq!(message, "Tool missing_tool not found");
        },
        _ => panic!("expected the not-found error"),
    }
}

#[test]
fn missing_tool_is_not_found_regardless_of_args() {
    let mut registry: ToolRegistry<EchoTool> = ToolRegistry::new();
    registry.register(echo("present", "a tool"));
    let args = serde_json::Value::String("anything".to_string());
    let result = registry.execute_tool("missing_tool", args);
    assert!(matches!(result, Err(Error::ToolError(_))));
}

#[test]
fn register_then_execute_forwards() {
    let mut registry: ToolRegistry<EchoTool> = ToolRegistry::new();
    registry.register(echo("echo", "echoes"));
    let args = serde_json::Value::String("payload".to_string());
    let result = registry.execute_tool("echo", args.clone());
    assert_eq!(result.unwrap(), args);
}

#[test]
fn reregistration_replaces_descriptor() {
    let mut registry: ToolRegistry<EchoTool> = ToolRegistry::new();
    registry.register(echo("light", "first description"));
    registry.register(echo("light", "second description"));
    let config = registry.get_tool_definitions();
    let matching: Vec<_> = config
        .function_declarations
        .iter()
        .filter(|d| d.name == "light")
        .collect();
    assert_eq!(matching.len(), 1);
    assert_eq!(matching[0].description, "second description");
    assert_eq!(config.function_declarations.len(), 1);
}

#[test]
fn definitions_follow_registration_order() {
    let mut registry: ToolRegistry<EchoTool> = ToolRegistry::new();
    registry.register(echo("alpha", "a"));
    registry.register(echo("beta", "b"));
    let config = registry.get_tool_definitions();
    assert_eq!(config.function_declarations.len(), 2);
    assert_eq!(config.function_declarations[0].name, "alpha");
    assert_eq!(config.function_declarations[1].name, "beta");
}

#[test]
fn enable_lights_shape() {
    let tool = EnableLights;
    assert_eq!(tool.name(), "enable_lights");
    assert_eq!(tool.description(), "Turn on the lighting system.");
    let params = tool.parameters();
    assert_eq!(params.param_type, "object");
    assert!(params.properties.is_none());
    assert!(params.required.is_none());
    let result = tool.execute(serde_json::Value::Null).unwrap();
    assert_eq!(result, serde_json::Value::Bool(true));
}

#[test]
fn set_light_color_shape() {
    let tool = SetLightColor;
    assert_eq!(tool.name(), "set_light_color");
    let params = tool.parameters();
    assert_eq!(params.param_type, "object");
    let properties = params.properties.unwrap();
    assert_eq!(properties.len(), 1);
    assert_eq!(properties[0].name, "rgb_hex");
    assert_eq!(properties[0].definition.prop_type, "string");
    assert_eq!(
        properties[0].definition.description,
        "The light color as a 6-digit hex string, e.g. ff0000 for red."
    );
    assert_eq!(params.required.unwrap(), vec!["rgb_hex".to_string()]);
    let args = serde_json::Value::String("ff0000".to_string());
    assert_eq!(tool.execute(args.clone()).unwrap(), args);
}

#[test]
fn replacement_keeps_registration_position() {
    let mut registry: ToolRegistry<EchoTool> = ToolRegistry::new();
    registry.register(echo("first", "1"));
    registry.register(echo("second", "2"));
    registry.register(echo("first", "renewed"));
    let config = registry.get_tool_definitions();
    assert_eq!(config.function_declarations.len(), 2);
    assert_eq!(config.function_declarations[0].name, "first");
    assert_eq!(config.function_declarations[0].description, "renewed");
    assert_eq!(config.function_declarations[1].name, "second");
}
