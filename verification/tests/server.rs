use sap_automate::mcp::error::{error_object, Error, ErrorCode, ErrorObject};
use sap_automate::mcp::protocol::{select_protocol_version, CallToolResult, ToolContent, PROTOCOL_VERSION};
use sap_automate::mcp::registry::{
    ExposurePolicy, PromptDescriptor, ResourceContents, ResourceDescriptor, ResourceHandler, ToolDescriptor, ToolExposure,
    ToolFn,
};
use sap_automate::mcp::server::{invalid_params, method_not_found, route, tool_failure, Route, ServerBuilder};
use sap_automate::mcp::utilities::{parse_log_level, set_level, skill_completers, LogLevel};

type Handler = ToolFn<fn(&str) -> String>;

fn echo(s: &str) -> String {
    s.to_string()
}

fn add(_: &str) -> String {
    "5".to_string()
}

fn make_echo_tool() -> ToolDescriptor<Handler> {
    ToolDescriptor::new("echo".to_string(), Some("echo text".to_string()), ToolFn(echo as fn(&str) -> String))
}

fn make_add_tool() -> ToolDescriptor<Handler> {
    ToolDescriptor::new("add".to_string(), Some("add two numbers".to_string()), ToolFn(add as fn(&str) -> String))
}

struct Static;

impl ResourceHandler for Static {
    fn read(&self, uri: &str) -> Result<Vec<ResourceContents>, Error> {
        Ok(vec![ResourceContents { uri: uri.to_string(), mime_type: None, text: "hello".to_string() }])
    }
}

fn builder() -> ServerBuilder<Handler, Static, ()> {
    ServerBuilder::new("test-server".to_string(), "0.1.0".to_string())
}

#[test]
fn handshake_list_call_roundtrip() {
    let ctx = builder().tool(make_add_tool()).build();
    assert_eq!(ctx.info.name, "test-server");
    assert_eq!(select_protocol_version("2025-06-18"), PROTOCOL_VERSION);
    assert_eq!(select_protocol_version("1999-01-01"), "2025-06-18");
    assert_eq!(ctx.tools.names(), vec!["add".to_string()]);
    let d = ctx.tool_for_call("add").ok().unwrap();
    assert_eq!((d.handler.0)("{\"a\":2,\"b\":3}"), "5");
    let caps = ctx.capabilities();
    assert!(caps.tools && !caps.resources && !caps.prompts);
}

#[test]
fn unknown_tool_returns_protocol_error() {
    let ctx = builder().build();
    match ctx.tool_for_call("nope") {
        Err(Error::Protocol { code, message }) => {
            assert_eq!(code, ErrorCode::UnknownTool.as_i32());
            assert_eq!(message, "unknown tool 'nope'");
        }
        _ => panic!("expected UnknownTool"),
    }
}

#[test]
fn exposure_policy_hides_write_tools() {
    let ctx = builder().tool(make_add_tool().with_writes()).tool(make_echo_tool()).build();
    let names = ctx.tools.names();
    assert!(names.contains(&"echo".to_string()), "echo should be visible: {names:?}");
    assert!(!names.contains(&"add".to_string()), "add (writes) must be hidden in read-only: {names:?}");
    assert!(ctx.tool_for_call("add").is_err());
}

#[test]
fn exposure_policy_all_shows_write_tools() {
    let ctx = builder().exposure(ExposurePolicy::All).tool(make_add_tool().with_writes()).tool(make_echo_tool()).build();
    let names = ctx.tools.names();
    assert!(names.contains(&"echo".to_string()));
    assert!(names.contains(&"add".to_string()));
}

#[test]
fn registering_a_name_again_replaces_in_place() {
    let ctx = builder()
        .exposure(ExposurePolicy::All)
        .tool(make_echo_tool())
        .tool(make_add_tool())
        .tool(make_echo_tool().with_writes())
        .build();
    assert_eq!(ctx.tools.names(), vec!["echo".to_string(), "add".to_string()]);
    assert_eq!(ctx.tool_for_call("echo").ok().unwrap().exposure, ToolExposure::Writes);
}

#[test]
fn resources_and_prompts_are_found_by_uri_and_name() {
    let ctx = builder()
        .resource(ResourceDescriptor {
            uri: "sap://info".to_string(),
            name: "info".to_string(),
            description: None,
            mime_type: Some("text/plain".to_string()),
            handler: Static,
        })
        .prompt(PromptDescriptor { name: "triage".to_string(), description: None, handler: () })
        .build();
    let r = ctx.resource_for_read("sap://info").ok().unwrap();
    assert_eq!(r.handler.read(&r.uri).ok().unwrap()[0].text, "hello");
    assert!(ctx.prompt_for_get("triage").is_ok());
    match ctx.resource_for_read("sap://nope") {
        Err(Error::Protocol { code, message }) => {
            assert_eq!(code, -32602);
            assert_eq!(message, "unknown resource 'sap://nope'");
        }
        _ => panic!("expected InvalidParams"),
    }
    assert!(matches!(ctx.prompt_for_get("nope"), Err(Error::Protocol { message, .. }) if message == "unknown prompt 'nope'"));
    let caps = ctx.capabilities();
    assert!(!caps.tools && caps.resources && caps.prompts);
}

#[test]
fn methods_are_routed_by_name() {
    assert_eq!(route("initialize"), Route::Initialize);
    assert_eq!(route("tools/call"), Route::ToolsCall);
    assert_eq!(route("resources/read"), Route::ResourcesRead);
    assert_eq!(route("prompts/get"), Route::PromptsGet);
    assert_eq!(route("logging/setLevel"), Route::SetLogLevel);
    assert_eq!(route("completion/complete"), Route::Complete);
    assert_eq!(route("resources/subscribe"), Route::Unsupported);
    assert!(matches!(method_not_found("x/y"), Error::Protocol { code: -32601, message } if message == "method 'x/y' not supported"));
    assert!(matches!(invalid_params("missing field"), Error::Protocol { code: -32602, message } if message == "invalid params: missing field"));
}

#[test]
fn failed_tool_calls_are_results_flagged_as_errors() {
    let r = tool_failure(&Error::Protocol { code: -32100, message: "slow".to_string() });
    assert!(r.is_error);
    assert_eq!(r.content, vec![ToolContent::Text { text: "MCP protocol error (-32100): slow".to_string() }]);
    let ok = CallToolResult::text("fine".to_string());
    assert!(!ok.is_error);
}

#[test]
fn errors_become_error_objects() {
    let o = error_object(Error::Protocol { code: -32202, message: "unknown tool 'x'".to_string() });
    assert_eq!((o.code, o.message.as_str()), (-32202, "unknown tool 'x'"));
    let o = error_object(Error::Json("expected value".to_string()));
    assert_eq!(o.code, -32700);
    let o = error_object(Error::Io("broken pipe".to_string()));
    assert_eq!(o.code, -32603);
    let o = ErrorObject::new(-32000, "x".to_string()).with_data("{\"k\":1}".to_string());
    assert_eq!(o.data.as_deref(), Some("{\"k\":1}"));
    assert_eq!(ErrorObject::new(-32601, "nope".to_string()).text(), "[-32601] nope");
}

fn completing_server() -> sap_automate::mcp::server::ServerContext<Handler, Static, ()> {
    let mut b = builder().tool(make_echo_tool());
    for c in skill_completers() {
        b = b.completer(c);
    }
    b.build()
}

#[test]
fn logging_setlevel_is_accepted() {
    assert_eq!(route("logging/setLevel"), Route::SetLogLevel);
    assert_eq!(set_level("warning").ok(), Some(LogLevel::Warning));
    assert_eq!(parse_log_level("debug"), Some(LogLevel::Debug));
    assert_eq!(parse_log_level("emergency"), Some(LogLevel::Emergency));
}

#[test]
fn logging_setlevel_validates_enum() {
    match set_level("verbose") {
        Err(Error::Protocol { code, message }) => {
            assert_eq!(code, -32602);
            assert_eq!(message, "invalid log level 'verbose'");
        }
        other => panic!("expected an error, got {other:?}"),
    }
    assert_eq!(parse_log_level("Warning"), None);
}

#[test]
fn completion_complete_returns_registered_values() {
    let ctx = completing_server();
    let mut v = ctx.complete("sap.skill.security_sod_audit", "scope", "");
    assert_eq!(v.len(), 3);
    v.sort();
    assert_eq!(v, vec!["role", "system", "user"]);
}

#[test]
fn completion_complete_filters_by_prefix() {
    let ctx = completing_server();
    assert_eq!(ctx.complete("sap.skill.security_sod_audit", "scope", "u"), vec!["user"]);
    assert_eq!(ctx.complete("sap.skill.security_sod_audit", "scope", "s"), vec!["system"]);
    assert!(ctx.complete("sap.skill.security_sod_audit", "scope", "x").is_empty());
}

#[test]
fn completion_complete_unknown_prompt_returns_empty_not_error() {
    let ctx = completing_server();
    assert!(ctx.complete("no.such.prompt", "x", "").is_empty());
    assert!(ctx.complete("sap.skill.security_sod_audit", "other", "").is_empty());
}

#[test]
fn initialize_advertises_logging_and_completions_capabilities() {
    let caps = completing_server().capabilities();
    assert!(caps.logging);
    assert!(caps.completions);
    assert!(caps.tools);
    let plain = builder().build().capabilities();
    assert!(plain.logging);
    assert!(!plain.completions);
    assert!(!plain.tools);
}
