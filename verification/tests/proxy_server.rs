//! The forwarding proxy, step by step.

use mcp_proxy::proxy_server::{
    is_served, new_progress_relay_map, time_left, timeout_message, to_mcp_error, Awaited, Capabilities,
    ForwardingProxy, Method, ProgressNotification, ProgressRelayMap, ProgressToken, Stage, ToolCall,
    Turns,
};
use rmcp::model::{
    CallToolResult, Content, ErrorCode, ErrorData, Implementation, ListToolsResult,
    ServerCapabilities, ServerInfo, ServerResult,
};
use rmcp::ServiceError;
use std::time::Duration;

const METHODS: [Method; 10] = [
    Method::ListPrompts,
    Method::GetPrompt,
    Method::ListResources,
    Method::ListResourceTemplates,
    Method::ReadResource,
    Method::Subscribe,
    Method::Unsubscribe,
    Method::SetLevel,
    Method::ListTools,
    Method::CallTool,
];

fn partial_info() -> ServerInfo {
    ServerInfo::new(ServerCapabilities::builder().enable_tools().enable_prompts().build())
        .with_server_info(Implementation::new("test-remote", "0.0.0"))
}

#[allow(deprecated)]
fn full_info() -> ServerInfo {
    ServerInfo::new(
        ServerCapabilities::builder()
            .enable_tools()
            .enable_prompts()
            .enable_resources()
            .enable_logging()
            .build(),
    )
    .with_server_info(Implementation::new("full-remote", "0.0.0"))
}

fn proxy(info: ServerInfo) -> ForwardingProxy<&'static str> {
    ForwardingProxy::new(vec!["a", "b", "c"], info, Duration::from_secs(30))
}

fn failure(result: &CallToolResult) -> Option<&str> {
    if result.is_error != Some(true) || result.content.len() != 1 {
        return None;
    }
    result.content[0].as_text().map(|text| text.text.as_str())
}

fn number(n: i64) -> ProgressToken {
    ProgressToken::Number(n)
}

#[test]
fn mirrors_remote_capabilities() {
    let proxy = proxy(partial_info());
    let info = proxy.get_info();
    assert!(info.capabilities.tools.is_some());
    assert!(info.capabilities.prompts.is_some());
    assert!(info.capabilities.resources.is_none());
    assert_eq!(info.server_info.name, "test-remote");
    assert_eq!(
        proxy.capabilities(),
        Capabilities { prompts: true, resources: false, logging: false, tools: true }
    );
}

#[test]
fn mirrors_all_capabilities() {
    let proxy = proxy(full_info());
    assert_eq!(proxy.get_info(), full_info());
    assert_eq!(
        proxy.capabilities(),
        Capabilities { prompts: true, resources: true, logging: true, tools: true }
    );
    for method in METHODS {
        assert!(proxy.route(method, &mut Turns::new()).is_ok());
    }
}

#[test]
fn rejects_unsupported_capability_with_method_not_found() {
    let proxy = proxy(partial_info());
    let error = proxy.route(Method::ListResources, &mut Turns::new()).unwrap_err();
    assert_eq!(error.code, ErrorCode::METHOD_NOT_FOUND);
    assert_eq!(error.message, "resources/list");
    assert_eq!(error.data, None);
    assert!(proxy.route(Method::ListTools, &mut Turns::new()).is_ok());
    assert!(proxy.route(Method::GetPrompt, &mut Turns::new()).is_ok());
}

#[test]
fn refusals_name_the_method() {
    let proxy = proxy(ServerInfo::new(ServerCapabilities::default()));
    let names: Vec<String> =
        METHODS.iter().map(|method| proxy.route(*method, &mut Turns::new()).unwrap_err().message.to_string()).collect();
    assert_eq!(
        names,
        vec![
            "prompts/list",
            "prompts/get",
            "resources/list",
            "resources/templates/list",
            "resources/read",
            "resources/subscribe",
            "resources/unsubscribe",
            "logging/setLevel",
            "tools/list",
            "tools/call",
        ]
    );
}

#[test]
fn capabilities_guard_their_own_methods() {
    let none = Capabilities { prompts: false, resources: false, logging: false, tools: false };
    let count = |capabilities: Capabilities| {
        METHODS.iter().filter(|method| is_served(capabilities, **method)).count()
    };
    assert_eq!(count(none), 0);
    assert_eq!(count(Capabilities { prompts: true, ..none }), 2);
    assert_eq!(count(Capabilities { resources: true, ..none }), 5);
    assert_eq!(count(Capabilities { logging: true, ..none }), 1);
    assert_eq!(count(Capabilities { tools: true, ..none }), 2);
    assert!(is_served(Capabilities { logging: true, ..none }, Method::SetLevel));
}

#[test]
fn peers_take_turns() {
    let proxy = proxy(full_info());
    let mut turns = Turns::new();
    let picked: Vec<&str> = (0..7).map(|_| *proxy.pick(&mut turns)).collect();
    assert_eq!(picked, vec!["a", "b", "c", "a", "b", "c", "a"]);
}

#[test]
fn any_round_of_picks_gives_each_peer_once() {
    let proxy = proxy(full_info());
    let mut turns = Turns::new();
    for _ in 0..5 {
        let mut round: Vec<&str> = (0..3).map(|_| *proxy.pick(&mut turns)).collect();
        round.sort();
        assert_eq!(round, vec!["a", "b", "c"]);
        proxy.pick(&mut turns);
    }
}

#[test]
fn tickets_are_counted_from_zero() {
    let mut turns = Turns::new();
    assert_eq!((turns.take(), turns.take(), turns.take()), (0, 1, 2));
}

#[test]
fn refused_requests_take_no_turn() {
    let proxy = proxy(partial_info());
    let mut turns = Turns::new();
    assert_eq!(*proxy.pick(&mut turns), "a");
    assert!(proxy.route(Method::SetLevel, &mut turns).is_err());
    assert_eq!(*proxy.route(Method::ListTools, &mut turns).unwrap(), "b");
    assert_eq!(*proxy.pick(&mut turns), "c");
}

#[test]
fn refused_tool_calls_take_no_turn() {
    let proxy = proxy(ServerInfo::new(ServerCapabilities::default()));
    let mut turns = Turns::new();
    assert!(proxy.begin_tool_call(None, &mut turns).is_err());
    assert!(proxy.begin_tool_call(Some(number(1)), &mut turns).is_err());
    assert_eq!(turns.take(), 0);
}

#[test]
fn time_is_limited_in_all() {
    let limit = Duration::from_secs(30);
    assert_eq!(time_left(limit, Duration::from_millis(500)), Duration::from_millis(29500));
    assert_eq!(time_left(limit, limit), Duration::ZERO);
    assert_eq!(time_left(limit, Duration::from_secs(31)), Duration::ZERO);
}

#[test]
fn tickets_stand_for_peers() {
    let proxy = proxy(full_info());
    assert_eq!(*proxy.peer_for(0), "a");
    assert_eq!(*proxy.peer_for(5), "c");
    assert_eq!(*proxy.peer_for(usize::MAX), *proxy.peer_for(usize::MAX % 3));
}

#[test]
fn a_single_peer_gets_every_request() {
    let proxy = ForwardingProxy::new(vec![7u8], full_info(), Duration::from_secs(1));
    let mut turns = Turns::new();
    assert_eq!((*proxy.pick(&mut turns), *proxy.pick(&mut turns)), (7, 7));
}

#[test]
fn answers_are_forwarded() {
    let proxy = proxy(full_info());
    assert_eq!(proxy.forward(Awaited::Finished(Ok(42))), Ok(42));
}

#[test]
fn errors_of_the_peer_are_forwarded_as_they_are() {
    let proxy = proxy(full_info());
    let error = ErrorData::invalid_params("no such prompt", None);
    let result: Result<(), ErrorData> =
        proxy.forward(Awaited::Finished(Err(ServiceError::McpError(error.clone()))));
    assert_eq!(result, Err(error));
}

#[test]
fn other_failures_are_internal_errors_in_words() {
    let proxy = proxy(full_info());
    let result: Result<(), ErrorData> =
        proxy.forward(Awaited::Finished(Err(ServiceError::TransportClosed)));
    let error = result.unwrap_err();
    assert_eq!(error.code, ErrorCode::INTERNAL_ERROR);
    assert_eq!(error.message, "Transport closed");
    assert_eq!(error.data, None);
    assert_eq!(to_mcp_error(ServiceError::UnexpectedResponse).message, "Unexpected response type");
}

#[test]
fn requests_that_take_too_long_are_internal_errors() {
    let proxy = proxy(full_info());
    let result: Result<(), ErrorData> = proxy.forward(Awaited::Elapsed);
    let error = result.unwrap_err();
    assert_eq!(error.code, ErrorCode::INTERNAL_ERROR);
    assert_eq!(error.message, "upstream request timed out after 30s");
}

#[test]
fn timeouts_are_shown_as_they_are() {
    let proxy = ForwardingProxy::new(vec![()], full_info(), Duration::from_millis(1500));
    let error = proxy.forward::<()>(Awaited::Elapsed).unwrap_err();
    assert_eq!(error.message, "upstream request timed out after 1.5s");
    assert_eq!(*proxy.timeout(), Duration::from_millis(1500));
}

#[test]
fn stages_are_named() {
    assert_eq!(timeout_message(Stage::Request, "1s"), "upstream request timed out after 1s");
    assert_eq!(timeout_message(Stage::Send, "1s"), "upstream send timed out after 1s");
    assert_eq!(timeout_message(Stage::Response, "1s"), "upstream response timed out after 1s");
}

#[test]
fn call_tool_remote_error_becomes_error_result() {
    let proxy = proxy(full_info());
    let error = ServiceError::McpError(ErrorData::internal_error("tool failed", None));
    let text = error.to_string();
    let result = proxy.forward_tool_call(Awaited::Finished(Err(error)));
    assert_eq!(result.is_error, Some(true), "expected isError to be true");
    assert_eq!(failure(&result), Some(text.as_str()));
    assert!(text.contains("tool failed"));
}

#[test]
fn forwarded_tool_calls_are_answered() {
    let proxy = proxy(full_info());
    let answer = CallToolResult::success(vec![Content::text("echoed")]);
    assert_eq!(proxy.forward_tool_call(Awaited::Finished(Ok(answer.clone()))), answer);
    assert_eq!(
        failure(&proxy.forward_tool_call(Awaited::Elapsed)),
        Some("upstream request timed out after 30s")
    );
}

#[test]
fn tool_calls_are_refused_without_tools() {
    let proxy = proxy(ServerInfo::new(ServerCapabilities::default()));
    match proxy.begin_tool_call(Some(number(1)), &mut Turns::new()) {
        Err(error) => {
            assert_eq!(error.code, ErrorCode::METHOD_NOT_FOUND);
            assert_eq!(error.message, "tools/call");
        }
        Ok(_) => panic!("the call was not refused"),
    }
}

#[test]
fn tool_calls_are_forwarded_or_followed() {
    let proxy = proxy(full_info());
    let mut turns = Turns::new();
    match proxy.begin_tool_call(None, &mut turns) {
        Ok(ToolCall::Forward(peer)) => assert_eq!(*peer, "a"),
        _ => panic!("the call was not forwarded"),
    }
    match proxy.begin_tool_call(Some(number(5)), &mut turns) {
        Ok(ToolCall::Follow(peer, connection, token)) => {
            assert_eq!((*peer, connection), ("b", 1));
            assert_eq!(token, number(5));
        }
        _ => panic!("the call was not followed"),
    }
}

fn relayed(
    relay: &ProgressRelayMap<&'static str>,
    token: ProgressToken,
) -> Option<(&'static str, ProgressToken, f64)> {
    relay
        .on_progress(0, ProgressNotification { progress_token: token, body: 0.5 })
        .map(|(caller, sent)| (*caller, sent.progress_token, sent.body))
}

#[test]
fn followed_tool_calls_relay_progress_until_they_are_answered() {
    let proxy = proxy(full_info());
    let mut relay = new_progress_relay_map();
    let token = ProgressToken::Text("mine".to_string());
    let outcome = Awaited::Finished(Ok(number(7)));
    let sent = proxy.tool_call_sent(&mut relay, 0, "caller", token, outcome);
    let remote_token = sent.unwrap();
    assert_eq!(remote_token, number(7));
    assert_eq!(
        relayed(&relay, number(7)),
        Some(("caller", ProgressToken::Text("mine".to_string()), 0.5))
    );

    let answer = CallToolResult::success(vec![Content::text("echoed")]);
    let result = proxy.tool_call_answered(
        &mut relay,
        0,
        &remote_token,
        Awaited::Finished(Ok(ServerResult::CallToolResult(answer.clone()))),
    );
    assert_eq!(result, answer);
    assert_eq!(relayed(&relay, number(7)), None);
}

#[test]
fn calls_that_were_not_sent_relay_nothing() {
    let proxy = proxy(full_info());
    let mut relay = new_progress_relay_map();
    let result = proxy
        .tool_call_sent(
            &mut relay,
            0,
            "caller",
            number(1),
            Awaited::Finished(Err(ServiceError::TransportClosed)),
        )
        .unwrap_err();
    assert_eq!(failure(&result), Some("Transport closed"));
    let result =
        proxy.tool_call_sent(&mut relay, 0, "caller", number(1), Awaited::Elapsed).unwrap_err();
    assert_eq!(failure(&result), Some("upstream send timed out after 30s"));
    for n in 0..10 {
        assert_eq!(relayed(&relay, number(n)), None);
    }
}

#[test]
fn failed_calls_are_answered_and_relay_no_more() {
    let proxy = proxy(full_info());
    let outcomes = [
        (Awaited::Finished(Err(ServiceError::TransportClosed)), "Transport closed"),
        (Awaited::Elapsed, "upstream response timed out after 30s"),
        (
            Awaited::Finished(Ok(ServerResult::ListToolsResult(ListToolsResult::default()))),
            "unexpected response type from remote server",
        ),
    ];
    for (outcome, text) in outcomes {
        let mut relay = new_progress_relay_map();
        relay.register(0, number(3), "caller", number(1));
        let result = proxy.tool_call_answered(&mut relay, 0, &number(3), outcome);
        assert_eq!(failure(&result), Some(text));
        assert_eq!(relayed(&relay, number(3)), None);
    }
}

#[test]
fn notifications_find_their_own_callers() {
    let mut relay = new_progress_relay_map();
    relay.register(0, number(1), "first", number(11));
    relay.register(0, ProgressToken::Text("1".to_string()), "second", number(12));
    relay.register(0, number(2), "third", ProgressToken::Text("t".to_string()));
    assert_eq!(relayed(&relay, number(1)), Some(("first", number(11), 0.5)));
    assert_eq!(
        relayed(&relay, ProgressToken::Text("1".to_string())),
        Some(("second", number(12), 0.5))
    );
    relay.unregister(0, &number(1));
    assert_eq!(relayed(&relay, number(1)), None);
    assert_eq!(
        relayed(&relay, number(2)),
        Some(("third", ProgressToken::Text("t".to_string()), 0.5))
    );
    assert_eq!(relayed(&relay, number(3)), None);
}

#[test]
fn connections_are_kept_apart() {
    let proxy = proxy(full_info());
    let mut relay = new_progress_relay_map();
    relay.register(0, number(0), "first", number(1));
    relay.register(1, number(0), "second", number(2));
    let receiver = |relay: &ProgressRelayMap<&'static str>, connection: usize| {
        let notification = ProgressNotification { progress_token: number(0), body: () };
        relay.on_progress(connection, notification).map(|(caller, sent)| (*caller, sent.progress_token))
    };
    assert_eq!(receiver(&relay, 0), Some(("first", number(1))));
    assert_eq!(receiver(&relay, 1), Some(("second", number(2))));
    assert_eq!(receiver(&relay, 2), None);
    proxy.tool_call_answered(&mut relay, 0, &number(0), Awaited::Elapsed);
    assert_eq!(receiver(&relay, 0), None);
    assert_eq!(receiver(&relay, 1), Some(("second", number(2))));
}
