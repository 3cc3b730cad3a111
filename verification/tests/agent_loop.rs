//! Tests of permissions, the agent loop's decisions, and compaction,
//! including the end-to-end decision scenarios.

use localm::agent::{
    after_tool_failure, classify_response, estimate_tokens, is_garbage_text, loop_guard,
    needs_proactive_compaction, AgentConfig, AgentContext, AgentLoopConfig, ResponseClass,
    StopReason, ToolHistoryEntry,
};
use localm::compact::{apply_summary, build_summary_request, prune_messages, total_chars};
use localm::message::{Message, Role};
use localm::permissions::{
    get_tool_permission, is_internal_safe, resolve_permission, PermissionLevel, PermissionPolicy,
    PermissionResolution,
};
use localm::tools::{format_tool_result_for_system, ToolResult};

#[test]
fn test_agent_config_default() {
    let config = AgentConfig::default();
    assert!(config.enable_tools);
    assert!(config.enable_web_search);
    assert!(config.enable_filesystem);
    assert!(config.enable_file_write);
    assert!(config.enable_bash);
    assert!(config.enable_git);
    assert!(config.enable_web_fetch);
    assert!(config.enable_dev_tools);
    assert!(config.enable_system_tools);
}

#[test]
fn test_tool_permissions() {
    // Read-only
    assert_eq!(get_tool_permission("file_read"), PermissionLevel::ReadOnly);
    assert_eq!(get_tool_permission("grep"), PermissionLevel::ReadOnly);
    assert_eq!(get_tool_permission("git_status"), PermissionLevel::ReadOnly);
    assert_eq!(get_tool_permission("tree"), PermissionLevel::ReadOnly);
    assert_eq!(get_tool_permission("diff"), PermissionLevel::ReadOnly);
    // Network
    assert_eq!(get_tool_permission("web_search"), PermissionLevel::Network);
    assert_eq!(get_tool_permission("web_fetch"), PermissionLevel::Network);
    // Write
    assert_eq!(get_tool_permission("file_write"), PermissionLevel::WriteFile);
    assert_eq!(get_tool_permission("file_edit"), PermissionLevel::WriteFile);
    assert_eq!(get_tool_permission("file_create"), PermissionLevel::WriteFile);
    assert_eq!(get_tool_permission("find_replace"), PermissionLevel::WriteFile);
    // Execute
    assert_eq!(get_tool_permission("command"), PermissionLevel::ExecuteSafe);
    assert_eq!(get_tool_permission("bash"), PermissionLevel::ExecuteUnsafe);
    assert_eq!(get_tool_permission("git_commit"), PermissionLevel::ExecuteUnsafe);
    // Skill tools
    assert_eq!(get_tool_permission("skill_invoke"), PermissionLevel::ReadOnly);
    assert_eq!(get_tool_permission("skill_list"), PermissionLevel::ReadOnly);
    // External-server tools
    assert_eq!(get_tool_permission("mcp_github_list_repos"), PermissionLevel::Network);
    // Unknown names default to read-only.
    assert_eq!(get_tool_permission("mystery"), PermissionLevel::ReadOnly);
}

#[test]
fn test_permission_resolution() {
    let closed = PermissionPolicy { auto_approve_all: false, allowlist: Vec::new() };
    // Internal-safe tools are always approved.
    assert!(is_internal_safe("think"));
    assert_eq!(resolve_permission("think", &closed), PermissionResolution::Approved);
    // Auto-approve-all approves anything.
    let open_policy = PermissionPolicy { auto_approve_all: true, allowlist: Vec::new() };
    assert_eq!(resolve_permission("bash", &open_policy), PermissionResolution::Approved);
    // An allowlisted tool is approved.
    let listed = PermissionPolicy {
        auto_approve_all: false,
        allowlist: vec!["web_search".to_string()],
    };
    assert_eq!(resolve_permission("web_search", &listed), PermissionResolution::Approved);
    // Everything else waits for an interactive decision.
    assert_eq!(resolve_permission("bash", &closed), PermissionResolution::NeedsInteractive);
    assert_eq!(resolve_permission("unknown_tool", &closed), PermissionResolution::NeedsInteractive);
}

fn history_entry(tool: &str, params: &str, error: Option<&str>) -> ToolHistoryEntry {
    ToolHistoryEntry {
        tool_name: tool.to_string(),
        params_text: params.to_string(),
        result_message: None,
        error: error.map(|e| e.to_string()),
        timestamp: 0,
        duration_ms: 0,
    }
}

#[test]
fn test_stuck_detection() {
    // Three identical failed calls in a row terminate the run as stuck, and
    // it never exceeds the three attempts.
    let mut ctx = AgentContext::new();
    let cfg = AgentLoopConfig::default();
    let mut attempts = 0;
    while loop_guard(&ctx, false, 0, &cfg).is_none() {
        ctx.begin_iteration();
        attempts += 1;
        ctx.record_tool_failure(history_entry("file_read", "{\"path\":\"/gone\"}", Some("boom")));
    }
    assert_eq!(attempts, 3);
    assert_eq!(loop_guard(&ctx, false, 0, &cfg), Some(StopReason::Stuck));
    assert!(ctx.is_stuck());
}

#[test]
fn test_stuck_on_identical_calls() {
    let mut ctx = AgentContext::new();
    ctx.record_tool_success(history_entry("file_read", "{\"path\":\"/a\"}", None));
    ctx.record_tool_success(history_entry("file_read", "{\"path\":\"/a\"}", None));
    assert!(!ctx.is_stuck());
    ctx.record_tool_success(history_entry("file_read", "{\"path\":\"/a\"}", None));
    assert!(ctx.is_stuck());

    let mut varied = AgentContext::new();
    varied.record_tool_success(history_entry("file_read", "{\"path\":\"/a\"}", None));
    varied.record_tool_success(history_entry("file_read", "{\"path\":\"/b\"}", None));
    varied.record_tool_success(history_entry("file_read", "{\"path\":\"/a\"}", None));
    assert!(!varied.is_stuck());
}

#[test]
fn test_agent_termination_budgets() {
    let cfg = AgentLoopConfig::default();
    let mut ctx = AgentContext::new();
    // The wall clock stops a run at 300 seconds.
    assert_eq!(loop_guard(&ctx, false, 300, &cfg), Some(StopReason::TimeBudget));
    assert_eq!(loop_guard(&ctx, false, 299, &cfg), None);
    // The iteration budget stops it at max_iterations.
    for _ in 0..10 {
        ctx.begin_iteration();
    }
    assert_eq!(loop_guard(&ctx, false, 0, &cfg), Some(StopReason::IterationBudget));
    // Cancellation stops it at once.
    assert_eq!(loop_guard(&AgentContext::new(), true, 0, &cfg), Some(StopReason::Cancelled));
}

#[test]
fn test_compaction_bound() {
    // At most two compactions per run: after two, the loop may not compact
    // again.
    let mut ctx = AgentContext::new();
    assert!(ctx.can_compact());
    ctx.record_compaction();
    assert!(ctx.can_compact());
    ctx.record_compaction();
    assert!(!ctx.can_compact());
    assert_eq!(ctx.compression_count, 2);
}

#[test]
fn test_garbage_detection() {
    let repeated = "toolresult: fine toolresult: fine toolresult: fine ".repeat(5);
    assert!(is_garbage_text(&repeated));

    let glued = "x".repeat(400);
    assert!(is_garbage_text(&glued));

    let healthy = "This is a normal answer with ordinary words in it. ".repeat(10);
    assert!(!is_garbage_text(&healthy));
}

#[test]
fn test_classify_response() {
    match classify_response("{\"tool\":\"file_list\",\"params\":{\"path\":\"/tmp\"}}", 0) {
        ResponseClass::Call(call) => assert_eq!(call.tool, "file_list"),
        _ => panic!("expected a call"),
    }
    assert!(matches!(
        classify_response("{\"tool\":\"file_read\", \"params\": {", 0),
        ResponseClass::MalformedRetry
    ));
    // With two errors standing, a malformed attempt becomes the final answer.
    assert!(matches!(
        classify_response("{\"tool\":\"file_read\", \"params\": {", 2),
        ResponseClass::FinalAnswer
    ));
    assert!(matches!(classify_response("All done.", 0), ResponseClass::FinalAnswer));
}

#[test]
fn test_tool_round_trip() {
    // The model asks for a listing; the registry's stub answers; the loop
    // records one history entry, injects one synthetic system message, and
    // the next turn is a final answer.
    let mut ctx = AgentContext::new();
    let model_text = "{\"tool\":\"file_list\",\"params\":{\"path\":\"/tmp\"}}";
    let call = match classify_response(model_text, ctx.consecutive_errors) {
        ResponseClass::Call(call) => call,
        _ => panic!("expected a call"),
    };
    assert_eq!(get_tool_permission(&call.tool), PermissionLevel::ReadOnly);
    let policy = PermissionPolicy { auto_approve_all: true, allowlist: Vec::new() };
    assert_eq!(resolve_permission(&call.tool, &policy), PermissionResolution::Approved);

    let result = ToolResult {
        success: true,
        data: "{\"files\":[\"a\",\"b\",\"c\"]}".to_string(),
        message: "3 files".to_string(),
    };
    ctx.record_tool_success(history_entry(&call.tool, model_text, None));
    assert_eq!(ctx.tool_history.len(), 1);
    assert_eq!(ctx.consecutive_errors, 0);

    let system_message = format_tool_result_for_system(&call.tool, &result);
    assert!(system_message.contains("3 files"));

    let final_turn = "The directory holds a, b, and c.";
    assert!(matches!(
        classify_response(final_turn, ctx.consecutive_errors),
        ResponseClass::FinalAnswer
    ));
}

#[test]
fn test_permission_denied_flow() {
    // An unsafe tool with auto-approve off needs interaction; a denial is
    // recorded in history and the model is nudged, with no tool executed.
    let policy = PermissionPolicy { auto_approve_all: false, allowlist: Vec::new() };
    assert_eq!(get_tool_permission("bash"), PermissionLevel::ExecuteUnsafe);
    assert_eq!(resolve_permission("bash", &policy), PermissionResolution::NeedsInteractive);

    let mut ctx = AgentContext::new();
    ctx.record_tool_failure(history_entry("bash", "{\"command\":\"rm -rf /\"}", Some("Permission denied")));
    assert_eq!(ctx.tool_history.len(), 1);
    assert_eq!(ctx.tool_history[0].error.as_deref(), Some("Permission denied"));
    assert_eq!(ctx.consecutive_errors, 1);
    assert!(after_tool_failure(ctx.consecutive_errors));
}

#[test]
fn test_truncation_and_compaction() {
    // A conversation past three quarters of the context triggers the
    // proactive compaction once, and pruning shrinks it.
    let big = Message {
        role: Role::System,
        content: "s".repeat(3000),
        timestamp: 0,
    };
    let msgs: Vec<Message> = (0..8).map(|_| big.clone()).collect();
    let estimate = estimate_tokens(&msgs);
    assert_eq!(estimate, 8 * 3000 / 4);
    assert!(needs_proactive_compaction(estimate, 4096, 0));
    // A second compaction does not fire proactively.
    assert!(!needs_proactive_compaction(estimate, 4096, 1));

    let pruned = prune_messages(&msgs);
    assert_eq!(pruned.len(), 5);
    assert_eq!(pruned[0].role, Role::System);
    assert!(pruned[0].content.contains("4 earlier messages compacted"));
    assert!(total_chars(&pruned) < total_chars(&msgs));
    assert!(pruned[1].content.contains("[Content truncated - 3000 characters]"));
}

#[test]
fn test_summary_request_and_apply() {
    let msgs = vec![
        Message { role: Role::User, content: "first question".to_string(), timestamp: 0 },
        Message { role: Role::System, content: "tool result".to_string(), timestamp: 0 },
        Message { role: Role::Assistant, content: "first answer".to_string(), timestamp: 0 },
        Message { role: Role::User, content: "second question".to_string(), timestamp: 0 },
        Message { role: Role::Assistant, content: "partial".to_string(), timestamp: 0 },
    ];
    let request = build_summary_request(&msgs);
    assert!(request.contains("[U]: first question"));
    assert!(request.contains("[A]: first answer"));
    assert!(!request.contains("tool result"));
    assert!(!request.contains("partial"));

    let replaced = apply_summary(&msgs, "the gist".to_string());
    assert_eq!(replaced.len(), 2);
    assert_eq!(replaced[0].role, Role::System);
    assert_eq!(replaced[0].content, "the gist");
    assert_eq!(replaced[1].content, "partial");
}

#[test]
fn test_hello_world_turn() {
    // A single user turn with a plain reply: the conversation gains exactly
    // one assistant message holding the streamed text.
    let mut conv = localm::conversation::Conversation::new(Some(Message::new(
        Role::User,
        "Say 'ok'",
    )));
    let mut decoder = localm::engine::Decoder::new(64);
    let mut streamed = String::new();
    for step in [
        localm::engine::DecodeStep::Sampled(b"'o".to_vec()),
        localm::engine::DecodeStep::Sampled(b"k'".to_vec()),
    ] {
        for item in decoder.step(false, step) {
            if let Some(t) = item.as_token() {
                streamed.push_str(t);
            }
        }
    }
    let last = decoder.step(false, localm::engine::DecodeStep::EndMarker);
    assert_eq!(last.last(), Some(&localm::stream::StreamToken::Done));
    assert!(streamed.contains("ok"));
    conv.add_message(Message::new(Role::Assistant, &streamed));
    assert_eq!(conv.messages.len(), 2);
    assert_eq!(conv.messages[1].role, Role::Assistant);
}

#[test]
fn test_worker_drop_order() {
    // The context never survives its model: every command that clears the
    // model leaves no context behind.
    let mut worker = localm::engine::WorkerState::new(8);
    worker.on_init(true);
    assert!(worker.backend_ready);
    worker.begin_load();
    worker.finish_load(localm::engine::LoadedModelInfo {
        path: "m.gguf".to_string(),
        vocab_size: 32000,
        embedding_dim: 4096,
        context_length: 32768,
        param_count: 7_000_000_000,
        size_bytes: 4_000_000_000,
    });
    let params = localm::params::GenerationParams::default();
    let plan = worker.prepare_context(1000, &params).unwrap();
    assert!(!plan.reuse);
    assert!(worker.ctx.is_some());
    worker.on_unload();
    assert!(worker.model.is_none());
    assert!(worker.ctx.is_none());
}

#[test]
fn test_garbage_fake_tool_markers() {
    let fake = "\u{2705} pdf_read: done \u{2705} pdf_read: done \u{2705} pdf_read: done ";
    assert!(is_garbage_text(fake));
    let french = "Contenu du PDF: a Contenu du PDF: b Contenu du PDF: c";
    assert!(is_garbage_text(french));
}

#[test]
fn test_drop_trailing_empty_assistant() {
    let mut msgs = vec![
        Message { role: Role::User, content: "hi".to_string(), timestamp: 0 },
        Message { role: Role::Assistant, content: String::new(), timestamp: 0 },
    ];
    localm::agent::drop_trailing_empty_assistant(&mut msgs);
    assert_eq!(msgs.len(), 1);
    // A non-empty or non-assistant tail stays.
    localm::agent::drop_trailing_empty_assistant(&mut msgs);
    assert_eq!(msgs.len(), 1);
}
