//! Tests of tool-call extraction, UTF-8 re-assembly, the streaming decoder,
//! tools, and prompts.

use localm::engine::{DecodeStep, Decoder};
use localm::extract::{extract_tool_call, looks_like_malformed_call, params_lookup, ParamValue};
use localm::prompts::{build_title_generation_prompt, build_tool_instructions_advanced, get_tool_example};
use localm::stream::StreamToken;
use localm::tools::{
    assemble_pdf_text, cap_tool_result, command_request, escape_pdf_text,
    format_tool_result_for_system, CommandTool, FileListTool, FileReadTool, PdfMergeTool,
    ToolError, ToolInfo, ToolRegistry, ToolResult,
};
use localm::utf8_stream::Utf8Assembler;

#[test]
fn test_extract_json_call() {
    let text = "{\"tool\":\"file_list\",\"params\":{\"path\":\"/tmp\"}}";
    let call = extract_tool_call(text).unwrap();
    assert_eq!(call.tool, "file_list");
    assert_eq!(call.params.len(), 1);
    assert_eq!(call.params[0].0, "path");
    assert_eq!(call.params[0].1, ParamValue::Text("/tmp".to_string()));
}

#[test]
fn test_extract_json_call_spaced() {
    let text = "Sure, let me list them.\n```json\n{ \"tool\" : \"file_list\", \"params\" : { \"path\" : \"/tmp\", \"recursive\" : true } }\n```";
    let call = extract_tool_call(text).unwrap();
    assert_eq!(call.tool, "file_list");
    assert_eq!(call.params.len(), 2);
    assert_eq!(call.params[1].0, "recursive");
    assert_eq!(call.params[1].1, ParamValue::Raw("true ".to_string()));
}

#[test]
fn test_extract_xml_call() {
    let text = "<use_tool name=\"file_write\">\n    <param name=\"path\">out.txt</param>\n    <param name=\"content\">Line 1\nLine 2</param>\n</use_tool>";
    let call = extract_tool_call(text).unwrap();
    assert_eq!(call.tool, "file_write");
    assert_eq!(call.params.len(), 2);
    assert_eq!(call.params[0].0, "path");
    assert_eq!(call.params[0].1, ParamValue::Text("out.txt".to_string()));
    assert_eq!(call.params[1].0, "content");
    assert_eq!(call.params[1].1, ParamValue::Text("Line 1\nLine 2".to_string()));
}

#[test]
fn test_extract_none_on_plain_text() {
    assert!(extract_tool_call("The answer is 4.").is_none());
    assert!(!looks_like_malformed_call("The answer is 4."));
}

#[test]
fn test_malformed_tool_call() {
    // A truncated JSON call is detected as a malformed attempt, not a final
    // answer.
    let text = "{\"tool\":\"file_read\"";
    assert!(extract_tool_call(text).is_none());
    assert!(!looks_like_malformed_call(text));

    let with_params = "{\"tool\":\"file_read\", \"params\": {\"path\": ";
    assert!(extract_tool_call(with_params).is_none());
    assert!(looks_like_malformed_call(with_params));
}

#[test]
fn test_params_lookup_last_wins() {
    let params = vec![
        ("k".to_string(), ParamValue::Text("first".to_string())),
        ("k".to_string(), ParamValue::Text("second".to_string())),
    ];
    match params_lookup(&params, "k") {
        Some(ParamValue::Text(v)) => assert_eq!(v, "second"),
        _ => panic!("expected the last value"),
    }
    assert!(params_lookup(&params, "missing").is_none());
}

#[test]
fn test_utf8_reassembly_split_chunks() {
    // The bytes of a text split in the middle of a character still come out
    // as exactly that text.
    let text = "h\u{e9}llo \u{2192} ok";
    let bytes = text.as_bytes();
    let mut assembler = Utf8Assembler::new();
    let mut out = String::new();
    for chunk in bytes.chunks(1) {
        if let Some(piece) = assembler.push_bytes(chunk) {
            out.push_str(&piece);
        }
    }
    if let Some(piece) = assembler.flush() {
        out.push_str(&piece);
    }
    assert_eq!(out, text);
}

#[test]
fn test_utf8_reassembly_incomplete_tail_dropped() {
    // An incomplete trailing character is discarded at flush, never emitted.
    let mut assembler = Utf8Assembler::new();
    let mut out = String::new();
    if let Some(piece) = assembler.push_bytes(&[b'o', b'k', 0xE2, 0x86]) {
        out.push_str(&piece);
    }
    assert_eq!(out, "ok");
    assert!(assembler.flush().is_none());
}

#[test]
fn test_decoder_stop_latency() {
    // After the stop flag is observed, at most one further Token comes out
    // before the terminal Done.
    let mut decoder = Decoder::new(100);
    let first = decoder.step(false, DecodeStep::Sampled(b"hello ".to_vec()));
    assert_eq!(first.len(), 1);
    assert!(first[0].is_token());

    let stopped = decoder.step(true, DecodeStep::Sampled(b"world".to_vec()));
    let tokens = stopped.iter().filter(|t| t.is_token()).count();
    assert!(tokens <= 1);
    assert_eq!(stopped.last(), Some(&StreamToken::Done));
}

#[test]
fn test_decoder_end_marker() {
    let mut decoder = Decoder::new(100);
    let mut text = String::new();
    for out in [
        decoder.step(false, DecodeStep::Sampled(b"Say '".to_vec())),
        decoder.step(false, DecodeStep::Sampled(b"ok".to_vec())),
        decoder.step(false, DecodeStep::Sampled(b"'".to_vec())),
    ] {
        for item in &out {
            if let Some(t) = item.as_token() {
                text.push_str(t);
            }
        }
    }
    let last = decoder.step(false, DecodeStep::EndMarker);
    for item in &last {
        if let Some(t) = item.as_token() {
            text.push_str(t);
        }
    }
    assert!(text.contains("ok"));
    assert_eq!(last.last(), Some(&StreamToken::Done));
}

#[test]
fn test_decoder_truncation() {
    let mut decoder = Decoder::new(2);
    let first = decoder.step(false, DecodeStep::Sampled(b"a".to_vec()));
    assert!(first.iter().all(|t| t.is_token()));
    let second = decoder.step(false, DecodeStep::Sampled(b"b".to_vec()));
    assert_eq!(
        second.last(),
        Some(&StreamToken::Truncated { tokens_generated: 2, max_tokens: 2 })
    );
}

#[test]
fn test_tool_registry_last_write_wins() {
    let mut registry = ToolRegistry::new();
    registry.register(ToolInfo {
        name: "file_read".to_string(),
        description: "old".to_string(),
        parameters_schema: "{}".to_string(),
    });
    registry.register(ToolInfo {
        name: "file_read".to_string(),
        description: "new".to_string(),
        parameters_schema: "{}".to_string(),
    });
    assert_eq!(registry.count(), 1);
    assert_eq!(registry.get("file_read").unwrap().description, "new");
    assert!(registry.get("missing").is_none());
}

#[test]
fn test_command_request() {
    assert!(command_request("ls -la").is_ok());
    assert!(matches!(
        command_request(""),
        Err(ToolError::InvalidParameters(_))
    ));
    assert!(matches!(
        command_request("rm -rf /"),
        Err(ToolError::PermissionDenied(_))
    ));
}

#[test]
fn test_file_tools_request() {
    let params = vec![("path".to_string(), ParamValue::Text("/tmp".to_string()))];
    assert_eq!(FileReadTool.request(&params).unwrap(), "/tmp");
    assert_eq!(FileListTool.request(&params).unwrap(), "/tmp");
    let empty: Vec<(String, ParamValue)> = Vec::new();
    assert!(matches!(
        FileReadTool.request(&empty),
        Err(ToolError::InvalidParameters(_))
    ));
    assert_eq!(CommandTool.name(), "command");
}

#[test]
fn test_pdf_merge_request() {
    let one = vec!["a.pdf".to_string()];
    assert!(matches!(
        PdfMergeTool.request(&one),
        Err(ToolError::InvalidParameters(_))
    ));
    let two = vec!["a.pdf".to_string(), "b.pdf".to_string()];
    assert!(PdfMergeTool.request(&two).is_ok());
}

#[test]
fn test_escape_pdf_text() {
    assert_eq!(escape_pdf_text("a(b)c\\d"), "a\\(b\\)c\\\\d");
}

#[test]
fn test_assemble_pdf_text() {
    let pages = vec![
        "First page".to_string(),
        "   ".to_string(),
        "Third page".to_string(),
    ];
    let (text, count) = assemble_pdf_text(&pages, &None);
    assert_eq!(count, 2);
    assert!(text.contains("--- Page 1 ---\nFirst page"));
    assert!(text.contains("--- Page 3 ---\nThird page"));

    let (filtered, fcount) = assemble_pdf_text(&pages, &Some(vec![2]));
    assert_eq!(fcount, 1);
    assert!(filtered.contains("--- Page 3 ---"));
    assert!(!filtered.contains("--- Page 1 ---"));

    let blank = vec!["  ".to_string()];
    let (fallback, zero) = assemble_pdf_text(&blank, &None);
    assert_eq!(zero, 0);
    assert!(fallback.contains("No extractable text"));
}

#[test]
fn test_cap_tool_result() {
    let long = "x".repeat(5000);
    let capped = cap_tool_result(&long);
    assert!(capped.starts_with(&"x".repeat(3500)));
    assert!(capped.contains("[Result truncated: 5000 characters total]"));
    assert_eq!(cap_tool_result("short"), "short");
}

#[test]
fn test_format_tool_result() {
    let result = ToolResult {
        success: true,
        data: "{\"files\":[\"a\",\"b\",\"c\"]}".to_string(),
        message: "3 files".to_string(),
    };
    let formatted = format_tool_result_for_system("file_list", &result);
    assert_eq!(
        formatted,
        "[TOOL_RESULT] file_list: 3 files\n{\"files\":[\"a\",\"b\",\"c\"]}"
    );
}

#[test]
fn test_build_tool_instructions() {
    let tools = vec![ToolInfo {
        name: "web_search".to_string(),
        description: "Search the web".to_string(),
        parameters_schema:
            "{\"type\": \"object\", \"properties\": {\"query\": {\"type\": \"string\"}}}"
                .to_string(),
    }];

    let instructions = build_tool_instructions_advanced(&tools);
    assert!(instructions.contains("web_search"));
    assert!(instructions.contains("Search the web"));
}

#[test]
fn test_get_tool_example() {
    assert!(get_tool_example("web_search").unwrap().contains("web_search"));
    assert!(get_tool_example("no_such_tool").is_none());
}

#[test]
fn test_title_prompt_truncates() {
    let long_user = "u".repeat(300);
    let prompt = build_title_generation_prompt(&long_user, "short reply");
    assert!(prompt.contains(&"u".repeat(200)));
    assert!(!prompt.contains(&"u".repeat(201)));
    assert!(prompt.ends_with("\n\nTitle:"));
}

#[test]
fn test_xml_round_trip_render() {
    let params = vec![
        ("path".to_string(), ParamValue::Text("out.txt".to_string())),
        ("content".to_string(), ParamValue::Text("Line 1\nLine 2".to_string())),
    ];
    let rendered = localm::extract::render_xml_call("file_write", &params);
    let call = extract_tool_call(&rendered).unwrap();
    assert_eq!(call.tool, "file_write");
    assert_eq!(call.params, params);
}

#[test]
fn test_json_round_trip_render() {
    let params = vec![("query".to_string(), ParamValue::Text("latest news".to_string()))];
    let rendered = localm::extract::render_json_call("web_search", &params);
    let call = extract_tool_call(&rendered).unwrap();
    assert_eq!(call.tool, "web_search");
    assert_eq!(call.params, params);
}

#[test]
fn test_extract_target() {
    let params = vec![
        ("query".to_string(), ParamValue::Text("weather".to_string())),
        ("path".to_string(), ParamValue::Text("/tmp".to_string())),
    ];
    assert_eq!(localm::extract::extract_target(&params), "/tmp");
    let other = vec![("depth".to_string(), ParamValue::Raw("3".to_string()))];
    assert_eq!(localm::extract::extract_target(&other), "{\"depth\": 3}");
}

#[test]
fn test_tool_registry_preserves_other_entries() {
    // A later registration leaves every other name's entry untouched, so a
    // registration is observed by all later lookups.
    let mut registry = ToolRegistry::new();
    registry.register(ToolInfo {
        name: "file_read".to_string(),
        description: "reads".to_string(),
        parameters_schema: "{}".to_string(),
    });
    registry.register(ToolInfo {
        name: "file_list".to_string(),
        description: "lists".to_string(),
        parameters_schema: "{}".to_string(),
    });
    registry.register(ToolInfo {
        name: "file_read".to_string(),
        description: "reads v2".to_string(),
        parameters_schema: "{}".to_string(),
    });
    assert_eq!(registry.count(), 2);
    assert_eq!(registry.get("file_read").unwrap().description, "reads v2");
    assert_eq!(registry.get("file_list").unwrap().description, "lists");
}

#[test]
fn test_prefill_chunks() {
    let chunks = localm::engine::prefill_chunks(10, 4);
    assert_eq!(chunks, vec![(0, 4), (4, 8), (8, 10)]);
    assert!(localm::engine::prefill_chunks(0, 4).is_empty());
    assert_eq!(localm::engine::prefill_chunks(3, 4), vec![(0, 3)]);
    assert!(localm::engine::wants_logits(9, 10));
    assert!(!localm::engine::wants_logits(8, 10));
}

#[test]
fn test_decoder_truncation_flushes_exactly() {
    // At the budget, the step emits the reassembled text, then the flushed
    // remainder, then the terminal, and nothing else.
    let mut decoder = Decoder::new(1);
    let out = decoder.step(false, DecodeStep::Sampled(b"ab".to_vec()));
    assert_eq!(
        out,
        vec![
            StreamToken::Token("ab".to_string()),
            StreamToken::Truncated { tokens_generated: 1, max_tokens: 1 },
        ]
    );

    // A trailing incomplete character is flushed as its own piece only when
    // it completes; an incomplete one is discarded, leaving just the
    // terminal after the decoded prefix.
    let mut partial = Decoder::new(1);
    let out = partial.step(false, DecodeStep::Sampled(vec![b'o', b'k', 0xE2, 0x86]));
    assert_eq!(
        out,
        vec![
            StreamToken::Token("ok".to_string()),
            StreamToken::Truncated { tokens_generated: 1, max_tokens: 1 },
        ]
    );
}
