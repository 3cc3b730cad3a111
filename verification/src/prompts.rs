//! The dynamic prompt system: system preamble, tool instructions, context
//! reminders, reflection after tool calls, compression and title prompts.

use vstd::prelude::*;

use crate::agent::AgentContext;
use crate::message::{Message, Role};
use crate::text::{append_str, chars_to_string, spec_decimal, str_chars, subrange_chars, u64_to_string};
use crate::tools::ToolInfo;

verus! {

/// The agent's identity section of the system preamble.
pub const AGENT_IDENTITY: &'static str = "## Identity\nYou are an AI assistant with autonomous agent capabilities. You can:\n- Think and plan before acting\n- Read, create, edit, delete and move files\n- Execute shell commands\n- Perform git operations\n- Search code and the web\n- Compare files and do multi-file find-and-replace\n- Inspect the system\n- Iterate and improve your responses\n\nYou work autonomously but ask for confirmation for dangerous actions.\nYou prefer editing existing files over full rewrites.\n";

/// Instructions for the model's private reasoning.
pub const THINKING_INSTRUCTIONS: &'static str = "## Thinking Mode\nBefore each important action, think inside <thinking> tags about the objective, the information needed, the right tool, and the risks. Thinking tags must never appear in the response to the user.\n\n## Honesty\nWhen uncertain, say so; never fabricate facts, file contents, or command output.\n\n## Error Handling\nNever stop after a single error: try another approach, and after repeated failures explain the problem and propose alternatives.\n";

/// Instructions for planning multi-step work.
pub const PLANNING_INSTRUCTIONS: &'static str = "## Planning\nFor complex tasks: analyze the request, make an ordered task list, execute the tasks one by one, verify results, and summarize at the end.\n";

/// The header of the tool instructions: the two invocation forms and the
/// rules against fabricated tool results.
pub const TOOL_HEADER: &'static str = "## Available Tools\n\n## Tool Invocation Formats\n\nPrefer the XML form for code or multi-line content:\n<use_tool name=\"tool_name\">\n    <param name=\"param_name\">Content here...</param>\n</use_tool>\n\nUse the JSON form for simple calls:\n{\"tool\": \"tool_name\", \"params\": {\"key\": \"value\"}}\n\n## Rules\n- Never generate fake tool results; the system executes tools, not you.\n- After requesting a tool, wait for the system message carrying [TOOL_RESULT].\n- Only after that system response can you confirm success.\n";

/// The worked example shown for a known tool, when there is one.
pub open spec fn spec_tool_example(name: Seq<char>) -> Option<Seq<char>> {
    if name == "web_search"@ {
        Some("{\"tool\": \"web_search\", \"params\": {\"query\": \"latest news\"}}"@)
    } else if name == "file_read"@ {
        Some("{\"tool\": \"file_read\", \"params\": {\"path\": \"src/main.rs\"}}"@)
    } else if name == "file_list"@ {
        Some("{\"tool\": \"file_list\", \"params\": {\"path\": \".\"}}"@)
    } else if name == "file_write"@ {
        Some(
            "<use_tool name=\"file_write\">\n    <param name=\"path\">output.txt</param>\n    <param name=\"content\">Line 1\nLine 2</param>\n</use_tool>"@,
        )
    } else if name == "file_edit"@ {
        Some(
            "<use_tool name=\"file_edit\">\n    <param name=\"path\">src/main.rs</param>\n    <param name=\"old_string\">fn old_name()</param>\n    <param name=\"new_string\">fn new_name()</param>\n</use_tool>"@,
        )
    } else if name == "grep"@ {
        Some("{\"tool\": \"grep\", \"params\": {\"pattern\": \"fn main\", \"path\": \"./src\"}}"@)
    } else if name == "glob"@ {
        Some("{\"tool\": \"glob\", \"params\": {\"pattern\": \"**/*.rs\"}}"@)
    } else if name == "bash"@ {
        Some("{\"tool\": \"bash\", \"params\": {\"command\": \"cargo build 2>&1\", \"timeout_secs\": 120}}"@)
    } else if name == "git_status"@ {
        Some("{\"tool\": \"git_status\", \"params\": {}}"@)
    } else if name == "git_diff"@ {
        Some("{\"tool\": \"git_diff\", \"params\": {\"staged\": false}}"@)
    } else if name == "git_log"@ {
        Some("{\"tool\": \"git_log\", \"params\": {\"count\": 10}}"@)
    } else if name == "git_commit"@ {
        Some("{\"tool\": \"git_commit\", \"params\": {\"message\": \"feat: add new feature\"}}"@)
    } else if name == "web_fetch"@ {
        Some("{\"tool\": \"web_fetch\", \"params\": {\"url\": \"https://api.example.com/data\"}}"@)
    } else if name == "diff"@ {
        Some("{\"tool\": \"diff\", \"params\": {\"file_a\": \"old.rs\", \"file_b\": \"new.rs\"}}"@)
    } else if name == "find_replace"@ {
        Some(
            "{\"tool\": \"find_replace\", \"params\": {\"search\": \"old_name\", \"replace\": \"new_name\", \"path\": \"./src\"}}"@,
        )
    } else if name == "tree"@ {
        Some("{\"tool\": \"tree\", \"params\": {\"path\": \".\", \"max_depth\": 3}}"@)
    } else if name == "which"@ {
        Some("{\"tool\": \"which\", \"params\": {\"command\": \"cargo\"}}"@)
    } else if name == "system_info"@ {
        Some("{\"tool\": \"system_info\", \"params\": {}}"@)
    } else if name == "think"@ {
        Some("{\"tool\": \"think\", \"params\": {\"thought\": \"I need to analyze the code first...\"}}"@)
    } else if name == "pdf_read"@ {
        Some("{\"tool\": \"pdf_read\", \"params\": {\"path\": \"report.pdf\"}}"@)
    } else if name == "command"@ {
        Some("{\"tool\": \"command\", \"params\": {\"command\": \"ls -la\", \"timeout_secs\": 30}}"@)
    } else {
        None
    }
}

/// A worked example of calling a common tool, when one is on file.
pub fn get_tool_example(tool_name: &str) -> (r: Option<&'static str>)
    ensures
        match r {
            Some(e) => spec_tool_example(tool_name@) == Some(e@),
            None => spec_tool_example(tool_name@) is None,
        },
{
    if crate::extract::str_equal(tool_name, "web_search") {
        Some("{\"tool\": \"web_search\", \"params\": {\"query\": \"latest news\"}}")
    } else if crate::extract::str_equal(tool_name, "file_read") {
        Some("{\"tool\": \"file_read\", \"params\": {\"path\": \"src/main.rs\"}}")
    } else if crate::extract::str_equal(tool_name, "file_list") {
        Some("{\"tool\": \"file_list\", \"params\": {\"path\": \".\"}}")
    } else if crate::extract::str_equal(tool_name, "file_write") {
        Some(
            "<use_tool name=\"file_write\">\n    <param name=\"path\">output.txt</param>\n    <param name=\"content\">Line 1\nLine 2</param>\n</use_tool>",
        )
    } else if crate::extract::str_equal(tool_name, "file_edit") {
        Some(
            "<use_tool name=\"file_edit\">\n    <param name=\"path\">src/main.rs</param>\n    <param name=\"old_string\">fn old_name()</param>\n    <param name=\"new_string\">fn new_name()</param>\n</use_tool>",
        )
    } else if crate::extract::str_equal(tool_name, "grep") {
        Some("{\"tool\": \"grep\", \"params\": {\"pattern\": \"fn main\", \"path\": \"./src\"}}")
    } else if crate::extract::str_equal(tool_name, "glob") {
        Some("{\"tool\": \"glob\", \"params\": {\"pattern\": \"**/*.rs\"}}")
    } else if crate::extract::str_equal(tool_name, "bash") {
        Some("{\"tool\": \"bash\", \"params\": {\"command\": \"cargo build 2>&1\", \"timeout_secs\": 120}}")
    } else if crate::extract::str_equal(tool_name, "git_status") {
        Some("{\"tool\": \"git_status\", \"params\": {}}")
    } else if crate::extract::str_equal(tool_name, "git_diff") {
        Some("{\"tool\": \"git_diff\", \"params\": {\"staged\": false}}")
    } else if crate::extract::str_equal(tool_name, "git_log") {
        Some("{\"tool\": \"git_log\", \"params\": {\"count\": 10}}")
    } else if crate::extract::str_equal(tool_name, "git_commit") {
        Some("{\"tool\": \"git_commit\", \"params\": {\"message\": \"feat: add new feature\"}}")
    } else if crate::extract::str_equal(tool_name, "web_fetch") {
        Some("{\"tool\": \"web_fetch\", \"params\": {\"url\": \"https://api.example.com/data\"}}")
    } else if crate::extract::str_equal(tool_name, "diff") {
        Some("{\"tool\": \"diff\", \"params\": {\"file_a\": \"old.rs\", \"file_b\": \"new.rs\"}}")
    } else if crate::extract::str_equal(tool_name, "find_replace") {
        Some(
            "{\"tool\": \"find_replace\", \"params\": {\"search\": \"old_name\", \"replace\": \"new_name\", \"path\": \"./src\"}}",
        )
    } else if crate::extract::str_equal(tool_name, "tree") {
        Some("{\"tool\": \"tree\", \"params\": {\"path\": \".\", \"max_depth\": 3}}")
    } else if crate::extract::str_equal(tool_name, "which") {
        Some("{\"tool\": \"which\", \"params\": {\"command\": \"cargo\"}}")
    } else if crate::extract::str_equal(tool_name, "system_info") {
        Some("{\"tool\": \"system_info\", \"params\": {}}")
    } else if crate::extract::str_equal(tool_name, "think") {
        Some("{\"tool\": \"think\", \"params\": {\"thought\": \"I need to analyze the code first...\"}}")
    } else if crate::extract::str_equal(tool_name, "pdf_read") {
        Some("{\"tool\": \"pdf_read\", \"params\": {\"path\": \"report.pdf\"}}")
    } else if crate::extract::str_equal(tool_name, "command") {
        Some("{\"tool\": \"command\", \"params\": {\"command\": \"ls -la\", \"timeout_secs\": 30}}")
    } else {
        None
    }
}

/// One tool's block in the instruction list: its name in bold, its
/// description, its schema, and a worked example where one is on file.
pub open spec fn spec_tool_block(name: Seq<char>, description: Seq<char>, schema: Seq<char>)
    -> Seq<char> {
    let base = "**"@ + name + "**\n  Description: "@ + description + "\n  Parameters: "@ + schema
        + "\n"@;
    match spec_tool_example(name) {
        Some(e) => base + "  Example: "@ + e + "\n\n"@,
        None => base + "\n"@,
    }
}

/// The instruction blocks of a tool list, in order.
pub open spec fn spec_tool_blocks(tools: Seq<ToolInfo>) -> Seq<char>
    decreases tools.len(),
{
    if tools.len() == 0 {
        Seq::empty()
    } else {
        spec_tool_blocks(tools.drop_last()) + spec_tool_block(
            tools.last().name@,
            tools.last().description@,
            tools.last().parameters_schema@,
        )
    }
}

/// The full tool instructions: nothing for an empty list, else the header,
/// a list heading, and one block per tool.
pub open spec fn spec_tool_instructions(tools: Seq<ToolInfo>) -> Seq<char> {
    if tools.len() == 0 {
        Seq::empty()
    } else {
        TOOL_HEADER@ + "\n### Tool List:\n\n"@ + spec_tool_blocks(tools)
    }
}

/// Build the tool instructions: the invocation formats, the rules, and each
/// tool's name, description, schema, and example.
pub fn build_tool_instructions_advanced(tools: &Vec<ToolInfo>) -> (r: String)
    ensures
        r@ == spec_tool_instructions(tools@),
{
    if tools.len() == 0 {
        return String::new();
    }
    let mut out: String = TOOL_HEADER.to_owned();
    append_str(&mut out, "\n### Tool List:\n\n");
    let mut i: usize = 0;
    proof {
        assert(tools@.take(0) =~= Seq::<ToolInfo>::empty());
    }
    while i < tools.len()
        invariant
            i <= tools@.len(),
            out@ == TOOL_HEADER@ + "\n### Tool List:\n\n"@ + spec_tool_blocks(tools@.take(i as int)),
        decreases tools@.len() - i,
    {
        let t = &tools[i];
        proof {
            assert(tools@.take(i + 1 as int).drop_last() =~= tools@.take(i as int));
            assert(tools@.take(i + 1 as int).last() == tools@[i as int]);
        }
        append_str(&mut out, "**");
        append_str(&mut out, t.name.as_str());
        append_str(&mut out, "**\n  Description: ");
        append_str(&mut out, t.description.as_str());
        append_str(&mut out, "\n  Parameters: ");
        append_str(&mut out, t.parameters_schema.as_str());
        append_str(&mut out, "\n");
        match get_tool_example(t.name.as_str()) {
            Some(e) => {
                append_str(&mut out, "  Example: ");
                append_str(&mut out, e);
                append_str(&mut out, "\n\n");
            },
            None => {
                append_str(&mut out, "\n");
            },
        }
        i = i + 1;
    }
    proof {
        assert(tools@.take(tools@.len() as int) =~= tools@);
    }
    out
}

/// The context reminder's exact text: the iteration number, the elapsed
/// time past 30 seconds, the error streak, and a warning when the run
/// repeats itself.
pub open spec fn spec_context_reminder(ctx: AgentContext, elapsed_secs: u64) -> Seq<char> {
    "\n## Context Reminder\n- Current iteration: "@ + spec_decimal(ctx.iteration as nat) + "\n"@
        + (if elapsed_secs > 30 {
        "- Time elapsed: "@ + spec_decimal(elapsed_secs as nat) + "s (be mindful of time)\n"@
    } else {
        Seq::<char>::empty()
    }) + (if ctx.consecutive_errors > 0 {
        "\nWarning: "@ + spec_decimal(ctx.consecutive_errors as nat)
            + " consecutive error(s). Try a different approach.\n"@
    } else {
        Seq::<char>::empty()
    }) + (if crate::agent::spec_is_stuck(ctx) {
        "\nWarning: you seem to be repeating the same actions. Change your approach!\n"@
    } else {
        Seq::<char>::empty()
    })
}

/// The context reminder injected between iterations.
pub fn build_context_reminder(ctx: &AgentContext, elapsed_secs: u64) -> (r: String)
    ensures
        r@ == spec_context_reminder(*ctx, elapsed_secs),
{
    let mut out: String = "\n## Context Reminder\n- Current iteration: ".to_owned();
    let d = u64_to_string(ctx.iteration as u64);
    append_str(&mut out, d.as_str());
    append_str(&mut out, "\n");
    if elapsed_secs > 30 {
        append_str(&mut out, "- Time elapsed: ");
        let e = u64_to_string(elapsed_secs);
        append_str(&mut out, e.as_str());
        append_str(&mut out, "s (be mindful of time)\n");
    }
    if ctx.consecutive_errors > 0 {
        append_str(&mut out, "\nWarning: ");
        let c = u64_to_string(ctx.consecutive_errors as u64);
        append_str(&mut out, c.as_str());
        append_str(&mut out, " consecutive error(s). Try a different approach.\n");
    }
    if ctx.is_stuck() {
        append_str(&mut out, "\nWarning: you seem to be repeating the same actions. Change your approach!\n");
    }
    out
}

/// The complete system prompt's exact text: the base prompt where one is
/// set, the identity and thinking sections, the tool instructions where any
/// tool is registered, the planning section, and the context reminder when
/// a run is under way.
pub open spec fn spec_agent_system_prompt(
    base_prompt: Seq<char>,
    tools: Seq<ToolInfo>,
    ctx: Option<AgentContext>,
    elapsed_secs: u64,
) -> Seq<char> {
    (if base_prompt.len() > 0 {
        base_prompt + "\n\n"@
    } else {
        Seq::<char>::empty()
    }) + AGENT_IDENTITY@ + "\n"@ + THINKING_INSTRUCTIONS@ + "\n"@ + (if tools.len() > 0 {
        spec_tool_instructions(tools) + "\n"@
    } else {
        Seq::<char>::empty()
    }) + PLANNING_INSTRUCTIONS@ + "\n"@ + (match ctx {
        Some(c) => spec_context_reminder(c, elapsed_secs) + "\n"@,
        None => Seq::<char>::empty(),
    })
}

/// Build the complete system prompt: persona, tool list with schema, and
/// the current agent-context summary.
pub fn build_agent_system_prompt(
    base_prompt: &str,
    tools: &Vec<ToolInfo>,
    ctx: &Option<AgentContext>,
    elapsed_secs: u64,
) -> (r: String)
    ensures
        r@ == spec_agent_system_prompt(
            base_prompt@,
            tools@,
            match ctx {
                Some(c) => Some(*c),
                None => None,
            },
            elapsed_secs,
        ),
{
    let mut out = String::new();
    if !base_prompt.is_empty() {
        append_str(&mut out, base_prompt);
        append_str(&mut out, "\n\n");
    }
    append_str(&mut out, AGENT_IDENTITY);
    append_str(&mut out, "\n");
    append_str(&mut out, THINKING_INSTRUCTIONS);
    append_str(&mut out, "\n");
    if tools.len() > 0 {
        let instructions = build_tool_instructions_advanced(tools);
        append_str(&mut out, instructions.as_str());
        append_str(&mut out, "\n");
    }
    append_str(&mut out, PLANNING_INSTRUCTIONS);
    append_str(&mut out, "\n");
    match ctx.as_ref() {
        Some(c) => {
            let reminder = build_context_reminder(c, elapsed_secs);
            append_str(&mut out, reminder.as_str());
            append_str(&mut out, "\n");
        },
        None => {},
    }
    out
}

/// A focused prompt for one specific task with a fixed tool list.
pub fn build_task_prompt(task_description: &str, available_tools: &Vec<String>) -> (r: String)
    ensures
        r@ == "## Specific Task\n"@ + task_description@ + "\n\nAvailable tools: "@
            + spec_join_names(available_tools@) + (
        "\n\nInstructions:\n1. Analyze the task\n2. Choose the most appropriate tool\n3. Execute with the correct parameters\n4. Analyze the result\n5. Conclude or continue if necessary\n"@),
{
    let mut out: String = "## Specific Task\n".to_owned();
    append_str(&mut out, task_description);
    append_str(&mut out, "\n\nAvailable tools: ");
    let mut i: usize = 0;
    proof {
        assert(available_tools@.take(0) =~= Seq::<String>::empty());
    }
    while i < available_tools.len()
        invariant
            i <= available_tools@.len(),
            out@ == "## Specific Task\n"@ + task_description@
                + "\n\nAvailable tools: "@ + spec_join_names(
                available_tools@.take(i as int),
            ),
        decreases available_tools@.len() - i,
    {
        proof {
            assert(available_tools@.take(i + 1 as int).drop_last() =~= available_tools@.take(
                i as int,
            ));
            assert(available_tools@.take(i + 1 as int).last() == available_tools@[i as int]);
        }
        if i > 0 {
            append_str(&mut out, ", ");
        }
        append_str(&mut out, available_tools[i].as_str());
        i = i + 1;
    }
    proof {
        assert(available_tools@.take(available_tools@.len() as int) =~= available_tools@);
    }
    append_str(
        &mut out,
        "\n\nInstructions:\n1. Analyze the task\n2. Choose the most appropriate tool\n3. Execute with the correct parameters\n4. Analyze the result\n5. Conclude or continue if necessary\n",
    );
    out
}

/// Tool names joined with a comma and a space.
pub open spec fn spec_join_names(names: Seq<String>) -> Seq<char>
    decreases names.len(),
{
    if names.len() == 0 {
        Seq::empty()
    } else if names.len() == 1 {
        names[0]@
    } else {
        spec_join_names(names.drop_last()) + ", "@ + names.last()@
    }
}

/// The reflection prompt injected after a tool call: on success, directions
/// for using the result; on failure, directions for recovering.
pub fn build_reflection_prompt(tool_name: &str, result: &str, was_success: bool) -> (r: String)
    ensures
        was_success ==> r@ == "## Result from tool `"@ + tool_name@ + "`\n\nThe result is:\n"@
            + result@ + (
        "\n\nAnalyze this result and decide on the next step:\n1. If you have ALL the information needed, write your complete final response to the user\n2. If you need more data, use another tool with the correct format\n3. If you write a file, use the REAL data obtained above, never placeholders\n"@),
        !was_success ==> r@ == "## Tool `"@ + tool_name@ + "` failed\n\nError: "@ + result@ + (
        "\n\nDO NOT STOP. Think and choose a new strategy:\n1. Were the parameters correct?\n2. Can another tool achieve the same goal?\n3. Can you reformulate the request?\n4. If nothing works after 2 attempts, explain the problem and propose alternatives.\n"@),
{
    if was_success {
        let mut out: String = "## Result from tool `".to_owned();
        append_str(&mut out, tool_name);
        append_str(&mut out, "`\n\nThe result is:\n");
        append_str(&mut out, result);
        append_str(
            &mut out,
            "\n\nAnalyze this result and decide on the next step:\n1. If you have ALL the information needed, write your complete final response to the user\n2. If you need more data, use another tool with the correct format\n3. If you write a file, use the REAL data obtained above, never placeholders\n",
        );
        out
    } else {
        let mut out: String = "## Tool `".to_owned();
        append_str(&mut out, tool_name);
        append_str(&mut out, "` failed\n\nError: ");
        append_str(&mut out, result);
        append_str(
            &mut out,
            "\n\nDO NOT STOP. Think and choose a new strategy:\n1. Were the parameters correct?\n2. Can another tool achieve the same goal?\n3. Can you reformulate the request?\n4. If nothing works after 2 attempts, explain the problem and propose alternatives.\n",
        );
        out
    }
}

/// A request for a final summary over gathered information.
pub fn build_summary_prompt(context: &str) -> (r: String)
    ensures
        r@ == "## Summary Request\n\nBased on the following information:\n"@ + context@ + (
        "\n\nProvide a clear and concise summary that answers the user's initial question.\nInclude:\n- Key points found\n- Sources used (if relevant)\n- A conclusion\n"@),
{
    let mut out: String = "## Summary Request\n\nBased on the following information:\n".to_owned();
    append_str(&mut out, context);
    append_str(
        &mut out,
        "\n\nProvide a clear and concise summary that answers the user's initial question.\nInclude:\n- Key points found\n- Sources used (if relevant)\n- A conclusion\n",
    );
    out
}

/// The instruction that asks the model to compress the conversation into a
/// dense summary when the context nears saturation.
pub fn build_context_compression_prompt() -> (r: String)
    ensures
        r@ == (
        "## CONTEXT COMPRESSION REQUIRED\n\nThe conversation context is nearly saturated. Create a concise summary of everything that has happened in this conversation.\n\nInstructions:\n1. Summarize the ESSENTIAL points of the conversation so far\n2. Include: user questions, actions performed, important results\n3. Omit verbose technical details and resolved errors\n4. Keep ONLY what is necessary to continue the conversation\n5. Format: a dense paragraph of 200-400 words maximum\n\nRespond ONLY with the summary, no introduction or conclusion."@),
{
    "## CONTEXT COMPRESSION REQUIRED\n\nThe conversation context is nearly saturated. Create a concise summary of everything that has happened in this conversation.\n\nInstructions:\n1. Summarize the ESSENTIAL points of the conversation so far\n2. Include: user questions, actions performed, important results\n3. Omit verbose technical details and resolved errors\n4. Keep ONLY what is necessary to continue the conversation\n5. Format: a dense paragraph of 200-400 words maximum\n\nRespond ONLY with the summary, no introduction or conclusion.".to_owned()
}

/// The prompt of the small secondary generation that names a conversation:
/// the first user message cut at 200 characters and the first assistant
/// reply cut at 300.
pub fn build_title_generation_prompt(first_user_message: &str, first_assistant_response: &str)
    -> (r: String)
    ensures
        r@ == "Generate a short title (max 60 chars) for this conversation.\n\nUser: "@ + (
        if first_user_message@.len() > 200 {
            first_user_message@.take(200)
        } else {
            first_user_message@
        }) + "\nAssistant: "@ + (if first_assistant_response@.len() > 300 {
            first_assistant_response@.take(300)
        } else {
            first_assistant_response@
        }) + "\n\nTitle:"@,
{
    let mut out: String =
        "Generate a short title (max 60 chars) for this conversation.\n\nUser: ".to_owned();
    let user_chars = str_chars(first_user_message);
    if user_chars.len() > 200 {
        let head = subrange_chars(&user_chars, 0, 200);
        let headstr = chars_to_string(&head);
        append_str(&mut out, headstr.as_str());
        proof {
            assert(first_user_message@.take(200) =~= first_user_message@.subrange(0, 200));
        }
    } else {
        append_str(&mut out, first_user_message);
    }
    append_str(&mut out, "\nAssistant: ");
    let asst_chars = str_chars(first_assistant_response);
    if asst_chars.len() > 300 {
        let head = subrange_chars(&asst_chars, 0, 300);
        let headstr = chars_to_string(&head);
        append_str(&mut out, headstr.as_str());
        proof {
            assert(first_assistant_response@.take(300) =~= first_assistant_response@.subrange(
                0,
                300,
            ));
        }
    } else {
        append_str(&mut out, first_assistant_response);
    }
    append_str(&mut out, "\n\nTitle:");
    out
}

/// One message's line in the fallback prompt.
pub open spec fn spec_fallback_line(m: Message) -> Seq<char> {
    (match m.role {
        Role::System => "System: "@,
        Role::User => "User: "@,
        Role::Assistant => "Assistant: "@,
    }) + m.content@ + "\n"@
}

/// The fallback prompt body over a message list.
pub open spec fn spec_fallback_prompt(messages: Seq<Message>) -> Seq<char>
    decreases messages.len(),
{
    if messages.len() == 0 {
        "Assistant: "@
    } else {
        spec_fallback_lines(messages) + "Assistant: "@
    }
}

/// The serialized lines of the fallback prompt.
pub open spec fn spec_fallback_lines(messages: Seq<Message>) -> Seq<char>
    decreases messages.len(),
{
    if messages.len() == 0 {
        Seq::empty()
    } else {
        spec_fallback_lines(messages.drop_last()) + spec_fallback_line(messages.last())
    }
}

/// The plain role-prefixed prompt used when the model carries no chat
/// template: each message on a `Role: content` line, then an open
/// `Assistant: ` turn.
pub fn build_fallback_prompt(messages: &Vec<Message>) -> (r: String)
    ensures
        r@ == spec_fallback_lines(messages@) + "Assistant: "@,
{
    let mut out = String::new();
    let mut i: usize = 0;
    proof {
        assert(messages@.take(0) =~= Seq::<Message>::empty());
        assert(out@ =~= spec_fallback_lines(messages@.take(0)));
    }
    while i < messages.len()
        invariant
            i <= messages@.len(),
            out@ == spec_fallback_lines(messages@.take(i as int)),
        decreases messages@.len() - i,
    {
        let m = &messages[i];
        proof {
            assert(messages@.take(i + 1 as int).drop_last() =~= messages@.take(i as int));
            assert(messages@.take(i + 1 as int).last() == messages@[i as int]);
        }
        match m.role {
            Role::System => {
                append_str(&mut out, "System: ");
            },
            Role::User => {
                append_str(&mut out, "User: ");
            },
            Role::Assistant => {
                append_str(&mut out, "Assistant: ");
            },
        }
        append_str(&mut out, m.content.as_str());
        append_str(&mut out, "\n");
        i = i + 1;
    }
    proof {
        assert(messages@.take(messages@.len() as int) =~= messages@);
    }
    append_str(&mut out, "Assistant: ");
    out
}

} // verus!
