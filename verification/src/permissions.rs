//! Permission classification and arbitration for tool calls.
//!
//! Every tool has a static permission level derived from its name alone.
//! A request is resolved against policy: a small set of internal-safe tools
//! is always approved; the auto-approve-all switch approves everything; an
//! allowlisted tool is approved; anything else waits for an interactive
//! decision with a deadline.

use vstd::prelude::*;

use crate::extract::str_equal;
use crate::text::{matches_at, str_chars};

verus! {

/// How much a tool is allowed to touch.
#[derive(Debug, Clone, Copy, PartialEq, Eq, Structural)]
pub enum PermissionLevel {
    /// No side effects.
    ReadOnly,
    /// Makes external requests.
    Network,
    /// Modifies files.
    WriteFile,
    /// Runs commands from a safe allowlist.
    ExecuteSafe,
    /// Full shell or history-changing operations.
    ExecuteUnsafe,
}

/// The user's (or the deadline's) answer to an interactive request.
#[derive(Debug, Clone, Copy, PartialEq, Eq, Structural)]
pub enum PermissionDecision {
    /// The call may run.
    Approved,
    /// The call may not run.
    Denied,
    /// No answer came before the deadline.
    Timeout,
}

/// What policy alone decides about a request.
#[derive(Debug, Clone, Copy, PartialEq, Eq, Structural)]
pub enum PermissionResolution {
    /// Approved without asking.
    Approved,
    /// An interactive request must be enqueued and awaited.
    NeedsInteractive,
}

/// The policy state a request is resolved against.
#[derive(Debug, Clone)]
pub struct PermissionPolicy {
    /// Approve every tool without asking.
    pub auto_approve_all: bool,
    /// Tools approved by name without asking.
    pub allowlist: Vec<String>,
}

/// One permission request, as recorded and shown to the user.
#[derive(Debug, Clone)]
pub struct PermissionRequest {
    /// Unique id of the request.
    pub id: String,
    /// The tool to be run.
    pub tool_name: String,
    /// Best-effort target of the call: a path, query, command, or url.
    pub target: String,
    /// The tool's static permission level.
    pub level: PermissionLevel,
    /// The parameters, rendered.
    pub params_text: String,
    /// Seconds since the epoch when the request was made.
    pub timestamp: u64,
}

/// The deadline for an interactive decision, in seconds.
pub const PERMISSION_DEADLINE_SECS: u64 = 120;

/// The static permission level of a tool name: a fixed table; unknown names
/// are read-only, except names with the external-server prefix, which reach
/// the network.
pub open spec fn spec_tool_permission(name: Seq<char>) -> PermissionLevel {
    if name == "file_read"@ || name == "file_list"@ || name == "grep"@ || name == "glob"@ || name
        == "think"@ || name == "todo_write"@ || name == "file_info"@ || name == "file_search"@
        || name == "diff"@ || name == "wc"@ || name == "tree"@ || name == "process_list"@ || name
        == "environment"@ || name == "system_info"@ || name == "which"@ || name == "git_status"@
        || name == "git_diff"@ || name == "git_log"@ || name == "git_branch"@ || name == "pdf_read"@
        || name == "skill_list"@ || name == "skill_invoke"@ || name == "mcp_list_servers"@ {
        PermissionLevel::ReadOnly
    } else if name == "web_search"@ || name == "code_search"@ || name == "company_research"@ || name
        == "deep_research_start"@ || name == "deep_research_check"@ || name == "web_crawl"@ || name
        == "web_fetch"@ || name == "web_download"@ || name == "ai_consult"@ {
        PermissionLevel::Network
    } else if name == "file_write"@ || name == "file_edit"@ || name == "file_create"@ || name
        == "file_delete"@ || name == "file_move"@ || name == "file_copy"@ || name
        == "directory_create"@ || name == "find_replace"@ || name == "patch"@ || name
        == "pdf_create"@ || name == "pdf_add_page"@ || name == "pdf_merge"@ || name
        == "skill_create"@ || name == "mcp_add_server"@ || name == "mcp_remove_server"@ {
        PermissionLevel::WriteFile
    } else if name == "command"@ {
        PermissionLevel::ExecuteSafe
    } else if name == "bash"@ || name == "bash_background"@ || name == "git_commit"@ || name
        == "git_stash"@ {
        PermissionLevel::ExecuteUnsafe
    } else if matches_at(name, "mcp_"@, 0) {
        PermissionLevel::Network
    } else {
        PermissionLevel::ReadOnly
    }
}

/// The static permission level of a tool, from its name alone. Tools do not
/// self-report a level.
pub fn get_tool_permission(tool_name: &str) -> (r: PermissionLevel)
    ensures
        r == spec_tool_permission(tool_name@),
{
    if str_equal(tool_name, "file_read") || str_equal(tool_name, "file_list") || str_equal(
        tool_name,
        "grep",
    ) || str_equal(tool_name, "glob") || str_equal(tool_name, "think") || str_equal(
        tool_name,
        "todo_write",
    ) || str_equal(tool_name, "file_info") || str_equal(tool_name, "file_search") || str_equal(
        tool_name,
        "diff",
    ) || str_equal(tool_name, "wc") || str_equal(tool_name, "tree") || str_equal(
        tool_name,
        "process_list",
    ) || str_equal(tool_name, "environment") || str_equal(tool_name, "system_info") || str_equal(
        tool_name,
        "which",
    ) || str_equal(tool_name, "git_status") || str_equal(tool_name, "git_diff") || str_equal(
        tool_name,
        "git_log",
    ) || str_equal(tool_name, "git_branch") || str_equal(tool_name, "pdf_read") || str_equal(
        tool_name,
        "skill_list",
    ) || str_equal(tool_name, "skill_invoke") || str_equal(tool_name, "mcp_list_servers") {
        PermissionLevel::ReadOnly
    } else if str_equal(tool_name, "web_search") || str_equal(tool_name, "code_search")
        || str_equal(tool_name, "company_research") || str_equal(tool_name, "deep_research_start")
        || str_equal(tool_name, "deep_research_check") || str_equal(tool_name, "web_crawl")
        || str_equal(tool_name, "web_fetch") || str_equal(tool_name, "web_download") || str_equal(
        tool_name,
        "ai_consult",
    ) {
        PermissionLevel::Network
    } else if str_equal(tool_name, "file_write") || str_equal(tool_name, "file_edit") || str_equal(
        tool_name,
        "file_create",
    ) || str_equal(tool_name, "file_delete") || str_equal(tool_name, "file_move") || str_equal(
        tool_name,
        "file_copy",
    ) || str_equal(tool_name, "directory_create") || str_equal(tool_name, "find_replace")
        || str_equal(tool_name, "patch") || str_equal(tool_name, "pdf_create") || str_equal(
        tool_name,
        "pdf_add_page",
    ) || str_equal(tool_name, "pdf_merge") || str_equal(tool_name, "skill_create") || str_equal(
        tool_name,
        "mcp_add_server",
    ) || str_equal(tool_name, "mcp_remove_server") {
        PermissionLevel::WriteFile
    } else if str_equal(tool_name, "command") {
        PermissionLevel::ExecuteSafe
    } else if str_equal(tool_name, "bash") || str_equal(tool_name, "bash_background") || str_equal(
        tool_name,
        "git_commit",
    ) || str_equal(tool_name, "git_stash") {
        PermissionLevel::ExecuteUnsafe
    } else {
        let chars = str_chars(tool_name);
        let prefix = str_chars("mcp_");
        proof {
            reveal_strlit("mcp_");
        }
        if chars.len() >= 4 && crate::text::check_match_at(&chars, &prefix, 0) {
            PermissionLevel::Network
        } else {
            proof {
                if matches_at(tool_name@, "mcp_"@, 0) {
                    assert(tool_name@.len() >= 4);
                }
            }
            PermissionLevel::ReadOnly
        }
    }
}

/// The tools that run without asking anyone: reflective thinking, plan
/// writing, and skill introspection, invocation, and creation.
pub open spec fn spec_is_internal_safe(name: Seq<char>) -> bool {
    name == "think"@ || name == "todo_write"@ || name == "skill_create"@ || name
        == "skill_invoke"@ || name == "skill_list"@
}

/// Whether a tool is in the hard-coded internal-safe set.
pub fn is_internal_safe(tool_name: &str) -> (r: bool)
    ensures
        r == spec_is_internal_safe(tool_name@),
{
    str_equal(tool_name, "think") || str_equal(tool_name, "todo_write") || str_equal(
        tool_name,
        "skill_create",
    ) || str_equal(tool_name, "skill_invoke") || str_equal(tool_name, "skill_list")
}

/// Whether the allowlist names the tool.
pub open spec fn spec_in_allowlist(allowlist: Seq<Seq<char>>, name: Seq<char>) -> bool {
    exists|i: int| 0 <= i < allowlist.len() && allowlist[i] == name
}

/// What policy decides for a tool, before any interaction: internal-safe
/// tools and allowlisted tools are approved, auto-approve-all approves
/// everything, and anything else needs an interactive decision.
pub open spec fn spec_resolve_permission(
    name: Seq<char>,
    auto_approve_all: bool,
    allowlist: Seq<Seq<char>>,
) -> PermissionResolution {
    if spec_is_internal_safe(name) || auto_approve_all || spec_in_allowlist(allowlist, name) {
        PermissionResolution::Approved
    } else {
        PermissionResolution::NeedsInteractive
    }
}

/// The view of an allowlist.
pub open spec fn allowlist_view(allowlist: Seq<String>) -> Seq<Seq<char>> {
    allowlist.map_values(|s: String| s@)
}

/// Resolve a tool against policy. `NeedsInteractive` means the caller must
/// enqueue an interactive request and await a decision, with `Timeout` after
/// `PERMISSION_DEADLINE_SECS` seconds.
pub fn resolve_permission(tool_name: &str, policy: &PermissionPolicy) -> (r: PermissionResolution)
    ensures
        r == spec_resolve_permission(
            tool_name@,
            policy.auto_approve_all,
            allowlist_view(policy.allowlist@),
        ),
{
    if is_internal_safe(tool_name) {
        return PermissionResolution::Approved;
    }
    if policy.auto_approve_all {
        return PermissionResolution::Approved;
    }
    let mut i: usize = 0;
    while i < policy.allowlist.len()
        invariant
            i <= policy.allowlist@.len(),
            forall|k: int| 0 <= k < i ==> allowlist_view(policy.allowlist@)[k] != tool_name@,
        decreases policy.allowlist@.len() - i,
    {
        if str_equal(policy.allowlist[i].as_str(), tool_name) {
            proof {
                assert(allowlist_view(policy.allowlist@)[i as int] == tool_name@);
            }
            return PermissionResolution::Approved;
        }
        i = i + 1;
    }
    PermissionResolution::NeedsInteractive
}

/// Permission resolution: internal-safe tools are always approved; with
/// auto-approve-all on, any tool is approved; an allowlisted tool is always
/// approved; otherwise the tool requires interactive resolution.
pub proof fn lemma_permission_resolution(
    name: Seq<char>,
    auto_approve_all: bool,
    allowlist: Seq<Seq<char>>,
)
    ensures
        spec_is_internal_safe(name) ==> spec_resolve_permission(name, auto_approve_all, allowlist)
            == PermissionResolution::Approved,
        auto_approve_all ==> spec_resolve_permission(name, auto_approve_all, allowlist)
            == PermissionResolution::Approved,
        spec_in_allowlist(allowlist, name) ==> spec_resolve_permission(
            name,
            auto_approve_all,
            allowlist,
        ) == PermissionResolution::Approved,
        !spec_is_internal_safe(name) && !auto_approve_all && !spec_in_allowlist(allowlist, name)
            ==> spec_resolve_permission(name, auto_approve_all, allowlist)
            == PermissionResolution::NeedsInteractive,
{
}

} // verus!
