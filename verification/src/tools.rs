//! Tools: results, errors, metadata, and the registry.
//!
//! A tool is a handler addressed by a unique name. The library keeps the
//! registry of tool metadata and the pure part of each built-in tool — its
//! name, description, parameter schema, and request validation; the handler
//! bodies, which do I/O, live with the embedding program.

use vstd::prelude::*;

use crate::extract::{params_lookup, str_equal, ParamSpec, ParamValue};
use crate::text::{
    append_str, chars_to_string, spec_decimal, spec_trim, str_chars, subrange_chars, trim_chars,
    u64_to_string,
};

verus! {

/// What a tool execution reports back.
#[derive(Debug, Clone)]
pub struct ToolResult {
    /// Whether the tool succeeded.
    pub success: bool,
    /// Structured payload, as JSON text.
    pub data: String,
    /// Human-readable message.
    pub message: String,
}

impl PartialEq for ToolResult {
    /// Two results are the same outcome when success and message agree; the
    /// payload does not count.
    fn eq(&self, other: &Self) -> (r: bool) {
        self.success == other.success && str_equal(
            self.message.as_str(),
            other.message.as_str(),
        )
    }
}

impl vstd::std_specs::cmp::PartialEqSpecImpl for ToolResult {
    open spec fn obeys_eq_spec() -> bool {
        true
    }

    open spec fn eq_spec(&self, other: &Self) -> bool {
        self.success == other.success && self.message@ == other.message@
    }
}

/// Why a tool did not produce a result.
#[derive(Debug, Clone, PartialEq)]
pub enum ToolError {
    /// The parameters are missing or ill-shaped; carries what was wrong.
    InvalidParameters(String),
    /// The tool ran and failed; carries the failure text.
    ExecutionFailed(String),
    /// The arbiter said no; carries the reason.
    PermissionDenied(String),
    /// No tool of that name is registered; carries the name.
    NotFound(String),
    /// The tool ran past its deadline.
    Timeout,
}

/// The message text of a tool error.
pub open spec fn spec_tool_error_message(e: ToolError) -> Seq<char> {
    match e {
        ToolError::InvalidParameters(s) => "Invalid parameters: "@ + s@,
        ToolError::ExecutionFailed(s) => "Execution failed: "@ + s@,
        ToolError::PermissionDenied(s) => "Permission denied: "@ + s@,
        ToolError::NotFound(s) => "Tool not found: "@ + s@,
        ToolError::Timeout => "Timeout"@,
    }
}

impl ToolError {
    /// The error as user-facing text.
    pub fn message(&self) -> (r: String)
        ensures
            r@ == spec_tool_error_message(*self),
    {
        match self {
            ToolError::InvalidParameters(s) => {
                let mut out: String = "Invalid parameters: ".to_owned();
                append_str(&mut out, s.as_str());
                out
            },
            ToolError::ExecutionFailed(s) => {
                let mut out: String = "Execution failed: ".to_owned();
                append_str(&mut out, s.as_str());
                out
            },
            ToolError::PermissionDenied(s) => {
                let mut out: String = "Permission denied: ".to_owned();
                append_str(&mut out, s.as_str());
                out
            },
            ToolError::NotFound(s) => {
                let mut out: String = "Tool not found: ".to_owned();
                append_str(&mut out, s.as_str());
                out
            },
            ToolError::Timeout => "Timeout".to_owned(),
        }
    }
}

/// A tool's advertised metadata.
#[derive(Debug, Clone)]
pub struct ToolInfo {
    /// The unique name the tool is addressed by.
    pub name: String,
    /// A human description.
    pub description: String,
    /// The JSON-shaped parameter schema, as text.
    pub parameters_schema: String,
}

/// The index of the entry named `name`, if one is registered.
pub open spec fn spec_registry_index(entries: Seq<ToolInfo>, name: Seq<char>) -> Option<int>
    decreases entries.len(),
{
    if entries.len() == 0 {
        None
    } else if entries.last().name@ == name {
        Some(entries.len() - 1)
    } else {
        spec_registry_index(entries.drop_last(), name)
    }
}

/// The registry of tool metadata. Names are unique; registering an existing
/// name replaces that entry, so the last write wins and registrations are
/// observed by later lookups.
pub struct ToolRegistry {
    entries: Vec<ToolInfo>,
}

impl ToolRegistry {
    /// The registered entries, in registration order.
    pub closed spec fn entries_view(&self) -> Seq<ToolInfo> {
        self.entries@
    }

    /// The invariant: no two entries share a name.
    pub open spec fn wf(&self) -> bool {
        forall|i: int, j: int|
            0 <= i < j < self.entries_view().len() ==> (#[trigger] self.entries_view()[i]).name@
                != (#[trigger] self.entries_view()[j]).name@
    }

    /// An empty registry.
    pub fn new() -> (r: Self)
        ensures
            r.wf(),
            r.entries_view().len() == 0,
    {
        ToolRegistry { entries: Vec::new() }
    }

    /// How many tools are registered.
    pub fn count(&self) -> (r: usize)
        ensures
            r == self.entries_view().len(),
    {
        self.entries.len()
    }

    /// Register a tool: a new name appends; an existing name is replaced in
    /// place, the last write winning. Entries under every other name are
    /// untouched, so registrations are observed by all later lookups.
    pub fn register(&mut self, tool: ToolInfo)
        requires
            old(self).wf(),
        ensures
            final(self).wf(),
            spec_registry_index(final(self).entries_view(), tool.name@) is Some,
            ({
                let idx = spec_registry_index(final(self).entries_view(), tool.name@)->Some_0;
                &&& final(self).entries_view()[idx].name@ == tool.name@
                &&& final(self).entries_view()[idx].description@ == tool.description@
                &&& final(self).entries_view()[idx].parameters_schema@ == tool.parameters_schema@
            }),
            match spec_registry_index(old(self).entries_view(), tool.name@) {
                Some(i) => final(self).entries_view() == old(self).entries_view().update(i, tool),
                None => final(self).entries_view() == old(self).entries_view().push(tool),
            },
            forall|j: int|
                0 <= j < old(self).entries_view().len() && (#[trigger] old(
                    self,
                ).entries_view()[j]).name@ != tool.name@ ==> final(self).entries_view()[j] == old(
                    self,
                ).entries_view()[j],
    {
        let n = self.entries.len();
        let mut i: usize = 0;
        while i < n
            invariant
                n == self.entries@.len(),
                i <= n,
                old(self).wf(),
                self.entries@ == old(self).entries@,
                forall|k: int| 0 <= k < i ==> (#[trigger] self.entries@[k]).name@ != tool.name@,
            decreases n - i,
        {
            if str_equal(self.entries[i].name.as_str(), tool.name.as_str()) {
                let ghost before = self.entries@;
                let ghost newname = tool.name@;
                proof {
                    assert(before[i as int].name@ == newname);
                    assert forall|j: int| i < j < before.len() implies (#[trigger] before[j]).name@
                        != newname by {
                        assert((old(self).entries_view()[i as int]).name@ != (old(
                            self,
                        ).entries_view()[j]).name@);
                    }
                    lemma_registry_index_at(before, i as int);
                }
                self.entries.set(i, tool);
                proof {
                    let es = self.entries@;
                    assert(before == old(self).entries_view());
                    assert forall|j: int| i < j < es.len() implies (#[trigger] es[j]).name@
                        != newname by {
                        assert(es[j] == before[j]);
                        assert((old(self).entries_view()[i as int]).name@ != (old(
                            self,
                        ).entries_view()[j]).name@);
                    }
                    lemma_registry_index_at(es, i as int);
                    assert forall|i1: int, j1: int|
                        0 <= i1 < j1 < es.len() implies (#[trigger] es[i1]).name@ != (
                    #[trigger] es[j1]).name@ by {
                        assert((old(self).entries_view()[i1]).name@ != (old(
                            self,
                        ).entries_view()[j1]).name@);
                        if i1 == i {
                            assert(es[i1].name@ == before[i as int].name@);
                        } else if j1 == i {
                            assert(es[j1].name@ == before[i as int].name@);
                        }
                    }
                }
                return ;
            }
            i = i + 1;
        }
        let ghost before = self.entries@;
        self.entries.push(tool);
        proof {
            let es = self.entries@;
            assert(forall|k: int| 0 <= k < before.len() ==> (#[trigger] before[k]).name@
                != tool.name@);
            lemma_registry_index_none(before, tool.name@);
            assert forall|i1: int, j1: int|
                0 <= i1 < j1 < es.len() implies (#[trigger] es[i1]).name@ != (
            #[trigger] es[j1]).name@ by {
                if j1 < es.len() - 1 {
                    assert((old(self).entries_view()[i1]).name@ != (old(
                        self,
                    ).entries_view()[j1]).name@);
                } else {
                    assert(es[j1] == tool);
                    assert(es[i1] == before[i1]);
                }
            }
            lemma_registry_index_at(es, es.len() - 1);
        }
    }

    /// Look a tool up by name.
    pub fn get(&self, name: &str) -> (r: Option<&ToolInfo>)
        ensures
            match r {
                Some(info) => spec_registry_index(self.entries_view(), name@) matches Some(i)
                    && self.entries_view()[i].name@ == info.name@
                    && self.entries_view()[i].description@ == info.description@
                    && self.entries_view()[i].parameters_schema@ == info.parameters_schema@,
                None => spec_registry_index(self.entries_view(), name@) is None,
            },
    {
        let mut i: usize = self.entries.len();
        proof {
            assert(self.entries@.take(i as int) =~= self.entries@);
        }
        while i > 0
            invariant
                i <= self.entries@.len(),
                spec_registry_index(self.entries@, name@) == spec_registry_index(
                    self.entries@.take(i as int),
                    name@,
                ),
            decreases i,
        {
            i = i - 1;
            proof {
                assert(self.entries@.take(i + 1 as int).last() == self.entries@[i as int]);
                assert(self.entries@.take(i + 1 as int).drop_last() =~= self.entries@.take(
                    i as int,
                ));
            }
            if str_equal(self.entries[i].name.as_str(), name) {
                return Some(&self.entries[i]);
            }
        }
        proof {
            assert(self.entries@.take(0) =~= Seq::<ToolInfo>::empty());
        }
        None
    }

    /// All registered tools, in registration order.
    pub fn list_tools(&self) -> (r: Vec<ToolInfo>)
        ensures
            r@.len() == self.entries_view().len(),
            forall|i: int|
                0 <= i < r@.len() ==> (#[trigger] r@[i]).name@ == self.entries_view()[i].name@
                    && r@[i].description@ == self.entries_view()[i].description@
                    && r@[i].parameters_schema@ == self.entries_view()[i].parameters_schema@,
    {
        let mut out: Vec<ToolInfo> = Vec::new();
        let mut i: usize = 0;
        while i < self.entries.len()
            invariant
                i <= self.entries@.len(),
                out@.len() == i,
                forall|k: int|
                    0 <= k < i ==> (#[trigger] out@[k]).name@ == self.entries@[k].name@
                        && out@[k].description@ == self.entries@[k].description@
                        && out@[k].parameters_schema@ == self.entries@[k].parameters_schema@,
            decreases self.entries@.len() - i,
        {
            let e = &self.entries[i];
            let mut name = String::new();
            let mut description = String::new();
            let mut parameters_schema = String::new();
            append_str(&mut name, e.name.as_str());
            append_str(&mut description, e.description.as_str());
            append_str(&mut parameters_schema, e.parameters_schema.as_str());
            proof {
                assert(name@ =~= self.entries@[i as int].name@);
                assert(description@ =~= self.entries@[i as int].description@);
                assert(parameters_schema@ =~= self.entries@[i as int].parameters_schema@);
            }
            out.push(ToolInfo { name, description, parameters_schema });
            i = i + 1;
        }
        out
    }
}

proof fn lemma_registry_index_none(entries: Seq<ToolInfo>, name: Seq<char>)
    requires
        forall|k: int| 0 <= k < entries.len() ==> (#[trigger] entries[k]).name@ != name,
    ensures
        spec_registry_index(entries, name) is None,
    decreases entries.len(),
{
    if entries.len() > 0 {
        assert(forall|k: int|
            0 <= k < entries.drop_last().len() ==> (#[trigger] entries.drop_last()[k]).name@
                != name);
        lemma_registry_index_none(entries.drop_last(), name);
    }
}

proof fn lemma_registry_index_at(entries: Seq<ToolInfo>, i: int)
    requires
        0 <= i < entries.len(),
        forall|j: int| i < j < entries.len() ==> (#[trigger] entries[j]).name@ != entries[i].name@,
    ensures
        spec_registry_index(entries, entries[i].name@) == Some(i),
    decreases entries.len(),
{
    if i == entries.len() - 1 {
    } else {
        assert(entries.drop_last()[i] == entries[i]);
        lemma_registry_index_at(entries.drop_last(), i);
    }
}

/// The commands the legacy safe command tool accepts.
pub open spec fn spec_allowed_commands() -> Seq<Seq<char>> {
    seq![
        "ls"@,
        "cat"@,
        "echo"@,
        "pwd"@,
        "whoami"@,
        "date"@,
        "wc"@,
        "head"@,
        "tail"@,
        "find"@,
        "grep"@,
    ]
}

/// The first whitespace-separated word of a command line.
pub open spec fn spec_first_word(s: Seq<char>) -> Seq<char> {
    spec_first_word_from(spec_trim_start(s), 0)
}

/// The characters of `s` from `i` up to the first whitespace.
pub open spec fn spec_first_word_from(s: Seq<char>, i: int) -> Seq<char>
    decreases s.len() - i,
    when 0 <= i
{
    if i >= s.len() || crate::text::is_space(s[i]) {
        s.subrange(0, i)
    } else {
        spec_first_word_from(s, i + 1)
    }
}

/// `s` without leading whitespace.
pub open spec fn spec_trim_start(s: Seq<char>) -> Seq<char>
    decreases s.len(),
{
    if s.len() > 0 && crate::text::is_space(s[0]) {
        spec_trim_start(s.subrange(1, s.len() as int))
    } else {
        s
    }
}

/// Validate a command line for the safe command tool: reject an empty line,
/// and reject a first word outside the allowlist.
pub fn command_request(command: &str) -> (r: Result<(), ToolError>)
    ensures
        ({
            let word = spec_first_word(command@);
            if word.len() == 0 {
                r matches Err(e) && e matches ToolError::InvalidParameters(m) && m@
                    == "Empty command"@
            } else if spec_allowed_commands().contains(word) {
                r is Ok
            } else {
                r matches Err(e) && e matches ToolError::PermissionDenied(m) && m@ == "Command '"@
                    + word + "' is not in the allowed list"@
            }
        }),
{
    let chars = str_chars(command);
    let start_trimmed = trim_start_chars(&chars);
    let word = first_word_chars(&start_trimmed);
    proof {
        assert(spec_first_word(command@) == word@);
    }
    if word.len() == 0 {
        return Err(ToolError::InvalidParameters("Empty command".to_owned()));
    }
    let allowed: [&str; 11] = [
        "ls",
        "cat",
        "echo",
        "pwd",
        "whoami",
        "date",
        "wc",
        "head",
        "tail",
        "find",
        "grep",
    ];
    let word_str = chars_to_string(&word);
    let mut i: usize = 0;
    while i < 11
        invariant
            i <= 11,
            word@.len() > 0,
            word@ == spec_first_word(command@),
            word_str@ == word@,
            allowed@.map_values(|s: &str| s@) =~= spec_allowed_commands(),
            forall|k: int| 0 <= k < i ==> spec_allowed_commands()[k] != word@,
        decreases 11 - i,
    {
        if str_equal(word_str.as_str(), allowed[i]) {
            proof {
                assert(spec_allowed_commands()[i as int] == word@);
            }
            return Ok(());
        }
        i = i + 1;
    }
    proof {
        assert(!spec_allowed_commands().contains(word@));
    }
    let mut msg: String = "Command '".to_owned();
    append_str(&mut msg, word_str.as_str());
    append_str(&mut msg, "' is not in the allowed list");
    proof {
        assert(("Command '"@ + word@) + "' is not in the allowed list"@ =~= "Command '"@ + word@
            + "' is not in the allowed list"@);
    }
    Err(ToolError::PermissionDenied(msg))
}

fn trim_start_chars(v: &Vec<char>) -> (r: Vec<char>)
    ensures
        r@ == spec_trim_start(v@),
        r@.len() == 0 || !crate::text::is_space(r@[0]),
{
    let mut lo: usize = 0;
    proof {
        assert(v@.subrange(0, v@.len() as int) =~= v@);
    }
    while lo < v.len() && (v[lo] == ' ' || v[lo] == '\t' || v[lo] == '\n' || v[lo] == '\r')
        invariant
            lo <= v@.len(),
            spec_trim_start(v@) == spec_trim_start(v@.subrange(lo as int, v@.len() as int)),
        decreases v@.len() - lo,
    {
        proof {
            let cur = v@.subrange(lo as int, v@.len() as int);
            assert(cur[0] == v@[lo as int]);
            assert(cur.subrange(1, cur.len() as int) =~= v@.subrange(lo + 1, v@.len() as int));
        }
        lo = lo + 1;
    }
    proof {
        let cur = v@.subrange(lo as int, v@.len() as int);
        if cur.len() > 0 {
            assert(cur[0] == v@[lo as int]);
        }
        assert(spec_trim_start(cur) == cur);
    }
    subrange_chars(v, lo, v.len())
}

fn first_word_chars(v: &Vec<char>) -> (r: Vec<char>)
    requires
        v@.len() == 0 || !crate::text::is_space(v@[0]),
    ensures
        r@ == spec_first_word_from(v@, 0),
        spec_trim_start(v@) == v@ ==> r@ == spec_first_word(v@),
{
    let mut i: usize = 0;
    while i < v.len() && !(v[i] == ' ' || v[i] == '\t' || v[i] == '\n' || v[i] == '\r')
        invariant
            i <= v@.len(),
            spec_first_word_from(v@, 0) == spec_first_word_from(v@, i as int),
        decreases v@.len() - i,
    {
        i = i + 1;
    }
    subrange_chars(v, 0, i)
}

/// Characters of tool output injected back into the conversation before the
/// cap cuts in.
pub const TOOL_RESULT_CAP_CHARS: usize = 4000;

/// Characters kept when the cap cuts in.
pub const TOOL_RESULT_KEEP_CHARS: usize = 3500;

/// Tool output capped for injection: text longer than 4000 characters keeps
/// its first 3500 and a note with the original length.
pub open spec fn spec_cap_tool_result(text: Seq<char>) -> Seq<char> {
    if text.len() > TOOL_RESULT_CAP_CHARS {
        text.take(TOOL_RESULT_KEEP_CHARS as int) + "...\n[Result truncated: "@ + spec_decimal(
            text.len() as nat,
        ) + " characters total]"@
    } else {
        text
    }
}

/// Cap a formatted tool result so it cannot saturate the context.
pub fn cap_tool_result(text: &str) -> (r: String)
    ensures
        r@ == spec_cap_tool_result(text@),
{
    let chars = str_chars(text);
    if chars.len() > TOOL_RESULT_CAP_CHARS {
        let head = subrange_chars(&chars, 0, TOOL_RESULT_KEEP_CHARS);
        let mut out = chars_to_string(&head);
        append_str(&mut out, "...\n[Result truncated: ");
        let d = u64_to_string(chars.len() as u64);
        append_str(&mut out, d.as_str());
        append_str(&mut out, " characters total]");
        proof {
            assert(text@.take(TOOL_RESULT_KEEP_CHARS as int) =~= text@.subrange(
                0,
                TOOL_RESULT_KEEP_CHARS as int,
            ));
            assert(((text@.take(TOOL_RESULT_KEEP_CHARS as int) + "...\n[Result truncated: "@)
                + spec_decimal(text@.len() as nat)) + " characters total]"@ =~= text@.take(
                TOOL_RESULT_KEEP_CHARS as int,
            ) + "...\n[Result truncated: "@ + spec_decimal(text@.len() as nat)
                + " characters total]"@);
        }
        out
    } else {
        let mut out = String::new();
        append_str(&mut out, text);
        proof {
            assert(out@ =~= text@);
        }
        out
    }
}

/// The synthetic system message carrying a tool's result back to the model.
pub fn format_tool_result_for_system(tool_name: &str, result: &ToolResult) -> (r: String)
    ensures
        r@ == "[TOOL_RESULT] "@ + tool_name@ + ": "@ + result.message@ + "\n"@ + result.data@,
{
    let mut out: String = "[TOOL_RESULT] ".to_owned();
    append_str(&mut out, tool_name);
    append_str(&mut out, ": ");
    append_str(&mut out, result.message.as_str());
    append_str(&mut out, "\n");
    append_str(&mut out, result.data.as_str());
    out
}

/// Configuration of the web search adapter.
#[derive(Debug, Clone)]
pub struct ExaSearchConfig {
    /// Credential for the search service; empty disables the tool.
    pub api_key: String,
    /// Base address of the search service.
    pub base_url: String,
}

impl Default for ExaSearchConfig {
    /// No credential, the public endpoint. The embedding program fills the
    /// credential from its environment.
    fn default() -> (r: Self)
        ensures
            r.api_key@.len() == 0,
            r.base_url@ == "https://api.exa.ai"@,
    {
        ExaSearchConfig { api_key: String::new(), base_url: "https://api.exa.ai".to_owned() }
    }
}


/// Look up a required string parameter.
fn require_text_param(params: &Vec<(String, ParamValue)>, key: &str, missing: &str) -> (r: Result<
    String,
    ToolError,
>)
    ensures
        ({
            let looked = crate::extract::spec_params_lookup(
                crate::extract::params_spec_of(params@),
                key@,
            );
            match r {
                Ok(s) => {
                    &&& looked matches Some(v)
                    &&& looked->Some_0 matches ParamSpec::Text(t)
                    &&& s@ == t
                },
                Err(e) => {
                    &&& (match looked {
                        Some(v) => !(v is Text),
                        None => true,
                    })
                    &&& e matches ToolError::InvalidParameters(m)
                    &&& e->InvalidParameters_0@ == missing@
                },
            }
        }),
{
    match params_lookup(params, key) {
        Some(v) => {
            match v {
                ParamValue::Text(t) => {
                    let mut out = String::new();
                    append_str(&mut out, t.as_str());
                    proof {
                        assert(out@ =~= t@);
                    }
                    Ok(out)
                },
                ParamValue::Raw(_) => Err(ToolError::InvalidParameters(missing.to_owned())),
            }
        },
        None => Err(ToolError::InvalidParameters(missing.to_owned())),
    }
}

/// Reads the contents of a file; the read itself is I/O done by the
/// embedding program.
pub struct FileReadTool;

impl FileReadTool {
    /// The tool's unique name.
    pub fn name(&self) -> (r: &'static str)
        ensures
            r@ == "file_read"@,
    {
        "file_read"
    }

    /// The tool's description.
    pub fn description(&self) -> (r: &'static str)
        ensures
            r@ == "Read the contents of a file"@,
    {
        "Read the contents of a file"
    }

    /// The JSON parameter schema, as text.
    pub fn parameters_schema(&self) -> (r: String)
        ensures
            r@
                == "{\"type\": \"object\", \"properties\": {\"path\": {\"type\": \"string\", \"description\": \"Absolute path to the file to read\"}}, \"required\": [\"path\"]}"@,
    {
        "{\"type\": \"object\", \"properties\": {\"path\": {\"type\": \"string\", \"description\": \"Absolute path to the file to read\"}}, \"required\": [\"path\"]}".to_owned()
    }

    /// Validate a request: the `path` string parameter is required; it is
    /// what the embedding program reads.
    pub fn request(&self, params: &Vec<(String, ParamValue)>) -> (r: Result<String, ToolError>)
        ensures
            ({
                let looked = crate::extract::spec_params_lookup(
                    crate::extract::params_spec_of(params@),
                    "path"@,
                );
                match r {
                    Ok(s) => {
                        &&& looked matches Some(v)
                        &&& looked->Some_0 matches ParamSpec::Text(t)
                        &&& s@ == t
                    },
                    Err(e) => {
                        &&& (match looked {
                            Some(v) => !(v is Text),
                            None => true,
                        })
                        &&& e matches ToolError::InvalidParameters(m)
                        &&& e->InvalidParameters_0@ == "path is required"@
                    },
                }
            }),
    {
        require_text_param(params, "path", "path is required")
    }
}

/// Lists the entries of a directory; the listing is I/O done by the
/// embedding program.
pub struct FileListTool;

impl FileListTool {
    /// The tool's unique name.
    pub fn name(&self) -> (r: &'static str)
        ensures
            r@ == "file_list"@,
    {
        "file_list"
    }

    /// The tool's description.
    pub fn description(&self) -> (r: &'static str)
        ensures
            r@ == "List files in a directory"@,
    {
        "List files in a directory"
    }

    /// The JSON parameter schema, as text.
    pub fn parameters_schema(&self) -> (r: String)
        ensures
            r@
                == "{\"type\": \"object\", \"properties\": {\"path\": {\"type\": \"string\", \"description\": \"Absolute path to the directory\"}}, \"required\": [\"path\"]}"@,
    {
        "{\"type\": \"object\", \"properties\": {\"path\": {\"type\": \"string\", \"description\": \"Absolute path to the directory\"}}, \"required\": [\"path\"]}".to_owned()
    }

    /// Validate a request: the `path` string parameter is required.
    pub fn request(&self, params: &Vec<(String, ParamValue)>) -> (r: Result<String, ToolError>)
        ensures
            ({
                let looked = crate::extract::spec_params_lookup(
                    crate::extract::params_spec_of(params@),
                    "path"@,
                );
                match r {
                    Ok(s) => {
                        &&& looked matches Some(v)
                        &&& looked->Some_0 matches ParamSpec::Text(t)
                        &&& s@ == t
                    },
                    Err(e) => {
                        &&& (match looked {
                            Some(v) => !(v is Text),
                            None => true,
                        })
                        &&& e matches ToolError::InvalidParameters(m)
                        &&& e->InvalidParameters_0@ == "path is required"@
                    },
                }
            }),
    {
        require_text_param(params, "path", "path is required")
    }
}

/// Runs a shell command from a safe allowlist; the execution is done by the
/// embedding program after `command_request` accepts the line.
pub struct CommandTool;

impl CommandTool {
    /// The tool's unique name.
    pub fn name(&self) -> (r: &'static str)
        ensures
            r@ == "command"@,
    {
        "command"
    }

    /// The tool's description.
    pub fn description(&self) -> (r: &'static str)
        ensures
            r@ == "Execute a shell command (requires approval)"@,
    {
        "Execute a shell command (requires approval)"
    }

    /// The JSON parameter schema, as text.
    pub fn parameters_schema(&self) -> (r: String)
        ensures
            r@
                == "{\"type\": \"object\", \"properties\": {\"command\": {\"type\": \"string\", \"description\": \"Command to execute\"}, \"timeout_secs\": {\"type\": \"integer\", \"description\": \"Timeout in seconds (default: 30)\", \"default\": 30}}, \"required\": [\"command\"]}"@,
    {
        "{\"type\": \"object\", \"properties\": {\"command\": {\"type\": \"string\", \"description\": \"Command to execute\"}, \"timeout_secs\": {\"type\": \"integer\", \"description\": \"Timeout in seconds (default: 30)\", \"default\": 30}}, \"required\": [\"command\"]}".to_owned()
    }
}

/// Extracts the text of a PDF; the extraction call is done by the embedding
/// program, and `assemble_pdf_text` builds the reply from its pages.
pub struct PdfReadTool;

impl PdfReadTool {
    /// The tool's unique name.
    pub fn name(&self) -> (r: &'static str)
        ensures
            r@ == "pdf_read"@,
    {
        "pdf_read"
    }

    /// The tool's description.
    pub fn description(&self) -> (r: &'static str)
        ensures
            r@ == "Read and extract the text of a PDF file."@,
    {
        "Read and extract the text of a PDF file."
    }

    /// The JSON parameter schema, as text.
    pub fn parameters_schema(&self) -> (r: String)
        ensures
            r@
                == "{\"type\": \"object\", \"properties\": {\"path\": {\"type\": \"string\", \"description\": \"Path of the PDF file to read\"}, \"pages\": {\"type\": \"array\", \"items\": {\"type\": \"integer\"}, \"description\": \"Page numbers to extract (all by default)\"}}, \"required\": [\"path\"]}"@,
    {
        "{\"type\": \"object\", \"properties\": {\"path\": {\"type\": \"string\", \"description\": \"Path of the PDF file to read\"}, \"pages\": {\"type\": \"array\", \"items\": {\"type\": \"integer\"}, \"description\": \"Page numbers to extract (all by default)\"}}, \"required\": [\"path\"]}".to_owned()
    }
}

/// Creates a PDF with text content; the rendering is done by the embedding
/// program after the request validates.
pub struct PdfCreateTool;

impl PdfCreateTool {
    /// The tool's unique name.
    pub fn name(&self) -> (r: &'static str)
        ensures
            r@ == "pdf_create"@,
    {
        "pdf_create"
    }

    /// The tool's description.
    pub fn description(&self) -> (r: &'static str)
        ensures
            r@ == "Create a new PDF file with text content."@,
    {
        "Create a new PDF file with text content."
    }

    /// The JSON parameter schema, as text.
    pub fn parameters_schema(&self) -> (r: String)
        ensures
            r@
                == "{\"type\": \"object\", \"properties\": {\"path\": {\"type\": \"string\", \"description\": \"Where to save the PDF\"}, \"title\": {\"type\": \"string\", \"description\": \"Document title (optional)\"}, \"content\": {\"type\": \"string\", \"description\": \"Text content of the PDF\"}, \"font_size\": {\"type\": \"number\", \"description\": \"Font size (default: 12)\"}}, \"required\": [\"path\", \"content\"]}"@,
    {
        "{\"type\": \"object\", \"properties\": {\"path\": {\"type\": \"string\", \"description\": \"Where to save the PDF\"}, \"title\": {\"type\": \"string\", \"description\": \"Document title (optional)\"}, \"content\": {\"type\": \"string\", \"description\": \"Text content of the PDF\"}, \"font_size\": {\"type\": \"number\", \"description\": \"Font size (default: 12)\"}}, \"required\": [\"path\", \"content\"]}".to_owned()
    }
}

/// Adds a text page to an existing PDF; the document surgery is done by the
/// embedding program with `escape_pdf_text` preparing the content stream.
pub struct PdfAddPageTool;

impl PdfAddPageTool {
    /// The tool's unique name.
    pub fn name(&self) -> (r: &'static str)
        ensures
            r@ == "pdf_add_page"@,
    {
        "pdf_add_page"
    }

    /// The tool's description.
    pub fn description(&self) -> (r: &'static str)
        ensures
            r@ == "Add a page with text to an existing PDF."@,
    {
        "Add a page with text to an existing PDF."
    }

    /// The JSON parameter schema, as text.
    pub fn parameters_schema(&self) -> (r: String)
        ensures
            r@
                == "{\"type\": \"object\", \"properties\": {\"path\": {\"type\": \"string\", \"description\": \"Path of the PDF to modify\"}, \"content\": {\"type\": \"string\", \"description\": \"Text content of the new page\"}}, \"required\": [\"path\", \"content\"]}"@,
    {
        "{\"type\": \"object\", \"properties\": {\"path\": {\"type\": \"string\", \"description\": \"Path of the PDF to modify\"}, \"content\": {\"type\": \"string\", \"description\": \"Text content of the new page\"}}, \"required\": [\"path\", \"content\"]}".to_owned()
    }
}

/// Merges PDF files; the request is validated here and refused below two
/// inputs.
pub struct PdfMergeTool;

impl PdfMergeTool {
    /// The tool's unique name.
    pub fn name(&self) -> (r: &'static str)
        ensures
            r@ == "pdf_merge"@,
    {
        "pdf_merge"
    }

    /// The tool's description.
    pub fn description(&self) -> (r: &'static str)
        ensures
            r@ == "Merge several PDF files into one."@,
    {
        "Merge several PDF files into one."
    }

    /// The JSON parameter schema, as text.
    pub fn parameters_schema(&self) -> (r: String)
        ensures
            r@
                == "{\"type\": \"object\", \"properties\": {\"input_files\": {\"type\": \"array\", \"items\": {\"type\": \"string\"}, \"description\": \"Paths of the PDFs to merge\"}, \"output_path\": {\"type\": \"string\", \"description\": \"Path of the output PDF\"}}, \"required\": [\"input_files\", \"output_path\"]}"@,
    {
        "{\"type\": \"object\", \"properties\": {\"input_files\": {\"type\": \"array\", \"items\": {\"type\": \"string\"}, \"description\": \"Paths of the PDFs to merge\"}, \"output_path\": {\"type\": \"string\", \"description\": \"Path of the output PDF\"}}, \"required\": [\"input_files\", \"output_path\"]}".to_owned()
    }

    /// Validate a merge: at least two input files are needed.
    pub fn request(&self, input_files: &Vec<String>) -> (r: Result<(), ToolError>)
        ensures
            input_files@.len() >= 2 ==> r is Ok,
            input_files@.len() < 2 ==> ({
                &&& r matches Err(e)
                &&& r->Err_0 matches ToolError::InvalidParameters(m)
                &&& m@ == "At least 2 files are needed to merge"@
            }),
    {
        if input_files.len() < 2 {
            Err(ToolError::InvalidParameters("At least 2 files are needed to merge".to_owned()))
        } else {
            Ok(())
        }
    }
}

/// Text escaped for a PDF literal string: backslashes, then opening and
/// closing parentheses, each preceded by a backslash.
pub open spec fn spec_escape_pdf_text(s: Seq<char>) -> Seq<char> {
    crate::text::spec_replace_all(
        crate::text::spec_replace_all(
            crate::text::spec_replace_all(s, seq!['\\'], seq!['\\', '\\']),
            seq!['('],
            seq!['\\', '('],
        ),
        seq![')'],
        seq!['\\', ')'],
    )
}

/// Escape text for inclusion in a PDF literal string.
pub fn escape_pdf_text(s: &str) -> (r: String)
    ensures
        r@ == spec_escape_pdf_text(s@),
{
    let chars = str_chars(s);
    let bs: Vec<char> = vec!['\\'];
    let bsbs: Vec<char> = vec!['\\', '\\'];
    let open_paren: Vec<char> = vec!['('];
    let esc_open: Vec<char> = vec!['\\', '('];
    let close_paren: Vec<char> = vec![')'];
    let esc_close: Vec<char> = vec!['\\', ')'];
    proof {
        assert(bs@ =~= seq!['\\']);
        assert(bsbs@ =~= seq!['\\', '\\']);
        assert(open_paren@ =~= seq!['(']);
        assert(esc_open@ =~= seq!['\\', '(']);
        assert(close_paren@ =~= seq![')']);
        assert(esc_close@ =~= seq!['\\', ')']);
    }
    let step1 = crate::text::replace_all(&chars, &bs, &bsbs);
    let step2 = crate::text::replace_all(&step1, &open_paren, &esc_open);
    let step3 = crate::text::replace_all(&step2, &close_paren, &esc_close);
    chars_to_string(&step3)
}

/// Characters of extracted PDF text kept before truncation, to spare the
/// context.
pub const PDF_MAX_CHARS: usize = 8000;

/// One page's heading and body in the assembled reply.
pub open spec fn spec_pdf_page_block(idx: int, trimmed: Seq<char>) -> Seq<char> {
    "--- Page "@ + spec_decimal((idx + 1) as nat) + " ---\n"@ + trimmed + "\n\n"@
}

/// Whether a page filter names index `i`.
pub open spec fn spec_filter_contains(f: Seq<usize>, i: int) -> bool {
    exists|k: int| 0 <= k < f.len() && f[k] == i
}

/// The page-walk of the PDF reply: pages are appended in order, pages kept
/// out by the filter are skipped, empty pages are skipped, and the walk
/// stops once the text has passed 8000 characters, reporting where.
pub open spec fn spec_pdf_walk(
    pages: Seq<Seq<char>>,
    filter: Option<Seq<usize>>,
    i: int,
    text: Seq<char>,
    count: nat,
) -> (Seq<char>, nat, Option<int>)
    decreases pages.len() - i,
    when i >= 0
{
    if i >= pages.len() {
        (text, count, None)
    } else if filter matches Some(f) && !spec_filter_contains(f, i) {
        spec_pdf_walk(pages, filter, i + 1, text, count)
    } else if text.len() > PDF_MAX_CHARS {
        (text, count, Some(i))
    } else {
        let trimmed = spec_trim(pages[i]);
        if trimmed.len() == 0 {
            spec_pdf_walk(pages, filter, i + 1, text, count)
        } else {
            spec_pdf_walk(
                pages,
                filter,
                i + 1,
                text + spec_pdf_page_block(i, trimmed),
                count + 1,
            )
        }
    }
}

/// The assembled reply of the PDF read tool for the given page texts and
/// optional page filter (0-indexed): the walked text, then a truncation note
/// where the walk stopped early, or a fallback note where nothing came out.
pub open spec fn spec_assemble_pdf_text(pages: Seq<Seq<char>>, filter: Option<Seq<usize>>) -> (
    Seq<char>,
    nat,
) {
    let (text, count, stopped) = spec_pdf_walk(pages, filter, 0, Seq::empty(), 0);
    let with_note = match stopped {
        Some(p) => text + "\n[... "@ + spec_decimal((pages.len() - p) as nat)
            + " more pages truncated to spare the context. Use the 'pages' parameter for specific pages.]\n"@,
        None => text,
    };
    if with_note.len() == 0 {
        ("(No extractable text - the PDF may hold images or be scanned)"@, count)
    } else {
        (with_note, count)
    }
}

/// Assemble the PDF read tool's reply from extracted page texts: page
/// blocks with headings, an optional 0-indexed page filter, truncation past
/// 8000 characters with a note, and a fallback note when no text came out.
/// Returns the text and how many pages contributed.
pub fn assemble_pdf_text(pages: &Vec<String>, filter: &Option<Vec<usize>>) -> (r: (String, usize))
    requires
        pages@.len() < 100000,
    ensures
        ({
            let f = match filter {
                Some(fv) => Some(fv@),
                None => None::<Seq<usize>>,
            };
            let (text, count) = spec_assemble_pdf_text(
                pages@.map_values(|p: String| p@),
                f,
            );
            r.0@ == text && r.1 == count
        }),
{
    let ghost gpages = pages@.map_values(|p: String| p@);
    let ghost gfilter: Option<Seq<usize>> = match filter {
        Some(fv) => Some(fv@),
        None => None,
    };
    let mut text = String::new();
    let mut count: usize = 0;
    let mut i: usize = 0;
    let mut stopped: Option<usize> = None;
    proof {
        assert(text@ =~= Seq::<char>::empty());
    }
    while i < pages.len() && stopped.is_none()
        invariant
            i <= pages@.len(),
            count <= i,
            pages@.len() < 100000,
            gpages == pages@.map_values(|p: String| p@),
            *filter matches Some(fv) ==> gfilter == Some(fv@),
            *filter is None ==> gfilter is None,
            stopped is None ==> spec_pdf_walk(gpages, gfilter, 0, Seq::empty(), 0)
                == spec_pdf_walk(gpages, gfilter, i as int, text@, count as nat),
            stopped matches Some(p) ==> p < pages@.len() && spec_pdf_walk(
                gpages,
                gfilter,
                0,
                Seq::empty(),
                0,
            ) == (text@, count as nat, Some(p as int)),
        decreases pages@.len() - i + (if stopped is None {
            1int
        } else {
            0int
        }),
    {
        let ghost text0 = text@;
        let ghost count0 = count as nat;
        let ghost i0 = i as int;
        let mut skip = false;
        match filter {
            Some(f) => {
                if !contains_usize(f, i) {
                    skip = true;
                    proof {
                        assert(*filter is Some);
                        assert(f@ == filter->Some_0@);
                        assert(gfilter == Some(f@));
                        assert(!spec_filter_contains(f@, i0));
                        assert(spec_pdf_walk(gpages, gfilter, i0, text0, count0) == spec_pdf_walk(
                            gpages,
                            gfilter,
                            i0 + 1,
                            text0,
                            count0,
                        ));
                    }
                } else {
                    proof {
                        assert(*filter matches Some(fv) && fv@ == f@);
                        assert(gfilter == Some(f@));
                        assert(spec_filter_contains(f@, i0));
                    }
                }
            },
            None => {},
        }
        if skip {
            i = i + 1;
            continue ;
        }
        let tlen = text.as_str().unicode_len();
        if tlen > PDF_MAX_CHARS {
            stopped = Some(i);
            proof {
                assert(spec_pdf_walk(gpages, gfilter, i0, text0, count0) == (
                text0,
                count0,
                Some(i0),
                ));
            }
        } else {
            let page_chars = str_chars(pages[i].as_str());
            let trimmed = trim_chars(&page_chars);
            proof {
                assert(gpages[i as int] == pages@[i as int]@);
                assert(trimmed@ == spec_trim(gpages[i as int]));
            }
            if trimmed.len() > 0 {
                append_str(&mut text, "--- Page ");
                let d = u64_to_string((i + 1) as u64);
                append_str(&mut text, d.as_str());
                append_str(&mut text, " ---\n");
                let tstr = chars_to_string(&trimmed);
                append_str(&mut text, tstr.as_str());
                append_str(&mut text, "\n\n");
                count = count + 1;
                proof {
                    assert(text@ == text0 + spec_pdf_page_block(i0, trimmed@));
                    assert(spec_pdf_walk(gpages, gfilter, i0, text0, count0) == spec_pdf_walk(
                        gpages,
                        gfilter,
                        i0 + 1,
                        text0 + spec_pdf_page_block(i0, trimmed@),
                        count0 + 1,
                    ));
                }
            } else {
                proof {
                    assert(spec_pdf_walk(gpages, gfilter, i0, text0, count0) == spec_pdf_walk(
                        gpages,
                        gfilter,
                        i0 + 1,
                        text0,
                        count0,
                    ));
                }
            }
            i = i + 1;
        }
    }
    if stopped.is_none() {
        proof {
            assert(spec_pdf_walk(gpages, gfilter, i as int, text@, count as nat) == (
            text@,
            count as nat,
            None::<int>,
            ));
        }
    }
    match stopped {
        Some(p) => {
            append_str(&mut text, "\n[... ");
            let remaining: u64 = (pages.len() - p) as u64;
            let d = u64_to_string(remaining);
            append_str(&mut text, d.as_str());
            append_str(
                &mut text,
                " more pages truncated to spare the context. Use the 'pages' parameter for specific pages.]\n",
            );
        },
        None => {},
    }
    if text.as_str().unicode_len() == 0 {
        let fallback: String =
            "(No extractable text - the PDF may hold images or be scanned)".to_owned();
        (fallback, count)
    } else {
        (text, count)
    }
}

/// Whether a vector of indices holds `x`.
fn contains_usize(v: &Vec<usize>, x: usize) -> (r: bool)
    ensures
        r == spec_filter_contains(v@, x as int),
{
    let mut i: usize = 0;
    while i < v.len()
        invariant
            i <= v@.len(),
            forall|k: int| 0 <= k < i ==> (#[trigger] v@[k]) != x,
        decreases v@.len() - i,
    {
        if v[i] == x {
            proof {
                assert(v@.map_values(|y: usize| y as int)[i as int] == x as int);
            }
            return true;
        }
        i = i + 1;
    }
    false
}

} // verus!
