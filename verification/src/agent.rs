//! The agent loop's state and decisions.
//!
//! The loop repeats bounded think–act–observe–reflect cycles: guard checks,
//! proactive compression, generation, garbage and tool-call classification,
//! permission and execution bookkeeping. The decisions live here as pure
//! functions over plain values; the surrounding task performs the awaiting.

use vstd::prelude::*;

use crate::extract::{extract_tool_call, looks_like_malformed_call, spec_extract_tool_call, ToolCall};
use crate::message::Message;
use crate::permissions::PermissionLevel;
use crate::text::{
    ascii_lower, contains_seq, count_occurrences, count_words, spec_ascii_lower, spec_count_from,
    spec_word_count, str_chars, subrange_chars,
};

verus! {

/// Bounds of one agent run.
#[derive(Debug, Clone, PartialEq, Eq, Structural)]
pub struct AgentLoopConfig {
    /// Most iterations a run may take.
    pub max_iterations: u32,
    /// Most seconds of wall time a run may take.
    pub max_runtime_secs: u64,
}

impl Default for AgentLoopConfig {
    /// Ten iterations inside five minutes.
    fn default() -> (r: Self)
        ensures
            r.max_iterations == 10,
            r.max_runtime_secs == 300,
    {
        AgentLoopConfig { max_iterations: 10, max_runtime_secs: 300 }
    }
}

/// Agent configuration.
#[derive(Debug, Clone)]
pub struct AgentConfig {
    /// Default permission level for tools.
    pub default_permission: PermissionLevel,
    /// Whether tool calling is enabled at all.
    pub enable_tools: bool,
    /// Whether web search tools are registered.
    pub enable_web_search: bool,
    /// Whether code search is registered.
    pub enable_code_search: bool,
    /// Whether read-only file system tools are registered.
    pub enable_filesystem: bool,
    /// Whether the legacy safe command tool is registered.
    pub enable_commands: bool,
    /// Whether file write and edit tools are registered.
    pub enable_file_write: bool,
    /// Whether full shell tools are registered.
    pub enable_bash: bool,
    /// Whether git tools are registered.
    pub enable_git: bool,
    /// Whether web fetch and download tools are registered.
    pub enable_web_fetch: bool,
    /// Whether developer tools are registered.
    pub enable_dev_tools: bool,
    /// Whether system inspection tools are registered.
    pub enable_system_tools: bool,
    /// Seconds a tool execution may take.
    pub tool_timeout_secs: u64,
    /// The run bounds.
    pub loop_config: AgentLoopConfig,
    /// External tool servers disabled by id.
    pub disabled_servers: Vec<String>,
}

impl Default for AgentConfig {
    /// Everything but the legacy command tool enabled, read-only by
    /// default, two minutes per tool.
    fn default() -> (r: Self)
        ensures
            r.default_permission == PermissionLevel::ReadOnly,
            r.enable_tools,
            r.enable_web_search,
            r.enable_code_search,
            r.enable_filesystem,
            !r.enable_commands,
            r.enable_file_write,
            r.enable_bash,
            r.enable_git,
            r.enable_web_fetch,
            r.enable_dev_tools,
            r.enable_system_tools,
            r.tool_timeout_secs == 120,
            r.loop_config.max_iterations == 10,
            r.loop_config.max_runtime_secs == 300,
            r.disabled_servers@.len() == 0,
    {
        AgentConfig {
            default_permission: PermissionLevel::ReadOnly,
            enable_tools: true,
            enable_web_search: true,
            enable_code_search: true,
            enable_filesystem: true,
            enable_commands: false,
            enable_file_write: true,
            enable_bash: true,
            enable_git: true,
            enable_web_fetch: true,
            enable_dev_tools: true,
            enable_system_tools: true,
            tool_timeout_secs: 120,
            loop_config: AgentLoopConfig { max_iterations: 10, max_runtime_secs: 300 },
            disabled_servers: Vec::new(),
        }
    }
}

/// One tool invocation as recorded in a run's history; append-only.
#[derive(Debug, Clone, PartialEq)]
pub struct ToolHistoryEntry {
    /// The tool's name.
    pub tool_name: String,
    /// The parameters, rendered as text.
    pub params_text: String,
    /// The result message on success.
    pub result_message: Option<String>,
    /// The error text on failure or denial.
    pub error: Option<String>,
    /// Seconds since the epoch when the call was made.
    pub timestamp: u64,
    /// How long the call took, in milliseconds.
    pub duration_ms: u64,
}

/// How many trailing identical tool invocations count as stuck.
pub const STUCK_WINDOW: u32 = 3;

/// How many consecutive errors count as stuck.
pub const STUCK_ERRORS: u32 = 3;

/// The per-run agent context, created at the start of each user turn and
/// discarded at its end.
#[derive(Debug, Clone)]
pub struct AgentContext {
    /// Iterations begun so far.
    pub iteration: u32,
    /// Errors since the last success.
    pub consecutive_errors: u32,
    /// Compactions performed this run; never more than two.
    pub compression_count: u32,
    /// The tools invoked so far, in order.
    pub tool_history: Vec<ToolHistoryEntry>,
    /// The model's last full response.
    pub last_response: Option<String>,
}

/// Whether the last `STUCK_WINDOW` recorded invocations are the same call,
/// name and parameters alike.
pub open spec fn spec_repeating_calls(history: Seq<ToolHistoryEntry>) -> bool {
    history.len() >= STUCK_WINDOW && forall|i: int|
        history.len() - STUCK_WINDOW <= i < history.len()
            ==> (#[trigger] history[i]).tool_name@ == history[history.len() - 1].tool_name@
            && history[i].params_text@ == history[history.len() - 1].params_text@
}

/// A run is stuck when it repeats the same call or keeps failing.
pub open spec fn spec_is_stuck(ctx: AgentContext) -> bool {
    spec_repeating_calls(ctx.tool_history@) || ctx.consecutive_errors >= STUCK_ERRORS
}

impl AgentContext {
    /// The invariant: at most two compactions ever happen in one run.
    pub open spec fn wf(&self) -> bool {
        self.compression_count <= 2
    }

    /// A fresh context at the start of a user turn.
    pub fn new() -> (r: Self)
        ensures
            r.wf(),
            r.iteration == 0,
            r.consecutive_errors == 0,
            r.compression_count == 0,
            r.tool_history@.len() == 0,
            r.last_response is None,
    {
        AgentContext {
            iteration: 0,
            consecutive_errors: 0,
            compression_count: 0,
            tool_history: Vec::new(),
            last_response: None,
        }
    }

    /// Whether this run is stuck: the last three tool invocations were
    /// identical, or the error streak reached three.
    pub fn is_stuck(&self) -> (r: bool)
        ensures
            r == spec_is_stuck(*self),
    {
        if self.consecutive_errors >= STUCK_ERRORS {
            return true;
        }
        let n = self.tool_history.len();
        if n < 3 {
            proof {
                assert(!spec_repeating_calls(self.tool_history@));
            }
            return false;
        }
        let last = n - 1;
        let mut i: usize = n - 3;
        while i < last
            invariant
                self.consecutive_errors < STUCK_ERRORS,
                n == self.tool_history@.len(),
                n >= 3,
                last == n - 1,
                n - 3 <= i <= last,
                forall|k: int|
                    n - 3 <= k < i ==> (#[trigger] self.tool_history@[k]).tool_name@
                        == self.tool_history@[n - 1].tool_name@ && self.tool_history@[k].params_text@
                        == self.tool_history@[n - 1].params_text@,
            decreases last - i,
        {
            let same_name = crate::extract::str_equal(
                self.tool_history[i].tool_name.as_str(),
                self.tool_history[last].tool_name.as_str(),
            );
            let same_params = crate::extract::str_equal(
                self.tool_history[i].params_text.as_str(),
                self.tool_history[last].params_text.as_str(),
            );
            if !(same_name && same_params) {
                proof {
                    let h = self.tool_history@;
                    assert(h[i as int].tool_name@ != h[h.len() - 1].tool_name@ || h[
                        i as int
                    ].params_text@ != h[h.len() - 1].params_text@);
                    assert(!spec_repeating_calls(h));
                }
                return false;
            }
            i = i + 1;
        }
        proof {
            let h = self.tool_history@;
            assert forall|k: int| h.len() - STUCK_WINDOW <= k < h.len() implies (#[trigger] h[
                k
            ]).tool_name@ == h[h.len() - 1].tool_name@ && h[k].params_text@ == h[h.len()
                - 1].params_text@ by {
                if k < h.len() - 1 {
                    assert(h[k].tool_name@ == h[h.len() - 1].tool_name@);
                }
            }
            assert(spec_repeating_calls(h));
        }
        true
    }

    /// Begin one iteration.
    pub fn begin_iteration(&mut self)
        requires
            old(self).wf(),
            old(self).iteration < u32::MAX,
        ensures
            final(self).wf(),
            final(self).iteration == old(self).iteration + 1,
            final(self).consecutive_errors == old(self).consecutive_errors,
            final(self).compression_count == old(self).compression_count,
            final(self).tool_history == old(self).tool_history,
            final(self).last_response == old(self).last_response,
    {
        self.iteration = self.iteration + 1;
    }

    /// Whether another compaction is allowed this run.
    pub fn can_compact(&self) -> (r: bool)
        ensures
            r == (self.compression_count < 2),
    {
        self.compression_count < 2
    }

    /// Record one compaction; callers ask `can_compact` first, which is what
    /// bounds a run to two compactions.
    pub fn record_compaction(&mut self)
        requires
            old(self).wf(),
            old(self).compression_count < 2,
        ensures
            final(self).wf(),
            final(self).compression_count == old(self).compression_count + 1,
            final(self).iteration == old(self).iteration,
            final(self).consecutive_errors == old(self).consecutive_errors,
            final(self).tool_history == old(self).tool_history,
    {
        self.compression_count = self.compression_count + 1;
    }

    /// Record a successful tool call: the streak resets and the history
    /// grows by this entry.
    pub fn record_tool_success(&mut self, entry: ToolHistoryEntry)
        requires
            old(self).wf(),
        ensures
            final(self).wf(),
            final(self).consecutive_errors == 0,
            final(self).tool_history@ == old(self).tool_history@.push(entry),
            final(self).compression_count == old(self).compression_count,
            final(self).iteration == old(self).iteration,
    {
        self.tool_history.push(entry);
        self.consecutive_errors = 0;
    }

    /// Record a failed or denied tool call: the streak grows, saturating,
    /// and the history grows by this entry.
    pub fn record_tool_failure(&mut self, entry: ToolHistoryEntry)
        requires
            old(self).wf(),
        ensures
            final(self).wf(),
            old(self).consecutive_errors < u32::MAX ==> final(self).consecutive_errors == old(
                self,
            ).consecutive_errors + 1,
            old(self).consecutive_errors == u32::MAX ==> final(self).consecutive_errors == old(
                self,
            ).consecutive_errors,
            final(self).tool_history@ == old(self).tool_history@.push(entry),
            final(self).compression_count == old(self).compression_count,
            final(self).iteration == old(self).iteration,
    {
        self.tool_history.push(entry);
        if self.consecutive_errors < u32::MAX {
            self.consecutive_errors = self.consecutive_errors + 1;
        }
    }

    /// Record a generation error: only the streak grows.
    pub fn record_generation_error(&mut self)
        requires
            old(self).wf(),
        ensures
            final(self).wf(),
            old(self).consecutive_errors < u32::MAX ==> final(self).consecutive_errors == old(
                self,
            ).consecutive_errors + 1,
            old(self).consecutive_errors == u32::MAX ==> final(self).consecutive_errors == old(
                self,
            ).consecutive_errors,
            final(self).tool_history == old(self).tool_history,
            final(self).compression_count == old(self).compression_count,
            final(self).iteration == old(self).iteration,
    {
        if self.consecutive_errors < u32::MAX {
            self.consecutive_errors = self.consecutive_errors + 1;
        }
    }
}

/// Why a run stops at the guard.
#[derive(Debug, Clone, Copy, PartialEq, Eq, Structural)]
pub enum StopReason {
    /// The user cancelled.
    Cancelled,
    /// The run repeats itself or keeps failing.
    Stuck,
    /// The wall-clock budget ran out.
    TimeBudget,
    /// The iteration budget ran out.
    IterationBudget,
}

/// What the guard decides at the top of each iteration.
pub open spec fn spec_loop_guard(
    ctx: AgentContext,
    cancelled: bool,
    elapsed_secs: u64,
    cfg: AgentLoopConfig,
) -> Option<StopReason> {
    if cancelled {
        Some(StopReason::Cancelled)
    } else if spec_is_stuck(ctx) {
        Some(StopReason::Stuck)
    } else if elapsed_secs >= cfg.max_runtime_secs {
        Some(StopReason::TimeBudget)
    } else if ctx.iteration >= cfg.max_iterations {
        Some(StopReason::IterationBudget)
    } else {
        None
    }
}

/// The guard at the top of each iteration: stop on cancellation, a stuck
/// state, the wall-clock budget, or the iteration budget; otherwise go on.
pub fn loop_guard(ctx: &AgentContext, cancelled: bool, elapsed_secs: u64, cfg: &AgentLoopConfig)
    -> (r: Option<StopReason>)
    ensures
        r == spec_loop_guard(*ctx, cancelled, elapsed_secs, *cfg),
{
    if cancelled {
        Some(StopReason::Cancelled)
    } else if ctx.is_stuck() {
        Some(StopReason::Stuck)
    } else if elapsed_secs >= cfg.max_runtime_secs {
        Some(StopReason::TimeBudget)
    } else if ctx.iteration >= cfg.max_iterations {
        Some(StopReason::IterationBudget)
    } else {
        None
    }
}

/// Agent termination: a run whose guard lets it continue has spent neither
/// its iteration budget nor its wall-clock budget, and each pass through the
/// loop raises the iteration count by one, so every run ends within
/// `max_iterations` iterations or `max_runtime_secs` seconds of wall time,
/// whichever is reached sooner.
pub proof fn lemma_agent_termination(
    ctx: AgentContext,
    cancelled: bool,
    elapsed_secs: u64,
    cfg: AgentLoopConfig,
)
    ensures
        spec_loop_guard(ctx, cancelled, elapsed_secs, cfg) is None ==> ctx.iteration
            < cfg.max_iterations && elapsed_secs < cfg.max_runtime_secs,
        ctx.iteration >= cfg.max_iterations ==> spec_loop_guard(
            ctx,
            cancelled,
            elapsed_secs,
            cfg,
        ) is Some,
        elapsed_secs >= cfg.max_runtime_secs ==> spec_loop_guard(
            ctx,
            cancelled,
            elapsed_secs,
            cfg,
        ) is Some,
{
}

/// Compaction bound: a well-formed run context never records more than two
/// compactions; `record_compaction` demands room and `can_compact` is how
/// the loop asks.
pub proof fn lemma_compaction_bound(ctx: AgentContext)
    requires
        ctx.wf(),
    ensures
        ctx.compression_count <= 2,
{
}

/// Estimated token count of a message list: a quarter of the character
/// count, saturating.
pub open spec fn spec_estimate_tokens(messages: Seq<Message>) -> int
    decreases messages.len(),
{
    if messages.len() == 0 {
        0
    } else {
        spec_estimate_tokens(messages.drop_last()) + messages.last().content@.len() / 4
    }
}

/// Estimate the token count of a message list as characters over four,
/// saturating at `u64::MAX`.
pub fn estimate_tokens(messages: &Vec<Message>) -> (r: u64)
    ensures
        spec_estimate_tokens(messages@) <= u64::MAX ==> r == spec_estimate_tokens(messages@),
        r <= spec_estimate_tokens(messages@),
{
    let mut total: u64 = 0;
    let mut i: usize = 0;
    while i < messages.len()
        invariant
            i <= messages@.len(),
            spec_estimate_tokens(messages@.take(i as int)) <= u64::MAX ==> total
                == spec_estimate_tokens(messages@.take(i as int)),
            total <= spec_estimate_tokens(messages@.take(i as int)),
        decreases messages@.len() - i,
    {
        let len: usize = messages[i].content.as_str().unicode_len();
        let add: u64 = (len / 4) as u64;
        proof {
            assert(messages@.take(i + 1 as int).drop_last() =~= messages@.take(i as int));
            assert(messages@.take(i + 1 as int).last() == messages@[i as int]);
            lemma_estimate_nonneg(messages@.take(i as int));
        }
        if total <= u64::MAX - add {
            total = total + add;
        } else {
            total = u64::MAX;
        }
        i = i + 1;
    }
    proof {
        assert(messages@.take(messages@.len() as int) =~= messages@);
    }
    total
}

proof fn lemma_estimate_nonneg(messages: Seq<Message>)
    ensures
        spec_estimate_tokens(messages) >= 0,
    decreases messages.len(),
{
    if messages.len() > 0 {
        lemma_estimate_nonneg(messages.drop_last());
    }
}

/// Whether a proactive compaction fires before generating: the estimate
/// exceeds three quarters of the context and no compaction has run yet this
/// turn.
pub open spec fn spec_needs_proactive_compaction(
    estimate: u64,
    max_context_size: u32,
    compression_count: u32,
) -> bool {
    estimate > (max_context_size as int) * 75 / 100 && compression_count == 0
}

/// Decide a proactive compaction.
pub fn needs_proactive_compaction(estimate: u64, max_context_size: u32, compression_count: u32)
    -> (r: bool)
    ensures
        r == spec_needs_proactive_compaction(estimate, max_context_size, compression_count),
{
    let threshold: u64 = (max_context_size as u64) * 75 / 100;
    estimate > threshold && compression_count == 0
}

/// The fragments whose repetition marks fabricated tool output.
pub open spec fn spec_garbage_patterns() -> Seq<Seq<char>> {
    seq![
        "assistantcommentary"@,
        "userresponse"@,
        "toolresult:"@,
        "\u{2705} pdf_read:"@,
        "\u{2705} file_read:"@,
        "contenu du pdf:"@,
    ]
}

/// Whether generated text looks corrupted: a marker fragment repeats more
/// than twice in the lower-cased text, the average word is longer than 25
/// characters over at least 300, or a 20-character chunk repeats at least
/// four times among the first 100 chunks.
pub open spec fn spec_is_garbage_text(content: Seq<char>) -> bool {
    let lower = content.map_values(|c| spec_ascii_lower(c));
    ||| spec_count_from(lower, "assistantcommentary"@, 0) > 2
    ||| spec_count_from(lower, "userresponse"@, 0) > 2
    ||| spec_count_from(lower, "toolresult:"@, 0) > 2
    ||| spec_count_from(lower, "\u{2705} pdf_read:"@, 0) > 2
    ||| spec_count_from(lower, "\u{2705} file_read:"@, 0) > 2
    ||| spec_count_from(lower, "contenu du pdf:"@, 0) > 2
    ||| (content.len() > 300 && spec_word_count(content, 0, false) > 0 && content.len() as int / (
    spec_word_count(content, 0, false) as int) > 25)
    ||| (content.len() > 200 && spec_chunk_repeats(content) >= 4)
}

/// How many of the first 100 20-character chunks equal the first chunk.
pub open spec fn spec_chunk_repeats(content: Seq<char>) -> int {
    spec_chunk_repeat_count(content, 0)
}

/// Count, among chunk indices `k` and up (bounded by 100), the whole
/// 20-character chunks equal to the first chunk.
pub open spec fn spec_chunk_repeat_count(content: Seq<char>, k: int) -> int
    decreases 100 - k,
    when 0 <= k <= 100
{
    if k >= 100 || (k + 1) * 20 > content.len() {
        0
    } else {
        (if content.subrange(k * 20, (k + 1) * 20) == content.subrange(0, 20) {
            1int
        } else {
            0int
        }) + spec_chunk_repeat_count(content, k + 1)
    }
}

/// Detect corrupted model output.
pub fn is_garbage_text(content: &str) -> (r: bool)
    ensures
        r == spec_is_garbage_text(content@),
{
    let chars = str_chars(content);
    let mut lower: Vec<char> = Vec::new();
    let mut i: usize = 0;
    while i < chars.len()
        invariant
            i <= chars@.len(),
            lower@ == chars@.take(i as int).map_values(|c| spec_ascii_lower(c)),
        decreases chars@.len() - i,
    {
        lower.push(ascii_lower(chars[i]));
        proof {
            assert(lower@ =~= chars@.take(i + 1 as int).map_values(|c| spec_ascii_lower(c)));
        }
        i = i + 1;
    }
    proof {
        assert(chars@.take(chars@.len() as int) =~= chars@);
    }
    let p1 = str_chars("assistantcommentary");
    let p2 = str_chars("userresponse");
    let p3 = str_chars("toolresult:");
    let p4 = str_chars("\u{2705} pdf_read:");
    let p5 = str_chars("\u{2705} file_read:");
    let p6 = str_chars("contenu du pdf:");
    proof {
        reveal_strlit("assistantcommentary");
        reveal_strlit("userresponse");
        reveal_strlit("toolresult:");
        reveal_strlit("\u{2705} pdf_read:");
        reveal_strlit("\u{2705} file_read:");
        reveal_strlit("contenu du pdf:");
    }
    if count_occurrences(&lower, &p1) > 2 || count_occurrences(&lower, &p2) > 2
        || count_occurrences(&lower, &p3) > 2 || count_occurrences(&lower, &p4) > 2
        || count_occurrences(&lower, &p5) > 2 || count_occurrences(&lower, &p6) > 2 {
        return true;
    }
    let words = count_words(&chars);
    if chars.len() > 300 && words > 0 && chars.len() / words > 25 {
        return true;
    }
    if chars.len() > 200 {
        let mut repeats: u32 = 0;
        let mut k: usize = 0;
        let ghost g = spec_chunk_repeats(chars@);
        while k < 100 && (k + 1) * 20 <= chars.len()
            invariant
                0 <= k <= 100,
                repeats <= k,
                chars@.len() <= usize::MAX,
                spec_chunk_repeats(chars@) == repeats + spec_chunk_repeat_count(chars@, k as int),
            decreases 100 - k,
        {
            let chunk = subrange_chars(&chars, k * 20, (k + 1) * 20);
            let first = subrange_chars(&chars, 0, 20);
            let mut eq = true;
            let mut j: usize = 0;
            while j < 20
                invariant
                    j <= 20,
                    chunk@ == chars@.subrange((k * 20) as int, ((k + 1) * 20) as int),
                    first@ == chars@.subrange(0, 20),
                    chunk@.len() == 20,
                    first@.len() == 20,
                    eq ==> forall|m: int| 0 <= m < j ==> chunk@[m] == first@[m],
                    !eq ==> chunk@ != first@,
                decreases 20 - j,
            {
                if chunk[j] != first[j] {
                    eq = false;
                }
                j = j + 1;
            }
            proof {
                if eq {
                    assert(chunk@ =~= first@);
                }
                assert(eq == (chars@.subrange((k * 20) as int, ((k + 1) * 20) as int)
                    == chars@.subrange(0, 20)));
                assert(spec_chunk_repeat_count(chars@, k as int) == (if chars@.subrange(
                    (k * 20) as int,
                    ((k + 1) * 20) as int,
                ) == chars@.subrange(0, 20) {
                    1int
                } else {
                    0int
                }) + spec_chunk_repeat_count(chars@, k + 1));
            }
            if eq {
                repeats = repeats + 1;
            }
            k = k + 1;
        }
        proof {
            if k < 100 {
                assert(spec_chunk_repeat_count(chars@, k as int) == 0);
            } else {
                assert(spec_chunk_repeat_count(chars@, k as int) == 0);
            }
        }
        if repeats >= 4 {
            return true;
        }
    }
    false
}

/// What one generated turn is, once streaming ended without error.
pub enum ResponseClass {
    /// The text looks corrupted; replace it and stop.
    Garbage,
    /// A well-formed tool call to arbitrate and execute.
    Call(ToolCall),
    /// A malformed attempt at a call; retry with a format reminder.
    MalformedRetry,
    /// A final answer for the user; the run ends.
    FinalAnswer,
}

/// Classify a finished assistant turn: corrupted text is garbage (only
/// checked past 200 characters); a extracted call is a call; text that looks
/// like a failed call is retried while fewer than two consecutive errors
/// stand; anything else is the final answer.
pub fn classify_response(text: &str, consecutive_errors: u32) -> (r: ResponseClass)
    ensures
        ({
            let garbage = text@.len() > 200 && spec_is_garbage_text(text@);
            match r {
                ResponseClass::Garbage => garbage,
                ResponseClass::Call(call) => !garbage && spec_extract_tool_call(text@) == Some(
                    (call.tool@, call.params_view()),
                ),
                ResponseClass::MalformedRetry => !garbage && spec_extract_tool_call(text@) is None
                    && ((contains_seq(text@, "{\"tool\""@) || contains_seq(text@, "{ \"tool\""@))
                    && contains_seq(text@, "\"params\""@)) && consecutive_errors < 2,
                ResponseClass::FinalAnswer => !garbage && spec_extract_tool_call(text@) is None && !(
                ((contains_seq(text@, "{\"tool\""@) || contains_seq(text@, "{ \"tool\""@))
                    && contains_seq(text@, "\"params\""@)) && consecutive_errors < 2),
            }
        }),
{
    let n = {
        let chars = str_chars(text);
        chars.len()
    };
    if n > 200 && is_garbage_text(text) {
        return ResponseClass::Garbage;
    }
    match extract_tool_call(text) {
        Some(call) => ResponseClass::Call(call),
        None => {
            if looks_like_malformed_call(text) && consecutive_errors < 2 {
                ResponseClass::MalformedRetry
            } else {
                ResponseClass::FinalAnswer
            }
        },
    }
}

/// What follows a truncated generation: compact when the run still may,
/// else stop.
pub fn on_truncated(ctx: &AgentContext) -> (compact: bool)
    ensures
        compact == (ctx.compression_count < 2),
{
    ctx.compression_count < 2
}

/// What follows a failed tool call: reflect and retry while fewer than four
/// errors stand; at four, direct the model to a final explanation.
pub fn after_tool_failure(consecutive_errors: u32) -> (reflect: bool)
    ensures
        reflect == (consecutive_errors < 4),
{
    consecutive_errors < 4
}

/// On loop exit, a trailing empty assistant message is removed; anything
/// else is kept as it stands.
pub fn drop_trailing_empty_assistant(messages: &mut Vec<Message>)
    ensures
        old(messages)@.len() > 0 && old(messages)@.last().role == crate::message::Role::Assistant
            && old(messages)@.last().content@.len() == 0 ==> final(messages)@ == old(
            messages,
        )@.drop_last(),
        !(old(messages)@.len() > 0 && old(messages)@.last().role
            == crate::message::Role::Assistant && old(messages)@.last().content@.len() == 0)
            ==> final(messages)@ == old(messages)@,
{
    let n = messages.len();
    if n > 0 {
        let last = &messages[n - 1];
        if matches!(last.role, crate::message::Role::Assistant) && last.content.as_str().is_empty()
        {
            messages.pop();
            proof {
                assert(messages@ =~= old(messages)@.drop_last());
            }
        }
    }
}

} // verus!
