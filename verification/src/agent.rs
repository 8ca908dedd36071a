//! The agentic exchange: how tool errors and tool results are worded for the model and
//! the user, and the rounds of model replies and tool calls that make up one request.
use vstd::prelude::*;

use crate::config::{ToolDisplayVerbosity, TOOL_DISPLAY_FULL_RESULT_CAP};
use crate::json::{serde_json_text, to_json_string, Json, JsonValue};
use crate::types::{
    calls_view, messages_view, opt_str, FunctionCall, FunctionCallView, Message, MessageView, ToolCall,
    ToolCallView,
};
use crate::text::{
    ascii_lower_seq, chars_of, contains, contains_chars, find_char, first_index_of,
    string_from_range, to_ascii_lowercase, trim, trim_str,
};
use crate::tools::describe::{brief_action, brief_action_of};

verus! {

// ── Tool errors ───────────────────────────────────────────────────────────────

pub open spec fn path_hint() -> Seq<char> {
    "Hint: paths must be relative (e.g. 'src/main.rs'). Use '.' to refer to the working directory root. Do not use '..' or absolute paths from outside the working directory."@
}

pub open spec fn argument_hint() -> Seq<char> {
    "Hint: this is NOT a path-format problem. Re-read the tool's parameter list and include EVERY required argument on the next call."@
}

pub open spec fn regex_hint() -> Seq<char> {
    "Hint: escape special characters (use '\\\\.md$' to match files ending in .md) and ensure the regex is valid Rust regex syntax."@
}

pub open spec fn missing_path_hint() -> Seq<char> {
    "Hint: the path does not exist. Verify with `find_files` or `list_files` before retrying. Do not guess a different path — if you cannot locate the file, ask the user."@
}

pub open spec fn occupied_hint() -> Seq<char> {
    "Hint: the destination is occupied. Either choose a different path, or — if the user's intent was to modify the existing file — use `patch_file` or `edit_file` instead."@
}

pub open spec fn permission_hint() -> Seq<char> {
    "Hint: this is a system permission error and cannot be fixed by retrying. Stop and report it to the user in plain text."@
}

pub open spec fn nothing_matched_hint() -> Seq<char> {
    "Hint: your pattern did not match anything actionable. Either widen the regex or confirm with the user that there is anything to do."@
}

pub open spec fn patch_hint() -> Seq<char> {
    "Hint: `patch_file` needs a search string that appears EXACTLY ONCE. Read the file with `read_file` first, then choose a longer/more unique substring. If the change is broad, use `edit_file` instead."@
}

pub open spec fn generic_hint() -> Seq<char> {
    "Hint: review the tool description and arguments, then either retry with corrected input or report the issue to the user."@
}

/// The recovery hint for an error whose ASCII-lowercased text is `lower`: the first
/// category whose marker phrases occur in it.
pub open spec fn hint_for(lower: Seq<char>) -> Seq<char> {
    if contains(lower, "path '"@) || contains(lower, "outside the working directory"@) || contains(
        lower,
        "'..' components"@,
    ) || contains(lower, "working directory not accessible"@) {
        path_hint()
    } else if contains(lower, "missing required argument"@) || contains(
        lower,
        "missing required array"@,
    ) {
        argument_hint()
    } else if contains(lower, "invalid regex"@) || contains(lower, "invalid filename regex"@) {
        regex_hint()
    } else if contains(lower, "no such file"@) || contains(lower, "not found"@) || contains(
        lower,
        "nosuchfile"@,
    ) {
        missing_path_hint()
    } else if contains(lower, "already exists"@) {
        occupied_hint()
    } else if contains(lower, "permission denied"@) || contains(lower, "access is denied"@) {
        permission_hint()
    } else if contains(lower, "matched files but produced no filename changes"@) || contains(
        lower,
        "no files matched"@,
    ) {
        nothing_matched_hint()
    } else if contains(lower, "must appear exactly once"@) || contains(lower, "does not appear in"@) {
        patch_hint()
    } else {
        generic_hint()
    }
}

/// What the model is told about a failed tool call.
pub open spec fn tool_error_text(msg: Seq<char>) -> Seq<char> {
    "Error: "@ + msg + "\n"@ + hint_for(ascii_lower_seq(msg))
}

fn has(lower: &Vec<char>, pat: &str) -> (r: bool)
    ensures
        r == contains(lower@, pat@),
{
    let p = chars_of(pat);
    contains_chars(lower, &p)
}

fn hint_text(lower: &Vec<char>) -> (r: &'static str)
    ensures
        r@ == hint_for(lower@),
{
    if has(lower, "path '") || has(lower, "outside the working directory") || has(
        lower,
        "'..' components",
    ) || has(lower, "working directory not accessible") {
        "Hint: paths must be relative (e.g. 'src/main.rs'). Use '.' to refer to the working directory root. Do not use '..' or absolute paths from outside the working directory."
    } else if has(lower, "missing required argument") || has(lower, "missing required array") {
        "Hint: this is NOT a path-format problem. Re-read the tool's parameter list and include EVERY required argument on the next call."
    } else if has(lower, "invalid regex") || has(lower, "invalid filename regex") {
        "Hint: escape special characters (use '\\\\.md$' to match files ending in .md) and ensure the regex is valid Rust regex syntax."
    } else if has(lower, "no such file") || has(lower, "not found") || has(lower, "nosuchfile") {
        "Hint: the path does not exist. Verify with `find_files` or `list_files` before retrying. Do not guess a different path — if you cannot locate the file, ask the user."
    } else if has(lower, "already exists") {
        "Hint: the destination is occupied. Either choose a different path, or — if the user's intent was to modify the existing file — use `patch_file` or `edit_file` instead."
    } else if has(lower, "permission denied") || has(lower, "access is denied") {
        "Hint: this is a system permission error and cannot be fixed by retrying. Stop and report it to the user in plain text."
    } else if has(lower, "matched files but produced no filename changes") || has(
        lower,
        "no files matched",
    ) {
        "Hint: your pattern did not match anything actionable. Either widen the regex or confirm with the user that there is anything to do."
    } else if has(lower, "must appear exactly once") || has(lower, "does not appear in") {
        "Hint: `patch_file` needs a search string that appears EXACTLY ONCE. Read the file with `read_file` first, then choose a longer/more unique substring. If the change is broad, use `edit_file` instead."
    } else {
        "Hint: review the tool description and arguments, then either retry with corrected input or report the issue to the user."
    }
}

/// Any tool error, worded for the model with a recovery hint for its category.
pub fn format_tool_error(msg: &str) -> (r: String)
    ensures
        r@ == tool_error_text(msg@),
{
    let lower = to_ascii_lowercase(msg);
    let hint = hint_text(&lower);
    let mut r = String::from_str("Error: ");
    r.append(msg);
    r.append("\n");
    r.append(hint);
    r
}

// ── Tool summaries ────────────────────────────────────────────────────────────

/// `s.lines().next().unwrap_or("")`: the text before the first line ending.
pub open spec fn first_line(s: Seq<char>) -> Seq<char> {
    if s.len() == 0 {
        Seq::empty()
    } else {
        let line = s.take(first_index_of(s, '\n'));
        if first_index_of(s, '\n') < s.len() && line.len() > 0 && line.last() == '\r' {
            line.drop_last()
        } else {
            line
        }
    }
}

/// At most `cap` characters of `s`; a cut text ends in `…`.
pub open spec fn capped(s: Seq<char>, cap: nat) -> Seq<char> {
    if s.len() <= cap {
        s
    } else {
        s.take(if cap == 0 { 0 } else { cap - 1 }).push('…')
    }
}

/// The chat-panel line for a finished tool call at the given verbosity; always
/// prefixed with `[tool_name]`.
pub open spec fn tool_summary_text(
    tool_name: Seq<char>,
    description: Seq<char>,
    result: Seq<char>,
    verbosity: ToolDisplayVerbosity,
) -> Seq<char> {
    let head = "["@ + tool_name + "] "@;
    match verbosity {
        ToolDisplayVerbosity::Default => head + brief_action_of(tool_name),
        ToolDisplayVerbosity::Minimal => head + description,
        ToolDisplayVerbosity::Full => {
            let snippet = capped(trim(first_line(trim(result))), TOOL_DISPLAY_FULL_RESULT_CAP as nat);
            if snippet.len() == 0 {
                head + description
            } else {
                head + description + " → "@ + snippet
            }
        },
    }
}

fn first_line_of(s: &str) -> (r: String)
    ensures
        r@ == first_line(s@),
{
    let v = chars_of(s);
    if v.len() == 0 {
        return String::new();
    }
    let k = find_char(&v, '\n');
    let end = if k < v.len() && k > 0 && v[k - 1] == '\r' {
        k - 1
    } else {
        k
    };
    let r = string_from_range(&v, 0, end);
    assert(v@.take(k as int) =~= v@.subrange(0, k as int));
    if end < k {
        assert(v@.subrange(0, end as int) =~= v@.take(k as int).drop_last());
    }
    r
}

fn capped_text(s: &str, cap: usize) -> (r: String)
    ensures
        r@ == capped(s@, cap as nat),
{
    let v = chars_of(s);
    if v.len() <= cap {
        return string_from_range(&v, 0, v.len());
    }
    let keep = if cap == 0 {
        0
    } else {
        cap - 1
    };
    let mut r = string_from_range(&v, 0, keep);
    r.push('…');
    assert(v@.subrange(0, keep as int) =~= v@.take(keep as int));
    r
}

/// The chat-panel line for a finished tool call, honouring the display verbosity.
pub fn format_tool_summary(
    tool_name: &str,
    description: &str,
    result: &str,
    verbosity: ToolDisplayVerbosity,
) -> (r: String)
    ensures
        r@ == tool_summary_text(tool_name@, description@, result@, verbosity),
{
    let mut r = String::from_str("[");
    r.append(tool_name);
    r.append("] ");
    match verbosity {
        ToolDisplayVerbosity::Default => {
            r.append(brief_action(tool_name));
        },
        ToolDisplayVerbosity::Minimal => {
            r.append(description);
        },
        ToolDisplayVerbosity::Full => {
            let trimmed = trim_str(result);
            let line = first_line_of(trimmed.as_str());
            let line = trim_str(line.as_str());
            let snippet = capped_text(line.as_str(), TOOL_DISPLAY_FULL_RESULT_CAP);
            r.append(description);
            if snippet.as_str().is_empty() {
            } else {
                r.append(" → ");
                r.append(snippet.as_str());
            }
        },
    }
    r
}

// ── Token estimate ────────────────────────────────────────────────────────────

/// The number of bytes `c` takes in UTF-8.
pub open spec fn utf8_width(c: char) -> nat {
    let n = c as u32;
    if n < 0x80 {
        1
    } else if n < 0x800 {
        2
    } else if n < 0x10000 {
        3
    } else {
        4
    }
}

/// `str::len`: the number of bytes of `s` in UTF-8.
pub open spec fn utf8_len(s: Seq<char>) -> nat
    decreases s.len(),
{
    if s.len() == 0 {
        0
    } else {
        utf8_len(s.drop_last()) + utf8_width(s.last())
    }
}

/// The bytes a list of tool calls adds to a message's size: each name and each
/// argument object in its compact JSON text.
pub open spec fn calls_size(calls: Seq<ToolCallView>) -> nat
    decreases calls.len(),
{
    if calls.len() == 0 {
        0
    } else {
        calls_size(calls.drop_last()) + utf8_len(calls.last().function.name) + utf8_len(
            serde_json_text(calls.last().function.arguments),
        )
    }
}

/// The size a message counts for: content, role and tool calls, in bytes.
pub open spec fn message_size(m: MessageView) -> nat {
    utf8_len(m.content) + utf8_len(m.role) + match m.tool_calls {
        Some(calls) => calls_size(calls),
        None => 0,
    }
}

pub open spec fn total_size(ms: Seq<MessageView>) -> nat
    decreases ms.len(),
{
    if ms.len() == 0 {
        0
    } else {
        total_size(ms.drop_last()) + message_size(ms.last())
    }
}

/// Rough token count: a quarter of each message's size, rounded down, summed.
pub open spec fn token_estimate(ms: Seq<MessageView>) -> nat
    decreases ms.len(),
{
    if ms.len() == 0 {
        0
    } else {
        token_estimate(ms.drop_last()) + message_size(ms.last()) / 4
    }
}

proof fn lemma_total_prefix(ms: Seq<MessageView>, i: int)
    requires
        0 <= i <= ms.len(),
    ensures
        total_size(ms.take(i)) <= total_size(ms),
        token_estimate(ms.take(i)) <= total_size(ms.take(i)),
    decreases ms.len() - i,
{
    if i < ms.len() {
        lemma_total_prefix(ms, i + 1);
        assert(ms.take(i + 1).drop_last() =~= ms.take(i));
    } else {
        assert(ms.take(i) =~= ms);
    }
    lemma_estimate_below_total(ms.take(i));
}

proof fn lemma_estimate_below_total(ms: Seq<MessageView>)
    ensures
        token_estimate(ms) <= total_size(ms),
    decreases ms.len(),
{
    if ms.len() > 0 {
        lemma_estimate_below_total(ms.drop_last());
    }
}

/// The UTF-8 length of `s`.
fn byte_len(s: &str, bound: usize) -> (r: usize)
    requires
        utf8_len(s@) <= bound,
    ensures
        r == utf8_len(s@),
{
    let v = chars_of(s);
    let mut n: usize = 0;
    let mut i: usize = 0;
    while i < v.len()
        invariant
            v@ == s@,
            0 <= i <= v.len(),
            n == utf8_len(v@.take(i as int)),
            utf8_len(v@) <= bound,
        decreases v.len() - i,
    {
        assert(v@.take(i + 1).drop_last() =~= v@.take(i as int));
        proof {
            lemma_utf8_prefix(v@, i + 1);
        }
        let c = v[i] as u32;
        let w: usize = if c < 0x80 {
            1
        } else if c < 0x800 {
            2
        } else if c < 0x10000 {
            3
        } else {
            4
        };
        n = n + w;
        i += 1;
    }
    assert(v@.take(v.len() as int) =~= v@);
    n
}

proof fn lemma_utf8_prefix(s: Seq<char>, i: int)
    requires
        0 <= i <= s.len(),
    ensures
        utf8_len(s.take(i)) <= utf8_len(s),
    decreases s.len() - i,
{
    if i < s.len() {
        lemma_utf8_prefix(s, i + 1);
        assert(s.take(i + 1).drop_last() =~= s.take(i));
    } else {
        assert(s.take(i) =~= s);
    }
}

proof fn lemma_calls_prefix(calls: Seq<ToolCallView>, i: int)
    requires
        0 <= i <= calls.len(),
    ensures
        calls_size(calls.take(i)) <= calls_size(calls),
    decreases calls.len() - i,
{
    if i < calls.len() {
        lemma_calls_prefix(calls, i + 1);
        assert(calls.take(i + 1).drop_last() =~= calls.take(i));
    } else {
        assert(calls.take(i) =~= calls);
    }
}

fn calls_bytes(calls: &Vec<ToolCall>, bound: usize) -> (r: usize)
    requires
        calls_size(calls_view(calls@)) <= bound,
    ensures
        r == calls_size(calls_view(calls@)),
{
    let ghost cv = calls_view(calls@);
    let mut n: usize = 0;
    let mut i: usize = 0;
    while i < calls.len()
        invariant
            cv == calls_view(calls@),
            cv.len() == calls.len(),
            0 <= i <= calls.len(),
            n == calls_size(cv.take(i as int)),
            calls_size(cv) <= bound,
        decreases calls.len() - i,
    {
        assert(cv.take(i + 1).drop_last() =~= cv.take(i as int));
        assert(cv.take(i + 1).last() == calls@[i as int]@);
        proof {
            lemma_calls_prefix(cv, i + 1);
        }
        let name_len = byte_len(calls[i].function.name.as_str(), bound);
        let args = to_json_string(&calls[i].function.arguments);
        let args_len = byte_len(args.as_str(), bound);
        n = n + name_len + args_len;
        i += 1;
    }
    assert(cv.take(calls.len() as int) =~= cv);
    n
}

/// Rough token estimate: one token for every four bytes of each message's content,
/// role and tool calls.
pub fn estimate_tokens(messages: &[Message]) -> (r: usize)
    requires
        total_size(messages_view(messages@)) <= usize::MAX,
    ensures
        r == token_estimate(messages_view(messages@)),
{
    let ghost mv = messages_view(messages@);
    let mut total: usize = 0;
    let mut i: usize = 0;
    while i < messages.len()
        invariant
            mv == messages_view(messages@),
            mv.len() == messages.len(),
            0 <= i <= messages.len(),
            total == token_estimate(mv.take(i as int)),
            total_size(mv) <= usize::MAX,
        decreases messages.len() - i,
    {
        assert(mv.take(i + 1).drop_last() =~= mv.take(i as int));
        assert(mv.take(i + 1).last() == messages@[i as int]@);
        proof {
            lemma_total_prefix(mv, i + 1);
            lemma_total_prefix(mv, i as int);
        }
        let m = &messages[i];
        let bound = usize::MAX;
        let mut chars = byte_len(m.content.as_str(), bound);
        let role_len = byte_len(m.role.as_str(), bound);
        chars = chars + role_len;
        match &m.tool_calls {
            Some(calls) => {
                let extra = calls_bytes(calls, bound);
                chars = chars + extra;
            },
            None => {},
        }
        total = total + chars / 4;
        i += 1;
    }
    assert(mv.take(messages.len() as int) =~= mv);
    total
}

// ── The user turn a confirmation belongs to ──────────────────────────────────

/// The content of the last `user` message of `ms`; empty when there is none.
pub open spec fn last_user_content(ms: Seq<MessageView>) -> Seq<char>
    decreases ms.len(),
{
    if ms.len() == 0 {
        Seq::empty()
    } else if ms.last().role == "user"@ {
        ms.last().content
    } else {
        last_user_content(ms.drop_last())
    }
}

/// The user turn a pending confirmation is filed under: the new user line when there
/// is one, otherwise the last `user` message of the conversation.
pub open spec fn pending_user_text(given: Seq<char>, conversation: Seq<MessageView>) -> Seq<char> {
    if given.len() > 0 {
        given
    } else {
        last_user_content(conversation)
    }
}

pub fn last_user_for_pending(user_message_for_pending: &str, conversation: &[Message]) -> (r: String)
    ensures
        r@ == pending_user_text(user_message_for_pending@, messages_view(conversation@)),
{
    if !user_message_for_pending.is_empty() {
        return String::from_str(user_message_for_pending);
    }
    let ghost mv = messages_view(conversation@);
    assert(mv.take(mv.len() as int) =~= mv);
    let mut i: usize = conversation.len();
    while i > 0
        invariant
            mv == messages_view(conversation@),
            mv.len() == conversation.len(),
            user_message_for_pending@.len() == 0,
            0 <= i <= conversation.len(),
            last_user_content(mv) == last_user_content(mv.take(i as int)),
        decreases i,
    {
        assert(mv.take(i as int).drop_last() =~= mv.take(i - 1));
        assert(mv.take(i as int).last() == conversation@[i - 1]@);
        if crate::text::str_eq(conversation[i - 1].role.as_str(), "user") {
            return conversation[i - 1].content.clone();
        }
        i -= 1;
    }
    String::new()
}

// ── Tool-call ids ─────────────────────────────────────────────────────────────

pub open spec fn hex_char(d: nat) -> char {
    if d < 10 {
        (('0' as u32) + d) as char
    } else {
        (('a' as u32) + d - 10) as char
    }
}

/// The lowercase hexadecimal digits of `n`.
pub open spec fn hex_digits(n: nat) -> Seq<char>
    decreases n,
{
    if n < 16 {
        seq![hex_char(n)]
    } else {
        hex_digits(n / 16).push(hex_char(n % 16))
    }
}

/// `s` left-padded with `0` to at least `width` characters.
pub open spec fn zero_padded(s: Seq<char>, width: nat) -> Seq<char> {
    if s.len() >= width {
        s
    } else {
        Seq::new((width - s.len()) as nat, |i: int| '0') + s
    }
}

/// The id given to the `n`-th tool call of a provider that sends none:
/// `ollama_call_{n:08x}`.
pub open spec fn tool_call_id_text(n: nat) -> Seq<char> {
    "ollama_call_"@ + zero_padded(hex_digits(n), 8)
}

fn push_hex(n: u64, out: &mut Vec<char>)
    ensures
        final(out)@ == old(out)@ + hex_digits(n as nat),
    decreases n,
{
    if n >= 16 {
        push_hex(n / 16, out);
    }
    let d = (n % 16) as u8;
    let c = if d < 10 {
        (d + 48) as char
    } else {
        (d + 87) as char
    };
    out.push(c);
    assert(out@ =~= old(out)@ + hex_digits(n as nat));
}

/// The id for the `n`-th tool call: `ollama_call_` and `n` in hexadecimal, at least
/// eight digits.
pub fn generate_tool_call_id(n: u64) -> (r: String)
    ensures
        r@ == tool_call_id_text(n as nat),
{
    let mut digits: Vec<char> = Vec::new();
    push_hex(n, &mut digits);
    assert(digits@ =~= hex_digits(n as nat));
    let mut r = String::from_str("ollama_call_");
    let ghost start = r@;
    let mut k: usize = digits.len();
    while k < 8
        invariant
            digits.len() <= k <= 8 || (digits.len() >= 8 && k == digits.len()),
            r@ == start + Seq::new((k - digits.len()) as nat, |i: int| '0'),
        decreases 8 - k,
    {
        r.push('0');
        assert(Seq::new((k + 1 - digits.len()) as nat, |i: int| '0') =~= Seq::new(
            (k - digits.len()) as nat,
            |i: int| '0',
        ).push('0'));
        k += 1;
    }
    let tail = crate::text::string_from_chars(&digits);
    r.append(tail.as_str());
    proof {
        if digits.len() >= 8 {
            assert(Seq::new(0, |i: int| '0') =~= Seq::<char>::empty());
            assert(r@ =~= start + hex_digits(n as nat));
        } else {
            assert(r@ =~= start + zero_padded(hex_digits(n as nat), 8));
        }
    }
    r
}

// ── Streamed tool calls ───────────────────────────────────────────────────────

/// A tool call being assembled from streamed fragments.
pub struct PartialToolCall {
    pub id: Option<String>,
    pub name: Option<String>,
    pub arguments: String,
}

pub struct PartialToolCallView {
    pub id: Option<Seq<char>>,
    pub name: Option<Seq<char>>,
    pub arguments: Seq<char>,
}

impl View for PartialToolCall {
    type V = PartialToolCallView;

    open spec fn view(&self) -> PartialToolCallView {
        PartialToolCallView { id: opt_str(self.id), name: opt_str(self.name), arguments: self.arguments@ }
    }
}

pub open spec fn partials_view(v: Seq<PartialToolCall>) -> Seq<PartialToolCallView> {
    v.map_values(|p: PartialToolCall| p@)
}

pub open spec fn empty_partial() -> PartialToolCallView {
    PartialToolCallView { id: None, name: None, arguments: Seq::empty() }
}

/// A fragment applied to a partial call: a given id or name replaces the one held, and
/// the argument text is appended.
pub open spec fn absorbed(
    p: PartialToolCallView,
    id: Option<Seq<char>>,
    name: Option<Seq<char>>,
    fragment: Seq<char>,
) -> PartialToolCallView {
    PartialToolCallView {
        id: if id is Some { id } else { p.id },
        name: if name is Some { name } else { p.name },
        arguments: p.arguments + fragment,
    }
}

/// The partial calls after a fragment for call `index`: the list is extended with empty
/// calls up to `index`, and that call absorbs the fragment.
pub open spec fn after_delta(
    ps: Seq<PartialToolCallView>,
    index: nat,
    id: Option<Seq<char>>,
    name: Option<Seq<char>>,
    fragment: Seq<char>,
) -> Seq<PartialToolCallView> {
    let grown = if index < ps.len() {
        ps
    } else {
        ps + Seq::new((index + 1 - ps.len()) as nat, |i: int| empty_partial())
    };
    grown.update(index as int, absorbed(grown[index as int], id, name, fragment))
}

/// Applies one streamed tool-call fragment.
pub fn absorb_tool_delta(
    partials: &mut Vec<PartialToolCall>,
    index: usize,
    id: Option<String>,
    name: Option<String>,
    fragment: &str,
)
    requires
        index < usize::MAX,
    ensures
        partials_view(final(partials)@) == after_delta(
            partials_view(old(partials)@),
            index as nat,
            opt_str(id),
            opt_str(name),
            fragment@,
        ),
{
    let ghost start = partials_view(partials@);
    while partials.len() <= index
        invariant
            index < usize::MAX,
            start.len() <= partials.len() <= index + 1 || (start.len() > index && partials.len()
                == start.len()),
            partials_view(partials@) == (if partials.len() <= start.len() {
                start
            } else {
                start + Seq::new((partials.len() - start.len()) as nat, |i: int| empty_partial())
            }),
        decreases index + 1 - partials.len(),
    {
        let ghost before = partials_view(partials@);
        partials.push(PartialToolCall { id: None, name: None, arguments: String::new() });
        assert(partials_view(partials@) =~= before.push(empty_partial()));
        assert(start + Seq::new((partials.len() - start.len()) as nat, |i: int| empty_partial())
            =~= (if partials.len() - 1 <= start.len() {
            start
        } else {
            start + Seq::new((partials.len() - 1 - start.len()) as nat, |i: int| empty_partial())
        }).push(empty_partial()));
    }
    let ghost grown = partials_view(partials@);
    let ghost expected_grown = if index < start.len() {
        start
    } else {
        start + Seq::new((index + 1 - start.len()) as nat, |i: int| empty_partial())
    };
    assert(grown =~= expected_grown);
    let mut p = partials.remove(index);
    if id.is_some() {
        p.id = id;
    }
    if name.is_some() {
        p.name = name;
    }
    p.arguments.append(fragment);
    partials.insert(index, p);
    assert(partials_view(partials@) =~= grown.update(
        index as int,
        absorbed(grown[index as int], opt_str(id), opt_str(name), fragment@),
    ));
}

/// The tool calls a streamed reply asked for, in order; `arguments[i]` is the parsed
/// argument text of call `i`, and a call whose name never arrived gets an empty name.
pub fn assemble_calls(partials: &Vec<PartialToolCall>, arguments: Vec<JsonValue>) -> (r: Vec<ToolCall>)
    requires
        arguments.len() == partials.len(),
    ensures
        r.len() == partials.len(),
        forall|i: int|
            0 <= i < r.len() ==> (#[trigger] r@[i])@ == (ToolCallView {
                id: partials@[i]@.id,
                function: FunctionCallView {
                    name: match partials@[i]@.name {
                        Some(n) => n,
                        None => Seq::empty(),
                    },
                    arguments: arguments@[i]@,
                },
            }),
{
    let mut args = arguments;
    let mut out: Vec<ToolCall> = Vec::new();
    let mut i: usize = 0;
    let ghost all_args = args@;
    while i < partials.len()
        invariant
            0 <= i <= partials.len(),
            args.len() == partials.len() - i,
            forall|k: int| 0 <= k < args.len() ==> args@[k] == all_args[i + k],
            all_args.len() == partials.len(),
            out.len() == i,
            forall|k: int|
                0 <= k < i ==> (#[trigger] out@[k])@ == (ToolCallView {
                    id: partials@[k]@.id,
                    function: FunctionCallView {
                        name: match partials@[k]@.name {
                            Some(n) => n,
                            None => Seq::empty(),
                        },
                        arguments: all_args[k]@,
                    },
                }),
        decreases partials.len() - i,
    {
        let p = &partials[i];
        let a = args.remove(0);
        let name = match &p.name {
            Some(n) => n.clone(),
            None => String::new(),
        };
        let id = crate::types::copy_opt_str(&p.id);
        out.push(ToolCall { id, function: FunctionCall { name, arguments: a } });
        i += 1;
    }
    out
}


/// Why a conversation is refused before it is sent: its estimate reached the limit.
pub open spec fn context_full_text(estimated: nat, limit: nat) -> Seq<char> {
    "Conversation is too long (~"@ + crate::text::decimal(estimated) + " tokens, limit "@ + crate::text::decimal(limit)
        + "). Press Ctrl+L to clear and start fresh."@
}

/// Whether a conversation of about `estimated` tokens may be sent under a limit of
/// `limit` tokens (0: no limit): refused, with the message to show, once the estimate
/// reaches the limit.
pub fn context_refusal(estimated: usize, limit: usize) -> (r: Option<String>)
    ensures
        r is Some <==> (limit > 0 && estimated >= limit),
        r matches Some(m) ==> m@ == context_full_text(estimated as nat, limit as nat),
{
    if limit == 0 || estimated < limit {
        return None;
    }
    let mut m = String::from_str("Conversation is too long (~");
    crate::text::push_decimal(estimated as u64, &mut m);
    m.append(" tokens, limit ");
    crate::text::push_decimal(limit as u64, &mut m);
    m.append("). Press Ctrl+L to clear and start fresh.");
    Some(m)
}

} // verus!
