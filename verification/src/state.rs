//! The state behind the terminal interface: the chat log, the file tree panel, the
//! request in flight, and how each event changes them.
use vstd::prelude::*;

use crate::commands::SlashPicker;
use crate::config::ThinkingDisplay;
use crate::error::AppError;
use crate::exchange::LlmOutcome;
use crate::json::JsonValue;
use crate::listing::FileEntry;
use crate::text::{concat2, is_blank, trim, trim_str, views_of};
use crate::types::{messages_view, opt_str, Message, MessageView, StreamChunk};

verus! {

// ── File tree display type ────────────────────────────────────────────────────

/// One row of the file tree panel.
pub struct TreeEntry {
    pub name: String,
    pub path: String,
    pub is_dir: bool,
    pub size: u64,
    /// Nesting level: 0 for the entries of the working directory.
    pub depth: usize,
    pub expanded: bool,
}

impl TreeEntry {
    /// A collapsed row for a listed entry, at the given depth.
    pub fn from_file_entry(entry: &FileEntry, depth: usize) -> (r: TreeEntry)
        ensures
            r.name@ == entry.name@,
            r.path@ == entry.path@,
            r.is_dir == entry.is_dir,
            r.size == entry.size,
            r.depth == depth,
            !r.expanded,
    {
        TreeEntry {
            name: entry.name.clone(),
            path: entry.path.clone(),
            is_dir: entry.is_dir,
            size: entry.size,
            depth,
            expanded: false,
        }
    }
}

/// What a tree row shows.
pub struct TreeRow {
    pub name: Seq<char>,
    pub path: Seq<char>,
    pub is_dir: bool,
    pub size: u64,
    pub depth: nat,
    pub expanded: bool,
}

impl View for TreeEntry {
    type V = TreeRow;

    open spec fn view(&self) -> TreeRow {
        TreeRow {
            name: self.name@,
            path: self.path@,
            is_dir: self.is_dir,
            size: self.size,
            depth: self.depth as nat,
            expanded: self.expanded,
        }
    }
}

pub open spec fn rows(t: Seq<TreeEntry>) -> Seq<TreeRow> {
    t.map_values(|e: TreeEntry| e@)
}

/// A collapsed row for a listed entry.
pub open spec fn listed_row(e: FileEntry, depth: nat) -> TreeRow {
    TreeRow { name: e.name@, path: e.path@, is_dir: e.is_dir, size: e.size, depth, expanded: false }
}

pub open spec fn listed_rows(entries: Seq<FileEntry>, depth: nat) -> Seq<TreeRow> {
    entries.map_values(|e: FileEntry| listed_row(e, depth))
}

/// The rows form a tree shown in order: the first row is at the top level, each row is
/// at most one level deeper than the one before it, and only directories are expanded.
pub open spec fn tree_wf(t: Seq<TreeRow>) -> bool {
    &&& t.len() > 0 ==> t[0].depth == 0
    &&& forall|i: int| 0 < i < t.len() ==> #[trigger] t[i].depth <= t[i - 1].depth + 1
    &&& forall|i: int| 0 <= i < t.len() && (#[trigger] t[i]).expanded ==> t[i].is_dir
}

/// The first row at or after `j` that is no deeper than `d`; `t.len()` when there is
/// none. For `j` just after a row at depth `d`, the rows in between are its subtree.
pub open spec fn block_end(t: Seq<TreeRow>, d: nat, j: int) -> int
    decreases t.len() - j,
{
    if j < 0 || j >= t.len() {
        t.len() as int
    } else if t[j].depth <= d {
        j
    } else {
        block_end(t, d, j + 1)
    }
}

/// The first row at or after `j` with path `path` (and a directory, when `dir_only`);
/// `t.len()` when there is none.
pub open spec fn find_row(t: Seq<TreeRow>, path: Seq<char>, dir_only: bool, j: int) -> int
    decreases t.len() - j,
{
    if j < 0 || j >= t.len() {
        t.len() as int
    } else if t[j].path == path && (!dir_only || t[j].is_dir) {
        j
    } else {
        find_row(t, path, dir_only, j + 1)
    }
}

/// The rows after the row at `i` is toggled: a collapsed directory is marked expanded
/// (its children come later), an expanded one loses its subtree; other rows stay.
pub open spec fn toggled_rows(t: Seq<TreeRow>, i: int) -> Seq<TreeRow> {
    if i < 0 || i >= t.len() || !t[i].is_dir {
        t
    } else if t[i].expanded {
        t.take(i).push(with_expanded(t[i], false)) + t.skip(block_end(t, t[i].depth, i + 1))
    } else {
        t.update(i, with_expanded(t[i], true))
    }
}

/// The directory whose children must be loaded when the row at `i` is toggled.
pub open spec fn expand_request(t: Seq<TreeRow>, i: int) -> Option<Seq<char>> {
    if 0 <= i < t.len() && t[i].is_dir && !t[i].expanded {
        Some(t[i].path)
    } else {
        None
    }
}

pub open spec fn with_expanded(r: TreeRow, expanded: bool) -> TreeRow {
    TreeRow { expanded, ..r }
}

/// `t` with the subtree of row `i` replaced by `children`.
pub open spec fn replace_subtree(t: Seq<TreeRow>, i: int, children: Seq<TreeRow>) -> Seq<TreeRow> {
    t.take(i + 1) + children + t.skip(block_end(t, t[i].depth, i + 1))
}

// ── Input / focus state ──────────────────────────────────────────────────────

#[derive(Debug, Clone, Copy, PartialEq, Eq, Structural)]
pub enum InputMode {
    Editing,
    Confirming,
}

#[derive(Debug, Clone, Copy, PartialEq, Eq, Structural)]
pub enum Panel {
    FileTree,
    Chat,
}

// ── Display types ─────────────────────────────────────────────────────────────

#[derive(Debug, Clone, Copy, PartialEq, Eq, Structural)]
pub enum ChatRole {
    User,
    Assistant,
    Tool,
    /// Kept reasoning, shown dimmed when thinking is displayed in full.
    Thinking,
    Error,
    Warning,
}

/// One entry of the chat log.
pub struct ChatEntry {
    pub role: ChatRole,
    pub content: String,
}

pub open spec fn chat_view(v: Seq<ChatEntry>) -> Seq<(ChatRole, Seq<char>)> {
    v.map_values(|e: ChatEntry| (e.role, e.content@))
}

/// A destructive tool call waiting for the user's answer.
pub struct PendingToolCall {
    pub description: String,
    pub tool_name: String,
    pub arguments: JsonValue,
    pub tool_call_id: Option<String>,
    pub user_message: String,
}

// ── App ───────────────────────────────────────────────────────────────────────

/// Everything the interface shows and remembers between events.
pub struct App {
    pub conversation: Vec<Message>,
    pub working_dir: Option<String>,
    pub chat_messages: Vec<ChatEntry>,
    pub file_tree: Vec<TreeEntry>,
    pub input_mode: InputMode,
    pub pending_confirmation: Option<PendingToolCall>,
    pub health_status: bool,
    pub is_loading: bool,
    /// The text streamed so far for the response in progress; `None` when idle.
    pub streaming_text: Option<String>,
    /// The reasoning streamed so far this round; `None` when none arrived.
    pub thinking_text: Option<String>,
    pub chat_scroll: usize,
    pub file_tree_scroll: usize,
    pub focused_panel: Panel,
    pub should_quit: bool,
    /// Directories to expand again after the next reload of the tree; no path occurs
    /// twice.
    pub pending_expansions: Vec<String>,
    /// The entry to scroll back to after the next reload of the tree.
    pub pending_scroll_path: Option<String>,
    /// Whether a model request is running (the task itself is held by the caller).
    pub request_in_flight: bool,
    /// The generation of the current request; events of other generations are stale.
    pub active_request_id: Option<u64>,
    pub thinking_display: ThinkingDisplay,
    /// The generation the next request gets.
    pub next_request_id: u64,
    /// The picker shown over the input, if any.
    pub slash_picker: Option<SlashPicker>,
    /// The commands offered as completions of the input, by position in the list.
    pub slash_completions: Vec<usize>,
    /// The highlighted completion.
    pub slash_selected: usize,
}

/// The log once the reasoning of the round is sealed: kept, trimmed, when reasoning is
/// displayed in full and is not blank.
pub open spec fn sealed_chat(app: App) -> Seq<(ChatRole, Seq<char>)> {
    match app.thinking_text {
        Some(t) => if app.thinking_display == ThinkingDisplay::Full && trim(t@).len() > 0 {
            chat_view(app.chat_messages@).push((ChatRole::Thinking, trim(t@)))
        } else {
            chat_view(app.chat_messages@)
        },
        None => chat_view(app.chat_messages@),
    }
}

/// The log once an exchange has ended as `outcome`: the answer (unless blank) and the
/// summaries of the tool calls, or the error; nothing for a confirmation.
pub open spec fn outcome_chat(chat: Seq<(ChatRole, Seq<char>)>, outcome: LlmOutcome) -> Seq<
    (ChatRole, Seq<char>),
> {
    match outcome {
        LlmOutcome::Complete { assistant_message, tool_results } => chat + (if trim(
            assistant_message@,
        ).len() > 0 {
            seq![(ChatRole::Assistant, assistant_message@)]
        } else {
            Seq::empty()
        }) + views_of(tool_results@).map_values(|r: Seq<char>| (ChatRole::Tool, r)),
        LlmOutcome::PendingConfirmation { .. } => chat,
        LlmOutcome::Error { message } => chat.push((ChatRole::Error, message@)),
    }
}

/// The call waiting for the user once an exchange has ended as `outcome`.
pub open spec fn outcome_pending(outcome: LlmOutcome) -> Option<PendingToolCall> {
    match outcome {
        LlmOutcome::PendingConfirmation { description, tool_name, arguments, tool_call_id, user_message } =>
            Some(PendingToolCall { description, tool_name, arguments, tool_call_id, user_message }),
        _ => None,
    }
}

pub open spec fn outcome_mode(outcome: LlmOutcome) -> InputMode {
    match outcome {
        LlmOutcome::PendingConfirmation { .. } => InputMode::Confirming,
        _ => InputMode::Editing,
    }
}

/// What a reload must restore, remembered in `after` from the tree and selection of
/// before: every expanded directory once, and the path of the selected row.
pub open spec fn refresh_prepared(tree: Seq<TreeEntry>, scroll: usize, after: App) -> bool {
    &&& views_of(after.pending_expansions@).no_duplicates()
    &&& forall|p: Seq<char>|
        #[trigger] views_of(after.pending_expansions@).contains(p) <==> exists|i: int|
            0 <= i < tree.len() && rows(tree)[i].path == p && rows(tree)[i].is_dir && rows(
                tree,
            )[i].expanded
    &&& scroll < tree.len() ==> (after.pending_scroll_path matches Some(p) && p@ == tree[scroll as int].path@)
    &&& scroll >= tree.len() ==> after.pending_scroll_path is None
}

/// `after` is `before` with a streamed delta applied: content is appended to the live
/// response, reasoning to the live reasoning (dropped when reasoning is not displayed),
/// and the log scrolls to the bottom; other chunks change nothing.
pub open spec fn chunk_applied(before: App, after: App, chunk: StreamChunk) -> bool {
    match chunk {
        StreamChunk::ContentDelta(t) => {
            &&& after.streaming_text matches Some(s) && s@ == (match before.streaming_text {
                Some(o) => o@,
                None => Seq::empty(),
            }) + t@
            &&& after == (App { streaming_text: after.streaming_text, chat_scroll: 0, ..before })
        },
        StreamChunk::ThinkingDelta(t) => if before.thinking_display == ThinkingDisplay::Off {
            after == before
        } else {
            &&& after.thinking_text matches Some(s) && s@ == (match before.thinking_text {
                Some(o) => o@,
                None => Seq::empty(),
            }) + t@
            &&& after == (App { thinking_text: after.thinking_text, chat_scroll: 0, ..before })
        },
        _ => after == before,
    }
}

pub open spec fn cancelled_text() -> Seq<char> {
    "Request cancelled."@
}

pub open spec fn load_failed_text(e: AppError) -> Seq<char> {
    "Failed to load directory: "@ + e.display()
}

impl App {
    pub fn new(thinking_display: ThinkingDisplay) -> (r: App)
        ensures
            r.conversation.len() == 0,
            r.working_dir is None,
            r.chat_messages.len() == 0,
            r.file_tree.len() == 0,
            r.input_mode == InputMode::Editing,
            r.pending_confirmation is None,
            !r.health_status,
            !r.is_loading,
            r.streaming_text is None,
            r.thinking_text is None,
            r.chat_scroll == 0,
            r.file_tree_scroll == 0,
            r.focused_panel == Panel::Chat,
            !r.should_quit,
            r.pending_expansions.len() == 0,
            r.pending_scroll_path is None,
            !r.request_in_flight,
            r.active_request_id is None,
            r.thinking_display == thinking_display,
            r.next_request_id == 1,
            r.slash_picker is None,
            r.slash_completions.len() == 0,
            r.slash_selected == 0,
    {
        App {
            conversation: Vec::new(),
            working_dir: None,
            chat_messages: Vec::new(),
            file_tree: Vec::new(),
            input_mode: InputMode::Editing,
            pending_confirmation: None,
            health_status: false,
            is_loading: false,
            streaming_text: None,
            thinking_text: None,
            chat_scroll: 0,
            file_tree_scroll: 0,
            focused_panel: Panel::Chat,
            should_quit: false,
            pending_expansions: Vec::new(),
            pending_scroll_path: None,
            request_in_flight: false,
            active_request_id: None,
            thinking_display,
            next_request_id: 1,
            slash_picker: None,
            slash_completions: Vec::new(),
            slash_selected: 0,
        }
    }

    /// Starts a new request generation and makes it the active one. Generations only
    /// grow (the last one is kept once the counter is exhausted).
    pub fn allocate_request_id(&mut self) -> (id: u64)
        ensures
            id == old(self).next_request_id,
            final(self).active_request_id == Some(id),
            final(self).next_request_id == (if id < u64::MAX {
                (id + 1) as u64
            } else {
                id
            }),
    {
        let id = self.next_request_id;
        self.next_request_id = self.next_request_id.saturating_add(1);
        self.active_request_id = Some(id);
        id
    }

    /// Whether events of generation `request_id` belong to the current request.
    pub fn is_active_request(&self, request_id: u64) -> (r: bool)
        ensures
            r == (self.active_request_id == Some(request_id)),
    {
        match self.active_request_id {
            Some(id) => id == request_id,
            None => false,
        }
    }

    /// Drops the request in flight, if any, without a chat entry (a newer request
    /// supersedes it). Returns whether there was one; the caller stops its task.
    pub fn abort_in_flight(&mut self) -> (r: bool)
        ensures
            r == old(self).request_in_flight,
            !final(self).request_in_flight,
            r ==> final(self).active_request_id is None && !final(self).is_loading
                && final(self).streaming_text is None && final(self).thinking_text is None,
            !r ==> *final(self) == *old(self),
    {
        if !self.request_in_flight {
            return false;
        }
        self.request_in_flight = false;
        self.active_request_id = None;
        self.is_loading = false;
        self.streaming_text = None;
        self.thinking_text = None;
        true
    }

    /// Cancels the request in flight, if any: the interface is reset so a new prompt can
    /// be typed, and the log says the request was cancelled. Returns whether there was
    /// one; the caller stops its task.
    pub fn cancel_request(&mut self) -> (r: bool)
        ensures
            r == old(self).request_in_flight,
            !r ==> *final(self) == *old(self),
            r ==> {
                &&& !final(self).request_in_flight
                &&& final(self).active_request_id is None
                &&& !final(self).is_loading
                &&& final(self).streaming_text is None
                &&& final(self).thinking_text is None
                &&& final(self).input_mode == InputMode::Editing
                &&& final(self).pending_confirmation is None
                &&& chat_view(final(self).chat_messages@) == chat_view(old(self).chat_messages@).push(
                    (ChatRole::Warning, cancelled_text()),
                )
            },
            r ==> *final(self) == (App {
                request_in_flight: false,
                active_request_id: None,
                is_loading: false,
                streaming_text: None,
                thinking_text: None,
                input_mode: InputMode::Editing,
                pending_confirmation: None,
                chat_messages: final(self).chat_messages,
                ..*old(self)
            }),
    {
        if !self.request_in_flight {
            return false;
        }
        self.request_in_flight = false;
        self.active_request_id = None;
        self.is_loading = false;
        self.streaming_text = None;
        self.thinking_text = None;
        self.input_mode = InputMode::Editing;
        self.pending_confirmation = None;
        let ghost before = chat_view(self.chat_messages@);
        self.chat_messages.push(ChatEntry { role: ChatRole::Warning, content: String::from_str("Request cancelled.") });
        assert(chat_view(self.chat_messages@) =~= before.push((ChatRole::Warning, cancelled_text())));
        true
    }

    /// Records the user's line in the log before it is sent, and shows the request as
    /// loading.
    pub fn begin_send(&mut self, text: &str)
        ensures
            chat_view(final(self).chat_messages@) == chat_view(old(self).chat_messages@).push(
                (ChatRole::User, text@),
            ),
            final(self).is_loading,
            *final(self) == (App {
                chat_messages: final(self).chat_messages,
                is_loading: true,
                ..*old(self)
            }),
    {
        let ghost before = chat_view(self.chat_messages@);
        self.chat_messages.push(ChatEntry { role: ChatRole::User, content: String::from_str(text) });
        assert(chat_view(self.chat_messages@) =~= before.push((ChatRole::User, text@)));
        self.is_loading = true;
    }

    /// A streamed delta: content is appended to the live response, reasoning to the live
    /// reasoning (dropped when reasoning is not displayed); either way the log scrolls
    /// to the bottom.
    pub fn handle_stream_chunk(&mut self, chunk: &StreamChunk)
        ensures
            chunk_applied(*old(self), *final(self), *chunk),
    {
        match chunk {
            StreamChunk::ContentDelta(text) => {
                let mut buf = match self.streaming_text.take() {
                    Some(s) => s,
                    None => String::new(),
                };
                buf.append(text.as_str());
                self.streaming_text = Some(buf);
                self.chat_scroll = 0;
            },
            StreamChunk::ThinkingDelta(text) => {
                if self.thinking_display == ThinkingDisplay::Off {
                    return;
                }
                let mut buf = match self.thinking_text.take() {
                    Some(s) => s,
                    None => String::new(),
                };
                buf.append(text.as_str());
                self.thinking_text = Some(buf);
                self.chat_scroll = 0;
            },
            _ => {},
        }
    }

    /// Seals the reasoning of the round that just ended: kept as a log entry (trimmed)
    /// when reasoning is displayed in full and is not blank, dropped otherwise. Calling
    /// it again changes nothing.
    pub fn finalize_thinking_for_round(&mut self)
        ensures
            chat_view(final(self).chat_messages@) == sealed_chat(*old(self)),
            *final(self) == (App {
                thinking_text: None,
                chat_messages: final(self).chat_messages,
                ..*old(self)
            }),
            final(self).thinking_text is None,
            final(self).streaming_text == old(self).streaming_text,
            final(self).file_tree == old(self).file_tree,
            final(self).conversation == old(self).conversation,
            final(self).input_mode == old(self).input_mode,
            (old(self).thinking_text matches Some(t) && old(self).thinking_display
                == ThinkingDisplay::Full && trim(t@).len() > 0) ==> chat_view(
                final(self).chat_messages@,
            ) == chat_view(old(self).chat_messages@).push(
                (ChatRole::Thinking, trim(old(self).thinking_text->Some_0@)),
            ),
            !(old(self).thinking_text matches Some(t) && old(self).thinking_display
                == ThinkingDisplay::Full && trim(t@).len() > 0) ==> final(self).chat_messages
                == old(self).chat_messages,
    {
        let text = match self.thinking_text.take() {
            Some(t) => t,
            None => {
                return;
            },
        };
        if self.thinking_display != ThinkingDisplay::Full {
            return;
        }
        let trimmed = trim_str(text.as_str());
        if trimmed.as_str().is_empty() {
            return;
        }
        let ghost before = chat_view(self.chat_messages@);
        self.chat_messages.push(ChatEntry { role: ChatRole::Thinking, content: trimmed });
        assert(chat_view(self.chat_messages@) =~= before.push((ChatRole::Thinking, trim(text@))));
    }

    /// Clears the live response once the stream is complete, and seals the reasoning.
    pub fn finalize_stream(&mut self)
        ensures
            chat_view(final(self).chat_messages@) == sealed_chat(*old(self)),
            *final(self) == (App {
                streaming_text: None,
                thinking_text: None,
                chat_messages: final(self).chat_messages,
                ..*old(self)
            }),
            final(self).streaming_text is None,
            final(self).thinking_text is None,
    {
        self.streaming_text = None;
        self.finalize_thinking_for_round();
    }

    /// Applies how an exchange ended, with the transcript it left.
    pub fn handle_outcome(&mut self, outcome: LlmOutcome, updated_conversation: Vec<Message>)
        ensures
            chat_view(final(self).chat_messages@) == outcome_chat(chat_view(old(self).chat_messages@), outcome),
            *final(self) == (App {
                conversation: final(self).conversation,
                chat_messages: final(self).chat_messages,
                is_loading: false,
                input_mode: outcome_mode(outcome),
                pending_confirmation: outcome_pending(outcome),
                ..*old(self)
            }),
            messages_view(final(self).conversation@) == messages_view(updated_conversation@),
            !final(self).is_loading,
            match outcome {
                LlmOutcome::Complete { assistant_message, tool_results } => {
                    &&& chat_view(final(self).chat_messages@) == chat_view(old(self).chat_messages@)
                        + (if trim(assistant_message@).len() > 0 {
                        seq![(ChatRole::Assistant, assistant_message@)]
                    } else {
                        Seq::empty()
                    }) + views_of(tool_results@).map_values(|r: Seq<char>| (ChatRole::Tool, r))
                    &&& final(self).input_mode == InputMode::Editing
                    &&& final(self).pending_confirmation is None
                },
                LlmOutcome::PendingConfirmation { description, tool_name, .. } => {
                    &&& final(self).pending_confirmation matches Some(p) && p.description
                        == description && p.tool_name == tool_name
                    &&& final(self).input_mode == InputMode::Confirming
                    &&& final(self).chat_messages == old(self).chat_messages
                },
                LlmOutcome::Error { message } => {
                    &&& chat_view(final(self).chat_messages@) == chat_view(old(self).chat_messages@).push(
                        (ChatRole::Error, message@),
                    )
                    &&& final(self).input_mode == InputMode::Editing
                    &&& final(self).pending_confirmation is None
                },
            },
    {
        let ghost conv = messages_view(updated_conversation@);
        self.conversation = updated_conversation;
        self.is_loading = false;
        match outcome {
            LlmOutcome::Complete { assistant_message, tool_results } => {
                let ghost before = chat_view(self.chat_messages@);
                let ghost head = before + (if trim(assistant_message@).len() > 0 {
                    seq![(ChatRole::Assistant, assistant_message@)]
                } else {
                    Seq::empty()
                });
                if !is_blank(assistant_message.as_str()) {
                    self.chat_messages.push(ChatEntry { role: ChatRole::Assistant, content: assistant_message });
                }
                assert(chat_view(self.chat_messages@) =~= head);
                let ghost results = views_of(tool_results@).map_values(|r: Seq<char>| (ChatRole::Tool, r));
                let mut rest = tool_results;
                let ghost all = rest@;
                assert(all.len() == rest.len());
                let mut i: usize = 0;
                while rest.len() > 0
                    invariant
                        0 <= i <= all.len(),
                        rest.len() + i == all.len(),
                        all.len() <= usize::MAX,
                        rest@ == all.subrange(i as int, all.len() as int),
                        messages_view(self.conversation@) == conv,
                        !self.is_loading,
                        *self == (App {
                            conversation: self.conversation,
                            chat_messages: self.chat_messages,
                            is_loading: false,
                            ..*old(self)
                        }),
                        results == views_of(all).map_values(|r: Seq<char>| (ChatRole::Tool, r)),
                        chat_view(self.chat_messages@) == head + results.take(i as int),
                    decreases rest.len(),
                {
                    let r = rest.remove(0);
                    assert(r == all[i as int]);
                    let ghost prev = chat_view(self.chat_messages@);
                    self.chat_messages.push(ChatEntry { role: ChatRole::Tool, content: r });
                    assert(chat_view(self.chat_messages@) =~= prev.push((ChatRole::Tool, all[i as int]@)));
                    assert(results.take(i + 1) =~= results.take(i as int).push(results[i as int]));
                    i += 1;
                    assert(rest@ =~= all.subrange(i as int, all.len() as int));
                }
                assert(results.take(i as int) =~= results);
                self.input_mode = InputMode::Editing;
                self.pending_confirmation = None;
            },
            LlmOutcome::PendingConfirmation { description, tool_name, arguments, tool_call_id, user_message } => {
                self.pending_confirmation = Some(PendingToolCall { description, tool_name, arguments, tool_call_id, user_message });
                self.input_mode = InputMode::Confirming;
            },
            LlmOutcome::Error { message } => {
                let ghost before = chat_view(self.chat_messages@);
                let ghost m = message@;
                self.chat_messages.push(ChatEntry { role: ChatRole::Error, content: message });
                assert(chat_view(self.chat_messages@) =~= before.push((ChatRole::Error, m)));
                self.input_mode = InputMode::Editing;
                self.pending_confirmation = None;
            },
        }
    }

    pub fn handle_health(&mut self, ok: bool)
        ensures
            final(self).health_status == ok,
    {
        self.health_status = ok;
    }

    /// Shows the working directory freshly loaded (every entry collapsed, at the top
    /// level, and the selection at the top), or logs why it could not be loaded.
    pub fn handle_file_tree(&mut self, result: Result<Vec<FileEntry>, AppError>)
        ensures
            match result {
                Ok(entries) => {
                    &&& final(self).file_tree.len() == entries.len()
                    &&& forall|i: int|
                        0 <= i < entries.len() ==> {
                            let t = #[trigger] final(self).file_tree@[i];
                            &&& t.name@ == entries@[i].name@
                            &&& t.path@ == entries@[i].path@
                            &&& t.is_dir == entries@[i].is_dir
                            &&& t.size == entries@[i].size
                            &&& t.depth == 0
                            &&& !t.expanded
                        }
                    &&& final(self).file_tree_scroll == 0
                    &&& final(self).chat_messages == old(self).chat_messages
                },
                Err(e) => {
                    &&& chat_view(final(self).chat_messages@) == chat_view(old(self).chat_messages@).push(
                        (ChatRole::Error, load_failed_text(e)),
                    )
                    &&& final(self).file_tree == old(self).file_tree
                },
            },
            match result {
                Ok(entries) => {
                    &&& rows(final(self).file_tree@) == listed_rows(entries@, 0)
                    &&& *final(self) == (App {
                        file_tree: final(self).file_tree,
                        file_tree_scroll: 0,
                        ..*old(self)
                    })
                },
                Err(_) => *final(self) == (App { chat_messages: final(self).chat_messages, ..*old(self) }),
            },
    {
        match result {
            Ok(entries) => {
                let mut tree: Vec<TreeEntry> = Vec::new();
                let mut i: usize = 0;
                while i < entries.len()
                    invariant
                        0 <= i <= entries.len(),
                        tree.len() == i,
                        forall|k: int|
                            0 <= k < i ==> {
                                let t = #[trigger] tree@[k];
                                &&& t.name@ == entries@[k].name@
                                &&& t.path@ == entries@[k].path@
                                &&& t.is_dir == entries@[k].is_dir
                                &&& t.size == entries@[k].size
                                &&& t.depth == 0
                                &&& !t.expanded
                            },
                    decreases entries.len() - i,
                {
                    tree.push(TreeEntry::from_file_entry(&entries[i], 0));
                    i += 1;
                }
                proof {
                    assert(rows(tree@) =~= listed_rows(entries@, 0)) by {
                        assert forall|k: int| 0 <= k < tree.len() implies #[trigger] rows(tree@)[k] == listed_rows(entries@, 0)[k] by {
                            assert(tree@[k].name@ == entries@[k].name@);
                        }
                    }
                }
                self.file_tree = tree;
                self.file_tree_scroll = 0;
            },
            Err(e) => {
                let ghost before = chat_view(self.chat_messages@);
                let m = e.message();
                let content = concat2("Failed to load directory: ", m.as_str());
                self.chat_messages.push(ChatEntry { role: ChatRole::Error, content });
                assert(chat_view(self.chat_messages@) =~= before.push((ChatRole::Error, load_failed_text(e))));
            },
        }
    }

    /// Switches to another working directory: the request in flight is dropped and the
    /// transcript, log and remembered tree state start afresh.
    pub fn set_working_dir(&mut self, path: String)
        ensures
            final(self).working_dir == Some(path),
            !final(self).request_in_flight,
            final(self).conversation.len() == 0,
            final(self).chat_messages.len() == 0,
            final(self).pending_confirmation is None,
            final(self).input_mode == InputMode::Editing,
            final(self).file_tree_scroll == 0,
            final(self).chat_scroll == 0,
            final(self).pending_expansions.len() == 0,
            final(self).pending_scroll_path is None,
    {
        self.abort_in_flight();
        self.working_dir = Some(path);
        self.conversation = Vec::new();
        self.chat_messages = Vec::new();
        self.pending_confirmation = None;
        self.input_mode = InputMode::Editing;
        self.file_tree_scroll = 0;
        self.chat_scroll = 0;
        self.pending_expansions = Vec::new();
        self.pending_scroll_path = None;
    }

    /// Forgets the transcript and the log.
    pub fn clear_conversation(&mut self)
        ensures
            final(self).conversation.len() == 0,
            final(self).chat_messages.len() == 0,
            final(self).pending_confirmation is None,
            final(self).streaming_text is None,
            final(self).thinking_text is None,
            final(self).input_mode == InputMode::Editing,
            final(self).file_tree == old(self).file_tree,
            final(self).working_dir == old(self).working_dir,
            *final(self) == (App {
                conversation: final(self).conversation,
                chat_messages: final(self).chat_messages,
                pending_confirmation: None,
                streaming_text: None,
                thinking_text: None,
                input_mode: InputMode::Editing,
                ..*old(self)
            }),
    {
        self.conversation = Vec::new();
        self.chat_messages = Vec::new();
        self.pending_confirmation = None;
        self.streaming_text = None;
        self.thinking_text = None;
        self.input_mode = InputMode::Editing;
    }

    /// Shows older messages (the offset counts from the bottom).
    pub fn scroll_chat_up(&mut self)
        ensures
            final(self).chat_scroll == (if old(self).chat_scroll <= usize::MAX - 3 {
                (old(self).chat_scroll + 3) as usize
            } else {
                usize::MAX
            }),
            *final(self) == (App { chat_scroll: final(self).chat_scroll, ..*old(self) }),
    {
        self.chat_scroll = self.chat_scroll.saturating_add(3);
    }

    /// Moves toward the newest messages.
    pub fn scroll_chat_down(&mut self)
        ensures
            final(self).chat_scroll == (if old(self).chat_scroll >= 3 {
                (old(self).chat_scroll - 3) as usize
            } else {
                0
            }),
            *final(self) == (App { chat_scroll: final(self).chat_scroll, ..*old(self) }),
    {
        self.chat_scroll = self.chat_scroll.saturating_sub(3);
    }

    pub fn scroll_tree_up(&mut self)
        ensures
            final(self).file_tree_scroll == (if old(self).file_tree_scroll >= 1 {
                (old(self).file_tree_scroll - 1) as usize
            } else {
                0
            }),
            *final(self) == (App { file_tree_scroll: final(self).file_tree_scroll, ..*old(self) }),
    {
        self.file_tree_scroll = self.file_tree_scroll.saturating_sub(1);
    }

    /// Moves the selection down, stopping at the last entry.
    pub fn scroll_tree_down(&mut self)
        ensures
            final(self).file_tree_scroll == vstd::math::min(
                old(self).file_tree_scroll + 1,
                if old(self).file_tree.len() > 0 { old(self).file_tree.len() - 1 } else { 0 },
            ),
            *final(self) == (App { file_tree_scroll: final(self).file_tree_scroll, ..*old(self) }),
    {
        let last = if self.file_tree.len() > 0 {
            self.file_tree.len() - 1
        } else {
            0
        };
        let next = self.file_tree_scroll.saturating_add(1);
        self.file_tree_scroll = if next < last {
            next
        } else {
            last
        };
    }
}

// ── The file tree ─────────────────────────────────────────────────────────────

proof fn lemma_block_end_bounds(t: Seq<TreeRow>, d: nat, j: int)
    requires
        0 <= j <= t.len(),
    ensures
        j <= block_end(t, d, j) <= t.len(),
        block_end(t, d, j) < t.len() ==> t[block_end(t, d, j)].depth <= d,
        forall|k: int| j <= k < block_end(t, d, j) ==> #[trigger] t[k].depth > d,
    decreases t.len() - j,
{
    if j < t.len() && t[j].depth > d {
        lemma_block_end_bounds(t, d, j + 1);
    }
}

/// Replacing the subtree of a directory row by rows one level deeper keeps the tree well
/// formed.
proof fn lemma_replace_subtree_wf(t: Seq<TreeRow>, i: int, children: Seq<TreeRow>)
    requires
        tree_wf(t),
        0 <= i < t.len(),
        t[i].is_dir,
        forall|k: int| 0 <= k < children.len() ==> (#[trigger] children[k]).depth == t[i].depth + 1
            && !children[k].expanded,
    ensures
        tree_wf(replace_subtree(t, i, children)),
{
    let end = block_end(t, t[i].depth, i + 1);
    lemma_block_end_bounds(t, t[i].depth, i + 1);
    let r = replace_subtree(t, i, children);
    let n1 = i + 1;
    let n2 = n1 + children.len();
    assert forall|k: int| 0 < k < r.len() implies #[trigger] r[k].depth <= r[k - 1].depth + 1 by {
        if k < n1 {
            assert(r[k] == t[k] && r[k - 1] == t[k - 1]);
        } else if k < n2 {
            assert(r[k] == children[k - n1]);
            if k == n1 {
                assert(r[k - 1] == t[i]);
            } else {
                assert(r[k - 1] == children[k - 1 - n1]);
            }
        } else {
            assert(r[k] == t[end + k - n2]);
            if end + k - n2 > end || k > n2 {
                if k > n2 {
                    assert(r[k - 1] == t[end + k - 1 - n2]);
                }
            }
            if k == n2 {
                if children.len() > 0 {
                    assert(r[k - 1] == children[children.len() - 1]);
                } else {
                    assert(r[k - 1] == t[i]);
                }
            }
        }
    }
    assert forall|k: int| 0 <= k < r.len() && (#[trigger] r[k]).expanded implies r[k].is_dir by {
        if k < n1 {
            assert(r[k] == t[k]);
        } else if k < n2 {
            assert(r[k] == children[k - n1]);
        } else {
            assert(r[k] == t[end + k - n2]);
        }
    }
    if r.len() > 0 {
        assert(r[0] == t[0]);
    }
}

/// The index just past the subtree of row `idx`.
fn subtree_end(tree: &Vec<TreeEntry>, idx: usize) -> (r: usize)
    requires
        idx < tree.len(),
    ensures
        r == block_end(rows(tree@), tree@[idx as int].depth as nat, idx + 1),
        idx < r <= tree.len(),
{
    let d = tree[idx].depth;
    let ghost t = rows(tree@);
    let mut j = idx + 1;
    while j < tree.len() && tree[j].depth > d
        invariant
            idx < j <= tree.len(),
            t == rows(tree@),
            t.len() == tree.len(),
            block_end(t, d as nat, j as int) == block_end(t, d as nat, idx + 1),
        decreases tree.len() - j,
    {
        assert(t[j as int].depth == tree@[j as int].depth);
        j += 1;
    }
    proof {
        if j < tree.len() {
            assert(t[j as int].depth == tree@[j as int].depth);
        }
    }
    j
}

/// The index of the first row with path `path` (and a directory, when `dir_only`).
fn position_of(tree: &Vec<TreeEntry>, path: &str, dir_only: bool) -> (r: usize)
    ensures
        r == find_row(rows(tree@), path@, dir_only, 0),
        r <= tree.len(),
{
    let ghost t = rows(tree@);
    let mut j: usize = 0;
    while j < tree.len()
        invariant
            0 <= j <= tree.len(),
            t == rows(tree@),
            t.len() == tree.len(),
            find_row(t, path@, dir_only, j as int) == find_row(t, path@, dir_only, 0),
        decreases tree.len() - j,
    {
        assert(t[j as int] == tree@[j as int]@);
        if crate::text::str_eq(tree[j].path.as_str(), path) && (!dir_only || tree[j].is_dir) {
            return j;
        }
        j += 1;
    }
    j
}

fn set_expanded(tree: &mut Vec<TreeEntry>, idx: usize, expanded: bool)
    requires
        idx < old(tree).len(),
    ensures
        rows(final(tree)@) == rows(old(tree)@).update(
            idx as int,
            with_expanded(rows(old(tree)@)[idx as int], expanded),
        ),
{
    let mut e = tree.remove(idx);
    e.expanded = expanded;
    tree.insert(idx, e);
    assert(rows(tree@) =~= rows(old(tree)@).update(
        idx as int,
        with_expanded(rows(old(tree)@)[idx as int], expanded),
    ));
}

impl App {
    /// Remembers which directories are expanded and which row is selected, so that both
    /// can be restored after the next reload rebuilds the tree.
    pub fn prepare_refresh(&mut self)
        ensures
            refresh_prepared(old(self).file_tree@, old(self).file_tree_scroll, *final(self)),
            *final(self) == (App {
                pending_expansions: final(self).pending_expansions,
                pending_scroll_path: final(self).pending_scroll_path,
                ..*old(self)
            }),
            views_of(final(self).pending_expansions@).no_duplicates(),
            forall|p: Seq<char>|
                #[trigger] views_of(final(self).pending_expansions@).contains(p) <==> exists|i: int|
                    0 <= i < old(self).file_tree.len() && rows(old(self).file_tree@)[i].path == p
                        && rows(old(self).file_tree@)[i].is_dir && rows(old(self).file_tree@)[i].expanded,
            old(self).file_tree_scroll < old(self).file_tree.len() ==> (final(self).pending_scroll_path matches Some(p)
                && p@ == old(self).file_tree@[old(self).file_tree_scroll as int].path@),
            old(self).file_tree_scroll >= old(self).file_tree.len() ==> final(self).pending_scroll_path is None,
            final(self).file_tree == old(self).file_tree,
            final(self).file_tree_scroll == old(self).file_tree_scroll,
    {
        let ghost t = rows(self.file_tree@);
        let mut out: Vec<String> = Vec::new();
        let mut i: usize = 0;
        while i < self.file_tree.len()
            invariant
                0 <= i <= self.file_tree.len(),
                t == rows(self.file_tree@),
                t.len() == self.file_tree.len(),
                views_of(out@).no_duplicates(),
                forall|p: Seq<char>|
                    #[trigger] views_of(out@).contains(p) <==> exists|k: int|
                        0 <= k < i && t[k].path == p && t[k].is_dir && t[k].expanded,
            decreases self.file_tree.len() - i,
        {
            assert(t[i as int] == self.file_tree@[i as int]@);
            let ghost before = views_of(out@);
            if self.file_tree[i].is_dir && self.file_tree[i].expanded {
                let path = &self.file_tree[i].path;
                if !contains_string(&out, path.as_str()) {
                    out.push(path.clone());
                    assert(views_of(out@) =~= before.push(t[i as int].path));
                }
            }
            assert forall|p: Seq<char>| #[trigger] views_of(out@).contains(p) <==> exists|k: int|
                0 <= k < i + 1 && t[k].path == p && t[k].is_dir && t[k].expanded by {
                let now = views_of(out@);
                if now.contains(p) {
                    let j = choose|j: int| 0 <= j < now.len() && now[j] == p;
                    if j < before.len() {
                        assert(before[j] == p);
                        assert(before.contains(p));
                        let k = choose|k: int| 0 <= k < i && t[k].path == p && t[k].is_dir && t[k].expanded;
                        assert(0 <= k < i + 1);
                    } else {
                        assert(t[i as int].path == p && t[i as int].is_dir && t[i as int].expanded);
                    }
                }
                if exists|k: int| 0 <= k < i + 1 && t[k].path == p && t[k].is_dir && t[k].expanded {
                    let k = choose|k: int| 0 <= k < i + 1 && t[k].path == p && t[k].is_dir && t[k].expanded;
                    if k < i {
                        assert(before.contains(p));
                        let j = choose|j: int| 0 <= j < before.len() && before[j] == p;
                        assert(now[j] == p);
                    } else {
                        if !before.contains(p) {
                            assert(now[before.len() as int] == p);
                        } else {
                            let j = choose|j: int| 0 <= j < before.len() && before[j] == p;
                            assert(now[j] == p);
                        }
                    }
                }
            }
            i += 1;
        }
        self.pending_expansions = out;
        self.pending_scroll_path = if self.file_tree_scroll < self.file_tree.len() {
            Some(self.file_tree[self.file_tree_scroll].path.clone())
        } else {
            None
        };
    }

    /// Expands the first row with path `path` when it is a collapsed directory; returns
    /// whether it did (its children must then be loaded).
    pub fn mark_expanded(&mut self, path: &str) -> (r: bool)
        ensures
            ({
                let t = rows(old(self).file_tree@);
                let i = find_row(t, path@, false, 0);
                r == (i < t.len() && t[i].is_dir && !t[i].expanded)
            }),
            r ==> rows(final(self).file_tree@) == rows(old(self).file_tree@).update(
                find_row(rows(old(self).file_tree@), path@, false, 0),
                with_expanded(rows(old(self).file_tree@)[find_row(rows(old(self).file_tree@), path@, false, 0)], true),
            ),
            !r ==> rows(final(self).file_tree@) == rows(old(self).file_tree@),
            tree_wf(rows(old(self).file_tree@)) ==> tree_wf(rows(final(self).file_tree@)),
            *final(self) == (App { file_tree: final(self).file_tree, ..*old(self) }),
    {
        let idx = position_of(&self.file_tree, path, false);
        if idx < self.file_tree.len() && self.file_tree[idx].is_dir && !self.file_tree[idx].expanded {
            assert(rows(self.file_tree@)[idx as int] == self.file_tree@[idx as int]@);
            set_expanded(&mut self.file_tree, idx, true);
            proof {
                let t = rows(old(self).file_tree@);
                let u = rows(self.file_tree@);
                if tree_wf(t) {
                    assert forall|k: int| 0 < k < u.len() implies #[trigger] u[k].depth <= u[k - 1].depth + 1 by {
                        assert(u[k].depth == t[k].depth && u[k - 1].depth == t[k - 1].depth);
                    }
                    assert forall|k: int| 0 <= k < u.len() && (#[trigger] u[k]).expanded implies u[k].is_dir by {
                        assert(u[k].is_dir == t[k].is_dir);
                    }
                    if u.len() > 0 {
                        assert(u[0].depth == t[0].depth);
                    }
                }
            }
            return true;
        }
        proof {
            if idx < self.file_tree.len() {
                assert(rows(self.file_tree@)[idx as int] == self.file_tree@[idx as int]@);
            }
        }
        false
    }

    /// Selects again the row remembered by `prepare_refresh`, once it is back in the
    /// tree; the memory is then cleared.
    pub fn restore_pending_scroll(&mut self)
        ensures
            match old(self).pending_scroll_path {
                Some(p) => {
                    let i = find_row(rows(old(self).file_tree@), p@, false, 0);
                    if i < old(self).file_tree.len() {
                        &&& final(self).file_tree_scroll == i
                        &&& final(self).pending_scroll_path is None
                    } else {
                        &&& final(self).file_tree_scroll == old(self).file_tree_scroll
                        &&& final(self).pending_scroll_path == old(self).pending_scroll_path
                    }
                },
                None => final(self).file_tree_scroll == old(self).file_tree_scroll
                    && final(self).pending_scroll_path is None,
            },
            final(self).file_tree == old(self).file_tree,
            *final(self) == (App {
                file_tree_scroll: final(self).file_tree_scroll,
                pending_scroll_path: final(self).pending_scroll_path,
                ..*old(self)
            }),
    {
        let idx = match &self.pending_scroll_path {
            Some(path) => position_of(&self.file_tree, path.as_str(), false),
            None => {
                return;
            },
        };
        if idx < self.file_tree.len() {
            self.file_tree_scroll = idx;
            self.pending_scroll_path = None;
        }
    }

    /// Collapses the directory at row `idx`: its subtree leaves the tree, and the
    /// selection is kept on a row.
    pub fn collapse_dir(&mut self, idx: usize)
        ensures
            idx >= old(self).file_tree.len() ==> *final(self) == *old(self),
            idx < old(self).file_tree.len() ==> {
                let t = rows(old(self).file_tree@);
                let u = rows(final(self).file_tree@);
                &&& u == t.take(idx as int).push(with_expanded(t[idx as int], false)) + t.skip(
                    block_end(t, t[idx as int].depth, idx + 1),
                )
                &&& final(self).file_tree_scroll == vstd::math::min(
                    old(self).file_tree_scroll as int,
                    if u.len() > 0 { u.len() - 1 } else { 0 },
                )
                &&& final(self).chat_messages == old(self).chat_messages
                &&& (tree_wf(t) ==> tree_wf(u))
            },
            *final(self) == (App {
                file_tree: final(self).file_tree,
                file_tree_scroll: final(self).file_tree_scroll,
                ..*old(self)
            }),
    {
        if idx >= self.file_tree.len() {
            return;
        }
        let ghost t = rows(self.file_tree@);
        let end = subtree_end(&self.file_tree, idx);
        set_expanded(&mut self.file_tree, idx, false);
        assert(rows(self.file_tree@).len() == self.file_tree.len());
        assert(self.file_tree.len() == t.len());
        let ghost w = self.file_tree@;
        let mut tail = self.file_tree.split_off(end);
        self.file_tree.truncate(idx + 1);
        self.file_tree.append(&mut tail);
        proof {
            assert(self.file_tree@ =~= w.subrange(0, idx + 1) + w.subrange(end as int, w.len() as int));
            let u = rows(self.file_tree@);
            let v = t.update(idx as int, with_expanded(t[idx as int], false));
            assert(rows(w) == v);
            assert forall|k: int| 0 <= k < u.len() implies u[k] == (t.take(idx as int).push(with_expanded(t[idx as int], false)) + t.skip(end as int))[k] by {
                if k <= idx {
                    assert(u[k] == w[k]@);
                    assert(w[k]@ == v[k]);
                } else {
                    assert(u[k] == w[end + k - idx - 1]@);
                    assert(w[end + k - idx - 1]@ == v[end + k - idx - 1]);
                }
            }
            assert(u =~= t.take(idx as int).push(with_expanded(t[idx as int], false)) + t.skip(end as int));
            if tree_wf(t) {
                lemma_block_end_bounds(t, t[idx as int].depth, idx + 1);
                assert(tree_wf(v)) by {
                    assert forall|k: int| 0 < k < v.len() implies #[trigger] v[k].depth <= v[k - 1].depth + 1 by {
                        assert(v[k].depth == t[k].depth && v[k - 1].depth == t[k - 1].depth);
                    }
                    assert forall|k: int| 0 <= k < v.len() && (#[trigger] v[k]).expanded implies v[k].is_dir by {
                        assert(v[k].is_dir == t[k].is_dir);
                    }
                    if v.len() > 0 {
                        assert(v[0].depth == t[0].depth);
                    }
                }
                assert(block_end(v, v[idx as int].depth, idx + 1) == block_end(t, t[idx as int].depth, idx + 1)) by {
                    lemma_block_end_same(t, v, t[idx as int].depth, idx + 1);
                }
                assert(u =~= replace_subtree(v, idx as int, Seq::empty()));
                if v[idx as int].is_dir {
                    lemma_replace_subtree_wf(v, idx as int, Seq::empty());
                } else {
                    lemma_remove_block_wf(v, idx as int);
                }
            }
        }
        let last = if self.file_tree.len() > 0 {
            self.file_tree.len() - 1
        } else {
            0
        };
        if self.file_tree_scroll > last {
            self.file_tree_scroll = last;
        }
    }
}

/// The last directory row before `j` at depth `d`; -1 when there is none.
pub open spec fn parent_row(t: Seq<TreeRow>, d: nat, j: int) -> int
    decreases j,
{
    if j <= 0 || j > t.len() {
        -1
    } else if t[j - 1].depth == d && t[j - 1].is_dir {
        j - 1
    } else {
        parent_row(t, d, j - 1)
    }
}

/// The paths of the collapsed directory rows that are waiting in `pending`, in tree
/// order.
pub open spec fn ready_paths(t: Seq<TreeRow>, pending: Seq<Seq<char>>) -> Seq<Seq<char>>
    decreases t.len(),
{
    if t.len() == 0 {
        Seq::empty()
    } else {
        let before = ready_paths(t.drop_last(), pending);
        let r = t.last();
        if r.is_dir && !r.expanded && pending.contains(r.path) {
            before.push(r.path)
        } else {
            before
        }
    }
}

/// `s` without the strings that occur in `gone`.
pub open spec fn without(s: Seq<Seq<char>>, gone: Seq<Seq<char>>) -> Seq<Seq<char>>
    decreases s.len(),
{
    if s.len() == 0 {
        Seq::empty()
    } else {
        let before = without(s.drop_last(), gone);
        if gone.contains(s.last()) {
            before
        } else {
            before.push(s.last())
        }
    }
}

/// Every row is shallow enough to have children.
pub open spec fn depths_bounded(t: Seq<TreeEntry>) -> bool {
    forall|i: int| 0 <= i < t.len() ==> (#[trigger] t[i]).depth < usize::MAX
}

impl App {
    /// The children of a directory arrived. When the directory is still in the tree and
    /// expanded, its subtree becomes the loaded entries one level deeper (or, when they
    /// could not be loaded, it collapses and the log says why); otherwise nothing changes.
    pub fn handle_subdir_loaded(&mut self, parent_path: String, result: Result<Vec<FileEntry>, AppError>)
        requires
            depths_bounded(old(self).file_tree@),
        ensures
            ({
                let t = rows(old(self).file_tree@);
                let p = find_row(t, parent_path@, true, 0);
                let u = rows(final(self).file_tree@);
                if p >= t.len() || !t[p].expanded {
                    *final(self) == *old(self)
                } else {
                    match result {
                        Ok(entries) => {
                            &&& u == replace_subtree(t, p, listed_rows(entries@, t[p].depth + 1))
                            &&& final(self).chat_messages == old(self).chat_messages
                            &&& (tree_wf(t) ==> tree_wf(u))
                        },
                        Err(e) => {
                            &&& u == t.update(p, with_expanded(t[p], false))
                            &&& chat_view(final(self).chat_messages@) == chat_view(
                                old(self).chat_messages@,
                            ).push((ChatRole::Error, load_failed_text(e)))
                            &&& (tree_wf(t) ==> tree_wf(u))
                        },
                    }
                }
            }),
            *final(self) == (App {
                file_tree: final(self).file_tree,
                chat_messages: final(self).chat_messages,
                ..*old(self)
            }),
    {
        let ghost t = rows(self.file_tree@);
        let p = position_of(&self.file_tree, parent_path.as_str(), true);
        if p >= self.file_tree.len() {
            return;
        }
        assert(t[p as int] == self.file_tree@[p as int]@);
        if !self.file_tree[p].expanded {
            return;
        }
        proof {
            lemma_find_row_found(t, parent_path@, 0);
        }
        match result {
            Ok(entries) => {
                let child_depth = self.file_tree[p].depth + 1;
                let end = subtree_end(&self.file_tree, p);
                let ghost w = self.file_tree@;
                let mut tail = self.file_tree.split_off(end);
                self.file_tree.truncate(p + 1);
                let ghost head = self.file_tree@;
                let mut i: usize = 0;
                while i < entries.len()
                    invariant
                        0 <= i <= entries.len(),
                        head == w.subrange(0, p + 1),
                        p < w.len(),
                        self.chat_messages == old(self).chat_messages,
                        *self == (App { file_tree: self.file_tree, ..*old(self) }),
                        self.file_tree@.len() == head.len() + i,
                        forall|k: int| 0 <= k < head.len() ==> self.file_tree@[k] == head[k],
                        forall|k: int|
                            0 <= k < i ==> (#[trigger] self.file_tree@[head.len() + k])@ == listed_row(
                                entries@[k],
                                child_depth as nat,
                            ),
                    decreases entries.len() - i,
                {
                    let row = TreeEntry::from_file_entry(&entries[i], child_depth);
                    self.file_tree.push(row);
                    i += 1;
                }
                let ghost mid = self.file_tree@;
                let ghost tl = tail@;
                assert(tl == w.subrange(end as int, w.len() as int));
                self.file_tree.append(&mut tail);
                assert(self.file_tree@ == mid + tl);
                proof {
                    let u = rows(self.file_tree@);
                    let children = listed_rows(entries@, t[p as int].depth + 1);
                    let expected = replace_subtree(t, p as int, children);
                    assert(t == rows(w));
                    assert forall|k: int| 0 <= k < u.len() implies u[k] == expected[k] by {
                        if k <= p {
                            assert(self.file_tree@[k] == mid[k]);
                            assert(mid[k] == head[k]);
                            assert(u[k] == w[k]@);
                        } else if k < p + 1 + entries.len() {
                            assert(self.file_tree@[k] == mid[k]);
                            assert(u[k] == mid[head.len() + (k - p - 1)]@);
                        } else {
                            assert(self.file_tree@[k] == tl[k - mid.len()]);
                            assert(u[k] == w[end + k - p - 1 - entries.len()]@);
                        }
                    }
                    assert(u =~= expected);
                    if tree_wf(t) {
                        lemma_replace_subtree_wf(t, p as int, children);
                    }
                }
            },
            Err(e) => {
                set_expanded(&mut self.file_tree, p, false);
                let ghost before = chat_view(self.chat_messages@);
                let m = e.message();
                let content = concat2("Failed to load directory: ", m.as_str());
                self.chat_messages.push(ChatEntry { role: ChatRole::Error, content });
                assert(chat_view(self.chat_messages@) =~= before.push((ChatRole::Error, load_failed_text(e))));
                proof {
                    let u = rows(self.file_tree@);
                    if tree_wf(t) {
                        assert forall|k: int| 0 < k < u.len() implies #[trigger] u[k].depth <= u[k - 1].depth + 1 by {
                            assert(u[k].depth == t[k].depth && u[k - 1].depth == t[k - 1].depth);
                        }
                        assert forall|k: int| 0 <= k < u.len() && (#[trigger] u[k]).expanded implies u[k].is_dir by {
                            assert(u[k].is_dir == t[k].is_dir);
                        }
                        if u.len() > 0 {
                            assert(u[0].depth == t[0].depth);
                        }
                    }
                }
            },
        }
    }

    /// Expands or collapses the selected directory. Returns the directory's path when it
    /// was expanded and its children must be loaded.
    pub fn toggle_expand(&mut self) -> (r: Option<String>)
        ensures
            rows(final(self).file_tree@) == toggled_rows(
                rows(old(self).file_tree@),
                old(self).file_tree_scroll as int,
            ),
            opt_str(r) == expand_request(rows(old(self).file_tree@), old(self).file_tree_scroll as int),
            ({
                let t = rows(old(self).file_tree@);
                let i = old(self).file_tree_scroll as int;
                if i >= t.len() || !t[i].is_dir {
                    r is None && *final(self) == *old(self)
                } else if t[i].expanded {
                    &&& r is None
                    &&& rows(final(self).file_tree@) == t.take(i).push(with_expanded(t[i], false)) + t.skip(
                        block_end(t, t[i].depth, i + 1),
                    )
                    &&& (tree_wf(t) ==> tree_wf(rows(final(self).file_tree@)))
                } else {
                    &&& r matches Some(p) && p@ == t[i].path
                    &&& rows(final(self).file_tree@) == t.update(i, with_expanded(t[i], true))
                    &&& final(self).file_tree_scroll == old(self).file_tree_scroll
                    &&& (tree_wf(t) ==> tree_wf(rows(final(self).file_tree@)))
                }
            }),
            *final(self) == (App {
                file_tree: final(self).file_tree,
                file_tree_scroll: final(self).file_tree_scroll,
                ..*old(self)
            }),
    {
        let idx = self.file_tree_scroll;
        if idx >= self.file_tree.len() {
            return None;
        }
        assert(rows(self.file_tree@)[idx as int] == self.file_tree@[idx as int]@);
        if !self.file_tree[idx].is_dir {
            return None;
        }
        if self.file_tree[idx].expanded {
            self.collapse_dir(idx);
            return None;
        }
        let path = self.file_tree[idx].path.clone();
        let ghost t = rows(self.file_tree@);
        set_expanded(&mut self.file_tree, idx, true);
        proof {
            let u = rows(self.file_tree@);
            if tree_wf(t) {
                assert forall|k: int| 0 < k < u.len() implies #[trigger] u[k].depth <= u[k - 1].depth + 1 by {
                    assert(u[k].depth == t[k].depth && u[k - 1].depth == t[k - 1].depth);
                }
                assert forall|k: int| 0 <= k < u.len() && (#[trigger] u[k]).expanded implies u[k].is_dir by {
                    assert(u[k].is_dir == t[k].is_dir);
                }
                if u.len() > 0 {
                    assert(u[0].depth == t[0].depth);
                }
            }
        }
        Some(path)
    }

    /// Moves the selection to the directory that holds the selected row.
    pub fn jump_to_parent(&mut self)
        ensures
            ({
                let t = rows(old(self).file_tree@);
                let i = old(self).file_tree_scroll as int;
                if i < t.len() && t[i].depth > 0 && parent_row(t, (t[i].depth - 1) as nat, i) >= 0 {
                    final(self).file_tree_scroll == parent_row(t, (t[i].depth - 1) as nat, i)
                } else {
                    final(self).file_tree_scroll == old(self).file_tree_scroll
                }
            }),
            final(self).file_tree == old(self).file_tree,
            *final(self) == (App { file_tree_scroll: final(self).file_tree_scroll, ..*old(self) }),
    {
        let ghost t = rows(self.file_tree@);
        let idx = self.file_tree_scroll;
        if idx >= self.file_tree.len() || self.file_tree[idx].depth == 0 {
            proof {
                if idx < self.file_tree.len() {
                    assert(t[idx as int] == self.file_tree@[idx as int]@);
                }
            }
            return;
        }
        assert(t[idx as int] == self.file_tree@[idx as int]@);
        let parent_depth = self.file_tree[idx].depth - 1;
        let mut j = idx;
        while j > 0
            invariant
                0 <= j <= idx < self.file_tree.len(),
                t == rows(self.file_tree@),
                t.len() == self.file_tree.len(),
                parent_row(t, parent_depth as nat, j as int) == parent_row(t, parent_depth as nat, idx as int),
                self.file_tree_scroll == idx,
                self.file_tree == old(self).file_tree,
                *self == *old(self),
                idx == old(self).file_tree_scroll,
                parent_depth + 1 == t[idx as int].depth,
            decreases j,
        {
            assert(t[j - 1] == self.file_tree@[j - 1]@);
            if self.file_tree[j - 1].depth == parent_depth && self.file_tree[j - 1].is_dir {
                assert(parent_row(t, parent_depth as nat, j as int) == j - 1);
                self.file_tree_scroll = j - 1;
                return;
            }
            j -= 1;
        }
    }

    /// The pending expansions whose directories are now collapsed rows of the tree, in
    /// tree order; they leave the pending set (the caller expands them and loads their
    /// children).
    pub fn drain_ready_pending_expansions(&mut self) -> (r: Vec<String>)
        ensures
            views_of(r@) == ready_paths(rows(old(self).file_tree@), views_of(old(self).pending_expansions@)),
            views_of(final(self).pending_expansions@) == without(
                views_of(old(self).pending_expansions@),
                views_of(r@),
            ),
            final(self).file_tree == old(self).file_tree,
            *final(self) == (App { pending_expansions: final(self).pending_expansions, ..*old(self) }),
    {
        let ghost t = rows(self.file_tree@);
        let ghost pend = views_of(self.pending_expansions@);
        let mut ready: Vec<String> = Vec::new();
        let mut i: usize = 0;
        while i < self.file_tree.len()
            invariant
                0 <= i <= self.file_tree.len(),
                t == rows(self.file_tree@),
                t.len() == self.file_tree.len(),
                pend == views_of(self.pending_expansions@),
                views_of(ready@) == ready_paths(t.take(i as int), pend),
            decreases self.file_tree.len() - i,
        {
            assert(t.take(i + 1).drop_last() =~= t.take(i as int));
            assert(t.take(i + 1).last() == self.file_tree@[i as int]@);
            let e = &self.file_tree[i];
            if e.is_dir && !e.expanded && contains_string(&self.pending_expansions, e.path.as_str()) {
                let ghost before = views_of(ready@);
                ready.push(e.path.clone());
                assert(views_of(ready@) =~= before.push(e.path@));
            }
            i += 1;
        }
        assert(t.take(i as int) =~= t);
        let mut kept: Vec<String> = Vec::new();
        let mut k: usize = 0;
        while k < self.pending_expansions.len()
            invariant
                0 <= k <= self.pending_expansions.len(),
                pend == views_of(self.pending_expansions@),
                views_of(kept@) == without(pend.take(k as int), views_of(ready@)),
            decreases self.pending_expansions.len() - k,
        {
            assert(pend.take(k + 1).drop_last() =~= pend.take(k as int));
            assert(pend.take(k + 1).last() == self.pending_expansions@[k as int]@);
            if !contains_string(&ready, self.pending_expansions[k].as_str()) {
                let ghost before = views_of(kept@);
                kept.push(self.pending_expansions[k].clone());
                assert(views_of(kept@) =~= before.push(pend[k as int]));
            }
            k += 1;
        }
        assert(pend.take(k as int) =~= pend);
        self.pending_expansions = kept;
        ready
    }
}

proof fn lemma_find_row_found(t: Seq<TreeRow>, path: Seq<char>, j: int)
    requires
        0 <= j,
        find_row(t, path, true, j) < t.len(),
    ensures
        t[find_row(t, path, true, j)].path == path,
        t[find_row(t, path, true, j)].is_dir,
        j <= find_row(t, path, true, j),
    decreases t.len() - j,
{
    if j < t.len() && !(t[j].path == path && t[j].is_dir) {
        lemma_find_row_found(t, path, j + 1);
    }
}

/// Two trees that differ only in expansion flags have the same blocks.
proof fn lemma_block_end_same(t: Seq<TreeRow>, v: Seq<TreeRow>, d: nat, j: int)
    requires
        t.len() == v.len(),
        forall|k: int| 0 <= k < t.len() ==> (#[trigger] t[k]).depth == v[k].depth,
    ensures
        block_end(t, d, j) == block_end(v, d, j),
    decreases t.len() - j,
{
    if 0 <= j < t.len() && t[j].depth > d {
        lemma_block_end_same(t, v, d, j + 1);
    }
}

/// Removing the subtree of any row keeps the tree well formed.
proof fn lemma_remove_block_wf(t: Seq<TreeRow>, i: int)
    requires
        tree_wf(t),
        0 <= i < t.len(),
    ensures
        tree_wf(replace_subtree(t, i, Seq::empty())),
{
    let end = block_end(t, t[i].depth, i + 1);
    lemma_block_end_bounds(t, t[i].depth, i + 1);
    let r = replace_subtree(t, i, Seq::empty());
    assert forall|k: int| 0 < k < r.len() implies #[trigger] r[k].depth <= r[k - 1].depth + 1 by {
        if k <= i {
            assert(r[k] == t[k] && r[k - 1] == t[k - 1]);
        } else {
            assert(r[k] == t[end + k - i - 1]);
            if k == i + 1 {
                assert(r[k - 1] == t[i]);
            } else {
                assert(r[k - 1] == t[end + k - i - 2]);
            }
        }
    }
    assert forall|k: int| 0 <= k < r.len() && (#[trigger] r[k]).expanded implies r[k].is_dir by {
        if k <= i {
            assert(r[k] == t[k]);
        } else {
            assert(r[k] == t[end + k - i - 1]);
        }
    }
    if r.len() > 0 {
        assert(r[0] == t[0]);
    }
}

/// Whether `v` holds a string equal to `s`.
fn contains_string(v: &Vec<String>, s: &str) -> (r: bool)
    ensures
        r == views_of(v@).contains(s@),
{
    let mut i: usize = 0;
    while i < v.len()
        invariant
            0 <= i <= v.len(),
            forall|k: int| 0 <= k < i ==> v@[k]@ != s@,
        decreases v.len() - i,
    {
        if crate::text::str_eq(v[i].as_str(), s) {
            assert(views_of(v@)[i as int] == s@);
            return true;
        }
        i += 1;
    }
    proof {
        if views_of(v@).contains(s@) {
            let k = choose|k: int| 0 <= k < views_of(v@).len() && views_of(v@)[k] == s@;
            assert(v@[k]@ == s@);
        }
    }
    false
}

} // verus!
