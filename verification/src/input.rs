//! Keys and the slash-command popups: what each key does to the interface, and what the
//! caller must do next (answer a confirmation, load a directory, run a command, send a
//! message, or hand the key to the input box).
use vstd::prelude::*;

use crate::commands::{
    command_args, command_names, command_pickers, commands, match_commands, matching_commands,
    SlashPicker,
};
use crate::state::{
    block_end, cancelled_text, chat_view, expand_request, parent_row, rows, toggled_rows, App,
    ChatRole, InputMode, Panel, PendingToolCall,
};
use crate::text::{chars_of, concat2, concat3, is_whitespace, is_ws, trim, trim_str};
use crate::types::opt_str;

verus! {

/// A key, as the handler reads it.
#[derive(PartialEq, Eq, Structural, Clone, Copy)]
pub enum KeyCode {
    Char(char),
    Enter,
    Esc,
    Tab,
    Up,
    Down,
    Left,
    Right,
    Other,
}

#[derive(Clone, Copy)]
pub struct Key {
    pub code: KeyCode,
    /// Control is held.
    pub ctrl: bool,
    /// Shift or Alt is held.
    pub shift_or_alt: bool,
}

/// What the caller must do after a key.
pub enum KeyAction {
    Nothing,
    /// The user answered the confirmation of this call.
    Confirm { pending: PendingToolCall, approved: bool },
    /// Load the children of this directory.
    LoadSubdir(String),
    /// Empty the input box and run this slash command.
    Command(String),
    /// Empty the input box and send this message (already in the log).
    Send(String),
    /// Put this text in the input box (then report it with `update_slash_completions`).
    SetInput(String),
    /// Hand the key to the input box, then report its text with
    /// `update_slash_completions`.
    Edit,
}

pub enum KeyActionView {
    Nothing,
    Confirm { approved: bool },
    LoadSubdir(Seq<char>),
    Command(Seq<char>),
    Send(Seq<char>),
    SetInput(Seq<char>),
    Edit,
}

impl View for KeyAction {
    type V = KeyActionView;

    open spec fn view(&self) -> KeyActionView {
        match self {
            KeyAction::Nothing => KeyActionView::Nothing,
            KeyAction::Confirm { approved, .. } => KeyActionView::Confirm { approved: *approved },
            KeyAction::LoadSubdir(p) => KeyActionView::LoadSubdir(p@),
            KeyAction::Command(c) => KeyActionView::Command(c@),
            KeyAction::Send(t) => KeyActionView::Send(t@),
            KeyAction::SetInput(t) => KeyActionView::SetInput(t@),
            KeyAction::Edit => KeyActionView::Edit,
        }
    }
}

// ── Completions and pickers ───────────────────────────────────────────────────

/// The input is a single word starting with `/`: a command being typed.
pub open spec fn typing_command(text: Seq<char>) -> bool {
    text.len() > 0 && text[0] == '/' && forall|i: int| 0 <= i < text.len() ==> !is_ws(#[trigger] text[i])
}

/// The commands offered for the text of the input: those whose name starts with it,
/// while a command is being typed; none otherwise.
pub open spec fn completions_for(text: Seq<char>) -> Seq<usize> {
    if typing_command(text) {
        matching_commands(command_names(), text, command_names().len() as int)
    } else {
        Seq::empty()
    }
}

/// Every offered completion is a position in the command list.
pub open spec fn completions_valid(c: Seq<usize>) -> bool {
    forall|i: int| 0 <= i < c.len() ==> #[trigger] c[i] < command_names().len()
}

/// The position before `i` in a list of `len`, wrapping to the last.
pub open spec fn prev_index(i: usize, len: nat) -> usize {
    if len == 0 {
        i
    } else if i == 0 || i >= len {
        (len - 1) as usize
    } else {
        (i - 1) as usize
    }
}

/// The position after `i` in a list of `len`, wrapping to the first.
pub open spec fn next_index(i: usize, len: nat) -> usize {
    if len == 0 {
        i
    } else if i + 1 >= len {
        0
    } else {
        (i + 1) as usize
    }
}

proof fn lemma_matching_bounded(names: Seq<Seq<char>>, prefix: Seq<char>, n: int)
    ensures
        forall|i: int|
            0 <= i < matching_commands(names, prefix, n).len() ==> #[trigger] matching_commands(
                names,
                prefix,
                n,
            )[i] < n,
    decreases n,
{
    if n > 0 {
        lemma_matching_bounded(names, prefix, n - 1);
        let before = matching_commands(names, prefix, n - 1);
        let now = matching_commands(names, prefix, n);
        assert forall|i: int| 0 <= i < now.len() implies #[trigger] now[i] < n by {
            if i < before.len() {
                assert(now[i] == before[i]);
            }
        }
    }
}

fn step_prev(i: usize, len: usize) -> (r: usize)
    ensures
        r == prev_index(i, len as nat),
{
    if len == 0 {
        i
    } else if i == 0 || i >= len {
        len - 1
    } else {
        i - 1
    }
}

fn step_next(i: usize, len: usize) -> (r: usize)
    ensures
        r == next_index(i, len as nat),
{
    if len == 0 {
        i
    } else if i >= len - 1 {
        0
    } else {
        i + 1
    }
}

fn is_typing_command(text: &str) -> (r: bool)
    ensures
        r == typing_command(text@),
{
    let v = chars_of(text);
    if v.len() == 0 || v[0] != '/' {
        return false;
    }
    let mut i: usize = 0;
    while i < v.len()
        invariant
            0 <= i <= v.len(),
            v@ == text@,
            forall|k: int| 0 <= k < i ==> !is_ws(#[trigger] v@[k]),
        decreases v.len() - i,
    {
        if is_whitespace(v[i]) {
            return false;
        }
        i += 1;
    }
    true
}

impl SlashPicker {
    /// Highlights the item before the highlighted one, wrapping to the last.
    pub fn select_prev(&mut self)
        ensures
            final(self).selected == prev_index(old(self).selected, old(self).items.len() as nat),
            final(self).command == old(self).command,
            final(self).items == old(self).items,
    {
        self.selected = step_prev(self.selected, self.items.len());
    }

    /// Highlights the item after the highlighted one, wrapping to the first.
    pub fn select_next(&mut self)
        ensures
            final(self).selected == next_index(old(self).selected, old(self).items.len() as nat),
            final(self).command == old(self).command,
            final(self).items == old(self).items,
    {
        self.selected = step_next(self.selected, self.items.len());
    }
}

impl App {
    /// Offers the commands that complete the text of the input, the first one highlighted.
    pub fn update_slash_completions(&mut self, text: &str)
        ensures
            final(self).slash_completions@ == completions_for(text@),
            final(self).slash_selected == 0,
            completions_valid(final(self).slash_completions@),
            *final(self) == (App {
                slash_completions: final(self).slash_completions,
                slash_selected: 0,
                ..*old(self)
            }),
    {
        proof {
            lemma_matching_bounded(command_names(), text@, command_names().len() as int);
        }
        if is_typing_command(text) {
            self.slash_completions = match_commands(text);
        } else {
            self.slash_completions = Vec::new();
        }
        self.slash_selected = 0;
    }

    /// Highlights the completion before the highlighted one, wrapping to the last.
    pub fn slash_select_prev(&mut self)
        ensures
            *final(self) == (App {
                slash_selected: prev_index(old(self).slash_selected, old(self).slash_completions.len() as nat),
                ..*old(self)
            }),
    {
        self.slash_selected = step_prev(self.slash_selected, self.slash_completions.len());
    }

    /// Highlights the completion after the highlighted one, wrapping to the first.
    pub fn slash_select_next(&mut self)
        ensures
            *final(self) == (App {
                slash_selected: next_index(old(self).slash_selected, old(self).slash_completions.len() as nat),
                ..*old(self)
            }),
    {
        self.slash_selected = step_next(self.slash_selected, self.slash_completions.len());
    }

    fn clear_completions(&mut self)
        ensures
            *final(self) == (App {
                slash_completions: final(self).slash_completions,
                slash_selected: 0,
                ..*old(self)
            }),
            final(self).slash_completions.len() == 0,
    {
        self.slash_completions = Vec::new();
        self.slash_selected = 0;
    }
}


// ── Keys ──────────────────────────────────────────────────────────────────────

/// Which rule a key falls under.
pub enum KeyBranch {
    /// Ctrl+C.
    Quit,
    /// `y`/`Y` (approve) or `n`/`N`/Esc (decline) while a confirmation is asked.
    Answer(bool),
    /// Any other key while a confirmation is asked.
    Ignored,
    ClosePicker,
    CloseCompletions,
    Cancel,
    /// Enter without Shift or Alt.
    Enter,
    ExpandTree,
    LeftInTree,
    ClearChat,
    TabComplete,
    SwitchPanel,
    PickerUp,
    PickerDown,
    CompletionUp,
    CompletionDown,
    ScrollUp,
    ScrollDown,
    Edit,
}

pub open spec fn key_branch(app: App, key: Key) -> KeyBranch {
    let chat = app.focused_panel == Panel::Chat;
    let picker = app.slash_picker is Some;
    let comps = app.slash_completions.len() > 0;
    if key.code == KeyCode::Char('c') && key.ctrl {
        KeyBranch::Quit
    } else if app.input_mode == InputMode::Confirming {
        if key.code == KeyCode::Char('y') || key.code == KeyCode::Char('Y') {
            KeyBranch::Answer(true)
        } else if key.code == KeyCode::Char('n') || key.code == KeyCode::Char('N') || key.code
            == KeyCode::Esc {
            KeyBranch::Answer(false)
        } else {
            KeyBranch::Ignored
        }
    } else if key.code == KeyCode::Esc && picker {
        KeyBranch::ClosePicker
    } else if key.code == KeyCode::Esc && comps {
        KeyBranch::CloseCompletions
    } else if key.code == KeyCode::Esc && (app.is_loading || app.streaming_text is Some) {
        KeyBranch::Cancel
    } else if key.code == KeyCode::Enter && !key.shift_or_alt {
        KeyBranch::Enter
    } else if key.code == KeyCode::Right && !chat {
        KeyBranch::ExpandTree
    } else if key.code == KeyCode::Left && !chat {
        KeyBranch::LeftInTree
    } else if key.code == KeyCode::Char('l') && key.ctrl {
        KeyBranch::ClearChat
    } else if key.code == KeyCode::Tab && comps && chat {
        KeyBranch::TabComplete
    } else if key.code == KeyCode::Tab {
        KeyBranch::SwitchPanel
    } else if key.code == KeyCode::Up && picker && chat {
        KeyBranch::PickerUp
    } else if key.code == KeyCode::Down && picker && chat {
        KeyBranch::PickerDown
    } else if key.code == KeyCode::Up && comps && chat {
        KeyBranch::CompletionUp
    } else if key.code == KeyCode::Down && comps && chat {
        KeyBranch::CompletionDown
    } else if key.code == KeyCode::Up {
        KeyBranch::ScrollUp
    } else if key.code == KeyCode::Down {
        KeyBranch::ScrollDown
    } else {
        KeyBranch::Edit
    }
}

/// The text a highlighted completion puts in the input: the name, and a space when the
/// command takes an argument.
pub open spec fn completion_text(i: int) -> Seq<char> {
    if command_args()[i] {
        command_names()[i] + " "@
    } else {
        command_names()[i]
    }
}

/// What Enter asks of the caller.
pub open spec fn enter_action(app: App, input: Seq<char>) -> KeyActionView {
    if app.focused_panel == Panel::FileTree {
        match expand_request(rows(app.file_tree@), app.file_tree_scroll as int) {
            Some(p) => KeyActionView::LoadSubdir(p),
            None => KeyActionView::Nothing,
        }
    } else if app.slash_picker is Some {
        let p = app.slash_picker->Some_0;
        if p.selected < p.items.len() {
            KeyActionView::Command(p.command@ + " "@ + p.items@[p.selected as int].value@)
        } else {
            KeyActionView::Nothing
        }
    } else if app.slash_completions.len() > 0 {
        if app.slash_selected < app.slash_completions.len() {
            let i = app.slash_completions@[app.slash_selected as int] as int;
            if !command_pickers()[i] && command_args()[i] {
                KeyActionView::SetInput(completion_text(i))
            } else {
                KeyActionView::Command(command_names()[i])
            }
        } else {
            KeyActionView::Nothing
        }
    } else {
        let t = trim(input);
        if t.len() == 0 || app.is_loading {
            KeyActionView::Nothing
        } else if t[0] == '/' {
            KeyActionView::Command(t)
        } else {
            KeyActionView::Send(t)
        }
    }
}

/// The selection after Left in the tree: the row collapses when it is an expanded
/// directory; otherwise the selection moves to the directory that holds it.
pub open spec fn left_scroll(app: App) -> int {
    let t = rows(app.file_tree@);
    let i = app.file_tree_scroll as int;
    if i < t.len() && t[i].depth > 0 && parent_row(t, (t[i].depth - 1) as nat, i) >= 0 {
        parent_row(t, (t[i].depth - 1) as nat, i)
    } else {
        i
    }
}

impl App {
    /// Applies a key and says what the caller must do next. `input` is the text of the
    /// input box, its lines joined by line breaks.
    pub fn on_key(&mut self, key: Key, input: &str) -> (r: KeyAction)
        requires
            completions_valid(old(self).slash_completions@),
        ensures
            completions_valid(final(self).slash_completions@),
            match key_branch(*old(self), key) {
                KeyBranch::Quit => r@ == KeyActionView::Nothing && *final(self) == (App {
                    should_quit: true,
                    ..*old(self)
                }),
                KeyBranch::Answer(approved) => {
                    &&& *final(self) == (App {
                        is_loading: old(self).is_loading || approved,
                        input_mode: InputMode::Editing,
                        pending_confirmation: None,
                        ..*old(self)
                    })
                    &&& match old(self).pending_confirmation {
                        Some(p) => r matches KeyAction::Confirm { pending, approved: a } && pending
                            == p && a == approved,
                        None => r@ == KeyActionView::Nothing,
                    }
                },
                KeyBranch::Ignored => r@ == KeyActionView::Nothing && *final(self) == *old(self),
                KeyBranch::ClosePicker => r@ == KeyActionView::Nothing && *final(self) == (App {
                    slash_picker: None,
                    ..*old(self)
                }),
                KeyBranch::CloseCompletions => {
                    &&& r@ == KeyActionView::Nothing
                    &&& final(self).slash_completions.len() == 0
                    &&& *final(self) == (App {
                        slash_completions: final(self).slash_completions,
                        slash_selected: 0,
                        ..*old(self)
                    })
                },
                KeyBranch::Cancel => {
                    &&& r@ == KeyActionView::Nothing
                    &&& old(self).request_in_flight ==> {
                        &&& !final(self).request_in_flight
                        &&& !final(self).is_loading
                        &&& final(self).streaming_text is None
                        &&& chat_view(final(self).chat_messages@) == chat_view(
                            old(self).chat_messages@,
                        ).push((ChatRole::Warning, cancelled_text()))
                    }
                    &&& !old(self).request_in_flight ==> *final(self) == *old(self)
                },
                KeyBranch::Enter => {
                    &&& r@ == enter_action(*old(self), input@)
                    &&& old(self).focused_panel == Panel::FileTree ==> rows(final(self).file_tree@)
                        == toggled_rows(rows(old(self).file_tree@), old(self).file_tree_scroll as int)
                    &&& (old(self).focused_panel == Panel::Chat && old(self).slash_picker is Some)
                        ==> *final(self) == (App { slash_picker: None, ..*old(self) })
                    &&& (old(self).focused_panel == Panel::Chat && old(self).slash_picker is None
                        && old(self).slash_completions.len() > 0) ==> {
                        if old(self).slash_selected < old(self).slash_completions.len() {
                            &&& final(self).slash_completions.len() == 0
                            &&& *final(self) == (App {
                                slash_completions: final(self).slash_completions,
                                slash_selected: 0,
                                ..*old(self)
                            })
                        } else {
                            *final(self) == *old(self)
                        }
                    }
                    &&& (old(self).focused_panel == Panel::Chat && old(self).slash_picker is None
                        && old(self).slash_completions.len() == 0) ==> match r@ {
                        KeyActionView::Send(t) => {
                            &&& chat_view(final(self).chat_messages@) == chat_view(
                                old(self).chat_messages@,
                            ).push((ChatRole::User, t))
                            &&& final(self).is_loading
                        },
                        KeyActionView::Command(_) => *final(self) == *old(self),
                        _ => *final(self) == *old(self),
                    }
                },
                KeyBranch::ExpandTree => {
                    &&& r@ == match expand_request(
                        rows(old(self).file_tree@),
                        old(self).file_tree_scroll as int,
                    ) {
                        Some(p) => KeyActionView::LoadSubdir(p),
                        None => KeyActionView::Nothing,
                    }
                    &&& rows(final(self).file_tree@) == toggled_rows(
                        rows(old(self).file_tree@),
                        old(self).file_tree_scroll as int,
                    )
                },
                KeyBranch::LeftInTree => {
                    let t = rows(old(self).file_tree@);
                    let i = old(self).file_tree_scroll as int;
                    &&& r@ == KeyActionView::Nothing
                    &&& if i < t.len() && t[i].is_dir && t[i].expanded {
                        rows(final(self).file_tree@) == t.take(i).push(
                            crate::state::with_expanded(t[i], false),
                        ) + t.skip(block_end(t, t[i].depth, i + 1))
                    } else {
                        &&& final(self).file_tree == old(self).file_tree
                        &&& final(self).file_tree_scroll == left_scroll(*old(self))
                    }
                },
                KeyBranch::ClearChat => {
                    &&& r@ == KeyActionView::Nothing
                    &&& final(self).conversation.len() == 0
                    &&& final(self).chat_messages.len() == 0
                    &&& final(self).pending_confirmation is None
                },
                KeyBranch::TabComplete => if old(self).slash_selected
                    < old(self).slash_completions.len() {
                    &&& r@ == KeyActionView::SetInput(
                        completion_text(old(self).slash_completions@[old(self).slash_selected as int] as int),
                    )
                    &&& final(self).slash_completions@ == completions_for(
                        completion_text(old(self).slash_completions@[old(self).slash_selected as int] as int),
                    )
                    &&& final(self).slash_selected == 0
                } else {
                    r@ == KeyActionView::Nothing && *final(self) == *old(self)
                },
                KeyBranch::SwitchPanel => r@ == KeyActionView::Nothing && *final(self) == (App {
                    focused_panel: if old(self).focused_panel == Panel::Chat {
                        Panel::FileTree
                    } else {
                        Panel::Chat
                    },
                    ..*old(self)
                }),
                KeyBranch::PickerUp => {
                    let p = old(self).slash_picker->Some_0;
                    &&& r@ == KeyActionView::Nothing
                    &&& final(self).slash_picker matches Some(q) && q.selected == prev_index(
                        p.selected,
                        p.items.len() as nat,
                    ) && q.items == p.items && q.command == p.command
                },
                KeyBranch::PickerDown => {
                    let p = old(self).slash_picker->Some_0;
                    &&& r@ == KeyActionView::Nothing
                    &&& final(self).slash_picker matches Some(q) && q.selected == next_index(
                        p.selected,
                        p.items.len() as nat,
                    ) && q.items == p.items && q.command == p.command
                },
                KeyBranch::CompletionUp => r@ == KeyActionView::Nothing && *final(self) == (App {
                    slash_selected: prev_index(
                        old(self).slash_selected,
                        old(self).slash_completions.len() as nat,
                    ),
                    ..*old(self)
                }),
                KeyBranch::CompletionDown => r@ == KeyActionView::Nothing && *final(self) == (App {
                    slash_selected: next_index(
                        old(self).slash_selected,
                        old(self).slash_completions.len() as nat,
                    ),
                    ..*old(self)
                }),
                KeyBranch::ScrollUp => r@ == KeyActionView::Nothing && if old(self).focused_panel
                    == Panel::Chat {
                    final(self).chat_scroll == (if old(self).chat_scroll <= usize::MAX - 3 {
                        (old(self).chat_scroll + 3) as usize
                    } else {
                        usize::MAX
                    })
                } else {
                    final(self).file_tree_scroll == (if old(self).file_tree_scroll >= 1 {
                        (old(self).file_tree_scroll - 1) as usize
                    } else {
                        0
                    })
                },
                KeyBranch::ScrollDown => r@ == KeyActionView::Nothing && if old(self).focused_panel
                    == Panel::Chat {
                    final(self).chat_scroll == (if old(self).chat_scroll >= 3 {
                        (old(self).chat_scroll - 3) as usize
                    } else {
                        0
                    })
                } else {
                    final(self).file_tree_scroll == vstd::math::min(
                        old(self).file_tree_scroll + 1,
                        if old(self).file_tree.len() > 0 {
                            old(self).file_tree.len() - 1
                        } else {
                            0
                        },
                    )
                },
                KeyBranch::Edit => r@ == KeyActionView::Edit && *final(self) == *old(self),
            },
    {
        if key.ctrl && key.code == KeyCode::Char('c') {
            self.should_quit = true;
            return KeyAction::Nothing;
        }
        if let InputMode::Confirming = self.input_mode {
            let approved = if key.code == KeyCode::Char('y') || key.code == KeyCode::Char('Y') {
                true
            } else if key.code == KeyCode::Char('n') || key.code == KeyCode::Char('N') || key.code
                == KeyCode::Esc {
                false
            } else {
                return KeyAction::Nothing;
            };
            if approved {
                self.is_loading = true;
            }
            let pending = self.pending_confirmation.take();
            self.input_mode = InputMode::Editing;
            return match pending {
                Some(p) => KeyAction::Confirm { pending: p, approved },
                None => KeyAction::Nothing,
            };
        }
        let chat = self.focused_panel == Panel::Chat;
        let picker = self.slash_picker.is_some();
        let comps = self.slash_completions.len() > 0;
        if key.code == KeyCode::Esc && picker {
            self.slash_picker = None;
            return KeyAction::Nothing;
        }
        if key.code == KeyCode::Esc && comps {
            self.clear_completions();
            return KeyAction::Nothing;
        }
        if key.code == KeyCode::Esc && (self.is_loading || self.streaming_text.is_some()) {
            self.cancel_request();
            return KeyAction::Nothing;
        }
        if key.code == KeyCode::Enter && !key.shift_or_alt {
            return self.on_enter(input);
        }
        if key.code == KeyCode::Right && !chat {
            return match self.toggle_expand() {
                Some(p) => KeyAction::LoadSubdir(p),
                None => KeyAction::Nothing,
            };
        }
        if key.code == KeyCode::Left && !chat {
            let idx = self.file_tree_scroll;
            if idx < self.file_tree.len() && self.file_tree[idx].is_dir && self.file_tree[idx].expanded {
                proof {
                    assert(rows(self.file_tree@)[idx as int] == self.file_tree@[idx as int]@);
                }
                self.collapse_dir(idx);
            } else {
                proof {
                    if idx < self.file_tree.len() {
                        assert(rows(self.file_tree@)[idx as int] == self.file_tree@[idx as int]@);
                    }
                }
                self.jump_to_parent();
            }
            return KeyAction::Nothing;
        }
        if key.code == KeyCode::Char('l') && key.ctrl {
            self.clear_conversation();
            return KeyAction::Nothing;
        }
        if key.code == KeyCode::Tab && comps && chat {
            if self.slash_selected < self.slash_completions.len() {
                let i = self.slash_completions[self.slash_selected];
                let text = completion_string(i);
                self.update_slash_completions(text.as_str());
                return KeyAction::SetInput(text);
            }
            return KeyAction::Nothing;
        }
        if key.code == KeyCode::Tab {
            self.focused_panel = if chat {
                Panel::FileTree
            } else {
                Panel::Chat
            };
            return KeyAction::Nothing;
        }
        if (key.code == KeyCode::Up || key.code == KeyCode::Down) && picker && chat {
            let mut p = self.slash_picker.take().unwrap();
            if key.code == KeyCode::Up {
                p.select_prev();
            } else {
                p.select_next();
            }
            self.slash_picker = Some(p);
            return KeyAction::Nothing;
        }
        if key.code == KeyCode::Up && comps && chat {
            self.slash_select_prev();
            return KeyAction::Nothing;
        }
        if key.code == KeyCode::Down && comps && chat {
            self.slash_select_next();
            return KeyAction::Nothing;
        }
        if key.code == KeyCode::Up {
            if chat {
                self.scroll_chat_up();
            } else {
                self.scroll_tree_up();
            }
            return KeyAction::Nothing;
        }
        if key.code == KeyCode::Down {
            if chat {
                self.scroll_chat_down();
            } else {
                self.scroll_tree_down();
            }
            return KeyAction::Nothing;
        }
        KeyAction::Edit
    }

    /// Enter in the editing mode: see `enter_action`.
    fn on_enter(&mut self, input: &str) -> (r: KeyAction)
        requires
            completions_valid(old(self).slash_completions@),
            old(self).input_mode == InputMode::Editing,
        ensures
            completions_valid(final(self).slash_completions@),
            r@ == enter_action(*old(self), input@),
            old(self).focused_panel == Panel::FileTree ==> rows(final(self).file_tree@) == toggled_rows(
                rows(old(self).file_tree@),
                old(self).file_tree_scroll as int,
            ),
            (old(self).focused_panel == Panel::Chat && old(self).slash_picker is Some) ==> *final(self)
                == (App { slash_picker: None, ..*old(self) }),
            (old(self).focused_panel == Panel::Chat && old(self).slash_picker is None
                && old(self).slash_completions.len() > 0) ==> {
                if old(self).slash_selected < old(self).slash_completions.len() {
                    &&& final(self).slash_completions.len() == 0
                    &&& *final(self) == (App {
                        slash_completions: final(self).slash_completions,
                        slash_selected: 0,
                        ..*old(self)
                    })
                } else {
                    *final(self) == *old(self)
                }
            },
            (old(self).focused_panel == Panel::Chat && old(self).slash_picker is None
                && old(self).slash_completions.len() == 0) ==> match r@ {
                KeyActionView::Send(t) => {
                    &&& chat_view(final(self).chat_messages@) == chat_view(old(self).chat_messages@).push(
                        (ChatRole::User, t),
                    )
                    &&& final(self).is_loading
                },
                _ => *final(self) == *old(self),
            },
    {
        if self.focused_panel == Panel::FileTree {
            return match self.toggle_expand() {
                Some(p) => KeyAction::LoadSubdir(p),
                None => KeyAction::Nothing,
            };
        }
        if self.slash_picker.is_some() {
            let p = self.slash_picker.take().unwrap();
            if p.selected < p.items.len() {
                let cmd = concat3(p.command.as_str(), " ", p.items[p.selected].value.as_str());
                return KeyAction::Command(cmd);
            }
            return KeyAction::Nothing;
        }
        if self.slash_completions.len() > 0 {
            if self.slash_selected < self.slash_completions.len() {
                let i = self.slash_completions[self.slash_selected];
                let cmds = commands();
                let takes_arg = cmds[i].has_arg;
                let has_picker = cmds[i].has_picker;
                if !has_picker && takes_arg {
                    let text = completion_string(i);
                    self.update_slash_completions(text.as_str());
                    proof {
                        reveal_strlit(" ");
                        assert(!typing_command(text@)) by {
                            let k = text@.len() - 1;
                            assert(text@[k] == ' ');
                        }
                    }
                    return KeyAction::SetInput(text);
                }
                self.clear_completions();
                return KeyAction::Command(String::from_str(cmds[i].name));
            }
            return KeyAction::Nothing;
        }
        let t = trim_str(input);
        if t.as_str().is_empty() || self.is_loading {
            return KeyAction::Nothing;
        }
        let v = chars_of(t.as_str());
        if v[0] == '/' {
            return KeyAction::Command(t);
        }
        self.begin_send(t.as_str());
        KeyAction::Send(t)
    }

    /// The mouse wheel scrolls the focused panel.
    pub fn on_wheel(&mut self, up: bool)
        ensures
            old(self).focused_panel == Panel::Chat && up ==> final(self).chat_scroll == (if old(
                self,
            ).chat_scroll <= usize::MAX - 3 {
                (old(self).chat_scroll + 3) as usize
            } else {
                usize::MAX
            }),
            old(self).focused_panel == Panel::Chat && !up ==> final(self).chat_scroll == (if old(
                self,
            ).chat_scroll >= 3 {
                (old(self).chat_scroll - 3) as usize
            } else {
                0
            }),
            old(self).focused_panel == Panel::FileTree && up ==> final(self).file_tree_scroll == (
            if old(self).file_tree_scroll >= 1 {
                (old(self).file_tree_scroll - 1) as usize
            } else {
                0
            }),
            old(self).focused_panel == Panel::FileTree && !up ==> final(self).file_tree_scroll
                == vstd::math::min(
                old(self).file_tree_scroll + 1,
                if old(self).file_tree.len() > 0 {
                    old(self).file_tree.len() - 1
                } else {
                    0
                },
            ),
    {
        match (self.focused_panel, up) {
            (Panel::Chat, true) => self.scroll_chat_up(),
            (Panel::Chat, false) => self.scroll_chat_down(),
            (Panel::FileTree, true) => self.scroll_tree_up(),
            (Panel::FileTree, false) => self.scroll_tree_down(),
        }
    }
}

/// The text a completion puts in the input.
fn completion_string(i: usize) -> (r: String)
    requires
        i < command_names().len(),
    ensures
        r@ == completion_text(i as int),
{
    let cmds = commands();
    if cmds[i].has_arg {
        concat2(cmds[i].name, " ")
    } else {
        String::from_str(cmds[i].name)
    }
}

} // verus!
