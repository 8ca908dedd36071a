//! What the interface does with what the background work reports: replies and their
//! stream, progress of an exchange, health checks, directory listings and model lists.
//! Reports of a request that is no longer the current one are dropped.
use vstd::prelude::*;

use crate::commands::{picker, picker_for, SlashPicker};
use crate::error::AppError;
use crate::exchange::LlmOutcome;
use crate::listing::FileEntry;
use crate::state::{
    chat_view, chunk_applied, depths_bounded, find_row, listed_rows, load_failed_text,
    outcome_chat, outcome_mode, outcome_pending, ready_paths, refresh_prepared, replace_subtree,
    rows, sealed_chat, with_expanded, without, App, ChatEntry, ChatRole, TreeRow,
};
use crate::text::{concat3, is_blank, trim, views_of};
use crate::types::{messages_view, opt_str, Message, StreamChunk};

verus! {

/// What the caller must do after an exchange ended.
pub enum Followup {
    /// The report belonged to an older request and was dropped.
    Stale,
    /// Applied; nothing more to do.
    Applied,
    /// The exchange completed: store the session, and list this directory again when
    /// there is one.
    Completed { reload: Option<String> },
}

/// A report of request `request_id` is stale: another request is the current one.
/// Reports made before any request was sent carry no id and are never stale.
pub open spec fn is_stale(app: App, request_id: Option<u64>) -> bool {
    match request_id {
        Some(id) => app.active_request_id != Some(id),
        None => false,
    }
}

/// The rows after the directories in `paths` are expanded in turn, each the first row
/// with its path when that row is a collapsed directory; and the paths expanded.
pub open spec fn expand_in_turn(t: Seq<TreeRow>, paths: Seq<Seq<char>>) -> (Seq<Seq<char>>, Seq<TreeRow>)
    decreases paths.len(),
{
    if paths.len() == 0 {
        (Seq::empty(), t)
    } else {
        let (done, u) = expand_in_turn(t, paths.drop_last());
        let p = paths.last();
        let i = find_row(u, p, false, 0);
        if i < u.len() && u[i].is_dir && !u[i].expanded {
            (done.push(p), u.update(i, with_expanded(u[i], true)))
        } else {
            (done, u)
        }
    }
}

/// The selection once the remembered row is looked for in rows `t`: found, it is
/// selected and forgotten; otherwise both stay.
pub open spec fn restored_scroll(t: Seq<TreeRow>, path: Option<String>, scroll: usize) -> (usize, bool) {
    match path {
        Some(p) => {
            let i = find_row(t, p@, false, 0);
            if i < t.len() {
                (i as usize, true)
            } else {
                (scroll, false)
            }
        },
        None => (scroll, true),
    }
}

/// The rows once a listing of `parent_path` has arrived over rows `t`: the children
/// replace the subtree of the first directory row with that path, when it is expanded;
/// a failed listing collapses it again.
pub open spec fn subdir_rows(t: Seq<TreeRow>, parent_path: Seq<char>, result: Result<Vec<FileEntry>, AppError>) -> Seq<TreeRow> {
    let p = find_row(t, parent_path, true, 0);
    if p >= t.len() || !t[p].expanded {
        t
    } else {
        match result {
            Ok(entries) => replace_subtree(t, p, listed_rows(entries@, t[p].depth + 1)),
            Err(_) => t.update(p, with_expanded(t[p], false)),
        }
    }
}

impl App {
    /// Logs information.
    pub fn push_info(&mut self, msg: &str)
        ensures
            chat_view(final(self).chat_messages@) == chat_view(old(self).chat_messages@).push(
                (ChatRole::Tool, msg@),
            ),
            *final(self) == (App { chat_messages: final(self).chat_messages, ..*old(self) }),
    {
        let ghost before = chat_view(self.chat_messages@);
        self.chat_messages.push(ChatEntry { role: ChatRole::Tool, content: String::from_str(msg) });
        assert(chat_view(self.chat_messages@) =~= before.push((ChatRole::Tool, msg@)));
    }

    /// Logs an error.
    pub fn push_error(&mut self, msg: &str)
        ensures
            chat_view(final(self).chat_messages@) == chat_view(old(self).chat_messages@).push(
                (ChatRole::Error, msg@),
            ),
            *final(self) == (App { chat_messages: final(self).chat_messages, ..*old(self) }),
    {
        let ghost before = chat_view(self.chat_messages@);
        self.chat_messages.push(ChatEntry { role: ChatRole::Error, content: String::from_str(msg) });
        assert(chat_view(self.chat_messages@) =~= before.push((ChatRole::Error, msg@)));
    }

    /// Logs a warning about the size of the conversation.
    pub fn on_context_warning(&mut self, msg: String)
        ensures
            chat_view(final(self).chat_messages@) == chat_view(old(self).chat_messages@).push(
                (ChatRole::Warning, msg@),
            ),
            *final(self) == (App { chat_messages: final(self).chat_messages, ..*old(self) }),
    {
        let ghost before = chat_view(self.chat_messages@);
        let ghost m = msg@;
        self.chat_messages.push(ChatEntry { role: ChatRole::Warning, content: msg });
        assert(chat_view(self.chat_messages@) =~= before.push((ChatRole::Warning, m)));
    }

    /// An exchange has ended: its outcome is applied, the request is over, and a
    /// completed exchange is stored and its directory listed again (the files may have
    /// changed). A streamed exchange first clears the live response and seals the
    /// reasoning.
    pub fn on_exchange_done(
        &mut self,
        request_id: Option<u64>,
        streamed: bool,
        outcome: LlmOutcome,
        conversation: Vec<Message>,
    ) -> (r: Followup)
        ensures
            is_stale(*old(self), request_id) ==> r is Stale && *final(self) == *old(self),
            !is_stale(*old(self), request_id) ==> {
                let start = if streamed {
                    sealed_chat(*old(self))
                } else {
                    chat_view(old(self).chat_messages@)
                };
                let refresh = outcome is Complete && old(self).working_dir is Some;
                &&& chat_view(final(self).chat_messages@) == outcome_chat(start, outcome)
                &&& messages_view(final(self).conversation@) == messages_view(conversation@)
                &&& *final(self) == (App {
                    conversation: final(self).conversation,
                    chat_messages: final(self).chat_messages,
                    is_loading: false,
                    input_mode: outcome_mode(outcome),
                    pending_confirmation: outcome_pending(outcome),
                    request_in_flight: false,
                    active_request_id: None,
                    streaming_text: if streamed {
                        None
                    } else {
                        old(self).streaming_text
                    },
                    thinking_text: if streamed {
                        None
                    } else {
                        old(self).thinking_text
                    },
                    pending_expansions: if refresh {
                        final(self).pending_expansions
                    } else {
                        old(self).pending_expansions
                    },
                    pending_scroll_path: if refresh {
                        final(self).pending_scroll_path
                    } else {
                        old(self).pending_scroll_path
                    },
                    ..*old(self)
                })
                &&& refresh ==> refresh_prepared(old(self).file_tree@, old(self).file_tree_scroll, *final(self))
                &&& outcome is Complete ==> (r matches Followup::Completed { reload } && opt_str(reload)
                    == opt_str(old(self).working_dir))
                &&& !(outcome is Complete) ==> r is Applied
            },
    {
        match request_id {
            Some(id) => {
                if !self.is_active_request(id) {
                    return Followup::Stale;
                }
            },
            None => {},
        }
        if streamed {
            self.finalize_stream();
        }
        let complete = match &outcome {
            LlmOutcome::Complete { .. } => true,
            _ => false,
        };
        self.request_in_flight = false;
        self.active_request_id = None;
        self.handle_outcome(outcome, conversation);
        if !complete {
            return Followup::Applied;
        }
        let reload = match &self.working_dir {
            Some(d) => Some(d.clone()),
            None => None,
        };
        if reload.is_some() {
            self.prepare_refresh();
        }
        Followup::Completed { reload }
    }

    /// A streamed delta of request `request_id`; returns whether it was applied.
    pub fn on_stream_chunk(&mut self, request_id: u64, chunk: &StreamChunk) -> (r: bool)
        ensures
            r == (old(self).active_request_id == Some(request_id)),
            r ==> chunk_applied(*old(self), *final(self), *chunk),
            !r ==> *final(self) == *old(self),
    {
        if !self.is_active_request(request_id) {
            return false;
        }
        self.handle_stream_chunk(chunk);
        true
    }

    /// The words the model streamed before asking for tools: the live response becomes a
    /// log entry (unless blank), after the sealed reasoning of the round.
    pub fn on_intermediate_assistant(&mut self, request_id: u64, content: String) -> (r: bool)
        ensures
            r == (old(self).active_request_id == Some(request_id)),
            !r ==> *final(self) == *old(self),
            r ==> {
                &&& chat_view(final(self).chat_messages@) == sealed_chat(*old(self)) + (if trim(
                    content@,
                ).len() > 0 {
                    seq![(ChatRole::Assistant, content@)]
                } else {
                    Seq::empty()
                })
                &&& *final(self) == (App {
                    chat_messages: final(self).chat_messages,
                    thinking_text: None,
                    streaming_text: None,
                    ..*old(self)
                })
            },
    {
        if !self.is_active_request(request_id) {
            return false;
        }
        self.finalize_thinking_for_round();
        self.streaming_text = None;
        let ghost before = chat_view(self.chat_messages@);
        if !is_blank(content.as_str()) {
            let ghost c = content@;
            self.chat_messages.push(ChatEntry { role: ChatRole::Assistant, content });
            assert(chat_view(self.chat_messages@) =~= before + seq![(ChatRole::Assistant, c)]);
        } else {
            assert(chat_view(self.chat_messages@) =~= before + Seq::<(ChatRole, Seq<char>)>::empty());
        }
        true
    }

    /// The summary of a tool call that ran, logged after the sealed reasoning of the
    /// round; a bare `[name]` when the summary is empty.
    pub fn on_intermediate_tool(&mut self, request_id: u64, name: &str, result: String) -> (r: bool)
        ensures
            r == (old(self).active_request_id == Some(request_id)),
            !r ==> *final(self) == *old(self),
            r ==> {
                &&& chat_view(final(self).chat_messages@) == sealed_chat(*old(self)).push(
                    (
                        ChatRole::Tool,
                        if result@.len() == 0 {
                            "["@ + name@ + "]"@
                        } else {
                            result@
                        },
                    ),
                )
                &&& *final(self) == (App {
                    chat_messages: final(self).chat_messages,
                    thinking_text: None,
                    ..*old(self)
                })
            },
    {
        if !self.is_active_request(request_id) {
            return false;
        }
        self.finalize_thinking_for_round();
        let display = if result.as_str().is_empty() {
            concat3("[", name, "]")
        } else {
            result
        };
        let ghost before = chat_view(self.chat_messages@);
        let ghost d = display@;
        self.chat_messages.push(ChatEntry { role: ChatRole::Tool, content: display });
        assert(chat_view(self.chat_messages@) =~= before.push((ChatRole::Tool, d)));
        true
    }

    /// The models Ollama has: shown in a picker, the one in use marked; an error is
    /// logged when the list is empty (Ollama could not be reached).
    pub fn on_models_loaded(&mut self, models: Vec<String>, current_model: &str)
        ensures
            models.len() == 0 ==> chat_view(final(self).chat_messages@) == chat_view(
                old(self).chat_messages@,
            ).push((ChatRole::Error, "Could not fetch models from Ollama. Is it running?"@))
                && *final(self) == (App { chat_messages: final(self).chat_messages, ..*old(self) }),
            models.len() > 0 ==> (final(self).slash_picker matches Some(p) && picker_for(
                p,
                "/model"@,
                views_of(models@),
                current_model@,
            )) && *final(self) == (App { slash_picker: final(self).slash_picker, ..*old(self) }),
    {
        if models.len() == 0 {
            self.push_error("Could not fetch models from Ollama. Is it running?");
        } else {
            self.slash_picker = Some(picker("/model", &models, current_model));
        }
    }

    /// Expands again, in tree order, the remembered directories that are back in the tree
    /// collapsed; returns those expanded, whose children must be listed.
    pub fn restore_pending_expansions(&mut self) -> (r: Vec<String>)
        ensures
            ({
                let t = rows(old(self).file_tree@);
                let ready = ready_paths(t, views_of(old(self).pending_expansions@));
                &&& views_of(r@) == expand_in_turn(t, ready).0
                &&& rows(final(self).file_tree@) == expand_in_turn(t, ready).1
                &&& views_of(final(self).pending_expansions@) == without(
                    views_of(old(self).pending_expansions@),
                    ready,
                )
            }),
            *final(self) == (App {
                file_tree: final(self).file_tree,
                pending_expansions: final(self).pending_expansions,
                ..*old(self)
            }),
    {
        let ghost t = rows(self.file_tree@);
        let ready = self.drain_ready_pending_expansions();
        let ghost rv = views_of(ready@);
        let ghost drained = *self;
        let mut out: Vec<String> = Vec::new();
        let mut i: usize = 0;
        assert(rv.take(0) =~= Seq::<Seq<char>>::empty());
        while i < ready.len()
            invariant
                0 <= i <= ready.len(),
                rv == views_of(ready@),
                views_of(out@) == expand_in_turn(t, rv.take(i as int)).0,
                rows(self.file_tree@) == expand_in_turn(t, rv.take(i as int)).1,
                *self == (App { file_tree: self.file_tree, ..drained }),
            decreases ready.len() - i,
        {
            proof {
                assert(rv.take(i + 1).drop_last() =~= rv.take(i as int));
                assert(rv.take(i + 1).last() == ready@[i as int]@);
            }
            if self.mark_expanded(ready[i].as_str()) {
                let ghost before = views_of(out@);
                out.push(ready[i].clone());
                assert(views_of(out@) =~= before.push(ready@[i as int]@));
            }
            i += 1;
        }
        assert(rv.take(ready.len() as int) =~= rv);
        out
    }

    /// The working directory has been listed: the tree is rebuilt (or the failure
    /// logged), the remembered directories are expanded again and the remembered row
    /// selected again. Returns the directories whose children must be listed.
    pub fn on_tree_loaded(&mut self, result: Result<Vec<FileEntry>, AppError>) -> (r: Vec<String>)
        ensures
            ({
                let t1 = match result {
                    Ok(entries) => listed_rows(entries@, 0),
                    Err(_) => rows(old(self).file_tree@),
                };
                let scroll1: usize = match result {
                    Ok(_) => 0,
                    Err(_) => old(self).file_tree_scroll,
                };
                let ready = ready_paths(t1, views_of(old(self).pending_expansions@));
                let t2 = expand_in_turn(t1, ready).1;
                let sc = restored_scroll(t2, old(self).pending_scroll_path, scroll1);
                &&& views_of(r@) == expand_in_turn(t1, ready).0
                &&& rows(final(self).file_tree@) == t2
                &&& views_of(final(self).pending_expansions@) == without(
                    views_of(old(self).pending_expansions@),
                    ready,
                )
                &&& final(self).file_tree_scroll == sc.0
                &&& final(self).pending_scroll_path == (if sc.1 {
                    None
                } else {
                    old(self).pending_scroll_path
                })
                &&& match result {
                    Ok(_) => final(self).chat_messages == old(self).chat_messages,
                    Err(e) => chat_view(final(self).chat_messages@) == chat_view(
                        old(self).chat_messages@,
                    ).push((ChatRole::Error, load_failed_text(e))),
                }
                &&& *final(self) == (App {
                    file_tree: final(self).file_tree,
                    file_tree_scroll: final(self).file_tree_scroll,
                    pending_expansions: final(self).pending_expansions,
                    pending_scroll_path: final(self).pending_scroll_path,
                    chat_messages: final(self).chat_messages,
                    ..*old(self)
                })
            }),
    {
        self.handle_file_tree(result);
        let dirs = self.restore_pending_expansions();
        self.restore_pending_scroll();
        dirs
    }

    /// The children of `parent_path` have been listed (or the listing failed): they are
    /// shown under it, the remembered directories among them are expanded again and the
    /// remembered row selected again. Returns the directories whose children must be
    /// listed next.
    pub fn on_subdir_loaded(&mut self, parent_path: String, result: Result<Vec<FileEntry>, AppError>) -> (r: Vec<String>)
        requires
            depths_bounded(old(self).file_tree@),
        ensures
            ({
                let t0 = rows(old(self).file_tree@);
                let p = find_row(t0, parent_path@, true, 0);
                let t1 = subdir_rows(t0, parent_path@, result);
                let ready = ready_paths(t1, views_of(old(self).pending_expansions@));
                let t2 = expand_in_turn(t1, ready).1;
                &&& views_of(r@) == expand_in_turn(t1, ready).0
                &&& rows(final(self).file_tree@) == t2
                &&& views_of(final(self).pending_expansions@) == without(
                    views_of(old(self).pending_expansions@),
                    ready,
                )
                &&& (p < t0.len() && t0[p].expanded && result is Err) ==> chat_view(
                    final(self).chat_messages@,
                ) == chat_view(old(self).chat_messages@).push(
                    (ChatRole::Error, load_failed_text(result->Err_0)),
                )
                &&& !(p < t0.len() && t0[p].expanded && result is Err) ==> final(self).chat_messages
                    == old(self).chat_messages
                &&& *final(self) == (App {
                    file_tree: final(self).file_tree,
                    file_tree_scroll: final(self).file_tree_scroll,
                    pending_expansions: final(self).pending_expansions,
                    pending_scroll_path: final(self).pending_scroll_path,
                    chat_messages: final(self).chat_messages,
                    ..*old(self)
                })
            }),
    {
        self.handle_subdir_loaded(parent_path, result);
        let dirs = self.restore_pending_expansions();
        self.restore_pending_scroll();
        dirs
    }
}

} // verus!
