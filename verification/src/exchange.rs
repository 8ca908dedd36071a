//! One exchange with the model, as a machine driven by events: it asks for a model
//! reply, has each tool call of the reply dispatched, and decides after every event what
//! comes next, until the model answers in words, a call waits for confirmation, or the
//! rounds run out. The caller performs each step and reports what came of it.
use vstd::prelude::*;

use crate::agent::{
    format_tool_error, format_tool_summary, last_user_for_pending, pending_user_text,
    tool_error_text, tool_summary_text,
};
use crate::config::ToolDisplayVerbosity;
use crate::error::AppError;
use crate::json::JsonValue;
use crate::text::{is_blank, trim};
use crate::tools::dispatch::{ToolCallResult, ToolCallResultView};
use crate::types::{
    calls_view, copy_messages, messages_view, opt_str, FunctionCall, FunctionCallView, Message,
    MessageView, ToolCall, ToolCallView,
};
use crate::MAX_TOOL_ROUNDS;

verus! {

/// How an exchange ended.
pub enum LlmOutcome {
    /// The model answered in words; `tool_results` are the summaries of the tool calls
    /// made on the way (collected only when not streaming).
    Complete { assistant_message: String, tool_results: Vec<String> },
    /// A destructive tool call waits for the user.
    PendingConfirmation {
        description: String,
        tool_name: String,
        arguments: JsonValue,
        tool_call_id: Option<String>,
        user_message: String,
    },
    Error { message: String },
}

/// Progress shown while a streamed exchange goes on.
pub enum Notice {
    /// The words the model streamed before asking for tools.
    IntermediateAssistant(String),
    /// The summary of a tool call that ran.
    IntermediateTool { name: String, result: String },
}

/// What the caller must do next.
pub enum Step {
    /// Ask the model for a reply to these messages; report it with `on_reply`.
    Request(Vec<Message>),
    /// Dispatch this tool call; report the result with `on_dispatched`.
    Dispatch(FunctionCall),
    /// Run this call, whose confirmation is skipped; report with `on_executed`.
    Execute(FunctionCall),
    /// The exchange is over.
    Finish(LlmOutcome),
}

/// What the exchange waits for.
#[derive(PartialEq, Eq, Structural, Clone, Copy)]
pub enum Phase {
    Reply,
    Dispatch,
    Execution,
    Finished,
}

pub open spec fn empty_reply_message() -> Seq<char> {
    "The model returned an empty response. Try being more specific, or break the task into smaller steps."@
}

pub open spec fn round_limit_message() -> Seq<char> {
    "Maximum tool round limit reached (too many back-to-back tool calls)."@
}

/// The tool calls of a reply; none when it has no list.
pub open spec fn reply_calls(m: MessageView) -> Seq<ToolCallView> {
    match m.tool_calls {
        Some(c) => c,
        None => Seq::empty(),
    }
}

pub open spec fn results_view(v: Seq<ToolCallResult>) -> Seq<ToolCallResultView> {
    v.map_values(|r: ToolCallResult| r@)
}

pub enum NoticeView {
    IntermediateAssistant(Seq<char>),
    IntermediateTool { name: Seq<char>, result: Seq<char> },
}

impl View for Notice {
    type V = NoticeView;

    open spec fn view(&self) -> NoticeView {
        match self {
            Notice::IntermediateAssistant(t) => NoticeView::IntermediateAssistant(t@),
            Notice::IntermediateTool { name, result } => NoticeView::IntermediateTool {
                name: name@,
                result: result@,
            },
        }
    }
}

pub open spec fn notices_view(v: Seq<Notice>) -> Seq<NoticeView> {
    v.map_values(|n: Notice| n@)
}

/// The output a result carries; empty while it has none.
pub open spec fn result_text(r: ToolCallResultView) -> Seq<char> {
    match r.result {
        Some(t) => t,
        None => Seq::empty(),
    }
}

/// The result a call gets from its dispatch: the dispatcher's own, or for an error
/// (given by its text) one that carries the error, worded for the model.
pub open spec fn dispatch_result(call: ToolCallView, r: Result<ToolCallResultView, Seq<char>>) -> ToolCallResultView {
    match r {
        Ok(x) => x,
        Err(msg) => ToolCallResultView {
            result: Some(tool_error_text(msg)),
            requires_confirmation: false,
            description: "Tool error: "@ + msg,
            tool_name: call.function.name,
            args: call.function.arguments,
        },
    }
}

/// A call whose confirmation was skipped, after it ran: its output (or `Error: ` and the
/// error) is its result, and its description says the confirmation was skipped.
pub open spec fn executed_result(held: ToolCallResultView, out: Result<Seq<char>, Seq<char>>) -> ToolCallResultView {
    ToolCallResultView {
        result: Some(
            match out {
                Ok(o) => o,
                Err(e) => "Error: "@ + e,
            },
        ),
        requires_confirmation: false,
        description: held.description + " (confirmation skipped)"@,
        tool_name: held.tool_name,
        args: held.args,
    }
}

/// The `tool` message that hands a call's result to the model.
pub open spec fn tool_message(call: ToolCallView, res: ToolCallResultView) -> MessageView {
    MessageView {
        role: "tool"@,
        content: result_text(res),
        tool_calls: None,
        name: Some(call.function.name),
        tool_call_id: call.id,
    }
}

/// A call whose confirmation was skipped is reported to the model as it ran: the tool
/// message filed for it carries its output, or, when it failed with `e`, `Error: `
/// followed by `e`'s text, so a failure is never reported as an empty result.
pub proof fn lemma_skipped_call_reports_its_run(call: ToolCallView, held: ToolCallResultView, out: Result<String, AppError>)
    ensures
        ({
            let m = tool_message(call, executed_result(held, output_view(out)));
            &&& m.role == "tool"@
            &&& m.name == Some(call.function.name)
            &&& m.tool_call_id == call.id
            &&& match out {
                Ok(o) => m.content == o@,
                Err(e) => m.content == "Error: "@ + e.display() && m.content.len() > 0
                    && m.content.subrange(7, m.content.len() as int) == e.display(),
            }
        }),
{
    reveal_strlit("Error: ");
    if let Err(e) = out {
        let m = tool_message(call, executed_result(held, output_view(out)));
        assert(m.content.subrange(7, m.content.len() as int) =~= e.display());
    }
}

pub open spec fn tool_messages(calls: Seq<ToolCallView>, results: Seq<ToolCallResultView>) -> Seq<MessageView> {
    Seq::new(calls.len(), |k: int| tool_message(calls[k], results[k]))
}

pub open spec fn round_summaries(
    calls: Seq<ToolCallView>,
    results: Seq<ToolCallResultView>,
    verbosity: ToolDisplayVerbosity,
) -> Seq<Seq<char>> {
    Seq::new(
        calls.len(),
        |k: int| tool_summary_text(calls[k].function.name, results[k].description, result_text(results[k]), verbosity),
    )
}

/// The notice that shows the words of a reply that asked for tools, when it has any.
pub open spec fn reply_notice(reply: MessageView) -> Seq<NoticeView> {
    if trim(reply.content).len() > 0 {
        seq![NoticeView::IntermediateAssistant(reply.content)]
    } else {
        Seq::empty()
    }
}

pub open spec fn tool_notices(
    calls: Seq<ToolCallView>,
    results: Seq<ToolCallResultView>,
    verbosity: ToolDisplayVerbosity,
) -> Seq<NoticeView> {
    Seq::new(
        calls.len(),
        |k: int| NoticeView::IntermediateTool {
            name: calls[k].function.name,
            result: round_summaries(calls, results, verbosity)[k],
        },
    )
}

/// How a finished round is reported: while streaming, as notices (the reply's words,
/// then one per tool call); otherwise as summaries kept for the final outcome.
pub open spec fn round_reported(
    old: Exchange,
    results: Seq<ToolCallResultView>,
    new: Exchange,
) -> bool {
    let summaries = round_summaries(old.round_calls(), results, old.display_verbosity());
    if old.is_streaming() {
        &&& new.pending_notices() == old.pending_notices() + reply_notice(old.round_reply())
            + tool_notices(old.round_calls(), results, old.display_verbosity())
        &&& new.summaries() == old.summaries()
    } else {
        &&& new.summaries() == old.summaries() + summaries
        &&& new.pending_notices() == old.pending_notices()
    }
}

/// What the machine does with the settled result `res` of its current call: a call that
/// still needs confirmation ends the exchange waiting for the user; otherwise the next
/// call is dispatched, or, after the last, the round's reply and tool results go into
/// the transcript and to the model, and the next request is made while rounds remain.
pub open spec fn settled(old: Exchange, res: ToolCallResultView, new: Exchange, step: Step) -> bool {
    let calls = old.round_calls();
    let k = old.round_results().len() as int;
    let filed = old.conv() + old.user_turn() + seq![old.round_reply()];
    if res.requires_confirmation {
        &&& step matches Step::Finish(LlmOutcome::PendingConfirmation { description, tool_name, arguments, tool_call_id, user_message })
        &&& description@ == res.description
        &&& tool_name@ == res.tool_name
        &&& arguments@ == res.args
        &&& opt_str(tool_call_id) == calls[k].id
        &&& user_message@ == pending_user_text(old.filed_under(), filed)
        &&& new.conv() == filed
        &&& new.stage() == Phase::Finished
    } else if k + 1 < calls.len() {
        &&& step matches Step::Dispatch(f) && f@ == calls[k + 1int].function
        &&& new.stage() == Phase::Dispatch
        &&& new.conv() == old.conv()
        &&& new.work() == old.work()
        &&& new.round_calls() == calls
        &&& new.round_results() == old.round_results().push(res)
        &&& new.current_call() == calls[k + 1int]
        &&& new.round_reply() == old.round_reply()
        &&& new.user_turn() == old.user_turn()
        &&& new.filed_under() == old.filed_under()
        &&& new.rounds_used() == old.rounds_used()
    } else {
        let results = old.round_results().push(res);
        let tools = tool_messages(calls, results);
        &&& round_reported(old, results, new)
        &&& new.conv() == filed + tools
        &&& new.work() == old.work() + seq![old.round_reply()] + tools
        &&& new.user_turn() == Seq::<MessageView>::empty()
        &&& new.filed_under() == old.filed_under()
        &&& if old.rounds_used() < MAX_TOOL_ROUNDS {
            &&& step matches Step::Request(ms) && messages_view(ms@) == new.work()
            &&& new.rounds_used() == old.rounds_used() + 1
            &&& new.stage() == Phase::Reply
        } else {
            &&& step matches Step::Finish(LlmOutcome::Error { message }) && message@ == round_limit_message()
            &&& new.stage() == Phase::Finished
        }
    }
}

pub open spec fn error_text<T>(r: Result<T, AppError>) -> Result<T, Seq<char>> {
    match r {
        Ok(x) => Ok(x),
        Err(e) => Err(e.display()),
    }
}

pub open spec fn result_view(r: Result<ToolCallResult, AppError>) -> Result<ToolCallResultView, Seq<char>> {
    match r {
        Ok(x) => Ok(x@),
        Err(e) => Err(e.display()),
    }
}

pub open spec fn output_view(r: Result<String, AppError>) -> Result<Seq<char>, Seq<char>> {
    match r {
        Ok(x) => Ok(x@),
        Err(e) => Err(e.display()),
    }
}

/// The state of one exchange.
pub struct Exchange {
    /// What the model is sent: the system prompt, the transcript, the new user line,
    /// and each round's reply and tool results.
    working: Vec<Message>,
    /// The transcript kept for later turns.
    conversation: Vec<Message>,
    /// The user line that opened this exchange, until it is in the transcript.
    new_user: Option<Message>,
    user_in_conversation: bool,
    user_message_for_pending: String,
    tool_summaries: Vec<String>,
    /// Model requests made so far.
    rounds: usize,
    streaming: bool,
    verbosity: ToolDisplayVerbosity,
    skip_confirmations: bool,
    /// The reply of the current round and its tool calls.
    reply: Option<Message>,
    calls: Vec<ToolCall>,
    /// The results of the calls dispatched so far this round.
    dispatched: Vec<ToolCallResult>,
    /// The call whose confirmation is skipped, while it runs.
    held: Option<ToolCallResult>,
    notices: Vec<Notice>,
    phase: Phase,
}

impl Exchange {
    /// The transcript as it stands.
    pub closed spec fn conv(self) -> Seq<MessageView> {
        messages_view(self.conversation@)
    }

    /// What the next model request will carry.
    pub closed spec fn work(self) -> Seq<MessageView> {
        messages_view(self.working@)
    }

    pub closed spec fn rounds_used(self) -> nat {
        self.rounds as nat
    }

    pub closed spec fn stage(self) -> Phase {
        self.phase
    }

    pub closed spec fn skips_confirmations(self) -> bool {
        self.skip_confirmations
    }

    /// The new user line, while it is not yet in the transcript.
    pub closed spec fn user_turn(self) -> Seq<MessageView> {
        if !self.user_in_conversation && self.new_user is Some {
            seq![self.new_user->Some_0@]
        } else {
            Seq::empty()
        }
    }

    /// The reply of the current round.
    pub closed spec fn round_reply(self) -> MessageView {
        self.reply->Some_0@
    }

    /// The tool call being dispatched.
    pub closed spec fn current_call(self) -> ToolCallView {
        calls_view(self.calls@)[self.dispatched.len() as int]
    }

    /// The tool calls of the current round.
    pub closed spec fn round_calls(self) -> Seq<ToolCallView> {
        calls_view(self.calls@)
    }

    /// The results of the calls of this round dispatched so far.
    pub closed spec fn round_results(self) -> Seq<ToolCallResultView> {
        results_view(self.dispatched@)
    }

    /// The text a pending confirmation is filed under, when given.
    pub closed spec fn filed_under(self) -> Seq<char> {
        self.user_message_for_pending@
    }

    /// The tool summaries collected so far (when not streaming).
    pub closed spec fn summaries(self) -> Seq<Seq<char>> {
        crate::text::views_of(self.tool_summaries@)
    }

    pub closed spec fn display_verbosity(self) -> ToolDisplayVerbosity {
        self.verbosity
    }

    pub closed spec fn is_streaming(self) -> bool {
        self.streaming
    }

    /// The progress notices not yet taken.
    pub closed spec fn pending_notices(self) -> Seq<NoticeView> {
        notices_view(self.notices@)
    }

    /// The call whose confirmation is skipped, while it runs.
    pub closed spec fn held_result(self) -> ToolCallResultView {
        self.held->Some_0@
    }

    pub closed spec fn wf(self) -> bool {
        &&& self.rounds <= MAX_TOOL_ROUNDS
        &&& (self.phase == Phase::Dispatch || self.phase == Phase::Execution) ==> {
            &&& self.reply is Some
            &&& self.dispatched.len() < self.calls.len()
            &&& calls_view(self.calls@) == reply_calls(self.reply->Some_0@)
        }
        &&& self.held is Some <==> self.phase == Phase::Execution
        &&& self.held is Some ==> self.held->Some_0.requires_confirmation
    }

    /// Starts an exchange and returns its first step, the first model request.
    /// `working` is what the model is sent, `conversation` the transcript so far,
    /// `new_user` the user line that opens the exchange (when it is not yet in the
    /// transcript), and `user_message_for_pending` the text a pending confirmation is
    /// filed under (empty: the last user message of the transcript).
    pub fn start(
        working: Vec<Message>,
        conversation: Vec<Message>,
        new_user: Option<Message>,
        user_message_for_pending: String,
        streaming: bool,
        verbosity: ToolDisplayVerbosity,
        skip_confirmations: bool,
    ) -> (r: (Exchange, Step))
        ensures
            r.0.wf(),
            r.0.conv() == messages_view(conversation@),
            r.0.work() == messages_view(working@),
            r.0.rounds_used() == 1,
            r.0.stage() == Phase::Reply,
            r.0.skips_confirmations() == skip_confirmations,
            r.0.user_turn() == (match new_user {
                Some(m) => seq![m@],
                None => Seq::<MessageView>::empty(),
            }),
            r.0.filed_under() == user_message_for_pending@,
            r.0.summaries() == Seq::<Seq<char>>::empty(),
            r.0.pending_notices() == Seq::<NoticeView>::empty(),
            r.0.is_streaming() == streaming,
            r.0.display_verbosity() == verbosity,
            r.1 matches Step::Request(ms) && messages_view(ms@) == messages_view(working@),
    {
        let user_in_conversation = new_user.is_none();
        let ex = Exchange {
            working,
            conversation,
            new_user,
            user_in_conversation,
            user_message_for_pending,
            tool_summaries: Vec::new(),
            rounds: 1,
            streaming,
            verbosity,
            skip_confirmations,
            reply: None,
            calls: Vec::new(),
            dispatched: Vec::new(),
            held: None,
            notices: Vec::new(),
            phase: Phase::Reply,
        };
        let request = copy_messages(&ex.working);
        (ex, Step::Request(request))
    }

    /// Moves the new user line into the transcript if it is not there yet.
    fn file_user_turn(&mut self)
        ensures
            final(self).conv() == old(self).conv() + old(self).user_turn(),
            final(self).working == old(self).working,
            final(self).rounds == old(self).rounds,
            final(self).phase == old(self).phase,
            final(self).reply == old(self).reply,
            final(self).calls == old(self).calls,
            final(self).dispatched == old(self).dispatched,
            final(self).held == old(self).held,
            final(self).new_user == old(self).new_user,
            final(self).user_in_conversation == old(self).user_in_conversation,
            final(self).user_message_for_pending == old(self).user_message_for_pending,
            final(self).skip_confirmations == old(self).skip_confirmations,
            final(self).streaming == old(self).streaming,
            final(self).verbosity == old(self).verbosity,
            final(self).tool_summaries == old(self).tool_summaries,
            final(self).notices == old(self).notices,
    {
        if !self.user_in_conversation {
            match &self.new_user {
                Some(m) => {
                    let copy = m.duplicate();
                    let ghost before = messages_view(self.conversation@);
                    self.conversation.push(copy);
                    assert(messages_view(self.conversation@) =~= before.push(
                        self.new_user->Some_0@,
                    ));
                },
                None => {
                    assert(messages_view(self.conversation@) =~= messages_view(
                        self.conversation@,
                    ) + Seq::<MessageView>::empty());
                },
            }
        } else {
            assert(messages_view(self.conversation@) =~= messages_view(self.conversation@)
                + Seq::<MessageView>::empty());
        }
    }

    /// The model's reply (or the error that ended the request) arrived.
    pub fn on_reply(&mut self, reply: Result<Message, String>) -> (step: Step)
        requires
            old(self).wf(),
            old(self).stage() == Phase::Reply,
        ensures
            final(self).wf(),
            old(self).conv().is_prefix_of(final(self).conv()),
            final(self).rounds_used() == old(self).rounds_used(),
            final(self).skips_confirmations() == old(self).skips_confirmations(),
            final(self).filed_under() == old(self).filed_under(),
            match reply {
                Err(m) => step matches Step::Finish(LlmOutcome::Error { message }) && message == m
                    && final(self).conv() == old(self).conv(),
                Ok(msg) => if reply_calls(msg@).len() > 0 {
                    &&& step matches Step::Dispatch(f) && f@ == reply_calls(msg@)[0].function
                    &&& final(self).stage() == Phase::Dispatch
                    &&& final(self).round_reply() == msg@
                    &&& final(self).current_call() == reply_calls(msg@)[0]
                    &&& final(self).conv() == old(self).conv()
                    &&& final(self).work() == old(self).work()
                    &&& final(self).user_turn() == old(self).user_turn()
                } else if trim(msg.content@).len() == 0 {
                    &&& step matches Step::Finish(LlmOutcome::Error { message })
                    &&& message@ == empty_reply_message()
                    &&& final(self).conv() == old(self).conv()
                } else {
                    &&& step matches Step::Finish(LlmOutcome::Complete { assistant_message, tool_results })
                    &&& assistant_message@ == msg.content@
                    &&& crate::text::views_of(tool_results@) == old(self).summaries()
                    &&& final(self).conv() == old(self).conv() + old(self).user_turn() + seq![msg@]
                },
            },
            step is Finish <==> final(self).stage() == Phase::Finished,
            step matches Step::Finish(LlmOutcome::Complete { assistant_message, .. }) ==> trim(
                assistant_message@,
            ).len() > 0,
    {
        let msg = match reply {
            Err(m) => {
                self.phase = Phase::Finished;
                assert(self.conv().is_prefix_of(self.conv()));
                return Step::Finish(LlmOutcome::Error { message: m });
            },
            Ok(msg) => msg,
        };
        let has_calls = match &msg.tool_calls {
            Some(c) => c.len() > 0,
            None => false,
        };
        proof {
            if msg.tool_calls is Some {
                assert(calls_view(msg.tool_calls->Some_0@).len() == msg.tool_calls->Some_0.len());
            }
        }
        if !has_calls {
            if is_blank(msg.content.as_str()) {
                self.phase = Phase::Finished;
                assert(self.conv().is_prefix_of(self.conv()));
                return Step::Finish(LlmOutcome::Error {
                    message: String::from_str(
                        "The model returned an empty response. Try being more specific, or break the task into smaller steps.",
                    ),
                });
            }
            self.file_user_turn();
            let content = msg.content.clone();
            let ghost before = messages_view(self.conversation@);
            let ghost mv = msg@;
            self.conversation.push(msg);
            assert(messages_view(self.conversation@) =~= before.push(mv));
            self.phase = Phase::Finished;
            let mut summaries: Vec<String> = Vec::new();
            std::mem::swap(&mut summaries, &mut self.tool_summaries);
            assert(old(self).conv().is_prefix_of(self.conv()));
            return Step::Finish(LlmOutcome::Complete { assistant_message: content, tool_results: summaries });
        }
        let calls = match &msg.tool_calls {
            Some(c) => crate::types::copy_calls(c),
            None => Vec::new(),
        };
        let first = calls[0].function.duplicate();
        self.calls = calls;
        self.dispatched = Vec::new();
        self.reply = Some(msg);
        self.phase = Phase::Dispatch;
        assert(self.conv().is_prefix_of(self.conv()));
        Step::Dispatch(first)
    }

    /// The dispatch of the current call came back: its result, or the error it met.
    pub fn on_dispatched(&mut self, r: Result<ToolCallResult, AppError>) -> (step: Step)
        requires
            old(self).wf(),
            old(self).stage() == Phase::Dispatch,
        ensures
            final(self).wf(),
            old(self).conv().is_prefix_of(final(self).conv()),
            final(self).skips_confirmations() == old(self).skips_confirmations(),
            dispatch_result(old(self).current_call(), result_view(r)).requires_confirmation
                && old(self).skips_confirmations() ==> {
                &&& step matches Step::Execute(f) && f@ == (FunctionCallView {
                    name: dispatch_result(old(self).current_call(), result_view(r)).tool_name,
                    arguments: dispatch_result(old(self).current_call(), result_view(r)).args,
                })
                &&& final(self).stage() == Phase::Execution
                &&& final(self).held_result() == dispatch_result(old(self).current_call(), result_view(r))
                &&& final(self).conv() == old(self).conv()
                &&& final(self).work() == old(self).work()
                &&& final(self).round_calls() == old(self).round_calls()
                &&& final(self).round_results() == old(self).round_results()
                &&& final(self).round_reply() == old(self).round_reply()
                &&& final(self).current_call() == old(self).current_call()
                &&& final(self).user_turn() == old(self).user_turn()
                &&& final(self).filed_under() == old(self).filed_under()
                &&& final(self).rounds_used() == old(self).rounds_used()
            },
            !(dispatch_result(old(self).current_call(), result_view(r)).requires_confirmation
                && old(self).skips_confirmations()) ==> settled(
                *old(self),
                dispatch_result(old(self).current_call(), result_view(r)),
                *final(self),
                step,
            ),
            step is Finish <==> final(self).stage() == Phase::Finished,
            step matches Step::Finish(LlmOutcome::PendingConfirmation { .. }) ==> !old(
                self,
            ).skips_confirmations(),
    {
        let k = self.dispatched.len();
        let res = match r {
            Ok(x) => x,
            Err(e) => {
                let msg = e.message();
                let mut description = String::from_str("Tool error: ");
                description.append(msg.as_str());
                ToolCallResult {
                    result: Some(format_tool_error(msg.as_str())),
                    requires_confirmation: false,
                    description,
                    tool_name: self.calls[k].function.name.clone(),
                    args: self.calls[k].function.arguments.duplicate(),
                }
            },
        };
        assert(calls_view(self.calls@)[k as int] == self.calls@[k as int]@);
        if res.requires_confirmation && self.skip_confirmations {
            let call = FunctionCall { name: res.tool_name.clone(), arguments: res.args.duplicate() };
            self.held = Some(res);
            self.phase = Phase::Execution;
            assert(self.conv().is_prefix_of(self.conv()));
            return Step::Execute(call);
        }
        self.settle(res)
    }

    /// The call whose confirmation is skipped ran: its output, or the error it met.
    pub fn on_executed(&mut self, r: Result<String, AppError>) -> (step: Step)
        requires
            old(self).wf(),
            old(self).stage() == Phase::Execution,
        ensures
            final(self).wf(),
            old(self).conv().is_prefix_of(final(self).conv()),
            final(self).skips_confirmations() == old(self).skips_confirmations(),
            settled(*old(self), executed_result(old(self).held_result(), output_view(r)), *final(self), step),
            step is Finish <==> final(self).stage() == Phase::Finished,
            !(step matches Step::Finish(LlmOutcome::PendingConfirmation { .. })),
    {
        let mut res = match self.held.take() {
            Some(h) => h,
            None => {
                return Step::Finish(LlmOutcome::Error { message: String::new() });
            },
        };
        let output = match r {
            Ok(o) => o,
            Err(e) => {
                let mut t = String::from_str("Error: ");
                let m = e.message();
                t.append(m.as_str());
                t
            },
        };
        res.result = Some(output);
        res.requires_confirmation = false;
        res.description.append(" (confirmation skipped)");
        self.phase = Phase::Dispatch;
        self.settle(res)
    }

    /// Carries on with the settled result of the current call.
    fn settle(&mut self, res: ToolCallResult) -> (step: Step)
        requires
            old(self).wf(),
            old(self).phase == Phase::Dispatch,
            old(self).held is None,
        ensures
            final(self).wf(),
            old(self).conv().is_prefix_of(final(self).conv()),
            final(self).skips_confirmations() == old(self).skips_confirmations(),
            settled(*old(self), res@, *final(self), step),
            step is Finish <==> final(self).stage() == Phase::Finished,
    {
        let k = self.dispatched.len();
        if res.requires_confirmation {
            self.file_user_turn();
            match &self.reply {
                Some(m) => {
                    let copy = m.duplicate();
                    let ghost before = messages_view(self.conversation@);
                    self.conversation.push(copy);
                    assert(messages_view(self.conversation@) =~= before.push(old(self).round_reply()));
                },
                None => {},
            }
            assert(messages_view(self.conversation@) =~= old(self).conv() + old(self).user_turn()
                + seq![old(self).round_reply()]);
            let call_id = crate::types::copy_opt_str(&self.calls[k].id);
            assert(calls_view(self.calls@)[k as int] == self.calls@[k as int]@);
            let user_message = last_user_for_pending(
                self.user_message_for_pending.as_str(),
                self.conversation.as_slice(),
            );
            self.phase = Phase::Finished;
            assert(old(self).conv().is_prefix_of(self.conv()));
            return Step::Finish(LlmOutcome::PendingConfirmation {
                description: res.description,
                tool_name: res.tool_name,
                arguments: res.args,
                tool_call_id: call_id,
                user_message,
            });
        }
        let ghost before = results_view(self.dispatched@);
        self.dispatched.push(res);
        assert(results_view(self.dispatched@) =~= before.push(res@));
        if k + 1 < self.calls.len() {
            let next = self.calls[k + 1].function.duplicate();
            assert(calls_view(self.calls@)[k + 1] == self.calls@[k + 1]@);
            assert(self.conv().is_prefix_of(self.conv()));
            return Step::Dispatch(next);
        }
        self.finish_round()
    }

    /// Ends a round whose calls all ran: the reply and the tool results join the
    /// transcript and what the model is sent, and the next request is made while rounds
    /// remain.
    fn finish_round(&mut self) -> (step: Step)
        requires
            old(self).rounds <= MAX_TOOL_ROUNDS,
            old(self).reply is Some,
            old(self).held is None,
            old(self).dispatched.len() == old(self).calls.len(),
        ensures
            final(self).wf(),
            old(self).conv().is_prefix_of(final(self).conv()),
            final(self).skips_confirmations() == old(self).skips_confirmations(),
            final(self).conv() == old(self).conv() + old(self).user_turn() + seq![old(self).round_reply()]
                + tool_messages(old(self).round_calls(), old(self).round_results()),
            final(self).work() == old(self).work() + seq![old(self).round_reply()] + tool_messages(
                old(self).round_calls(),
                old(self).round_results(),
            ),
            final(self).user_turn() == Seq::<MessageView>::empty(),
            final(self).filed_under() == old(self).filed_under(),
            round_reported(*old(self), old(self).round_results(), *final(self)),
            if old(self).rounds_used() < MAX_TOOL_ROUNDS {
                &&& step matches Step::Request(ms) && messages_view(ms@) == final(self).work()
                &&& final(self).rounds_used() == old(self).rounds_used() + 1
                &&& final(self).stage() == Phase::Reply
            } else {
                &&& step matches Step::Finish(LlmOutcome::Error { message }) && message@ == round_limit_message()
                &&& final(self).stage() == Phase::Finished
            },
    {
        self.file_user_turn();
        self.user_in_conversation = true;
        let ghost calls = calls_view(self.calls@);
        let ghost results = results_view(self.dispatched@);
        let reply = match self.reply.take() {
            Some(m) => m,
            None => Message::user(String::new()),
        };
        let ghost n0 = notices_view(self.notices@);
        if self.streaming && !is_blank(reply.content.as_str()) {
            self.notices.push(Notice::IntermediateAssistant(reply.content.clone()));
            assert(notices_view(self.notices@) =~= n0 + reply_notice(reply@));
        } else {
            assert(notices_view(self.notices@) =~= n0 + (if self.streaming { reply_notice(reply@) } else { Seq::empty() }));
        }
        let ghost n1 = notices_view(self.notices@);
        let ghost s1 = crate::text::views_of(self.tool_summaries@);
        let ghost verbosity = self.verbosity;
        let ghost streaming = self.streaming;
        let ghost w0 = messages_view(self.working@);
        let ghost c0 = messages_view(self.conversation@);
        let ghost rv = reply@;
        self.working.push(reply.duplicate());
        self.conversation.push(reply);
        assert(messages_view(self.working@) =~= w0.push(rv));
        assert(messages_view(self.conversation@) =~= c0.push(rv));
        let ghost w1 = messages_view(self.working@);
        let ghost c1 = messages_view(self.conversation@);
        let n = self.calls.len();
        let mut k: usize = 0;
        while k < n
            invariant
                n == self.calls.len(),
                self.dispatched.len() == n,
                calls == calls_view(self.calls@),
                results == results_view(self.dispatched@),
                0 <= k <= n,
                messages_view(self.working@) == w1 + tool_messages(calls, results).take(k as int),
                messages_view(self.conversation@) == c1 + tool_messages(calls, results).take(k as int),
                self.rounds == old(self).rounds,
                self.rounds <= MAX_TOOL_ROUNDS,
                self.held is None,
                self.user_in_conversation,
                self.skip_confirmations == old(self).skip_confirmations,
                self.user_message_for_pending == old(self).user_message_for_pending,
                self.verbosity == verbosity,
                self.streaming == streaming,
                streaming ==> notices_view(self.notices@) == n1 + tool_notices(calls, results, verbosity).take(k as int),
                streaming ==> crate::text::views_of(self.tool_summaries@) == s1,
                !streaming ==> crate::text::views_of(self.tool_summaries@) == s1 + round_summaries(calls, results, verbosity).take(k as int),
                !streaming ==> notices_view(self.notices@) == n1,
            decreases n - k,
        {
            let text = match &self.dispatched[k].result {
                Some(t) => t.clone(),
                None => String::new(),
            };
            let summary = format_tool_summary(
                self.calls[k].function.name.as_str(),
                self.dispatched[k].description.as_str(),
                text.as_str(),
                self.verbosity,
            );
            assert(summary@ == round_summaries(calls, results, verbosity)[k as int]);
            if self.streaming {
                let ghost nb = notices_view(self.notices@);
                self.notices.push(
                    Notice::IntermediateTool { name: self.calls[k].function.name.clone(), result: summary },
                );
                assert(notices_view(self.notices@) =~= nb.push(tool_notices(calls, results, verbosity)[k as int]));
                assert(tool_notices(calls, results, verbosity).take(k + 1) =~= tool_notices(calls, results, verbosity).take(k as int).push(tool_notices(calls, results, verbosity)[k as int]));
            } else {
                let ghost sb = crate::text::views_of(self.tool_summaries@);
                self.tool_summaries.push(summary);
                assert(crate::text::views_of(self.tool_summaries@) =~= sb.push(round_summaries(calls, results, verbosity)[k as int]));
                assert(round_summaries(calls, results, verbosity).take(k + 1) =~= round_summaries(calls, results, verbosity).take(k as int).push(round_summaries(calls, results, verbosity)[k as int]));
            }
            let message = Message::tool_result(
                self.calls[k].function.name.clone(),
                text,
                crate::types::copy_opt_str(&self.calls[k].id),
            );
            assert(calls[k as int] == self.calls@[k as int]@);
            assert(results[k as int] == self.dispatched@[k as int]@);
            assert(message@ == tool_message(calls[k as int], results[k as int]));
            let ghost wk = messages_view(self.working@);
            let ghost ck = messages_view(self.conversation@);
            self.working.push(message.duplicate());
            self.conversation.push(message);
            assert(tool_messages(calls, results).take(k + 1) =~= tool_messages(calls, results).take(
                k as int,
            ).push(tool_message(calls[k as int], results[k as int])));
            assert(messages_view(self.working@) =~= wk.push(tool_message(calls[k as int], results[k as int])));
            assert(messages_view(self.conversation@) =~= ck.push(tool_message(calls[k as int], results[k as int])));
            k += 1;
        }
        assert(tool_messages(calls, results).take(n as int) =~= tool_messages(calls, results));
        assert(tool_notices(calls, results, verbosity).take(n as int) =~= tool_notices(calls, results, verbosity));
        assert(round_summaries(calls, results, verbosity).take(n as int) =~= round_summaries(calls, results, verbosity));
        self.calls = Vec::new();
        self.dispatched = Vec::new();
        assert(old(self).conv().is_prefix_of(self.conv()));
        if self.rounds < MAX_TOOL_ROUNDS {
            self.rounds = self.rounds + 1;
            self.phase = Phase::Reply;
            Step::Request(copy_messages(&self.working))
        } else {
            self.phase = Phase::Finished;
            Step::Finish(LlmOutcome::Error {
                message: String::from_str(
                    "Maximum tool round limit reached (too many back-to-back tool calls).",
                ),
            })
        }
    }

    /// Takes the progress notices gathered so far, oldest first.
    pub fn take_notices(&mut self) -> (r: Vec<Notice>)
        ensures
            notices_view(r@) == old(self).pending_notices(),
            final(self).pending_notices() == Seq::<NoticeView>::empty(),
            final(self).conv() == old(self).conv(),
            final(self).work() == old(self).work(),
            final(self).stage() == old(self).stage(),
            final(self).wf() == old(self).wf(),
    {
        let mut r: Vec<Notice> = Vec::new();
        std::mem::swap(&mut r, &mut self.notices);
        assert(notices_view(self.notices@) =~= Seq::<NoticeView>::empty());
        r
    }

    /// The transcript, for the next exchange.
    pub fn into_conversation(self) -> (r: Vec<Message>)
        ensures
            messages_view(r@) == self.conv(),
    {
        self.conversation
    }
}


} // verus!
