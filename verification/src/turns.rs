//! How a turn of the user begins: a message needs a working directory, and an answered
//! confirmation either ends the turn or runs the call and files its result before the
//! model is asked again.
use vstd::prelude::*;

use crate::error::AppError;
use crate::exchange::LlmOutcome;
use crate::json::Json;
use crate::state::PendingToolCall;
use crate::text::{concat2, owned};
use crate::types::{
    copy_messages, messages_view, opt_str, FunctionCall, FunctionCallView, Message, MessageView,
};

verus! {

pub open spec fn no_directory_text() -> Seq<char> {
    "Please select a working directory first."@
}

pub open spec fn cancelled_operation_text() -> Seq<char> {
    "Operation cancelled."@
}

pub open spec fn no_directory_set_text() -> Seq<char> {
    "No working directory set."@
}

/// How a message is answered when no working directory is open: it is refused.
pub fn no_directory_outcome() -> (r: LlmOutcome)
    ensures
        r matches LlmOutcome::Error { message } && message@ == no_directory_text(),
{
    LlmOutcome::Error { message: owned("Please select a working directory first.") }
}

/// What follows the user's answer to a confirmation.
pub enum ConfirmStart {
    /// The turn ends with this outcome.
    Finish(LlmOutcome),
    /// Run this call, then file its result with `confirmed_transcript`.
    Execute(FunctionCall),
}

/// The user answered the confirmation of `pending`: a refusal ends the turn as
/// cancelled; with no working directory the turn fails; otherwise the call runs.
pub fn confirmation_start(pending: &PendingToolCall, approved: bool, has_dir: bool) -> (r: ConfirmStart)
    ensures
        !approved ==> (r matches ConfirmStart::Finish(LlmOutcome::Complete { assistant_message, tool_results })
            && assistant_message@ == cancelled_operation_text() && tool_results.len() == 0),
        approved && !has_dir ==> (r matches ConfirmStart::Finish(LlmOutcome::Error { message })
            && message@ == no_directory_set_text()),
        approved && has_dir ==> (r matches ConfirmStart::Execute(call) && call@ == (FunctionCallView {
            name: pending.tool_name@,
            arguments: pending.arguments@,
        })),
{
    if !approved {
        return ConfirmStart::Finish(
            LlmOutcome::Complete {
                assistant_message: owned("Operation cancelled."),
                tool_results: Vec::new(),
            },
        );
    }
    if !has_dir {
        return ConfirmStart::Finish(LlmOutcome::Error { message: owned("No working directory set.") });
    }
    ConfirmStart::Execute(
        FunctionCall { name: pending.tool_name.clone(), arguments: pending.arguments.duplicate() },
    )
}

/// The text filed for a call that ran: its result, or `Error: ` and the error.
pub open spec fn run_text(result: Result<String, AppError>) -> Seq<char> {
    match result {
        Ok(s) => s@,
        Err(e) => "Error: "@ + e.display(),
    }
}

/// The transcript once the confirmed call has run: its result is filed as the answer to
/// the call.
pub fn confirmed_transcript(
    conversation: Vec<Message>,
    pending: &PendingToolCall,
    result: Result<String, AppError>,
) -> (r: Vec<Message>)
    ensures
        messages_view(r@) == messages_view(conversation@).push(
            MessageView {
                role: "tool"@,
                content: run_text(result),
                tool_calls: None,
                name: Some(pending.tool_name@),
                tool_call_id: opt_str(pending.tool_call_id),
            },
        ),
{
    let text = match result {
        Ok(s) => s,
        Err(e) => {
            let m = e.message();
            concat2("Error: ", m.as_str())
        },
    };
    let mut out = conversation;
    let ghost before = messages_view(out@);
    let msg = Message::tool_result(
        pending.tool_name.clone(),
        text,
        crate::types::copy_opt_str(&pending.tool_call_id),
    );
    out.push(msg);
    assert(messages_view(out@) =~= before.push(msg@));
    out
}

/// What the model is sent: the system prompt, the transcript, and the user's new
/// message when there is one.
pub fn working_messages(system: String, conversation: &Vec<Message>, new_user: Option<Message>) -> (r:
    Vec<Message>)
    ensures
        messages_view(r@) == seq![
            MessageView {
                role: "system"@,
                content: system@,
                tool_calls: None,
                name: None,
                tool_call_id: None,
            },
        ] + messages_view(conversation@) + match new_user {
            Some(m) => seq![m@],
            None => Seq::empty(),
        },
{
    let head = Message::system(system);
    let ghost hv = head@;
    let mut out: Vec<Message> = Vec::new();
    out.push(head);
    let rest = copy_messages(conversation);
    let mut i: usize = 0;
    assert(messages_view(out@) =~= seq![hv] + messages_view(rest@).take(0));
    while i < rest.len()
        invariant
            0 <= i <= rest.len(),
            messages_view(out@) == seq![hv] + messages_view(rest@).take(i as int),
        decreases rest.len() - i,
    {
        let m = rest[i].duplicate();
        let ghost before = messages_view(out@);
        out.push(m);
        assert(messages_view(out@) =~= before.push(m@));
        assert(messages_view(rest@).take(i + 1) =~= messages_view(rest@).take(i as int).push(
            rest@[i as int]@,
        ));
        i += 1;
    }
    assert(messages_view(rest@).take(rest.len() as int) =~= messages_view(rest@));
    match new_user {
        Some(m) => {
            let ghost before = messages_view(out@);
            let ghost mv = m@;
            out.push(m);
            assert(messages_view(out@) =~= before + seq![mv]);
        },
        None => {
            assert(messages_view(out@) =~= messages_view(out@) + Seq::<MessageView>::empty());
        },
    }
    out
}

} // verus!
