//! The probe: one message sent to the model, printed with everything that comes back;
//! every tool call the model asks for runs without asking, for at most
//! [`MAX_TOOL_ROUNDS`] rounds.
use vstd::prelude::*;

use crate::error::AppError;
use crate::exchange::reply_calls;
use crate::text::{concat2, is_blank, trim};
use crate::types::{calls_view, copy_calls, copy_opt_str, opt_str, Message, MessageView, ToolCall};
use crate::MAX_TOOL_ROUNDS;

verus! {

/// What the probe does after the reply of a round.
pub enum ProbeStep {
    /// Stop: the reply asked for no tool; warn when it has no words either.
    Done { warn_empty: bool },
    /// Run these tool calls, in order; `last` when no round follows them.
    Run { calls: Vec<ToolCall>, last: bool },
}

/// The step after the reply of round `round` (counted from 1).
pub fn probe_step(round: usize, reply: &Message) -> (r: ProbeStep)
    ensures
        reply_calls(reply@).len() == 0 ==> (r matches ProbeStep::Done { warn_empty } && warn_empty
            == (trim(reply.content@).len() == 0)),
        reply_calls(reply@).len() > 0 ==> (r matches ProbeStep::Run { calls, last } && calls_view(
            calls@,
        ) == reply_calls(reply@) && last == (round >= MAX_TOOL_ROUNDS)),
{
    let calls = match &reply.tool_calls {
        Some(c) => copy_calls(c),
        None => Vec::new(),
    };
    if calls.len() == 0 {
        ProbeStep::Done { warn_empty: is_blank(reply.content.as_str()) }
    } else {
        ProbeStep::Run { calls, last: round >= MAX_TOOL_ROUNDS }
    }
}

/// What the model is told of a call the probe ran: its output, or the error.
pub open spec fn probe_output(out: Result<String, AppError>) -> Seq<char> {
    match out {
        Ok(o) => o@,
        Err(e) => "Error: "@ + e.display(),
    }
}

/// The tool message filed after running `call`.
pub fn probe_tool_message(call: &ToolCall, out: Result<String, AppError>) -> (m: Message)
    ensures
        m@ == (MessageView {
            role: "tool"@,
            content: probe_output(out),
            tool_calls: None,
            name: Some(call.function.name@),
            tool_call_id: opt_str(call.id),
        }),
{
    let content = match out {
        Ok(o) => o,
        Err(e) => {
            let m = e.message();
            concat2("Error: ", m.as_str())
        },
    };
    Message::tool_result(call.function.name.clone(), content, copy_opt_str(&call.id))
}

} // verus!
