//! Carrying a tool call through: the question asked before a destructive call, the
//! rename plan of `rename_matching`, and what a finished call reports.
use vstd::prelude::*;

use crate::error::{rejected, AppError};
use crate::json::{bool_member, Json, JsonValue};
use crate::paths::{
    accepted, has_parent_component, invalid_filename_message, refuses, join, join_path,
    valid_generated_filename, validate_generated_filename, contain_path,
};
use crate::pattern::{regex_replace_all, replace_all, Pattern};
use crate::text::{decimal, join as join_lines, join_with, str_eq, views_of};
use crate::tools::args::extract_bool;
use crate::tools::describe::{
    arg_or_unknown, arg_text, build_description, delete_many_confirmation, delete_many_prompt,
    delete_matching_confirmation, delete_matching_prompt, description_of, pair_views,
    rename_many_confirmation, rename_many_prompt, rename_matching_confirmation,
    rename_matching_prompt,
};
use crate::tools::plan::{destructive, path_argument, plan_error, plan_tool, planned, tool_index, FsOp};
use crate::types::FunctionCall;

verus! {

/// What one tool call produced: its output, or the question to ask before it runs.
pub struct ToolCallResult {
    /// The tool's output; `None` while the call waits for confirmation.
    pub result: Option<String>,
    pub requires_confirmation: bool,
    pub description: String,
    pub tool_name: String,
    pub args: JsonValue,
}

pub struct ToolCallResultView {
    pub result: Option<Seq<char>>,
    pub requires_confirmation: bool,
    pub description: Seq<char>,
    pub tool_name: Seq<char>,
    pub args: Json,
}

impl View for ToolCallResult {
    type V = ToolCallResultView;

    open spec fn view(&self) -> ToolCallResultView {
        ToolCallResultView {
            result: crate::types::opt_str(self.result),
            requires_confirmation: self.requires_confirmation,
            description: self.description@,
            tool_name: self.tool_name@,
            args: self.args@,
        }
    }
}

/// A destructive call held back until the user confirms `description`.
pub fn awaiting_confirmation(call: &FunctionCall, description: String) -> (r: ToolCallResult)
    ensures
        r.result is None,
        r.requires_confirmation,
        r.description == description,
        r.tool_name@ == call.name@,
        r.args@ == call.arguments@,
{
    ToolCallResult {
        result: None,
        requires_confirmation: true,
        description,
        tool_name: call.name.clone(),
        args: call.arguments.duplicate(),
    }
}

/// A call that ran and produced `output`; it is described by its one-line description.
pub fn completed(call: &FunctionCall, output: String) -> (r: ToolCallResult)
    ensures
        r.result == Some(output),
        !r.requires_confirmation,
        r.description@ == description_of(call.name@, call.arguments@),
        r.tool_name@ == call.name@,
        r.args@ == call.arguments@,
{
    ToolCallResult {
        description: build_description(call),
        result: Some(output),
        requires_confirmation: false,
        tool_name: call.name.clone(),
        args: call.arguments.duplicate(),
    }
}

// ── Matching walks ────────────────────────────────────────────────────────────

/// A file found by a matching walk: its path, the directory the walk read it from, and
/// its file name (the path is the directory joined with the name).
pub struct MatchedFile {
    pub path: String,
    pub dir: String,
    pub name: String,
}

pub struct MatchedFileView {
    pub path: Seq<char>,
    pub dir: Seq<char>,
    pub name: Seq<char>,
}

impl View for MatchedFile {
    type V = MatchedFileView;

    open spec fn view(&self) -> MatchedFileView {
        MatchedFileView { path: self.path@, dir: self.dir@, name: self.name@ }
    }
}

pub open spec fn files_view(v: Seq<MatchedFile>) -> Seq<MatchedFileView> {
    v.map_values(|f: MatchedFile| f@)
}

pub open spec fn file_paths(v: Seq<MatchedFileView>) -> Seq<Seq<char>> {
    v.map_values(|f: MatchedFileView| f.path)
}

pub open spec fn no_matches_message() -> Seq<char> {
    "No files matched the requested bulk operation"@
}

pub open spec fn no_changes_message() -> Seq<char> {
    "Bulk rename matched files but produced no filename changes"@
}

/// The paths of the matched files, in order.
pub fn matched_paths(files: &Vec<MatchedFile>) -> (r: Vec<String>)
    ensures
        views_of(r@) == file_paths(files_view(files@)),
{
    let mut out: Vec<String> = Vec::new();
    let mut i: usize = 0;
    while i < files.len()
        invariant
            0 <= i <= files.len(),
            views_of(out@) == file_paths(files_view(files@)).take(i as int),
        decreases files.len() - i,
    {
        let ghost before = views_of(out@);
        out.push(files[i].path.clone());
        assert(views_of(out@) =~= before.push(files@[i as int].path@));
        assert(file_paths(files_view(files@)).take(i + 1) =~= file_paths(files_view(files@)).take(
            i as int,
        ).push(files@[i as int].path@));
        i += 1;
    }
    assert(file_paths(files_view(files@)).take(i as int) =~= file_paths(files_view(files@)));
    out
}

/// The new name a file gets: every match of the pattern in its name replaced.
pub open spec fn new_name(regex: Seq<char>, replacement: Seq<char>, f: MatchedFileView) -> Seq<char> {
    regex_replace_all(regex, f.name, replacement)
}

/// Every generated name is a valid file name.
pub open spec fn names_valid(
    files: Seq<MatchedFileView>,
    regex: Seq<char>,
    replacement: Seq<char>,
) -> bool {
    forall|i: int|
        0 <= i < files.len() ==> valid_generated_filename(
            #[trigger] new_name(regex, replacement, files[i]),
        )
}

/// The renames of a matching walk: each file whose name changes goes, in walk order, to
/// the new name in the same directory.
pub open spec fn planned_renames(
    files: Seq<MatchedFileView>,
    regex: Seq<char>,
    replacement: Seq<char>,
) -> Seq<(Seq<char>, Seq<char>)>
    decreases files.len(),
{
    if files.len() == 0 {
        Seq::empty()
    } else {
        let before = planned_renames(files.drop_last(), regex, replacement);
        let f = files.last();
        let n = new_name(regex, replacement, f);
        if n == f.name {
            before
        } else {
            before.push((f.path, join_path(f.dir, n)))
        }
    }
}

proof fn lemma_planned_grows(
    files: Seq<MatchedFileView>,
    regex: Seq<char>,
    replacement: Seq<char>,
    n: int,
)
    requires
        0 <= n <= files.len(),
    ensures
        planned_renames(files.take(n), regex, replacement).len() <= planned_renames(
            files,
            regex,
            replacement,
        ).len(),
    decreases files.len() - n,
{
    if n < files.len() {
        lemma_planned_grows(files, regex, replacement, n + 1);
        assert(files.take(n + 1).drop_last() =~= files.take(n));
    } else {
        assert(files.take(n) =~= files);
    }
}

/// `matching_rename_plan` after the walk: the renames of the matched files. A generated
/// name that is not a single real file name, or a new path outside the working directory,
/// is refused; so is a plan that changes nothing.
pub fn rename_plan(
    files: &Vec<MatchedFile>,
    regex: &Pattern,
    replacement: &str,
    base_path: &str,
) -> (r: Result<Vec<(String, String)>, AppError>)
    ensures
        !names_valid(files_view(files@), regex@, replacement@) ==> r is Err,
        (exists|i: int|
            0 <= i < planned_renames(files_view(files@), regex@, replacement@).len()
                && has_parent_component(
                (#[trigger] planned_renames(files_view(files@), regex@, replacement@)[i]).1,
            )) ==> r is Err,
        names_valid(files_view(files@), regex@, replacement@) && planned_renames(
            files_view(files@),
            regex@,
            replacement@,
        ).len() == 0 ==> rejected(r, no_changes_message()),
        r is Ok ==> names_valid(files_view(files@), regex@, replacement@) && pair_views(r->Ok_0@)
            == planned_renames(files_view(files@), regex@, replacement@) && r->Ok_0.len() > 0,
{
    let ghost fv = files_view(files@);
    let mut operations: Vec<(String, String)> = Vec::new();
    let mut i: usize = 0;
    while i < files.len()
        invariant
            0 <= i <= files.len(),
            fv == files_view(files@),
            fv.len() == files.len(),
            forall|k: int| 0 <= k < i ==> valid_generated_filename(
                #[trigger] new_name(regex@, replacement@, fv[k]),
            ),
            pair_views(operations@) == planned_renames(fv.take(i as int), regex@, replacement@),
            forall|k: int|
                0 <= k < operations.len() ==> !has_parent_component(#[trigger] operations@[k].1@),
        decreases files.len() - i,
    {
        let f = &files[i];
        assert(fv[i as int] == f@);
        assert(fv.take(i + 1).drop_last() =~= fv.take(i as int));
        assert(fv.take(i + 1).last() == f@);
        let generated = replace_all(regex, f.name.as_str(), replacement);
        match validate_generated_filename(generated.as_str()) {
            Ok(()) => {},
            Err(e) => {
                assert(!valid_generated_filename(new_name(regex@, replacement@, fv[i as int])));
                return Err(e);
            },
        }
        if str_eq(generated.as_str(), f.name.as_str()) {
            i += 1;
            continue;
        }
        let new_path = join(f.dir.as_str(), generated.as_str());
        match contain_path(new_path.as_str(), base_path) {
            Ok(_) => {},
            Err(e) => {
                proof {
                    lemma_planned_grows(fv, regex@, replacement@, i + 1);
                }
                return Err(e);
            },
        }
        assert(!has_parent_component(new_path@));
        let ghost before = pair_views(operations@);
        let ghost before_ops = operations@;
        operations.push((f.path.clone(), new_path));
        assert(pair_views(operations@) =~= before.push((f.path@, join_path(f.dir@, generated@))));
        assert forall|k: int| 0 <= k < operations.len() implies !has_parent_component(
            #[trigger] operations@[k].1@,
        ) by {
            if k < before_ops.len() {
                assert(operations@[k] == before_ops[k]);
            }
        }
        i += 1;
    }
    assert(fv.take(i as int) =~= fv);
    if operations.len() == 0 {
        return Err(AppError::ToolValidation(
            String::from_str("Bulk rename matched files but produced no filename changes"),
        ));
    }
    Ok(operations)
}

/// `matching_files_for_call`'s last check: a walk that found nothing is refused.
pub fn require_matches(found: &Vec<MatchedFile>) -> (r: Result<(), AppError>)
    ensures
        r is Ok <==> found.len() > 0,
        r is Err ==> rejected(r, no_matches_message()),
{
    if found.len() == 0 {
        Err(AppError::ToolValidation(
            String::from_str("No files matched the requested bulk operation"),
        ))
    } else {
        Ok(())
    }
}

// ── Confirmation ──────────────────────────────────────────────────────────────

/// The next step toward the question asked before a destructive call.
pub enum ConfirmStep {
    /// The question is ready.
    Ask(String),
    /// The matching walk of this operation must run first; its files then go to
    /// [`matching_confirmation`].
    Walk(FsOp),
}

/// The tools whose question lists what they will touch, so their arguments are read
/// and their paths checked before asking.
pub open spec fn previews_targets(name: Seq<char>) -> bool {
    let t = tool_index(name);
    t == 6 || t == 8 || t == 9 || t == 10
}

/// The first step of the question asked before `call` runs. The bulk tools read their
/// arguments and check their paths exactly as when they run, and list what they will
/// touch; `delete_matching` and `rename_matching` first need their walk. Any other call
/// is asked about by its one-line description.
pub fn confirmation_step(call: &FunctionCall, base_path: &str) -> (r: Result<ConfirmStep, AppError>)
    ensures
        !previews_targets(call.name@) ==> (r matches Ok(ConfirmStep::Ask(d)) && d@ == description_of(
            call.name@,
            call.arguments@,
        )),
        previews_targets(call.name@) && plan_error(call.name@, call.arguments@) is Some ==> rejected(
            r,
            plan_error(call.name@, call.arguments@)->Some_0,
        ),
        tool_index(call.name@) == 6 && r is Ok ==> (r->Ok_0 matches ConfirmStep::Ask(d) && exists|
            op: FsOp,
        |
            planned(call.name@, call.arguments@, base_path@, op) && (op matches FsOp::DeleteMany { paths }
                && d@ == delete_many_prompt(views_of(paths@)))),
        tool_index(call.name@) == 8 && r is Ok ==> (r->Ok_0 matches ConfirmStep::Ask(d) && exists|
            op: FsOp,
        |
            planned(call.name@, call.arguments@, base_path@, op) && (op matches FsOp::RenameMany { operations }
                && d@ == rename_many_prompt(pair_views(operations@)))),
        (tool_index(call.name@) == 9 || tool_index(call.name@) == 10) && r is Ok ==> (r->Ok_0 matches ConfirmStep::Walk(
            op,
        ) && planned(call.name@, call.arguments@, base_path@, op)),
        r matches Err(e) ==> (plan_error(call.name@, call.arguments@) is None ==> exists|q: Seq<char>|
            #![trigger refuses(e, q)]
            path_argument(call.name@, call.arguments@, q) && refuses(e, q)),
{
    let name = call.name.as_str();
    proof {
        crate::tools::plan::lemma_tool_names();
    }
    if str_eq(name, "delete_many") || str_eq(name, "rename_many") || str_eq(name, "delete_matching")
        || str_eq(name, "rename_matching") {
        let op = plan_tool(call, base_path)?;
        let ghost planned_op = op;
        match op {
            FsOp::DeleteMany { paths } => Ok(ConfirmStep::Ask(delete_many_confirmation(&paths))),
            FsOp::RenameMany { operations } => Ok(
                ConfirmStep::Ask(rename_many_confirmation(&operations)),
            ),
            other => Ok(ConfirmStep::Walk(other)),
        }
    } else {
        Ok(ConfirmStep::Ask(build_description(call)))
    }
}

/// What dispatching a tool call does first: a destructive call is asked about, any other
/// runs now.
pub enum DispatchStep {
    /// Ask the user before the call runs.
    Confirm(ConfirmStep),
    /// Run this operation now.
    Run(FsOp),
}

/// The branch of dispatching a call under the canonical working directory `base_path`:
/// a destructive tool gets its question (or the walk it needs first); any other tool is
/// planned to run, its arguments read and its paths checked.
pub fn dispatch_step(call: &FunctionCall, base_path: &str) -> (r: Result<DispatchStep, AppError>)
    ensures
        destructive(call.name@) && !previews_targets(call.name@) ==> (r matches Ok(
            DispatchStep::Confirm(ConfirmStep::Ask(d)),
        ) && d@ == description_of(call.name@, call.arguments@)),
        destructive(call.name@) && previews_targets(call.name@) && plan_error(
            call.name@,
            call.arguments@,
        ) is Some ==> rejected(r, plan_error(call.name@, call.arguments@)->Some_0),
        destructive(call.name@) && r is Ok ==> r->Ok_0 is Confirm,
        (tool_index(call.name@) == 9 || tool_index(call.name@) == 10) && r is Ok ==> (r->Ok_0 matches DispatchStep::Confirm(
            ConfirmStep::Walk(op),
        ) && planned(call.name@, call.arguments@, base_path@, op)),
        !destructive(call.name@) && plan_error(call.name@, call.arguments@) is Some ==> rejected(
            r,
            plan_error(call.name@, call.arguments@)->Some_0,
        ),
        !destructive(call.name@) && r is Ok ==> (r->Ok_0 matches DispatchStep::Run(op) && planned(
            call.name@,
            call.arguments@,
            base_path@,
            op,
        )),
        r matches Err(e) ==> (plan_error(call.name@, call.arguments@) is None ==> exists|q: Seq<char>|
            #![trigger refuses(e, q)]
            path_argument(call.name@, call.arguments@, q) && refuses(e, q)),
{
    if crate::tools::plan::is_destructive(call.name.as_str()) {
        proof {
            crate::tools::plan::lemma_tool_names();
        }
        let step = confirmation_step(call, base_path)?;
        Ok(DispatchStep::Confirm(step))
    } else {
        let op = plan_tool(call, base_path)?;
        Ok(DispatchStep::Run(op))
    }
}

/// What asking about a `rename_matching` call gives once its walk found `found`: the
/// question lists the planned renames; a plan with an invalid name or no change is refused.
pub open spec fn rename_question(
    args: Json,
    regex: Seq<char>,
    replacement: Seq<char>,
    found: Seq<MatchedFileView>,
    r: Result<String, AppError>,
) -> bool {
    &&& !names_valid(found, regex, replacement) ==> r is Err
    &&& names_valid(found, regex, replacement) && planned_renames(found, regex, replacement).len()
        == 0 ==> rejected(r, no_changes_message())
    &&& r is Ok ==> r->Ok_0@ == rename_matching_prompt(
        arg_or_unknown(args, "filename_regex"@),
        arg_or_unknown(args, "path"@),
        bool_member(args, "recursive"@),
        planned_renames(found, regex, replacement),
    )
}

/// The question asked before a matching tool runs, given the files its walk found: the
/// files to delete, or the renames planned for them.
pub fn matching_confirmation(
    call: &FunctionCall,
    op: &FsOp,
    found: &Vec<MatchedFile>,
    base_path: &str,
) -> (r: Result<String, AppError>)
    ensures
        (op is DeleteMatching || op is RenameMatching) && found.len() == 0 ==> rejected(
            r,
            no_matches_message(),
        ),
        op is DeleteMatching && found.len() > 0 ==> (r matches Ok(d) && d@ == delete_matching_prompt(
            arg_or_unknown(call.arguments@, "filename_regex"@),
            arg_or_unknown(call.arguments@, "path"@),
            bool_member(call.arguments@, "recursive"@),
            file_paths(files_view(found@)),
        )),
        op is RenameMatching && found.len() > 0 ==> rename_question(
            call.arguments@,
            op->RenameMatching_regex@,
            op->RenameMatching_replacement@,
            files_view(found@),
            r,
        ),
        !(op is DeleteMatching || op is RenameMatching) ==> (r matches Ok(d) && d@ == description_of(
            call.name@,
            call.arguments@,
        )),
{
    let args = &call.arguments;
    match op {
        FsOp::DeleteMatching { .. } => {
            require_matches(found)?;
            let path = arg_text(args, "path");
            let pattern = arg_text(args, "filename_regex");
            let recursive = extract_bool(args, "recursive");
            let paths = matched_paths(found);
            Ok(delete_matching_confirmation(pattern.as_str(), path.as_str(), recursive, &paths))
        },
        FsOp::RenameMatching { regex, replacement, .. } => {
            require_matches(found)?;
            let path = arg_text(args, "path");
            let pattern = arg_text(args, "filename_regex");
            let recursive = extract_bool(args, "recursive");
            let operations = rename_plan(found, regex, replacement.as_str(), base_path)?;
            Ok(rename_matching_confirmation(pattern.as_str(), path.as_str(), recursive, &operations))
        },
        _ => Ok(build_description(call)),
    }
}

// ── Reports ───────────────────────────────────────────────────────────────────

/// What a finished operation reports; `None` for the operations whose output is the
/// data they read.
pub open spec fn outcome_text(op: FsOp, count: nat) -> Option<Seq<char>> {
    match op {
        FsOp::CreateFile { .. } => Some("File created successfully"@),
        FsOp::EditFile { .. } => Some("File updated successfully"@),
        FsOp::DeleteFile { .. } => Some("Deleted successfully"@),
        FsOp::DeleteMany { .. } => Some("Deleted "@ + decimal(count) + " item(s) successfully"@),
        FsOp::RenameFile { .. } => Some("Renamed successfully"@),
        FsOp::RenameMany { .. } => Some("Renamed "@ + decimal(count) + " item(s) successfully"@),
        FsOp::DeleteMatching { .. } => Some(
            "Deleted "@ + decimal(count) + " matching file(s) successfully"@,
        ),
        FsOp::RenameMatching { .. } => Some(
            "Renamed "@ + decimal(count) + " matching file(s) successfully"@,
        ),
        FsOp::CreateDirectory { .. } => Some("Directory created successfully"@),
        FsOp::CopyFile { .. } => Some("File copied successfully"@),
        FsOp::PatchFile { .. } => Some("File patched successfully"@),
        _ => None,
    }
}

fn count_message(lead: &str, count: usize, tail: &str) -> (r: String)
    ensures
        r@ == lead@ + decimal(count as nat) + tail@,
{
    let mut r = String::from_str(lead);
    crate::text::push_decimal(count as u64, &mut r);
    r.append(tail);
    r
}

/// The report of a finished operation that changed `count` items (the count matters
/// only to the bulk operations).
pub fn outcome_message(op: &FsOp, count: usize) -> (r: Option<String>)
    ensures
        match (r, outcome_text(*op, count as nat)) {
            (Some(m), Some(t)) => m@ == t,
            (None, None) => true,
            _ => false,
        },
{
    match op {
        FsOp::CreateFile { .. } => Some(String::from_str("File created successfully")),
        FsOp::EditFile { .. } => Some(String::from_str("File updated successfully")),
        FsOp::DeleteFile { .. } => Some(String::from_str("Deleted successfully")),
        FsOp::DeleteMany { .. } => Some(count_message("Deleted ", count, " item(s) successfully")),
        FsOp::RenameFile { .. } => Some(String::from_str("Renamed successfully")),
        FsOp::RenameMany { .. } => Some(count_message("Renamed ", count, " item(s) successfully")),
        FsOp::DeleteMatching { .. } => Some(
            count_message("Deleted ", count, " matching file(s) successfully"),
        ),
        FsOp::RenameMatching { .. } => Some(
            count_message("Renamed ", count, " matching file(s) successfully"),
        ),
        FsOp::CreateDirectory { .. } => Some(String::from_str("Directory created successfully")),
        FsOp::CopyFile { .. } => Some(String::from_str("File copied successfully")),
        FsOp::PatchFile { .. } => Some(String::from_str("File patched successfully")),
        _ => None,
    }
}

/// What `find_files` reports: the matched paths one per line, or a note that none matched.
pub fn find_files_output(matches: &Vec<String>) -> (r: String)
    ensures
        matches.len() == 0 ==> r@ == "No matching files found."@,
        matches.len() > 0 ==> r@ == join_with(views_of(matches@), "\n"@),
{
    if matches.len() == 0 {
        String::from_str("No matching files found.")
    } else {
        join_lines(matches, "\n")
    }
}

} // verus!
