//! What a tool call asks of the filesystem: its arguments read and every path it names
//! checked against the working directory, before anything is touched.
use vstd::prelude::*;

use crate::error::{rejected, AppError};
use crate::json::{array_member, bool_member, str_member, Json, JsonValue};
use crate::paths::{
    accepted, has_parent_component, refuses, parent_component_message, resolve_paths,
    resolve_rename_operations, contain_path,
};
use crate::pattern::{compile, regex_compile_error, Pattern};
use crate::text::{concat2, str_eq};
use crate::tools::args::{
    all_strings, extract_bool, extract_rename_operations, extract_str, extract_str_array,
    missing_argument_message, missing_array_message, non_string_item_message, rename_op_error,
    rename_op_of, string_items,
};
use crate::tools::describe::pair_views;
use crate::types::FunctionCall;

verus! {

/// Most files a bulk operation may match before it is refused.
pub const MAX_BULK_MATCHES: usize = 200;

/// Most matching lines that `search_in_files` reports.
pub const SEARCH_MAX_RESULTS: usize = 50;

/// The position of a tool in the list of tools the model is offered; 16 for any other name.
pub open spec fn tool_index(name: Seq<char>) -> int {
    if name == "list_files"@ {
        0
    } else if name == "read_file"@ {
        1
    } else if name == "read_pdf"@ {
        2
    } else if name == "create_file"@ {
        3
    } else if name == "edit_file"@ {
        4
    } else if name == "delete_file"@ {
        5
    } else if name == "delete_many"@ {
        6
    } else if name == "rename_file"@ {
        7
    } else if name == "rename_many"@ {
        8
    } else if name == "delete_matching"@ {
        9
    } else if name == "rename_matching"@ {
        10
    } else if name == "create_directory"@ {
        11
    } else if name == "copy_file"@ {
        12
    } else if name == "find_files"@ {
        13
    } else if name == "search_in_files"@ {
        14
    } else if name == "patch_file"@ {
        15
    } else {
        16
    }
}

pub proof fn lemma_tool_names()
    ensures
        tool_index("list_files"@) == 0,
        tool_index("read_file"@) == 1,
        tool_index("read_pdf"@) == 2,
        tool_index("create_file"@) == 3,
        tool_index("edit_file"@) == 4,
        tool_index("delete_file"@) == 5,
        tool_index("delete_many"@) == 6,
        tool_index("rename_file"@) == 7,
        tool_index("rename_many"@) == 8,
        tool_index("delete_matching"@) == 9,
        tool_index("rename_matching"@) == 10,
        tool_index("create_directory"@) == 11,
        tool_index("copy_file"@) == 12,
        tool_index("find_files"@) == 13,
        tool_index("search_in_files"@) == 14,
        tool_index("patch_file"@) == 15,
{
    reveal_strlit("list_files");
    reveal_strlit("read_file");
    reveal_strlit("read_pdf");
    reveal_strlit("create_file");
    reveal_strlit("edit_file");
    reveal_strlit("delete_file");
    reveal_strlit("delete_many");
    reveal_strlit("rename_file");
    reveal_strlit("rename_many");
    reveal_strlit("delete_matching");
    reveal_strlit("rename_matching");
    reveal_strlit("create_directory");
    reveal_strlit("copy_file");
    reveal_strlit("find_files");
    reveal_strlit("search_in_files");
    reveal_strlit("patch_file");
    assert("list_files"@.len() == 10);
    assert("read_file"@.len() == 9);
    assert("read_pdf"@.len() == 8);
    assert("create_file"@.len() == 11);
    assert("edit_file"@.len() == 9);
    assert("delete_file"@.len() == 11);
    assert("delete_many"@.len() == 11);
    assert("rename_file"@.len() == 11);
    assert("rename_many"@.len() == 11);
    assert("delete_matching"@.len() == 15);
    assert("rename_matching"@.len() == 15);
    assert("create_directory"@.len() == 16);
    assert("copy_file"@.len() == 9);
    assert("find_files"@.len() == 10);
    assert("search_in_files"@.len() == 15);
    assert("patch_file"@.len() == 10);
    assert("edit_file"@[0] != "read_file"@[0]);
    assert("delete_file"@[0] != "create_file"@[0]);
    assert("delete_many"@[0] != "create_file"@[0]);
    assert("delete_many"@[7] != "delete_file"@[7]);
    assert("rename_file"@[0] != "create_file"@[0]);
    assert("rename_file"@[0] != "delete_file"@[0]);
    assert("rename_file"@[0] != "delete_many"@[0]);
    assert("rename_many"@[0] != "create_file"@[0]);
    assert("rename_many"@[0] != "delete_file"@[0]);
    assert("rename_many"@[0] != "delete_many"@[0]);
    assert("rename_many"@[7] != "rename_file"@[7]);
    assert("rename_matching"@[0] != "delete_matching"@[0]);
    assert("copy_file"@[0] != "read_file"@[0]);
    assert("copy_file"@[0] != "edit_file"@[0]);
    assert("find_files"@[0] != "list_files"@[0]);
    assert("search_in_files"@[0] != "delete_matching"@[0]);
    assert("search_in_files"@[0] != "rename_matching"@[0]);
    assert("patch_file"@[0] != "list_files"@[0]);
    assert("patch_file"@[0] != "find_files"@[0]);
}

/// The tools that change or remove files; each is shown to the user for confirmation
/// before it runs.
pub open spec fn destructive(name: Seq<char>) -> bool {
    let i = tool_index(name);
    i == 4 || i == 5 || i == 6 || i == 7 || i == 8 || i == 9 || i == 10 || i == 15
}

pub fn is_destructive(name: &str) -> (r: bool)
    ensures
        r == destructive(name@),
{
    proof {
        lemma_tool_names();
    }
    str_eq(name, "delete_file") || str_eq(name, "delete_many") || str_eq(name, "delete_matching")
        || str_eq(name, "edit_file") || str_eq(name, "patch_file") || str_eq(name, "rename_file")
        || str_eq(name, "rename_many") || str_eq(name, "rename_matching")
}

/// The tools the model is offered.
pub open spec fn known_tool(name: Seq<char>) -> bool {
    0 <= tool_index(name) < 16
}

/// A directory walk that collects the files whose names match a pattern.
pub struct MatchQuery {
    /// The checked directory to start from.
    pub dir: String,
    pub filename_regex: String,
    /// Whether to descend into subdirectories.
    pub recursive: bool,
    /// Most files that may match before the walk is refused.
    pub limit: usize,
}

/// A filesystem operation with every path already checked against the working directory.
pub enum FsOp {
    ListFiles { path: String },
    ReadFile { path: String },
    ReadPdf { path: String },
    CreateFile { path: String, content: String },
    EditFile { path: String, content: String },
    DeleteFile { path: String },
    DeleteMany { paths: Vec<String> },
    RenameFile { old_path: String, new_path: String },
    RenameMany { operations: Vec<(String, String)> },
    CreateDirectory { path: String },
    CopyFile { source: String, destination: String },
    FindFiles { query: MatchQuery },
    DeleteMatching { query: MatchQuery },
    RenameMatching { query: MatchQuery, regex: Pattern, replacement: String },
    SearchInFiles { dir: String, pattern: String, max_results: usize },
    PatchFile { path: String, search: String, replace: String },
}

// ── The rejections that do not depend on the filesystem ──────────────────────

/// The first of `keys` that is not a string argument.
pub open spec fn first_missing(args: Json, keys: Seq<Seq<char>>) -> Option<Seq<char>>
    decreases keys.len(),
{
    if keys.len() == 0 {
        None
    } else if str_member(args, keys[0]) is None {
        Some(keys[0])
    } else {
        first_missing(args, keys.drop_first())
    }
}

/// The string arguments a tool reads before it checks its first path, in reading order.
pub open spec fn string_keys(name: Seq<char>) -> Seq<Seq<char>> {
    if tool_index(name) == 3 || tool_index(name) == 4 {
        seq!["path"@, "content"@]
    } else if tool_index(name) == 7 {
        seq!["old_path"@, "new_path"@]
    } else if tool_index(name) == 12 {
        seq!["source"@, "destination"@]
    } else if tool_index(name) == 9 {
        seq!["path"@, "filename_regex"@]
    } else if tool_index(name) == 10 {
        seq!["filename_regex"@, "replacement"@, "path"@]
    } else if tool_index(name) == 14 {
        seq!["path"@, "pattern"@]
    } else if tool_index(name) == 15 {
        seq!["path"@, "search"@, "replace"@]
    } else {
        seq!["path"@]
    }
}

/// The argument naming the first path a tool checks.
pub open spec fn first_path_key(name: Seq<char>) -> Seq<char> {
    if tool_index(name) == 7 {
        "old_path"@
    } else if tool_index(name) == 12 {
        "source"@
    } else {
        "path"@
    }
}

/// The argument naming the second path a tool checks, for the two tools that name two.
pub open spec fn second_path_key(name: Seq<char>) -> Option<Seq<char>> {
    if tool_index(name) == 7 {
        Some("new_path"@)
    } else if tool_index(name) == 12 {
        Some("destination"@)
    } else {
        None
    }
}

pub open spec fn arg(args: Json, key: Seq<char>) -> Seq<char> {
    str_member(args, key)->Some_0
}

/// The index of the first malformed rename operation at or after `i`.
pub open spec fn first_bad_op(ops: Seq<Json>, i: int) -> Option<int>
    decreases ops.len() - i,
{
    if i < 0 || i >= ops.len() {
        None
    } else if rename_op_of(ops[i]) is None {
        Some(i)
    } else {
        first_bad_op(ops, i + 1)
    }
}

proof fn lemma_first_bad(ops: Seq<Json>, i: int, k: int)
    requires
        0 <= k <= i < ops.len(),
        rename_op_of(ops[i]) is None,
        forall|j: int| k <= j < i ==> rename_op_of(#[trigger] ops[j]) is Some,
    ensures
        first_bad_op(ops, k) == Some(i),
    decreases i - k,
{
    if k < i {
        lemma_first_bad(ops, i, k + 1);
    }
}

proof fn lemma_no_bad(ops: Seq<Json>, k: int)
    requires
        0 <= k <= ops.len(),
        forall|j: int| k <= j < ops.len() ==> rename_op_of(#[trigger] ops[j]) is Some,
    ensures
        first_bad_op(ops, k) is None,
    decreases ops.len() - k,
{
    if k < ops.len() {
        lemma_no_bad(ops, k + 1);
    }
}

pub open spec fn delete_many_error(args: Json) -> Option<Seq<char>> {
    match array_member(args, "paths"@) {
        None => Some(missing_array_message("paths"@)),
        Some(items) => if !all_strings(items) {
            Some(non_string_item_message("paths"@))
        } else if items.len() == 0 {
            Some("No paths were provided"@)
        } else if has_parent_component(string_items(items)[0]) {
            Some(parent_component_message(string_items(items)[0]))
        } else {
            None
        },
    }
}

pub open spec fn rename_many_error(args: Json) -> Option<Seq<char>> {
    match array_member(args, "operations"@) {
        None => Some(missing_array_message("operations"@)),
        Some(ops) => if ops.len() == 0 {
            Some("No rename operations were provided"@)
        } else if first_bad_op(ops, 0) is Some {
            Some(rename_op_error(ops[first_bad_op(ops, 0)->Some_0]))
        } else if has_parent_component(rename_op_of(ops[0])->Some_0.0) {
            Some(parent_component_message(rename_op_of(ops[0])->Some_0.0))
        } else {
            None
        },
    }
}

/// The rejection a call gets whatever the filesystem holds: an unknown tool, a missing
/// or malformed argument, an invalid pattern, or `..` in the first path it checks.
pub open spec fn plan_error(name: Seq<char>, args: Json) -> Option<Seq<char>> {
    if !known_tool(name) {
        Some("Unknown tool '"@ + name + "'"@)
    } else if tool_index(name) == 6 {
        delete_many_error(args)
    } else if tool_index(name) == 8 {
        rename_many_error(args)
    } else if tool_index(name) == 10 && str_member(args, "filename_regex"@) is Some
        && str_member(args, "replacement"@) is Some && regex_compile_error(
        arg(args, "filename_regex"@),
    ) is Some {
        Some("Invalid filename regex: "@ + regex_compile_error(arg(args, "filename_regex"@))->Some_0)
    } else if first_missing(args, string_keys(name)) is Some {
        Some(missing_argument_message(first_missing(args, string_keys(name))->Some_0))
    } else if has_parent_component(arg(args, first_path_key(name))) {
        Some(parent_component_message(arg(args, first_path_key(name))))
    } else {
        None
    }
}

/// Some path the call names has a `..` component.
pub open spec fn names_parent_path(name: Seq<char>, args: Json) -> bool {
    if tool_index(name) == 6 {
        match array_member(args, "paths"@) {
            Some(items) => all_strings(items) && exists|i: int|
                0 <= i < items.len() && has_parent_component(#[trigger] string_items(items)[i]),
            None => false,
        }
    } else if tool_index(name) == 8 {
        match array_member(args, "operations"@) {
            Some(ops) => first_bad_op(ops, 0) is None && exists|i: int|
                0 <= i < ops.len() && (has_parent_component(
                    (#[trigger] rename_op_of(ops[i]))->Some_0.0,
                ) || has_parent_component(rename_op_of(ops[i])->Some_0.1)),
            None => false,
        }
    } else {
        known_tool(name) && first_missing(args, string_keys(name)) is None && (has_parent_component(
            arg(args, first_path_key(name)),
        ) || (second_path_key(name) is Some && has_parent_component(
            arg(args, second_path_key(name)->Some_0),
        )))
    }
}

// ── What an accepted call asks for ────────────────────────────────────────────

/// The pattern `find_files` walks with: its `filename_regex`, or `.*` when that is absent
/// or empty.
pub open spec fn find_regex(args: Json) -> Seq<char> {
    match str_member(args, "filename_regex"@) {
        Some(s) => if s.len() > 0 {
            s
        } else {
            ".*"@
        },
        None => ".*"@,
    }
}

/// The walk of a matching tool: the checked `path`, the given pattern, `recursive`, and
/// the bulk limit.
pub open spec fn query_for(args: Json, base: Seq<char>, q: MatchQuery, pattern: Seq<char>) -> bool {
    &&& accepted(base, arg(args, "path"@), q.dir@)
    &&& q.filename_regex@ == pattern
    &&& q.recursive == bool_member(args, "recursive"@)
    &&& q.limit == MAX_BULK_MATCHES
}

/// `q` is one of the paths the call `name(args)` names.
pub open spec fn path_argument(name: Seq<char>, args: Json, q: Seq<char>) -> bool {
    if tool_index(name) == 6 {
        match array_member(args, "paths"@) {
            Some(items) => string_items(items).contains(q),
            None => false,
        }
    } else if tool_index(name) == 8 {
        match array_member(args, "operations"@) {
            Some(ops) => exists|i: int|
                0 <= i < ops.len() && (#[trigger] rename_op_of(ops[i])) is Some && (rename_op_of(
                    ops[i],
                )->Some_0.0 == q || rename_op_of(ops[i])->Some_0.1 == q),
            None => false,
        }
    } else {
        q == arg(args, first_path_key(name)) || (second_path_key(name) is Some && q == arg(
            args,
            second_path_key(name)->Some_0,
        ))
    }
}

/// `op` is what the accepted call `name(args)` asks of the filesystem.
pub open spec fn planned(name: Seq<char>, args: Json, base: Seq<char>, op: FsOp) -> bool {
    let path = arg(args, "path"@);
    if tool_index(name) == 0 {
        op matches FsOp::ListFiles { path: p } && accepted(base, path, p@)
    } else if tool_index(name) == 1 {
        op matches FsOp::ReadFile { path: p } && accepted(base, path, p@)
    } else if tool_index(name) == 2 {
        op matches FsOp::ReadPdf { path: p } && accepted(base, path, p@)
    } else if tool_index(name) == 3 {
        op matches FsOp::CreateFile { path: p, content: c } && accepted(base, path, p@) && c@ == arg(
            args,
            "content"@,
        )
    } else if tool_index(name) == 4 {
        op matches FsOp::EditFile { path: p, content: c } && accepted(base, path, p@) && c@ == arg(
            args,
            "content"@,
        )
    } else if tool_index(name) == 5 {
        op matches FsOp::DeleteFile { path: p } && accepted(base, path, p@)
    } else if tool_index(name) == 6 {
        op matches FsOp::DeleteMany { paths: ps } && {
            let items = string_items(array_member(args, "paths"@)->Some_0);
            ps.len() == items.len() && forall|i: int|
                0 <= i < items.len() ==> accepted(base, #[trigger] items[i], ps@[i]@)
        }
    } else if tool_index(name) == 7 {
        op matches FsOp::RenameFile { old_path: a, new_path: b } && accepted(base, 
            arg(args, "old_path"@),
            a@,
        ) && accepted(base, arg(args, "new_path"@), b@)
    } else if tool_index(name) == 8 {
        op matches FsOp::RenameMany { operations: v } && {
            let ops = array_member(args, "operations"@)->Some_0;
            v.len() == ops.len() && forall|i: int|
                0 <= i < ops.len() ==> accepted(base, 
                    (#[trigger] rename_op_of(ops[i]))->Some_0.0,
                    v@[i].0@,
                ) && accepted(base, rename_op_of(ops[i])->Some_0.1, v@[i].1@)
        }
    } else if tool_index(name) == 11 {
        op matches FsOp::CreateDirectory { path: p } && accepted(base, path, p@)
    } else if tool_index(name) == 12 {
        op matches FsOp::CopyFile { source: a, destination: b } && accepted(base, 
            arg(args, "source"@),
            a@,
        ) && accepted(base, arg(args, "destination"@), b@)
    } else if tool_index(name) == 13 {
        op matches FsOp::FindFiles { query: q } && query_for(args, base, q, find_regex(args))
    } else if tool_index(name) == 9 {
        op matches FsOp::DeleteMatching { query: q } && query_for(args, base, q,
            arg(args, "filename_regex"@),
        )
    } else if tool_index(name) == 10 {
        op matches FsOp::RenameMatching { query: q, regex: p, replacement: t } && query_for(args, base, q,
            arg(args, "filename_regex"@),
        ) && p@ == arg(args, "filename_regex"@) && t@ == arg(args, "replacement"@)
    } else if tool_index(name) == 14 {
        op matches FsOp::SearchInFiles { dir: d, pattern: p, max_results: m } && accepted(base, 
            path,
            d@,
        ) && p@ == arg(args, "pattern"@) && m == SEARCH_MAX_RESULTS
    } else if tool_index(name) == 15 {
        op matches FsOp::PatchFile { path: p, search: s, replace: t } && accepted(base, path, p@) && s@
            == arg(args, "search"@) && t@ == arg(args, "replace"@)
    } else {
        false
    }
}

// ── Reading the arguments ─────────────────────────────────────────────────────

/// The string argument `key`, checked as a path under the canonical working directory
/// `base_path`.
fn checked_path(args: &JsonValue, key: &str, base_path: &str) -> (r: Result<String, AppError>)
    ensures
        str_member(args@, key@) is None ==> rejected(r, missing_argument_message(key@)),
        str_member(args@, key@) is Some && has_parent_component(arg(args@, key@)) ==> rejected(
            r,
            parent_component_message(arg(args@, key@)),
        ),
        r is Ok ==> str_member(args@, key@) is Some && accepted(base_path@, arg(args@, key@), r->Ok_0@),
        r matches Err(e) ==> (str_member(args@, key@) is Some ==> refuses(e, arg(args@, key@))),
{
    let path = extract_str(args, key)?;
    contain_path(path.as_str(), base_path)
}

/// The walk shared by the matching tools: `path` checked, `filename_regex` given,
/// `recursive` (default `false`).
fn matching_query(args: &JsonValue, base_path: &str) -> (r: Result<MatchQuery, AppError>)
    ensures
        first_missing(args@, seq!["path"@, "filename_regex"@]) is Some ==> rejected(
            r,
            missing_argument_message(first_missing(args@, seq!["path"@, "filename_regex"@])->Some_0),
        ),
        first_missing(args@, seq!["path"@, "filename_regex"@]) is None && has_parent_component(
            arg(args@, "path"@),
        ) ==> rejected(r, parent_component_message(arg(args@, "path"@))),
        r is Ok ==> first_missing(args@, seq!["path"@, "filename_regex"@]) is None && query_for(
            args@,
            base_path@,
            r->Ok_0,
            arg(args@, "filename_regex"@),
        ),
        r matches Err(e) ==> (first_missing(args@, seq!["path"@, "filename_regex"@]) is None ==> refuses(
            e,
            arg(args@, "path"@),
        )),
{
    proof {
        reveal_with_fuel(first_missing, 3);
    }
    let path = extract_str(args, "path")?;
    let filename_regex = extract_str(args, "filename_regex")?;
    let recursive = extract_bool(args, "recursive");
    let dir = contain_path(path.as_str(), base_path)?;
    Ok(MatchQuery { dir, filename_regex, recursive, limit: MAX_BULK_MATCHES })
}

/// The pattern `find_files` walks with.
fn find_files_regex(args: &JsonValue) -> (r: String)
    ensures
        r@ == find_regex(args@),
{
    match args.get("filename_regex") {
        Some(JsonValue::Str(s)) => {
            if !s.as_str().is_empty() {
                s.clone()
            } else {
                String::from_str(".*")
            }
        },
        _ => String::from_str(".*"),
    }
}

/// What the tool call asks of the filesystem, with every path it names checked against
/// the working directory `base_path`, in canonical form (see `canonical_base`): every
/// path of a planned operation lies under it. Arguments are read, and paths checked, in the order
/// the tool uses them; the first problem is returned.
#[verifier::rlimit(100)]
#[verifier::spinoff_prover]
pub fn plan_tool(call: &FunctionCall, base_path: &str) -> (r: Result<FsOp, AppError>)
    ensures
        plan_error(call.name@, call.arguments@) is Some ==> rejected(
            r,
            plan_error(call.name@, call.arguments@)->Some_0,
        ),
        names_parent_path(call.name@, call.arguments@) ==> r is Err,
        r is Ok ==> planned(call.name@, call.arguments@, base_path@, r->Ok_0),
        r matches Err(e) ==> (plan_error(call.name@, call.arguments@) is None ==> exists|q: Seq<char>|
            #![trigger refuses(e, q)]
            path_argument(call.name@, call.arguments@, q) && refuses(e, q)),
{
    proof {
        reveal_with_fuel(first_missing, 4);
        lemma_tool_names();
    }
    let args = &call.arguments;
    let name = call.name.as_str();
    if str_eq(name, "list_files") {
        let path = checked_path(args, "path", base_path)?;
        Ok(FsOp::ListFiles { path })
    } else if str_eq(name, "read_file") {
        let path = checked_path(args, "path", base_path)?;
        Ok(FsOp::ReadFile { path })
    } else if str_eq(name, "read_pdf") {
        let path = checked_path(args, "path", base_path)?;
        Ok(FsOp::ReadPdf { path })
    } else if str_eq(name, "create_file") {
        let path = extract_str(args, "path")?;
        let content = extract_str(args, "content")?;
        let path = contain_path(path.as_str(), base_path)?;
        Ok(FsOp::CreateFile { path, content })
    } else if str_eq(name, "edit_file") {
        let path = extract_str(args, "path")?;
        let content = extract_str(args, "content")?;
        let path = contain_path(path.as_str(), base_path)?;
        Ok(FsOp::EditFile { path, content })
    } else if str_eq(name, "delete_file") {
        let path = checked_path(args, "path", base_path)?;
        Ok(FsOp::DeleteFile { path })
    } else if str_eq(name, "delete_many") {
        let paths = extract_str_array(args, "paths")?;
        proof {
            let items = string_items(array_member(args@, "paths"@)->Some_0);
            assert(crate::text::views_of(paths@).len() == paths.len());
            if paths.len() > 0 {
                assert(crate::text::views_of(paths@)[0] == paths@[0]@);
                assert(items[0] == paths@[0]@);
            }
        }
        let ghost pv = paths@;
        let paths = match resolve_paths(paths, base_path) {
            Ok(v) => v,
            Err(e) => {
                proof {
                    if plan_error(call.name@, call.arguments@) is None {
                        let items = string_items(array_member(args@, "paths"@)->Some_0);
                        let k = choose|k: int| 0 <= k < pv.len() && refuses(e, pv[k]@);
                        assert(crate::text::views_of(pv)[k] == pv[k]@);
                        assert(items[k] == pv[k]@);
                        assert(items.contains(pv[k]@));
                        assert(path_argument(call.name@, call.arguments@, pv[k]@));
                    }
                }
                return Err(e);
            },
        };
        Ok(FsOp::DeleteMany { paths })
    } else if str_eq(name, "rename_file") {
        let old_path = extract_str(args, "old_path")?;
        let new_path = extract_str(args, "new_path")?;
        let old_path = contain_path(old_path.as_str(), base_path)?;
        let new_path = contain_path(new_path.as_str(), base_path)?;
        Ok(FsOp::RenameFile { old_path, new_path })
    } else if str_eq(name, "rename_many") {
        let extracted = extract_rename_operations(args);
        proof {
            if array_member(args@, "operations"@) is Some {
                let ops = array_member(args@, "operations"@)->Some_0;
                if ops.len() > 0 {
                    if extracted is Ok {
                        let v = extracted->Ok_0;
                        lemma_no_bad(ops, 0);
                        assert(rename_op_of(ops[0]) == Some(pair_views(v@)[0]));
                        assert(pair_views(v@)[0] == (v@[0].0@, v@[0].1@));
                    } else {
                        let e = extracted->Err_0;
                        let i = choose|i: int|
                                0 <= i < ops.len() && rename_op_of(#[trigger] ops[i]) is None
                                    && (forall|j: int|
                                    0 <= j < i ==> rename_op_of(#[trigger] ops[j]) is Some)
                                    && e.is_validation(rename_op_error(ops[i]));
                            lemma_first_bad(ops, i, 0);
                            assert(rename_many_error(args@) == Some(rename_op_error(ops[i])));
                    }
                }
            }
        }
        let operations = match extracted {
            Ok(v) => v,
            Err(e) => {
                return Err(e);
            },
        };
        let ghost ov = operations@;
        let operations = match resolve_rename_operations(operations, base_path) {
            Ok(v) => v,
            Err(e) => {
                proof {
                    let ops = array_member(args@, "operations"@)->Some_0;
                    let k = choose|k: int|
                        0 <= k < ov.len() && (refuses(e, ov[k].0@) || refuses(e, ov[k].1@));
                    assert(rename_op_of(ops[k]) == Some(pair_views(ov)[k]));
                    assert(pair_views(ov)[k] == (ov[k].0@, ov[k].1@));
                    if refuses(e, ov[k].0@) {
                        assert(path_argument(call.name@, call.arguments@, ov[k].0@));
                    } else {
                        assert(path_argument(call.name@, call.arguments@, ov[k].1@));
                    }
                }
                return Err(e);
            },
        };
        Ok(FsOp::RenameMany { operations })
    } else if str_eq(name, "delete_matching") {
        let query = matching_query(args, base_path)?;
        Ok(FsOp::DeleteMatching { query })
    } else if str_eq(name, "rename_matching") {
        let filename_regex = extract_str(args, "filename_regex")?;
        let replacement = extract_str(args, "replacement")?;
        let pattern = match compile(filename_regex.as_str()) {
            Ok(p) => p,
            Err(e) => {
                return Err(AppError::ToolValidation(concat2("Invalid filename regex: ", e.as_str())));
            },
        };
        let query = matching_query(args, base_path)?;
        Ok(FsOp::RenameMatching { query, regex: pattern, replacement })
    } else if str_eq(name, "create_directory") {
        let path = checked_path(args, "path", base_path)?;
        Ok(FsOp::CreateDirectory { path })
    } else if str_eq(name, "copy_file") {
        let source = extract_str(args, "source")?;
        let destination = extract_str(args, "destination")?;
        let source = contain_path(source.as_str(), base_path)?;
        let destination = contain_path(destination.as_str(), base_path)?;
        Ok(FsOp::CopyFile { source, destination })
    } else if str_eq(name, "find_files") {
        let path = extract_str(args, "path")?;
        let filename_regex = find_files_regex(args);
        let recursive = extract_bool(args, "recursive");
        let dir = contain_path(path.as_str(), base_path)?;
        Ok(FsOp::FindFiles { query: MatchQuery { dir, filename_regex, recursive, limit: MAX_BULK_MATCHES } })
    } else if str_eq(name, "search_in_files") {
        let path = extract_str(args, "path")?;
        let pattern = extract_str(args, "pattern")?;
        let dir = contain_path(path.as_str(), base_path)?;
        Ok(FsOp::SearchInFiles { dir, pattern, max_results: SEARCH_MAX_RESULTS })
    } else if str_eq(name, "patch_file") {
        let path = extract_str(args, "path")?;
        let search = extract_str(args, "search")?;
        let replace = extract_str(args, "replace")?;
        let path = contain_path(path.as_str(), base_path)?;
        Ok(FsOp::PatchFile { path, search, replace })
    } else {
        Err(AppError::ToolValidation(crate::text::concat3("Unknown tool '", name, "'")))
    }
}

} // verus!
