//! Reading tool-call arguments.
use vstd::prelude::*;

use crate::error::{rejected, AppError};
use crate::json::{array_member, bool_member, str_member, Json, JsonValue};
use crate::text::concat3;
use crate::tools::describe::pair_views;

verus! {

pub open spec fn missing_argument_message(key: Seq<char>) -> Seq<char> {
    "Missing required argument '"@ + key + "'"@
}

pub open spec fn missing_array_message(key: Seq<char>) -> Seq<char> {
    "Missing required array '"@ + key + "'"@
}

pub open spec fn non_string_item_message(key: Seq<char>) -> Seq<char> {
    "Every item in '"@ + key + "' must be a string"@
}

/// The string argument `key`; rejected when it is absent or not a string.
pub fn extract_str(args: &JsonValue, key: &str) -> (r: Result<String, AppError>)
    ensures
        str_member(args@, key@) is Some ==> (r is Ok && r->Ok_0@ == str_member(args@, key@)->Some_0),
        str_member(args@, key@) is None ==> rejected(r, missing_argument_message(key@)),
{
    match args.get(key) {
        Some(JsonValue::Str(s)) => Ok(s.clone()),
        _ => Err(AppError::ToolValidation(concat3("Missing required argument '", key, "'"))),
    }
}

/// The boolean argument `key`; `false` when it is absent or not a boolean.
pub fn extract_bool(args: &JsonValue, key: &str) -> (r: bool)
    ensures
        r == bool_member(args@, key@),
{
    match args.get(key) {
        Some(JsonValue::Bool(b)) => *b,
        _ => false,
    }
}

/// Every item of `items` is a JSON string.
pub open spec fn all_strings(items: Seq<Json>) -> bool {
    forall|i: int| 0 <= i < items.len() ==> (#[trigger] items[i]) is Str
}

/// The texts of a sequence of JSON strings.
pub open spec fn string_items(items: Seq<Json>) -> Seq<Seq<char>> {
    items.map_values(|j: Json| j->Str_0)
}

/// The array-of-strings argument `key`; rejected when it is absent, not an array, or
/// holds something other than a string.
pub fn extract_str_array(args: &JsonValue, key: &str) -> (r: Result<Vec<String>, AppError>)
    ensures
        array_member(args@, key@) is None ==> rejected(r, missing_array_message(key@)),
        array_member(args@, key@) is Some && !all_strings(array_member(args@, key@)->Some_0)
            ==> rejected(r, non_string_item_message(key@)),
        array_member(args@, key@) is Some && all_strings(array_member(args@, key@)->Some_0) ==> (
        r is Ok && crate::text::views_of(r->Ok_0@) == string_items(
            array_member(args@, key@)->Some_0,
        )),
{
    let values = match args.get(key) {
        Some(JsonValue::Array(items)) => items,
        _ => {
            return Err(AppError::ToolValidation(concat3("Missing required array '", key, "'")));
        },
    };
    proof {
        crate::json::lemma_items_view(values@);
    }
    let ghost iv = crate::json::items_view(values@);
    assert(array_member(args@, key@) == Some(iv));
    let mut out: Vec<String> = Vec::new();
    let mut i: usize = 0;
    while i < values.len()
        invariant
            0 <= i <= values.len(),
            iv == crate::json::items_view(values@),
            array_member(args@, key@) == Some(iv),
            iv.len() == values.len(),
            forall|k: int| 0 <= k < values.len() ==> #[trigger] iv[k] == crate::json::json_view(values@[k]),
            out.len() == i,
            forall|k: int| 0 <= k < i ==> (#[trigger] iv[k]) is Str && out@[k]@ == iv[k]->Str_0,
        decreases values.len() - i,
    {
        match &values[i] {
            JsonValue::Str(s) => {
                out.push(s.clone());
            },
            _ => {
                assert(!(iv[i as int] is Str));
                return Err(
                    AppError::ToolValidation(concat3("Every item in '", key, "' must be a string")),
                );
            },
        }
        i += 1;
    }
    assert(crate::text::views_of(out@) =~= string_items(iv));
    Ok(out)
}

/// What one rename operation of the `operations` argument holds.
pub open spec fn rename_op_of(op: Json) -> Option<(Seq<char>, Seq<char>)> {
    match (str_member(op, "old_path"@), str_member(op, "new_path"@)) {
        (Some(a), Some(b)) => Some((a, b)),
        _ => None,
    }
}

/// The error for the first malformed rename operation: a missing `old_path` is
/// reported before a missing `new_path`.
pub open spec fn rename_op_error(op: Json) -> Seq<char> {
    if str_member(op, "old_path"@) is None {
        "Each rename operation needs 'old_path'"@
    } else {
        "Each rename operation needs 'new_path'"@
    }
}

/// What reading a non-empty list of rename operations gives: every pair in order, or
/// the error of the first malformed operation.
pub open spec fn rename_ops_result(ops: Seq<Json>, r: Result<Vec<(String, String)>, AppError>) -> bool {
    match r {
        Ok(v) => v.len() == ops.len() && forall|i: int|
            0 <= i < ops.len() ==> rename_op_of(#[trigger] ops[i]) == Some(pair_views(v@)[i]),
        Err(e) => exists|i: int|
            0 <= i < ops.len() && rename_op_of(#[trigger] ops[i]) is None && (forall|j: int|
                0 <= j < i ==> rename_op_of(#[trigger] ops[j]) is Some) && e.is_validation(
                rename_op_error(ops[i]),
            ),
    }
}

/// The `operations` argument of `rename_many`: a non-empty array of objects with string
/// members `old_path` and `new_path`. The first malformed operation is reported.
pub fn extract_rename_operations(args: &JsonValue) -> (r: Result<Vec<(String, String)>, AppError>)
    ensures
        array_member(args@, "operations"@) is None ==> rejected(
            r,
            missing_array_message("operations"@),
        ),
        array_member(args@, "operations"@) is Some && array_member(args@, "operations"@)->Some_0.len()
            == 0 ==> rejected(r, "No rename operations were provided"@),
        array_member(args@, "operations"@) is Some && array_member(args@, "operations"@)->Some_0.len()
            > 0 ==> rename_ops_result(array_member(args@, "operations"@)->Some_0, r),
{
    let ops = match args.get("operations") {
        Some(JsonValue::Array(items)) => items,
        _ => {
            return Err(AppError::ToolValidation(concat3("Missing required array '", "operations", "'")));
        },
    };
    proof {
        crate::json::lemma_items_view(ops@);
    }
    let ghost iv = crate::json::items_view(ops@);
    assert(array_member(args@, "operations"@) == Some(iv));
    if ops.len() == 0 {
        return Err(AppError::ToolValidation("No rename operations were provided".to_owned()));
    }
    let mut out: Vec<(String, String)> = Vec::new();
    let mut i: usize = 0;
    while i < ops.len()
        invariant
            0 <= i <= ops.len(),
            iv == crate::json::items_view(ops@),
            array_member(args@, "operations"@) == Some(iv),
            iv.len() == ops.len(),
            forall|k: int| 0 <= k < ops.len() ==> #[trigger] iv[k] == crate::json::json_view(ops@[k]),
            out.len() == i,
            forall|k: int| 0 <= k < i ==> rename_op_of(#[trigger] iv[k]) == Some(pair_views(out@)[k]),
        decreases ops.len() - i,
    {
        let op = &ops[i];
        let old_path = match op.get("old_path") {
            Some(JsonValue::Str(s)) => s.clone(),
            _ => {
                assert(rename_op_of(iv[i as int]) is None);
                return Err(AppError::ToolValidation("Each rename operation needs 'old_path'".to_owned()));
            },
        };
        let new_path = match op.get("new_path") {
            Some(JsonValue::Str(s)) => s.clone(),
            _ => {
                assert(rename_op_of(iv[i as int]) is None);
                return Err(AppError::ToolValidation("Each rename operation needs 'new_path'".to_owned()));
            },
        };
        let ghost before = out@;
        out.push((old_path, new_path));
        assert forall|k: int| 0 <= k < i + 1 implies rename_op_of(#[trigger] iv[k]) == Some(pair_views(out@)[k]) by {
            if k < i {
                assert(out@[k] == before[k]);
            }
        }
        i += 1;
    }
    Ok(out)
}

} // verus!
