//! The JSON Schemas of the tools offered to the model.
use vstd::prelude::*;

use crate::json::{entries_view, items_view, jstr, lemma_entries_view, lemma_items_view, Json, JsonValue};
use crate::text::owned;
use crate::json::json_get;
use crate::tools::plan::{destructive, lemma_tool_names, string_keys, tool_index};
use crate::types::{Tool, ToolFunction, ToolView};

verus! {

/// A tool offered to the model: always of type `function`.
pub open spec fn offered(name: Seq<char>, description: Seq<char>, parameters: Json) -> ToolView {
    ToolView { kind: "function"@, name, description, parameters }
}

/// `{"description": d, "type": "string"}`
pub open spec fn string_param(d: Seq<char>) -> Json {
    Json::Object(seq![("description"@, Json::Str(d)), ("type"@, Json::Str("string"@))])
}

/// `{"description": d, "type": "boolean"}`
pub open spec fn bool_param(d: Seq<char>) -> Json {
    Json::Object(seq![("description"@, Json::Str(d)), ("type"@, Json::Str("boolean"@))])
}

/// `{"type": "string"}`
pub open spec fn string_items() -> Json {
    Json::Object(seq![("type"@, Json::Str("string"@))])
}

/// `{"description": d, "items": items, "type": "array"}`
pub open spec fn array_param(d: Seq<char>, items: Json) -> Json {
    Json::Object(seq![("description"@, Json::Str(d)), ("items"@, items), ("type"@, Json::Str("array"@))])
}

pub open spec fn str_items(keys: Seq<Seq<char>>) -> Seq<Json> {
    keys.map_values(|k: Seq<char>| Json::Str(k))
}

/// `{"properties": {..}, "required": [..], "type": "object"}`. Members are kept in the
/// order `serde_json` gives them, sorted by key.
pub open spec fn object_schema(props: Seq<(Seq<char>, Json)>, required: Seq<Seq<char>>) -> Json {
    Json::Object(
        seq![
            ("properties"@, Json::Object(props)),
            ("required"@, Json::Array(str_items(required))),
            ("type"@, Json::Str("object"@)),
        ],
    )
}

fn put(entries: &mut Vec<(String, JsonValue)>, key: &str, value: JsonValue)
    ensures
        entries_view(final(entries)@) == entries_view(old(entries)@).push((key@, value@)),
{
    let ghost before = old(entries)@;
    entries.push((owned(key), value));
    proof {
        lemma_entries_view(before);
        lemma_entries_view(entries@);
        assert(entries_view(entries@) =~= entries_view(before).push((key@, value@)));
    }
}

fn put_item(items: &mut Vec<JsonValue>, value: JsonValue)
    ensures
        items_view(final(items)@) == items_view(old(items)@).push(value@),
{
    let ghost before = old(items)@;
    items.push(value);
    proof {
        lemma_items_view(before);
        lemma_items_view(items@);
        assert(items_view(items@) =~= items_view(before).push(value@));
    }
}

fn make_string_param(d: &str) -> (r: JsonValue)
    ensures
        r@ == string_param(d@),
{
    let mut e: Vec<(String, JsonValue)> = Vec::new();
    put(&mut e, "description", jstr(d));
    put(&mut e, "type", jstr("string"));
    assert(entries_view(e@) =~= seq![("description"@, Json::Str(d@)), ("type"@, Json::Str("string"@))]);
    JsonValue::Object(e)
}

fn make_bool_param(d: &str) -> (r: JsonValue)
    ensures
        r@ == bool_param(d@),
{
    let mut e: Vec<(String, JsonValue)> = Vec::new();
    put(&mut e, "description", jstr(d));
    put(&mut e, "type", jstr("boolean"));
    assert(entries_view(e@) =~= seq![("description"@, Json::Str(d@)), ("type"@, Json::Str("boolean"@))]);
    JsonValue::Object(e)
}

fn make_string_items() -> (r: JsonValue)
    ensures
        r@ == string_items(),
{
    let mut e: Vec<(String, JsonValue)> = Vec::new();
    put(&mut e, "type", jstr("string"));
    JsonValue::Object(e)
}

fn make_array_param(d: &str, items: JsonValue) -> (r: JsonValue)
    ensures
        r@ == array_param(d@, items@),
{
    let mut e: Vec<(String, JsonValue)> = Vec::new();
    put(&mut e, "description", jstr(d));
    put(&mut e, "items", items);
    put(&mut e, "type", jstr("array"));
    assert(entries_view(e@) =~= seq![
        ("description"@, Json::Str(d@)),
        ("items"@, items@),
        ("type"@, Json::Str("array"@)),
    ]);
    JsonValue::Object(e)
}

fn make_schema(props: Vec<(String, JsonValue)>, required: Vec<JsonValue>) -> (r: JsonValue)
    ensures
        r@ == Json::Object(
            seq![
                ("properties"@, Json::Object(entries_view(props@))),
                ("required"@, Json::Array(items_view(required@))),
                ("type"@, Json::Str("object"@)),
            ],
        ),
{
    let ghost pv = entries_view(props@);
    let ghost rv = items_view(required@);
    let mut e: Vec<(String, JsonValue)> = Vec::new();
    put(&mut e, "properties", JsonValue::Object(props));
    put(&mut e, "required", JsonValue::Array(required));
    put(&mut e, "type", jstr("object"));
    assert(entries_view(e@) =~= seq![
        ("properties"@, Json::Object(pv)),
        ("required"@, Json::Array(rv)),
        ("type"@, Json::Str("object"@)),
    ]);
    JsonValue::Object(e)
}

fn props1(k1: &str, v1: JsonValue) -> (r: Vec<(String, JsonValue)>)
    ensures
        entries_view(r@) == seq![(k1@, v1@)],
{
    let mut e: Vec<(String, JsonValue)> = Vec::new();
    put(&mut e, k1, v1);
    e
}

fn props2(k1: &str, v1: JsonValue, k2: &str, v2: JsonValue) -> (r: Vec<(String, JsonValue)>)
    ensures
        entries_view(r@) == seq![(k1@, v1@), (k2@, v2@)],
{
    let mut e = props1(k1, v1);
    put(&mut e, k2, v2);
    e
}

fn props3(k1: &str, v1: JsonValue, k2: &str, v2: JsonValue, k3: &str, v3: JsonValue) -> (r: Vec<
    (String, JsonValue),
>)
    ensures
        entries_view(r@) == seq![(k1@, v1@), (k2@, v2@), (k3@, v3@)],
{
    let mut e = props2(k1, v1, k2, v2);
    put(&mut e, k3, v3);
    e
}

fn props4(
    k1: &str,
    v1: JsonValue,
    k2: &str,
    v2: JsonValue,
    k3: &str,
    v3: JsonValue,
    k4: &str,
    v4: JsonValue,
) -> (r: Vec<(String, JsonValue)>)
    ensures
        entries_view(r@) == seq![(k1@, v1@), (k2@, v2@), (k3@, v3@), (k4@, v4@)],
{
    let mut e = props3(k1, v1, k2, v2, k3, v3);
    put(&mut e, k4, v4);
    e
}

fn required1(a: &str) -> (r: Vec<JsonValue>)
    ensures
        items_view(r@) == str_items(seq![a@]),
{
    let mut v: Vec<JsonValue> = Vec::new();
    put_item(&mut v, jstr(a));
    assert(str_items(seq![a@]) =~= seq![Json::Str(a@)]);
    v
}

fn required2(a: &str, b: &str) -> (r: Vec<JsonValue>)
    ensures
        items_view(r@) == str_items(seq![a@, b@]),
{
    let mut v: Vec<JsonValue> = Vec::new();
    put_item(&mut v, jstr(a));
    put_item(&mut v, jstr(b));
    assert(str_items(seq![a@, b@]) =~= seq![Json::Str(a@), Json::Str(b@)]);
    v
}

fn required3(a: &str, b: &str, c: &str) -> (r: Vec<JsonValue>)
    ensures
        items_view(r@) == str_items(seq![a@, b@, c@]),
{
    let mut v: Vec<JsonValue> = Vec::new();
    put_item(&mut v, jstr(a));
    put_item(&mut v, jstr(b));
    put_item(&mut v, jstr(c));
    assert(str_items(seq![a@, b@, c@]) =~= seq![Json::Str(a@), Json::Str(b@), Json::Str(c@)]);
    v
}

fn offer(name: &str, description: &str, parameters: JsonValue) -> (r: Tool)
    ensures
        r@ == offered(name@, description@, parameters@),
{
    Tool {
        kind: owned("function"),
        function: ToolFunction { name: owned(name), description: owned(description), parameters },
    }
}

/// The tools the model is offered, in order: name, description and parameter schema.
pub open spec fn tool_spec(i: int) -> ToolView {
    if i == 0 {
        offered(
            "list_files"@,
            "Read-only. List the immediate contents (files and directories) of a single directory. NOT recursive — to find files in subdirectories or by extension, use `find_files` instead."@,
            object_schema(
                seq![
                    ("path"@, string_param("Required. Relative path of the directory to list. Use '.' for the working directory root, or a subpath like 'src' or 'src/utils'. Never leave this empty."@)),
                ],
                seq!["path"@],
            ),
        )
    } else if i == 1 {
        offered(
            "read_file"@,
            "Read-only. Return the full text contents of a single file."@,
            object_schema(
                seq![
                    ("path"@, string_param("Path to the file. Prefer relative paths (e.g. 'src/main.rs'). Relative paths are resolved against the working directory."@)),
                ],
                seq!["path"@],
            ),
        )
    } else if i == 2 {
        offered(
            "read_pdf"@,
            "Read-only. Extract and return the text content of a PDF file."@,
            object_schema(
                seq![
                    ("path"@, string_param("Path to the PDF file. Prefer relative paths (e.g. 'docs/report.pdf'). Relative paths are resolved against the working directory."@)),
                ],
                seq!["path"@],
            ),
        )
    } else if i == 3 {
        offered(
            "create_file"@,
            "Create a NEW file with the given content. Fails if the file already exists. Use ONLY when the user has asked to create a file."@,
            object_schema(
                seq![
                    ("content"@, string_param("Content to write into the file"@)),
                    ("path"@, string_param("Path for the new file. Prefer relative paths (e.g. 'notes.txt'). Relative paths are resolved against the working directory."@)),
                ],
                seq!["path"@, "content"@],
            ),
        )
    } else if i == 4 {
        offered(
            "edit_file"@,
            "Overwrite an existing file's ENTIRE content. Destructive — discards everything currently in the file. Prefer `patch_file` for small targeted changes; only use `edit_file` when the user explicitly asks to rewrite the whole file or when `patch_file` cannot be used. Use ONLY when the user has asked to modify this file."@,
            object_schema(
                seq![
                    ("content"@, string_param("New content for the file"@)),
                    ("path"@, string_param("Path to the file to overwrite. Prefer relative paths (e.g. 'src/config.rs'). Relative paths are resolved against the working directory."@)),
                ],
                seq!["path"@, "content"@],
            ),
        )
    } else if i == 5 {
        offered(
            "delete_file"@,
            "Delete a single file or directory. Destructive and irreversible. Use ONLY when the user has explicitly asked to delete this exact path. Never call to 'clean up', 'tidy', or remove files the user did not name."@,
            object_schema(
                seq![
                    ("path"@, string_param("Path to the file or directory to delete. Prefer relative paths. Relative paths are resolved against the working directory."@)),
                ],
                seq!["path"@],
            ),
        )
    } else if i == 6 {
        offered(
            "delete_many"@,
            "Delete multiple explicit files or directories in one confirmed batch. Destructive and irreversible. Use ONLY when the user has explicitly listed several paths to delete; prefer this over repeated `delete_file` calls in that case."@,
            object_schema(
                seq![
                    ("paths"@, array_param("Paths to delete. Prefer relative paths. Every path is resolved against the working directory and validated before execution."@, string_items())),
                ],
                seq!["paths"@],
            ),
        )
    } else if i == 7 {
        offered(
            "rename_file"@,
            "Rename or move a single file or directory. Use ONLY when the user has explicitly asked to rename or move this path."@,
            object_schema(
                seq![
                    ("new_path"@, string_param("New path (relative or absolute within working directory)"@)),
                    ("old_path"@, string_param("Current path (relative or absolute within working directory)"@)),
                ],
                seq!["old_path"@, "new_path"@],
            ),
        )
    } else if i == 8 {
        offered(
            "rename_many"@,
            "Rename or move multiple explicit files/directories in one confirmed batch. Fails before changing anything if a destination already exists or is duplicated. Use ONLY when the user has explicitly listed several rename/move operations."@,
            object_schema(
                seq![
                    ("operations"@, array_param("Rename/move operations to perform."@, object_schema(
                        seq![
                            ("new_path"@, string_param("Destination path within the working directory"@)),
                            ("old_path"@, string_param("Current path within the working directory"@)),
                        ],
                        seq!["old_path"@, "new_path"@],
                    ))),
                ],
                seq!["operations"@],
            ),
        )
    } else if i == 9 {
        offered(
            "delete_matching"@,
            "Delete files whose filename matches a regex under a directory, in one confirmed batch. Destructive and irreversible. Files only; directories are not deleted. Use ONLY when the user has explicitly asked to delete files by pattern (e.g. the user said 'delete all .tmp files'). NEVER use to enumerate, count, or analyze files — for that use `find_files`."@,
            object_schema(
                seq![
                    ("filename_regex"@, string_param("Regex applied to each filename, e.g. '\\\\.md$'."@)),
                    ("path"@, string_param("Directory to scan. Prefer a relative path."@)),
                    ("recursive"@, bool_param("Whether to scan subdirectories. Defaults to false."@)),
                ],
                seq!["path"@, "filename_regex"@],
            ),
        )
    } else if i == 10 {
        offered(
            "rename_matching"@,
            "Bulk rename files whose filename matches a regex under a directory. The replacement is applied to filenames only, not full paths. Fails before changing anything if a destination exists or is duplicated. Use ONLY when the user has explicitly asked to rename files by pattern."@,
            object_schema(
                seq![
                    ("filename_regex"@, string_param("Regex applied to each filename, e.g. '\\\\s+' or '\\\\.jpeg$'."@)),
                    ("path"@, string_param("Directory to scan. Prefer a relative path."@)),
                    ("recursive"@, bool_param("Whether to scan subdirectories. Defaults to false."@)),
                    ("replacement"@, string_param("Regex replacement for the filename, e.g. '_' or '.jpg'."@)),
                ],
                seq!["path"@, "filename_regex"@, "replacement"@],
            ),
        )
    } else if i == 11 {
        offered(
            "create_directory"@,
            "Create a new directory. Parent directories are created as needed. Fails if the path already exists. Use ONLY when the user has asked to create a directory."@,
            object_schema(
                seq![
                    ("path"@, string_param("Path for the new directory. Prefer relative paths (e.g. 'src/utils'). Relative paths are resolved against the working directory."@)),
                ],
                seq!["path"@],
            ),
        )
    } else if i == 12 {
        offered(
            "copy_file"@,
            "Copy a single file to a new location. Fails if the destination already exists. Use ONLY when the user has asked to copy a file."@,
            object_schema(
                seq![
                    ("destination"@, string_param("Destination file path (relative or absolute within working directory)"@)),
                    ("source"@, string_param("Source file path (relative or absolute within working directory)"@)),
                ],
                seq!["source"@, "destination"@],
            ),
        )
    } else if i == 13 {
        offered(
            "find_files"@,
            "Read-only. Find files under a directory, optionally filtered by a filename regex. Returns matching file paths (capped at 200). Use this whenever you need to list, count, enumerate, or categorize files. To get EVERY file (e.g. for a filetype breakdown of the whole repo), call with `path: '.'`, `recursive: true`, and OMIT `filename_regex` (it defaults to matching all files). Skips hidden directories and build artifacts."@,
            object_schema(
                seq![
                    ("filename_regex"@, string_param("Optional. Regex applied to each filename (not the full path), e.g. '\\\\.md$' for .md files or '^README' for README files. Omit this argument entirely to match ALL files."@)),
                    ("path"@, string_param("Required. Relative directory to search under. Use '.' to scan the entire working directory, or a subpath like 'src'."@)),
                    ("recursive"@, bool_param("Whether to scan subdirectories. Set to true to search the whole tree (use this when the user asks about the 'repo', 'project', or 'all files'). Defaults to false."@)),
                ],
                seq!["path"@],
            ),
        )
    } else if i == 14 {
        offered(
            "search_in_files"@,
            "Read-only. Search for a regex pattern inside the CONTENTS of files under a directory (grep-style). Returns matching lines with file paths and line numbers. For finding files by NAME or extension, use `find_files` instead. Skips hidden directories and build artifacts."@,
            object_schema(
                seq![
                    ("path"@, string_param("Required. Relative directory to search under. Use '.' to scan the entire working directory, or a subpath like 'src'."@)),
                    ("pattern"@, string_param("Regex pattern to search for in file contents (e.g. 'fn main', 'TODO', 'error\\(')"@)),
                ],
                seq!["path"@, "pattern"@],
            ),
        )
    } else if i == 15 {
        offered(
            "patch_file"@,
            "Replace a specific text occurrence inside an existing file. The `search` text must appear EXACTLY ONCE in the file — fails on 0 or multiple matches. Preferred over `edit_file` for small targeted changes. Use ONLY when the user has asked to modify this file."@,
            object_schema(
                seq![
                    ("path"@, string_param("Path to the file to patch. Prefer relative paths."@)),
                    ("replace"@, string_param("Replacement text."@)),
                    ("search"@, string_param("Exact text to find. Must appear exactly once in the file."@)),
                ],
                seq!["path"@, "search"@, "replace"@],
            ),
        )
    } else {
        offered(Seq::empty(), Seq::empty(), Json::Null)
    }
}

fn list_files_tool() -> (r: Tool)
    ensures
        r@ == tool_spec(0),
{
    offer(
        "list_files",
        "Read-only. List the immediate contents (files and directories) of a single directory. NOT recursive — to find files in subdirectories or by extension, use `find_files` instead.",
        make_schema(
            props1(
                "path",
                make_string_param("Required. Relative path of the directory to list. Use '.' for the working directory root, or a subpath like 'src' or 'src/utils'. Never leave this empty."),
            ),
            required1("path"),
        ),
    )
}

fn read_file_tool() -> (r: Tool)
    ensures
        r@ == tool_spec(1),
{
    offer(
        "read_file",
        "Read-only. Return the full text contents of a single file.",
        make_schema(
            props1(
                "path",
                make_string_param("Path to the file. Prefer relative paths (e.g. 'src/main.rs'). Relative paths are resolved against the working directory."),
            ),
            required1("path"),
        ),
    )
}

fn read_pdf_tool() -> (r: Tool)
    ensures
        r@ == tool_spec(2),
{
    offer(
        "read_pdf",
        "Read-only. Extract and return the text content of a PDF file.",
        make_schema(
            props1(
                "path",
                make_string_param("Path to the PDF file. Prefer relative paths (e.g. 'docs/report.pdf'). Relative paths are resolved against the working directory."),
            ),
            required1("path"),
        ),
    )
}

fn create_file_tool() -> (r: Tool)
    ensures
        r@ == tool_spec(3),
{
    offer(
        "create_file",
        "Create a NEW file with the given content. Fails if the file already exists. Use ONLY when the user has asked to create a file.",
        make_schema(
            props2(
                "content",
                make_string_param("Content to write into the file"),
                "path",
                make_string_param("Path for the new file. Prefer relative paths (e.g. 'notes.txt'). Relative paths are resolved against the working directory."),
            ),
            required2("path", "content"),
        ),
    )
}

fn edit_file_tool() -> (r: Tool)
    ensures
        r@ == tool_spec(4),
{
    offer(
        "edit_file",
        "Overwrite an existing file's ENTIRE content. Destructive — discards everything currently in the file. Prefer `patch_file` for small targeted changes; only use `edit_file` when the user explicitly asks to rewrite the whole file or when `patch_file` cannot be used. Use ONLY when the user has asked to modify this file.",
        make_schema(
            props2(
                "content",
                make_string_param("New content for the file"),
                "path",
                make_string_param("Path to the file to overwrite. Prefer relative paths (e.g. 'src/config.rs'). Relative paths are resolved against the working directory."),
            ),
            required2("path", "content"),
        ),
    )
}

fn delete_file_tool() -> (r: Tool)
    ensures
        r@ == tool_spec(5),
{
    offer(
        "delete_file",
        "Delete a single file or directory. Destructive and irreversible. Use ONLY when the user has explicitly asked to delete this exact path. Never call to 'clean up', 'tidy', or remove files the user did not name.",
        make_schema(
            props1(
                "path",
                make_string_param("Path to the file or directory to delete. Prefer relative paths. Relative paths are resolved against the working directory."),
            ),
            required1("path"),
        ),
    )
}

fn delete_many_tool() -> (r: Tool)
    ensures
        r@ == tool_spec(6),
{
    offer(
        "delete_many",
        "Delete multiple explicit files or directories in one confirmed batch. Destructive and irreversible. Use ONLY when the user has explicitly listed several paths to delete; prefer this over repeated `delete_file` calls in that case.",
        make_schema(
            props1(
                "paths",
                make_array_param(
                    "Paths to delete. Prefer relative paths. Every path is resolved against the working directory and validated before execution.",
                    make_string_items(),
                ),
            ),
            required1("paths"),
        ),
    )
}

fn rename_file_tool() -> (r: Tool)
    ensures
        r@ == tool_spec(7),
{
    offer(
        "rename_file",
        "Rename or move a single file or directory. Use ONLY when the user has explicitly asked to rename or move this path.",
        make_schema(
            props2(
                "new_path",
                make_string_param("New path (relative or absolute within working directory)"),
                "old_path",
                make_string_param("Current path (relative or absolute within working directory)"),
            ),
            required2("old_path", "new_path"),
        ),
    )
}

fn rename_many_tool() -> (r: Tool)
    ensures
        r@ == tool_spec(8),
{
    offer(
        "rename_many",
        "Rename or move multiple explicit files/directories in one confirmed batch. Fails before changing anything if a destination already exists or is duplicated. Use ONLY when the user has explicitly listed several rename/move operations.",
        make_schema(
            props1(
                "operations",
                make_array_param(
                    "Rename/move operations to perform.",
                    make_schema(
                        props2(
                            "new_path",
                            make_string_param("Destination path within the working directory"),
                            "old_path",
                            make_string_param("Current path within the working directory"),
                        ),
                        required2("old_path", "new_path"),
                    ),
                ),
            ),
            required1("operations"),
        ),
    )
}

fn delete_matching_tool() -> (r: Tool)
    ensures
        r@ == tool_spec(9),
{
    offer(
        "delete_matching",
        "Delete files whose filename matches a regex under a directory, in one confirmed batch. Destructive and irreversible. Files only; directories are not deleted. Use ONLY when the user has explicitly asked to delete files by pattern (e.g. the user said 'delete all .tmp files'). NEVER use to enumerate, count, or analyze files — for that use `find_files`.",
        make_schema(
            props3(
                "filename_regex",
                make_string_param("Regex applied to each filename, e.g. '\\\\.md$'."),
                "path",
                make_string_param("Directory to scan. Prefer a relative path."),
                "recursive",
                make_bool_param("Whether to scan subdirectories. Defaults to false."),
            ),
            required2("path", "filename_regex"),
        ),
    )
}

fn rename_matching_tool() -> (r: Tool)
    ensures
        r@ == tool_spec(10),
{
    offer(
        "rename_matching",
        "Bulk rename files whose filename matches a regex under a directory. The replacement is applied to filenames only, not full paths. Fails before changing anything if a destination exists or is duplicated. Use ONLY when the user has explicitly asked to rename files by pattern.",
        make_schema(
            props4(
                "filename_regex",
                make_string_param("Regex applied to each filename, e.g. '\\\\s+' or '\\\\.jpeg$'."),
                "path",
                make_string_param("Directory to scan. Prefer a relative path."),
                "recursive",
                make_bool_param("Whether to scan subdirectories. Defaults to false."),
                "replacement",
                make_string_param("Regex replacement for the filename, e.g. '_' or '.jpg'."),
            ),
            required3("path", "filename_regex", "replacement"),
        ),
    )
}

fn create_directory_tool() -> (r: Tool)
    ensures
        r@ == tool_spec(11),
{
    offer(
        "create_directory",
        "Create a new directory. Parent directories are created as needed. Fails if the path already exists. Use ONLY when the user has asked to create a directory.",
        make_schema(
            props1(
                "path",
                make_string_param("Path for the new directory. Prefer relative paths (e.g. 'src/utils'). Relative paths are resolved against the working directory."),
            ),
            required1("path"),
        ),
    )
}

fn copy_file_tool() -> (r: Tool)
    ensures
        r@ == tool_spec(12),
{
    offer(
        "copy_file",
        "Copy a single file to a new location. Fails if the destination already exists. Use ONLY when the user has asked to copy a file.",
        make_schema(
            props2(
                "destination",
                make_string_param("Destination file path (relative or absolute within working directory)"),
                "source",
                make_string_param("Source file path (relative or absolute within working directory)"),
            ),
            required2("source", "destination"),
        ),
    )
}

fn find_files_tool() -> (r: Tool)
    ensures
        r@ == tool_spec(13),
{
    offer(
        "find_files",
        "Read-only. Find files under a directory, optionally filtered by a filename regex. Returns matching file paths (capped at 200). Use this whenever you need to list, count, enumerate, or categorize files. To get EVERY file (e.g. for a filetype breakdown of the whole repo), call with `path: '.'`, `recursive: true`, and OMIT `filename_regex` (it defaults to matching all files). Skips hidden directories and build artifacts.",
        make_schema(
            props3(
                "filename_regex",
                make_string_param("Optional. Regex applied to each filename (not the full path), e.g. '\\\\.md$' for .md files or '^README' for README files. Omit this argument entirely to match ALL files."),
                "path",
                make_string_param("Required. Relative directory to search under. Use '.' to scan the entire working directory, or a subpath like 'src'."),
                "recursive",
                make_bool_param("Whether to scan subdirectories. Set to true to search the whole tree (use this when the user asks about the 'repo', 'project', or 'all files'). Defaults to false."),
            ),
            required1("path"),
        ),
    )
}

fn search_in_files_tool() -> (r: Tool)
    ensures
        r@ == tool_spec(14),
{
    offer(
        "search_in_files",
        "Read-only. Search for a regex pattern inside the CONTENTS of files under a directory (grep-style). Returns matching lines with file paths and line numbers. For finding files by NAME or extension, use `find_files` instead. Skips hidden directories and build artifacts.",
        make_schema(
            props2(
                "path",
                make_string_param("Required. Relative directory to search under. Use '.' to scan the entire working directory, or a subpath like 'src'."),
                "pattern",
                make_string_param("Regex pattern to search for in file contents (e.g. 'fn main', 'TODO', 'error\\(')"),
            ),
            required2("path", "pattern"),
        ),
    )
}

fn patch_file_tool() -> (r: Tool)
    ensures
        r@ == tool_spec(15),
{
    offer(
        "patch_file",
        "Replace a specific text occurrence inside an existing file. The `search` text must appear EXACTLY ONCE in the file — fails on 0 or multiple matches. Preferred over `edit_file` for small targeted changes. Use ONLY when the user has asked to modify this file.",
        make_schema(
            props3(
                "path",
                make_string_param("Path to the file to patch. Prefer relative paths."),
                "replace",
                make_string_param("Replacement text."),
                "search",
                make_string_param("Exact text to find. Must appear exactly once in the file."),
            ),
            required3("path", "search", "replace"),
        ),
    )
}

/// The tools offered to the model with every request, in a fixed order.
pub fn tool_definitions() -> (r: Vec<Tool>)
    ensures
        r.len() == 16,
        forall|i: int| 0 <= i < 16 ==> (#[trigger] r@[i])@ == tool_spec(i),
{
    let mut tools: Vec<Tool> = Vec::new();
    tools.push(list_files_tool());
    tools.push(read_file_tool());
    tools.push(read_pdf_tool());
    tools.push(create_file_tool());
    tools.push(edit_file_tool());
    tools.push(delete_file_tool());
    tools.push(delete_many_tool());
    tools.push(rename_file_tool());
    tools.push(rename_many_tool());
    tools.push(delete_matching_tool());
    tools.push(rename_matching_tool());
    tools.push(create_directory_tool());
    tools.push(copy_file_tool());
    tools.push(find_files_tool());
    tools.push(search_in_files_tool());
    tools.push(patch_file_tool());
    tools
}

/// The names a schema lists under `required`.
pub open spec fn schema_required(schema: Json) -> Seq<Json> {
    match json_get(schema, "required"@) {
        Some(Json::Array(items)) => items,
        _ => Seq::empty(),
    }
}

/// The arguments a tool call cannot do without: the string arguments whose absence gets
/// it refused, or the one array that `delete_many` and `rename_many` read.
pub open spec fn needed_arguments(name: Seq<char>) -> Set<Seq<char>> {
    if tool_index(name) == 6 {
        set!["paths"@]
    } else if tool_index(name) == 8 {
        set!["operations"@]
    } else {
        string_keys(name).to_set()
    }
}

/// The arguments each offered tool's schema marks as required, in schema order.
pub open spec fn schema_keys(i: int) -> Seq<Seq<char>> {
    if i == 0 {
        seq!["path"@]
    } else if i == 1 {
        seq!["path"@]
    } else if i == 2 {
        seq!["path"@]
    } else if i == 3 {
        seq!["path"@, "content"@]
    } else if i == 4 {
        seq!["path"@, "content"@]
    } else if i == 5 {
        seq!["path"@]
    } else if i == 6 {
        seq!["paths"@]
    } else if i == 7 {
        seq!["old_path"@, "new_path"@]
    } else if i == 8 {
        seq!["operations"@]
    } else if i == 9 {
        seq!["path"@, "filename_regex"@]
    } else if i == 10 {
        seq!["path"@, "filename_regex"@, "replacement"@]
    } else if i == 11 {
        seq!["path"@]
    } else if i == 12 {
        seq!["source"@, "destination"@]
    } else if i == 13 {
        seq!["path"@]
    } else if i == 14 {
        seq!["path"@, "pattern"@]
    } else if i == 15 {
        seq!["path"@, "search"@, "replace"@]
    } else {
        Seq::empty()
    }
}

proof fn lemma_schema_required(i: int)
    requires
        0 <= i < 16,
    ensures
        schema_required(tool_spec(i).parameters) == str_items(schema_keys(i)),
{
    reveal_strlit("properties");
    reveal_strlit("required");
    assert("properties"@[0] != "required"@[0]);
    assert("properties"@ != "required"@);
    reveal_with_fuel(crate::json::entries_get, 3);
    let p = tool_spec(i).parameters;
    let entries = p->Object_0;
    assert(entries[0].0 == "properties"@);
    assert(entries.drop_first()[0].0 == "required"@);
}

proof fn lemma_str_items_contains(keys: Seq<Seq<char>>, k: Seq<char>)
    ensures
        str_items(keys).contains(Json::Str(k)) <==> keys.contains(k),
{
    if keys.contains(k) {
        let j = choose|j: int| 0 <= j < keys.len() && keys[j] == k;
        assert(str_items(keys)[j] == Json::Str(k));
    }
    if str_items(keys).contains(Json::Str(k)) {
        let j = choose|j: int| 0 <= j < str_items(keys).len() && str_items(keys)[j] == Json::Str(k);
        assert(keys[j] == k);
    }
}

/// Every tool offered to the model is one the dispatcher carries out, and its schema
/// marks as required exactly the arguments whose absence gets a call of it refused.
pub proof fn lemma_schemas_match_dispatch(i: int)
    requires
        0 <= i < 16,
    ensures
        tool_index(tool_spec(i).name) == i,
        forall|k: Seq<char>|
            #[trigger] needed_arguments(tool_spec(i).name).contains(k) <==> schema_required(
                tool_spec(i).parameters,
            ).contains(Json::Str(k)),
{
    lemma_tool_names();
    lemma_schema_required(i);
    let name = tool_spec(i).name;
    assert forall|k: Seq<char>| #[trigger] needed_arguments(name).contains(k) <==> schema_required(
        tool_spec(i).parameters,
    ).contains(Json::Str(k)) by {
        lemma_str_items_contains(schema_keys(i), k);
        let keys = string_keys(name);
        let sk = schema_keys(i);
        if keys.contains(k) {
            let j = choose|j: int| 0 <= j < keys.len() && keys[j] == k;
            assert(keys[j] == k);
        }
        if sk.contains(k) {
            let j = choose|j: int| 0 <= j < sk.len() && sk[j] == k;
            assert(sk[j] == k);
        }
        if i != 6 && i != 8 {
            assert(keys.len() <= 3);
            assert(sk.len() <= 3);
            if keys.len() >= 1 { assert(sk.contains(keys[0])); }
            if keys.len() >= 2 { assert(sk.contains(keys[1])); }
            if keys.len() >= 3 { assert(sk.contains(keys[2])); }
            if sk.len() >= 1 { assert(keys.contains(sk[0])); }
            if sk.len() >= 2 { assert(keys.contains(sk[1])); }
            if sk.len() >= 3 { assert(keys.contains(sk[2])); }
        } else {
            assert(sk.contains(sk[0]));
        }
    }
}

/// The tool list is well formed: every entry is a `function`, no two entries share a
/// name, and every destructive tool is offered.
pub proof fn lemma_tool_list_well_formed()
    ensures
        forall|i: int| 0 <= i < 16 ==> (#[trigger] tool_spec(i)).kind == "function"@,
        forall|i: int, j: int|
            0 <= i < 16 && 0 <= j < 16 && #[trigger] tool_spec(i).name == #[trigger] tool_spec(j).name
                ==> i == j,
        forall|n: Seq<char>|
            #[trigger] destructive(n) ==> exists|i: int| 0 <= i < 16 && #[trigger] tool_spec(i).name == n,
{
    assert forall|i: int, j: int|
        0 <= i < 16 && 0 <= j < 16 && #[trigger] tool_spec(i).name == #[trigger] tool_spec(j).name
            implies i == j by {
        lemma_schemas_match_dispatch(i);
        lemma_schemas_match_dispatch(j);
    }
    assert forall|n: Seq<char>| #[trigger] destructive(n) implies exists|i: int|
        0 <= i < 16 && #[trigger] tool_spec(i).name == n by {
        lemma_tool_names();
        let k = tool_index(n);
        lemma_schemas_match_dispatch(k);
        assert(tool_spec(k).name == n);
    }
}

} // verus!
