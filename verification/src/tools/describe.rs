//! Human-readable descriptions of tool calls, for the chat log and the confirmation dialog.
use vstd::prelude::*;

use crate::json::{array_member, str_member, Json, JsonValue};
use crate::text::{bool_text, chars_of, decimal, join, join_with, str_eq, views_of};
use crate::types::FunctionCall;

verus! {

/// How one character is shown: a newline becomes `↵`, a tab a space.
pub open spec fn flatten_char(c: char) -> char {
    if c == '\n' {
        '↵'
    } else if c == '\t' {
        ' '
    } else {
        c
    }
}

pub open spec fn flattened(s: Seq<char>) -> Seq<char> {
    s.map_values(|c: char| flatten_char(c))
}

/// `s` flattened to one line and cut to at most `max` characters; a cut string ends in `…`.
pub open spec fn truncated(s: Seq<char>, max: nat) -> Seq<char> {
    let f = flattened(s);
    if f.len() <= max {
        f
    } else {
        f.take(if max == 0 { 0 } else { max - 1 }).push('…')
    }
}

/// Render a string for the confirmation popup: collapse newlines into a glyph
/// and cap the visible length so the dialog stays readable.
pub fn truncate_for_display(s: &str, max_chars: usize) -> (r: String)
    ensures
        r@ == truncated(s@, max_chars as nat),
{
    let v = chars_of(s);
    let n = v.len();
    let keep = if n <= max_chars {
        n
    } else if max_chars == 0 {
        0
    } else {
        max_chars - 1
    };
    let ghost f = flattened(s@);
    let mut out = String::new();
    let mut i: usize = 0;
    while i < keep
        invariant
            keep <= n == v.len(),
            v@ == s@,
            f == flattened(s@),
            0 <= i <= keep,
            out@ == f.take(i as int),
        decreases keep - i,
    {
        let c = v[i];
        let shown = if c == '\n' {
            '↵'
        } else if c == '\t' {
            ' '
        } else {
            c
        };
        out.push(shown);
        assert(f.take(i + 1) == f.take(i as int).push(f[i as int]));
        i += 1;
    }
    if n > max_chars {
        out.push('…');
    } else {
        assert(f.take(n as int) == f);
    }
    out
}

/// `- ... and {n} more`, the line that closes a shortened list.
pub open spec fn more_line(n: nat) -> Seq<char> {
    "- ... and "@ + decimal(n) + " more"@
}

pub open spec fn path_line(p: Seq<char>) -> Seq<char> {
    "- "@ + truncated(p, 120)
}

pub open spec fn rename_line(op: (Seq<char>, Seq<char>)) -> Seq<char> {
    "- "@ + truncated(op.0, 80) + " → "@ + truncated(op.1, 80)
}

/// The first `max` lines, then a closing line when lines were left out.
pub open spec fn capped_lines(lines: Seq<Seq<char>>, max: nat) -> Seq<Seq<char>> {
    if lines.len() > max {
        lines.take(max as int).push(more_line((lines.len() - max) as nat))
    } else {
        lines
    }
}

pub open spec fn path_preview(paths: Seq<Seq<char>>, max: nat) -> Seq<char> {
    join_with(capped_lines(paths.map_values(|p: Seq<char>| path_line(p)), max), "\n"@)
}

pub open spec fn rename_preview(ops: Seq<(Seq<char>, Seq<char>)>, max: nat) -> Seq<char> {
    join_with(
        capped_lines(ops.map_values(|op: (Seq<char>, Seq<char>)| rename_line(op)), max),
        "\n"@,
    )
}

pub open spec fn pair_views(v: Seq<(String, String)>) -> Seq<(Seq<char>, Seq<char>)> {
    v.map_values(|p: (String, String)| (p.0@, p.1@))
}

/// Appends `- ... and {n} more` when `total` exceeds `max`.
fn push_more_line(lines: &mut Vec<String>, total: usize, max: usize)
    requires
        total > max,
    ensures
        views_of(final(lines)@) == views_of(old(lines)@).push(more_line((total - max) as nat)),
{
    let mut line = String::from_str("- ... and ");
    crate::text::push_decimal((total - max) as u64, &mut line);
    line.append(" more");
    let ghost before = views_of(lines@);
    lines.push(line);
    assert(views_of(lines@) =~= before.push(more_line((total - max) as nat)));
}

/// A bulleted preview of at most `max_items` paths, each cut to 120 characters.
pub fn preview_paths(paths: &[String], max_items: usize) -> (r: String)
    ensures
        r@ == path_preview(views_of(paths@), max_items as nat),
{
    let ghost all = views_of(paths@).map_values(|p: Seq<char>| path_line(p));
    let mut lines: Vec<String> = Vec::new();
    let mut i: usize = 0;
    while i < paths.len() && i < max_items
        invariant
            0 <= i <= paths.len(),
            i <= max_items,
            all == views_of(paths@).map_values(|p: Seq<char>| path_line(p)),
            views_of(lines@) == all.take(i as int),
        decreases paths.len() - i,
    {
        let mut line = String::from_str("- ");
        let shown = truncate_for_display(paths[i].as_str(), 120);
        line.append(shown.as_str());
        assert(line@ == all[i as int]);
        let ghost before = views_of(lines@);
        lines.push(line);
        assert(views_of(lines@) =~= before.push(all[i as int]));
        assert(all.take(i + 1) =~= all.take(i as int).push(all[i as int]));
        i += 1;
    }
    if paths.len() > max_items {
        push_more_line(&mut lines, paths.len(), max_items);
    } else {
        assert(all.take(i as int) =~= all);
    }
    join(&lines, "\n")
}

/// A bulleted preview of at most `max_items` renames, each side cut to 80 characters.
pub fn preview_renames(operations: &[(String, String)], max_items: usize) -> (r: String)
    ensures
        r@ == rename_preview(pair_views(operations@), max_items as nat),
{
    let ghost all = pair_views(operations@).map_values(
        |op: (Seq<char>, Seq<char>)| rename_line(op),
    );
    let mut lines: Vec<String> = Vec::new();
    let mut i: usize = 0;
    while i < operations.len() && i < max_items
        invariant
            0 <= i <= operations.len(),
            i <= max_items,
            all == pair_views(operations@).map_values(
                |op: (Seq<char>, Seq<char>)| rename_line(op),
            ),
            views_of(lines@) == all.take(i as int),
        decreases operations.len() - i,
    {
        let mut line = String::from_str("- ");
        let from = truncate_for_display(operations[i].0.as_str(), 80);
        let to = truncate_for_display(operations[i].1.as_str(), 80);
        line.append(from.as_str());
        line.append(" → ");
        line.append(to.as_str());
        assert(line@ == all[i as int]);
        let ghost before = views_of(lines@);
        lines.push(line);
        assert(views_of(lines@) =~= before.push(all[i as int]));
        assert(all.take(i + 1) =~= all.take(i as int).push(all[i as int]));
        i += 1;
    }
    if operations.len() > max_items {
        push_more_line(&mut lines, operations.len(), max_items);
    } else {
        assert(all.take(i as int) =~= all);
    }
    join(&lines, "\n")
}

/// The short action shown for a finished tool call at the default display verbosity.
pub open spec fn brief_action_of(name: Seq<char>) -> Seq<char> {
    if name == "list_files"@ {
        "Listed directory"@
    } else if name == "read_file"@ {
        "Read file"@
    } else if name == "read_pdf"@ {
        "Read PDF"@
    } else if name == "create_file"@ {
        "Created file"@
    } else if name == "edit_file"@ {
        "Overwrote file"@
    } else if name == "delete_file"@ {
        "Deleted item"@
    } else if name == "delete_many"@ {
        "Deleted items"@
    } else if name == "rename_file"@ {
        "Renamed item"@
    } else if name == "rename_many"@ {
        "Renamed items"@
    } else if name == "delete_matching"@ {
        "Deleted matching files"@
    } else if name == "rename_matching"@ {
        "Renamed matching files"@
    } else if name == "create_directory"@ {
        "Created directory"@
    } else if name == "copy_file"@ {
        "Copied file"@
    } else if name == "find_files"@ {
        "Searched for files"@
    } else if name == "search_in_files"@ {
        "Searched file contents"@
    } else if name == "patch_file"@ {
        "Patched file"@
    } else {
        "Ran tool"@
    }
}

/// Short, user-friendly action for a tool name: what the tool conceptually did,
/// without its arguments or result.
pub fn brief_action(tool_name: &str) -> (r: &'static str)
    ensures
        r@ == brief_action_of(tool_name@),
{
    if str_eq(tool_name, "list_files") {
        "Listed directory"
    } else if str_eq(tool_name, "read_file") {
        "Read file"
    } else if str_eq(tool_name, "read_pdf") {
        "Read PDF"
    } else if str_eq(tool_name, "create_file") {
        "Created file"
    } else if str_eq(tool_name, "edit_file") {
        "Overwrote file"
    } else if str_eq(tool_name, "delete_file") {
        "Deleted item"
    } else if str_eq(tool_name, "delete_many") {
        "Deleted items"
    } else if str_eq(tool_name, "rename_file") {
        "Renamed item"
    } else if str_eq(tool_name, "rename_many") {
        "Renamed items"
    } else if str_eq(tool_name, "delete_matching") {
        "Deleted matching files"
    } else if str_eq(tool_name, "rename_matching") {
        "Renamed matching files"
    } else if str_eq(tool_name, "create_directory") {
        "Created directory"
    } else if str_eq(tool_name, "copy_file") {
        "Copied file"
    } else if str_eq(tool_name, "find_files") {
        "Searched for files"
    } else if str_eq(tool_name, "search_in_files") {
        "Searched file contents"
    } else if str_eq(tool_name, "patch_file") {
        "Patched file"
    } else {
        "Ran tool"
    }
}

/// The string argument `key`, or `?` when it is absent or not a string.
pub open spec fn arg_or_unknown(args: Json, key: Seq<char>) -> Seq<char> {
    match str_member(args, key) {
        Some(s) => s,
        None => "?"@,
    }
}

/// The length of the array argument `key`, or 0 when it is absent or not an array.
pub open spec fn array_len_or_zero(args: Json, key: Seq<char>) -> nat {
    match array_member(args, key) {
        Some(items) => items.len(),
        None => 0,
    }
}

pub fn arg_text(args: &JsonValue, key: &str) -> (r: String)
    ensures
        r@ == arg_or_unknown(args@, key@),
{
    match args.get(key) {
        Some(JsonValue::Str(s)) => s.clone(),
        _ => String::from_str("?"),
    }
}

pub fn array_len(args: &JsonValue, key: &str) -> (r: usize)
    ensures
        r == array_len_or_zero(args@, key@),
{
    match args.get(key) {
        Some(JsonValue::Array(items)) => {
            proof {
                crate::json::lemma_items_view(items@);
            }
            items.len()
        },
        _ => 0,
    }
}

/// `{lead}{a}{mid}{b}`.
fn text4(lead: &str, a: &str, mid: &str, b: &str) -> (r: String)
    ensures
        r@ == lead@ + a@ + mid@ + b@,
{
    let mut r = String::from_str(lead);
    r.append(a);
    r.append(mid);
    r.append(b);
    r
}

/// `{lead}{n}{tail}`.
fn count_text(lead: &str, n: usize, tail: &str) -> (r: String)
    ensures
        r@ == lead@ + decimal(n as nat) + tail@,
{
    let mut r = String::from_str(lead);
    crate::text::push_decimal(n as u64, &mut r);
    r.append(tail);
    r
}

/// `{lead}{arg path}`, the form shared by the single-path tools.
pub open spec fn path_description(lead: Seq<char>, args: Json) -> Seq<char> {
    lead + arg_or_unknown(args, "path"@)
}

/// `{lead}{filename_regex}/ in {path}`, the form shared by the pattern tools.
pub open spec fn pattern_description(lead: Seq<char>, args: Json) -> Seq<char> {
    lead + arg_or_unknown(args, "filename_regex"@) + "/ in "@ + arg_or_unknown(args, "path"@)
}

/// The one-line description of a tool call shown in the chat log.
pub open spec fn description_of(name: Seq<char>, args: Json) -> Seq<char> {
    if name == "list_files"@ {
        path_description("List files in "@, args)
    } else if name == "read_file"@ {
        path_description("Read file "@, args)
    } else if name == "read_pdf"@ {
        path_description("Read PDF "@, args)
    } else if name == "create_file"@ {
        path_description("Create file "@, args)
    } else if name == "edit_file"@ {
        path_description("Overwrite file "@, args)
    } else if name == "delete_file"@ {
        path_description("Delete "@, args)
    } else if name == "delete_many"@ {
        "Delete "@ + decimal(array_len_or_zero(args, "paths"@)) + " item(s)"@
    } else if name == "rename_file"@ {
        "Rename "@ + arg_or_unknown(args, "old_path"@) + " → "@ + arg_or_unknown(args, "new_path"@)
    } else if name == "rename_many"@ {
        "Rename "@ + decimal(array_len_or_zero(args, "operations"@)) + " item(s)"@
    } else if name == "delete_matching"@ {
        pattern_description("Delete files matching /"@, args)
    } else if name == "rename_matching"@ {
        pattern_description("Rename files matching /"@, args)
    } else if name == "create_directory"@ {
        path_description("Create directory "@, args)
    } else if name == "copy_file"@ {
        "Copy "@ + arg_or_unknown(args, "source"@) + " → "@ + arg_or_unknown(args, "destination"@)
    } else if name == "find_files"@ {
        pattern_description("Find files matching /"@, args)
    } else if name == "search_in_files"@ {
        "Search for '"@ + arg_or_unknown(args, "pattern"@) + "' in "@ + arg_or_unknown(args, "path"@)
    } else if name == "patch_file"@ {
        "Patch file "@ + arg_or_unknown(args, "path"@) + "\n\nFind:    "@ + truncated(
            arg_or_unknown(args, "search"@),
            80,
        ) + "\nReplace: "@ + truncated(arg_or_unknown(args, "replace"@), 80)
    } else {
        name
    }
}

fn single_path_description(lead: &str, args: &JsonValue) -> (r: String)
    ensures
        r@ == path_description(lead@, args@),
{
    let path = arg_text(args, "path");
    crate::text::concat2(lead, path.as_str())
}

fn regex_description(lead: &str, args: &JsonValue) -> (r: String)
    ensures
        r@ == pattern_description(lead@, args@),
{
    let re = arg_text(args, "filename_regex");
    let path = arg_text(args, "path");
    text4(lead, re.as_str(), "/ in ", path.as_str())
}

fn patch_description(args: &JsonValue) -> (r: String)
    ensures
        r@ == "Patch file "@ + arg_or_unknown(args@, "path"@) + "\n\nFind:    "@ + truncated(
            arg_or_unknown(args@, "search"@),
            80,
        ) + "\nReplace: "@ + truncated(arg_or_unknown(args@, "replace"@), 80),
{
    let path = arg_text(args, "path");
    let search = arg_text(args, "search");
    let replace = arg_text(args, "replace");
    let shown_search = truncate_for_display(search.as_str(), 80);
    let shown_replace = truncate_for_display(replace.as_str(), 80);
    let mut r = text4("Patch file ", path.as_str(), "\n\nFind:    ", shown_search.as_str());
    r.append("\nReplace: ");
    r.append(shown_replace.as_str());
    r
}

/// The one-line description of a tool call shown in the chat log.
#[verifier::rlimit(30)]
pub fn build_description(call: &FunctionCall) -> (r: String)
    ensures
        r@ == description_of(call.name@, call.arguments@),
{
    let args = &call.arguments;
    let name = call.name.as_str();
    if str_eq(name, "list_files") {
        single_path_description("List files in ", args)
    } else if str_eq(name, "read_file") {
        single_path_description("Read file ", args)
    } else if str_eq(name, "read_pdf") {
        single_path_description("Read PDF ", args)
    } else if str_eq(name, "create_file") {
        single_path_description("Create file ", args)
    } else if str_eq(name, "edit_file") {
        single_path_description("Overwrite file ", args)
    } else if str_eq(name, "delete_file") {
        single_path_description("Delete ", args)
    } else if str_eq(name, "delete_many") {
        count_text("Delete ", array_len(args, "paths"), " item(s)")
    } else if str_eq(name, "rename_file") {
        let old_path = arg_text(args, "old_path");
        let new_path = arg_text(args, "new_path");
        text4("Rename ", old_path.as_str(), " → ", new_path.as_str())
    } else if str_eq(name, "rename_many") {
        count_text("Rename ", array_len(args, "operations"), " item(s)")
    } else if str_eq(name, "delete_matching") {
        regex_description("Delete files matching /", args)
    } else if str_eq(name, "rename_matching") {
        regex_description("Rename files matching /", args)
    } else if str_eq(name, "create_directory") {
        single_path_description("Create directory ", args)
    } else if str_eq(name, "copy_file") {
        let source = arg_text(args, "source");
        let destination = arg_text(args, "destination");
        text4("Copy ", source.as_str(), " → ", destination.as_str())
    } else if str_eq(name, "find_files") {
        regex_description("Find files matching /", args)
    } else if str_eq(name, "search_in_files") {
        let pattern = arg_text(args, "pattern");
        let path = arg_text(args, "path");
        text4("Search for '", pattern.as_str(), "' in ", path.as_str())
    } else if str_eq(name, "patch_file") {
        patch_description(args)
    } else {
        call.name.clone()
    }
}

// ── Confirmation dialogs of the destructive bulk tools ────────────────────────

pub open spec fn delete_many_prompt(resolved: Seq<Seq<char>>) -> Seq<char> {
    "Delete "@ + decimal(resolved.len()) + " item(s)?\n\n"@ + path_preview(resolved, 12)
}

pub open spec fn rename_many_prompt(resolved: Seq<(Seq<char>, Seq<char>)>) -> Seq<char> {
    "Rename "@ + decimal(resolved.len()) + " item(s)?\n\n"@ + rename_preview(resolved, 10)
}

/// ` matching /{pattern}/ under {path} (recursive: {recursive})?`
pub open spec fn matching_scope(pattern: Seq<char>, path: Seq<char>, recursive: bool) -> Seq<char> {
    " matching /"@ + truncated(pattern, 80) + "/ under "@ + path + " (recursive: "@ + bool_text(
        recursive,
    ) + ")?\n\n"@
}

pub open spec fn delete_matching_prompt(
    pattern: Seq<char>,
    path: Seq<char>,
    recursive: bool,
    matches: Seq<Seq<char>>,
) -> Seq<char> {
    "Delete "@ + decimal(matches.len()) + " file(s)"@ + matching_scope(pattern, path, recursive)
        + path_preview(matches, 12)
}

pub open spec fn rename_matching_prompt(
    pattern: Seq<char>,
    path: Seq<char>,
    recursive: bool,
    operations: Seq<(Seq<char>, Seq<char>)>,
) -> Seq<char> {
    "Rename "@ + decimal(operations.len()) + " file(s)"@ + matching_scope(pattern, path, recursive)
        + rename_preview(operations, 10)
}

/// The question asked before deleting the resolved paths of a `delete_many` call.
pub fn delete_many_confirmation(resolved: &Vec<String>) -> (r: String)
    ensures
        r@ == delete_many_prompt(views_of(resolved@)),
{
    let mut r = count_text("Delete ", resolved.len(), " item(s)?\n\n");
    let preview = preview_paths(resolved.as_slice(), 12);
    r.append(preview.as_str());
    r
}

/// The question asked before carrying out the resolved renames of a `rename_many` call.
pub fn rename_many_confirmation(resolved: &Vec<(String, String)>) -> (r: String)
    ensures
        r@ == rename_many_prompt(pair_views(resolved@)),
{
    let mut r = count_text("Rename ", resolved.len(), " item(s)?\n\n");
    let preview = preview_renames(resolved.as_slice(), 10);
    r.append(preview.as_str());
    r
}

fn scope_text(pattern: &str, path: &str, recursive: bool) -> (r: String)
    ensures
        r@ == matching_scope(pattern@, path@, recursive),
{
    let shown = truncate_for_display(pattern, 80);
    let mut r = text4(" matching /", shown.as_str(), "/ under ", path);
    r.append(" (recursive: ");
    let b = crate::text::bool_string(recursive);
    r.append(b.as_str());
    r.append(")?\n\n");
    r
}

/// The question asked before deleting the files a `delete_matching` call matched.
pub fn delete_matching_confirmation(
    pattern: &str,
    path: &str,
    recursive: bool,
    matches: &Vec<String>,
) -> (r: String)
    ensures
        r@ == delete_matching_prompt(pattern@, path@, recursive, views_of(matches@)),
{
    let mut r = count_text("Delete ", matches.len(), " file(s)");
    let scope = scope_text(pattern, path, recursive);
    r.append(scope.as_str());
    let preview = preview_paths(matches.as_slice(), 12);
    r.append(preview.as_str());
    r
}

/// The question asked before carrying out the renames a `rename_matching` call planned.
pub fn rename_matching_confirmation(
    pattern: &str,
    path: &str,
    recursive: bool,
    operations: &Vec<(String, String)>,
) -> (r: String)
    ensures
        r@ == rename_matching_prompt(pattern@, path@, recursive, pair_views(operations@)),
{
    let mut r = count_text("Rename ", operations.len(), " file(s)");
    let scope = scope_text(pattern, path, recursive);
    r.append(scope.as_str());
    let preview = preview_renames(operations.as_slice(), 10);
    r.append(preview.as_str());
    r
}

} // verus!
