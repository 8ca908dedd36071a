//! The rules the file operations apply around their filesystem calls: size limits, what
//! must or must not exist, the checks made before a bulk change, and the edit that
//! `patch_file` writes back.
use vstd::prelude::*;

use crate::error::{rejected, AppError};
use crate::pattern::{compile, is_match, regex_compile_error, regex_is_match, Pattern};
use crate::text::{
    chars_of, concat2, concat3, decimal, join, join_with, occurs_at, occurs_at_exec,
    str_eq, string_from_chars, string_from_range, trim, trim_str, views_of,
};
use crate::tools::dispatch::{files_view, MatchedFile};

verus! {

// ── patch_file ────────────────────────────────────────────────────────────────

/// Occurrences of a non-empty `pat` in `s` from position `i` on, counted left to right
/// without overlap.
pub open spec fn count_from(s: Seq<char>, pat: Seq<char>, i: int) -> nat
    decreases s.len() - i,
{
    if pat.len() == 0 || i < 0 || i + pat.len() > s.len() {
        0
    } else if occurs_at(s, pat, i) {
        1 + count_from(s, pat, i + pat.len())
    } else {
        count_from(s, pat, i + 1)
    }
}

/// `s.matches(pat).count()`: the non-overlapping occurrences of `pat`; the empty pattern
/// matches at every character boundary.
pub open spec fn match_count(s: Seq<char>, pat: Seq<char>) -> nat {
    if pat.len() == 0 {
        s.len() + 1
    } else {
        count_from(s, pat, 0)
    }
}

/// The first position at or after `i` where `pat` occurs; `s.len()` when there is none.
pub open spec fn first_from(s: Seq<char>, pat: Seq<char>, i: int) -> int
    decreases s.len() - i,
{
    if i < 0 || i + pat.len() > s.len() {
        s.len() as int
    } else if pat.len() == 0 || occurs_at(s, pat, i) {
        i
    } else {
        first_from(s, pat, i + 1)
    }
}

/// `s.replacen(pat, rep, 1)` where `pat` occurs: its first occurrence replaced by `rep`.
pub open spec fn replace_first(s: Seq<char>, pat: Seq<char>, rep: Seq<char>) -> Seq<char> {
    let j = first_from(s, pat, 0);
    s.take(j) + rep + s.skip(j + pat.len())
}

pub open spec fn ambiguous_message(n: nat) -> Seq<char> {
    "Search text is ambiguous: found "@ + decimal(n)
        + " occurrences, expected exactly 1. Use edit_file to overwrite the entire file."@
}

fn count_occurrences(s: &Vec<char>, pat: &Vec<char>) -> (r: usize)
    requires
        pat.len() > 0,
    ensures
        r == count_from(s@, pat@, 0),
{
    let mut count: usize = 0;
    let mut i: usize = 0;
    while i <= s.len() && pat.len() <= s.len() - i
        invariant
            pat.len() > 0,
            0 <= i <= s.len(),
            count <= i,
            count + count_from(s@, pat@, i as int) == count_from(s@, pat@, 0),
        decreases s.len() - i,
    {
        if occurs_at_exec(s, pat, i) {
            count += 1;
            i += pat.len();
        } else {
            i += 1;
        }
    }
    count
}

fn first_occurrence(s: &Vec<char>, pat: &Vec<char>) -> (r: usize)
    ensures
        r == first_from(s@, pat@, 0),
{
    let mut i: usize = 0;
    while i <= s.len() && pat.len() <= s.len() - i
        invariant
            0 <= i <= s.len() + 1,
            first_from(s@, pat@, i as int) == first_from(s@, pat@, 0),
        decreases s.len() - i,
    {
        if pat.len() == 0 || occurs_at_exec(s, pat, i) {
            return i;
        }
        i += 1;
    }
    s.len()
}

proof fn lemma_first_in_range(s: Seq<char>, pat: Seq<char>, i: int)
    requires
        0 <= i <= s.len(),
        count_from(s, pat, i) > 0,
    ensures
        i <= first_from(s, pat, i),
        first_from(s, pat, i) + pat.len() <= s.len(),
        occurs_at(s, pat, first_from(s, pat, i)),
    decreases s.len() - i,
{
    if !occurs_at(s, pat, i) {
        lemma_first_in_range(s, pat, i + 1);
    }
}

/// `patch_file`'s edit: the content with its one occurrence of `search` replaced by
/// `replace`. No occurrence, or more than one, is refused.
pub fn patch_content(content: &str, search: &str, replace: &str) -> (r: Result<String, AppError>)
    requires
        content@.len() < usize::MAX,
    ensures
        match_count(content@, search@) == 0 ==> rejected(r, "Search text not found in file"@),
        match_count(content@, search@) == 1 ==> (r matches Ok(t) && t@ == replace_first(
            content@,
            search@,
            replace@,
        )),
        match_count(content@, search@) > 1 ==> rejected(
            r,
            ambiguous_message(match_count(content@, search@)),
        ),
{
    let c = chars_of(content);
    let p = chars_of(search);
    let n = if p.len() == 0 {
        c.len() + 1
    } else {
        count_occurrences(&c, &p)
    };
    if n == 0 {
        return Err(AppError::ToolValidation(String::from_str("Search text not found in file")));
    }
    if n > 1 {
        let mut msg = String::from_str("Search text is ambiguous: found ");
        crate::text::push_decimal(n as u64, &mut msg);
        msg.append(" occurrences, expected exactly 1. Use edit_file to overwrite the entire file.");
        return Err(AppError::ToolValidation(msg));
    }
    let j = first_occurrence(&c, &p);
    proof {
        if p.len() > 0 {
            lemma_first_in_range(c@, p@, 0);
        }
    }
    let mut out = string_from_range(&c, 0, j);
    out.append(replace);
    let tail = string_from_range(&c, j + p.len(), c.len());
    out.append(tail.as_str());
    assert(c@.subrange(0, j as int) =~= c@.take(j as int));
    assert(c@.subrange(j + p.len(), c.len() as int) =~= c@.skip(j + p.len()));
    Ok(out)
}

// ── Sizes and existence ───────────────────────────────────────────────────────

/// Largest file `read_file` reads, and largest file `search_in_files` scans (5 MB).
pub const MAX_READ_BYTES: u64 = 5242880;

/// Largest PDF `read_pdf` reads (50 MB).
pub const MAX_PDF_BYTES: u64 = 52428800;

/// `read_file` refuses a file larger than 5 MB.
pub fn check_read_size(len: u64) -> (r: Result<(), AppError>)
    ensures
        len <= MAX_READ_BYTES ==> r is Ok,
        len > MAX_READ_BYTES ==> rejected(
            r,
            "File is too large to read ("@ + decimal(len as nat) + " bytes, max 5 MB)"@,
        ),
{
    if len > MAX_READ_BYTES {
        let mut msg = String::from_str("File is too large to read (");
        crate::text::push_decimal(len, &mut msg);
        msg.append(" bytes, max 5 MB)");
        Err(AppError::ToolValidation(msg))
    } else {
        Ok(())
    }
}

/// `read_pdf` refuses a file larger than 50 MB.
pub fn check_pdf_size(len: u64) -> (r: Result<(), AppError>)
    ensures
        len <= MAX_PDF_BYTES ==> r is Ok,
        len > MAX_PDF_BYTES ==> rejected(
            r,
            "PDF is too large ("@ + decimal(len as nat) + " bytes, max 50 MB)"@,
        ),
{
    if len > MAX_PDF_BYTES {
        let mut msg = String::from_str("PDF is too large (");
        crate::text::push_decimal(len, &mut msg);
        msg.append(" bytes, max 50 MB)");
        Err(AppError::ToolValidation(msg))
    } else {
        Ok(())
    }
}

/// `create_file` refuses to overwrite: `exists` tells whether `path` is taken.
pub fn check_create_file(path: &str, exists: bool) -> (r: Result<(), AppError>)
    ensures
        !exists ==> r is Ok,
        exists ==> rejected(r, "File already exists: "@ + path@ + ". Use edit_file to overwrite."@),
{
    if exists {
        Err(AppError::ToolValidation(concat3("File already exists: ", path, ". Use edit_file to overwrite.")))
    } else {
        Ok(())
    }
}

/// `edit_file` only overwrites: `exists` tells whether `path` is there.
pub fn check_edit_file(path: &str, exists: bool) -> (r: Result<(), AppError>)
    ensures
        exists ==> r is Ok,
        !exists ==> rejected(
            r,
            "File does not exist: "@ + path@ + ". Use create_file to create a new file."@,
        ),
{
    if !exists {
        Err(
            AppError::ToolValidation(
                concat3("File does not exist: ", path, ". Use create_file to create a new file."),
            ),
        )
    } else {
        Ok(())
    }
}

/// `create_directory` refuses a path that is taken.
pub fn check_create_directory(path: &str, exists: bool) -> (r: Result<(), AppError>)
    ensures
        !exists ==> r is Ok,
        exists ==> rejected(r, "Path already exists: "@ + path@),
{
    if exists {
        Err(AppError::ToolValidation(concat2("Path already exists: ", path)))
    } else {
        Ok(())
    }
}

/// `copy_file` refuses to overwrite its destination.
pub fn check_copy_destination(destination: &str, exists: bool) -> (r: Result<(), AppError>)
    ensures
        !exists ==> r is Ok,
        exists ==> rejected(
            r,
            "Destination already exists: "@ + destination@ + ". Delete it first to overwrite."@,
        ),
{
    if exists {
        Err(
            AppError::ToolValidation(
                concat3("Destination already exists: ", destination, ". Delete it first to overwrite."),
            ),
        )
    } else {
        Ok(())
    }
}

// ── Checks made before a bulk change touches anything ─────────────────────────

/// The first index at or after `i` whose flag is `false`; `flags.len()` when there is none.
pub open spec fn first_false(flags: Seq<bool>, i: int) -> int
    decreases flags.len() - i,
{
    if i < 0 || i >= flags.len() {
        flags.len() as int
    } else if !flags[i] {
        i
    } else {
        first_false(flags, i + 1)
    }
}

/// `delete_many` checks, before deleting anything, that every path exists (`exists[i]`
/// tells whether `paths[i]` does); the first missing path is reported. It returns how
/// many items it will delete.
pub fn check_delete_many(paths: &Vec<String>, exists: &Vec<bool>) -> (r: Result<usize, AppError>)
    requires
        exists.len() == paths.len(),
    ensures
        paths.len() == 0 ==> rejected(r, "No paths were provided for bulk delete"@),
        paths.len() > 0 && first_false(exists@, 0) < paths.len() ==> rejected(
            r,
            "Path does not exist: "@ + paths@[first_false(exists@, 0)]@,
        ),
        paths.len() > 0 && first_false(exists@, 0) == paths.len() ==> r == Ok::<usize, AppError>(
            paths.len(),
        ),
{
    if paths.len() == 0 {
        return Err(AppError::ToolValidation(String::from_str("No paths were provided for bulk delete")));
    }
    let mut i: usize = 0;
    while i < paths.len()
        invariant
            exists.len() == paths.len(),
            0 <= i <= paths.len(),
            first_false(exists@, i as int) == first_false(exists@, 0),
        decreases paths.len() - i,
    {
        if !exists[i] {
            return Err(AppError::ToolValidation(concat2("Path does not exist: ", paths[i].as_str())));
        }
        i += 1;
    }
    Ok(paths.len())
}

/// The first problem of a rename plan at or after operation `i`, given whether each
/// source and each destination exists: a missing source, a taken destination, or a
/// destination an earlier operation already uses, checked in that order per operation.
pub open spec fn rename_problem(
    ops: Seq<(Seq<char>, Seq<char>)>,
    src_exists: Seq<bool>,
    dst_exists: Seq<bool>,
    i: int,
) -> Option<Seq<char>>
    decreases ops.len() - i,
{
    if i < 0 || i >= ops.len() {
        None
    } else if !src_exists[i] {
        Some("Source does not exist: "@ + ops[i].0)
    } else if dst_exists[i] {
        Some("Destination already exists: "@ + ops[i].1)
    } else if exists|j: int| 0 <= j < i && (#[trigger] ops[j]).1 == ops[i].1 {
        Some("Duplicate destination in rename plan: "@ + ops[i].1)
    } else {
        rename_problem(ops, src_exists, dst_exists, i + 1)
    }
}

/// `rename_many` checks, before renaming anything, that every source exists, that no
/// destination is taken, and that no two operations share a destination; the first
/// problem is reported. It returns how many renames it will make.
pub fn check_rename_many(
    operations: &Vec<(String, String)>,
    src_exists: &Vec<bool>,
    dst_exists: &Vec<bool>,
) -> (r: Result<usize, AppError>)
    requires
        src_exists.len() == operations.len(),
        dst_exists.len() == operations.len(),
    ensures
        operations.len() == 0 ==> rejected(r, "No operations were provided for bulk rename"@),
        operations.len() > 0 ==> match rename_problem(
            crate::tools::describe::pair_views(operations@),
            src_exists@,
            dst_exists@,
            0,
        ) {
            Some(m) => rejected(r, m),
            None => r == Ok::<usize, AppError>(operations.len()),
        },
{
    let ghost ops = crate::tools::describe::pair_views(operations@);
    if operations.len() == 0 {
        return Err(
            AppError::ToolValidation(String::from_str("No operations were provided for bulk rename")),
        );
    }
    let mut i: usize = 0;
    while i < operations.len()
        invariant
            ops == crate::tools::describe::pair_views(operations@),
            ops.len() == operations.len(),
            src_exists.len() == operations.len(),
            dst_exists.len() == operations.len(),
            0 <= i <= operations.len(),
            rename_problem(ops, src_exists@, dst_exists@, i as int) == rename_problem(
                ops,
                src_exists@,
                dst_exists@,
                0,
            ),
        decreases operations.len() - i,
    {
        assert(ops[i as int] == (operations@[i as int].0@, operations@[i as int].1@));
        if !src_exists[i] {
            return Err(
                AppError::ToolValidation(concat2("Source does not exist: ", operations[i].0.as_str())),
            );
        }
        if dst_exists[i] {
            return Err(
                AppError::ToolValidation(
                    concat2("Destination already exists: ", operations[i].1.as_str()),
                ),
            );
        }
        let mut j: usize = 0;
        while j < i
            invariant
                ops == crate::tools::describe::pair_views(operations@),
                ops.len() == operations.len(),
                0 <= j <= i < operations.len(),
                src_exists.len() == operations.len(),
                dst_exists.len() == operations.len(),
                src_exists@[i as int],
                !dst_exists@[i as int],
                rename_problem(ops, src_exists@, dst_exists@, i as int) == rename_problem(
                    ops,
                    src_exists@,
                    dst_exists@,
                    0,
                ),
                forall|k: int| 0 <= k < j ==> (#[trigger] ops[k]).1 != ops[i as int].1,
            decreases i - j,
        {
            assert(ops[j as int] == (operations@[j as int].0@, operations@[j as int].1@));
            if crate::text::str_eq(operations[j].1.as_str(), operations[i].1.as_str()) {
                assert(ops[j as int].1 == ops[i as int].1);
                return Err(
                    AppError::ToolValidation(
                        concat2("Duplicate destination in rename plan: ", operations[i].1.as_str()),
                    ),
                );
            }
            j += 1;
        }
        i += 1;
    }
    Ok(operations.len())
}

// ── Walks ─────────────────────────────────────────────────────────────────────

/// Directories a walk never enters: build output, package caches, version control.
pub open spec fn skipped_dir(name: Seq<char>) -> bool {
    ||| name == "node_modules"@
    ||| name == "target"@
    ||| name == "__pycache__"@
    ||| name == "dist"@
    ||| name == "build"@
    ||| name == "vendor"@
    ||| name == ".git"@
}

pub open spec fn hidden(name: Seq<char>) -> bool {
    name.len() > 0 && name[0] == '.'
}

fn is_skipped_dir(name: &str) -> (r: bool)
    ensures
        r == skipped_dir(name@),
{
    str_eq(name, "node_modules") || str_eq(name, "target") || str_eq(name, "__pycache__")
        || str_eq(name, "dist") || str_eq(name, "build") || str_eq(name, "vendor") || str_eq(
        name,
        ".git",
    )
}

fn is_hidden(name: &str) -> (r: bool)
    ensures
        r == hidden(name@),
{
    let v = chars_of(name);
    v.len() > 0 && v[0] == '.'
}

/// A matching walk takes an entry that is a file whose name matches the walk's pattern.
pub fn walk_takes(pattern: &Pattern, name: &str, is_file: bool) -> (r: bool)
    ensures
        r == (is_file && regex_is_match(pattern@, name@)),
{
    is_file && is_match(pattern, name)
}

/// `search_in_files` enters every directory that is neither hidden nor skipped.
pub fn search_descends(name: &str) -> (r: bool)
    ensures
        r == (!hidden(name@) && !skipped_dir(name@)),
{
    !is_hidden(name) && !is_skipped_dir(name)
}

/// A matching walk enters a subdirectory only when recursive, and never a hidden or
/// skipped one.
pub fn match_walk_descends(name: &str, recursive: bool) -> (r: bool)
    ensures
        r == (recursive && !hidden(name@) && !skipped_dir(name@)),
{
    recursive && !is_hidden(name) && !is_skipped_dir(name)
}

/// `search_in_files` reads a file unless its size is known to exceed 5 MB.
pub fn search_reads(size: Option<u64>) -> (r: bool)
    ensures
        r == !(size is Some && size->Some_0 > MAX_READ_BYTES),
{
    match size {
        Some(n) => n <= MAX_READ_BYTES,
        None => true,
    }
}

/// The pattern of a matching walk, compiled.
pub fn compile_filename_regex(pattern: &str) -> (r: Result<Pattern, AppError>)
    ensures
        regex_compile_error(pattern@) is None ==> (r matches Ok(p) && p@ == pattern@),
        regex_compile_error(pattern@) is Some ==> rejected(
            r,
            "Invalid filename regex: "@ + regex_compile_error(pattern@)->Some_0,
        ),
{
    match compile(pattern) {
        Ok(p) => Ok(p),
        Err(e) => Err(AppError::ToolValidation(concat2("Invalid filename regex: ", e.as_str()))),
    }
}

/// The pattern of `search_in_files`, compiled.
pub fn compile_search_regex(pattern: &str) -> (r: Result<Pattern, AppError>)
    ensures
        regex_compile_error(pattern@) is None ==> (r matches Ok(p) && p@ == pattern@),
        regex_compile_error(pattern@) is Some ==> rejected(
            r,
            "Invalid regex pattern: "@ + regex_compile_error(pattern@)->Some_0,
        ),
{
    match compile(pattern) {
        Ok(p) => Ok(p),
        Err(e) => Err(AppError::ToolValidation(concat2("Invalid regex pattern: ", e.as_str()))),
    }
}

pub open spec fn too_many_matches_message(limit: nat) -> Seq<char> {
    "Matched more than "@ + decimal(limit)
        + " files; narrow the pattern before running a bulk operation"@
}

/// Adds a file the walk matched; once `limit` files matched, the walk is refused.
pub fn admit_match(matches: &mut Vec<MatchedFile>, file: MatchedFile, limit: usize) -> (r: Result<
    (),
    AppError,
>)
    ensures
        old(matches).len() >= limit ==> rejected(r, too_many_matches_message(limit as nat))
            && final(matches)@ == old(matches)@,
        old(matches).len() < limit ==> r is Ok && final(matches)@ == old(matches)@.push(file),
{
    if matches.len() >= limit {
        let mut msg = String::from_str("Matched more than ");
        crate::text::push_decimal(limit as u64, &mut msg);
        msg.append(" files; narrow the pattern before running a bulk operation");
        return Err(AppError::ToolValidation(msg));
    }
    matches.push(file);
    Ok(())
}

// ── search_in_files ───────────────────────────────────────────────────────────

/// A line without the `\r` of a `\r\n` ending.
pub open spec fn strip_cr(l: Seq<char>) -> Seq<char> {
    if l.len() > 0 && l.last() == '\r' {
        l.drop_last()
    } else {
        l
    }
}

/// Reading `s` left to right: the finished lines, and the characters of the current one.
pub open spec fn line_scan(s: Seq<char>) -> (Seq<Seq<char>>, Seq<char>)
    decreases s.len(),
{
    if s.len() == 0 {
        (Seq::empty(), Seq::empty())
    } else {
        let (done, cur) = line_scan(s.drop_last());
        if s.last() == '\n' {
            (done.push(strip_cr(cur)), Seq::empty())
        } else {
            (done, cur.push(s.last()))
        }
    }
}

/// `str::lines`: the lines of `s`, split at `\n` with a preceding `\r` removed; a final
/// line ending is optional and adds no empty line.
pub open spec fn lines_of(s: Seq<char>) -> Seq<Seq<char>> {
    let (done, cur) = line_scan(s);
    if cur.len() > 0 {
        done.push(cur)
    } else {
        done
    }
}

/// `{file}:{n}: {line trimmed}`, one reported match.
pub open spec fn hit_line(file: Seq<char>, n: nat, line: Seq<char>) -> Seq<char> {
    file + ":"@ + decimal(n) + ": "@ + trim(line)
}

/// The reported matches among `lines`, numbered from 1.
pub open spec fn hits(file: Seq<char>, lines: Seq<Seq<char>>, pattern: Seq<char>) -> Seq<Seq<char>>
    decreases lines.len(),
{
    if lines.len() == 0 {
        Seq::empty()
    } else {
        let before = hits(file, lines.drop_last(), pattern);
        if regex_is_match(pattern, lines.last()) {
            before.push(hit_line(file, lines.len(), lines.last()))
        } else {
            before
        }
    }
}

/// Every reported match names the line it shows: it reads `file:n: text` where line `n`
/// (counted from 1) matches the pattern and `text` is that line trimmed.
#[verifier::spinoff_prover]
pub proof fn lemma_hits_name_their_lines(file: Seq<char>, lines: Seq<Seq<char>>, pattern: Seq<char>)
    ensures
        forall|k: int|
            0 <= k < hits(file, lines, pattern).len() ==> exists|n: int|
                #![trigger lines[n - 1]]
                1 <= n <= lines.len() && regex_is_match(pattern, lines[n - 1]) && #[trigger] hits(
                    file,
                    lines,
                    pattern,
                )[k] == file + ":"@ + decimal(n as nat) + ": "@ + trim(lines[n - 1]),
    decreases lines.len(),
{
    if lines.len() > 0 {
        let hs = hits(file, lines, pattern);
        let init = lines.drop_last();
        let before = hits(file, init, pattern);
        lemma_hits_name_their_lines(file, init, pattern);
        assert forall|k: int| 0 <= k < hs.len() implies exists|n: int|
            #![trigger lines[n - 1]]
            1 <= n <= lines.len() && regex_is_match(pattern, lines[n - 1]) && #[trigger] hs[k] == file
                + ":"@ + decimal(n as nat) + ": "@ + trim(lines[n - 1]) by {
            if k < before.len() {
                let n = choose|n: int|
                    #![trigger init[n - 1]]
                    1 <= n <= init.len() && regex_is_match(pattern, init[n - 1]) && before[k] == file
                        + ":"@ + decimal(n as nat) + ": "@ + trim(init[n - 1]);
                assert(init[n - 1] == lines[n - 1]);
                assert(hs[k] == before[k]);
            } else {
                let n = lines.len() as int;
                assert(lines[n - 1] == lines.last());
            }
        }
    }
}

/// Every matching line is reported: for each line `n` (from 1) that matches the pattern,
/// `file:n: text` with `text` that line trimmed is among the reported matches.
#[verifier::spinoff_prover]
pub proof fn lemma_every_matching_line_is_reported(file: Seq<char>, lines: Seq<Seq<char>>, pattern: Seq<char>)
    ensures
        forall|n: int|
            1 <= n <= lines.len() && regex_is_match(pattern, #[trigger] lines[n - 1]) ==> hits(
                file,
                lines,
                pattern,
            ).contains(file + ":"@ + decimal(n as nat) + ": "@ + trim(lines[n - 1])),
    decreases lines.len(),
{
    if lines.len() > 0 {
        let hs = hits(file, lines, pattern);
        let init = lines.drop_last();
        let before = hits(file, init, pattern);
        lemma_every_matching_line_is_reported(file, init, pattern);
        assert forall|n: int| 1 <= n <= lines.len() && regex_is_match(pattern, #[trigger] lines[n - 1])
            implies hs.contains(file + ":"@ + decimal(n as nat) + ": "@ + trim(lines[n - 1])) by {
            let t = file + ":"@ + decimal(n as nat) + ": "@ + trim(lines[n - 1]);
            if n < lines.len() {
                assert(init[n - 1] == lines[n - 1]);
                assert(before.contains(t));
                let k = choose|k: int| 0 <= k < before.len() && before[k] == t;
                assert(hs[k] == before[k]);
            } else {
                assert(lines[n - 1] == lines.last());
                assert(hs[before.len() as int] == t);
            }
        }
    }
}

/// The first `room` of `hs` (all of them when there are fewer).
pub open spec fn kept(hs: Seq<Seq<char>>, room: int) -> Seq<Seq<char>> {
    if room <= 0 {
        Seq::empty()
    } else if hs.len() <= room {
        hs
    } else {
        hs.take(room)
    }
}

/// The running result of `search_in_files`: the reported lines and the number of matches.
pub struct SearchState {
    pub results: Vec<String>,
    pub total: usize,
}

/// What scanning a file adds to a search: every matching line is counted, and reported
/// while fewer than `max_results` lines are reported.
pub open spec fn scanned(
    old_results: Seq<Seq<char>>,
    old_total: nat,
    hs: Seq<Seq<char>>,
    max_results: nat,
    results: Seq<Seq<char>>,
    total: nat,
) -> bool {
    &&& total == old_total + hs.len()
    &&& results == old_results + kept(hs, max_results - old_results.len())
}

fn report_line(state: &mut SearchState, file: &str, n: usize, line: &Vec<char>, pattern: &Pattern, max_results: usize)
    requires
        old(state).total < usize::MAX,
    ensures
        final(state).total == old(state).total + (if regex_is_match(pattern@, line@) { 1int } else { 0 }),
        views_of(final(state).results@) == (if regex_is_match(pattern@, line@)
            && old(state).results.len() < max_results {
            views_of(old(state).results@).push(hit_line(file@, n as nat, line@))
        } else {
            views_of(old(state).results@)
        }),
{
    let text = string_from_chars(line);
    if is_match(pattern, text.as_str()) {
        state.total = state.total + 1;
        if state.results.len() < max_results {
            let mut entry = String::from_str(file);
            entry.append(":");
            crate::text::push_decimal(n as u64, &mut entry);
            entry.append(": ");
            let trimmed = trim_str(text.as_str());
            entry.append(trimmed.as_str());
            let ghost before = views_of(state.results@);
            state.results.push(entry);
            assert(views_of(state.results@) =~= before.push(hit_line(file@, n as nat, line@)));
        }
    }
}

proof fn lemma_kept_push(hs: Seq<Seq<char>>, x: Seq<char>, room: int)
    ensures
        kept(hs.push(x), room) == (if hs.len() < room {
            kept(hs, room).push(x)
        } else {
            kept(hs, room)
        }),
        kept(hs, room).len() == (if room <= 0 { 0 } else if hs.len() <= room { hs.len() as int } else { room }),
{
    if room > 0 && hs.len() < room {
        assert(hs.push(x).len() <= room);
    } else if room > 0 && hs.len() >= room {
        assert(hs.push(x).take(room) =~= if hs.len() == room { hs } else { hs.take(room) });
    }
}

/// Scans the lines of one file's `content` for `pattern`.
pub fn scan_file(
    state: &mut SearchState,
    file: &str,
    content: &str,
    pattern: &Pattern,
    max_results: usize,
)
    requires
        old(state).total + content@.len() + 1 < usize::MAX,
    ensures
        scanned(
            views_of(old(state).results@),
            old(state).total as nat,
            hits(file@, lines_of(content@), pattern@),
            max_results as nat,
            views_of(final(state).results@),
            final(state).total as nat,
        ),
{
    let ghost r0 = views_of(state.results@);
    let ghost t0 = state.total as nat;
    let ghost room = max_results - r0.len();
    let v = chars_of(content);
    let mut cur: Vec<char> = Vec::new();
    let mut line_no: usize = 0;
    let mut i: usize = 0;
    assert(v@.take(0) =~= Seq::<char>::empty());
    while i < v.len()
        invariant
            v@ == content@,
            0 <= i <= v.len(),
            line_no <= i,
            t0 + content@.len() + 1 < usize::MAX,
            line_scan(v@.take(i as int)).1 == cur@,
            line_scan(v@.take(i as int)).0.len() == line_no,
            state.total == t0 + hits(file@, line_scan(v@.take(i as int)).0, pattern@).len(),
            hits(file@, line_scan(v@.take(i as int)).0, pattern@).len() <= line_no,
            views_of(state.results@) == r0 + kept(
                hits(file@, line_scan(v@.take(i as int)).0, pattern@),
                room,
            ),
            room == max_results - r0.len(),
        decreases v.len() - i,
    {
        let ghost prev = line_scan(v@.take(i as int));
        assert(v@.take(i + 1).drop_last() =~= v@.take(i as int));
        assert(v@.take(i + 1).last() == v@[i as int]);
        let c = v[i];
        if c == '\n' {
            if cur.len() > 0 && cur[cur.len() - 1] == '\r' {
                cur.pop();
            }
            let ghost line = cur@;
            assert(line == strip_cr(prev.1));
            line_no = line_no + 1;
            let ghost hs = hits(file@, prev.0, pattern@);
            proof {
                lemma_kept_push(hs, hit_line(file@, line_no as nat, line), room);
                assert(prev.0.push(line).drop_last() =~= prev.0);
            }
            report_line(state, file, line_no, &cur, pattern, max_results);
            cur = Vec::new();
        } else {
            cur.push(c);
        }
        i += 1;
    }
    assert(v@.take(v.len() as int) =~= v@);
    if cur.len() > 0 {
        let ghost prev = line_scan(v@);
        let ghost hs = hits(file@, prev.0, pattern@);
        line_no = line_no + 1;
        proof {
            lemma_kept_push(hs, hit_line(file@, line_no as nat, cur@), room);
            assert(prev.0.push(cur@).drop_last() =~= prev.0);
        }
        report_line(state, file, line_no, &cur, pattern, max_results);
    }
}

pub open spec fn search_summary(results: Seq<Seq<char>>, total: nat, max_results: nat) -> Seq<char> {
    if results.len() == 0 {
        "No matches found."@
    } else if total > max_results {
        join_with(results, "\n"@) + "\n\n(showing first "@ + decimal(max_results) + " of "@
            + decimal(total) + " total matches)"@
    } else {
        join_with(results, "\n"@)
    }
}

/// What `search_in_files` reports once every file was scanned.
pub fn finish_search(state: &SearchState, max_results: usize) -> (r: String)
    ensures
        r@ == search_summary(views_of(state.results@), state.total as nat, max_results as nat),
{
    if state.results.len() == 0 {
        return String::from_str("No matches found.");
    }
    let mut out = join(&state.results, "\n");
    if state.total > max_results {
        out.append("\n\n(showing first ");
        crate::text::push_decimal(max_results as u64, &mut out);
        out.append(" of ");
        crate::text::push_decimal(state.total as u64, &mut out);
        out.append(" total matches)");
    }
    out
}

} // verus!
