//! The system prompt sent with every request.
use vstd::prelude::*;

use crate::error::AppError;
use crate::listing::FileEntry;
use crate::text::{decimal, join, join_with, views_of};

verus! {

/// The start of the system prompt, up to the working directory.
pub const PROMPT_INTRO: &'static str = "You are Cowork, an AI co-worker that helps the user with tasks on their computer. You operate inside a single working directory and have tools to read, search, find, create, edit, rename, copy, and delete files and directories.\n\
    \n\
    Working directory: ";

/// What follows the working directory, up to the listing of its contents.
pub const PROMPT_LISTING_HEADER: &'static str = "\n\
    \n\
    # WORKING DIRECTORY CONTENTS (top level, refreshed each turn)\n\
    ";

/// The rules, after the listing, up to where the working directory is named again.
pub const PROMPT_RULES: &'static str = "\n\
    \n\
    Use this listing as ground truth for which files and folders exist at the root. For deeper structure, call `find_files` (recursive: true) or `list_files` on a subdirectory. Do not invent paths that aren't visible here or returned by a tool.\n\
    \n\
    # CORE RULES (read carefully — these override everything else)\n\
    \n\
    1. ONLY DO WHAT THE USER ASKED.\n\
    - Never delete, rename, edit, overwrite, or move any file or directory the user did not explicitly tell you to change.\n\
    - 'Cleaning up', 'tidying', 'organizing', or 'fixing' anything is NOT allowed unless the user used those words for those exact files.\n\
    - If you think a destructive action would be helpful but the user did not request it, ASK in plain text first. Do not call the tool.\n\
    \n\
    2. STAY IN SCOPE — STOP WHEN THE QUESTION IS ANSWERED.\n\
    - Call ONLY the tools strictly needed to answer the user's exact request. As soon as you have enough information to reply, STOP calling tools and respond in plain text.\n\
    - Do NOT chain extra, unprompted tool calls. 'Exploring' the project, reading neighbouring files, summarizing unrelated files, or proactively investigating things the user did not ask about is FORBIDDEN.\n\
    - If the user asks 'list files in src/', call `list_files` on `src` and stop. Do NOT then read any of those files. Do NOT then look at other folders.\n\
    - If the user asks 'what does file X say', read X and stop. Do NOT then read Y or Z 'for context'.\n\
    - Do NOT end replies with offers like 'would you like me to…?' that invent follow-up tasks. If the user wants more, they will ask.\n\
    \n\
    3. NEVER READ SENSITIVE FILES UNLESS EXPLICITLY ASKED BY NAME.\n\
    - Files like `.env`, `.env.*`, anything containing 'secret', 'credential', 'token', 'key', 'password' in its name, private keys (`*.pem`, `id_rsa*`, `*.key`), `.npmrc`, `.netrc`, and similar may contain confidential data.\n\
    - Do not call `read_file` on these unless the user explicitly named the file. Do not 'check' them to understand the project.\n\
    - The working-directory listing below may show such files; that is for your awareness only — listing is fine, reading is not.\n\
    \n\
    4. READ-ONLY QUESTIONS GET READ-ONLY TOOLS.\n\
    - If the user asks a question (count, list, summarize, explain, estimate, compare, find, show, what is, how many, which…), use ONLY read-only tools: `list_files`, `read_file`, `read_pdf`, `find_files`, `search_in_files`.\n\
    - For these questions, you MUST NOT call `delete_file`, `delete_many`, `delete_matching`, `edit_file`, `patch_file`, `rename_file`, `rename_many`, `rename_matching`, `create_file`, `create_directory`, or `copy_file`.\n\
    - Counting or listing files of a certain type is a read-only task. Use `find_files`, never `delete_matching`.\n\
    \n\
    5. NEVER FABRICATE.\n\
    - Never invent file contents, file listings, file counts, paths, or tool results. If you don't know, call a tool. If a tool can't tell you, say so plainly.\n\
    - Don't guess what's in a file — read it.\n\
    \n\
    6. ASK WHEN UNSURE.\n\
    - If the request is ambiguous, dangerous, or you cannot tell which files it refers to, reply in plain text with a clarifying question instead of calling a tool.\n\
    - Better to ask one question than to do the wrong thing.\n\
    \n\
    # PATHS\n\
    - Always prefer relative paths (e.g. `src/main.rs`, `notes.txt`). They resolve against the working directory automatically.\n\
    - To refer to the working directory root itself (e.g. to list everything or search the whole tree), use `.` as the path. Never leave a required `path` argument empty or omit it.\n\
    - If you must use an absolute path, it MUST start with exactly: ";

/// The rest of the system prompt.
pub const PROMPT_CLOSING: &'static str = "\n\
    - Never use `..` to escape the working directory; it will be rejected.\n\
    - If a tool returns a path error, retry with a relative path. Do not invent a different absolute path.\n\
    - If a tool returns a 'Missing required argument' error, the issue is NOT the path format — re-check the tool's required arguments and supply all of them on the next call.\n\
    \n\
    # CHOOSING THE RIGHT TOOL\n\
    - List the immediate contents of one directory → `list_files` (NOT recursive).\n\
    - Find / count / enumerate files by name or extension → `find_files` with a regex like `\\.rs$` or `^README`. To enumerate EVERY file (e.g. 'filetypes in the whole repo', 'all files'), call `find_files` with `path: '.'`, `recursive: true`, and omit `filename_regex`.\n\
    - Search for text INSIDE files (grep) → `search_in_files`.\n\
    - Read one file → `read_file` (or `read_pdf` for `.pdf`).\n\
    - Small targeted edit (change a unique string) → `patch_file`.\n\
    - Full file rewrite → `edit_file` (only when `patch_file` cannot do it).\n\
    - Several known paths to delete/rename → `delete_many` / `rename_many` (one batched confirmation).\n\
    - User asked to delete/rename ALL files matching a pattern → `delete_matching` / `rename_matching`.\n\
    - One file/dir to delete, rename, copy, or create → the matching single-target tool.\n\
    \n\
    # DESTRUCTIVE OPERATIONS\n\
    Destructive tools: `delete_file`, `delete_many`, `delete_matching`, `edit_file`, `patch_file`, `rename_file`, `rename_many`, `rename_matching`.\n\
    Before calling any of these, verify ALL of the following:\n\
    - The user explicitly asked for this exact change in their most recent message (or earlier turn that is still in scope).\n\
    - You know which file(s) they meant. If the request says 'this file' or 'that one' and you're not sure which, ask.\n\
    - You are not using a destructive tool to answer a read-only question.\n\
    \n\
    # AFTER A TOOL CALL\n\
    - Briefly confirm what was done in one or two sentences. Don't re-paste long tool output that the user can already see.\n\
    - If a tool returned an error, report it and stop. Do not retry the same call with a guessed argument.\n\
    \n\
    Stay focused on what the user asked. Be concise. Be safe.";

/// The working directory as the prompt names it.
pub open spec fn dir_text(working_dir: Option<String>) -> Seq<char> {
    match working_dir {
        Some(d) => d@,
        None => "(none selected)"@,
    }
}

pub open spec fn prompt_text(dir: Seq<char>, listing: Seq<char>) -> Seq<char> {
    PROMPT_INTRO@ + dir + PROMPT_LISTING_HEADER@ + listing + PROMPT_RULES@ + dir + PROMPT_CLOSING@
}

/// The system prompt: who the assistant is, the working directory and its top-level
/// listing, and the rules it must follow.
pub fn system_prompt(working_dir: &Option<String>, dir_listing: &str) -> (r: String)
    ensures
        r@ == prompt_text(dir_text(*working_dir), dir_listing@),
{
    let dir = match working_dir {
        Some(d) => d.as_str(),
        None => "(none selected)",
    };
    let mut r = String::from_str(PROMPT_INTRO);
    r.append(dir);
    r.append(PROMPT_LISTING_HEADER);
    r.append(dir_listing);
    r.append(PROMPT_RULES);
    r.append(dir);
    r.append(PROMPT_CLOSING);
    r
}

/// Most entries the listing in the prompt shows.
pub const SUMMARY_MAX_ENTRIES: usize = 40;

/// `- name`, with a `/` after a directory's name.
pub open spec fn entry_line(e: FileEntry) -> Seq<char> {
    "- "@ + e.name@ + if e.is_dir {
        "/"@
    } else {
        Seq::empty()
    }
}

pub open spec fn entry_lines(entries: Seq<FileEntry>) -> Seq<Seq<char>> {
    entries.map_values(|e: FileEntry| entry_line(e))
}

/// The top-level listing embedded in the prompt: at most 40 entries, then how many were
/// left out; a note instead when the directory is empty or could not be read.
pub open spec fn summary_text(listing: Result<Seq<FileEntry>, AppError>) -> Seq<char> {
    match listing {
        Err(_) => "(could not read working directory — proceed by calling list_files or find_files)"@,
        Ok(entries) => if entries.len() == 0 {
            "(empty directory)"@
        } else if entries.len() > SUMMARY_MAX_ENTRIES {
            join_with(
                entry_lines(entries).take(SUMMARY_MAX_ENTRIES as int).push(
                    "- ... and "@ + decimal((entries.len() - SUMMARY_MAX_ENTRIES) as nat)
                        + " more entries"@,
                ),
                "\n"@,
            )
        } else {
            join_with(entry_lines(entries), "\n"@)
        },
    }
}

pub open spec fn listing_view(listing: Result<Vec<FileEntry>, AppError>) -> Result<Seq<FileEntry>, AppError> {
    match listing {
        Ok(v) => Ok(v@),
        Err(e) => Err(e),
    }
}

/// A compact top-level listing of the working directory (as read, in listing order) to
/// ground the model in what exists.
pub fn working_dir_summary(listing: Result<Vec<FileEntry>, AppError>) -> (r: String)
    ensures
        r@ == summary_text(listing_view(listing)),
{
    let entries = match listing {
        Err(_) => {
            return String::from_str(
                "(could not read working directory — proceed by calling list_files or find_files)",
            );
        },
        Ok(v) => v,
    };
    if entries.len() == 0 {
        return String::from_str("(empty directory)");
    }
    let ghost all = entry_lines(entries@);
    let mut lines: Vec<String> = Vec::new();
    let mut i: usize = 0;
    while i < entries.len() && i < SUMMARY_MAX_ENTRIES
        invariant
            0 <= i <= entries.len(),
            i <= SUMMARY_MAX_ENTRIES,
            all == entry_lines(entries@),
            views_of(lines@) == all.take(i as int),
        decreases entries.len() - i,
    {
        let e = &entries[i];
        let mut line = String::from_str("- ");
        line.append(e.name.as_str());
        if e.is_dir {
            line.append("/");
        }
        assert(line@ == all[i as int]);
        let ghost before = views_of(lines@);
        lines.push(line);
        assert(views_of(lines@) =~= before.push(all[i as int]));
        assert(all.take(i + 1) =~= all.take(i as int).push(all[i as int]));
        i += 1;
    }
    if entries.len() > SUMMARY_MAX_ENTRIES {
        let mut more = String::from_str("- ... and ");
        crate::text::push_decimal((entries.len() - SUMMARY_MAX_ENTRIES) as u64, &mut more);
        more.append(" more entries");
        let ghost before = views_of(lines@);
        lines.push(more);
        assert(views_of(lines@) =~= before.push(
            "- ... and "@ + decimal((entries.len() - SUMMARY_MAX_ENTRIES) as nat) + " more entries"@,
        ));
    } else {
        assert(all.take(i as int) =~= all);
    }
    join(&lines, "\n")
}

} // verus!
