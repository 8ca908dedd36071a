//! The answers of the setup wizard, and the configuration file they make.
use vstd::prelude::*;

use crate::config::{parse_unsigned, parsed_unsigned};
use crate::text::{chars_of, concat2, join, join_with, string_from_range, trim, trim_str, views_of};

verus! {

/// The option chosen by a typed answer (a line, `None` at the end of input) among `count`
/// options: the default for a blank answer; the numbered option (from 1) for a number in
/// range; the default, flagged as invalid, for anything else.
pub open spec fn choice_of(line: Option<Seq<char>>, count: nat, default: nat) -> (nat, bool) {
    let t = match line {
        Some(s) => trim(s),
        None => Seq::empty(),
    };
    if t.len() == 0 {
        (default, false)
    } else {
        match parsed_unsigned(t, usize::MAX as int) {
            Some(n) => if 1 <= n <= count {
                ((n - 1) as nat, false)
            } else {
                (default, true)
            },
            None => (default, true),
        }
    }
}

/// Reads the answer to a numbered choice; tells whether it was invalid.
pub fn parse_choice(line: Option<&str>, count: usize, default: usize) -> (r: (usize, bool))
    ensures
        (r.0 as nat, r.1) == choice_of(
            match line {
                Some(s) => Some(s@),
                None => None,
            },
            count as nat,
            default as nat,
        ),
{
    let t = match line {
        Some(s) => trim_str(s),
        None => String::new(),
    };
    if t.as_str().is_empty() {
        return (default, false);
    }
    match parse_unsigned(t.as_str(), usize::MAX as u64) {
        Some(n) => {
            if 1 <= n && n <= count as u64 {
                ((n - 1) as usize, false)
            } else {
                (default, true)
            }
        },
        None => (default, true),
    }
}

/// An answer to a prompt with a default: the typed line, trimmed, or the default when
/// blank or absent.
pub open spec fn answer_of(line: Option<Seq<char>>, default: Seq<char>) -> Seq<char> {
    match line {
        Some(s) => if trim(s).len() > 0 {
            trim(s)
        } else {
            default
        },
        None => default,
    }
}

pub fn answer(line: Option<&str>, default: &str) -> (r: String)
    ensures
        r@ == answer_of(
            match line {
                Some(s) => Some(s@),
                None => None,
            },
            default@,
        ),
{
    match line {
        Some(s) => {
            let t = trim_str(s);
            if t.as_str().is_empty() {
                String::from_str(default)
            } else {
                t
            }
        },
        None => String::from_str(default),
    }
}

/// How a stored API key is hinted at: its first eight characters and an ellipsis when
/// it is longer, else only that it is set.
pub open spec fn key_hint_of(key: Seq<char>) -> Seq<char> {
    if key.len() > 8 {
        key.take(8) + "\u{2026}"@
    } else {
        "(set)"@
    }
}

/// The hint for a stored key; keys are ASCII, so characters and bytes agree.
pub fn key_hint(key: &str) -> (r: String)
    requires
        forall|i: int| 0 <= i < key@.len() ==> ((#[trigger] key@[i]) as u32) < 0x80,
    ensures
        r@ == key_hint_of(key@),
{
    let v = chars_of(key);
    if v.len() > 8 {
        let head = string_from_range(&v, 0, 8);
        concat2(head.as_str(), "\u{2026}")
    } else {
        String::from_str("(set)")
    }
}

pub open spec fn default_openrouter_model() -> Seq<char> {
    "google/gemini-2.5-flash-lite"@
}

pub open spec fn default_ollama_url() -> Seq<char> {
    "http://localhost:11434"@
}

/// The lines of the configuration file the wizard writes, for the provider chosen
/// (0: OpenRouter, 1: Ollama, otherwise the offline runtime) and the answers given.
pub open spec fn config_lines(provider: nat, api_key: Seq<char>, model: Seq<char>, ollama_url: Seq<char>) -> Seq<Seq<char>> {
    if provider == 0 {
        seq!["PROVIDER=openrouter"@] + (if api_key.len() > 0 {
            seq!["OPENROUTER_API_KEY="@ + api_key]
        } else {
            Seq::empty()
        }) + (if model != default_openrouter_model() {
            seq!["MODEL="@ + model]
        } else {
            Seq::empty()
        })
    } else if provider == 1 {
        seq!["PROVIDER=ollama"@] + (if ollama_url != default_ollama_url() {
            seq!["OLLAMA_BASE_URL="@ + ollama_url]
        } else {
            Seq::empty()
        }) + seq!["MODEL="@ + model]
    } else {
        seq!["PROVIDER=local"@]
    }
}

/// The text of the configuration file: its lines, each ended by a line break.
pub fn config_text(provider: usize, api_key: &str, model: &str, ollama_url: &str) -> (r: String)
    ensures
        r@ == join_with(
            config_lines(provider as nat, api_key@, model@, ollama_url@),
            "\n"@,
        ) + "\n"@,
{
    proof {
        reveal_strlit("google/gemini-2.5-flash-lite");
        reveal_strlit("http://localhost:11434");
    }
    let mut lines: Vec<String> = Vec::new();
    if provider == 0 {
        lines.push(String::from_str("PROVIDER=openrouter"));
        if !api_key.is_empty() {
            lines.push(concat2("OPENROUTER_API_KEY=", api_key));
        }
        if !crate::text::str_eq(model, "google/gemini-2.5-flash-lite") {
            lines.push(concat2("MODEL=", model));
        }
    } else if provider == 1 {
        lines.push(String::from_str("PROVIDER=ollama"));
        if !crate::text::str_eq(ollama_url, "http://localhost:11434") {
            lines.push(concat2("OLLAMA_BASE_URL=", ollama_url));
        }
        lines.push(concat2("MODEL=", model));
    } else {
        lines.push(String::from_str("PROVIDER=local"));
    }
    assert(views_of(lines@) =~= config_lines(provider as nat, api_key@, model@, ollama_url@));
    let mut text = join(&lines, "\n");
    text.append("\n");
    text
}

} // verus!
