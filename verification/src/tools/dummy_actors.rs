//! Stand-in actors for the browser, code analysis and the shell: which
//! tasks they take and what they answer. The answers of the code analyser
//! come from a few textual checks of the code.
use vstd::prelude::*;
use crate::bus::{SystemEvent, SystemEventView};
use crate::text::{
    chars_of, concat3, contains, first_chars, has_infix, join, join_strings, owned, push_all, push_str, same_text,
    string_of, take_chars, views,
};

verus! {

/// Whether the stand-in browser takes tasks for `tool`.
pub fn browser_handles(tool: &str) -> (b: bool)
    ensures
        b == (tool@ == "browser"@ || tool@ == "scrape"@),
{
    same_text(tool, "browser") || same_text(tool, "scrape")
}

/// The warning the stand-in browser logs for each task.
pub fn browser_warning() -> (e: SystemEvent)
    ensures
        e@ == (SystemEventView::Log {
            level: "WARN"@,
            source: "Browser"@,
            message: "Browser actor not available. Install headless_chrome feature."@,
        }),
{
    SystemEvent::Log {
        level: owned("WARN"),
        source: owned("Browser"),
        message: owned("Browser actor not available. Install headless_chrome feature."),
    }
}

/// The stand-in browser's answer for `url`.
pub fn browser_simulation(url: &str) -> (r: String)
    ensures
        r@ == "Browser simulation for: "@ + url@
            + "\n\nNote: Real browser requires 'headless_chrome' feature.\nBuild with: cargo build --features with-browser"@,
{
    concat3(
        "Browser simulation for: ",
        url,
        "\n\nNote: Real browser requires 'headless_chrome' feature.\nBuild with: cargo build --features with-browser",
    )
}

/// Whether the code analyser takes tasks for `tool`.
pub fn lsp_handles(tool: &str) -> (b: bool)
    ensures
        b == (tool@ == "lsp"@ || tool@ == "analyze"@ || tool@ == "review"@),
{
    same_text(tool, "lsp") || same_text(tool, "analyze") || same_text(tool, "review")
}

/// The code analyser's log line for each task.
pub fn lsp_started() -> (e: SystemEvent)
    ensures
        e@ == (SystemEventView::Log { level: "INFO"@, source: "LSP"@, message: "Analyzing code..."@ }),
{
    SystemEvent::Log { level: owned("INFO"), source: owned("LSP"), message: owned("Analyzing code...") }
}

/// The findings about `code`, in order: unsafe code, `unwrap()` calls, no
/// function definitions.
pub open spec fn diagnostics(code: Seq<char>) -> Seq<Seq<char>> {
    let a = if has_infix(code, "unsafe"@) {
        seq!["⚠️ Warning: unsafe code detected"@]
    } else {
        Seq::empty()
    };
    let b = if has_infix(code, "unwrap()"@) {
        seq!["⚠️ Suggestion: Consider using Result handling instead of unwrap()"@]
    } else {
        Seq::empty()
    };
    let c = if !has_infix(code, "fn main()"@) && !has_infix(code, "pub fn"@) && !has_infix(code, "fn "@) {
        seq!["ℹ️ Info: No function definitions found"@]
    } else {
        Seq::empty()
    };
    a + b + c
}

/// The most characters of the code shown in an analysis.
pub const CODE_PREVIEW_CHARS: usize = 500;

/// The analysis of `code`: the findings one per line (or that there are
/// none), then the first 500 characters of the code.
pub open spec fn analysis(code: Seq<char>) -> Seq<char> {
    let d = diagnostics(code);
    let body = if d.len() == 0 {
        "✅ No issues found"@
    } else {
        join(d, "\n"@)
    };
    "Code Analysis:\n"@ + body + "\n\nCode preview:\n"@ + first_chars(code, CODE_PREVIEW_CHARS as int)
}

fn text_has(code: &Vec<char>, pat: &str) -> (b: bool)
    ensures
        b == has_infix(code@, pat@),
{
    let p = chars_of(pat);
    contains(code.as_slice(), p.as_slice())
}

/// Analyses `code`.
pub fn analyze_code(code: &str) -> (r: String)
    ensures
        r@ == analysis(code@),
{
    let c = chars_of(code);
    let mut d: Vec<String> = Vec::new();
    if text_has(&c, "unsafe") {
        d.push(owned("⚠️ Warning: unsafe code detected"));
    }
    if text_has(&c, "unwrap()") {
        d.push(owned("⚠️ Suggestion: Consider using Result handling instead of unwrap()"));
    }
    if !text_has(&c, "fn main()") && !text_has(&c, "pub fn") && !text_has(&c, "fn ") {
        d.push(owned("ℹ️ Info: No function definitions found"));
    }
    assert(views(d@) =~= diagnostics(code@));
    let body = if d.len() == 0 {
        owned("✅ No issues found")
    } else {
        join_strings(&d, "\n")
    };
    let head = take_chars(c.as_slice(), CODE_PREVIEW_CHARS);
    let mut v: Vec<char> = Vec::new();
    push_str(&mut v, "Code Analysis:\n");
    push_str(&mut v, body.as_str());
    push_str(&mut v, "\n\nCode preview:\n");
    push_all(&mut v, head.as_slice());
    string_of(v.as_slice())
}

/// Whether the stand-in shell takes tasks for `tool`.
pub fn shell_handles(tool: &str) -> (b: bool)
    ensures
        b == (tool@ == "shell"@ || tool@ == "run"@ || tool@ == "exec"@),
{
    same_text(tool, "shell") || same_text(tool, "run") || same_text(tool, "exec")
}

/// The warning the stand-in shell logs for each task.
pub fn shell_warning() -> (e: SystemEvent)
    ensures
        e@ == (SystemEventView::Log {
            level: "WARN"@,
            source: "Shell"@,
            message: "Shell execution not available in dummy mode"@,
        }),
{
    SystemEvent::Log {
        level: owned("WARN"),
        source: owned("Shell"),
        message: owned("Shell execution not available in dummy mode"),
    }
}

/// The stand-in shell's answer for `cmd`.
pub fn shell_simulation(cmd: &str) -> (r: String)
    ensures
        r@ == "Shell command simulation: "@ + cmd@
            + "\n\nNote: Real shell execution requires sandbox integration.\nUse orchestrator for real command execution."@,
{
    concat3(
        "Shell command simulation: ",
        cmd,
        "\n\nNote: Real shell execution requires sandbox integration.\nUse orchestrator for real command execution.",
    )
}

} // verus!
