//! Actionable guidance attached to error messages: a few fixed hints
//! chosen by what the (lower-cased) message mentions.

use vstd::prelude::*;
use crate::text;

verus! {

/// The hints owed to a lower-cased error message: connection, model,
/// database, result, clipboard and terminal troubles each add their two
/// hints, and a message matching nothing gets the generic pair.
pub open spec fn spec_guidance(s: Seq<char>) -> Seq<Seq<char>> {
    let all = spec_guidance_stage(s, 6);
    if all.len() == 0 {
        seq![
            "Check the error message above for details"@,
            "Run with RUST_LOG=debug for more information"@,
        ]
    } else {
        all
    }
}

/// The hints for a lower-cased error message, matching [`spec_guidance`].
pub fn get_guidance(error_str: &str) -> (r: Vec<&'static str>)
    ensures
        r.deep_view() == spec_guidance(error_str@),
{
    let mut out: Vec<&'static str> = Vec::new();
    if text::contains_str(error_str, "connection refused") || text::contains_str(
        error_str,
        "connect error",
    ) {
        out.push("Ensure Ollama is running: ollama serve");
        out.push("Check if Ollama is listening on port 11434");
    }
    proof {
        assert(out.deep_view() =~= spec_guidance_stage(error_str@, 1));
    }
    if text::contains_str(error_str, "model") && text::contains_str(error_str, "not found") {
        out.push("Pull the required model: ollama pull <model>");
        out.push("List available models: ollama list");
    }
    proof {
        assert(out.deep_view() =~= spec_guidance_stage(error_str@, 2));
    }
    if text::contains_str(error_str, "lancedb") || text::contains_str(error_str, "database") {
        out.push("Run setup first: ulm --setup");
        out.push("Check XDG_DATA_HOME permissions");
    }
    proof {
        assert(out.deep_view() =~= spec_guidance_stage(error_str@, 3));
    }
    if text::contains_str(error_str, "no results") || text::contains_str(error_str, "not found") {
        out.push("Try a different search query");
        out.push("Run setup to index manpages: ulm --setup");
    }
    proof {
        assert(out.deep_view() =~= spec_guidance_stage(error_str@, 4));
    }
    if text::contains_str(error_str, "clipboard") {
        out.push("Check if a display server is running (X11/Wayland)");
        out.push("Try running from a graphical terminal");
    }
    proof {
        assert(out.deep_view() =~= spec_guidance_stage(error_str@, 5));
    }
    if text::contains_str(error_str, "terminal") || text::contains_str(error_str, "tty") {
        out.push("Ensure running in a terminal emulator");
        out.push("Check TERM environment variable is set");
    }
    proof {
        assert(out.deep_view() =~= spec_guidance_stage(error_str@, 6));
    }
    if out.len() == 0 {
        out.push("Check the error message above for details");
        out.push("Run with RUST_LOG=debug for more information");
    }
    proof {
        assert(out.deep_view() =~= spec_guidance(error_str@));
    }
    out
}

/// The hints accumulated after the first `stage` rules.
pub open spec fn spec_guidance_stage(s: Seq<char>, stage: int) -> Seq<Seq<char>> {
    let v1: Seq<Seq<char>> = if text::spec_contains_str(s, "connection refused"@)
        || text::spec_contains_str(s, "connect error"@) {
        seq![
            "Ensure Ollama is running: ollama serve"@,
            "Check if Ollama is listening on port 11434"@,
        ]
    } else {
        Seq::empty()
    };
    if stage <= 1 {
        v1
    } else {
        let v2 = if text::spec_contains_str(s, "model"@) && text::spec_contains_str(
            s,
            "not found"@,
        ) {
            v1 + seq![
                "Pull the required model: ollama pull <model>"@,
                "List available models: ollama list"@,
            ]
        } else {
            v1
        };
        if stage <= 2 {
            v2
        } else {
            let v3 = if text::spec_contains_str(s, "lancedb"@) || text::spec_contains_str(
                s,
                "database"@,
            ) {
                v2 + seq!["Run setup first: ulm --setup"@, "Check XDG_DATA_HOME permissions"@]
            } else {
                v2
            };
            if stage <= 3 {
                v3
            } else {
                let v4 = if text::spec_contains_str(s, "no results"@) || text::spec_contains_str(
                    s,
                    "not found"@,
                ) {
                    v3 + seq![
                        "Try a different search query"@,
                        "Run setup to index manpages: ulm --setup"@,
                    ]
                } else {
                    v3
                };
                if stage <= 4 {
                    v4
                } else {
                    let v5 = if text::spec_contains_str(s, "clipboard"@) {
                        v4 + seq![
                            "Check if a display server is running (X11/Wayland)"@,
                            "Try running from a graphical terminal"@,
                        ]
                    } else {
                        v4
                    };
                    if stage <= 5 {
                        v5
                    } else {
                        if text::spec_contains_str(s, "terminal"@) || text::spec_contains_str(
                            s,
                            "tty"@,
                        ) {
                            v5 + seq![
                                "Ensure running in a terminal emulator"@,
                                "Check TERM environment variable is set"@,
                            ]
                        } else {
                            v5
                        }
                    }
                }
            }
        }
    }
}

} // verus!
