//! Prompt assembly: system instructions, directory context, manpage text
//! and the user's question, under a hard byte budget that only ever cuts
//! the manpage region.

use vstd::prelude::*;
use vstd::utf8::*;
use vstd::string::StringSliceAdditionalSpecFns;
use crate::context::DirectoryContext;
use crate::context;
use crate::text;

verus! {

/// Fixed instructions put in front of every prompt.
pub const SYSTEM_INSTRUCTIONS: &'static str = "You are a command-line expert assistant. Your task is to suggest relevant commands based on the user's query and the provided manpage documentation.\n\nAnalyze the manpage content and generate practical command suggestions that solve the user's problem. Consider the working directory context when suggesting commands.\n\nIMPORTANT: Respond ONLY with valid JSON in the following format:\n{\n  \"suggestions\": [\n    {\n      \"command\": \"the exact command to run\",\n      \"title\": \"brief title (3-5 words)\",\n      \"explanation\": \"why this command helps and what it does\",\n      \"risk_level\": \"safe|moderate|destructive\"\n    }\n  ]\n}\n\nRisk levels:\n- \"safe\": Read-only operations, no side effects\n- \"moderate\": Modifies files but recoverable (e.g., creates/edits files)\n- \"destructive\": Irreversible operations (e.g., rm -rf, force push)\n\nProvide 1-3 command suggestions, ordered by relevance. If the query cannot be answered with the provided manpage, respond with an empty suggestions array.";

/// Hard budget for the whole prompt, in bytes.
pub const MAX_PROMPT_LENGTH: usize = 48000;

/// The prompt document: instructions, context, manpage region (with its
/// truncation marker when one was cut in), then the query and the closing
/// instruction, separated by `---` lines.
pub open spec fn spec_prompt_parts(
    q: Seq<char>,
    page: Seq<char>,
    ctx: Seq<char>,
    truncated: bool,
) -> Seq<char> {
    SYSTEM_INSTRUCTIONS@ + "\n\n---\n\n## Context\n\n"@ + ctx + "\n\n---\n\n## Manpage Content\n\n"@
        + page + (if truncated {
        "\n\n[Content truncated for length]"@
    } else {
        Seq::<char>::empty()
    }) + "\n\n---\n\n## User Query\n\n"@ + q + "\n\n---\n\nRespond with JSON only:"@
}

/// The bytes of the prompt that are kept whatever happens to the manpage
/// region: everything but that region.
pub open spec fn spec_prompt_overhead(q: Seq<char>, ctx: Seq<char>) -> int {
    text::spec_byte_len(spec_prompt_parts(q, Seq::empty(), ctx, false)) as int
}

/// The byte budget left for the manpage region once the rest of the prompt
/// and a hundred bytes of slack are paid for.
pub open spec fn spec_page_budget(q: Seq<char>, ctx: Seq<char>) -> int {
    let overhead = spec_prompt_overhead(q, ctx);
    if overhead >= MAX_PROMPT_LENGTH as int {
        0
    } else if MAX_PROMPT_LENGTH - overhead >= 100 {
        MAX_PROMPT_LENGTH - overhead - 100
    } else {
        0
    }
}

/// The prompt byte length splits into the overhead and the regions that
/// vary: the manpage region and, when present, the truncation marker.
proof fn lemma_prompt_len(q: Seq<char>, page: Seq<char>, ctx: Seq<char>, truncated: bool)
    ensures
        text::spec_byte_len(spec_prompt_parts(q, page, ctx, truncated)) == spec_prompt_overhead(
            q,
            ctx,
        ) + text::spec_byte_len(page) + (if truncated {
            text::spec_byte_len("\n\n[Content truncated for length]"@) as int
        } else {
            0
        }),
{
    let a = SYSTEM_INSTRUCTIONS@ + "\n\n---\n\n## Context\n\n"@ + ctx
        + "\n\n---\n\n## Manpage Content\n\n"@;
    let b = "\n\n---\n\n## User Query\n\n"@ + q + "\n\n---\n\nRespond with JSON only:"@;
    let m = "\n\n[Content truncated for length]"@;
    if truncated {
        assert(spec_prompt_parts(q, page, ctx, truncated) =~= a + (page + (m + b)));
        text::lemma_encode_concat(a, page + (m + b));
        text::lemma_encode_concat(page, m + b);
        text::lemma_encode_concat(m, b);
    } else {
        assert(spec_prompt_parts(q, page, ctx, truncated) =~= a + (page + b));
        text::lemma_encode_concat(a, page + b);
        text::lemma_encode_concat(page, b);
    }
    assert(spec_prompt_parts(q, Seq::empty(), ctx, false) =~= a + b);
    text::lemma_encode_concat(a, b);
}

/// The truncation marker is 32 ASCII characters, so 32 bytes.
proof fn lemma_marker_len()
    ensures
        text::spec_byte_len("\n\n[Content truncated for length]"@) == 32,
{
    let m = "\n\n[Content truncated for length]";
    reveal_strlit("\n\n[Content truncated for length]");
    assert(m@.len() == 32);
    assert(is_ascii_chars(m@)) by {
        assert(forall|k: int| 0 <= k < m@.len() ==> (#[trigger] m@[k]) as u32 <= 127);
    }
    is_ascii_chars_encode_utf8(m@);
}

/// Builds the prompt document. When the whole document would run over the
/// byte budget, only the manpage region is cut, on a character boundary,
/// and the cut is marked; every other region is kept verbatim.
pub fn build_prompt(query: &str, manpage_content: &str, context: &DirectoryContext) -> (r: String)
    ensures
        ({
            let ctx = context::spec_context_block(*context);
            &&& text::spec_byte_len(spec_prompt_parts(query@, manpage_content@, ctx, false))
                <= MAX_PROMPT_LENGTH ==> r@ == spec_prompt_parts(
                query@,
                manpage_content@,
                ctx,
                false,
            )
            &&& text::spec_byte_len(spec_prompt_parts(query@, manpage_content@, ctx, false))
                > MAX_PROMPT_LENGTH ==> r@ == spec_prompt_parts(
                query@,
                text::spec_truncate_chars(manpage_content@, spec_page_budget(query@, ctx)),
                ctx,
                true,
            )
            &&& spec_prompt_overhead(query@, ctx) + 100 <= MAX_PROMPT_LENGTH ==> text::spec_byte_len(
                r@,
            ) <= MAX_PROMPT_LENGTH
        }),
{
    broadcast use vstd::utf8::encode_utf8_valid_utf8;
    broadcast use vstd::utf8::encode_utf8_decode_utf8;
    broadcast use vstd::utf8::decode_utf8_encode_utf8;

    let ghost ctx = context::spec_context_block(*context);
    let context_str = context.format_for_prompt();

    let mut prompt = String::new();
    prompt.append(SYSTEM_INSTRUCTIONS);
    prompt.append("\n\n---\n\n## Context\n\n");
    prompt.append(context_str.as_str());
    prompt.append("\n\n---\n\n## Manpage Content\n\n");
    prompt.append(manpage_content);
    prompt.append("\n\n---\n\n## User Query\n\n");
    prompt.append(query);
    prompt.append("\n\n---\n\nRespond with JSON only:");
    proof {
        assert(prompt@ == spec_prompt_parts(query@, manpage_content@, ctx, false));
    }

    let plen = prompt.as_str().as_bytes().len();
    let page_len = manpage_content.as_bytes().len();
    proof {
        lemma_prompt_len(query@, manpage_content@, ctx, false);
    }
    if plen <= MAX_PROMPT_LENGTH {
        proof {
            lemma_marker_len();
        }
        return prompt;
    }

    let overhead = plen - page_len;
    let max_content: usize = if overhead >= MAX_PROMPT_LENGTH {
        0
    } else if MAX_PROMPT_LENGTH - overhead >= 100 {
        MAX_PROMPT_LENGTH - overhead - 100
    } else {
        0
    };
    proof {
        assert(max_content as int == spec_page_budget(query@, ctx));
    }
    let truncated_content = text::truncate_at_boundary(manpage_content, max_content);

    let mut cut = String::new();
    cut.append(SYSTEM_INSTRUCTIONS);
    cut.append("\n\n---\n\n## Context\n\n");
    cut.append(context_str.as_str());
    cut.append("\n\n---\n\n## Manpage Content\n\n");
    cut.append(truncated_content);
    cut.append("\n\n[Content truncated for length]");
    cut.append("\n\n---\n\n## User Query\n\n");
    cut.append(query);
    cut.append("\n\n---\n\nRespond with JSON only:");
    proof {
        assert(cut@ == spec_prompt_parts(query@, truncated_content@, ctx, true));
        lemma_prompt_len(query@, truncated_content@, ctx, true);
        lemma_marker_len();
        text::lemma_truncation_safe(manpage_content.spec_bytes(), max_content as int);
        assert(text::spec_byte_len(truncated_content@) == truncated_content.spec_bytes().len());
    }
    cut
}

} // verus!
