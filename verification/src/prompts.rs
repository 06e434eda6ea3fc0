//! The prompts sent for a rewrite: a system prompt per style, the user prompt
//! around the source text, and a prompt built from a skill description.
use vstd::prelude::*;
use crate::text::{decimal_spec, extend_str, push_decimal, string_from_chars};

verus! {

/// How the article is to be rewritten.
#[derive(Clone, Copy, Debug, PartialEq, Eq, Structural)]
pub enum RewriteStyle {
    /// Clean grammar and flow without changing the structure much.
    Clean,
    /// Senior engineer tone; practical and clear.
    Practitioner,
    /// Field-note style; grounded and less corporate.
    FieldNote,
    /// Rebuild the article with a publication-style structure.
    ReferenceArticle,
}

/// The system prompt for each style.
pub open spec fn system_prompt_text(style: RewriteStyle) -> Seq<char> {
    match style {
        RewriteStyle::Clean => "You are a careful technical editor. Rewrite for clarity, grammar, and natural flow while preserving the original structure and meaning. Return only the rewritten text."@,
        RewriteStyle::Practitioner => "You are a senior software engineering practitioner editing a technical article for a developer publication. Keep the writing practical, specific, and natural. Avoid corporate polish and casual slang. Return only the rewritten text."@,
        RewriteStyle::FieldNote => "You are editing a field note from an experienced engineer. Make it sound grounded in real software delivery experience. Use clear prose, not marketing language. Do not add unsupported claims. Return only the rewritten text."@,
        RewriteStyle::ReferenceArticle => "You are a senior technical editor preparing a developer-publication article. Rebuild the user's draft using a strong architecture-article structure similar to high-quality InfoQ-style technical writing. The output should feel human-edited, technically grounded, and publication-ready. Do not copy wording from any reference article. Do not add unsupported claims. Return only the rewritten article text."@,
    }
}
fn system_prompt_str(style: RewriteStyle) -> (r: &'static str)
    ensures
        r@ == system_prompt_text(style),
{
    match style {
        RewriteStyle::Clean => "You are a careful technical editor. Rewrite for clarity, grammar, and natural flow while preserving the original structure and meaning. Return only the rewritten text.",
        RewriteStyle::Practitioner => "You are a senior software engineering practitioner editing a technical article for a developer publication. Keep the writing practical, specific, and natural. Avoid corporate polish and casual slang. Return only the rewritten text.",
        RewriteStyle::FieldNote => "You are editing a field note from an experienced engineer. Make it sound grounded in real software delivery experience. Use clear prose, not marketing language. Do not add unsupported claims. Return only the rewritten text.",
        RewriteStyle::ReferenceArticle => "You are a senior technical editor preparing a developer-publication article. Rebuild the user's draft using a strong architecture-article structure similar to high-quality InfoQ-style technical writing. The output should feel human-edited, technically grounded, and publication-ready. Do not copy wording from any reference article. Do not add unsupported claims. Return only the rewritten article text.",
    }
}
/// The rewriting instructions for each style, at the head of the user prompt.
pub open spec fn style_instructions(style: RewriteStyle) -> Seq<char> {
    match style {
        RewriteStyle::Clean => "Clean up the text. Fix grammar, remove awkward phrasing, improve flow, and preserve the original structure."@,
        RewriteStyle::Practitioner => "Rewrite in a practical senior-engineer voice. Preserve technical accuracy. Remove AI-polished phrases. Do not make it casual or marketing-like."@,
        RewriteStyle::FieldNote => "Rewrite as a grounded field article. Use natural paragraph flow, clear transitions, and practitioner wording. Avoid numbered textbook structure unless the source already uses it."@,
        RewriteStyle::ReferenceArticle => "Restructure this draft using the following publication pattern:\n\n1. Key Takeaways: 4-5 concise bullets.\n2. Why This Topic Matters: explain the problem and why AI-assisted delivery changes the risk profile.\n3. What Loop Engineering Means: define the concept clearly.\n4. AI-Assisted Development as the Constraint: explain why generation speed creates a need for validation and evidence.\n5. Why Loop Engineering Matters in Practice: explain benefits with concrete engineering language.\n6. What Hurts \u{2014} and What Actually Helps: describe common failure modes and the practices that reduce them.\n7. The Feedback Loops: cover intent, generation, validation, human review, runtime feedback, and business outcome. Do not make this a dry numbered textbook list; use flowing article prose.\n8. Example: AI-Assisted UI Generation.\n9. Example: Modernization.\n10. Bringing It All Together.\n11. Conclusion.\n\nImportant writing rules:\n- Keep the article human, clear, and professional.\n- Do not over-polish. Avoid words like invaluable, robust, seamless, transformative, crucial, paramount, indispensable, leverage, utilize, landscape, empowers, and cutting-edge.\n- Do not introduce fake data, fake quotes, fake company names, or unsupported claims.\n- Preserve important terms such as Agile, DevOps, CI/CD, DORA metrics, Spring Boot, API, UI, Maven, Gradle, MQ, Kafka, security, governance, and architecture.\n- Prefer concrete engineering wording over generic statements.\n- Vary sentence length.\n- Return only the rewritten article."@,
    }
}
fn style_instructions_str(style: RewriteStyle) -> (r: &'static str)
    ensures
        r@ == style_instructions(style),
{
    match style {
        RewriteStyle::Clean => "Clean up the text. Fix grammar, remove awkward phrasing, improve flow, and preserve the original structure.",
        RewriteStyle::Practitioner => "Rewrite in a practical senior-engineer voice. Preserve technical accuracy. Remove AI-polished phrases. Do not make it casual or marketing-like.",
        RewriteStyle::FieldNote => "Rewrite as a grounded field article. Use natural paragraph flow, clear transitions, and practitioner wording. Avoid numbered textbook structure unless the source already uses it.",
        RewriteStyle::ReferenceArticle => "Restructure this draft using the following publication pattern:\n\n1. Key Takeaways: 4-5 concise bullets.\n2. Why This Topic Matters: explain the problem and why AI-assisted delivery changes the risk profile.\n3. What Loop Engineering Means: define the concept clearly.\n4. AI-Assisted Development as the Constraint: explain why generation speed creates a need for validation and evidence.\n5. Why Loop Engineering Matters in Practice: explain benefits with concrete engineering language.\n6. What Hurts \u{2014} and What Actually Helps: describe common failure modes and the practices that reduce them.\n7. The Feedback Loops: cover intent, generation, validation, human review, runtime feedback, and business outcome. Do not make this a dry numbered textbook list; use flowing article prose.\n8. Example: AI-Assisted UI Generation.\n9. Example: Modernization.\n10. Bringing It All Together.\n11. Conclusion.\n\nImportant writing rules:\n- Keep the article human, clear, and professional.\n- Do not over-polish. Avoid words like invaluable, robust, seamless, transformative, crucial, paramount, indispensable, leverage, utilize, landscape, empowers, and cutting-edge.\n- Do not introduce fake data, fake quotes, fake company names, or unsupported claims.\n- Preserve important terms such as Agile, DevOps, CI/CD, DORA metrics, Spring Boot, API, UI, Maven, Gradle, MQ, Kafka, security, governance, and architecture.\n- Prefer concrete engineering wording over generic statements.\n- Vary sentence length.\n- Return only the rewritten article.",
    }
}

/// The system prompt for `style`.
pub fn build_system_prompt(style: RewriteStyle) -> (r: String)
    ensures
        r@ == system_prompt_text(style),
{
    system_prompt_str(style).to_owned()
}

/// The note that opens the prompt of one chunk of a longer article.
pub open spec fn chunk_note(chunk_no: nat, chunk_total: nat) -> Seq<char> {
    "This is chunk "@ + decimal_spec(chunk_no) + "/"@ + decimal_spec(chunk_total)
        + " of a longer article. Rewrite only this chunk, but keep it compatible with the full article.\n\n"@
}

/// The user prompt: the chunk note when the article was chunked, the style's
/// instructions, then the source text under a heading.
pub open spec fn user_prompt_spec(
    text: Seq<char>,
    style: RewriteStyle,
    is_chunked: bool,
    chunk_no: nat,
    chunk_total: nat,
) -> Seq<char> {
    (if is_chunked { chunk_note(chunk_no, chunk_total) } else { Seq::<char>::empty() })
        + style_instructions(style) + "\n\nSOURCE TEXT:\n"@ + text
}

/// The user prompt for one piece of the article.
pub fn build_user_prompt(
    text: &str,
    style: RewriteStyle,
    is_chunked: bool,
    chunk_no: usize,
    chunk_total: usize,
) -> (r: String)
    ensures
        r@ == user_prompt_spec(text@, style, is_chunked, chunk_no as nat, chunk_total as nat),
{
    let mut out: Vec<char> = Vec::new();
    if is_chunked {
        extend_str(&mut out, "This is chunk ");
        push_decimal(&mut out, chunk_no as u64);
        extend_str(&mut out, "/");
        push_decimal(&mut out, chunk_total as u64);
        extend_str(
            &mut out,
            " of a longer article. Rewrite only this chunk, but keep it compatible with the full article.\n\n",
        );
    }
    assert(out@ =~= (if is_chunked { chunk_note(chunk_no as nat, chunk_total as nat) } else { Seq::<char>::empty() }));
    extend_str(&mut out, style_instructions_str(style));
    extend_str(&mut out, "\n\nSOURCE TEXT:\n");
    extend_str(&mut out, text);
    assert(out@ =~= user_prompt_spec(text@, style, is_chunked, chunk_no as nat, chunk_total as nat));
    string_from_chars(&out)
}

/// The prompt made of a skill description and the article to rewrite.
pub open spec fn skill_prompt_spec(skill: Seq<char>, input_text: Seq<char>) -> Seq<char> {
    skill + "\n\n---\n\nSOURCE TEXT TO REWRITE:\n\n"@ + input_text
        + "\n\n---\n\nRewrite the source text using the skill instructions above. Return only the final article."@
}

/// Combines the text of a skill description with the source article.
pub fn build_prompt_from_skill(skill: &str, input_text: &str) -> (r: String)
    ensures
        r@ == skill_prompt_spec(skill@, input_text@),
{
    let mut out: Vec<char> = Vec::new();
    extend_str(&mut out, skill);
    extend_str(&mut out, "\n\n---\n\nSOURCE TEXT TO REWRITE:\n\n");
    extend_str(&mut out, input_text);
    extend_str(
        &mut out,
        "\n\n---\n\nRewrite the source text using the skill instructions above. Return only the final article.",
    );
    assert(out@ =~= skill_prompt_spec(skill@, input_text@));
    string_from_chars(&out)
}


/// Each style's user prompt opens with that style's own instructions, then
/// the source text; a chunked prompt puts the chunk note before that.
pub proof fn lemma_user_prompt_per_style(text: Seq<char>, chunk_no: nat, chunk_total: nat)
    ensures
        user_prompt_spec(text, RewriteStyle::Clean, false, chunk_no, chunk_total) == "Clean up the text. Fix grammar, remove awkward phrasing, improve flow, and preserve the original structure."@ + "\n\nSOURCE TEXT:\n"@ + text,
        user_prompt_spec(text, RewriteStyle::Practitioner, false, chunk_no, chunk_total) == "Rewrite in a practical senior-engineer voice. Preserve technical accuracy. Remove AI-polished phrases. Do not make it casual or marketing-like."@ + "\n\nSOURCE TEXT:\n"@ + text,
        user_prompt_spec(text, RewriteStyle::FieldNote, false, chunk_no, chunk_total) == "Rewrite as a grounded field article. Use natural paragraph flow, clear transitions, and practitioner wording. Avoid numbered textbook structure unless the source already uses it."@ + "\n\nSOURCE TEXT:\n"@ + text,
        user_prompt_spec(text, RewriteStyle::ReferenceArticle, false, chunk_no, chunk_total) == "Restructure this draft using the following publication pattern:\n\n1. Key Takeaways: 4-5 concise bullets.\n2. Why This Topic Matters: explain the problem and why AI-assisted delivery changes the risk profile.\n3. What Loop Engineering Means: define the concept clearly.\n4. AI-Assisted Development as the Constraint: explain why generation speed creates a need for validation and evidence.\n5. Why Loop Engineering Matters in Practice: explain benefits with concrete engineering language.\n6. What Hurts \u{2014} and What Actually Helps: describe common failure modes and the practices that reduce them.\n7. The Feedback Loops: cover intent, generation, validation, human review, runtime feedback, and business outcome. Do not make this a dry numbered textbook list; use flowing article prose.\n8. Example: AI-Assisted UI Generation.\n9. Example: Modernization.\n10. Bringing It All Together.\n11. Conclusion.\n\nImportant writing rules:\n- Keep the article human, clear, and professional.\n- Do not over-polish. Avoid words like invaluable, robust, seamless, transformative, crucial, paramount, indispensable, leverage, utilize, landscape, empowers, and cutting-edge.\n- Do not introduce fake data, fake quotes, fake company names, or unsupported claims.\n- Preserve important terms such as Agile, DevOps, CI/CD, DORA metrics, Spring Boot, API, UI, Maven, Gradle, MQ, Kafka, security, governance, and architecture.\n- Prefer concrete engineering wording over generic statements.\n- Vary sentence length.\n- Return only the rewritten article."@ + "\n\nSOURCE TEXT:\n"@ + text,
        forall|style: RewriteStyle|
            user_prompt_spec(text, style, true, chunk_no, chunk_total) == chunk_note(chunk_no, chunk_total)
                + #[trigger] user_prompt_spec(text, style, false, chunk_no, chunk_total),
{
    assert forall|style: RewriteStyle|
        user_prompt_spec(text, style, true, chunk_no, chunk_total) == chunk_note(chunk_no, chunk_total)
            + #[trigger] user_prompt_spec(text, style, false, chunk_no, chunk_total) by {
        let rest = style_instructions(style) + "\n\nSOURCE TEXT:\n"@ + text;
        assert(user_prompt_spec(text, style, false, chunk_no, chunk_total) =~= rest);
        assert(user_prompt_spec(text, style, true, chunk_no, chunk_total) =~= chunk_note(chunk_no, chunk_total) + rest);
    }
    assert(user_prompt_spec(text, RewriteStyle::Clean, false, chunk_no, chunk_total) =~= "Clean up the text. Fix grammar, remove awkward phrasing, improve flow, and preserve the original structure."@ + "\n\nSOURCE TEXT:\n"@ + text);
    assert(user_prompt_spec(text, RewriteStyle::Practitioner, false, chunk_no, chunk_total) =~= "Rewrite in a practical senior-engineer voice. Preserve technical accuracy. Remove AI-polished phrases. Do not make it casual or marketing-like."@ + "\n\nSOURCE TEXT:\n"@ + text);
    assert(user_prompt_spec(text, RewriteStyle::FieldNote, false, chunk_no, chunk_total) =~= "Rewrite as a grounded field article. Use natural paragraph flow, clear transitions, and practitioner wording. Avoid numbered textbook structure unless the source already uses it."@ + "\n\nSOURCE TEXT:\n"@ + text);
    assert(user_prompt_spec(text, RewriteStyle::ReferenceArticle, false, chunk_no, chunk_total) =~= "Restructure this draft using the following publication pattern:\n\n1. Key Takeaways: 4-5 concise bullets.\n2. Why This Topic Matters: explain the problem and why AI-assisted delivery changes the risk profile.\n3. What Loop Engineering Means: define the concept clearly.\n4. AI-Assisted Development as the Constraint: explain why generation speed creates a need for validation and evidence.\n5. Why Loop Engineering Matters in Practice: explain benefits with concrete engineering language.\n6. What Hurts \u{2014} and What Actually Helps: describe common failure modes and the practices that reduce them.\n7. The Feedback Loops: cover intent, generation, validation, human review, runtime feedback, and business outcome. Do not make this a dry numbered textbook list; use flowing article prose.\n8. Example: AI-Assisted UI Generation.\n9. Example: Modernization.\n10. Bringing It All Together.\n11. Conclusion.\n\nImportant writing rules:\n- Keep the article human, clear, and professional.\n- Do not over-polish. Avoid words like invaluable, robust, seamless, transformative, crucial, paramount, indispensable, leverage, utilize, landscape, empowers, and cutting-edge.\n- Do not introduce fake data, fake quotes, fake company names, or unsupported claims.\n- Preserve important terms such as Agile, DevOps, CI/CD, DORA metrics, Spring Boot, API, UI, Maven, Gradle, MQ, Kafka, security, governance, and architecture.\n- Prefer concrete engineering wording over generic statements.\n- Vary sentence length.\n- Return only the rewritten article."@ + "\n\nSOURCE TEXT:\n"@ + text);
}

/// The system prompt of each style, as written.
pub proof fn lemma_system_prompts()
    ensures
        system_prompt_text(RewriteStyle::Clean) == "You are a careful technical editor. Rewrite for clarity, grammar, and natural flow while preserving the original structure and meaning. Return only the rewritten text."@,
        system_prompt_text(RewriteStyle::Practitioner) == "You are a senior software engineering practitioner editing a technical article for a developer publication. Keep the writing practical, specific, and natural. Avoid corporate polish and casual slang. Return only the rewritten text."@,
        system_prompt_text(RewriteStyle::FieldNote) == "You are editing a field note from an experienced engineer. Make it sound grounded in real software delivery experience. Use clear prose, not marketing language. Do not add unsupported claims. Return only the rewritten text."@,
        system_prompt_text(RewriteStyle::ReferenceArticle) == "You are a senior technical editor preparing a developer-publication article. Rebuild the user's draft using a strong architecture-article structure similar to high-quality InfoQ-style technical writing. The output should feel human-edited, technically grounded, and publication-ready. Do not copy wording from any reference article. Do not add unsupported claims. Return only the rewritten article text."@,
{
}

/// Different styles get different instructions and different system prompts.
pub proof fn lemma_styles_distinct(a: RewriteStyle, b: RewriteStyle)
    requires
        a != b,
    ensures
        style_instructions(a) != style_instructions(b),
        system_prompt_text(a) != system_prompt_text(b),
{
    reveal_strlit("You are a careful technical editor. Rewrite for clarity, grammar, and natural flow while preserving the original structure and meaning. Return only the rewritten text.");
    reveal_strlit("You are a senior software engineering practitioner editing a technical article for a developer publication. Keep the writing practical, specific, and natural. Avoid corporate polish and casual slang. Return only the rewritten text.");
    reveal_strlit("You are editing a field note from an experienced engineer. Make it sound grounded in real software delivery experience. Use clear prose, not marketing language. Do not add unsupported claims. Return only the rewritten text.");
    reveal_strlit("You are a senior technical editor preparing a developer-publication article. Rebuild the user's draft using a strong architecture-article structure similar to high-quality InfoQ-style technical writing. The output should feel human-edited, technically grounded, and publication-ready. Do not copy wording from any reference article. Do not add unsupported claims. Return only the rewritten article text.");
    reveal_strlit("Clean up the text. Fix grammar, remove awkward phrasing, improve flow, and preserve the original structure.");
    reveal_strlit("Rewrite in a practical senior-engineer voice. Preserve technical accuracy. Remove AI-polished phrases. Do not make it casual or marketing-like.");
    reveal_strlit("Rewrite as a grounded field article. Use natural paragraph flow, clear transitions, and practitioner wording. Avoid numbered textbook structure unless the source already uses it.");
    reveal_strlit("Restructure this draft using the following publication pattern:\n\n1. Key Takeaways: 4-5 concise bullets.\n2. Why This Topic Matters: explain the problem and why AI-assisted delivery changes the risk profile.\n3. What Loop Engineering Means: define the concept clearly.\n4. AI-Assisted Development as the Constraint: explain why generation speed creates a need for validation and evidence.\n5. Why Loop Engineering Matters in Practice: explain benefits with concrete engineering language.\n6. What Hurts \u{2014} and What Actually Helps: describe common failure modes and the practices that reduce them.\n7. The Feedback Loops: cover intent, generation, validation, human review, runtime feedback, and business outcome. Do not make this a dry numbered textbook list; use flowing article prose.\n8. Example: AI-Assisted UI Generation.\n9. Example: Modernization.\n10. Bringing It All Together.\n11. Conclusion.\n\nImportant writing rules:\n- Keep the article human, clear, and professional.\n- Do not over-polish. Avoid words like invaluable, robust, seamless, transformative, crucial, paramount, indispensable, leverage, utilize, landscape, empowers, and cutting-edge.\n- Do not introduce fake data, fake quotes, fake company names, or unsupported claims.\n- Preserve important terms such as Agile, DevOps, CI/CD, DORA metrics, Spring Boot, API, UI, Maven, Gradle, MQ, Kafka, security, governance, and architecture.\n- Prefer concrete engineering wording over generic statements.\n- Vary sentence length.\n- Return only the rewritten article.");
    let c = style_instructions(RewriteStyle::Clean);
    let p = style_instructions(RewriteStyle::Practitioner);
    let f = style_instructions(RewriteStyle::FieldNote);
    let r = style_instructions(RewriteStyle::ReferenceArticle);
    assert(c[0] != p[0] && c[0] != f[0] && c[0] != r[0]);
    assert(p[8] != f[8] && p[2] != r[2] && f[2] != r[2]);
    let sc = system_prompt_text(RewriteStyle::Clean);
    let sp = system_prompt_text(RewriteStyle::Practitioner);
    let sf = system_prompt_text(RewriteStyle::FieldNote);
    let sr = system_prompt_text(RewriteStyle::ReferenceArticle);
    assert(sc[10] != sp[10] && sc[10] != sr[10] && sp[17] != sr[17]);
    assert(sf[8] != sc[8] && sf[8] != sp[8] && sf[8] != sr[8]);
}

} // verus!
