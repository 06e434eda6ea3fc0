use humanize_text::prompts::{build_prompt_from_skill, build_system_prompt, build_user_prompt, RewriteStyle};

#[test]
fn system_prompt_per_style() {
    assert_eq!(
        build_system_prompt(RewriteStyle::Clean),
        "You are a careful technical editor. Rewrite for clarity, grammar, and natural flow while preserving the original structure and meaning. Return only the rewritten text."
    );
    assert!(build_system_prompt(RewriteStyle::Practitioner).starts_with("You are a senior software engineering practitioner"));
    assert!(build_system_prompt(RewriteStyle::FieldNote).starts_with("You are editing a field note"));
    assert!(build_system_prompt(RewriteStyle::ReferenceArticle).ends_with("Return only the rewritten article text."));
}

#[test]
fn user_prompt_without_chunking() {
    let p = build_user_prompt("Draft.", RewriteStyle::Clean, false, 1, 1);
    assert_eq!(
        p,
        "Clean up the text. Fix grammar, remove awkward phrasing, improve flow, and preserve the original structure.\n\nSOURCE TEXT:\nDraft."
    );
}

#[test]
fn user_prompt_for_a_chunk() {
    let p = build_user_prompt("Part two.", RewriteStyle::FieldNote, true, 2, 12);
    assert!(p.starts_with("This is chunk 2/12 of a longer article. Rewrite only this chunk, but keep it compatible with the full article.\n\nRewrite as a grounded field article."));
    assert!(p.ends_with("\n\nSOURCE TEXT:\nPart two."));
}

#[test]
fn reference_article_instructions_list_the_structure() {
    let p = build_user_prompt("x", RewriteStyle::ReferenceArticle, false, 1, 1);
    assert!(p.starts_with("Restructure this draft using the following publication pattern:\n\n1. Key Takeaways"));
    assert!(p.contains("6. What Hurts \u{2014} and What Actually Helps"));
}

#[test]
fn skill_prompt_wraps_the_source() {
    assert_eq!(
        build_prompt_from_skill("SKILL", "ARTICLE"),
        "SKILL\n\n---\n\nSOURCE TEXT TO REWRITE:\n\nARTICLE\n\n---\n\nRewrite the source text using the skill instructions above. Return only the final article."
    );
}
