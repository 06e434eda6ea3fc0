use humanize_text::pipeline::rewrite_light;
use humanize_text::repair::{
    apply_light_rewrites, clean_spacing_preserve_paragraphs, final_repair_pass, strip_wrappers,
    RepairPatterns, TextPattern,
};
use regex::Regex;

fn patterns() -> RepairPatterns {
    RepairPatterns::new().expect("the cleanup patterns compile")
}

fn reference_clean_spacing(text: &str) -> String {
    let punctuation_space = Regex::new(r"\s+([,.!?;:])").unwrap();
    let multiple_spaces = Regex::new(r"[ ]{2,}").unwrap();
    let repeated_blank_lines = Regex::new(r"\n{3,}").unwrap();
    let cleaned = text
        .lines()
        .map(|line| {
            let line = punctuation_space.replace_all(line, "$1").to_string();
            multiple_spaces.replace_all(&line, " ").trim_end().to_string()
        })
        .collect::<Vec<String>>()
        .join("\n");
    repeated_blank_lines.replace_all(&cleaned, "\n\n").trim().to_string()
}

#[test]
fn patterns_compile() {
    assert!(RepairPatterns::new().is_some());
    assert!(TextPattern::compile("(unclosed").is_none());
    assert!(TextPattern::compile("a+").is_some());
}

#[test]
fn spacing_cleanup_fixes_space_before_punctuation_and_runs_of_spaces() {
    let p = patterns();
    assert_eq!(clean_spacing_preserve_paragraphs(&p, "Hello , world  !  Next   line ."), "Hello, world! Next line.");
}

#[test]
fn spacing_cleanup_keeps_paragraph_breaks() {
    let p = patterns();
    assert_eq!(clean_spacing_preserve_paragraphs(&p, "One.\n\n\n\nTwo.   \n\nThree.\r\n"), "One.\n\nTwo.\n\nThree.");
    assert_eq!(clean_spacing_preserve_paragraphs(&p, "  \n# Title\n\nBody  \n  "), "# Title\n\nBody");
}

#[test]
fn spacing_cleanup_agrees_with_the_regex_rules() {
    let p = patterns();
    for t in ["a\n\n\n\nb", "x ; y :z", "  lead\r\n\r\n\r\ntrail  ", "", "\n\n\n", "tab\t, here", "a\u{a0}."] {
        assert_eq!(clean_spacing_preserve_paragraphs(&p, t), reference_clean_spacing(t), "{:?}", t);
    }
}

#[test]
fn wrappers_are_removed() {
    let p = patterns();
    assert_eq!(strip_wrappers(&p, "Here is the rewritten article:\nBody text"), "Body text");
    assert_eq!(strip_wrappers(&p, "Sure, here you go"), "here you go");
    assert_eq!(strip_wrappers(&p, "certainly! text"), "text");
    assert_eq!(strip_wrappers(&p, "### 2. Title\n### Other"), "### Title\n### Other");
    assert_eq!(strip_wrappers(&p, "Nothing to strip"), "Nothing to strip");
}

#[test]
fn repair_pass_replaces_phrases() {
    let p = patterns();
    assert_eq!(final_repair_pass(&p, "This is paramount ."), "This is important.");
    assert_eq!(final_repair_pass(&p, "It proves invaluable with robust feedback mechanisms"), "It is useful with strong feedback loops");
    assert_eq!(final_repair_pass(&p, "a important AI based tool"), "an important AI-assisted tool");
    assert_eq!(final_repair_pass(&p, "It doesn\u{2019}t replacing review"), "It does not replace review");
}

#[test]
fn repair_pass_removes_model_wrappers() {
    let p = patterns();
    assert_eq!(
        final_repair_pass(&p, "Certainly! Here is the updated text:\n\n### 1. Intro\nBody ."),
        "Here is the updated text:\n\n### Intro\nBody."
    );
    assert_eq!(final_repair_pass(&p, "Here is the rewritten version:\nSure. Fine ."), "Fine.");
}

#[test]
fn repair_output_is_trimmed() {
    let p = patterns();
    for t in ["  x  ", "\n\nSure\n\n", "a . b", ""] {
        let out = final_repair_pass(&p, t);
        assert_eq!(out.trim(), out.as_str());
    }
}

#[test]
fn light_rewrite_simplifies_formal_words() {
    let p = patterns();
    assert_eq!(
        apply_light_rewrites(&p, "It is important to note that we utilize tools in order to ship."),
        "we use tools to ship."
    );
    assert_eq!(
        apply_light_rewrites(&p, "In today\u{2019}s rapidly evolving digital landscape, AI plays a crucial role in delivery."),
        "AI helps delivery."
    );
    assert_eq!(apply_light_rewrites(&p, "Numerous teams leverage a wide range of tools."), "Many teams use many tools.");
}

#[test]
fn light_rewrite_keeps_headings_and_bold_terms() {
    let p = patterns();
    let text = "# Loop Engineering\n\nThe **intent loop** facilitates review.\n\n\n\n## Next";
    assert_eq!(rewrite_light(&p, text), "# Loop Engineering\n\nThe **intent loop** helps review.\n\n## Next");
}

#[test]
fn text_without_listed_phrases_only_gets_spacing_fixes() {
    let p = patterns();
    assert_eq!(apply_light_rewrites(&p, "Plain words stay ."), "Plain words stay.");
    assert_eq!(final_repair_pass(&p, "Nothing to change here."), "Nothing to change here.");
}
