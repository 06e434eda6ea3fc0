use humanize_text::chunking::chunk_text;

fn reference_sentences(text: &str) -> Vec<String> {
    let mut sentences = Vec::new();
    let mut current = String::new();
    for ch in text.chars() {
        current.push(ch);
        if matches!(ch, '.' | '!' | '?') {
            let trimmed = current.trim();
            if !trimmed.is_empty() {
                sentences.push(trimmed.to_string());
            }
            current.clear();
        }
    }
    if !current.trim().is_empty() {
        sentences.push(current.trim().to_string());
    }
    sentences
}

fn reference_chunks(text: &str, max_chars: usize) -> Vec<String> {
    if text.len() <= max_chars {
        return vec![text.to_string()];
    }
    let mut chunks = Vec::new();
    let mut current = String::new();
    for paragraph in text.split("\n\n") {
        let paragraph_with_break = if current.is_empty() {
            paragraph.to_string()
        } else {
            format!("\n\n{}", paragraph)
        };
        if current.len() + paragraph_with_break.len() > max_chars && !current.is_empty() {
            chunks.push(current.trim().to_string());
            current.clear();
        }
        if paragraph_with_break.len() > max_chars {
            for sentence in reference_sentences(&paragraph_with_break) {
                if current.len() + sentence.len() + 1 > max_chars && !current.is_empty() {
                    chunks.push(current.trim().to_string());
                    current.clear();
                }
                current.push_str(&sentence);
                current.push(' ');
            }
        } else {
            current.push_str(&paragraph_with_break);
        }
    }
    if !current.trim().is_empty() {
        chunks.push(current.trim().to_string());
    }
    chunks
}

fn visible(s: &str) -> String {
    s.chars().filter(|c| !c.is_whitespace()).collect()
}

#[test]
fn text_that_fits_is_one_chunk() {
    assert_eq!(chunk_text("short text\n\nwith two paragraphs", 100), vec!["short text\n\nwith two paragraphs"]);
    assert_eq!(chunk_text("", 0), vec![""]);
    assert_eq!(chunk_text("  padded  ", 10), vec!["  padded  "]);
}

#[test]
fn long_text_is_cut_at_paragraph_breaks() {
    let text = "First paragraph here.\n\nSecond paragraph here.\n\nThird one.";
    let chunks = chunk_text(text, 30);
    assert_eq!(chunks, vec!["First paragraph here.", "Second paragraph here.", "Third one."]);
}

#[test]
fn paragraphs_are_gathered_while_they_fit() {
    let text = "Aaaa.\n\nBbbb.\n\nCccc.\n\nDddd.";
    let chunks = chunk_text(text, 14);
    assert_eq!(chunks, vec!["Aaaa.\n\nBbbb.", "Cccc.\n\nDddd."]);
}

#[test]
fn long_paragraph_is_cut_after_sentences() {
    let text = "One two three. Four five six. Seven eight nine. Ten.";
    let chunks = chunk_text(text, 20);
    assert_eq!(chunks, vec!["One two three.", "Four five six.", "Seven eight nine.", "Ten."]);
}

#[test]
fn limit_counts_bytes_not_characters() {
    // five characters, ten bytes
    let text = "ééééé";
    assert_eq!(chunk_text(text, 10), vec![text]);
    assert_eq!(chunk_text(text, 9), vec![text]);
    assert_eq!(chunk_text(text, 9).len(), reference_chunks(text, 9).len());
}

#[test]
fn whitespace_only_long_text_gives_no_chunk() {
    assert!(chunk_text("     ", 2).is_empty());
    assert_eq!(chunk_text("   \n\n   ", 3), vec![""]);
}

#[test]
fn chunks_agree_with_the_paragraph_then_sentence_rule() {
    let texts = [
        "Loop Engineering matters. It is a practice.\n\nAI generates code quickly! Does it work? Tests tell.\n\n\n\nShort.",
        "A very long paragraph without any terminator at all that keeps going on and on",
        "x. y. z.\n\n\n\nw",
        "Intro.\n\nééé ééé. ààà ààà! ooo?\n\nEnd",
        "   lead\n\n\n\n   trail   ",
    ];
    for text in texts {
        for max in [0usize, 1, 5, 10, 17, 25, 40, 80, 200] {
            assert_eq!(chunk_text(text, max), reference_chunks(text, max), "text {:?} max {}", text, max);
        }
    }
}

#[test]
fn chunks_keep_the_visible_text() {
    let text = "Loop Engineering matters. It is a practice.\n\nAI generates code quickly! Does it work? Tests tell.";
    for max in [3usize, 12, 30, 60] {
        let chunks = chunk_text(text, max);
        assert_eq!(visible(&chunks.concat()), visible(text));
        for c in &chunks {
            assert_eq!(c.trim(), c.as_str());
        }
    }
}
