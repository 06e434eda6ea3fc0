//! The local cleanup passes: phrase tables applied with literal replacement,
//! regular-expression passes that drop model preambles and normalise
//! headings, and the spacing cleanup that keeps paragraph breaks.
use vstd::prelude::*;
use crate::text::{
    lemma_occurs_char, lemma_prefix_mismatch, lemma_prefix_mismatch_closed, lemma_replace_keeps_space_start, lemma_replace_leading,
    lemma_replace_prefix_passes, occurs_at,
    contains_spec, lemma_replace_absent,
    chars_of, join_chars, join_spec, lemma_trim_idempotent, lemma_trim_is_trimmed, is_trimmed,
    lines_spec, replace, replace_spec, split_lines, string_from_chars, trim, trim_end_chars,
    trim_end_spec, trim_spec, char_views,
};

verus! {

// ---------------------------------------------------------------------------
// Regular expressions (the `regex` crate)
// ---------------------------------------------------------------------------

/// Declares `regex::Regex`, a compiled regular expression, as an opaque type.
#[verifier::external_type_specification]
#[verifier::external_body]
pub struct ExRegex(regex::Regex);

/// Declares `regex::Error`, the error of `regex::Regex::new`, as an opaque
/// type.
#[verifier::external_type_specification]
#[verifier::external_body]
pub struct ExRegexError(regex::Error);

/// Whether `regex::Regex::new` accepts `pattern` (a function of the pattern
/// alone: its syntax and the crate's default size limits).
pub uninterp spec fn regex_compiles(pattern: Seq<char>) -> bool;

/// What `regex::Regex::replace_all` returns for the expression compiled from
/// `pattern`, the haystack and a replacement string (which may refer to
/// capture groups as `$1`).
pub uninterp spec fn regex_replace_all(
    pattern: Seq<char>,
    haystack: Seq<char>,
    replacement: Seq<char>,
) -> Seq<char>;

/// Calls `regex::Regex::new`. Claimed: it succeeds exactly when the pattern
/// is one that the crate accepts, as named by `regex_compiles`.
#[verifier::external_body]
fn compile_regex(pattern: &str) -> (r: Result<regex::Regex, regex::Error>)
    ensures
        r is Ok <==> regex_compiles(pattern@),
{
    regex::Regex::new(pattern)
}

/// A compiled regular expression together with the pattern it was compiled
/// from. Its fields are private and set only by [`TextPattern::compile`], so
/// the expression is always the one compiled from `source`.
pub struct TextPattern {
    regex: regex::Regex,
    source: String,
}

impl View for TextPattern {
    type V = Seq<char>;

    closed spec fn view(&self) -> Seq<char> {
        self.source@
    }
}

impl TextPattern {
    /// Compiles `source`; `None` when the `regex` crate refuses it.
    pub fn compile(source: &str) -> (r: Option<TextPattern>)
        ensures
            r is Some <==> regex_compiles(source@),
            r matches Some(p) ==> p@ == source@,
    {
        match compile_regex(source) {
            Ok(re) => Some(TextPattern { regex: re, source: source.to_owned() }),
            Err(_) => None,
        }
    }
}

/// Calls `regex::Regex::replace_all` on the expression held by `p`. Claimed:
/// the result is `regex_replace_all` of the pattern that `p` was compiled
/// from, the haystack and the replacement. This rests on `p.regex` having
/// been compiled from `p.source`, which only [`TextPattern::compile`] sets.
#[verifier::external_body]
fn regex_replace(p: &TextPattern, haystack: &str, replacement: &str) -> (r: String)
    ensures
        r@ == regex_replace_all(p@, haystack@, replacement@),
{
    p.regex.replace_all(haystack, replacement).into_owned()
}

// ---------------------------------------------------------------------------
// The patterns of the cleanup
// ---------------------------------------------------------------------------

/// A line that announces a rewrite ("Here is the rewritten text:").
pub const PREAMBLE_PATTERN: &'static str = r"(?im)^Here is (the )?(rewritten|enhanced|updated).*?:\s*\n";

/// "Certainly" at the start of a line.
pub const CERTAINLY_PATTERN: &'static str = r"(?im)^Certainly[,.!]?\s*";

/// "Sure" at the start of a line.
pub const SURE_PATTERN: &'static str = r"(?im)^Sure[,.!]?\s*";

/// A numbered third-level heading ("### 2. Title").
pub const NUMBERED_HEADING_PATTERN: &'static str = r"(?m)^###\s+\d+\.\s+";

/// Whitespace before punctuation, with the punctuation captured.
pub const SPACE_BEFORE_PUNCTUATION_PATTERN: &'static str = r"\s+([,.!?;:])";

/// A run of two or more spaces.
pub const MULTIPLE_SPACES_PATTERN: &'static str = r"[ ]{2,}";

/// Three or more line feeds in a row.
pub const BLANK_LINES_PATTERN: &'static str = r"\n{3,}";

/// The compiled patterns that the cleanup passes use.
pub struct RepairPatterns {
    preamble: TextPattern,
    certainly: TextPattern,
    sure: TextPattern,
    numbered_heading: TextPattern,
    space_before_punctuation: TextPattern,
    multiple_spaces: TextPattern,
    blank_lines: TextPattern,
}

/// Every pattern of the cleanup is one the `regex` crate accepts.
pub open spec fn all_patterns_compile() -> bool {
    &&& regex_compiles(PREAMBLE_PATTERN@)
    &&& regex_compiles(CERTAINLY_PATTERN@)
    &&& regex_compiles(SURE_PATTERN@)
    &&& regex_compiles(NUMBERED_HEADING_PATTERN@)
    &&& regex_compiles(SPACE_BEFORE_PUNCTUATION_PATTERN@)
    &&& regex_compiles(MULTIPLE_SPACES_PATTERN@)
    &&& regex_compiles(BLANK_LINES_PATTERN@)
}

impl RepairPatterns {
    /// Each field holds the pattern that its name says.
    #[verifier::type_invariant]
    closed spec fn wf(&self) -> bool {
        &&& self.preamble@ == PREAMBLE_PATTERN@
        &&& self.certainly@ == CERTAINLY_PATTERN@
        &&& self.sure@ == SURE_PATTERN@
        &&& self.numbered_heading@ == NUMBERED_HEADING_PATTERN@
        &&& self.space_before_punctuation@ == SPACE_BEFORE_PUNCTUATION_PATTERN@
        &&& self.multiple_spaces@ == MULTIPLE_SPACES_PATTERN@
        &&& self.blank_lines@ == BLANK_LINES_PATTERN@
    }

    /// Compiles the patterns; `None` when the `regex` crate refuses one.
    pub fn new() -> (r: Option<RepairPatterns>)
        ensures
            r is Some <==> all_patterns_compile(),
    {
        let preamble = TextPattern::compile(PREAMBLE_PATTERN);
        let certainly = TextPattern::compile(CERTAINLY_PATTERN);
        let sure = TextPattern::compile(SURE_PATTERN);
        let numbered_heading = TextPattern::compile(NUMBERED_HEADING_PATTERN);
        let space_before_punctuation = TextPattern::compile(SPACE_BEFORE_PUNCTUATION_PATTERN);
        let multiple_spaces = TextPattern::compile(MULTIPLE_SPACES_PATTERN);
        let blank_lines = TextPattern::compile(BLANK_LINES_PATTERN);
        match (preamble, certainly, sure, numbered_heading, space_before_punctuation, multiple_spaces, blank_lines) {
            (Some(a), Some(b), Some(c), Some(d), Some(e), Some(f), Some(g)) => Some(RepairPatterns {
                preamble: a,
                certainly: b,
                sure: c,
                numbered_heading: d,
                space_before_punctuation: e,
                multiple_spaces: f,
                blank_lines: g,
            }),
            _ => None,
        }
    }
}


// ---------------------------------------------------------------------------
// Phrase tables
// ---------------------------------------------------------------------------

/// The phrases that the light rewrite replaces, in the order it applies them.
pub open spec fn light_rule(i: int) -> (Seq<char>, Seq<char>) {
    if i == 0 {
        ("It is important to note that "@, ""@)
    } else if i == 1 {
        ("It should be noted that "@, ""@)
    } else if i == 2 {
        ("It is worth noting that "@, ""@)
    } else if i == 3 {
        ("In today's rapidly evolving digital landscape, "@, ""@)
    } else if i == 4 {
        ("In today\u{2019}s rapidly evolving digital landscape, "@, ""@)
    } else if i == 5 {
        ("plays a crucial role in"@, "helps"@)
    } else if i == 6 {
        ("plays a vital role in"@, "helps"@)
    } else if i == 7 {
        ("a wide range of"@, "many"@)
    } else if i == 8 {
        ("in order to"@, "to"@)
    } else if i == 9 {
        ("due to the fact that"@, "because"@)
    } else if i == 10 {
        ("utilize"@, "use"@)
    } else if i == 11 {
        ("Utilize"@, "Use"@)
    } else if i == 12 {
        ("leverage"@, "use"@)
    } else if i == 13 {
        ("Leverage"@, "Use"@)
    } else if i == 14 {
        ("facilitates"@, "helps"@)
    } else if i == 15 {
        ("Facilitates"@, "Helps"@)
    } else if i == 16 {
        ("demonstrates"@, "shows"@)
    } else if i == 17 {
        ("Demonstrates"@, "Shows"@)
    } else if i == 18 {
        ("numerous"@, "many"@)
    } else {
        ("Numerous"@, "Many"@)
    }
}
fn light_rule_at(i: usize) -> (r: (&'static str, &'static str))
    requires
        i < 20,
    ensures
        r.0@ == light_rule(i as int).0,
        r.1@ == light_rule(i as int).1,
{
    if i == 0 {
        ("It is important to note that ", "")
    } else if i == 1 {
        ("It should be noted that ", "")
    } else if i == 2 {
        ("It is worth noting that ", "")
    } else if i == 3 {
        ("In today's rapidly evolving digital landscape, ", "")
    } else if i == 4 {
        ("In today\u{2019}s rapidly evolving digital landscape, ", "")
    } else if i == 5 {
        ("plays a crucial role in", "helps")
    } else if i == 6 {
        ("plays a vital role in", "helps")
    } else if i == 7 {
        ("a wide range of", "many")
    } else if i == 8 {
        ("in order to", "to")
    } else if i == 9 {
        ("due to the fact that", "because")
    } else if i == 10 {
        ("utilize", "use")
    } else if i == 11 {
        ("Utilize", "Use")
    } else if i == 12 {
        ("leverage", "use")
    } else if i == 13 {
        ("Leverage", "Use")
    } else if i == 14 {
        ("facilitates", "helps")
    } else if i == 15 {
        ("Facilitates", "Helps")
    } else if i == 16 {
        ("demonstrates", "shows")
    } else if i == 17 {
        ("Demonstrates", "Shows")
    } else if i == 18 {
        ("numerous", "many")
    } else {
        ("Numerous", "Many")
    }
}
/// The phrases that the repair pass replaces, in the order it applies them.
pub open spec fn repair_rule(i: int) -> (Seq<char>, Seq<char>) {
    if i == 0 {
        ("proves invaluable"@, "is useful"@)
    } else if i == 1 {
        ("proved invaluable"@, "was useful"@)
    } else if i == 2 {
        ("paramount"@, "important"@)
    } else if i == 3 {
        ("indispensable"@, "important"@)
    } else if i == 4 {
        ("robust feedback mechanisms"@, "strong feedback loops"@)
    } else if i == 5 {
        ("robust feedback loop"@, "strong feedback loop"@)
    } else if i == 6 {
        ("strongness of their feedback loops"@, "strength of their feedback loops"@)
    } else if i == 7 {
        ("reviewing importantly"@, "reviewing carefully"@)
    } else if i == 8 {
        ("necessitates tests"@, "leads to tests"@)
    } else if i == 9 {
        ("mere compilation"@, "checking that it compiles"@)
    } else if i == 10 {
        ("mandates frequent"@, "encourages frequent"@)
    } else if i == 11 {
        ("the what business problem"@, "what business problem"@)
    } else if i == 12 {
        ("with out existing architecture"@, "with our existing architecture"@)
    } else if i == 13 {
        ("a important"@, "an important"@)
    } else if i == 14 {
        ("AI based"@, "AI-assisted"@)
    } else if i == 15 {
        ("AI-based"@, "AI-assisted"@)
    } else if i == 16 {
        ("crank out"@, "generate"@)
    } else if i == 17 {
        ("nail down"@, "define"@)
    } else if i == 18 {
        ("crystal clear"@, "clear"@)
    } else if i == 19 {
        ("the trick here"@, "the goal"@)
    } else if i == 20 {
        ("real win"@, "main benefit"@)
    } else if i == 21 {
        ("churning out"@, "generating"@)
    } else if i == 22 {
        ("production action"@, "production behavior"@)
    } else if i == 23 {
        ("doesn't replacing"@, "does not replace"@)
    } else if i == 24 {
        ("doesn\u{2019}t replacing"@, "does not replace"@)
    } else {
        ("supposed to fill"@, "meant to address"@)
    }
}
fn repair_rule_at(i: usize) -> (r: (&'static str, &'static str))
    requires
        i < 26,
    ensures
        r.0@ == repair_rule(i as int).0,
        r.1@ == repair_rule(i as int).1,
{
    if i == 0 {
        ("proves invaluable", "is useful")
    } else if i == 1 {
        ("proved invaluable", "was useful")
    } else if i == 2 {
        ("paramount", "important")
    } else if i == 3 {
        ("indispensable", "important")
    } else if i == 4 {
        ("robust feedback mechanisms", "strong feedback loops")
    } else if i == 5 {
        ("robust feedback loop", "strong feedback loop")
    } else if i == 6 {
        ("strongness of their feedback loops", "strength of their feedback loops")
    } else if i == 7 {
        ("reviewing importantly", "reviewing carefully")
    } else if i == 8 {
        ("necessitates tests", "leads to tests")
    } else if i == 9 {
        ("mere compilation", "checking that it compiles")
    } else if i == 10 {
        ("mandates frequent", "encourages frequent")
    } else if i == 11 {
        ("the what business problem", "what business problem")
    } else if i == 12 {
        ("with out existing architecture", "with our existing architecture")
    } else if i == 13 {
        ("a important", "an important")
    } else if i == 14 {
        ("AI based", "AI-assisted")
    } else if i == 15 {
        ("AI-based", "AI-assisted")
    } else if i == 16 {
        ("crank out", "generate")
    } else if i == 17 {
        ("nail down", "define")
    } else if i == 18 {
        ("crystal clear", "clear")
    } else if i == 19 {
        ("the trick here", "the goal")
    } else if i == 20 {
        ("real win", "main benefit")
    } else if i == 21 {
        ("churning out", "generating")
    } else if i == 22 {
        ("production action", "production behavior")
    } else if i == 23 {
        ("doesn't replacing", "does not replace")
    } else if i == 24 {
        ("doesn\u{2019}t replacing", "does not replace")
    } else {
        ("supposed to fill", "meant to address")
    }
}

/// The number of phrases that the light rewrite replaces.
pub const LIGHT_RULES: usize = 20;

/// The number of phrases that the repair pass replaces.
pub const REPAIR_RULES: usize = 26;

/// `s` after the first `n` light-rewrite replacements, applied in order.
pub open spec fn apply_light_rules(s: Seq<char>, n: nat) -> Seq<char>
    decreases n,
{
    if n == 0 {
        s
    } else {
        let r = light_rule(n - 1);
        replace_spec(apply_light_rules(s, (n - 1) as nat), r.0, r.1)
    }
}

/// `s` after the first `n` repair-pass replacements, applied in order.
pub open spec fn apply_repair_rules(s: Seq<char>, n: nat) -> Seq<char>
    decreases n,
{
    if n == 0 {
        s
    } else {
        let r = repair_rule(n - 1);
        replace_spec(apply_repair_rules(s, (n - 1) as nat), r.0, r.1)
    }
}

fn replace_light_phrases(text: &str) -> (r: String)
    ensures
        r@ == apply_light_rules(text@, LIGHT_RULES as nat),
{
    let mut result = text.to_owned();
    let mut i: usize = 0;
    while i < LIGHT_RULES
        invariant
            i <= LIGHT_RULES,
            result@ == apply_light_rules(text@, i as nat),
        decreases LIGHT_RULES - i,
    {
        let (from, to) = light_rule_at(i);
        result = replace(result.as_str(), from, to);
        i = i + 1;
    }
    result
}

fn replace_repair_phrases(text: &str) -> (r: String)
    ensures
        r@ == apply_repair_rules(text@, REPAIR_RULES as nat),
{
    let mut result = text.to_owned();
    let mut i: usize = 0;
    while i < REPAIR_RULES
        invariant
            i <= REPAIR_RULES,
            result@ == apply_repair_rules(text@, i as nat),
        decreases REPAIR_RULES - i,
    {
        let (from, to) = repair_rule_at(i);
        result = replace(result.as_str(), from, to);
        i = i + 1;
    }
    result
}

// ---------------------------------------------------------------------------
// The cleanup passes
// ---------------------------------------------------------------------------

/// One line after the spacing cleanup: no whitespace before punctuation, no
/// runs of spaces, no trailing whitespace.
pub open spec fn clean_line(line: Seq<char>) -> Seq<char> {
    trim_end_spec(
        regex_replace_all(
            MULTIPLE_SPACES_PATTERN@,
            regex_replace_all(SPACE_BEFORE_PUNCTUATION_PATTERN@, line, "$1"@),
            " "@,
        ),
    )
}

/// The spacing cleanup: each line cleaned, the lines joined again, runs of
/// blank lines cut to one, and the whole trimmed.
pub open spec fn clean_spacing_spec(text: Seq<char>) -> Seq<char> {
    let lines = lines_spec(text).map_values(|l: Seq<char>| clean_line(l));
    trim_spec(regex_replace_all(BLANK_LINES_PATTERN@, join_spec(lines, seq!['\n']), "\n\n"@))
}

/// `text` without model preambles and with numbered third-level headings
/// unnumbered.
pub open spec fn strip_wrappers_spec(text: Seq<char>) -> Seq<char> {
    let a = regex_replace_all(PREAMBLE_PATTERN@, text, ""@);
    let b = regex_replace_all(CERTAINLY_PATTERN@, a, ""@);
    let c = regex_replace_all(SURE_PATTERN@, b, ""@);
    regex_replace_all(NUMBERED_HEADING_PATTERN@, c, "### "@)
}

/// The repair pass: phrase table, wrapper removal, spacing cleanup.
pub open spec fn final_repair_spec(text: Seq<char>) -> Seq<char> {
    clean_spacing_spec(strip_wrappers_spec(apply_repair_rules(text, REPAIR_RULES as nat)))
}

/// The light rewrite: the light phrase table, then the repair pass.
pub open spec fn light_rewrite_spec(text: Seq<char>) -> Seq<char> {
    final_repair_spec(apply_light_rules(text, LIGHT_RULES as nat))
}

/// Cleans spacing line by line while keeping paragraph breaks: whitespace
/// before punctuation and runs of spaces go, lines lose trailing whitespace,
/// three or more line feeds become a blank line, and the text is trimmed.
pub fn clean_spacing_preserve_paragraphs(patterns: &RepairPatterns, text: &str) -> (r: String)
    ensures
        r@ == clean_spacing_spec(text@),
{
    proof {
        use_type_invariant(patterns);
    }
    let cs = chars_of(text);
    let lines = split_lines(&cs);
    let ghost lv = char_views(lines@);
    let mut cleaned: Vec<Vec<char>> = Vec::new();
    let mut i: usize = 0;
    while i < lines.len()
        invariant
            i <= lines@.len(),
            lv == char_views(lines@),
            patterns.space_before_punctuation@ == SPACE_BEFORE_PUNCTUATION_PATTERN@,
            patterns.multiple_spaces@ == MULTIPLE_SPACES_PATTERN@,
            char_views(cleaned@) == lv.take(i as int).map_values(|l: Seq<char>| clean_line(l)),
        decreases lines@.len() - i,
    {
        let line = string_from_chars(&lines[i]);
        let a = regex_replace(&patterns.space_before_punctuation, line.as_str(), "$1");
        let b = regex_replace(&patterns.multiple_spaces, a.as_str(), " ");
        let bc = chars_of(b.as_str());
        let c = trim_end_chars(&bc);
        let ghost prev = cleaned@;
        cleaned.push(c);
        proof {
            assert(c@ == clean_line(lv[i as int]));
            assert(char_views(cleaned@) =~= char_views(prev).push(c@));
            assert(lv.take(i + 1).map_values(|l: Seq<char>| clean_line(l)) =~= lv.take(
                i as int,
            ).map_values(|l: Seq<char>| clean_line(l)).push(clean_line(lv[i as int])));
        }
        i = i + 1;
    }
    assert(lv.take(lines@.len() as int) =~= lv);
    let mut sep: Vec<char> = Vec::new();
    sep.push('\n');
    assert(sep@ =~= seq!['\n']);
    let joined = join_chars(&cleaned, &sep);
    let joined_s = string_from_chars(&joined);
    let collapsed = regex_replace(&patterns.blank_lines, joined_s.as_str(), "\n\n");
    trim(collapsed.as_str())
}

/// Removes model preambles ("Here is the rewritten text:", "Certainly",
/// "Sure" at a line start) and the numbers of third-level headings.
pub fn strip_wrappers(patterns: &RepairPatterns, text: &str) -> (r: String)
    ensures
        r@ == strip_wrappers_spec(text@),
{
    proof {
        use_type_invariant(patterns);
    }
    let a = regex_replace(&patterns.preamble, text, "");
    let b = regex_replace(&patterns.certainly, a.as_str(), "");
    let c = regex_replace(&patterns.sure, b.as_str(), "");
    regex_replace(&patterns.numbered_heading, c.as_str(), "### ")
}

/// The repair pass applied to model output and to locally cleaned text: the
/// repair phrase table, wrapper removal, then the spacing cleanup.
pub fn final_repair_pass(patterns: &RepairPatterns, text: &str) -> (r: String)
    ensures
        r@ == final_repair_spec(text@),
{
    let replaced = replace_repair_phrases(text);
    let stripped = strip_wrappers(patterns, replaced.as_str());
    clean_spacing_preserve_paragraphs(patterns, stripped.as_str())
}

/// The light rewrite: replaces formal and AI-style phrases from the light
/// table, then runs the repair pass.
pub fn apply_light_rewrites(patterns: &RepairPatterns, text: &str) -> (r: String)
    ensures
        r@ == light_rewrite_spec(text@),
{
    let replaced = replace_light_phrases(text);
    final_repair_pass(patterns, replaced.as_str())
}

/// The repaired text never begins or ends with whitespace.
pub proof fn lemma_repair_trimmed(text: Seq<char>)
    ensures
        is_trimmed(final_repair_spec(text)),
        trim_spec(final_repair_spec(text)) == final_repair_spec(text),
{
    let a = strip_wrappers_spec(apply_repair_rules(text, REPAIR_RULES as nat));
    let lines = lines_spec(a).map_values(|l: Seq<char>| clean_line(l));
    let x = regex_replace_all(BLANK_LINES_PATTERN@, join_spec(lines, seq!['\n']), "\n\n"@);
    lemma_trim_is_trimmed(x);
    lemma_trim_idempotent(x);
}


proof fn lemma_light_rule_patterns_nonempty(i: int)
    requires
        0 <= i < 20,
    ensures
        light_rule(i).0.len() > 0,
{
    reveal_strlit("It is important to note that ");
    reveal_strlit("It should be noted that ");
    reveal_strlit("It is worth noting that ");
    reveal_strlit("In today's rapidly evolving digital landscape, ");
    reveal_strlit("In today\u{2019}s rapidly evolving digital landscape, ");
    reveal_strlit("plays a crucial role in");
    reveal_strlit("plays a vital role in");
    reveal_strlit("a wide range of");
    reveal_strlit("in order to");
    reveal_strlit("due to the fact that");
    reveal_strlit("utilize");
    reveal_strlit("Utilize");
    reveal_strlit("leverage");
    reveal_strlit("Leverage");
    reveal_strlit("facilitates");
    reveal_strlit("Facilitates");
    reveal_strlit("demonstrates");
    reveal_strlit("Demonstrates");
    reveal_strlit("numerous");
    reveal_strlit("Numerous");
}

/// A text that holds none of the phrases of the light table passes it
/// unchanged.
pub proof fn lemma_light_rules_keep_other_text(s: Seq<char>, n: nat)
    requires
        n <= 20,
        forall|i: int| 0 <= i < n ==> !contains_spec(s, (#[trigger] light_rule(i)).0),
    ensures
        apply_light_rules(s, n) == s,
    decreases n,
{
    if n > 0 {
        lemma_light_rules_keep_other_text(s, (n - 1) as nat);
        lemma_light_rule_patterns_nonempty(n - 1);
        assert(!contains_spec(s, light_rule(n - 1).0));
        lemma_replace_absent(s, light_rule(n - 1).0, light_rule(n - 1).1);
    }
}

proof fn lemma_repair_rule_patterns_nonempty(i: int)
    requires
        0 <= i < 26,
    ensures
        repair_rule(i).0.len() > 0,
{
    reveal_strlit("proves invaluable");
    reveal_strlit("proved invaluable");
    reveal_strlit("paramount");
    reveal_strlit("indispensable");
    reveal_strlit("robust feedback mechanisms");
    reveal_strlit("robust feedback loop");
    reveal_strlit("strongness of their feedback loops");
    reveal_strlit("reviewing importantly");
    reveal_strlit("necessitates tests");
    reveal_strlit("mere compilation");
    reveal_strlit("mandates frequent");
    reveal_strlit("the what business problem");
    reveal_strlit("with out existing architecture");
    reveal_strlit("a important");
    reveal_strlit("AI based");
    reveal_strlit("AI-based");
    reveal_strlit("crank out");
    reveal_strlit("nail down");
    reveal_strlit("crystal clear");
    reveal_strlit("the trick here");
    reveal_strlit("real win");
    reveal_strlit("churning out");
    reveal_strlit("production action");
    reveal_strlit("doesn't replacing");
    reveal_strlit("doesn\u{2019}t replacing");
    reveal_strlit("supposed to fill");
}

/// A text that holds none of the phrases of the repair table passes it
/// unchanged.
pub proof fn lemma_repair_rules_keep_other_text(s: Seq<char>, n: nat)
    requires
        n <= 26,
        forall|i: int| 0 <= i < n ==> !contains_spec(s, (#[trigger] repair_rule(i)).0),
    ensures
        apply_repair_rules(s, n) == s,
    decreases n,
{
    if n > 0 {
        lemma_repair_rules_keep_other_text(s, (n - 1) as nat);
        lemma_repair_rule_patterns_nonempty(n - 1);
        assert(!contains_spec(s, repair_rule(n - 1).0));
        lemma_replace_absent(s, repair_rule(n - 1).0, repair_rule(n - 1).1);
    }
}


// ---------------------------------------------------------------------------
// Laws of the phrase tables
// ---------------------------------------------------------------------------

proof fn lemma_repair_step_passes(s: Seq<char>, x: Seq<char>, t: Seq<char>, k: int)
    requires
        0 <= k < REPAIR_RULES,
        apply_repair_rules(s, k as nat) == x + apply_repair_rules(t, k as nat),
        apply_repair_rules(t, k as nat).len() == 0 || apply_repair_rules(t, k as nat)[0] == ' ',
        repair_rule(k).0.len() >= 2,
        repair_rule(k).0[0] != ' ',
        repair_rule(k).0[1] != ' ',
        forall|j: int|
            0 <= j < x.len() ==> #[trigger] x[j] != repair_rule(k).0[0] || (j + 1 < x.len() && x[j
                + 1] != repair_rule(k).0[1]) || j + 1 == x.len(),
    ensures
        apply_repair_rules(s, (k + 1) as nat) == x + apply_repair_rules(t, (k + 1) as nat),
        apply_repair_rules(t, (k + 1) as nat).len() == 0 || apply_repair_rules(t, (k + 1) as nat)[0]
            == ' ',
{
    let p = repair_rule(k).0;
    let r = repair_rule(k).1;
    let u = apply_repair_rules(t, k as nat);
    lemma_prefix_mismatch(x, u, p);
    lemma_replace_prefix_passes(x, u, p, r);
    lemma_replace_keeps_space_start(u, p, r);
    assert(apply_repair_rules(s, (k + 1) as nat) == replace_spec(apply_repair_rules(s, k as nat), p, r));
    assert(apply_repair_rules(t, (k + 1) as nat) == replace_spec(u, p, r));
}

/// "a paramount" before a word becomes "an important": the phrase table
/// replaces "paramount" before it mends "a important", so the article is
/// fixed too. The rest of the text goes through the table as it would alone.
pub proof fn lemma_a_paramount_becomes_an_important(t: Seq<char>)
    requires
        t.len() == 0 || t[0] == ' ',
    ensures
        apply_repair_rules("a paramount"@ + t, REPAIR_RULES as nat) == "an important"@
            + apply_repair_rules(t, REPAIR_RULES as nat),
{
    reveal_strlit("proves invaluable");
    reveal_strlit("proved invaluable");
    reveal_strlit("paramount");
    reveal_strlit("indispensable");
    reveal_strlit("robust feedback mechanisms");
    reveal_strlit("robust feedback loop");
    reveal_strlit("strongness of their feedback loops");
    reveal_strlit("reviewing importantly");
    reveal_strlit("necessitates tests");
    reveal_strlit("mere compilation");
    reveal_strlit("mandates frequent");
    reveal_strlit("the what business problem");
    reveal_strlit("with out existing architecture");
    reveal_strlit("a important");
    reveal_strlit("AI based");
    reveal_strlit("AI-based");
    reveal_strlit("crank out");
    reveal_strlit("nail down");
    reveal_strlit("crystal clear");
    reveal_strlit("the trick here");
    reveal_strlit("real win");
    reveal_strlit("churning out");
    reveal_strlit("production action");
    reveal_strlit("doesn't replacing");
    reveal_strlit("doesn\u{2019}t replacing");
    reveal_strlit("supposed to fill");
    reveal_strlit("a paramount");
    reveal_strlit("a ");
    reveal_strlit("important");
    reveal_strlit("an important");
    let s = "a paramount"@ + t;
    let x0 = "a paramount"@;
    assert(apply_repair_rules(s, 0) == x0 + apply_repair_rules(t, 0));
    lemma_repair_step_passes(s, x0, t, 0);
    lemma_repair_step_passes(s, x0, t, 1);
    // "paramount" becomes "important"
    let u = apply_repair_rules(t, 2);
    let p = repair_rule(2).0;
    let r = repair_rule(2).1;
    assert(p == "paramount"@);
    let rest = p + u;
    assert forall|j: int| 0 <= j < "a "@.len() implies !occurs_at("a "@ + rest, p, j) by {
        if occurs_at("a "@ + rest, p, j) {
            lemma_occurs_char("a "@ + rest, p, j, 0);
            assert(("a "@ + rest)[j] == "a "@[j]);
        }
    }
    lemma_replace_prefix_passes("a "@, rest, p, r);
    lemma_replace_leading(p, u, r);
    lemma_replace_keeps_space_start(u, p, r);
    assert(x0 + u =~= "a "@ + rest);
    let x1 = "a important"@;
    assert(x1 =~= "a "@ + r);
    assert(apply_repair_rules(s, 3) == replace_spec(x0 + u, p, r));
    assert(apply_repair_rules(s, 3) == x1 + apply_repair_rules(t, 3));
    lemma_repair_step_passes(s, x1, t, 3);
    lemma_repair_step_passes(s, x1, t, 4);
    lemma_repair_step_passes(s, x1, t, 5);
    lemma_repair_step_passes(s, x1, t, 6);
    lemma_repair_step_passes(s, x1, t, 7);
    lemma_repair_step_passes(s, x1, t, 8);
    lemma_repair_step_passes(s, x1, t, 9);
    lemma_repair_step_passes(s, x1, t, 10);
    lemma_repair_step_passes(s, x1, t, 11);
    lemma_repair_step_passes(s, x1, t, 12);
    // "a important" becomes "an important"
    let u13 = apply_repair_rules(t, 13);
    assert(repair_rule(13).0 == x1);
    lemma_replace_leading(x1, u13, repair_rule(13).1);
    lemma_replace_keeps_space_start(u13, x1, repair_rule(13).1);
    let x2 = "an important"@;
    assert(repair_rule(13).1 == x2);
    assert(apply_repair_rules(s, 14) == x2 + apply_repair_rules(t, 14));
    lemma_repair_step_passes(s, x2, t, 14);
    lemma_repair_step_passes(s, x2, t, 15);
    lemma_repair_step_passes(s, x2, t, 16);
    lemma_repair_step_passes(s, x2, t, 17);
    lemma_repair_step_passes(s, x2, t, 18);
    lemma_repair_step_passes(s, x2, t, 19);
    lemma_repair_step_passes(s, x2, t, 20);
    lemma_repair_step_passes(s, x2, t, 21);
    lemma_repair_step_passes(s, x2, t, 22);
    lemma_repair_step_passes(s, x2, t, 23);
    lemma_repair_step_passes(s, x2, t, 24);
    lemma_repair_step_passes(s, x2, t, 25);
}


proof fn lemma_light_step_passes(s: Seq<char>, x: Seq<char>, t: Seq<char>, k: int)
    requires
        0 <= k < LIGHT_RULES,
        apply_light_rules(s, k as nat) == x + apply_light_rules(t, k as nat),
        light_rule(k).0.len() > 0,
        forall|j: int| 0 <= j < x.len() ==> !#[trigger] occurs_at(x + apply_light_rules(t, k as nat), light_rule(k).0, j),
    ensures
        apply_light_rules(s, (k + 1) as nat) == x + apply_light_rules(t, (k + 1) as nat),
{
    let p = light_rule(k).0;
    let r = light_rule(k).1;
    let u = apply_light_rules(t, k as nat);
    lemma_replace_prefix_passes(x, u, p, r);
    assert(apply_light_rules(s, (k + 1) as nat) == replace_spec(apply_light_rules(s, k as nat), p, r));
    assert(apply_light_rules(t, (k + 1) as nat) == replace_spec(u, p, r));
}

proof fn lemma_light_same_from(s1: Seq<char>, s2: Seq<char>, k: nat, n: nat)
    requires
        k <= n,
        apply_light_rules(s1, k) == apply_light_rules(s2, k),
    ensures
        apply_light_rules(s1, n) == apply_light_rules(s2, n),
    decreases n - k,
{
    if k < n {
        lemma_light_same_from(s1, s2, k, (n - 1) as nat);
    }
}

/// The light rewrite drops a leading "In today's rapidly evolving digital
/// landscape, " (written with a straight or a curly apostrophe): the text
/// after it comes out as it would alone.
pub proof fn lemma_light_drops_openers(t: Seq<char>)
    ensures
        apply_light_rules("In today's rapidly evolving digital landscape, "@ + t, LIGHT_RULES as nat) == apply_light_rules(t, LIGHT_RULES as nat),
        apply_light_rules("In today\u{2019}s rapidly evolving digital landscape, "@ + t, LIGHT_RULES as nat) == apply_light_rules(t, LIGHT_RULES as nat),
        light_rewrite_spec("In today's rapidly evolving digital landscape, "@ + t) == light_rewrite_spec(t),
        light_rewrite_spec("In today\u{2019}s rapidly evolving digital landscape, "@ + t) == light_rewrite_spec(t),
{
    reveal_strlit("It is important to note that ");
    reveal_strlit("It should be noted that ");
    reveal_strlit("It is worth noting that ");
    reveal_strlit("In today's rapidly evolving digital landscape, ");
    reveal_strlit("In today\u{2019}s rapidly evolving digital landscape, ");
    reveal_strlit("");
    let a = "In today's rapidly evolving digital landscape, "@;
    let c = "In today\u{2019}s rapidly evolving digital landscape, "@;
    let sa = a + t;
    let sc = c + t;
    assert(apply_light_rules(sa, 0) == a + apply_light_rules(t, 0));
    assert(apply_light_rules(sc, 0) == c + apply_light_rules(t, 0));
    let u0 = apply_light_rules(t, 0);
    assert(light_rule(0).0[0] == 'I' && light_rule(0).0[1] == 't' && light_rule(0).0.len() >= 2);
    lemma_prefix_mismatch_closed(a, u0, light_rule(0).0);
    lemma_prefix_mismatch_closed(c, u0, light_rule(0).0);
    lemma_light_step_passes(sa, a, t, 0);
    lemma_light_step_passes(sc, c, t, 0);
    let u1 = apply_light_rules(t, 1);
    assert(light_rule(1).0[0] == 'I' && light_rule(1).0[1] == 't' && light_rule(1).0.len() >= 2);
    lemma_prefix_mismatch_closed(a, u1, light_rule(1).0);
    lemma_prefix_mismatch_closed(c, u1, light_rule(1).0);
    lemma_light_step_passes(sa, a, t, 1);
    lemma_light_step_passes(sc, c, t, 1);
    let u2 = apply_light_rules(t, 2);
    assert(light_rule(2).0[0] == 'I' && light_rule(2).0[1] == 't' && light_rule(2).0.len() >= 2);
    lemma_prefix_mismatch_closed(a, u2, light_rule(2).0);
    lemma_prefix_mismatch_closed(c, u2, light_rule(2).0);
    lemma_light_step_passes(sa, a, t, 2);
    lemma_light_step_passes(sc, c, t, 2);
    // the straight-apostrophe opener goes
    let u3 = apply_light_rules(t, 3);
    assert(light_rule(3).0 == a && light_rule(3).1 == ""@);
    lemma_replace_leading(a, u3, ""@);
    assert(""@ + replace_spec(u3, a, ""@) =~= replace_spec(u3, a, ""@));
    assert(apply_light_rules(sa, 4) == apply_light_rules(t, 4));
    lemma_light_same_from(sa, t, 4, LIGHT_RULES as nat);
    // the curly one passes that step and goes at the next
    assert forall|j: int| 0 <= j < c.len() implies !occurs_at(c + u3, a, j) by {
        if occurs_at(c + u3, a, j) {
            lemma_occurs_char(c + u3, a, j, 0);
            assert((c + u3)[j] == c[j]);
            if j == 0 {
                lemma_occurs_char(c + u3, a, j, 8);
                assert((c + u3)[8] == c[8]);
            }
        }
    }
    lemma_light_step_passes(sc, c, t, 3);
    let u4 = apply_light_rules(t, 4);
    assert(light_rule(4).0 == c && light_rule(4).1 == ""@);
    lemma_replace_leading(c, u4, ""@);
    assert(""@ + replace_spec(u4, c, ""@) =~= replace_spec(u4, c, ""@));
    assert(apply_light_rules(sc, 5) == apply_light_rules(t, 5));
    lemma_light_same_from(sc, t, 5, LIGHT_RULES as nat);
}


/// The light table, pair by pair, in the order the light rewrite applies it.
pub proof fn lemma_light_table(s: Seq<char>)
    ensures
        apply_light_rules(s, LIGHT_RULES as nat) == replace_spec(replace_spec(replace_spec(replace_spec(replace_spec(replace_spec(replace_spec(replace_spec(replace_spec(replace_spec(replace_spec(replace_spec(replace_spec(replace_spec(replace_spec(replace_spec(replace_spec(replace_spec(replace_spec(replace_spec(s, "It is important to note that "@, ""@), "It should be noted that "@, ""@), "It is worth noting that "@, ""@), "In today's rapidly evolving digital landscape, "@, ""@), "In today\u{2019}s rapidly evolving digital landscape, "@, ""@), "plays a crucial role in"@, "helps"@), "plays a vital role in"@, "helps"@), "a wide range of"@, "many"@), "in order to"@, "to"@), "due to the fact that"@, "because"@), "utilize"@, "use"@), "Utilize"@, "Use"@), "leverage"@, "use"@), "Leverage"@, "Use"@), "facilitates"@, "helps"@), "Facilitates"@, "Helps"@), "demonstrates"@, "shows"@), "Demonstrates"@, "Shows"@), "numerous"@, "many"@), "Numerous"@, "Many"@),
{
    reveal_with_fuel(apply_light_rules, 21);
}

/// The repair table, pair by pair, in the order the repair pass applies it.
pub proof fn lemma_repair_table(s: Seq<char>)
    ensures
        apply_repair_rules(s, REPAIR_RULES as nat) == replace_spec(replace_spec(replace_spec(replace_spec(replace_spec(replace_spec(replace_spec(replace_spec(replace_spec(replace_spec(replace_spec(replace_spec(replace_spec(replace_spec(replace_spec(replace_spec(replace_spec(replace_spec(replace_spec(replace_spec(replace_spec(replace_spec(replace_spec(replace_spec(replace_spec(replace_spec(s, "proves invaluable"@, "is useful"@), "proved invaluable"@, "was useful"@), "paramount"@, "important"@), "indispensable"@, "important"@), "robust feedback mechanisms"@, "strong feedback loops"@), "robust feedback loop"@, "strong feedback loop"@), "strongness of their feedback loops"@, "strength of their feedback loops"@), "reviewing importantly"@, "reviewing carefully"@), "necessitates tests"@, "leads to tests"@), "mere compilation"@, "checking that it compiles"@), "mandates frequent"@, "encourages frequent"@), "the what business problem"@, "what business problem"@), "with out existing architecture"@, "with our existing architecture"@), "a important"@, "an important"@), "AI based"@, "AI-assisted"@), "AI-based"@, "AI-assisted"@), "crank out"@, "generate"@), "nail down"@, "define"@), "crystal clear"@, "clear"@), "the trick here"@, "the goal"@), "real win"@, "main benefit"@), "churning out"@, "generating"@), "production action"@, "production behavior"@), "doesn't replacing"@, "does not replace"@), "doesn\u{2019}t replacing"@, "does not replace"@), "supposed to fill"@, "meant to address"@),
{
    reveal_with_fuel(apply_repair_rules, 27);
}

/// The regular expressions of the cleanup, as written.
pub proof fn lemma_pattern_texts()
    ensures
        PREAMBLE_PATTERN@ == r"(?im)^Here is (the )?(rewritten|enhanced|updated).*?:\s*\n"@,
        CERTAINLY_PATTERN@ == r"(?im)^Certainly[,.!]?\s*"@,
        SURE_PATTERN@ == r"(?im)^Sure[,.!]?\s*"@,
        NUMBERED_HEADING_PATTERN@ == r"(?m)^###\s+\d+\.\s+"@,
        SPACE_BEFORE_PUNCTUATION_PATTERN@ == r"\s+([,.!?;:])"@,
        MULTIPLE_SPACES_PATTERN@ == r"[ ]{2,}"@,
        BLANK_LINES_PATTERN@ == r"\n{3,}"@,
{
}

/// In the repair pass, "a paramount" before a word is mended to "an
/// important" before the wrapper removal and spacing cleanup.
pub proof fn lemma_repair_pass_mends_article(t: Seq<char>)
    requires
        t.len() == 0 || t[0] == ' ',
    ensures
        final_repair_spec("a paramount"@ + t) == clean_spacing_spec(
            strip_wrappers_spec("an important"@ + apply_repair_rules(t, REPAIR_RULES as nat)),
        ),
{
    lemma_a_paramount_becomes_an_important(t);
}

} // verus!
