//! The two ways of rewriting an article: the local light rewrite, and the
//! strong rewrite that has a model rewrite each chunk and then repairs and
//! joins the model's answers.
use vstd::prelude::*;
use crate::chunking::{chunk_spec, chunk_text, paragraph_break};
use crate::prompts::{build_user_prompt, user_prompt_spec, RewriteStyle};
use crate::repair::{
    apply_light_rewrites, final_repair_pass, final_repair_spec, lemma_repair_trimmed,
    light_rewrite_spec, RepairPatterns,
};
use crate::text::{
    chars_of, char_views, join_chars, join_spec, string_from_chars, string_views, trim_spec,
};

verus! {

/// The output of the light rewrite: the light rewrite, then the repair pass
/// once more.
pub open spec fn light_mode_spec(text: Seq<char>) -> Seq<char> {
    final_repair_spec(light_rewrite_spec(text))
}

/// Rewrites `text` locally, without a model: the light phrase table and the
/// repair pass, then the repair pass again.
pub fn rewrite_light(patterns: &RepairPatterns, text: &str) -> (r: String)
    ensures
        r@ == light_mode_spec(text@),
{
    let light = apply_light_rewrites(patterns, text);
    final_repair_pass(patterns, light.as_str())
}

/// The prompts for a strong rewrite, one per chunk, and whether to warn that
/// the reference-article style was split over several chunks.
pub struct StrongPlan {
    pub prompts: Vec<String>,
    pub warn_split_reference: bool,
}

/// Plans a strong rewrite of `text`: chunks it for `max_chunk_chars` bytes and
/// builds the prompt of each chunk, numbered from 1.
pub fn plan_strong_rewrite(text: &str, max_chunk_chars: usize, style: RewriteStyle) -> (r: StrongPlan)
    ensures
        r.prompts@.len() == chunk_spec(text@, max_chunk_chars as nat).len(),
        forall|i: int|
            0 <= i < r.prompts@.len() ==> (#[trigger] r.prompts@[i])@ == user_prompt_spec(
                chunk_spec(text@, max_chunk_chars as nat)[i],
                style,
                chunk_spec(text@, max_chunk_chars as nat).len() > 1,
                (i + 1) as nat,
                chunk_spec(text@, max_chunk_chars as nat).len(),
            ),
        r.warn_split_reference == (style == RewriteStyle::ReferenceArticle && chunk_spec(
            text@,
            max_chunk_chars as nat,
        ).len() > 1),
{
    let chunks = chunk_text(text, max_chunk_chars);
    let ghost cv = chunk_spec(text@, max_chunk_chars as nat);
    let n = chunks.len();
    let mut prompts: Vec<String> = Vec::new();
    let mut i: usize = 0;
    while i < n
        invariant
            n == chunks@.len(),
            string_views(chunks@) == cv,
            i <= n,
            prompts@.len() == i,
            forall|k: int|
                0 <= k < i ==> (#[trigger] prompts@[k])@ == user_prompt_spec(
                    cv[k],
                    style,
                    cv.len() > 1,
                    (k + 1) as nat,
                    cv.len(),
                ),
        decreases n - i,
    {
        assert(cv[i as int] == chunks@[i as int]@);
        let p = build_user_prompt(chunks[i].as_str(), style, n > 1, i + 1, n);
        prompts.push(p);
        i = i + 1;
    }
    let warn = match style {
        RewriteStyle::ReferenceArticle => n > 1,
        _ => false,
    };
    StrongPlan { prompts, warn_split_reference: warn }
}

/// The output of a strong rewrite from the models' answers: each answer
/// repaired, the answers joined by blank lines, and the whole repaired.
pub open spec fn assembled_spec(answers: Seq<Seq<char>>) -> Seq<char> {
    final_repair_spec(
        join_spec(answers.map_values(|a: Seq<char>| final_repair_spec(a)), paragraph_break()),
    )
}

/// Puts a strong rewrite together from the models' answers, one per chunk.
pub fn assemble_rewrite(patterns: &RepairPatterns, answers: &Vec<String>) -> (r: String)
    ensures
        r@ == assembled_spec(string_views(answers@)),
{
    let ghost av = string_views(answers@);
    let mut repaired: Vec<Vec<char>> = Vec::new();
    let mut i: usize = 0;
    while i < answers.len()
        invariant
            i <= answers@.len(),
            av == string_views(answers@),
            char_views(repaired@) == av.take(i as int).map_values(|a: Seq<char>| final_repair_spec(a)),
        decreases answers@.len() - i,
    {
        let fixed = final_repair_pass(patterns, answers[i].as_str());
        let cs = chars_of(fixed.as_str());
        let ghost prev = repaired@;
        repaired.push(cs);
        proof {
            assert(char_views(repaired@) =~= char_views(prev).push(cs@));
            assert(av.take(i + 1).map_values(|a: Seq<char>| final_repair_spec(a)) =~= av.take(
                i as int,
            ).map_values(|a: Seq<char>| final_repair_spec(a)).push(final_repair_spec(av[i as int])));
        }
        i = i + 1;
    }
    assert(av.take(answers@.len() as int) =~= av);
    let mut sep: Vec<char> = Vec::new();
    sep.push('\n');
    sep.push('\n');
    assert(sep@ =~= paragraph_break());
    let joined = join_chars(&repaired, &sep);
    let joined_s = string_from_chars(&joined);
    final_repair_pass(patterns, joined_s.as_str())
}

/// Both ways of rewriting end with the repair pass, so their output is
/// already trimmed: trimming it before writing it out changes nothing.
pub proof fn lemma_outputs_trimmed(text: Seq<char>, answers: Seq<Seq<char>>)
    ensures
        trim_spec(light_mode_spec(text)) == light_mode_spec(text),
        trim_spec(assembled_spec(answers)) == assembled_spec(answers),
{
    lemma_repair_trimmed(light_rewrite_spec(text));
    lemma_repair_trimmed(
        join_spec(answers.map_values(|a: Seq<char>| final_repair_spec(a)), paragraph_break()),
    );
}

} // verus!
