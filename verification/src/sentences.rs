//! Splitting text into sentences.
use vstd::prelude::*;
use crate::text::{
    is_white_space, lemma_trim_range,
    is_trimmed, lemma_blank_iff_invisible, lemma_trim_is_trimmed, lemma_visible_concat,
    lemma_visible_trim, visible, char_views, chars_of, slice_chars, string_from_chars, string_views, trim_chars, trim_spec,
};

verus! {

/// `c` ends a sentence.
pub open spec fn is_sentence_end(c: char) -> bool {
    c == '.' || c == '!' || c == '?'
}

/// `t` as a one-element sequence when it is not empty, else no element.
pub open spec fn keep_nonempty(t: Seq<char>) -> Seq<Seq<char>> {
    if t.len() > 0 {
        seq![t]
    } else {
        seq![]
    }
}

/// The sentences of `s`, where the scan for the end of the first one has
/// reached index `i`.
pub open spec fn sentences_scan(s: Seq<char>, i: int) -> Seq<Seq<char>>
    decreases s.len(), s.len() - i,
{
    if i < 0 || i >= s.len() {
        keep_nonempty(trim_spec(s))
    } else if is_sentence_end(s[i]) {
        keep_nonempty(trim_spec(s.take(i + 1))) + sentences_scan(s.skip(i + 1), 0)
    } else {
        sentences_scan(s, i + 1)
    }
}

/// The sentences of `s`: the pieces of `s` that end just after each `.`, `!`
/// or `?` (the last piece may end without one), each trimmed, with the pieces
/// that are whitespace only left out.
pub open spec fn sentences_spec(s: Seq<char>) -> Seq<Seq<char>> {
    sentences_scan(s, 0)
}

fn is_sentence_end_char(c: char) -> (r: bool)
    ensures
        r == is_sentence_end(c),
{
    c == '.' || c == '!' || c == '?'
}

/// Appends `t` trimmed to `out` unless it is whitespace only.
fn push_trimmed(out: &mut Vec<Vec<char>>, t: &Vec<char>)
    ensures
        char_views(final(out)@) == char_views(old(out)@) + keep_nonempty(trim_spec(t@)),
{
    let tt = trim_chars(t);
    if tt.len() > 0 {
        out.push(tt);
        assert(char_views(out@) =~= char_views(old(out)@) + keep_nonempty(trim_spec(t@)));
    } else {
        assert(char_views(out@) =~= char_views(old(out)@) + keep_nonempty(trim_spec(t@)));
    }
}

/// The sentences of `s` as character vectors.
pub fn sentences_of(s: &Vec<char>) -> (r: Vec<Vec<char>>)
    ensures
        char_views(r@) == sentences_spec(s@),
{
    let mut out: Vec<Vec<char>> = Vec::new();
    let mut start: usize = 0;
    let mut i: usize = 0;
    assert(s@.skip(0) =~= s@);
    loop
        invariant
            start <= i <= s@.len(),
            char_views(out@) + sentences_scan(s@.skip(start as int), i - start) == sentences_spec(s@),
        decreases s@.len() - i,
    {
        let ghost rest = s@.skip(start as int);
        let ghost before = char_views(out@);
        if i == s.len() {
            let piece = slice_chars(s, start, s.len());
            assert(piece@ =~= rest);
            push_trimmed(&mut out, &piece);
            return out;
        }
        if is_sentence_end_char(s[i]) {
            let piece = slice_chars(s, start, i + 1);
            proof {
                assert(rest[i - start] == s@[i as int]);
                assert(piece@ =~= rest.take(i - start + 1));
                assert(rest.skip(i - start + 1) =~= s@.skip(i + 1));
                assert(s@.skip(i + 1).skip(0) =~= s@.skip(i + 1));
            }
            push_trimmed(&mut out, &piece);
            assert(char_views(out@) + sentences_scan(s@.skip(i + 1), 0) =~= sentences_spec(s@));
            start = i + 1;
            i = start;
        } else {
            proof {
                assert(rest[i - start] == s@[i as int]);
            }
            i = i + 1;
        }
    }
}

/// Splits `text` into sentences: a sentence ends just after `.`, `!` or `?`,
/// each sentence is trimmed, and whitespace-only pieces are dropped.
pub fn split_into_sentences(text: &str) -> (r: Vec<String>)
    ensures
        string_views(r@) == sentences_spec(text@),
{
    let cs = chars_of(text);
    let parts = sentences_of(&cs);
    let mut out: Vec<String> = Vec::new();
    let mut i: usize = 0;
    while i < parts.len()
        invariant
            i <= parts@.len(),
            string_views(out@) == char_views(parts@).take(i as int),
        decreases parts@.len() - i,
    {
        let ghost prev = out@;
        let st = string_from_chars(&parts[i]);
        out.push(st);
        proof {
            assert(out@ == prev.push(st));
            assert(string_views(out@) =~= string_views(prev).push(st@));
            assert(char_views(parts@).take(i + 1) =~= char_views(parts@).take(i as int).push(parts@[i as int]@));
        }
        i = i + 1;
    }
    assert(char_views(parts@).take(parts@.len() as int) =~= char_views(parts@));
    out
}


proof fn lemma_keep_nonempty_visible(t: Seq<char>)
    ensures
        visible(keep_nonempty(trim_spec(t)).flatten()) == visible(t),
{
    lemma_visible_trim(t);
    let k = keep_nonempty(trim_spec(t));
    if trim_spec(t).len() > 0 {
        assert(k.flatten() == trim_spec(t)) by {
            assert(k.drop_first() =~= Seq::<Seq<char>>::empty());
            assert(k.flatten() =~= k[0] + k.drop_first().flatten());
        }
    } else {
        lemma_blank_iff_invisible(t);
        assert(k.flatten() =~= Seq::<char>::empty());
        assert(visible(Seq::<char>::empty()) =~= Seq::<char>::empty());
    }
}

proof fn lemma_scan_keeps_text(s: Seq<char>, i: int)
    requires
        0 <= i,
    ensures
        visible(sentences_scan(s, i).flatten()) == visible(s),
    decreases s.len(), s.len() - i,
{
    if i >= s.len() {
        lemma_keep_nonempty_visible(s);
    } else if is_sentence_end(s[i]) {
        lemma_scan_keeps_text(s.skip(i + 1), 0);
        lemma_keep_nonempty_visible(s.take(i + 1));
        let a = keep_nonempty(trim_spec(s.take(i + 1)));
        let b = sentences_scan(s.skip(i + 1), 0);
        vstd::seq_lib::lemma_flatten_concat(a, b);
        lemma_visible_concat(a.flatten(), b.flatten());
        lemma_visible_concat(s.take(i + 1), s.skip(i + 1));
        assert(s.take(i + 1) + s.skip(i + 1) =~= s);
    } else {
        lemma_scan_keeps_text(s, i + 1);
    }
}

/// Splitting into sentences loses and reorders no visible character: only
/// whitespace between sentences is dropped.
pub proof fn lemma_sentences_keep_text(s: Seq<char>)
    ensures
        visible(sentences_spec(s).flatten()) == visible(s),
{
    lemma_scan_keeps_text(s, 0);
}

proof fn lemma_scan_trimmed(s: Seq<char>, i: int)
    requires
        0 <= i,
    ensures
        forall|k: int| 0 <= k < sentences_scan(s, i).len() ==> {
            let t = #[trigger] sentences_scan(s, i)[k];
            t.len() > 0 && is_trimmed(t)
        },
    decreases s.len(), s.len() - i,
{
    if i >= s.len() {
        lemma_trim_is_trimmed(s);
        let a = keep_nonempty(trim_spec(s));
        if a.len() > 0 {
            assert(a[0] == trim_spec(s));
        }
        assert(sentences_scan(s, i) == a);
    } else if is_sentence_end(s[i]) {
        lemma_scan_trimmed(s.skip(i + 1), 0);
        lemma_trim_is_trimmed(s.take(i + 1));
        let a = keep_nonempty(trim_spec(s.take(i + 1)));
        let b = sentences_scan(s.skip(i + 1), 0);
        assert(sentences_scan(s, i) == a + b);
        assert forall|k: int| 0 <= k < (a + b).len() implies {
            let t = #[trigger] (a + b)[k];
            t.len() > 0 && is_trimmed(t)
        } by {
            if k < a.len() {
                assert((a + b)[k] == a[k]);
                assert(a[k] == trim_spec(s.take(i + 1)));
            } else {
                assert((a + b)[k] == b[k - a.len()]);
            }
        }
    } else {
        lemma_scan_trimmed(s, i + 1);
        assert(sentences_scan(s, i) == sentences_scan(s, i + 1));
    }
}

/// Every sentence is non-empty and has no whitespace at either end.
pub proof fn lemma_sentences_trimmed(s: Seq<char>)
    ensures
        forall|k: int| 0 <= k < sentences_spec(s).len() ==> {
            let t = #[trigger] sentences_spec(s)[k];
            t.len() > 0 && is_trimmed(t)
        },
{
    lemma_scan_trimmed(s, 0);
}


/// `c` is one of '.', '!' and '?'.
pub open spec fn is_terminator_char(c: char) -> bool {
    c == '.' || c == '!' || c == '?'
}

/// Every sentence but the last ends with '.', '!' or '?', and none holds one
/// of them before its last character.
pub open spec fn cut_after_terminators(ss: Seq<Seq<char>>) -> bool {
    &&& forall|k: int| 0 <= k < ss.len() - 1 ==> is_terminator_char(#[trigger] ss[k].last())
    &&& forall|k: int, j: int|
        0 <= k < ss.len() && 0 <= j < ss[k].len() - 1 ==> !is_terminator_char(#[trigger] ss[k][j])
}

proof fn lemma_scan_cuts(s: Seq<char>, i: int)
    requires
        0 <= i,
        forall|k: int| 0 <= k < i && k < s.len() ==> !is_terminator_char(#[trigger] s[k]),
    ensures
        cut_after_terminators(sentences_scan(s, i)),
        forall|k: int| 0 <= k < sentences_scan(s, i).len() ==> (#[trigger] sentences_scan(s, i)[k]).len() > 0,
    decreases s.len(), s.len() - i,
{
    if i >= s.len() {
        let r = lemma_trim_range(s);
        let t = trim_spec(s);
        let a = keep_nonempty(t);
        assert(sentences_scan(s, i) == a);
        if t.len() > 0 {
            assert(a[0] == t);
            assert forall|j: int| 0 <= j < t.len() implies !is_terminator_char(#[trigger] t[j]) by {
                assert(t[j] == s[r.0 + j]);
            }
        }
    } else if is_sentence_end(s[i]) {
        let piece = s.take(i + 1);
        let r = lemma_trim_range(piece);
        let t = trim_spec(piece);
        assert(piece.last() == s[i]);
        assert(is_terminator_char(s[i]));
        assert(!is_white_space(s[i]));
        let a = keep_nonempty(t);
        let rest = sentences_scan(s.skip(i + 1), 0);
        lemma_scan_cuts(s.skip(i + 1), 0);
        assert(sentences_scan(s, i) == a + rest);
        if t.len() > 0 {
            assert(a[0] == t);
            assert(t.last() == s[i]);
            assert forall|j: int| 0 <= j < t.len() - 1 implies !is_terminator_char(#[trigger] t[j]) by {
                assert(t[j] == piece[r.0 + j]);
                assert(piece[r.0 + j] == s[r.0 + j]);
            }
        }
        let all = a + rest;
        assert forall|k: int| 0 <= k < all.len() - 1 implies is_terminator_char(#[trigger] all[k].last()) by {
            if k < a.len() {
                assert(all[k] == t);
            } else {
                assert(all[k] == rest[k - a.len()]);
            }
        }
        assert forall|k: int, j: int| 0 <= k < all.len() && 0 <= j < all[k].len() - 1 implies !is_terminator_char(
            #[trigger] all[k][j],
        ) by {
            if k < a.len() {
                assert(all[k] == t);
            } else {
                assert(all[k] == rest[k - a.len()]);
            }
        }
        assert forall|k: int| 0 <= k < all.len() implies (#[trigger] all[k]).len() > 0 by {
            if k < a.len() {
                assert(all[k] == t);
            } else {
                assert(all[k] == rest[k - a.len()]);
            }
        }
    } else {
        assert(!is_terminator_char(s[i]));
        lemma_scan_cuts(s, i + 1);
        assert(sentences_scan(s, i) == sentences_scan(s, i + 1));
    }
}

/// Sentences are cut exactly after '.', '!' and '?': every sentence but the
/// last ends with one of them, and no sentence holds one before its end.
pub proof fn lemma_sentence_cuts(s: Seq<char>)
    ensures
        cut_after_terminators(sentences_spec(s)),
{
    lemma_scan_cuts(s, 0);
}

} // verus!
