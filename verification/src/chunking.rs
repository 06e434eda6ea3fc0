//! Splitting a long article into chunks of bounded size, by paragraph and,
//! for paragraphs that are too long on their own, by sentence.
use vstd::prelude::*;
use crate::sentences::{lemma_sentences_keep_text, sentences_of, sentences_spec};
use crate::text::{
    is_trimmed, lemma_blank_iff_invisible, lemma_trim_is_trimmed, lemma_visible_concat,
    lemma_visible_single, lemma_visible_trim, split_scan, visible,
    byte_len, char_views, chars_of, extend_chars, is_blank_chars, lemma_byte_len_bound,
    lemma_byte_len_concat, lemma_byte_len_push, split_on, split_spec, string_from_chars,
    string_views, trim_chars, trim_spec, utf8_len_chars,
};

verus! {

/// The state of chunking: the chunks finished so far and the chunk being
/// filled.
pub struct ChunkState {
    pub chunks: Seq<Seq<char>>,
    pub current: Seq<char>,
}

/// The separator between paragraphs: a blank line.
pub open spec fn paragraph_break() -> Seq<char> {
    seq!['\n', '\n']
}

/// Closes the chunk being filled: it is kept trimmed and a new one begins.
pub open spec fn flush(st: ChunkState) -> ChunkState {
    ChunkState { chunks: st.chunks.push(trim_spec(st.current)), current: seq![] }
}

/// Closes the chunk being filled when it is not empty and `extra` more bytes
/// would take it over `max` bytes.
pub open spec fn flush_if_full(st: ChunkState, extra: nat, max: nat) -> ChunkState {
    if byte_len(st.current) + extra > max && st.current.len() > 0 {
        flush(st)
    } else {
        st
    }
}

/// Adds one sentence and a space after it.
pub open spec fn add_sentence(st: ChunkState, s: Seq<char>, max: nat) -> ChunkState {
    let st1 = flush_if_full(st, byte_len(s) + 1, max);
    ChunkState { chunks: st1.chunks, current: st1.current + s + seq![' '] }
}

/// Adds the sentences of `ss`, in order.
pub open spec fn add_sentences(st: ChunkState, ss: Seq<Seq<char>>, max: nat) -> ChunkState
    decreases ss.len(),
{
    if ss.len() == 0 {
        st
    } else {
        add_sentence(add_sentences(st, ss.drop_last(), max), ss.last(), max)
    }
}

/// The paragraph `p` as it is added: after a blank line when the chunk being
/// filled is not empty.
pub open spec fn with_break(st: ChunkState, p: Seq<char>) -> Seq<char> {
    if st.current.len() == 0 {
        p
    } else {
        paragraph_break() + p
    }
}

/// Adds one paragraph: whole when it fits within `max` bytes, else sentence
/// by sentence.
pub open spec fn add_paragraph(st: ChunkState, p: Seq<char>, max: nat) -> ChunkState {
    let pb = with_break(st, p);
    let st1 = flush_if_full(st, byte_len(pb), max);
    if byte_len(pb) > max {
        add_sentences(st1, sentences_spec(pb), max)
    } else {
        ChunkState { chunks: st1.chunks, current: st1.current + pb }
    }
}

/// Adds the paragraphs of `ps`, in order.
pub open spec fn add_paragraphs(st: ChunkState, ps: Seq<Seq<char>>, max: nat) -> ChunkState
    decreases ps.len(),
{
    if ps.len() == 0 {
        st
    } else {
        add_paragraph(add_paragraphs(st, ps.drop_last(), max), ps.last(), max)
    }
}

/// The state after every paragraph of `text` has been added.
pub open spec fn chunk_fill(text: Seq<char>, max: nat) -> ChunkState {
    add_paragraphs(ChunkState { chunks: seq![], current: seq![] }, split_spec(text, paragraph_break()), max)
}

/// The chunks of `text` for a limit of `max` bytes: the text itself when it
/// fits; else its paragraphs gathered into chunks as above, with the last
/// chunk kept when it is not whitespace only.
pub open spec fn chunk_spec(text: Seq<char>, max: nat) -> Seq<Seq<char>> {
    if byte_len(text) <= max {
        seq![text]
    } else {
        let st = chunk_fill(text, max);
        if trim_spec(st.current).len() > 0 {
            st.chunks.push(trim_spec(st.current))
        } else {
            st.chunks
        }
    }
}

/// The chunker's exec state.
struct Filler {
    chunks: Vec<Vec<char>>,
    current: Vec<char>,
    current_len: u128,
}

impl Filler {
    spec fn state(&self) -> ChunkState {
        ChunkState { chunks: char_views(self.chunks@), current: self.current@ }
    }

    spec fn wf(&self) -> bool {
        self.current_len == byte_len(self.current@)
    }

    fn flush_if_full(&mut self, extra: u128, max: usize)
        requires
            old(self).wf(),
            extra <= 4 * (usize::MAX as int) + 8,
        ensures
            final(self).wf(),
            final(self).state() == flush_if_full(old(self).state(), extra as nat, max as nat),
    {
        let n = self.current.len();
        proof {
            lemma_byte_len_bound(self.current@);
        }
        if self.current_len + extra > max as u128 && self.current.len() > 0 {
            let t = trim_chars(&self.current);
            let ghost before = char_views(self.chunks@);
            self.chunks.push(t);
            self.current = Vec::new();
            self.current_len = 0;
            proof {
                assert(char_views(self.chunks@) =~= before.push(t@));
                assert(byte_len(self.current@) == 0) by {
                    assert(self.current@ =~= Seq::<char>::empty());
                }
            }
        }
    }

    fn append(&mut self, t: &Vec<char>, t_len: u128)
        requires
            old(self).wf(),
            t_len == byte_len(t@),
        ensures
            final(self).wf(),
            final(self).state() == (ChunkState {
                chunks: old(self).state().chunks,
                current: old(self).state().current + t@,
            }),
    {
        let n = self.current.len();
        let m = t.len();
        proof {
            lemma_byte_len_concat(self.current@, t@);
            lemma_byte_len_bound(self.current@);
            lemma_byte_len_bound(t@);
        }
        extend_chars(&mut self.current, t);
        self.current_len = self.current_len + t_len;
    }

    fn add_sentence(&mut self, s: &Vec<char>, max: usize)
        requires
            old(self).wf(),
        ensures
            final(self).wf(),
            final(self).state() == add_sentence(old(self).state(), s@, max as nat),
    {
        let s_len = utf8_len_chars(s);
        let n = s.len();
        proof {
            lemma_byte_len_bound(s@);
        }
        self.flush_if_full(s_len + 1, max);
        self.append(s, s_len);
        let ghost mid = self.current@;
        let n = self.current.len();
        proof {
            lemma_byte_len_bound(mid);
            lemma_byte_len_push(mid, ' ');
            lemma_byte_len_bound(mid.push(' '));
        }
        self.current.push(' ');
        self.current_len = self.current_len + 1;
        assert(self.current@ =~= mid + seq![' ']);
    }

    fn add_paragraph(&mut self, p: &Vec<char>, max: usize)
        requires
            old(self).wf(),
        ensures
            final(self).wf(),
            final(self).state() == add_paragraph(old(self).state(), p@, max as nat),
    {
        let ghost st0 = self.state();
        let mut pb: Vec<char> = Vec::new();
        if self.current.len() > 0 {
            pb.push('\n');
            pb.push('\n');
        }
        extend_chars(&mut pb, p);
        assert(pb@ =~= with_break(st0, p@));
        let pb_len = utf8_len_chars(&pb);
        let n = pb.len();
        proof {
            lemma_byte_len_bound(pb@);
        }
        self.flush_if_full(pb_len, max);
        if pb_len > max as u128 {
            let ss = sentences_of(&pb);
            let ghost st1 = self.state();
            let mut j: usize = 0;
            while j < ss.len()
                invariant
                    j <= ss@.len(),
                    self.wf(),
                    self.state() == add_sentences(st1, char_views(ss@).take(j as int), max as nat),
                decreases ss@.len() - j,
            {
                self.add_sentence(&ss[j], max);
                proof {
                    let sv = char_views(ss@);
                    assert(sv.take(j + 1).drop_last() =~= sv.take(j as int));
                    assert(sv.take(j + 1).last() == ss@[j as int]@);
                }
                j = j + 1;
            }
            assert(char_views(ss@).take(ss@.len() as int) =~= char_views(ss@));
        } else {
            self.append(&pb, pb_len);
        }
    }
}

/// Splits `text` into chunks for a limit of `max_chars` bytes (see
/// [`chunk_spec`]): a text that fits is one chunk; a longer one is cut at
/// paragraph breaks, and a paragraph that does not fit by itself is cut after
/// its sentences.
pub fn chunk_text(text: &str, max_chars: usize) -> (r: Vec<String>)
    ensures
        string_views(r@) == chunk_spec(text@, max_chars as nat),
        byte_len(text@) <= max_chars ==> r@.len() == 1 && r@[0]@ == text@,
{
    let cs = chars_of(text);
    let total = utf8_len_chars(&cs);
    if total <= max_chars as u128 {
        let mut r: Vec<String> = Vec::new();
        r.push(string_from_chars(&cs));
        assert(string_views(r@) =~= chunk_spec(text@, max_chars as nat));
        return r;
    }
    let mut sep: Vec<char> = Vec::new();
    sep.push('\n');
    sep.push('\n');
    assert(sep@ =~= paragraph_break());
    let paragraphs = split_on(&cs, &sep);
    let mut f = Filler { chunks: Vec::new(), current: Vec::new(), current_len: 0 };
    assert(f.state().chunks =~= Seq::<Seq<char>>::empty());
    assert(byte_len(f.current@) == 0) by {
        assert(f.current@ =~= Seq::<char>::empty());
    }
    let ghost init = f.state();
    let mut i: usize = 0;
    while i < paragraphs.len()
        invariant
            i <= paragraphs@.len(),
            f.wf(),
            f.state() == add_paragraphs(init, char_views(paragraphs@).take(i as int), max_chars as nat),
            init == (ChunkState { chunks: seq![], current: seq![] }),
        decreases paragraphs@.len() - i,
    {
        f.add_paragraph(&paragraphs[i], max_chars);
        proof {
            let pv = char_views(paragraphs@);
            assert(pv.take(i + 1).drop_last() =~= pv.take(i as int));
            assert(pv.take(i + 1).last() == paragraphs@[i as int]@);
        }
        i = i + 1;
    }
    assert(char_views(paragraphs@).take(paragraphs@.len() as int) =~= char_views(paragraphs@));
    let mut chunks = f.chunks;
    if !is_blank_chars(&f.current) {
        let ghost before = char_views(chunks@);
        let t = trim_chars(&f.current);
        chunks.push(t);
        assert(char_views(chunks@) =~= before.push(t@));
    }
    let mut out: Vec<String> = Vec::new();
    let mut k: usize = 0;
    while k < chunks.len()
        invariant
            k <= chunks@.len(),
            string_views(out@) == char_views(chunks@).take(k as int),
        decreases chunks@.len() - k,
    {
        let ghost prev = out@;
        let st = string_from_chars(&chunks[k]);
        out.push(st);
        proof {
            assert(string_views(out@) =~= string_views(prev).push(st@));
            assert(char_views(chunks@).take(k + 1) =~= char_views(chunks@).take(k as int).push(chunks@[k as int]@));
        }
        k = k + 1;
    }
    assert(char_views(chunks@).take(chunks@.len() as int) =~= char_views(chunks@));
    out
}


// ---------------------------------------------------------------------------
// Laws of chunking
// ---------------------------------------------------------------------------

/// The visible characters of the finished chunks followed by those of the
/// chunk being filled.
pub open spec fn state_visible(st: ChunkState) -> Seq<char> {
    visible(st.chunks.flatten()) + visible(st.current)
}

/// Every finished chunk has no whitespace at either end.
pub open spec fn all_trimmed(chunks: Seq<Seq<char>>) -> bool {
    forall|k: int| 0 <= k < chunks.len() ==> is_trimmed(#[trigger] chunks[k])
}

proof fn lemma_visible_empty()
    ensures
        visible(Seq::<char>::empty()) == Seq::<char>::empty(),
{
    assert(visible(Seq::<char>::empty()) =~= Seq::<char>::empty());
}

proof fn lemma_flush_if_full_laws(st: ChunkState, extra: nat, max: nat)
    ensures
        state_visible(flush_if_full(st, extra, max)) == state_visible(st),
        all_trimmed(st.chunks) ==> all_trimmed(flush_if_full(st, extra, max).chunks),
{
    if byte_len(st.current) + extra > max && st.current.len() > 0 {
        let t = trim_spec(st.current);
        st.chunks.lemma_flatten_push(t);
        lemma_visible_concat(st.chunks.flatten(), t);
        lemma_visible_trim(st.current);
        lemma_visible_empty();
        lemma_trim_is_trimmed(st.current);
        assert(state_visible(flush(st)) =~= state_visible(st));
        assert forall|k: int| all_trimmed(st.chunks) && 0 <= k < st.chunks.push(t).len() implies
            is_trimmed(#[trigger] st.chunks.push(t)[k]) by {
            if k < st.chunks.len() {
                assert(st.chunks.push(t)[k] == st.chunks[k]);
            }
        }
    }
}

proof fn lemma_add_sentence_laws(st: ChunkState, s: Seq<char>, max: nat)
    ensures
        state_visible(add_sentence(st, s, max)) == state_visible(st) + visible(s),
        all_trimmed(st.chunks) ==> all_trimmed(add_sentence(st, s, max).chunks),
{
    let st1 = flush_if_full(st, byte_len(s) + 1, max);
    lemma_flush_if_full_laws(st, byte_len(s) + 1, max);
    lemma_visible_concat(st1.current, s);
    lemma_visible_concat(st1.current + s, seq![' ']);
    lemma_visible_single(' ');
    assert(state_visible(add_sentence(st, s, max)) =~= state_visible(st) + visible(s));
}

proof fn lemma_add_sentences_laws(st: ChunkState, ss: Seq<Seq<char>>, max: nat)
    ensures
        state_visible(add_sentences(st, ss, max)) == state_visible(st) + visible(ss.flatten()),
        all_trimmed(st.chunks) ==> all_trimmed(add_sentences(st, ss, max).chunks),
    decreases ss.len(),
{
    if ss.len() == 0 {
        assert(ss.flatten() =~= Seq::<char>::empty());
        lemma_visible_empty();
        assert(state_visible(st) + visible(ss.flatten()) =~= state_visible(st));
    } else {
        let mid = add_sentences(st, ss.drop_last(), max);
        lemma_add_sentences_laws(st, ss.drop_last(), max);
        lemma_add_sentence_laws(mid, ss.last(), max);
        ss.drop_last().lemma_flatten_push(ss.last());
        assert(ss.drop_last().push(ss.last()) =~= ss);
        lemma_visible_concat(ss.drop_last().flatten(), ss.last());
        assert(state_visible(add_sentences(st, ss, max)) =~= state_visible(st) + visible(ss.flatten()));
    }
}

proof fn lemma_break_invisible()
    ensures
        visible(paragraph_break()) == Seq::<char>::empty(),
{
    lemma_visible_concat(seq!['\n'], seq!['\n']);
    assert(seq!['\n'] + seq!['\n'] =~= paragraph_break());
    lemma_visible_single('\n');
    assert(visible(paragraph_break()) =~= Seq::<char>::empty());
}

proof fn lemma_with_break_visible(st: ChunkState, p: Seq<char>)
    ensures
        visible(with_break(st, p)) == visible(p),
{
    if st.current.len() > 0 {
        lemma_visible_concat(paragraph_break(), p);
        lemma_break_invisible();
        assert(visible(paragraph_break()) + visible(p) =~= visible(p));
    }
}

proof fn lemma_add_paragraph_laws(st: ChunkState, p: Seq<char>, max: nat)
    ensures
        state_visible(add_paragraph(st, p, max)) == state_visible(st) + visible(p),
        all_trimmed(st.chunks) ==> all_trimmed(add_paragraph(st, p, max).chunks),
{
    let pb = with_break(st, p);
    let st1 = flush_if_full(st, byte_len(pb), max);
    lemma_with_break_visible(st, p);
    lemma_flush_if_full_laws(st, byte_len(pb), max);
    if byte_len(pb) > max {
        lemma_add_sentences_laws(st1, sentences_spec(pb), max);
        lemma_sentences_keep_text(pb);
    } else {
        lemma_visible_concat(st1.current, pb);
        assert(state_visible(add_paragraph(st, p, max)) =~= state_visible(st) + visible(p));
    }
}

proof fn lemma_add_paragraphs_laws(st: ChunkState, ps: Seq<Seq<char>>, max: nat)
    ensures
        state_visible(add_paragraphs(st, ps, max)) == state_visible(st) + visible(ps.flatten()),
        all_trimmed(st.chunks) ==> all_trimmed(add_paragraphs(st, ps, max).chunks),
    decreases ps.len(),
{
    if ps.len() == 0 {
        assert(ps.flatten() =~= Seq::<char>::empty());
        lemma_visible_empty();
        assert(state_visible(st) + visible(ps.flatten()) =~= state_visible(st));
    } else {
        let mid = add_paragraphs(st, ps.drop_last(), max);
        lemma_add_paragraphs_laws(st, ps.drop_last(), max);
        lemma_add_paragraph_laws(mid, ps.last(), max);
        ps.drop_last().lemma_flatten_push(ps.last());
        assert(ps.drop_last().push(ps.last()) =~= ps);
        lemma_visible_concat(ps.drop_last().flatten(), ps.last());
        assert(state_visible(add_paragraphs(st, ps, max)) =~= state_visible(st) + visible(ps.flatten()));
    }
}

proof fn lemma_split_scan_keeps_text(s: Seq<char>, sep: Seq<char>, i: int)
    requires
        0 <= i,
        visible(sep).len() == 0,
    ensures
        visible(split_scan(s, sep, i).flatten()) == visible(s),
    decreases s.len(), s.len() - i,
{
    if sep.len() == 0 || i + sep.len() > s.len() {
        assert(seq![s].flatten() == s) by {
            assert(seq![s].drop_first() =~= Seq::<Seq<char>>::empty());
            assert(seq![s].flatten() =~= s + seq![s].drop_first().flatten());
        }
    } else if s.subrange(i, i + sep.len()) == sep {
        let rest = s.skip(i + sep.len());
        lemma_split_scan_keeps_text(rest, sep, 0);
        let a = seq![s.take(i)];
        let b = split_scan(rest, sep, 0);
        vstd::seq_lib::lemma_flatten_concat(a, b);
        assert(a.flatten() == s.take(i)) by {
            assert(a.drop_first() =~= Seq::<Seq<char>>::empty());
            assert(a.flatten() =~= s.take(i) + a.drop_first().flatten());
        }
        lemma_visible_concat(s.take(i), b.flatten());
        lemma_visible_concat(s.take(i), sep);
        lemma_visible_concat(s.take(i) + sep, rest);
        assert(s.take(i) + sep + rest =~= s);
        assert(visible(s.take(i)) + visible(sep) =~= visible(s.take(i)));
    } else {
        lemma_split_scan_keeps_text(s, sep, i + 1);
    }
}

/// Chunking loses and reorders no visible character of the text: joined,
/// the chunks hold the non-whitespace characters of the text, in order.
pub proof fn lemma_chunks_keep_text(text: Seq<char>, max: nat)
    ensures
        visible(chunk_spec(text, max).flatten()) == visible(text),
{
    if byte_len(text) <= max {
        assert(seq![text].flatten() == text) by {
            assert(seq![text].drop_first() =~= Seq::<Seq<char>>::empty());
            assert(seq![text].flatten() =~= text + seq![text].drop_first().flatten());
        }
    } else {
        let init = ChunkState { chunks: seq![], current: seq![] };
        let ps = split_spec(text, paragraph_break());
        lemma_visible_empty();
        lemma_break_invisible();
        lemma_split_scan_keeps_text(text, paragraph_break(), 0);
        lemma_add_paragraphs_laws(init, ps, max);
        assert(init.chunks.flatten() =~= Seq::<char>::empty());
        assert(state_visible(init) =~= Seq::<char>::empty());
        let st = chunk_fill(text, max);
        assert(state_visible(st) =~= visible(text));
        let t = trim_spec(st.current);
        lemma_visible_trim(st.current);
        lemma_blank_iff_invisible(st.current);
        if t.len() > 0 {
            st.chunks.lemma_flatten_push(t);
            lemma_visible_concat(st.chunks.flatten(), t);
        } else {
            assert(visible(st.current) =~= Seq::<char>::empty());
            assert(state_visible(st) =~= visible(st.chunks.flatten()));
        }
    }
}

/// Every chunk of a text that is over the limit has no whitespace at either
/// end.
pub proof fn lemma_chunks_trimmed(text: Seq<char>, max: nat)
    requires
        byte_len(text) > max,
    ensures
        forall|k: int| 0 <= k < chunk_spec(text, max).len() ==> is_trimmed(
            #[trigger] chunk_spec(text, max)[k],
        ),
{
    let init = ChunkState { chunks: seq![], current: seq![] };
    lemma_add_paragraphs_laws(init, split_spec(text, paragraph_break()), max);
    let st = chunk_fill(text, max);
    let t = trim_spec(st.current);
    lemma_trim_is_trimmed(st.current);
    if t.len() > 0 {
        assert forall|k: int| 0 <= k < st.chunks.push(t).len() implies is_trimmed(
            #[trigger] st.chunks.push(t)[k],
        ) by {
            if k < st.chunks.len() {
                assert(st.chunks.push(t)[k] == st.chunks[k]);
            }
        }
    }
}

} // verus!
