//! Character-level text operations: whitespace, trimming, literal search and
//! replacement, line splitting, joining, decimal numbers and UTF-8 lengths.
use vstd::prelude::*;
use vstd::utf8::encode_utf8;
use vstd::utf8::encode_scalar;

verus! {

// ---------------------------------------------------------------------------
// Whitespace and trimming
// ---------------------------------------------------------------------------

/// The Unicode `White_Space` property, the notion of whitespace that `trim`
/// uses.
pub open spec fn is_white_space(c: char) -> bool {
    let u = c as u32;
    ||| 0x09 <= u <= 0x0d
    ||| u == 0x20
    ||| u == 0x85
    ||| u == 0xa0
    ||| u == 0x1680
    ||| 0x2000 <= u <= 0x200a
    ||| u == 0x2028
    ||| u == 0x2029
    ||| u == 0x202f
    ||| u == 0x205f
    ||| u == 0x3000
}

/// `s` without its trailing whitespace.
pub open spec fn trim_end_spec(s: Seq<char>) -> Seq<char>
    decreases s.len(),
{
    if s.len() > 0 && is_white_space(s.last()) {
        trim_end_spec(s.drop_last())
    } else {
        s
    }
}

/// `s` without its leading whitespace.
pub open spec fn trim_start_spec(s: Seq<char>) -> Seq<char>
    decreases s.len(),
{
    if s.len() > 0 && is_white_space(s[0]) {
        trim_start_spec(s.drop_first())
    } else {
        s
    }
}

/// `s` without its leading and trailing whitespace.
pub open spec fn trim_spec(s: Seq<char>) -> Seq<char> {
    trim_start_spec(trim_end_spec(s))
}

/// `s` holds no whitespace at either end.
pub open spec fn is_trimmed(s: Seq<char>) -> bool {
    s.len() > 0 ==> !is_white_space(s[0]) && !is_white_space(s.last())
}

/// The characters of `s` that are not whitespace, in order.
pub open spec fn visible(s: Seq<char>) -> Seq<char>
    decreases s.len(),
{
    if s.len() == 0 {
        seq![]
    } else if is_white_space(s.last()) {
        visible(s.drop_last())
    } else {
        visible(s.drop_last()).push(s.last())
    }
}

/// Exec test for [`is_white_space`].
pub fn is_whitespace_char(c: char) -> (r: bool)
    ensures
        r == is_white_space(c),
{
    let u = c as u32;
    (0x09 <= u && u <= 0x0d) || u == 0x20 || u == 0x85 || u == 0xa0 || u == 0x1680 || (0x2000
        <= u && u <= 0x200a) || u == 0x2028 || u == 0x2029 || u == 0x202f || u == 0x205f || u
        == 0x3000
}

proof fn lemma_trim_end_take(s: Seq<char>, k: int)
    requires
        0 <= k <= s.len(),
        forall|i: int| k <= i < s.len() ==> is_white_space(#[trigger] s[i]),
        k == 0 || !is_white_space(s[k - 1]),
    ensures
        trim_end_spec(s) == s.take(k),
    decreases s.len(),
{
    if s.len() == k {
        assert(s.take(k) =~= s);
    } else {
        assert(is_white_space(s[s.len() - 1]));
        lemma_trim_end_take(s.drop_last(), k);
        assert(s.drop_last().take(k) =~= s.take(k));
    }
}

proof fn lemma_trim_start_skip(s: Seq<char>, k: int)
    requires
        0 <= k <= s.len(),
        forall|i: int| 0 <= i < k ==> is_white_space(#[trigger] s[i]),
        k == s.len() || !is_white_space(s[k]),
    ensures
        trim_start_spec(s) == s.skip(k),
    decreases k,
{
    if k == 0 {
        assert(s.skip(0) =~= s);
    } else {
        assert(is_white_space(s[0]));
        assert forall|i: int| 0 <= i < k - 1 implies is_white_space(#[trigger] s.drop_first()[i]) by {
            assert(s.drop_first()[i] == s[i + 1]);
        }
        lemma_trim_start_skip(s.drop_first(), k - 1);
        assert(s.drop_first().skip(k - 1) =~= s.skip(k));
    }
}

/// Bounds `b..e` such that `s[b..e]` is `s` trimmed at both ends.
fn trim_bounds(s: &Vec<char>) -> (r: (usize, usize))
    ensures
        r.0 <= r.1 <= s@.len(),
        s@.subrange(r.0 as int, r.1 as int) == trim_spec(s@),
        trim_end_spec(s@) == s@.take(r.1 as int),
{
    let mut e = s.len();
    while e > 0 && is_whitespace_char(s[e - 1])
        invariant
            e <= s@.len(),
            forall|i: int| e <= i < s@.len() ==> is_white_space(#[trigger] s@[i]),
        decreases e,
    {
        e = e - 1;
    }
    proof {
        lemma_trim_end_take(s@, e as int);
    }
    let mut b: usize = 0;
    while b < e && is_whitespace_char(s[b])
        invariant
            b <= e <= s@.len(),
            forall|i: int| 0 <= i < b ==> is_white_space(#[trigger] s@[i]),
        decreases e - b,
    {
        b = b + 1;
    }
    proof {
        let t = s@.take(e as int);
        assert forall|i: int| 0 <= i < b implies is_white_space(#[trigger] t[i]) by {
            assert(t[i] == s@[i]);
        }
        if b < e {
            assert(t[b as int] == s@[b as int]);
        }
        lemma_trim_start_skip(t, b as int);
        assert(t.skip(b as int) =~= s@.subrange(b as int, e as int));
    }
    (b, e)
}

/// A copy of `s[lo..hi]`.
pub fn slice_chars(s: &Vec<char>, lo: usize, hi: usize) -> (r: Vec<char>)
    requires
        lo <= hi <= s@.len(),
    ensures
        r@ == s@.subrange(lo as int, hi as int),
{
    let mut r: Vec<char> = Vec::new();
    let mut i = lo;
    while i < hi
        invariant
            lo <= i <= hi <= s@.len(),
            r@ == s@.subrange(lo as int, i as int),
        decreases hi - i,
    {
        r.push(s[i]);
        i = i + 1;
        assert(r@ =~= s@.subrange(lo as int, i as int));
    }
    r
}

/// `s` with leading and trailing whitespace removed.
pub fn trim_chars(s: &Vec<char>) -> (r: Vec<char>)
    ensures
        r@ == trim_spec(s@),
{
    let (b, e) = trim_bounds(s);
    slice_chars(s, b, e)
}

/// `s` with trailing whitespace removed.
pub fn trim_end_chars(s: &Vec<char>) -> (r: Vec<char>)
    ensures
        r@ == trim_end_spec(s@),
{
    let (_b, e) = trim_bounds(s);
    slice_chars(s, 0, e)
}

/// Whether `trim_spec(s)` is empty, that is, `s` is whitespace only.
pub fn is_blank_chars(s: &Vec<char>) -> (r: bool)
    ensures
        r == (trim_spec(s@).len() == 0),
{
    let (b, e) = trim_bounds(s);
    b == e
}

// ---------------------------------------------------------------------------
// Strings and characters
// ---------------------------------------------------------------------------

/// The characters of `s`, in order.
pub fn chars_of(s: &str) -> (out: Vec<char>)
    ensures
        out@ == s@,
{
    let mut out: Vec<char> = Vec::new();
    for c in it: s.chars()
        invariant
            out@ == it.seq().take(it.index() as int),
    {
        out.push(c);
    }
    out
}

/// Appends `c` to `s` (`String::push`).
#[verifier::external_body]
fn push_char(s: &mut String, c: char)
    ensures
        final(s)@ == old(s)@.push(c),
{
    s.push(c);
}

/// The string made of the characters of `cs`.
pub fn string_from_chars(cs: &Vec<char>) -> (s: String)
    ensures
        s@ == cs@,
{
    let mut s = String::new();
    let mut i: usize = 0;
    while i < cs.len()
        invariant
            i <= cs@.len(),
            s@ == cs@.take(i as int),
        decreases cs@.len() - i,
    {
        push_char(&mut s, cs[i]);
        i = i + 1;
        assert(s@ =~= cs@.take(i as int));
    }
    assert(cs@.take(cs@.len() as int) =~= cs@);
    s
}

/// Appends the characters of `t` to `v`.
pub fn extend_chars(v: &mut Vec<char>, t: &Vec<char>)
    ensures
        final(v)@ == old(v)@ + t@,
{
    let mut i: usize = 0;
    while i < t.len()
        invariant
            i <= t@.len(),
            v@ == old(v)@ + t@.take(i as int),
        decreases t@.len() - i,
    {
        v.push(t[i]);
        i = i + 1;
        assert(v@ =~= old(v)@ + t@.take(i as int));
    }
    assert(t@.take(t@.len() as int) =~= t@);
}

/// Appends the characters of `t` to `v`.
pub fn extend_str(v: &mut Vec<char>, t: &str)
    ensures
        final(v)@ == old(v)@ + t@,
{
    let tc = chars_of(t);
    extend_chars(v, &tc);
}

/// `s` with leading and trailing whitespace removed (`str::trim`).
pub fn trim(s: &str) -> (r: String)
    ensures
        r@ == trim_spec(s@),
{
    let cs = chars_of(s);
    let t = trim_chars(&cs);
    string_from_chars(&t)
}

/// `s` with trailing whitespace removed (`str::trim_end`).
pub fn trim_end(s: &str) -> (r: String)
    ensures
        r@ == trim_end_spec(s@),
{
    let cs = chars_of(s);
    let t = trim_end_chars(&cs);
    string_from_chars(&t)
}


// ---------------------------------------------------------------------------
// Literal search and replacement
// ---------------------------------------------------------------------------

/// `pat` occurs in `s` starting at index `i`.
pub open spec fn occurs_at(s: Seq<char>, pat: Seq<char>, i: int) -> bool {
    0 <= i && i + pat.len() <= s.len() && s.subrange(i, i + pat.len()) == pat
}

/// `pat` occurs somewhere in `s` (`str::contains`).
pub open spec fn contains_spec(s: Seq<char>, pat: Seq<char>) -> bool {
    exists|i: int| occurs_at(s, pat, i)
}

/// `s` with every occurrence of `pat` replaced by `rep`, matches taken from
/// left to right without overlap (`str::replace`). An empty pattern matches
/// before every character and at the end.
pub open spec fn replace_spec(s: Seq<char>, pat: Seq<char>, rep: Seq<char>) -> Seq<char>
    decreases s.len(),
{
    if pat.len() == 0 {
        if s.len() == 0 {
            rep
        } else {
            rep + seq![s[0]] + replace_spec(s.drop_first(), pat, rep)
        }
    } else if s.len() < pat.len() {
        s
    } else if s.take(pat.len() as int) == pat {
        rep + replace_spec(s.skip(pat.len() as int), pat, rep)
    } else {
        seq![s[0]] + replace_spec(s.drop_first(), pat, rep)
    }
}

/// Whether `pat` occurs in `s` at index `i`.
fn matches_at(s: &Vec<char>, pat: &Vec<char>, i: usize) -> (r: bool)
    requires
        i <= s@.len(),
    ensures
        r == occurs_at(s@, pat@, i as int),
{
    if pat.len() > s.len() - i {
        return false;
    }
    let n = s.len();
    let mut j: usize = 0;
    while j < pat.len()
        invariant
            n == s@.len(),
            j <= pat@.len(),
            i + pat@.len() <= s@.len(),
            forall|k: int| 0 <= k < j ==> s@[i + k] == pat@[k],
        decreases pat@.len() - j,
    {
        assert(i + j < s@.len());
        if s[i + j] != pat[j] {
            assert(s@.subrange(i as int, i + pat@.len())[j as int] != pat@[j as int]);
            return false;
        }
        j = j + 1;
    }
    assert(s@.subrange(i as int, i + pat@.len()) =~= pat@);
    true
}

/// Whether `pat` occurs in `s`.
pub fn contains_chars(s: &Vec<char>, pat: &Vec<char>) -> (r: bool)
    ensures
        r == contains_spec(s@, pat@),
{
    let mut i: usize = 0;
    while i < s.len()
        invariant
            i <= s@.len(),
            forall|k: int| 0 <= k < i ==> !occurs_at(s@, pat@, k),
        decreases s@.len() - i,
    {
        if matches_at(s, pat, i) {
            return true;
        }
        i = i + 1;
    }
    matches_at(s, pat, s.len())
}

/// Whether `pat` occurs in `s` (`str::contains`).
pub fn contains(s: &str, pat: &str) -> (r: bool)
    ensures
        r == contains_spec(s@, pat@),
{
    let sc = chars_of(s);
    let pc = chars_of(pat);
    contains_chars(&sc, &pc)
}

/// `s` with each occurrence of `pat` replaced by `rep`.
pub fn replace_chars(s: &Vec<char>, pat: &Vec<char>, rep: &Vec<char>) -> (r: Vec<char>)
    ensures
        r@ == replace_spec(s@, pat@, rep@),
{
    let mut out: Vec<char> = Vec::new();
    let mut i: usize = 0;
    assert(s@.skip(0) =~= s@);
    while i < s.len()
        invariant
            i <= s@.len(),
            out@ + replace_spec(s@.skip(i as int), pat@, rep@) == replace_spec(s@, pat@, rep@),
        decreases s@.len() - i,
    {
        let ghost rest = s@.skip(i as int);
        if pat.len() == 0 {
            extend_chars(&mut out, rep);
            out.push(s[i]);
            assert(rest.drop_first() =~= s@.skip(i + 1));
            assert(out@ + replace_spec(s@.skip(i + 1), pat@, rep@) =~= replace_spec(s@, pat@, rep@));
            i = i + 1;
        } else if pat.len() > s.len() - i {
            extend_chars(&mut out, &slice_chars(s, i, s.len()));
            assert(s@.subrange(i as int, s@.len() as int) =~= rest);
            assert(s@.skip(s@.len() as int) =~= Seq::<char>::empty());
            assert(out@ + replace_spec(s@.skip(s@.len() as int), pat@, rep@) =~= replace_spec(s@, pat@, rep@));
            i = s.len();
        } else if matches_at(s, pat, i) {
            extend_chars(&mut out, rep);
            assert(rest.take(pat@.len() as int) =~= s@.subrange(i as int, i + pat@.len()));
            assert(rest.skip(pat@.len() as int) =~= s@.skip(i + pat@.len()));
            assert(out@ + replace_spec(s@.skip(i + pat@.len()), pat@, rep@) =~= replace_spec(s@, pat@, rep@));
            i = i + pat.len();
        } else {
            out.push(s[i]);
            assert(rest.take(pat@.len() as int) =~= s@.subrange(i as int, i + pat@.len()));
            assert(rest.drop_first() =~= s@.skip(i + 1));
            assert(out@ + replace_spec(s@.skip(i + 1), pat@, rep@) =~= replace_spec(s@, pat@, rep@));
            i = i + 1;
        }
    }
    if pat.len() == 0 {
        extend_chars(&mut out, rep);
    }
    assert(s@.skip(i as int) =~= Seq::<char>::empty());
    assert(out@ =~= replace_spec(s@, pat@, rep@));
    out
}

/// `s` with each occurrence of `from` replaced by `to` (`str::replace`).
pub fn replace(s: &str, from: &str, to: &str) -> (r: String)
    ensures
        r@ == replace_spec(s@, from@, to@),
{
    let sc = chars_of(s);
    let fc = chars_of(from);
    let tc = chars_of(to);
    let out = replace_chars(&sc, &fc, &tc);
    string_from_chars(&out)
}

/// Replacing a phrase that does not occur in a text leaves the text as it is.
pub proof fn lemma_replace_absent(s: Seq<char>, pat: Seq<char>, rep: Seq<char>)
    requires
        pat.len() > 0,
        !contains_spec(s, pat),
    ensures
        replace_spec(s, pat, rep) == s,
    decreases s.len(),
{
    if s.len() >= pat.len() {
        assert(s.take(pat.len() as int) =~= s.subrange(0, pat.len() as int));
        assert(!occurs_at(s, pat, 0));
        assert forall|i: int| !occurs_at(s.drop_first(), pat, i) by {
            if occurs_at(s.drop_first(), pat, i) {
                assert(s.drop_first().subrange(i, i + pat.len()) =~= s.subrange(i + 1, i + 1 + pat.len()));
                assert(occurs_at(s, pat, i + 1));
            }
        }
        lemma_replace_absent(s.drop_first(), pat, rep);
        assert(seq![s[0]] + s.drop_first() =~= s);
    }
}


// ---------------------------------------------------------------------------
// UTF-8 length
// ---------------------------------------------------------------------------

/// The number of bytes of the UTF-8 encoding of `s` (what `str::len` returns).
pub open spec fn byte_len(s: Seq<char>) -> nat {
    encode_utf8(s).len()
}

pub proof fn lemma_encode_utf8_concat(a: Seq<char>, b: Seq<char>)
    ensures
        encode_utf8(a + b) == encode_utf8(a) + encode_utf8(b),
    decreases a.len(),
{
    if a.len() == 0 {
        assert(a + b =~= b);
        assert(encode_utf8(a) =~= Seq::<u8>::empty());
        assert(encode_utf8(a) + encode_utf8(b) =~= encode_utf8(b));
    } else {
        lemma_encode_utf8_concat(a.drop_first(), b);
        assert((a + b).drop_first() =~= a.drop_first() + b);
        assert((a + b)[0] == a[0]);
        assert(encode_utf8(a + b) =~= encode_scalar(a[0] as u32) + encode_utf8(a.drop_first() + b));
    }
}

/// The number of bytes of the UTF-8 encoding of `c`.
pub open spec fn char_byte_len(c: char) -> nat {
    encode_scalar(c as u32).len()
}

pub proof fn lemma_byte_len_push(s: Seq<char>, c: char)
    ensures
        byte_len(s.push(c)) == byte_len(s) + char_byte_len(c),
{
    lemma_encode_utf8_concat(s, seq![c]);
    assert(s.push(c) =~= s + seq![c]);
    assert(seq![c].drop_first() =~= Seq::<char>::empty());
    assert(encode_utf8(seq![c]) =~= encode_scalar(c as u32) + encode_utf8(Seq::<char>::empty()));
}

pub proof fn lemma_byte_len_concat(a: Seq<char>, b: Seq<char>)
    ensures
        byte_len(a + b) == byte_len(a) + byte_len(b),
{
    lemma_encode_utf8_concat(a, b);
}

pub proof fn lemma_byte_len_bound(s: Seq<char>)
    ensures
        byte_len(s) <= 4 * s.len(),
    decreases s.len(),
{
    if s.len() > 0 {
        lemma_byte_len_bound(s.drop_last());
        lemma_byte_len_push(s.drop_last(), s.last());
        assert(s.drop_last().push(s.last()) =~= s);
    }
}

/// The number of bytes of the UTF-8 encoding of `c` (`char::len_utf8`).
pub fn char_utf8_len(c: char) -> (n: u128)
    ensures
        n == char_byte_len(c),
        n <= 4,
{
    let u = c as u32;
    if u <= 0x7f {
        1
    } else if u <= 0x7ff {
        2
    } else if u <= 0xffff {
        proof {
            broadcast use vstd::utf8::char_is_scalar;
            assert(vstd::utf8::is_scalar(c as u32));
        }
        3
    } else {
        proof {
            broadcast use vstd::utf8::char_is_scalar;
            assert(vstd::utf8::is_scalar(c as u32));
        }
        4
    }
}

/// The number of bytes of the UTF-8 encoding of `s`.
pub fn utf8_len_chars(s: &Vec<char>) -> (n: u128)
    ensures
        n == byte_len(s@),
{
    let mut n: u128 = 0;
    let mut i: usize = 0;
    while i < s.len()
        invariant
            i <= s@.len(),
            n == byte_len(s@.take(i as int)),
        decreases s@.len() - i,
    {
        proof {
            lemma_byte_len_push(s@.take(i as int), s@[i as int]);
            assert(s@.take(i as int).push(s@[i as int]) =~= s@.take(i + 1));
            lemma_byte_len_bound(s@.take(i + 1));
        }
        n = n + char_utf8_len(s[i]);
        i = i + 1;
    }
    assert(s@.take(s@.len() as int) =~= s@);
    n
}

// ---------------------------------------------------------------------------
// Decimal numbers
// ---------------------------------------------------------------------------

/// The decimal digit character for `d < 10`.
pub open spec fn digit_char(d: nat) -> char {
    if d == 0 { '0' }
    else if d == 1 { '1' }
    else if d == 2 { '2' }
    else if d == 3 { '3' }
    else if d == 4 { '4' }
    else if d == 5 { '5' }
    else if d == 6 { '6' }
    else if d == 7 { '7' }
    else if d == 8 { '8' }
    else { '9' }
}

/// The decimal representation of `n`, without leading zeros.
pub open spec fn decimal_spec(n: nat) -> Seq<char>
    decreases n,
{
    if n < 10 {
        seq![digit_char(n)]
    } else {
        decimal_spec(n / 10).push(digit_char(n % 10))
    }
}

fn digit_of(d: u64) -> (c: char)
    requires
        d < 10,
    ensures
        c == digit_char(d as nat),
{
    if d == 0 { '0' }
    else if d == 1 { '1' }
    else if d == 2 { '2' }
    else if d == 3 { '3' }
    else if d == 4 { '4' }
    else if d == 5 { '5' }
    else if d == 6 { '6' }
    else if d == 7 { '7' }
    else if d == 8 { '8' }
    else { '9' }
}

/// Appends the decimal representation of `n` to `out`.
pub fn push_decimal(out: &mut Vec<char>, n: u64)
    ensures
        final(out)@ == old(out)@ + decimal_spec(n as nat),
    decreases n,
{
    if n >= 10 {
        push_decimal(out, n / 10);
    }
    let c = digit_of(n % 10);
    out.push(c);
    proof {
        if n >= 10 {
            assert(decimal_spec(n as nat) == decimal_spec((n / 10) as nat).push(digit_char((n % 10) as nat)));
        }
    }
    assert(out@ =~= old(out)@ + decimal_spec(n as nat));
}

/// The decimal representation of `n` (`u64::to_string`).
pub fn decimal_string(n: u64) -> (s: String)
    ensures
        s@ == decimal_spec(n as nat),
{
    let mut v: Vec<char> = Vec::new();
    push_decimal(&mut v, n);
    assert(v@ =~= decimal_spec(n as nat));
    string_from_chars(&v)
}

/// `c` is one of the ASCII digits `0`..`9`.
pub open spec fn is_digit(c: char) -> bool {
    '0' <= c <= '9'
}

/// The number written by the ASCII digits `s`.
pub open spec fn digits_value(s: Seq<char>) -> nat
    decreases s.len(),
{
    if s.len() == 0 {
        0
    } else {
        digits_value(s.drop_last()) * 10 + ((s.last() as u32) - 48) as nat
    }
}

/// The digits that `s` holds after an optional leading `+`.
pub open spec fn unsigned_digits(s: Seq<char>) -> Seq<char> {
    if s.len() > 0 && s[0] == '+' {
        s.drop_first()
    } else {
        s
    }
}

/// The value of `s` read as a `u64` the way `str::parse::<u64>` reads it: an
/// optional `+` and then one or more ASCII digits, with a value that fits.
pub open spec fn parse_u64_spec(s: Seq<char>) -> Option<u64> {
    let d = unsigned_digits(s);
    if d.len() > 0 && (forall|i: int| 0 <= i < d.len() ==> is_digit(#[trigger] d[i]))
        && digits_value(d) <= u64::MAX {
        Some(digits_value(d) as u64)
    } else {
        None
    }
}

proof fn lemma_digits_value_monotone(s: Seq<char>, k: int)
    requires
        0 <= k <= s.len(),
        forall|i: int| 0 <= i < s.len() ==> is_digit(#[trigger] s[i]),
    ensures
        digits_value(s.take(k)) <= digits_value(s),
    decreases s.len() - k,
{
    if k < s.len() {
        lemma_digits_value_monotone(s, k + 1);
        assert(s.take(k + 1).drop_last() =~= s.take(k));
        assert(s.take(k + 1).last() == s[k]);
        assert(is_digit(s[k]));
        assert(digits_value(s.take(k + 1)) == digits_value(s.take(k)) * 10 + ((s[k] as u32) - 48) as nat);
        assert(digits_value(s.take(k)) <= digits_value(s.take(k)) * 10) by (nonlinear_arith);
    } else {
        assert(s.take(k) =~= s);
    }
}

/// `s` read as a `u64` (`str::parse::<u64>`), `None` where it is no number or
/// does not fit.
pub fn parse_u64(s: &str) -> (r: Option<u64>)
    ensures
        r == parse_u64_spec(s@),
{
    let cs = chars_of(s);
    let start: usize = if cs.len() > 0 && cs[0] == '+' { 1 } else { 0 };
    let ghost d = unsigned_digits(s@);
    assert(d =~= cs@.skip(start as int));
    if start == cs.len() {
        return None;
    }
    let mut v: u64 = 0;
    let mut i = start;
    while i < cs.len()
        invariant
            start <= i <= cs@.len(),
            cs@ == s@,
            d == cs@.skip(start as int),
            d == unsigned_digits(s@),
            forall|k: int| 0 <= k < i - start ==> is_digit(#[trigger] d[k]),
            v as nat == digits_value(d.take(i - start)),
        decreases cs@.len() - i,
    {
        let c = cs[i];
        if !('0' <= c && c <= '9') {
            assert(d[i - start] == c);
            assert(!is_digit(d[i - start]));
            return None;
        }
        let dv = (c as u32 - 48) as u64;
        proof {
            assert(d.take(i - start + 1).drop_last() =~= d.take(i - start));
            assert(d.take(i - start + 1).last() == c);
        }
        if v > (u64::MAX - dv) / 10 {
            proof {
                assert(v * 10 + dv > u64::MAX) by (nonlinear_arith)
                    requires v > (u64::MAX - dv) / 10, dv <= 9;
                assert(digits_value(d.take(i - start + 1)) > u64::MAX);
                assert(is_digit(d[i - start]));
            }
            // Either a later character is no digit, or the value is too large.
            let mut j = i + 1;
            while j < cs.len()
                invariant
                    start <= i < j <= cs@.len(),
                    cs@ == s@,
                    d == cs@.skip(start as int),
                    d == unsigned_digits(s@),
                    d.len() == cs@.len() - start,
                    digits_value(d.take(i - start + 1)) > u64::MAX,
                    forall|k: int| 0 <= k < j - start ==> is_digit(#[trigger] d[k]),
                decreases cs@.len() - j,
            {
                if !('0' <= cs[j] && cs[j] <= '9') {
                    assert(d[j - start] == cs@[j as int]);
                    assert(!is_digit(d[j - start]));
                    return None;
                }
                j = j + 1;
            }
            proof {
                assert(d.len() == j - start);
                lemma_digits_value_monotone(d, i - start + 1);
            }
            return None;
        }
        proof {
            assert(v * 10 + dv <= u64::MAX) by (nonlinear_arith)
                requires v <= (u64::MAX - dv) / 10, dv <= 9;
        }
        v = v * 10 + dv;
        i = i + 1;
    }
    assert(d.take(i - start) =~= d);
    Some(v)
}


// ---------------------------------------------------------------------------
// Splitting and joining
// ---------------------------------------------------------------------------

/// The character sequences that the vectors of `v` hold.
pub open spec fn char_views(v: Seq<Vec<char>>) -> Seq<Seq<char>> {
    v.map_values(|x: Vec<char>| x@)
}

/// The character sequences that the strings of `v` hold.
pub open spec fn string_views(v: Seq<String>) -> Seq<Seq<char>> {
    v.map_values(|x: String| x@)
}

/// The pieces of `s` between the occurrences of `sep` (`str::split`), where
/// the scan for the first occurrence has reached index `i`.
pub open spec fn split_scan(s: Seq<char>, sep: Seq<char>, i: int) -> Seq<Seq<char>>
    decreases s.len(), s.len() - i,
{
    if sep.len() == 0 || i < 0 || i + sep.len() > s.len() {
        seq![s]
    } else if s.subrange(i, i + sep.len()) == sep {
        seq![s.take(i)] + split_scan(s.skip(i + sep.len()), sep, 0)
    } else {
        split_scan(s, sep, i + 1)
    }
}

/// The pieces of `s` between the occurrences of the non-empty separator `sep`,
/// matches taken from left to right without overlap (`str::split`).
pub open spec fn split_spec(s: Seq<char>, sep: Seq<char>) -> Seq<Seq<char>> {
    split_scan(s, sep, 0)
}

/// The pieces of `s` between the occurrences of `sep`.
pub fn split_on(s: &Vec<char>, sep: &Vec<char>) -> (r: Vec<Vec<char>>)
    requires
        sep@.len() > 0,
    ensures
        char_views(r@) == split_spec(s@, sep@),
{
    let mut out: Vec<Vec<char>> = Vec::new();
    let mut start: usize = 0;
    let mut i: usize = 0;
    assert(s@.skip(0) =~= s@);
    loop
        invariant
            sep@.len() > 0,
            start <= i <= s@.len(),
            char_views(out@) + split_scan(s@.skip(start as int), sep@, i - start) == split_spec(s@, sep@),
        decreases s@.len() - i,
    {
        let ghost rest = s@.skip(start as int);
        let ghost before = char_views(out@);
        if sep.len() > s.len() - i {
            let piece = slice_chars(s, start, s.len());
            out.push(piece);
            proof {
                assert(piece@ =~= rest);
                assert(char_views(out@) =~= before.push(rest));
                assert(char_views(out@) =~= before + seq![rest]);
            }
            return out;
        }
        if matches_at(s, sep, i) {
            let piece = slice_chars(s, start, i);
            out.push(piece);
            proof {
                assert(rest.subrange(i - start, i - start + sep@.len()) =~= s@.subrange(i as int, i + sep@.len()));
                assert(piece@ =~= rest.take(i - start));
                assert(rest.skip(i - start + sep@.len()) =~= s@.skip(i + sep@.len()));
                assert(char_views(out@) =~= before + seq![rest.take(i - start)]);
                assert(s@.skip(i + sep@.len()).skip(0) =~= s@.skip(i + sep@.len()));
            }
            start = i + sep.len();
            i = start;
        } else {
            proof {
                assert(rest.subrange(i - start, i - start + sep@.len()) =~= s@.subrange(i as int, i + sep@.len()));
            }
            i = i + 1;
        }
    }
}

/// `l` without one trailing carriage return.
pub open spec fn strip_cr(l: Seq<char>) -> Seq<char> {
    if l.len() > 0 && l.last() == '\r' {
        l.drop_last()
    } else {
        l
    }
}

/// The lines of `s` (`str::lines`) where the scan for the end of the first
/// line has reached index `i`.
pub open spec fn lines_scan(s: Seq<char>, i: int) -> Seq<Seq<char>>
    decreases s.len(), s.len() - i,
{
    if i < 0 || i >= s.len() {
        if s.len() == 0 {
            seq![]
        } else {
            seq![s]
        }
    } else if s[i] == '\n' {
        seq![strip_cr(s.take(i))] + lines_scan(s.skip(i + 1), 0)
    } else {
        lines_scan(s, i + 1)
    }
}

/// The lines of `s` (`str::lines`): the pieces between line feeds, a carriage
/// return before a line feed dropped, and no empty line after a final line
/// feed.
pub open spec fn lines_spec(s: Seq<char>) -> Seq<Seq<char>> {
    lines_scan(s, 0)
}

/// The lines of `s`.
pub fn split_lines(s: &Vec<char>) -> (r: Vec<Vec<char>>)
    ensures
        char_views(r@) == lines_spec(s@),
{
    let mut out: Vec<Vec<char>> = Vec::new();
    let mut start: usize = 0;
    let mut i: usize = 0;
    assert(s@.skip(0) =~= s@);
    loop
        invariant
            start <= i <= s@.len(),
            char_views(out@) + lines_scan(s@.skip(start as int), i - start) == lines_spec(s@),
        decreases s@.len() - i,
    {
        let ghost rest = s@.skip(start as int);
        let ghost before = char_views(out@);
        if i == s.len() {
            if start < s.len() {
                let piece = slice_chars(s, start, s.len());
                out.push(piece);
                proof {
                    assert(piece@ =~= rest);
                    assert(char_views(out@) =~= before + seq![rest]);
                }
            } else {
                proof {
                    assert(rest.len() == 0);
                    assert(before + lines_scan(rest, i - start) =~= before);
                }
            }
            return out;
        }
        if s[i] == '\n' {
            let mut e = i;
            if e > start && s[e - 1] == '\r' {
                e = e - 1;
            }
            let piece = slice_chars(s, start, e);
            out.push(piece);
            proof {
                assert(rest[i - start] == s@[i as int]);
                assert(piece@ =~= strip_cr(rest.take(i - start)));
                assert(rest.skip(i - start + 1) =~= s@.skip(i + 1));
                assert(char_views(out@) =~= before + seq![strip_cr(rest.take(i - start))]);
                assert(s@.skip(i + 1).skip(0) =~= s@.skip(i + 1));
            }
            start = i + 1;
            i = start;
        } else {
            proof {
                assert(rest[i - start] == s@[i as int]);
            }
            i = i + 1;
        }
    }
}

/// The parts joined with `sep` between neighbours (`join`).
pub open spec fn join_spec(parts: Seq<Seq<char>>, sep: Seq<char>) -> Seq<char>
    decreases parts.len(),
{
    if parts.len() == 0 {
        seq![]
    } else if parts.len() == 1 {
        parts[0]
    } else {
        join_spec(parts.drop_last(), sep) + sep + parts.last()
    }
}

/// The parts joined with `sep` between neighbours.
pub fn join_chars(parts: &Vec<Vec<char>>, sep: &Vec<char>) -> (r: Vec<char>)
    ensures
        r@ == join_spec(char_views(parts@), sep@),
{
    let mut out: Vec<char> = Vec::new();
    let mut i: usize = 0;
    while i < parts.len()
        invariant
            i <= parts@.len(),
            out@ == join_spec(char_views(parts@).take(i as int), sep@),
        decreases parts@.len() - i,
    {
        let ghost pv = char_views(parts@);
        if i > 0 {
            extend_chars(&mut out, sep);
        }
        extend_chars(&mut out, &parts[i]);
        proof {
            assert(pv.take(i + 1).drop_last() =~= pv.take(i as int));
            assert(pv.take(i + 1).last() == parts@[i as int]@);
            if i == 0 {
                assert(out@ =~= parts@[0]@);
            }
        }
        i = i + 1;
    }
    assert(char_views(parts@).take(parts@.len() as int) =~= char_views(parts@));
    out
}


// ---------------------------------------------------------------------------
// Laws of trimming
// ---------------------------------------------------------------------------

/// The visible characters of two texts put together are those of the first
/// followed by those of the second.
pub proof fn lemma_visible_concat(a: Seq<char>, b: Seq<char>)
    ensures
        visible(a + b) == visible(a) + visible(b),
    decreases b.len(),
{
    if b.len() == 0 {
        assert(a + b =~= a);
        assert(visible(a) + visible(b) =~= visible(a));
    } else {
        lemma_visible_concat(a, b.drop_last());
        assert((a + b).drop_last() =~= a + b.drop_last());
        assert((a + b).last() == b.last());
        if is_white_space(b.last()) {
        } else {
            assert(visible(a) + visible(b.drop_last()).push(b.last()) =~= (visible(a) + visible(
                b.drop_last(),
            )).push(b.last()));
        }
    }
}

pub proof fn lemma_visible_single(c: char)
    ensures
        visible(seq![c]) == (if is_white_space(c) { Seq::<char>::empty() } else { seq![c] }),
{
    let s = seq![c];
    assert(s.last() == c);
    assert(s.drop_last() =~= Seq::<char>::empty());
    assert(visible(Seq::<char>::empty()) =~= Seq::<char>::empty());
    if !is_white_space(c) {
        assert(Seq::<char>::empty().push(c) =~= seq![c]);
    }
}

proof fn lemma_visible_trim_end(s: Seq<char>)
    ensures
        visible(trim_end_spec(s)) == visible(s),
    decreases s.len(),
{
    if s.len() > 0 && is_white_space(s.last()) {
        lemma_visible_trim_end(s.drop_last());
    }
}

proof fn lemma_visible_trim_start(s: Seq<char>)
    ensures
        visible(trim_start_spec(s)) == visible(s),
    decreases s.len(),
{
    if s.len() > 0 && is_white_space(s[0]) {
        lemma_visible_trim_start(s.drop_first());
        lemma_visible_concat(seq![s[0]], s.drop_first());
        assert(seq![s[0]] + s.drop_first() =~= s);
        assert(seq![s[0]].drop_last() =~= Seq::<char>::empty());
        lemma_visible_single(s[0]);
        assert(visible(seq![s[0]]) + visible(s.drop_first()) =~= visible(s.drop_first()));
    }
}

/// Trimming removes whitespace only: the visible characters stay as they are.
pub proof fn lemma_visible_trim(s: Seq<char>)
    ensures
        visible(trim_spec(s)) == visible(s),
{
    lemma_visible_trim_end(s);
    lemma_visible_trim_start(trim_end_spec(s));
}

proof fn lemma_trim_end_shape(s: Seq<char>)
    ensures
        trim_end_spec(s) == s.take(trim_end_spec(s).len() as int),
        trim_end_spec(s).len() <= s.len(),
        trim_end_spec(s).len() > 0 ==> !is_white_space(trim_end_spec(s).last()),
    decreases s.len(),
{
    if s.len() > 0 && is_white_space(s.last()) {
        lemma_trim_end_shape(s.drop_last());
        assert(s.drop_last().take(trim_end_spec(s).len() as int) =~= s.take(
            trim_end_spec(s).len() as int,
        ));
    } else {
        assert(s.take(s.len() as int) =~= s);
    }
}

proof fn lemma_trim_start_shape(s: Seq<char>)
    ensures
        trim_start_spec(s) == s.skip(s.len() - trim_start_spec(s).len()),
        trim_start_spec(s).len() <= s.len(),
        trim_start_spec(s).len() > 0 ==> !is_white_space(trim_start_spec(s)[0]),
    decreases s.len(),
{
    if s.len() > 0 && is_white_space(s[0]) {
        lemma_trim_start_shape(s.drop_first());
        assert(s.drop_first().skip(s.drop_first().len() - trim_start_spec(s).len()) =~= s.skip(
            s.len() - trim_start_spec(s).len(),
        ));
    } else {
        assert(s.skip(0) =~= s);
    }
}

/// A trimmed text starts and ends with a character that is not whitespace.
pub proof fn lemma_trim_is_trimmed(s: Seq<char>)
    ensures
        is_trimmed(trim_spec(s)),
{
    let e = trim_end_spec(s);
    lemma_trim_end_shape(s);
    lemma_trim_start_shape(e);
    let t = trim_start_spec(e);
    if t.len() > 0 {
        assert(t.last() == e.last());
    }
}

/// Trimming a text that has no whitespace at either end leaves it as it is.
pub proof fn lemma_trim_of_trimmed(s: Seq<char>)
    requires
        is_trimmed(s),
    ensures
        trim_spec(s) == s,
{
    if s.len() > 0 {
        assert(trim_end_spec(s) == s);
        assert(trim_start_spec(s) == s);
    } else {
        assert(trim_end_spec(s) == s);
        assert(trim_start_spec(s) == s);
    }
}

/// Trimming twice is trimming once.
pub proof fn lemma_trim_idempotent(s: Seq<char>)
    ensures
        trim_spec(trim_spec(s)) == trim_spec(s),
{
    lemma_trim_is_trimmed(s);
    lemma_trim_of_trimmed(trim_spec(s));
}

/// A text is whitespace only exactly when it has no visible character.
pub proof fn lemma_blank_iff_invisible(s: Seq<char>)
    ensures
        (trim_spec(s).len() == 0) == (visible(s).len() == 0),
{
    lemma_visible_trim(s);
    lemma_trim_is_trimmed(s);
    let t = trim_spec(s);
    if t.len() > 0 {
        lemma_visible_concat(t.drop_last(), seq![t.last()]);
        assert(t.drop_last() + seq![t.last()] =~= t);
        assert(seq![t.last()].drop_last() =~= Seq::<char>::empty());
        lemma_visible_single(t.last());
    } else {
        assert(visible(t) =~= Seq::<char>::empty());
    }
}


/// The strings of `lines` joined with a line feed between neighbours
/// (`join("\n")`).
pub fn join_lines(lines: &Vec<String>) -> (r: String)
    ensures
        r@ == join_spec(string_views(lines@), seq!['\n']),
{
    let mut parts: Vec<Vec<char>> = Vec::new();
    let mut i: usize = 0;
    while i < lines.len()
        invariant
            i <= lines@.len(),
            char_views(parts@) == string_views(lines@).take(i as int),
        decreases lines@.len() - i,
    {
        let ghost prev = parts@;
        let cs = chars_of(lines[i].as_str());
        parts.push(cs);
        proof {
            assert(char_views(parts@) =~= char_views(prev).push(cs@));
            assert(string_views(lines@).take(i + 1) =~= string_views(lines@).take(i as int).push(lines@[i as int]@));
        }
        i = i + 1;
    }
    assert(string_views(lines@).take(lines@.len() as int) =~= string_views(lines@));
    let mut sep: Vec<char> = Vec::new();
    sep.push('\n');
    assert(sep@ =~= seq!['\n']);
    let joined = join_chars(&parts, &sep);
    string_from_chars(&joined)
}


// ---------------------------------------------------------------------------
// Laws relating splitting and joining, formatting and reading numbers
// ---------------------------------------------------------------------------

proof fn lemma_lines_scan_join(s: Seq<char>, i: int)
    requires
        0 <= i <= s.len(),
        forall|k: int| 0 <= k < s.len() ==> s[k] != '\r',
        forall|k: int| 0 <= k < i ==> s[k] != '\n',
        s.len() == 0 || s.last() != '\n',
    ensures
        join_spec(lines_scan(s, i), seq!['\n']) == s,
    decreases s.len(), s.len() - i,
{
    if i >= s.len() {
        if s.len() > 0 {
            assert(join_spec(seq![s], seq!['\n']) == s);
        } else {
            assert(join_spec(Seq::<Seq<char>>::empty(), seq!['\n']) =~= s);
        }
    } else if s[i] == '\n' {
        let rest = s.skip(i + 1);
        assert(rest.len() > 0) by {
            if rest.len() == 0 {
                assert(s.last() == s[i]);
            }
        }
        lemma_lines_scan_join(rest, 0);
        let first = strip_cr(s.take(i));
        assert(first =~= s.take(i)) by {
            if i > 0 {
                assert(s.take(i).last() == s[i - 1]);
            }
        }
        let tail = lines_scan(rest, 0);
        lemma_join_prepend(first, tail, seq!['\n']);
        assert(s.take(i) + seq!['\n'] + rest =~= s);
    } else {
        lemma_lines_scan_join(s, i + 1);
    }
}

/// Joining after putting one part in front: the part, the separator, then
/// the rest joined (for a non-empty rest).
pub proof fn lemma_join_prepend(first: Seq<char>, rest: Seq<Seq<char>>, sep: Seq<char>)
    requires
        rest.len() > 0,
    ensures
        join_spec(seq![first] + rest, sep) == first + sep + join_spec(rest, sep),
    decreases rest.len(),
{
    let all = seq![first] + rest;
    if rest.len() == 1 {
        assert(all.drop_last() =~= seq![first]);
        assert(all.last() == rest[0]);
        assert(join_spec(seq![first], sep) == first);
    } else {
        lemma_join_prepend(first, rest.drop_last(), sep);
        assert(all.drop_last() =~= seq![first] + rest.drop_last());
        assert(all.last() == rest.last());
        assert(first + sep + join_spec(rest.drop_last(), sep) + sep + rest.last() =~= first + sep + (
        join_spec(rest.drop_last(), sep) + sep + rest.last()));
    }
}

/// Splitting a text into lines and joining the lines with line feeds gives
/// the text back, for a text without carriage returns and without a final
/// line feed.
pub proof fn lemma_lines_join(s: Seq<char>)
    requires
        forall|k: int| 0 <= k < s.len() ==> s[k] != '\r',
        s.len() == 0 || s.last() != '\n',
    ensures
        join_spec(lines_spec(s), seq!['\n']) == s,
{
    lemma_lines_scan_join(s, 0);
}

proof fn lemma_digit_char(d: nat)
    requires
        d < 10,
    ensures
        is_digit(digit_char(d)),
        (digit_char(d) as u32) - 48 == d,
        digit_char(d) != '+',
{
}

proof fn lemma_decimal_digits(n: nat)
    ensures
        decimal_spec(n).len() > 0,
        forall|i: int| 0 <= i < decimal_spec(n).len() ==> is_digit(#[trigger] decimal_spec(n)[i]),
        digits_value(decimal_spec(n)) == n,
        decimal_spec(n)[0] != '+',
    decreases n,
{
    if n < 10 {
        lemma_digit_char(n);
        let d = seq![digit_char(n)];
        assert(d.drop_last() =~= Seq::<char>::empty());
        assert(digits_value(Seq::<char>::empty()) == 0);
        assert(d.last() == digit_char(n));
        assert(digits_value(d) == digits_value(d.drop_last()) * 10 + ((d.last() as u32) - 48) as nat);
    } else {
        lemma_decimal_digits(n / 10);
        lemma_digit_char(n % 10);
        let d = decimal_spec(n);
        assert(d.drop_last() =~= decimal_spec(n / 10));
        assert(d.last() == digit_char(n % 10));
        assert(d[0] == decimal_spec(n / 10)[0]);
        assert forall|i: int| 0 <= i < d.len() implies is_digit(#[trigger] d[i]) by {
            if i < d.len() - 1 {
                assert(d[i] == decimal_spec(n / 10)[i]);
            }
        }
        assert((n / 10) * 10 + n % 10 == n) by (nonlinear_arith);
        assert(digits_value(d) == digits_value(d.drop_last()) * 10 + ((d.last() as u32) - 48) as nat);
    }
}

/// Reading back the decimal representation of a `u64` gives the number.
pub proof fn lemma_parse_decimal(n: u64)
    ensures
        parse_u64_spec(decimal_spec(n as nat)) == Some(n),
{
    lemma_decimal_digits(n as nat);
    assert(unsigned_digits(decimal_spec(n as nat)) == decimal_spec(n as nat));
}


// ---------------------------------------------------------------------------
// Laws of replacement next to a fixed prefix
// ---------------------------------------------------------------------------

/// A match of `p` at `i` holds `p`'s characters.
pub proof fn lemma_occurs_char(s: Seq<char>, p: Seq<char>, i: int, k: int)
    requires
        occurs_at(s, p, i),
        0 <= k < p.len(),
    ensures
        s[i + k] == p[k],
{
    assert(s.subrange(i, i + p.len())[k] == s[i + k]);
}

/// Replacement passes over a prefix in which no match of the pattern starts.
pub proof fn lemma_replace_prefix_passes(x: Seq<char>, u: Seq<char>, p: Seq<char>, r: Seq<char>)
    requires
        p.len() > 0,
        forall|j: int| 0 <= j < x.len() ==> !occurs_at(x + u, p, j),
    ensures
        replace_spec(x + u, p, r) == x + replace_spec(u, p, r),
    decreases x.len(),
{
    let s = x + u;
    if x.len() == 0 {
        assert(s =~= u);
        assert(x + replace_spec(u, p, r) =~= replace_spec(u, p, r));
    } else if s.len() < p.len() {
        assert(replace_spec(u, p, r) == u);
    } else {
        assert(s.take(p.len() as int) =~= s.subrange(0, p.len() as int));
        assert(!occurs_at(s, p, 0));
        let xd = x.drop_first();
        assert(s.drop_first() =~= xd + u);
        assert forall|j: int| 0 <= j < xd.len() implies !occurs_at(xd + u, p, j) by {
            if occurs_at(xd + u, p, j) {
                assert((xd + u).subrange(j, j + p.len()) =~= s.subrange(j + 1, j + 1 + p.len()));
                assert(occurs_at(s, p, j + 1));
            }
        }
        lemma_replace_prefix_passes(xd, u, p, r);
        assert(seq![s[0]] + (xd + replace_spec(u, p, r)) =~= x + replace_spec(u, p, r));
    }
}

/// A text that begins with the pattern: the replacement, then the rest
/// replaced.
pub proof fn lemma_replace_leading(p: Seq<char>, u: Seq<char>, r: Seq<char>)
    requires
        p.len() > 0,
    ensures
        replace_spec(p + u, p, r) == r + replace_spec(u, p, r),
{
    assert((p + u).take(p.len() as int) =~= p);
    assert((p + u).skip(p.len() as int) =~= u);
}

/// No match of `p` starts in `x` when `x` and `p` part at their first or
/// second character, or, at the last character of `x`, at what follows
/// it, which is a space or nothing.
pub proof fn lemma_prefix_mismatch(x: Seq<char>, u: Seq<char>, p: Seq<char>)
    requires
        p.len() >= 2,
        p[1] != ' ',
        u.len() == 0 || u[0] == ' ',
        forall|j: int|
            0 <= j < x.len() ==> #[trigger] x[j] != p[0] || (j + 1 < x.len() && x[j + 1] != p[1])
                || j + 1 == x.len(),
    ensures
        forall|j: int| 0 <= j < x.len() ==> !occurs_at(x + u, p, j),
{
    assert forall|j: int| 0 <= j < x.len() implies !occurs_at(x + u, p, j) by {
        if occurs_at(x + u, p, j) {
            lemma_occurs_char(x + u, p, j, 0);
            lemma_occurs_char(x + u, p, j, 1);
            assert((x + u)[j] == x[j]);
            if j + 1 < x.len() {
                assert((x + u)[j + 1] == x[j + 1]);
            } else {
                assert((x + u)[j + 1] == u[0]);
            }
        }
    }
}

/// Replacing a pattern that does not start with a space keeps a leading
/// space.
pub proof fn lemma_replace_keeps_space_start(u: Seq<char>, p: Seq<char>, r: Seq<char>)
    requires
        p.len() > 0,
        p[0] != ' ',
        u.len() == 0 || u[0] == ' ',
    ensures
        replace_spec(u, p, r).len() == 0 || replace_spec(u, p, r)[0] == ' ',
{
    if u.len() > 0 && u.len() >= p.len() {
        assert(u.take(p.len() as int)[0] == u[0]);
    }
}


/// No match of `p` starts in `x` when, at each position of `x`, `x` and `p`
/// part at their first or second character.
pub proof fn lemma_prefix_mismatch_closed(x: Seq<char>, u: Seq<char>, p: Seq<char>)
    requires
        p.len() >= 2,
        forall|j: int|
            0 <= j < x.len() ==> #[trigger] x[j] != p[0] || (j + 1 < x.len() && x[j + 1] != p[1]),
    ensures
        forall|j: int| 0 <= j < x.len() ==> !occurs_at(x + u, p, j),
{
    assert forall|j: int| 0 <= j < x.len() implies !occurs_at(x + u, p, j) by {
        if occurs_at(x + u, p, j) {
            lemma_occurs_char(x + u, p, j, 0);
            lemma_occurs_char(x + u, p, j, 1);
            assert((x + u)[j] == x[j]);
            if j + 1 < x.len() {
                assert((x + u)[j + 1] == x[j + 1]);
            }
        }
    }
}


/// Trimming keeps a contiguous part of the text, which reaches the end of
/// the text when its last character is not whitespace.
pub proof fn lemma_trim_range(s: Seq<char>) -> (r: (int, int))
    ensures
        0 <= r.0 <= r.1 <= s.len(),
        trim_spec(s) == s.subrange(r.0, r.1),
        s.len() > 0 && !is_white_space(s.last()) ==> r.1 == s.len(),
{
    lemma_trim_end_shape(s);
    let e = trim_end_spec(s);
    lemma_trim_start_shape(e);
    let m = e.len() as int;
    let b = e.len() - trim_start_spec(e).len();
    assert(trim_spec(s) =~= s.subrange(b, m));
    if s.len() > 0 && !is_white_space(s.last()) {
        assert(trim_end_spec(s) == s);
    }
    (b, m)
}

} // verus!
