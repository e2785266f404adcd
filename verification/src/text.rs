//! Text helpers: character-level trimming and searching, and the cleanup of
//! raw Qwen3-ASR transcription output.
use vstd::prelude::*;

verus! {

// ---------------------------------------------------------------------------
// Whitespace
// ---------------------------------------------------------------------------

/// Whether `c` has the Unicode `White_Space` property, the property that
/// `char::is_whitespace` tests, as the Unicode Character Database
/// (`PropList.txt`) lists it: tab, line feed, line tabulation, form feed,
/// carriage return, space, next line, no-break space, ogham space mark, the
/// spaces U+2000 to U+200A, line separator, paragraph separator, narrow
/// no-break space, medium mathematical space and ideographic space.
#[verifier::opaque]
pub open spec fn is_white_space(c: char) -> bool {
    let n = c as u32;
    ||| 0x09 <= n <= 0x0D
    ||| n == 0x20
    ||| n == 0x85
    ||| n == 0xA0
    ||| n == 0x1680
    ||| 0x2000 <= n <= 0x200A
    ||| n == 0x2028
    ||| n == 0x2029
    ||| n == 0x202F
    ||| n == 0x205F
    ||| n == 0x3000
}

/// Whether `c` is whitespace, as `char::is_whitespace` decides it.
fn char_is_white_space(c: char) -> (b: bool)
    ensures
        b == is_white_space(c),
{
    reveal(is_white_space);
    let n = c as u32;
    (0x09 <= n && n <= 0x0D) || n == 0x20 || n == 0x85 || n == 0xA0 || n == 0x1680 || (0x2000 <= n
        && n <= 0x200A) || n == 0x2028 || n == 0x2029 || n == 0x202F || n == 0x205F || n == 0x3000
}

// ---------------------------------------------------------------------------
// Specifications over character sequences
// ---------------------------------------------------------------------------

/// `s` without its leading whitespace.
pub open spec fn trim_start(s: Seq<char>) -> Seq<char>
    decreases s.len(),
{
    if s.len() > 0 && is_white_space(s[0]) {
        trim_start(s.drop_first())
    } else {
        s
    }
}

/// `s` without its trailing whitespace.
pub open spec fn trim_end(s: Seq<char>) -> Seq<char>
    decreases s.len(),
{
    if s.len() > 0 && is_white_space(s.last()) {
        trim_end(s.drop_last())
    } else {
        s
    }
}

/// `s` without leading and trailing whitespace (what `str::trim` returns).
pub open spec fn trim(s: Seq<char>) -> Seq<char> {
    trim_end(trim_start(s))
}

/// `pat` occurs in `s` starting at index `i`.
pub open spec fn matches_at(s: Seq<char>, pat: Seq<char>, i: int) -> bool {
    &&& 0 <= i
    &&& i + pat.len() <= s.len()
    &&& s.subrange(i, i + pat.len()) == pat
}

/// `pat` occurs somewhere in `s`.
#[verifier::opaque]
pub open spec fn contains(s: Seq<char>, pat: Seq<char>) -> bool {
    exists|i: int| matches_at(s, pat, i)
}

/// The index of the first occurrence of `pat` in `s`, if there is one
/// (what `str::find` locates).
#[verifier::opaque]
pub open spec fn first_match(s: Seq<char>, pat: Seq<char>) -> Option<int> {
    if contains(s, pat) {
        Some(choose|i: int| matches_at(s, pat, i) && forall|j: int| 0 <= j < i ==> !matches_at(s, pat, j))
    } else {
        None
    }
}

/// `s` begins with `pat`.
pub open spec fn starts_with(s: Seq<char>, pat: Seq<char>) -> bool {
    pat.len() <= s.len() && s.subrange(0, pat.len() as int) == pat
}

/// `s` ends with `pat`.
pub open spec fn ends_with(s: Seq<char>, pat: Seq<char>) -> bool {
    pat.len() <= s.len() && s.subrange(s.len() - pat.len(), s.len() as int) == pat
}

/// The opening of the marker in front of the transcribed text, as in
/// `<asr_text>` or `<asr_text|zh>`.
pub open spec fn asr_tag_open() -> Seq<char> {
    seq!['<', 'a', 's', 'r', '_', 't', 'e', 'x', 't']
}

/// The artifact that some model versions print before the text.
pub open spec fn onghua() -> Seq<char> {
    seq!['o', 'n', 'g', 'h', 'u', 'a']
}

/// The truncated form of the artifact.
pub open spec fn nghua() -> Seq<char> {
    seq!['n', 'g', 'h', 'u', 'a']
}

/// What `clean_qwen_asr_output` returns for the text `text`.
///
/// The text is trimmed, then the first rule that applies is taken:
/// 1. it holds a marker: the first `<asr_text`, up to the first `>` after it
///    (`<asr_text>`, `<asr_text|zh>`, ...). When what comes before the marker
///    ends with `onghua` or `nghua`, the result is what follows the marker,
///    trimmed; otherwise the marker alone is cut out;
/// 2. it starts with `onghua`: the rest, trimmed;
/// 3. it starts with `nghua`: the rest, trimmed;
/// 4. it starts with `<` and holds a `>` whose enclosed text contains `asr`
///    or `text`: what follows that first `>`, trimmed;
/// 5. otherwise the trimmed text itself.
pub open spec fn clean_spec(text: Seq<char>) -> Seq<char> {
    clean_trimmed(trim(text))
}

/// Where the marker of rule 1 lies in the trimmed text `t`: from the first
/// `<asr_text` to the first `>` after it, that `>` included.
pub open spec fn marker_span(t: Seq<char>) -> Option<(int, int)> {
    match first_match(t, asr_tag_open()) {
        Some(pos) => {
            let from = pos + asr_tag_open().len();
            match first_match(t.subrange(from, t.len() as int), seq!['>']) {
                Some(off) => Some((pos, from + off + 1)),
                None => None,
            }
        },
        None => None,
    }
}

/// Rules 1 to 5 of `clean_spec`, applied to the trimmed text `t`.
pub open spec fn clean_trimmed(t: Seq<char>) -> Seq<char> {
    match marker_span(t) {
        Some((start, end)) => clean_around_marker(t, start, end),
        None => clean_untagged(t),
    }
}

/// Rule 1: the text `t` holds the marker from `start` to `end`.
pub open spec fn clean_around_marker(t: Seq<char>, start: int, end: int) -> Seq<char> {
    let before = t.subrange(0, start);
    let after = t.subrange(end, t.len() as int);
    if ends_with(before, onghua()) || ends_with(before, nghua()) {
        trim(after)
    } else {
        before + after
    }
}

/// Rules 2 to 5: the text `t` holds no marker.
pub open spec fn clean_untagged(t: Seq<char>) -> Seq<char> {
    if starts_with(t, onghua()) {
        trim(t.subrange(onghua().len() as int, t.len() as int))
    } else if starts_with(t, nghua()) {
        trim(t.subrange(nghua().len() as int, t.len() as int))
    } else if t.len() > 0 && t[0] == '<' {
        clean_leading_tag(t)
    } else {
        t
    }
}

/// Rule 4: the text `t` starts with `<`.
pub open spec fn clean_leading_tag(t: Seq<char>) -> Seq<char> {
    match first_match(t, seq!['>']) {
        Some(end) => {
            let content = t.subrange(1, end);
            if contains(content, seq!['a', 's', 'r']) || contains(content, seq!['t', 'e', 'x', 't']) {
                trim(t.subrange(end + 1, t.len() as int))
            } else {
                t
            }
        },
        None => t,
    }
}

// ---------------------------------------------------------------------------
// Lemmas
// ---------------------------------------------------------------------------

/// Removing leading whitespace from a suffix that starts with whitespace.
proof fn lemma_trim_start_step(s: Seq<char>, lo: int, hi: int)
    requires
        0 <= lo < hi <= s.len(),
        is_white_space(s[lo]),
    ensures
        trim_start(s.subrange(lo, hi)) == trim_start(s.subrange(lo + 1, hi)),
{
    assert(s.subrange(lo, hi).drop_first() =~= s.subrange(lo + 1, hi));
}

/// Removing trailing whitespace from a prefix that ends with whitespace.
proof fn lemma_trim_end_step(s: Seq<char>, lo: int, hi: int)
    requires
        0 <= lo < hi <= s.len(),
        is_white_space(s[hi - 1]),
    ensures
        trim_end(s.subrange(lo, hi)) == trim_end(s.subrange(lo, hi - 1)),
{
    assert(s.subrange(lo, hi).drop_last() =~= s.subrange(lo, hi - 1));
}

/// A trimmed sequence is no longer than the original.
pub proof fn lemma_trim_start_len(s: Seq<char>)
    ensures
        trim_start(s).len() <= s.len(),
    decreases s.len(),
{
    if s.len() > 0 && is_white_space(s[0]) {
        lemma_trim_start_len(s.drop_first());
    }
}

/// A trimmed sequence is no longer than the original.
pub proof fn lemma_trim_end_len(s: Seq<char>)
    ensures
        trim_end(s).len() <= s.len(),
    decreases s.len(),
{
    if s.len() > 0 && is_white_space(s.last()) {
        lemma_trim_end_len(s.drop_last());
    }
}

/// A trimmed sequence is no longer than the original.
pub proof fn lemma_trim_len(s: Seq<char>)
    ensures
        trim(s).len() <= s.len(),
{
    lemma_trim_start_len(s);
    lemma_trim_end_len(trim_start(s));
}

/// The first match is determined by any match that has no match before it.
proof fn lemma_first_match_is(s: Seq<char>, pat: Seq<char>, i: int)
    requires
        matches_at(s, pat, i),
        forall|j: int| 0 <= j < i ==> !matches_at(s, pat, j),
    ensures
        first_match(s, pat) == Some(i),
{
    reveal(contains);
    reveal(first_match);
    assert(contains(s, pat));
    let k = choose|k: int| matches_at(s, pat, k) && forall|j: int| 0 <= j < k ==> !matches_at(s, pat, j);
    assert(matches_at(s, pat, k) && forall|j: int| 0 <= j < k ==> !matches_at(s, pat, j));
    if k < i {
        assert(!matches_at(s, pat, k));
    } else if i < k {
        assert(!matches_at(s, pat, i));
    }
}

/// When `pat` occurs in `s`, it has a first occurrence.
proof fn lemma_minimal_match(s: Seq<char>, pat: Seq<char>, k: int)
    requires
        matches_at(s, pat, k),
    ensures
        exists|i: int| matches_at(s, pat, i) && forall|j: int| 0 <= j < i ==> !matches_at(s, pat, j),
    decreases k,
{
    if exists|j: int| 0 <= j < k && matches_at(s, pat, j) {
        let j = choose|j: int| 0 <= j < k && matches_at(s, pat, j);
        lemma_minimal_match(s, pat, j);
    } else {
        assert(matches_at(s, pat, k) && forall|j: int| 0 <= j < k ==> !matches_at(s, pat, j));
    }
}

/// `first_match` gives the first occurrence, and nothing when there is none.
pub proof fn lemma_first_match(s: Seq<char>, pat: Seq<char>)
    ensures
        first_match(s, pat) matches Some(i) ==> {
            &&& matches_at(s, pat, i)
            &&& forall|j: int| 0 <= j < i ==> !matches_at(s, pat, j)
        },
        first_match(s, pat) is None <==> !contains(s, pat),
{
    reveal(first_match);
    reveal(contains);
    if contains(s, pat) {
        let k = choose|k: int| matches_at(s, pat, k);
        lemma_minimal_match(s, pat, k);
    }
}

/// Text that carries none of the artifacts comes back trimmed and otherwise
/// unchanged.
pub proof fn lemma_clean_text_unchanged(text: Seq<char>)
    requires
        !contains(trim(text), asr_tag_open()),
        !starts_with(trim(text), onghua()),
        !starts_with(trim(text), nghua()),
        trim(text).len() == 0 || trim(text)[0] != '<',
    ensures
        clean_spec(text) == trim(text),
{
    lemma_first_match(trim(text), asr_tag_open());
}

/// Whitespace in front of a text is removed with the text's own leading
/// whitespace.
proof fn lemma_trim_start_skip(w: Seq<char>, x: Seq<char>)
    requires
        forall|i: int| 0 <= i < w.len() ==> is_white_space(w[i]),
    ensures
        trim_start(w + x) == trim_start(x),
    decreases w.len(),
{
    if w.len() > 0 {
        assert((w + x)[0] == w[0]);
        assert((w + x).drop_first() =~= w.drop_first() + x);
        lemma_trim_start_skip(w.drop_first(), x);
    } else {
        assert(w + x =~= x);
    }
}

/// Trailing whitespace of `x + r`: that of `r` when `r` holds more than
/// whitespace, otherwise all of `r` and that of `x`.
proof fn lemma_trim_end_concat(x: Seq<char>, r: Seq<char>)
    ensures
        trim_end(x + r) == if trim_end(r).len() > 0 {
            x + trim_end(r)
        } else {
            trim_end(x)
        },
    decreases r.len(),
{
    if r.len() == 0 {
        assert(x + r =~= x);
    } else {
        assert((x + r).last() == r.last());
        if is_white_space(r.last()) {
            assert((x + r).drop_last() =~= x + r.drop_last());
            lemma_trim_end_concat(x, r.drop_last());
        }
    }
}

/// What `trim_end` leaves is a prefix of the text.
proof fn lemma_trim_end_prefix(s: Seq<char>)
    ensures
        trim_end(s).len() <= s.len(),
        trim_end(s) == s.subrange(0, trim_end(s).len() as int),
    decreases s.len(),
{
    if s.len() > 0 && is_white_space(s.last()) {
        lemma_trim_end_prefix(s.drop_last());
        let k = trim_end(s.drop_last()).len() as int;
        assert(s.drop_last().subrange(0, k) =~= s.subrange(0, k));
    } else {
        assert(s.subrange(0, s.len() as int) =~= s);
    }
}

/// Trimming the end twice is trimming it once.
proof fn lemma_trim_end_idempotent(s: Seq<char>)
    ensures
        trim_end(trim_end(s)) == trim_end(s),
    decreases s.len(),
{
    if s.len() > 0 && is_white_space(s.last()) {
        lemma_trim_end_idempotent(s.drop_last());
    }
}

/// Trimming the start and trimming the end can be done in either order.
proof fn lemma_trim_commute(s: Seq<char>)
    ensures
        trim_start(trim_end(s)) == trim_end(trim_start(s)),
    decreases s.len(),
{
    if s.len() > 0 {
        let c = s[0];
        let rest = s.drop_first();
        assert(s =~= seq![c] + rest);
        lemma_trim_end_concat(seq![c], rest);
        assert(seq![c].drop_last() =~= Seq::<char>::empty());
        assert(trim_end(Seq::<char>::empty()) == Seq::<char>::empty());
        if trim_end(rest).len() > 0 {
            assert((seq![c] + trim_end(rest))[0] == c);
            assert((seq![c] + trim_end(rest)).drop_first() =~= trim_end(rest));
        }
        if is_white_space(c) {
            lemma_trim_commute(rest);
        }
    }
}

/// Trimming a text whose end was already trimmed is trimming the text.
pub proof fn lemma_trim_after_trim_end(s: Seq<char>)
    ensures
        trim(trim_end(s)) == trim(s),
{
    lemma_trim_commute(s);
    lemma_trim_end_idempotent(trim_start(s));
}

/// None of the characters of `onghua` or `nghua` is `<` or whitespace.
proof fn lemma_artifact_chars(p: Seq<char>, j: int)
    requires
        p == onghua() || p == nghua(),
        0 <= j < p.len(),
    ensures
        p[j] != '<',
        !is_white_space(p[j]),
{
    reveal(is_white_space);
    if p == onghua() {
        assert(j == 0 || j == 1 || j == 2 || j == 3 || j == 4 || j == 5);
    } else {
        assert(j == 0 || j == 1 || j == 2 || j == 3 || j == 4);
    }
}

/// An artifact `p`, preceded by whitespace only, in front of `x`: the
/// trimmed text is `p`, then `x` without its trailing whitespace.
proof fn lemma_trim_after_artifact(w: Seq<char>, p: Seq<char>, x: Seq<char>)
    requires
        forall|i: int| 0 <= i < w.len() ==> is_white_space(w[i]),
        p == onghua() || p == nghua(),
    ensures
        trim(w + p + x) == p + trim_end(x),
{
    assert(w + p + x =~= w + (p + x));
    lemma_trim_start_skip(w, p + x);
    lemma_artifact_chars(p, 0);
    assert((p + x)[0] == p[0]);
    assert(trim_start(p + x) == p + x);
    lemma_trim_end_concat(p, x);
    lemma_artifact_chars(p, p.len() - 1);
    assert(p.last() == p[p.len() - 1]);
    assert(trim_end(p) == p);
}

/// The first occurrence of the character `c` in `t` is at `i` when `t`
/// holds `c` there and nowhere before.
proof fn lemma_first_char(t: Seq<char>, c: char, i: int)
    requires
        0 <= i < t.len(),
        t[i] == c,
        forall|j: int| 0 <= j < i ==> t[j] != c,
    ensures
        first_match(t, seq![c]) == Some(i),
{
    assert(t.subrange(i, i + 1) =~= seq![c]);
    assert forall|j: int| 0 <= j < i implies !matches_at(t, seq![c], j) by {
        assert(t.subrange(j, j + 1)[0] == t[j]);
    }
    lemma_first_match_is(t, seq![c], i);
}

/// The marker `<asr_text` ... `>` (`m` holding no `>`), with `onghua` or
/// `nghua` and only whitespace before it, is removed from the front of a
/// transcription, and so is the whitespace around the transcription.
pub proof fn lemma_clean_full_artifact(w: Seq<char>, p: Seq<char>, m: Seq<char>, s: Seq<char>)
    requires
        forall|i: int| 0 <= i < w.len() ==> is_white_space(w[i]),
        p == onghua() || p == nghua(),
        forall|i: int| 0 <= i < m.len() ==> m[i] != '>',
    ensures
        clean_spec(w + p + asr_tag_open() + m + seq!['>'] + s) == trim(s),
{
    let open = asr_tag_open();
    let marker = open + m + seq!['>'];
    let n = p.len() as int;
    assert(w + p + open + m + seq!['>'] + s =~= w + p + (marker + s));
    lemma_trim_after_artifact(w, p, marker + s);
    lemma_trim_end_concat(marker, s);
    assert(marker.last() == '>');
    assert(!is_white_space('>')) by {
        reveal(is_white_space);
    }
    assert(trim_end(marker) == marker);
    let t = p + trim_end(marker + s);
    assert(t =~= p + marker + trim_end(s));
    assert(t.subrange(n, n + 9) =~= open);
    assert forall|j: int| 0 <= j < n implies !matches_at(t, open, j) by {
        lemma_artifact_chars(p, j);
        if j + 9 <= t.len() {
            assert(t.subrange(j, j + 9)[0] == t[j]);
        }
    }
    lemma_first_match_is(t, open, n);
    let rest = t.subrange(n + 9, t.len() as int);
    assert(rest =~= m + seq!['>'] + trim_end(s));
    lemma_first_char(rest, '>', m.len() as int);
    let end = n + 9 + m.len() + 1;
    assert(marker_span(t) == Some((n, end)));
    assert(t.subrange(0, n) =~= p);
    assert(t.subrange(end, t.len() as int) =~= trim_end(s));
    assert(p.subrange(0, n) =~= p);
    assert(ends_with(p, onghua()) || ends_with(p, nghua()));
    lemma_trim_after_trim_end(s);
}

/// A bare artifact `onghua` or `nghua` in front of a transcription that does
/// not hold `<asr_text`, with only whitespace before it, is removed, and so
/// is the whitespace around the transcription.
pub proof fn lemma_clean_bare_artifact(w: Seq<char>, p: Seq<char>, s: Seq<char>)
    requires
        forall|i: int| 0 <= i < w.len() ==> is_white_space(w[i]),
        p == onghua() || p == nghua(),
        !contains(s, asr_tag_open()),
    ensures
        clean_spec(w + p + s) == trim(s),
{
    let open = asr_tag_open();
    let n = p.len() as int;
    lemma_trim_after_artifact(w, p, s);
    let t = p + trim_end(s);
    lemma_trim_end_prefix(s);
    assert forall|j: int| !matches_at(t, open, j) by {
        if matches_at(t, open, j) {
            if j < n {
                lemma_artifact_chars(p, j);
                assert(t.subrange(j, j + 9)[0] == t[j]);
            } else {
                assert(t.subrange(j, j + 9) =~= s.subrange(j - n, j - n + 9));
                assert(matches_at(s, open, j - n));
                reveal(contains);
            }
        }
    }
    lemma_first_match(t, open);
    assert(!contains(t, open)) by {
        reveal(contains);
    }
    if p == onghua() {
        assert(t.subrange(0, 6) =~= p);
        assert(t.subrange(6, t.len() as int) =~= trim_end(s));
    } else {
        assert(t[0] == 'n');
        if t.len() >= 6 {
            assert(t.subrange(0, 6)[0] == 'n');
        }
        assert(!starts_with(t, onghua()));
        assert(t.subrange(0, 5) =~= p);
        assert(t.subrange(5, t.len() as int) =~= trim_end(s));
    }
    lemma_trim_after_trim_end(s);
}

/// The number of bytes of `c` in UTF-8 (what `char::len_utf8` returns).
pub open spec fn char_utf8_len(c: char) -> nat {
    let n = c as u32;
    if n < 0x80 {
        1
    } else if n < 0x800 {
        2
    } else if n < 0x10000 {
        3
    } else {
        4
    }
}

/// The number of bytes of the characters `s` in UTF-8 (what `str::len`
/// returns for a string of these characters).
pub open spec fn utf8_len(s: Seq<char>) -> nat
    decreases s.len(),
{
    if s.len() == 0 {
        0
    } else {
        utf8_len(s.drop_last()) + char_utf8_len(s.last())
    }
}

/// `r` is made of at most two pieces of `t`, taken in order and without
/// overlap: `t[a1..b1]` followed by `t[a2..b2]`.
pub open spec fn ordered_pieces(t: Seq<char>, r: Seq<char>) -> bool {
    exists|a1: int, b1: int, a2: int, b2: int|
        #![trigger t.subrange(a1, b1), t.subrange(a2, b2)]
        0 <= a1 <= b1 <= a2 <= b2 <= t.len() && r == t.subrange(a1, b1) + t.subrange(a2, b2)
}

/// The UTF-8 length of a concatenation.
proof fn lemma_utf8_len_concat(x: Seq<char>, y: Seq<char>)
    ensures
        utf8_len(x + y) == utf8_len(x) + utf8_len(y),
    decreases y.len(),
{
    if y.len() == 0 {
        assert(x + y =~= x);
    } else {
        assert((x + y).drop_last() =~= x + y.drop_last());
        assert((x + y).last() == y.last());
        lemma_utf8_len_concat(x, y.drop_last());
    }
}

/// What `trim_start` leaves is a suffix of the text.
proof fn lemma_trim_start_suffix(s: Seq<char>)
    ensures
        trim_start(s).len() <= s.len(),
        trim_start(s) == s.subrange(s.len() - trim_start(s).len(), s.len() as int),
    decreases s.len(),
{
    if s.len() > 0 && is_white_space(s[0]) {
        lemma_trim_start_suffix(s.drop_first());
        let k = trim_start(s.drop_first()).len() as int;
        assert(s.drop_first().subrange(s.len() - 1 - k, s.len() - 1) =~= s.subrange(
            s.len() - k,
            s.len() as int,
        ));
    } else {
        assert(s.subrange(0, s.len() as int) =~= s);
    }
}

/// What `trim` leaves is a slice `s[lo..hi]` of the text.
proof fn lemma_trim_slice(s: Seq<char>) -> (r: (int, int))
    ensures
        0 <= r.0 <= r.1 <= s.len(),
        trim(s) == s.subrange(r.0, r.1),
{
    lemma_trim_start_suffix(s);
    let u = trim_start(s);
    let d = s.len() - u.len();
    lemma_trim_end_prefix(u);
    let k = trim_end(u).len() as int;
    assert(u.subrange(0, k) =~= s.subrange(d, d + k));
    (d, d + k)
}

/// The trimmed slice `t[from..]`, as a slice of `t`, with an empty second
/// piece.
proof fn lemma_trimmed_tail_pieces(t: Seq<char>, from: int)
    requires
        0 <= from <= t.len(),
    ensures
        ordered_pieces(t, trim(t.subrange(from, t.len() as int))),
{
    let (lo, hi) = lemma_trim_slice(t.subrange(from, t.len() as int));
    assert(t.subrange(from, t.len() as int).subrange(lo, hi) =~= t.subrange(from + lo, from + hi));
    assert(trim(t.subrange(from, t.len() as int)) =~= t.subrange(from + lo, from + hi) + t.subrange(
        from + hi,
        from + hi,
    ));
}

/// Pieces of a text are no longer than the text, in characters and in
/// UTF-8 bytes.
pub proof fn lemma_pieces_no_longer(t: Seq<char>, r: Seq<char>)
    requires
        ordered_pieces(t, r),
    ensures
        r.len() <= t.len(),
        utf8_len(r) <= utf8_len(t),
{
    let (a1, b1, a2, b2) = choose|a1: int, b1: int, a2: int, b2: int|
        #![trigger t.subrange(a1, b1), t.subrange(a2, b2)]
        0 <= a1 <= b1 <= a2 <= b2 <= t.len() && r == t.subrange(a1, b1) + t.subrange(a2, b2);
    let p0 = t.subrange(0, a1);
    let p1 = t.subrange(a1, b1);
    let p2 = t.subrange(b1, a2);
    let p3 = t.subrange(a2, b2);
    let p4 = t.subrange(b2, t.len() as int);
    assert(t =~= p0 + p1 + p2 + p3 + p4);
    lemma_utf8_len_concat(p0 + p1 + p2 + p3, p4);
    lemma_utf8_len_concat(p0 + p1 + p2, p3);
    lemma_utf8_len_concat(p0 + p1, p2);
    lemma_utf8_len_concat(p0, p1);
    lemma_utf8_len_concat(p1, p3);
}

/// The cleanup only cuts: its result is at most two pieces of the trimmed
/// text, in order, so it is no longer than the trimmed text, in characters
/// and in UTF-8 bytes (and so no longer than the text itself).
pub proof fn lemma_clean_no_longer(text: Seq<char>)
    ensures
        ordered_pieces(trim(text), clean_spec(text)),
        clean_spec(text).len() <= trim(text).len(),
        utf8_len(clean_spec(text)) <= utf8_len(trim(text)),
        clean_spec(text).len() <= text.len(),
{
    lemma_trim_len(text);
    let t = trim(text);
    let r = clean_spec(text);
    let open = asr_tag_open();
    lemma_first_match(t, open);
    lemma_first_match(t, seq!['>']);
    match marker_span(t) {
        Some((start, end)) => {
            let pos = first_match(t, open)->0;
            let from = pos + 9;
            lemma_first_match(t.subrange(from, t.len() as int), seq!['>']);
            let before = t.subrange(0, start);
            if ends_with(before, onghua()) || ends_with(before, nghua()) {
                lemma_trimmed_tail_pieces(t, end);
            } else {
                assert(r == t.subrange(0, start) + t.subrange(end, t.len() as int));
            }
        },
        None => {
            if starts_with(t, onghua()) {
                lemma_trimmed_tail_pieces(t, 6);
            } else if starts_with(t, nghua()) {
                lemma_trimmed_tail_pieces(t, 5);
            } else if t.len() > 0 && t[0] == '<' && first_match(t, seq!['>']) is Some && (contains(
                t.subrange(1, first_match(t, seq!['>'])->0),
                seq!['a', 's', 'r'],
            ) || contains(t.subrange(1, first_match(t, seq!['>'])->0), seq!['t', 'e', 'x', 't'])) {
                lemma_trimmed_tail_pieces(t, first_match(t, seq!['>'])->0 + 1);
            } else {
                assert(r =~= t.subrange(0, t.len() as int) + t.subrange(t.len() as int, t.len() as int));
            }
        },
    }
    lemma_pieces_no_longer(t, r);
}

/// The code points of the Unicode `White_Space` property, as `PropList.txt`
/// lists them (in decimal): 9 to 13, 32, 133, 160, 5760, 8192 to 8202,
/// 8232, 8233, 8239, 8287 and 12288.
pub open spec fn white_space_code_point(n: u32) -> bool {
    ||| 9 <= n && n <= 13
    ||| n == 32
    ||| n == 133
    ||| n == 160
    ||| n == 5760
    ||| 8192 <= n && n <= 8202
    ||| n == 8232
    ||| n == 8233
    ||| n == 8239
    ||| n == 8287
    ||| n == 12288
}

/// Trimming removes exactly the characters whose code point has the Unicode
/// `White_Space` property: such a character at either end of a text goes,
/// any other character there stays.
pub proof fn lemma_trim_removes_exactly_white_space(s: Seq<char>, c: char)
    ensures
        is_white_space(c) <==> white_space_code_point(c as u32),
        white_space_code_point(c as u32) ==> trim_end(s.push(c)) == trim_end(s),
        white_space_code_point(c as u32) ==> trim_start(seq![c] + s) == trim_start(s),
        !white_space_code_point(c as u32) ==> trim_end(s.push(c)) == s.push(c),
        !white_space_code_point(c as u32) ==> trim_start(seq![c] + s) == seq![c] + s,
{
    reveal(is_white_space);
    assert(s.push(c).drop_last() =~= s);
    assert(s.push(c).last() == c);
    assert((seq![c] + s).drop_first() =~= s);
    assert((seq![c] + s)[0] == c);
}

/// Leading whitespace removal keeps the last character of a text that does
/// not end in whitespace.
proof fn lemma_trim_start_keeps_last(x: Seq<char>)
    requires
        x.len() > 0,
        !is_white_space(x.last()),
    ensures
        trim_start(x).len() > 0,
        trim_start(x).last() == x.last(),
    decreases x.len(),
{
    if is_white_space(x[0]) {
        assert(x.len() > 1);
        assert(x.drop_first().last() == x.last());
        lemma_trim_start_keeps_last(x.drop_first());
    }
}

/// Cleaning a text that carries no artifact keeps its last character when
/// that character is not whitespace (such as a final `。`).
pub proof fn lemma_clean_keeps_final_char(s: Seq<char>, c: char)
    requires
        !white_space_code_point(c as u32),
        !contains(trim(s.push(c)), asr_tag_open()),
        !starts_with(trim(s.push(c)), onghua()),
        !starts_with(trim(s.push(c)), nghua()),
        trim(s.push(c)).len() == 0 || trim(s.push(c))[0] != '<',
    ensures
        clean_spec(s.push(c)).len() > 0,
        clean_spec(s.push(c)).last() == c,
{
    let x = s.push(c);
    lemma_trim_removes_exactly_white_space(s, c);
    lemma_clean_text_unchanged(x);
    lemma_trim_start_keeps_last(x);
    let y = trim_start(x);
    assert(y.len() > 0 && !is_white_space(y.last()));
    assert(trim_end(y) == y);
}

// ---------------------------------------------------------------------------
// Executable helpers over a character vector
// ---------------------------------------------------------------------------

/// The characters of `s`.
pub fn chars_of(s: &str) -> (v: Vec<char>)
    ensures
        v@ == s@,
{
    let mut v: Vec<char> = Vec::new();
    for c in it: s.chars()
        invariant
            v@ == it.seq().take(it.index() as int),
    {
        v.push(c);
    }
    v
}

/// The bounds of `v[lo..hi]` once whitespace is removed from both ends.
pub fn trim_bounds(v: &Vec<char>, lo: usize, hi: usize) -> (r: (usize, usize))
    requires
        lo <= hi <= v.len(),
    ensures
        lo <= r.0 <= r.1 <= hi,
        v@.subrange(r.0 as int, r.1 as int) == trim(v@.subrange(lo as int, hi as int)),
{
    let mut a = lo;
    while a < hi && char_is_white_space(v[a])
        invariant
            lo <= a <= hi <= v.len(),
            trim_start(v@.subrange(lo as int, hi as int)) == trim_start(v@.subrange(a as int, hi as int)),
        decreases hi - a,
    {
        proof {
            lemma_trim_start_step(v@, a as int, hi as int);
        }
        a = a + 1;
    }
    assert(trim_start(v@.subrange(a as int, hi as int)) == v@.subrange(a as int, hi as int));
    let mut b = hi;
    while b > a && char_is_white_space(v[b - 1])
        invariant
            lo <= a <= b <= hi <= v.len(),
            trim_end(v@.subrange(a as int, hi as int)) == trim_end(v@.subrange(a as int, b as int)),
        decreases b - a,
    {
        proof {
            lemma_trim_end_step(v@, a as int, b as int);
        }
        b = b - 1;
    }
    assert(trim_end(v@.subrange(a as int, b as int)) == v@.subrange(a as int, b as int));
    (a, b)
}

/// Whether `pat` occurs in `v` at index `i`.
fn matches_at_index(v: &Vec<char>, i: usize, pat: &Vec<char>) -> (r: bool)
    requires
        i + pat.len() <= v.len(),
    ensures
        r == (v@.subrange(i as int, i + pat.len()) == pat@),
{
    let mut k: usize = 0;
    while k < pat.len()
        invariant
            k <= pat.len(),
            i + pat.len() <= v.len(),
            forall|j: int| 0 <= j < k ==> v@[i + j] == pat@[j],
        decreases pat.len() - k,
    {
        if v[i + k] != pat[k] {
            assert(v@.subrange(i as int, i + pat.len())[k as int] != pat@[k as int]);
            return false;
        }
        k = k + 1;
    }
    assert(v@.subrange(i as int, i + pat.len()) =~= pat@);
    true
}

/// The first occurrence of `pat` in `v[lo..hi]`, as an index into `v`.
pub fn find_in(v: &Vec<char>, lo: usize, hi: usize, pat: &Vec<char>) -> (r: Option<usize>)
    requires
        lo <= hi <= v.len(),
    ensures
        match r {
            Some(p) => {
                &&& lo <= p
                &&& p + pat.len() <= hi
                &&& matches_at(v@.subrange(lo as int, hi as int), pat@, p - lo)
                &&& contains(v@.subrange(lo as int, hi as int), pat@)
                &&& first_match(v@.subrange(lo as int, hi as int), pat@) == Some(p - lo)
            },
            None => {
                &&& !contains(v@.subrange(lo as int, hi as int), pat@)
                &&& first_match(v@.subrange(lo as int, hi as int), pat@) is None
            },
        },
{
    let ghost s = v@.subrange(lo as int, hi as int);
    if pat.len() > hi - lo {
        assert forall|j: int| !matches_at(s, pat@, j) by {}
        assert(!contains(s, pat@)) by {
            reveal(contains);
        }
        proof {
            lemma_first_match(s, pat@);
        }
        return None;
    }
    let last = hi - pat.len();
    let mut i = lo;
    loop
        invariant
            lo <= i <= last,
            last + pat.len() == hi,
            hi <= v.len(),
            s == v@.subrange(lo as int, hi as int),
            forall|j: int| 0 <= j < i - lo ==> !matches_at(s, pat@, j),
        decreases last - i,
    {
        assert(s.subrange(i - lo, i - lo + pat.len()) =~= v@.subrange(i as int, i + pat.len()));
        if matches_at_index(v, i, pat) {
            proof {
                lemma_first_match_is(s, pat@, i - lo);
                lemma_first_match(s, pat@);
            }
            return Some(i);
        }
        if i == last {
            assert forall|j: int| !matches_at(s, pat@, j) by {
                if 0 <= j < i - lo {
                }
            }
            assert(!contains(s, pat@)) by {
                reveal(contains);
            }
            proof {
                lemma_first_match(s, pat@);
            }
            return None;
        }
        i = i + 1;
    }
}

/// Whether `v[lo..hi]` begins with `pat`.
pub fn starts_with_in(v: &Vec<char>, lo: usize, hi: usize, pat: &Vec<char>) -> (r: bool)
    requires
        lo <= hi <= v.len(),
    ensures
        r == starts_with(v@.subrange(lo as int, hi as int), pat@),
{
    if pat.len() > hi - lo {
        return false;
    }
    assert(v@.subrange(lo as int, hi as int).subrange(0, pat.len() as int) =~= v@.subrange(lo as int, lo + pat.len()));
    matches_at_index(v, lo, pat)
}

/// Whether `v[lo..hi]` ends with `pat`.
pub fn ends_with_in(v: &Vec<char>, lo: usize, hi: usize, pat: &Vec<char>) -> (r: bool)
    requires
        lo <= hi <= v.len(),
    ensures
        r == ends_with(v@.subrange(lo as int, hi as int), pat@),
{
    if pat.len() > hi - lo {
        return false;
    }
    let start = hi - pat.len();
    assert(v@.subrange(lo as int, hi as int).subrange(start - lo, hi - lo) =~= v@.subrange(start as int, hi as int));
    matches_at_index(v, start, pat)
}

// ---------------------------------------------------------------------------
// Cleanup of model output
// ---------------------------------------------------------------------------

/// The characters of `text` from index `from` to index `to`, as a `String`.
fn substring(text: &str, from: usize, to: usize) -> (r: String)
    requires
        from <= to <= text@.len(),
    ensures
        r@ == text@.subrange(from as int, to as int),
{
    String::from_str(text.substring_char(from, to))
}

/// Rule 1 of the cleanup, on the trimmed text `v[a..b]` whose marker spans
/// `v[start..end]`.
fn clean_around_marker_in(text: &str, v: &Vec<char>, a: usize, b: usize, start: usize, end: usize) -> (r: String)
    requires
        v@ == text@,
        a <= start <= end <= b <= v.len(),
    ensures
        r@ == clean_around_marker(v@.subrange(a as int, b as int), start - a, end - a),
{
    let ghost t = v@.subrange(a as int, b as int);
    let onghua_v = vec!['o', 'n', 'g', 'h', 'u', 'a'];
    let nghua_v = vec!['n', 'g', 'h', 'u', 'a'];
    assert(onghua_v@ == onghua());
    assert(nghua_v@ == nghua());
    assert(t.subrange(0, start - a) =~= v@.subrange(a as int, start as int));
    assert(t.subrange(end - a, t.len() as int) =~= v@.subrange(end as int, b as int));
    if ends_with_in(v, a, start, &onghua_v) || ends_with_in(v, a, start, &nghua_v) {
        let (c, d) = trim_bounds(v, end, b);
        substring(text, c, d)
    } else {
        let head = substring(text, a, start);
        let tail = substring(text, end, b);
        head.concat(tail.as_str())
    }
}

/// Rule 4 of the cleanup, on the trimmed text `v[a..b]` that starts with `<`.
fn clean_leading_tag_in(text: &str, v: &Vec<char>, a: usize, b: usize) -> (r: String)
    requires
        v@ == text@,
        a < b <= v.len(),
        v@[a as int] == '<',
    ensures
        r@ == clean_leading_tag(v@.subrange(a as int, b as int)),
{
    let ghost t = v@.subrange(a as int, b as int);
    let close = vec!['>'];
    assert(close@ == seq!['>']);
    match find_in(v, a, b, &close) {
        Some(end) => {
            let ghost rel = end - a;
            assert(matches_at(t, close@, rel));
            assert(t.subrange(rel, rel + 1)[0] == '>');
            assert(t[0] == '<');
            assert(rel >= 1);
            let asr = vec!['a', 's', 'r'];
            let txt = vec!['t', 'e', 'x', 't'];
            assert(asr@ == seq!['a', 's', 'r']);
            assert(txt@ == seq!['t', 'e', 'x', 't']);
            assert(t.subrange(1, rel) =~= v@.subrange(a + 1, end as int));
            let has_asr = find_in(v, a + 1, end, &asr).is_some();
            let has_text = find_in(v, a + 1, end, &txt).is_some();
            if has_asr || has_text {
                assert(t.subrange(rel + 1, t.len() as int) =~= v@.subrange(end + 1, b as int));
                let (c, d) = trim_bounds(v, end + 1, b);
                substring(text, c, d)
            } else {
                substring(text, a, b)
            }
        },
        None => substring(text, a, b),
    }
}

/// Rules 2 to 5 of the cleanup, on the trimmed text `v[a..b]`.
fn clean_untagged_in(text: &str, v: &Vec<char>, a: usize, b: usize) -> (r: String)
    requires
        v@ == text@,
        a <= b <= v.len(),
    ensures
        r@ == clean_untagged(v@.subrange(a as int, b as int)),
{
    let ghost t = v@.subrange(a as int, b as int);
    let onghua_v = vec!['o', 'n', 'g', 'h', 'u', 'a'];
    let nghua_v = vec!['n', 'g', 'h', 'u', 'a'];
    assert(onghua_v@ == onghua());
    assert(nghua_v@ == nghua());
    if starts_with_in(v, a, b, &onghua_v) {
        assert(t.subrange(6, t.len() as int) =~= v@.subrange(a + 6, b as int));
        let (c, d) = trim_bounds(v, a + 6, b);
        substring(text, c, d)
    } else if starts_with_in(v, a, b, &nghua_v) {
        assert(t.subrange(5, t.len() as int) =~= v@.subrange(a + 5, b as int));
        let (c, d) = trim_bounds(v, a + 5, b);
        substring(text, c, d)
    } else if a < b && v[a] == '<' {
        clean_leading_tag_in(text, v, a, b)
    } else {
        substring(text, a, b)
    }
}

/// Clean up Qwen3-ASR output format artifacts.
///
/// Some versions of Qwen3-ASR print format markers like `onghua<asr_text>`
/// or `onghua<asr_text|zh>` before the transcribed text; they are removed,
/// and surrounding whitespace is trimmed. Examples:
/// - `"onghua<asr_text>这是中文"` gives `"这是中文"`
/// - `"<asr_text>This is English"` gives `"This is English"`
/// - `"onghuaThis is text"` gives `"This is text"`
pub fn clean_qwen_asr_output(text: &str) -> (r: String)
    ensures
        r@ == clean_spec(text@),
{
    let v = chars_of(text);
    let n = v.len();
    let (a, b) = trim_bounds(&v, 0, n);
    assert(v@.subrange(0, n as int) =~= v@);
    let ghost t = v@.subrange(a as int, b as int);
    let open = vec!['<', 'a', 's', 'r', '_', 't', 'e', 'x', 't'];
    assert(open@ == asr_tag_open());
    match find_in(&v, a, b, &open) {
        Some(pos) => {
            let from = pos + 9;
            let close = vec!['>'];
            assert(close@ == seq!['>']);
            assert(t.subrange(from - a, t.len() as int) =~= v@.subrange(from as int, b as int));
            match find_in(&v, from, b, &close) {
                Some(e) => {
                    assert(marker_span(t) == Some(((pos - a) as int, (e + 1 - a) as int)));
                    clean_around_marker_in(text, &v, a, b, pos, e + 1)
                },
                None => {
                    assert(marker_span(t) is None);
                    clean_untagged_in(text, &v, a, b)
                },
            }
        },
        None => {
            assert(marker_span(t) is None);
            clean_untagged_in(text, &v, a, b)
        },
    }
}

} // verus!
