//! Locating a quoted passage inside a knowledge-base excerpt, tolerating the
//! case changes, truncations and small edits that language models make.
use vstd::prelude::*;
use vstd::string::*;
use vstd::utf8::encode_utf8;

use crate::text::{chars_of, is_white_space, char_is_white_space, lowercase, push_char, to_lowercase};

verus! {

broadcast use vstd::string::group_string_axioms;

/// Whether the bytes `n` occur in `h` at position `i`.
pub open spec fn bytes_occur_at(h: Seq<u8>, n: Seq<u8>, i: int) -> bool {
    0 <= i && i + n.len() <= h.len() && h.subrange(i, i + n.len()) == n
}

/// The first position at or after `i` where `n` occurs in `h`.
pub open spec fn first_occurrence_from(h: Seq<u8>, n: Seq<u8>, i: int) -> Option<nat>
    decreases h.len() + 1 - i,
{
    if i < 0 || i + n.len() > h.len() {
        None
    } else if bytes_occur_at(h, n, i) {
        Some(i as nat)
    } else {
        first_occurrence_from(h, n, i + 1)
    }
}

/// The first position where `n` occurs in `h`, as `str::find` reports it.
pub open spec fn first_occurrence(h: Seq<u8>, n: Seq<u8>) -> Option<nat> {
    first_occurrence_from(h, n, 0)
}

proof fn lemma_first_occurrence_bound(h: Seq<u8>, n: Seq<u8>, i: int)
    ensures
        first_occurrence_from(h, n, i) matches Some(p) ==> i <= p && p + n.len() <= h.len()
            && bytes_occur_at(h, n, p as int),
    decreases h.len() + 1 - i,
{
    if !(i < 0 || i + n.len() > h.len()) && !bytes_occur_at(h, n, i) {
        lemma_first_occurrence_bound(h, n, i + 1);
    }
}

/// First position of the bytes `n` in `h`.
pub fn find_bytes(h: &[u8], n: &[u8]) -> (r: Option<usize>)
    ensures
        r matches Some(p) ==> first_occurrence(h@, n@) == Some(p as nat),
        r is None ==> first_occurrence(h@, n@) is None,
        r matches Some(p) ==> p + n@.len() <= h@.len(),
{
    if n.len() > h.len() {
        return None;
    }
    if n.len() == 0 {
        assert(h@.subrange(0, 0) =~= n@);
        return Some(0);
    }
    let last = h.len() - n.len();
    let mut i: usize = 0;
    while i <= last
        invariant
            last == h@.len() - n@.len(),
            0 < n@.len() <= h@.len(),
            h@.len() == h.len(),
            n@.len() == n.len(),
            i <= last + 1,
            first_occurrence(h@, n@) == first_occurrence_from(h@, n@, i as int),
        decreases last + 1 - i,
    {
        let mut k: usize = 0;
        let mut same = true;
        while k < n.len()
            invariant
                k <= n@.len(),
                i <= last,
                last == h@.len() - n@.len(),
                0 < n@.len() <= h@.len(),
                h@.len() == h.len(),
                n@.len() == n.len(),
                same == (forall|m: int| 0 <= m < k ==> h@[i + m] == n@[m]),
            decreases n@.len() - k,
        {
            if h[i + k] != n[k] {
                same = false;
            }
            k = k + 1;
        }
        if same {
            assert(h@.subrange(i as int, i + n@.len()) =~= n@);
            return Some(i);
        }
        assert(h@.subrange(i as int, i + n@.len()) != n@) by {
            let m = choose|m: int| 0 <= m < n@.len() && h@[i + m] != n@[m];
            assert(h@.subrange(i as int, i + n@.len())[m] != n@[m]);
        }
        i = i + 1;
    }
    None
}

/// The words of `s` as `str::split_whitespace` gives them: the maximal runs
/// of characters that are not white space, in order.
pub open spec fn words(s: Seq<char>) -> Seq<Seq<char>>
    decreases s.len(),
{
    if s.len() == 0 {
        Seq::empty()
    } else {
        let p = words(s.drop_last());
        let c = s.last();
        if is_white_space(c) {
            p
        } else if s.len() >= 2 && !is_white_space(s[s.len() - 2]) {
            p.update(p.len() - 1, p.last().push(c))
        } else {
            p.push(seq![c])
        }
    }
}

proof fn lemma_words_nonempty_after_word_char(s: Seq<char>)
    requires
        s.len() > 0,
        !is_white_space(s.last()),
    ensures
        words(s).len() > 0,
    decreases s.len(),
{
    if s.len() >= 2 && !is_white_space(s[s.len() - 2]) {
        let t = s.drop_last();
        assert(t.last() == s[s.len() - 2]);
        lemma_words_nonempty_after_word_char(t);
    }
}

proof fn lemma_words_grow(s: Seq<char>)
    requires
        s.len() >= 2,
        !is_white_space(s[s.len() - 2]),
    ensures
        words(s.drop_last()).len() > 0,
{
    let t = s.drop_last();
    assert(t.last() == s[s.len() - 2]);
    lemma_words_nonempty_after_word_char(t);
}

/// The words of `v`, as `str::split_whitespace` gives them.
pub fn split_words(v: &Vec<char>) -> (r: Vec<Vec<char>>)
    ensures
        r@.map_values(|w: Vec<char>| w@) == words(v@),
{
    let mut out: Vec<Vec<char>> = Vec::new();
    let n = v.len();
    let mut i: usize = 0;
    while i < n
        invariant
            i <= n,
            n == v@.len(),
            out@.map_values(|w: Vec<char>| w@) == words(v@.take(i as int)),
        decreases n - i,
    {
        let c = v[i];
        let ghost s = v@.take(i + 1);
        assert(s.drop_last() =~= v@.take(i as int));
        let ghost before = out@;
        if char_is_white_space(c) {
        } else if i >= 1 && !char_is_white_space(v[i - 1]) {
            proof {
                lemma_words_grow(s);
            }
            let mut w = out.pop().unwrap();
            let ghost popped = out@;
            assert(popped =~= before.drop_last());
            w.push(c);
            out.push(w);
            let ghost p = words(s.drop_last());
            assert(p == before.map_values(|w: Vec<char>| w@));
            assert(p.len() == before.len());
            assert(out@ =~= before.drop_last().push(w));
            let ghost q = out@.map_values(|w: Vec<char>| w@);
            assert forall|j: int| 0 <= j < p.len() implies #[trigger] q[j] == p.update(
                p.len() - 1,
                p.last().push(c),
            )[j] by {
                if j < p.len() - 1 {
                    assert(out@[j] == before[j]);
                }
            }
            assert(q =~= words(s));
        } else {
            let mut nw: Vec<char> = Vec::new();
            nw.push(c);
            assert(nw@ =~= seq![c]);
            out.push(nw);
            assert(out@ =~= before.push(nw));
            let ghost q = out@.map_values(|w: Vec<char>| w@);
            let ghost p = words(s.drop_last());
            assert forall|j: int| 0 <= j < q.len() implies #[trigger] q[j] == p.push(seq![c])[j] by {
                if j < p.len() {
                    assert(out@[j] == before[j]);
                }
            }
            assert(q =~= words(s));
        }
        i = i + 1;
    }
    assert(v@.take(n as int) =~= v@);
    out
}

/// A string holding the characters `v[from..to]`.
pub fn string_of_chars(v: &Vec<char>, from: usize, to: usize) -> (s: String)
    requires
        from <= to <= v@.len(),
    ensures
        s@ == v@.subrange(from as int, to as int),
{
    let mut s = String::new();
    let mut i = from;
    while i < to
        invariant
            from <= i <= to,
            to <= v@.len(),
            s@ == v@.subrange(from as int, i as int),
        decreases to - i,
    {
        push_char(&mut s, v[i]);
        assert(s@ =~= v@.subrange(from as int, i + 1));
        i = i + 1;
    }
    s
}

/// The Levenshtein distance between `a` and `b`: the least number of
/// single-character insertions, deletions and substitutions that turn one
/// into the other, by the usual recursion on the last characters.
pub open spec fn levenshtein_distance(a: Seq<char>, b: Seq<char>) -> nat
    decreases a.len() + b.len(),
{
    if a.len() == 0 {
        b.len()
    } else if b.len() == 0 {
        a.len()
    } else {
        let delete = levenshtein_distance(a.drop_last(), b) + 1;
        let insert = levenshtein_distance(a, b.drop_last()) + 1;
        let substitute = levenshtein_distance(a.drop_last(), b.drop_last()) + if a.last() == b.last() {
            0nat
        } else {
            1nat
        };
        if delete <= insert && delete <= substitute {
            delete
        } else if insert <= substitute {
            insert
        } else {
            substitute
        }
    }
}

/// Calls `strsim::levenshtein`, which, as its documentation says, computes
/// the least number of insertions, deletions and substitutions of
/// characters that change one string into the other.
#[verifier::external_body]
fn levenshtein(a: &str, b: &str) -> (d: usize)
    ensures
        d == levenshtein_distance(a@, b@),
{
    strsim::levenshtein(a, b)
}

/// Among the first `count` windows of `hay` that are `needle.len()`
/// characters long, the one closest to `needle` by Levenshtein distance, the
/// earliest of the closest ones, as `(distance, start)`. A window only counts
/// when its distance is below the needle's length (a positive similarity
/// score); otherwise the answer is `(needle.len(), 0)`.
pub open spec fn best_window(needle: Seq<char>, hay: Seq<char>, count: nat) -> (nat, nat)
    decreases count,
{
    if count == 0 {
        (needle.len(), 0)
    } else {
        let prev = best_window(needle, hay, (count - 1) as nat);
        let start = (count - 1) as int;
        let d = levenshtein_distance(needle, hay.subrange(start, start + needle.len()));
        if d < prev.0 {
            (d, start as nat)
        } else {
            prev
        }
    }
}

/// Number of bytes in the UTF-8 encoding of `s`.
pub open spec fn byte_len(s: Seq<char>) -> nat {
    encode_utf8(s).len()
}

pub proof fn lemma_encode_utf8_concat(a: Seq<char>, b: Seq<char>)
    ensures
        encode_utf8(a + b) == encode_utf8(a) + encode_utf8(b),
    decreases a.len(),
{
    if a.len() == 0 {
        assert(a + b =~= b);
    } else {
        lemma_encode_utf8_concat(a.drop_first(), b);
        assert((a + b).drop_first() =~= a.drop_first() + b);
        assert((a + b)[0] == a[0]);
    }
}

proof fn lemma_byte_len_split(s: Seq<char>, k1: int, k2: int)
    requires
        0 <= k1 <= k2 <= s.len(),
    ensures
        byte_len(s.subrange(0, k1)) + byte_len(s.subrange(k1, k2)) <= byte_len(s),
{
    lemma_encode_utf8_concat(s.subrange(0, k1), s.subrange(k1, k2));
    assert(s.subrange(0, k1) + s.subrange(k1, k2) =~= s.subrange(0, k2));
    lemma_encode_utf8_concat(s.subrange(0, k2), s.subrange(k2, s.len() as int));
    assert(s.subrange(0, k2) + s.subrange(k2, s.len() as int) =~= s);
}

/// The three-word prefix `w[0] + " " + w[1] + " " + w[2]`.
pub open spec fn three_word_prefix(w: Seq<Seq<char>>) -> Seq<char> {
    w[0] + seq![' '] + w[1] + seq![' '] + w[2]
}

/// Where a quoted passage `needle` lies in `content`, as a byte range, found
/// on lower-cased text in three ways, the first that succeeds:
/// 1. the whole needle occurs: its first occurrence;
/// 2. the needle has at least three words and its first three, joined by
///    single spaces, occur: from there for the needle's length in bytes, cut
///    at the end of `content`;
/// 3. the needle has at least five characters and some window of the same
///    number of characters has a normalized Levenshtein similarity
///    `1 - d / len` above `0.6`, that is `5 * d < 2 * len`: the earliest of
///    the closest windows, its character positions turned into byte
///    positions within `content`.
pub open spec fn fuzzy_match(content: Seq<char>, needle: Seq<char>) -> Option<(nat, nat)> {
    fuzzy_match_lowered(content, lowercase(content), lowercase(needle))
}

/// `fuzzy_match` once the excerpt `content` and the passage are lower-cased
/// into `lc` and `ln`; positions are found in `lc` and, for the closest
/// window, converted to byte offsets in `content`.
pub open spec fn fuzzy_match_lowered(content: Seq<char>, lc: Seq<char>, ln: Seq<char>) -> Option<(nat, nat)> {
    let hb = encode_utf8(lc);
    let nb = encode_utf8(ln);
    let ws = words(ln);
    if first_occurrence(hb, nb) is Some {
        let p = first_occurrence(hb, nb)->Some_0;
        Some((p, p + nb.len()))
    } else if ws.len() >= 3 && first_occurrence(hb, encode_utf8(three_word_prefix(ws))) is Some {
        let st = first_occurrence(hb, encode_utf8(three_word_prefix(ws)))->Some_0;
        let end = st + nb.len();
        let limit = byte_len(content);
        Some((st, if end < limit { end } else { limit }))
    } else if ln.len() < 5 || lc.len() < ln.len() {
        None
    } else {
        let w = ln.len();
        let best = best_window(ln, lc, (lc.len() - w + 1) as nat);
        if 5 * best.0 < 2 * w {
            let k1 = if best.1 < content.len() { best.1 } else { content.len() };
            let k2 = if best.1 + w < content.len() { best.1 + w } else { content.len() };
            let b1 = byte_len(content.subrange(0, k1 as int));
            Some((b1, b1 + byte_len(content.subrange(k1 as int, k2 as int))))
        } else {
            None
        }
    }
}

fn prefix_bytes(words: &Vec<Vec<char>>) -> (s: String)
    requires
        words@.len() >= 3,
    ensures
        s@ == three_word_prefix(words@.map_values(|w: Vec<char>| w@)),
{
    let ghost ws = words@.map_values(|w: Vec<char>| w@);
    let mut s = string_of_chars(&words[0], 0, words[0].len());
    push_char(&mut s, ' ');
    let s1 = string_of_chars(&words[1], 0, words[1].len());
    s.append(s1.as_str());
    push_char(&mut s, ' ');
    let s2 = string_of_chars(&words[2], 0, words[2].len());
    s.append(s2.as_str());
    assert(words[0]@.subrange(0, words[0]@.len() as int) =~= ws[0]);
    assert(words[1]@.subrange(0, words[1]@.len() as int) =~= ws[1]);
    assert(words[2]@.subrange(0, words[2]@.len() as int) =~= ws[2]);
    assert(s@ =~= three_word_prefix(ws));
    s
}

/// Finds, among the windows of `hay` as long as `needle`, the earliest
/// closest one.
fn closest_window(needle: &str, needle_len: usize, hay: &Vec<char>) -> (r: (usize, usize))
    requires
        needle@.len() == needle_len,
        1 <= needle_len <= hay@.len(),
    ensures
        r.0 as nat == best_window(needle@, hay@, (hay@.len() - needle_len + 1) as nat).0,
        r.1 as nat == best_window(needle@, hay@, (hay@.len() - needle_len + 1) as nat).1,
{
    let count = hay.len() - needle_len + 1;
    let mut best_d: usize = needle_len;
    let mut best_start: usize = 0;
    let mut start: usize = 0;
    while start < count
        invariant
            start <= count,
            count == hay@.len() - needle_len + 1,
            needle@.len() == needle_len,
            1 <= needle_len <= hay@.len(),
            hay@.len() == hay.len(),
            best_d as nat == best_window(needle@, hay@, start as nat).0,
            best_start as nat == best_window(needle@, hay@, start as nat).1,
        decreases count - start,
    {
        let window = string_of_chars(hay, start, start + needle_len);
        let d = levenshtein(needle, window.as_str());
        if d < best_d {
            best_d = d;
            best_start = start;
        }
        start = start + 1;
    }
    (best_d, best_start)
}

/// Locates a quoted passage in a knowledge-base excerpt; see `fuzzy_match`.
pub fn fuzzy_find(content: &str, needle: &str) -> (r: Option<(usize, usize)>)
    ensures
        match (r, fuzzy_match(content@, needle@)) {
            (Some(p), Some(q)) => p.0 as nat == q.0 && p.1 as nat == q.1,
            (None, None) => true,
            _ => false,
        },
{
    let lower_content = to_lowercase(content);
    let lower_needle = to_lowercase(needle);
    fuzzy_find_lowered(content, lower_content.as_str(), lower_needle.as_str())
}

/// Locates a passage, already lower-cased into `lower_needle`, in the
/// excerpt `content`, lower-cased into `lower_content`; see
/// `fuzzy_match_lowered`.
pub fn fuzzy_find_lowered(content: &str, lower_content: &str, lower_needle: &str) -> (r: Option<(usize, usize)>)
    ensures
        match (r, fuzzy_match_lowered(content@, lower_content@, lower_needle@)) {
            (Some(p), Some(q)) => p.0 as nat == q.0 && p.1 as nat == q.1,
            (None, None) => true,
            _ => false,
        },
{
    let hb = lower_content.as_bytes();
    let nb = lower_needle.as_bytes();
    let content_len = content.as_bytes().len();
    let hb_len = hb.len();
    assert(hb_len == hb@.len());

    // 1. The whole needle.
    match find_bytes(hb, nb) {
        Some(pos) => {
            return Some((pos, pos + nb.len()));
        },
        None => {},
    }

    // 2. Its first three words.
    let needle_chars = chars_of(lower_needle);
    let words = split_words(&needle_chars);
    if words.len() >= 3 {
        let prefix = prefix_bytes(&words);
        match find_bytes(hb, prefix.as_str().as_bytes()) {
            Some(start) => {
                let end = if start >= content_len || nb.len() > content_len - start {
                    content_len
                } else {
                    start + nb.len()
                };
                return Some((start, end));
            },
            None => {},
        }
    }

    // 3. The closest window of the same length.
    let content_chars = chars_of(lower_content);
    let window_len = needle_chars.len();
    if window_len < 5 || content_chars.len() < window_len {
        return None;
    }
    let (best_d, best_start) = closest_window(lower_needle, window_len, &content_chars);
    if (best_d as u128) * 5 < (window_len as u128) * 2 {
        let n = content.unicode_len();
        let k1 = if best_start < n { best_start } else { n };
        let k2 = if best_start < n && window_len < n - best_start { best_start + window_len } else { n };
        let head = content.substring_char(0, k1);
        let body = content.substring_char(k1, k2);
        let b1 = head.as_bytes().len();
        let b2 = body.as_bytes().len();
        proof {
            lemma_byte_len_split(content@, k1 as int, k2 as int);
        }
        return Some((b1, b1 + b2));
    }
    None
}

/// A located passage lies within the excerpt: whenever lower-casing did not
/// make the excerpt longer in bytes (as for ASCII text), a range found for it
/// starts no later than it ends and ends within the excerpt's bytes. In
/// particular a range found from the passage's first words is cut at the end
/// of the excerpt.
pub proof fn lemma_fuzzy_range_within_content(content: Seq<char>, lc: Seq<char>, ln: Seq<char>)
    requires
        byte_len(lc) <= byte_len(content),
    ensures
        fuzzy_match_lowered(content, lc, ln) matches Some((start, end)) ==> start <= end <= byte_len(
            content,
        ),
{
    let hb = encode_utf8(lc);
    let nb = encode_utf8(ln);
    let ws = words(ln);
    lemma_first_occurrence_bound(hb, nb, 0);
    if ws.len() >= 3 {
        lemma_first_occurrence_bound(hb, encode_utf8(three_word_prefix(ws)), 0);
    }
    if ln.len() >= 5 && lc.len() >= ln.len() {
        let w = ln.len();
        let best = best_window(ln, lc, (lc.len() - w + 1) as nat);
        let k1 = if best.1 < content.len() { best.1 } else { content.len() };
        let k2 = if best.1 + w < content.len() { best.1 + w } else { content.len() };
        lemma_byte_len_split(content, k1 as int, k2 as int);
    }
}

/// The same for `fuzzy_find` itself: when lower-casing the excerpt does not
/// make it longer in bytes, every range it returns lies within the excerpt.
pub proof fn lemma_fuzzy_find_range_within_content(content: Seq<char>, needle: Seq<char>)
    requires
        byte_len(lowercase(content)) <= byte_len(content),
    ensures
        fuzzy_match(content, needle) matches Some((start, end)) ==> start <= end <= byte_len(content),
{
    lemma_fuzzy_range_within_content(content, lowercase(content), lowercase(needle));
}

} // verus!
