//! Character and string primitives shared by the parser and the engine.

use vstd::prelude::*;

verus! {

/// The characters that Unicode classes as `White_Space`.
pub open spec fn is_whitespace(c: char) -> bool {
    let n = c as u32;
    ||| 0x09 <= n <= 0x0D
    ||| n == 0x20
    ||| n == 0x85
    ||| n == 0xA0
    ||| n == 0x1680
    ||| 0x2000 <= n <= 0x200A
    ||| n == 0x2028
    ||| n == 0x2029
    ||| n == 0x202F
    ||| n == 0x205F
    ||| n == 0x3000
}

/// The number of characters from position `i` up to the next whitespace
/// or the end of `s`.
pub open spec fn word_len(s: Seq<char>, i: int) -> nat
    decreases s.len() - i,
{
    if 0 <= i < s.len() && !is_whitespace(s[i]) {
        1 + word_len(s, i + 1)
    } else {
        0
    }
}

/// The words of `s` that start at or after `i`: the maximal runs of
/// characters that are not whitespace, in the order in which they occur.
pub open spec fn words_from(s: Seq<char>, i: int) -> Seq<Seq<char>>
    decreases s.len() - i,
    via words_from_decreases
{
    if !(0 <= i < s.len()) {
        Seq::empty()
    } else if is_whitespace(s[i]) {
        words_from(s, i + 1)
    } else {
        let end = i + 1 + word_len(s, i + 1);
        seq![s.subrange(i, end)] + words_from(s, end)
    }
}

#[via_fn]
proof fn words_from_decreases(s: Seq<char>, i: int) {
    if 0 <= i < s.len() {
        lemma_word_len(s, i + 1);
    }
}

/// The words of `s`: what is left when it is split on whitespace.
pub open spec fn words(s: Seq<char>) -> Seq<Seq<char>> {
    words_from(s, 0)
}

/// The views of a sequence of strings.
pub open spec fn views(v: Seq<String>) -> Seq<Seq<char>> {
    Seq::new(v.len(), |i: int| v[i]@)
}

/// A word ends inside `s`, holds no whitespace, and is followed by
/// whitespace or by the end of `s`.
pub proof fn lemma_word_len(s: Seq<char>, i: int)
    requires
        0 <= i <= s.len(),
    ensures
        i + word_len(s, i) <= s.len(),
        i + word_len(s, i) < s.len() ==> is_whitespace(s[i + word_len(s, i)]),
        forall|j: int| i <= j < i + word_len(s, i) ==> !is_whitespace(#[trigger] s[j]),
    decreases s.len() - i,
{
    if i < s.len() && !is_whitespace(s[i]) {
        lemma_word_len(s, i + 1);
    }
}

/// Whether `c` is whitespace.
pub fn is_space(c: char) -> (b: bool)
    ensures
        b == is_whitespace(c),
{
    let n: u32 = c as u32;
    (0x09 <= n && n <= 0x0D) || n == 0x20 || n == 0x85 || n == 0xA0 || n == 0x1680 || (0x2000 <= n
        && n <= 0x200A) || n == 0x2028 || n == 0x2029 || n == 0x202F || n == 0x205F || n == 0x3000
}

/// The characters of `s`, one element each.
pub fn chars_of(s: &str) -> (v: Vec<char>)
    ensures
        v@ == s@,
{
    let mut v: Vec<char> = Vec::new();
    for c in it: s.chars()
        invariant
            v@ == it.seq().take(it.index()),
            it.seq() == s@,
    {
        v.push(c);
    }
    v
}

/// Splits `s` on whitespace into its words.
pub fn split_whitespace(s: &str) -> (out: Vec<String>)
    ensures
        views(out@) == words(s@),
{
    let chars = chars_of(s);
    let n = chars.len();
    let mut out: Vec<String> = Vec::new();
    let mut i: usize = 0;
    while i < n
        invariant
            chars@ == s@,
            n == chars.len(),
            i <= n,
            views(out@) + words_from(s@, i as int) == words(s@),
        decreases n - i,
    {
        if is_space(chars[i]) {
            i += 1;
        } else {
            let start = i;
            i += 1;
            while i < n && !is_space(chars[i])
                invariant
                    chars@ == s@,
                    n == chars.len(),
                    start < i <= n,
                    i + word_len(s@, i as int) == start + 1 + word_len(s@, start + 1),
                decreases n - i,
            {
                i += 1;
            }
            let word = s.substring_char(start, i).to_owned();
            proof {
                let before = views(out@);
                let rest = words_from(s@, i as int);
                assert(views(out@.push(word)) =~= before + seq![word@]);
                assert((before + seq![word@]) + rest =~= before + (seq![word@] + rest));
            }
            out.push(word);
        }
    }
    proof {
        assert(views(out@) + Seq::<Seq<char>>::empty() =~= views(out@));
    }
    out
}

/// What `str::to_lowercase` returns for a string: its Unicode lowercase
/// equivalent.
pub uninterp spec fn lowercase(s: Seq<char>) -> Seq<char>;

/// The lowercase equivalent of `s`, computed by `str::to_lowercase` of the
/// standard library. The mapping follows the Unicode tables and is not
/// restated here: the result is only known by its name, `lowercase`.
#[verifier::external_body]
pub(crate) fn to_lowercase(s: &str) -> (out: String)
    ensures
        out@ == lowercase(s@),
{
    s.to_lowercase()
}

/// Whether `needle` stands in `haystack` from position `i` on.
pub open spec fn occurs_at(needle: Seq<char>, haystack: Seq<char>, i: int) -> bool {
    0 <= i && i + needle.len() <= haystack.len() && haystack.subrange(i, i + needle.len())
        == needle
}

/// Whether `needle` occurs in `haystack` as a contiguous run of characters.
/// The empty text occurs in every text.
pub open spec fn is_substring(needle: Seq<char>, haystack: Seq<char>) -> bool {
    exists|i: int| occurs_at(needle, haystack, i)
}

/// Whether the characters of `needle` stand in `haystack` from position `at`.
fn matches_at(haystack: &Vec<char>, needle: &Vec<char>, at: usize) -> (b: bool)
    requires
        at + needle.len() <= haystack.len(),
    ensures
        b == occurs_at(needle@, haystack@, at as int),
{
    let mut j: usize = 0;
    while j < needle.len()
        invariant
            at + needle.len() <= haystack.len(),
            j <= needle.len(),
            forall|k: int| 0 <= k < j ==> haystack@[at + k] == needle@[k],
        decreases needle.len() - j,
    {
        if haystack[at + j] != needle[j] {
            proof {
                let sub = haystack@.subrange(at as int, at + needle.len());
                assert(sub[j as int] == haystack@[at + j]);
            }
            return false;
        }
        j += 1;
    }
    proof {
        assert(haystack@.subrange(at as int, at + needle.len()) =~= needle@);
    }
    true
}

/// Whether `needle` occurs somewhere in `haystack`.
pub fn contains(haystack: &str, needle: &str) -> (b: bool)
    ensures
        b == is_substring(needle@, haystack@),
{
    let hay = chars_of(haystack);
    let pat = chars_of(needle);
    if pat.len() == 0 {
        proof {
            assert(haystack@.subrange(0, 0) =~= needle@);
            assert(occurs_at(needle@, haystack@, 0));
        }
        return true;
    }
    let mut i: usize = 0;
    while i < hay.len() && pat.len() <= hay.len() - i
        invariant
            hay@ == haystack@,
            pat@ == needle@,
            pat.len() > 0,
            i <= hay.len(),
            forall|k: int| 0 <= k < i ==> !occurs_at(needle@, haystack@, k),
        decreases hay.len() - i,
    {
        if matches_at(&hay, &pat, i) {
            return true;
        }
        i += 1;
    }
    false
}

/// Whether `a` and `b` hold the same characters.
pub fn same_text(a: &str, b: &str) -> (r: bool)
    ensures
        r == (a@ == b@),
{
    let left = chars_of(a);
    let right = chars_of(b);
    if left.len() != right.len() {
        return false;
    }
    let mut i: usize = 0;
    while i < left.len()
        invariant
            left@ == a@,
            right@ == b@,
            left.len() == right.len(),
            i <= left.len(),
            forall|k: int| 0 <= k < i ==> left@[k] == right@[k],
        decreases left.len() - i,
    {
        if left[i] != right[i] {
            return false;
        }
        i += 1;
    }
    proof {
        assert(a@ =~= b@);
    }
    true
}

/// The parts of a list, written one after the other with `sep` between them.
pub open spec fn joined(parts: Seq<Seq<char>>, sep: Seq<char>) -> Seq<char>
    decreases parts.len(),
{
    if parts.len() == 0 {
        Seq::empty()
    } else if parts.len() == 1 {
        parts[0]
    } else {
        joined(parts.drop_last(), sep) + sep + parts.last()
    }
}

/// Writes `parts` one after the other with `sep` between them.
pub fn join(parts: &Vec<String>, sep: &str) -> (out: String)
    ensures
        out@ == joined(views(parts@), sep@),
{
    let mut out = String::new();
    let mut i: usize = 0;
    while i < parts.len()
        invariant
            i <= parts.len(),
            out@ == joined(views(parts@).take(i as int), sep@),
        decreases parts.len() - i,
    {
        proof {
            let all = views(parts@);
            assert(all.take(i + 1).drop_last() =~= all.take(i as int));
            assert(all.take(i + 1).last() == parts@[i as int]@);
            if i == 0 {
                assert(out@ + parts@[0]@ =~= parts@[0]@);
            }
        }
        if i > 0 {
            out.append(sep);
        }
        out.append(parts[i].as_str());
        i += 1;
    }
    proof {
        assert(views(parts@).take(parts.len() as int) =~= views(parts@));
    }
    out
}

/// The position of the first character at or after `i` that is not
/// whitespace, or the length of `s` when there is none.
pub open spec fn text_start(s: Seq<char>, i: int) -> int
    decreases s.len() - i,
{
    if 0 <= i < s.len() && is_whitespace(s[i]) {
        text_start(s, i + 1)
    } else {
        i
    }
}

/// The position just after the last character before `j` that is not
/// whitespace, or 0 when there is none.
pub open spec fn text_end(s: Seq<char>, j: int) -> int
    decreases j,
{
    if 0 < j <= s.len() && is_whitespace(s[j - 1]) {
        text_end(s, j - 1)
    } else {
        j
    }
}

/// `s` without the whitespace at its two ends.
pub open spec fn trimmed(s: Seq<char>) -> Seq<char> {
    let start = text_start(s, 0);
    let end = text_end(s, s.len() as int);
    if start < end {
        s.subrange(start, end)
    } else {
        Seq::empty()
    }
}

/// `s` without the whitespace at its two ends.
pub fn trim(s: &str) -> (out: String)
    ensures
        out@ == trimmed(s@),
{
    let chars = chars_of(s);
    let mut start: usize = 0;
    while start < chars.len() && is_space(chars[start])
        invariant
            chars@ == s@,
            start <= chars.len(),
            text_start(s@, 0) == text_start(s@, start as int),
        decreases chars.len() - start,
    {
        start += 1;
    }
    let mut end: usize = chars.len();
    while end > 0 && is_space(chars[end - 1])
        invariant
            chars@ == s@,
            end <= chars.len(),
            text_end(s@, s@.len() as int) == text_end(s@, end as int),
        decreases end,
    {
        end -= 1;
    }
    if start < end {
        s.substring_char(start, end).to_owned()
    } else {
        String::new()
    }
}

} // verus!
