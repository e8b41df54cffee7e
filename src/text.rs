//! Whitespace and trimming of captured text.

use vstd::prelude::*;
use vstd::std_specs::iter::IteratorSpec;

verus! {

/// The characters with the Unicode `White_Space` property.
pub open spec fn is_white(c: char) -> bool {
    ||| ('\u{9}' <= c && c <= '\u{d}')
    ||| c == ' '
    ||| c == '\u{85}'
    ||| c == '\u{a0}'
    ||| c == '\u{1680}'
    ||| ('\u{2000}' <= c && c <= '\u{200a}')
    ||| c == '\u{2028}'
    ||| c == '\u{2029}'
    ||| c == '\u{202f}'
    ||| c == '\u{205f}'
    ||| c == '\u{3000}'
}

/// ASCII whitespace: space, tab, line feed, form feed, carriage return.
pub open spec fn is_ascii_white(c: char) -> bool {
    c == ' ' || c == '\t' || c == '\n' || c == '\u{c}' || c == '\r'
}

/// `r` is `s` with its leading and trailing whitespace removed: a
/// contiguous piece of `s` with only whitespace outside it, which neither
/// starts nor ends with whitespace.
pub open spec fn is_trim_of(r: Seq<char>, s: Seq<char>) -> bool {
    &&& exists|a: int, b: int|
        #![trigger s.subrange(a, b)]
        0 <= a <= b <= s.len() && r == s.subrange(a, b) && (forall|k: int|
            0 <= k < a ==> is_white(#[trigger] s[k])) && (forall|k: int|
            b <= k < s.len() ==> is_white(#[trigger] s[k]))
    &&& r.len() > 0 ==> !is_white(r[0]) && !is_white(r[r.len() - 1])
}

/// Whether `c` is a whitespace character.
pub fn is_whitespace_char(c: char) -> (r: bool)
    ensures
        r == is_white(c),
{
    ('\u{9}' <= c && c <= '\u{d}') || c == ' ' || c == '\u{85}' || c == '\u{a0}' || c
        == '\u{1680}' || ('\u{2000}' <= c && c <= '\u{200a}') || c == '\u{2028}' || c
        == '\u{2029}' || c == '\u{202f}' || c == '\u{205f}' || c == '\u{3000}'
}

/// Whether `c` is an ASCII whitespace character.
pub fn is_ascii_whitespace_char(c: char) -> (r: bool)
    ensures
        r == is_ascii_white(c),
{
    c == ' ' || c == '\t' || c == '\n' || c == '\u{c}' || c == '\r'
}

/// The characters of `s`, in order.
pub fn chars_of(s: &str) -> (r: Vec<char>)
    ensures
        r@ == s@,
{
    let mut out: Vec<char> = Vec::new();
    let mut it = s.chars();
    loop
        invariant
            it.obeys_prophetic_iter_laws(),
            out@ + it.remaining() == s@,
            it.decrease() is Some,
        ensures
            out@ == s@,
        decreases it.decrease()->0,
    {
        match it.next() {
            Some(c) => {
                out.push(c);
            },
            None => {
                assert(out@ + it.remaining() =~= out@);
                break;
            },
        }
    }
    out
}

/// `s` with leading and trailing whitespace removed; the whitespace inside
/// is kept as it is.
pub fn trim_whitespace(s: &str) -> (r: String)
    ensures
        is_trim_of(r@, s@),
{
    let cs = chars_of(s);
    let n = cs.len();
    let mut a: usize = 0;
    while a < n && is_whitespace_char(cs[a])
        invariant
            cs@ == s@,
            n == cs@.len(),
            a <= n,
            forall|k: int| 0 <= k < a ==> is_white(#[trigger] s@[k]),
        decreases n - a,
    {
        a = a + 1;
    }
    let mut b: usize = n;
    while b > a && is_whitespace_char(cs[b - 1])
        invariant
            cs@ == s@,
            n == cs@.len(),
            a <= b <= n,
            forall|k: int| b <= k < n ==> is_white(#[trigger] s@[k]),
        decreases b,
    {
        b = b - 1;
    }
    let r = String::from_str(s.substring_char(a, b));
    assert(r@ == s@.subrange(a as int, b as int));
    r
}

/// Trimming leaves nothing to trim: the trimmed text neither starts nor
/// ends with whitespace, and trimming it again gives it back unchanged.
pub proof fn lemma_trim_idempotent(r: Seq<char>, s: Seq<char>)
    requires
        is_trim_of(r, s),
    ensures
        r.len() > 0 ==> !is_white(r[0]) && !is_white(r[r.len() - 1]),
        is_trim_of(r, r),
{
    assert(r == r.subrange(0, r.len() as int));
}

/// The trimmed text is determined by the raw text: two trims of the same
/// text are equal.
pub proof fn lemma_trim_unique(r1: Seq<char>, r2: Seq<char>, s: Seq<char>)
    requires
        is_trim_of(r1, s),
        is_trim_of(r2, s),
    ensures
        r1 == r2,
{
    let (a1, b1) = choose|a: int, b: int|
        #![trigger s.subrange(a, b)]
        0 <= a <= b <= s.len() && r1 == s.subrange(a, b) && (forall|k: int|
            0 <= k < a ==> is_white(#[trigger] s[k])) && (forall|k: int|
            b <= k < s.len() ==> is_white(#[trigger] s[k]));
    let (a2, b2) = choose|a: int, b: int|
        #![trigger s.subrange(a, b)]
        0 <= a <= b <= s.len() && r2 == s.subrange(a, b) && (forall|k: int|
            0 <= k < a ==> is_white(#[trigger] s[k])) && (forall|k: int|
            b <= k < s.len() ==> is_white(#[trigger] s[k]));
    if r1.len() > 0 && r2.len() > 0 {
        // each starts at the first non-white character and ends after the last
        assert(r1[0] == s[a1]);
        assert(r2[0] == s[a2]);
        assert(a1 == a2);
        assert(r1[r1.len() - 1] == s[b1 - 1]);
        assert(r2[r2.len() - 1] == s[b2 - 1]);
        assert(b1 == b2);
    } else if r1.len() > 0 {
        assert(r1[0] == s[a1]);
        assert(a2 == b2);
        assert(a1 < a2 || a1 >= b2);
    } else if r2.len() > 0 {
        assert(r2[0] == s[a2]);
        assert(a1 == b1);
        assert(a2 < a1 || a2 >= b1);
    }
}


/// Whether `s` holds a null character.
pub open spec fn has_nul(s: Seq<char>) -> bool {
    exists|i: int| 0 <= i < s.len() && s[i] == '\0'
}

/// Whether `s` holds a null character, which a C string cannot carry.
pub fn contains_nul(s: &str) -> (r: bool)
    ensures
        r == has_nul(s@),
{
    let cs = chars_of(s);
    let mut i: usize = 0;
    while i < cs.len()
        invariant
            cs@ == s@,
            i <= cs@.len(),
            forall|k: int| 0 <= k < i ==> s@[k] != '\0',
        decreases cs@.len() - i,
    {
        if cs[i] == '\0' {
            return true;
        }
        i = i + 1;
    }
    false
}

/// Whether two strings hold the same characters.
pub fn str_equal(s: &str, t: &str) -> (r: bool)
    ensures
        r == (s@ == t@),
{
    let a = chars_of(s);
    let b = chars_of(t);
    if a.len() != b.len() {
        return false;
    }
    let mut i: usize = 0;
    while i < a.len()
        invariant
            a@ == s@,
            b@ == t@,
            a@.len() == b@.len(),
            i <= a@.len(),
            forall|k: int| 0 <= k < i ==> s@[k] == t@[k],
        decreases a@.len() - i,
    {
        if a[i] != b[i] {
            return false;
        }
        i = i + 1;
    }
    assert(s@ =~= t@);
    true
}


/// The words finished so far in `t`, and the word still being read at its
/// end, when `t` is read from left to right.
pub open spec fn word_state(t: Seq<char>) -> (Seq<Seq<char>>, Seq<char>)
    decreases t.len(),
{
    if t.len() == 0 {
        (Seq::empty(), Seq::empty())
    } else {
        let (done, cur) = word_state(t.drop_last());
        let c = t.last();
        if is_ascii_white(c) {
            if cur.len() > 0 {
                (done.push(cur), Seq::empty())
            } else {
                (done, cur)
            }
        } else {
            (done, cur.push(c))
        }
    }
}

/// The maximal runs of characters of `t` that are not ASCII whitespace, in
/// order.
pub open spec fn ascii_words(t: Seq<char>) -> Seq<Seq<char>> {
    let (done, cur) = word_state(t);
    if cur.len() > 0 {
        done.push(cur)
    } else {
        done
    }
}

/// The pieces of `s` that ASCII whitespace separates, without empty ones.
pub fn split_ascii_words(s: &str) -> (r: Vec<String>)
    ensures
        r.deep_view() == ascii_words(s@),
{
    let cs = chars_of(s);
    let n = cs.len();
    let mut r: Vec<String> = Vec::new();
    let mut start: usize = 0;
    let mut in_word = false;
    let mut i: usize = 0;
    while i < n
        invariant
            cs@ == s@,
            n == cs@.len(),
            i <= n,
            start <= i,
            r.deep_view() == word_state(s@.take(i as int)).0,
            word_state(s@.take(i as int)).1 == if in_word {
                s@.subrange(start as int, i as int)
            } else {
                Seq::<char>::empty()
            },
            in_word ==> start < i,
        decreases n - i,
    {
        assert(s@.take(i + 1).drop_last() =~= s@.take(i as int));
        assert(s@.take(i + 1).last() == s@[i as int]);
        if is_ascii_whitespace_char(cs[i]) {
            if in_word {
                let ghost before = r.deep_view();
                r.push(String::from_str(s.substring_char(start, i)));
                assert(r.deep_view() =~= before.push(s@.subrange(start as int, i as int)));
                in_word = false;
            }
        } else {
            if !in_word {
                start = i;
                in_word = true;
                assert(s@.subrange(start as int, i + 1) =~= Seq::<char>::empty().push(s@[i as int]));
            } else {
                assert(s@.subrange(start as int, i + 1) =~= s@.subrange(start as int, i as int).push(
                    s@[i as int],
                ));
            }
        }
        i = i + 1;
    }
    assert(s@.take(n as int) =~= s@);
    if in_word {
        let ghost before = r.deep_view();
        r.push(String::from_str(s.substring_char(start, n)));
        assert(r.deep_view() =~= before.push(s@.subrange(start as int, n as int)));
    }
    r
}

/// `p` is the position of the first ASCII whitespace character of `s`.
pub open spec fn is_first_ascii_white(s: Seq<char>, p: int) -> bool {
    &&& 0 <= p < s.len()
    &&& is_ascii_white(s[p])
    &&& forall|j: int| 0 <= j < p ==> !is_ascii_white(#[trigger] s[j])
}

} // verus!
