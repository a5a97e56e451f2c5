//! Texts as sequences of characters: white space, trimming, words, searching,
//! cutting at a separator, lines and decimal numerals.

use vstd::prelude::*;

verus! {

/// The characters that count as white space: exactly the code points that
/// carry the Unicode `White_Space` property.
pub open spec fn is_space(c: char) -> bool {
    let n = c as u32;
    ||| 0x09 <= n <= 0x0D
    ||| n == 0x20
    ||| n == 0x85
    ||| n == 0xA0
    ||| n == 0x1680
    ||| 0x2000 <= n <= 0x200A
    ||| n == 0x2028
    ||| n == 0x2029
    ||| n == 0x202F
    ||| n == 0x205F
    ||| n == 0x3000
}

/// How many characters at the start of `s` are white space (`space` true) or
/// are not (`space` false), up to the first character of the other sort.
pub open spec fn span(s: Seq<char>, space: bool) -> nat
    decreases s.len(),
{
    if s.len() > 0 && is_space(s[0]) == space {
        1 + span(s.drop_first(), space)
    } else {
        0
    }
}

/// How many characters at the end of `s` are white space (`space` true) or
/// are not (`space` false), back to the last character of the other sort.
pub open spec fn span_back(s: Seq<char>, space: bool) -> nat
    decreases s.len(),
{
    if s.len() > 0 && is_space(s.last()) == space {
        1 + span_back(s.drop_last(), space)
    } else {
        0
    }
}

/// `s` without the white space at its start and at its end.
pub open spec fn trimmed(s: Seq<char>) -> Seq<char> {
    let t = s.skip(span(s, true) as int);
    t.take(t.len() - span_back(t, true))
}

/// The first word of `s`: what stands between the white space at its start
/// and the next white space or the end. Empty where `s` is all white space.
pub open spec fn first_word(s: Seq<char>) -> Seq<char> {
    let t = s.skip(span(s, true) as int);
    t.take(span(t, false) as int)
}

/// A span at the start is the longest stretch of one sort: it has length `k`
/// exactly when the first `k` characters are of that sort and the next is not.
pub proof fn lemma_span(s: Seq<char>, space: bool, k: int)
    requires
        0 <= k <= s.len(),
        forall|j: int| 0 <= j < k ==> is_space(#[trigger] s[j]) == space,
        k < s.len() ==> is_space(s[k]) != space,
    ensures
        span(s, space) == k,
    decreases k,
{
    if k > 0 {
        let t = s.drop_first();
        assert forall|j: int| 0 <= j < k - 1 implies is_space(#[trigger] t[j]) == space by {
            assert(t[j] == s[j + 1]);
        }
        if k < s.len() {
            assert(t[k - 1] == s[k]);
        }
        lemma_span(t, space, k - 1);
    }
}

/// The same for a span at the end.
pub proof fn lemma_span_back(s: Seq<char>, space: bool, k: int)
    requires
        0 <= k <= s.len(),
        forall|j: int| s.len() - k <= j < s.len() ==> is_space(#[trigger] s[j]) == space,
        k < s.len() ==> is_space(s[s.len() - k - 1]) != space,
    ensures
        span_back(s, space) == k,
    decreases k,
{
    if k > 0 {
        let t = s.drop_last();
        assert forall|j: int| t.len() - (k - 1) <= j < t.len() implies is_space(#[trigger] t[j])
            == space by {
            assert(t[j] == s[j]);
        }
        if k < s.len() {
            assert(t[t.len() - (k - 1) - 1] == s[s.len() - k - 1]);
        }
        lemma_span_back(t, space, k - 1);
    }
}

/// A span never exceeds the text, every character in it is of the sort asked
/// for, and the character after it, if any, is not.
pub proof fn lemma_span_bounds(s: Seq<char>, space: bool)
    ensures
        span(s, space) <= s.len(),
        forall|j: int| 0 <= j < span(s, space) ==> is_space(#[trigger] s[j]) == space,
        span(s, space) < s.len() ==> is_space(s[span(s, space) as int]) != space,
    decreases s.len(),
{
    if s.len() > 0 && is_space(s[0]) == space {
        let t = s.drop_first();
        lemma_span_bounds(t, space);
        assert forall|j: int| 0 <= j < span(s, space) implies is_space(#[trigger] s[j])
            == space by {
            if j > 0 {
                assert(s[j] == t[j - 1]);
            }
        }
        if span(s, space) < s.len() {
            assert(s[span(s, space) as int] == t[span(t, space) as int]);
        }
    }
}

/// The same for a span at the end.
pub proof fn lemma_span_back_bounds(s: Seq<char>, space: bool)
    ensures
        span_back(s, space) <= s.len(),
        forall|j: int|
            s.len() - span_back(s, space) <= j < s.len() ==> is_space(#[trigger] s[j]) == space,
        span_back(s, space) < s.len() ==> is_space(s[s.len() - span_back(s, space) - 1]) != space,
    decreases s.len(),
{
    if s.len() > 0 && is_space(s.last()) == space {
        let t = s.drop_last();
        lemma_span_back_bounds(t, space);
        assert forall|j: int| s.len() - span_back(s, space) <= j < s.len() implies is_space(
            #[trigger] s[j],
        ) == space by {
            if j < s.len() - 1 {
                assert(s[j] == t[j]);
            }
        }
        if span_back(s, space) < s.len() {
            assert(s[s.len() - span_back(s, space) - 1] == t[t.len() - span_back(t, space) - 1]);
        }
    }
}

/// A trimmed text neither starts nor ends with white space.
pub proof fn lemma_trimmed_edges(s: Seq<char>)
    ensures
        trimmed(s).len() <= s.len(),
        trimmed(s).len() > 0 ==> !is_space(trimmed(s)[0]) && !is_space(trimmed(s).last()),
{
    lemma_span_bounds(s, true);
    let t = s.skip(span(s, true) as int);
    lemma_span_back_bounds(t, true);
    let r = trimmed(s);
    if r.len() > 0 {
        assert(r[0] == s[span(s, true) as int]);
        assert(r.last() == t[t.len() - span_back(t, true) - 1]);
    }
}

/// A first word holds no white space, so no blank either.
pub proof fn lemma_first_word_has_no_space(s: Seq<char>)
    ensures
        forall|j: int| 0 <= j < first_word(s).len() ==> !is_space(#[trigger] first_word(s)[j]),
        !first_word(s).contains(' '),
{
    lemma_span_bounds(s, true);
    let t = s.skip(span(s, true) as int);
    lemma_span_bounds(t, false);
    let w = first_word(s);
    assert forall|j: int| 0 <= j < w.len() implies !is_space(#[trigger] w[j]) by {
        assert(w[j] == t[j]);
    }
    assert(is_space(' '));
    if w.contains(' ') {
        let j = choose|j: int| 0 <= j < w.len() && w[j] == ' ';
        assert(!is_space(w[j]));
    }
}

/// Tells whether `c` is white space.
pub fn is_space_char(c: char) -> (b: bool)
    ensures
        b == is_space(c),
{
    let n: u32 = c as u32;
    (0x09 <= n && n <= 0x0D) || n == 0x20 || n == 0x85 || n == 0xA0 || n == 0x1680 || (0x2000 <= n
        && n <= 0x200A) || n == 0x2028 || n == 0x2029 || n == 0x202F || n == 0x205F || n == 0x3000
}

/// The characters of a string.
pub fn chars_of(s: &str) -> (v: Vec<char>)
    ensures
        v@ == s@,
{
    let mut v: Vec<char> = Vec::new();
    let it = s.chars();
    for c in iter: it
        invariant
            iter.seq() == s@,
            v@ == iter.seq().take(iter.index() as int),
    {
        v.push(c);
    }
    v
}

/// `String::push` appends one character to the string.
pub assume_specification[ String::push ](s: &mut String, ch: char)
    ensures
        final(s)@ == old(s)@.push(ch),
;

/// The string made of the given characters.
pub fn string_of(v: &Vec<char>) -> (s: String)
    ensures
        s@ == v@,
{
    let mut s = String::new();
    let mut i: usize = 0;
    while i < v.len()
        invariant
            i <= v.len(),
            s@ == v@.take(i as int),
        decreases v.len() - i,
    {
        s.push(v[i]);
        i += 1;
    }
    s
}

/// The characters of `v` from index `from` up to, not including, index `to`.
pub fn slice_of(v: &Vec<char>, from: usize, to: usize) -> (r: Vec<char>)
    requires
        from <= to <= v.len(),
    ensures
        r@ == v@.subrange(from as int, to as int),
{
    let mut r: Vec<char> = Vec::new();
    let mut i: usize = from;
    while i < to
        invariant
            from <= i <= to <= v.len(),
            r@ == v@.subrange(from as int, i as int),
        decreases to - i,
    {
        r.push(v[i]);
        i += 1;
    }
    r
}

/// The index at which the span of one sort that starts at `from` ends.
pub fn span_end(v: &Vec<char>, from: usize, space: bool) -> (end: usize)
    requires
        from <= v.len(),
    ensures
        from <= end <= v.len(),
        end - from == span(v@.skip(from as int), space),
{
    let mut i: usize = from;
    while i < v.len() && is_space_char(v[i]) == space
        invariant
            from <= i <= v.len(),
            forall|j: int| from <= j < i ==> is_space(#[trigger] v@[j]) == space,
        decreases v.len() - i,
    {
        i += 1;
    }
    proof {
        lemma_span(v@.skip(from as int), space, i - from);
    }
    i
}

/// The index at which the span of one sort that ends just before `to` starts,
/// looking no further back than `from`.
pub fn span_start(v: &Vec<char>, from: usize, to: usize, space: bool) -> (start: usize)
    requires
        from <= to <= v.len(),
    ensures
        from <= start <= to,
        to - start == span_back(v@.subrange(from as int, to as int), space),
{
    let mut i: usize = to;
    while i > from && is_space_char(v[i - 1]) == space
        invariant
            from <= i <= to <= v.len(),
            forall|j: int| i <= j < to ==> is_space(#[trigger] v@[j]) == space,
        decreases i,
    {
        i -= 1;
    }
    proof {
        lemma_span_back(v@.subrange(from as int, to as int), space, to - i);
    }
    i
}

/// `v` without the white space at its start and at its end.
pub fn trim(v: &Vec<char>) -> (r: Vec<char>)
    ensures
        r@ == trimmed(v@),
{
    let a = span_end(v, 0, true);
    let b = span_start(v, a, v.len(), true);
    proof {
        assert(v@.skip(0) == v@);
        assert(v@.subrange(a as int, v.len() as int) == v@.skip(a as int));
        assert(v@.subrange(a as int, b as int) == v@.skip(a as int).take(b - a));
    }
    slice_of(v, a, b)
}

/// The first word of `v`.
pub fn first_token(v: &Vec<char>) -> (r: Vec<char>)
    ensures
        r@ == first_word(v@),
{
    let a = span_end(v, 0, true);
    let b = span_end(v, a, false);
    proof {
        assert(v@.skip(0) == v@);
        assert(v@.subrange(a as int, b as int) == v@.skip(a as int).take(b - a));
    }
    slice_of(v, a, b)
}

/// The character that writes the digit `d`.
pub open spec fn digit_of(d: nat) -> char {
    (d + 48) as char
}

/// The decimal numeral of `n`, without leading zeros.
pub open spec fn decimal_of(n: nat) -> Seq<char>
    decreases n,
{
    if n < 10 {
        seq![digit_of(n)]
    } else {
        decimal_of(n / 10).push(digit_of(n % 10))
    }
}

/// What `str::to_lowercase` makes of a text: its lower-case form as Unicode
/// defines it.
pub uninterp spec fn lowercase_of(s: Seq<char>) -> Seq<char>;

/// `str::to_lowercase` returns the lower-case form of the text, which depends
/// on the text alone.
pub assume_specification[ str::to_lowercase ](s: &str) -> (r: String)
    ensures
        r@ == lowercase_of(s@),
;

/// The lower-case form of `v`.
pub fn lowercase(v: &Vec<char>) -> (r: Vec<char>)
    ensures
        r@ == lowercase_of(v@),
{
    let s = string_of(v);
    let low = s.as_str().to_lowercase();
    chars_of(low.as_str())
}

/// The decimal numeral of `n`.
pub fn decimal(n: usize) -> (r: Vec<char>)
    ensures
        r@ == decimal_of(n as nat),
    decreases n,
{
    let d: u8 = (n % 10) as u8;
    let c: char = (d + 48) as char;
    if n < 10 {
        let mut r: Vec<char> = Vec::new();
        r.push(c);
        assert(r@ =~= seq![digit_of(n as nat)]);
        r
    } else {
        let mut r = decimal(n / 10);
        r.push(c);
        r
    }
}

/// Appends the characters of `v` to `s`.
pub fn push_all(s: &mut String, v: &Vec<char>)
    ensures
        final(s)@ == old(s)@ + v@,
{
    let mut i: usize = 0;
    while i < v.len()
        invariant
            i <= v.len(),
            s@ == old(s)@ + v@.take(i as int),
        decreases v.len() - i,
    {
        s.push(v[i]);
        proof {
            assert(v@.take(i + 1) =~= v@.take(i as int).push(v@[i as int]));
            assert(s@ =~= old(s)@ + v@.take(i + 1));
        }
        i += 1;
    }
    proof {
        assert(v@.take(v.len() as int) =~= v@);
    }
}

/// Tells whether `v` starts with `prefix`.
pub fn starts_with(v: &Vec<char>, prefix: &Vec<char>) -> (b: bool)
    ensures
        b == prefix@.is_prefix_of(v@),
{
    if prefix.len() > v.len() {
        return false;
    }
    let mut k: usize = 0;
    while k < prefix.len()
        invariant
            k <= prefix.len() <= v.len(),
            forall|j: int| 0 <= j < k ==> v@[j] == prefix@[j],
        decreases prefix.len() - k,
    {
        if v[k] != prefix[k] {
            proof {
                assert(v@.subrange(0, prefix.len() as int)[k as int] == v@[k as int]);
            }
            return false;
        }
        k += 1;
    }
    assert(v@.subrange(0, prefix.len() as int) =~= prefix@);
    true
}

} // verus!
