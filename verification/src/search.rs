//! Finding one text in another, cutting a text at a separator, and cutting it
//! into lines.

use vstd::prelude::*;
use crate::text::slice_of;

verus! {

/// `pat` stands in `s` at index `i`.
pub open spec fn starts_at(s: Seq<char>, pat: Seq<char>, i: int) -> bool {
    &&& 0 <= i
    &&& i + pat.len() <= s.len()
    &&& s.subrange(i, i + pat.len()) == pat
}

/// `pat` stands somewhere in `s`.
pub open spec fn occurs(s: Seq<char>, pat: Seq<char>) -> bool {
    exists|i: int| starts_at(s, pat, i)
}

/// The first index at or after `from` at which `pat` stands in `s`.
pub open spec fn find_from(s: Seq<char>, pat: Seq<char>, from: int) -> Option<int>
    decreases s.len() + 1 - from,
{
    if from < 0 || from + pat.len() > s.len() {
        None
    } else if starts_at(s, pat, from) {
        Some(from)
    } else {
        find_from(s, pat, from + 1)
    }
}

/// An occurrence of `pat` at index `i` lies in what `s` holds from index
/// `from` on. This holds of whatever `find_from` finds from there.
pub open spec fn within(s: Seq<char>, pat: Seq<char>, from: int, i: int) -> bool {
    from <= i && i + pat.len() <= s.len()
}

/// The pieces into which the occurrences of `sep` cut what `s` holds from
/// index `from` on. The occurrences are taken from the left and do not
/// overlap; a piece may be empty. An empty separator cuts nowhere.
pub open spec fn pieces_from(s: Seq<char>, sep: Seq<char>, from: int) -> Seq<Seq<char>>
    decreases s.len() - from,
{
    let found = find_from(s, sep, from);
    if 0 <= from <= s.len() && sep.len() > 0 && found is Some && within(s, sep, from, found->0) {
        seq![s.subrange(from, found->0)] + pieces_from(s, sep, found->0 + sep.len())
    } else if 0 <= from <= s.len() {
        seq![s.subrange(from, s.len() as int)]
    } else {
        seq![]
    }
}

/// The pieces into which the occurrences of `sep` cut `s`.
pub open spec fn pieces(s: Seq<char>, sep: Seq<char>) -> Seq<Seq<char>> {
    pieces_from(s, sep, 0)
}

/// The line feed as a text of one character.
pub open spec fn line_feed() -> Seq<char> {
    seq!['\n']
}

/// `line` without one carriage return at its end.
pub open spec fn without_return(line: Seq<char>) -> Seq<char> {
    if line.len() > 0 && line.last() == '\r' {
        line.drop_last()
    } else {
        line
    }
}

/// The lines of what `s` holds from index `from` on. A line ends with a line
/// feed, or with a carriage return and a line feed, neither of which belongs
/// to it; the last line may end with the text instead. Nothing follows the
/// last line ending, so a text that ends with one has no empty last line.
pub open spec fn lines_from(s: Seq<char>, from: int) -> Seq<Seq<char>>
    decreases s.len() - from,
{
    let found = find_from(s, line_feed(), from);
    if from < 0 || from >= s.len() {
        seq![]
    } else if found is Some && within(s, line_feed(), from, found->0) {
        seq![without_return(s.subrange(from, found->0))] + lines_from(s, found->0 + 1)
    } else {
        seq![s.subrange(from, s.len() as int)]
    }
}

/// The lines of `s`.
pub open spec fn lines_of(s: Seq<char>) -> Seq<Seq<char>> {
    lines_from(s, 0)
}

/// What each vector of a list holds.
pub open spec fn texts(list: Seq<Vec<char>>) -> Seq<Seq<char>> {
    list.map_values(|v: Vec<char>| v@)
}

/// What `find_from` finds is the first occurrence at or after `from`, and it
/// finds nothing only where there is none.
pub proof fn lemma_find_from(s: Seq<char>, pat: Seq<char>, from: int)
    requires
        0 <= from,
    ensures
        match find_from(s, pat, from) {
            Some(i) => from <= i && starts_at(s, pat, i) && forall|j: int|
                from <= j < i ==> !starts_at(s, pat, j),
            None => forall|j: int| from <= j ==> !starts_at(s, pat, j),
        },
    decreases s.len() + 1 - from,
{
    if from + pat.len() > s.len() {
    } else if starts_at(s, pat, from) {
    } else {
        lemma_find_from(s, pat, from + 1);
    }
}

/// `pat` occurs in `s` exactly when a search from the start finds it.
pub proof fn lemma_occurs(s: Seq<char>, pat: Seq<char>)
    ensures
        occurs(s, pat) <==> find_from(s, pat, 0) is Some,
{
    lemma_find_from(s, pat, 0);
    if occurs(s, pat) {
        let i = choose|i: int| starts_at(s, pat, i);
        assert(starts_at(s, pat, i));
    }
}

/// The pieces with the separator put back between them.
pub open spec fn joined(parts: Seq<Seq<char>>, sep: Seq<char>) -> Seq<char>
    decreases parts.len(),
{
    if parts.len() == 0 {
        seq![]
    } else if parts.len() == 1 {
        parts[0]
    } else {
        parts[0] + sep + joined(parts.drop_first(), sep)
    }
}

/// Cutting loses nothing: there is at least one piece, and the pieces with
/// the separator put back between them are the text that was cut.
pub proof fn lemma_pieces_rejoin(s: Seq<char>, sep: Seq<char>, from: int)
    requires
        0 <= from <= s.len(),
    ensures
        pieces_from(s, sep, from).len() >= 1,
        joined(pieces_from(s, sep, from), sep) == s.skip(from),
    decreases s.len() - from,
{
    let found = find_from(s, sep, from);
    if sep.len() > 0 && found is Some && within(s, sep, from, found->0) {
        let i = found->0;
        let rest = pieces_from(s, sep, i + sep.len());
        lemma_find_from(s, sep, from);
        lemma_pieces_rejoin(s, sep, i + sep.len());
        let all = pieces_from(s, sep, from);
        assert(all.drop_first() =~= rest);
        assert(all[0] == s.subrange(from, i));
        assert(s.subrange(from, i) + sep + s.skip(i + sep.len()) =~= s.skip(from)) by {
            assert(s.subrange(i, i + sep.len()) == sep);
            assert forall|k: int| 0 <= k < sep.len() implies sep[k] == s[i + k] by {
                assert(s.subrange(i, i + sep.len())[k] == s[i + k]);
            }
        }
    }
}

/// No piece holds the separator: the cuts are made at the first occurrence
/// after each cut, so none is left between two cuts or after the last.
pub proof fn lemma_pieces_hold_no_separator(s: Seq<char>, sep: Seq<char>, from: int)
    requires
        0 <= from <= s.len(),
        sep.len() > 0,
    ensures
        forall|k: int|
            0 <= k < pieces_from(s, sep, from).len() ==> !occurs(
                #[trigger] pieces_from(s, sep, from)[k],
                sep,
            ),
    decreases s.len() - from,
{
    let found = find_from(s, sep, from);
    let all = pieces_from(s, sep, from);
    lemma_find_from(s, sep, from);
    if found is Some && within(s, sep, from, found->0) {
        let i = found->0;
        lemma_pieces_hold_no_separator(s, sep, i + sep.len());
        let first = s.subrange(from, i);
        assert(!occurs(first, sep)) by {
            if occurs(first, sep) {
                let j = choose|j: int| starts_at(first, sep, j);
                assert(first.subrange(j, j + sep.len()) =~= s.subrange(
                    from + j,
                    from + j + sep.len(),
                ));
                assert(starts_at(s, sep, from + j));
            }
        }
        assert forall|k: int| 0 <= k < all.len() implies !occurs(#[trigger] all[k], sep) by {
            if k > 0 {
                assert(all[k] == pieces_from(s, sep, i + sep.len())[k - 1]);
            }
        }
    } else {
        let last = s.subrange(from, s.len() as int);
        assert(!occurs(last, sep)) by {
            if occurs(last, sep) {
                let j = choose|j: int| starts_at(last, sep, j);
                assert(last.subrange(j, j + sep.len()) =~= s.subrange(
                    from + j,
                    from + j + sep.len(),
                ));
                assert(starts_at(s, sep, from + j));
            }
        }
        assert(all =~= seq![last]);
    }
}

/// A text has no lines exactly when it is empty.
pub proof fn lemma_no_lines(s: Seq<char>)
    ensures
        lines_of(s).len() == 0 <==> s.len() == 0,
{
}

/// No line holds a line feed.
pub proof fn lemma_lines_hold_no_feed(s: Seq<char>, from: int)
    requires
        0 <= from,
    ensures
        forall|k: int|
            0 <= k < lines_from(s, from).len() ==> !(#[trigger] lines_from(s, from)[k]).contains(
                '\n',
            ),
    decreases s.len() - from,
{
    let found = find_from(s, line_feed(), from);
    let all = lines_from(s, from);
    lemma_find_from(s, line_feed(), from);
    if from >= s.len() {
    } else if found is Some && within(s, line_feed(), from, found->0) {
        let i = found->0;
        lemma_lines_hold_no_feed(s, i + 1);
        let whole = s.subrange(from, i);
        let first = without_return(whole);
        assert(!first.contains('\n')) by {
            if first.contains('\n') {
                let j = choose|j: int| 0 <= j < first.len() && first[j] == '\n';
                assert(first[j] == s[from + j]);
                assert(s.subrange(from + j, from + j + 1) =~= line_feed());
                assert(starts_at(s, line_feed(), from + j));
            }
        }
        assert forall|k: int| 0 <= k < all.len() implies !(#[trigger] all[k]).contains(
            '\n',
        ) by {
            if k > 0 {
                assert(all[k] == lines_from(s, i + 1)[k - 1]);
            }
        }
    } else {
        let last = s.subrange(from, s.len() as int);
        assert(!last.contains('\n')) by {
            if last.contains('\n') {
                let j = choose|j: int| 0 <= j < last.len() && last[j] == '\n';
                assert(s.subrange(from + j, from + j + 1) =~= line_feed());
                assert(starts_at(s, line_feed(), from + j));
            }
        }
        assert(all =~= seq![last]);
    }
}

/// Tells whether `pat` stands in `v` at index `i`.
pub fn stands_at(v: &Vec<char>, pat: &Vec<char>, i: usize) -> (b: bool)
    ensures
        b == starts_at(v@, pat@, i as int),
{
    if pat.len() > v.len() || i > v.len() - pat.len() {
        return false;
    }
    let mut k: usize = 0;
    while k < pat.len()
        invariant
            k <= pat.len(),
            i + pat.len() <= v.len(),
            forall|j: int| 0 <= j < k ==> v@[i + j] == pat@[j],
        decreases pat.len() - k,
    {
        if v[i + k] != pat[k] {
            proof {
                let sub = v@.subrange(i as int, i + pat.len());
                assert(sub[k as int] == v@[i + k]);
            }
            return false;
        }
        k += 1;
    }
    assert(v@.subrange(i as int, i + pat.len()) =~= pat@);
    true
}

/// The first index at or after `from` at which `pat` stands in `v`.
pub fn find(v: &Vec<char>, pat: &Vec<char>, from: usize) -> (r: Option<usize>)
    ensures
        match r {
            Some(i) => find_from(v@, pat@, from as int) == Some(i as int),
            None => find_from(v@, pat@, from as int) is None,
        },
{
    if pat.len() > v.len() {
        return None;
    }
    let last: usize = v.len() - pat.len();
    let mut i: usize = from;
    while i <= last
        invariant
            from <= i,
            last == v.len() - pat.len(),
            find_from(v@, pat@, from as int) == find_from(v@, pat@, i as int),
        decreases last + 1 - i,
    {
        if stands_at(v, pat, i) {
            return Some(i);
        }
        if i == last {
            assert(find_from(v@, pat@, i + 1) is None);
            return None;
        }
        i += 1;
    }
    None
}

/// Tells whether `pat` stands somewhere in `v`.
pub fn contains(v: &Vec<char>, pat: &Vec<char>) -> (b: bool)
    ensures
        b == occurs(v@, pat@),
{
    proof {
        lemma_occurs(v@, pat@);
    }
    find(v, pat, 0).is_some()
}

/// The pieces into which the occurrences of `sep` cut `v`.
pub fn split(v: &Vec<char>, sep: &Vec<char>) -> (r: Vec<Vec<char>>)
    ensures
        texts(r@) == pieces(v@, sep@),
        r.len() > 0,
{
    let mut out: Vec<Vec<char>> = Vec::new();
    let mut start: usize = 0;
    if sep.len() > 0 {
        loop
            invariant_except_break
                start <= v.len(),
                sep.len() > 0,
                pieces(v@, sep@) == texts(out@) + pieces_from(v@, sep@, start as int),
            ensures
                start <= v.len(),
                pieces(v@, sep@) == texts(out@) + seq![v@.subrange(start as int, v.len() as int)],
            decreases v.len() - start,
        {
            match find(v, sep, start) {
                Some(i) => {
                    proof {
                        lemma_find_from(v@, sep@, start as int);
                    }
                    let piece = slice_of(v, start, i);
                    proof {
                        assert(texts(out@.push(piece)) =~= texts(out@).push(piece@));
                    }
                    out.push(piece);
                    start = i + sep.len();
                },
                None => {
                    break ;
                },
            }
        }
    }
    let piece = slice_of(v, start, v.len());
    proof {
        assert(texts(out@.push(piece)) =~= texts(out@).push(piece@));
        assert(texts(Seq::<Vec<char>>::empty()) =~= Seq::<Seq<char>>::empty());
    }
    out.push(piece);
    out
}

/// The lines of `v`.
pub fn lines(v: &Vec<char>) -> (r: Vec<Vec<char>>)
    ensures
        texts(r@) == lines_of(v@),
{
    let mut out: Vec<Vec<char>> = Vec::new();
    let mut feed: Vec<char> = Vec::new();
    feed.push('\n');
    assert(feed@ =~= line_feed());
    let mut start: usize = 0;
    proof {
        assert(texts(out@) =~= Seq::<Seq<char>>::empty());
    }
    while start < v.len()
        invariant
            start <= v.len(),
            feed@ == line_feed(),
            lines_of(v@) == texts(out@) + lines_from(v@, start as int),
        decreases v.len() - start,
    {
        match find(v, &feed, start) {
            Some(i) => {
                proof {
                    lemma_find_from(v@, feed@, start as int);
                }
                let end: usize = if i > start && v[i - 1] == '\r' {
                    i - 1
                } else {
                    i
                };
                let line = slice_of(v, start, end);
                proof {
                    let whole = v@.subrange(start as int, i as int);
                    if i > start {
                        assert(whole.last() == v@[i - 1]);
                    }
                    assert(line@ =~= without_return(whole));
                    assert(texts(out@.push(line)) =~= texts(out@).push(line@));
                }
                out.push(line);
                start = i + 1;
            },
            None => {
                let line = slice_of(v, start, v.len());
                proof {
                    assert(texts(out@.push(line)) =~= texts(out@).push(line@));
                    assert(lines_from(v@, v.len() as int) =~= Seq::<Seq<char>>::empty());
                }
                out.push(line);
                start = v.len();
            },
        }
    }
    out
}

} // verus!
