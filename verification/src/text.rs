//! Text as sequences of characters: the few string operations that the
//! parsers and generators of this crate are built from.
use vstd::prelude::*;
use vstd::slice::slice_subrange;

verus! {

/// `String::push`: appends one character.
pub assume_specification[ String::push ](s: &mut String, c: char)
    ensures
        final(s)@ == old(s)@.push(c),
;

/// The characters of a string.
pub fn to_chars(s: &str) -> (r: Vec<char>)
    ensures
        r@ == s@,
{
    let mut r: Vec<char> = Vec::new();
    for c in it: s.chars()
        invariant
            r@ == s@.take(it.index()),
            it.seq() == s@,
    {
        r.push(c);
        assert(s@.take(it.index() + 1) == s@.take(it.index()).push(c));
    }
    assert(s@.take(s@.len() as int) == s@);
    r
}

/// The string that holds the given characters.
pub fn to_text(cs: &[char]) -> (r: String)
    ensures
        r@ == cs@,
{
    let mut r = String::new();
    let mut i: usize = 0;
    while i < cs.len()
        invariant
            i <= cs.len(),
            r@ == cs@.take(i as int),
        decreases cs.len() - i,
    {
        r.push(cs[i]);
        i = i + 1;
        assert(cs@.take(i as int) == cs@.take(i - 1).push(cs@[i - 1]));
    }
    assert(cs@.take(cs@.len() as int) == cs@);
    r
}

/// Appends a string to a list of strings.
pub fn push_text(v: &mut Vec<String>, s: String)
    ensures
        final(v).deep_view() == old(v).deep_view().push(s@),
{
    v.push(s);
    assert(v.deep_view() == old(v).deep_view().push(s@));
}

/// The characters with the Unicode property `White_Space`.
pub open spec fn white_space(c: char) -> bool {
    ||| '\u{9}' <= c <= '\u{d}'
    ||| c == ' '
    ||| c == '\u{85}'
    ||| c == '\u{a0}'
    ||| c == '\u{1680}'
    ||| '\u{2000}' <= c <= '\u{200a}'
    ||| c == '\u{2028}'
    ||| c == '\u{2029}'
    ||| c == '\u{202f}'
    ||| c == '\u{205f}'
    ||| c == '\u{3000}'
}

/// Whether `c` is white space.
pub fn is_white_space(c: char) -> (r: bool)
    ensures
        r == white_space(c),
{
    ('\u{9}' <= c && c <= '\u{d}') || c == ' ' || c == '\u{85}' || c == '\u{a0}' || c
        == '\u{1680}' || ('\u{2000}' <= c && c <= '\u{200a}') || c == '\u{2028}' || c == '\u{2029}'
        || c == '\u{202f}' || c == '\u{205f}' || c == '\u{3000}'
}

/// `s` without the white space at its start.
pub open spec fn trimmed_start(s: Seq<char>) -> Seq<char>
    decreases s.len(),
{
    if s.len() > 0 && white_space(s[0]) {
        trimmed_start(s.skip(1))
    } else {
        s
    }
}

/// `s` without the white space at its end.
pub open spec fn trimmed_end(s: Seq<char>) -> Seq<char>
    decreases s.len(),
{
    if s.len() > 0 && white_space(s.last()) {
        trimmed_end(s.drop_last())
    } else {
        s
    }
}

/// `s` without the white space around it.
pub open spec fn trimmed(s: Seq<char>) -> Seq<char> {
    trimmed_end(trimmed_start(s))
}

/// Strips the white space around `cs`.
pub fn trim(cs: &[char]) -> (r: &[char])
    ensures
        r@ == trimmed(cs@),
{
    let mut lo: usize = 0;
    assert(cs@.skip(0) == cs@);
    while lo < cs.len() && is_white_space(cs[lo])
        invariant
            lo <= cs.len(),
            trimmed_start(cs@.skip(lo as int)) == trimmed_start(cs@),
        decreases cs.len() - lo,
    {
        assert(cs@.skip(lo as int).skip(1) == cs@.skip(lo + 1));
        lo = lo + 1;
    }
    assert(trimmed_start(cs@) == cs@.skip(lo as int));
    let mut hi: usize = cs.len();
    assert(cs@.subrange(lo as int, hi as int) == cs@.skip(lo as int));
    while lo < hi && is_white_space(cs[hi - 1])
        invariant
            lo <= hi <= cs.len(),
            trimmed_end(cs@.subrange(lo as int, hi as int)) == trimmed(cs@),
        decreases hi,
    {
        assert(cs@.subrange(lo as int, hi as int).drop_last() == cs@.subrange(
            lo as int,
            hi - 1,
        ));
        hi = hi - 1;
    }
    slice_subrange(cs, lo, hi)
}

/// `s` without the run of `c` at its end.
pub open spec fn without_trailing(s: Seq<char>, c: char) -> Seq<char>
    decreases s.len(),
{
    if s.len() > 0 && s.last() == c {
        without_trailing(s.drop_last(), c)
    } else {
        s
    }
}

/// Strips every trailing `c`.
pub fn trim_end_char(cs: &[char], c: char) -> (r: &[char])
    ensures
        r@ == without_trailing(cs@, c),
{
    let mut hi: usize = cs.len();
    assert(cs@.take(hi as int) == cs@);
    while 0 < hi && cs[hi - 1] == c
        invariant
            hi <= cs.len(),
            without_trailing(cs@.take(hi as int), c) == without_trailing(cs@, c),
        decreases hi,
    {
        assert(cs@.take(hi as int).drop_last() == cs@.take(hi - 1));
        hi = hi - 1;
    }
    assert(cs@.take(hi as int) == cs@.subrange(0, hi as int));
    slice_subrange(cs, 0, hi)
}

/// Whether `p` stands at the start of `s`.
pub open spec fn starts(s: Seq<char>, p: Seq<char>) -> bool {
    p.len() <= s.len() && s.take(p.len() as int) == p
}

/// Whether `p` stands in `cs` at index `at`.
pub fn starts_at(cs: &[char], at: usize, p: &[char]) -> (r: bool)
    requires
        at <= cs.len(),
    ensures
        r == starts(cs@.skip(at as int), p@),
{
    if p.len() > cs.len() - at {
        return false;
    }
    let mut i: usize = 0;
    while i < p.len()
        invariant
            at <= cs.len(),
            i <= p.len() <= cs.len() - at,
            forall|j: int| 0 <= j < i ==> p@[j] == cs@[at + j],
        decreases p.len() - i,
    {
        if cs[at + i] != p[i] {
            assert(cs@.skip(at as int).take(p@.len() as int)[i as int] == cs@[at + i]);
            return false;
        }
        i = i + 1;
    }
    assert(cs@.skip(at as int).take(p@.len() as int) == p@);
    true
}

/// Where `p` first stands in `s`.
pub open spec fn found(s: Seq<char>, p: Seq<char>) -> Option<nat>
    decreases s.len(),
{
    if starts(s, p) {
        Some(0)
    } else if s.len() == 0 {
        None
    } else {
        match found(s.skip(1), p) {
            Some(i) => Some(i + 1),
            None => None,
        }
    }
}

/// A place where `p` is found holds `p`.
pub proof fn lemma_found(s: Seq<char>, p: Seq<char>)
    ensures
        found(s, p) matches Some(i) ==> i + p.len() <= s.len() && starts(s.skip(i as int), p),
    decreases s.len(),
{
    if starts(s, p) {
        assert(s.skip(0) == s);
    } else if s.len() > 0 {
        lemma_found(s.skip(1), p);
        if let Some(i) = found(s.skip(1), p) {
            assert(s.skip(1).skip(i as int) == s.skip(i as int + 1));
        }
    }
}

/// Finds the first `p` in `cs` at or after index `at`.
pub fn find(cs: &[char], at: usize, p: &[char]) -> (r: Option<usize>)
    requires
        at <= cs.len(),
    ensures
        match r {
            Some(i) => at <= i && i + p@.len() <= cs@.len() && found(cs@.skip(at as int), p@)
                == Some((i - at) as nat),
            None => found(cs@.skip(at as int), p@) is None,
        },
{
    proof {
        lemma_found(cs@.skip(at as int), p@);
    }
    let mut i: usize = at;
    loop
        invariant
            at <= i <= cs.len(),
            found(cs@.skip(at as int), p@) matches Some(k) ==> k + p@.len() <= cs@.len() - at,
            match found(cs@.skip(i as int), p@) {
                Some(k) => found(cs@.skip(at as int), p@) == Some((k + (i - at)) as nat),
                None => found(cs@.skip(at as int), p@) is None,
            },
        decreases cs.len() - i,
    {
        if starts_at(cs, i, p) {
            return Some(i);
        }
        if i == cs.len() {
            return None;
        }
        assert(cs@.skip(i as int).skip(1) == cs@.skip(i + 1));
        i = i + 1;
    }
}

/// `s` with every `p` replaced by `t`, from left to right, a replaced part not being searched
/// again. `p` is not empty.
pub open spec fn replaced(s: Seq<char>, p: Seq<char>, t: Seq<char>) -> Seq<char>
    decreases s.len(),
{
    if p.len() == 0 || s.len() < p.len() {
        s
    } else if starts(s, p) {
        t + replaced(s.skip(p.len() as int), p, t)
    } else {
        seq![s[0]] + replaced(s.skip(1), p, t)
    }
}

/// Replaces every `p` in `cs` by `t`.
pub fn replace(cs: &[char], p: &[char], t: &[char]) -> (r: Vec<char>)
    requires
        p@.len() > 0,
    ensures
        r@ == replaced(cs@, p@, t@),
{
    let mut out: Vec<char> = Vec::new();
    let mut i: usize = 0;
    assert(cs@.skip(0) == cs@);
    while i < cs.len()
        invariant
            i <= cs.len(),
            p@.len() > 0,
            out@ + replaced(cs@.skip(i as int), p@, t@) == replaced(cs@, p@, t@),
        decreases cs.len() - i,
    {
        let ghost rest = cs@.skip(i as int);
        if starts_at(cs, i, p) {
            assert(rest.skip(p@.len() as int) == cs@.skip(i + p@.len()));
            out.extend_from_slice(t);
            assert(out@ + replaced(rest.skip(p@.len() as int), p@, t@) == replaced(cs@, p@, t@));
            i = i + p.len();
        } else {
            assert(rest.skip(1) == cs@.skip(i + 1));
            out.push(cs[i]);
            assert(rest == seq![cs@[i as int]] + rest.skip(1));
            assert(out@ + replaced(rest.skip(1), p@, t@) == replaced(cs@, p@, t@));
            i = i + 1;
        }
    }
    assert(out@ + Seq::<char>::empty() == out@);
    out
}

/// The index of the first `c` in `s`, or the length of `s`.
pub open spec fn char_at(s: Seq<char>, c: char) -> int
    decreases s.len(),
{
    if s.len() == 0 || s[0] == c {
        0
    } else {
        1 + char_at(s.skip(1), c)
    }
}

/// `char_at` is the first place of `c`, and the length where there is none.
pub proof fn lemma_char_at(s: Seq<char>, c: char)
    ensures
        0 <= char_at(s, c) <= s.len(),
        char_at(s, c) < s.len() ==> s[char_at(s, c)] == c,
        forall|j: int| 0 <= j < char_at(s, c) ==> s[j] != c,
    decreases s.len(),
{
    if s.len() > 0 && s[0] != c {
        lemma_char_at(s.skip(1), c);
        assert forall|j: int| 0 <= j < char_at(s, c) implies s[j] != c by {
            if j > 0 {
                assert(s.skip(1)[j - 1] == s[j]);
            }
        }
    }
}

/// A place that is the first of `c` is the one `char_at` names.
pub proof fn lemma_char_at_unique(s: Seq<char>, c: char, k: int)
    requires
        0 <= k <= s.len(),
        k < s.len() ==> s[k] == c,
        forall|j: int| 0 <= j < k ==> s[j] != c,
    ensures
        char_at(s, c) == k,
{
    lemma_char_at(s, c);
}

/// Finds the first `c` in `cs` at or after index `at`; the length of `cs` where there is none.
pub fn find_char(cs: &[char], at: usize, c: char) -> (r: usize)
    requires
        at <= cs.len(),
    ensures
        at <= r <= cs.len(),
        r - at == char_at(cs@.skip(at as int), c),
        r < cs.len() ==> cs@[r as int] == c,
{
    let mut i: usize = at;
    while i < cs.len() && cs[i] != c
        invariant
            at <= i <= cs.len(),
            forall|j: int| at <= j < i ==> cs@[j] != c,
        decreases cs.len() - i,
    {
        i = i + 1;
    }
    proof {
        let s = cs@.skip(at as int);
        assert forall|j: int| 0 <= j < i - at implies s[j] != c by {
            assert(s[j] == cs@[at + j]);
        }
        if i < cs.len() {
            assert(s[i - at] == cs@[i as int]);
        }
        lemma_char_at_unique(s, c, i - at);
    }
    i
}

/// The pieces of `s` between the occurrences of `c`: one more than there are occurrences.
pub open spec fn pieces(s: Seq<char>, c: char) -> Seq<Seq<char>>
    decreases s.len(),
{
    proof {
        lemma_char_at(s, c);
    }
    if char_at(s, c) < s.len() {
        seq![s.take(char_at(s, c))] + pieces(s.skip(char_at(s, c) + 1), c)
    } else {
        seq![s]
    }
}

/// The first line of `s`, without its line ending: a line feed, or a carriage return and a line
/// feed.
pub open spec fn first_line(s: Seq<char>) -> Seq<char> {
    let n = char_at(s, '\n');
    if 0 < n < s.len() && s[n - 1] == '\r' {
        s.take(n - 1)
    } else {
        s.take(n)
    }
}

/// What follows the first line of `s`.
pub open spec fn after_line(s: Seq<char>) -> Seq<char> {
    if char_at(s, '\n') < s.len() {
        s.skip(char_at(s, '\n') + 1)
    } else {
        Seq::empty()
    }
}

/// The lines of `s`. The last one may lack its line ending.
pub open spec fn lines(s: Seq<char>) -> Seq<Seq<char>>
    decreases s.len(),
{
    proof {
        lemma_char_at(s, '\n');
    }
    if s.len() == 0 {
        Seq::empty()
    } else {
        seq![first_line(s)] + lines(after_line(s))
    }
}

/// The first line of `cs` from index `at` on, and the index where the next one starts.
pub fn next_line(cs: &[char], at: usize) -> (r: (&[char], usize))
    requires
        at < cs.len(),
    ensures
        at < r.1 <= cs.len(),
        r.0@ == first_line(cs@.skip(at as int)),
        cs@.skip(r.1 as int) == after_line(cs@.skip(at as int)),
{
    let ghost s = cs@.skip(at as int);
    let n: usize = find_char(cs, at, '\n');
    let next: usize = if n < cs.len() {
        n + 1
    } else {
        n
    };
    let end: usize = if at < n && n < cs.len() && cs[n - 1] == '\r' {
        n - 1
    } else {
        n
    };
    assert(cs@.skip(next as int) == after_line(s));
    assert(cs@.subrange(at as int, end as int) == first_line(s));
    (slice_subrange(cs, at, end), next)
}

/// The lines `ls`, each with a line feed.
pub open spec fn unlines(ls: Seq<Seq<char>>) -> Seq<char>
    decreases ls.len(),
{
    if ls.len() == 0 {
        Seq::empty()
    } else {
        ls[0] + seq!['\n'] + unlines(ls.skip(1))
    }
}

/// Whether `l` can stand as a line of its own: it holds no line feed, and ends in no carriage
/// return that would be taken for a part of the line ending.
pub open spec fn plain_line(l: Seq<char>) -> bool {
    &&& forall|i: int| 0 <= i < l.len() ==> #[trigger] l[i] != '\n'
    &&& l.len() > 0 ==> l.last() != '\r'
}

/// Plain lines that are written out are read back.
pub proof fn law_lines_inverts_unlines(ls: Seq<Seq<char>>)
    requires
        forall|i: int| 0 <= i < ls.len() ==> plain_line(#[trigger] ls[i]),
    ensures
        lines(unlines(ls)) == ls,
    decreases ls.len(),
{
    if ls.len() > 0 {
        let l = ls[0];
        let s = unlines(ls);
        assert(s[l.len() as int] == '\n');
        assert forall|j: int| 0 <= j < l.len() implies s[j] != '\n' by {
            assert(s[j] == l[j]);
        }
        lemma_char_at_unique(s, '\n', l.len() as int);
        if l.len() > 0 {
            assert(s[l.len() - 1] == l.last());
        }
        assert(s.take(l.len() as int) == l);
        assert(first_line(s) == l);
        assert(s.skip(l.len() as int + 1) == unlines(ls.skip(1)));
        law_lines_inverts_unlines(ls.skip(1));
        assert(lines(s) == seq![l] + ls.skip(1));
        assert(seq![l] + ls.skip(1) == ls);
    }
}

/// A line that is read holds no line feed.
pub proof fn lemma_lines_hold_no_line_feed(s: Seq<char>, i: int)
    requires
        0 <= i < lines(s).len(),
    ensures
        forall|j: int| 0 <= j < lines(s)[i].len() ==> #[trigger] lines(s)[i][j] != '\n',
    decreases s.len(),
{
    lemma_char_at(s, '\n');
    if i == 0 {
        assert forall|j: int| 0 <= j < lines(s)[0].len() implies #[trigger] lines(s)[0][j]
            != '\n' by {
            assert(lines(s)[0] == first_line(s));
            assert(first_line(s)[j] == s[j]);
        }
    } else {
        lemma_lines_hold_no_line_feed(after_line(s), i - 1);
        assert(lines(s)[i] == lines(after_line(s))[i - 1]);
    }
}

/// Replacing what does not occur changes nothing.
pub proof fn lemma_replaced_absent(s: Seq<char>, p: Seq<char>, t: Seq<char>)
    requires
        found(s, p) is None,
    ensures
        replaced(s, p, t) == s,
    decreases s.len(),
{
    if p.len() > 0 && s.len() >= p.len() {
        lemma_replaced_absent(s.skip(1), p, t);
        assert(seq![s[0]] + s.skip(1) == s);
    }
}

/// Whether two texts are equal.
pub fn same_chars(a: &[char], b: &[char]) -> (r: bool)
    ensures
        r == (a@ == b@),
{
    if a.len() != b.len() {
        return false;
    }
    assert(a@.skip(0) == a@);
    assert(a@.take(b@.len() as int) == a@);
    starts_at(a, 0, b)
}

/// What is left of `s` once white space is stripped has none at its ends.
pub proof fn lemma_trimmed(s: Seq<char>)
    ensures
        trimmed(s).len() > 0 ==> !white_space(trimmed(s)[0]) && !white_space(trimmed(s).last()),
        trimmed(trimmed(s)) == trimmed(s),
{
    let t = trimmed_start(s);
    lemma_trimmed_start(s);
    lemma_trimmed_end(t);
    let u = trimmed_end(t);
    if u.len() > 0 {
        assert(u[0] == t[0]);
    }
    assert(trimmed_start(u) == u);
}

proof fn lemma_trimmed_start(s: Seq<char>)
    ensures
        trimmed_start(s).len() > 0 ==> !white_space(trimmed_start(s)[0]),
    decreases s.len(),
{
    if s.len() > 0 && white_space(s[0]) {
        lemma_trimmed_start(s.skip(1));
    }
}

proof fn lemma_trimmed_end(s: Seq<char>)
    ensures
        trimmed_end(s).len() <= s.len(),
        trimmed_end(s) == s.take(trimmed_end(s).len() as int),
        trimmed_end(s).len() > 0 ==> !white_space(trimmed_end(s).last()),
    decreases s.len(),
{
    if s.len() > 0 && white_space(s.last()) {
        lemma_trimmed_end(s.drop_last());
        let t = trimmed_end(s);
        assert(s.drop_last().take(t.len() as int) == s.take(t.len() as int));
    } else {
        assert(s.take(s.len() as int) == s);
    }
}

/// Whether `p` stands in `s` at the index `i`.
pub open spec fn occurs_at(s: Seq<char>, p: Seq<char>, i: int) -> bool {
    0 <= i && i + p.len() <= s.len() && s.subrange(i, i + p.len()) == p
}

/// Whether all of `s` is white space.
pub open spec fn all_white(s: Seq<char>) -> bool {
    forall|i: int| 0 <= i < s.len() ==> white_space(#[trigger] s[i])
}

/// White space is the blank, the tabulators, the ends of lines and pages, and no other character of
/// ASCII.
pub proof fn law_white_space_of_ascii(c: char)
    requires
        c <= '\u{7f}',
    ensures
        white_space(c) == (c == ' ' || c == '\t' || c == '\n' || c == '\r' || c == '\u{b}' || c
            == '\u{c}'),
{
}

/// White space beyond ASCII is the next line, the spaces of Unicode, and its ends of lines and
/// paragraphs.
pub proof fn law_white_space_beyond_ascii(c: char)
    requires
        c > '\u{7f}',
    ensures
        white_space(c) == ({
            let n = c as u32;
            n == 0x85 || n == 0xa0 || n == 0x1680 || 0x2000 <= n <= 0x200a || n == 0x2028 || n
                == 0x2029 || n == 0x202f || n == 0x205f || n == 0x3000
        }),
{
}

/// A text starts with what is put in front of another, and with nothing else.
pub proof fn law_starts_with_what_is_in_front(p: Seq<char>, q: Seq<char>, s: Seq<char>)
    ensures
        starts(p + s, p),
        starts(s, q) ==> s == q + s.skip(q.len() as int),
{
    assert((p + s).take(p.len() as int) == p);
    if starts(s, q) {
        assert(s == s.take(q.len() as int) + s.skip(q.len() as int));
    }
}

/// Stripping takes all the white space around a text, and no more.
pub proof fn law_trimming_takes_all_white_space(lead: Seq<char>, s: Seq<char>, tail: Seq<char>)
    requires
        all_white(lead),
        all_white(tail),
        s.len() > 0 ==> !white_space(s[0]) && !white_space(s.last()),
    ensures
        trimmed(lead + s + tail) == s,
{
    lemma_trim_lead(lead, s + tail);
    assert(lead + s + tail == lead + (s + tail));
    if s.len() == 0 {
        assert(s + tail == tail);
        assert(tail + Seq::<char>::empty() == tail);
        lemma_trim_lead(tail, Seq::empty());
        assert(trimmed_start(Seq::<char>::empty()) == Seq::<char>::empty());
        assert(s == Seq::<char>::empty());
    } else {
        assert((s + tail)[0] == s[0]);
        lemma_trim_tail(s, tail);
    }
}

proof fn lemma_trim_lead(lead: Seq<char>, s: Seq<char>)
    requires
        all_white(lead),
    ensures
        trimmed_start(lead + s) == trimmed_start(s),
    decreases lead.len(),
{
    if lead.len() == 0 {
        assert(lead + s == s);
    } else {
        assert((lead + s).skip(1) == lead.skip(1) + s);
        assert(white_space(lead[0]));
        lemma_trim_lead(lead.skip(1), s);
    }
}

proof fn lemma_trim_tail(s: Seq<char>, tail: Seq<char>)
    requires
        all_white(tail),
        s.len() > 0 ==> !white_space(s.last()),
    ensures
        trimmed_end(s + tail) == s,
    decreases tail.len(),
{
    if tail.len() == 0 {
        assert(s + tail == s);
    } else {
        assert((s + tail).drop_last() == s + tail.drop_last());
        assert(white_space(tail.last()));
        lemma_trim_tail(s, tail.drop_last());
    }
}

/// Stripping a trailing character takes all of its run at the end, and no more.
pub proof fn law_trailing_run_is_stripped(s: Seq<char>, c: char, n: nat)
    requires
        s.len() > 0 ==> s.last() != c,
    ensures
        without_trailing(s + Seq::new(n, |i: int| c), c) == s,
    decreases n,
{
    let run = Seq::new(n, |i: int| c);
    if n == 0 {
        assert(s + run == s);
    } else {
        let m = (n - 1) as nat;
        law_trailing_run_is_stripped(s, c, m);
        assert((s + run).drop_last() == s + Seq::new(m, |i: int| c));
        assert((s + run).last() == c);
    }
}

/// What is found is the first occurrence, and it is found wherever there is one.
pub proof fn law_first_occurrence_is_found(s: Seq<char>, p: Seq<char>)
    ensures
        match found(s, p) {
            Some(i) => occurs_at(s, p, i as int) && forall|j: int|
                0 <= j < i ==> !(#[trigger] occurs_at(s, p, j)),
            None => forall|j: int| !(#[trigger] occurs_at(s, p, j)),
        },
    decreases s.len(),
{
    assert forall|j: int| 0 <= j <= s.len() implies (#[trigger] occurs_at(s, p, j)) == starts(
        s.skip(j),
        p,
    ) by {
        if j + p.len() <= s.len() {
            assert(s.skip(j).take(p.len() as int) == s.subrange(j, j + p.len()));
        }
    }
    assert(s.skip(0) == s);
    if !starts(s, p) && s.len() > 0 {
        let rest = s.skip(1);
        law_first_occurrence_is_found(rest, p);
        assert forall|j: int| 1 <= j <= s.len() implies (#[trigger] occurs_at(s, p, j))
            == occurs_at(rest, p, j - 1) by {
            if j + p.len() <= s.len() {
                assert(rest.subrange(j - 1, j - 1 + p.len()) == s.subrange(j, j + p.len()));
            }
        }
        assert(!occurs_at(s, p, 0));
    }
    if starts(s, p) {
        assert(occurs_at(s, p, 0));
    }
}

/// The pieces, with `sep` between them.
pub open spec fn joined(ps: Seq<Seq<char>>, sep: Seq<char>) -> Seq<char>
    decreases ps.len(),
{
    if ps.len() == 0 {
        Seq::empty()
    } else if ps.len() == 1 {
        ps[0]
    } else {
        ps[0] + sep + joined(ps.skip(1), sep)
    }
}

proof fn lemma_replaced_behind(a: Seq<char>, rest: Seq<char>, p: Seq<char>, t: Seq<char>)
    requires
        p.len() > 0,
        forall|i: int| 0 <= i < a.len() ==> !(#[trigger] occurs_at(a + rest, p, i)),
    ensures
        replaced(a + rest, p, t) == a + replaced(rest, p, t),
    decreases a.len(),
{
    let s = a + rest;
    if a.len() == 0 {
        assert(s == rest);
        assert(a + replaced(rest, p, t) == replaced(rest, p, t));
    } else {
        assert(!occurs_at(s, p, 0));
        if p.len() <= s.len() {
            assert(s.take(p.len() as int) == s.subrange(0, p.len() as int));
        }
        let b = a.skip(1);
        assert(s.skip(1) == b + rest);
        assert forall|i: int| 0 <= i < b.len() implies !(#[trigger] occurs_at(b + rest, p, i)) by {
            assert(!occurs_at(s, p, i + 1));
            if i + p.len() <= (b + rest).len() {
                assert(s.subrange(i + 1, i + 1 + p.len()) == (b + rest).subrange(i, i + p.len()));
            }
        }
        lemma_replaced_behind(b, rest, p, t);
        if s.len() < p.len() {
            assert(replaced(b + rest, p, t) == b + rest);
            assert(b + replaced(rest, p, t) == b + rest);
            assert(replaced(rest, p, t).len() == rest.len());
            assert(replaced(rest, p, t) =~= (b + replaced(rest, p, t)).skip(b.len() as int));
            assert(rest =~= (b + rest).skip(b.len() as int));
        } else {
            assert(seq![s[0]] + (b + replaced(rest, p, t)) == a + replaced(rest, p, t));
        }
    }
}

/// Replacing starts with the first occurrence and goes on behind it, so that every occurrence is
/// replaced: `a` holds no part of an earlier one.
pub proof fn law_every_occurrence_is_replaced(
    a: Seq<char>,
    p: Seq<char>,
    b: Seq<char>,
    t: Seq<char>,
)
    requires
        p.len() > 0,
        forall|i: int| 0 <= i < a.len() ==> !(#[trigger] occurs_at(a + p, p, i)),
    ensures
        replaced(a + p + b, p, t) == a + t + replaced(b, p, t),
{
    let rest = p + b;
    assert(a + p + b == a + rest);
    assert forall|i: int| 0 <= i < a.len() implies !(#[trigger] occurs_at(a + rest, p, i)) by {
        assert(!occurs_at(a + p, p, i));
        assert((a + rest).subrange(i, i + p.len()) == (a + p).subrange(i, i + p.len()));
    }
    lemma_replaced_behind(a, rest, p, t);
    assert(rest.take(p.len() as int) == p);
    assert(rest.skip(p.len() as int) == b);
    assert(replaced(rest, p, t) == t + replaced(b, p, t));
    assert(a + (t + replaced(b, p, t)) == a + t + replaced(b, p, t));
}

/// A text in which `p` does not occur is left as it is.
pub proof fn law_replacing_nothing_changes_nothing(s: Seq<char>, p: Seq<char>, t: Seq<char>)
    requires
        forall|i: int| !(#[trigger] occurs_at(s, p, i)),
    ensures
        replaced(s, p, t) == s,
{
    law_first_occurrence_is_found(s, p);
    lemma_replaced_absent(s, p, t);
}

/// Replacing what stands between pieces replaces it between all of them, however many there are.
pub proof fn law_replacing_between_pieces(ps: Seq<Seq<char>>, p: Seq<char>, t: Seq<char>)
    requires
        p.len() > 0,
        forall|k: int, i: int|
            0 <= k < ps.len() && 0 <= i < ps[k].len() ==> !(#[trigger] occurs_at(ps[k] + p, p, i)),
    ensures
        replaced(joined(ps, p), p, t) == joined(ps, t),
    decreases ps.len(),
{
    if ps.len() == 1 {
        let a = ps[0];
        assert forall|i: int| !(#[trigger] occurs_at(a, p, i)) by {
            if occurs_at(a, p, i) {
                assert((a + p).subrange(i, i + p.len()) == a.subrange(i, i + p.len()));
                assert(occurs_at(ps[0] + p, p, i));
            }
        }
        law_replacing_nothing_changes_nothing(a, p, t);
    } else if ps.len() > 1 {
        let rest = ps.skip(1);
        assert forall|k: int, i: int| 0 <= k < rest.len() && 0 <= i < rest[k].len() implies !(
        #[trigger] occurs_at(rest[k] + p, p, i)) by {
            assert(!occurs_at(ps[k + 1] + p, p, i));
        }
        law_replacing_between_pieces(rest, p, t);
        law_every_occurrence_is_replaced(ps[0], p, joined(rest, p), t);
    }
}

/// The pieces between the occurrences of a character make up the text, and none holds the character.
pub proof fn law_pieces_make_up_the_text(s: Seq<char>, c: char)
    ensures
        joined(pieces(s, c), seq![c]) == s,
        pieces(s, c).len() > 0,
        forall|k: int, i: int|
            0 <= k < pieces(s, c).len() && 0 <= i < pieces(s, c)[k].len() ==> (#[trigger] pieces(
                s,
                c,
            )[k][i]) != c,
    decreases s.len(),
{
    lemma_char_at(s, c);
    let n = char_at(s, c);
    let ps = pieces(s, c);
    if n < s.len() {
        let rest = s.skip(n + 1);
        law_pieces_make_up_the_text(rest, c);
        assert(ps.skip(1) == pieces(rest, c));
        assert(s == s.take(n) + seq![c] + rest);
        assert forall|k: int, i: int| 0 <= k < ps.len() && 0 <= i < ps[k].len() implies (
        #[trigger] ps[k][i]) != c by {
            if k > 0 {
                assert(ps[k] == pieces(rest, c)[k - 1]);
            }
        }
    }
}

/// The first line ends before the first line feed, and before the carriage return that precedes it,
/// if one does; the lines go on behind the line feed. The last line needs no line feed, and keeps its
/// carriage return without one.
pub proof fn law_lines_end_at_line_feeds(l: Seq<char>, rest: Seq<char>)
    requires
        forall|i: int| 0 <= i < l.len() ==> #[trigger] l[i] != '\n',
    ensures
        l.len() == 0 || l.last() != '\r' ==> lines(l + seq!['\n'] + rest) == seq![l] + lines(rest),
        lines(l + seq!['\r', '\n'] + rest) == seq![l] + lines(rest),
        l.len() > 0 ==> lines(l) == seq![l],
        lines(Seq::empty()) == Seq::<Seq<char>>::empty(),
{
    let n = l.len() as int;
    let a = l + seq!['\n'] + rest;
    assert forall|j: int| 0 <= j < n implies a[j] != '\n' by {
        assert(a[j] == l[j]);
    }
    lemma_char_at_unique(a, '\n', n);
    assert(a.take(n) == l);
    assert(n > 0 ==> a[n - 1] == l.last());
    assert(a.skip(n + 1) == rest);
    let b = l + seq!['\r', '\n'] + rest;
    assert forall|j: int| 0 <= j < n + 1 implies b[j] != '\n' by {
        if j < n {
            assert(b[j] == l[j]);
        }
    }
    lemma_char_at_unique(b, '\n', n + 1);
    assert(b[n] == '\r');
    assert(b.take(n) == l);
    assert(b.skip(n + 2) == rest);
    lemma_char_at_unique(l, '\n', n);
    assert(l.take(n) == l);
    if n > 0 {
        assert(first_line(l) == l);
        assert(after_line(l) == Seq::<char>::empty());
        assert(lines(Seq::<char>::empty()) == Seq::<Seq<char>>::empty());
        assert(lines(l) == seq![l] + Seq::<Seq<char>>::empty());
    }
}

/// Each line that is written out is followed by one line feed, and lines that are written out one
/// after the other are the lines together.
pub proof fn law_each_line_ends_in_one_line_feed(a: Seq<Seq<char>>, b: Seq<Seq<char>>, l: Seq<char>)
    ensures
        unlines(Seq::empty()) == Seq::<char>::empty(),
        unlines(seq![l]) == l + seq!['\n'],
        unlines(a + b) == unlines(a) + unlines(b),
    decreases a.len(),
{
    assert(seq![l].skip(1) == Seq::<Seq<char>>::empty());
    assert(unlines(Seq::<Seq<char>>::empty()) == Seq::<char>::empty());
    assert(unlines(seq![l]) == l + seq!['\n'] + unlines(seq![l].skip(1)));
    assert(unlines(seq![l]) == l + seq!['\n']);
    if a.len() == 0 {
        assert(a + b == b);
        assert(unlines(a) + unlines(b) == unlines(b));
    } else {
        law_each_line_ends_in_one_line_feed(a.skip(1), b, l);
        assert((a + b).skip(1) == a.skip(1) + b);
        assert(unlines(a + b) == a[0] + seq!['\n'] + (unlines(a.skip(1)) + unlines(b)));
        assert(unlines(a + b) == unlines(a) + unlines(b));
    }
}

} // verus!
