//! Names in generated code.
use crate::text;
use crate::text::{find_char, to_chars, to_text};
use vstd::prelude::*;
use vstd::slice::slice_subrange;

verus! {

/// The letters of ASCII.
pub open spec fn ascii_letter(c: char) -> bool {
    'a' <= c <= 'z' || 'A' <= c <= 'Z'
}

/// The characters of an ASCII identifier.
pub open spec fn ident_char(c: char) -> bool {
    c == '_' || ascii_letter(c) || '0' <= c <= '9'
}

/// Whether `s` has the form of an ASCII identifier.
pub open spec fn is_ident(s: Seq<char>) -> bool {
    &&& s.len() > 0
    &&& (s[0] == '_' || ascii_letter(s[0]))
    &&& forall|i: int| 0 <= i < s.len() ==> ident_char(#[trigger] s[i])
}

/// `s` with an underscore in place of each character that no identifier holds.
pub open spec fn ident_chars(s: Seq<char>) -> Seq<char> {
    s.map_values(
        |c: char|
            if ident_char(c) {
                c
            } else {
                '_'
            },
    )
}

/// The identifier that stands for the name `s`.
pub open spec fn ident(s: Seq<char>) -> Seq<char> {
    let t = ident_chars(s);
    if t.len() > 0 && (t[0] == '_' || ascii_letter(t[0])) {
        t
    } else {
        seq!['_'] + t
    }
}

fn is_ascii_letter(c: char) -> (r: bool)
    ensures
        r == ascii_letter(c),
{
    ('a' <= c && c <= 'z') || ('A' <= c && c <= 'Z')
}

/// Turns a name into an identifier: every character that an identifier cannot hold becomes an
/// underscore, and one is put in front where the first character cannot start an identifier.
pub fn rust_ident(name: &str) -> (r: String)
    ensures
        r@ == ident(name@),
        is_ident(r@),
{
    let cs = to_chars(name);
    let mut out: Vec<char> = Vec::new();
    if cs.len() == 0 || (cs[0] >= '0' && cs[0] <= '9') {
        out.push('_');
    }
    let ghost lead = out@;
    let mut i: usize = 0;
    while i < cs.len()
        invariant
            i <= cs.len(),
            out@ == lead + ident_chars(cs@).take(i as int),
        decreases cs.len() - i,
    {
        let c: char = cs[i];
        if c == '_' || is_ascii_letter(c) || (c >= '0' && c <= '9') {
            out.push(c);
        } else {
            out.push('_');
        }
        i = i + 1;
        assert(ident_chars(cs@).take(i as int) == ident_chars(cs@).take(i - 1).push(
            ident_chars(cs@)[i - 1],
        ));
    }
    assert(ident_chars(cs@).take(i as int) == ident_chars(cs@));
    assert(out@ == ident(name@));
    proof {
        law_ident_is_identifier(name@);
    }
    to_text(out.as_slice())
}

/// What stands for a name is an identifier.
pub proof fn law_ident_is_identifier(s: Seq<char>)
    ensures
        is_ident(ident(s)),
{
    let t = ident_chars(s);
    assert forall|i: int| 0 <= i < ident(s).len() implies ident_char(#[trigger] ident(s)[i]) by {
        if ident(s).len() == t.len() {
            assert(ident_char(t[i]));
        } else if i > 0 {
            assert(ident(s)[i] == t[i - 1]);
        }
    }
}

/// An identifier stands for itself.
pub proof fn law_ident_keeps_identifiers(s: Seq<char>)
    requires
        is_ident(s),
    ensures
        ident(s) == s,
{
    assert(ident_chars(s) == s);
}

/// The upper case of a character.
pub uninterp spec fn upper(c: char) -> Seq<char>;

/// The upper case of an ASCII character.
pub open spec fn ascii_upper(c: char) -> char {
    if 'a' <= c <= 'z' {
        ((c as u32) - 32) as char
    } else {
        c
    }
}

/// Whether all of `s` is ASCII.
pub open spec fn all_ascii(s: Seq<char>) -> bool {
    forall|i: int| 0 <= i < s.len() ==> (#[trigger] s[i]) <= '\u{7f}'
}

/// `char::to_uppercase`: the upper case mapping of `c`, one or more characters. It depends on `c`
/// alone; an ASCII letter maps to its ASCII upper case, any other ASCII character to itself.
#[verifier::external_body]
fn uppercase(c: char) -> (r: Vec<char>)
    ensures
        r@ == upper(c),
        c <= '\u{7f}' ==> r@ == seq![ascii_upper(c)],
{
    c.to_uppercase().collect()
}

/// A word with its first letter in upper case.
pub open spec fn capitalized(w: Seq<char>) -> Seq<char> {
    if w.len() == 0 {
        w
    } else {
        upper(w[0]) + w.skip(1)
    }
}

/// The words, each with its first letter in upper case, one after the other.
pub open spec fn capitalized_words(ws: Seq<Seq<char>>) -> Seq<char>
    decreases ws.len(),
{
    if ws.len() == 0 {
        Seq::empty()
    } else {
        capitalized(ws[0]) + capitalized_words(ws.skip(1))
    }
}

/// The Pascal case of a snake case name.
pub open spec fn pascal(s: Seq<char>) -> Seq<char> {
    capitalized_words(text::pieces(s, '_'))
}

/// The Pascal case of a snake case name in ASCII: each character that starts a word in upper
/// case, the underscores left out. `start` says whether a word starts here.
pub open spec fn ascii_pascal(s: Seq<char>, start: bool) -> Seq<char>
    decreases s.len(),
{
    if s.len() == 0 {
        Seq::empty()
    } else if s[0] == '_' {
        ascii_pascal(s.skip(1), true)
    } else if start {
        seq![ascii_upper(s[0])] + ascii_pascal(s.skip(1), false)
    } else {
        seq![s[0]] + ascii_pascal(s.skip(1), false)
    }
}

/// Turns a snake case name into Pascal case.
pub fn snake_to_pascal(s: &str) -> (r: String)
    ensures
        r@ == pascal(s@),
        all_ascii(s@) ==> r@ == ascii_pascal(s@, true),
{
    let cs = to_chars(s);
    let mut out: Vec<char> = Vec::new();
    let mut at: usize = 0;
    assert(cs@.skip(0) == cs@);
    loop
        invariant
            at <= cs.len(),
            cs@ == s@,
            out@ + pascal(cs@.skip(at as int)) == pascal(cs@),
            all_ascii(cs@) ==> out@ + ascii_pascal(cs@.skip(at as int), true) == ascii_pascal(
                cs@,
                true,
            ),
        decreases cs.len() - at,
    {
        let ghost rest = cs@.skip(at as int);
        let ghost before = out@;
        let n: usize = find_char(cs.as_slice(), at, '_');
        let ghost word = rest.take(n - at);
        if at < n {
            let up = uppercase(cs[at]);
            out.extend_from_slice(up.as_slice());
            out.extend_from_slice(slice_subrange(cs.as_slice(), at + 1, n));
            assert(cs@.subrange(at + 1, n as int) == word.skip(1));
        }
        assert(out@ == before + capitalized(word));
        proof {
            text::lemma_char_at(rest, '_');
            lemma_ascii_pascal_word(rest, n - at, true);
            if all_ascii(cs@) && at < n {
                assert(cs@[at as int] <= '\u{7f}');
                assert(out@ == before + (seq![ascii_upper(word[0])] + word.skip(1)));
            }
        }
        if n == cs.len() {
            proof {
                assert(word == rest);
                assert(text::pieces(rest, '_') == seq![rest]);
                assert(seq![rest].skip(1) == Seq::<Seq<char>>::empty());
                assert(capitalized_words(Seq::empty()) == Seq::<char>::empty());
                assert(pascal(rest) == capitalized(word));
                assert(rest.skip(n - at) == Seq::<char>::empty());
                if all_ascii(cs@) {
                    assert(out@ == ascii_pascal(cs@, true));
                }
            }
            return to_text(out.as_slice());
        }
        proof {
            let tail = cs@.skip(n + 1);
            assert(rest.skip(n - at + 1) == tail);
            let ws = text::pieces(rest, '_');
            assert(ws == seq![word] + text::pieces(tail, '_'));
            assert(ws.skip(1) == text::pieces(tail, '_'));
            assert(out@ + pascal(tail) == before + pascal(rest));
            assert(rest.skip(n - at).skip(1) == tail);
            if all_ascii(cs@) {
                assert(out@ + ascii_pascal(tail, true) == before + ascii_pascal(rest, true));
            }
        }
        at = n + 1;
    }
}

proof fn lemma_ascii_pascal_word(s: Seq<char>, n: int, start: bool)
    requires
        0 <= n <= s.len(),
        forall|j: int| 0 <= j < n ==> s[j] != '_',
        n < s.len() ==> s[n] == '_',
    ensures
        ({
            let w = if start && n > 0 {
                seq![ascii_upper(s[0])] + s.subrange(1, n)
            } else {
                s.take(n)
            };
            ascii_pascal(s, start) == w + if n < s.len() {
                ascii_pascal(s.skip(n).skip(1), true)
            } else {
                Seq::empty()
            }
        }),
    decreases n,
{
    let rest = if n < s.len() {
        ascii_pascal(s.skip(n).skip(1), true)
    } else {
        Seq::empty()
    };
    if n == 0 {
        assert(s.take(0) == Seq::<char>::empty());
        assert(s.skip(0) == s);
        assert(s.take(0) + rest == rest);
    } else {
        lemma_ascii_pascal_word(s.skip(1), n - 1, false);
        assert(s.skip(1).skip(n - 1) == s.skip(n));
        assert(s.skip(1).take(n - 1) == s.subrange(1, n));
        assert(seq![s[0]] + s.subrange(1, n) == s.take(n));
        if start {
            assert(ascii_pascal(s, start) == seq![ascii_upper(s[0])] + (s.subrange(1, n) + rest));
        } else {
            assert(ascii_pascal(s, start) == seq![s[0]] + (s.subrange(1, n) + rest));
        }
    }
}

/// The Pascal case of an ASCII name holds no underscore.
pub proof fn law_pascal_drops_underscores(s: Seq<char>, start: bool)
    ensures
        forall|i: int|
            0 <= i < ascii_pascal(s, start).len() ==> #[trigger] ascii_pascal(s, start)[i] != '_',
    decreases s.len(),
{
    if s.len() > 0 {
        law_pascal_drops_underscores(s.skip(1), true);
        law_pascal_drops_underscores(s.skip(1), false);
    }
    assert forall|i: int| 0 <= i < ascii_pascal(s, start).len() implies #[trigger] ascii_pascal(
        s,
        start,
    )[i] != '_' by {
        if s[0] == '_' {
            assert(ascii_pascal(s.skip(1), true)[i] != '_');
        } else if i > 0 {
            assert(ascii_pascal(s.skip(1), false)[i - 1] != '_');
        }
    }
}

/// A name becomes an identifier character by character: letters, digits and underscores of ASCII are
/// kept, anything else becomes an underscore; an underscore comes first where the name is empty or
/// starts with a digit.
pub proof fn law_identifiers_follow_names(s: Seq<char>, i: int)
    ensures
        ({
            let lead: int = if s.len() == 0 || '0' <= s[0] <= '9' {
                1
            } else {
                0
            };
            &&& ident(s).len() == s.len() + lead
            &&& lead == 1 ==> ident(s)[0] == '_'
            &&& 0 <= i < s.len() ==> ident(s)[i + lead] == (if s[i] == '_' || 'a' <= s[i] <= 'z'
                || 'A' <= s[i] <= 'Z' || '0' <= s[i] <= '9' {
                s[i]
            } else {
                '_'
            })
        }),
{
    let t = ident_chars(s);
    if 0 <= i < s.len() {
        assert(t[i] == if ident_char(s[i]) {
            s[i]
        } else {
            '_'
        });
    }
}

/// Pascal case takes a name word by word: an underscore ends a word and is dropped, and of each word
/// the first character is put in upper case, the others being kept.
pub proof fn law_pascal_case_goes_word_by_word(w: Seq<char>, rest: Seq<char>)
    requires
        forall|i: int| 0 <= i < w.len() ==> #[trigger] w[i] != '_',
    ensures
        pascal(w + seq!['_'] + rest) == pascal(w) + pascal(rest),
        pascal(w) == (if w.len() == 0 {
            w
        } else {
            upper(w[0]) + w.skip(1)
        }),
{
    let n = w.len() as int;
    let s = w + seq!['_'] + rest;
    assert forall|j: int| 0 <= j < n implies s[j] != '_' by {
        assert(s[j] == w[j]);
    }
    text::lemma_char_at_unique(s, '_', n);
    text::lemma_char_at_unique(w, '_', n);
    assert(s.take(n) == w);
    assert(s.skip(n + 1) == rest);
    let ws = text::pieces(s, '_');
    assert(ws == seq![w] + text::pieces(rest, '_'));
    assert(ws.skip(1) == text::pieces(rest, '_'));
    assert(seq![w].skip(1) == Seq::<Seq<char>>::empty());
    assert(capitalized_words(Seq::<Seq<char>>::empty()) == Seq::<char>::empty());
    assert(pascal(w) == capitalized(w) + Seq::<char>::empty());
    assert(capitalized(w) + Seq::<char>::empty() == capitalized(w));
}

/// In ASCII, the first letter of a word moves from `a` to `z` up to `A` to `Z`.
pub proof fn law_ascii_words_are_capitalized(w: Seq<char>, rest: Seq<char>)
    requires
        forall|i: int| 0 <= i < w.len() ==> #[trigger] w[i] != '_',
    ensures
        w.len() > 0 ==> ascii_pascal(w, true) == seq![
            if 'a' <= w[0] <= 'z' {
                ((w[0] as u32) - 32) as char
            } else {
                w[0]
            },
        ] + w.skip(1),
        ascii_pascal(w + seq!['_'] + rest, true) == ascii_pascal(w, true) + ascii_pascal(
            rest,
            true,
        ),
{
    let n = w.len() as int;
    let s = w + seq!['_'] + rest;
    assert forall|j: int| 0 <= j < n implies s[j] != '_' by {
        assert(s[j] == w[j]);
    }
    assert(s[n] == '_');
    lemma_ascii_pascal_word(s, n, true);
    lemma_ascii_pascal_word(w, n, true);
    assert(s.skip(n).skip(1) == rest);
    assert(s.take(n) == w);
    assert(w.take(n) == w);
    if n > 0 {
        assert(s.subrange(1, n) == w.subrange(1, n));
        assert(w.subrange(1, n) == w.skip(1));
        let x = seq![ascii_upper(w[0])] + w.skip(1);
        assert(x + Seq::<char>::empty() == x);
    } else {
        assert(w + Seq::<char>::empty() == w);
    }
}

} // verus!
