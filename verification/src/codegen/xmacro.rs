//! Reading x-macros out of C headers.
//!
//! An x-macro lists its entries as `x(...)` invocations:
//!
//! ```c
//! #define BCH_EXAMPLE()    \
//!     x(first,  0)         \
//!     x(second, 1)
//! ```
use crate::text;
use crate::text::{find, next_line, push_text, starts_at, to_chars, to_text, trim, trim_end_char};
use vstd::prelude::*;
use vstd::slice::slice_subrange;

verus! {

/// Where the first comma of `s` outside any parentheses stands, `depth` parentheses being open
/// at the start of `s`; the length of `s` where there is none.
pub open spec fn top_comma(s: Seq<char>, depth: int) -> int
    decreases s.len(),
{
    if s.len() == 0 || (s[0] == ',' && depth == 0) {
        0
    } else if s[0] == '(' {
        1 + top_comma(s.skip(1), depth + 1)
    } else if s[0] == ')' {
        1 + top_comma(s.skip(1), depth - 1)
    } else {
        1 + top_comma(s.skip(1), depth)
    }
}

/// The place of the comma lies in the text or at its end.
pub proof fn lemma_top_comma(s: Seq<char>, depth: int)
    ensures
        0 <= top_comma(s, depth) <= s.len(),
    decreases s.len(),
{
    if s.len() > 0 {
        lemma_top_comma(s.skip(1), depth);
        lemma_top_comma(s.skip(1), depth + 1);
        lemma_top_comma(s.skip(1), depth - 1);
    }
}

/// The arguments in `s`: what stands between its commas outside parentheses, without the white
/// space around it. An empty last argument does not count.
pub open spec fn xmacro_args(s: Seq<char>) -> Seq<Seq<char>>
    decreases s.len(),
{
    proof {
        lemma_top_comma(s, 0);
    }
    let n = top_comma(s, 0);
    if n < s.len() {
        seq![text::trimmed(s.take(n))] + xmacro_args(s.skip(n + 1))
    } else if text::trimmed(s).len() == 0 {
        Seq::empty()
    } else {
        seq![text::trimmed(s)]
    }
}

fn find_top_comma(cs: &[char], at: usize) -> (r: usize)
    requires
        at <= cs.len(),
    ensures
        at <= r <= cs.len(),
        r - at == top_comma(cs@.skip(at as int), 0),
{
    let mut depth: i128 = 0;
    let mut i: usize = at;
    while i < cs.len() && !(cs[i] == ',' && depth == 0)
        invariant
            at <= i <= cs.len(),
            -(i - at) <= depth <= i - at,
            top_comma(cs@.skip(at as int), 0) == (i - at) + top_comma(
                cs@.skip(i as int),
                depth as int,
            ),
        decreases cs.len() - i,
    {
        assert(cs@.skip(i as int).skip(1) == cs@.skip(i + 1));
        if cs[i] == '(' {
            depth = depth + 1;
        } else if cs[i] == ')' {
            depth = depth - 1;
        }
        i = i + 1;
    }
    i
}

/// Splits the text between the parentheses of an `x(...)` invocation into its arguments.
pub fn split_xmacro_args(s: &str) -> (r: Vec<String>)
    ensures
        r.deep_view() == xmacro_args(s@),
{
    let cs = to_chars(s);
    split_args(cs.as_slice())
}

fn split_args(cs: &[char]) -> (r: Vec<String>)
    ensures
        r.deep_view() == xmacro_args(cs@),
{
    let mut args: Vec<String> = Vec::new();
    let mut at: usize = 0;
    assert(cs@.skip(0) == cs@);
    assert(args.deep_view() == Seq::<Seq<char>>::empty());
    loop
        invariant
            at <= cs.len(),
            args.deep_view() + xmacro_args(cs@.skip(at as int)) == xmacro_args(cs@),
        decreases cs.len() - at,
    {
        let ghost rest = cs@.skip(at as int);
        let n: usize = find_top_comma(cs, at);
        assert(cs@.subrange(at as int, n as int) == rest.take(n - at));
        let arg = trim(slice_subrange(cs, at, n));
        if n == cs.len() {
            assert(rest.take(n - at) == rest);
            if arg.len() > 0 {
                push_text(&mut args, to_text(arg));
            }
            assert(args.deep_view() == xmacro_args(cs@));
            return args;
        }
        assert(rest.skip(n - at + 1) == cs@.skip(n + 1));
        let ghost before = args.deep_view();
        push_text(&mut args, to_text(arg));
        assert(args.deep_view() + xmacro_args(cs@.skip(n + 1)) == before + (seq![arg@]
            + xmacro_args(cs@.skip(n + 1))));
        at = n + 1;
    }
}

/// One line of a macro's text: without the backslashes that continue it, and without the white
/// space around it.
pub open spec fn line_text(t: Seq<char>) -> Seq<char> {
    text::trimmed(text::without_trailing(t, '\\')).push(' ')
}

/// What follows the first `)` of `s`, or all of `s` where it has none.
pub open spec fn after_params(s: Seq<char>) -> Seq<char> {
    match text::found(s, seq![')']) {
        Some(i) => s.skip(i as int + 1),
        None => s,
    }
}

/// Whether the line `t` is continued on the next one.
pub open spec fn continued(t: Seq<char>) -> bool {
    t.len() > 0 && t.last() == '\\'
}

/// The text of a macro whose definition goes on with the lines `ls`.
pub open spec fn continuation(ls: Seq<Seq<char>>) -> Seq<char>
    decreases ls.len(),
{
    if ls.len() == 0 {
        Seq::empty()
    } else {
        let t = text::trimmed(ls[0]);
        line_text(t) + if continued(t) {
            continuation(ls.skip(1))
        } else {
            Seq::empty()
        }
    }
}

/// The text of the macro that is defined by the first of the lines `ls` that starts with
/// `prefix` and the parenthesis that opens the macro's parameters, white space aside.
pub open spec fn macro_text(ls: Seq<Seq<char>>, prefix: Seq<char>) -> Seq<char>
    decreases ls.len(),
{
    if ls.len() == 0 {
        Seq::empty()
    } else {
        let t = text::trimmed(ls[0]);
        if text::starts(t, prefix.push('(')) {
            line_text(after_params(t.skip(prefix.len() as int))) + if continued(t) {
                continuation(ls.skip(1))
            } else {
                Seq::empty()
            }
        } else {
            macro_text(ls.skip(1), prefix)
        }
    }
}

fn is_continued(t: &[char]) -> (r: bool)
    ensures
        r == continued(t@),
{
    t.len() > 0 && t[t.len() - 1] == '\\'
}

fn push_line(out: &mut Vec<char>, t: &[char])
    ensures
        final(out)@ == old(out)@ + line_text(t@),
{
    let body = trim(trim_end_char(t, '\\'));
    out.extend_from_slice(body);
    out.push(' ');
    assert(out@ == old(out)@ + line_text(t@));
}

fn skip_params(s: &[char]) -> (r: &[char])
    ensures
        r@ == after_params(s@),
{
    let n: usize = s.len();
    assert(s@.skip(0) == s@);
    let mut close: Vec<char> = Vec::new();
    close.push(')');
    assert(close@ == seq![')'] && close@.len() == 1);
    match find(s, 0, close.as_slice()) {
        Some(i) => {
            assert(s@.skip(i + 1) == s@.subrange(i + 1, s@.len() as int));
            slice_subrange(s, i + 1, n)
        },
        None => s,
    }
}

fn read_continuation(cs: &[char], from: usize, out: &mut Vec<char>)
    requires
        from <= cs.len(),
    ensures
        final(out)@ == old(out)@ + continuation(text::lines(cs@.skip(from as int))),
{
    let ghost whole = out@ + continuation(text::lines(cs@.skip(from as int)));
    let mut at: usize = from;
    while at < cs.len()
        invariant
            at <= cs.len(),
            whole == old(out)@ + continuation(text::lines(cs@.skip(from as int))),
            out@ + continuation(text::lines(cs@.skip(at as int))) == whole,
        decreases cs.len() - at,
    {
        let ghost ls = text::lines(cs@.skip(at as int));
        let (line, next) = next_line(cs, at);
        assert(ls.skip(1) == text::lines(cs@.skip(next as int)));
        let t = trim(line);
        let ghost before = out@;
        push_line(out, t);
        assert(ls[0] == line@);
        if !is_continued(t) {
            assert(out@ == whole);
            return;
        }
        assert(out@ + continuation(ls.skip(1)) == before + continuation(ls));
        at = next;
    }
    assert(out@ == whole);
}

fn starts_macro(t: &[char], prefix: &[char]) -> (r: bool)
    ensures
        r == text::starts(t@, prefix@.push('(')),
{
    let n: usize = prefix.len();
    assert(t@.skip(0) == t@);
    let r = starts_at(t, 0, prefix) && n < t.len() && t[n] == '(';
    if n < t.len() {
        assert(t@.take(n + 1) == t@.take(n as int).push(t@[n as int]));
        assert(t@.take(n + 1).take(n as int) == t@.take(n as int));
        assert(prefix@.push('(').take(n as int) == prefix@);
        assert(prefix@.push('(').last() == '(');
        assert(t@.take(n + 1).last() == t@[n as int]);
    }
    r
}

fn read_macro(cs: &[char], prefix: &[char]) -> (out: Vec<char>)
    ensures
        out@ == macro_text(text::lines(cs@), prefix@),
{
    let mut out: Vec<char> = Vec::new();
    let mut at: usize = 0;
    assert(cs@.skip(0) == cs@);
    while at < cs.len()
        invariant
            at <= cs.len(),
            out@.len() == 0,
            macro_text(text::lines(cs@.skip(at as int)), prefix@) == macro_text(
                text::lines(cs@),
                prefix@,
            ),
        decreases cs.len() - at,
    {
        let ghost ls = text::lines(cs@.skip(at as int));
        let (line, next) = next_line(cs, at);
        assert(ls.skip(1) == text::lines(cs@.skip(next as int)));
        assert(ls[0] == line@);
        let t = trim(line);
        if starts_macro(t, prefix) {
            assert(t@.skip(prefix@.len() as int) == t@.subrange(
                prefix@.len() as int,
                t@.len() as int,
            ));
            push_line(&mut out, skip_params(slice_subrange(t, prefix.len(), t.len())));
            if is_continued(t) {
                read_continuation(cs, next, &mut out);
            }
            assert(out@ == macro_text(ls, prefix@));
            return out;
        }
        at = next;
    }
    out
}

/// Where the parenthesis that closes the outermost of `depth` open ones stands in `s`.
pub open spec fn closing(s: Seq<char>, depth: nat) -> Option<nat>
    decreases s.len(),
{
    if s.len() == 0 || depth == 0 {
        None
    } else if s[0] == ')' && depth == 1 {
        Some(0)
    } else {
        let inner = if s[0] == '(' {
            depth + 1
        } else if s[0] == ')' {
            (depth - 1) as nat
        } else {
            depth
        };
        match closing(s.skip(1), inner) {
            Some(i) => Some(i + 1),
            None => None,
        }
    }
}

/// A closing parenthesis lies in the text.
pub proof fn lemma_closing(s: Seq<char>, depth: nat)
    ensures
        closing(s, depth) matches Some(i) ==> i < s.len(),
    decreases s.len(),
{
    if s.len() > 0 && depth > 0 {
        lemma_closing(s.skip(1), depth);
        lemma_closing(s.skip(1), depth + 1);
        lemma_closing(s.skip(1), (depth - 1) as nat);
    }
}

/// The arguments of each `x(...)` in `m`, in order, as far as its parentheses close.
pub open spec fn invocations(m: Seq<char>) -> Seq<Seq<Seq<char>>>
    decreases m.len(),
{
    match text::found(m, seq!['x', '(']) {
        None => Seq::empty(),
        Some(i) => {
            let inside = m.skip(i as int + 2);
            proof {
                text::lemma_found(m, seq!['x', '(']);
                lemma_closing(inside, 1);
            }
            match closing(inside, 1) {
                None => Seq::empty(),
                Some(k) => seq![xmacro_args(inside.take(k as int))] + invocations(
                    inside.skip(k as int + 1),
                ),
            }
        },
    }
}

fn find_closing(cs: &[char], open: usize) -> (r: Option<usize>)
    requires
        open <= cs.len(),
    ensures
        match r {
            Some(i) => open <= i < cs.len() && closing(cs@.skip(open as int), 1) == Some(
                (i - open) as nat,
            ),
            None => closing(cs@.skip(open as int), 1) is None,
        },
{
    let mut depth: u128 = 1;
    let mut i: usize = open;
    while i < cs.len()
        invariant
            open <= i <= cs.len(),
            1 <= depth <= i - open + 1,
            match closing(cs@.skip(i as int), depth as nat) {
                Some(k) => closing(cs@.skip(open as int), 1) == Some((k + (i - open)) as nat),
                None => closing(cs@.skip(open as int), 1) is None,
            },
        decreases cs.len() - i,
    {
        assert(cs@.skip(i as int).skip(1) == cs@.skip(i + 1));
        if cs[i] == '(' {
            depth = depth + 1;
        } else if cs[i] == ')' {
            if depth == 1 {
                return Some(i);
            }
            depth = depth - 1;
        }
        i = i + 1;
    }
    None
}

fn read_invocations(cs: &[char]) -> (r: Vec<Vec<String>>)
    ensures
        r.deep_view() == invocations(cs@),
{
    let mut mark: Vec<char> = Vec::new();
    mark.push('x');
    mark.push('(');
    assert(mark@ == seq!['x', '(']);
    let mut entries: Vec<Vec<String>> = Vec::new();
    let mut pos: usize = 0;
    assert(cs@.skip(0) == cs@);
    assert(entries.deep_view() == Seq::<Seq<Seq<char>>>::empty());
    loop
        invariant
            pos <= cs.len(),
            mark@ == seq!['x', '('],
            entries.deep_view() + invocations(cs@.skip(pos as int)) == invocations(cs@),
        decreases cs.len() - pos,
    {
        let ghost rest = cs@.skip(pos as int);
        match find(cs, pos, mark.as_slice()) {
            None => {
                assert(entries.deep_view() == invocations(cs@));
                return entries;
            },
            Some(start) => {
                let open: usize = start + 2;
                let ghost inside = cs@.skip(open as int);
                assert(rest.skip((start - pos) + 2) == inside);
                match find_closing(cs, open) {
                    None => {
                        assert(entries.deep_view() == invocations(cs@));
                        return entries;
                    },
                    Some(i) => {
                        assert(cs@.subrange(open as int, i as int) == inside.take(i - open));
                        assert(inside.skip(i - open + 1) == cs@.skip(i + 1));
                        let args = split_args(slice_subrange(cs, open, i));
                        let ghost before = entries.deep_view();
                        entries.push(args);
                        assert(entries.deep_view() == before.push(args.deep_view()));
                        assert(entries.deep_view() + invocations(cs@.skip(i + 1)) == before + (
                        seq![args.deep_view()] + invocations(cs@.skip(i + 1))));
                        pos = i + 1;
                    },
                }
            },
        }
    }
}

/// The entries of the x-macro `name` that `header` defines.
pub open spec fn xmacro_entries(header: Seq<char>, name: Seq<char>) -> Seq<Seq<Seq<char>>> {
    invocations(macro_text(text::lines(header), "#define "@ + name))
}

/// Finds `#define {macro_name}(...)` at the start of a line of a C header, and extracts all
/// `x(...)` invocations of the definition, each as a list of trimmed argument strings.
pub fn parse_xmacro(header: &str, macro_name: &str) -> (r: Vec<Vec<String>>)
    ensures
        r.deep_view() == xmacro_entries(header@, macro_name@),
{
    let mut prefix = to_chars("#define ");
    let name = to_chars(macro_name);
    prefix.extend_from_slice(name.as_slice());
    assert(prefix@ == "#define "@ + macro_name@);
    let cs = to_chars(header);
    let text = read_macro(cs.as_slice(), prefix.as_slice());
    read_invocations(text.as_slice())
}

proof fn lemma_args_trimmed(s: Seq<char>, j: int)
    requires
        0 <= j < xmacro_args(s).len(),
    ensures
        text::trimmed(xmacro_args(s)[j]) == xmacro_args(s)[j],
    decreases s.len(),
{
    lemma_top_comma(s, 0);
    let n = top_comma(s, 0);
    if n < s.len() {
        if j == 0 {
            text::lemma_trimmed(s.take(n));
        } else {
            lemma_args_trimmed(s.skip(n + 1), j - 1);
        }
    } else {
        text::lemma_trimmed(s);
    }
}

proof fn lemma_invocations_trimmed(m: Seq<char>, i: int, j: int)
    requires
        0 <= i < invocations(m).len(),
        0 <= j < invocations(m)[i].len(),
    ensures
        text::trimmed(invocations(m)[i][j]) == invocations(m)[i][j],
    decreases m.len(),
{
    text::lemma_found(m, seq!['x', '(']);
    if let Some(at) = text::found(m, seq!['x', '(']) {
        let inside = m.skip(at as int + 2);
        lemma_closing(inside, 1);
        if let Some(k) = closing(inside, 1) {
            if i == 0 {
                lemma_args_trimmed(inside.take(k as int), j);
            } else {
                lemma_invocations_trimmed(inside.skip(k as int + 1), i - 1, j);
            }
        }
    }
}

/// No argument of an entry that is read from a header has white space at its ends.
pub proof fn law_arguments_are_trimmed(header: Seq<char>, name: Seq<char>, i: int, j: int)
    requires
        0 <= i < xmacro_entries(header, name).len(),
        0 <= j < xmacro_entries(header, name)[i].len(),
    ensures
        ({
            let arg = xmacro_entries(header, name)[i][j];
            arg.len() > 0 ==> !text::white_space(arg[0]) && !text::white_space(arg.last())
        }),
{
    let m = macro_text(text::lines(header), "#define "@ + name);
    lemma_invocations_trimmed(m, i, j);
    text::lemma_trimmed(invocations(m)[i][j]);
}

/// Whether the parentheses of `s` match, `depth` of them being open at its start.
pub open spec fn balanced(s: Seq<char>, depth: nat) -> bool
    decreases s.len(),
{
    if s.len() == 0 {
        depth == 0
    } else if s[0] == '(' {
        balanced(s.skip(1), depth + 1)
    } else if s[0] == ')' {
        depth > 0 && balanced(s.skip(1), (depth - 1) as nat)
    } else {
        balanced(s.skip(1), depth)
    }
}

/// Whether `a` can be written down as one argument and read back: it has matching parentheses,
/// no comma outside them, and no white space at its ends.
pub open spec fn is_argument(a: Seq<char>) -> bool {
    &&& a.len() > 0
    &&& text::trimmed(a) == a
    &&& balanced(a, 0)
    &&& top_comma(a, 0) == a.len()
}

/// A list of arguments as C writes it.
pub open spec fn argument_list(args: Seq<Seq<char>>) -> Seq<char>
    decreases args.len(),
{
    if args.len() == 0 {
        Seq::empty()
    } else if args.len() == 1 {
        args[0]
    } else {
        args[0] + seq![',', ' '] + argument_list(args.skip(1))
    }
}

proof fn lemma_top_comma_after(a: Seq<char>, rest: Seq<char>, depth: nat)
    requires
        balanced(a, depth),
        top_comma(a, depth as int) == a.len(),
    ensures
        top_comma(a + rest, depth as int) == a.len() + top_comma(rest, 0),
    decreases a.len(),
{
    if a.len() == 0 {
        assert(a + rest == rest);
    } else {
        assert((a + rest).skip(1) == a.skip(1) + rest);
        let inner = if a[0] == '(' {
            depth + 1
        } else if a[0] == ')' {
            (depth - 1) as nat
        } else {
            depth
        };
        lemma_top_comma_after(a.skip(1), rest, inner);
    }
}

proof fn lemma_trim_leading_blank(a: Seq<char>)
    requires
        text::trimmed(a) == a,
    ensures
        text::trimmed(seq![' '] + a) == a,
{
    assert((seq![' '] + a).skip(1) == a);
}

proof fn lemma_args_of_list(args: Seq<Seq<char>>, blank: bool)
    requires
        args.len() > 0,
        forall|i: int| 0 <= i < args.len() ==> is_argument(#[trigger] args[i]),
    ensures
        ({
            let lead = if blank {
                seq![' ']
            } else {
                Seq::empty()
            };
            xmacro_args(lead + argument_list(args)) == args
        }),
    decreases args.len(),
{
    let lead: Seq<char> = if blank {
        seq![' ']
    } else {
        Seq::empty()
    };
    let a = args[0];
    let s = lead + argument_list(args);
    let first = lead + a;
    if blank {
        lemma_trim_leading_blank(a);
        assert(first.skip(1) == a);
    } else {
        assert(first == a);
    }
    assert(text::trimmed(first) == a);
    assert(balanced(first, 0));
    assert(top_comma(first, 0) == first.len());
    if args.len() == 1 {
        assert(s == first);
        assert(xmacro_args(s) == args);
    } else {
        let rest = seq![',', ' '] + argument_list(args.skip(1));
        assert(s == first + rest);
        lemma_top_comma_after(first, rest, 0);
        assert(rest[0] == ',');
        let n = first.len() as int;
        assert(top_comma(s, 0) == n);
        assert(s.take(n) == first);
        assert(s.skip(n + 1) == seq![' '] + argument_list(args.skip(1)));
        lemma_args_of_list(args.skip(1), true);
        assert(xmacro_args(s) == seq![a] + args.skip(1));
        assert(seq![a] + args.skip(1) == args);
    }
}

/// Splitting an argument list gives the arguments back.
pub proof fn law_split_inverts_join(args: Seq<Seq<char>>)
    requires
        args.len() > 0,
        forall|i: int| 0 <= i < args.len() ==> is_argument(#[trigger] args[i]),
    ensures
        xmacro_args(argument_list(args)) == args,
{
    lemma_args_of_list(args, false);
    assert(Seq::<char>::empty() + argument_list(args) == argument_list(args));
}

/// A list of entries as the text of an x-macro.
pub open spec fn entry_list(entries: Seq<Seq<Seq<char>>>) -> Seq<char>
    decreases entries.len(),
{
    if entries.len() == 0 {
        Seq::empty()
    } else {
        seq!['x', '('] + argument_list(entries[0]) + seq![')', ' '] + entry_list(entries.skip(1))
    }
}

proof fn lemma_balanced_join(a: Seq<char>, b: Seq<char>, depth: nat)
    requires
        balanced(a, depth),
        balanced(b, 0),
    ensures
        balanced(a + b, depth),
    decreases a.len(),
{
    if a.len() == 0 {
        assert(a + b == b);
    } else {
        assert((a + b).skip(1) == a.skip(1) + b);
        let inner = if a[0] == '(' {
            depth + 1
        } else if a[0] == ')' {
            (depth - 1) as nat
        } else {
            depth
        };
        lemma_balanced_join(a.skip(1), b, inner);
    }
}

proof fn lemma_list_balanced(args: Seq<Seq<char>>)
    requires
        forall|i: int| 0 <= i < args.len() ==> is_argument(#[trigger] args[i]),
    ensures
        balanced(argument_list(args), 0),
    decreases args.len(),
{
    if args.len() > 1 {
        lemma_list_balanced(args.skip(1));
        let tail = argument_list(args.skip(1));
        let rest = seq![',', ' '] + tail;
        assert(rest.skip(1) == seq![' '] + tail);
        assert((seq![' '] + tail).skip(1) == tail);
        assert(balanced(seq![' '] + tail, 0));
        assert(balanced(rest, 0));
        lemma_balanced_join(args[0], rest, 0);
        assert(argument_list(args) == args[0] + rest);
    }
}

proof fn lemma_closing_after(a: Seq<char>, rest: Seq<char>, depth: nat)
    requires
        balanced(a, depth),
        rest.len() > 0,
        rest[0] == ')',
    ensures
        closing(a + rest, depth + 1) == Some(a.len()),
    decreases a.len(),
{
    if a.len() == 0 {
        assert(a + rest == rest);
    } else {
        assert((a + rest).skip(1) == a.skip(1) + rest);
        let inner = if a[0] == '(' {
            depth + 1
        } else if a[0] == ')' {
            (depth - 1) as nat
        } else {
            depth
        };
        lemma_closing_after(a.skip(1), rest, inner);
    }
}

proof fn lemma_invocations_of_list(entries: Seq<Seq<Seq<char>>>, blank: bool)
    requires
        forall|i: int| 0 <= i < entries.len() ==> (#[trigger] entries[i]).len() > 0,
        forall|i: int, j: int|
            0 <= i < entries.len() && 0 <= j < entries[i].len() ==> is_argument(
                #[trigger] entries[i][j],
            ),
    ensures
        ({
            let lead = if blank {
                seq![' ']
            } else {
                Seq::empty()
            };
            invocations(lead + entry_list(entries)) == entries
        }),
    decreases entries.len(),
{
    let lead: Seq<char> = if blank {
        seq![' ']
    } else {
        Seq::empty()
    };
    let mark = seq!['x', '('];
    let m = lead + entry_list(entries);
    if entries.len() == 0 {
        assert(m == lead);
        if blank {
            assert(m.skip(1) == Seq::<char>::empty());
        }
        assert(!text::starts(m, mark));
        assert(!text::starts(Seq::empty(), mark));
        assert(text::found(m, mark) is None);
        assert(invocations(m) == entries);
    } else {
        let args = entries[0];
        let list = argument_list(args);
        let rest = seq![')', ' '] + entry_list(entries.skip(1));
        let body = mark + list + rest;
        assert(entry_list(entries) == body);
        assert(body.take(2) == mark);
        assert(text::starts(body, mark));
        let at = lead.len();
        if blank {
            assert(m.take(2)[0] == ' ');
            assert(!text::starts(m, mark));
            assert(m.skip(1) == body);
        } else {
            assert(m == body);
        }
        assert(text::found(m, mark) == Some(at));
        let inside = m.skip(at as int + 2);
        assert(inside == list + rest);
        assert forall|j: int| 0 <= j < args.len() implies is_argument(#[trigger] args[j]) by {
            assert(is_argument(entries[0][j]));
        }
        lemma_list_balanced(args);
        lemma_closing_after(list, rest, 0);
        assert(inside.take(list.len() as int) == list);
        assert(inside.skip(list.len() as int + 1) == seq![' '] + entry_list(entries.skip(1)));
        law_split_inverts_join(args);
        let tail = entries.skip(1);
        assert forall|i: int, j: int|
            0 <= i < tail.len() && 0 <= j < tail[i].len() implies is_argument(
            #[trigger] tail[i][j],
        ) by {
            assert(is_argument(entries[i + 1][j]));
        }
        lemma_invocations_of_list(tail, true);
        assert(invocations(m) == seq![args] + tail);
        assert(seq![args] + tail == entries);
    }
}

/// Reading the text of an x-macro gives back the entries that were written there.
pub proof fn law_read_inverts_listing(entries: Seq<Seq<Seq<char>>>)
    requires
        forall|i: int| 0 <= i < entries.len() ==> (#[trigger] entries[i]).len() > 0,
        forall|i: int, j: int|
            0 <= i < entries.len() && 0 <= j < entries[i].len() ==> is_argument(
                #[trigger] entries[i][j],
            ),
    ensures
        invocations(entry_list(entries)) == entries,
{
    lemma_invocations_of_list(entries, false);
    assert(Seq::<char>::empty() + entry_list(entries) == entry_list(entries));
}

/// Whether `s` holds no line feed.
pub open spec fn one_line(s: Seq<char>) -> bool {
    forall|i: int| 0 <= i < s.len() ==> #[trigger] s[i] != '\n'
}

/// One line of the definition of an x-macro: an entry, and a backslash where the definition goes on.
pub open spec fn entry_line(args: Seq<Seq<char>>, last: bool) -> Seq<char> {
    seq!['\t', 'x', '('] + argument_list(args) + seq![')'] + if last {
        Seq::empty()
    } else {
        seq![' ', '\\']
    }
}

/// The lines of the definition of an x-macro that list its entries.
pub open spec fn entry_lines(entries: Seq<Seq<Seq<char>>>) -> Seq<Seq<char>>
    decreases entries.len(),
{
    if entries.len() == 0 {
        Seq::empty()
    } else {
        seq![entry_line(entries[0], entries.len() == 1)] + entry_lines(entries.skip(1))
    }
}

/// The first line of the definition of the x-macro `name`.
pub open spec fn define_line(name: Seq<char>) -> Seq<char> {
    "#define "@ + name + seq!['(', ')', ' ', '\\']
}

/// A header that defines the x-macro `name`, one entry on each line.
pub open spec fn definition(name: Seq<char>, entries: Seq<Seq<Seq<char>>>) -> Seq<char> {
    text::unlines(seq![define_line(name)] + entry_lines(entries))
}

/// Whether the entries can be written down and read back: each has arguments, and each argument
/// fits on a line.
pub open spec fn writable_entries(entries: Seq<Seq<Seq<char>>>) -> bool {
    &&& forall|i: int| 0 <= i < entries.len() ==> (#[trigger] entries[i]).len() > 0
    &&& forall|i: int, j: int|
        0 <= i < entries.len() && 0 <= j < entries[i].len() ==> is_argument(
            #[trigger] entries[i][j],
        ) && one_line(entries[i][j])
}

proof fn lemma_list_on_one_line(args: Seq<Seq<char>>)
    requires
        forall|j: int| 0 <= j < args.len() ==> one_line(#[trigger] args[j]),
    ensures
        one_line(argument_list(args)),
    decreases args.len(),
{
    if args.len() > 0 {
        assert(one_line(args[0]));
        let rest = args.skip(1);
        assert forall|j: int| 0 <= j < rest.len() implies one_line(#[trigger] rest[j]) by {
            assert(rest[j] == args[j + 1]);
        }
        lemma_list_on_one_line(rest);
        let list = argument_list(args);
        let tail = argument_list(rest);
        assert forall|i: int| 0 <= i < list.len() implies #[trigger] list[i] != '\n' by {
            let n = args[0].len() as int;
            if i < n {
                assert(list[i] == args[0][i]);
            } else if i >= n + 2 {
                assert(list[i] == tail[i - n - 2]);
            }
        }
    }
}

proof fn lemma_trim_keeps(s: Seq<char>)
    requires
        s.len() > 0,
        !text::white_space(s[0]),
        !text::white_space(s.last()),
    ensures
        text::trimmed(s) == s,
{
}

proof fn lemma_entry_line(args: Seq<Seq<char>>, last: bool)
    requires
        forall|j: int| 0 <= j < args.len() ==> one_line(#[trigger] args[j]),
    ensures
        text::plain_line(entry_line(args, last)),
        line_text(text::trimmed(entry_line(args, last))) == seq!['x', '('] + argument_list(args)
            + seq![')', ' '],
        continued(text::trimmed(entry_line(args, last))) == !last,
{
    lemma_list_on_one_line(args);
    let list = argument_list(args);
    let l = entry_line(args, last);
    let inner = seq!['x', '('] + list + seq![')'];
    assert forall|i: int| 0 <= i < l.len() implies #[trigger] l[i] != '\n' by {
        if 3 <= i < 3 + list.len() {
            assert(l[i] == list[i - 3]);
        }
    }
    let t = l.skip(1);
    assert(l[0] == '\t');
    assert(t[0] == 'x');
    assert(text::trimmed_start(t) == t);
    assert(text::trimmed_start(l) == t);
    lemma_trim_keeps(t);
    assert(text::trimmed(l) == t);
    lemma_trim_keeps(inner);
    if last {
        assert(t == inner);
        assert(text::without_trailing(t, '\\') == t);
    } else {
        let with_blank = inner.push(' ');
        assert(t == with_blank.push('\\'));
        assert(t.drop_last() == with_blank);
        assert(text::without_trailing(with_blank, '\\') == with_blank);
        assert(text::without_trailing(t, '\\') == with_blank);
        assert(text::trimmed_start(with_blank) == with_blank);
        assert(with_blank.drop_last() == inner);
        assert(text::trimmed_end(inner) == inner);
        assert(text::trimmed(with_blank) == inner);
    }
    assert(inner.push(' ') == seq!['x', '('] + list + seq![')', ' ']);
}

proof fn lemma_continuation_of_entries(entries: Seq<Seq<Seq<char>>>)
    requires
        writable_entries(entries),
    ensures
        continuation(entry_lines(entries)) == entry_list(entries),
        forall|i: int|
            0 <= i < entry_lines(entries).len() ==> text::plain_line(
                #[trigger] entry_lines(entries)[i],
            ),
    decreases entries.len(),
{
    if entries.len() > 0 {
        let args = entries[0];
        let rest = entries.skip(1);
        assert forall|j: int| 0 <= j < args.len() implies one_line(#[trigger] args[j]) by {
            assert(one_line(entries[0][j]));
        }
        assert forall|i: int, j: int|
            0 <= i < rest.len() && 0 <= j < rest[i].len() implies is_argument(#[trigger] rest[i][j])
            && one_line(rest[i][j]) by {
            assert(is_argument(entries[i + 1][j]));
        }
        lemma_continuation_of_entries(rest);
        lemma_entry_line(args, entries.len() == 1);
        let ls = entry_lines(entries);
        assert(ls.skip(1) == entry_lines(rest));
        assert(ls[0] == entry_line(args, entries.len() == 1));
        if entries.len() == 1 {
            assert(entry_list(rest) == Seq::<char>::empty());
        }
        assert(continuation(ls) == entry_list(entries));
        assert forall|i: int| 0 <= i < ls.len() implies text::plain_line(#[trigger] ls[i]) by {
            if i > 0 {
                assert(ls[i] == entry_lines(rest)[i - 1]);
            }
        }
    }
}

/// The entries of an x-macro that a header defines, one on each line, are read back.
pub proof fn law_definition_is_read_back(name: Seq<char>, entries: Seq<Seq<Seq<char>>>)
    requires
        one_line(name),
        writable_entries(entries),
    ensures
        xmacro_entries(definition(name, entries), name) == entries,
{
    let first = define_line(name);
    let prefix = "#define "@ + name;
    let ls = seq![first] + entry_lines(entries);
    lemma_continuation_of_entries(entries);
    reveal_strlit("#define ");
    let params = seq!['(', ')', ' ', '\\'];
    assert(first == prefix + params);
    assert forall|i: int| 0 <= i < first.len() implies #[trigger] first[i] != '\n' by {
        if 8 <= i < 8 + name.len() {
            assert(first[i] == name[i - 8]);
        }
    }
    assert(first[0] == '#');
    assert(first.last() == '\\');
    lemma_trim_keeps(first);
    assert forall|i: int| 0 <= i < ls.len() implies text::plain_line(#[trigger] ls[i]) by {
        if i > 0 {
            assert(ls[i] == entry_lines(entries)[i - 1]);
        }
    }
    text::law_lines_inverts_unlines(ls);
    assert(first.take(prefix.len() as int + 1) == prefix.push('('));
    assert(text::starts(first, prefix.push('(')));
    assert(first.skip(prefix.len() as int) == params);
    let close = seq![')'];
    assert(params.take(1)[0] == '(');
    assert(!text::starts(params, close));
    assert(params.skip(1).take(1) == close);
    assert(text::found(params.skip(1), close) == Some(0nat));
    assert(text::found(params, close) == Some(1nat));
    let rest = params.skip(2);
    assert(rest == seq![' ', '\\']);
    assert(after_params(params) == rest);
    assert(rest.drop_last() == seq![' ']);
    assert(text::without_trailing(seq![' '], '\\') == seq![' ']);
    assert(text::without_trailing(rest, '\\') == seq![' ']);
    assert(seq![' '].skip(1) == Seq::<char>::empty());
    assert(text::trimmed_start(Seq::<char>::empty()) == Seq::<char>::empty());
    assert(text::trimmed_start(seq![' ']) == Seq::<char>::empty());
    assert(text::trimmed(seq![' ']) == Seq::<char>::empty());
    assert(line_text(rest) == seq![' ']);
    assert(ls.skip(1) == entry_lines(entries));
    assert(macro_text(ls, prefix) == seq![' '] + entry_list(entries));
    assert forall|i: int, j: int|
        0 <= i < entries.len() && 0 <= j < entries[i].len() implies is_argument(
        #[trigger] entries[i][j],
    ) by {}
    lemma_invocations_of_list(entries, true);
}

/// A line that defines another macro, even one whose name begins with the name that is asked for,
/// is passed over.
pub proof fn law_other_macros_are_passed_over(
    name: Seq<char>,
    other: Seq<char>,
    ls: Seq<Seq<char>>,
)
    requires
        text::plain_line(other),
        forall|i: int| 0 <= i < ls.len() ==> text::plain_line(#[trigger] ls[i]),
        !text::starts(text::trimmed(other), ("#define "@ + name).push('(')),
    ensures
        xmacro_entries(text::unlines(seq![other] + ls), name) == xmacro_entries(
            text::unlines(ls),
            name,
        ),
{
    let all = seq![other] + ls;
    assert forall|i: int| 0 <= i < all.len() implies text::plain_line(#[trigger] all[i]) by {
        if i > 0 {
            assert(all[i] == ls[i - 1]);
        }
    }
    text::law_lines_inverts_unlines(all);
    text::law_lines_inverts_unlines(ls);
    assert(all.skip(1) == ls);
}

/// How many parentheses are open at the end of `s`: those that open in it, less those that close.
pub open spec fn depth(s: Seq<char>) -> int
    decreases s.len(),
{
    if s.len() == 0 {
        0
    } else {
        depth(s.drop_last()) + if s.last() == '(' {
            1int
        } else if s.last() == ')' {
            -1int
        } else {
            0int
        }
    }
}

/// Whether every comma of `s` stands in parentheses.
pub open spec fn commas_are_nested(s: Seq<char>) -> bool {
    forall|i: int| 0 <= i < s.len() && s[i] == ',' ==> depth(#[trigger] s.take(i)) != 0
}

proof fn lemma_depth_joined(a: Seq<char>, b: Seq<char>)
    ensures
        depth(a + b) == depth(a) + depth(b),
    decreases b.len(),
{
    if b.len() == 0 {
        assert(a + b == a);
    } else {
        lemma_depth_joined(a, b.drop_last());
        assert((a + b).drop_last() == a + b.drop_last());
        assert((a + b).last() == b.last());
    }
}

proof fn lemma_depth_of_rest(s: Seq<char>, i: int)
    requires
        0 < i <= s.len(),
    ensures
        depth(s.take(i)) == depth(seq![s[0]]) + depth(s.skip(1).take(i - 1)),
        depth(seq![s[0]]) == (if s[0] == '(' {
            1int
        } else if s[0] == ')' {
            -1int
        } else {
            0int
        }),
{
    assert(s.take(i) == seq![s[0]] + s.skip(1).take(i - 1));
    lemma_depth_joined(seq![s[0]], s.skip(1).take(i - 1));
    assert(seq![s[0]].drop_last() == Seq::<char>::empty());
    assert(depth(Seq::<char>::empty()) == 0);
}

proof fn lemma_comma_found(a: Seq<char>, rest: Seq<char>, d: int)
    requires
        forall|i: int| 0 <= i < a.len() && a[i] == ',' ==> d + depth(#[trigger] a.take(i)) != 0,
        rest.len() > 0 ==> rest[0] == ',' && d + depth(a) == 0,
    ensures
        top_comma(a + rest, d) == a.len(),
    decreases a.len(),
{
    assert(depth(Seq::<char>::empty()) == 0);
    if a.len() == 0 {
        assert(a + rest == rest);
        assert(a == Seq::<char>::empty());
    } else {
        assert(a.take(0) == Seq::<char>::empty());
        assert((a + rest).skip(1) == a.skip(1) + rest);
        let inner = d + depth(seq![a[0]]);
        assert(a.take(a.len() as int) == a);
        assert(a.skip(1).take(a.len() - 1) == a.skip(1));
        lemma_depth_of_rest(a, a.len() as int);
        let b = a.skip(1);
        assert forall|i: int| 0 <= i < b.len() && b[i] == ',' implies inner + depth(
            #[trigger] b.take(i),
        ) != 0 by {
            assert(a[i + 1] == ',');
            lemma_depth_of_rest(a, i + 1);
            assert(d + depth(a.take(i + 1)) != 0);
        }
        lemma_comma_found(b, rest, inner);
    }
}

/// Arguments are separated by the commas outside parentheses, and by no others; white space around
/// an argument is dropped, and an empty argument at the end does not count.
pub proof fn law_arguments_are_split_at_outer_commas(a: Seq<char>, rest: Seq<char>)
    requires
        commas_are_nested(a),
    ensures
        depth(a) == 0 ==> xmacro_args(a + seq![','] + rest) == seq![text::trimmed(a)] + xmacro_args(
            rest,
        ),
        xmacro_args(a) == (if text::trimmed(a).len() == 0 {
            Seq::empty()
        } else {
            seq![text::trimmed(a)]
        }),
{
    assert(a + Seq::<char>::empty() == a);
    lemma_comma_found(a, Seq::empty(), 0);
    if depth(a) == 0 {
        let tail = seq![','] + rest;
        lemma_comma_found(a, tail, 0);
        let s = a + seq![','] + rest;
        assert(s == a + tail);
        assert(s.take(a.len() as int) == a);
        assert(s.skip(a.len() as int + 1) == rest);
    }
}

/// Whether the parentheses of `s` match: none closes that was not opened, and all are closed.
pub open spec fn nested(s: Seq<char>) -> bool {
    &&& forall|i: int| 0 <= i <= s.len() ==> depth(#[trigger] s.take(i)) >= 0
    &&& depth(s) == 0
}

proof fn lemma_closes_at(body: Seq<char>, rest: Seq<char>, d: nat)
    requires
        forall|i: int| 0 <= i <= body.len() ==> d + depth(#[trigger] body.take(i)) >= 1,
        rest.len() > 0 ==> rest[0] == ')' && d + depth(body) == 1,
    ensures
        closing(body + rest, d) == (if rest.len() > 0 {
            Some(body.len())
        } else {
            None
        }),
    decreases body.len(),
{
    assert(depth(Seq::<char>::empty()) == 0);
    assert(body.take(0) == Seq::<char>::empty());
    if body.len() == 0 {
        assert(body + rest == rest);
        assert(body == Seq::<char>::empty());
    } else {
        let s = body + rest;
        let b = body.skip(1);
        assert(s.skip(1) == b + rest);
        lemma_depth_of_rest(body, 1);
        assert(body.skip(1).take(0) == Seq::<char>::empty());
        assert(d + depth(body.take(1)) >= 1);
        let inner = (d + depth(seq![body[0]])) as nat;
        assert forall|i: int| 0 <= i <= b.len() implies inner + depth(#[trigger] b.take(i)) >= 1 by {
            lemma_depth_of_rest(body, i + 1);
            assert(d + depth(body.take(i + 1)) >= 1);
        }
        assert(body.take(body.len() as int) == body);
        assert(b.take(b.len() as int) == b);
        lemma_depth_of_rest(body, body.len() as int);
        lemma_closes_at(b, rest, inner);
    }
}

/// Whether no `x(` stands in `s`.
pub open spec fn begins_nothing(s: Seq<char>) -> bool {
    forall|i: int| 0 <= i < s.len() - 1 && #[trigger] s[i] == 'x' ==> s[i + 1] != '('
}

/// Invocations are read one after the other, whatever stands before each of them: an `x(`, the text
/// up to the parenthesis that closes it, which are its arguments, and then the rest.
pub proof fn law_invocations_are_read_in_turn(junk: Seq<char>, body: Seq<char>, rest: Seq<char>)
    requires
        begins_nothing(junk),
        nested(body),
    ensures
        invocations(junk + seq!['x', '('] + body + seq![')'] + rest) == seq![xmacro_args(body)]
            + invocations(rest),
{
    let mark = seq!['x', '('];
    let tail = body + seq![')'] + rest;
    let m = junk + mark + body + seq![')'] + rest;
    assert(m == junk + mark + tail);
    lemma_mark_found(junk, tail);
    let inside = m.skip(junk.len() as int + 2);
    assert(inside == tail);
    let after = seq![')'] + rest;
    assert(tail == body + after);
    assert forall|i: int| 0 <= i <= body.len() implies 1nat + depth(#[trigger] body.take(i)) >= 1 by {
        assert(depth(body.take(i)) >= 0);
    }
    lemma_closes_at(body, after, 1);
    assert(inside.take(body.len() as int) == body);
    assert(inside.skip(body.len() as int + 1) == rest);
}

proof fn lemma_mark_found(junk: Seq<char>, tail: Seq<char>)
    requires
        begins_nothing(junk),
    ensures
        text::found(junk + seq!['x', '('] + tail, seq!['x', '(']) == Some(junk.len()),
    decreases junk.len(),
{
    let mark = seq!['x', '('];
    let m = junk + mark + tail;
    if junk.len() == 0 {
        assert(m.take(2) == mark);
    } else {
        let rest = junk.skip(1);
        assert forall|i: int| 0 <= i < rest.len() - 1 && #[trigger] rest[i] == 'x' implies rest[i
            + 1] != '(' by {
            assert(junk[i + 1] == 'x');
        }
        lemma_mark_found(rest, tail);
        assert(m.skip(1) == rest + mark + tail);
        assert(m[0] == junk[0]);
        if junk.len() > 1 {
            assert(m[1] == junk[1]);
        } else {
            assert(m[1] == 'x');
        }
        assert(m.take(2)[0] == m[0] && m.take(2)[1] == m[1]);
        assert(!text::starts(m, mark));
    }
}

proof fn lemma_no_mark(junk: Seq<char>)
    requires
        begins_nothing(junk),
    ensures
        text::found(junk, seq!['x', '(']) is None,
    decreases junk.len(),
{
    let mark = seq!['x', '('];
    if junk.len() >= 2 {
        assert(junk.take(2)[0] == junk[0] && junk.take(2)[1] == junk[1]);
    }
    assert(!text::starts(junk, mark));
    if junk.len() > 0 {
        let rest = junk.skip(1);
        assert forall|i: int| 0 <= i < rest.len() - 1 && #[trigger] rest[i] == 'x' implies rest[i
            + 1] != '(' by {
            assert(junk[i + 1] == 'x');
        }
        lemma_no_mark(rest);
    }
}

proof fn lemma_first_char(a: Seq<char>, c: char, rest: Seq<char>)
    requires
        forall|i: int| 0 <= i < a.len() ==> #[trigger] a[i] != c,
    ensures
        text::found(a + seq![c] + rest, seq![c]) == Some(a.len()),
    decreases a.len(),
{
    let s = a + seq![c] + rest;
    if a.len() == 0 {
        assert(s.take(1) == seq![c]);
    } else {
        let b = a.skip(1);
        assert forall|i: int| 0 <= i < b.len() implies #[trigger] b[i] != c by {
            assert(b[i] == a[i + 1]);
        }
        lemma_first_char(b, c, rest);
        assert(s.skip(1) == b + seq![c] + rest);
        assert(s.take(1)[0] == a[0]);
    }
}

/// Where there is no invocation, or one that does not close, nothing more is read.
pub proof fn law_reading_ends_without_invocations(junk: Seq<char>, body: Seq<char>)
    requires
        begins_nothing(junk),
        forall|i: int| 0 <= i <= body.len() ==> depth(#[trigger] body.take(i)) >= 0,
    ensures
        invocations(junk + seq!['x', '('] + body) == Seq::<Seq<Seq<char>>>::empty(),
        invocations(junk) == Seq::<Seq<Seq<char>>>::empty(),
{
    let mark = seq!['x', '('];
    lemma_mark_found(junk, body);
    let m = junk + mark + body;
    assert(m.skip(junk.len() as int + 2) == body);
    assert forall|i: int| 0 <= i <= body.len() implies 1nat + depth(#[trigger] body.take(i)) >= 1 by {
        assert(depth(body.take(i)) >= 0);
    }
    lemma_closes_at(body, Seq::empty(), 1);
    assert(body + Seq::<char>::empty() == body);
    lemma_no_mark(junk);
}

/// The pieces `ps`, a blank behind each.
pub open spec fn spaced(ps: Seq<Seq<char>>) -> Seq<char>
    decreases ps.len(),
{
    if ps.len() == 0 {
        Seq::empty()
    } else {
        ps[0] + seq![' '] + spaced(ps.skip(1))
    }
}

/// Whether `p` can stand on a line of a definition: it has no white space at its ends, and does not
/// end in a backslash.
pub open spec fn is_piece(p: Seq<char>) -> bool {
    &&& one_line(p)
    &&& p.len() > 0 ==> !text::white_space(p[0]) && !text::white_space(p.last()) && p.last() != '\\'
}

/// Whether `s` is white space within a line.
pub open spec fn is_gap(s: Seq<char>) -> bool {
    &&& text::all_white(s)
    &&& forall|i: int| 0 <= i < s.len() ==> #[trigger] s[i] != '\n' && s[i] != '\r'
}

/// A line that holds the piece `p`, and a backslash at its end where the definition goes on.
pub open spec fn piece_line(lead: Seq<char>, p: Seq<char>, gap: Seq<char>, last: bool) -> Seq<char> {
    lead + p + gap + if last {
        Seq::empty()
    } else {
        seq!['\\']
    }
}

/// The lines that hold the pieces `ps`, of which the last ends the definition.
pub open spec fn piece_lines(lead: Seq<char>, ps: Seq<Seq<char>>, gap: Seq<char>) -> Seq<Seq<char>> {
    Seq::new(ps.len(), |i: int| piece_line(lead, ps[i], gap, i == ps.len() - 1))
}

/// The line that begins the definition of the macro `name`, with the piece `p` behind the parameters.
pub open spec fn opening_line(
    name: Seq<char>,
    params: Seq<char>,
    p: Seq<char>,
    gap: Seq<char>,
    last: bool,
) -> Seq<char> {
    "#define "@ + name + seq!['('] + params + seq![')'] + piece_line(gap, p, gap, last)
}

proof fn lemma_piece_text(lead: Seq<char>, p: Seq<char>, gap: Seq<char>, last: bool)
    requires
        is_piece(p),
        text::all_white(lead),
        is_gap(gap),
    ensures
        line_text(text::trimmed(piece_line(lead, p, gap, last))) == p.push(' '),
        line_text(piece_line(lead, p, gap, last)) == p.push(' '),
        continued(text::trimmed(piece_line(lead, p, gap, last))) == !last,
        continued(piece_line(lead, p, gap, last)) == !last,
{
    let l = piece_line(lead, p, gap, last);
    let e = Seq::<char>::empty();
    assert(lead + p + gap + e == lead + p + gap);
    text::law_trimming_takes_all_white_space(lead, p, gap);
    text::law_trimming_takes_all_white_space(e, p, gap);
    assert(e + p + gap == p + gap);
    text::law_trimming_takes_all_white_space(e, p, e);
    assert(e + p + e == p);
    if last {
        assert(l == lead + p + gap);
        if l.len() > 0 {
            if gap.len() > 0 {
                assert(l.last() == gap.last());
                assert(text::white_space(gap[gap.len() - 1]));
            } else if p.len() > 0 {
                assert(l.last() == p.last());
            } else {
                assert(l.last() == lead.last());
                assert(text::white_space(lead[lead.len() - 1]));
            }
        }
        assert(text::without_trailing(l, '\\') == l);
        assert(text::without_trailing(p, '\\') == p);
    } else {
        let s = lead + p + gap;
        assert(l == s.push('\\'));
        let rest = p + gap;
        if s.len() > 0 {
            if gap.len() > 0 {
                assert(s.last() == gap.last());
                assert(text::white_space(gap[gap.len() - 1]));
            } else if p.len() > 0 {
                assert(s.last() == p.last());
            } else {
                assert(s.last() == lead.last());
                assert(text::white_space(lead[lead.len() - 1]));
            }
        }
        text::law_trailing_run_is_stripped(s, '\\', 1);
        assert(l == s + Seq::new(1, |i: int| '\\'));
        assert(text::without_trailing(l, '\\') == s);
        // What trimming leaves of the line: the piece, the gap behind it where there is a piece, and
        // the backslash.
        let kept = if p.len() > 0 {
            (p + gap).push('\\')
        } else {
            seq!['\\']
        };
        if p.len() > 0 {
            assert(kept[0] == p[0]);
            text::law_trimming_takes_all_white_space(lead, kept, e);
            assert(lead + kept + e == l);
            assert(text::trimmed(l) == kept);
            if gap.len() > 0 {
                assert(rest.last() == gap.last());
                assert(text::white_space(gap[gap.len() - 1]));
            } else {
                assert(rest.last() == p.last());
            }
            text::law_trailing_run_is_stripped(rest, '\\', 1);
            assert(kept == rest + Seq::new(1, |i: int| '\\'));
            assert(text::without_trailing(kept, '\\') == rest);
        } else {
            let white = lead + gap;
            assert forall|i: int| 0 <= i < white.len() implies text::white_space(
                #[trigger] white[i],
            ) by {
                if i < lead.len() {
                    assert(text::white_space(lead[i]));
                } else {
                    assert(text::white_space(gap[i - lead.len()]));
                }
            }
            text::law_trimming_takes_all_white_space(white, kept, e);
            assert(white + kept + e == l);
            assert(text::trimmed(l) == kept);
            text::law_trailing_run_is_stripped(e, '\\', 1);
            assert(kept == e + Seq::new(1, |i: int| '\\'));
            assert(text::without_trailing(kept, '\\') == e);
            assert(p == e);
            text::law_trimming_takes_all_white_space(e, e, e);
            assert(e + e + e == e);
        }
    }
}

proof fn lemma_pieces_continue(lead: Seq<char>, ps: Seq<Seq<char>>, gap: Seq<char>, after: Seq<Seq<char>>)
    requires
        ps.len() > 0,
        forall|i: int| 0 <= i < ps.len() ==> is_piece(#[trigger] ps[i]),
        text::all_white(lead),
        is_gap(gap),
    ensures
        continuation(piece_lines(lead, ps, gap) + after) == spaced(ps),
    decreases ps.len(),
{
    let ls = piece_lines(lead, ps, gap) + after;
    let last = ps.len() == 1;
    assert(is_piece(ps[0]));
    assert(ls[0] == piece_line(lead, ps[0], gap, last));
    lemma_piece_text(lead, ps[0], gap, last);
    if last {
        assert(ps.skip(1) == Seq::<Seq<char>>::empty());
        assert(spaced(ps.skip(1)) == Seq::<char>::empty());
        assert(ps[0].push(' ') + Seq::<char>::empty() == spaced(ps));
    } else {
        let rest = ps.skip(1);
        assert forall|i: int| 0 <= i < rest.len() implies is_piece(#[trigger] rest[i]) by {
            assert(is_piece(ps[i + 1]));
        }
        lemma_pieces_continue(lead, rest, gap, after);
        assert(ls.skip(1) == piece_lines(lead, rest, gap) + after);
        assert(ps[0].push(' ') + spaced(rest) == spaced(ps));
    }
}

proof fn lemma_macro_behind(before: Seq<Seq<char>>, ls: Seq<Seq<char>>, prefix: Seq<char>)
    requires
        forall|i: int|
            0 <= i < before.len() ==> !text::starts(
                text::trimmed(#[trigger] before[i]),
                prefix.push('('),
            ),
    ensures
        macro_text(before + ls, prefix) == macro_text(ls, prefix),
    decreases before.len(),
{
    if before.len() == 0 {
        assert(before + ls == ls);
    } else {
        let rest = before.skip(1);
        assert forall|i: int| 0 <= i < rest.len() implies !text::starts(
            text::trimmed(#[trigger] rest[i]),
            prefix.push('('),
        ) by {
            assert(rest[i] == before[i + 1]);
        }
        assert((before + ls).skip(1) == rest + ls);
        assert((before + ls)[0] == before[0]);
        lemma_macro_behind(rest, ls, prefix);
    }
}

/// A definition may go over any number of lines, broken wherever its text has a blank: what is read
/// of it is all that stands behind the parameters and on the lines that follow, up to the first that
/// does not end in a backslash. Lines before the definition and behind it do not count.
pub proof fn law_continued_lines_are_joined(
    name: Seq<char>,
    params: Seq<char>,
    first: Seq<char>,
    lead: Seq<char>,
    ps: Seq<Seq<char>>,
    gap: Seq<char>,
    before: Seq<Seq<char>>,
    after: Seq<Seq<char>>,
)
    requires
        one_line(name),
        one_line(params),
        forall|i: int| 0 <= i < params.len() ==> #[trigger] params[i] != ')',
        is_piece(first),
        forall|i: int| 0 <= i < ps.len() ==> is_piece(#[trigger] ps[i]),
        is_gap(lead),
        is_gap(gap),
        forall|i: int|
            0 <= i < before.len() ==> text::plain_line(#[trigger] before[i]) && !text::starts(
                text::trimmed(before[i]),
                ("#define "@ + name).push('('),
            ),
        forall|i: int| 0 <= i < after.len() ==> text::plain_line(#[trigger] after[i]),
    ensures
        xmacro_entries(
            text::unlines(
                before + (seq![opening_line(name, params, first, gap, ps.len() == 0)] + piece_lines(
                    lead,
                    ps,
                    gap,
                ) + after),
            ),
            name,
        ) == invocations(spaced(seq![first] + ps)),
{
    let prefix = "#define "@ + name;
    let last = ps.len() == 0;
    let line = opening_line(name, params, first, gap, last);
    let body = piece_lines(lead, ps, gap);
    let def = seq![line] + body + after;
    let all = before + def;
    reveal_strlit("#define ");
    lemma_opening_line(name, params, first, gap, last);
    assert forall|i: int| 0 <= i < all.len() implies text::plain_line(#[trigger] all[i]) by {
        if i < before.len() {
            assert(all[i] == before[i]);
        } else if i == before.len() {
            assert(all[i] == line);
        } else if i < before.len() + 1 + ps.len() {
            let k = i - before.len() - 1;
            assert(all[i] == body[k]);
            assert(is_piece(ps[k]));
            lemma_piece_line_is_plain(lead, ps[k], gap, k == ps.len() - 1);
        } else {
            assert(all[i] == after[i - before.len() - 1 - ps.len()]);
        }
    }
    text::law_lines_inverts_unlines(all);
    lemma_macro_behind(before, def, prefix);
    assert(def[0] == line);
    assert(def.skip(1) == body + after);
    let ghost_text = macro_text(def, prefix);
    if last {
        assert(ps == Seq::<Seq<char>>::empty());
        assert(seq![first] + ps == seq![first]);
        assert(seq![first].skip(1) == Seq::<Seq<char>>::empty());
        assert(spaced(Seq::<Seq<char>>::empty()) == Seq::<char>::empty());
        assert(spaced(seq![first]) == first.push(' '));
        assert(ghost_text == first.push(' ') + Seq::<char>::empty());
    } else {
        lemma_pieces_continue(lead, ps, gap, after);
        let whole = seq![first] + ps;
        assert(whole.skip(1) == ps);
        assert(spaced(whole) == first.push(' ') + spaced(ps));
    }
}

proof fn lemma_piece_line_is_plain(lead: Seq<char>, p: Seq<char>, gap: Seq<char>, last: bool)
    requires
        is_piece(p),
        is_gap(lead),
        is_gap(gap),
    ensures
        text::plain_line(piece_line(lead, p, gap, last)),
{
    let l = piece_line(lead, p, gap, last);
    let a = lead.len() as int;
    let b = a + p.len();
    let c = b + gap.len();
    assert forall|i: int| 0 <= i < l.len() implies #[trigger] l[i] != '\n' by {
        if i < a {
            assert(l[i] == lead[i]);
        } else if i < b {
            assert(l[i] == p[i - a]);
        } else if i < c {
            assert(l[i] == gap[i - b]);
        }
    }
    if l.len() > 0 && last {
        if gap.len() > 0 {
            assert(l.last() == gap[gap.len() - 1]);
        } else if p.len() > 0 {
            assert(l.last() == p.last());
            assert(text::white_space('\r'));
        } else {
            assert(l.last() == lead[lead.len() - 1]);
        }
    }
}

proof fn lemma_opening_line(
    name: Seq<char>,
    params: Seq<char>,
    first: Seq<char>,
    gap: Seq<char>,
    last: bool,
)
    requires
        one_line(name),
        one_line(params),
        forall|i: int| 0 <= i < params.len() ==> #[trigger] params[i] != ')',
        is_piece(first),
        is_gap(gap),
    ensures
        ({
            let line = opening_line(name, params, first, gap, last);
            let prefix = "#define "@ + name;
            let t = text::trimmed(line);
            &&& text::plain_line(line)
            &&& text::starts(t, prefix.push('('))
            &&& line_text(after_params(t.skip(prefix.len() as int))) == first.push(' ')
            &&& continued(t) == !last
        }),
{
    let prefix = "#define "@ + name;
    let line = opening_line(name, params, first, gap, last);
    lemma_opening_line_is_plain(name, params, first, gap, last);
    lemma_opening_line_trimmed(name, params, first, gap, last);
    let kept_tail = kept_tail(first, gap, last);
    let kept = prefix + seq!['('] + params + seq![')'] + kept_tail;
    let n = prefix.len() as int;
    assert(kept.take(n + 1) == prefix.push('('));
    let rest = kept.skip(n);
    let inner = seq!['('] + params;
    assert(rest == inner + seq![')'] + kept_tail);
    assert forall|i: int| 0 <= i < inner.len() implies #[trigger] inner[i] != ')' by {
        if i > 0 {
            assert(inner[i] == params[i - 1]);
        }
    }
    lemma_first_char(inner, ')', kept_tail);
    assert(rest.skip(inner.len() as int + 1) == kept_tail);
    assert(after_params(rest) == kept_tail);
    lemma_kept_tail(first, gap, last);
    if kept_tail.len() > 0 {
        assert(kept.last() == kept_tail.last());
    } else {
        assert(kept.last() == ')');
    }
}

spec fn kept_tail(first: Seq<char>, gap: Seq<char>, last: bool) -> Seq<char> {
    if !last {
        piece_line(gap, first, gap, last)
    } else if first.len() > 0 {
        gap + first
    } else {
        Seq::empty()
    }
}

proof fn lemma_kept_tail(first: Seq<char>, gap: Seq<char>, last: bool)
    requires
        is_piece(first),
        is_gap(gap),
    ensures
        line_text(kept_tail(first, gap, last)) == first.push(' '),
        kept_tail(first, gap, last).len() > 0 ==> (kept_tail(first, gap, last).last() == '\\')
            == !last && !text::white_space(kept_tail(first, gap, last).last()),
        !last ==> kept_tail(first, gap, last).len() > 0,
{
    let e = Seq::<char>::empty();
    let t = kept_tail(first, gap, last);
    if !last {
        lemma_piece_text(gap, first, gap, last);
        assert(t.last() == '\\');
    } else if first.len() > 0 {
        assert(t.last() == first.last());
        assert(text::without_trailing(t, '\\') == t);
        text::law_trimming_takes_all_white_space(gap, first, e);
        assert(gap + first + e == t);
    } else {
        assert(text::without_trailing(e, '\\') == e);
        text::law_trimming_takes_all_white_space(e, e, e);
        assert(e + e + e == e);
        assert(first == e);
    }
}

proof fn lemma_opening_line_trimmed(
    name: Seq<char>,
    params: Seq<char>,
    first: Seq<char>,
    gap: Seq<char>,
    last: bool,
)
    requires
        is_piece(first),
        is_gap(gap),
    ensures
        text::trimmed(opening_line(name, params, first, gap, last)) == "#define "@ + name + seq!['(']
            + params + seq![')'] + kept_tail(first, gap, last),
{
    reveal_strlit("#define ");
    let e = Seq::<char>::empty();
    let head = "#define "@ + name + seq!['('] + params + seq![')'];
    let tail = piece_line(gap, first, gap, last);
    let kept = head + kept_tail(first, gap, last);
    let cut = if !last {
        e
    } else if first.len() > 0 {
        gap
    } else {
        gap + gap
    };
    assert(tail == kept_tail(first, gap, last) + cut);
    let line = opening_line(name, params, first, gap, last);
    assert(line == e + kept + cut);
    lemma_kept_tail(first, gap, last);
    assert(kept[0] == '#');
    if kept_tail(first, gap, last).len() > 0 {
        assert(kept.last() == kept_tail(first, gap, last).last());
    } else {
        assert(kept == head);
        assert(kept.last() == ')');
    }
    assert forall|i: int| 0 <= i < cut.len() implies text::white_space(#[trigger] cut[i]) by {
        if i < gap.len() {
            assert(text::white_space(gap[i]));
            assert(cut[i] == gap[i]);
        } else {
            assert(text::white_space(gap[i - gap.len()]));
        }
    }
    text::law_trimming_takes_all_white_space(e, kept, cut);
}

proof fn lemma_opening_line_is_plain(
    name: Seq<char>,
    params: Seq<char>,
    first: Seq<char>,
    gap: Seq<char>,
    last: bool,
)
    requires
        one_line(name),
        one_line(params),
        is_piece(first),
        is_gap(gap),
    ensures
        text::plain_line(opening_line(name, params, first, gap, last)),
{
    reveal_strlit("#define ");
    let head = "#define "@ + name + seq!['('] + params + seq![')'];
    let tail = piece_line(gap, first, gap, last);
    let line = opening_line(name, params, first, gap, last);
    assert(line == head + tail);
    lemma_piece_line_is_plain(gap, first, gap, last);
    let n = 8 + name.len();
    assert forall|i: int| 0 <= i < line.len() implies #[trigger] line[i] != '\n' by {
        if i < head.len() {
            assert(line[i] == head[i]);
            if 8 <= i < n {
                assert(head[i] == name[i - 8]);
            } else if n < i < n + 1 + params.len() {
                assert(head[i] == params[i - n - 1]);
            }
        } else {
            assert(line[i] == tail[i - head.len()]);
        }
    }
    if tail.len() > 0 {
        assert(line.last() == tail.last());
    } else {
        assert(line == head);
        assert(line.last() == ')');
    }
}

/// However the definition of an x-macro is broken into lines, behind a comma between arguments,
/// between entries, or with several entries on a line, its entries are read back.
pub proof fn law_broken_definition_is_read_back(
    name: Seq<char>,
    params: Seq<char>,
    first: Seq<char>,
    lead: Seq<char>,
    ps: Seq<Seq<char>>,
    gap: Seq<char>,
    before: Seq<Seq<char>>,
    after: Seq<Seq<char>>,
    entries: Seq<Seq<Seq<char>>>,
)
    requires
        one_line(name),
        one_line(params),
        forall|i: int| 0 <= i < params.len() ==> #[trigger] params[i] != ')',
        is_piece(first),
        forall|i: int| 0 <= i < ps.len() ==> is_piece(#[trigger] ps[i]),
        is_gap(lead),
        is_gap(gap),
        forall|i: int|
            0 <= i < before.len() ==> text::plain_line(#[trigger] before[i]) && !text::starts(
                text::trimmed(before[i]),
                ("#define "@ + name).push('('),
            ),
        forall|i: int| 0 <= i < after.len() ==> text::plain_line(#[trigger] after[i]),
        writable_entries(entries),
        spaced(seq![first] + ps) == entry_list(entries) || (first.len() == 0 && spaced(ps)
            == entry_list(entries)),
    ensures
        xmacro_entries(
            text::unlines(
                before + (seq![opening_line(name, params, first, gap, ps.len() == 0)] + piece_lines(
                    lead,
                    ps,
                    gap,
                ) + after),
            ),
            name,
        ) == entries,
{
    law_continued_lines_are_joined(name, params, first, lead, ps, gap, before, after);
    assert forall|i: int, j: int|
        0 <= i < entries.len() && 0 <= j < entries[i].len() implies is_argument(
        #[trigger] entries[i][j],
    ) by {}
    let whole = seq![first] + ps;
    if spaced(whole) == entry_list(entries) {
        law_read_inverts_listing(entries);
    } else {
        assert(whole.skip(1) == ps);
        assert(spaced(whole) == seq![' '] + entry_list(entries));
        lemma_invocations_of_list(entries, true);
    }
}

/// A header that does not define the macro at the start of a line lists no entries.
pub proof fn law_missing_macros_have_no_entries(name: Seq<char>, ls: Seq<Seq<char>>)
    requires
        forall|i: int|
            0 <= i < ls.len() ==> text::plain_line(#[trigger] ls[i]) && !text::starts(
                text::trimmed(ls[i]),
                ("#define "@ + name).push('('),
            ),
    ensures
        xmacro_entries(text::unlines(ls), name) == Seq::<Seq<Seq<char>>>::empty(),
{
    text::law_lines_inverts_unlines(ls);
    let none = Seq::<Seq<char>>::empty();
    lemma_macro_behind(ls, none, "#define "@ + name);
    assert(ls + none == ls);
    lemma_no_mark(Seq::empty());
}

/// The parameters end at the first closing parenthesis; where there is none, nothing is taken for
/// parameters.
pub proof fn law_parameters_end_at_the_first_parenthesis(a: Seq<char>, rest: Seq<char>)
    requires
        forall|i: int| 0 <= i < a.len() ==> #[trigger] a[i] != ')',
    ensures
        after_params(a + seq![')'] + rest) == rest,
        after_params(a) == a,
    decreases a.len(),
{
    lemma_first_char(a, ')', rest);
    assert((a + seq![')'] + rest).skip(a.len() as int + 1) == rest);
    text::law_first_occurrence_is_found(a, seq![')']);
    if let Some(i) = text::found(a, seq![')']) {
        let k = i as int;
        assert(a.subrange(k, k + 1)[0] == a[k]);
        assert(seq![')'][0] == ')');
    }
}

/// Of a line, the backslashes at its end do not count, however many there are, nor does the white space
/// around what is left; a line goes on where it ends in a backslash.
pub proof fn law_backslashes_continue_a_line(
    lead: Seq<char>,
    p: Seq<char>,
    gap: Seq<char>,
    n: nat,
)
    requires
        is_piece(p),
        is_gap(lead),
        is_gap(gap),
    ensures
        line_text(lead + p + gap + Seq::new(n, |i: int| '\\')) == p + seq![' '],
        continued(lead + p + gap + Seq::new(n, |i: int| '\\')) == (n > 0),
{
    let run = Seq::new(n, |i: int| '\\');
    let s = lead + p + gap;
    let l = s + run;
    if s.len() > 0 {
        if gap.len() > 0 {
            assert(s.last() == gap[gap.len() - 1]);
            assert(text::white_space(gap[gap.len() - 1]));
        } else if p.len() > 0 {
            assert(s.last() == p.last());
        } else {
            assert(s.last() == lead[lead.len() - 1]);
            assert(text::white_space(lead[lead.len() - 1]));
        }
    }
    text::law_trailing_run_is_stripped(s, '\\', n);
    text::law_trimming_takes_all_white_space(lead, p, gap);
    assert(p.push(' ') == p + seq![' ']);
    if n > 0 {
        assert(l.last() == '\\');
    } else {
        assert(l == s);
    }
}

} // verus!
