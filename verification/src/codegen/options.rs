//! The command line of the generator, and the compiler arguments of a userspace build.
use crate::text;
use crate::text::{
    find_char, is_white_space, next_line, push_text, same_chars, starts_at, to_chars, to_text,
};
use vstd::prelude::*;
use vstd::slice::slice_subrange;

verus! {

/// The characters with a meaning of their own in a regular expression.
pub open spec fn metachar(c: char) -> bool {
    ||| c == '\\'
    ||| c == '.'
    ||| c == '+'
    ||| c == '*'
    ||| c == '?'
    ||| c == '('
    ||| c == ')'
    ||| c == '|'
    ||| c == '['
    ||| c == ']'
    ||| c == '{'
    ||| c == '}'
    ||| c == '^'
    ||| c == '$'
}

/// `s` with a backslash before each metacharacter.
pub open spec fn escaped(s: Seq<char>) -> Seq<char>
    decreases s.len(),
{
    if s.len() == 0 {
        s
    } else if metachar(s[0]) {
        seq!['\\', s[0]] + escaped(s.skip(1))
    } else {
        seq![s[0]] + escaped(s.skip(1))
    }
}

/// `s` without the backslashes that escape the character after them: the text that the regular
/// expression `s` matches, where it has no metacharacters that are not escaped.
pub open spec fn unescaped(s: Seq<char>) -> Seq<char>
    decreases s.len(),
{
    if s.len() == 0 {
        s
    } else if s[0] == '\\' && s.len() > 1 {
        seq![s[1]] + unescaped(s.skip(2))
    } else {
        seq![s[0]] + unescaped(s.skip(1))
    }
}

/// Escapes the metacharacters of regular expressions, so that a path can be used as one: a `+` in
/// it, for instance, would otherwise repeat the character before it.
pub fn regex_escape(s: &str) -> (r: String)
    ensures
        r@ == escaped(s@),
{
    let cs = to_chars(s);
    let mut out: Vec<char> = Vec::new();
    let mut i: usize = 0;
    assert(cs@.skip(0) == cs@);
    while i < cs.len()
        invariant
            i <= cs.len(),
            out@ + escaped(cs@.skip(i as int)) == escaped(cs@),
        decreases cs.len() - i,
    {
        let ghost before = out@;
        let c: char = cs[i];
        if c == '\\' || c == '.' || c == '+' || c == '*' || c == '?' || c == '(' || c == ')' || c
            == '|' || c == '[' || c == ']' || c == '{' || c == '}' || c == '^' || c == '$' {
            out.push('\\');
        }
        out.push(c);
        assert(cs@.skip(i as int).skip(1) == cs@.skip(i + 1));
        assert(out@ + escaped(cs@.skip(i + 1)) == before + escaped(cs@.skip(i as int)));
        i = i + 1;
    }
    assert(out@ == escaped(cs@));
    to_text(out.as_slice())
}

/// The regular expression for a text stands for that text.
pub proof fn law_escape_is_undone(s: Seq<char>)
    ensures
        unescaped(escaped(s)) == s,
    decreases s.len(),
{
    if s.len() > 0 {
        law_escape_is_undone(s.skip(1));
        let rest = escaped(s.skip(1));
        assert(seq![s[0]] + s.skip(1) == s);
        if metachar(s[0]) {
            let e = seq!['\\', s[0]] + rest;
            assert(e.skip(2) == rest);
            assert(unescaped(e) == seq![s[0]] + s.skip(1));
        } else {
            let e = seq![s[0]] + rest;
            assert(e.skip(1) == rest);
            assert(unescaped(e) == seq![s[0]] + s.skip(1));
        }
    }
}

/// A text without metacharacters is its own regular expression.
pub proof fn law_escape_keeps_plain_text(s: Seq<char>)
    requires
        forall|i: int| 0 <= i < s.len() ==> !metachar(#[trigger] s[i]),
    ensures
        escaped(s) == s,
    decreases s.len(),
{
    if s.len() > 0 {
        let t = s.skip(1);
        assert forall|i: int| 0 <= i < t.len() implies !metachar(#[trigger] t[i]) by {
            assert(t[i] == s[i + 1]);
        }
        law_escape_keeps_plain_text(t);
        assert(seq![s[0]] + t == s);
    }
}

/// No metacharacter is left unescaped: one that stands in the result, and is not itself escaped
/// by an odd run of backslashes before it, is the backslash that escapes the next character.
pub open spec fn all_escaped(s: Seq<char>) -> bool
    decreases s.len(),
{
    if s.len() == 0 {
        true
    } else if s[0] == '\\' {
        s.len() > 1 && metachar(s[1]) && all_escaped(s.skip(2))
    } else {
        !metachar(s[0]) && all_escaped(s.skip(1))
    }
}

/// In what `regex_escape` returns, every metacharacter is escaped.
pub proof fn law_escape_leaves_no_metachar(s: Seq<char>)
    ensures
        all_escaped(escaped(s)),
    decreases s.len(),
{
    if s.len() > 0 {
        law_escape_leaves_no_metachar(s.skip(1));
        let rest = escaped(s.skip(1));
        if metachar(s[0]) {
            assert((seq!['\\', s[0]] + rest).skip(2) == rest);
        } else {
            assert((seq![s[0]] + rest).skip(1) == rest);
        }
    }
}

/// The place of the first of `args` that is `name`, or their number.
pub open spec fn arg_at(args: Seq<Seq<char>>, name: Seq<char>) -> int
    decreases args.len(),
{
    if args.len() == 0 || args[0] == name {
        0
    } else {
        1 + arg_at(args.skip(1), name)
    }
}

/// The place of an argument lies in the list or at its end.
pub proof fn lemma_arg_at(args: Seq<Seq<char>>, name: Seq<char>)
    ensures
        0 <= arg_at(args, name) <= args.len(),
        arg_at(args, name) < args.len() ==> args[arg_at(args, name)] == name,
    decreases args.len(),
{
    if args.len() > 0 && args[0] != name {
        lemma_arg_at(args.skip(1), name);
    }
}

/// The value of the option `name`: the argument after the first one that is `name`.
pub open spec fn option_value(args: Seq<Seq<char>>, name: Seq<char>) -> Option<Seq<char>> {
    let i = arg_at(args, name);
    if i + 1 < args.len() {
        Some(args[i + 1])
    } else {
        None
    }
}

fn find_arg(args: &[String], name: &str) -> (r: usize)
    ensures
        r <= args.len(),
        r == arg_at(args.deep_view(), name@),
{
    let ghost all = args.deep_view();
    let wanted = to_chars(name);
    let mut i: usize = 0;
    assert(all.skip(0) == all);
    while i < args.len()
        invariant
            i <= args.len(),
            wanted@ == name@,
            all == args.deep_view(),
            arg_at(all, name@) == i + arg_at(all.skip(i as int), name@),
        decreases args.len() - i,
    {
        let arg = to_chars(args[i].as_str());
        assert(all.skip(i as int)[0] == arg@);
        if same_chars(arg.as_slice(), wanted.as_slice()) {
            return i;
        }
        assert(all.skip(i as int).skip(1) == all.skip(i + 1));
        i = i + 1;
    }
    i
}

/// The view of an optional string.
pub open spec fn view_opt(o: Option<String>) -> Option<Seq<char>> {
    match o {
        Some(s) => Some(s@),
        None => None,
    }
}

/// The value of the option `name`: the argument after the first one that is `name`.
pub fn opt(args: &[String], name: &str) -> (r: Option<String>)
    ensures
        view_opt(r) == option_value(args.deep_view(), name@),
{
    let i: usize = find_arg(args, name);
    if i < args.len() && args.len() - i > 1 {
        Some(args[i + 1].clone())
    } else {
        None
    }
}

/// The command line of the generator.
pub struct CommandLine {
    /// Where the sources are.
    pub src: String,
    /// Where the generated files go.
    pub out: String,
    /// The target, where one is named.
    pub target: Option<String>,
    /// The width of a pointer in bits.
    pub ptr_width: String,
    /// The arguments for the C compiler, where the command line gives them.
    pub clang_args: Option<Vec<String>>,
    /// The regular expressions for the files to leave out, where the command line gives them.
    pub blocklist: Option<Vec<String>>,
}

/// What the command line lacks.
#[derive(Clone, Copy, PartialEq, Eq, Structural, Debug)]
pub enum MissingOption {
    /// The option `--src`.
    Src,
    /// The option `--out`.
    Out,
}

impl MissingOption {
    /// The message that reports it.
    pub open spec fn spec_message(self) -> &'static str {
        match self {
            MissingOption::Src => "--src <fs-dir> required",
            MissingOption::Out => "--out <out-dir> required",
        }
    }

    /// The message that reports it.
    pub fn message(self) -> (r: &'static str)
        ensures
            r@ == self.spec_message()@,
    {
        match self {
            MissingOption::Src => "--src <fs-dir> required",
            MissingOption::Out => "--out <out-dir> required",
        }
    }
}

/// The generator's own arguments: those before the separator `--`.
pub open spec fn own_args(all: Seq<Seq<char>>) -> Seq<Seq<char>> {
    all.take(arg_at(all, "--"@))
}

/// The regular expressions for the files below the directories `dirs`.
pub open spec fn below_dirs(dirs: Seq<Seq<char>>) -> Seq<Seq<char>> {
    dirs.map_values(|d: Seq<char>| escaped(d) + "/.*"@)
}

/// What the command line `all` says.
pub open spec fn command_line(all: Seq<Seq<char>>, c: CommandLine) -> bool {
    let args = own_args(all);
    let sep = arg_at(all, "--"@);
    &&& option_value(args, "--src"@) == Some(c.src@)
    &&& option_value(args, "--out"@) == Some(c.out@)
    &&& view_opt(c.target) == option_value(args, "--target"@)
    &&& c.ptr_width@ == (match option_value(args, "--ptr-width"@) {
        Some(w) => w,
        None => "64"@,
    })
    &&& (match c.clang_args {
        Some(v) => sep < all.len() && v.deep_view() == all.skip(sep + 1),
        None => sep == all.len(),
    })
    &&& (match c.blocklist {
        Some(v) => option_value(args, "--blocklist"@) is Some && v.deep_view() == below_dirs(
            text::pieces(option_value(args, "--blocklist"@)->0, ':'),
        ),
        None => option_value(args, "--blocklist"@) is None,
    })
}

fn copy_args(args: &[String], from: usize, to: usize) -> (r: Vec<String>)
    requires
        from <= to <= args.len(),
    ensures
        r.deep_view() == args.deep_view().subrange(from as int, to as int),
{
    let ghost all = args.deep_view();
    let mut r: Vec<String> = Vec::new();
    let mut i: usize = from;
    assert(r.deep_view() == all.subrange(from as int, from as int));
    while i < to
        invariant
            from <= i <= to <= args.len(),
            all == args.deep_view(),
            r.deep_view() == all.subrange(from as int, i as int),
        decreases to - i,
    {
        push_text(&mut r, args[i].clone());
        assert(all.subrange(from as int, i + 1) == all.subrange(from as int, i as int).push(
            all[i as int],
        ));
        i = i + 1;
    }
    r
}

/// The regular expression for the files below the directory `dir`.
fn below_dir(dir: &str) -> (r: String)
    ensures
        r@ == escaped(dir@) + "/.*"@,
{
    let mut r = regex_escape(dir);
    r.append("/.*");
    r
}

fn blocklist_of(dirs: &str) -> (r: Vec<String>)
    ensures
        r.deep_view() == below_dirs(text::pieces(dirs@, ':')),
{
    let cs = to_chars(dirs);
    let ghost all = text::pieces(cs@, ':');
    let mut r: Vec<String> = Vec::new();
    let mut at: usize = 0;
    assert(cs@.skip(0) == cs@);
    assert(r.deep_view() == Seq::<Seq<char>>::empty());
    loop
        invariant
            at <= cs.len(),
            cs@ == dirs@,
            all == text::pieces(cs@, ':'),
            r.deep_view() + below_dirs(text::pieces(cs@.skip(at as int), ':')) == below_dirs(all),
        decreases cs.len() - at,
    {
        let ghost rest = cs@.skip(at as int);
        let ghost before = r.deep_view();
        let n: usize = find_char(cs.as_slice(), at, ':');
        let piece = slice_subrange(cs.as_slice(), at, n);
        assert(piece@ == rest.take(n - at));
        let dir = to_text(piece);
        let pattern = below_dir(dir.as_str());
        push_text(&mut r, pattern);
        if n == cs.len() {
            assert(rest.take(n - at) == rest);
            assert(text::pieces(rest, ':') == seq![piece@]);
            assert(below_dirs(seq![piece@]) == seq![pattern@]);
            assert(r.deep_view() == below_dirs(all));
            return r;
        }
        assert(rest.skip(n - at + 1) == cs@.skip(n + 1));
        let ghost tail = text::pieces(cs@.skip(n + 1), ':');
        assert(text::pieces(rest, ':') == seq![piece@] + tail);
        assert(below_dirs(seq![piece@] + tail) == seq![pattern@] + below_dirs(tail));
        assert(r.deep_view() + below_dirs(tail) == before + (seq![pattern@] + below_dirs(tail)));
        at = n + 1;
    }
}

/// Reads the command line. Arguments after a `--` are for the C compiler; the generator's own
/// options are looked for before it only, so that none of those can be mistaken for one.
pub fn parse_command_line(all: &[String]) -> (r: Result<CommandLine, MissingOption>)
    ensures
        match r {
            Ok(c) => command_line(all.deep_view(), c),
            Err(MissingOption::Src) => option_value(own_args(all.deep_view()), "--src"@) is None,
            Err(MissingOption::Out) => option_value(own_args(all.deep_view()), "--src"@) is Some
                && option_value(own_args(all.deep_view()), "--out"@) is None,
        },
{
    let sep: usize = find_arg(all, "--");
    let args = copy_args(all, 0, sep);
    assert(all.deep_view().subrange(0, sep as int) == own_args(all.deep_view()));
    let src = match opt(args.as_slice(), "--src") {
        Some(s) => s,
        None => {
            return Err(MissingOption::Src);
        },
    };
    let out = match opt(args.as_slice(), "--out") {
        Some(s) => s,
        None => {
            return Err(MissingOption::Out);
        },
    };
    let target = opt(args.as_slice(), "--target");
    let ptr_width = match opt(args.as_slice(), "--ptr-width") {
        Some(w) => w,
        None => "64".to_string(),
    };
    let clang_args = if sep < all.len() {
        assert(all.deep_view().subrange(sep + 1, all@.len() as int) == all.deep_view().skip(
            sep + 1,
        ));
        Some(copy_args(all, sep + 1, all.len()))
    } else {
        None
    };
    let blocklist = match opt(args.as_slice(), "--blocklist") {
        Some(dirs) => Some(blocklist_of(dirs.as_str())),
        None => None,
    };
    Ok(CommandLine { src, out, target, ptr_width, clang_args, blocklist })
}

/// What follows the separator has no say in the generator's own options.
pub proof fn law_clang_args_are_not_options(
    own: Seq<Seq<char>>,
    a: Seq<Seq<char>>,
    b: Seq<Seq<char>>,
    name: Seq<char>,
)
    requires
        arg_at(own, "--"@) == own.len(),
    ensures
        own_args(own + seq!["--"@] + a) == own,
        option_value(own_args(own + seq!["--"@] + a), name) == option_value(
            own_args(own + seq!["--"@] + b),
            name,
        ),
{
    lemma_separator(own, a);
    lemma_separator(own, b);
    assert((own + seq!["--"@] + a).take(own.len() as int) == own);
    assert((own + seq!["--"@] + b).take(own.len() as int) == own);
}

proof fn lemma_separator(own: Seq<Seq<char>>, rest: Seq<Seq<char>>)
    requires
        arg_at(own, "--"@) == own.len(),
    ensures
        arg_at(own + seq!["--"@] + rest, "--"@) == own.len(),
    decreases own.len(),
{
    let all = own + seq!["--"@] + rest;
    if own.len() > 0 {
        lemma_arg_at(own.skip(1), "--"@);
        lemma_separator(own.skip(1), rest);
        assert(all.skip(1) == own.skip(1) + seq!["--"@] + rest);
        assert(all[0] == own[0]);
    }
}

/// Whether `p` holds nothing that some system gives a meaning of its own: no backslash, no colon,
/// and no two slashes at its start.
pub open spec fn portable(p: Seq<char>) -> bool {
    &&& forall|i: int| 0 <= i < p.len() ==> #[trigger] p[i] != '\\' && p[i] != ':'
    &&& !(p.len() > 1 && p[0] == '/' && p[1] == '/')
}

/// Where the last part of `s` begins: behind its last slash, or at its start.
pub open spec fn last_part(s: Seq<char>) -> int
    decreases s.len(),
{
    if s.len() == 0 || s.last() == '/' {
        s.len() as int
    } else {
        last_part(s.drop_last())
    }
}

/// The last part of `s` lies in it.
pub proof fn lemma_last_part(s: Seq<char>)
    ensures
        0 <= last_part(s) <= s.len(),
    decreases s.len(),
{
    if s.len() > 0 && s.last() != '/' {
        lemma_last_part(s.drop_last());
    }
}

/// `s` without its last part, and without the slash before that.
pub open spec fn without_last(s: Seq<char>) -> Seq<char> {
    if last_part(s) == 0 {
        Seq::empty()
    } else {
        s.take(last_part(s) - 1)
    }
}

/// Whether `c` is a component where it is a part of a path, and not dropped: it is neither empty
/// nor a dot.
pub open spec fn component(c: Seq<char>) -> bool {
    c.len() > 0 && c != seq!['.']
}

/// `s` up to the end of its last component.
pub open spec fn to_component(s: Seq<char>) -> Seq<char>
    decreases s.len(),
{
    if s.len() == 0 || component(s.skip(last_part(s))) {
        s
    } else {
        proof {
            lemma_last_part(s);
        }
        to_component(without_last(s))
    }
}

/// Where the components of `p` begin: behind the slash of the root, or behind a dot that stands for
/// the current directory.
pub open spec fn body_start(p: Seq<char>) -> int {
    if p.len() > 0 && (p[0] == '/' || (p[0] == '.' && (p.len() == 1 || p[1] == '/'))) {
        1
    } else {
        0
    }
}

/// The parent of a portable path: what precedes its last component. The root and the empty path
/// have none; that of a path of a single component is empty. Repeated slashes, those at the end, and
/// dots in the path count for nothing.
pub open spec fn parent_of(p: Seq<char>) -> Option<Seq<char>> {
    let start = p.take(body_start(p));
    let body = to_component(p.skip(body_start(p)));
    if body.len() > 0 {
        Some(start + to_component(without_last(body)))
    } else if start == seq!['.'] {
        Some(Seq::empty())
    } else {
        None
    }
}

proof fn lemma_to_component(s: Seq<char>)
    ensures
        to_component(s).len() <= s.len(),
        to_component(s) == s.take(to_component(s).len() as int),
    decreases s.len(),
{
    if s.len() == 0 || component(s.skip(last_part(s))) {
        assert(s.take(s.len() as int) == s);
    } else {
        lemma_last_part(s);
        lemma_to_component(without_last(s));
        let t = to_component(s);
        assert(s.take(t.len() as int) == without_last(s).take(t.len() as int));
    }
}

/// The parent of a path is a part of it, from its start on, and shorter.
pub proof fn law_parent_is_a_part(p: Seq<char>)
    ensures
        parent_of(p) matches Some(d) ==> text::starts(p, d) && d.len() < p.len(),
{
    let b = body_start(p);
    let rest = p.skip(b);
    let body = to_component(rest);
    lemma_to_component(rest);
    if body.len() > 0 {
        lemma_last_part(body);
        let before = without_last(body);
        lemma_to_component(before);
        let t = to_component(before);
        assert(before == body.take(before.len() as int));
        assert(p.take(b + t.len()) == p.take(b) + t);
    } else if p.take(b) == seq!['.'] {
        assert(p.take(0) == Seq::<char>::empty());
    }
}

proof fn lemma_last_part_after_slash(s: Seq<char>, name: Seq<char>)
    requires
        forall|i: int| 0 <= i < name.len() ==> #[trigger] name[i] != '/',
    ensures
        last_part(s + seq!['/'] + name) == s.len() + 1,
    decreases name.len(),
{
    let whole = s + seq!['/'] + name;
    if name.len() > 0 {
        lemma_last_part_after_slash(s, name.drop_last());
        assert(whole.drop_last() == s + seq!['/'] + name.drop_last());
        assert(whole.last() == name.last());
    }
}

proof fn lemma_last_part_behind(s: Seq<char>, b: int)
    requires
        0 <= b <= last_part(s),
    ensures
        last_part(s.skip(b)) == last_part(s) - b,
    decreases s.len(),
{
    lemma_last_part(s);
    if s.len() > 0 && s.last() != '/' {
        lemma_last_part(s.drop_last());
        lemma_last_part_behind(s.drop_last(), b);
        assert(s.skip(b).drop_last() == s.drop_last().skip(b));
    }
}

proof fn lemma_last_part_behind_first(s: Seq<char>)
    requires
        s.len() > 0,
        s[0] == '/' || (s.len() > 1 && s[1] == '/'),
    ensures
        last_part(s) >= 1,
    decreases s.len(),
{
    if s.last() != '/' {
        lemma_last_part_behind_first(s.drop_last());
    }
}

/// The parent of a file in a directory is the directory, where that is written without anything that
/// counts for nothing at its end.
pub proof fn law_parent_is_the_directory(dir: Seq<char>, name: Seq<char>)
    requires
        dir == seq!['.'] || component(dir.skip(last_part(dir))),
        component(name),
        forall|i: int| 0 <= i < name.len() ==> #[trigger] name[i] != '/',
    ensures
        parent_of(dir + seq!['/'] + name) == Some(dir),
{
    lemma_last_part(dir);
    let p = dir + seq!['/'] + name;
    let b = body_start(p);
    let body = p.skip(b);
    let rest = dir.skip(b);
    assert(b == body_start(dir));
    assert(body == rest + seq!['/'] + name);
    lemma_last_part_after_slash(rest, name);
    assert(body.skip(last_part(body)) == name);
    assert(body.take(last_part(body) - 1) == rest);
    if dir == seq!['.'] {
        assert(rest.len() == 0);
    } else {
        if b == 1 {
            if dir.len() == 1 && dir[0] == '.' {
                assert(dir == seq!['.']);
            }
            lemma_last_part_behind_first(dir);
        }
        lemma_last_part_behind(dir, b);
        assert(rest.skip(last_part(rest)) == dir.skip(last_part(dir)));
    }
    assert(to_component(rest) == rest);
    assert(p.take(b) + rest == dir);
}

/// What is known of the parent of the path `p`: it is a part of `p`, from its start on, and shorter;
/// and that of a portable path is fixed.
pub open spec fn parent_fits(p: Seq<char>, parent: Option<Seq<char>>) -> bool {
    &&& parent matches Some(d) ==> text::starts(p, d) && d.len() < p.len()
    &&& portable(p) ==> parent == parent_of(p)
}

/// `std::path::Path::parent`: the path without its final component, where it has one; the empty path
/// where it is that component alone. Repeated slashes, those at the end, and dots that are not at the
/// start are no components. Left unsaid is the parent of a path with backslashes, colons, or two
/// slashes at its start, beyond that it is a part of the path, from its start on, and shorter: what
/// counts as a component there depends on the system.
#[verifier::external_body]
fn parent(p: &str) -> (r: Option<String>)
    ensures
        parent_fits(p@, view_opt(r)),
{
    std::path::Path::new(p).parent().map(|d| d.to_string_lossy().into_owned())
}

/// The compiler arguments for sources in `src` below `root`.
pub open spec fn clang_args_in(
    root: Seq<char>,
    src: Seq<char>,
    target: Seq<char>,
    liburcu: Seq<Seq<char>>,
) -> Seq<Seq<char>> {
    seq!["--target="@ + target] + liburcu + seq![
        "-I"@ + root,
        "-I"@ + src,
        "-I"@ + root + "/c_src"@,
        "-I"@ + root + "/include"@,
        "-DZSTD_STATIC_LINKING_ONLY"@,
        "-DNO_BCACHEFS_FS"@,
        "-D_GNU_SOURCE"@,
        "-DRUST_BINDGEN"@,
        "-fkeep-inline-functions"@,
    ]
}

fn joined(a: &str, b: &str, c: &str) -> (r: String)
    ensures
        r@ == a@ + b@ + c@,
{
    let mut r = String::new();
    r.append(a);
    r.append(b);
    r.append(c);
    assert(r@ == a@ + b@ + c@);
    r
}

/// The compiler arguments for sources in `src` below `root`, with the include flags of liburcu.
pub fn userspace_clang_args_in(
    root: &str,
    src: &str,
    target: &str,
    liburcu: &[String],
) -> (r: Vec<String>)
    ensures
        r.deep_view() == clang_args_in(root@, src@, target@, liburcu.deep_view()),
{
    proof {
        reveal_strlit("");
    }
    let mut a: Vec<String> = Vec::new();
    assert(a.deep_view() == Seq::<Seq<char>>::empty());
    let target_flag = joined("--target=", target, "");
    assert(target_flag@ == "--target="@ + target@);
    push_text(&mut a, target_flag);
    let ghost urcu = liburcu.deep_view();
    let mut i: usize = 0;
    assert(urcu.take(0) == Seq::<Seq<char>>::empty());
    while i < liburcu.len()
        invariant
            i <= liburcu.len(),
            urcu == liburcu.deep_view(),
            a.deep_view() == seq!["--target="@ + target@] + urcu.take(i as int),
        decreases liburcu.len() - i,
    {
        push_text(&mut a, liburcu[i].clone());
        assert(urcu.take(i + 1) == urcu.take(i as int).push(urcu[i as int]));
        i = i + 1;
    }
    assert(urcu.take(i as int) == urcu);
    let root_flag = joined("-I", root, "");
    assert(root_flag@ == "-I"@ + root@);
    push_text(&mut a, root_flag);
    let src_flag = joined("-I", src, "");
    assert(src_flag@ == "-I"@ + src@);
    push_text(&mut a, src_flag);
    push_text(&mut a, joined("-I", root, "/c_src"));
    push_text(&mut a, joined("-I", root, "/include"));
    push_text(&mut a, "-DZSTD_STATIC_LINKING_ONLY".to_string());
    push_text(&mut a, "-DNO_BCACHEFS_FS".to_string());
    push_text(&mut a, "-D_GNU_SOURCE".to_string());
    push_text(&mut a, "-DRUST_BINDGEN".to_string());
    push_text(&mut a, "-fkeep-inline-functions".to_string());
    assert(a.deep_view() == clang_args_in(root@, src@, target@, liburcu.deep_view()));
    a
}

/// The compiler arguments of a userspace build: the target, the include flags of liburcu, and the
/// directories and definitions of the project. `None` where `src` has no parent directory.
pub fn userspace_clang_args(src: &str, target: &str, liburcu: &[String]) -> (r: Option<Vec<String>>)
    ensures
        r matches Some(v) ==> exists|root: Seq<char>|
            text::starts(src@, root) && root.len() < src@.len() && v.deep_view()
                == #[trigger] clang_args_in(root, src@, target@, liburcu.deep_view()),
        portable(src@) ==> match parent_of(src@) {
            Some(root) => r matches Some(v) && v.deep_view() == clang_args_in(
                root,
                src@,
                target@,
                liburcu.deep_view(),
            ),
            None => r is None,
        },
{
    match parent(src) {
        Some(root) => Some(userspace_clang_args_in(root.as_str(), src, target, liburcu)),
        None => None,
    }
}

/// The files to leave out for sources below `root`.
pub open spec fn blocklist_in(root: Seq<char>) -> Seq<Seq<char>> {
    seq![escaped(root + "/include"@) + "/.*"@, ".*/usr/.*"@]
}

/// The files to leave out for sources below `root`.
pub fn default_blocklist_in(root: &str) -> (r: Vec<String>)
    ensures
        r.deep_view() == blocklist_in(root@),
{
    let mut dir = String::new();
    dir.append(root);
    dir.append("/include");
    assert(dir@ == root@ + "/include"@);
    let mut r: Vec<String> = Vec::new();
    assert(r.deep_view() == Seq::<Seq<char>>::empty());
    push_text(&mut r, below_dir(dir.as_str()));
    push_text(&mut r, ".*/usr/.*".to_string());
    assert(r.deep_view() == blocklist_in(root@));
    r
}

/// The files that a userspace build leaves out: the compatibility headers beside the sources, and
/// everything in `/usr`. `None` where `src` has no parent directory.
pub fn default_blocklist(src: &str) -> (r: Option<Vec<String>>)
    ensures
        r matches Some(v) ==> exists|root: Seq<char>|
            text::starts(src@, root) && root.len() < src@.len() && v.deep_view()
                == #[trigger] blocklist_in(root),
        portable(src@) ==> match parent_of(src@) {
            Some(root) => r matches Some(v) && v.deep_view() == blocklist_in(root),
            None => r is None,
        },
{
    match parent(src) {
        Some(root) => Some(default_blocklist_in(root.as_str())),
        None => None,
    }
}

/// The words of `s`: what stands between its white space.
pub open spec fn words(s: Seq<char>) -> Seq<Seq<char>>
    decreases s.len(),
{
    if s.len() == 0 {
        Seq::empty()
    } else if text::white_space(s[0]) {
        words(s.skip(1))
    } else {
        proof {
            lemma_word_end(s);
            lemma_word_end(s.skip(1));
        }
        seq![s.take(word_end(s))] + words(s.skip(word_end(s)))
    }
}

/// Where the first white space of `s` stands, or its length.
pub open spec fn word_end(s: Seq<char>) -> int
    decreases s.len(),
{
    if s.len() == 0 || text::white_space(s[0]) {
        0
    } else {
        1 + word_end(s.skip(1))
    }
}

/// The end of a word lies in the text or at its end.
pub proof fn lemma_word_end(s: Seq<char>)
    ensures
        0 <= word_end(s) <= s.len(),
    decreases s.len(),
{
    if s.len() > 0 {
        lemma_word_end(s.skip(1));
    }
}

/// Splits what `pkg-config` prints into its flags.
pub fn pkg_config_includes(printed: &str) -> (r: Vec<String>)
    ensures
        r.deep_view() == words(printed@),
{
    let cs = to_chars(printed);
    let mut r: Vec<String> = Vec::new();
    let mut at: usize = 0;
    assert(cs@.skip(0) == cs@);
    assert(r.deep_view() == Seq::<Seq<char>>::empty());
    while at < cs.len()
        invariant
            at <= cs.len(),
            cs@ == printed@,
            r.deep_view() + words(cs@.skip(at as int)) == words(cs@),
        decreases cs.len() - at,
    {
        let ghost rest = cs@.skip(at as int);
        let ghost before = r.deep_view();
        if is_white_space(cs[at]) {
            assert(rest.skip(1) == cs@.skip(at + 1));
            at = at + 1;
        } else {
            let mut end: usize = at;
            while end < cs.len() && !is_white_space(cs[end])
                invariant
                    at <= end <= cs.len(),
                    word_end(cs@.skip(at as int)) == (end - at) + word_end(cs@.skip(end as int)),
                decreases cs.len() - end,
            {
                assert(cs@.skip(end as int).skip(1) == cs@.skip(end + 1));
                end = end + 1;
            }
            assert(word_end(rest) == end - at);
            let word = slice_subrange(cs.as_slice(), at, end);
            assert(word@ == rest.take(end - at));
            assert(rest.skip(end - at) == cs@.skip(end as int));
            push_text(&mut r, to_text(word));
            assert(r.deep_view() + words(cs@.skip(end as int)) == before + words(rest));
            at = end;
        }
    }
    assert(r.deep_view() == words(cs@));
    r
}

/// What follows `host: ` in the first of the lines that starts with it.
pub open spec fn host_in(ls: Seq<Seq<char>>) -> Option<Seq<char>>
    decreases ls.len(),
{
    if ls.len() == 0 {
        None
    } else if text::starts(ls[0], "host: "@) {
        Some(ls[0].skip("host: "@.len() as int))
    } else {
        host_in(ls.skip(1))
    }
}

/// Finds the host in what `rustc -vV` prints.
pub fn host_target(printed: &str) -> (r: Option<String>)
    ensures
        view_opt(r) == host_in(text::lines(printed@)),
{
    let cs = to_chars(printed);
    let prefix = to_chars("host: ");
    let mut at: usize = 0;
    assert(cs@.skip(0) == cs@);
    while at < cs.len()
        invariant
            at <= cs.len(),
            cs@ == printed@,
            prefix@ == "host: "@,
            host_in(text::lines(cs@.skip(at as int))) == host_in(text::lines(cs@)),
        decreases cs.len() - at,
    {
        let ghost ls = text::lines(cs@.skip(at as int));
        let (line, next) = next_line(cs.as_slice(), at);
        assert(ls[0] == line@);
        assert(ls.skip(1) == text::lines(cs@.skip(next as int)));
        assert(line@.skip(0) == line@);
        if starts_at(line, 0, prefix.as_slice()) {
            let host = slice_subrange(line, prefix.len(), line.len());
            assert(host@ == line@.skip(prefix@.len() as int));
            return Some(to_text(host));
        }
        at = next;
    }
    None
}

/// The arguments that also go to the compiler of the wrappers: all but the target, which only
/// clang takes.
pub open spec fn cc_flags(args: Seq<Seq<char>>) -> Seq<Seq<char>> {
    args.filter(|a: Seq<char>| !text::starts(a, "--target"@))
}

/// Picks the arguments that also go to the compiler of the wrappers.
pub fn wrapper_flags(args: &[String]) -> (r: Vec<String>)
    ensures
        r.deep_view() == cc_flags(args.deep_view()),
{
    let ghost all = args.deep_view();
    let prefix = to_chars("--target");
    let mut r: Vec<String> = Vec::new();
    let mut i: usize = 0;
    assert(r.deep_view() == Seq::<Seq<char>>::empty());
    assert(all.take(0) == Seq::<Seq<char>>::empty());
    reveal(Seq::filter);
    while i < args.len()
        invariant
            i <= args.len(),
            all == args.deep_view(),
            prefix@ == "--target"@,
            r.deep_view() == cc_flags(all.take(i as int)),
        decreases args.len() - i,
    {
        reveal(Seq::filter);
        let arg = to_chars(args[i].as_str());
        assert(arg@.skip(0) == arg@);
        assert(all.take(i + 1).drop_last() == all.take(i as int));
        assert(all.take(i + 1).last() == arg@);
        if !starts_at(arg.as_slice(), 0, prefix.as_slice()) {
            push_text(&mut r, args[i].clone());
        }
        i = i + 1;
    }
    assert(all.take(i as int) == all);
    r
}

/// Whether a file with this extension is one that the bindings are made from.
pub fn watched(extension: Option<&str>) -> (r: bool)
    ensures
        r == (extension matches Some(e) && (e@ == "h"@ || e@ == "c"@)),
{
    match extension {
        None => false,
        Some(e) => {
            let cs = to_chars(e);
            let h = to_chars("h");
            let c = to_chars("c");
            same_chars(cs.as_slice(), h.as_slice()) || same_chars(cs.as_slice(), c.as_slice())
        },
    }
}

/// The characters that a regular expression gives a meaning are these fourteen.
pub proof fn law_metachars_are_known(c: char)
    ensures
        metachar(c) == "\\.+*?()|[]{}^$"@.contains(c),
{
    reveal_strlit("\\.+*?()|[]{}^$");
    let all = "\\.+*?()|[]{}^$"@;
    assert(all.len() == 14);
    if metachar(c) {
        assert(all[0] == '\\' && all[1] == '.' && all[2] == '+' && all[3] == '*' && all[4] == '?'
            && all[5] == '(' && all[6] == ')' && all[7] == '|' && all[8] == '[' && all[9] == ']'
            && all[10] == '{' && all[11] == '}' && all[12] == '^' && all[13] == '$');
    }
}

/// Escaping puts a backslash before each character that has a meaning, and changes nothing else.
pub proof fn law_escaping_goes_character_by_character(a: Seq<char>, b: Seq<char>, c: char)
    ensures
        escaped(Seq::empty()) == Seq::<char>::empty(),
        escaped(seq![c]) == (if metachar(c) {
            seq!['\\', c]
        } else {
            seq![c]
        }),
        escaped(a + b) == escaped(a) + escaped(b),
    decreases a.len(),
{
    assert(seq![c].skip(1) == Seq::<char>::empty());
    assert(escaped(Seq::<char>::empty()) == Seq::<char>::empty());
    assert(seq![c] + Seq::<char>::empty() == seq![c]);
    assert(seq!['\\', c] + Seq::<char>::empty() == seq!['\\', c]);
    if a.len() == 0 {
        assert(a + b == b);
        assert(escaped(a) + escaped(b) == escaped(b));
    } else {
        law_escaping_goes_character_by_character(a.skip(1), b, c);
        assert((a + b).skip(1) == a.skip(1) + b);
        let head = if metachar(a[0]) {
            seq!['\\', a[0]]
        } else {
            seq![a[0]]
        };
        assert(head + (escaped(a.skip(1)) + escaped(b)) == head + escaped(a.skip(1)) + escaped(b));
    }
}

/// Whether `name` is none of the arguments.
pub open spec fn absent(args: Seq<Seq<char>>, name: Seq<char>) -> bool {
    forall|i: int| 0 <= i < args.len() ==> #[trigger] args[i] != name
}

proof fn lemma_arg_behind(before: Seq<Seq<char>>, rest: Seq<Seq<char>>, name: Seq<char>)
    requires
        absent(before, name),
    ensures
        arg_at(before + rest, name) == before.len() + arg_at(rest, name),
        0 <= arg_at(rest, name) <= rest.len(),
    decreases before.len() + rest.len(),
{
    if before.len() == 0 {
        assert(before + rest == rest);
        if rest.len() > 0 && rest[0] != name {
            let none = Seq::<Seq<char>>::empty();
            lemma_arg_behind(none, rest.skip(1), name);
        }
    } else {
        let b = before.skip(1);
        assert forall|i: int| 0 <= i < b.len() implies #[trigger] b[i] != name by {
            assert(b[i] == before[i + 1]);
        }
        assert(before[0] != name);
        lemma_arg_behind(b, rest, name);
        assert((before + rest).skip(1) == b + rest);
    }
}

/// The value of an option is the argument behind its first occurrence; an option that is not there, or
/// that nothing follows, has none.
pub proof fn law_options_have_the_value_behind_them(
    before: Seq<Seq<char>>,
    name: Seq<char>,
    value: Seq<char>,
    rest: Seq<Seq<char>>,
)
    requires
        absent(before, name),
    ensures
        option_value(before + seq![name, value] + rest, name) == Some(value),
        option_value(before + seq![name], name) is None,
        option_value(before, name) is None,
{
    let tail = seq![name, value] + rest;
    assert(before + seq![name, value] + rest == before + tail);
    lemma_arg_behind(before, tail, name);
    assert(arg_at(tail, name) == 0);
    assert((before + tail)[before.len() as int + 1] == value);
    lemma_arg_behind(before, seq![name], name);
    let none = Seq::<Seq<char>>::empty();
    lemma_arg_behind(before, none, name);
    assert(before + none == before);
}

/// What a command line says: the options come from before the separator, and what follows it goes to
/// the compiler as it is. The width of pointers is 64 where nothing else is said, and a list of
/// directories to leave out names everything below each of them.
pub proof fn law_command_lines_are_read(
    own: Seq<Seq<char>>,
    clang: Seq<Seq<char>>,
    c: CommandLine,
    d: CommandLine,
)
    requires
        absent(own, "--"@),
        command_line(own + seq!["--"@] + clang, c),
        command_line(own, d),
    ensures
        c.clang_args matches Some(v) && v.deep_view() == clang,
        d.clang_args is None,
        c.src@ == d.src@ && Some(c.src@) == option_value(own, "--src"@),
        c.out@ == d.out@ && Some(c.out@) == option_value(own, "--out"@),
        view_opt(c.target) == view_opt(d.target) && view_opt(c.target) == option_value(
            own,
            "--target"@,
        ),
        c.ptr_width@ == d.ptr_width@ && c.ptr_width@ == (match option_value(own, "--ptr-width"@) {
            Some(w) => w,
            None => "64"@,
        }),
        c.blocklist is Some == option_value(own, "--blocklist"@) is Some,
        c.blocklist matches Some(v) ==> ({
            let dirs = text::pieces(option_value(own, "--blocklist"@)->0, ':');
            &&& v.deep_view().len() == dirs.len()
            &&& forall|i: int|
                0 <= i < dirs.len() ==> #[trigger] v.deep_view()[i] == escaped(dirs[i]) + "/.*"@
        }),
{
    let all = own + seq!["--"@] + clang;
    let tail = seq!["--"@] + clang;
    let none = Seq::<Seq<char>>::empty();
    assert(all == own + tail);
    lemma_arg_behind(own, tail, "--"@);
    lemma_arg_behind(own, none, "--"@);
    assert(own + none == own);
    assert(arg_at(tail, "--"@) == 0);
    assert(own_args(all) == own);
    assert(own_args(own) == own);
    assert(all.skip(own.len() as int + 1) == clang);
}

/// The options that have to be there are asked for by name.
pub proof fn law_missing_options_are_asked_for()
    ensures
        MissingOption::Src.spec_message()@ == "--src <fs-dir> required"@,
        MissingOption::Out.spec_message()@ == "--out <out-dir> required"@,
{
}

proof fn lemma_slash_counts_for_nothing(s: Seq<char>)
    requires
        s.len() > 0,
    ensures
        to_component(s.push('/')) == to_component(s),
        to_component(s + seq!['/', '.']) == to_component(s),
{
    let a = s.push('/');
    assert(last_part(a) == a.len());
    assert(a.skip(a.len() as int) == Seq::<char>::empty());
    assert(a.take(a.len() - 1) == s);
    assert(without_last(a) == s);
    assert(to_component(a) == to_component(s));
    let b = s + seq!['/', '.'];
    assert(b.drop_last() == a);
    assert(last_part(b) == a.len());
    assert(b.skip(a.len() as int) == seq!['.']);
    assert(b.take(a.len() - 1) == s);
    assert(without_last(b) == s);
}

/// A slash at the end of a path, and a slash and a dot, count for nothing.
pub proof fn law_slashes_at_the_end_count_for_nothing(p: Seq<char>)
    requires
        p.len() > 0,
        p[0] != '/' || p.len() > 1,
        p != seq!['.'],
    ensures
        parent_of(p.push('/')) == parent_of(p),
        parent_of(p + seq!['/', '.']) == parent_of(p),
{
    let b = body_start(p);
    let a = p.push('/');
    let c = p + seq!['/', '.'];
    if p.len() == 1 && p[0] == '.' {
        assert(p == seq!['.']);
    }
    assert(body_start(a) == b);
    assert(body_start(c) == b);
    assert(a.take(b) == p.take(b));
    assert(c.take(b) == p.take(b));
    let s = p.skip(b);
    assert(s.len() > 0);
    assert(a.skip(b) == s.push('/'));
    assert(c.skip(b) == s + seq!['/', '.']);
    lemma_slash_counts_for_nothing(s);
}

/// A name alone lies in the empty path, one below the root in the root; the root and the empty path lie
/// nowhere.
pub proof fn law_names_alone_lie_in_the_empty_path(name: Seq<char>)
    requires
        name.len() > 0,
        name != seq!['.'],
        forall|i: int| 0 <= i < name.len() ==> #[trigger] name[i] != '/',
    ensures
        parent_of(name) == Some(Seq::<char>::empty()),
        parent_of(seq!['/'] + name) == Some(seq!['/']),
        parent_of(seq!['/']) is None,
        parent_of(Seq::empty()) is None,
{
    let e = Seq::<char>::empty();
    lemma_no_slash(name);
    if name.len() == 1 && name[0] == '.' {
        assert(name == seq!['.']);
    }
    if name.len() > 1 {
        assert(name[1] != '/');
    }
    assert(body_start(name) == 0);
    assert(name.skip(0) == name);
    assert(name.take(0) == e);
    assert(to_component(e) == e);
    assert(without_last(name) == e);
    assert(e + e == e);
    let p = seq!['/'] + name;
    assert(p.skip(1) == name);
    assert(p.take(1) == seq!['/']);
    assert(seq!['/'] + e == seq!['/']);
    assert(seq!['/'].skip(1) == e);
    assert(seq!['/'].take(1) == seq!['/']);
    assert(seq!['/'][0] != '.');
    assert(seq!['/'] != seq!['.']) by {
        assert(seq!['/'][0] != seq!['.'][0]);
    }
    assert(e.skip(0) == e);
    assert(e.take(0) == e);
    assert(e.len() != seq!['.'].len());
}

proof fn lemma_no_slash(s: Seq<char>)
    requires
        forall|i: int| 0 <= i < s.len() ==> #[trigger] s[i] != '/',
    ensures
        last_part(s) == 0,
    decreases s.len(),
{
    if s.len() > 0 {
        let t = s.drop_last();
        assert forall|i: int| 0 <= i < t.len() implies #[trigger] t[i] != '/' by {
            assert(t[i] == s[i]);
        }
        lemma_no_slash(t);
    }
}

/// The arguments of a userspace build: the target, the flags of liburcu, the directories above the
/// sources, of the sources, of the C sources and of the headers, and five more.
pub proof fn law_userspace_arguments(
    root: Seq<char>,
    src: Seq<char>,
    target: Seq<char>,
    liburcu: Seq<Seq<char>>,
)
    ensures
        ({
            let args = clang_args_in(root, src, target, liburcu);
            let n = liburcu.len() as int + 1;
            &&& args.len() == n + 9
            &&& args[0] == "--target="@ + target
            &&& args.subrange(1, n) == liburcu
            &&& args[n] == "-I"@ + root
            &&& args[n + 1] == "-I"@ + src
            &&& args[n + 2] == "-I"@ + root + "/c_src"@
            &&& args[n + 3] == "-I"@ + root + "/include"@
            &&& args[n + 4] == "-DZSTD_STATIC_LINKING_ONLY"@
            &&& args[n + 5] == "-DNO_BCACHEFS_FS"@
            &&& args[n + 6] == "-D_GNU_SOURCE"@
            &&& args[n + 7] == "-DRUST_BINDGEN"@
            &&& args[n + 8] == "-fkeep-inline-functions"@
        }),
        blocklist_in(root).len() == 2,
        blocklist_in(root)[0] == escaped(root) + "/include/.*"@,
        blocklist_in(root)[1] == ".*/usr/.*"@,
{
    let args = clang_args_in(root, src, target, liburcu);
    assert(args.subrange(1, liburcu.len() as int + 1) == liburcu);
    reveal_strlit("/include");
    reveal_strlit("/.*");
    reveal_strlit("/include/.*");
    law_escaping_goes_character_by_character(root, "/include"@, ' ');
    law_escape_keeps_plain_text("/include"@);
    assert("/include"@ + "/.*"@ == "/include/.*"@);
    assert(escaped(root) + "/include"@ + "/.*"@ == escaped(root) + "/include/.*"@);
}

/// Words are what stands between white space, wherever that is and however much of it there is.
pub proof fn law_words_stand_between_white_space(
    gap: Seq<char>,
    w: Seq<char>,
    c: char,
    rest: Seq<char>,
)
    requires
        text::all_white(gap),
        text::white_space(c),
        w.len() > 0,
        forall|i: int| 0 <= i < w.len() ==> !text::white_space(#[trigger] w[i]),
    ensures
        words(gap) == Seq::<Seq<char>>::empty(),
        words(gap + rest) == words(rest),
        words(w) == seq![w],
        words(w + seq![c] + rest) == seq![w] + words(rest),
{
    let e = Seq::<char>::empty();
    lemma_words_behind_gap(gap, rest);
    lemma_words_behind_gap(gap, e);
    assert(gap + e == gap);
    assert(words(e) == Seq::<Seq<char>>::empty());
    let n = w.len() as int;
    lemma_word_ends(w, e);
    assert(w + e == w);
    assert(!text::white_space(w[0]));
    assert(w.take(n) == w);
    assert(w.skip(n) == e);
    assert(seq![w] + Seq::<Seq<char>>::empty() == seq![w]);
    let tail = seq![c] + rest;
    let s = w + seq![c] + rest;
    assert(s == w + tail);
    lemma_word_ends(w, tail);
    assert(s[0] == w[0]);
    assert(s.take(n) == w);
    assert(s.skip(n) == tail);
    assert(tail.skip(1) == rest);
    assert(tail[0] == c);
    assert(words(tail) == words(rest));
    assert(words(s) == seq![w] + words(tail));
}

proof fn lemma_words_behind_gap(gap: Seq<char>, rest: Seq<char>)
    requires
        text::all_white(gap),
    ensures
        words(gap + rest) == words(rest),
    decreases gap.len(),
{
    if gap.len() == 0 {
        assert(gap + rest == rest);
    } else {
        assert(text::white_space(gap[0]));
        assert((gap + rest).skip(1) == gap.skip(1) + rest);
        lemma_words_behind_gap(gap.skip(1), rest);
    }
}

proof fn lemma_word_ends(w: Seq<char>, rest: Seq<char>)
    requires
        forall|i: int| 0 <= i < w.len() ==> !text::white_space(#[trigger] w[i]),
        rest.len() > 0 ==> text::white_space(rest[0]),
    ensures
        word_end(w + rest) == w.len(),
    decreases w.len(),
{
    if w.len() == 0 {
        assert(w + rest == rest);
    } else {
        let v = w.skip(1);
        assert forall|i: int| 0 <= i < v.len() implies !text::white_space(#[trigger] v[i]) by {
            assert(v[i] == w[i + 1]);
        }
        assert(!text::white_space(w[0]));
        assert((w + rest).skip(1) == v + rest);
        lemma_word_ends(v, rest);
    }
}

/// The host is what the first line that starts with `host: ` says behind that.
pub proof fn law_first_host_line_counts(
    before: Seq<Seq<char>>,
    host: Seq<char>,
    after: Seq<Seq<char>>,
)
    requires
        forall|i: int| 0 <= i < before.len() ==> !text::starts(#[trigger] before[i], "host: "@),
    ensures
        host_in(before + seq!["host: "@ + host] + after) == Some(host),
        host_in(before) is None,
    decreases before.len(),
{
    let all = before + seq!["host: "@ + host] + after;
    if before.len() == 0 {
        let l = "host: "@ + host;
        assert(all[0] == l);
        assert(l.take("host: "@.len() as int) == "host: "@);
        assert(l.skip("host: "@.len() as int) == host);
    } else {
        let b = before.skip(1);
        assert forall|i: int| 0 <= i < b.len() implies !text::starts(
            #[trigger] b[i],
            "host: "@,
        ) by {
            assert(b[i] == before[i + 1]);
        }
        law_first_host_line_counts(b, host, after);
        assert(all.skip(1) == b + seq!["host: "@ + host] + after);
        assert(all[0] == before[0]);
    }
}

/// The compiler of the wrappers gets every argument but those that start with `--target`, in order.
pub proof fn law_targets_are_dropped_for_the_wrappers(a: Seq<Seq<char>>, x: Seq<char>)
    ensures
        cc_flags(Seq::empty()) == Seq::<Seq<char>>::empty(),
        cc_flags(a.push(x)) == (if text::starts(x, "--target"@) {
            cc_flags(a)
        } else {
            cc_flags(a).push(x)
        }),
{
    reveal(Seq::filter);
    assert(a.push(x).drop_last() == a);
}

} // verus!
