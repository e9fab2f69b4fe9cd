//! Fixes to the text that `bindgen` emits.
use crate::text;
use crate::text::{find, find_char, next_line, replace, same_chars, starts_at, to_chars, to_text};
use vstd::prelude::*;
use vstd::slice::slice_subrange;

verus! {

/// The structs that Rust handles by value and that need their derives added again. `bindgen`
/// drops them from a struct with a member of a blocklisted primitive type.
pub open spec fn spec_derive_readd() -> Seq<&'static str> {
    seq![
        "bpos",
        "bbpos",
        "subvol_inum",
        "bch_opts",
        "bch_key",
        "bch_encrypted_key",
        "bch_ioctl_snapshot_node",
    ]
}

/// The structs that need their derives added again.
pub fn derive_readd() -> (r: Vec<&'static str>)
    ensures
        r@ == spec_derive_readd(),
{
    let r = vec![
        "bpos",
        "bbpos",
        "subvol_inum",
        "bch_opts",
        "bch_key",
        "bch_encrypted_key",
        "bch_ioctl_snapshot_node",
    ];
    assert(r@ == spec_derive_readd());
    r
}

/// The name of the struct that the line `l` starts to define.
pub open spec fn struct_name(l: Seq<char>) -> Option<Seq<char>> {
    if text::starts(l, "pub struct "@) {
        let rest = l.skip("pub struct "@.len() as int);
        let n = text::char_at(rest, ' ');
        if n < rest.len() {
            Some(rest.take(n))
        } else {
            None
        }
    } else {
        None
    }
}

/// Whether the line `l` defines a struct that needs its derives added again.
pub open spec fn is_readd_struct(l: Seq<char>) -> bool {
    struct_name(l) matches Some(name) && exists|i: int|
        0 <= i < spec_derive_readd().len() && name == (#[trigger] spec_derive_readd()[i])@
}

/// The line that derives.
pub open spec fn derive_line() -> Seq<char> {
    "#[derive(Debug, Copy, Clone)]"@
}

/// Whether the derives are missing between the line `prev` and the line `l`.
pub open spec fn lacks_derive(prev: Seq<char>, l: Seq<char>) -> bool {
    is_readd_struct(l) && !text::starts(prev, "#[derive("@)
}

/// The lines `ls`, which follow the line `prev`, with the missing derives.
pub open spec fn readded(prev: Seq<char>, ls: Seq<Seq<char>>) -> Seq<Seq<char>>
    decreases ls.len(),
{
    if ls.len() == 0 {
        Seq::empty()
    } else if lacks_derive(prev, ls[0]) {
        seq![derive_line(), ls[0]] + readded(ls[0], ls.skip(1))
    } else {
        seq![ls[0]] + readded(ls[0], ls.skip(1))
    }
}

fn is_derive_readd(name: &[char]) -> (r: bool)
    ensures
        r == exists|i: int|
            0 <= i < spec_derive_readd().len() && name@ == (#[trigger] spec_derive_readd()[i])@,
{
    let names = derive_readd();
    let mut i: usize = 0;
    while i < names.len()
        invariant
            i <= names.len(),
            names@ == spec_derive_readd(),
            forall|j: int| 0 <= j < i ==> name@ != (#[trigger] spec_derive_readd()[j])@,
        decreases names.len() - i,
    {
        let known = to_chars(names[i]);
        if same_chars(name, known.as_slice()) {
            assert(name@ == spec_derive_readd()[i as int]@);
            return true;
        }
        i = i + 1;
    }
    false
}

fn defines_readd_struct(line: &[char]) -> (r: bool)
    ensures
        r == is_readd_struct(line@),
{
    let keyword = to_chars("pub struct ");
    assert(line@.skip(0) == line@);
    if !starts_at(line, 0, keyword.as_slice()) {
        return false;
    }
    let at: usize = keyword.len();
    let n: usize = find_char(line, at, ' ');
    if n == line.len() {
        return false;
    }
    assert(line@.subrange(at as int, n as int) == line@.skip(at as int).take(n - at));
    is_derive_readd(slice_subrange(line, at, n))
}

/// Adds the derives that are missing before the structs that Rust handles by value.
pub fn readd_derives(src: String) -> (out: String)
    ensures
        out@ == text::unlines(readded(Seq::empty(), text::lines(src@))),
{
    let cs = to_chars(src.as_str());
    let out = readd_in(cs.as_slice());
    to_text(out.as_slice())
}

fn readd_in(cs: &[char]) -> (out: Vec<char>)
    ensures
        out@ == text::unlines(readded(Seq::empty(), text::lines(cs@))),
{
    let derive = to_chars("#[derive(Debug, Copy, Clone)]");
    let opening = to_chars("#[derive(");
    let mut out: Vec<char> = Vec::new();
    let mut prev: &[char] = slice_subrange(cs, 0, 0);
    let mut at: usize = 0;
    let ghost whole = text::unlines(readded(Seq::empty(), text::lines(cs@)));
    assert(cs@.skip(0) == cs@);
    assert(prev@ == Seq::<char>::empty());
    assert(out@ + whole == whole);
    while at < cs.len()
        invariant
            at <= cs.len(),
            derive@ == derive_line(),
            opening@ == "#[derive("@,
            out@ + text::unlines(readded(prev@, text::lines(cs@.skip(at as int)))) == whole,
        decreases cs.len() - at,
    {
        let ghost ls = text::lines(cs@.skip(at as int));
        let ghost before = out@;
        let (line, next) = next_line(cs, at);
        let ghost rest = readded(line@, ls.skip(1));
        assert(ls.skip(1) == text::lines(cs@.skip(next as int)));
        assert(ls[0] == line@);
        assert(prev@.skip(0) == prev@);
        assert((seq![line@] + rest).skip(1) == rest);
        if defines_readd_struct(line) && !starts_at(prev, 0, opening.as_slice()) {
            out.extend_from_slice(derive.as_slice());
            out.push('\n');
            assert((seq![derive@, line@] + rest).skip(1) == seq![line@] + rest);
        }
        out.extend_from_slice(line);
        out.push('\n');
        assert(text::unlines(seq![line@] + rest) == line@ + seq!['\n'] + text::unlines(rest));
        assert(out@ + text::unlines(rest) == before + text::unlines(readded(prev@, ls)));
        prev = line;
        at = next;
    }
    assert(out@ == whole);
    out
}

/// The structs whose packed layout is a multiple of eight bytes: what `bindgen` emits for each.
pub open spec fn spec_packed() -> Seq<&'static str> {
    seq![
        "#[repr(C, packed(8))]\npub struct btree_node {",
        "#[repr(C, packed(8))]\n#[derive(Debug, Default, Copy, Clone)]\npub struct bch_extent_crc128 {",
        "#[repr(C, packed(8))]\npub struct jset {",
        "#[repr(C, packed(8))]\npub struct btree_node_entry {",
        "#[repr(C, packed(8))]\npub struct bch_sb {",
    ]
}

/// What stands there instead, so that the struct is aligned to eight bytes.
pub open spec fn spec_aligned() -> Seq<&'static str> {
    seq![
        "#[repr(C, align(8))]\npub struct btree_node {",
        "#[repr(C, align(8))]\n#[derive(Debug, Default, Copy, Clone)]\npub struct bch_extent_crc128 {",
        "#[repr(C, align(8))]\npub struct jset {",
        "#[repr(C, align(8))]\npub struct btree_node_entry {",
        "#[repr(C, align(8))]\npub struct bch_sb {",
    ]
}

/// `s` with the first `n` of the packed structs aligned.
pub open spec fn packed_fixed(s: Seq<char>, n: nat) -> Seq<char>
    decreases n,
{
    if n == 0 {
        s
    } else {
        text::replaced(
            packed_fixed(s, (n - 1) as nat),
            spec_packed()[n - 1]@,
            spec_aligned()[n - 1]@,
        )
    }
}

fn packed() -> (r: Vec<&'static str>)
    ensures
        r@ == spec_packed(),
{
    let r = vec![
        "#[repr(C, packed(8))]\npub struct btree_node {",
        "#[repr(C, packed(8))]\n#[derive(Debug, Default, Copy, Clone)]\npub struct bch_extent_crc128 {",
        "#[repr(C, packed(8))]\npub struct jset {",
        "#[repr(C, packed(8))]\npub struct btree_node_entry {",
        "#[repr(C, packed(8))]\npub struct bch_sb {",
    ];
    assert(r@ == spec_packed());
    r
}

fn aligned() -> (r: Vec<&'static str>)
    ensures
        r@ == spec_aligned(),
{
    let r = vec![
        "#[repr(C, align(8))]\npub struct btree_node {",
        "#[repr(C, align(8))]\n#[derive(Debug, Default, Copy, Clone)]\npub struct bch_extent_crc128 {",
        "#[repr(C, align(8))]\npub struct jset {",
        "#[repr(C, align(8))]\npub struct btree_node_entry {",
        "#[repr(C, align(8))]\npub struct bch_sb {",
    ];
    assert(r@ == spec_aligned());
    r
}

proof fn lemma_packed_is_text()
    ensures
        forall|i: int| 0 <= i < spec_packed().len() ==> (#[trigger] spec_packed()[i])@.len() > 0,
{
    reveal_strlit("#[repr(C, packed(8))]\npub struct btree_node {");
    reveal_strlit(
        "#[repr(C, packed(8))]\n#[derive(Debug, Default, Copy, Clone)]\npub struct bch_extent_crc128 {",
    );
    reveal_strlit("#[repr(C, packed(8))]\npub struct jset {");
    reveal_strlit("#[repr(C, packed(8))]\npub struct btree_node_entry {");
    reveal_strlit("#[repr(C, packed(8))]\npub struct bch_sb {");
}

fn fix_packed(cs: Vec<char>) -> (out: Vec<char>)
    ensures
        out@ == packed_fixed(cs@, spec_packed().len()),
{
    let from = packed();
    let to = aligned();
    let mut out = cs;
    let mut i: usize = 0;
    proof {
        lemma_packed_is_text();
    }
    while i < from.len()
        invariant
            i <= from.len(),
            from@ == spec_packed(),
            to@ == spec_aligned(),
            forall|j: int|
                0 <= j < spec_packed().len() ==> (#[trigger] spec_packed()[j])@.len() > 0,
            out@ == packed_fixed(cs@, i as nat),
        decreases from.len() - i,
    {
        let p = to_chars(from[i]);
        let t = to_chars(to[i]);
        assert(p@ == spec_packed()[i as int]@);
        out = replace(out.as_slice(), p.as_slice(), t.as_slice());
        i = i + 1;
    }
    out
}

/// The structs that hold a 64 bit member and that a 32 bit target would align to four bytes.
pub open spec fn spec_needs_align8() -> Seq<&'static str> {
    seq![
        "pub struct bkey_i_",
        "pub struct btree_node__bindgen_ty_1",
        "pub struct btree_node_entry__bindgen_ty_1",
        "pub struct bch_ioctl_query_accounting",
    ]
}

/// Whether the line `l` defines one of those.
pub open spec fn needs_align8(l: Seq<char>) -> bool {
    exists|i: int|
        0 <= i < spec_needs_align8().len() && text::found(
            l,
            (#[trigger] spec_needs_align8()[i])@,
        ) is Some
}

/// The line that stands for `ls[i]` on a 32 bit target.
pub open spec fn aligned_line(ls: Seq<Seq<char>>, i: int) -> Seq<char> {
    if ls[i] == "#[repr(C)]"@ && i + 1 < ls.len() && needs_align8(ls[i + 1]) {
        "#[repr(C, align(8))]"@
    } else {
        ls[i]
    }
}

/// The lines `ls` as a 32 bit target needs them.
pub open spec fn aligned_lines(ls: Seq<Seq<char>>) -> Seq<Seq<char>> {
    Seq::new(ls.len(), |i: int| aligned_line(ls, i))
}

fn line_needs_align8(line: &[char]) -> (r: bool)
    ensures
        r == needs_align8(line@),
{
    let names = vec![
        "pub struct bkey_i_",
        "pub struct btree_node__bindgen_ty_1",
        "pub struct btree_node_entry__bindgen_ty_1",
        "pub struct bch_ioctl_query_accounting",
    ];
    assert(names@ == spec_needs_align8());
    assert(line@.skip(0) == line@);
    let mut i: usize = 0;
    while i < names.len()
        invariant
            i <= names.len(),
            names@ == spec_needs_align8(),
            line@.skip(0) == line@,
            forall|j: int|
                0 <= j < i ==> text::found(line@, (#[trigger] spec_needs_align8()[j])@) is None,
        decreases names.len() - i,
    {
        let name = to_chars(names[i]);
        if find(line, 0, name.as_slice()).is_some() {
            assert(text::found(line@, spec_needs_align8()[i as int]@) is Some);
            return true;
        }
        i = i + 1;
    }
    false
}

proof fn lemma_aligned_lines_step(ls: Seq<Seq<char>>)
    requires
        ls.len() > 0,
    ensures
        aligned_lines(ls) == seq![aligned_line(ls, 0)] + aligned_lines(ls.skip(1)),
{
    let rest = ls.skip(1);
    assert forall|i: int| 0 <= i < rest.len() implies aligned_line(ls, i + 1) == aligned_line(
        rest,
        i,
    ) by {}
    assert(aligned_lines(ls) =~= seq![aligned_line(ls, 0)] + aligned_lines(rest));
}

fn align_lines(cs: &[char]) -> (out: Vec<char>)
    ensures
        out@ == text::unlines(aligned_lines(text::lines(cs@))),
{
    let plain = to_chars("#[repr(C)]");
    let wide = to_chars("#[repr(C, align(8))]");
    let mut out: Vec<char> = Vec::new();
    let mut at: usize = 0;
    let ghost whole = text::unlines(aligned_lines(text::lines(cs@)));
    assert(cs@.skip(0) == cs@);
    assert(out@ + whole == whole);
    while at < cs.len()
        invariant
            at <= cs.len(),
            plain@ == "#[repr(C)]"@,
            wide@ == "#[repr(C, align(8))]"@,
            out@ + text::unlines(aligned_lines(text::lines(cs@.skip(at as int)))) == whole,
        decreases cs.len() - at,
    {
        let ghost ls = text::lines(cs@.skip(at as int));
        let ghost before = out@;
        let (line, next) = next_line(cs, at);
        assert(ls.skip(1) == text::lines(cs@.skip(next as int)));
        assert(ls[0] == line@);
        let mut align = false;
        if same_chars(line, plain.as_slice()) && next < cs.len() {
            let (following, _) = next_line(cs, next);
            assert(ls[1] == ls.skip(1)[0]);
            assert(ls[1] == following@);
            align = line_needs_align8(following);
        }
        assert(next == cs.len() ==> ls.skip(1).len() == 0);
        assert(align == (ls[0] == plain@ && 1 < ls.len() && needs_align8(ls[1])));
        if align {
            out.extend_from_slice(wide.as_slice());
        } else {
            out.extend_from_slice(line);
        }
        out.push('\n');
        proof {
            lemma_aligned_lines_step(ls);
            let rest = aligned_lines(ls.skip(1));
            let first = aligned_line(ls, 0);
            assert((seq![first] + rest).skip(1) == rest);
            assert(out@ == before + (first + seq!['\n']));
            assert(out@ + text::unlines(rest) == before + text::unlines(aligned_lines(ls)));
        }
        at = next;
    }
    assert(aligned_lines(text::lines(cs@.skip(at as int))) == Seq::<Seq<char>>::empty());
    assert(out@ == whole);
    out
}

/// `s` with the layout of its structs fixed for pointers of `ptr_width` bits.
pub open spec fn layout_fixed(s: Seq<char>, ptr_width: Seq<char>) -> Seq<char> {
    let t = packed_fixed(s, spec_packed().len());
    if ptr_width == "32"@ {
        text::unlines(aligned_lines(text::lines(t)))
    } else {
        t
    }
}

/// Fixes the layout of structs: a packed struct that has to be aligned to eight bytes becomes
/// aligned, and on a 32 bit target so do the structs that hold a 64 bit member.
pub fn packed_and_align_fix(bindings: String, ptr_width: &str) -> (out: String)
    ensures
        out@ == layout_fixed(bindings@, ptr_width@),
{
    let cs = to_chars(bindings.as_str());
    let fixed = fix_layout(cs, ptr_width);
    to_text(fixed.as_slice())
}

fn fix_layout(cs: Vec<char>, ptr_width: &str) -> (out: Vec<char>)
    ensures
        out@ == layout_fixed(cs@, ptr_width@),
{
    let fixed = fix_packed(cs);
    let width = to_chars(ptr_width);
    let narrow = to_chars("32");
    if !same_chars(width.as_slice(), narrow.as_slice()) {
        return fixed;
    }
    align_lines(fixed.as_slice())
}

/// `s` without the prefix of the items that work around a limit of `bindgen`.
pub open spec fn prefix_stripped(s: Seq<char>) -> Seq<char> {
    text::replaced(s, "Fix753_"@, Seq::empty())
}

/// All fixes to the emitted text.
pub open spec fn post_processed(s: Seq<char>, ptr_width: Seq<char>) -> Seq<char> {
    layout_fixed(
        text::unlines(readded(Seq::empty(), text::lines(prefix_stripped(s)))),
        ptr_width,
    )
}

/// Fixes the text that `bindgen` emits: strips the prefix `Fix753_`, adds the missing derives,
/// and fixes the layout of structs.
pub fn post_process(src: String, ptr_width: &str) -> (out: String)
    ensures
        out@ == post_processed(src@, ptr_width@),
{
    let cs = to_chars(src.as_str());
    let prefix = to_chars("Fix753_");
    proof {
        reveal_strlit("Fix753_");
    }
    let nothing: Vec<char> = Vec::new();
    assert(nothing@ == Seq::<char>::empty());
    let stripped = replace(cs.as_slice(), prefix.as_slice(), nothing.as_slice());
    let derived = readd_in(stripped.as_slice());
    let fixed = fix_layout(derived, ptr_width);
    to_text(fixed.as_slice())
}

proof fn lemma_derive_line()
    ensures
        text::starts(derive_line(), "#[derive("@),
        !is_readd_struct(derive_line()),
        text::plain_line(derive_line()),
{
    reveal_strlit("#[derive(Debug, Copy, Clone)]");
    reveal_strlit("#[derive(");
    reveal_strlit("pub struct ");
    assert(derive_line().take(9) =~= "#[derive("@);
    assert(derive_line()[0] == '#');
    assert("pub struct "@[0] == 'p');
    assert(derive_line().take(11)[0] == '#');
}

/// After the derives were added, each struct that Rust handles by value is derived: a line that
/// starts to define one follows a line that derives.
pub proof fn law_readded_structs_are_derived(prev: Seq<char>, ls: Seq<Seq<char>>, i: int)
    requires
        0 <= i < readded(prev, ls).len(),
    ensures
        is_readd_struct(readded(prev, ls)[i]) ==> text::starts(
            if i == 0 {
                prev
            } else {
                readded(prev, ls)[i - 1]
            },
            "#[derive("@,
        ),
    decreases ls.len(),
{
    lemma_derive_line();
    let out = readded(prev, ls);
    let rest = readded(ls[0], ls.skip(1));
    if lacks_derive(prev, ls[0]) {
        if i >= 2 {
            law_readded_structs_are_derived(ls[0], ls.skip(1), i - 2);
            assert(out[i] == rest[i - 2]);
            assert(i == 2 ==> out[i - 1] == ls[0]);
            assert(i > 2 ==> out[i - 1] == rest[i - 3]);
        }
    } else {
        if i >= 1 {
            law_readded_structs_are_derived(ls[0], ls.skip(1), i - 1);
            assert(out[i] == rest[i - 1]);
            assert(i == 1 ==> out[i - 1] == ls[0]);
            assert(i > 1 ==> out[i - 1] == rest[i - 2]);
        }
    }
}

proof fn lemma_readded_again(prev: Seq<char>, ls: Seq<Seq<char>>)
    ensures
        readded(prev, readded(prev, ls)) == readded(prev, ls),
    decreases ls.len(),
{
    if ls.len() > 0 {
        lemma_derive_line();
        let rest = readded(ls[0], ls.skip(1));
        lemma_readded_again(ls[0], ls.skip(1));
        let out = readded(prev, ls);
        let tail = seq![ls[0]] + rest;
        assert(tail.skip(1) == rest);
        if lacks_derive(prev, ls[0]) {
            assert(out.skip(1) == tail);
            assert(readded(derive_line(), tail) == tail);
            assert(readded(prev, out) == seq![derive_line()] + tail);
            assert(seq![derive_line()] + tail == out);
        } else {
            assert(out == tail);
        }
    }
}

proof fn lemma_readded_plain(prev: Seq<char>, ls: Seq<Seq<char>>, i: int)
    requires
        forall|j: int| 0 <= j < ls.len() ==> text::plain_line(#[trigger] ls[j]),
        0 <= i < readded(prev, ls).len(),
    ensures
        text::plain_line(readded(prev, ls)[i]),
    decreases ls.len(),
{
    lemma_derive_line();
    let rest = ls.skip(1);
    assert forall|j: int| 0 <= j < rest.len() implies text::plain_line(#[trigger] rest[j]) by {
        assert(rest[j] == ls[j + 1]);
    }
    let lead: int = if lacks_derive(prev, ls[0]) {
        2
    } else {
        1
    };
    if i >= lead {
        lemma_readded_plain(ls[0], rest, i - lead);
    }
}

/// Adding the missing derives a second time changes nothing, unless a line of the text ends in a
/// carriage return, which the second reading would take for a part of the line ending.
pub proof fn law_readding_is_idempotent(s: Seq<char>)
    requires
        forall|i: int|
            0 <= i < text::lines(s).len() && (#[trigger] text::lines(s)[i]).len() > 0
                ==> text::lines(s)[i].last() != '\r',
    ensures
        ({
            let once = text::unlines(readded(Seq::empty(), text::lines(s)));
            text::unlines(readded(Seq::empty(), text::lines(once))) == once
        }),
{
    let ls = text::lines(s);
    let out = readded(Seq::empty(), ls);
    assert forall|i: int| 0 <= i < ls.len() implies text::plain_line(#[trigger] ls[i]) by {
        text::lemma_lines_hold_no_line_feed(s, i);
    }
    assert forall|i: int| 0 <= i < out.len() implies text::plain_line(#[trigger] out[i]) by {
        lemma_readded_plain(Seq::empty(), ls, i);
    }
    text::law_lines_inverts_unlines(out);
    lemma_readded_again(Seq::empty(), ls);
}

proof fn lemma_packed_absent(s: Seq<char>, n: nat)
    requires
        n <= spec_packed().len(),
        forall|i: int|
            0 <= i < spec_packed().len() ==> text::found(s, (#[trigger] spec_packed()[i])@) is None,
    ensures
        packed_fixed(s, n) == s,
    decreases n,
{
    if n > 0 {
        lemma_packed_absent(s, (n - 1) as nat);
        assert(text::found(s, spec_packed()[n - 1]@) is None);
        text::lemma_replaced_absent(s, spec_packed()[n - 1]@, spec_aligned()[n - 1]@);
    }
}

/// A text without the packed structs is left as it is, but for a 32 bit target.
pub proof fn law_layout_fix_keeps_other_text(s: Seq<char>, ptr_width: Seq<char>)
    requires
        forall|i: int|
            0 <= i < spec_packed().len() ==> text::found(s, (#[trigger] spec_packed()[i])@) is None,
        ptr_width != "32"@,
    ensures
        layout_fixed(s, ptr_width) == s,
{
    lemma_packed_absent(s, spec_packed().len());
}

/// Every `Fix753_` is stripped, however many there are: a text that was cut into pieces and has the
/// prefix between them comes out as one that has nothing between them.
pub proof fn law_every_prefix_is_stripped(ps: Seq<Seq<char>>, ptr_width: Seq<char>)
    requires
        forall|k: int, i: int|
            0 <= k < ps.len() && 0 <= i < ps[k].len() ==> !(#[trigger] text::occurs_at(
                ps[k] + "Fix753_"@,
                "Fix753_"@,
                i,
            )),
        forall|i: int|
            !(#[trigger] text::occurs_at(text::joined(ps, Seq::empty()), "Fix753_"@, i)),
    ensures
        prefix_stripped(text::joined(ps, "Fix753_"@)) == text::joined(ps, Seq::empty()),
        post_processed(text::joined(ps, "Fix753_"@), ptr_width) == post_processed(
            text::joined(ps, Seq::empty()),
            ptr_width,
        ),
{
    reveal_strlit("Fix753_");
    text::law_replacing_between_pieces(ps, "Fix753_"@, Seq::empty());
    text::law_replacing_nothing_changes_nothing(
        text::joined(ps, Seq::empty()),
        "Fix753_"@,
        Seq::empty(),
    );
}

/// Post-processing strips the prefix first, then adds the derives, then fixes the layout.
pub proof fn law_fixes_follow_each_other(s: Seq<char>, ptr_width: Seq<char>)
    ensures
        post_processed(s, ptr_width) == layout_fixed(
            text::unlines(
                readded(
                    Seq::empty(),
                    text::lines(text::replaced(s, "Fix753_"@, Seq::empty())),
                ),
            ),
            ptr_width,
        ),
{
}

/// Whether `name` is a struct that Rust handles by value.
pub open spec fn by_value(name: Seq<char>) -> bool {
    ||| name == "bpos"@
    ||| name == "bbpos"@
    ||| name == "subvol_inum"@
    ||| name == "bch_opts"@
    ||| name == "bch_key"@
    ||| name == "bch_encrypted_key"@
    ||| name == "bch_ioctl_snapshot_node"@
}

/// The lines that may lack derives are those that start with `pub struct`, the name of a struct that
/// Rust handles by value, and a blank.
pub proof fn law_structs_by_value_are_known(name: Seq<char>, tail: Seq<char>, l: Seq<char>)
    ensures
        by_value(name) ==> is_readd_struct("pub struct "@ + name + " "@ + tail),
        is_readd_struct(l) ==> exists|n: Seq<char>, t: Seq<char>|
            by_value(n) && l == #[trigger] ("pub struct "@ + n + " "@ + t),
{
    reveal_strlit("pub struct ");
    reveal_strlit(" ");
    reveal_strlit("bpos");
    reveal_strlit("bbpos");
    reveal_strlit("subvol_inum");
    reveal_strlit("bch_opts");
    reveal_strlit("bch_key");
    reveal_strlit("bch_encrypted_key");
    reveal_strlit("bch_ioctl_snapshot_node");
    let known = spec_derive_readd();
    assert(" "@ == seq![' ']);
    if by_value(name) {
        let k = "pub struct "@ + name + " "@ + tail;
        let rest = name + " "@ + tail;
        assert(k.take(11) == "pub struct "@);
        assert(k.skip(11) == rest);
        assert forall|j: int| 0 <= j < name.len() implies rest[j] != ' ' by {
            assert(rest[j] == name[j]);
        }
        text::lemma_char_at_unique(rest, ' ', name.len() as int);
        assert(rest.take(name.len() as int) == name);
        assert(name == known[0]@ || name == known[1]@ || name == known[2]@ || name == known[3]@
            || name == known[4]@ || name == known[5]@ || name == known[6]@);
    }
    if is_readd_struct(l) {
        let rest = l.skip(11);
        let n = text::char_at(rest, ' ');
        text::lemma_char_at(rest, ' ');
        let t = rest.skip(n + 1);
        assert(rest == rest.take(n) + " "@ + t);
        assert(l == l.take(11) + rest);
        assert(l == "pub struct "@ + rest.take(n) + " "@ + t);
        assert(by_value(rest.take(n)));
    }
}

/// Adding derives goes line by line: a line is kept, and where it defines a struct that Rust handles
/// by value and the line before it does not derive, a line that derives `Debug`, `Copy` and `Clone`
/// comes before it.
pub proof fn law_derives_are_added_line_by_line(prev: Seq<char>, l: Seq<char>, rest: Seq<Seq<char>>)
    ensures
        readded(prev, seq![l] + rest) == (if is_readd_struct(l) && !text::starts(
            prev,
            "#[derive("@,
        ) {
            seq!["#[derive(Debug, Copy, Clone)]"@, l]
        } else {
            seq![l]
        }) + readded(l, rest),
        readded(prev, Seq::empty()) == Seq::<Seq<char>>::empty(),
{
    assert((seq![l] + rest).skip(1) == rest);
}

/// The line that opens a packed struct which has to be aligned to eight bytes, up to its brace.
pub open spec fn opens_packed(i: int) -> Seq<char> {
    if i == 0 {
        "#[repr(C, packed(8))]\npub struct btree_node {"@
    } else if i == 1 {
        "#[repr(C, packed(8))]\n#[derive(Debug, Default, Copy, Clone)]\npub struct bch_extent_crc128 {"@
    } else if i == 2 {
        "#[repr(C, packed(8))]\npub struct jset {"@
    } else if i == 3 {
        "#[repr(C, packed(8))]\npub struct btree_node_entry {"@
    } else {
        "#[repr(C, packed(8))]\npub struct bch_sb {"@
    }
}

/// The same line where the struct is aligned instead.
pub open spec fn opens_aligned(i: int) -> Seq<char> {
    if i == 0 {
        "#[repr(C, align(8))]\npub struct btree_node {"@
    } else if i == 1 {
        "#[repr(C, align(8))]\n#[derive(Debug, Default, Copy, Clone)]\npub struct bch_extent_crc128 {"@
    } else if i == 2 {
        "#[repr(C, align(8))]\npub struct jset {"@
    } else if i == 3 {
        "#[repr(C, align(8))]\npub struct btree_node_entry {"@
    } else {
        "#[repr(C, align(8))]\npub struct bch_sb {"@
    }
}

proof fn lemma_packed_texts(i: int, j: int)
    requires
        0 <= i < 5,
        0 <= j < 5,
    ensures
        opens_packed(i) == spec_packed()[i]@,
        opens_aligned(i) == spec_aligned()[i]@,
        opens_packed(i).len() >= 36,
        opens_packed(i).take(21) == "#[repr(C, packed(8))]"@,
        "#[repr(C, packed(8))]"@.len() == 21,
        i != j ==> exists|k: int|
            0 <= k < opens_packed(i).len() && k < opens_packed(j).len() && #[trigger] opens_packed(
                i,
            )[k] != opens_packed(j)[k],
{
    reveal_strlit("#[repr(C, packed(8))]");
    reveal_strlit("#[repr(C, packed(8))]\npub struct btree_node {");
    reveal_strlit(
        "#[repr(C, packed(8))]\n#[derive(Debug, Default, Copy, Clone)]\npub struct bch_extent_crc128 {",
    );
    reveal_strlit("#[repr(C, packed(8))]\npub struct jset {");
    reveal_strlit("#[repr(C, packed(8))]\npub struct btree_node_entry {");
    reveal_strlit("#[repr(C, packed(8))]\npub struct bch_sb {");
    let p = opens_packed(i);
    let q = opens_packed(j);
    assert(p.take(21) == "#[repr(C, packed(8))]"@);
    if i != j {
        if i == 1 || j == 1 {
            assert(p[22] != q[22]);
        } else if (i == 0 && j == 3) || (i == 3 && j == 0) {
            assert(p[43] != q[43]);
        } else {
            assert(p[34] != q[34]);
        }
    }
}

/// A packed struct that has to be aligned to eight bytes becomes an aligned one, wherever it stands,
/// and the text around it is kept, where that holds no other packed struct.
pub proof fn law_packed_structs_become_aligned(
    a: Seq<char>,
    b: Seq<char>,
    i: int,
    ptr_width: Seq<char>,
)
    requires
        0 <= i < 5,
        ptr_width != "32"@,
        forall|k: int|
            k != a.len() ==> !(#[trigger] text::occurs_at(
                a + opens_packed(i) + b,
                "#[repr(C, packed(8))]"@,
                k,
            )),
        forall|k: int|
            !(#[trigger] text::occurs_at(a + opens_aligned(i) + b, "#[repr(C, packed(8))]"@, k)),
    ensures
        layout_fixed(a + opens_packed(i) + b, ptr_width) == a + opens_aligned(i) + b,
{
    let before = a + opens_packed(i) + b;
    let after = a + opens_aligned(i) + b;
    lemma_packed_until(a, b, i, i as nat);
    lemma_packed_texts(i, i);
    let p = opens_packed(i);
    let t = opens_aligned(i);
    assert forall|k: int| 0 <= k < a.len() implies !(#[trigger] text::occurs_at(a + p, p, k)) by {
        if text::occurs_at(a + p, p, k) {
            lemma_head_occurs(a + p, i, k);
            assert(before.subrange(k, k + 21) == (a + p).subrange(k, k + 21));
            assert(text::occurs_at(before, "#[repr(C, packed(8))]"@, k));
        }
    }
    text::law_every_occurrence_is_replaced(a, p, b, t);
    assert forall|k: int| !(#[trigger] text::occurs_at(b, p, k)) by {
        if text::occurs_at(b, p, k) {
            lemma_head_occurs(b, i, k);
            let at = a.len() + p.len() + k;
            assert(before.subrange(at, at + 21) == b.subrange(k, k + 21));
            assert(text::occurs_at(before, "#[repr(C, packed(8))]"@, at));
        }
    }
    text::law_replacing_nothing_changes_nothing(b, p, t);
    assert(packed_fixed(before, (i + 1) as nat) == after);
    lemma_packed_from(before, after, (i + 1) as nat, 5);
}

proof fn lemma_head_occurs(s: Seq<char>, i: int, k: int)
    requires
        0 <= i < 5,
        text::occurs_at(s, opens_packed(i), k),
    ensures
        text::occurs_at(s, "#[repr(C, packed(8))]"@, k),
{
    lemma_packed_texts(i, i);
    let p = opens_packed(i);
    assert(s.subrange(k, k + p.len()).take(21) == s.subrange(k, k + 21));
}

proof fn lemma_packed_until(a: Seq<char>, b: Seq<char>, i: int, n: nat)
    requires
        0 <= n <= i < 5,
        forall|k: int|
            k != a.len() ==> !(#[trigger] text::occurs_at(
                a + opens_packed(i) + b,
                "#[repr(C, packed(8))]"@,
                k,
            )),
    ensures
        packed_fixed(a + opens_packed(i) + b, n) == a + opens_packed(i) + b,
    decreases n,
{
    if n > 0 {
        lemma_packed_until(a, b, i, (n - 1) as nat);
        let s = a + opens_packed(i) + b;
        let j = n - 1;
        lemma_packed_texts(i, j);
        lemma_packed_texts(j, j);
        let q = opens_packed(j);
        assert forall|k: int| !(#[trigger] text::occurs_at(s, q, k)) by {
            if text::occurs_at(s, q, k) {
                lemma_head_occurs(s, j, k);
                assert(k == a.len());
                let m = choose|m: int|
                    0 <= m < opens_packed(i).len() && m < q.len() && #[trigger] opens_packed(i)[m]
                        != q[m];
                assert(s.subrange(k, k + q.len())[m] == s[k + m]);
                assert(s[k + m] == opens_packed(i)[m]);
            }
        }
        text::law_replacing_nothing_changes_nothing(s, q, opens_aligned(j));
    }
}

proof fn lemma_packed_from(s: Seq<char>, after: Seq<char>, n: nat, m: nat)
    requires
        n <= m <= 5,
        packed_fixed(s, n) == after,
        forall|k: int| !(#[trigger] text::occurs_at(after, "#[repr(C, packed(8))]"@, k)),
    ensures
        packed_fixed(s, m) == after,
    decreases m - n,
{
    if n < m {
        let j = n as int;
        lemma_packed_texts(j, j);
        assert forall|k: int| !(#[trigger] text::occurs_at(after, opens_packed(j), k)) by {
            if text::occurs_at(after, opens_packed(j), k) {
                lemma_head_occurs(after, j, k);
            }
        }
        text::law_replacing_nothing_changes_nothing(after, opens_packed(j), opens_aligned(j));
        lemma_packed_from(s, after, n + 1, m);
    }
}

/// Whether the text `n` occurs in the line `l`.
pub open spec fn holds_text(l: Seq<char>, n: Seq<char>) -> bool {
    exists|k: int| #[trigger] text::occurs_at(l, n, k)
}

/// On a 32 bit target the lines stay as many as they are, and a line changes only where it is the
/// plain `#[repr(C)]` before a struct that holds a 64 bit member: that struct is aligned.
pub proof fn law_narrow_targets_are_aligned(ls: Seq<Seq<char>>, i: int)
    requires
        0 <= i < ls.len(),
    ensures
        aligned_lines(ls).len() == ls.len(),
        aligned_lines(ls)[i] == (if ls[i] == "#[repr(C)]"@ && i + 1 < ls.len() && (holds_text(
            ls[i + 1],
            "pub struct bkey_i_"@,
        ) || holds_text(ls[i + 1], "pub struct btree_node__bindgen_ty_1"@) || holds_text(
            ls[i + 1],
            "pub struct btree_node_entry__bindgen_ty_1"@,
        ) || holds_text(ls[i + 1], "pub struct bch_ioctl_query_accounting"@)) {
            "#[repr(C, align(8))]"@
        } else {
            ls[i]
        }),
{
    let names = spec_needs_align8();
    if i + 1 < ls.len() {
        let l = ls[i + 1];
        text::law_first_occurrence_is_found(l, names[0]@);
        text::law_first_occurrence_is_found(l, names[1]@);
        text::law_first_occurrence_is_found(l, names[2]@);
        text::law_first_occurrence_is_found(l, names[3]@);
        assert forall|j: int| 0 <= j < 4 implies (text::found(l, (#[trigger] names[j])@) is Some)
            == holds_text(l, names[j]@) by {
            text::law_first_occurrence_is_found(l, names[j]@);
        }
        assert(needs_align8(l) == (holds_text(l, names[0]@) || holds_text(l, names[1]@)
            || holds_text(l, names[2]@) || holds_text(l, names[3]@)));
    }
}

/// The layout of a text without packed structs is fixed for a 32 bit target line by line, and for
/// any other left alone.
pub proof fn law_layout_follows_the_target(ls: Seq<Seq<char>>, ptr_width: Seq<char>)
    requires
        forall|i: int| 0 <= i < ls.len() ==> text::plain_line(#[trigger] ls[i]),
        forall|k: int|
            !(#[trigger] text::occurs_at(text::unlines(ls), "#[repr(C, packed(8))]"@, k)),
    ensures
        layout_fixed(text::unlines(ls), "32"@) == text::unlines(aligned_lines(ls)),
        ptr_width != "32"@ ==> layout_fixed(text::unlines(ls), ptr_width) == text::unlines(ls),
{
    let s = text::unlines(ls);
    assert(packed_fixed(s, 0) == s);
    lemma_packed_from(s, s, 0, 5);
    text::law_lines_inverts_unlines(ls);
}

/// All five packed structs are fixed, one after the other, and for a 32 bit target the lines after
/// that.
pub proof fn law_all_packed_structs_are_fixed(s: Seq<char>, ptr_width: Seq<char>)
    requires
        ptr_width != "32"@,
    ensures
        layout_fixed(s, ptr_width) == text::replaced(
            text::replaced(
                text::replaced(
                    text::replaced(
                        text::replaced(s, opens_packed(0), opens_aligned(0)),
                        opens_packed(1),
                        opens_aligned(1),
                    ),
                    opens_packed(2),
                    opens_aligned(2),
                ),
                opens_packed(3),
                opens_aligned(3),
            ),
            opens_packed(4),
            opens_aligned(4),
        ),
        layout_fixed(s, "32"@) == text::unlines(
            aligned_lines(text::lines(layout_fixed(s, ptr_width))),
        ),
{
    reveal_with_fuel(packed_fixed, 6);
}

} // verus!
