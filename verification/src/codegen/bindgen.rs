//! The `bindgen` command line, and the files around a run of it.
use crate::codegen::post_process;
use crate::codegen::post_process::post_process;
use crate::text;
use crate::text::{push_text, replace, to_chars, to_text};
use vstd::prelude::*;

verus! {

/// The C headers that the bindings cover.
pub open spec fn spec_headers() -> Seq<&'static str> {
    seq![
        "bcachefs.h",
        "opts.h",
        "btree/cache.h",
        "btree/interior.h",
        "btree/iter.h",
        "alloc/accounting.h",
        "alloc/background.h",
        "alloc/buckets.h",
        "alloc/disk_groups.h",
        "data/checksum.h",
        "data/extents.h",
        "data/io_misc.h",
        "data/move.h",
        "data/read.h",
        "data/update.h",
        "data/write.h",
        "debug/debug.h",
        "init/dev.h",
        "init/error.h",
        "init/fs.h",
        "init/passes.h",
        "fs/check.h",
        "fs/dirent.h",
        "fs/inode.h",
        "fs/namei.h",
        "fs/xattr.h",
        "journal/init.h",
        "journal/read.h",
        "journal/reclaim.h",
        "journal/seq_blacklist.h",
        "journal/validate.h",
        "sb/io.h",
        "sb/members.h",
    ]
}

/// The C headers that the bindings cover.
pub fn headers() -> (r: Vec<&'static str>)
    ensures
        r@ == spec_headers(),
{
    let r = vec![
        "bcachefs.h",
        "opts.h",
        "btree/cache.h",
        "btree/interior.h",
        "btree/iter.h",
        "alloc/accounting.h",
        "alloc/background.h",
        "alloc/buckets.h",
        "alloc/disk_groups.h",
        "data/checksum.h",
        "data/extents.h",
        "data/io_misc.h",
        "data/move.h",
        "data/read.h",
        "data/update.h",
        "data/write.h",
        "debug/debug.h",
        "init/dev.h",
        "init/error.h",
        "init/fs.h",
        "init/passes.h",
        "fs/check.h",
        "fs/dirent.h",
        "fs/inode.h",
        "fs/namei.h",
        "fs/xattr.h",
        "journal/init.h",
        "journal/read.h",
        "journal/reclaim.h",
        "journal/seq_blacklist.h",
        "journal/validate.h",
        "sb/io.h",
        "sb/members.h",
    ];
    assert(r@ == spec_headers());
    r
}

/// The options of `bindgen` that are given once for each name in a list.
#[derive(Clone, Copy, PartialEq, Eq, Structural, Debug)]
pub enum ListOption {
    /// Enums that become bit fields.
    BitfieldEnum,
    /// Enums that become Rust enums.
    RustifiedEnum,
    /// Enums that become structs of one integer.
    NewtypeEnum,
    /// Types whose members are hidden.
    OpaqueType,
    /// Functions to emit.
    AllowlistFunction,
    /// Functions to leave out.
    BlocklistFunction,
    /// Variables and constants to emit.
    AllowlistVar,
    /// Types to emit.
    AllowlistType,
    /// Types to leave out.
    BlocklistType,
    /// Items to leave out.
    BlocklistItem,
    /// Types without `Debug`.
    NoDebug,
    /// Types without `Copy`.
    NoCopy,
    /// Types without `PartialEq`.
    NoPartialEq,
}

impl ListOption {
    /// The flag.
    pub open spec fn spec_flag(self) -> &'static str {
        match self {
            ListOption::BitfieldEnum => "--bitfield-enum",
            ListOption::RustifiedEnum => "--rustified-enum",
            ListOption::NewtypeEnum => "--newtype-enum",
            ListOption::OpaqueType => "--opaque-type",
            ListOption::AllowlistFunction => "--allowlist-function",
            ListOption::BlocklistFunction => "--blocklist-function",
            ListOption::AllowlistVar => "--allowlist-var",
            ListOption::AllowlistType => "--allowlist-type",
            ListOption::BlocklistType => "--blocklist-type",
            ListOption::BlocklistItem => "--blocklist-item",
            ListOption::NoDebug => "--no-debug",
            ListOption::NoCopy => "--no-copy",
            ListOption::NoPartialEq => "--no-partialeq",
        }
    }

    /// The names that the flag is given for.
    pub open spec fn spec_names(self) -> Seq<&'static str> {
        match self {
            ListOption::BitfieldEnum => seq![
                "btree_iter_update_trigger_flags",
                "bch_reservation_flags",
                "bch_trans_commit_flags",
                "bch_write_flags",
            ],
            ListOption::RustifiedEnum => seq![
                "fsck_err_opts",
                "bch_key_types",
            ],
            ListOption::NewtypeEnum => seq![
                "bcachefs_metadata_version",
                "bch_bkey_type",
                "bch_compression_type",
                "bch_data_type",
                "bch_jset_entry_type",
                "bch_kdf_types",
                "bch_opt_id",
                "bch_reconcile_accounting_type",
                "bch_sb_field_type",
                "disk_accounting_type",
            ],
            ListOption::OpaqueType => seq![
                "gendisk",
                "gc_stripe",
                "open_bucket.*",
                "replicas_delta_list",
                "bch_replicas_padded",
            ],
            ListOption::AllowlistFunction => seq![
                ".*bch2_.*",
                "block_bytes",
                "match_string",
                "printbuf.*",
                "_bch2_err_matches",
                "bpos_.*",
                "bkey_.*_init",
                "bkey_i_to_s",
                "bkey_i_to_s_c",
                "btree_iter_path",
                "extent_entry_u64s",
                "enumerated_ref_put",
            ],
            ListOption::BlocklistFunction => seq![
                "bch2_prt_vprintf",
                ".*bch2_snapshot_id_state",
            ],
            ListOption::AllowlistVar => seq![
                "BCH_.*",
                "BTREE_MAX_DEPTH",
                "KEY_SPEC_.*",
                "Fix753_.*",
                "bch.*",
                "__bch2.*",
                "__BTREE_ITER.*",
                "BTREE_ITER.*",
            ],
            ListOption::AllowlistType => seq![
                "bch_.*",
                "bkey_i_.*",
                "bkey_s_c_.*",
                "bkey_s_.*",
                "btree_flags",
                "disk_accounting_type",
                "fsck_err_opts",
                "nonce",
                "sb_names",
                "genradix.*",
                "__genradix.*",
            ],
            ListOption::BlocklistType => seq![
                "bch_ioctl_data_event",
                "bch_replicas_padded__bindgen_ty_.*",
            ],
            ListOption::BlocklistItem => seq![
                "bch2_bkey_ops",
            ],
            ListOption::NoDebug => seq![
                "bch_replicas_padded",
                "jset",
                "bch_replicas_entry_cpu",
            ],
            ListOption::NoCopy => seq![
                "btree_trans",
                "printbuf",
                "bch_sb_handle",
            ],
            ListOption::NoPartialEq => seq![
                "bkey",
                "bpos",
            ],
        }
    }

    /// The flag.
    pub fn flag(self) -> (r: &'static str)
        ensures
            r@ == self.spec_flag()@,
    {
        match self {
            ListOption::BitfieldEnum => "--bitfield-enum",
            ListOption::RustifiedEnum => "--rustified-enum",
            ListOption::NewtypeEnum => "--newtype-enum",
            ListOption::OpaqueType => "--opaque-type",
            ListOption::AllowlistFunction => "--allowlist-function",
            ListOption::BlocklistFunction => "--blocklist-function",
            ListOption::AllowlistVar => "--allowlist-var",
            ListOption::AllowlistType => "--allowlist-type",
            ListOption::BlocklistType => "--blocklist-type",
            ListOption::BlocklistItem => "--blocklist-item",
            ListOption::NoDebug => "--no-debug",
            ListOption::NoCopy => "--no-copy",
            ListOption::NoPartialEq => "--no-partialeq",
        }
    }

    /// The names that the flag is given for.
    pub fn names(self) -> (r: Vec<&'static str>)
        ensures
            r@ == self.spec_names(),
    {
        let r = match self {
            ListOption::BitfieldEnum => vec![
                "btree_iter_update_trigger_flags",
                "bch_reservation_flags",
                "bch_trans_commit_flags",
                "bch_write_flags",
            ],
            ListOption::RustifiedEnum => vec![
                "fsck_err_opts",
                "bch_key_types",
            ],
            ListOption::NewtypeEnum => vec![
                "bcachefs_metadata_version",
                "bch_bkey_type",
                "bch_compression_type",
                "bch_data_type",
                "bch_jset_entry_type",
                "bch_kdf_types",
                "bch_opt_id",
                "bch_reconcile_accounting_type",
                "bch_sb_field_type",
                "disk_accounting_type",
            ],
            ListOption::OpaqueType => vec![
                "gendisk",
                "gc_stripe",
                "open_bucket.*",
                "replicas_delta_list",
                "bch_replicas_padded",
            ],
            ListOption::AllowlistFunction => vec![
                ".*bch2_.*",
                "block_bytes",
                "match_string",
                "printbuf.*",
                "_bch2_err_matches",
                "bpos_.*",
                "bkey_.*_init",
                "bkey_i_to_s",
                "bkey_i_to_s_c",
                "btree_iter_path",
                "extent_entry_u64s",
                "enumerated_ref_put",
            ],
            ListOption::BlocklistFunction => vec![
                "bch2_prt_vprintf",
                ".*bch2_snapshot_id_state",
            ],
            ListOption::AllowlistVar => vec![
                "BCH_.*",
                "BTREE_MAX_DEPTH",
                "KEY_SPEC_.*",
                "Fix753_.*",
                "bch.*",
                "__bch2.*",
                "__BTREE_ITER.*",
                "BTREE_ITER.*",
            ],
            ListOption::AllowlistType => vec![
                "bch_.*",
                "bkey_i_.*",
                "bkey_s_c_.*",
                "bkey_s_.*",
                "btree_flags",
                "disk_accounting_type",
                "fsck_err_opts",
                "nonce",
                "sb_names",
                "genradix.*",
                "__genradix.*",
            ],
            ListOption::BlocklistType => vec![
                "bch_ioctl_data_event",
                "bch_replicas_padded__bindgen_ty_.*",
            ],
            ListOption::BlocklistItem => vec![
                "bch2_bkey_ops",
            ],
            ListOption::NoDebug => vec![
                "bch_replicas_padded",
                "jset",
                "bch_replicas_entry_cpu",
            ],
            ListOption::NoCopy => vec![
                "btree_trans",
                "printbuf",
                "bch_sb_handle",
            ],
            ListOption::NoPartialEq => vec![
                "bkey",
                "bpos",
            ],
        };
        assert(r@ == self.spec_names());
        r
    }
}

/// The list options, in the order of the command line.
pub open spec fn spec_list_options() -> Seq<ListOption> {
    seq![
        ListOption::BitfieldEnum,
        ListOption::RustifiedEnum,
        ListOption::NewtypeEnum,
        ListOption::OpaqueType,
        ListOption::AllowlistFunction,
        ListOption::BlocklistFunction,
        ListOption::AllowlistVar,
        ListOption::AllowlistType,
        ListOption::BlocklistType,
        ListOption::BlocklistItem,
        ListOption::NoDebug,
        ListOption::NoCopy,
        ListOption::NoPartialEq,
    ]
}

fn list_options() -> (r: Vec<ListOption>)
    ensures
        r@ == spec_list_options(),
{
    let r = vec![
        ListOption::BitfieldEnum,
        ListOption::RustifiedEnum,
        ListOption::NewtypeEnum,
        ListOption::OpaqueType,
        ListOption::AllowlistFunction,
        ListOption::BlocklistFunction,
        ListOption::AllowlistVar,
        ListOption::AllowlistType,
        ListOption::BlocklistType,
        ListOption::BlocklistItem,
        ListOption::NoDebug,
        ListOption::NoCopy,
        ListOption::NoPartialEq,
    ];
    assert(r@ == spec_list_options());
    r
}

/// The flag `flag` for each of the values.
pub open spec fn flags(flag: Seq<char>, values: Seq<Seq<char>>) -> Seq<Seq<char>>
    decreases values.len(),
{
    if values.len() == 0 {
        Seq::empty()
    } else {
        seq![flag, values[0]] + flags(flag, values.skip(1))
    }
}

/// The views of a list of strings.
pub open spec fn views(v: Seq<&'static str>) -> Seq<Seq<char>> {
    v.map_values(|s: &'static str| s@)
}

/// The flags of the list options `opts`.
pub open spec fn list_flags(opts: Seq<ListOption>) -> Seq<Seq<char>>
    decreases opts.len(),
{
    if opts.len() == 0 {
        Seq::empty()
    } else {
        flags(opts[0].spec_flag()@, views(opts[0].spec_names())) + list_flags(opts.skip(1))
    }
}

/// The path of the header that includes the others.
pub open spec fn wrapper_path(out: Seq<char>) -> Seq<char> {
    out + "/codegen-wrapper.h"@
}

/// The path of the wrappers around the static functions of the headers.
pub open spec fn extern_c_path(out: Seq<char>) -> Seq<char> {
    out + "/extern.c"@
}

/// The path of the bindings.
pub open spec fn bindings_path(out: Seq<char>) -> Seq<char> {
    out + "/bcachefs.rs"@
}

/// The arguments before the lists.
pub open spec fn leading_args(out: Seq<char>) -> Seq<Seq<char>> {
    seq![
        wrapper_path(out),
        "--formatter"@,
        "prettyplease"@,
        "--with-derive-default"@,
        "--use-core"@,
        "--default-enum-style"@,
        "rust_non_exhaustive"@,
        "--generate-inline-functions"@,
        "--wrap-static-fns"@,
        "--wrap-static-fns-path"@,
        extern_c_path(out),
    ]
}

/// The arguments of `bindgen`.
pub open spec fn all_args(
    out: Seq<char>,
    clang_args: Seq<Seq<char>>,
    blocklist_dirs: Seq<Seq<char>>,
) -> Seq<Seq<char>> {
    leading_args(out) + list_flags(spec_list_options()) + flags(
        "--blocklist-file"@,
        blocklist_dirs,
    ) + seq!["--"@] + clang_args
}

/// `#include` lines for the headers.
pub open spec fn include_lines(hs: Seq<&'static str>) -> Seq<char>
    decreases hs.len(),
{
    if hs.len() == 0 {
        Seq::empty()
    } else {
        "#include \""@ + hs[0]@ + "\"\n"@ + include_lines(hs.skip(1))
    }
}

/// The header that includes the others. A copy of the generic radix tree header beside it comes
/// first, so that its include guard wins.
pub open spec fn wrapper_text(genradix: bool) -> Seq<char> {
    (if genradix {
        "#include \"generic-radix-tree.h\"\n"@
    } else {
        Seq::empty()
    }) + include_lines(spec_headers())
}

/// What a run of `bindgen` needs.
pub struct BindgenRun {
    /// The path of the header that includes the others.
    pub wrapper: String,
    /// The text of that header.
    pub wrapper_text: String,
    /// The arguments of `bindgen`.
    pub args: Vec<String>,
    /// The path of the bindings, to be written once `bindgen` has run.
    pub bindings: String,
    /// The path of the wrappers that `bindgen` writes.
    pub extern_c: String,
}

fn joined(a: &str, b: &str) -> (r: String)
    ensures
        r@ == a@ + b@,
{
    let mut r = String::new();
    r.append(a);
    r.append(b);
    assert(r@ == a@ + b@);
    r
}

fn push_literal(v: &mut Vec<String>, s: &str)
    ensures
        final(v).deep_view() == old(v).deep_view().push(s@),
{
    push_text(v, s.to_string());
}

/// The header that includes all the others. `genradix` says whether a copy of the generic radix
/// tree header lies beside it.
pub fn wrapper_header(genradix: bool) -> (r: String)
    ensures
        r@ == wrapper_text(genradix),
{
    let hs = headers();
    let mut out = String::new();
    if genradix {
        out.append("#include \"generic-radix-tree.h\"\n");
    }
    let ghost head = out@;
    let ghost all = spec_headers();
    assert(all.skip(0) == all);
    let mut i: usize = 0;
    while i < hs.len()
        invariant
            i <= hs.len(),
            hs@ == all,
            out@ + include_lines(all.skip(i as int)) == head + include_lines(all),
        decreases hs.len() - i,
    {
        let ghost before = out@;
        out.append("#include \"");
        out.append(hs[i]);
        out.append("\"\n");
        assert(all.skip(i as int).skip(1) == all.skip(i + 1));
        assert(out@ + include_lines(all.skip(i + 1)) == before + include_lines(
            all.skip(i as int),
        ));
        i = i + 1;
    }
    assert(out@ == head + include_lines(all));
    assert(out@ == wrapper_text(genradix));
    out
}

fn push_list_flags(args: &mut Vec<String>)
    ensures
        final(args).deep_view() == old(args).deep_view() + list_flags(spec_list_options()),
{
    let opts = list_options();
    let ghost all = spec_list_options();
    let ghost head = args.deep_view();
    assert(all.skip(0) == all);
    let mut i: usize = 0;
    while i < opts.len()
        invariant
            i <= opts.len(),
            opts@ == all,
            args.deep_view() + list_flags(all.skip(i as int)) == head + list_flags(all),
        decreases opts.len() - i,
    {
        let ghost before = args.deep_view();
        let ghost rest = list_flags(all.skip(i + 1));
        let flag = opts[i].flag();
        let names = opts[i].names();
        let ghost vs = views(names@);
        assert(vs.skip(0) == vs);
        let mut j: usize = 0;
        while j < names.len()
            invariant
                j <= names.len(),
                vs == views(names@),
                args.deep_view() + flags(flag@, vs.skip(j as int)) == before + flags(flag@, vs),
            decreases names.len() - j,
        {
            let ghost inner = args.deep_view();
            push_literal(args, flag);
            push_literal(args, names[j]);
            assert(vs.skip(j as int).skip(1) == vs.skip(j + 1));
            assert(args.deep_view() + flags(flag@, vs.skip(j + 1)) == inner + flags(
                flag@,
                vs.skip(j as int),
            ));
            j = j + 1;
        }
        assert(args.deep_view() == before + flags(flag@, vs));
        assert(all.skip(i as int).skip(1) == all.skip(i + 1));
        assert(args.deep_view() + rest == before + list_flags(all.skip(i as int)));
        i = i + 1;
    }
    assert(args.deep_view() == head + list_flags(all));
}

fn push_flags(args: &mut Vec<String>, flag: &str, values: &[String])
    ensures
        final(args).deep_view() == old(args).deep_view() + flags(flag@, values.deep_view()),
{
    let ghost vs = values.deep_view();
    let ghost head = args.deep_view();
    assert(vs.skip(0) == vs);
    let mut i: usize = 0;
    while i < values.len()
        invariant
            i <= values.len(),
            vs == values.deep_view(),
            args.deep_view() + flags(flag@, vs.skip(i as int)) == head + flags(flag@, vs),
        decreases values.len() - i,
    {
        let ghost before = args.deep_view();
        push_literal(args, flag);
        push_literal(args, values[i].as_str());
        assert(vs.skip(i as int).skip(1) == vs.skip(i + 1));
        assert(args.deep_view() + flags(flag@, vs.skip(i + 1)) == before + flags(
            flag@,
            vs.skip(i as int),
        ));
        i = i + 1;
    }
    assert(args.deep_view() == head + flags(flag@, vs));
}

fn push_all(args: &mut Vec<String>, values: &[String])
    ensures
        final(args).deep_view() == old(args).deep_view() + values.deep_view(),
{
    let ghost vs = values.deep_view();
    let ghost head = args.deep_view();
    let mut i: usize = 0;
    assert(vs.take(0) == Seq::<Seq<char>>::empty());
    while i < values.len()
        invariant
            i <= values.len(),
            vs == values.deep_view(),
            args.deep_view() == head + vs.take(i as int),
        decreases values.len() - i,
    {
        push_literal(args, values[i].as_str());
        assert(vs.take(i + 1) == vs.take(i as int).push(vs[i as int]));
        i = i + 1;
    }
    assert(vs.take(i as int) == vs);
}

/// The arguments of `bindgen`: `clang_args` go to the C compiler, and what comes from a file that
/// matches one of `blocklist_dirs` is left out.
pub fn bindgen_args(out: &str, clang_args: &[String], blocklist_dirs: &[String]) -> (r: Vec<String>)
    ensures
        r.deep_view() == all_args(out@, clang_args.deep_view(), blocklist_dirs.deep_view()),
{
    let mut a: Vec<String> = Vec::new();
    assert(a.deep_view() == Seq::<Seq<char>>::empty());
    push_text(&mut a, joined(out, "/codegen-wrapper.h"));
    push_literal(&mut a, "--formatter");
    push_literal(&mut a, "prettyplease");
    push_literal(&mut a, "--with-derive-default");
    push_literal(&mut a, "--use-core");
    push_literal(&mut a, "--default-enum-style");
    push_literal(&mut a, "rust_non_exhaustive");
    push_literal(&mut a, "--generate-inline-functions");
    push_literal(&mut a, "--wrap-static-fns");
    push_literal(&mut a, "--wrap-static-fns-path");
    push_text(&mut a, joined(out, "/extern.c"));
    assert(a.deep_view() == leading_args(out@));
    push_list_flags(&mut a);
    push_flags(&mut a, "--blocklist-file", blocklist_dirs);
    push_literal(&mut a, "--");
    push_all(&mut a, clang_args);
    assert(a.deep_view() == all_args(out@, clang_args.deep_view(), blocklist_dirs.deep_view()));
    a
}

/// Prepares a run of `bindgen` that writes below `out`. `genradix` says whether a copy of the
/// generic radix tree header lies there. What follows the run is [`BindgenRun::finish`].
pub fn run_bindgen(
    out: &str,
    clang_args: &[String],
    blocklist_dirs: &[String],
    genradix: bool,
) -> (r: BindgenRun)
    ensures
        r.wrapper@ == wrapper_path(out@),
        r.wrapper_text@ == wrapper_text(genradix),
        r.args.deep_view() == all_args(out@, clang_args.deep_view(), blocklist_dirs.deep_view()),
        r.bindings@ == bindings_path(out@),
        r.extern_c@ == extern_c_path(out@),
{
    BindgenRun {
        wrapper: joined(out, "/codegen-wrapper.h"),
        wrapper_text: wrapper_header(genradix),
        args: bindgen_args(out, clang_args, blocklist_dirs),
        bindings: joined(out, "/bcachefs.rs"),
        extern_c: joined(out, "/extern.c"),
    }
}

/// `s` with the path of the wrapper header cut down to its name in each quoted occurrence.
pub open spec fn include_fixed(s: Seq<char>, wrapper: Seq<char>) -> Seq<char> {
    text::replaced(s, seq!['"'] + wrapper + seq!['"'], "\"codegen-wrapper.h\""@)
}

/// Cuts the path of the wrapper header down to its name, so that the C compiler finds it right
/// beside the file that includes it.
pub fn fix_extern_c(extern_c: &str, wrapper: &str) -> (r: String)
    ensures
        r@ == include_fixed(extern_c@, wrapper@),
{
    let mut quoted: Vec<char> = Vec::new();
    let path = to_chars(wrapper);
    quoted.push('"');
    quoted.extend_from_slice(path.as_slice());
    quoted.push('"');
    assert(quoted@ == seq!['"'] + wrapper@ + seq!['"']);
    let cs = to_chars(extern_c);
    let name = to_chars("\"codegen-wrapper.h\"");
    let fixed = replace(cs.as_slice(), quoted.as_slice(), name.as_slice());
    to_text(fixed.as_slice())
}

impl BindgenRun {
    /// What is left to write once `bindgen` has succeeded: the bindings, made from what it has
    /// printed, and the wrappers, made from the ones that it has written.
    pub fn finish(&self, printed: String, extern_c: &str, ptr_width: &str) -> (r: (String, String))
        ensures
            r.0@ == post_process::post_processed(printed@, ptr_width@),
            r.1@ == include_fixed(extern_c@, self.wrapper@),
    {
        (post_process(printed, ptr_width), fix_extern_c(extern_c, self.wrapper.as_str()))
    }
}

/// An option that is given once for each of several values: the option comes before each of them, in
/// order.
pub proof fn law_options_are_repeated(flag: Seq<char>, values: Seq<Seq<char>>, i: int)
    ensures
        flags(flag, values).len() == 2 * values.len(),
        0 <= i < values.len() ==> flags(flag, values)[2 * i] == flag && flags(flag, values)[2 * i
            + 1] == values[i],
    decreases values.len(),
{
    if values.len() > 0 {
        law_options_are_repeated(flag, values.skip(1), i - 1);
        if i > 0 && i < values.len() {
            let rest = flags(flag, values.skip(1));
            assert(flags(flag, values)[2 * i] == rest[2 * (i - 1)]);
            assert(flags(flag, values)[2 * i + 1] == rest[2 * (i - 1) + 1]);
        }
    }
}

/// What each of the repeated options is given for.
pub proof fn law_options_name_their_items()
    ensures
        ListOption::BitfieldEnum.spec_flag()@ == "--bitfield-enum"@,
        views(ListOption::BitfieldEnum.spec_names()) == seq![
            "btree_iter_update_trigger_flags"@,
            "bch_reservation_flags"@,
            "bch_trans_commit_flags"@,
            "bch_write_flags"@,
        ],
        ListOption::RustifiedEnum.spec_flag()@ == "--rustified-enum"@,
        views(ListOption::RustifiedEnum.spec_names()) == seq![
            "fsck_err_opts"@,
            "bch_key_types"@,
        ],
        ListOption::NewtypeEnum.spec_flag()@ == "--newtype-enum"@,
        views(ListOption::NewtypeEnum.spec_names()) == seq![
            "bcachefs_metadata_version"@,
            "bch_bkey_type"@,
            "bch_compression_type"@,
            "bch_data_type"@,
            "bch_jset_entry_type"@,
            "bch_kdf_types"@,
            "bch_opt_id"@,
            "bch_reconcile_accounting_type"@,
            "bch_sb_field_type"@,
            "disk_accounting_type"@,
        ],
        ListOption::OpaqueType.spec_flag()@ == "--opaque-type"@,
        views(ListOption::OpaqueType.spec_names()) == seq![
            "gendisk"@,
            "gc_stripe"@,
            "open_bucket.*"@,
            "replicas_delta_list"@,
            "bch_replicas_padded"@,
        ],
        ListOption::AllowlistFunction.spec_flag()@ == "--allowlist-function"@,
        views(ListOption::AllowlistFunction.spec_names()) == seq![
            ".*bch2_.*"@,
            "block_bytes"@,
            "match_string"@,
            "printbuf.*"@,
            "_bch2_err_matches"@,
            "bpos_.*"@,
            "bkey_.*_init"@,
            "bkey_i_to_s"@,
            "bkey_i_to_s_c"@,
            "btree_iter_path"@,
            "extent_entry_u64s"@,
            "enumerated_ref_put"@,
        ],
        ListOption::BlocklistFunction.spec_flag()@ == "--blocklist-function"@,
        views(ListOption::BlocklistFunction.spec_names()) == seq![
            "bch2_prt_vprintf"@,
            ".*bch2_snapshot_id_state"@,
        ],
        ListOption::AllowlistVar.spec_flag()@ == "--allowlist-var"@,
        views(ListOption::AllowlistVar.spec_names()) == seq![
            "BCH_.*"@,
            "BTREE_MAX_DEPTH"@,
            "KEY_SPEC_.*"@,
            "Fix753_.*"@,
            "bch.*"@,
            "__bch2.*"@,
            "__BTREE_ITER.*"@,
            "BTREE_ITER.*"@,
        ],
        ListOption::AllowlistType.spec_flag()@ == "--allowlist-type"@,
        views(ListOption::AllowlistType.spec_names()) == seq![
            "bch_.*"@,
            "bkey_i_.*"@,
            "bkey_s_c_.*"@,
            "bkey_s_.*"@,
            "btree_flags"@,
            "disk_accounting_type"@,
            "fsck_err_opts"@,
            "nonce"@,
            "sb_names"@,
            "genradix.*"@,
            "__genradix.*"@,
        ],
        ListOption::BlocklistType.spec_flag()@ == "--blocklist-type"@,
        views(ListOption::BlocklistType.spec_names()) == seq![
            "bch_ioctl_data_event"@,
            "bch_replicas_padded__bindgen_ty_.*"@,
        ],
        ListOption::BlocklistItem.spec_flag()@ == "--blocklist-item"@,
        views(ListOption::BlocklistItem.spec_names()) == seq![
            "bch2_bkey_ops"@,
        ],
        ListOption::NoDebug.spec_flag()@ == "--no-debug"@,
        views(ListOption::NoDebug.spec_names()) == seq![
            "bch_replicas_padded"@,
            "jset"@,
            "bch_replicas_entry_cpu"@,
        ],
        ListOption::NoCopy.spec_flag()@ == "--no-copy"@,
        views(ListOption::NoCopy.spec_names()) == seq![
            "btree_trans"@,
            "printbuf"@,
            "bch_sb_handle"@,
        ],
        ListOption::NoPartialEq.spec_flag()@ == "--no-partialeq"@,
        views(ListOption::NoPartialEq.spec_names()) == seq![
            "bkey"@,
            "bpos"@,
        ],
{
    assert(views(ListOption::BitfieldEnum.spec_names()) == seq![
        "btree_iter_update_trigger_flags"@,
        "bch_reservation_flags"@,
        "bch_trans_commit_flags"@,
        "bch_write_flags"@,
    ]);
    assert(views(ListOption::RustifiedEnum.spec_names()) == seq![
        "fsck_err_opts"@,
        "bch_key_types"@,
    ]);
    assert(views(ListOption::NewtypeEnum.spec_names()) == seq![
        "bcachefs_metadata_version"@,
        "bch_bkey_type"@,
        "bch_compression_type"@,
        "bch_data_type"@,
        "bch_jset_entry_type"@,
        "bch_kdf_types"@,
        "bch_opt_id"@,
        "bch_reconcile_accounting_type"@,
        "bch_sb_field_type"@,
        "disk_accounting_type"@,
    ]);
    assert(views(ListOption::OpaqueType.spec_names()) == seq![
        "gendisk"@,
        "gc_stripe"@,
        "open_bucket.*"@,
        "replicas_delta_list"@,
        "bch_replicas_padded"@,
    ]);
    assert(views(ListOption::AllowlistFunction.spec_names()) == seq![
        ".*bch2_.*"@,
        "block_bytes"@,
        "match_string"@,
        "printbuf.*"@,
        "_bch2_err_matches"@,
        "bpos_.*"@,
        "bkey_.*_init"@,
        "bkey_i_to_s"@,
        "bkey_i_to_s_c"@,
        "btree_iter_path"@,
        "extent_entry_u64s"@,
        "enumerated_ref_put"@,
    ]);
    assert(views(ListOption::BlocklistFunction.spec_names()) == seq![
        "bch2_prt_vprintf"@,
        ".*bch2_snapshot_id_state"@,
    ]);
    assert(views(ListOption::AllowlistVar.spec_names()) == seq![
        "BCH_.*"@,
        "BTREE_MAX_DEPTH"@,
        "KEY_SPEC_.*"@,
        "Fix753_.*"@,
        "bch.*"@,
        "__bch2.*"@,
        "__BTREE_ITER.*"@,
        "BTREE_ITER.*"@,
    ]);
    assert(views(ListOption::AllowlistType.spec_names()) == seq![
        "bch_.*"@,
        "bkey_i_.*"@,
        "bkey_s_c_.*"@,
        "bkey_s_.*"@,
        "btree_flags"@,
        "disk_accounting_type"@,
        "fsck_err_opts"@,
        "nonce"@,
        "sb_names"@,
        "genradix.*"@,
        "__genradix.*"@,
    ]);
    assert(views(ListOption::BlocklistType.spec_names()) == seq![
        "bch_ioctl_data_event"@,
        "bch_replicas_padded__bindgen_ty_.*"@,
    ]);
    assert(views(ListOption::BlocklistItem.spec_names()) == seq![
        "bch2_bkey_ops"@,
    ]);
    assert(views(ListOption::NoDebug.spec_names()) == seq![
        "bch_replicas_padded"@,
        "jset"@,
        "bch_replicas_entry_cpu"@,
    ]);
    assert(views(ListOption::NoCopy.spec_names()) == seq![
        "btree_trans"@,
        "printbuf"@,
        "bch_sb_handle"@,
    ]);
    assert(views(ListOption::NoPartialEq.spec_names()) == seq![
        "bkey"@,
        "bpos"@,
    ]);
}

/// The arguments of `bindgen`: the header, how the output is to look, the repeated options in this
/// order, the files to leave out, and behind the separator what goes to the compiler as it is.
pub proof fn law_bindgen_arguments(
    out: Seq<char>,
    clang_args: Seq<Seq<char>>,
    blocklist_dirs: Seq<Seq<char>>,
)
    ensures
        all_args(out, clang_args, blocklist_dirs) == seq![
            out + "/codegen-wrapper.h"@,
            "--formatter"@,
            "prettyplease"@,
            "--with-derive-default"@,
            "--use-core"@,
            "--default-enum-style"@,
            "rust_non_exhaustive"@,
            "--generate-inline-functions"@,
            "--wrap-static-fns"@,
            "--wrap-static-fns-path"@,
            out + "/extern.c"@,
        ] + list_flags(
            seq![
                ListOption::BitfieldEnum,
                ListOption::RustifiedEnum,
                ListOption::NewtypeEnum,
                ListOption::OpaqueType,
                ListOption::AllowlistFunction,
                ListOption::BlocklistFunction,
                ListOption::AllowlistVar,
                ListOption::AllowlistType,
                ListOption::BlocklistType,
                ListOption::BlocklistItem,
                ListOption::NoDebug,
                ListOption::NoCopy,
                ListOption::NoPartialEq,
            ],
        ) + flags("--blocklist-file"@, blocklist_dirs) + seq!["--"@] + clang_args,
        wrapper_path(out) == out + "/codegen-wrapper.h"@,
        extern_c_path(out) == out + "/extern.c"@,
        bindings_path(out) == out + "/bcachefs.rs"@,
{
}

/// The repeated options follow each other, each given for all of its items.
pub proof fn law_repeated_options_follow_each_other(o: ListOption, rest: Seq<ListOption>)
    ensures
        list_flags(Seq::empty()) == Seq::<Seq<char>>::empty(),
        list_flags(seq![o] + rest) == flags(o.spec_flag()@, views(o.spec_names())) + list_flags(
            rest,
        ),
{
    assert((seq![o] + rest).skip(1) == rest);
}

/// The header that `bindgen` reads pulls in each of these headers, in this order, and before them the
/// one of radix trees where there is such a header.
pub proof fn law_wrapper_pulls_in_the_headers(genradix: bool)
    ensures
        views(spec_headers()) == seq![
            "bcachefs.h"@,
            "opts.h"@,
            "btree/cache.h"@,
            "btree/interior.h"@,
            "btree/iter.h"@,
            "alloc/accounting.h"@,
            "alloc/background.h"@,
            "alloc/buckets.h"@,
            "alloc/disk_groups.h"@,
            "data/checksum.h"@,
            "data/extents.h"@,
            "data/io_misc.h"@,
            "data/move.h"@,
            "data/read.h"@,
            "data/update.h"@,
            "data/write.h"@,
            "debug/debug.h"@,
            "init/dev.h"@,
            "init/error.h"@,
            "init/fs.h"@,
            "init/passes.h"@,
            "fs/check.h"@,
            "fs/dirent.h"@,
            "fs/inode.h"@,
            "fs/namei.h"@,
            "fs/xattr.h"@,
            "journal/init.h"@,
            "journal/read.h"@,
            "journal/reclaim.h"@,
            "journal/seq_blacklist.h"@,
            "journal/validate.h"@,
            "sb/io.h"@,
            "sb/members.h"@,
        ],
        wrapper_text(true) == "#include \"generic-radix-tree.h\"\n"@ + wrapper_text(false),
        wrapper_text(false) == include_lines(spec_headers()),
{
    assert(views(spec_headers()) == seq![
        "bcachefs.h"@,
        "opts.h"@,
        "btree/cache.h"@,
        "btree/interior.h"@,
        "btree/iter.h"@,
        "alloc/accounting.h"@,
        "alloc/background.h"@,
        "alloc/buckets.h"@,
        "alloc/disk_groups.h"@,
        "data/checksum.h"@,
        "data/extents.h"@,
        "data/io_misc.h"@,
        "data/move.h"@,
        "data/read.h"@,
        "data/update.h"@,
        "data/write.h"@,
        "debug/debug.h"@,
        "init/dev.h"@,
        "init/error.h"@,
        "init/fs.h"@,
        "init/passes.h"@,
        "fs/check.h"@,
        "fs/dirent.h"@,
        "fs/inode.h"@,
        "fs/namei.h"@,
        "fs/xattr.h"@,
        "journal/init.h"@,
        "journal/read.h"@,
        "journal/reclaim.h"@,
        "journal/seq_blacklist.h"@,
        "journal/validate.h"@,
        "sb/io.h"@,
        "sb/members.h"@,
    ]);
    let e = Seq::<char>::empty();
    assert(e + include_lines(spec_headers()) == include_lines(spec_headers()));
}

/// Each header is pulled in by a line of its own, in quotes.
pub proof fn law_headers_are_pulled_in_line_by_line(h: &'static str, rest: Seq<&'static str>)
    ensures
        include_lines(Seq::empty()) == Seq::<char>::empty(),
        include_lines(seq![h] + rest) == "#include \""@ + h@ + "\"\n"@ + include_lines(rest),
{
    assert((seq![h] + rest).skip(1) == rest);
}

/// Wherever the wrappers pull in the header by its path, in quotes, they pull it in by its name.
pub proof fn law_wrappers_pull_in_the_header_by_name(
    ps: Seq<Seq<char>>,
    wrapper: Seq<char>,
)
    requires
        forall|k: int, i: int|
            0 <= k < ps.len() && 0 <= i < ps[k].len() ==> !(#[trigger] text::occurs_at(
                ps[k] + quoted(wrapper),
                quoted(wrapper),
                i,
            )),
    ensures
        include_fixed(text::joined(ps, quoted(wrapper)), wrapper) == text::joined(
            ps,
            "\"codegen-wrapper.h\""@,
        ),
{
    text::law_replacing_between_pieces(ps, quoted(wrapper), "\"codegen-wrapper.h\""@);
}

/// A path in quotes.
pub open spec fn quoted(path: Seq<char>) -> Seq<char> {
    seq!['"'] + path + seq!['"']
}

} // verus!
