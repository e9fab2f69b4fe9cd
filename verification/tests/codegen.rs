use bcachefs::codegen::bindgen::{bindgen_args, fix_extern_c, run_bindgen, wrapper_header};
use bcachefs::codegen::generate::{
    generate_bkey_types, generate_btree_ids_known, generate_counter_table, generate_errcodes,
    generate_extent_entry_u64s, generate_newtype_enum_aliases, generate_sb_field_impls,
    generate_str_table,
};
use bcachefs::codegen::names::{rust_ident, snake_to_pascal};
use bcachefs::codegen::options::{
    default_blocklist, default_blocklist_in, host_target, opt, parse_command_line,
    pkg_config_includes, regex_escape, userspace_clang_args, userspace_clang_args_in, watched,
    wrapper_flags, MissingOption,
};
use bcachefs::codegen::post_process::{packed_and_align_fix, post_process, readd_derives};
use bcachefs::codegen::tables::{gen_xmacros, Failure, Header, Headers, OutFile, Xmacro};
use bcachefs::codegen::xmacro::{parse_xmacro, split_xmacro_args};

fn strings(v: &[&str]) -> Vec<String> {
    v.iter().map(|s| s.to_string()).collect()
}

fn entries(v: &[&[&str]]) -> Vec<Vec<String>> {
    v.iter().map(|e| strings(e)).collect()
}

#[test]
fn xmacro_arguments_are_split_at_top_level_commas() {
    assert_eq!(split_xmacro_args("a, b(c, d), e"), strings(&["a", "b(c, d)", "e"]));
    assert_eq!(split_xmacro_args("  a  "), strings(&["a"]));
    assert_eq!(split_xmacro_args(""), strings(&[]));
    assert_eq!(split_xmacro_args("a,"), strings(&["a"]));
    assert_eq!(split_xmacro_args("a,,b"), strings(&["a", "", "b"]));
    assert_eq!(split_xmacro_args("a), b"), strings(&["a), b"]));
    assert_eq!(split_xmacro_args("\u{a0}a\u{3000},b"), strings(&["a", "b"]));
}

#[test]
fn xmacro_is_read_from_its_definition() {
    let header = "#define OTHER() x(no)\n\
                  #define TYPES()\t\\\n\
                  \tx(first,  0, f(1, 2))\t\\\n\
                  \tx(second,\t1, 0)\n\
                  x(not, in, it)\n";
    assert_eq!(
        parse_xmacro(header, "TYPES"),
        entries(&[&["first", "0", "f(1, 2)"], &["second", "1", "0"]])
    );
    assert_eq!(parse_xmacro(header, "OTHER"), entries(&[&["no"]]));
    assert_eq!(parse_xmacro(header, "MISSING"), entries(&[]));
    assert_eq!(parse_xmacro("", "TYPES"), entries(&[]));
}

#[test]
fn xmacro_on_one_line_and_with_line_endings() {
    assert_eq!(parse_xmacro("  #define A(x) x(a) x(b)", "A"), entries(&[&["a"], &["b"]]));
    assert_eq!(
        parse_xmacro("#define A() \\\r\n x(a, 1) \\\r\n x(b, 2)\r\n", "A"),
        entries(&[&["a", "1"], &["b", "2"]])
    );
    // A parenthesis that does not close ends the list.
    assert_eq!(parse_xmacro("#define A() x(a) x(b, (c)", "A"), entries(&[&["a"]]));
    // A macro without parameters is no x-macro.
    assert_eq!(parse_xmacro("#define A x(a)", "A"), entries(&[]));
}

#[test]
fn xmacro_is_found_by_its_whole_name() {
    let header = "#define FOOBAR() x(a)\n#define FOO() x(b)\n";
    assert_eq!(parse_xmacro(header, "FOO"), entries(&[&["b"]]));
    assert_eq!(parse_xmacro(header, "FOOBAR"), entries(&[&["a"]]));
    assert_eq!(parse_xmacro("#define AB() x(a)", "A"), entries(&[]));
}

#[test]
fn identifiers() {
    assert_eq!(rust_ident("lru"), "lru");
    assert_eq!(rust_ident("1st"), "_1st");
    assert_eq!(rust_ident("a-b.c"), "a_b_c");
    assert_eq!(rust_ident(""), "_");
    assert_eq!(rust_ident("-x"), "_x");
    assert_eq!(rust_ident("\u{e4}b"), "_b");
    assert_eq!(rust_ident(&rust_ident("9 lives")), rust_ident("9 lives"));
}

#[test]
fn pascal_case() {
    assert_eq!(snake_to_pascal("btree_ptr_v2"), "BtreePtrV2");
    assert_eq!(snake_to_pascal("_a__b_"), "AB");
    assert_eq!(snake_to_pascal(""), "");
    assert_eq!(snake_to_pascal("\u{df}x_y"), "SSxY");
    assert_eq!(snake_to_pascal("1a"), "1a");
}

#[test]
fn bkey_types_text() {
    let expected: String = [
        "// Auto-generated from BCH_BKEY_TYPES() — do not edit\n",
        "\n",
        "pub type BkeyBtreePtr = Bkey<c::bkey_i_btree_ptr>;\n",
        "pub type BkeyLru = Bkey<c::bkey_i_lru>;\n",
        "\n",
        "impl c::bkey_i_btree_ptr {\n",
        "    pub fn k(&self) -> &c::bkey { unsafe { self.__bindgen_anon_1.k.as_ref() } }\n",
        "    pub fn k_mut(&mut self) -> &mut c::bkey { unsafe { self.__bindgen_anon_1.k.as_mut() } }\n",
        "    pub fn k_i(&self) -> &c::bkey_i { unsafe { self.__bindgen_anon_1.k_i.as_ref() } }\n",
        "    pub fn k_i_mut(&mut self) -> &mut c::bkey_i { unsafe { self.__bindgen_anon_1.k_i.as_mut() } }\n",
        "}\n",
        "\n",
        "impl c::bkey_i_lru {\n",
        "    pub fn k(&self) -> &c::bkey { unsafe { self.__bindgen_anon_1.k.as_ref() } }\n",
        "    pub fn k_mut(&mut self) -> &mut c::bkey { unsafe { self.__bindgen_anon_1.k.as_mut() } }\n",
        "    pub fn k_i(&self) -> &c::bkey_i { unsafe { self.__bindgen_anon_1.k_i.as_ref() } }\n",
        "    pub fn k_i_mut(&mut self) -> &mut c::bkey_i { unsafe { self.__bindgen_anon_1.k_i.as_mut() } }\n",
        "}\n",
        "\n",
        "pub trait BkeyInit: Default {\n",
        "    fn init(&mut self);\n",
        "    fn k(&self) -> &c::bkey;\n",
        "    fn k_mut(&mut self) -> &mut c::bkey;\n",
        "    fn k_i(&self) -> &c::bkey_i;\n",
        "    fn k_i_mut(&mut self) -> &mut c::bkey_i;\n",
        "}\n",
        "\n",
        "impl BkeyInit for c::bkey_i_btree_ptr {\n",
        "    fn init(&mut self) { unsafe { c::bkey_btree_ptr_init(self.k_i_mut()) }; }\n",
        "    fn k(&self) -> &c::bkey { c::bkey_i_btree_ptr::k(self) }\n",
        "    fn k_mut(&mut self) -> &mut c::bkey { c::bkey_i_btree_ptr::k_mut(self) }\n",
        "    fn k_i(&self) -> &c::bkey_i { c::bkey_i_btree_ptr::k_i(self) }\n",
        "    fn k_i_mut(&mut self) -> &mut c::bkey_i { c::bkey_i_btree_ptr::k_i_mut(self) }\n",
        "}\n",
        "\n",
        "impl BkeyInit for c::bkey_i_lru {\n",
        "    fn init(&mut self) { unsafe { c::bkey_lru_init(self.k_i_mut()) }; }\n",
        "    fn k(&self) -> &c::bkey { c::bkey_i_lru::k(self) }\n",
        "    fn k_mut(&mut self) -> &mut c::bkey { c::bkey_i_lru::k_mut(self) }\n",
        "    fn k_i(&self) -> &c::bkey_i { c::bkey_i_lru::k_i(self) }\n",
        "    fn k_i_mut(&mut self) -> &mut c::bkey_i { c::bkey_i_lru::k_i_mut(self) }\n",
        "}\n",
        "\n",
        "/// Typed dispatch for inline bkeys (`bkey_i`).\n",
        "pub enum BkeyValI<'a> {\n",
        "    btree_ptr(&'a c::bkey_i_btree_ptr),\n",
        "    lru(&'a c::bkey_i_lru),\n",
        "    unknown(&'a c::bkey_i),\n",
        "}\n",
        "\n",
        "impl<'a> BkeyValI<'a> {\n",
        "    #[allow(clippy::missing_transmute_annotations)]\n",
        "    pub fn from_bkey_i(k: &'a c::bkey_i) -> Self {\n",
        "        match k.k.type_ as u32 {\n",
        "            5 => BkeyValI::btree_ptr(unsafe { core::mem::transmute(k) }),\n",
        "            8 => BkeyValI::lru(unsafe { core::mem::transmute(k) }),\n",
        "            _ => BkeyValI::unknown(k),\n",
        "        }\n",
        "    }\n",
        "}\n",
        "\n",
        "/// Typed dispatch for mutable inline bkeys (`bkey_i`).\n",
        "pub enum BkeyValIMut<'a> {\n",
        "    btree_ptr(&'a mut c::bkey_i_btree_ptr),\n",
        "    lru(&'a mut c::bkey_i_lru),\n",
        "    unknown(&'a mut c::bkey_i),\n",
        "}\n",
        "\n",
        "impl<'a> BkeyValIMut<'a> {\n",
        "    #[allow(clippy::missing_transmute_annotations)]\n",
        "    pub fn from_bkey_i(k: &'a mut c::bkey_i) -> Self {\n",
        "        let type_ = k.k.type_;\n",
        "        match type_ as u32 {\n",
        "            5 => BkeyValIMut::btree_ptr(unsafe { core::mem::transmute(k) }),\n",
        "            8 => BkeyValIMut::lru(unsafe { core::mem::transmute(k) }),\n",
        "            _ => BkeyValIMut::unknown(k),\n",
        "        }\n",
        "    }\n",
        "}\n",
        "\n",
        "/// Typed dispatch for split-const bkey references.\n",
        "pub enum BkeyValSC<'a> {\n",
        "    btree_ptr(&'a c::bkey, &'a c::bch_btree_ptr),\n",
        "    lru(&'a c::bkey, &'a c::bch_lru),\n",
        "    unknown(&'a c::bkey, u8),\n",
        "}\n",
        "\n",
        "impl<'a> BkeyValSC<'a> {\n",
        "    #[allow(clippy::missing_transmute_annotations)]\n",
        "    pub fn from_bkey_i(k: &'a c::bkey_i) -> Self {\n",
        "        match k.k.type_ as u32 {\n",
        "            5 => BkeyValSC::btree_ptr(&k.k, unsafe { core::mem::transmute(&k.v) }),\n",
        "            8 => BkeyValSC::lru(&k.k, unsafe { core::mem::transmute(&k.v) }),\n",
        "            _ => BkeyValSC::unknown(&k.k, k.k.type_),\n",
        "        }\n",
        "    }\n",
        "\n",
        "    /// Construct from raw key and value references.\n",
        "    ///\n",
        "    /// # Safety\n",
        "    /// `val` must point to valid data for the bkey type indicated by `k.type_`.\n",
        "    #[allow(clippy::missing_transmute_annotations)]\n",
        "    pub unsafe fn from_raw(k: &'a c::bkey, val: &'a c::bch_val) -> Self {\n",
        "        match k.type_ as u32 {\n",
        "            5 => BkeyValSC::btree_ptr(k, unsafe { core::mem::transmute(val) }),\n",
        "            8 => BkeyValSC::lru(k, unsafe { core::mem::transmute(val) }),\n",
        "            _ => BkeyValSC::unknown(k, k.type_),\n",
        "        }\n",
        "    }\n",
        "}\n",
        "\n",
        "/// Typed dispatch for split-mutable bkey references.\n",
        "pub enum BkeyValS<'a> {\n",
        "    btree_ptr(&'a mut c::bkey, &'a mut c::bch_btree_ptr),\n",
        "    lru(&'a mut c::bkey, &'a mut c::bch_lru),\n",
        "    unknown(&'a mut c::bkey, u8),\n",
        "}\n",
        "\n",
        "impl<'a> BkeyValS<'a> {\n",
        "    #[allow(clippy::missing_transmute_annotations)]\n",
        "    pub fn from_bkey_i(k: &'a mut c::bkey_i) -> Self {\n",
        "        let type_ = k.k.type_;\n",
        "        match type_ as u32 {\n",
        "            5 => BkeyValS::btree_ptr(&mut k.k, unsafe { core::mem::transmute(&mut k.v) }),\n",
        "            8 => BkeyValS::lru(&mut k.k, unsafe { core::mem::transmute(&mut k.v) }),\n",
        "            _ => BkeyValS::unknown(&mut k.k, type_),\n",
        "        }\n",
        "    }\n",
        "}\n",
    ]
    .concat();
    assert_eq!(generate_bkey_types(&entries(&[&["btree_ptr", "5"], &["lru", "8"]])), expected);
}

#[test]
fn sb_field_text() {
    let expected: String = [
        "// Auto-generated from BCH_SB_FIELDS() — do not edit\n",
        "\n",
        "/// Marker trait connecting an sb field struct to its field type enum.\n",
        "///\n",
        "/// # Safety\n",
        "/// Implementors must ensure FIELD_TYPE matches the struct type,\n",
        "/// and that `field` is the first member (offset 0).\n",
        "pub unsafe trait SbField: Sized {\n",
        "    const FIELD_TYPE: c::bch_sb_field_type;\n",
        "}\n",
        "\n",
        "unsafe impl SbField for c::bch_sb_field_crypt {\n",
        "    const FIELD_TYPE: c::bch_sb_field_type = c::bch_sb_field_type::crypt;\n",
        "}\n",
        "\n",
        "unsafe impl SbField for c::bch_sb_field_1x {\n",
        "    const FIELD_TYPE: c::bch_sb_field_type = c::bch_sb_field_type::_1x;\n",
        "}\n",
        "\n",
    ]
    .concat();
    assert_eq!(generate_sb_field_impls(&entries(&[&["crypt", "2"], &["1x", "3"]])), expected);
}

#[test]
fn str_table_text() {
    let expected: String = [
        "// Auto-generated — do not edit\n",
        "\n",
        "pub const NAMES: &[&str] = &[\n",
        "    \"rw\",\n",
        "    \"ro\",\n",
        "];\n",
    ]
    .concat();
    assert_eq!(generate_str_table("NAMES", &entries(&[&["rw", "0"], &["ro"]])), expected);
}

#[test]
fn counter_table_text() {
    let expected: String = [
        "// Auto-generated from BCH_PERSISTENT_COUNTERS() — do not edit\n",
        "\n",
        "pub struct CounterInfo {\n",
        "    pub name: &'static str,\n",
        "    pub stable_id: u16,\n",
        "    pub is_sectors: bool,\n",
        "}\n",
        "\n",
        "pub const COUNTERS: &[CounterInfo] = &[\n",
        "    CounterInfo { name: \"io_read\", stable_id: 0, is_sectors: true },\n",
        "    CounterInfo { name: \"fail\", stable_id: 4, is_sectors: false },\n",
        "];\n",
    ]
    .concat();
    assert_eq!(generate_counter_table(&entries(&[&["io_read", "0", "TYPE_SECTORS"], &["fail", "4", "TYPE_COUNTER"]])), expected);
}

#[test]
fn extent_entry_text() {
    let expected: String = [
        "// Auto-generated from BCH_EXTENT_ENTRY_TYPES() — do not edit\n",
        "\n",
        "/// Size in u64s for each known extent entry type.\n",
        "pub fn extent_entry_type_u64s(ty: u32) -> Option<usize> {\n",
        "    use core::mem::size_of;\n",
        "    Some(match ty {\n",
        "        0 => size_of::<c::bch_extent_ptr>() / 8,\n",
        "        1 => size_of::<c::bch_extent_crc32>() / 8,\n",
        "        _ => return None,\n",
        "    })\n",
        "}\n",
    ]
    .concat();
    assert_eq!(generate_extent_entry_u64s(&entries(&[&["ptr", "0"], &["crc32", "1"]])), expected);
}

#[test]
fn errcode_text() {
    let expected: String = [
        "// Auto-generated from BCH_ERRCODES() — do not edit\n",
        "\n",
        "#[allow(non_upper_case_globals)]\n",
        "pub const a: bch_errcode = bch_errcode::BCH_ERR_a;\n",
        "#[allow(non_upper_case_globals)]\n",
        "pub const b_c: bch_errcode = bch_errcode::BCH_ERR_b_c;\n",
    ]
    .concat();
    assert_eq!(generate_errcodes(&entries(&[&["EPERM", "a"], &["EIO"], &["EIO", "b-c"]])), expected);
}

#[test]
fn btree_ids_text() {
    let expected: String = [
        "// Auto-generated from BCH_BTREE_IDS() - do not edit\n",
        "\n",
        "pub const BTREE_IDS_KNOWN: &[c::btree_id] = &[\n",
        "    c::btree_id::extents,\n",
        "    c::btree_id::a_b,\n",
        "];\n",
    ]
    .concat();
    assert_eq!(generate_btree_ids_known(&entries(&[&["extents", "0"], &["a-b", "1"]])), expected);
}

#[test]
fn aliases_text() {
    let expected: String = [
        "// Auto-generated from x-macros - do not edit\n",
        "\n",
        "impl c::btree_id {\n",
        "    #[allow(non_upper_case_globals)]\n",
        "    pub const extents: Self = Self::BTREE_ID_extents;\n",
        "    #[allow(non_upper_case_globals)]\n",
        "    pub const a_b: Self = Self::BTREE_ID_a-b;\n",
        "    #[allow(non_upper_case_globals)]\n",
        "    pub const nr: Self = Self::BTREE_ID_NR;\n",
        "}\n",
    ]
    .concat();
    assert_eq!(generate_newtype_enum_aliases("btree_id", "BTREE_ID", &entries(&[&["extents", "0"], &["a-b", "1"]]), "nr", "BTREE_ID_NR"), expected);
}

fn macro_text(names: &[(&str, &str)]) -> String {
    let mut s = String::new();
    for (name, body) in names {
        s.push_str(&format!("#define {name}() \\\n {body}\n"));
    }
    s
}

fn headers() -> Headers {
    Headers {
        format: Some(macro_text(&[
            ("BCH_BKEY_TYPES", "x(deleted, 0)"),
            ("BCH_SB_FIELDS", "x(crypt, 2)"),
            ("BCH_METADATA_VERSIONS", "x(bkey_renumber, 1)"),
            ("BCH_COMPRESSION_TYPES", "x(none, 0)"),
            ("BCH_JSET_ENTRY_TYPES", "x(btree_keys, 0)"),
            ("BCH_BTREE_IDS", "x(extents, 0)"),
        ])),
        errcode: Some(macro_text(&[("BCH_ERRCODES", "x(ENOMEM, ENOMEM_a)")])),
        members: Some(macro_text(&[("BCH_MEMBER_STATES", "x(rw, 0)")])),
        counters: Some(macro_text(&[("BCH_PERSISTENT_COUNTERS", "x(io_read, 0, TYPE_SECTORS)")])),
        extents: Some(macro_text(&[("BCH_EXTENT_ENTRY_TYPES", "x(ptr, 0)")])),
        accounting: Some(macro_text(&[
            ("BCH_DISK_ACCOUNTING_TYPES", "x(nr_inodes, 0, 1)"),
            ("BCH_DATA_TYPES", "x(free, 0)"),
        ])),
        reconcile: Some(macro_text(&[("BCH_RECONCILE_ACCOUNTING", "x(replicas, 0)")])),
        opts: Some(macro_text(&[("BCH_OPTS", "x(block_size, u16)")])),
    }
}

#[test]
fn all_tables_are_generated() {
    let g = gen_xmacros(&headers());
    assert!(g.failure.is_none());
    let names: Vec<&str> = g.files.iter().map(|f| f.file.file_name()).collect();
    assert_eq!(
        names,
        [
            "errcodes_gen.rs",
            "bkey_types_gen.rs",
            "sb_field_types_gen.rs",
            "member_states_gen.rs",
            "counters_gen.rs",
            "extent_entry_types_gen.rs",
            "newtype_enum_aliases_gen.rs",
            "btree_ids_gen.rs",
        ]
    );
    assert_eq!(g.files[3].text, generate_str_table("MEMBER_STATE_NAMES", &entries(&[&["rw", "0"]])));
    let aliases = &g.files[6].text;
    assert_eq!(aliases.matches("impl c::").count(), 10);
    assert!(aliases.starts_with(
        "// Auto-generated from x-macros - do not edit\n\nimpl c::bcachefs_metadata_version {\n"
    ));
    assert!(aliases.contains("}\n\n// Auto-generated from x-macros - do not edit\n\nimpl c::bch_opt_id {\n"));
    assert!(aliases.contains("pub const block_size: Self = Self::Opt_block_size;\n"));
    assert!(aliases.contains("pub const max: Self = Self::bcachefs_metadata_version_max;\n"));
    assert!(aliases.ends_with("pub const nr: Self = Self::BCH_RECONCILE_ACCOUNTING_NR;\n}\n"));
}

#[test]
fn generation_stops_at_the_first_failure() {
    let mut h = headers();
    h.format = None;
    let g = gen_xmacros(&h);
    assert_eq!(g.failure, Some(Failure::Unreadable(Header::Format)));
    assert!(g.files.is_empty());
    assert_eq!(g.failure.unwrap().describe(), "reading bcachefs_format.h");

    let mut h = headers();
    h.members = Some(String::new());
    let g = gen_xmacros(&h);
    assert_eq!(g.failure, Some(Failure::NoEntries(Xmacro::MemberStates)));
    assert_eq!(g.files.len(), 3);
    assert_eq!(g.failure.unwrap().describe(), "failed to parse BCH_MEMBER_STATES()");

    let mut h = headers();
    h.counters = Some("#define BCH_PERSISTENT_COUNTERS() x(a, 0)".to_string());
    let g = gen_xmacros(&h);
    assert_eq!(g.failure, Some(Failure::ShortEntry(OutFile::Counters)));
    assert_eq!(g.files.len(), 4);

    let mut h = headers();
    h.opts = None;
    let g = gen_xmacros(&h);
    assert_eq!(g.failure, Some(Failure::Unreadable(Header::Opts)));
    assert_eq!(g.files.len(), 6);
    assert_eq!(Header::Reconcile.path(), "data/reconcile/format.h");
    assert_eq!(Header::Reconcile.label(), "reconcile/format.h");
}

#[test]
fn derives_are_added_where_they_are_missing() {
    let src = "#[repr(C)]\npub struct bpos {\n}\n#[derive(Debug)]\npub struct bbpos {\n}\n\
               pub struct bposx {\n}\npub struct bch_key;\npub struct bch_opts {";
    let expected = "#[repr(C)]\n#[derive(Debug, Copy, Clone)]\npub struct bpos {\n}\n\
                    #[derive(Debug)]\npub struct bbpos {\n}\npub struct bposx {\n}\n\
                    pub struct bch_key;\n#[derive(Debug, Copy, Clone)]\npub struct bch_opts {\n";
    let once = readd_derives(src.to_string());
    assert_eq!(once, expected);
    assert_eq!(readd_derives(once.clone()), once);
    assert_eq!(readd_derives(String::new()), "");
    // A carriage return before the line ending is read once more the second time.
    assert_eq!(readd_derives("a\r\r\n".to_string()), "a\r\n");
}

#[test]
fn layout_is_fixed() {
    let src = "#[repr(C, packed(8))]\npub struct jset {\n}\n#[repr(C, packed(8))]\n\
               #[derive(Debug, Default, Copy, Clone)]\npub struct bch_extent_crc128 {\n}\n\
               #[repr(C, packed(8))]\npub struct other {\n}\n#[repr(C)]\npub struct bkey_i_lru {\n";
    let fixed = "#[repr(C, align(8))]\npub struct jset {\n}\n#[repr(C, align(8))]\n\
                 #[derive(Debug, Default, Copy, Clone)]\npub struct bch_extent_crc128 {\n}\n\
                 #[repr(C, packed(8))]\npub struct other {\n}\n#[repr(C)]\npub struct bkey_i_lru {\n";
    assert_eq!(packed_and_align_fix(src.to_string(), "64"), fixed);
    assert_eq!(packed_and_align_fix(src.to_string(), ""), fixed);
    assert_eq!(
        packed_and_align_fix(src.to_string(), "32"),
        fixed.replace("#[repr(C)]\npub struct bkey_i_lru", "#[repr(C, align(8))]\npub struct bkey_i_lru")
    );
    assert_eq!(
        packed_and_align_fix("#[repr(C)]\n#[derive(Debug)]\npub struct bkey_i_x {\n#[repr(C)]".to_string(), "32"),
        "#[repr(C)]\n#[derive(Debug)]\npub struct bkey_i_x {\n#[repr(C)]\n"
    );
}

#[test]
fn emitted_text_is_post_processed() {
    assert_eq!(
        post_process("pub const Fix753_X: u32 = 1;\npub struct bpos {\n}".to_string(), "64"),
        "pub const X: u32 = 1;\n#[derive(Debug, Copy, Clone)]\npub struct bpos {\n}\n"
    );
    assert_eq!(post_process("FixFix753_753_".to_string(), "64"), "Fix753_\n");
}

#[test]
fn regular_expressions_are_escaped() {
    assert_eq!(regex_escape("linux-headers-7.0.13+deb14"), "linux-headers-7\\.0\\.13\\+deb14");
    assert_eq!(regex_escape("\\.+*?()|[]{}^$"), "\\\\\\.\\+\\*\\?\\(\\)\\|\\[\\]\\{\\}\\^\\$");
    assert_eq!(regex_escape("a/b-c_d"), "a/b-c_d");
    assert_eq!(regex_escape(""), "");
}

#[test]
fn options_are_found() {
    let args = strings(&["codegen", "--src", "a", "--src", "b", "--out"]);
    assert_eq!(opt(&args, "--src"), Some("a".to_string()));
    assert_eq!(opt(&args, "--out"), None);
    assert_eq!(opt(&args, "--target"), None);
}

#[test]
fn command_line_is_read() {
    let c = parse_command_line(&strings(&[
        "codegen", "--src", "s", "--out", "o", "--blocklist", "/a+b:/c", "--ptr-width", "32", "--", "-Ix",
        "--target", "y", "--",
    ]))
    .ok()
    .unwrap();
    assert_eq!(c.src, "s");
    assert_eq!(c.out, "o");
    assert_eq!(c.target, None);
    assert_eq!(c.ptr_width, "32");
    assert_eq!(c.clang_args, Some(strings(&["-Ix", "--target", "y", "--"])));
    assert_eq!(c.blocklist, Some(strings(&["/a\\+b/.*", "/c/.*"])));

    let c = parse_command_line(&strings(&["codegen", "--src", "s", "--out", "o", "--target", "t"])).ok().unwrap();
    assert_eq!(c.target, Some("t".to_string()));
    assert_eq!(c.ptr_width, "64");
    assert_eq!(c.clang_args, None);
    assert_eq!(c.blocklist, None);
}

#[test]
fn command_line_lacks_an_option() {
    let e = parse_command_line(&strings(&["codegen", "--out", "o", "--", "--src", "s"])).err().unwrap();
    assert_eq!(e, MissingOption::Src);
    assert_eq!(e.message(), "--src <fs-dir> required");
    let e = parse_command_line(&strings(&["codegen", "--src", "s"])).err().unwrap();
    assert_eq!(e, MissingOption::Out);
    assert_eq!(e.message(), "--out <out-dir> required");
}

#[test]
fn userspace_arguments() {
    let expected = strings(&[
        "--target=x86_64",
        "-I/usr/include/urcu",
        "-I/w",
        "-I/w/fs",
        "-I/w/c_src",
        "-I/w/include",
        "-DZSTD_STATIC_LINKING_ONLY",
        "-DNO_BCACHEFS_FS",
        "-D_GNU_SOURCE",
        "-DRUST_BINDGEN",
        "-fkeep-inline-functions",
    ]);
    let urcu = strings(&["-I/usr/include/urcu"]);
    assert_eq!(userspace_clang_args_in("/w", "/w/fs", "x86_64", &urcu), expected);
    assert_eq!(userspace_clang_args("/w/fs", "x86_64", &urcu), Some(expected));
    assert_eq!(userspace_clang_args("/", "x86_64", &urcu), None);
    assert_eq!(default_blocklist("/a.b/fs"), Some(strings(&["/a\\.b/include/.*", ".*/usr/.*"])));
    assert_eq!(default_blocklist("fs"), Some(strings(&["/include/.*", ".*/usr/.*"])));
    assert_eq!(default_blocklist(""), None);
    assert_eq!(default_blocklist("/"), None);
    assert_eq!(default_blocklist("/fs"), Some(strings(&["//include/.*", ".*/usr/.*"])));
    assert_eq!(default_blocklist("./fs"), Some(strings(&["\\./include/.*", ".*/usr/.*"])));
    assert_eq!(default_blocklist("../a.d/fs.v2"), Some(strings(&["\\.\\./a\\.d/include/.*", ".*/usr/.*"])));
    // What counts for nothing in a path: repeated slashes, those at its end, and dots behind its start.
    let parents = [
        ("a/b/", "a"), ("a/b//", "a"), ("a//b", "a"), ("a/./b", "a"), ("a/b/.", "a"), ("/a/b/", "/a"),
        ("/a//b", "/a"), ("/a/", "/"), ("/./a", "/"), ("a/", ""), ("./a", "."), ("././a", "."), (".", ""),
        ("./", ""), ("..", ""), ("../..", ".."), ("a/..", "a"), ("a/../b", "a/.."), ("a//b/c", "a//b"),
        (".a", ""), ("a./b", "a."),
    ];
    for (src, root) in parents {
        assert_eq!(default_blocklist(src), Some(default_blocklist_in(root)), "{}", src);
        assert_eq!(
            userspace_clang_args(src, "t", &urcu),
            Some(userspace_clang_args_in(root, src, "t", &urcu)),
            "{}",
            src
        );
    }
    for src in ["", "/", "/.", "/./"] {
        assert_eq!(default_blocklist(src), None, "{}", src);
    }
    assert_eq!(default_blocklist_in("r"), strings(&["r/include/.*", ".*/usr/.*"]));
}

#[test]
fn words_and_hosts() {
    assert_eq!(pkg_config_includes(" -Ia  -Ib\n"), strings(&["-Ia", "-Ib"]));
    assert_eq!(pkg_config_includes(" \n"), strings(&[]));
    assert_eq!(host_target("rustc 1\nhost: x86_64-linux\nrelease: 1\n"), Some("x86_64-linux".to_string()));
    assert_eq!(host_target("rustc 1\n host: x"), None);
    assert_eq!(wrapper_flags(&strings(&["--target=x", "-Ia", "--targets", "-D"])), strings(&["-Ia", "-D"]));
    assert!(watched(Some("h")) && watched(Some("c")) && !watched(Some("rs")) && !watched(None));
}

#[test]
fn bindgen_command_line() {
    let args = bindgen_args("o", &strings(&["-Ix", "-Dy"]), &strings(&["d/.*"]));
    assert_eq!(args[..3], strings(&["o/codegen-wrapper.h", "--formatter", "prettyplease"])[..]);
    assert_eq!(args[9..15], strings(&["--wrap-static-fns-path", "o/extern.c", "--bitfield-enum",
        "btree_iter_update_trigger_flags", "--bitfield-enum", "bch_reservation_flags"])[..]);
    assert_eq!(args[args.len() - 5..], strings(&["--blocklist-file", "d/.*", "--", "-Ix", "-Dy"])[..]);
    assert_eq!(args.iter().filter(|a| *a == "--newtype-enum").count(), 10);
    assert_eq!(args.iter().filter(|a| *a == "--allowlist-type").count(), 11);
    assert_eq!(args.len(), 11 + 2 * (4 + 2 + 10 + 5 + 12 + 2 + 8 + 11 + 2 + 1 + 3 + 3 + 2) + 5);
}

#[test]
fn wrapper_header_text() {
    let plain = wrapper_header(false);
    assert!(plain.starts_with("#include \"bcachefs.h\"\n#include \"opts.h\"\n"));
    assert!(plain.ends_with("#include \"sb/io.h\"\n#include \"sb/members.h\"\n"));
    assert_eq!(plain.lines().count(), 33);
    assert_eq!(wrapper_header(true), format!("#include \"generic-radix-tree.h\"\n{plain}"));
}

#[test]
fn bindgen_run_is_finished() {
    let run = run_bindgen("out", &[], &[], false);
    assert_eq!(run.wrapper, "out/codegen-wrapper.h");
    assert_eq!(run.bindings, "out/bcachefs.rs");
    assert_eq!(run.extern_c, "out/extern.c");
    assert_eq!(run.wrapper_text, wrapper_header(false));
    assert_eq!(run.args, bindgen_args("out", &[], &[]));
    let (bindings, extern_c) =
        run.finish("Fix753_A".to_string(), "#include \"out/codegen-wrapper.h\"\nint x;\n", "64");
    assert_eq!(bindings, "A\n");
    assert_eq!(extern_c, "#include \"codegen-wrapper.h\"\nint x;\n");
    assert_eq!(fix_extern_c("\"b\"", "a"), "\"b\"");
}

#[test]
fn definitions_are_read_back() {
    let list = entries(&[&["a", "f(1, (2, 3))"], &["b"], &["c d", "e", "0"]]);
    let mut header = "#define NAMES() \\\n".to_string();
    for (i, e) in list.iter().enumerate() {
        let end = if i + 1 < list.len() { " \\" } else { "" };
        header.push_str(&format!("\tx({}){end}\n", e.join(", ")));
    }
    assert_eq!(parse_xmacro(&header, "NAMES"), list);
    assert_eq!(split_xmacro_args(&list[0].join(", ")), list[0]);
}

#[test]
fn rows_of_joined_lists() {
    let (a, b) = (entries(&[&["a", "0"]]), entries(&[&["b", "1"]]));
    let joined: Vec<Vec<String>> = a.iter().chain(b.iter()).cloned().collect();
    let head = generate_errcodes(&[]);
    let rest = generate_errcodes(&b)[head.len()..].to_string();
    assert_eq!(generate_errcodes(&joined), generate_errcodes(&a) + &rest);
}
