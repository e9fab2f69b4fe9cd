//! The Rust tables that are generated from x-macro entries.
use crate::codegen::names;
use crate::codegen::names::{rust_ident, snake_to_pascal};
use crate::text;
use crate::text::{find, to_chars};
use vstd::prelude::*;

verus! {

/// The head of the superblock field implementations.
pub const SB_FIELD_HEAD: &'static str = "// Auto-generated from BCH_SB_FIELDS() — do not edit\n\n\
     /// Marker trait connecting an sb field struct to its field type enum.\n\
     ///\n\
     /// # Safety\n\
     /// Implementors must ensure FIELD_TYPE matches the struct type,\n\
     /// and that `field` is the first member (offset 0).\n\
     pub unsafe trait SbField: Sized {\n\
     \x20   const FIELD_TYPE: c::bch_sb_field_type;\n\
     }\n\n";

/// The head of the counter table.
pub const COUNTER_HEAD: &'static str = "// Auto-generated from BCH_PERSISTENT_COUNTERS() — do not edit\n\n\
     pub struct CounterInfo {\n\
     \x20   pub name: &'static str,\n\
     \x20   pub stable_id: u16,\n\
     \x20   pub is_sectors: bool,\n\
     }\n\n\
     pub const COUNTERS: &[CounterInfo] = &[\n";

/// The head of the extent entry sizes.
pub const EXTENT_ENTRY_HEAD: &'static str = "// Auto-generated from BCH_EXTENT_ENTRY_TYPES() — do not edit\n\n\
     /// Size in u64s for each known extent entry type.\n\
     pub fn extent_entry_type_u64s(ty: u32) -> Option<usize> {\n\
     \x20   use core::mem::size_of;\n\
     \x20   Some(match ty {\n";

/// The end of the extent entry sizes.
pub const EXTENT_ENTRY_TAIL: &'static str = "        _ => return None,\n\
     \x20   })\n\
     }\n";

/// The head of the list of btrees.
pub const BTREE_ID_HEAD: &'static str = "// Auto-generated from BCH_BTREE_IDS() - do not edit\n\n\
     pub const BTREE_IDS_KNOWN: &[c::btree_id] = &[\n";

/// The head of the error codes.
pub const ERRCODE_HEAD: &'static str = "// Auto-generated from BCH_ERRCODES() — do not edit\n\n";

/// The head of a table of strings.
pub const STR_TABLE_HEAD: &'static str = "// Auto-generated — do not edit\n\n";

/// The end of a table.
pub const TABLE_TAIL: &'static str = "];\n";

/// The head of a block of aliases.
pub const ALIAS_HEAD: &'static str = "// Auto-generated from x-macros - do not edit\n\n";

/// What precedes the name of an alias.
pub const ALIAS_CONST: &'static str = "    #[allow(non_upper_case_globals)]\n\
     \x20   pub const ";

/// The head of the key types.
pub const BKEY_HEAD: &'static str = "// Auto-generated from BCH_BKEY_TYPES() — do not edit\n\n";

/// The accessors of a key type.
pub const BKEY_ACCESSORS: &'static str = " {\n\
     \x20   pub fn k(&self) -> &c::bkey { unsafe { self.__bindgen_anon_1.k.as_ref() } }\n\
     \x20   pub fn k_mut(&mut self) -> &mut c::bkey { unsafe { self.__bindgen_anon_1.k.as_mut() } }\n\
     \x20   pub fn k_i(&self) -> &c::bkey_i { unsafe { self.__bindgen_anon_1.k_i.as_ref() } }\n\
     \x20   pub fn k_i_mut(&mut self) -> &mut c::bkey_i { unsafe { self.__bindgen_anon_1.k_i.as_mut() } }\n\
     }\n\n";

/// The trait that each key type implements.
pub const BKEY_INIT_TRAIT: &'static str = "pub trait BkeyInit: Default {\n\
     \x20   fn init(&mut self);\n\
     \x20   fn k(&self) -> &c::bkey;\n\
     \x20   fn k_mut(&mut self) -> &mut c::bkey;\n\
     \x20   fn k_i(&self) -> &c::bkey_i;\n\
     \x20   fn k_i_mut(&mut self) -> &mut c::bkey_i;\n\
     }\n\n";

/// Opens `BkeyValI`.
pub const VAL_I_ENUM: &'static str = "/// Typed dispatch for inline bkeys (`bkey_i`).\n\
     pub enum BkeyValI<'a> {\n";

/// Closes `BkeyValI` and opens its dispatch.
pub const VAL_I_IMPL: &'static str = "    unknown(&'a c::bkey_i),\n\
     }\n\n\
     impl<'a> BkeyValI<'a> {\n\
     \x20   #[allow(clippy::missing_transmute_annotations)]\n\
     \x20   pub fn from_bkey_i(k: &'a c::bkey_i) -> Self {\n\
     \x20       match k.k.type_ as u32 {\n";

/// Closes the dispatch of `BkeyValI` and opens `BkeyValIMut`.
pub const VAL_I_MUT_ENUM: &'static str = "            _ => BkeyValI::unknown(k),\n\
     \x20       }\n\
     \x20   }\n\
     }\n\n\
     /// Typed dispatch for mutable inline bkeys (`bkey_i`).\n\
     pub enum BkeyValIMut<'a> {\n";

/// Closes `BkeyValIMut` and opens its dispatch.
pub const VAL_I_MUT_IMPL: &'static str = "    unknown(&'a mut c::bkey_i),\n\
     }\n\n\
     impl<'a> BkeyValIMut<'a> {\n\
     \x20   #[allow(clippy::missing_transmute_annotations)]\n\
     \x20   pub fn from_bkey_i(k: &'a mut c::bkey_i) -> Self {\n\
     \x20       let type_ = k.k.type_;\n\
     \x20       match type_ as u32 {\n";

/// Closes the dispatch of `BkeyValIMut` and opens `BkeyValSC`.
pub const VAL_SC_ENUM: &'static str = "            _ => BkeyValIMut::unknown(k),\n\
     \x20       }\n\
     \x20   }\n\
     }\n\n\
     /// Typed dispatch for split-const bkey references.\n\
     pub enum BkeyValSC<'a> {\n";

/// Closes `BkeyValSC` and opens its dispatch.
pub const VAL_SC_IMPL: &'static str = "    unknown(&'a c::bkey, u8),\n\
     }\n\n\
     impl<'a> BkeyValSC<'a> {\n\
     \x20   #[allow(clippy::missing_transmute_annotations)]\n\
     \x20   pub fn from_bkey_i(k: &'a c::bkey_i) -> Self {\n\
     \x20       match k.k.type_ as u32 {\n";

/// Closes the first dispatch of `BkeyValSC` and opens the second.
pub const VAL_SC_FROM_RAW: &'static str = "            _ => BkeyValSC::unknown(&k.k, k.k.type_),\n\
     \x20       }\n\
     \x20   }\n\n\
     \x20   /// Construct from raw key and value references.\n\
     \x20   ///\n\
     \x20   /// # Safety\n\
     \x20   /// `val` must point to valid data for the bkey type indicated by `k.type_`.\n\
     \x20   #[allow(clippy::missing_transmute_annotations)]\n\
     \x20   pub unsafe fn from_raw(k: &'a c::bkey, val: &'a c::bch_val) -> Self {\n\
     \x20       match k.type_ as u32 {\n";

/// Closes the dispatch of `BkeyValSC` and opens `BkeyValS`.
pub const VAL_S_ENUM: &'static str = "            _ => BkeyValSC::unknown(k, k.type_),\n\
     \x20       }\n\
     \x20   }\n\
     }\n\n\
     /// Typed dispatch for split-mutable bkey references.\n\
     pub enum BkeyValS<'a> {\n";

/// Closes `BkeyValS` and opens its dispatch.
pub const VAL_S_IMPL: &'static str = "    unknown(&'a mut c::bkey, u8),\n\
     }\n\n\
     impl<'a> BkeyValS<'a> {\n\
     \x20   #[allow(clippy::missing_transmute_annotations)]\n\
     \x20   pub fn from_bkey_i(k: &'a mut c::bkey_i) -> Self {\n\
     \x20       let type_ = k.k.type_;\n\
     \x20       match type_ as u32 {\n";

/// Closes the dispatch of `BkeyValS`.
pub const VAL_S_TAIL: &'static str = "            _ => BkeyValS::unknown(&mut k.k, type_),\n\
     \x20       }\n\
     \x20   }\n\
     }\n";

/// What is written for each entry of an x-macro.
#[derive(Clone, Copy, PartialEq, Eq, Structural)]
pub enum Row {
    /// The field type of a superblock field.
    SbFieldImpl,
    /// A name in a table of strings.
    StrEntry,
    /// A persistent counter.
    Counter,
    /// The size of an extent entry.
    ExtentEntryArm,
    /// A known btree.
    BtreeId,
    /// The owned form of a key type.
    BkeyAlias,
    /// The accessors of a key type.
    BkeyAccessors,
    /// The initialization of a key type.
    BkeyInitImpl,
    /// A variant of `BkeyValI`.
    ValIVariant,
    /// The dispatch to a variant of `BkeyValI`.
    ValIArm,
    /// A variant of `BkeyValIMut`.
    ValIMutVariant,
    /// The dispatch to a variant of `BkeyValIMut`.
    ValIMutArm,
    /// A variant of `BkeyValSC`.
    ValSCVariant,
    /// The dispatch of an inline key to a variant of `BkeyValSC`.
    ValSCArm,
    /// The dispatch of a key and a value to a variant of `BkeyValSC`.
    ValSCRawArm,
    /// A variant of `BkeyValS`.
    ValSVariant,
    /// The dispatch to a variant of `BkeyValS`.
    ValSArm,
    /// The constant of an error code. An entry without a name has none.
    Errcode,
}

/// How many arguments an entry must have for a row.
pub open spec fn row_args(row: Row) -> nat {
    match row {
        Row::Errcode => 0,
        Row::Counter => 3,
        Row::ExtentEntryArm
        | Row::ValIArm
        | Row::ValIMutArm
        | Row::ValSCArm
        | Row::ValSCRawArm
        | Row::ValSArm => 2,
        _ => 1,
    }
}

/// `true` for a counter of sectors.
pub open spec fn sectors_flag(ty: Seq<char>) -> Seq<char> {
    if text::found(ty, "TYPE_SECTORS"@) is Some {
        "true"@
    } else {
        "false"@
    }
}

/// The text of a row for the entry `e`.
pub open spec fn row_text(row: Row, e: Seq<Seq<char>>) -> Seq<char> {
    match row {
        Row::SbFieldImpl => "unsafe impl SbField for c::bch_sb_field_"@
            + e[0]
            + " {\n    const FIELD_TYPE: c::bch_sb_field_type = c::bch_sb_field_type::"@
            + names::ident(e[0])
            + ";\n}\n\n"@,
        Row::StrEntry => "    \""@
            + e[0]
            + "\",\n"@,
        Row::Counter => "    CounterInfo { name: \""@
            + e[0]
            + "\", stable_id: "@
            + e[1]
            + ", is_sectors: "@
            + sectors_flag(e[2])
            + " },\n"@,
        Row::ExtentEntryArm => "        "@
            + e[1]
            + " => size_of::<c::bch_extent_"@
            + e[0]
            + ">() / 8,\n"@,
        Row::BtreeId => "    c::btree_id::"@
            + names::ident(e[0])
            + ",\n"@,
        Row::BkeyAlias => "pub type Bkey"@
            + names::pascal(e[0])
            + " = Bkey<c::bkey_i_"@
            + e[0]
            + ">;\n"@,
        Row::BkeyAccessors => "impl c::bkey_i_"@
            + e[0]
            + BKEY_ACCESSORS@,
        Row::BkeyInitImpl => "impl BkeyInit for c::bkey_i_"@
            + e[0]
            + " {\n    fn init(&mut self) { unsafe { c::bkey_"@
            + e[0]
            + "_init(self.k_i_mut()) }; }\n    fn k(&self) -> &c::bkey { c::bkey_i_"@
            + e[0]
            + "::k(self) }\n    fn k_mut(&mut self) -> &mut c::bkey { c::bkey_i_"@
            + e[0]
            + "::k_mut(self) }\n    fn k_i(&self) -> &c::bkey_i { c::bkey_i_"@
            + e[0]
            + "::k_i(self) }\n    fn k_i_mut(&mut self) -> &mut c::bkey_i { c::bkey_i_"@
            + e[0]
            + "::k_i_mut(self) }\n}\n\n"@,
        Row::ValIVariant => "    "@
            + e[0]
            + "(&'a c::bkey_i_"@
            + e[0]
            + "),\n"@,
        Row::ValIArm => "            "@
            + e[1]
            + " => BkeyValI::"@
            + e[0]
            + "(unsafe { core::mem::transmute(k) }),\n"@,
        Row::ValIMutVariant => "    "@
            + e[0]
            + "(&'a mut c::bkey_i_"@
            + e[0]
            + "),\n"@,
        Row::ValIMutArm => "            "@
            + e[1]
            + " => BkeyValIMut::"@
            + e[0]
            + "(unsafe { core::mem::transmute(k) }),\n"@,
        Row::ValSCVariant => "    "@
            + e[0]
            + "(&'a c::bkey, &'a c::bch_"@
            + e[0]
            + "),\n"@,
        Row::ValSCArm => "            "@
            + e[1]
            + " => BkeyValSC::"@
            + e[0]
            + "(&k.k, unsafe { core::mem::transmute(&k.v) }),\n"@,
        Row::ValSCRawArm => "            "@
            + e[1]
            + " => BkeyValSC::"@
            + e[0]
            + "(k, unsafe { core::mem::transmute(val) }),\n"@,
        Row::ValSVariant => "    "@
            + e[0]
            + "(&'a mut c::bkey, &'a mut c::bch_"@
            + e[0]
            + "),\n"@,
        Row::ValSArm => "            "@
            + e[1]
            + " => BkeyValS::"@
            + e[0]
            + "(&mut k.k, unsafe { core::mem::transmute(&mut k.v) }),\n"@,
        Row::Errcode => if e.len() < 2 {
            Seq::empty()
        } else {
            "#[allow(non_upper_case_globals)]\npub const "@ + names::ident(e[1])
                + ": bch_errcode = bch_errcode::BCH_ERR_"@ + names::ident(e[1]) + ";\n"@
        },
    }
}

/// The text of a row for each of the entries.
pub open spec fn rows(row: Row, es: Seq<Seq<Seq<char>>>) -> Seq<char>
    decreases es.len(),
{
    if es.len() == 0 {
        Seq::empty()
    } else {
        row_text(row, es[0]) + rows(row, es.skip(1))
    }
}

/// Whether each entry has at least `n` arguments.
pub open spec fn all_have(es: Seq<Seq<Seq<char>>>, n: nat) -> bool {
    forall|i: int| 0 <= i < es.len() ==> (#[trigger] es[i]).len() >= n
}

/// The rows for two lists of entries, one after the other, are the rows for the joined list.
pub proof fn law_rows_of_joined_lists(row: Row, a: Seq<Seq<Seq<char>>>, b: Seq<Seq<Seq<char>>>)
    ensures
        rows(row, a + b) == rows(row, a) + rows(row, b),
    decreases a.len(),
{
    if a.len() == 0 {
        assert(a + b == b);
        assert(rows(row, a) + rows(row, b) == rows(row, b));
    } else {
        law_rows_of_joined_lists(row, a.skip(1), b);
        assert((a + b).skip(1) == a.skip(1) + b);
        assert(rows(row, a + b) == row_text(row, a[0]) + (rows(row, a.skip(1)) + rows(row, b)));
    }
}

/// Each entry has its row, between the rows of the entries before it and of those after it.
pub proof fn law_every_entry_has_its_row(row: Row, es: Seq<Seq<Seq<char>>>, i: int)
    requires
        0 <= i < es.len(),
    ensures
        rows(row, es) == rows(row, es.take(i)) + row_text(row, es[i]) + rows(row, es.skip(i + 1)),
{
    let rest = es.skip(i);
    assert(es == es.take(i) + rest);
    law_rows_of_joined_lists(row, es.take(i), rest);
    assert(rest.skip(1) == es.skip(i + 1));
    assert(rows(row, es) == rows(row, es.take(i)) + (row_text(row, es[i]) + rows(
        row,
        es.skip(i + 1),
    )));
}

fn append_sectors_flag(out: &mut String, ty: &str)
    ensures
        final(out)@ == old(out)@ + sectors_flag(ty@),
{
    let cs = to_chars(ty);
    let mark = to_chars("TYPE_SECTORS");
    assert(cs@.skip(0) == cs@);
    if find(cs.as_slice(), 0, mark.as_slice()).is_some() {
        out.append("true");
    } else {
        out.append("false");
    }
}

#[verifier::rlimit(40)]
fn append_row(out: &mut String, row: Row, e: &Vec<String>)
    requires
        e.len() >= row_args(row),
    ensures
        final(out)@ == old(out)@ + row_text(row, e.deep_view()),
{
    let ghost old_out = out@;
    match row {
        Row::SbFieldImpl => {
            out.append("unsafe impl SbField for c::bch_sb_field_");
            out.append(e[0].as_str());
            out.append(" {\n    const FIELD_TYPE: c::bch_sb_field_type = c::bch_sb_field_type::");
            let id = rust_ident(e[0].as_str());
            out.append(id.as_str());
            out.append(";\n}\n\n");
        },
        Row::StrEntry => {
            out.append("    \"");
            out.append(e[0].as_str());
            out.append("\",\n");
        },
        Row::Counter => {
            out.append("    CounterInfo { name: \"");
            out.append(e[0].as_str());
            out.append("\", stable_id: ");
            out.append(e[1].as_str());
            out.append(", is_sectors: ");
            append_sectors_flag(out, e[2].as_str());
            out.append(" },\n");
        },
        Row::ExtentEntryArm => {
            out.append("        ");
            out.append(e[1].as_str());
            out.append(" => size_of::<c::bch_extent_");
            out.append(e[0].as_str());
            out.append(">() / 8,\n");
        },
        Row::BtreeId => {
            out.append("    c::btree_id::");
            let id = rust_ident(e[0].as_str());
            out.append(id.as_str());
            out.append(",\n");
        },
        Row::BkeyAlias => {
            out.append("pub type Bkey");
            let pascal = snake_to_pascal(e[0].as_str());
            out.append(pascal.as_str());
            out.append(" = Bkey<c::bkey_i_");
            out.append(e[0].as_str());
            out.append(">;\n");
        },
        Row::BkeyAccessors => {
            out.append("impl c::bkey_i_");
            out.append(e[0].as_str());
            out.append(BKEY_ACCESSORS);
        },
        Row::BkeyInitImpl => {
            out.append("impl BkeyInit for c::bkey_i_");
            out.append(e[0].as_str());
            out.append(" {\n    fn init(&mut self) { unsafe { c::bkey_");
            out.append(e[0].as_str());
            out.append("_init(self.k_i_mut()) }; }\n    fn k(&self) -> &c::bkey { c::bkey_i_");
            out.append(e[0].as_str());
            out.append("::k(self) }\n    fn k_mut(&mut self) -> &mut c::bkey { c::bkey_i_");
            out.append(e[0].as_str());
            out.append("::k_mut(self) }\n    fn k_i(&self) -> &c::bkey_i { c::bkey_i_");
            out.append(e[0].as_str());
            out.append("::k_i(self) }\n    fn k_i_mut(&mut self) -> &mut c::bkey_i { c::bkey_i_");
            out.append(e[0].as_str());
            out.append("::k_i_mut(self) }\n}\n\n");
        },
        Row::ValIVariant => {
            out.append("    ");
            out.append(e[0].as_str());
            out.append("(&'a c::bkey_i_");
            out.append(e[0].as_str());
            out.append("),\n");
        },
        Row::ValIArm => {
            out.append("            ");
            out.append(e[1].as_str());
            out.append(" => BkeyValI::");
            out.append(e[0].as_str());
            out.append("(unsafe { core::mem::transmute(k) }),\n");
        },
        Row::ValIMutVariant => {
            out.append("    ");
            out.append(e[0].as_str());
            out.append("(&'a mut c::bkey_i_");
            out.append(e[0].as_str());
            out.append("),\n");
        },
        Row::ValIMutArm => {
            out.append("            ");
            out.append(e[1].as_str());
            out.append(" => BkeyValIMut::");
            out.append(e[0].as_str());
            out.append("(unsafe { core::mem::transmute(k) }),\n");
        },
        Row::ValSCVariant => {
            out.append("    ");
            out.append(e[0].as_str());
            out.append("(&'a c::bkey, &'a c::bch_");
            out.append(e[0].as_str());
            out.append("),\n");
        },
        Row::ValSCArm => {
            out.append("            ");
            out.append(e[1].as_str());
            out.append(" => BkeyValSC::");
            out.append(e[0].as_str());
            out.append("(&k.k, unsafe { core::mem::transmute(&k.v) }),\n");
        },
        Row::ValSCRawArm => {
            out.append("            ");
            out.append(e[1].as_str());
            out.append(" => BkeyValSC::");
            out.append(e[0].as_str());
            out.append("(k, unsafe { core::mem::transmute(val) }),\n");
        },
        Row::ValSVariant => {
            out.append("    ");
            out.append(e[0].as_str());
            out.append("(&'a mut c::bkey, &'a mut c::bch_");
            out.append(e[0].as_str());
            out.append("),\n");
        },
        Row::ValSArm => {
            out.append("            ");
            out.append(e[1].as_str());
            out.append(" => BkeyValS::");
            out.append(e[0].as_str());
            out.append("(&mut k.k, unsafe { core::mem::transmute(&mut k.v) }),\n");
        },
        Row::Errcode => {
            if e.len() >= 2 {
                let id = rust_ident(e[1].as_str());
                out.append("#[allow(non_upper_case_globals)]\npub const ");
                out.append(id.as_str());
                out.append(": bch_errcode = bch_errcode::BCH_ERR_");
                out.append(id.as_str());
                out.append(";\n");
            }
        },
    }
    assert(out@ == old_out + row_text(row, e.deep_view()));
}

fn append_rows(out: &mut String, row: Row, entries: &[Vec<String>])
    requires
        all_have(entries.deep_view(), row_args(row)),
    ensures
        final(out)@ == old(out)@ + rows(row, entries.deep_view()),
{
    let ghost es = entries.deep_view();
    let ghost whole = out@ + rows(row, es);
    let mut i: usize = 0;
    assert(es.skip(0) == es);
    while i < entries.len()
        invariant
            i <= entries.len(),
            es == entries.deep_view(),
            all_have(es, row_args(row)),
            whole == old(out)@ + rows(row, es),
            out@ + rows(row, es.skip(i as int)) == whole,
        decreases entries.len() - i,
    {
        let ghost before = out@;
        assert(es[i as int] == entries@[i as int].deep_view());
        append_row(out, row, &entries[i]);
        assert(es.skip(i as int).skip(1) == es.skip(i + 1));
        assert(out@ + rows(row, es.skip(i + 1)) == before + rows(row, es.skip(i as int)));
        i = i + 1;
    }
    assert(out@ == whole);
}

/// The implementations of `SbField` for the superblock fields.
pub open spec fn sb_field_impls(es: Seq<Seq<Seq<char>>>) -> Seq<char> {
    SB_FIELD_HEAD@ + rows(Row::SbFieldImpl, es)
}

/// Generates the trait `SbField` and its implementations.
pub fn generate_sb_field_impls(entries: &[Vec<String>]) -> (out: String)
    requires
        all_have(entries.deep_view(), 1),
    ensures
        out@ == sb_field_impls(entries.deep_view()),
{
    let mut out = String::new();
    out.append(SB_FIELD_HEAD);
    append_rows(&mut out, Row::SbFieldImpl, entries);
    assert(out@ == sb_field_impls(entries.deep_view()));
    out
}

/// A constant that lists the first argument of each entry.
pub open spec fn str_table(name: Seq<char>, es: Seq<Seq<Seq<char>>>) -> Seq<char> {
    STR_TABLE_HEAD@ + "pub const "@ + name + ": &[&str] = &[\n"@ + rows(Row::StrEntry, es)
        + TABLE_TAIL@
}

/// Generates a table of strings called `name`.
pub fn generate_str_table(name: &str, entries: &[Vec<String>]) -> (out: String)
    requires
        all_have(entries.deep_view(), 1),
    ensures
        out@ == str_table(name@, entries.deep_view()),
{
    let mut out = String::new();
    out.append(STR_TABLE_HEAD);
    out.append("pub const ");
    out.append(name);
    out.append(": &[&str] = &[\n");
    append_rows(&mut out, Row::StrEntry, entries);
    out.append(TABLE_TAIL);
    assert(out@ == str_table(name@, entries.deep_view()));
    out
}

/// The table of the persistent counters.
pub open spec fn counter_table(es: Seq<Seq<Seq<char>>>) -> Seq<char> {
    COUNTER_HEAD@ + rows(Row::Counter, es) + TABLE_TAIL@
}

/// Generates the table of the persistent counters.
pub fn generate_counter_table(entries: &[Vec<String>]) -> (out: String)
    requires
        all_have(entries.deep_view(), 3),
    ensures
        out@ == counter_table(entries.deep_view()),
{
    let mut out = String::new();
    out.append(COUNTER_HEAD);
    append_rows(&mut out, Row::Counter, entries);
    out.append(TABLE_TAIL);
    assert(out@ == counter_table(entries.deep_view()));
    out
}

/// The function that gives the size of each extent entry type.
pub open spec fn extent_entry_u64s(es: Seq<Seq<Seq<char>>>) -> Seq<char> {
    EXTENT_ENTRY_HEAD@ + rows(Row::ExtentEntryArm, es) + EXTENT_ENTRY_TAIL@
}

/// Generates the function that gives the size of each extent entry type.
pub fn generate_extent_entry_u64s(entries: &[Vec<String>]) -> (out: String)
    requires
        all_have(entries.deep_view(), 2),
    ensures
        out@ == extent_entry_u64s(entries.deep_view()),
{
    let mut out = String::new();
    out.append(EXTENT_ENTRY_HEAD);
    append_rows(&mut out, Row::ExtentEntryArm, entries);
    out.append(EXTENT_ENTRY_TAIL);
    assert(out@ == extent_entry_u64s(entries.deep_view()));
    out
}

/// The constants of the error codes.
pub open spec fn errcodes(es: Seq<Seq<Seq<char>>>) -> Seq<char> {
    ERRCODE_HEAD@ + rows(Row::Errcode, es)
}

/// Generates a constant for each error code. Entries with fewer than two arguments are skipped.
pub fn generate_errcodes(entries: &[Vec<String>]) -> (out: String)
    ensures
        out@ == errcodes(entries.deep_view()),
{
    let mut out = String::new();
    out.append(ERRCODE_HEAD);
    append_rows(&mut out, Row::Errcode, entries);
    assert(out@ == errcodes(entries.deep_view()));
    out
}

/// The list of the known btrees.
pub open spec fn btree_ids_known(es: Seq<Seq<Seq<char>>>) -> Seq<char> {
    BTREE_ID_HEAD@ + rows(Row::BtreeId, es) + TABLE_TAIL@
}

/// Generates the list of the known btrees.
pub fn generate_btree_ids_known(entries: &[Vec<String>]) -> (out: String)
    requires
        all_have(entries.deep_view(), 1),
    ensures
        out@ == btree_ids_known(entries.deep_view()),
{
    let mut out = String::new();
    out.append(BTREE_ID_HEAD);
    append_rows(&mut out, Row::BtreeId, entries);
    out.append(TABLE_TAIL);
    assert(out@ == btree_ids_known(entries.deep_view()));
    out
}

/// An associated constant that is another name for the constant `of`.
pub open spec fn alias_const(alias: Seq<char>, of: Seq<char>) -> Seq<char> {
    ALIAS_CONST@ + alias + ": Self = Self::"@ + of + ";\n"@
}

/// The constants that name the entries without the prefix.
pub open spec fn aliases(prefix: Seq<char>, es: Seq<Seq<Seq<char>>>) -> Seq<char>
    decreases es.len(),
{
    if es.len() == 0 {
        Seq::empty()
    } else {
        alias_const(names::ident(es[0][0]), prefix + "_"@ + es[0][0]) + aliases(
            prefix,
            es.skip(1),
        )
    }
}

/// The short names of the constants of the type `ty`.
pub open spec fn newtype_enum_aliases(
    ty: Seq<char>,
    prefix: Seq<char>,
    es: Seq<Seq<Seq<char>>>,
    nr_alias: Seq<char>,
    nr_const: Seq<char>,
) -> Seq<char> {
    ALIAS_HEAD@ + "impl c::"@ + ty + " {\n"@ + aliases(prefix, es) + alias_const(
        nr_alias,
        nr_const,
    ) + "}\n"@
}

fn append_alias(out: &mut String, alias: &str, prefix: &str, of: &str)
    ensures
        final(out)@ == old(out)@ + alias_const(alias@, prefix@ + of@),
{
    let ghost old_out = out@;
    out.append(ALIAS_CONST);
    out.append(alias);
    out.append(": Self = Self::");
    out.append(prefix);
    out.append(of);
    out.append(";\n");
    assert(out@ == old_out + alias_const(alias@, prefix@ + of@));
}

/// Generates the short names of the constants of the type `ty`: one for each entry, and
/// `nr_alias` for `nr_const`.
pub fn generate_newtype_enum_aliases(
    ty: &str,
    prefix: &str,
    entries: &[Vec<String>],
    nr_alias: &str,
    nr_const: &str,
) -> (out: String)
    requires
        all_have(entries.deep_view(), 1),
    ensures
        out@ == newtype_enum_aliases(
            ty@,
            prefix@,
            entries.deep_view(),
            nr_alias@,
            nr_const@,
        ),
{
    let ghost es = entries.deep_view();
    let mut out = String::new();
    out.append(ALIAS_HEAD);
    out.append("impl c::");
    out.append(ty);
    out.append(" {\n");
    let mut long_prefix = String::new();
    long_prefix.append(prefix);
    long_prefix.append("_");
    assert(long_prefix@ == prefix@ + "_"@);
    let ghost head = out@;
    let mut i: usize = 0;
    assert(es.skip(0) == es);
    while i < entries.len()
        invariant
            i <= entries.len(),
            es == entries.deep_view(),
            all_have(es, 1),
            long_prefix@ == prefix@ + "_"@,
            out@ + aliases(prefix@, es.skip(i as int)) == head + aliases(prefix@, es),
        decreases entries.len() - i,
    {
        let ghost before = out@;
        assert(es[i as int] == entries@[i as int].deep_view());
        assert(es[i as int].len() >= 1);
        let name = entries[i][0].as_str();
        let alias = rust_ident(name);
        append_alias(&mut out, alias.as_str(), long_prefix.as_str(), name);
        assert(es.skip(i as int).skip(1) == es.skip(i + 1));
        assert(out@ + aliases(prefix@, es.skip(i + 1)) == before + aliases(
            prefix@,
            es.skip(i as int),
        ));
        i = i + 1;
    }
    assert(out@ == head + aliases(prefix@, es));
    append_alias(&mut out, nr_alias, "", nr_const);
    proof {
        reveal_strlit("");
        assert(""@ + nr_const@ == nr_const@);
    }
    out.append("}\n");
    assert(out@ == newtype_enum_aliases(ty@, prefix@, es, nr_alias@, nr_const@));
    out
}

/// The types, accessors and typed dispatch of the key types.
pub open spec fn bkey_types(es: Seq<Seq<Seq<char>>>) -> Seq<char> {
    bkey_structs(es) + bkey_val_i(es) + bkey_val_sc(es) + bkey_val_s(es)
}

/// The key types and what each of them implements.
pub open spec fn bkey_structs(es: Seq<Seq<Seq<char>>>) -> Seq<char> {
    BKEY_HEAD@ + rows(Row::BkeyAlias, es) + "\n"@ + rows(Row::BkeyAccessors, es) + BKEY_INIT_TRAIT@
        + rows(Row::BkeyInitImpl, es)
}

/// The dispatch for inline keys.
pub open spec fn bkey_val_i(es: Seq<Seq<Seq<char>>>) -> Seq<char> {
    VAL_I_ENUM@ + rows(Row::ValIVariant, es) + VAL_I_IMPL@ + rows(Row::ValIArm, es)
        + VAL_I_MUT_ENUM@ + rows(Row::ValIMutVariant, es) + VAL_I_MUT_IMPL@ + rows(
        Row::ValIMutArm,
        es,
    )
}

/// The dispatch for references to a key and its value.
pub open spec fn bkey_val_sc(es: Seq<Seq<Seq<char>>>) -> Seq<char> {
    VAL_SC_ENUM@ + rows(Row::ValSCVariant, es) + VAL_SC_IMPL@ + rows(Row::ValSCArm, es)
        + VAL_SC_FROM_RAW@ + rows(Row::ValSCRawArm, es)
}

/// The dispatch for mutable references to a key and its value.
pub open spec fn bkey_val_s(es: Seq<Seq<Seq<char>>>) -> Seq<char> {
    VAL_S_ENUM@ + rows(Row::ValSVariant, es) + VAL_S_IMPL@ + rows(Row::ValSArm, es) + VAL_S_TAIL@
}

/// Generates the types, accessors and typed dispatch of the key types.
pub fn generate_bkey_types(entries: &[Vec<String>]) -> (out: String)
    requires
        all_have(entries.deep_view(), 2),
    ensures
        out@ == bkey_types(entries.deep_view()),
{
    let ghost es = entries.deep_view();
    let mut out = String::new();
    out.append(BKEY_HEAD);
    append_rows(&mut out, Row::BkeyAlias, entries);
    out.append("\n");
    append_rows(&mut out, Row::BkeyAccessors, entries);
    out.append(BKEY_INIT_TRAIT);
    append_rows(&mut out, Row::BkeyInitImpl, entries);
    assert(out@ == bkey_structs(es));

    out.append(VAL_I_ENUM);
    append_rows(&mut out, Row::ValIVariant, entries);
    out.append(VAL_I_IMPL);
    append_rows(&mut out, Row::ValIArm, entries);
    out.append(VAL_I_MUT_ENUM);
    append_rows(&mut out, Row::ValIMutVariant, entries);
    out.append(VAL_I_MUT_IMPL);
    append_rows(&mut out, Row::ValIMutArm, entries);
    assert(out@ == bkey_structs(es) + bkey_val_i(es));

    out.append(VAL_SC_ENUM);
    append_rows(&mut out, Row::ValSCVariant, entries);
    out.append(VAL_SC_IMPL);
    append_rows(&mut out, Row::ValSCArm, entries);
    out.append(VAL_SC_FROM_RAW);
    append_rows(&mut out, Row::ValSCRawArm, entries);
    assert(out@ == bkey_structs(es) + bkey_val_i(es) + bkey_val_sc(es));

    out.append(VAL_S_ENUM);
    append_rows(&mut out, Row::ValSVariant, entries);
    out.append(VAL_S_IMPL);
    append_rows(&mut out, Row::ValSArm, entries);
    out.append(VAL_S_TAIL);
    assert(out@ == bkey_types(es));
    out
}

/// Whether the text `n` occurs in `s`.
pub open spec fn holds_text(s: Seq<char>, n: Seq<char>) -> bool {
    exists|k: int| #[trigger] text::occurs_at(s, n, k)
}

/// What is written for an entry, in each of the generated tables: its name and its number stand where
/// the table needs them.
pub proof fn law_rows_name_their_entry(e: Seq<Seq<char>>)
    ensures
        row_text(Row::SbFieldImpl, e) == "unsafe impl SbField for c::bch_sb_field_"@
            + e[0]
            + " {\n    const FIELD_TYPE: c::bch_sb_field_type = c::bch_sb_field_type::"@
            + names::ident(e[0])
            + ";\n}\n\n"@,
        row_text(Row::StrEntry, e) == "    \""@
            + e[0]
            + "\",\n"@,
        row_text(Row::Counter, e) == "    CounterInfo { name: \""@
            + e[0]
            + "\", stable_id: "@
            + e[1]
            + ", is_sectors: "@
            + (if holds_text(e[2], "TYPE_SECTORS"@) {
                "true"@
            } else {
                "false"@
            })
            + " },\n"@,
        row_text(Row::ExtentEntryArm, e) == "        "@
            + e[1]
            + " => size_of::<c::bch_extent_"@
            + e[0]
            + ">() / 8,\n"@,
        row_text(Row::BtreeId, e) == "    c::btree_id::"@
            + names::ident(e[0])
            + ",\n"@,
        row_text(Row::BkeyAlias, e) == "pub type Bkey"@
            + names::pascal(e[0])
            + " = Bkey<c::bkey_i_"@
            + e[0]
            + ">;\n"@,
        row_text(Row::BkeyAccessors, e) == "impl c::bkey_i_"@
            + e[0]
            + " {\n\
     \x20   pub fn k(&self) -> &c::bkey { unsafe { self.__bindgen_anon_1.k.as_ref() } }\n\
     \x20   pub fn k_mut(&mut self) -> &mut c::bkey { unsafe { self.__bindgen_anon_1.k.as_mut() } }\n\
     \x20   pub fn k_i(&self) -> &c::bkey_i { unsafe { self.__bindgen_anon_1.k_i.as_ref() } }\n\
     \x20   pub fn k_i_mut(&mut self) -> &mut c::bkey_i { unsafe { self.__bindgen_anon_1.k_i.as_mut() } }\n\
     }\n\n"@,
        row_text(Row::BkeyInitImpl, e) == "impl BkeyInit for c::bkey_i_"@
            + e[0]
            + " {\n    fn init(&mut self) { unsafe { c::bkey_"@
            + e[0]
            + "_init(self.k_i_mut()) }; }\n    fn k(&self) -> &c::bkey { c::bkey_i_"@
            + e[0]
            + "::k(self) }\n    fn k_mut(&mut self) -> &mut c::bkey { c::bkey_i_"@
            + e[0]
            + "::k_mut(self) }\n    fn k_i(&self) -> &c::bkey_i { c::bkey_i_"@
            + e[0]
            + "::k_i(self) }\n    fn k_i_mut(&mut self) -> &mut c::bkey_i { c::bkey_i_"@
            + e[0]
            + "::k_i_mut(self) }\n}\n\n"@,
        row_text(Row::ValIVariant, e) == "    "@
            + e[0]
            + "(&'a c::bkey_i_"@
            + e[0]
            + "),\n"@,
        row_text(Row::ValIArm, e) == "            "@
            + e[1]
            + " => BkeyValI::"@
            + e[0]
            + "(unsafe { core::mem::transmute(k) }),\n"@,
        row_text(Row::ValIMutVariant, e) == "    "@
            + e[0]
            + "(&'a mut c::bkey_i_"@
            + e[0]
            + "),\n"@,
        row_text(Row::ValIMutArm, e) == "            "@
            + e[1]
            + " => BkeyValIMut::"@
            + e[0]
            + "(unsafe { core::mem::transmute(k) }),\n"@,
        row_text(Row::ValSCVariant, e) == "    "@
            + e[0]
            + "(&'a c::bkey, &'a c::bch_"@
            + e[0]
            + "),\n"@,
        row_text(Row::ValSCArm, e) == "            "@
            + e[1]
            + " => BkeyValSC::"@
            + e[0]
            + "(&k.k, unsafe { core::mem::transmute(&k.v) }),\n"@,
        row_text(Row::ValSCRawArm, e) == "            "@
            + e[1]
            + " => BkeyValSC::"@
            + e[0]
            + "(k, unsafe { core::mem::transmute(val) }),\n"@,
        row_text(Row::ValSVariant, e) == "    "@
            + e[0]
            + "(&'a mut c::bkey, &'a mut c::bch_"@
            + e[0]
            + "),\n"@,
        row_text(Row::ValSArm, e) == "            "@
            + e[1]
            + " => BkeyValS::"@
            + e[0]
            + "(&mut k.k, unsafe { core::mem::transmute(&mut k.v) }),\n"@,
        e.len() < 2 ==> row_text(Row::Errcode, e) == Seq::<char>::empty(),
        e.len() >= 2 ==> row_text(Row::Errcode, e)
            == "#[allow(non_upper_case_globals)]\npub const "@ + names::ident(e[1])
            + ": bch_errcode = bch_errcode::BCH_ERR_"@ + names::ident(e[1]) + ";\n"@,
{
    text::law_first_occurrence_is_found(e[2], "TYPE_SECTORS"@);
}

/// Tables are made of a head, a row for each entry in order, and an end; no entry is left out and none
/// is written twice.
pub proof fn law_tables_hold_a_row_for_each_entry(
    name: Seq<char>,
    es: Seq<Seq<Seq<char>>>,
    row: Row,
)
    ensures
        rows(row, Seq::empty()) == Seq::<char>::empty(),
        es.len() > 0 ==> rows(row, es) == row_text(row, es[0]) + rows(row, es.skip(1)),
        sb_field_impls(es) == "// Auto-generated from BCH_SB_FIELDS() — do not edit\n\n\
     /// Marker trait connecting an sb field struct to its field type enum.\n\
     ///\n\
     /// # Safety\n\
     /// Implementors must ensure FIELD_TYPE matches the struct type,\n\
     /// and that `field` is the first member (offset 0).\n\
     pub unsafe trait SbField: Sized {\n\
     \x20   const FIELD_TYPE: c::bch_sb_field_type;\n\
     }\n\n"@ + rows(Row::SbFieldImpl, es),
        str_table(name, es) == "// Auto-generated — do not edit\n\n"@ + "pub const "@ + name + ": &[&str] = &[\n"@ + rows(
            Row::StrEntry,
            es,
        ) + "];\n"@,
        counter_table(es) == "// Auto-generated from BCH_PERSISTENT_COUNTERS() — do not edit\n\n\
     pub struct CounterInfo {\n\
     \x20   pub name: &'static str,\n\
     \x20   pub stable_id: u16,\n\
     \x20   pub is_sectors: bool,\n\
     }\n\n\
     pub const COUNTERS: &[CounterInfo] = &[\n"@ + rows(Row::Counter, es) + "];\n"@,
        extent_entry_u64s(es) == "// Auto-generated from BCH_EXTENT_ENTRY_TYPES() — do not edit\n\n\
     /// Size in u64s for each known extent entry type.\n\
     pub fn extent_entry_type_u64s(ty: u32) -> Option<usize> {\n\
     \x20   use core::mem::size_of;\n\
     \x20   Some(match ty {\n"@ + rows(Row::ExtentEntryArm, es) + "        _ => return None,\n\
     \x20   })\n\
     }\n"@,
        errcodes(es) == "// Auto-generated from BCH_ERRCODES() — do not edit\n\n"@ + rows(Row::Errcode, es),
        btree_ids_known(es) == "// Auto-generated from BCH_BTREE_IDS() - do not edit\n\n\
     pub const BTREE_IDS_KNOWN: &[c::btree_id] = &[\n"@ + rows(Row::BtreeId, es) + "];\n"@,
{
}

/// The types of keys come first, each with its accessors and its initialization; then come the four
/// enums that a key is dispatched to by its type, each with a variant and an arm for every entry, and
/// with a variant for types that are not known.
pub proof fn law_key_types_are_dispatched(es: Seq<Seq<Seq<char>>>)
    ensures
        bkey_types(es) == "// Auto-generated from BCH_BKEY_TYPES() — do not edit\n\n"@ + rows(Row::BkeyAlias, es) + "\n"@ + rows(Row::BkeyAccessors, es)
            + "pub trait BkeyInit: Default {\n\
     \x20   fn init(&mut self);\n\
     \x20   fn k(&self) -> &c::bkey;\n\
     \x20   fn k_mut(&mut self) -> &mut c::bkey;\n\
     \x20   fn k_i(&self) -> &c::bkey_i;\n\
     \x20   fn k_i_mut(&mut self) -> &mut c::bkey_i;\n\
     }\n\n"@ + rows(Row::BkeyInitImpl, es) + ("/// Typed dispatch for inline bkeys (`bkey_i`).\n\
     pub enum BkeyValI<'a> {\n"@ + rows(Row::ValIVariant, es) + "    unknown(&'a c::bkey_i),\n\
     }\n\n\
     impl<'a> BkeyValI<'a> {\n\
     \x20   #[allow(clippy::missing_transmute_annotations)]\n\
     \x20   pub fn from_bkey_i(k: &'a c::bkey_i) -> Self {\n\
     \x20       match k.k.type_ as u32 {\n"@
            + rows(Row::ValIArm, es) + "            _ => BkeyValI::unknown(k),\n\
     \x20       }\n\
     \x20   }\n\
     }\n\n\
     /// Typed dispatch for mutable inline bkeys (`bkey_i`).\n\
     pub enum BkeyValIMut<'a> {\n"@ + rows(Row::ValIMutVariant, es) + "    unknown(&'a mut c::bkey_i),\n\
     }\n\n\
     impl<'a> BkeyValIMut<'a> {\n\
     \x20   #[allow(clippy::missing_transmute_annotations)]\n\
     \x20   pub fn from_bkey_i(k: &'a mut c::bkey_i) -> Self {\n\
     \x20       let type_ = k.k.type_;\n\
     \x20       match type_ as u32 {\n"@ + rows(
            Row::ValIMutArm,
            es,
        )) + ("            _ => BkeyValIMut::unknown(k),\n\
     \x20       }\n\
     \x20   }\n\
     }\n\n\
     /// Typed dispatch for split-const bkey references.\n\
     pub enum BkeyValSC<'a> {\n"@ + rows(Row::ValSCVariant, es) + "    unknown(&'a c::bkey, u8),\n\
     }\n\n\
     impl<'a> BkeyValSC<'a> {\n\
     \x20   #[allow(clippy::missing_transmute_annotations)]\n\
     \x20   pub fn from_bkey_i(k: &'a c::bkey_i) -> Self {\n\
     \x20       match k.k.type_ as u32 {\n"@ + rows(Row::ValSCArm, es) + "            _ => BkeyValSC::unknown(&k.k, k.k.type_),\n\
     \x20       }\n\
     \x20   }\n\n\
     \x20   /// Construct from raw key and value references.\n\
     \x20   ///\n\
     \x20   /// # Safety\n\
     \x20   /// `val` must point to valid data for the bkey type indicated by `k.type_`.\n\
     \x20   #[allow(clippy::missing_transmute_annotations)]\n\
     \x20   pub unsafe fn from_raw(k: &'a c::bkey, val: &'a c::bch_val) -> Self {\n\
     \x20       match k.type_ as u32 {\n"@ + rows(
            Row::ValSCRawArm,
            es,
        )) + ("            _ => BkeyValSC::unknown(k, k.type_),\n\
     \x20       }\n\
     \x20   }\n\
     }\n\n\
     /// Typed dispatch for split-mutable bkey references.\n\
     pub enum BkeyValS<'a> {\n"@ + rows(Row::ValSVariant, es) + "    unknown(&'a mut c::bkey, u8),\n\
     }\n\n\
     impl<'a> BkeyValS<'a> {\n\
     \x20   #[allow(clippy::missing_transmute_annotations)]\n\
     \x20   pub fn from_bkey_i(k: &'a mut c::bkey_i) -> Self {\n\
     \x20       let type_ = k.k.type_;\n\
     \x20       match type_ as u32 {\n"@ + rows(Row::ValSArm, es) + "            _ => BkeyValS::unknown(&mut k.k, type_),\n\
     \x20       }\n\
     \x20   }\n\
     }\n"@),
{
}

/// A constant of the short names: what it is called, and which constant of the type it stands for.
pub open spec fn short_name(alias: Seq<char>, of: Seq<char>) -> Seq<char> {
    "    #[allow(non_upper_case_globals)]\n    pub const "@ + alias + ": Self = Self::"@ + of + ";\n"@
}

/// The block of a type names the type, holds a constant for each entry in order, called by the entry
/// and standing for the constant with the prefix, and ends with the constant that ends the list.
pub proof fn law_short_names_of_a_type(
    ty: Seq<char>,
    prefix: Seq<char>,
    es: Seq<Seq<Seq<char>>>,
    e: Seq<Seq<char>>,
    nr_alias: Seq<char>,
    nr_const: Seq<char>,
)
    ensures
        newtype_enum_aliases(ty, prefix, es, nr_alias, nr_const)
            == "// Auto-generated from x-macros - do not edit\n\n"@ + "impl c::"@ + ty + " {\n"@
            + aliases(prefix, es) + short_name(nr_alias, nr_const) + "}\n"@,
        aliases(prefix, Seq::empty()) == Seq::<char>::empty(),
        aliases(prefix, seq![e] + es) == short_name(names::ident(e[0]), prefix + "_"@ + e[0])
            + aliases(prefix, es),
{
    assert((seq![e] + es).skip(1) == es);
}

} // verus!
