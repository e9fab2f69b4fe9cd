//! The x-macros of the on-disk format, and the files that are generated from them.
use crate::codegen::generate;
use crate::codegen::generate::{
    generate_bkey_types, generate_btree_ids_known, generate_counter_table, generate_errcodes,
    generate_extent_entry_u64s, generate_newtype_enum_aliases, generate_sb_field_impls,
    generate_str_table,
};
use crate::codegen::xmacro;
use crate::codegen::xmacro::parse_xmacro;
use crate::text;
use vstd::prelude::*;

verus! {

/// The headers that define x-macros.
#[derive(Clone, Copy, PartialEq, Eq, Structural, Debug)]
pub enum Header {
    /// `bcachefs_format.h`.
    Format,
    /// `errcode.h`.
    Errcode,
    /// `sb/members_format.h`.
    Members,
    /// `sb/counters_format.h`.
    Counters,
    /// `data/extents_format.h`.
    Extents,
    /// `alloc/accounting_format.h`.
    Accounting,
    /// `data/reconcile/format.h`.
    Reconcile,
    /// `opts.h`.
    Opts,
}

impl Header {
    /// The path below the source directory.
    pub open spec fn spec_path(self) -> &'static str {
        match self {
            Header::Format => "bcachefs_format.h",
            Header::Errcode => "errcode.h",
            Header::Members => "sb/members_format.h",
            Header::Counters => "sb/counters_format.h",
            Header::Extents => "data/extents_format.h",
            Header::Accounting => "alloc/accounting_format.h",
            Header::Reconcile => "data/reconcile/format.h",
            Header::Opts => "opts.h",
        }
    }

    /// The name by which messages call the header.
    pub open spec fn spec_label(self) -> &'static str {
        match self {
            Header::Format => "bcachefs_format.h",
            Header::Errcode => "errcode.h",
            Header::Members => "members_format.h",
            Header::Counters => "counters_format.h",
            Header::Extents => "extents_format.h",
            Header::Accounting => "accounting_format.h",
            Header::Reconcile => "reconcile/format.h",
            Header::Opts => "opts.h",
        }
    }

    /// The path below the source directory.
    pub fn path(self) -> (r: &'static str)
        ensures
            r@ == self.spec_path()@,
    {
        match self {
            Header::Format => "bcachefs_format.h",
            Header::Errcode => "errcode.h",
            Header::Members => "sb/members_format.h",
            Header::Counters => "sb/counters_format.h",
            Header::Extents => "data/extents_format.h",
            Header::Accounting => "alloc/accounting_format.h",
            Header::Reconcile => "data/reconcile/format.h",
            Header::Opts => "opts.h",
        }
    }

    /// The name by which messages call the header.
    pub fn label(self) -> (r: &'static str)
        ensures
            r@ == self.spec_label()@,
    {
        match self {
            Header::Format => "bcachefs_format.h",
            Header::Errcode => "errcode.h",
            Header::Members => "members_format.h",
            Header::Counters => "counters_format.h",
            Header::Extents => "extents_format.h",
            Header::Accounting => "accounting_format.h",
            Header::Reconcile => "reconcile/format.h",
            Header::Opts => "opts.h",
        }
    }
}

/// The x-macros that are read.
#[derive(Clone, Copy, PartialEq, Eq, Structural, Debug)]
pub enum Xmacro {
    /// The error codes.
    Errcodes,
    /// The key types.
    BkeyTypes,
    /// The superblock fields.
    SbFields,
    /// The states of a member device.
    MemberStates,
    /// The persistent counters.
    Counters,
    /// The types of extent entries.
    ExtentEntryTypes,
    /// The types of accounting keys.
    DiskAccountingTypes,
    /// The reconcile counters.
    ReconcileAccounting,
    /// The data types.
    DataTypes,
    /// The metadata versions.
    MetadataVersions,
    /// The compression types.
    CompressionTypes,
    /// The types of journal entries.
    JsetEntryTypes,
    /// The btrees.
    BtreeIds,
    /// The options.
    Opts,
}

impl Xmacro {
    /// The name of the macro.
    pub open spec fn spec_name(self) -> &'static str {
        match self {
            Xmacro::Errcodes => "BCH_ERRCODES",
            Xmacro::BkeyTypes => "BCH_BKEY_TYPES",
            Xmacro::SbFields => "BCH_SB_FIELDS",
            Xmacro::MemberStates => "BCH_MEMBER_STATES",
            Xmacro::Counters => "BCH_PERSISTENT_COUNTERS",
            Xmacro::ExtentEntryTypes => "BCH_EXTENT_ENTRY_TYPES",
            Xmacro::DiskAccountingTypes => "BCH_DISK_ACCOUNTING_TYPES",
            Xmacro::ReconcileAccounting => "BCH_RECONCILE_ACCOUNTING",
            Xmacro::DataTypes => "BCH_DATA_TYPES",
            Xmacro::MetadataVersions => "BCH_METADATA_VERSIONS",
            Xmacro::CompressionTypes => "BCH_COMPRESSION_TYPES",
            Xmacro::JsetEntryTypes => "BCH_JSET_ENTRY_TYPES",
            Xmacro::BtreeIds => "BCH_BTREE_IDS",
            Xmacro::Opts => "BCH_OPTS",
        }
    }

    /// The header that defines the macro.
    pub open spec fn spec_header(self) -> Header {
        match self {
            Xmacro::BkeyTypes
            | Xmacro::SbFields
            | Xmacro::MetadataVersions
            | Xmacro::CompressionTypes
            | Xmacro::JsetEntryTypes
            | Xmacro::BtreeIds => Header::Format,
            Xmacro::Errcodes => Header::Errcode,
            Xmacro::MemberStates => Header::Members,
            Xmacro::Counters => Header::Counters,
            Xmacro::ExtentEntryTypes => Header::Extents,
            Xmacro::DiskAccountingTypes
            | Xmacro::DataTypes => Header::Accounting,
            Xmacro::ReconcileAccounting => Header::Reconcile,
            Xmacro::Opts => Header::Opts,
        }
    }

    /// The name of the macro.
    pub fn name(self) -> (r: &'static str)
        ensures
            r@ == self.spec_name()@,
    {
        match self {
            Xmacro::Errcodes => "BCH_ERRCODES",
            Xmacro::BkeyTypes => "BCH_BKEY_TYPES",
            Xmacro::SbFields => "BCH_SB_FIELDS",
            Xmacro::MemberStates => "BCH_MEMBER_STATES",
            Xmacro::Counters => "BCH_PERSISTENT_COUNTERS",
            Xmacro::ExtentEntryTypes => "BCH_EXTENT_ENTRY_TYPES",
            Xmacro::DiskAccountingTypes => "BCH_DISK_ACCOUNTING_TYPES",
            Xmacro::ReconcileAccounting => "BCH_RECONCILE_ACCOUNTING",
            Xmacro::DataTypes => "BCH_DATA_TYPES",
            Xmacro::MetadataVersions => "BCH_METADATA_VERSIONS",
            Xmacro::CompressionTypes => "BCH_COMPRESSION_TYPES",
            Xmacro::JsetEntryTypes => "BCH_JSET_ENTRY_TYPES",
            Xmacro::BtreeIds => "BCH_BTREE_IDS",
            Xmacro::Opts => "BCH_OPTS",
        }
    }

    /// The header that defines the macro.
    pub fn header(self) -> (r: Header)
        ensures
            r == self.spec_header(),
    {
        match self {
            Xmacro::BkeyTypes
            | Xmacro::SbFields
            | Xmacro::MetadataVersions
            | Xmacro::CompressionTypes
            | Xmacro::JsetEntryTypes
            | Xmacro::BtreeIds => Header::Format,
            Xmacro::Errcodes => Header::Errcode,
            Xmacro::MemberStates => Header::Members,
            Xmacro::Counters => Header::Counters,
            Xmacro::ExtentEntryTypes => Header::Extents,
            Xmacro::DiskAccountingTypes
            | Xmacro::DataTypes => Header::Accounting,
            Xmacro::ReconcileAccounting => Header::Reconcile,
            Xmacro::Opts => Header::Opts,
        }
    }
}

/// The files that are generated.
#[derive(Clone, Copy, PartialEq, Eq, Structural, Debug)]
pub enum OutFile {
    /// The error codes.
    Errcodes,
    /// The key types.
    BkeyTypes,
    /// The superblock fields.
    SbFields,
    /// The names of the member states.
    MemberStates,
    /// The persistent counters.
    Counters,
    /// The sizes of the extent entries.
    ExtentEntryTypes,
    /// The short names of constants.
    EnumAliases,
    /// The known btrees.
    BtreeIds,
}

impl OutFile {
    /// The name of the file.
    pub open spec fn spec_file_name(self) -> &'static str {
        match self {
            OutFile::Errcodes => "errcodes_gen.rs",
            OutFile::BkeyTypes => "bkey_types_gen.rs",
            OutFile::SbFields => "sb_field_types_gen.rs",
            OutFile::MemberStates => "member_states_gen.rs",
            OutFile::Counters => "counters_gen.rs",
            OutFile::ExtentEntryTypes => "extent_entry_types_gen.rs",
            OutFile::EnumAliases => "newtype_enum_aliases_gen.rs",
            OutFile::BtreeIds => "btree_ids_gen.rs",
        }
    }

    /// The name of the file.
    pub fn file_name(self) -> (r: &'static str)
        ensures
            r@ == self.spec_file_name()@,
    {
        match self {
            OutFile::Errcodes => "errcodes_gen.rs",
            OutFile::BkeyTypes => "bkey_types_gen.rs",
            OutFile::SbFields => "sb_field_types_gen.rs",
            OutFile::MemberStates => "member_states_gen.rs",
            OutFile::Counters => "counters_gen.rs",
            OutFile::ExtentEntryTypes => "extent_entry_types_gen.rs",
            OutFile::EnumAliases => "newtype_enum_aliases_gen.rs",
            OutFile::BtreeIds => "btree_ids_gen.rs",
        }
    }
}

/// The text of the headers, as far as they could be read.
pub struct Headers {
    pub format: Option<String>,
    pub errcode: Option<String>,
    pub members: Option<String>,
    pub counters: Option<String>,
    pub extents: Option<String>,
    pub accounting: Option<String>,
    pub reconcile: Option<String>,
    pub opts: Option<String>,
}

impl Headers {
    /// The text of a header, empty where it could not be read.
    pub open spec fn text(self, header: Header) -> Seq<char> {
        match self.field(header) {
            Some(s) => s@,
            None => Seq::empty(),
        }
    }

    /// What was read of a header.
    pub open spec fn field(self, header: Header) -> Option<String> {
        match header {
            Header::Format => self.format,
            Header::Errcode => self.errcode,
            Header::Members => self.members,
            Header::Counters => self.counters,
            Header::Extents => self.extents,
            Header::Accounting => self.accounting,
            Header::Reconcile => self.reconcile,
            Header::Opts => self.opts,
        }
    }

    /// The entries of an x-macro.
    pub open spec fn entries(self, m: Xmacro) -> Seq<Seq<Seq<char>>> {
        xmacro::xmacro_entries(self.text(m.spec_header()), m.spec_name()@)
    }

    /// The text of a header, where it could be read.
    pub fn get(&self, header: Header) -> (r: Option<&str>)
        ensures
            match r {
                Some(s) => self.field(header) is Some && s@ == self.text(header),
                None => self.field(header) is None,
            },
    {
        let field: &Option<String> = match header {
            Header::Format => &self.format,
            Header::Errcode => &self.errcode,
            Header::Members => &self.members,
            Header::Counters => &self.counters,
            Header::Extents => &self.extents,
            Header::Accounting => &self.accounting,
            Header::Reconcile => &self.reconcile,
            Header::Opts => &self.opts,
        };
        match field {
            Some(s) => Some(s.as_str()),
            None => None,
        }
    }

    /// Reads the entries of an x-macro: none where its header could not be read.
    pub fn parse(&self, m: Xmacro) -> (r: Vec<Vec<String>>)
        ensures
            r.deep_view() == self.entries(m),
    {
        match self.get(m.header()) {
            Some(s) => parse_xmacro(s, m.name()),
            None => {
                proof {
                    reveal_strlit("");
                    assert(""@ == Seq::<char>::empty());
                }
                parse_xmacro("", m.name())
            },
        }
    }
}

/// The short names that are generated for the constants of one type.
#[derive(Clone, Copy)]
pub struct AliasTable {
    /// The type.
    pub ty: &'static str,
    /// What precedes the name of an entry in its constant.
    pub prefix: &'static str,
    /// The entries.
    pub xmacro: Xmacro,
    /// The short name of the constant that ends the list.
    pub nr_alias: &'static str,
    /// The constant that ends the list.
    pub nr_const: &'static str,
}

/// The types that get short names.
pub open spec fn spec_alias_tables() -> Seq<AliasTable> {
    seq![
        AliasTable {
            ty: "bcachefs_metadata_version",
            prefix: "bcachefs_metadata_version",
            xmacro: Xmacro::MetadataVersions,
            nr_alias: "max",
            nr_const: "bcachefs_metadata_version_max",
        },
        AliasTable {
            ty: "bch_opt_id",
            prefix: "Opt",
            xmacro: Xmacro::Opts,
            nr_alias: "nr",
            nr_const: "bch2_opts_nr",
        },
        AliasTable {
            ty: "btree_id",
            prefix: "BTREE_ID",
            xmacro: Xmacro::BtreeIds,
            nr_alias: "nr",
            nr_const: "BTREE_ID_NR",
        },
        AliasTable {
            ty: "bch_bkey_type",
            prefix: "KEY_TYPE",
            xmacro: Xmacro::BkeyTypes,
            nr_alias: "nr",
            nr_const: "KEY_TYPE_MAX",
        },
        AliasTable {
            ty: "bch_data_type",
            prefix: "BCH_DATA",
            xmacro: Xmacro::DataTypes,
            nr_alias: "nr",
            nr_const: "BCH_DATA_NR",
        },
        AliasTable {
            ty: "bch_compression_type",
            prefix: "BCH_COMPRESSION_TYPE",
            xmacro: Xmacro::CompressionTypes,
            nr_alias: "nr",
            nr_const: "BCH_COMPRESSION_TYPE_NR",
        },
        AliasTable {
            ty: "bch_jset_entry_type",
            prefix: "BCH_JSET_ENTRY",
            xmacro: Xmacro::JsetEntryTypes,
            nr_alias: "nr",
            nr_const: "BCH_JSET_ENTRY_NR",
        },
        AliasTable {
            ty: "bch_sb_field_type",
            prefix: "BCH_SB_FIELD",
            xmacro: Xmacro::SbFields,
            nr_alias: "nr",
            nr_const: "BCH_SB_FIELD_NR",
        },
        AliasTable {
            ty: "disk_accounting_type",
            prefix: "BCH_DISK_ACCOUNTING",
            xmacro: Xmacro::DiskAccountingTypes,
            nr_alias: "nr",
            nr_const: "BCH_DISK_ACCOUNTING_TYPE_NR",
        },
        AliasTable {
            ty: "bch_reconcile_accounting_type",
            prefix: "BCH_RECONCILE_ACCOUNTING",
            xmacro: Xmacro::ReconcileAccounting,
            nr_alias: "nr",
            nr_const: "BCH_RECONCILE_ACCOUNTING_NR",
        },
    ]
}

/// The types that get short names.
pub fn alias_tables() -> (r: Vec<AliasTable>)
    ensures
        r@ == spec_alias_tables(),
{
    let r = vec![
        AliasTable {
            ty: "bcachefs_metadata_version",
            prefix: "bcachefs_metadata_version",
            xmacro: Xmacro::MetadataVersions,
            nr_alias: "max",
            nr_const: "bcachefs_metadata_version_max",
        },
        AliasTable {
            ty: "bch_opt_id",
            prefix: "Opt",
            xmacro: Xmacro::Opts,
            nr_alias: "nr",
            nr_const: "bch2_opts_nr",
        },
        AliasTable {
            ty: "btree_id",
            prefix: "BTREE_ID",
            xmacro: Xmacro::BtreeIds,
            nr_alias: "nr",
            nr_const: "BTREE_ID_NR",
        },
        AliasTable {
            ty: "bch_bkey_type",
            prefix: "KEY_TYPE",
            xmacro: Xmacro::BkeyTypes,
            nr_alias: "nr",
            nr_const: "KEY_TYPE_MAX",
        },
        AliasTable {
            ty: "bch_data_type",
            prefix: "BCH_DATA",
            xmacro: Xmacro::DataTypes,
            nr_alias: "nr",
            nr_const: "BCH_DATA_NR",
        },
        AliasTable {
            ty: "bch_compression_type",
            prefix: "BCH_COMPRESSION_TYPE",
            xmacro: Xmacro::CompressionTypes,
            nr_alias: "nr",
            nr_const: "BCH_COMPRESSION_TYPE_NR",
        },
        AliasTable {
            ty: "bch_jset_entry_type",
            prefix: "BCH_JSET_ENTRY",
            xmacro: Xmacro::JsetEntryTypes,
            nr_alias: "nr",
            nr_const: "BCH_JSET_ENTRY_NR",
        },
        AliasTable {
            ty: "bch_sb_field_type",
            prefix: "BCH_SB_FIELD",
            xmacro: Xmacro::SbFields,
            nr_alias: "nr",
            nr_const: "BCH_SB_FIELD_NR",
        },
        AliasTable {
            ty: "disk_accounting_type",
            prefix: "BCH_DISK_ACCOUNTING",
            xmacro: Xmacro::DiskAccountingTypes,
            nr_alias: "nr",
            nr_const: "BCH_DISK_ACCOUNTING_TYPE_NR",
        },
        AliasTable {
            ty: "bch_reconcile_accounting_type",
            prefix: "BCH_RECONCILE_ACCOUNTING",
            xmacro: Xmacro::ReconcileAccounting,
            nr_alias: "nr",
            nr_const: "BCH_RECONCILE_ACCOUNTING_NR",
        },
    ];
    assert(r@ == spec_alias_tables());
    r
}

/// The short names for one type.
pub open spec fn alias_block(hs: Headers, t: AliasTable) -> Seq<char> {
    generate::newtype_enum_aliases(
        t.ty@,
        t.prefix@,
        hs.entries(t.xmacro),
        t.nr_alias@,
        t.nr_const@,
    )
}

/// The short names for each of the types, a line feed between them.
pub open spec fn alias_blocks(hs: Headers, ts: Seq<AliasTable>) -> Seq<char>
    decreases ts.len(),
{
    if ts.len() == 0 {
        Seq::empty()
    } else if ts.len() == 1 {
        alias_block(hs, ts[0])
    } else {
        alias_block(hs, ts[0]) + "\n"@ + alias_blocks(hs, ts.skip(1))
    }
}

/// Whether every entry of `m` has at least `n` arguments.
pub open spec fn entries_have(hs: Headers, m: Xmacro, n: nat) -> bool {
    generate::all_have(hs.entries(m), n)
}

/// Whether the entries have the arguments that the file needs.
pub open spec fn writable(hs: Headers, f: OutFile) -> bool {
    match f {
        OutFile::Errcodes => true,
        OutFile::BkeyTypes => entries_have(hs, Xmacro::BkeyTypes, 2),
        OutFile::SbFields => entries_have(hs, Xmacro::SbFields, 1),
        OutFile::MemberStates => entries_have(hs, Xmacro::MemberStates, 1),
        OutFile::Counters => entries_have(hs, Xmacro::Counters, 3),
        OutFile::ExtentEntryTypes => entries_have(hs, Xmacro::ExtentEntryTypes, 2),
        OutFile::EnumAliases => forall|i: int|
            0 <= i < spec_alias_tables().len() ==> entries_have(
                hs,
                (#[trigger] spec_alias_tables()[i]).xmacro,
                1,
            ),
        OutFile::BtreeIds => entries_have(hs, Xmacro::BtreeIds, 1),
    }
}

/// The text of a generated file.
pub open spec fn file_text(hs: Headers, f: OutFile) -> Seq<char> {
    match f {
        OutFile::Errcodes => generate::errcodes(hs.entries(Xmacro::Errcodes)),
        OutFile::BkeyTypes => generate::bkey_types(hs.entries(Xmacro::BkeyTypes)),
        OutFile::SbFields => generate::sb_field_impls(hs.entries(Xmacro::SbFields)),
        OutFile::MemberStates => generate::str_table(
            "MEMBER_STATE_NAMES"@,
            hs.entries(Xmacro::MemberStates),
        ),
        OutFile::Counters => generate::counter_table(hs.entries(Xmacro::Counters)),
        OutFile::ExtentEntryTypes => generate::extent_entry_u64s(
            hs.entries(Xmacro::ExtentEntryTypes),
        ),
        OutFile::EnumAliases => alias_blocks(hs, spec_alias_tables()),
        OutFile::BtreeIds => generate::btree_ids_known(hs.entries(Xmacro::BtreeIds)),
    }
}

/// A step of the generation.
#[derive(Clone, Copy, PartialEq, Eq, Structural, Debug)]
pub enum Step {
    /// A header has to be there.
    Read(Header),
    /// An x-macro has to have entries.
    Parse(Xmacro),
    /// A file is written.
    Write(OutFile),
}

/// The steps of the generation, in order.
pub open spec fn spec_steps() -> Seq<Step> {
    seq![
        Step::Read(Header::Format),
        Step::Read(Header::Errcode),
        Step::Parse(Xmacro::Errcodes),
        Step::Write(OutFile::Errcodes),
        Step::Parse(Xmacro::BkeyTypes),
        Step::Write(OutFile::BkeyTypes),
        Step::Parse(Xmacro::SbFields),
        Step::Write(OutFile::SbFields),
        Step::Read(Header::Members),
        Step::Parse(Xmacro::MemberStates),
        Step::Write(OutFile::MemberStates),
        Step::Read(Header::Counters),
        Step::Parse(Xmacro::Counters),
        Step::Write(OutFile::Counters),
        Step::Read(Header::Extents),
        Step::Parse(Xmacro::ExtentEntryTypes),
        Step::Write(OutFile::ExtentEntryTypes),
        Step::Read(Header::Accounting),
        Step::Parse(Xmacro::DiskAccountingTypes),
        Step::Read(Header::Reconcile),
        Step::Parse(Xmacro::ReconcileAccounting),
        Step::Parse(Xmacro::DataTypes),
        Step::Parse(Xmacro::MetadataVersions),
        Step::Parse(Xmacro::CompressionTypes),
        Step::Parse(Xmacro::JsetEntryTypes),
        Step::Parse(Xmacro::BtreeIds),
        Step::Read(Header::Opts),
        Step::Parse(Xmacro::Opts),
        Step::Write(OutFile::EnumAliases),
        Step::Write(OutFile::BtreeIds),
    ]
}

/// The steps of the generation, in order.
pub fn steps() -> (r: Vec<Step>)
    ensures
        r@ == spec_steps(),
{
    let r = vec![
        Step::Read(Header::Format),
        Step::Read(Header::Errcode),
        Step::Parse(Xmacro::Errcodes),
        Step::Write(OutFile::Errcodes),
        Step::Parse(Xmacro::BkeyTypes),
        Step::Write(OutFile::BkeyTypes),
        Step::Parse(Xmacro::SbFields),
        Step::Write(OutFile::SbFields),
        Step::Read(Header::Members),
        Step::Parse(Xmacro::MemberStates),
        Step::Write(OutFile::MemberStates),
        Step::Read(Header::Counters),
        Step::Parse(Xmacro::Counters),
        Step::Write(OutFile::Counters),
        Step::Read(Header::Extents),
        Step::Parse(Xmacro::ExtentEntryTypes),
        Step::Write(OutFile::ExtentEntryTypes),
        Step::Read(Header::Accounting),
        Step::Parse(Xmacro::DiskAccountingTypes),
        Step::Read(Header::Reconcile),
        Step::Parse(Xmacro::ReconcileAccounting),
        Step::Parse(Xmacro::DataTypes),
        Step::Parse(Xmacro::MetadataVersions),
        Step::Parse(Xmacro::CompressionTypes),
        Step::Parse(Xmacro::JsetEntryTypes),
        Step::Parse(Xmacro::BtreeIds),
        Step::Read(Header::Opts),
        Step::Parse(Xmacro::Opts),
        Step::Write(OutFile::EnumAliases),
        Step::Write(OutFile::BtreeIds),
    ];
    assert(r@ == spec_steps());
    r
}

/// Why the generation stopped.
#[derive(Clone, Copy, PartialEq, Eq, Structural, Debug)]
pub enum Failure {
    /// A header could not be read.
    Unreadable(Header),
    /// No entries were found.
    NoEntries(Xmacro),
    /// An entry lacks arguments that the file needs.
    ShortEntry(OutFile),
}

impl Failure {
    /// The message that reports the failure.
    pub open spec fn message(self) -> Seq<char> {
        match self {
            Failure::Unreadable(h) => "reading "@ + h.spec_label()@,
            Failure::NoEntries(m) => "failed to parse "@ + m.spec_name()@ + "()"@,
            Failure::ShortEntry(f) => "missing x-macro argument for "@ + f.spec_file_name()@,
        }
    }

    /// The message that reports the failure.
    pub fn describe(self) -> (r: String)
        ensures
            r@ == self.message(),
    {
        let mut out = String::new();
        match self {
            Failure::Unreadable(h) => {
                out.append("reading ");
                out.append(h.label());
            },
            Failure::NoEntries(m) => {
                out.append("failed to parse ");
                out.append(m.name());
                out.append("()");
            },
            Failure::ShortEntry(f) => {
                out.append("missing x-macro argument for ");
                out.append(f.file_name());
            },
        }
        assert(out@ == self.message());
        out
    }
}

/// Why a step fails, if it does.
pub open spec fn step_failure(hs: Headers, step: Step) -> Option<Failure> {
    match step {
        Step::Read(h) => if hs.field(h) is None {
            Some(Failure::Unreadable(h))
        } else {
            None
        },
        Step::Parse(m) => if hs.entries(m).len() == 0 {
            Some(Failure::NoEntries(m))
        } else {
            None
        },
        Step::Write(f) => if !writable(hs, f) {
            Some(Failure::ShortEntry(f))
        } else {
            None
        },
    }
}

/// The first failure among the steps.
pub open spec fn first_failure(hs: Headers, ss: Seq<Step>) -> Option<Failure>
    decreases ss.len(),
{
    if ss.len() == 0 {
        None
    } else if step_failure(hs, ss[0]) is Some {
        step_failure(hs, ss[0])
    } else {
        first_failure(hs, ss.skip(1))
    }
}

/// The files that the steps write before the first failure.
pub open spec fn written(hs: Headers, ss: Seq<Step>) -> Seq<OutFile>
    decreases ss.len(),
{
    if ss.len() == 0 || step_failure(hs, ss[0]) is Some {
        Seq::empty()
    } else {
        match ss[0] {
            Step::Write(f) => seq![f] + written(hs, ss.skip(1)),
            _ => written(hs, ss.skip(1)),
        }
    }
}

/// A generated file.
pub struct GeneratedFile {
    /// Which file it is.
    pub file: OutFile,
    /// Its text.
    pub text: String,
}

/// What the generation comes to.
pub struct Generated {
    /// The files to write, in order.
    pub files: Vec<GeneratedFile>,
    /// Why the generation stopped, if it did not come to its end.
    pub failure: Option<Failure>,
}

fn have_args(entries: &Vec<Vec<String>>, n: usize) -> (r: bool)
    ensures
        r == generate::all_have(entries.deep_view(), n as nat),
{
    let ghost es = entries.deep_view();
    let mut i: usize = 0;
    while i < entries.len()
        invariant
            i <= entries.len(),
            es == entries.deep_view(),
            forall|j: int| 0 <= j < i ==> (#[trigger] es[j]).len() >= n,
        decreases entries.len() - i,
    {
        assert(es[i as int] == entries@[i as int].deep_view());
        if entries[i].len() < n {
            return false;
        }
        i = i + 1;
    }
    true
}

fn alias_texts(hs: &Headers, tables: &Vec<AliasTable>) -> (r: Option<String>)
    ensures
        match r {
            Some(s) => s@ == alias_blocks(*hs, tables@) && forall|j: int|
                0 <= j < tables@.len() ==> entries_have(*hs, (#[trigger] tables@[j]).xmacro, 1),
            None => exists|j: int|
                0 <= j < tables@.len() && !entries_have(*hs, (#[trigger] tables@[j]).xmacro, 1),
        },
{
    let ghost ts = tables@;
    let mut out = String::new();
    let mut i: usize = 0;
    assert(ts.skip(0) == ts);
    assert(out@ + alias_blocks(*hs, ts) == alias_blocks(*hs, ts));
    while i < tables.len()
        invariant
            i <= tables.len(),
            tables@ == ts,
            forall|j: int| 0 <= j < i ==> entries_have(*hs, (#[trigger] ts[j]).xmacro, 1),
            out@ + alias_blocks(*hs, ts.skip(i as int)) == alias_blocks(*hs, ts),
        decreases tables.len() - i,
    {
        let ghost before = out@;
        let ghost rest = ts.skip(i as int);
        let t: AliasTable = tables[i];
        assert(t == ts[i as int]);
        let entries = hs.parse(t.xmacro);
        if !have_args(&entries, 1) {
            assert(!entries_have(*hs, ts[i as int].xmacro, 1));
            return None;
        }
        let block = generate_newtype_enum_aliases(
            t.ty,
            t.prefix,
            entries.as_slice(),
            t.nr_alias,
            t.nr_const,
        );
        out.append(block.as_str());
        assert(rest.skip(1) == ts.skip(i + 1));
        if i + 1 < tables.len() {
            out.append("\n");
        }
        assert(out@ + alias_blocks(*hs, ts.skip(i + 1)) == before + alias_blocks(*hs, rest));
        i = i + 1;
    }
    assert(out@ == alias_blocks(*hs, ts));
    Some(out)
}

fn alias_file(hs: &Headers) -> (r: Option<String>)
    ensures
        match r {
            Some(s) => writable(*hs, OutFile::EnumAliases) && s@ == file_text(
                *hs,
                OutFile::EnumAliases,
            ),
            None => !writable(*hs, OutFile::EnumAliases),
        },
{
    let tables = alias_tables();
    alias_texts(hs, &tables)
}

/// Generates one file, where the entries have the arguments that it needs.
pub fn generate_file(hs: &Headers, f: OutFile) -> (r: Option<String>)
    ensures
        match r {
            Some(s) => writable(*hs, f) && s@ == file_text(*hs, f),
            None => !writable(*hs, f),
        },
{
    match f {
        OutFile::Errcodes => {
            let es = hs.parse(Xmacro::Errcodes);
            Some(generate_errcodes(es.as_slice()))
        },
        OutFile::BkeyTypes => {
            let es = hs.parse(Xmacro::BkeyTypes);
            if have_args(&es, 2) {
                Some(generate_bkey_types(es.as_slice()))
            } else {
                None
            }
        },
        OutFile::SbFields => {
            let es = hs.parse(Xmacro::SbFields);
            if have_args(&es, 1) {
                Some(generate_sb_field_impls(es.as_slice()))
            } else {
                None
            }
        },
        OutFile::MemberStates => {
            let es = hs.parse(Xmacro::MemberStates);
            if have_args(&es, 1) {
                Some(generate_str_table("MEMBER_STATE_NAMES", es.as_slice()))
            } else {
                None
            }
        },
        OutFile::Counters => {
            let es = hs.parse(Xmacro::Counters);
            if have_args(&es, 3) {
                Some(generate_counter_table(es.as_slice()))
            } else {
                None
            }
        },
        OutFile::ExtentEntryTypes => {
            let es = hs.parse(Xmacro::ExtentEntryTypes);
            if have_args(&es, 2) {
                Some(generate_extent_entry_u64s(es.as_slice()))
            } else {
                None
            }
        },
        OutFile::EnumAliases => alias_file(hs),
        OutFile::BtreeIds => {
            let es = hs.parse(Xmacro::BtreeIds);
            if have_args(&es, 1) {
                Some(generate_btree_ids_known(es.as_slice()))
            } else {
                None
            }
        },
    }
}

/// Whether `files` are the files `fs` with their texts.
pub open spec fn holds_files(hs: Headers, files: Seq<GeneratedFile>, fs: Seq<OutFile>) -> bool {
    &&& files.len() == fs.len()
    &&& forall|i: int|
        0 <= i < fs.len() ==> (#[trigger] files[i]).file == fs[i] && files[i].text@ == file_text(
            hs,
            fs[i],
        )
}

/// Generates the files that are derived from x-macros. Where a header is missing, or an x-macro
/// has no entries or too short ones, the generation stops; what was generated until then is still
/// to be written.
pub fn gen_xmacros(hs: &Headers) -> (r: Generated)
    ensures
        r.failure == first_failure(*hs, spec_steps()),
        holds_files(*hs, r.files@, written(*hs, spec_steps())),
{
    let ghost ss = spec_steps();
    let all = steps();
    let mut files: Vec<GeneratedFile> = Vec::new();
    let ghost mut done: Seq<OutFile> = Seq::empty();
    let mut i: usize = 0;
    assert(ss.skip(0) == ss);
    assert(done + written(*hs, ss) == written(*hs, ss));
    while i < all.len()
        invariant
            i <= all.len(),
            all@ == ss,
            ss == spec_steps(),
            holds_files(*hs, files@, done),
            done + written(*hs, ss.skip(i as int)) == written(*hs, ss),
            first_failure(*hs, ss.skip(i as int)) == first_failure(*hs, ss),
        decreases all.len() - i,
    {
        let ghost rest = ss.skip(i as int);
        let ghost before = done;
        let step: Step = all[i];
        assert(step == rest[0]);
        assert(rest.skip(1) == ss.skip(i + 1));
        let mut failure: Option<Failure> = None;
        match step {
            Step::Read(h) => {
                if hs.get(h).is_none() {
                    failure = Some(Failure::Unreadable(h));
                }
            },
            Step::Parse(m) => {
                let es = hs.parse(m);
                if es.len() == 0 {
                    failure = Some(Failure::NoEntries(m));
                }
            },
            Step::Write(f) => {
                match generate_file(hs, f) {
                    Some(text) => {
                        files.push(GeneratedFile { file: f, text });
                        proof {
                            done = done.push(f);
                        }
                    },
                    None => {
                        failure = Some(Failure::ShortEntry(f));
                    },
                }
            },
        }
        if failure.is_some() {
            assert(done == written(*hs, ss));
            return Generated { files, failure };
        }
        assert(done + written(*hs, ss.skip(i + 1)) == before + written(*hs, rest));
        i = i + 1;
    }
    assert(done == written(*hs, ss));
    Generated { files, failure: None }
}

/// Every file that is written precedes the first failure: where nothing fails, all of them are
/// written, in the order of the steps.
pub proof fn law_without_failure_everything_is_written(hs: Headers)
    requires
        first_failure(hs, spec_steps()) is None,
    ensures
        written(hs, spec_steps()) == seq![
            OutFile::Errcodes,
            OutFile::BkeyTypes,
            OutFile::SbFields,
            OutFile::MemberStates,
            OutFile::Counters,
            OutFile::ExtentEntryTypes,
            OutFile::EnumAliases,
            OutFile::BtreeIds,
        ],
{
    lemma_written_without_failure(hs, spec_steps());
    let ss = spec_steps();
    let fs = written_files(ss);
    reveal_with_fuel(written_files, 31);
    assert(fs == seq![
        OutFile::Errcodes,
        OutFile::BkeyTypes,
        OutFile::SbFields,
        OutFile::MemberStates,
        OutFile::Counters,
        OutFile::ExtentEntryTypes,
        OutFile::EnumAliases,
        OutFile::BtreeIds,
    ]);
}

spec fn written_files(ss: Seq<Step>) -> Seq<OutFile>
    decreases ss.len(),
{
    if ss.len() == 0 {
        Seq::empty()
    } else {
        match ss[0] {
            Step::Write(f) => seq![f] + written_files(ss.skip(1)),
            _ => written_files(ss.skip(1)),
        }
    }
}

proof fn lemma_written_without_failure(hs: Headers, ss: Seq<Step>)
    requires
        first_failure(hs, ss) is None,
    ensures
        written(hs, ss) == written_files(ss),
    decreases ss.len(),
{
    if ss.len() > 0 {
        lemma_written_without_failure(hs, ss.skip(1));
    }
}

/// Every file is made of entries: where nothing fails, each x-macro that is read has some.
pub proof fn law_without_failure_every_macro_has_entries(hs: Headers, m: Xmacro)
    requires
        first_failure(hs, spec_steps()) is None,
    ensures
        hs.entries(m).len() > 0,
{
    lemma_step_of(m);
    let k = choose|k: int| 0 <= k < spec_steps().len() && spec_steps()[k] == Step::Parse(m);
    lemma_no_failure_at(hs, spec_steps(), k);
}

proof fn lemma_step_of(m: Xmacro)
    ensures
        exists|k: int| 0 <= k < spec_steps().len() && spec_steps()[k] == Step::Parse(m),
{
    let ss = spec_steps();
    match m {
        Xmacro::Errcodes => assert(ss[2] == Step::Parse(m)),
        Xmacro::BkeyTypes => assert(ss[4] == Step::Parse(m)),
        Xmacro::SbFields => assert(ss[6] == Step::Parse(m)),
        Xmacro::MemberStates => assert(ss[9] == Step::Parse(m)),
        Xmacro::Counters => assert(ss[12] == Step::Parse(m)),
        Xmacro::ExtentEntryTypes => assert(ss[15] == Step::Parse(m)),
        Xmacro::DiskAccountingTypes => assert(ss[18] == Step::Parse(m)),
        Xmacro::ReconcileAccounting => assert(ss[20] == Step::Parse(m)),
        Xmacro::DataTypes => assert(ss[21] == Step::Parse(m)),
        Xmacro::MetadataVersions => assert(ss[22] == Step::Parse(m)),
        Xmacro::CompressionTypes => assert(ss[23] == Step::Parse(m)),
        Xmacro::JsetEntryTypes => assert(ss[24] == Step::Parse(m)),
        Xmacro::BtreeIds => assert(ss[25] == Step::Parse(m)),
        Xmacro::Opts => assert(ss[27] == Step::Parse(m)),
    }
}

proof fn lemma_no_failure_at(hs: Headers, ss: Seq<Step>, k: int)
    requires
        first_failure(hs, ss) is None,
        0 <= k < ss.len(),
    ensures
        step_failure(hs, ss[k]) is None,
    decreases ss.len(),
{
    if k > 0 {
        lemma_no_failure_at(hs, ss.skip(1), k - 1);
    }
}

/// The entries of the x-macro `name` that a header lists, where the header could be read.
pub open spec fn listed(header: Option<String>, name: Seq<char>) -> Seq<Seq<Seq<char>>> {
    match header {
        Some(s) => xmacro::xmacro_entries(s@, name),
        None => xmacro::xmacro_entries(Seq::empty(), name),
    }
}

/// Each generated file but the one of the short names is made of the entries of one x-macro, in one
/// header.
pub proof fn law_each_file_lists_its_macro(hs: Headers)
    ensures
        file_text(hs, OutFile::Errcodes) == generate::errcodes(listed(hs.errcode, "BCH_ERRCODES"@)),
        file_text(hs, OutFile::BkeyTypes) == generate::bkey_types(
            listed(hs.format, "BCH_BKEY_TYPES"@),
        ),
        file_text(hs, OutFile::SbFields) == generate::sb_field_impls(
            listed(hs.format, "BCH_SB_FIELDS"@),
        ),
        file_text(hs, OutFile::MemberStates) == generate::str_table(
            "MEMBER_STATE_NAMES"@,
            listed(hs.members, "BCH_MEMBER_STATES"@),
        ),
        file_text(hs, OutFile::Counters) == generate::counter_table(
            listed(hs.counters, "BCH_PERSISTENT_COUNTERS"@),
        ),
        file_text(hs, OutFile::ExtentEntryTypes) == generate::extent_entry_u64s(
            listed(hs.extents, "BCH_EXTENT_ENTRY_TYPES"@),
        ),
        file_text(hs, OutFile::BtreeIds) == generate::btree_ids_known(
            listed(hs.format, "BCH_BTREE_IDS"@),
        ),
{
}

/// The file of the short names holds one block for each of ten types, in this order and with an empty
/// line between two of them. Each is made of the entries of the x-macro that lists the type.
pub proof fn law_short_names_of_each_type(hs: Headers)
    ensures
        file_text(hs, OutFile::EnumAliases) == text::joined(
            seq![
                generate::newtype_enum_aliases(
                    "bcachefs_metadata_version"@,
                    "bcachefs_metadata_version"@,
                    listed(hs.format, "BCH_METADATA_VERSIONS"@),
                    "max"@,
                    "bcachefs_metadata_version_max"@,
                ),
                generate::newtype_enum_aliases(
                    "bch_opt_id"@,
                    "Opt"@,
                    listed(hs.opts, "BCH_OPTS"@),
                    "nr"@,
                    "bch2_opts_nr"@,
                ),
                generate::newtype_enum_aliases(
                    "btree_id"@,
                    "BTREE_ID"@,
                    listed(hs.format, "BCH_BTREE_IDS"@),
                    "nr"@,
                    "BTREE_ID_NR"@,
                ),
                generate::newtype_enum_aliases(
                    "bch_bkey_type"@,
                    "KEY_TYPE"@,
                    listed(hs.format, "BCH_BKEY_TYPES"@),
                    "nr"@,
                    "KEY_TYPE_MAX"@,
                ),
                generate::newtype_enum_aliases(
                    "bch_data_type"@,
                    "BCH_DATA"@,
                    listed(hs.accounting, "BCH_DATA_TYPES"@),
                    "nr"@,
                    "BCH_DATA_NR"@,
                ),
                generate::newtype_enum_aliases(
                    "bch_compression_type"@,
                    "BCH_COMPRESSION_TYPE"@,
                    listed(hs.format, "BCH_COMPRESSION_TYPES"@),
                    "nr"@,
                    "BCH_COMPRESSION_TYPE_NR"@,
                ),
                generate::newtype_enum_aliases(
                    "bch_jset_entry_type"@,
                    "BCH_JSET_ENTRY"@,
                    listed(hs.format, "BCH_JSET_ENTRY_TYPES"@),
                    "nr"@,
                    "BCH_JSET_ENTRY_NR"@,
                ),
                generate::newtype_enum_aliases(
                    "bch_sb_field_type"@,
                    "BCH_SB_FIELD"@,
                    listed(hs.format, "BCH_SB_FIELDS"@),
                    "nr"@,
                    "BCH_SB_FIELD_NR"@,
                ),
                generate::newtype_enum_aliases(
                    "disk_accounting_type"@,
                    "BCH_DISK_ACCOUNTING"@,
                    listed(hs.accounting, "BCH_DISK_ACCOUNTING_TYPES"@),
                    "nr"@,
                    "BCH_DISK_ACCOUNTING_TYPE_NR"@,
                ),
                generate::newtype_enum_aliases(
                    "bch_reconcile_accounting_type"@,
                    "BCH_RECONCILE_ACCOUNTING"@,
                    listed(hs.reconcile, "BCH_RECONCILE_ACCOUNTING"@),
                    "nr"@,
                    "BCH_RECONCILE_ACCOUNTING_NR"@,
                ),
            ],
            "\n"@,
        ),
{
    let ts = spec_alias_tables();
    let blocks = Seq::new(10, |i: int| alias_block(hs, ts[i]));
    lemma_blocks_are_joined(hs, ts, blocks);
    assert(blocks == seq![
        generate::newtype_enum_aliases(
            "bcachefs_metadata_version"@,
            "bcachefs_metadata_version"@,
            listed(hs.format, "BCH_METADATA_VERSIONS"@),
            "max"@,
            "bcachefs_metadata_version_max"@,
        ),
        generate::newtype_enum_aliases(
            "bch_opt_id"@,
            "Opt"@,
            listed(hs.opts, "BCH_OPTS"@),
            "nr"@,
            "bch2_opts_nr"@,
        ),
        generate::newtype_enum_aliases(
            "btree_id"@,
            "BTREE_ID"@,
            listed(hs.format, "BCH_BTREE_IDS"@),
            "nr"@,
            "BTREE_ID_NR"@,
        ),
        generate::newtype_enum_aliases(
            "bch_bkey_type"@,
            "KEY_TYPE"@,
            listed(hs.format, "BCH_BKEY_TYPES"@),
            "nr"@,
            "KEY_TYPE_MAX"@,
        ),
        generate::newtype_enum_aliases(
            "bch_data_type"@,
            "BCH_DATA"@,
            listed(hs.accounting, "BCH_DATA_TYPES"@),
            "nr"@,
            "BCH_DATA_NR"@,
        ),
        generate::newtype_enum_aliases(
            "bch_compression_type"@,
            "BCH_COMPRESSION_TYPE"@,
            listed(hs.format, "BCH_COMPRESSION_TYPES"@),
            "nr"@,
            "BCH_COMPRESSION_TYPE_NR"@,
        ),
        generate::newtype_enum_aliases(
            "bch_jset_entry_type"@,
            "BCH_JSET_ENTRY"@,
            listed(hs.format, "BCH_JSET_ENTRY_TYPES"@),
            "nr"@,
            "BCH_JSET_ENTRY_NR"@,
        ),
        generate::newtype_enum_aliases(
            "bch_sb_field_type"@,
            "BCH_SB_FIELD"@,
            listed(hs.format, "BCH_SB_FIELDS"@),
            "nr"@,
            "BCH_SB_FIELD_NR"@,
        ),
        generate::newtype_enum_aliases(
            "disk_accounting_type"@,
            "BCH_DISK_ACCOUNTING"@,
            listed(hs.accounting, "BCH_DISK_ACCOUNTING_TYPES"@),
            "nr"@,
            "BCH_DISK_ACCOUNTING_TYPE_NR"@,
        ),
        generate::newtype_enum_aliases(
            "bch_reconcile_accounting_type"@,
            "BCH_RECONCILE_ACCOUNTING"@,
            listed(hs.reconcile, "BCH_RECONCILE_ACCOUNTING"@),
            "nr"@,
            "BCH_RECONCILE_ACCOUNTING_NR"@,
        ),
    ]);
}

proof fn lemma_blocks_are_joined(hs: Headers, ts: Seq<AliasTable>, blocks: Seq<Seq<char>>)
    requires
        blocks.len() == ts.len(),
        forall|i: int| 0 <= i < ts.len() ==> #[trigger] blocks[i] == alias_block(hs, ts[i]),
    ensures
        alias_blocks(hs, ts) == text::joined(blocks, "\n"@),
    decreases ts.len(),
{
    if ts.len() > 1 {
        assert forall|i: int| 0 <= i < ts.skip(1).len() implies #[trigger] blocks.skip(1)[i]
            == alias_block(hs, ts.skip(1)[i]) by {
            assert(blocks[i + 1] == alias_block(hs, ts[i + 1]));
        }
        lemma_blocks_are_joined(hs, ts.skip(1), blocks.skip(1));
    }
}

/// Each generated file has its name.
pub proof fn law_files_have_their_names()
    ensures
        OutFile::Errcodes.spec_file_name()@ == "errcodes_gen.rs"@,
        OutFile::BkeyTypes.spec_file_name()@ == "bkey_types_gen.rs"@,
        OutFile::SbFields.spec_file_name()@ == "sb_field_types_gen.rs"@,
        OutFile::MemberStates.spec_file_name()@ == "member_states_gen.rs"@,
        OutFile::Counters.spec_file_name()@ == "counters_gen.rs"@,
        OutFile::ExtentEntryTypes.spec_file_name()@ == "extent_entry_types_gen.rs"@,
        OutFile::EnumAliases.spec_file_name()@ == "newtype_enum_aliases_gen.rs"@,
        OutFile::BtreeIds.spec_file_name()@ == "btree_ids_gen.rs"@,
{
}

/// Each header is found below the source directory, and messages call it by the end of its path.
pub proof fn law_headers_have_their_paths()
    ensures
        Header::Format.spec_path()@ == "bcachefs_format.h"@,
        Header::Errcode.spec_path()@ == "errcode.h"@,
        Header::Members.spec_path()@ == "sb/members_format.h"@,
        Header::Counters.spec_path()@ == "sb/counters_format.h"@,
        Header::Extents.spec_path()@ == "data/extents_format.h"@,
        Header::Accounting.spec_path()@ == "alloc/accounting_format.h"@,
        Header::Reconcile.spec_path()@ == "data/reconcile/format.h"@,
        Header::Opts.spec_path()@ == "opts.h"@,
        Failure::Unreadable(Header::Format).message() == "reading bcachefs_format.h"@,
        Failure::Unreadable(Header::Errcode).message() == "reading errcode.h"@,
        Failure::Unreadable(Header::Members).message() == "reading members_format.h"@,
        Failure::Unreadable(Header::Counters).message() == "reading counters_format.h"@,
        Failure::Unreadable(Header::Extents).message() == "reading extents_format.h"@,
        Failure::Unreadable(Header::Accounting).message() == "reading accounting_format.h"@,
        Failure::Unreadable(Header::Reconcile).message() == "reading reconcile/format.h"@,
        Failure::Unreadable(Header::Opts).message() == "reading opts.h"@,
{
    reveal_strlit("reading ");
    reveal_strlit("bcachefs_format.h");
    reveal_strlit("reading bcachefs_format.h");
    assert("reading "@ + "bcachefs_format.h"@ == "reading bcachefs_format.h"@);
    reveal_strlit("errcode.h");
    reveal_strlit("reading errcode.h");
    assert("reading "@ + "errcode.h"@ == "reading errcode.h"@);
    reveal_strlit("members_format.h");
    reveal_strlit("reading members_format.h");
    assert("reading "@ + "members_format.h"@ == "reading members_format.h"@);
    reveal_strlit("counters_format.h");
    reveal_strlit("reading counters_format.h");
    assert("reading "@ + "counters_format.h"@ == "reading counters_format.h"@);
    reveal_strlit("extents_format.h");
    reveal_strlit("reading extents_format.h");
    assert("reading "@ + "extents_format.h"@ == "reading extents_format.h"@);
    reveal_strlit("accounting_format.h");
    reveal_strlit("reading accounting_format.h");
    assert("reading "@ + "accounting_format.h"@ == "reading accounting_format.h"@);
    reveal_strlit("reconcile/format.h");
    reveal_strlit("reading reconcile/format.h");
    assert("reading "@ + "reconcile/format.h"@ == "reading reconcile/format.h"@);
    reveal_strlit("opts.h");
    reveal_strlit("reading opts.h");
    assert("reading "@ + "opts.h"@ == "reading opts.h"@);
}

/// The message of an x-macro without entries names the macro.
pub proof fn law_missing_entries_name_the_macro(m: Xmacro)
    ensures
        Failure::NoEntries(m).message() == "failed to parse "@ + (match m {
            Xmacro::Errcodes => "BCH_ERRCODES"@,
            Xmacro::BkeyTypes => "BCH_BKEY_TYPES"@,
            Xmacro::SbFields => "BCH_SB_FIELDS"@,
            Xmacro::MemberStates => "BCH_MEMBER_STATES"@,
            Xmacro::Counters => "BCH_PERSISTENT_COUNTERS"@,
            Xmacro::ExtentEntryTypes => "BCH_EXTENT_ENTRY_TYPES"@,
            Xmacro::DiskAccountingTypes => "BCH_DISK_ACCOUNTING_TYPES"@,
            Xmacro::ReconcileAccounting => "BCH_RECONCILE_ACCOUNTING"@,
            Xmacro::DataTypes => "BCH_DATA_TYPES"@,
            Xmacro::MetadataVersions => "BCH_METADATA_VERSIONS"@,
            Xmacro::CompressionTypes => "BCH_COMPRESSION_TYPES"@,
            Xmacro::JsetEntryTypes => "BCH_JSET_ENTRY_TYPES"@,
            Xmacro::BtreeIds => "BCH_BTREE_IDS"@,
            Xmacro::Opts => "BCH_OPTS"@,
        }) + "()"@,
{
}

/// Whether each of the entries has `n` arguments or more.
pub open spec fn long_enough(es: Seq<Seq<Seq<char>>>, n: int) -> bool {
    forall|i: int| 0 <= i < es.len() ==> (#[trigger] es[i]).len() >= n
}

/// Whether every type that gets short names is listed with a name in each entry.
pub open spec fn all_named(hs: Headers) -> bool {
    &&& long_enough(listed(hs.format, "BCH_METADATA_VERSIONS"@), 1)
    &&& long_enough(listed(hs.opts, "BCH_OPTS"@), 1)
    &&& long_enough(listed(hs.format, "BCH_BTREE_IDS"@), 1)
    &&& long_enough(listed(hs.format, "BCH_BKEY_TYPES"@), 1)
    &&& long_enough(listed(hs.accounting, "BCH_DATA_TYPES"@), 1)
    &&& long_enough(listed(hs.format, "BCH_COMPRESSION_TYPES"@), 1)
    &&& long_enough(listed(hs.format, "BCH_JSET_ENTRY_TYPES"@), 1)
    &&& long_enough(listed(hs.format, "BCH_SB_FIELDS"@), 1)
    &&& long_enough(listed(hs.accounting, "BCH_DISK_ACCOUNTING_TYPES"@), 1)
    &&& long_enough(listed(hs.reconcile, "BCH_RECONCILE_ACCOUNTING"@), 1)
}

/// What the generation comes to, given whether it fails at the first of these: why it fails, and how
/// many of the files are written before that. Headers are read when they are needed, and a file is
/// written as soon as its entries are there.
pub open spec fn outcome(hs: Headers) -> (Option<Failure>, int) {
    if hs.format is None {
        (Some(Failure::Unreadable(Header::Format)), 0)
    } else if hs.errcode is None {
        (Some(Failure::Unreadable(Header::Errcode)), 0)
    } else if listed(hs.errcode, "BCH_ERRCODES"@).len() == 0 {
        (Some(Failure::NoEntries(Xmacro::Errcodes)), 0)
    } else if listed(hs.format, "BCH_BKEY_TYPES"@).len() == 0 {
        (Some(Failure::NoEntries(Xmacro::BkeyTypes)), 1)
    } else if !long_enough(listed(hs.format, "BCH_BKEY_TYPES"@), 2) {
        (Some(Failure::ShortEntry(OutFile::BkeyTypes)), 1)
    } else if listed(hs.format, "BCH_SB_FIELDS"@).len() == 0 {
        (Some(Failure::NoEntries(Xmacro::SbFields)), 2)
    } else if !long_enough(listed(hs.format, "BCH_SB_FIELDS"@), 1) {
        (Some(Failure::ShortEntry(OutFile::SbFields)), 2)
    } else if hs.members is None {
        (Some(Failure::Unreadable(Header::Members)), 3)
    } else if listed(hs.members, "BCH_MEMBER_STATES"@).len() == 0 {
        (Some(Failure::NoEntries(Xmacro::MemberStates)), 3)
    } else if !long_enough(listed(hs.members, "BCH_MEMBER_STATES"@), 1) {
        (Some(Failure::ShortEntry(OutFile::MemberStates)), 3)
    } else if hs.counters is None {
        (Some(Failure::Unreadable(Header::Counters)), 4)
    } else if listed(hs.counters, "BCH_PERSISTENT_COUNTERS"@).len() == 0 {
        (Some(Failure::NoEntries(Xmacro::Counters)), 4)
    } else if !long_enough(listed(hs.counters, "BCH_PERSISTENT_COUNTERS"@), 3) {
        (Some(Failure::ShortEntry(OutFile::Counters)), 4)
    } else if hs.extents is None {
        (Some(Failure::Unreadable(Header::Extents)), 5)
    } else if listed(hs.extents, "BCH_EXTENT_ENTRY_TYPES"@).len() == 0 {
        (Some(Failure::NoEntries(Xmacro::ExtentEntryTypes)), 5)
    } else if !long_enough(listed(hs.extents, "BCH_EXTENT_ENTRY_TYPES"@), 2) {
        (Some(Failure::ShortEntry(OutFile::ExtentEntryTypes)), 5)
    } else if hs.accounting is None {
        (Some(Failure::Unreadable(Header::Accounting)), 6)
    } else if listed(hs.accounting, "BCH_DISK_ACCOUNTING_TYPES"@).len() == 0 {
        (Some(Failure::NoEntries(Xmacro::DiskAccountingTypes)), 6)
    } else if hs.reconcile is None {
        (Some(Failure::Unreadable(Header::Reconcile)), 6)
    } else if listed(hs.reconcile, "BCH_RECONCILE_ACCOUNTING"@).len() == 0 {
        (Some(Failure::NoEntries(Xmacro::ReconcileAccounting)), 6)
    } else if listed(hs.accounting, "BCH_DATA_TYPES"@).len() == 0 {
        (Some(Failure::NoEntries(Xmacro::DataTypes)), 6)
    } else if listed(hs.format, "BCH_METADATA_VERSIONS"@).len() == 0 {
        (Some(Failure::NoEntries(Xmacro::MetadataVersions)), 6)
    } else if listed(hs.format, "BCH_COMPRESSION_TYPES"@).len() == 0 {
        (Some(Failure::NoEntries(Xmacro::CompressionTypes)), 6)
    } else if listed(hs.format, "BCH_JSET_ENTRY_TYPES"@).len() == 0 {
        (Some(Failure::NoEntries(Xmacro::JsetEntryTypes)), 6)
    } else if listed(hs.format, "BCH_BTREE_IDS"@).len() == 0 {
        (Some(Failure::NoEntries(Xmacro::BtreeIds)), 6)
    } else if hs.opts is None {
        (Some(Failure::Unreadable(Header::Opts)), 6)
    } else if listed(hs.opts, "BCH_OPTS"@).len() == 0 {
        (Some(Failure::NoEntries(Xmacro::Opts)), 6)
    } else if !all_named(hs) {
        (Some(Failure::ShortEntry(OutFile::EnumAliases)), 6)
    } else {
        (None, 8)
    }
}

/// The generation fails for the first reason there is, in the order in which the headers are read and
/// the files are written; the files that come before are written, and no others.
#[verifier::rlimit(60)]
pub proof fn law_generation_stops_at_the_first_failure(hs: Headers)
    ensures
        first_failure(hs, spec_steps()) == outcome(hs).0,
        written(hs, spec_steps()) == seq![
            OutFile::Errcodes,
            OutFile::BkeyTypes,
            OutFile::SbFields,
            OutFile::MemberStates,
            OutFile::Counters,
            OutFile::ExtentEntryTypes,
            OutFile::EnumAliases,
            OutFile::BtreeIds,
        ].take(outcome(hs).1),
{
    let ss = spec_steps();
    let fs = seq![
        OutFile::Errcodes,
        OutFile::BkeyTypes,
        OutFile::SbFields,
        OutFile::MemberStates,
        OutFile::Counters,
        OutFile::ExtentEntryTypes,
        OutFile::EnumAliases,
        OutFile::BtreeIds,
    ];
    lemma_short_names_writable(hs);
    lemma_files_before();
    assert(fs == all_files());
    if step_failure(hs, ss[0]) is Some {
        lemma_stops_at(hs, ss, 0);
    } else if step_failure(hs, ss[1]) is Some {
        lemma_stops_at(hs, ss, 1);
    } else if step_failure(hs, ss[2]) is Some {
        lemma_stops_at(hs, ss, 2);
    } else if step_failure(hs, ss[3]) is Some {
        lemma_stops_at(hs, ss, 3);
    } else if step_failure(hs, ss[4]) is Some {
        lemma_stops_at(hs, ss, 4);
    } else if step_failure(hs, ss[5]) is Some {
        lemma_stops_at(hs, ss, 5);
    } else if step_failure(hs, ss[6]) is Some {
        lemma_stops_at(hs, ss, 6);
    } else if step_failure(hs, ss[7]) is Some {
        lemma_stops_at(hs, ss, 7);
    } else if step_failure(hs, ss[8]) is Some {
        lemma_stops_at(hs, ss, 8);
    } else if step_failure(hs, ss[9]) is Some {
        lemma_stops_at(hs, ss, 9);
    } else if step_failure(hs, ss[10]) is Some {
        lemma_stops_at(hs, ss, 10);
    } else if step_failure(hs, ss[11]) is Some {
        lemma_stops_at(hs, ss, 11);
    } else if step_failure(hs, ss[12]) is Some {
        lemma_stops_at(hs, ss, 12);
    } else if step_failure(hs, ss[13]) is Some {
        lemma_stops_at(hs, ss, 13);
    } else if step_failure(hs, ss[14]) is Some {
        lemma_stops_at(hs, ss, 14);
    } else if step_failure(hs, ss[15]) is Some {
        lemma_stops_at(hs, ss, 15);
    } else if step_failure(hs, ss[16]) is Some {
        lemma_stops_at(hs, ss, 16);
    } else if step_failure(hs, ss[17]) is Some {
        lemma_stops_at(hs, ss, 17);
    } else if step_failure(hs, ss[18]) is Some {
        lemma_stops_at(hs, ss, 18);
    } else if step_failure(hs, ss[19]) is Some {
        lemma_stops_at(hs, ss, 19);
    } else if step_failure(hs, ss[20]) is Some {
        lemma_stops_at(hs, ss, 20);
    } else if step_failure(hs, ss[21]) is Some {
        lemma_stops_at(hs, ss, 21);
    } else if step_failure(hs, ss[22]) is Some {
        lemma_stops_at(hs, ss, 22);
    } else if step_failure(hs, ss[23]) is Some {
        lemma_stops_at(hs, ss, 23);
    } else if step_failure(hs, ss[24]) is Some {
        lemma_stops_at(hs, ss, 24);
    } else if step_failure(hs, ss[25]) is Some {
        lemma_stops_at(hs, ss, 25);
    } else if step_failure(hs, ss[26]) is Some {
        lemma_stops_at(hs, ss, 26);
    } else if step_failure(hs, ss[27]) is Some {
        lemma_stops_at(hs, ss, 27);
    } else if step_failure(hs, ss[28]) is Some {
        lemma_stops_at(hs, ss, 28);
    } else if step_failure(hs, ss[29]) is Some {
        lemma_stops_at(hs, ss, 29);
    } else {
        lemma_stops_at(hs, ss, 30);
    }
}

spec fn all_files() -> Seq<OutFile> {
    seq![
        OutFile::Errcodes,
        OutFile::BkeyTypes,
        OutFile::SbFields,
        OutFile::MemberStates,
        OutFile::Counters,
        OutFile::ExtentEntryTypes,
        OutFile::EnumAliases,
        OutFile::BtreeIds,
    ]
}

proof fn lemma_files_before()
    ensures
        written_files(spec_steps().take(0)) == all_files().take(0),
        written_files(spec_steps().take(1)) == all_files().take(0),
        written_files(spec_steps().take(2)) == all_files().take(0),
        written_files(spec_steps().take(3)) == all_files().take(0),
        written_files(spec_steps().take(4)) == all_files().take(1),
        written_files(spec_steps().take(5)) == all_files().take(1),
        written_files(spec_steps().take(6)) == all_files().take(2),
        written_files(spec_steps().take(7)) == all_files().take(2),
        written_files(spec_steps().take(8)) == all_files().take(3),
        written_files(spec_steps().take(9)) == all_files().take(3),
        written_files(spec_steps().take(10)) == all_files().take(3),
        written_files(spec_steps().take(11)) == all_files().take(4),
        written_files(spec_steps().take(12)) == all_files().take(4),
        written_files(spec_steps().take(13)) == all_files().take(4),
        written_files(spec_steps().take(14)) == all_files().take(5),
        written_files(spec_steps().take(15)) == all_files().take(5),
        written_files(spec_steps().take(16)) == all_files().take(5),
        written_files(spec_steps().take(17)) == all_files().take(6),
        written_files(spec_steps().take(18)) == all_files().take(6),
        written_files(spec_steps().take(19)) == all_files().take(6),
        written_files(spec_steps().take(20)) == all_files().take(6),
        written_files(spec_steps().take(21)) == all_files().take(6),
        written_files(spec_steps().take(22)) == all_files().take(6),
        written_files(spec_steps().take(23)) == all_files().take(6),
        written_files(spec_steps().take(24)) == all_files().take(6),
        written_files(spec_steps().take(25)) == all_files().take(6),
        written_files(spec_steps().take(26)) == all_files().take(6),
        written_files(spec_steps().take(27)) == all_files().take(6),
        written_files(spec_steps().take(28)) == all_files().take(6),
        written_files(spec_steps().take(29)) == all_files().take(7),
        written_files(spec_steps().take(30)) == all_files().take(8),
{
    let ss = spec_steps();
    let fs = all_files();
    assert(ss.take(0) == Seq::<Step>::empty());
    lemma_files_of_more_steps(ss, 0);
    assert(written_files(ss.take(1)) == fs.take(0));
    lemma_files_of_more_steps(ss, 1);
    assert(written_files(ss.take(2)) == fs.take(0));
    lemma_files_of_more_steps(ss, 2);
    assert(written_files(ss.take(3)) == fs.take(0));
    lemma_files_of_more_steps(ss, 3);
    assert(written_files(ss.take(4)) == fs.take(1));
    lemma_files_of_more_steps(ss, 4);
    assert(written_files(ss.take(5)) == fs.take(1));
    lemma_files_of_more_steps(ss, 5);
    assert(written_files(ss.take(6)) == fs.take(2));
    lemma_files_of_more_steps(ss, 6);
    assert(written_files(ss.take(7)) == fs.take(2));
    lemma_files_of_more_steps(ss, 7);
    assert(written_files(ss.take(8)) == fs.take(3));
    lemma_files_of_more_steps(ss, 8);
    assert(written_files(ss.take(9)) == fs.take(3));
    lemma_files_of_more_steps(ss, 9);
    assert(written_files(ss.take(10)) == fs.take(3));
    lemma_files_of_more_steps(ss, 10);
    assert(written_files(ss.take(11)) == fs.take(4));
    lemma_files_of_more_steps(ss, 11);
    assert(written_files(ss.take(12)) == fs.take(4));
    lemma_files_of_more_steps(ss, 12);
    assert(written_files(ss.take(13)) == fs.take(4));
    lemma_files_of_more_steps(ss, 13);
    assert(written_files(ss.take(14)) == fs.take(5));
    lemma_files_of_more_steps(ss, 14);
    assert(written_files(ss.take(15)) == fs.take(5));
    lemma_files_of_more_steps(ss, 15);
    assert(written_files(ss.take(16)) == fs.take(5));
    lemma_files_of_more_steps(ss, 16);
    assert(written_files(ss.take(17)) == fs.take(6));
    lemma_files_of_more_steps(ss, 17);
    assert(written_files(ss.take(18)) == fs.take(6));
    lemma_files_of_more_steps(ss, 18);
    assert(written_files(ss.take(19)) == fs.take(6));
    lemma_files_of_more_steps(ss, 19);
    assert(written_files(ss.take(20)) == fs.take(6));
    lemma_files_of_more_steps(ss, 20);
    assert(written_files(ss.take(21)) == fs.take(6));
    lemma_files_of_more_steps(ss, 21);
    assert(written_files(ss.take(22)) == fs.take(6));
    lemma_files_of_more_steps(ss, 22);
    assert(written_files(ss.take(23)) == fs.take(6));
    lemma_files_of_more_steps(ss, 23);
    assert(written_files(ss.take(24)) == fs.take(6));
    lemma_files_of_more_steps(ss, 24);
    assert(written_files(ss.take(25)) == fs.take(6));
    lemma_files_of_more_steps(ss, 25);
    assert(written_files(ss.take(26)) == fs.take(6));
    lemma_files_of_more_steps(ss, 26);
    assert(written_files(ss.take(27)) == fs.take(6));
    lemma_files_of_more_steps(ss, 27);
    assert(written_files(ss.take(28)) == fs.take(6));
    lemma_files_of_more_steps(ss, 28);
    assert(written_files(ss.take(29)) == fs.take(7));
    lemma_files_of_more_steps(ss, 29);
    assert(written_files(ss.take(30)) == fs.take(8));
}

proof fn lemma_short_names_writable(hs: Headers)
    ensures
        writable(hs, OutFile::EnumAliases) == all_named(hs),
{
    let ts = spec_alias_tables();
    if all_named(hs) {
        assert forall|i: int| 0 <= i < ts.len() implies entries_have(
            hs,
            (#[trigger] ts[i]).xmacro,
            1,
        ) by {}
    }
    if writable(hs, OutFile::EnumAliases) {
        assert(entries_have(hs, ts[0].xmacro, 1));
        assert(entries_have(hs, ts[1].xmacro, 1));
        assert(entries_have(hs, ts[2].xmacro, 1));
        assert(entries_have(hs, ts[3].xmacro, 1));
        assert(entries_have(hs, ts[4].xmacro, 1));
        assert(entries_have(hs, ts[5].xmacro, 1));
        assert(entries_have(hs, ts[6].xmacro, 1));
        assert(entries_have(hs, ts[7].xmacro, 1));
        assert(entries_have(hs, ts[8].xmacro, 1));
        assert(entries_have(hs, ts[9].xmacro, 1));
    }
}

proof fn lemma_files_of_more_steps(ss: Seq<Step>, k: int)
    requires
        0 <= k < ss.len(),
    ensures
        written_files(ss.take(k + 1)) == written_files(ss.take(k)) + (match ss[k] {
            Step::Write(f) => seq![f],
            _ => Seq::empty(),
        }),
    decreases ss.len(),
{
    let a = ss.take(k);
    let b = ss.take(k + 1);
    if k == 0 {
        assert(b.skip(1) == Seq::<Step>::empty());
        assert(written_files(b.skip(1)) == Seq::<OutFile>::empty());
        assert(written_files(a) == Seq::<OutFile>::empty());
    } else {
        lemma_files_of_more_steps(ss.skip(1), k - 1);
        assert(a.skip(1) == ss.skip(1).take(k - 1));
        assert(b.skip(1) == ss.skip(1).take(k));
        assert(ss.skip(1)[k - 1] == ss[k]);
    }
}

proof fn lemma_stops_at(hs: Headers, ss: Seq<Step>, k: int)
    requires
        0 <= k <= ss.len(),
        forall|j: int| 0 <= j < k ==> step_failure(hs, #[trigger] ss[j]) is None,
        k < ss.len() ==> step_failure(hs, ss[k]) is Some,
    ensures
        first_failure(hs, ss) == (if k < ss.len() {
            step_failure(hs, ss[k])
        } else {
            None
        }),
        written(hs, ss) == written_files(ss.take(k)),
    decreases ss.len(),
{
    if k > 0 {
        assert(step_failure(hs, ss[0]) is None);
        let rest = ss.skip(1);
        assert forall|j: int| 0 <= j < k - 1 implies step_failure(hs, #[trigger] rest[j]) is None by {
            assert(rest[j] == ss[j + 1]);
        }
        lemma_stops_at(hs, rest, k - 1);
        assert(ss.take(k).skip(1) == rest.take(k - 1));
    }
}

/// The files that are handed over are those that are written, in order, each with its whole text.
pub proof fn law_files_are_handed_over_whole(
    hs: Headers,
    files: Seq<GeneratedFile>,
    fs: Seq<OutFile>,
    i: int,
)
    requires
        holds_files(hs, files, fs),
    ensures
        files.len() == fs.len(),
        0 <= i < fs.len() ==> files[i].file == fs[i] && files[i].text@ == file_text(hs, fs[i]),
{
}

} // verus!
