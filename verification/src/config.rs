//! Versioned configuration records of a basis and of a system.
//!
//! A record on disk is an envelope: a version tag around the fields of
//! that version. A reader looks at the tag first and refuses a tag it does
//! not know; a writer always writes the latest version. The envelope is
//! kept as plain text here; turning it into a file format and back is left
//! to the configuration store.

use vstd::prelude::*;
use crate::text::{bytes_eq, copy_of, text_of};

verus! {

/// The architecture that a basis is made for.
#[derive(Debug, Clone, Copy, PartialEq, Eq)]
pub enum Arch {
    Win32,
    Win64,
}

/// The first version of a basis configuration.
#[derive(Debug, Clone, Copy, PartialEq, Eq)]
pub struct BasisConfigV1 {
    pub arch: Arch,
}

/// A basis configuration of any version.
#[derive(Debug, Clone, Copy, PartialEq, Eq)]
pub enum BasisConfig {
    V1(BasisConfigV1),
}

/// The first version of a system configuration.
#[derive(Debug, Clone, PartialEq, Eq)]
pub struct SystemConfigV1 {
    /// The name of the basis that the system is laid over.
    pub basis_name: Vec<u8>,
}

/// A system configuration of any version.
#[derive(Debug, Clone, PartialEq, Eq)]
pub enum SystemConfig {
    V1(SystemConfigV1),
}

/// Why a configuration could not be read.
#[derive(Debug, Clone, Copy, PartialEq, Eq)]
pub enum ConfigError {
    /// There is no record.
    ConfigMissing,
    /// The record cannot be read, or a field of it is absent or holds
    /// what its version does not allow.
    ConfigParseError,
    /// The record carries a version tag that is not known here.
    UnknownSchemaVersion,
}

/// One named field of a record.
#[derive(Debug, Clone, PartialEq, Eq)]
pub struct Field {
    pub name: Vec<u8>,
    pub value: Vec<u8>,
}

/// A version tag and the fields that it wraps.
#[derive(Debug, Clone, PartialEq, Eq)]
pub struct Record {
    pub tag: Vec<u8>,
    pub fields: Vec<Field>,
}

/// What the configuration store found at a path.
#[derive(Debug, Clone, PartialEq, Eq)]
pub enum Stored {
    /// A record.
    Found(Record),
    /// Nothing.
    NotFound,
    /// Something that is no record.
    Unreadable,
}

/// A record as plain values: its tag, and its fields as pairs of name and
/// value.
pub struct RecordView {
    pub tag: Seq<u8>,
    pub fields: Seq<(Seq<u8>, Seq<u8>)>,
}

impl View for Record {
    type V = RecordView;

    open spec fn view(&self) -> RecordView {
        RecordView {
            tag: self.tag@,
            fields: Seq::new(
                self.fields@.len(),
                |i: int| (self.fields@[i].name@, self.fields@[i].value@),
            ),
        }
    }
}

/// The tag of the latest, and so far only, version.
pub open spec fn latest_tag() -> Seq<u8> {
    text_of("V1")
}

/// The name of the field that holds the architecture of a basis.
pub open spec fn arch_field() -> Seq<u8> {
    text_of("arch")
}

/// The name of the field that holds the basis of a system.
pub open spec fn basis_name_field() -> Seq<u8> {
    text_of("basis_name")
}

/// How an architecture is written in a record.
pub open spec fn arch_text(arch: Arch) -> Seq<u8> {
    match arch {
        Arch::Win32 => text_of("Win32"),
        Arch::Win64 => text_of("Win64"),
    }
}

/// The architecture that `text` stands for in a record.
pub open spec fn arch_of(text: Seq<u8>) -> Option<Arch> {
    if text == text_of("Win32") {
        Some(Arch::Win32)
    } else if text == text_of("Win64") {
        Some(Arch::Win64)
    } else {
        None
    }
}

/// The value of the first field called `name`.
pub open spec fn field_value(fields: Seq<(Seq<u8>, Seq<u8>)>, name: Seq<u8>) -> Option<Seq<u8>>
    decreases fields.len(),
{
    if fields.len() == 0 {
        None
    } else if fields[0].0 == name {
        Some(fields[0].1)
    } else {
        field_value(fields.drop_first(), name)
    }
}

/// The record that is written for a basis configuration.
pub open spec fn basis_record(config: BasisConfigV1) -> RecordView {
    RecordView { tag: latest_tag(), fields: seq![(arch_field(), arch_text(config.arch))] }
}

/// The record that is written for a system laid over the basis
/// `basis_name`.
pub open spec fn system_record(basis_name: Seq<u8>) -> RecordView {
    RecordView { tag: latest_tag(), fields: seq![(basis_name_field(), basis_name)] }
}

/// What reading a basis configuration from `record` gives.
pub open spec fn basis_of_record(record: RecordView) -> Result<BasisConfigV1, ConfigError> {
    if record.tag != latest_tag() {
        Err(ConfigError::UnknownSchemaVersion)
    } else {
        match field_value(record.fields, arch_field()) {
            Some(text) => match arch_of(text) {
                Some(arch) => Ok(BasisConfigV1 { arch }),
                None => Err(ConfigError::ConfigParseError),
            },
            None => Err(ConfigError::ConfigParseError),
        }
    }
}

/// What reading the basis name of a system from `record` gives.
pub open spec fn system_of_record(record: RecordView) -> Result<Seq<u8>, ConfigError> {
    if record.tag != latest_tag() {
        Err(ConfigError::UnknownSchemaVersion)
    } else {
        match field_value(record.fields, basis_name_field()) {
            Some(name) => Ok(name),
            None => Err(ConfigError::ConfigParseError),
        }
    }
}

/// The record that the store found, or the error that stands for its
/// absence.
pub open spec fn record_of(stored: Stored) -> Result<RecordView, ConfigError> {
    match stored {
        Stored::Found(record) => Ok(record@),
        Stored::NotFound => Err(ConfigError::ConfigMissing),
        Stored::Unreadable => Err(ConfigError::ConfigParseError),
    }
}

/// The architecture of a new basis: the one asked for, else `Win64`.
pub fn arch_or_default(arch: Option<Arch>) -> (res: Arch)
    ensures
        res == match arch {
            Some(a) => a,
            None => Arch::Win64,
        },
{
    match arch {
        Some(a) => a,
        None => Arch::Win64,
    }
}

/// The text of `arch` in a record.
pub fn arch_name(arch: Arch) -> (res: &'static str)
    ensures
        text_of(res) == arch_text(arch),
{
    match arch {
        Arch::Win32 => "Win32",
        Arch::Win64 => "Win64",
    }
}

/// Reads an architecture from the text of a record.
pub fn parse_arch(text: &[u8]) -> (res: Option<Arch>)
    ensures
        res == arch_of(text@),
{
    if bytes_eq(text, "Win32".as_bytes()) {
        Some(Arch::Win32)
    } else if bytes_eq(text, "Win64".as_bytes()) {
        Some(Arch::Win64)
    } else {
        None
    }
}

/// Finds the value of the first field called `name`.
pub fn find_field<'a>(record: &'a Record, name: &[u8]) -> (res: Option<&'a [u8]>)
    ensures
        match res {
            Some(value) => field_value(record@.fields, name@) == Some(value@),
            None => field_value(record@.fields, name@) is None,
        },
{
    let ghost fields = record@.fields;
    let mut i: usize = 0;
    assert(fields.skip(0) =~= fields);
    while i < record.fields.len()
        invariant
            0 <= i <= record.fields@.len(),
            fields == record@.fields,
            fields.len() == record.fields@.len(),
            field_value(fields, name@) == field_value(fields.skip(i as int), name@),
        decreases record.fields@.len() - i,
    {
        let ghost rest = fields.skip(i as int);
        assert(rest[0] == fields[i as int]);
        assert(rest.drop_first() =~= fields.skip(i as int + 1));
        if bytes_eq(record.fields[i].name.as_slice(), name) {
            return Some(record.fields[i].value.as_slice());
        }
        i += 1;
    }
    assert(fields.skip(i as int).len() == 0);
    None
}

impl BasisConfig {
    /// The configuration in its latest version.
    pub fn latest(self) -> (res: BasisConfigV1)
        ensures
            self == BasisConfig::V1(res),
    {
        match self {
            BasisConfig::V1(config) => config,
        }
    }

    /// The configuration of a new basis, in the latest version.
    pub fn new(arch: Option<Arch>) -> (res: BasisConfig)
        ensures
            res == BasisConfig::V1(
                BasisConfigV1 {
                    arch: match arch {
                        Some(a) => a,
                        None => Arch::Win64,
                    },
                },
            ),
    {
        BasisConfig::V1(BasisConfigV1 { arch: arch_or_default(arch) })
    }

    /// The record to write for the configuration: always one of the
    /// latest version.
    pub fn to_record(&self) -> (res: Record)
        ensures
            res@ == basis_record(self.latest_spec()),
    {
        let config = self.latest();
        let mut fields: Vec<Field> = Vec::new();
        fields.push(
            Field { name: copy_of("arch".as_bytes()), value: copy_of(arch_name(config.arch).as_bytes()) },
        );
        let record = Record { tag: copy_of("V1".as_bytes()), fields };
        assert(record@.fields =~= basis_record(config).fields);
        record
    }

    /// The configuration in its latest version.
    pub open spec fn latest_spec(self) -> BasisConfigV1 {
        match self {
            BasisConfig::V1(config) => config,
        }
    }

    /// Reads a basis configuration from what the store found.
    ///
    /// Nothing found is `ConfigMissing` and something unreadable
    /// `ConfigParseError`. Of a record the tag decides first: any tag but
    /// that of a known version is `UnknownSchemaVersion`. Under a known
    /// tag the architecture is read from its field; an absent field, or a
    /// value that names no architecture, is `ConfigParseError`.
    pub fn from_stored(stored: &Stored) -> (res: Result<BasisConfig, ConfigError>)
        ensures
            res == match record_of(*stored) {
                Ok(record) => match basis_of_record(record) {
                    Ok(config) => Ok(BasisConfig::V1(config)),
                    Err(error) => Err(error),
                },
                Err(error) => Err(error),
            },
    {
        match stored {
            Stored::Found(record) => {
                if !bytes_eq(record.tag.as_slice(), "V1".as_bytes()) {
                    return Err(ConfigError::UnknownSchemaVersion);
                }
                match find_field(record, "arch".as_bytes()) {
                    Some(text) => match parse_arch(text) {
                        Some(arch) => Ok(BasisConfig::V1(BasisConfigV1 { arch })),
                        None => Err(ConfigError::ConfigParseError),
                    },
                    None => Err(ConfigError::ConfigParseError),
                }
            },
            Stored::NotFound => Err(ConfigError::ConfigMissing),
            Stored::Unreadable => Err(ConfigError::ConfigParseError),
        }
    }
}

impl SystemConfig {
    /// The name of the basis in the latest version of the configuration.
    pub open spec fn basis_name_spec(self) -> Seq<u8> {
        match self {
            SystemConfig::V1(config) => config.basis_name@,
        }
    }

    /// The configuration in its latest version.
    pub fn latest(self) -> (res: SystemConfigV1)
        ensures
            self == SystemConfig::V1(res),
    {
        match self {
            SystemConfig::V1(config) => config,
        }
    }

    /// The configuration of a new system laid over the basis
    /// `basis_name`, in the latest version.
    pub fn new(basis_name: &[u8]) -> (res: SystemConfig)
        ensures
            res.basis_name_spec() == basis_name@,
    {
        SystemConfig::V1(SystemConfigV1 { basis_name: copy_of(basis_name) })
    }

    /// The record to write for the configuration: always one of the
    /// latest version.
    pub fn to_record(&self) -> (res: Record)
        ensures
            res@ == system_record(self.basis_name_spec()),
    {
        let mut fields: Vec<Field> = Vec::new();
        match self {
            SystemConfig::V1(config) => {
                fields.push(
                    Field {
                        name: copy_of("basis_name".as_bytes()),
                        value: copy_of(config.basis_name.as_slice()),
                    },
                );
            },
        }
        let record = Record { tag: copy_of("V1".as_bytes()), fields };
        assert(record@.fields =~= system_record(self.basis_name_spec()).fields);
        record
    }

    /// Reads a system configuration from what the store found.
    ///
    /// Nothing found is `ConfigMissing` and something unreadable
    /// `ConfigParseError`. Of a record the tag decides first: any tag but
    /// that of a known version is `UnknownSchemaVersion`. Under a known
    /// tag the name of the basis is read from its field; an absent field
    /// is `ConfigParseError`.
    pub fn from_stored(stored: &Stored) -> (res: Result<SystemConfig, ConfigError>)
        ensures
            match record_of(*stored) {
                Ok(record) => match system_of_record(record) {
                    Ok(name) => res matches Ok(config) && config.basis_name_spec() == name,
                    Err(error) => res == Err::<SystemConfig, ConfigError>(error),
                },
                Err(error) => res == Err::<SystemConfig, ConfigError>(error),
            },
    {
        match stored {
            Stored::Found(record) => {
                if !bytes_eq(record.tag.as_slice(), "V1".as_bytes()) {
                    return Err(ConfigError::UnknownSchemaVersion);
                }
                match find_field(record, "basis_name".as_bytes()) {
                    Some(name) => Ok(SystemConfig::new(name)),
                    None => Err(ConfigError::ConfigParseError),
                }
            },
            Stored::NotFound => Err(ConfigError::ConfigMissing),
            Stored::Unreadable => Err(ConfigError::ConfigParseError),
        }
    }
}

/// The two architectures are written differently.
proof fn lemma_arch_texts_differ()
    ensures
        text_of("Win32") != text_of("Win64"),
{
    broadcast use vstd::string::is_ascii_spec_bytes;

    reveal_strlit("Win32");
    reveal_strlit("Win64");
    assert(vstd::string::is_ascii("Win32"));
    assert(vstd::string::is_ascii("Win64"));
    assert(text_of("Win32")[3] != text_of("Win64")[3]);
}

/// A basis configuration that is written and read back is unchanged.
pub proof fn lemma_basis_config_round_trip(config: BasisConfigV1)
    ensures
        basis_of_record(basis_record(config)) == Ok::<BasisConfigV1, ConfigError>(config),
{
    lemma_arch_texts_differ();
    let fields = basis_record(config).fields;
    assert(fields[0].0 == arch_field());
}

/// A system configuration that is written and read back names the same
/// basis.
pub proof fn lemma_system_config_round_trip(basis_name: Seq<u8>)
    ensures
        system_of_record(system_record(basis_name)) == Ok::<Seq<u8>, ConfigError>(basis_name),
{
    let fields = system_record(basis_name).fields;
    assert(fields[0].0 == basis_name_field());
}

/// A record under any tag but that of a known version is refused as of an
/// unknown version, whatever its fields hold.
pub proof fn lemma_unknown_version_refused(record: RecordView)
    requires
        record.tag != latest_tag(),
    ensures
        basis_of_record(record) == Err::<BasisConfigV1, ConfigError>(
            ConfigError::UnknownSchemaVersion,
        ),
        system_of_record(record) == Err::<Seq<u8>, ConfigError>(ConfigError::UnknownSchemaVersion),
{
}

} // verus!
