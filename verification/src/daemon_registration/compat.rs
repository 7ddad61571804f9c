//! First-generation registration records for applications: cache manifests and
//! service definitions, without endpoint or product policy.

use crate::daemon_registration::service_definition::{
    bare_definition, service_definition_dir, version_texts, BrokerIsolation, DefinitionModel,
    DefinitionRecord, ServiceDefinitionError,
};
use crate::daemon_registration::validation::{quoted, quoted_text, PipePathError};
use crate::errors::IoFailure;
use crate::native_path::{below, lossy_text, NativePath};
use crate::text::{append_decimal, decimal};
use crate::wire::copy_bytes;
use vstd::prelude::*;
use vstd::string::*;

verus! {

/// Category of a cache root.
#[derive(Clone, Copy, Debug, PartialEq, Eq, Structural)]
pub enum CacheRootKind {
    /// Durable artifacts.
    CacheData,
    /// Index of dependencies or artifacts.
    CacheIndex,
    /// Log files.
    CacheLogs,
    /// Lock files.
    CacheLocks,
    /// Temporary files.
    CacheTmp,
    /// A number without a category.
    Unknown(i32),
}

/// The numbers of the categories in a record.
#[derive(Clone, Copy, Debug, PartialEq, Eq, Structural)]
pub struct RootKindNumbers {
    /// Number of [`CacheRootKind::CacheData`].
    pub cache_data: i32,
    /// Number of [`CacheRootKind::CacheIndex`].
    pub cache_index: i32,
    /// Number of [`CacheRootKind::CacheLogs`].
    pub cache_logs: i32,
    /// Number of [`CacheRootKind::CacheLocks`].
    pub cache_locks: i32,
    /// Number of [`CacheRootKind::CacheTmp`].
    pub cache_tmp: i32,
}

impl RootKindNumbers {
    /// Whether no two categories share a number.
    pub open spec fn distinct(self) -> bool {
        &&& self.cache_data != self.cache_index
        &&& self.cache_data != self.cache_logs
        &&& self.cache_data != self.cache_locks
        &&& self.cache_data != self.cache_tmp
        &&& self.cache_index != self.cache_logs
        &&& self.cache_index != self.cache_locks
        &&& self.cache_index != self.cache_tmp
        &&& self.cache_logs != self.cache_locks
        &&& self.cache_logs != self.cache_tmp
        &&& self.cache_locks != self.cache_tmp
    }

    /// Whether a number has a category.
    pub open spec fn assigns(self, value: i32) -> bool {
        value == self.cache_data || value == self.cache_index || value == self.cache_logs || value
            == self.cache_locks || value == self.cache_tmp
    }
}

impl CacheRootKind {
    /// The number of this category in a record.
    pub open spec fn number(self, numbers: RootKindNumbers) -> i32 {
        match self {
            CacheRootKind::CacheData => numbers.cache_data,
            CacheRootKind::CacheIndex => numbers.cache_index,
            CacheRootKind::CacheLogs => numbers.cache_logs,
            CacheRootKind::CacheLocks => numbers.cache_locks,
            CacheRootKind::CacheTmp => numbers.cache_tmp,
            CacheRootKind::Unknown(value) => value,
        }
    }

    /// The category of a number in a record; a number without one is kept.
    pub fn from_backend(value: i32, numbers: RootKindNumbers) -> (k: CacheRootKind)
        ensures
            k.number(numbers) == value,
            k is Unknown <==> !numbers.assigns(value),
    {
        if value == numbers.cache_data {
            CacheRootKind::CacheData
        } else if value == numbers.cache_index {
            CacheRootKind::CacheIndex
        } else if value == numbers.cache_logs {
            CacheRootKind::CacheLogs
        } else if value == numbers.cache_locks {
            CacheRootKind::CacheLocks
        } else if value == numbers.cache_tmp {
            CacheRootKind::CacheTmp
        } else {
            CacheRootKind::Unknown(value)
        }
    }

    /// The number of this category in a record.
    pub fn into_backend(self, numbers: RootKindNumbers) -> (value: i32)
        ensures
            value == self.number(numbers),
    {
        match self {
            CacheRootKind::CacheData => numbers.cache_data,
            CacheRootKind::CacheIndex => numbers.cache_index,
            CacheRootKind::CacheLogs => numbers.cache_logs,
            CacheRootKind::CacheLocks => numbers.cache_locks,
            CacheRootKind::CacheTmp => numbers.cache_tmp,
            CacheRootKind::Unknown(value) => value,
        }
    }
}

/// A category survives the way into a record and back, unless it is a number that
/// stands for another category.
pub proof fn law_root_kinds_survive(
    kind: CacheRootKind,
    back: CacheRootKind,
    numbers: RootKindNumbers,
)
    requires
        numbers.distinct(),
        kind matches CacheRootKind::Unknown(value) ==> !numbers.assigns(value),
        back.number(numbers) == kind.number(numbers),
        back is Unknown <==> !numbers.assigns(kind.number(numbers)),
    ensures
        back == kind,
{
}

/// A cache root of a manifest.
#[derive(Clone, Copy, Debug, PartialEq, Eq)]
pub struct CacheRoot<'a> {
    kind: CacheRootKind,
    path: &'a str,
}

impl<'a> CacheRoot<'a> {
    /// Category of this root.
    pub closed spec fn spec_kind(self) -> CacheRootKind {
        self.kind
    }

    /// Path of this root.
    pub closed spec fn spec_path(self) -> Seq<char> {
        self.path@
    }

    /// A root.
    pub fn new(kind: CacheRootKind, path: &'a str) -> (r: CacheRoot<'a>)
        ensures
            r.spec_kind() == kind,
            r.spec_path() == path@,
    {
        CacheRoot { kind, path }
    }

    /// Category of this root.
    pub fn kind(self) -> (k: CacheRootKind)
        ensures
            k == self.spec_kind(),
    {
        self.kind
    }

    /// Path of this root, as it was recorded.
    pub fn path(self) -> (s: &'a str)
        ensures
            s@ == self.spec_path(),
    {
        self.path
    }
}

/// Why a registration was not validated, persisted or read.
#[derive(Clone, Debug, PartialEq, Eq)]
pub enum DaemonRegistrationError {
    /// A filesystem operation failed.
    Io(IoFailure),
    /// A record cannot be decoded.
    MalformedRecord,
    /// The seal of a manifest does not fit.
    ManifestIntegrityFailure,
    /// A manifest is newer than what is supported.
    UnsupportedManifestSchema {
        /// Its schema.
        got: u32,
        /// Newest supported schema.
        supported: u32,
    },
    /// A service name or a version is not valid.
    InvalidNameOrVersion {
        /// Why.
        detail: String,
    },
    /// A path has no parent.
    MissingParent {
        /// The path.
        path: NativePath,
    },
    /// A directory is open to others.
    InsecureDirectory {
        /// The directory.
        path: NativePath,
    },
    /// A record is for another service.
    ServiceNameMismatch {
        /// Service that was asked for.
        requested: String,
        /// Service of the record.
        actual: String,
    },
    /// A path of a service definition is not valid.
    InvalidServicePath {
        /// Name of the field.
        field: &'static str,
        /// Its value.
        path: String,
        /// Why it was rejected.
        reason: &'static str,
    },
    /// The isolation of a service definition is not valid.
    InvalidServiceIsolation {
        /// Why it was rejected.
        reason: &'static str,
    },
    /// A record cannot be encoded.
    Serialization,
}

/// The text about another service, given both names in quotes.
pub open spec fn registration_mismatch_text(requested: Seq<char>, actual: Seq<char>) -> Seq<char> {
    "requested service "@ + requested + ", found "@ + actual
}

/// The text about a path, given the path in quotes.
pub open spec fn registration_path_text(
    field: Seq<char>,
    path: Seq<char>,
    reason: Seq<char>,
) -> Seq<char> {
    "invalid service-definition "@ + field + " "@ + path + ": "@ + reason
}

/// The text about another service, given both names in quotes.
pub fn registration_mismatch_message(requested: &str, actual: &str) -> (s: String)
    ensures
        s@ == registration_mismatch_text(requested@, actual@),
{
    let mut s: String = "requested service ".to_owned();
    s.append(requested);
    s.append(", found ");
    s.append(actual);
    s
}

/// The text about a path, given the path in quotes.
pub fn registration_path_message(field: &str, path: &str, reason: &str) -> (s: String)
    ensures
        s@ == registration_path_text(field@, path@, reason@),
{
    let mut s: String = "invalid service-definition ".to_owned();
    s.append(field);
    s.append(" ");
    s.append(path);
    s.append(": ");
    s.append(reason);
    s
}

impl DaemonRegistrationError {
    /// Text of this error.
    pub open spec fn text(self) -> Seq<char> {
        match self {
            DaemonRegistrationError::Io(failure) => "daemon registration I/O failed: "@
                + failure.text@,
            DaemonRegistrationError::MalformedRecord => "malformed frozen v1 registration record"@,
            DaemonRegistrationError::ManifestIntegrityFailure => "frozen v1 manifest SHA-256 seal did not verify"@,
            DaemonRegistrationError::UnsupportedManifestSchema { got, supported } => "unsupported manifest schema "@
                + decimal(got as nat) + "; supported through "@ + decimal(supported as nat),
            DaemonRegistrationError::InvalidNameOrVersion { detail } => "invalid frozen v1 service name or version: "@
                + detail@,
            DaemonRegistrationError::MissingParent { path } => "registration path has no parent: "@
                + lossy_text(path@),
            DaemonRegistrationError::InsecureDirectory { path } => "registration directory is not owner-private: "@
                + lossy_text(path@),
            DaemonRegistrationError::ServiceNameMismatch { requested, actual } => {
                registration_mismatch_text(quoted_text(requested@), quoted_text(actual@))
            },
            DaemonRegistrationError::InvalidServicePath { field, path, reason } => {
                registration_path_text(field@, quoted_text(path@), reason@)
            },
            DaemonRegistrationError::InvalidServiceIsolation { reason } => "invalid service-definition isolation: "@
                + reason@,
            DaemonRegistrationError::Serialization => "frozen v1 registration serialization failed"@,
        }
    }

    /// Text of this error.
    pub fn message(&self) -> (s: String)
        ensures
            s@ == self.text(),
    {
        match self {
            DaemonRegistrationError::Io(failure) => {
                let mut s: String = "daemon registration I/O failed: ".to_owned();
                s.append(failure.text.as_str());
                s
            },
            DaemonRegistrationError::MalformedRecord => "malformed frozen v1 registration record".to_owned(),
            DaemonRegistrationError::ManifestIntegrityFailure => "frozen v1 manifest SHA-256 seal did not verify".to_owned(),
            DaemonRegistrationError::UnsupportedManifestSchema { got, supported } => {
                let mut s: String = "unsupported manifest schema ".to_owned();
                append_decimal(&mut s, *got as u128);
                s.append("; supported through ");
                append_decimal(&mut s, *supported as u128);
                s
            },
            DaemonRegistrationError::InvalidNameOrVersion { detail } => {
                let mut s: String = "invalid frozen v1 service name or version: ".to_owned();
                s.append(detail.as_str());
                s
            },
            DaemonRegistrationError::MissingParent { path } => {
                let mut s: String = "registration path has no parent: ".to_owned();
                s.append(path.shown().as_str());
                s
            },
            DaemonRegistrationError::InsecureDirectory { path } => {
                let mut s: String = "registration directory is not owner-private: ".to_owned();
                s.append(path.shown().as_str());
                s
            },
            DaemonRegistrationError::ServiceNameMismatch { requested, actual } => {
                registration_mismatch_message(
                    quoted(requested.as_str()).as_str(),
                    quoted(actual.as_str()).as_str(),
                )
            },
            DaemonRegistrationError::InvalidServicePath { field, path, reason } => {
                registration_path_message(field, quoted(path.as_str()).as_str(), reason)
            },
            DaemonRegistrationError::InvalidServiceIsolation { reason } => {
                let mut s: String = "invalid service-definition isolation: ".to_owned();
                s.append(reason);
                s
            },
            DaemonRegistrationError::Serialization => "frozen v1 registration serialization failed".to_owned(),
        }
    }

    /// The failure of the operating system behind this error.
    pub fn source(&self) -> (r: Option<&IoFailure>)
        ensures
            match *self {
                DaemonRegistrationError::Io(failure) => r is Some && *(r->0) == failure,
                _ => r is None,
            },
    {
        match self {
            DaemonRegistrationError::Io(failure) => Some(failure),
            _ => None,
        }
    }
}

/// Why a manifest was not built, written or read.
#[derive(Clone, Debug, PartialEq, Eq)]
pub enum ManifestError {
    /// A filesystem operation failed.
    Io(IoFailure),
    /// The record cannot be decoded.
    Decode,
    /// The record cannot be encoded.
    Encode,
    /// The seal does not fit.
    Corruption,
    /// The record is newer than what is supported.
    SchemaTooNew {
        /// Its schema.
        got: u32,
        /// Newest supported schema.
        supported: u32,
    },
    /// A service name or a version is not valid.
    InvalidName(PipePathError),
    /// A path has no parent.
    MissingParent(NativePath),
    /// The registry is open to others.
    InsecureRegistry(NativePath),
}

/// Whether a registration error stands for a manifest error.
pub open spec fn registration_error_for(error: ManifestError, e: DaemonRegistrationError) -> bool {
    match error {
        ManifestError::Io(failure) => e == DaemonRegistrationError::Io(failure),
        ManifestError::Decode => e == DaemonRegistrationError::MalformedRecord,
        ManifestError::Encode => e == DaemonRegistrationError::Serialization,
        ManifestError::Corruption => e == DaemonRegistrationError::ManifestIntegrityFailure,
        ManifestError::SchemaTooNew { got, supported } => e
            == (DaemonRegistrationError::UnsupportedManifestSchema { got, supported }),
        ManifestError::InvalidName(inner) => e
            matches DaemonRegistrationError::InvalidNameOrVersion { detail } && detail@
            == inner.text(),
        ManifestError::MissingParent(path) => e == (DaemonRegistrationError::MissingParent { path }),
        ManifestError::InsecureRegistry(path) => e == (DaemonRegistrationError::InsecureDirectory {
            path,
        }),
    }
}

/// The registration error for a manifest error.
pub fn manifest_error(error: ManifestError) -> (e: DaemonRegistrationError)
    ensures
        registration_error_for(error, e),
{
    match error {
        ManifestError::Io(failure) => DaemonRegistrationError::Io(failure),
        ManifestError::Decode => DaemonRegistrationError::MalformedRecord,
        ManifestError::Encode => DaemonRegistrationError::Serialization,
        ManifestError::Corruption => DaemonRegistrationError::ManifestIntegrityFailure,
        ManifestError::SchemaTooNew { got, supported } => {
            DaemonRegistrationError::UnsupportedManifestSchema { got, supported }
        },
        ManifestError::InvalidName(inner) => DaemonRegistrationError::InvalidNameOrVersion {
            detail: inner.message(),
        },
        ManifestError::MissingParent(path) => DaemonRegistrationError::MissingParent { path },
        ManifestError::InsecureRegistry(path) => DaemonRegistrationError::InsecureDirectory { path },
    }
}

/// Whether a registration error stands for a service-definition error.
pub open spec fn definition_error_for(
    error: ServiceDefinitionError,
    e: DaemonRegistrationError,
) -> bool {
    match error {
        ServiceDefinitionError::Io(failure) => e == DaemonRegistrationError::Io(failure),
        ServiceDefinitionError::Decode(_) => e == DaemonRegistrationError::MalformedRecord,
        ServiceDefinitionError::InvalidName(inner) => e
            matches DaemonRegistrationError::InvalidNameOrVersion { detail } && detail@
            == inner.text(),
        ServiceDefinitionError::InsecureDirectory(path) => e
            == (DaemonRegistrationError::InsecureDirectory { path }),
        ServiceDefinitionError::ServiceNameMismatch { requested, actual } => e
            == (DaemonRegistrationError::ServiceNameMismatch { requested, actual }),
        ServiceDefinitionError::InvalidPath { field, path, reason } => e
            == (DaemonRegistrationError::InvalidServicePath { field, path, reason }),
        ServiceDefinitionError::InvalidIsolation { reason } => e
            == (DaemonRegistrationError::InvalidServiceIsolation { reason }),
    }
}

/// The registration error for a service-definition error.
pub fn service_error(error: ServiceDefinitionError) -> (e: DaemonRegistrationError)
    ensures
        definition_error_for(error, e),
{
    match error {
        ServiceDefinitionError::Io(failure) => DaemonRegistrationError::Io(failure),
        ServiceDefinitionError::Decode(_) => DaemonRegistrationError::MalformedRecord,
        ServiceDefinitionError::InvalidName(inner) => {
            DaemonRegistrationError::InvalidNameOrVersion { detail: inner.message() }
        },
        ServiceDefinitionError::InsecureDirectory(path) => {
            DaemonRegistrationError::InsecureDirectory { path }
        },
        ServiceDefinitionError::ServiceNameMismatch { requested, actual } => {
            DaemonRegistrationError::ServiceNameMismatch { requested, actual }
        },
        ServiceDefinitionError::InvalidPath { field, path, reason } => {
            DaemonRegistrationError::InvalidServicePath { field, path, reason }
        },
        ServiceDefinitionError::InvalidIsolation { reason } => {
            DaemonRegistrationError::InvalidServiceIsolation { reason }
        },
    }
}

/// What is stamped into a manifest when it is built.
#[derive(Clone, Debug, PartialEq, Eq)]
pub struct ManifestStamp {
    /// Version of the broker envelope.
    pub broker_envelope_version: String,
    /// Schema of the record.
    pub schema_version: u32,
    /// Media type of the record.
    pub media_type: String,
    /// Time of creation, in milliseconds since the Unix epoch.
    pub created_at_unix_ms: u64,
    /// Time of the last activity, in milliseconds since the Unix epoch.
    pub last_active_unix_ms: u64,
    /// Whether the identity of the host was stamped.
    pub has_host_identity: bool,
}

/// A manifest as it is recorded.
#[derive(Clone, Debug, PartialEq, Eq)]
pub struct ManifestRecord {
    /// Name of the service.
    pub service_name: String,
    /// Version of the service.
    pub service_version: String,
    /// Label of the broker instance.
    pub broker_instance: String,
    /// What was stamped.
    pub stamp: ManifestStamp,
    /// Roots, with the numbers of their categories, in order.
    pub roots: Vec<(i32, String)>,
    /// The seal.
    pub self_sha256: Vec<u8>,
}

/// Builder of a manifest.
#[derive(Clone, Debug, PartialEq, Eq)]
pub struct CacheManifestBuilder {
    service_name: String,
    service_version: String,
    broker_instance: String,
    roots: Vec<(i32, String)>,
}

/// Roots as plain values.
pub open spec fn root_models(roots: Seq<(i32, String)>) -> Seq<(i32, Seq<char>)> {
    roots.map_values(|r: (i32, String)| (r.0, r.1@))
}

/// What a manifest says apart from its stamp and its seal.
#[verifier::ext_equal]
pub struct ManifestModel {
    /// Name of the service.
    pub service_name: Seq<char>,
    /// Version of the service.
    pub service_version: Seq<char>,
    /// Label of the broker instance.
    pub broker_instance: Seq<char>,
    /// Roots, with the numbers of their categories, in order.
    pub roots: Seq<(i32, Seq<char>)>,
}

/// What a record says apart from its stamp and its seal.
pub open spec fn record_model(record: ManifestRecord) -> ManifestModel {
    ManifestModel {
        service_name: record.service_name@,
        service_version: record.service_version@,
        broker_instance: record.broker_instance@,
        roots: root_models(record.roots@),
    }
}

/// What a builder holds at its beginning.
pub open spec fn begun(service_name: Seq<char>, service_version: Seq<char>) -> ManifestModel {
    ManifestModel {
        service_name,
        service_version,
        broker_instance: Seq::empty(),
        roots: Seq::empty(),
    }
}

/// What a builder holds after one more root.
pub open spec fn with_root(
    model: ManifestModel,
    kind: CacheRootKind,
    path: Seq<char>,
    numbers: RootKindNumbers,
) -> ManifestModel {
    ManifestModel { roots: model.roots.push((kind.number(numbers), path)), ..model }
}

/// What a builder holds after several roots, one after the other.
pub open spec fn with_roots(
    model: ManifestModel,
    roots: Seq<(CacheRootKind, Seq<char>)>,
    numbers: RootKindNumbers,
) -> ManifestModel
    decreases roots.len(),
{
    if roots.len() == 0 {
        model
    } else {
        with_root(
            with_roots(model, roots.drop_last(), numbers),
            roots.last().0,
            roots.last().1,
            numbers,
        )
    }
}

/// Whether `root` is what a recorded root reads back as.
pub open spec fn reads_root<'a>(
    root: CacheRoot<'a>,
    recorded: (i32, Seq<char>),
    numbers: RootKindNumbers,
) -> bool {
    &&& root.spec_path() == recorded.1
    &&& root.spec_kind().number(numbers) == recorded.0
    &&& root.spec_kind() is Unknown <==> !numbers.assigns(recorded.0)
}

proof fn lemma_with_roots_at(
    model: ManifestModel,
    roots: Seq<(CacheRootKind, Seq<char>)>,
    numbers: RootKindNumbers,
    i: int,
)
    requires
        0 <= i < roots.len(),
    ensures
        with_roots(model, roots, numbers).roots.len() == model.roots.len() + roots.len(),
        with_roots(model, roots, numbers).roots[model.roots.len() + i] == (
            roots[i].0.number(numbers),
            roots[i].1,
        ),
    decreases roots.len(),
{
    let front = roots.drop_last();
    lemma_with_roots_keeps_service(model, front, numbers);
    if i < front.len() {
        lemma_with_roots_at(model, front, numbers, i);
    }
}

/// A manifest that was begun for a service, given roots one after the other and
/// built reads back exactly those roots, in their order and with their
/// repetitions, each with its own category and path; and it keeps the service
/// and its version. A root under a number that stands for another category reads
/// back as that category.
pub proof fn law_built_manifests_read_back_their_roots<'a>(
    service_name: Seq<char>,
    service_version: Seq<char>,
    roots: Seq<(CacheRootKind, Seq<char>)>,
    read: Seq<CacheRoot<'a>>,
    numbers: RootKindNumbers,
)
    requires
        numbers.distinct(),
        forall|i: int|
            0 <= i < roots.len() ==> ((#[trigger] roots[i]).0 matches CacheRootKind::Unknown(value)
                ==> !numbers.assigns(value)),
        ({
            let built = with_roots(begun(service_name, service_version), roots, numbers);
            &&& read.len() == built.roots.len()
            &&& forall|i: int|
                0 <= i < read.len() ==> reads_root(#[trigger] read[i], built.roots[i], numbers)
        }),
    ensures
        ({
            let built = with_roots(begun(service_name, service_version), roots, numbers);
            built.service_name == service_name && built.service_version == service_version
        }),
        read.len() == roots.len(),
        forall|i: int|
            0 <= i < roots.len() ==> (#[trigger] read[i]).spec_kind() == roots[i].0
                && read[i].spec_path() == roots[i].1,
{
    let start = begun(service_name, service_version);
    lemma_with_roots_keeps_service(start, roots, numbers);
    assert forall|i: int| 0 <= i < roots.len() implies (#[trigger] read[i]).spec_kind()
        == roots[i].0 && read[i].spec_path() == roots[i].1 by {
        lemma_with_roots_at(start, roots, numbers, i);
        let built = with_roots(start, roots, numbers);
        assert(reads_root(read[i], built.roots[i], numbers));
        law_root_kinds_survive(roots[i].0, read[i].spec_kind(), numbers);
    }
}

proof fn lemma_with_roots_keeps_service(
    model: ManifestModel,
    roots: Seq<(CacheRootKind, Seq<char>)>,
    numbers: RootKindNumbers,
)
    ensures
        with_roots(model, roots, numbers).service_name == model.service_name,
        with_roots(model, roots, numbers).service_version == model.service_version,
        with_roots(model, roots, numbers).roots.len() == model.roots.len() + roots.len(),
    decreases roots.len(),
{
    if roots.len() > 0 {
        lemma_with_roots_keeps_service(model, roots.drop_last(), numbers);
    }
}

impl View for CacheManifestBuilder {
    type V = ManifestModel;

    closed spec fn view(&self) -> ManifestModel {
        ManifestModel {
            service_name: self.service_name@,
            service_version: self.service_version@,
            broker_instance: self.broker_instance@,
            roots: root_models(self.roots@),
        }
    }
}

impl CacheManifestBuilder {
    /// Begins a manifest for a service and its version.
    pub fn new(service_name: String, service_version: String) -> (b: CacheManifestBuilder)
        ensures
            b@ == begun(service_name@, service_version@),
    {
        let b = CacheManifestBuilder {
            service_name,
            service_version,
            broker_instance: String::new(),
            roots: Vec::new(),
        };
        assert(b@.broker_instance =~= Seq::<char>::empty());
        assert(b@.roots =~= Seq::<(i32, Seq<char>)>::empty());
        b
    }

    /// Sets the label of the broker instance.
    pub fn broker_instance(self, instance: String) -> (b: CacheManifestBuilder)
        ensures
            b@ == (ManifestModel { broker_instance: instance@, ..self@ }),
    {
        CacheManifestBuilder { broker_instance: instance, ..self }
    }

    /// Appends a root.
    pub fn root(self, kind: CacheRootKind, path: String, numbers: RootKindNumbers) -> (b:
        CacheManifestBuilder)
        ensures
            b@ == with_root(self@, kind, path@, numbers),
    {
        let mut roots = self.roots;
        let ghost before = root_models(roots@);
        roots.push((kind.into_backend(numbers), path));
        assert(root_models(roots@) =~= before.push((kind.number(numbers), path@)));
        CacheManifestBuilder { roots, ..self }
    }

    /// The record that the seal of this manifest is computed over.
    pub fn unsealed(&self, stamp: &ManifestStamp) -> (record: ManifestRecord)
        ensures
            record_model(record) == self@,
            record.stamp == *stamp,
            record.self_sha256@.len() == 0,
    {
        let mut roots: Vec<(i32, String)> = Vec::new();
        let mut i: usize = 0;
        while i < self.roots.len()
            invariant
                i <= self.roots@.len(),
                roots@ == self.roots@.take(i as int),
            decreases self.roots@.len() - i,
        {
            let path: String = self.roots[i].1.clone();
            roots.push((self.roots[i].0, path));
            assert(roots@ =~= self.roots@.take(i as int + 1));
            i = i + 1;
        }
        assert(roots@ =~= self.roots@);
        ManifestRecord {
            service_name: self.service_name.clone(),
            service_version: self.service_version.clone(),
            broker_instance: self.broker_instance.clone(),
            stamp: ManifestStamp {
                broker_envelope_version: stamp.broker_envelope_version.clone(),
                schema_version: stamp.schema_version,
                media_type: stamp.media_type.clone(),
                created_at_unix_ms: stamp.created_at_unix_ms,
                last_active_unix_ms: stamp.last_active_unix_ms,
                has_host_identity: stamp.has_host_identity,
            },
            roots,
            self_sha256: Vec::new(),
        }
    }

    /// The sealed manifest, given its stamp and the seal of
    /// [`CacheManifestBuilder::unsealed`] for that stamp; or why one of them
    /// could not be made.
    pub fn build(self, sealed: Result<(ManifestStamp, [u8; 32]), ManifestError>) -> (r: Result<
        CacheManifest,
        DaemonRegistrationError,
    >)
        ensures
            match sealed {
                Ok((stamp, seal)) => r matches Ok(m) && m@ == self@ && m.record().stamp == stamp
                    && m.record().self_sha256@ == seal@,
                Err(error) => r is Err && registration_error_for(error, r->Err_0),
            },
    {
        match sealed {
            Ok((stamp, seal)) => {
                let record = ManifestRecord {
                    service_name: self.service_name,
                    service_version: self.service_version,
                    broker_instance: self.broker_instance,
                    stamp,
                    roots: self.roots,
                    self_sha256: copy_bytes(seal.as_slice()),
                };
                Ok(CacheManifest { inner: record })
            },
            Err(error) => Err(manifest_error(error)),
        }
    }
}

/// A manifest.
#[derive(Clone, Debug, PartialEq, Eq)]
pub struct CacheManifest {
    inner: ManifestRecord,
}

impl View for CacheManifest {
    type V = ManifestModel;

    closed spec fn view(&self) -> ManifestModel {
        record_model(self.inner)
    }
}

/// Number of bytes of a seal.
pub const SEAL_BYTES: usize = 32;

impl CacheManifest {
    /// The record.
    pub closed spec fn record(&self) -> ManifestRecord {
        self.inner
    }

    /// The manifest of a record.
    pub fn from_backend(inner: ManifestRecord) -> (m: CacheManifest)
        ensures
            m.record() == inner,
            m@ == record_model(inner),
    {
        CacheManifest { inner }
    }

    /// The manifest that was read, or why none was.
    pub fn read(record: Result<ManifestRecord, ManifestError>) -> (r: Result<
        CacheManifest,
        DaemonRegistrationError,
    >)
        ensures
            match record {
                Ok(inner) => r matches Ok(m) && m.record() == inner && m@ == record_model(inner),
                Err(error) => r is Err && registration_error_for(error, r->Err_0),
            },
    {
        match record {
            Ok(inner) => Ok(CacheManifest { inner }),
            Err(error) => Err(manifest_error(error)),
        }
    }

    /// Name of the service.
    pub fn service_name(&self) -> (s: &str)
        ensures
            s@ == self@.service_name,
    {
        self.inner.service_name.as_str()
    }

    /// Version of the service.
    pub fn service_version(&self) -> (s: &str)
        ensures
            s@ == self@.service_version,
    {
        self.inner.service_version.as_str()
    }

    /// Version of the broker envelope.
    pub fn broker_envelope_version(&self) -> (s: &str)
        ensures
            s@ == self.record().stamp.broker_envelope_version@,
    {
        self.inner.stamp.broker_envelope_version.as_str()
    }

    /// Label of the broker instance.
    pub fn broker_instance(&self) -> (s: &str)
        ensures
            s@ == self@.broker_instance,
    {
        self.inner.broker_instance.as_str()
    }

    /// Schema of the record.
    pub fn schema_version(&self) -> (n: u32)
        ensures
            n == self.record().stamp.schema_version,
    {
        self.inner.stamp.schema_version
    }

    /// Media type of the record.
    pub fn media_type(&self) -> (s: &str)
        ensures
            s@ == self.record().stamp.media_type@,
    {
        self.inner.stamp.media_type.as_str()
    }

    /// Time of creation, in milliseconds since the Unix epoch.
    pub fn created_at_unix_ms(&self) -> (n: u64)
        ensures
            n == self.record().stamp.created_at_unix_ms,
    {
        self.inner.stamp.created_at_unix_ms
    }

    /// Time of the last activity, in milliseconds since the Unix epoch.
    pub fn last_active_unix_ms(&self) -> (n: u64)
        ensures
            n == self.record().stamp.last_active_unix_ms,
    {
        self.inner.stamp.last_active_unix_ms
    }

    /// Whether the identity of the host was stamped.
    pub fn has_host_identity(&self) -> (b: bool)
        ensures
            b == self.record().stamp.has_host_identity,
    {
        self.inner.stamp.has_host_identity
    }

    /// Whether the manifest carries a seal of the right size.
    pub fn has_sha256_seal(&self) -> (b: bool)
        ensures
            b == (self.record().self_sha256@.len() == SEAL_BYTES),
    {
        self.inner.self_sha256.len() == SEAL_BYTES
    }

    /// The roots, in order.
    pub fn roots(&self, numbers: RootKindNumbers) -> (roots: Vec<CacheRoot<'_>>)
        ensures
            roots@.len() == self@.roots.len(),
            forall|i: int|
                0 <= i < roots@.len() ==> reads_root(
                    #[trigger] roots@[i],
                    self@.roots[i],
                    numbers,
                ),
    {
        let mut roots: Vec<CacheRoot<'_>> = Vec::new();
        let mut i: usize = 0;
        while i < self.inner.roots.len()
            invariant
                i <= self.inner.roots@.len(),
                roots@.len() == i,
                self@.roots.len() == self.inner.roots@.len(),
                forall|j: int|
                    0 <= j < i ==> reads_root(#[trigger] roots@[j], self@.roots[j], numbers),
            decreases self.inner.roots@.len() - i,
        {
            let kind = CacheRootKind::from_backend(self.inner.roots[i].0, numbers);
            roots.push(CacheRoot::new(kind, self.inner.roots[i].1.as_str()));
            i = i + 1;
        }
        roots
    }
}

/// Builder of a service definition for the shared broker.
#[derive(Clone, Debug, PartialEq, Eq)]
pub struct ServiceDefinitionBuilder {
    definition: DefinitionRecord,
}

impl View for ServiceDefinitionBuilder {
    type V = DefinitionModel;

    closed spec fn view(&self) -> DefinitionModel {
        self.definition@
    }
}

impl ServiceDefinitionBuilder {
    /// Whether each label key occurs once.
    pub closed spec fn wf(&self) -> bool {
        self.definition.wf()
    }

    /// Begins a definition for the shared broker.
    pub fn shared_broker(service_name: String, binary_path: String) -> (b: ServiceDefinitionBuilder)
        ensures
            b.wf(),
            b@ == bare_definition(
                service_name@,
                binary_path@,
                BrokerIsolation::SharedBroker,
                Seq::empty(),
            ),
    {
        let none = String::new();
        assert(none@ =~= Seq::<char>::empty());
        ServiceDefinitionBuilder {
            definition: DefinitionRecord::bare(
                service_name,
                binary_path,
                BrokerIsolation::SharedBroker,
                none,
            ),
        }
    }

    /// Sets the directory with the binaries of all versions.
    pub fn per_version_binary_dir(self, directory: String) -> (b: ServiceDefinitionBuilder)
        requires
            self.wf(),
        ensures
            b.wf(),
            b@ == (DefinitionModel { per_version_binary_dir: directory@, ..self@ }),
    {
        ServiceDefinitionBuilder {
            definition: DefinitionRecord { per_version_binary_dir: directory, ..self.definition },
        }
    }

    /// Sets the lowest compatible version.
    pub fn min_version(self, version: String) -> (b: ServiceDefinitionBuilder)
        requires
            self.wf(),
        ensures
            b.wf(),
            b@ == (DefinitionModel { min_version: version@, ..self@ }),
    {
        ServiceDefinitionBuilder {
            definition: DefinitionRecord { min_version: version, ..self.definition },
        }
    }

    /// Appends an allowed version.
    pub fn allow_version(self, version: String) -> (b: ServiceDefinitionBuilder)
        requires
            self.wf(),
        ensures
            b.wf(),
            b@ == (DefinitionModel {
                version_allow_list: self@.version_allow_list.push(version@),
                ..self@
            }),
    {
        let mut definition = self.definition;
        let ghost before = version_texts(definition.version_allow_list@);
        definition.version_allow_list.push(version);
        assert(version_texts(definition.version_allow_list@) =~= before.push(version@));
        ServiceDefinitionBuilder { definition }
    }

    /// Sets a label.
    pub fn label(self, key: String, value: String) -> (b: ServiceDefinitionBuilder)
        requires
            self.wf(),
        ensures
            b.wf(),
            b@ == (DefinitionModel { labels: self@.labels.insert(key@, value@), ..self@ }),
    {
        let mut definition = self.definition;
        definition.set_label(key, value);
        ServiceDefinitionBuilder { definition }
    }

    /// The definition, given the verdict of its validation.
    pub fn build(self, verdict: Result<(), ServiceDefinitionError>) -> (r: Result<
        ServiceDefinition,
        DaemonRegistrationError,
    >)
        requires
            self.wf(),
        ensures
            match verdict {
                Ok(()) => r matches Ok(d) && d@ == self@ && d.wf(),
                Err(error) => r is Err && definition_error_for(error, r->Err_0),
            },
    {
        match verdict {
            Ok(()) => Ok(ServiceDefinition { inner: self.definition }),
            Err(error) => Err(service_error(error)),
        }
    }
}

/// A service definition.
#[derive(Clone, Debug, PartialEq, Eq)]
pub struct ServiceDefinition {
    inner: DefinitionRecord,
}

impl View for ServiceDefinition {
    type V = DefinitionModel;

    closed spec fn view(&self) -> DefinitionModel {
        self.inner@
    }
}

impl ServiceDefinition {
    /// Whether each label key occurs once.
    pub closed spec fn wf(&self) -> bool {
        self.inner.wf()
    }

    /// The definition of a record.
    pub fn from_backend(inner: DefinitionRecord) -> (d: ServiceDefinition)
        ensures
            d@ == inner@,
            d.wf() == inner.wf(),
    {
        ServiceDefinition { inner }
    }

    /// Name of the service.
    pub fn service_name(&self) -> (s: &str)
        ensures
            s@ == self@.service_name,
    {
        self.inner.service_name.as_str()
    }

    /// Path of its binary.
    pub fn binary_path(&self) -> (s: &str)
        ensures
            s@ == self@.binary_path,
    {
        self.inner.binary_path.as_str()
    }

    /// Whether it uses the shared broker.
    pub fn is_shared_broker(&self) -> (b: bool)
        ensures
            b == (self@.isolation == BrokerIsolation::SharedBroker),
    {
        self.inner.isolation == BrokerIsolation::SharedBroker
    }

    /// Directory with the binaries of all versions.
    pub fn per_version_binary_dir(&self) -> (s: &str)
        ensures
            s@ == self@.per_version_binary_dir,
    {
        self.inner.per_version_binary_dir.as_str()
    }

    /// Lowest compatible version.
    pub fn min_version(&self) -> (s: &str)
        ensures
            s@ == self@.min_version,
    {
        self.inner.min_version.as_str()
    }

    /// Allowed versions, in order.
    pub fn allowed_versions(&self) -> (v: &Vec<String>)
        ensures
            version_texts(v@) == self@.version_allow_list,
    {
        &self.inner.version_allow_list
    }

    /// The value of a label.
    pub fn label(&self, key: &str) -> (r: Option<&str>)
        requires
            self.wf(),
        ensures
            match r {
                Some(value) => self@.labels.dom().contains(key@) && value@ == self@.labels[key@],
                None => !self@.labels.dom().contains(key@),
            },
    {
        self.inner.label(key)
    }
}

/// The directory of service definitions.
pub fn service_definition_directory(configured: Option<&NativePath>, config_dir: &NativePath) -> (p:
    NativePath)
    ensures
        p@ == (match configured {
            Some(dir) => if dir@.len() > 0 {
                dir@
            } else {
                below(config_dir@, "services"@)
            },
            None => below(config_dir@, "services"@),
        }),
{
    service_definition_dir(configured, config_dir)
}

/// Each category stands in a record under its own number, and exactly the numbers of
/// the categories have one.
pub proof fn law_categories_have_their_number(numbers: RootKindNumbers, value: i32)
    ensures
        CacheRootKind::CacheData.number(numbers) == numbers.cache_data,
        CacheRootKind::CacheIndex.number(numbers) == numbers.cache_index,
        CacheRootKind::CacheLogs.number(numbers) == numbers.cache_logs,
        CacheRootKind::CacheLocks.number(numbers) == numbers.cache_locks,
        CacheRootKind::CacheTmp.number(numbers) == numbers.cache_tmp,
        CacheRootKind::Unknown(value).number(numbers) == value,
        numbers.assigns(value) <==> exists|kind: CacheRootKind|
            !(kind is Unknown) && #[trigger] kind.number(numbers) == value,
{
    if numbers.assigns(value) {
        assert(CacheRootKind::CacheData.number(numbers) == value
            || CacheRootKind::CacheIndex.number(numbers) == value
            || CacheRootKind::CacheLogs.number(numbers) == value
            || CacheRootKind::CacheLocks.number(numbers) == value
            || CacheRootKind::CacheTmp.number(numbers) == value);
    }
}

/// An error of a manifest is told by what went wrong: failures of the filesystem stay
/// what they are, a record that cannot be decoded, a seal that does not fit and a
/// record that is too new are told apart, and names and paths are passed on.
pub proof fn law_manifest_errors_keep_their_cause(error: ManifestError, e: DaemonRegistrationError)
    requires
        registration_error_for(error, e),
    ensures
        error is Io <==> e is Io,
        error is Decode <==> e is MalformedRecord,
        error is Encode <==> e is Serialization,
        error is Corruption <==> e is ManifestIntegrityFailure,
        error is SchemaTooNew <==> e is UnsupportedManifestSchema,
        error is InvalidName <==> e is InvalidNameOrVersion,
        error is MissingParent <==> e is MissingParent,
        error is InsecureRegistry <==> e is InsecureDirectory,
        match (error, e) {
            (ManifestError::Io(a), DaemonRegistrationError::Io(b)) => a == b,
            (
                ManifestError::SchemaTooNew { got: a, supported: b },
                DaemonRegistrationError::UnsupportedManifestSchema { got: c, supported: d },
            ) => a == c && b == d,
            (
                ManifestError::InvalidName(inner),
                DaemonRegistrationError::InvalidNameOrVersion { detail },
            ) => detail@ == inner.text(),
            (ManifestError::MissingParent(a), DaemonRegistrationError::MissingParent { path: b }) =>
                a@ == b@,
            (
                ManifestError::InsecureRegistry(a),
                DaemonRegistrationError::InsecureDirectory { path: b },
            ) => a@ == b@,
            _ => true,
        },
{
}

/// An error of a service definition is told by what went wrong, in the same way.
pub proof fn law_definition_errors_keep_their_cause(
    error: ServiceDefinitionError,
    e: DaemonRegistrationError,
)
    requires
        definition_error_for(error, e),
    ensures
        error is Io <==> e is Io,
        error is Decode <==> e is MalformedRecord,
        error is InvalidName <==> e is InvalidNameOrVersion,
        error is InsecureDirectory <==> e is InsecureDirectory,
        error is ServiceNameMismatch <==> e is ServiceNameMismatch,
        error is InvalidPath <==> e is InvalidServicePath,
        error is InvalidIsolation <==> e is InvalidServiceIsolation,
        match (error, e) {
            (ServiceDefinitionError::Io(a), DaemonRegistrationError::Io(b)) => a == b,
            (
                ServiceDefinitionError::InvalidName(inner),
                DaemonRegistrationError::InvalidNameOrVersion { detail },
            ) => detail@ == inner.text(),
            (
                ServiceDefinitionError::InsecureDirectory(a),
                DaemonRegistrationError::InsecureDirectory { path: b },
            ) => a@ == b@,
            (
                ServiceDefinitionError::ServiceNameMismatch { requested: a, actual: b },
                DaemonRegistrationError::ServiceNameMismatch { requested: c, actual: d },
            ) => a@ == c@ && b@ == d@,
            (
                ServiceDefinitionError::InvalidPath { field: a, path: b, reason: c },
                DaemonRegistrationError::InvalidServicePath { field: d, path: x, reason: y },
            ) => a@ == d@ && b@ == x@ && c@ == y@,
            (
                ServiceDefinitionError::InvalidIsolation { reason: a },
                DaemonRegistrationError::InvalidServiceIsolation { reason: b },
            ) => a@ == b@,
            _ => true,
        },
{
}

/// One more root stands behind those that were there, and nothing else changes.
pub proof fn law_roots_are_appended(
    model: ManifestModel,
    kind: CacheRootKind,
    path: Seq<char>,
    numbers: RootKindNumbers,
)
    ensures
        with_root(model, kind, path, numbers).roots.drop_last() == model.roots,
        with_root(model, kind, path, numbers).roots.last().1 == path,
        with_root(model, kind, path, numbers).roots.len() == model.roots.len() + 1,
        with_root(model, kind, path, numbers).service_name == model.service_name,
        with_root(model, kind, path, numbers).service_version == model.service_version,
        with_root(model, kind, path, numbers).broker_instance == model.broker_instance,
{
    assert(with_root(model, kind, path, numbers).roots.drop_last() =~= model.roots);
}

/// What a record says is what stands in it.
pub proof fn law_records_say_what_they_hold(record: ManifestRecord, i: int)
    ensures
        record_model(record).service_name == record.service_name@,
        record_model(record).service_version == record.service_version@,
        record_model(record).broker_instance == record.broker_instance@,
        record_model(record).roots.len() == record.roots@.len(),
        0 <= i < record.roots@.len() ==> record_model(record).roots[i].0 == record.roots@[i].0
            && record_model(record).roots[i].1 == record.roots@[i].1@,
{
}

} // verus!
