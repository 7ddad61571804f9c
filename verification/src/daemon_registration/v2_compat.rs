//! Second-generation service definitions for applications: the shared-broker
//! form, without negotiation or loading.

use crate::daemon_registration::service_definition::{
    bare_definition, version_texts, BrokerIsolation, DefinitionModel, DefinitionRecord,
    ServiceDefinitionError,
};
use crate::daemon_registration::v2;
use crate::daemon_registration::v2::definition_file;
use crate::daemon_registration::validation::{invalid_name_text, name_flaw, quoted_text};
use crate::errors::IoFailure;
use crate::native_path::{below, lossy_text, NativePath};
use vstd::prelude::*;
use vstd::string::*;

verus! {

/// Why a definition was not validated or persisted.
#[derive(Clone, Debug, PartialEq, Eq)]
pub enum DaemonRegistrationV2Error {
    /// A filesystem operation failed.
    Io(IoFailure),
    /// The service name is not valid.
    InvalidName {
        /// Why.
        detail: String,
    },
    /// The directory is open to others.
    InsecureDirectory {
        /// The directory.
        path: NativePath,
    },
    /// The definition is not valid for another reason.
    InvalidDefinition {
        /// Why.
        detail: String,
    },
}

impl DaemonRegistrationV2Error {
    /// Text of this error.
    pub open spec fn text(self) -> Seq<char> {
        match self {
            DaemonRegistrationV2Error::Io(failure) => "daemon registration v2 I/O failed: "@
                + failure.text@,
            DaemonRegistrationV2Error::InvalidName { detail } => "invalid frozen v2 service name: "@
                + detail@,
            DaemonRegistrationV2Error::InsecureDirectory { path } => "v2 service-definition directory is not owner-private: "@
                + lossy_text(path@),
            DaemonRegistrationV2Error::InvalidDefinition { detail } => "invalid frozen v2 service definition: "@
                + detail@,
        }
    }

    /// Text of this error.
    pub fn message(&self) -> (s: String)
        ensures
            s@ == self.text(),
    {
        match self {
            DaemonRegistrationV2Error::Io(failure) => {
                let mut s: String = "daemon registration v2 I/O failed: ".to_owned();
                s.append(failure.text.as_str());
                s
            },
            DaemonRegistrationV2Error::InvalidName { detail } => {
                let mut s: String = "invalid frozen v2 service name: ".to_owned();
                s.append(detail.as_str());
                s
            },
            DaemonRegistrationV2Error::InsecureDirectory { path } => {
                let mut s: String = "v2 service-definition directory is not owner-private: ".to_owned();
                s.append(path.shown().as_str());
                s
            },
            DaemonRegistrationV2Error::InvalidDefinition { detail } => {
                let mut s: String = "invalid frozen v2 service definition: ".to_owned();
                s.append(detail.as_str());
                s
            },
        }
    }

    /// The failure of the operating system behind this error.
    pub fn source(&self) -> (r: Option<&IoFailure>)
        ensures
            match *self {
                DaemonRegistrationV2Error::Io(failure) => r is Some && *(r->0) == failure,
                _ => r is None,
            },
    {
        match self {
            DaemonRegistrationV2Error::Io(failure) => Some(failure),
            _ => None,
        }
    }
}

/// Whether an error stands for a service-definition error.
pub open spec fn stands_for(error: ServiceDefinitionError, e: DaemonRegistrationV2Error) -> bool {
    match error {
        ServiceDefinitionError::Io(failure) => e == DaemonRegistrationV2Error::Io(failure),
        ServiceDefinitionError::InvalidName(inner) => e
            matches DaemonRegistrationV2Error::InvalidName { detail } && detail@ == inner.text(),
        ServiceDefinitionError::InsecureDirectory(path) => e
            == (DaemonRegistrationV2Error::InsecureDirectory { path }),
        other => e matches DaemonRegistrationV2Error::InvalidDefinition { detail } && detail@
            == other.text(),
    }
}

/// Whether an error rejects a service name, and says why.
pub open spec fn rejects_name(e: DaemonRegistrationV2Error, service_name: Seq<char>) -> bool {
    match e {
        DaemonRegistrationV2Error::InvalidName { detail } => name_flaw(service_name) matches Some(
            flaw,
        ) && detail@ == invalid_name_text(quoted_text(service_name), flaw.text()),
        _ => false,
    }
}

/// The error for a service-definition error.
pub fn service_error(error: ServiceDefinitionError) -> (e: DaemonRegistrationV2Error)
    ensures
        stands_for(error, e),
{
    match error {
        ServiceDefinitionError::Io(failure) => DaemonRegistrationV2Error::Io(failure),
        ServiceDefinitionError::InvalidName(inner) => DaemonRegistrationV2Error::InvalidName {
            detail: inner.message(),
        },
        ServiceDefinitionError::InsecureDirectory(path) => {
            DaemonRegistrationV2Error::InsecureDirectory { path }
        },
        other => DaemonRegistrationV2Error::InvalidDefinition { detail: other.message() },
    }
}

/// The directory of service definitions.
pub fn service_definition_directory(configured: Option<&NativePath>, config_dir: &NativePath) -> (p:
    NativePath)
    ensures
        p@ == (match configured {
            Some(dir) => if dir@.len() > 0 {
                dir@
            } else {
                below(config_dir@, "services"@)
            },
            None => below(config_dir@, "services"@),
        }),
{
    v2::service_definition_dir_v2(configured, config_dir)
}

/// The file of a service.
pub fn service_definition_path(root: &NativePath, service_name: &str) -> (r: Result<
    NativePath,
    DaemonRegistrationV2Error,
>)
    ensures
        match r {
            Ok(path) => name_flaw(service_name@) is None && path@ == definition_file(
                root@,
                service_name@,
            ),
            Err(e) => rejects_name(e, service_name@),
        },
{
    match v2::service_definition_path_v2(root, service_name) {
        Ok(path) => Ok(path),
        Err(e) => Err(service_error(e)),
    }
}

/// Decides where a definition is written.
pub fn write_service_definition(
    root: &NativePath,
    definition: &ServiceDefinition,
    ensured: Result<(), IoFailure>,
    private: Result<bool, IoFailure>,
) -> (r: Result<NativePath, DaemonRegistrationV2Error>)
    ensures
        match r {
            Ok(path) => {
                &&& ensured is Ok
                &&& private == Ok::<bool, IoFailure>(true)
                &&& name_flaw(definition@.service_name) is None
                &&& path@ == definition_file(root@, definition@.service_name)
            },
            Err(e) => match (ensured, private) {
                (Err(failure), _) => e == DaemonRegistrationV2Error::Io(failure),
                (Ok(()), Err(failure)) => e == DaemonRegistrationV2Error::Io(failure),
                (Ok(()), Ok(is_private)) => if is_private {
                    rejects_name(e, definition@.service_name)
                } else {
                    e matches DaemonRegistrationV2Error::InsecureDirectory { path } && path@
                        == root@
                },
            },
        },
{
    match v2::write_service_definition_v2(root, &definition.inner, ensured, private) {
        Ok(path) => Ok(path),
        Err(e) => Err(service_error(e)),
    }
}

/// Builder of a definition for the shared broker.
#[derive(Clone, Debug, PartialEq, Eq)]
pub struct ServiceDefinitionBuilder {
    inner: v2::ServiceDefinitionBuilder,
    allowed_versions: Vec<String>,
}

impl View for ServiceDefinitionBuilder {
    type V = DefinitionModel;

    closed spec fn view(&self) -> DefinitionModel {
        DefinitionModel {
            version_allow_list: version_texts(self.allowed_versions@),
            ..self.inner@
        }
    }
}

impl ServiceDefinitionBuilder {
    /// Whether each label key occurs once.
    pub closed spec fn wf(&self) -> bool {
        self.inner.wf()
    }

    /// Begins a definition for the shared broker.
    pub fn shared_broker(service_name: String, binary_path: String) -> (b: ServiceDefinitionBuilder)
        ensures
            b.wf(),
            b@ == bare_definition(
                service_name@,
                binary_path@,
                BrokerIsolation::SharedBroker,
                Seq::empty(),
            ),
    {
        let b = ServiceDefinitionBuilder {
            inner: v2::ServiceDefinitionBuilder::shared_broker(service_name, binary_path),
            allowed_versions: Vec::new(),
        };
        assert(version_texts(b.allowed_versions@) =~= Seq::<Seq<char>>::empty());
        b
    }

    /// Sets the directory with the binaries of all versions.
    pub fn per_version_binary_dir(self, directory: String) -> (b: ServiceDefinitionBuilder)
        requires
            self.wf(),
        ensures
            b.wf(),
            b@ == (DefinitionModel { per_version_binary_dir: directory@, ..self@ }),
    {
        ServiceDefinitionBuilder {
            inner: self.inner.per_version_binary_dir(directory),
            allowed_versions: self.allowed_versions,
        }
    }

    /// Sets the lowest compatible version.
    pub fn min_version(self, version: String) -> (b: ServiceDefinitionBuilder)
        requires
            self.wf(),
        ensures
            b.wf(),
            b@ == (DefinitionModel { min_version: version@, ..self@ }),
    {
        ServiceDefinitionBuilder {
            inner: self.inner.min_version(version),
            allowed_versions: self.allowed_versions,
        }
    }

    /// Appends an allowed version.
    pub fn allow_version(self, version: String) -> (b: ServiceDefinitionBuilder)
        requires
            self.wf(),
        ensures
            b.wf(),
            b@ == (DefinitionModel {
                version_allow_list: self@.version_allow_list.push(version@),
                ..self@
            }),
    {
        let mut allowed_versions = self.allowed_versions;
        let ghost before = version_texts(allowed_versions@);
        allowed_versions.push(version);
        assert(version_texts(allowed_versions@) =~= before.push(version@));
        ServiceDefinitionBuilder { inner: self.inner, allowed_versions }
    }

    /// Sets a label; a later value for the same key replaces an earlier one.
    pub fn label(self, key: String, value: String) -> (b: ServiceDefinitionBuilder)
        requires
            self.wf(),
        ensures
            b.wf(),
            b@ == (DefinitionModel { labels: self@.labels.insert(key@, value@), ..self@ }),
    {
        ServiceDefinitionBuilder {
            inner: self.inner.label(key, value),
            allowed_versions: self.allowed_versions,
        }
    }

    /// The definition.
    pub fn build(self) -> (d: ServiceDefinition)
        requires
            self.wf(),
        ensures
            d.wf(),
            d@ == self@,
    {
        let inner = self.inner.version_allow_list(self.allowed_versions).build();
        ServiceDefinition { inner }
    }

    /// Decides where the definition is written.
    pub fn install_in(
        self,
        root: &NativePath,
        ensured: Result<(), IoFailure>,
        private: Result<bool, IoFailure>,
    ) -> (r: Result<(NativePath, ServiceDefinition), DaemonRegistrationV2Error>)
        requires
            self.wf(),
        ensures
            match r {
                Ok((path, d)) => {
                    &&& ensured is Ok
                    &&& private == Ok::<bool, IoFailure>(true)
                    &&& name_flaw(self@.service_name) is None
                    &&& path@ == definition_file(root@, self@.service_name)
                    &&& d@ == self@
                    &&& d.wf()
                },
                Err(e) => match (ensured, private) {
                    (Err(failure), _) => e == DaemonRegistrationV2Error::Io(failure),
                    (Ok(()), Err(failure)) => e == DaemonRegistrationV2Error::Io(failure),
                    (Ok(()), Ok(is_private)) => if is_private {
                        rejects_name(e, self@.service_name)
                    } else {
                        e matches DaemonRegistrationV2Error::InsecureDirectory { path } && path@
                            == root@
                    },
                },
            },
    {
        let d = self.build();
        match write_service_definition(root, &d, ensured, private) {
            Ok(path) => Ok((path, d)),
            Err(e) => Err(e),
        }
    }
}

/// A service definition.
#[derive(Clone, Debug, PartialEq, Eq)]
pub struct ServiceDefinition {
    inner: DefinitionRecord,
}

impl View for ServiceDefinition {
    type V = DefinitionModel;

    closed spec fn view(&self) -> DefinitionModel {
        self.inner@
    }
}

impl ServiceDefinition {
    /// Whether each label key occurs once.
    pub closed spec fn wf(&self) -> bool {
        self.inner.wf()
    }

    /// The record.
    pub fn record(&self) -> (r: &DefinitionRecord)
        ensures
            r@ == self@,
            self.wf() == r.wf(),
    {
        &self.inner
    }

    /// Name of the service.
    pub fn service_name(&self) -> (s: &str)
        ensures
            s@ == self@.service_name,
    {
        self.inner.service_name.as_str()
    }

    /// Path of its binary.
    pub fn binary_path(&self) -> (s: &str)
        ensures
            s@ == self@.binary_path,
    {
        self.inner.binary_path.as_str()
    }

    /// Whether it uses the shared broker.
    pub fn is_shared_broker(&self) -> (b: bool)
        ensures
            b == (self@.isolation == BrokerIsolation::SharedBroker),
    {
        self.inner.isolation == BrokerIsolation::SharedBroker
    }

    /// Directory with the binaries of all versions.
    pub fn per_version_binary_dir(&self) -> (s: &str)
        ensures
            s@ == self@.per_version_binary_dir,
    {
        self.inner.per_version_binary_dir.as_str()
    }

    /// Lowest compatible version.
    pub fn min_version(&self) -> (s: &str)
        ensures
            s@ == self@.min_version,
    {
        self.inner.min_version.as_str()
    }

    /// Allowed versions, in order.
    pub fn allowed_versions(&self) -> (v: &Vec<String>)
        ensures
            version_texts(v@) == self@.version_allow_list,
    {
        &self.inner.version_allow_list
    }

    /// The value of a label.
    pub fn label(&self, key: &str) -> (r: Option<&str>)
        requires
            self.wf(),
        ensures
            match r {
                Some(value) => self@.labels.dom().contains(key@) && value@ == self@.labels[key@],
                None => !self@.labels.dom().contains(key@),
            },
    {
        self.inner.label(key)
    }

    /// All labels.
    pub fn labels(&self) -> (l: &Vec<(String, String)>)
        ensures
            crate::keyed::contents(
                crate::daemon_registration::service_definition::label_entries(l@),
            ) == self@.labels,
    {
        &self.inner.labels
    }
}

/// An error of a service definition is told by what went wrong: a failure of the
/// filesystem, a name, a directory that is open to others, or, with the words of the
/// cause, a definition that is not valid.
pub proof fn law_definition_errors_keep_their_cause(
    error: ServiceDefinitionError,
    e: DaemonRegistrationV2Error,
)
    requires
        stands_for(error, e),
    ensures
        error is Io <==> e is Io,
        error is InvalidName <==> e is InvalidName,
        error is InsecureDirectory <==> e is InsecureDirectory,
        error is Decode || error is ServiceNameMismatch || error is InvalidPath
            || error is InvalidIsolation <==> e is InvalidDefinition,
        match (error, e) {
            (ServiceDefinitionError::Io(a), DaemonRegistrationV2Error::Io(b)) => a == b,
            (
                ServiceDefinitionError::InvalidName(inner),
                DaemonRegistrationV2Error::InvalidName { detail },
            ) => detail@ == inner.text(),
            (
                ServiceDefinitionError::InsecureDirectory(a),
                DaemonRegistrationV2Error::InsecureDirectory { path: b },
            ) => a@ == b@,
            (other, DaemonRegistrationV2Error::InvalidDefinition { detail }) => detail@
                == other.text(),
            _ => true,
        },
{
}

/// A name is rejected only for a flaw that it has, and the error ends with the flaw in
/// words.
pub proof fn law_rejected_names_have_a_flaw(e: DaemonRegistrationV2Error, service_name: Seq<char>)
    requires
        rejects_name(e, service_name),
    ensures
        e is InvalidName,
        name_flaw(service_name) is Some,
        (name_flaw(service_name)->0).text().is_suffix_of(e->InvalidName_detail@),
{
}

} // verus!
