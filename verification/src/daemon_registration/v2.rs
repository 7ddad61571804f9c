//! Second-generation service definitions. Their files have an extension of their
//! own, so that both generations live in one directory.

use crate::daemon_registration::service_definition::{
    bare_definition, ensure_service_definition_dir, service_definition_dir, version_texts,
    BrokerIsolation, DefinitionModel, DefinitionRecord, ServiceDefinitionError,
};
use crate::daemon_registration::validation::{
    name_flaw, reports_flaw, validate_service_name, PipePathError,
};
use crate::errors::IoFailure;
use crate::native_path::{below, NativePath};
use vstd::prelude::*;
use vstd::string::*;

verus! {

/// Extension of the files.
pub const SERVICE_DEF_V2_EXTENSION: &'static str = "servicedef.v2";

/// The directory of the files: the one of the first generation.
pub fn service_definition_dir_v2(configured: Option<&NativePath>, config_dir: &NativePath) -> (p:
    NativePath)
    ensures
        p@ == (match configured {
            Some(dir) => if dir@.len() > 0 {
                dir@
            } else {
                below(config_dir@, "services"@)
            },
            None => below(config_dir@, "services"@),
        }),
{
    service_definition_dir(configured, config_dir)
}

/// The file of a service.
pub open spec fn definition_file(root: Seq<u8>, service_name: Seq<char>) -> Seq<u8> {
    below(root, service_name + "."@ + "servicedef.v2"@)
}

/// Whether an error rejects a service name.
pub open spec fn rejects_name(e: ServiceDefinitionError, service_name: Seq<char>) -> bool {
    match e {
        ServiceDefinitionError::InvalidName(inner) => name_flaw(service_name) matches Some(flaw)
            && reports_flaw(inner, service_name, flaw),
        _ => false,
    }
}

/// The file of a service.
pub fn service_definition_path_v2(root: &NativePath, service_name: &str) -> (r: Result<
    NativePath,
    ServiceDefinitionError,
>)
    ensures
        match r {
            Ok(path) => name_flaw(service_name@) is None && path@ == definition_file(
                root@,
                service_name@,
            ),
            Err(e) => rejects_name(e, service_name@),
        },
{
    match validate_service_name(service_name) {
        Err(e) => Err(ServiceDefinitionError::InvalidName(e)),
        Ok(()) => {
            let mut name: String = service_name.to_owned();
            name.append(".");
            name.append("servicedef.v2");
            Ok(root.join(name.as_str()))
        },
    }
}

/// Decides where a definition is written: into a directory that could be made
/// private and is, under the name of its service. The file is then written at
/// once, without a temporary one.
pub fn write_service_definition_v2(
    root: &NativePath,
    definition: &DefinitionRecord,
    ensured: Result<(), IoFailure>,
    private: Result<bool, IoFailure>,
) -> (r: Result<NativePath, ServiceDefinitionError>)
    ensures
        match r {
            Ok(path) => {
                &&& ensured is Ok
                &&& private == Ok::<bool, IoFailure>(true)
                &&& name_flaw(definition@.service_name) is None
                &&& path@ == definition_file(root@, definition@.service_name)
            },
            Err(e) => match (ensured, private) {
                (Err(failure), _) => e == ServiceDefinitionError::Io(failure),
                (Ok(()), Err(failure)) => e == ServiceDefinitionError::Io(failure),
                (Ok(()), Ok(is_private)) => if is_private {
                    rejects_name(e, definition@.service_name)
                } else {
                    e matches ServiceDefinitionError::InsecureDirectory(p) && p@ == root@
                },
            },
        },
{
    match ensure_service_definition_dir(root, ensured, private) {
        Err(e) => Err(e),
        Ok(()) => service_definition_path_v2(root, definition.service_name.as_str()),
    }
}

/// Builder of a definition.
#[derive(Clone, Debug, PartialEq, Eq)]
pub struct ServiceDefinitionBuilder {
    definition: DefinitionRecord,
}

impl View for ServiceDefinitionBuilder {
    type V = DefinitionModel;

    closed spec fn view(&self) -> DefinitionModel {
        self.definition@
    }
}

impl ServiceDefinitionBuilder {
    /// Whether each label key occurs once.
    pub closed spec fn wf(&self) -> bool {
        self.definition.wf()
    }

    /// Begins a definition for the shared broker.
    pub fn shared_broker(service_name: String, binary_path: String) -> (b: ServiceDefinitionBuilder)
        ensures
            b.wf(),
            b@ == bare_definition(
                service_name@,
                binary_path@,
                BrokerIsolation::SharedBroker,
                Seq::empty(),
            ),
    {
        let none = String::new();
        assert(none@ =~= Seq::<char>::empty());
        ServiceDefinitionBuilder {
            definition: DefinitionRecord::bare(
                service_name,
                binary_path,
                BrokerIsolation::SharedBroker,
                none,
            ),
        }
    }

    /// Begins a definition for a broker of its own.
    pub fn private_broker(service_name: String, binary_path: String) -> (b: ServiceDefinitionBuilder)
        ensures
            b.wf(),
            b@ == bare_definition(
                service_name@,
                binary_path@,
                BrokerIsolation::PrivateBroker,
                Seq::empty(),
            ),
    {
        let none = String::new();
        assert(none@ =~= Seq::<char>::empty());
        ServiceDefinitionBuilder {
            definition: DefinitionRecord::bare(
                service_name,
                binary_path,
                BrokerIsolation::PrivateBroker,
                none,
            ),
        }
    }

    /// Begins a definition for a named broker instance.
    pub fn explicit_instance(service_name: String, binary_path: String, instance: String) -> (b:
        ServiceDefinitionBuilder)
        ensures
            b.wf(),
            b@ == bare_definition(
                service_name@,
                binary_path@,
                BrokerIsolation::ExplicitInstance,
                instance@,
            ),
    {
        ServiceDefinitionBuilder {
            definition: DefinitionRecord::bare(
                service_name,
                binary_path,
                BrokerIsolation::ExplicitInstance,
                instance,
            ),
        }
    }

    /// Sets the directory with the binaries of all versions.
    pub fn per_version_binary_dir(self, dir: String) -> (b: ServiceDefinitionBuilder)
        requires
            self.wf(),
        ensures
            b.wf(),
            b@ == (DefinitionModel { per_version_binary_dir: dir@, ..self@ }),
    {
        ServiceDefinitionBuilder {
            definition: DefinitionRecord { per_version_binary_dir: dir, ..self.definition },
        }
    }

    /// Sets the lowest compatible version.
    pub fn min_version(self, version: String) -> (b: ServiceDefinitionBuilder)
        requires
            self.wf(),
        ensures
            b.wf(),
            b@ == (DefinitionModel { min_version: version@, ..self@ }),
    {
        ServiceDefinitionBuilder {
            definition: DefinitionRecord { min_version: version, ..self.definition },
        }
    }

    /// Replaces the allowed versions, keeping their order.
    pub fn version_allow_list(self, versions: Vec<String>) -> (b: ServiceDefinitionBuilder)
        requires
            self.wf(),
        ensures
            b.wf(),
            b@ == (DefinitionModel { version_allow_list: version_texts(versions@), ..self@ }),
    {
        ServiceDefinitionBuilder {
            definition: DefinitionRecord { version_allow_list: versions, ..self.definition },
        }
    }

    /// Sets a label.
    pub fn label(self, key: String, value: String) -> (b: ServiceDefinitionBuilder)
        requires
            self.wf(),
        ensures
            b.wf(),
            b@ == (DefinitionModel { labels: self@.labels.insert(key@, value@), ..self@ }),
    {
        let mut definition = self.definition;
        definition.set_label(key, value);
        ServiceDefinitionBuilder { definition }
    }

    /// The definition, without any validation.
    pub fn build(self) -> (d: DefinitionRecord)
        requires
            self.wf(),
        ensures
            d.wf(),
            d@ == self@,
    {
        self.definition
    }

    /// Decides where the definition is written.
    pub fn install_in(
        self,
        root: &NativePath,
        ensured: Result<(), IoFailure>,
        private: Result<bool, IoFailure>,
    ) -> (r: Result<(NativePath, DefinitionRecord), ServiceDefinitionError>)
        requires
            self.wf(),
        ensures
            match r {
                Ok((path, d)) => {
                    &&& ensured is Ok
                    &&& private == Ok::<bool, IoFailure>(true)
                    &&& name_flaw(self@.service_name) is None
                    &&& path@ == definition_file(root@, self@.service_name)
                    &&& d@ == self@
                    &&& d.wf()
                },
                Err(e) => match (ensured, private) {
                    (Err(failure), _) => e == ServiceDefinitionError::Io(failure),
                    (Ok(()), Err(failure)) => e == ServiceDefinitionError::Io(failure),
                    (Ok(()), Ok(is_private)) => if is_private {
                        rejects_name(e, self@.service_name)
                    } else {
                        e matches ServiceDefinitionError::InsecureDirectory(p) && p@ == root@
                    },
                },
            },
    {
        let d = self.build();
        match write_service_definition_v2(root, &d, ensured, private) {
            Ok(path) => Ok((path, d)),
            Err(e) => Err(e),
        }
    }
}

/// The file of a service stands in the directory under the name of the service with
/// the extension of this generation, and no two services share a file.
pub proof fn law_services_have_their_own_file(root: Seq<u8>, a: Seq<char>, b: Seq<char>)
    ensures
        definition_file(root, a) == below(root, a + ".servicedef.v2"@),
        a != b ==> definition_file(root, a) != definition_file(root, b),
{
    reveal_strlit(".");
    reveal_strlit("servicedef.v2");
    reveal_strlit(".servicedef.v2");
    let x = a + "."@ + "servicedef.v2"@;
    let y = b + "."@ + "servicedef.v2"@;
    assert(x =~= a + ".servicedef.v2"@);
    if a != b {
        if x == y {
            assert(x.take(x.len() - 14) =~= a);
            assert(y.take(y.len() - 14) =~= b);
        }
        crate::native_path::law_names_tell_paths_apart(root, x, y);
    }
}

/// A name is rejected only for a flaw that it has, as a name that is not valid, and
/// the error shows the name and the flaw.
pub proof fn law_rejected_names_have_a_flaw(e: ServiceDefinitionError, service_name: Seq<char>)
    requires
        rejects_name(e, service_name),
    ensures
        e is InvalidName,
        name_flaw(service_name) is Some,
        e->InvalidName_0 matches PipePathError::InvalidName { name, reason } && name@ == service_name
            && reason@ == (name_flaw(service_name)->0).text(),
{
}

} // verus!
