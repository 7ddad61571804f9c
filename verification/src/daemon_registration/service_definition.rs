//! Service definitions: where they live, what they hold, and why one is not
//! accepted.

use crate::native_path::{below, lossy_text, NativePath};
use crate::daemon_registration::validation::{quoted, quoted_text, PipePathError};
use crate::errors::IoFailure;
use crate::keyed::{
    contents, distinct_keys, lemma_contents_at, lemma_contents_domain, lemma_contents_push,
    lemma_contents_update,
};
use crate::text::same_text;
use vstd::prelude::*;
use vstd::string::*;

verus! {

/// The directory of service definitions: the configured one, unless it is empty,
/// or the one below the configuration of this product.
pub fn service_definition_dir(configured: Option<&NativePath>, config_dir: &NativePath) -> (p:
    NativePath)
    ensures
        p@ == (match configured {
            Some(dir) => if dir@.len() > 0 {
                dir@
            } else {
                below(config_dir@, "services"@)
            },
            None => below(config_dir@, "services"@),
        }),
{
    match configured {
        Some(dir) => if !dir.is_empty() {
            dir.copied()
        } else {
            config_dir.join("services")
        },
        None => config_dir.join("services"),
    }
}

/// Why a service definition cannot be loaded or written.
#[derive(Clone, Debug, PartialEq, Eq)]
pub enum ServiceDefinitionError {
    /// A filesystem operation failed.
    Io(IoFailure),
    /// The record cannot be decoded.
    Decode(String),
    /// The name or the version is not valid.
    InvalidName(PipePathError),
    /// The directory is open to others.
    InsecureDirectory(NativePath),
    /// The record is for another service.
    ServiceNameMismatch {
        /// Service that was asked for.
        requested: String,
        /// Service of the record.
        actual: String,
    },
    /// A path is empty or relative.
    InvalidPath {
        /// Name of the field.
        field: &'static str,
        /// Its value.
        path: String,
        /// Why it was rejected.
        reason: &'static str,
    },
    /// The isolation fields do not fit together.
    InvalidIsolation {
        /// Why they were rejected.
        reason: &'static str,
    },
}

/// The text about another service, given both names in quotes.
pub open spec fn mismatch_text(requested: Seq<char>, actual: Seq<char>) -> Seq<char> {
    "service-definition requested "@ + requested + " but file declares "@ + actual
}

/// The text about a path, given the path in quotes.
pub open spec fn path_text(field: Seq<char>, path: Seq<char>, reason: Seq<char>) -> Seq<char> {
    "service-definition "@ + field + " is invalid: "@ + path + " ("@ + reason + ")"@
}

/// The text about another service, given both names in quotes.
pub fn mismatch_message(requested: &str, actual: &str) -> (s: String)
    ensures
        s@ == mismatch_text(requested@, actual@),
{
    let mut s: String = "service-definition requested ".to_owned();
    s.append(requested);
    s.append(" but file declares ");
    s.append(actual);
    s
}

/// The text about a path, given the path in quotes.
pub fn path_message(field: &str, path: &str, reason: &str) -> (s: String)
    ensures
        s@ == path_text(field@, path@, reason@),
{
    let mut s: String = "service-definition ".to_owned();
    s.append(field);
    s.append(" is invalid: ");
    s.append(path);
    s.append(" (");
    s.append(reason);
    s.append(")");
    s
}

impl ServiceDefinitionError {
    /// Text of this error.
    pub open spec fn text(self) -> Seq<char> {
        match self {
            ServiceDefinitionError::Io(failure) => "service-definition I/O failed: "@
                + failure.text@,
            ServiceDefinitionError::Decode(detail) => "service-definition protobuf decode failed: "@
                + detail@,
            ServiceDefinitionError::InvalidName(e) => e.text(),
            ServiceDefinitionError::InsecureDirectory(path) => "service-definition directory has insecure permissions: "@
                + lossy_text(path@),
            ServiceDefinitionError::ServiceNameMismatch { requested, actual } => mismatch_text(
                quoted_text(requested@),
                quoted_text(actual@),
            ),
            ServiceDefinitionError::InvalidPath { field, path, reason } => path_text(
                field@,
                quoted_text(path@),
                reason@,
            ),
            ServiceDefinitionError::InvalidIsolation { reason } => "service-definition isolation is invalid: "@
                + reason@,
        }
    }

    /// Text of this error.
    pub fn message(&self) -> (s: String)
        ensures
            s@ == self.text(),
    {
        match self {
            ServiceDefinitionError::Io(failure) => {
                let mut s: String = "service-definition I/O failed: ".to_owned();
                s.append(failure.text.as_str());
                s
            },
            ServiceDefinitionError::Decode(detail) => {
                let mut s: String = "service-definition protobuf decode failed: ".to_owned();
                s.append(detail.as_str());
                s
            },
            ServiceDefinitionError::InvalidName(e) => e.message(),
            ServiceDefinitionError::InsecureDirectory(path) => {
                let mut s: String = "service-definition directory has insecure permissions: ".to_owned();
                s.append(path.shown().as_str());
                s
            },
            ServiceDefinitionError::ServiceNameMismatch { requested, actual } => mismatch_message(
                quoted(requested.as_str()).as_str(),
                quoted(actual.as_str()).as_str(),
            ),
            ServiceDefinitionError::InvalidPath { field, path, reason } => path_message(
                field,
                quoted(path.as_str()).as_str(),
                reason,
            ),
            ServiceDefinitionError::InvalidIsolation { reason } => {
                let mut s: String = "service-definition isolation is invalid: ".to_owned();
                s.append(reason);
                s
            },
        }
    }
}

/// Judges a directory of service definitions: whether it could be made private,
/// and whether it is.
pub fn ensure_service_definition_dir(
    path: &NativePath,
    ensured: Result<(), IoFailure>,
    private: Result<bool, IoFailure>,
) -> (r: Result<(), ServiceDefinitionError>)
    ensures
        match r {
            Ok(()) => ensured is Ok && private == Ok::<bool, IoFailure>(true),
            Err(e) => match (ensured, private) {
                (Err(failure), _) => e == ServiceDefinitionError::Io(failure),
                (Ok(()), Err(failure)) => e == ServiceDefinitionError::Io(failure),
                (Ok(()), Ok(is_private)) => !is_private
                    && (e matches ServiceDefinitionError::InsecureDirectory(p) && p@ == path@),
            },
        },
{
    match ensured {
        Err(failure) => Err(ServiceDefinitionError::Io(failure)),
        Ok(()) => match private {
            Err(failure) => Err(ServiceDefinitionError::Io(failure)),
            Ok(is_private) => if is_private {
                Ok(())
            } else {
                Err(ServiceDefinitionError::InsecureDirectory(path.copied()))
            },
        },
    }
}

/// Which broker a service uses.
#[derive(Clone, Copy, Debug, PartialEq, Eq, Structural)]
pub enum BrokerIsolation {
    /// The one that the user's services share.
    SharedBroker,
    /// One of its own.
    PrivateBroker,
    /// A named instance.
    ExplicitInstance,
}

/// A service definition.
#[derive(Clone, Debug, PartialEq, Eq)]
pub struct DefinitionRecord {
    /// Name of the service.
    pub service_name: String,
    /// Path of its binary.
    pub binary_path: String,
    /// Which broker it uses.
    pub isolation: BrokerIsolation,
    /// Name of the broker instance.
    pub explicit_instance: String,
    /// Directory with the binaries of all versions.
    pub per_version_binary_dir: String,
    /// Lowest compatible version.
    pub min_version: String,
    /// Allowed versions, in order.
    pub version_allow_list: Vec<String>,
    /// Labels, each key once.
    pub labels: Vec<(String, String)>,
    /// Encoded HTTP capability, if the definition has one.
    pub http_server: Option<Vec<u8>>,
}

/// Labels as plain values.
pub open spec fn label_entries(labels: Seq<(String, String)>) -> Seq<(Seq<char>, Seq<char>)> {
    labels.map_values(|l: (String, String)| (l.0@, l.1@))
}

/// The texts of some strings.
pub open spec fn version_texts(versions: Seq<String>) -> Seq<Seq<char>> {
    versions.map_values(|v: String| v@)
}

/// What a [`DefinitionRecord`] says.
#[verifier::ext_equal]
pub struct DefinitionModel {
    /// Name of the service.
    pub service_name: Seq<char>,
    /// Path of its binary.
    pub binary_path: Seq<char>,
    /// Which broker it uses.
    pub isolation: BrokerIsolation,
    /// Name of the broker instance.
    pub explicit_instance: Seq<char>,
    /// Directory with the binaries of all versions.
    pub per_version_binary_dir: Seq<char>,
    /// Lowest compatible version.
    pub min_version: Seq<char>,
    /// Allowed versions, in order.
    pub version_allow_list: Seq<Seq<char>>,
    /// Labels.
    pub labels: Map<Seq<char>, Seq<char>>,
    /// The encoded HTTP capability, if there is one.
    pub http_server: Option<Seq<u8>>,
}

impl View for DefinitionRecord {
    type V = DefinitionModel;

    open spec fn view(&self) -> DefinitionModel {
        DefinitionModel {
            service_name: self.service_name@,
            binary_path: self.binary_path@,
            isolation: self.isolation,
            explicit_instance: self.explicit_instance@,
            per_version_binary_dir: self.per_version_binary_dir@,
            min_version: self.min_version@,
            version_allow_list: version_texts(self.version_allow_list@),
            labels: contents(label_entries(self.labels@)),
            http_server: match self.http_server {
                Some(bytes) => Some(bytes@),
                None => None,
            },
        }
    }
}

/// A definition that says nothing but its service, its binary and its broker.
pub open spec fn bare_definition(
    service_name: Seq<char>,
    binary_path: Seq<char>,
    isolation: BrokerIsolation,
    explicit_instance: Seq<char>,
) -> DefinitionModel {
    DefinitionModel {
        service_name,
        binary_path,
        isolation,
        explicit_instance,
        per_version_binary_dir: Seq::empty(),
        min_version: Seq::empty(),
        version_allow_list: Seq::empty(),
        labels: Map::empty(),
        http_server: None,
    }
}

impl DefinitionRecord {
    /// Whether each label key occurs once.
    pub open spec fn wf(&self) -> bool {
        distinct_keys(label_entries(self.labels@))
    }

    /// A definition that says nothing but its service, its binary and its broker.
    pub fn bare(
        service_name: String,
        binary_path: String,
        isolation: BrokerIsolation,
        explicit_instance: String,
    ) -> (d: DefinitionRecord)
        ensures
            d.wf(),
            d@ == bare_definition(service_name@, binary_path@, isolation, explicit_instance@),
    {
        let d = DefinitionRecord {
            service_name,
            binary_path,
            isolation,
            explicit_instance,
            per_version_binary_dir: String::new(),
            min_version: String::new(),
            version_allow_list: Vec::new(),
            labels: Vec::new(),
            http_server: None,
        };
        assert(d@.per_version_binary_dir =~= Seq::<char>::empty());
        assert(d@.min_version =~= Seq::<char>::empty());
        assert(d@.version_allow_list =~= Seq::<Seq<char>>::empty());
        d
    }

    /// Sets a label.
    pub fn set_label(&mut self, key: String, value: String)
        requires
            old(self).wf(),
        ensures
            final(self).wf(),
            final(self)@ == (DefinitionModel {
                labels: old(self)@.labels.insert(key@, value@),
                ..old(self)@
            }),
    {
        let ghost before = label_entries(self.labels@);
        let mut i: usize = 0;
        while i < self.labels.len()
            invariant
                i <= self.labels@.len(),
                *self == *old(self),
                before == label_entries(self.labels@),
                distinct_keys(before),
                forall|j: int| 0 <= j < i ==> (#[trigger] before[j]).0 != key@,
            decreases self.labels@.len() - i,
        {
            assert(before[i as int].0 == self.labels@[i as int].0@);
            if same_text(self.labels[i].0.as_str(), key.as_str()) {
                proof {
                    lemma_contents_update(before, i as int, value@);
                }
                self.labels[i].1 = value;
                assert(label_entries(self.labels@) =~= before.update(
                    i as int,
                    (before[i as int].0, value@),
                ));
                return;
            }
            i = i + 1;
        }
        proof {
            lemma_contents_push(before, key@, value@);
        }
        self.labels.push((key, value));
        assert(label_entries(self.labels@) =~= before.push((key@, value@)));
    }

    /// The value of a label.
    pub fn label(&self, key: &str) -> (r: Option<&str>)
        requires
            self.wf(),
        ensures
            match r {
                Some(value) => self@.labels.dom().contains(key@) && value@ == self@.labels[key@],
                None => !self@.labels.dom().contains(key@),
            },
    {
        let ghost entries = label_entries(self.labels@);
        let mut i: usize = 0;
        while i < self.labels.len()
            invariant
                i <= self.labels@.len(),
                entries == label_entries(self.labels@),
                distinct_keys(entries),
                self@.labels == contents(entries),
                forall|j: int| 0 <= j < i ==> (#[trigger] entries[j]).0 != key@,
            decreases self.labels@.len() - i,
        {
            assert(entries[i as int] == (self.labels@[i as int].0@, self.labels@[i as int].1@));
            if same_text(self.labels[i].0.as_str(), key) {
                proof {
                    lemma_contents_at(entries, i as int);
                }
                return Some(self.labels[i].1.as_str());
            }
            i = i + 1;
        }
        proof {
            lemma_contents_domain(entries, key@);
        }
        None
    }
}

/// A definition that was only begun says its service, its binary and its broker, and
/// nothing else.
pub proof fn law_begun_definitions_are_bare(
    service_name: Seq<char>,
    binary_path: Seq<char>,
    isolation: BrokerIsolation,
    explicit_instance: Seq<char>,
    key: Seq<char>,
)
    ensures
        ({
            let d = bare_definition(service_name, binary_path, isolation, explicit_instance);
            &&& d.service_name == service_name
            &&& d.binary_path == binary_path
            &&& d.isolation == isolation
            &&& d.explicit_instance == explicit_instance
            &&& d.per_version_binary_dir.len() == 0
            &&& d.min_version.len() == 0
            &&& d.version_allow_list.len() == 0
            &&& !d.labels.dom().contains(key)
            &&& d.http_server is None
        }),
{
}

/// What a definition says is what stands in its record: the texts, the versions in
/// their order, and each label under its key.
pub proof fn law_records_say_what_they_hold(d: DefinitionRecord, i: int)
    requires
        d.wf(),
    ensures
        d@.service_name == d.service_name@,
        d@.binary_path == d.binary_path@,
        d@.isolation == d.isolation,
        d@.explicit_instance == d.explicit_instance@,
        d@.per_version_binary_dir == d.per_version_binary_dir@,
        d@.min_version == d.min_version@,
        d@.version_allow_list.len() == d.version_allow_list@.len(),
        0 <= i < d.version_allow_list@.len() ==> d@.version_allow_list[i]
            == d.version_allow_list@[i]@,
        0 <= i < d.labels@.len() ==> d@.labels.dom().contains(d.labels@[i].0@)
            && d@.labels[d.labels@[i].0@] == d.labels@[i].1@,
        d.http_server is Some <==> d@.http_server is Some,
        d.http_server matches Some(bytes) ==> d@.http_server == Some(bytes@),
{
    if 0 <= i < d.labels@.len() {
        lemma_contents_at(label_entries(d.labels@), i);
    }
}

/// A failure of the filesystem, a record that cannot be decoded and an isolation that
/// does not fit are reported with their cause at the end, and a name that is not
/// valid as what is wrong with the name.
pub proof fn law_errors_end_with_their_cause(e: ServiceDefinitionError)
    ensures
        match e {
            ServiceDefinitionError::Io(failure) => failure.text@.is_suffix_of(e.text()),
            ServiceDefinitionError::Decode(detail) => detail@.is_suffix_of(e.text()),
            ServiceDefinitionError::InvalidName(inner) => e.text() == inner.text(),
            ServiceDefinitionError::InsecureDirectory(path) => lossy_text(path@).is_suffix_of(
                e.text(),
            ),
            ServiceDefinitionError::ServiceNameMismatch { requested, actual } => quoted_text(
                actual@,
            ).is_suffix_of(e.text()),
            ServiceDefinitionError::InvalidPath { .. } => true,
            ServiceDefinitionError::InvalidIsolation { reason } => reason@.is_suffix_of(e.text()),
        },
{
}

} // verus!
