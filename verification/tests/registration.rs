//! Registration records: names, directories, builders and error classes.

use running_process::daemon_registration::compat::{
    self, manifest_error, registration_mismatch_message, CacheManifest, CacheManifestBuilder,
    CacheRoot, CacheRootKind, DaemonRegistrationError, ManifestError, ManifestStamp,
    RootKindNumbers,
};
use running_process::daemon_registration::service_definition::{
    ensure_service_definition_dir, service_definition_dir, BrokerIsolation, DefinitionRecord,
    ServiceDefinitionError,
};
use running_process::daemon_registration::v2::{
    service_definition_dir_v2, service_definition_path_v2, write_service_definition_v2,
    ServiceDefinitionBuilder, SERVICE_DEF_V2_EXTENSION,
};
use running_process::daemon_registration::v2_compat::{self, DaemonRegistrationV2Error};
use running_process::daemon_registration::validation::{
    validate_service_name, validate_version, PipePathError,
};
use running_process::errors::{ErrorKind, IoFailure};
use running_process::native_path::NativePath;

fn native(text: &str) -> NativePath {
    NativePath::new(text.as_bytes().to_vec())
}

fn denied() -> IoFailure {
    IoFailure {
        kind: ErrorKind::PermissionDenied,
        raw_os_error: Some(13),
        text: "Permission denied (os error 13)".to_string(),
    }
}

const NUMBERS: RootKindNumbers = RootKindNumbers {
    cache_data: 1,
    cache_index: 2,
    cache_logs: 3,
    cache_locks: 4,
    cache_tmp: 5,
};

#[test]
fn unknown_cache_root_discriminants_and_borrowed_paths_survive() {
    for raw in [-7, 713, i32::MAX] {
        assert_eq!(
            CacheRootKind::from_backend(raw, NUMBERS),
            CacheRootKind::Unknown(raw)
        );
        assert_eq!(
            CacheRootKind::from_backend(raw, NUMBERS).into_backend(NUMBERS),
            raw
        );
    }
    let path = String::from("/cache/retained");
    let root = CacheRoot::new(CacheRootKind::Unknown(713), &path);
    assert_eq!(root.kind(), CacheRootKind::Unknown(713));
    assert_eq!(root.path().as_ptr(), path.as_ptr());
}

#[test]
fn known_cache_root_kinds_survive() {
    for kind in [
        CacheRootKind::CacheData,
        CacheRootKind::CacheIndex,
        CacheRootKind::CacheLogs,
        CacheRootKind::CacheLocks,
        CacheRootKind::CacheTmp,
    ] {
        assert_eq!(
            CacheRootKind::from_backend(kind.into_backend(NUMBERS), NUMBERS),
            kind
        );
    }
}

#[test]
fn integrity_schema_and_io_failures_keep_distinct_classifications() {
    assert!(matches!(
        manifest_error(ManifestError::Corruption),
        DaemonRegistrationError::ManifestIntegrityFailure
    ));
    assert!(matches!(
        manifest_error(ManifestError::SchemaTooNew {
            got: 99,
            supported: 1,
        }),
        DaemonRegistrationError::UnsupportedManifestSchema {
            got: 99,
            supported: 1
        }
    ));
    let error = manifest_error(ManifestError::Io(denied()));
    assert!(error.source().is_some());
    let DaemonRegistrationError::Io(source) = error else {
        panic!("I/O error expected")
    };
    assert_eq!(source.raw_os_error, Some(13));
}

#[test]
fn registration_errors_have_their_texts() {
    let text = |error: DaemonRegistrationError| error.message();
    assert_eq!(
        text(manifest_error(ManifestError::SchemaTooNew { got: 9, supported: 1 })),
        "unsupported manifest schema 9; supported through 1"
    );
    assert_eq!(
        text(DaemonRegistrationError::ServiceNameMismatch {
            requested: "a\"b".to_string(),
            actual: "c".to_string(),
        }),
        format!("requested service {:?}, found {:?}", "a\"b", "c")
    );
    assert_eq!(
        registration_mismatch_message("\"a\"", "\"b\""),
        "requested service \"a\", found \"b\""
    );
    assert_eq!(
        text(DaemonRegistrationError::InvalidServicePath {
            field: "binary_path",
            path: "x\ty".to_string(),
            reason: "relative",
        }),
        format!("invalid service-definition binary_path {:?}: relative", "x\ty")
    );
    assert_eq!(
        text(DaemonRegistrationError::Io(denied())),
        "daemon registration I/O failed: Permission denied (os error 13)"
    );
    assert_eq!(
        text(manifest_error(ManifestError::Decode)),
        "malformed frozen v1 registration record"
    );
    assert_eq!(
        text(manifest_error(ManifestError::Encode)),
        "frozen v1 registration serialization failed"
    );
    assert_eq!(
        text(manifest_error(ManifestError::MissingParent(native("/")))),
        "registration path has no parent: /"
    );
    assert_eq!(
        text(manifest_error(ManifestError::InsecureRegistry(native("/r")))),
        "registration directory is not owner-private: /r"
    );
    assert_eq!(
        text(compat::service_error(ServiceDefinitionError::InvalidIsolation {
            reason: "both"
        })),
        "invalid service-definition isolation: both"
    );
    let name = validate_service_name("BAD").unwrap_err();
    let detail = name.message();
    assert_eq!(
        text(manifest_error(ManifestError::InvalidName(name))),
        format!("invalid frozen v1 service name or version: {detail}")
    );
}

fn stamp() -> ManifestStamp {
    ManifestStamp {
        broker_envelope_version: "v1".to_string(),
        schema_version: 1,
        media_type: "m".to_string(),
        created_at_unix_ms: 10,
        last_active_unix_ms: 11,
        has_host_identity: true,
    }
}

#[test]
fn manifests_keep_their_roots_in_order() {
    let builder = CacheManifestBuilder::new("zccache".to_string(), "1.2.3".to_string())
        .broker_instance("shared".to_string())
        .root(CacheRootKind::CacheTmp, "/tmp/a".to_string(), NUMBERS)
        .root(CacheRootKind::Unknown(77), "/odd".to_string(), NUMBERS);
    let unsealed = builder.unsealed(&stamp());
    assert!(unsealed.self_sha256.is_empty());
    assert_eq!(unsealed.stamp, stamp());
    assert_eq!(unsealed.roots.len(), 2);
    assert!(!CacheManifest::from_backend(unsealed).has_sha256_seal());
    let manifest = builder.clone().build(Ok((stamp(), [7; 32]))).ok().unwrap();
    assert_eq!(manifest.service_name(), "zccache");
    assert_eq!(manifest.service_version(), "1.2.3");
    assert_eq!(manifest.broker_envelope_version(), "v1");
    assert_eq!(manifest.broker_instance(), "shared");
    assert_eq!(manifest.schema_version(), 1);
    assert_eq!(manifest.media_type(), "m");
    assert_eq!(manifest.created_at_unix_ms(), 10);
    assert_eq!(manifest.last_active_unix_ms(), 11);
    assert!(manifest.has_host_identity());
    assert!(manifest.has_sha256_seal());
    let roots = manifest.roots(NUMBERS);
    assert_eq!(roots.len(), 2);
    assert_eq!((roots[0].kind(), roots[0].path()), (CacheRootKind::CacheTmp, "/tmp/a"));
    assert_eq!((roots[1].kind(), roots[1].path()), (CacheRootKind::Unknown(77), "/odd"));
    assert!(matches!(
        builder.build(Err(ManifestError::Encode)),
        Err(DaemonRegistrationError::Serialization)
    ));
    assert!(matches!(
        CacheManifest::read(Err(ManifestError::Corruption)),
        Err(DaemonRegistrationError::ManifestIntegrityFailure)
    ));
}

#[test]
fn shared_definitions_collect_versions_and_labels() {
    let definition = compat::ServiceDefinitionBuilder::shared_broker(
        "svc".to_string(),
        "/bin/x".to_string(),
    )
    .per_version_binary_dir("/bin".to_string())
    .min_version("1.0.0".to_string())
    .allow_version("2.0.0".to_string())
    .allow_version("1.0.0".to_string())
    .label("a".to_string(), "1".to_string())
    .label("a".to_string(), "2".to_string())
    .build(Ok(()))
    .ok()
    .unwrap();
    assert_eq!(definition.service_name(), "svc");
    assert_eq!(definition.binary_path(), "/bin/x");
    assert!(definition.is_shared_broker());
    assert_eq!(definition.per_version_binary_dir(), "/bin");
    assert_eq!(definition.min_version(), "1.0.0");
    assert_eq!(definition.allowed_versions(), &["2.0.0", "1.0.0"]);
    assert_eq!(definition.label("a"), Some("2"));
    assert_eq!(definition.label("b"), None);
}

#[test]
fn extension_is_servicedef_v2() {
    assert_eq!(SERVICE_DEF_V2_EXTENSION, "servicedef.v2");
}

#[test]
fn service_definition_path_v2_uses_v2_extension() {
    let path = service_definition_path_v2(&native("/svc"), "zccache").expect("valid path");
    assert_eq!(path.shown().replace('\\', "/"), "/svc/zccache.servicedef.v2");
}

#[test]
fn service_definition_path_v2_rejects_invalid_name() {
    assert!(service_definition_path_v2(&native("/svc"), "ZCCACHE").is_err());
    assert!(service_definition_path_v2(&native("/svc"), "").is_err());
    assert!(service_definition_path_v2(&native("/svc"), "a/b").is_err());
}

#[test]
fn shared_broker_builder_sets_expected_fields() {
    let definition = ServiceDefinitionBuilder::shared_broker(
        "zccache".to_string(),
        "/usr/bin/zccache".to_string(),
    )
    .build();
    assert_eq!(definition.service_name, "zccache");
    assert_eq!(definition.binary_path, "/usr/bin/zccache");
    assert_eq!(definition.isolation, BrokerIsolation::SharedBroker);
    assert!(definition.explicit_instance.is_empty());
    assert!(definition.http_server.is_none());
}

#[test]
fn private_broker_builder_sets_expected_fields() {
    let definition =
        ServiceDefinitionBuilder::private_broker("svc".to_string(), "/bin/x".to_string()).build();
    assert_eq!(definition.isolation, BrokerIsolation::PrivateBroker);
}

#[test]
fn explicit_instance_builder_sets_expected_fields() {
    let definition = ServiceDefinitionBuilder::explicit_instance(
        "svc".to_string(),
        "/bin/x".to_string(),
        "ci-trusted".to_string(),
    )
    .build();
    assert_eq!(definition.isolation, BrokerIsolation::ExplicitInstance);
    assert_eq!(definition.explicit_instance, "ci-trusted");
}

#[test]
fn builder_chain_propagates_optional_fields() {
    let definition =
        ServiceDefinitionBuilder::shared_broker("svc".to_string(), "/bin/x".to_string())
            .per_version_binary_dir("/usr/local/bin".to_string())
            .min_version("1.2.3".to_string())
            .version_allow_list(vec!["1.2.3".to_string(), "1.3.0".to_string()])
            .label("env".to_string(), "prod".to_string())
            .label("region".to_string(), "us-west".to_string())
            .build();
    assert_eq!(definition.per_version_binary_dir, "/usr/local/bin");
    assert_eq!(definition.min_version, "1.2.3");
    assert_eq!(definition.version_allow_list, vec!["1.2.3", "1.3.0"]);
    assert_eq!(definition.label("env"), Some("prod"));
    assert_eq!(definition.label("region"), Some("us-west"));
    assert!(definition.http_server.is_none());
}

#[test]
fn write_service_definition_v2_rejects_invalid_name() {
    let bad = DefinitionRecord::bare(
        "BAD-Caps".to_string(),
        String::new(),
        BrokerIsolation::SharedBroker,
        String::new(),
    );
    assert!(write_service_definition_v2(&native("/root"), &bad, Ok(()), Ok(true)).is_err());
}

#[test]
fn definitions_are_written_only_into_private_directories() {
    let good = DefinitionRecord::bare(
        "svc".to_string(),
        String::new(),
        BrokerIsolation::SharedBroker,
        String::new(),
    );
    assert_eq!(
        write_service_definition_v2(&native("/root"), &good, Ok(()), Ok(true)).unwrap(),
        native("/root/svc.servicedef.v2")
    );
    assert!(matches!(
        write_service_definition_v2(&native("/root"), &good, Ok(()), Ok(false)),
        Err(ServiceDefinitionError::InsecureDirectory(path)) if path == native("/root")
    ));
    assert!(matches!(
        write_service_definition_v2(&native("/root"), &good, Err(denied()), Ok(true)),
        Err(ServiceDefinitionError::Io(_))
    ));
    assert!(ensure_service_definition_dir(&native("/root"), Ok(()), Ok(true)).is_ok());
    assert!(ensure_service_definition_dir(&native("/root"), Ok(()), Err(denied())).is_err());
    assert_eq!(service_definition_dir(Some(&native("/d")), &native("/c")), native("/d"));
    assert_eq!(
        service_definition_dir(Some(&native("")), &native("/c")),
        native("/c/services")
    );
    assert_eq!(service_definition_dir_v2(None, &native("/c")), native("/c/services"));
}

#[test]
fn compatibility_builder_retains_order_and_shared_isolation() {
    let definition = v2_compat::ServiceDefinitionBuilder::shared_broker(
        "service".to_string(),
        "/bin/service".to_string(),
    )
    .allow_version("2.0.0".to_string())
    .allow_version("1.0.0".to_string())
    .label("vendor".to_string(), "first".to_string())
    .label("vendor".to_string(), "last".to_string())
    .build();
    assert!(definition.is_shared_broker());
    assert_eq!(definition.allowed_versions(), &["2.0.0", "1.0.0"]);
    assert_eq!(definition.label("vendor"), Some("last"));
    assert_eq!(definition.labels().len(), 1);
}

#[test]
fn compatibility_io_error_keeps_original_os_error_and_source() {
    let error = v2_compat::service_error(ServiceDefinitionError::Io(denied()));
    assert!(error.source().is_some());
    let DaemonRegistrationV2Error::Io(source) = error else {
        panic!("I/O classification must remain intact");
    };
    assert_eq!(source.raw_os_error, Some(13));
}

#[test]
fn second_generation_errors_have_their_texts() {
    let isolation = ServiceDefinitionError::InvalidIsolation { reason: "both" };
    let detail = isolation.message();
    let error = v2_compat::service_error(isolation);
    assert_eq!(
        error.message(),
        format!("invalid frozen v2 service definition: {detail}")
    );
    assert!(error.source().is_none());
    assert_eq!(
        v2_compat::service_error(ServiceDefinitionError::InsecureDirectory(native("/r")))
            .message(),
        "v2 service-definition directory is not owner-private: /r"
    );
    assert!(v2_compat::service_definition_path(&native("/svc"), "Up")
        .unwrap_err()
        .message()
        .starts_with("invalid frozen v2 service name: "));
    let builder =
        v2_compat::ServiceDefinitionBuilder::shared_broker("svc".to_string(), "/b".to_string());
    let (path, definition) = builder.install_in(&native("/svc"), Ok(()), Ok(true)).ok().unwrap();
    assert_eq!(path, native("/svc/svc.servicedef.v2"));
    assert_eq!(definition.record().service_name, "svc");
    assert_eq!(
        v2_compat::service_definition_directory(None, &native("/c")),
        native("/c/services")
    );
    assert_eq!(
        compat::service_definition_directory(Some(&native("/x")), &native("/c")),
        native("/x")
    );
}

#[test]
fn names_and_versions_are_checked() {
    for good in ["zccache", "a", "a-b9"] {
        assert!(validate_service_name(good).is_ok(), "{good}");
    }
    for bad in ["", "A", "a_b", "a/b", "a b"] {
        assert!(validate_service_name(bad).is_err(), "{bad}");
    }
    for good in ["1.2.3", "0.0.0", "1.2.3-rc.1", "10.20.30"] {
        assert!(validate_version(good).is_ok(), "{good}");
    }
    for bad in ["", "1.2", "1.2.3.4", "a.b.c", "1.2.3-", "1..3", "1.2.3+build", "1.2.3-RC"] {
        assert!(validate_version(bad).is_err(), "{bad}");
    }
    match validate_service_name("a\"B") {
        Err(PipePathError::InvalidName { name, reason }) => {
            assert_eq!(name, "a\"B");
            let message = PipePathError::InvalidName { name, reason }.message();
            assert!(message.contains(&format!("{:?}", "a\"B")));
        }
        _ => panic!("invalid"),
    }
}
