//! Environment variables, environments, paths, deadlines and maintenance.

use running_process::cleanup::instances::{instance_dirs, list, render_json};
use running_process::cleanup::verify_basic::{
    self, run, HostIdentity, ManifestFacts, NamedDaemon, RegistryEntry, Severity,
};
use running_process::client::deadline_io::{
    check_frame_len, connect_timeout, connect_timeout_message, DEFAULT_CONNECT_TIMEOUT_MS,
};
use running_process::client::paths::{
    db_path_view, pid_file_path_view, shadow_dir_view, socket_path_view,
};
use running_process::env_vars::{
    flag_foreign, flag_opt_out, flag_owned, EnvKind, Owner, Variable, DECLARED,
};
use running_process::environment::{environment_keys_match, materialize_environment};
use running_process::errors::ErrorKind;
use running_process::frame_v1::MAX_FRAME_BYTES;
use running_process::host::HostOs;
use running_process::maintenance::release_handles::{
    run_release_handles, ReleaseHandlesError,
};
use running_process::native_path::NativePath;
use running_process::EnvironmentPolicy;

fn native(text: &str) -> NativePath {
    NativePath::new(text.as_bytes().to_vec())
}

#[test]
fn check_frame_len_accepts_within_cap() {
    assert!(check_frame_len(0).is_ok());
    assert!(check_frame_len(MAX_FRAME_BYTES).is_ok());
}

#[test]
fn check_frame_len_rejects_over_cap() {
    let err = check_frame_len(MAX_FRAME_BYTES + 1).unwrap_err();
    assert_eq!(err.kind(), ErrorKind::InvalidData);
}

#[test]
fn check_frame_len_rejects_bogus_u32_max() {
    assert!(check_frame_len(u32::MAX as usize).is_err());
}

#[test]
fn connect_timeouts_come_from_a_number() {
    assert_eq!(connect_timeout(Some("250")), 250);
    assert_eq!(connect_timeout(Some("x")), DEFAULT_CONNECT_TIMEOUT_MS);
    assert_eq!(connect_timeout(None), DEFAULT_CONNECT_TIMEOUT_MS);
    assert!(connect_timeout_message(250, "/s").contains("250"));
    assert!(connect_timeout_message(250, "/s").contains("/s"));
}

fn pair(key: &str, value: &str) -> (String, String) {
    (key.to_string(), value.to_string())
}

#[test]
fn clear_uses_only_explicit_entries() {
    let env = materialize_environment(
        EnvironmentPolicy::Clear,
        &vec![pair("CLIENT_ONLY", "forwarded")],
        vec![],
        false,
    )
    .unwrap()
    .unwrap();
    assert_eq!(env, vec![pair("CLIENT_ONLY", "forwarded")]);
}

#[test]
fn empty_inherit_uses_native_inheritance() {
    assert_eq!(
        materialize_environment(EnvironmentPolicy::Inherit, &vec![], vec![pair("A", "1")], false)
            .unwrap(),
        None
    );
}

#[test]
fn unresolved_auto_is_rejected() {
    let error =
        materialize_environment(EnvironmentPolicy::Auto, &vec![], vec![], false).unwrap_err();
    assert_eq!(error.kind(), ErrorKind::InvalidInput);
    assert_eq!(
        error.message(),
        "Auto environment policy must be resolved before materialization"
    );
}

#[test]
fn explicit_entries_replace_by_this_hosts_name_comparison() {
    let explicit = vec![pair("ExampleVar", "first"), pair("EXAMPLEVAR", "second")];
    for ignore_case in [true, false] {
        let env = materialize_environment(EnvironmentPolicy::Clear, &explicit, vec![], ignore_case)
            .unwrap()
            .unwrap();
        if ignore_case {
            assert_eq!(
                env,
                vec![pair("EXAMPLEVAR", "second")],
                "one variable, last spelling and value win"
            );
        } else {
            assert_eq!(
                env,
                vec![pair("ExampleVar", "first"), pair("EXAMPLEVAR", "second")],
                "two distinct variables"
            );
        }
    }
}

#[test]
fn baselines_are_layered_under_explicit_entries() {
    let env = materialize_environment(
        EnvironmentPolicy::UserBaseline,
        &vec![pair("B", "new"), pair("C", "3")],
        vec![pair("A", "1"), pair("B", "old")],
        false,
    )
    .unwrap()
    .unwrap();
    assert_eq!(env, vec![pair("A", "1"), pair("B", "new"), pair("C", "3")]);
    assert!(environment_keys_match("Path", "PATH", true));
    assert!(!environment_keys_match("Path", "PATH", false));
}

#[test]
fn flags_have_three_dialects() {
    for on in ["1", "true", "yes", "on"] {
        assert!(flag_owned(Some(on)), "{on}");
    }
    for off in ["0", "false", "no", "off", ""] {
        assert!(!flag_owned(Some(off)), "{off}");
    }
    assert!(!flag_owned(None));
    assert!(!flag_foreign(None));
    assert!(flag_foreign(Some("true")));
    assert!(!flag_foreign(Some("0")));
    assert!(flag_opt_out(None) != flag_opt_out(Some("0")) || !flag_opt_out(Some("0")));
}

#[test]
fn every_variable_is_declared_once() {
    let mut names: Vec<&str> = DECLARED.iter().map(|v| v.name()).collect();
    assert_eq!(names.len(), 32);
    names.sort();
    names.dedup();
    assert_eq!(names.len(), 32);
    for variable in DECLARED {
        assert!(!variable.summary().is_empty());
        assert_eq!(variable.declaration().name, variable.name());
        if variable.owner() == Owner::Crate {
            assert!(variable.name().starts_with("RUNNING_PROCESS_"), "{}", variable.name());
        }
    }
    assert_eq!(Variable::Originator.name(), "RUNNING_PROCESS_ORIGINATOR");
    assert_eq!(Variable::Originator.kind(), EnvKind::Text);
}

#[test]
fn scopes_have_their_own_files() {
    assert_eq!(
        socket_path_view(Some("ab"), true, &native("/run/rp"), None),
        "/run/rp/daemon-ab.sock"
    );
    assert_eq!(socket_path_view(None, true, &native("/run/rp"), None), "/run/rp/daemon.sock");
    assert_eq!(
        socket_path_view(Some("ab"), false, &native(""), Some("me")),
        r"\\.\pipe\running-process-daemon-me-ab"
    );
    assert_eq!(
        socket_path_view(None, false, &native(""), None),
        r"\\.\pipe\running-process-daemon-unknown"
    );
    assert_eq!(pid_file_path_view(Some("ab"), &native("/run/rp")),
        native("/run/rp/daemon-ab.pid"));
    assert_eq!(db_path_view(None, &native("/state")), native("/state/tracked-pids.sqlite3"));
    assert_eq!(shadow_dir_view(&native("/cache")), native("/cache/run"));
}

#[test]
fn empty_path_returns_error() {
    let err = run_release_handles(HostOs::Linux, &native("")).unwrap_err();
    match err {
        ReleaseHandlesError::EmptyPath => {}
    }
}

#[test]
fn non_empty_path_returns_ok() {
    let outcome = run_release_handles(HostOs::Linux, &native("/tmp/example")).expect("ok");
    assert_eq!(outcome.path, native("/tmp/example"));
    assert!(outcome.already_clean);
    assert_eq!(outcome.manifests_scanned, 0);
    assert_eq!(outcome.handles_released, 0);
}

#[test]
fn json_output_has_stable_keys() {
    let outcome = run_release_handles(HostOs::Linux, &native("/tmp/example")).expect("ok");
    let json = outcome.to_json();
    assert!(json.contains("\"path\":"));
    assert!(json.contains("\"manifests_scanned\":"));
    assert!(json.contains("\"handles_released\":"));
    assert!(json.contains("\"already_clean\":"));
    assert!(json.contains("\"message\":"));
}

#[test]
fn json_output_is_escaped() {
    let outcome = run_release_handles(HostOs::Windows, &native("C:\\a\"b\n")).expect("ok");
    let json = outcome.to_json();
    assert!(json.contains("C:\\\\a\\\"b\\n"));
    assert_ne!(
        run_release_handles(HostOs::Linux, &native("/x")).unwrap().message,
        outcome.message
    );
}

fn entry(path: &str, machine: &str, boot: &str, daemon: Option<NamedDaemon>) -> RegistryEntry {
    RegistryEntry {
        path: native(path),
        result: Ok(ManifestFacts {
            host: Some(HostIdentity {
                machine_id: machine.to_string(),
                boot_id: boot.to_string(),
            }),
            daemon,
        }),
    }
}

#[test]
fn manifests_are_verified_against_the_host() {
    let entries = vec![
        entry("/ok", "m", "b", None),
        entry("/boot", "m", "old", None),
        entry(
            "/dead",
            "m",
            "b",
            Some(NamedDaemon {
                pid: 9,
                alive: false,
            }),
        ),
        RegistryEntry {
            path: native("/bad"),
            result: Err("unreadable".to_string()),
        },
    ];
    let report = run(&entries, "m", "b");
    assert_eq!(report.scanned, 4);
    assert!(report.findings.iter().all(|f| f.path != native("/ok")));
    assert!(report
        .findings
        .iter()
        .any(|f| f.path == native("/boot") && f.severity == Severity::Stale));
    assert!(report.findings.iter().any(|f| f.path == native("/dead")));
    assert!(report
        .findings
        .iter()
        .any(|f| f.path == native("/bad") && f.severity == Severity::Error));
    let json = verify_basic::render_json(&report);
    assert!(json.contains("/boot"));
    assert_eq!(Severity::Stale.as_str(), "stale");
}

#[test]
fn instances_are_listed_as_json() {
    let instances = list(&vec![
        native("/run/rpb-v1-b.sock"),
        native("/run/other.sock"),
        native("/run/rpb-v1-a.sock"),
        native("/run/rpb-v1-c.pid"),
    ]);
    assert_eq!(
        render_json(&instances),
        "{\"schema_version\":1,\"instances\":[{\"path\":\"/run/rpb-v1-b.sock\"},{\"path\":\"/run/rpb-v1-a.sock\"}]}"
    );
    assert!(!instance_dirs(Some(&native("/run")), &native("/tmp")).is_empty());
    assert_eq!(
        instance_dirs(Some(&native("/run/")), &native("/tmp")),
        vec![native("/run/running-process/broker"), native("/tmp")]
    );
}

#[test]
fn paths_that_are_not_text_come_back_as_they_were() {
    let odd = NativePath::new(b"/tmp/\xff\xfe".to_vec());
    assert_eq!(odd.shown(), "/tmp/\u{fffd}\u{fffd}");
    let outcome = run_release_handles(HostOs::Linux, &odd).expect("ok");
    assert_eq!(outcome.path.as_bytes(), b"/tmp/\xff\xfe");
    assert!(outcome.message.contains("/tmp/\u{fffd}\u{fffd}"));
    assert_eq!(odd.join("x").into_bytes(), b"/tmp/\xff\xfe/x".to_vec());
    assert_ne!(odd.join("x"), odd.join("y"));
    let entries = vec![RegistryEntry {
        path: odd.copied(),
        result: Err("unreadable".to_string()),
    }];
    let report = run(&entries, "m", "b");
    assert_eq!(report.findings[0].path, odd);
    assert!(verify_basic::render_json(&report).contains("/tmp/\u{fffd}\u{fffd}"));
}
