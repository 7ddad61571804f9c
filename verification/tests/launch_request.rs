//! Launch requests on the wire, and what is accepted into them.

use running_process::errors::ErrorKind;
use running_process::independent_command::{
    check_created_directory, check_request_directory, check_request_file, merge_environment,
    read_private_request, request_directory_name, windows_string_bytes, windows_string_from_bytes,
    write_private_request, ArtifactError, ArtifactFacts, CommandImage, WindowsStringError,
};
use running_process::independent_transport::{
    validate_launch_string, write_bytes, write_many, LaunchRequest, LaunchRequestError, Platform,
    MAGIC, MAX_REQUEST_BYTES,
};

#[test]
fn roundtrips_non_utf8_cwd_and_environment_removal() {
    let request = LaunchRequest {
        program: b"x".to_vec(),
        args: vec![vec![0xff]],
        cwd: Some(vec![0xfe]),
        environment: vec![(b"A".to_vec(), None)],
    };
    assert!(LaunchRequest::decode(Platform::Unix, &request.encode(Platform::Unix)).ok().unwrap() == request);
}

#[test]
fn rejects_truncated_request() {
    assert!(LaunchRequest::decode(Platform::Unix, &MAGIC).is_err());
}

fn plain() -> LaunchRequest {
    LaunchRequest {
        program: b"program".to_vec(),
        args: vec![],
        cwd: None,
        environment: vec![],
    }
}

#[test]
fn malformed_native_fields_fail_before_artifact_creation_and_after_decode() {
    let mut cases = Vec::new();
    let mut request = plain();
    request.program.clear();
    cases.push(request);
    let mut request = plain();
    request.program.push(0);
    cases.push(request);
    let mut request = plain();
    request.args.push(b"private\0argument".to_vec());
    cases.push(request);
    let mut request = plain();
    request.cwd = Some(b"private\0directory".to_vec());
    cases.push(request);
    let mut request = plain();
    request.environment.push((b"BAD=KEY".to_vec(), None));
    cases.push(request);
    let mut request = plain();
    request.environment.push((vec![], None));
    cases.push(request);
    let mut request = plain();
    request
        .environment
        .push((b"KEY".to_vec(), Some(b"private\0value".to_vec())));
    cases.push(request);
    for request in cases {
        let error = write_private_request(&request).err().unwrap();
        assert_eq!(error.kind(), ErrorKind::InvalidInput);
        assert!(!error.message().contains("private"));
        assert_eq!(
            LaunchRequest::decode(Platform::Unix, &request.encode(Platform::Unix)).err().unwrap().kind(),
            ErrorKind::InvalidData
        );
    }
}

#[test]
fn arbitrary_unix_bytes_and_empty_arguments_remain_supported() {
    let request = LaunchRequest {
        program: vec![b'p', 0xff],
        args: vec![vec![], vec![0xff]],
        cwd: None,
        environment: vec![(vec![b'K', 0xff], Some(vec![]))],
    };
    assert!(request.validate(Platform::Unix).is_ok());
    assert!(LaunchRequest::decode(Platform::Unix, &request.encode(Platform::Unix)).ok().unwrap() == request);
}

#[test]
fn encoder_budget_and_debug_redaction() {
    let mut request = LaunchRequest {
        program: b"secret-program".to_vec(),
        args: vec![],
        cwd: None,
        environment: vec![(b"secret-key".to_vec(), Some(b"secret-value".to_vec()))],
    };
    assert_eq!(request.encoded_len(Platform::Unix).ok().unwrap(), request.encode(Platform::Unix).len());
    assert!(!request.redacted().contains("secret"));
    request.args.push(vec![0; MAX_REQUEST_BYTES]);
    assert!(request.encoded_len(Platform::Unix).is_err());
}

fn image(
    current_dir: Option<&[u8]>,
    envs: Vec<(Vec<u8>, Option<Vec<u8>>)>,
) -> CommandImage {
    CommandImage {
        program: b"unused".to_vec(),
        args: vec![],
        current_dir: current_dir.map(|d| d.to_vec()),
        envs,
    }
}

#[test]
fn empty_environment_base_keeps_only_explicit_overrides() {
    let command = image(
        None,
        vec![
            (b"KEPT".to_vec(), Some(b"value".to_vec())),
            (b"REMOVED".to_vec(), None),
        ],
    );
    let request = LaunchRequest::from_command(&command, false, &vec![], b"/caller")
        .ok()
        .unwrap();
    assert_eq!(
        request.environment,
        vec![(b"KEPT".to_vec(), Some(b"value".to_vec()))]
    );
}

#[test]
fn captures_caller_cwd_for_default_and_relative_directory() {
    let command = image(None, vec![]);
    let request = LaunchRequest::from_command(&command, false, &vec![], b"/caller")
        .ok()
        .unwrap();
    assert_eq!(request.cwd, Some(b"/caller".to_vec()));
    let command = image(Some(b"relative-directory"), vec![]);
    let request = LaunchRequest::from_command(&command, false, &vec![], b"/caller")
        .ok()
        .unwrap();
    assert_eq!(request.cwd, Some(b"/caller/relative-directory".to_vec()));
    let command = image(Some(b"/absolute"), vec![]);
    let request = LaunchRequest::from_command(&command, false, &vec![], b"/caller")
        .ok()
        .unwrap();
    assert_eq!(request.cwd, Some(b"/absolute".to_vec()));
}

#[test]
fn inherited_environment_is_merged_with_overrides() {
    let command = image(
        None,
        vec![
            (b"A".to_vec(), Some(b"new".to_vec())),
            (b"B".to_vec(), None),
        ],
    );
    let snapshot = vec![
        (b"B".to_vec(), b"gone".to_vec()),
        (b"A".to_vec(), b"old".to_vec()),
        (b"C".to_vec(), b"kept".to_vec()),
    ];
    let request = LaunchRequest::from_command(&command, true, &snapshot, b"/")
        .ok()
        .unwrap();
    assert_eq!(
        request.environment,
        vec![
            (b"A".to_vec(), Some(b"new".to_vec())),
            (b"C".to_vec(), Some(b"kept".to_vec())),
        ]
    );
    assert_eq!(
        merge_environment(&snapshot, &vec![]),
        vec![
            (b"A".to_vec(), b"old".to_vec()),
            (b"B".to_vec(), b"gone".to_vec()),
            (b"C".to_vec(), b"kept".to_vec()),
        ]
    );
}

#[test]
fn rejects_oversized_request_before_parsing() {
    let request = vec![0; MAX_REQUEST_BYTES + 1];
    assert_eq!(
        LaunchRequest::decode(Platform::Unix, &request).err().unwrap().kind(),
        ErrorKind::InvalidData
    );
}

#[test]
fn rejects_impossible_argument_count_before_allocating() {
    let mut request = MAGIC.to_vec();
    write_bytes(&mut request, b"program");
    request.extend_from_slice(&u32::MAX.to_le_bytes());
    assert_eq!(
        LaunchRequest::decode(Platform::Unix, &request).err().unwrap().kind(),
        ErrorKind::InvalidData
    );
}

#[test]
fn rejects_impossible_environment_count_before_allocating() {
    let mut request = MAGIC.to_vec();
    write_bytes(&mut request, b"program");
    write_many(&mut request, &[]);
    request.push(0);
    request.extend_from_slice(&u32::MAX.to_le_bytes());
    assert_eq!(
        LaunchRequest::decode(Platform::Unix, &request).err().unwrap().kind(),
        ErrorKind::InvalidData
    );
}

#[test]
fn isolated_surrogates_and_argument_boundaries_roundtrip() {
    let value: Vec<u16> = vec![0xd800, 0x20, 0x22, 0x5c];
    let bytes = windows_string_bytes(&value);
    assert_eq!(windows_string_from_bytes(&bytes).ok().unwrap(), value);
    let wide = |text: &str| windows_string_bytes(&text.encode_utf16().collect::<Vec<u16>>());
    let command = CommandImage {
        program: wide("helper.exe"),
        args: vec![bytes.clone(), vec![]],
        current_dir: None,
        envs: vec![(wide("RP_VALUE"), Some(bytes.clone()))],
    };
    let request = LaunchRequest::from_windows_command(&command, false, &vec![], &wide("C:\\here"))
        .ok()
        .unwrap();
    assert_eq!(request.args.len(), 2);
    assert_eq!(windows_string_from_bytes(&request.args[0]).ok().unwrap(), value);
    assert!(
        LaunchRequest::decode(Platform::Windows, &request.encode(Platform::Windows))
            .ok()
            .unwrap()
            == request
    );
}

#[test]
fn malformed_windows_strings_are_rejected() {
    assert!(matches!(windows_string_from_bytes(&[1]), Err(WindowsStringError::OddLength)));
    assert!(matches!(windows_string_from_bytes(&[0, 0]), Err(WindowsStringError::Nul)));
    assert!(windows_string_from_bytes(&[]).is_ok());
    assert!(validate_launch_string(Platform::Windows, &[1]).is_err());
    assert!(validate_launch_string(Platform::Windows, &[0, 0]).is_err());
    assert!(validate_launch_string(Platform::Windows, &[0, 0xd8]).is_ok());
}

#[test]
fn each_malformed_request_has_its_own_error() {
    let good = plain().encode(Platform::Unix);
    let bad_magic = |r: Result<LaunchRequest, LaunchRequestError>| r.err().unwrap();
    assert_eq!(
        bad_magic(LaunchRequest::decode(Platform::Unix, b"RPINDEP2\0")),
        LaunchRequestError::BadMagic
    );
    let mut trailing = good.clone();
    trailing.push(0);
    assert_eq!(
        LaunchRequest::decode(Platform::Unix, &trailing).err().unwrap(),
        LaunchRequestError::TrailingBytes
    );
    let mut flag = MAGIC.to_vec();
    write_bytes(&mut flag, b"p");
    write_many(&mut flag, &[]);
    flag.push(2);
    assert_eq!(
        LaunchRequest::decode(Platform::Unix, &flag).err().unwrap(),
        LaunchRequestError::InvalidCwdFlag
    );
    assert_eq!(
        validate_launch_string(Platform::Unix, b"a\0b").err().unwrap(),
        LaunchRequestError::NulInString
    );
}

fn facts(is_dir: bool) -> ArtifactFacts {
    ArtifactFacts {
        is_dir,
        is_file: !is_dir,
        is_symlink: false,
        owner: 7,
        mode: 0o40700,
        links: 1,
        length: 10,
    }
}

#[test]
fn private_requests_are_read_only_from_private_artifacts() {
    let request = plain();
    let bytes = write_private_request(&request).ok().unwrap();
    let mut file = facts(false);
    file.length = bytes.len() as u64;
    assert!(read_private_request(&facts(true), &file, 7, &bytes).ok().unwrap() == request);
    assert!(matches!(
        read_private_request(&facts(true), &file, 8, &bytes),
        Err(ArtifactError::DirectoryNotPrivate)
    ));
    let mut open = facts(true);
    open.mode = 0o40710;
    assert!(matches!(
        check_request_directory(&open, 7),
        Err(ArtifactError::DirectoryNotPrivate)
    ));
    assert!(matches!(
        check_created_directory(&open, 8),
        Err(ArtifactError::CreatedDirectoryNotPrivate)
    ));
    assert!(check_created_directory(&open, 7).is_ok());
    let mut linked = facts(false);
    linked.links = 2;
    assert!(matches!(
        check_request_file(&linked, 7),
        Err(ArtifactError::FileNotPrivate)
    ));
    let mut large = facts(false);
    large.length = MAX_REQUEST_BYTES as u64 + 1;
    assert!(matches!(
        check_request_file(&large, 7),
        Err(ArtifactError::TooLarge)
    ));
    assert!(matches!(
        read_private_request(&facts(true), &facts(false), 7, b"nonsense"),
        Err(ArtifactError::Malformed(_))
    ));
    assert!(request_directory_name(12, 34).contains("12"));
}
