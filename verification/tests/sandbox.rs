use jpeg2k_sandboxed::{
    conclude, encode_response, DecodeImageRequest, Error, Jpeg2kSandboxed, RunFailure,
};

/// A module that does nothing: the header of a WebAssembly binary alone.
const EMPTY_MODULE: [u8; 8] = [0x00, 0x61, 0x73, 0x6d, 0x01, 0x00, 0x00, 0x00];

/// A module whose `_start` returns at once, without writing anything:
/// one function type, one function, exported under that name.
const SILENT_MODULE: [u8; 36] = [
    0x00, 0x61, 0x73, 0x6d, 0x01, 0x00, 0x00, 0x00, // header
    0x01, 0x04, 0x01, 0x60, 0x00, 0x00, // types: () -> ()
    0x03, 0x02, 0x01, 0x00, // functions: one, of type 0
    0x07, 0x0a, 0x01, 0x06, b'_', b's', b't', b'a', b'r', b't', 0x00, 0x00, // export
    0x0a, 0x04, 0x01, 0x02, 0x00, 0x0b, // code: an empty body
];

/// A module whose `_start` hits `unreachable`.
const TRAPPING_MODULE: [u8; 37] = [
    0x00, 0x61, 0x73, 0x6d, 0x01, 0x00, 0x00, 0x00, // header
    0x01, 0x04, 0x01, 0x60, 0x00, 0x00, // types: () -> ()
    0x03, 0x02, 0x01, 0x00, // functions: one, of type 0
    0x07, 0x0a, 0x01, 0x06, b'_', b's', b't', b'a', b'r', b't', 0x00, 0x00, // export
    0x0a, 0x05, 0x01, 0x03, 0x00, 0x00, 0x0b, // code: unreachable
];

#[test]
fn sandbox_refuses_a_malformed_module() {
    match Jpeg2kSandboxed::new(b"this is no module") {
        Err(Error::Initialization(reason)) => assert!(!reason.is_empty()),
        _ => panic!("a malformed module was accepted"),
    }
    assert!(matches!(Jpeg2kSandboxed::new(&[]), Err(Error::Initialization(_))));
}

#[test]
fn sandbox_reports_a_missing_entry_point_as_a_trap() {
    let sandbox = Jpeg2kSandboxed::new(&EMPTY_MODULE).unwrap();
    let res = sandbox.decode(&DecodeImageRequest::new(vec![1, 2, 3]), &[]);
    assert!(matches!(res, Err(Error::ExecutionTrap(_))));
}

#[test]
fn sandbox_reports_a_fault_of_the_instance_as_a_trap() {
    let sandbox = Jpeg2kSandboxed::new(&TRAPPING_MODULE).unwrap();
    let res = sandbox.decode(&DecodeImageRequest::new(vec![1, 2, 3]), &[]);
    assert!(matches!(res, Err(Error::ExecutionTrap(_))));
}

#[test]
fn sandbox_reports_silence_as_a_serialization_error() {
    let sandbox = Jpeg2kSandboxed::new(&SILENT_MODULE).unwrap();
    let res = sandbox.decode(&DecodeImageRequest::new(vec![]), &[]);
    assert_eq!(res, Err(Error::Serialization));
}

#[test]
fn sandbox_serves_many_calls() {
    let sandbox = Jpeg2kSandboxed::new(&SILENT_MODULE).unwrap();
    for n in 0..8u8 {
        let res = sandbox.decode(&DecodeImageRequest::new(vec![n; 100]).only_header(), &[]);
        assert_eq!(res, Err(Error::Serialization));
    }
}

#[test]
fn sandbox_gives_an_error_and_no_image_for_any_input_bytes() {
    let sandbox = Jpeg2kSandboxed::new(&SILENT_MODULE).unwrap();
    let mut seed: u32 = 0x2545_f491;
    for len in [0usize, 1, 2, 3, 17, 255, 256, 4096, 70_000] {
        let mut data = Vec::with_capacity(len);
        for _ in 0..len {
            seed ^= seed << 13;
            seed ^= seed >> 17;
            seed ^= seed << 5;
            data.push((seed & 0xff) as u8);
        }
        assert_eq!(sandbox.decode(&DecodeImageRequest::new(data), &[]), Err(Error::Serialization));
    }
}

#[test]
fn sandbox_failures_are_told_apart_from_a_rejected_image() {
    let trap = Jpeg2kSandboxed::new(&TRAPPING_MODULE)
        .unwrap()
        .decode(&DecodeImageRequest::new(vec![]), &[])
        .unwrap_err();
    assert!(trap.is_infrastructure());
    assert!(!trap.is_decode());
    let refused = Jpeg2kSandboxed::new(&[0xff]).err().unwrap();
    assert!(refused.is_infrastructure());
    assert!(Error::PipeOwnership.is_infrastructure());
    assert!(Error::Instantiation(String::new()).is_infrastructure());
    assert!(!Error::Decode(String::new()).is_infrastructure());
}

#[test]
fn sandbox_can_be_shared_between_threads() {
    fn shareable<T: Send + Sync>(_: &T) {}
    shareable(&Jpeg2kSandboxed::new(&SILENT_MODULE).unwrap());
}

#[test]
fn sandbox_build_failure_becomes_an_initialization_error_with_its_reason() {
    match Jpeg2kSandboxed::from_build(Err("no such import".to_string())) {
        Err(e) => assert_eq!(e, Error::Initialization("no such import".to_string())),
        Ok(_) => panic!("a failed build gave a sandbox"),
    }
    let built = Jpeg2kSandboxed::new(&SILENT_MODULE).unwrap();
    let kept = Jpeg2kSandboxed::from_build(Ok(built));
    assert!(kept.is_ok());
    let res = kept.ok().unwrap().decode(&DecodeImageRequest::new(vec![]), &[]);
    assert_eq!(res, Err(Error::Serialization));
}

#[test]
fn sandbox_hands_the_given_environment_to_the_instance() {
    let sandbox = Jpeg2kSandboxed::new(&SILENT_MODULE).unwrap();
    let env = vec![
        ("HOME".to_string(), "/nowhere".to_string()),
        ("EMPTY".to_string(), String::new()),
        ("ODD=NAME".to_string(), "größe".to_string()),
    ];
    let req = DecodeImageRequest::new(vec![1, 2, 3]);
    assert_eq!(sandbox.decode(&req, &env), Err(Error::Serialization));
    assert_eq!(sandbox.decode(&req, &[]), Err(Error::Serialization));
}

#[test]
fn session_failures_map_to_their_errors() {
    assert_eq!(
        Error::of_run(RunFailure::Context("env".to_string())),
        Error::Instantiation("env".to_string())
    );
    assert_eq!(
        Error::of_run(RunFailure::Instantiation("limit".to_string())),
        Error::Instantiation("limit".to_string())
    );
    assert_eq!(
        Error::of_run(RunFailure::Trap("unreachable".to_string())),
        Error::ExecutionTrap("unreachable".to_string())
    );
}

#[test]
fn call_without_its_output_is_a_pipe_ownership_error() {
    assert_eq!(conclude(None), Err(Error::PipeOwnership));
}

#[test]
fn call_with_its_output_ends_as_the_output_says() {
    assert_eq!(conclude(Some(vec![])), Err(Error::Serialization));
    assert_eq!(conclude(Some(vec![0xc0, 0x01])), Err(Error::Serialization));
    let refusal = encode_response(&Err("Unsupported components".to_string())).unwrap();
    assert_eq!(
        conclude(Some(refusal)),
        Err(Error::Decode("Unsupported components".to_string()))
    );
}
