use face_gate::gate::FaceGate;
use face_gate::identity::Identity;
use face_gate::response::{
    detect, setup_outcome_response, BoundingBox, CanisterResponse, Detection, EngineOutcome,
    GateError,
};

fn admin_text() -> String {
    candid::Principal::from_slice(&[9, 9, 9]).to_text()
}

fn admin_identity() -> Identity {
    let p = candid::Principal::from_text(admin_text()).unwrap();
    Identity::from_bytes(p.as_slice().to_vec())
}

fn new_gate() -> FaceGate {
    FaceGate::new(&admin_text(), "qMu11Dfmw".to_string()).unwrap()
}

fn stranger() -> Identity {
    Identity::from_bytes(vec![8, 8, 8])
}

#[test]
fn only_admin_may_toggle() {
    let mut gate = new_gate();
    match gate.toggle_add_function(&stranger(), true) {
        Err(e) => assert!(matches!(e, GateError::Unauthorized)),
        Ok(_) => panic!("non-admin toggled the feature"),
    }
    assert!(gate.toggle_add_function(&admin_identity(), true).is_ok());
    assert!(gate.toggle_add_function(&admin_identity(), false).is_ok());
}

#[test]
fn only_admin_passes_the_self_check() {
    let gate = new_gate();
    assert!(gate.is_authorized(&admin_identity()).is_ok());
    match gate.is_authorized(&stranger()) {
        Err(e) => assert!(matches!(e, GateError::Unauthorized)),
        Ok(_) => panic!("non-admin passed the self-check"),
    }
    assert!(gate.require_admin(&admin_identity()).is_ok());
    assert!(gate.require_admin(&stranger()).is_err());
}

#[test]
fn maintenance_is_admin_gated() {
    let gate = new_gate();
    let admin = admin_identity();
    let other = stranger();

    match gate.clear_face_detection_model_bytes(&admin) {
        CanisterResponse::Success(name) => assert_eq!(name, "face-detection.onnx"),
        CanisterResponse::Failure(_) => panic!("admin refused"),
    }
    match gate.clear_face_recognition_model_bytes(&admin) {
        CanisterResponse::Success(name) => assert_eq!(name, "face-recognition.onnx"),
        CanisterResponse::Failure(_) => panic!("admin refused"),
    }
    match gate.append_face_detection_model_bytes(&admin, vec![1, 2]) {
        CanisterResponse::Success((name, bytes)) => {
            assert_eq!(name, "face-detection.onnx");
            assert_eq!(bytes, vec![1, 2]);
        }
        CanisterResponse::Failure(_) => panic!("admin refused"),
    }
    match gate.append_face_recognition_model_bytes(&admin, vec![3]) {
        CanisterResponse::Success((name, bytes)) => {
            assert_eq!(name, "face-recognition.onnx");
            assert_eq!(bytes, vec![3]);
        }
        CanisterResponse::Failure(_) => panic!("admin refused"),
    }
    match gate.setup_models_begin(&admin) {
        CanisterResponse::Success((a, b)) => {
            assert_eq!(a, "face-detection.onnx");
            assert_eq!(b, "face-recognition.onnx");
        }
        CanisterResponse::Failure(_) => panic!("admin refused"),
    }

    match gate.clear_face_detection_model_bytes(&other) {
        CanisterResponse::Failure(m) => assert_eq!(m, "Unauthorized"),
        CanisterResponse::Success(_) => panic!("non-admin admitted"),
    }
    match gate.append_face_recognition_model_bytes(&other, vec![1]) {
        CanisterResponse::Failure(m) => assert_eq!(m, "Unauthorized"),
        CanisterResponse::Success(_) => panic!("non-admin admitted"),
    }
    match gate.setup_models_begin(&other) {
        CanisterResponse::Failure(m) => assert_eq!(m, "Unauthorized"),
        CanisterResponse::Success(_) => panic!("non-admin admitted"),
    }
}

#[test]
fn detect_passes_the_outcome_through() {
    let b = BoundingBox { left: 1, top: 2, right: 3, bottom: 4 };
    match detect(EngineOutcome::Success(b)) {
        Detection::Success(bb) => {
            assert_eq!(bb.left, 1);
            assert_eq!(bb.top, 2);
            assert_eq!(bb.right, 3);
            assert_eq!(bb.bottom, 4);
        }
        Detection::Failure(_) => panic!("success expected"),
    }
    match detect(EngineOutcome::Failure("no face".to_string())) {
        Detection::Failure(GateError::Engine(m)) => assert_eq!(m, "no face"),
        _ => panic!("verbatim failure expected"),
    }
}

#[test]
fn setup_failure_is_prefixed() {
    match setup_outcome_response(EngineOutcome::Failure("bad model".to_string())) {
        CanisterResponse::Failure(m) => assert_eq!(m, "Failed to setup model: bad model"),
        CanisterResponse::Success(_) => panic!("failure expected"),
    }
    assert!(matches!(
        setup_outcome_response(EngineOutcome::Success(())),
        CanisterResponse::Success(())
    ));
}

#[test]
fn error_messages_are_fixed() {
    assert_eq!(
        GateError::AnonymousNotAllowed.message(),
        "Anonymous callers are not allowed"
    );
    assert_eq!(GateError::UnauthorizedFrontend.message(), "Unauthorized frontend access");
    assert_eq!(GateError::FunctionDisabled.message(), "This function is currently disabled");
    assert_eq!(GateError::AlreadyEnrolled.message(), "You have already added a face");
    assert_eq!(GateError::CapacityExceeded.message(), "Maximum number of add calls reached");
    assert_eq!(
        GateError::LabelAlreadyRecognized.message(),
        "This face has already been recognized and cannot be added again"
    );
    assert_eq!(GateError::Unauthorized.message(), "Unauthorized");
    assert_eq!(
        GateError::AlreadyRecognized.message(),
        "Recognition already successful. Further attempts not allowed"
    );
    assert_eq!(
        GateError::AttemptsExceeded.message(),
        "Maximum recognition attempts exceeded"
    );
    assert_eq!(GateError::InvalidAdminConfig.message(), "Invalid admin principal");
    assert_eq!(GateError::Engine("boom".to_string()).message(), "boom");
}

#[test]
fn identity_helpers() {
    let anon = Identity::from_bytes(vec![4]);
    assert!(anon.is_anonymous());
    let p = candid::Principal::anonymous();
    let anon2 = Identity::from_bytes(p.as_slice().to_vec());
    assert!(anon2.is_anonymous());
    let someone = Identity::from_bytes(vec![4, 0]);
    assert!(!someone.is_anonymous());
    assert!(anon.same_as(&anon2));
    assert!(!anon.same_as(&someone));
    assert!(someone.duplicate().same_as(&someone));
}

#[test]
fn all_results_are_reported() {
    let mut gate = new_gate();
    let admin = admin_identity();
    assert!(gate.toggle_add_function(&admin, true).is_ok());
    let carol = Identity::from_bytes(vec![7]);
    let label = "carol".to_string();
    let code = "qMu11Dfmw".to_string();
    assert!(gate.add_precheck(&carol, &label, &code).is_ok());
    gate.add_settle(
        &carol,
        face_gate::response::EngineOutcome::Success(face_gate::response::Embedding {
            values: vec![],
        }),
    );
    let attempt = gate.recognize_begin(&carol).unwrap();
    let person = face_gate::response::Person { label: "carol".to_string(), score: 5 };
    gate.recognize_settle(&carol, attempt, EngineOutcome::Success(person));

    let all = gate.get_all_recognition_results();
    assert_eq!(all.len(), 1);
    assert_eq!(all[0].0.bytes, vec![7]);
    assert_eq!(all[0].1.label, "carol");
    assert_eq!(all[0].1.score, 5);
}
