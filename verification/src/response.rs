use vstd::prelude::*;
use vstd::string::StringExecFns;

verus! {

/// Why an operation was refused. Callers can switch on the kind; a
/// human-readable message is available through [`GateError::message`].
#[derive(Debug)]
pub enum GateError {
    /// The anonymous caller may not enroll.
    AnonymousNotAllowed,
    /// The enrollment access code did not match the configured one.
    UnauthorizedFrontend,
    /// Enrollment is currently disabled by the admin.
    FunctionDisabled,
    /// The caller has already enrolled; enrollment is permanent.
    AlreadyEnrolled,
    /// The global enrollment cap has been reached.
    CapacityExceeded,
    /// The requested label is already held by a cached recognition result.
    LabelAlreadyRecognized,
    /// The caller is neither enrolled (for recognition) nor the admin
    /// (for privileged operations).
    Unauthorized,
    /// The caller already holds a final recognition result.
    AlreadyRecognized,
    /// The caller has used up every permitted recognition attempt.
    AttemptsExceeded,
    /// The configured admin identity could not be resolved at startup.
    InvalidAdminConfig,
    /// The inference engine failed; carries its message verbatim.
    Engine(String),
}

impl GateError {
    pub open spec fn spec_message(&self) -> Seq<char> {
        match self {
            GateError::AnonymousNotAllowed => "Anonymous callers are not allowed"@,
            GateError::UnauthorizedFrontend => "Unauthorized frontend access"@,
            GateError::FunctionDisabled => "This function is currently disabled"@,
            GateError::AlreadyEnrolled => "You have already added a face"@,
            GateError::CapacityExceeded => "Maximum number of add calls reached"@,
            GateError::LabelAlreadyRecognized => (
                "This face has already been recognized and cannot be added again"@
            ),
            GateError::Unauthorized => "Unauthorized"@,
            GateError::AlreadyRecognized => (
                "Recognition already successful. Further attempts not allowed"@
            ),
            GateError::AttemptsExceeded => "Maximum recognition attempts exceeded"@,
            GateError::InvalidAdminConfig => "Invalid admin principal"@,
            GateError::Engine(m) => m@,
        }
    }

    /// A human-readable description of the refusal. An engine failure is
    /// reported verbatim; every other kind has a fixed text.
    pub fn message(&self) -> (r: String)
        ensures
            r@ == self.spec_message(),
    {
        match self {
            GateError::AnonymousNotAllowed => "Anonymous callers are not allowed".to_owned(),
            GateError::UnauthorizedFrontend => "Unauthorized frontend access".to_owned(),
            GateError::FunctionDisabled => "This function is currently disabled".to_owned(),
            GateError::AlreadyEnrolled => "You have already added a face".to_owned(),
            GateError::CapacityExceeded => "Maximum number of add calls reached".to_owned(),
            GateError::LabelAlreadyRecognized => {
                "This face has already been recognized and cannot be added again".to_owned()
            },
            GateError::Unauthorized => "Unauthorized".to_owned(),
            GateError::AlreadyRecognized => {
                "Recognition already successful. Further attempts not allowed".to_owned()
            },
            GateError::AttemptsExceeded => "Maximum recognition attempts exceeded".to_owned(),
            GateError::InvalidAdminConfig => "Invalid admin principal".to_owned(),
            GateError::Engine(m) => m.clone(),
        }
    }
}

/// A detected face's bounding box. Each coordinate is carried as the opaque
/// 32-bit word the engine delivers; converting such a word to and from the
/// engine's floating-point form happens outside the library.
pub struct BoundingBox {
    pub left: u32,
    pub top: u32,
    pub right: u32,
    pub bottom: u32,
}

/// A recognized person: the enrolled label, and the engine's confidence
/// score carried as an opaque 32-bit word.
pub struct Person {
    pub label: String,
    pub score: u32,
}

impl Person {
    pub fn duplicate(&self) -> (r: Person)
        ensures
            r == *self,
    {
        Person { label: self.label.clone(), score: self.score }
    }
}

/// An enrollment embedding handed back by the engine, its entries carried
/// as opaque 32-bit words.
pub struct Embedding {
    pub values: Vec<u32>,
}

/// The outcome of a face-detection request.
pub enum Detection {
    Success(BoundingBox),
    Failure(GateError),
}

/// The outcome of an enrollment request.
pub enum Addition {
    Success(Embedding),
    Failure(GateError),
}

/// The outcome of a recognition request.
pub enum Recognition {
    Success(Person),
    Failure(GateError),
}

/// A response from an admin-gated maintenance operation.
pub enum CanisterResponse<T> {
    Success(T),
    Failure(String),
}

/// What the inference engine reported back to the host for one call:
/// a structured success or a failure message.
pub enum EngineOutcome<T> {
    Success(T),
    Failure(String),
}

/// Maps a face-detection outcome of the engine to the response handed to
/// the caller: a success passes through, a failure keeps its message.
pub fn detect(outcome: EngineOutcome<BoundingBox>) -> (r: Detection)
    ensures
        match outcome {
            EngineOutcome::Success(b) => r matches Detection::Success(rb) && rb == b,
            EngineOutcome::Failure(m) => r matches Detection::Failure(e) && e == GateError::Engine(m),
        },
{
    match outcome {
        EngineOutcome::Success(b) => Detection::Success(b),
        EngineOutcome::Failure(m) => Detection::Failure(GateError::Engine(m)),
    }
}

/// Maps the model-initialization outcome to the maintenance response:
/// a failure message is prefixed to say which step failed.
pub fn setup_outcome_response(outcome: EngineOutcome<()>) -> (r: CanisterResponse<()>)
    ensures
        match outcome {
            EngineOutcome::Success(_) => r matches CanisterResponse::Success(u) && u == (),
            EngineOutcome::Failure(m) => (
                r matches CanisterResponse::Failure(s) && s@ == "Failed to setup model: "@ + m@
            ),
        },
{
    match outcome {
        EngineOutcome::Success(_) => CanisterResponse::Success(()),
        EngineOutcome::Failure(m) => {
            let text = String::from_str("Failed to setup model: ");
            CanisterResponse::Failure(text.concat(m.as_str()))
        },
    }
}

} // verus!
