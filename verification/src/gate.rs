use vstd::prelude::*;
use vstd::string::StringExecFns;
use crate::identity::{anonymous_bytes, parse_principal, principal_bytes_of, Identity};
use crate::response::{
    Addition, CanisterResponse, Embedding, EngineOutcome, GateError, Person, Recognition,
};
use crate::table::{
    distinct_ids, distinct_keys, id_set, lemma_id_set_contains, lemma_id_set_len,
    lemma_id_set_push, lemma_table_map_dom, lemma_table_map_index, lemma_table_map_push,
    lemma_table_map_update, table_map,
};

verus! {

/// How many recognition attempts an identity is granted.
pub const MAX_ATTEMPTS: u32 = 3;

/// How many identities may ever enroll.
pub const MAX_ADD_CALLS: usize = 200;

/// The mathematical state the library maintains.
pub ghost struct GateView {
    /// Per-identity count of recognition admissions, absent meaning zero.
    pub attempts: Map<Seq<u8>, u32>,
    /// Per-identity final recognition result; an entry is written once and
    /// never changed or removed.
    pub results: Map<Seq<u8>, Person>,
    /// The identities that have successfully enrolled.
    pub enrolled: Set<Seq<u8>>,
    /// The enrollment counter; always the size of `enrolled`.
    pub add_count: int,
    /// Whether enrollment is currently enabled.
    pub enabled: bool,
    /// The single admin identity.
    pub admin: Seq<u8>,
    /// The shared access code enrollment callers must present.
    pub access_code: Seq<char>,
}

impl GateView {
    /// The state invariant every operation preserves.
    pub open spec fn inv(&self) -> bool {
        &&& self.enrolled.finite()
        &&& self.add_count == self.enrolled.len()
        &&& 0 <= self.add_count <= MAX_ADD_CALLS
        &&& self.attempts.dom().subset_of(self.enrolled)
        &&& self.results.dom().subset_of(self.enrolled)
        &&& forall|k: Seq<u8>| #[trigger] self.attempts.contains_key(k)
            ==> self.attempts[k] <= MAX_ATTEMPTS + 1
    }
}

/// The recognition attempts an identity has used up, absent meaning zero.
pub open spec fn spec_attempt_count(v: GateView, caller: Seq<u8>) -> u32 {
    if v.attempts.contains_key(caller) {
        v.attempts[caller]
    } else {
        0u32
    }
}

/// One more attempt, saturating just above the ceiling: every count beyond
/// the ceiling behaves the same, so nothing above `MAX_ATTEMPTS + 1` is
/// ever recorded.
pub open spec fn spec_bump(c: u32) -> u32 {
    if c <= MAX_ATTEMPTS {
        (c + 1) as u32
    } else {
        c
    }
}

/// What a recognition request does before the engine is consulted: the
/// next state, and either the admitted attempt's count or the refusal.
/// The engine may be invoked exactly when the result is `Ok`.
pub open spec fn spec_recognize_begin(v: GateView, caller: Seq<u8>) -> (GateView, Result<
    u32,
    GateError,
>) {
    if !v.enrolled.contains(caller) {
        (v, Result::Err(GateError::Unauthorized))
    } else if v.results.contains_key(caller) {
        (v, Result::Err(GateError::AlreadyRecognized))
    } else {
        let c = spec_bump(spec_attempt_count(v, caller));
        let v2 = GateView { attempts: v.attempts.insert(caller, c), ..v };
        if c > MAX_ATTEMPTS {
            (v2, Result::Err(GateError::AttemptsExceeded))
        } else {
            (v2, Result::Ok(c))
        }
    }
}

/// Some cached recognition result already carries this label.
pub open spec fn spec_label_taken(results: Map<Seq<u8>, Person>, label: Seq<char>) -> bool {
    exists|k: Seq<u8>| #[trigger] results.contains_key(k) && results[k].label@ == label
}

/// What an enrollment request checks before the engine is consulted, in
/// order, first failure winning. `None` admits the request: the engine may
/// then be invoked, and its success committed.
pub open spec fn spec_add_precheck(
    v: GateView,
    caller: Seq<u8>,
    label: Seq<char>,
    code: Seq<char>,
) -> Option<GateError> {
    if caller == anonymous_bytes() {
        Option::Some(GateError::AnonymousNotAllowed)
    } else if code != v.access_code {
        Option::Some(GateError::UnauthorizedFrontend)
    } else if !v.enabled {
        Option::Some(GateError::FunctionDisabled)
    } else if v.enrolled.contains(caller) {
        Option::Some(GateError::AlreadyEnrolled)
    } else if v.add_count >= MAX_ADD_CALLS {
        Option::Some(GateError::CapacityExceeded)
    } else if spec_label_taken(v.results, label) {
        Option::Some(GateError::LabelAlreadyRecognized)
    } else {
        Option::None
    }
}

/// How a committed enrollment changes the state.
pub open spec fn spec_add_commit(v: GateView, caller: Seq<u8>) -> GateView {
    GateView { enrolled: v.enrolled.insert(caller), add_count: v.add_count + 1, ..v }
}

/// The guard around the recognition service: it owns every piece of shared
/// state and decides, for each request, whether the engine may be consulted
/// and how the engine's outcome changes the state.
pub struct FaceGate {
    attempts: Vec<(Identity, u32)>,
    results: Vec<(Identity, Person)>,
    enrolled: Vec<Identity>,
    add_count: usize,
    enabled: bool,
    admin: Identity,
    access_code: String,
}

impl View for FaceGate {
    type V = GateView;

    closed spec fn view(&self) -> GateView {
        GateView {
            attempts: table_map(self.attempts@),
            results: table_map(self.results@),
            enrolled: id_set(self.enrolled@),
            add_count: self.add_count as int,
            enabled: self.enabled,
            admin: self.admin@,
            access_code: self.access_code@,
        }
    }
}

/// The index of the entry carrying a key, with what that says of the map.
fn table_find<V>(t: &Vec<(Identity, V)>, k: &Identity) -> (r: Option<usize>)
    requires
        distinct_keys(t@),
    ensures
        match r {
            Some(i) => {
                &&& i < t@.len()
                &&& t@[i as int].0@ == k@
                &&& table_map(t@).contains_key(k@)
                &&& table_map(t@)[k@] == t@[i as int].1
            },
            None => !table_map(t@).contains_key(k@),
        },
{
    let n = t.len();
    let mut i: usize = 0;
    while i < n
        invariant
            i <= n,
            n == t@.len(),
            distinct_keys(t@),
            forall|j: int| 0 <= j < i ==> t@[j].0@ != k@,
        decreases n - i,
    {
        if t[i].0.same_as(k) {
            proof {
                lemma_table_map_index(t@, i as int);
            }
            return Some(i);
        }
        i += 1;
    }
    proof {
        lemma_table_map_dom(t@, k@);
    }
    None
}

/// Whether an identity list carries a given identity.
fn id_list_contains(t: &Vec<Identity>, k: &Identity) -> (r: bool)
    ensures
        r == id_set(t@).contains(k@),
{
    let n = t.len();
    let mut i: usize = 0;
    while i < n
        invariant
            i <= n,
            n == t@.len(),
            forall|j: int| 0 <= j < i ==> t@[j]@ != k@,
        decreases n - i,
    {
        if t[i].same_as(k) {
            proof {
                lemma_id_set_contains(t@, k@);
            }
            return true;
        }
        i += 1;
    }
    proof {
        lemma_id_set_contains(t@, k@);
    }
    false
}

/// Whether some cached result carries the label.
fn label_taken(t: &Vec<(Identity, Person)>, label: &String) -> (r: bool)
    requires
        distinct_keys(t@),
    ensures
        r == spec_label_taken(table_map(t@), label@),
{
    let n = t.len();
    let mut i: usize = 0;
    while i < n
        invariant
            i <= n,
            n == t@.len(),
            distinct_keys(t@),
            forall|j: int| 0 <= j < i ==> t@[j].1.label@ != label@,
        decreases n - i,
    {
        if t[i].1.label == *label {
            proof {
                lemma_table_map_index(t@, i as int);
            }
            return true;
        }
        i += 1;
    }
    proof {
        if spec_label_taken(table_map(t@), label@) {
            let k = choose|k: Seq<u8>| #[trigger] table_map(t@).contains_key(k)
                && table_map(t@)[k].label@ == label@;
            lemma_table_map_dom(t@, k);
            let j = choose|j: int| 0 <= j < t@.len() && t@[j].0@ == k;
            lemma_table_map_index(t@, j);
        }
    }
    false
}

impl FaceGate {
    /// The backing lists carry no duplicated identity.
    spec fn rep_ok(&self) -> bool {
        &&& distinct_keys(self.attempts@)
        &&& distinct_keys(self.results@)
        &&& distinct_ids(self.enrolled@)
    }

    /// The representation is well formed and the state invariant holds.
    pub closed spec fn wf(&self) -> bool {
        &&& self.rep_ok()
        &&& self@.inv()
    }

    /// A well-formed gate's state satisfies the invariant.
    pub proof fn lemma_wf_inv(&self)
        requires
            self.wf(),
        ensures
            self@.inv(),
    {
    }

    /// Creates the guard state: no one enrolled, nothing cached, enrollment
    /// disabled. The admin identity is resolved from its textual form once,
    /// here; a text that does not resolve fails closed at startup.
    pub fn new(admin_text: &str, access_code: String) -> (r: Result<FaceGate, GateError>)
        ensures
            match r {
                Result::Ok(g) => {
                    &&& g.wf()
                    &&& principal_bytes_of(admin_text@) == Some(g@.admin)
                    &&& g@.access_code == access_code@
                    &&& g@.attempts == Map::<Seq<u8>, u32>::empty()
                    &&& g@.results == Map::<Seq<u8>, Person>::empty()
                    &&& g@.enrolled == Set::<Seq<u8>>::empty()
                    &&& g@.add_count == 0
                    &&& !g@.enabled
                },
                Result::Err(e) => {
                    &&& e == GateError::InvalidAdminConfig
                    &&& principal_bytes_of(admin_text@) is None
                },
            },
    {
        match parse_principal(admin_text) {
            Some(admin) => {
                let g = FaceGate {
                    attempts: Vec::new(),
                    results: Vec::new(),
                    enrolled: Vec::new(),
                    add_count: 0,
                    enabled: false,
                    admin,
                    access_code,
                };
                Ok(g)
            },
            None => Err(GateError::InvalidAdminConfig),
        }
    }

    /// Admission check shared by every privileged operation: only the
    /// configured admin passes.
    pub fn require_admin(&self, caller: &Identity) -> (r: Result<(), GateError>)
        ensures
            r is Ok <==> caller@ == self@.admin,
            r matches Err(e) ==> e == GateError::Unauthorized,
    {
        if caller.same_as(&self.admin) {
            Ok(())
        } else {
            Err(GateError::Unauthorized)
        }
    }

    /// Read-only admin self-check.
    pub fn is_authorized(&self, caller: &Identity) -> (r: Result<(), GateError>)
        ensures
            r is Ok <==> caller@ == self@.admin,
            r matches Err(e) ==> e == GateError::Unauthorized,
    {
        self.require_admin(caller)
    }

    /// Admin-only switch for the enrollment feature.
    pub fn toggle_add_function(&mut self, caller: &Identity, enable: bool) -> (r: Result<
        (),
        GateError,
    >)
        requires
            old(self).wf(),
        ensures
            final(self).wf(),
            caller@ == old(self)@.admin ==> {
                &&& r is Ok
                &&& final(self)@ == (GateView { enabled: enable, ..old(self)@ })
            },
            caller@ != old(self)@.admin ==> {
                &&& (r matches Err(e) && e == GateError::Unauthorized)
                &&& final(self)@ == old(self)@
            },
    {
        if caller.same_as(&self.admin) {
            self.enabled = enable;
            Ok(())
        } else {
            Err(GateError::Unauthorized)
        }
    }

    /// First half of a recognition request: every check that precedes the
    /// engine call. An enrolled caller without a cached result is granted
    /// one more attempt while any remain; the returned count says which
    /// permitted attempt this is, and only such an admission lets the host
    /// consult the engine.
    pub fn recognize_begin(&mut self, caller: &Identity) -> (r: Result<u32, GateError>)
        requires
            old(self).wf(),
        ensures
            final(self).wf(),
            (final(self)@, r) == spec_recognize_begin(old(self)@, caller@),
            r matches Ok(c) ==> 1 <= c <= MAX_ATTEMPTS,
    {
        if !id_list_contains(&self.enrolled, caller) {
            return Err(GateError::Unauthorized);
        }
        if table_find(&self.results, caller).is_some() {
            return Err(GateError::AlreadyRecognized);
        }
        let c: u32 = match table_find(&self.attempts, caller) {
            Some(i) => {
                let cur = self.attempts[i].1;
                let bumped = if cur <= MAX_ATTEMPTS {
                    cur + 1
                } else {
                    cur
                };
                let ghost before = self.attempts@;
                self.attempts[i] = (caller.duplicate(), bumped);
                proof {
                    lemma_table_map_update(before, i as int, self.attempts@[i as int].0, bumped);
                    assert(table_map(self.attempts@) == table_map(before).insert(caller@, bumped));
                }
                bumped
            },
            None => {
                let ghost before = self.attempts@;
                self.attempts.push((caller.duplicate(), 1));
                proof {
                    lemma_table_map_push(before, self.attempts@.last().0, 1u32);
                    lemma_table_map_dom(before, caller@);
                    assert(table_map(self.attempts@) == table_map(before).insert(caller@, 1u32));
                }
                1
            },
        };
        if c > MAX_ATTEMPTS {
            Err(GateError::AttemptsExceeded)
        } else {
            Ok(c)
        }
    }

    /// Second half of a recognition request: commits what the engine
    /// reported for the attempt `recognize_begin` admitted. A success is
    /// cached and is final for this identity; the failure of the last
    /// permitted attempt is reported as the attempts running out, an
    /// earlier failure verbatim.
    pub fn recognize_settle(
        &mut self,
        caller: &Identity,
        attempt: u32,
        outcome: EngineOutcome<Person>,
    ) -> (r: Recognition)
        requires
            old(self).wf(),
            old(self)@.enrolled.contains(caller@),
            !old(self)@.results.contains_key(caller@),
            1 <= attempt <= MAX_ATTEMPTS,
        ensures
            final(self).wf(),
            match outcome {
                EngineOutcome::Success(p) => {
                    &&& final(self)@ == (GateView {
                        results: old(self)@.results.insert(caller@, p),
                        ..old(self)@
                    })
                    &&& (r matches Recognition::Success(q) && q == p)
                },
                EngineOutcome::Failure(m) => {
                    &&& final(self)@ == old(self)@
                    &&& attempt == MAX_ATTEMPTS ==> r == Recognition::Failure(
                        GateError::AttemptsExceeded,
                    )
                    &&& attempt < MAX_ATTEMPTS ==> r == Recognition::Failure(GateError::Engine(m))
                },
            },
    {
        match outcome {
            EngineOutcome::Success(p) => {
                let stored = p.duplicate();
                let ghost before = self.results@;
                proof {
                    lemma_table_map_dom(before, caller@);
                }
                self.results.push((caller.duplicate(), stored));
                proof {
                    lemma_table_map_push(before, self.results@.last().0, self.results@.last().1);
                    assert(table_map(self.results@) == table_map(before).insert(caller@, p));
                }
                Recognition::Success(p)
            },
            EngineOutcome::Failure(m) => {
                if attempt == MAX_ATTEMPTS {
                    Recognition::Failure(GateError::AttemptsExceeded)
                } else {
                    Recognition::Failure(GateError::Engine(m))
                }
            },
        }
    }

    /// Every check that precedes the engine's enrollment call, in order,
    /// first failure winning. Mutates nothing; an admission lets the host
    /// consult the engine and commit a success with `add_settle`.
    pub fn add_precheck(&self, caller: &Identity, label: &String, code: &String) -> (r: Result<
        (),
        GateError,
    >)
        requires
            self.wf(),
        ensures
            match r {
                Result::Ok(_) => spec_add_precheck(self@, caller@, label@, code@) is None,
                Result::Err(e) => spec_add_precheck(self@, caller@, label@, code@) == Some(e),
            },
    {
        if caller.is_anonymous() {
            return Err(GateError::AnonymousNotAllowed);
        }
        if !(*code == self.access_code) {
            return Err(GateError::UnauthorizedFrontend);
        }
        if !self.enabled {
            return Err(GateError::FunctionDisabled);
        }
        if id_list_contains(&self.enrolled, caller) {
            return Err(GateError::AlreadyEnrolled);
        }
        if self.add_count >= MAX_ADD_CALLS {
            return Err(GateError::CapacityExceeded);
        }
        if label_taken(&self.results, label) {
            return Err(GateError::LabelAlreadyRecognized);
        }
        Ok(())
    }

    /// Second half of an enrollment request: commits what the engine
    /// reported for the request `add_precheck` admitted. Only a success
    /// changes any state: the caller joins the enrollment set and the
    /// counter moves up; a failure is handed back verbatim.
    pub fn add_settle(&mut self, caller: &Identity, outcome: EngineOutcome<Embedding>) -> (r:
        Addition)
        requires
            old(self).wf(),
            !old(self)@.enrolled.contains(caller@),
            old(self)@.add_count < MAX_ADD_CALLS,
        ensures
            final(self).wf(),
            match outcome {
                EngineOutcome::Success(e) => {
                    &&& final(self)@ == spec_add_commit(old(self)@, caller@)
                    &&& (r matches Addition::Success(emb) && emb == e)
                },
                EngineOutcome::Failure(m) => {
                    &&& final(self)@ == old(self)@
                    &&& r == Addition::Failure(GateError::Engine(m))
                },
            },
    {
        match outcome {
            EngineOutcome::Success(e) => {
                let ghost before = self.enrolled@;
                proof {
                    lemma_id_set_contains(before, caller@);
                    lemma_id_set_len(before);
                }
                self.enrolled.push(caller.duplicate());
                self.add_count = self.add_count + 1;
                proof {
                    lemma_id_set_push(before, self.enrolled@.last());
                    assert(id_set(self.enrolled@) == id_set(before).insert(caller@));
                    lemma_id_set_len(self.enrolled@);
                }
                Addition::Success(e)
            },
            EngineOutcome::Failure(m) => Addition::Failure(GateError::Engine(m)),
        }
    }

    /// The cached final recognition result for an identity, if any.
    pub fn get_recognition_result(&self, user: &Identity) -> (r: Option<Person>)
        requires
            self.wf(),
        ensures
            match r {
                Some(p) => self@.results.contains_key(user@) && p == self@.results[user@],
                None => !self@.results.contains_key(user@),
            },
    {
        match table_find(&self.results, user) {
            Some(i) => Some(self.results[i].1.duplicate()),
            None => None,
        }
    }

    /// Every enrolled identity, with the enrollment counter.
    pub fn get_add_callers(&self) -> (r: (u64, Vec<Identity>))
        requires
            self.wf(),
        ensures
            r.0 == self@.add_count,
            distinct_ids(r.1@),
            id_set(r.1@) == self@.enrolled,
            r.1@.len() == self@.add_count,
    {
        let n = self.enrolled.len();
        proof {
            lemma_id_set_len(self.enrolled@);
        }
        let mut out: Vec<Identity> = Vec::new();
        let mut i: usize = 0;
        while i < n
            invariant
                i <= n,
                n == self.enrolled@.len(),
                out@.len() == i,
                forall|j: int| 0 <= j < i ==> out@[j]@ == self.enrolled@[j]@,
            decreases n - i,
        {
            out.push(self.enrolled[i].duplicate());
            i += 1;
        }
        proof {
            crate::table::lemma_id_set_pointwise(out@, self.enrolled@);
        }
        (self.add_count as u64, out)
    }

    /// Every cached recognition result, for admin reporting; the order of
    /// the entries carries no meaning.
    pub fn get_all_recognition_results(&self) -> (r: &Vec<(Identity, Person)>)
        requires
            self.wf(),
        ensures
            distinct_keys(r@),
            table_map(r@) == self@.results,
    {
        &self.results
    }

    /// `clear_face_detection_model_bytes` may proceed only for the admin;
    /// a granted request names the blob the host is to clear.
    pub fn clear_face_detection_model_bytes(&self, caller: &Identity) -> (r: CanisterResponse<
        String,
    >)
        ensures
            caller@ == self@.admin ==> (r matches CanisterResponse::Success(n) && n@
                == "face-detection.onnx"@),
            caller@ != self@.admin ==> (r matches CanisterResponse::Failure(m) && m@
                == GateError::Unauthorized.spec_message()),
    {
        match self.require_admin(caller) {
            Result::Ok(_) => CanisterResponse::Success(model_file_name(true)),
            Result::Err(e) => CanisterResponse::Failure(e.message()),
        }
    }

    /// `clear_face_recognition_model_bytes` may proceed only for the admin;
    /// a granted request names the blob the host is to clear.
    pub fn clear_face_recognition_model_bytes(&self, caller: &Identity) -> (r: CanisterResponse<
        String,
    >)
        ensures
            caller@ == self@.admin ==> (r matches CanisterResponse::Success(n) && n@
                == "face-recognition.onnx"@),
            caller@ != self@.admin ==> (r matches CanisterResponse::Failure(m) && m@
                == GateError::Unauthorized.spec_message()),
    {
        match self.require_admin(caller) {
            Result::Ok(_) => CanisterResponse::Success(model_file_name(false)),
            Result::Err(e) => CanisterResponse::Failure(e.message()),
        }
    }

    /// `append_face_detection_model_bytes` may proceed only for the admin;
    /// a granted request names the blob the host is to append the bytes to.
    pub fn append_face_detection_model_bytes(&self, caller: &Identity, bytes: Vec<u8>) -> (r:
        CanisterResponse<(String, Vec<u8>)>)
        ensures
            caller@ == self@.admin ==> (r matches CanisterResponse::Success(n) && n.0@
                == "face-detection.onnx"@ && n.1@ == bytes@),
            caller@ != self@.admin ==> (r matches CanisterResponse::Failure(m) && m@
                == GateError::Unauthorized.spec_message()),
    {
        match self.require_admin(caller) {
            Result::Ok(_) => CanisterResponse::Success((model_file_name(true), bytes)),
            Result::Err(e) => CanisterResponse::Failure(e.message()),
        }
    }

    /// `append_face_recognition_model_bytes` may proceed only for the
    /// admin; a granted request names the blob the host is to append the
    /// bytes to.
    pub fn append_face_recognition_model_bytes(&self, caller: &Identity, bytes: Vec<u8>) -> (r:
        CanisterResponse<(String, Vec<u8>)>)
        ensures
            caller@ == self@.admin ==> (r matches CanisterResponse::Success(n) && n.0@
                == "face-recognition.onnx"@ && n.1@ == bytes@),
            caller@ != self@.admin ==> (r matches CanisterResponse::Failure(m) && m@
                == GateError::Unauthorized.spec_message()),
    {
        match self.require_admin(caller) {
            Result::Ok(_) => CanisterResponse::Success((model_file_name(false), bytes)),
            Result::Err(e) => CanisterResponse::Failure(e.message()),
        }
    }

    /// `setup_models` may proceed only for the admin; a granted request
    /// names the two blobs whose bytes the host reads and hands to the
    /// engine. The engine's outcome is then mapped by
    /// [`crate::response::setup_outcome_response`].
    pub fn setup_models_begin(&self, caller: &Identity) -> (r: CanisterResponse<(String, String)>)
        ensures
            caller@ == self@.admin ==> (r matches CanisterResponse::Success(n) && n.0@
                == "face-detection.onnx"@ && n.1@ == "face-recognition.onnx"@),
            caller@ != self@.admin ==> (r matches CanisterResponse::Failure(m) && m@
                == GateError::Unauthorized.spec_message()),
    {
        match self.require_admin(caller) {
            Result::Ok(_) => CanisterResponse::Success(
                (model_file_name(true), model_file_name(false)),
            ),
            Result::Err(e) => CanisterResponse::Failure(e.message()),
        }
    }
}

/// The blob name a model lives under in the byte store.
fn model_file_name(detection: bool) -> (r: String)
    ensures
        detection ==> r@ == "face-detection.onnx"@,
        !detection ==> r@ == "face-recognition.onnx"@,
{
    if detection {
        String::from_str("face-detection.onnx")
    } else {
        String::from_str("face-recognition.onnx")
    }
}

} // verus!
