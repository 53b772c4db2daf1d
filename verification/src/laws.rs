use vstd::prelude::*;
use crate::gate::{
    spec_add_commit, spec_add_precheck, spec_attempt_count, spec_recognize_begin, GateView,
    MAX_ADD_CALLS, MAX_ATTEMPTS,
};
use crate::identity::anonymous_bytes;
use crate::response::{GateError, Person};

verus! {

/// An identity outside the enrollment set is always refused as
/// `Unauthorized`, whatever its attempt count, and the state does not
/// change — so the engine gate never opens for it.
pub proof fn law_unenrolled_always_unauthorized(v: GateView, caller: Seq<u8>)
    requires
        !v.enrolled.contains(caller),
    ensures
        spec_recognize_begin(v, caller).0 == v,
        spec_recognize_begin(v, caller).1 == Result::<u32, GateError>::Err(
            GateError::Unauthorized,
        ),
{
}

/// An identity holding a cached result is always refused as
/// `AlreadyRecognized`, the state does not change, and no further attempt
/// is admitted — the engine is never consulted again for it.
pub proof fn law_cached_result_is_final(v: GateView, caller: Seq<u8>)
    requires
        v.enrolled.contains(caller),
        v.results.contains_key(caller),
    ensures
        spec_recognize_begin(v, caller).0 == v,
        spec_recognize_begin(v, caller).1 == Result::<u32, GateError>::Err(
            GateError::AlreadyRecognized,
        ),
{
}

/// One step of the recognition protocol for a single identity: a request
/// is checked for admission, or an engine outcome is brought back.
pub enum GateEvent {
    /// A recognition request arrives and runs the admission checks.
    Begin,
    /// The engine's success for this identity is committed.
    SettleSuccess(Person),
    /// The engine failed; nothing is committed.
    SettleFailure,
}

/// The state one event leaves, and whether the event admitted a request to
/// the engine.
pub open spec fn spec_event_step(v: GateView, caller: Seq<u8>, e: GateEvent) -> (GateView, bool) {
    match e {
        GateEvent::Begin => {
            let s = spec_recognize_begin(v, caller);
            (s.0, s.1 is Ok)
        },
        GateEvent::SettleSuccess(p) => (
            GateView { results: v.results.insert(caller, p), ..v },
            false,
        ),
        GateEvent::SettleFailure => (v, false),
    }
}

/// The state a run of events leaves.
pub open spec fn spec_event_run(v: GateView, caller: Seq<u8>, es: Seq<GateEvent>) -> GateView
    decreases es.len(),
{
    if es.len() == 0 {
        v
    } else {
        spec_event_step(spec_event_run(v, caller, es.drop_last()), caller, es.last()).0
    }
}

/// How many events of a run admitted a request to the engine.
pub open spec fn spec_opens_in_run(v: GateView, caller: Seq<u8>, es: Seq<GateEvent>) -> nat
    decreases es.len(),
{
    if es.len() == 0 {
        0
    } else {
        spec_opens_in_run(v, caller, es.drop_last()) + (
        if spec_event_step(spec_event_run(v, caller, es.drop_last()), caller, es.last()).1 {
            1nat
        } else {
            0nat
        })
    }
}

/// How many engine admissions remain open to an identity in a state.
spec fn spec_allowance(v: GateView, caller: Seq<u8>) -> int {
    if spec_attempt_count(v, caller) <= MAX_ATTEMPTS {
        MAX_ATTEMPTS - spec_attempt_count(v, caller)
    } else {
        0
    }
}

/// Each admission spends one unit of the identity's allowance, and no
/// event ever restores any.
proof fn lemma_opens_spend_allowance(v: GateView, caller: Seq<u8>, es: Seq<GateEvent>)
    ensures
        spec_opens_in_run(v, caller, es) + spec_allowance(spec_event_run(v, caller, es), caller)
            <= spec_allowance(v, caller),
    decreases es.len(),
{
    if es.len() > 0 {
        lemma_opens_spend_allowance(v, caller, es.drop_last());
    }
}

/// Whatever recognition requests an identity makes, in whatever order the
/// engine's outcomes come back and whatever they are, the engine is
/// admitted at most `MAX_ATTEMPTS` times on that identity's behalf.
pub proof fn law_engine_calls_bounded(v: GateView, caller: Seq<u8>, es: Seq<GateEvent>)
    ensures
        spec_opens_in_run(v, caller, es) <= MAX_ATTEMPTS,
{
    lemma_opens_spend_allowance(v, caller, es);
}

/// Enrollment is permanent and unrepeatable: once an identity's enrollment
/// is committed it is in the set, and an enrolled identity's later
/// enrollment request is always refused before the engine is consulted —
/// as `AlreadyEnrolled` once its own credentials pass.
pub proof fn law_add_at_most_once(
    v: GateView,
    caller: Seq<u8>,
    label: Seq<char>,
    code: Seq<char>,
)
    requires
        v.enrolled.contains(caller),
    ensures
        spec_add_precheck(v, caller, label, code) is Some,
        (caller != anonymous_bytes() && code == v.access_code && v.enabled)
            ==> spec_add_precheck(v, caller, label, code) == Some(GateError::AlreadyEnrolled),
        spec_add_commit(v, caller).enrolled.contains(caller),
{
}

/// A committed enrollment keeps every earlier member and adds the caller:
/// membership never shrinks.
pub proof fn law_enrollment_permanent(v: GateView, caller: Seq<u8>, other: Seq<u8>)
    ensures
        spec_add_commit(v, caller).enrolled.contains(caller),
        v.enrolled.contains(other) ==> spec_add_commit(v, caller).enrolled.contains(other),
{
}

/// The enrollment counter counts exactly the enrolled identities: a
/// committed enrollment of a fresh identity moves the counter and the
/// set's size up by one together, and keeps the invariant; and once the
/// counter has reached the cap, no enrollment request is admitted.
pub proof fn law_enrollment_counter(
    v: GateView,
    caller: Seq<u8>,
    label: Seq<char>,
    code: Seq<char>,
)
    requires
        v.inv(),
        !v.enrolled.contains(caller),
    ensures
        spec_add_commit(v, caller).add_count == v.add_count + 1,
        spec_add_commit(v, caller).enrolled.len() == v.enrolled.len() + 1,
        v.add_count < MAX_ADD_CALLS ==> spec_add_commit(v, caller).inv(),
        v.add_count >= MAX_ADD_CALLS ==> spec_add_precheck(v, caller, label, code) is Some,
{
}

/// The state after a run of committed enrollments.
pub open spec fn spec_commit_trace(v: GateView, ids: Seq<Seq<u8>>) -> GateView
    decreases ids.len(),
{
    if ids.len() == 0 {
        v
    } else {
        spec_add_commit(spec_commit_trace(v, ids.drop_last()), ids.last())
    }
}

/// After `N` committed enrollments the counter has moved up by exactly
/// `N`. The workflow commits a given identity at most once (see
/// `law_add_at_most_once`), so after `N` successful enrollments by `N`
/// distinct identities the counter reads exactly `N` more than before.
pub proof fn law_counter_counts_enrollments(v: GateView, ids: Seq<Seq<u8>>)
    ensures
        spec_commit_trace(v, ids).add_count == v.add_count + ids.len(),
    decreases ids.len(),
{
    if ids.len() > 0 {
        law_counter_counts_enrollments(v, ids.drop_last());
    }
}

} // verus!
