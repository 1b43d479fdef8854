//! The credential-rotation protocol: events, the secret container model,
//! the verified model of the store's version staging, and the four-step
//! orchestrator.

use vstd::prelude::*;

mod container;
mod smc;

pub use container::lemma_container_round_trip;
pub use container::lemma_serialize_injective;
pub use container::parse_container;
pub use container::parse_fields;
pub use container::split_known;
pub use container::split_unknown;
pub use container::ContainerView;
pub use container::SecretContainer;
pub use smc::accept_password;
pub use smc::lemma_create_fresh_writes_once;
pub use smc::lemma_create_stale_recovers;
pub use smc::lemma_put_pending_shape;
pub use smc::move_current;
pub use smc::move_pending;
pub use smc::password_request;
pub use smc::spec_get;
pub use smc::spec_response_payload;
pub use smc::spec_promote;
pub use smc::spec_put;
pub use smc::Secret;
pub use smc::SecretVersion;
pub use smc::SecretVersionView;
pub use smc::validate_secret_response;
pub use smc::Smc;
pub use smc::SmcView;

verus! {

/// Why a rotation invocation failed. Every error surfaces as the
/// invocation's terminal result; none is silently swallowed.
#[derive(Debug, Clone)]
pub enum RotateError {
    /// A secret payload was not a JSON object.
    PayloadNotObject,
    /// The inbound event was not a JSON object.
    EventNotObject,
    /// The event lacked a client request token, or it was not a string.
    MissingRequestToken,
    /// The event lacked a secret id, or it was not a string.
    MissingSecretId,
    /// The event lacked a step, or it was not a string.
    MissingStep,
    /// The event named a step outside the closed step set.
    UnknownStep,
    /// The local test document was not a JSON object.
    TestDataNotObject,
    /// The local test document lacked a region string.
    MissingRegion,
    /// The local test document lacked an invocation array.
    MissingInvocations,
    /// The store was asked about a secret it does not hold.
    UnknownSecret,
    /// A version stage other than the two well-known labels was named.
    UnknownStage,
    /// No version of the secret carries the requested label.
    NoVersionForStage,
    /// A request token was reused for a version with a different payload.
    TokenReused,
    /// A named version id does not exist on the secret.
    MissingVersion,
    /// The version the current label was to be moved from does not carry it.
    StageNotOnVersion,
    /// The store returned no secret material for a password request.
    PasswordEmpty,
    /// A fetch response carried no arn.
    MissingArn,
    /// A fetch response carried no version id.
    MissingVersionId,
    /// A fetch response carried neither secret text nor valid binary text.
    MissingSecretPayload,
    /// A caller-supplied rotation hook failed; its message is passed
    /// through verbatim.
    Hook(String),
}

/// The steps of the rotation protocol. The step set is closed: an
/// unrecognised step name is a hard parse failure, not a runtime branch.
#[derive(Debug, Copy, Clone, PartialEq, Eq, Structural)]
pub enum Step {
    /// Secret creation.
    Create,
    /// Secret configuration in the external service.
    SetSecret,
    /// Secret testing in the external service.
    Test,
    /// Secret rotation finalisation.
    Finish,
}

} // verus!

verus! {

/// The wire name of each rotation step, fixed by the store's calling
/// convention.
pub open spec fn step_wire_name(step: Step) -> Seq<char> {
    match step {
        Step::Create => "createSecret"@,
        Step::SetSecret => "setSecret"@,
        Step::Test => "testSecret"@,
        Step::Finish => "finishSecret"@,
    }
}

/// Maps a wire name to the rotation step it names; the step set is closed,
/// so any other name is rejected.
pub open spec fn spec_parse_step(s: Seq<char>) -> Result<Step, RotateError> {
    if s == "createSecret"@ {
        Ok(Step::Create)
    } else if s == "setSecret"@ {
        Ok(Step::SetSecret)
    } else if s == "testSecret"@ {
        Ok(Step::Test)
    } else if s == "finishSecret"@ {
        Ok(Step::Finish)
    } else {
        Err(RotateError::UnknownStep)
    }
}

/// Parses the wire name of a rotation step.
pub fn parse_step(s: &str) -> (r: Result<Step, RotateError>)
    ensures
        r == spec_parse_step(s@),
{
    if smc::str_eq(s, "createSecret") {
        Ok(Step::Create)
    } else if smc::str_eq(s, "setSecret") {
        Ok(Step::SetSecret)
    } else if smc::str_eq(s, "testSecret") {
        Ok(Step::Test)
    } else if smc::str_eq(s, "finishSecret") {
        Ok(Step::Finish)
    } else {
        Err(RotateError::UnknownStep)
    }
}

/// Event sent by the store to the rotation handler.
#[derive(Debug, Clone)]
pub struct Event {
    /// Request token correlating this rotation attempt; used as the
    /// idempotency token for store writes.
    pub client_request_token: String,
    /// Id of the secret to rotate.
    pub secret_id: String,
    /// Current step of the rotation.
    pub step: Step,
}

/// The value text of the first field named `name`, if any.
pub open spec fn field_value(
    fields: Seq<(Seq<char>, Seq<char>)>,
    name: Seq<char>,
) -> Option<Seq<char>>
    decreases fields.len(),
{
    if fields.len() == 0 {
        None
    } else if fields[0].0 == name {
        Some(fields[0].1)
    } else {
        field_value(fields.drop_first(), name)
    }
}

fn find_field(fields: &Vec<(String, String)>, name: &str) -> (r: Option<String>)
    ensures
        r.deep_view() == field_value(fields.deep_view(), name@),
{
    let n = fields.len();
    let mut i: usize = 0;
    proof {
        assert(fields.deep_view().skip(0) =~= fields.deep_view());
    }
    while i < n
        invariant
            n == fields.len(),
            i <= n,
            field_value(fields.deep_view(), name@) == field_value(
                fields.deep_view().skip(i as int),
                name@,
            ),
        decreases n - i,
    {
        proof {
            assert(fields.deep_view()[i as int] == (fields@[i as int].0@, fields@[i as int].1@));
            assert(fields.deep_view().skip(i as int)[0] == fields.deep_view()[i as int]);
        }
        if smc::str_eq(fields[i].0.as_str(), name) {
            let value = fields[i].1.clone();
            return Some(value);
        }
        proof {
            assert(fields.deep_view().skip(i as int).drop_first() =~= fields.deep_view().skip(
                i + 1,
            ));
        }
        i += 1;
    }
    proof {
        assert(fields.deep_view().skip(n as int) =~= Seq::<(Seq<char>, Seq<char>)>::empty());
    }
    None
}

/// The decoded string value of the field `name`: present exactly when the
/// object has such a field and its value is a JSON string.
pub open spec fn spec_string_field(
    fields: Seq<(Seq<char>, Seq<char>)>,
    name: Seq<char>,
) -> Option<Seq<char>> {
    match field_value(fields, name) {
        None => None,
        Some(raw) => crate::json::json_string_of(raw),
    }
}

fn string_field(fields: &Vec<(String, String)>, name: &str) -> (r: Option<String>)
    ensures
        r.deep_view() == spec_string_field(fields.deep_view(), name@),
{
    match find_field(fields, name) {
        Some(raw) => crate::json::json_string_value(raw.as_str()),
        None => None,
    }
}

/// What parsing an inbound rotation event denotes: the request token, the
/// secret id and the step — or the first missing or malformed part, in
/// that order.
pub open spec fn spec_parse_event(text: Seq<char>) -> Result<
    (Seq<char>, Seq<char>, Step),
    RotateError,
> {
    match crate::json::json_fields_of(text) {
        None => Err(RotateError::EventNotObject),
        Some(fields) => {
            let token = spec_string_field(fields, "ClientRequestToken"@);
            let id = spec_string_field(fields, "SecretId"@);
            let step_name = spec_string_field(fields, "Step"@);
            if token is None {
                Err(RotateError::MissingRequestToken)
            } else if id is None {
                Err(RotateError::MissingSecretId)
            } else if step_name is None {
                Err(RotateError::MissingStep)
            } else {
                match spec_parse_step(step_name->Some_0) {
                    Ok(st) => Ok((token->Some_0, id->Some_0, st)),
                    Err(e) => Err(e),
                }
            }
        },
    }
}

/// Parses an inbound rotation event — a JSON object whose field names,
/// `ClientRequestToken`, `SecretId` and `Step`, are fixed by the store's
/// calling convention.
pub fn parse_rotation_event(text: &str) -> (r: Result<Event, RotateError>)
    ensures
        match r {
            Ok(ev) => spec_parse_event(text@) == Ok::<(Seq<char>, Seq<char>, Step), RotateError>(
                (ev.client_request_token@, ev.secret_id@, ev.step),
            ),
            Err(e) => spec_parse_event(text@) == Err::<(Seq<char>, Seq<char>, Step), RotateError>(
                e,
            ),
        },
{
    let fields = match crate::json::json_object_fields(text) {
        Some(f) => f,
        None => {
            return Err(RotateError::EventNotObject);
        },
    };
    let token = match string_field(&fields, "ClientRequestToken") {
        Some(t) => t,
        None => {
            return Err(RotateError::MissingRequestToken);
        },
    };
    let id = match string_field(&fields, "SecretId") {
        Some(t) => t,
        None => {
            return Err(RotateError::MissingSecretId);
        },
    };
    let step_name = match string_field(&fields, "Step") {
        Some(t) => t,
        None => {
            return Err(RotateError::MissingStep);
        },
    };
    match parse_step(step_name.as_str()) {
        Ok(step) => Ok(Event { client_request_token: token, secret_id: id, step }),
        Err(e) => Err(e),
    }
}

} // verus!

verus! {

/// What parsing a list of event texts denotes: the parsed events in order,
/// or the first event that does not parse.
pub open spec fn spec_parse_events(items: Seq<Seq<char>>) -> Result<
    Seq<(Seq<char>, Seq<char>, Step)>,
    RotateError,
>
    decreases items.len(),
{
    if items.len() == 0 {
        Ok(Seq::empty())
    } else {
        match spec_parse_events(items.drop_last()) {
            Err(e) => Err(e),
            Ok(evs) => match spec_parse_event(items.last()) {
                Ok(ev) => Ok(evs.push(ev)),
                Err(e) => Err(e),
            },
        }
    }
}

/// What parsing the local test document denotes: the region and the events
/// replayed locally — or the first missing or malformed part.
pub open spec fn spec_parse_test_data(text: Seq<char>) -> Result<
    (Seq<char>, Seq<(Seq<char>, Seq<char>, Step)>),
    RotateError,
> {
    match crate::json::json_fields_of(text) {
        None => Err(RotateError::TestDataNotObject),
        Some(fields) => {
            if spec_string_field(fields, "region"@) is None {
                Err(RotateError::MissingRegion)
            } else {
                match field_value(fields, "invocations"@) {
                    None => Err(RotateError::MissingInvocations),
                    Some(raw) => match crate::json::json_items_of(raw) {
                        None => Err(RotateError::MissingInvocations),
                        Some(items) => match spec_parse_events(items) {
                            Ok(evs) => Ok((spec_string_field(fields, "region"@)->Some_0, evs)),
                            Err(e) => Err(e),
                        },
                    },
                }
            }
        },
    }
}

/// Parses the local test document: a JSON object with a `region` string and
/// an `invocations` array of rotation events, replayed in order.
pub fn parse_rotation_test_data(text: &str) -> (r: Result<
    crate::harness::TestData<Event>,
    RotateError,
>)
    ensures
        match r {
            Ok(td) => spec_parse_test_data(text@) matches Ok(p) && td.region@ == p.0
                && td.invocations@.len() == p.1.len() && (forall|k: int|
                0 <= k < p.1.len() ==> ((#[trigger] td.invocations@[k]).client_request_token@,
                td.invocations@[k].secret_id@,
                td.invocations@[k].step,
            ) == p.1[k]),
            Err(e) => spec_parse_test_data(text@) == Err::<
                (Seq<char>, Seq<(Seq<char>, Seq<char>, Step)>),
                RotateError,
            >(e),
        },
{
    let fields = match crate::json::json_object_fields(text) {
        Some(f) => f,
        None => {
            return Err(RotateError::TestDataNotObject);
        },
    };
    let region = match string_field(&fields, "region") {
        Some(s) => s,
        None => {
            return Err(RotateError::MissingRegion);
        },
    };
    let raw_invocations = match find_field(&fields, "invocations") {
        Some(s) => s,
        None => {
            return Err(RotateError::MissingInvocations);
        },
    };
    let items = match crate::json::json_array_items(raw_invocations.as_str()) {
        Some(v) => v,
        None => {
            return Err(RotateError::MissingInvocations);
        },
    };
    let n = items.len();
    let mut invocations: Vec<Event> = Vec::new();
    let mut i: usize = 0;
    while i < n
        invariant
            n == items.len(),
            i <= n,
            invocations@.len() == i,
            crate::json::json_fields_of(text@) == Some(fields.deep_view()),
            spec_string_field(fields.deep_view(), "region"@) is Some,
            region@ == spec_string_field(fields.deep_view(), "region"@)->Some_0,
            field_value(fields.deep_view(), "invocations"@) == Some(raw_invocations@),
            crate::json::json_items_of(raw_invocations@) == Some(items.deep_view()),
            spec_parse_events(items.deep_view().take(i as int)) matches Ok(evs) && evs.len() == i
                && (forall|k: int|
                0 <= k < i ==> ((#[trigger] invocations@[k]).client_request_token@,
                invocations@[k].secret_id@,
                invocations@[k].step,
            ) == evs[k]),
        decreases n - i,
    {
        proof {
            assert(items.deep_view()[i as int] == items@[i as int]@);
            assert(items.deep_view().take(i + 1).drop_last() =~= items.deep_view().take(i as int));
            assert(items.deep_view().take(i + 1).last() == items.deep_view()[i as int]);
        }
        let ev = match parse_rotation_event(items[i].as_str()) {
            Ok(ev) => ev,
            Err(e) => {
                proof {
                    lemma_parse_events_error(items.deep_view(), i as int);
                }
                return Err(e);
            },
        };
        invocations.push(ev);
        i += 1;
    }
    proof {
        assert(items.deep_view().take(n as int) =~= items.deep_view());
    }
    Ok(crate::harness::TestData { region, invocations })
}

proof fn lemma_parse_events_error(items: Seq<Seq<char>>, i: int)
    requires
        0 <= i < items.len(),
        spec_parse_events(items.take(i)) is Ok,
        spec_parse_event(items[i]) is Err,
    ensures
        spec_parse_events(items) == Err::<Seq<(Seq<char>, Seq<char>, Step)>, RotateError>(
            spec_parse_event(items[i])->Err_0,
        ),
    decreases items.len(),
{
    if items.len() > i + 1 {
        assert(items.drop_last().take(i) =~= items.take(i));
        assert(items.drop_last()[i] == items[i]);
        lemma_parse_events_error(items.drop_last(), i);
    } else {
        assert(items.take(i) =~= items.drop_last());
    }
}

} // verus!

verus! {

/// The caller-supplied rotation hooks. The orchestrator dispatches on the
/// event's step and invokes these; their bodies are the caller's business
/// logic against the external service, and nothing is assumed of them.
pub trait RotateRunner<Shared>: Sized {
    /// Invoked once before any invocation runs; short global setup.
    fn setup() -> Result<(), String>;

    /// Produces a new candidate secret from the current one without
    /// applying it anywhere. Only called when no usable pending version
    /// exists — which happens when rotation failed at an earlier stage.
    fn create(
        shared: &mut Shared,
        secret_cur: SecretContainer,
        smc: &Smc,
        region: &str,
    ) -> Result<SecretContainer, RotateError>;

    /// Pushes the new credential into the external service. Only called
    /// when a probe with `test` showed the pending credential is not
    /// applied yet: a failure at a later stage re-runs every stage, and a
    /// second `set` would fail because the old credential no longer works.
    fn set(
        shared: &mut Shared,
        secret_cur: SecretContainer,
        secret_new: SecretContainer,
        region: &str,
    ) -> Result<(), RotateError>;

    /// Probes whether a connection with the given credential works.
    fn test(
        shared: &mut Shared,
        secret_new: SecretContainer,
        region: &str,
    ) -> Result<(), RotateError>;

    /// Optional completion work before the store promotes the pending
    /// version; a no-op by default.
    fn finish(
        _shared: &mut Shared,
        _secret_cur: SecretContainer,
        _secret_new: SecretContainer,
        _region: &str,
    ) -> Result<(), RotateError> {
        Ok(())
    }
}

/// The Create step needs a fresh candidate exactly when no pending version
/// exists, or when the pending version is stale: its id equals current's,
/// so it cannot belong to an in-progress rotation. A pending version with a
/// different id is an in-progress rotation and is left untouched.
pub fn create_needed(pending: &Option<Secret>, current: &Secret) -> (r: bool)
    ensures
        r == match pending {
            None => true,
            Some(p) => p.version_id@ == current.version_id@,
        },
{
    match pending {
        None => true,
        Some(p) => smc::str_eq(p.version_id.as_str(), current.version_id.as_str()),
    }
}

/// In the Set step the caller's `set` runs exactly when the probe of the
/// pending credential failed: a successful probe means the credential is
/// already applied, and applying it again is skipped.
pub fn set_needed(test_ok: bool) -> (r: bool)
    ensures
        r == !test_ok,
{
    !test_ok
}

/// Executes one invocation of the rotation protocol against the store:
/// dispatches on the event's step, checks the step's preconditions, invokes
/// the caller's hooks and issues the store operations in order. The
/// orchestrator itself is stateless across invocations — the store's
/// version staging is all the state there is.
///
/// The contract pins the store-visible effect of every step: reads never
/// change the store; a Create against an in-progress pending version writes
/// nothing; a Create against a missing or stale pending version leaves,
/// when it succeeds, a pending version whose id is the event's request
/// token — one more version than before when the token is fresh; a Finish
/// moves the current label onto the formerly pending version; and every
/// failure leaves the store exactly as it was.
pub fn run_rotation_step<Shared, R: RotateRunner<Shared>>(
    shared: &mut Shared,
    smc: &mut Smc,
    event: &Event,
    known: &Vec<String>,
    region: &str,
) -> (r: Result<(), RotateError>)
    requires
        old(smc).wf(),
    ensures
        final(smc).wf(),
        final(smc)@.secret_id == old(smc)@.secret_id,
        final(smc)@.arn == old(smc)@.arn,
        r is Err ==> final(smc)@ == old(smc)@,
        event.step == Step::SetSecret || event.step == Step::Test ==> final(smc)@ == old(smc)@,
        event.step == Step::SetSecret || event.step == Step::Test ==> (spec_get(
            old(smc)@,
            event.secret_id@,
            "AWSPENDING"@,
        ) matches Err(e) ==> r == Err::<(), RotateError>(e)),
        event.step == Step::Create ==> ({
            let pend = spec_get(old(smc)@, event.secret_id@, "AWSPENDING"@);
            let cur = spec_get(old(smc)@, event.secret_id@, "AWSCURRENT"@);
            &&& ((pend matches Ok(p) && cur matches Ok(c) && p.version_id != c.version_id) ==> r
                == Ok::<(), RotateError>(()) && final(smc)@ == old(smc)@)
            &&& (cur is Err ==> r == Err::<(), RotateError>(cur->Err_0))
            &&& (r is Ok && (pend is Err || (pend matches Ok(p) && cur matches Ok(c)
                && p.version_id == c.version_id)) ==> ((final(smc)@.spec_pending() matches Some(np)
                && np.version_id == event.client_request_token@) && (!old(smc)@.has_version(
                event.client_request_token@,
            ) ==> final(smc)@.versions.len() == old(smc)@.versions.len() + 1)))
        }),
        event.step == Step::Finish ==> (spec_get(
            old(smc)@,
            event.secret_id@,
            "AWSCURRENT"@,
        ) matches Err(e) ==> r == Err::<(), RotateError>(e)),
        event.step == Step::Finish ==> (spec_get(old(smc)@, event.secret_id@, "AWSCURRENT"@) is Ok
            && spec_get(old(smc)@, event.secret_id@, "AWSPENDING"@) is Err ==> r == Err::<
            (),
            RotateError,
        >(spec_get(old(smc)@, event.secret_id@, "AWSPENDING"@)->Err_0)),
        event.step == Step::Finish ==> (r is Ok ==> ({
            let pend = spec_get(old(smc)@, event.secret_id@, "AWSPENDING"@);
            let cur = spec_get(old(smc)@, event.secret_id@, "AWSCURRENT"@);
            &&& pend is Ok
            &&& cur is Ok
            &&& spec_promote(
                old(smc)@,
                old(smc)@.arn,
                cur->Ok_0.version_id,
                pend->Ok_0.version_id,
            ) == Ok::<SmcView, RotateError>(final(smc)@)
            &&& (final(smc)@.spec_current() matches Some(v) && v.version_id
                == pend->Ok_0.version_id)
        })),
{
    match event.step {
        Step::Create => {
            let pending = match smc.get_secret_value_pending(event.secret_id.as_str(), known) {
                Ok(p) => Some(p),
                Err(_) => None,
            };
            let current = match smc.get_secret_value_current(event.secret_id.as_str(), known) {
                Ok(c) => c,
                Err(e) => {
                    return Err(e);
                },
            };
            if create_needed(&pending, &current) {
                let candidate = match R::create(shared, current.inner, smc, region) {
                    Ok(c) => c,
                    Err(e) => {
                        return Err(e);
                    },
                };
                match smc.put_secret_value_pending(
                    event.secret_id.as_str(),
                    event.client_request_token.as_str(),
                    &candidate,
                ) {
                    Ok(()) => {
                        proof {
                            smc::lemma_put_pending_shape(
                                old(smc)@,
                                event.secret_id@,
                                event.client_request_token@,
                                candidate@.merged(),
                            );
                        }
                        Ok(())
                    },
                    Err(e) => Err(e),
                }
            } else {
                Ok(())
            }
        },
        Step::SetSecret => {
            let secret_new = match smc.get_secret_value_pending(event.secret_id.as_str(), known) {
                Ok(p) => p,
                Err(e) => {
                    return Err(e);
                },
            };
            let probe = R::test(shared, secret_new.inner.duplicate(), region);
            if set_needed(probe.is_ok()) {
                let secret_cur = match smc.get_secret_value_current(
                    event.secret_id.as_str(),
                    known,
                ) {
                    Ok(c) => c,
                    Err(e) => {
                        return Err(e);
                    },
                };
                R::set(shared, secret_cur.inner, secret_new.inner, region)
            } else {
                Ok(())
            }
        },
        Step::Test => {
            let secret_new = match smc.get_secret_value_pending(event.secret_id.as_str(), known) {
                Ok(p) => p,
                Err(e) => {
                    return Err(e);
                },
            };
            R::test(shared, secret_new.inner, region)
        },
        Step::Finish => {
            let secret_current = match smc.get_secret_value_current(
                event.secret_id.as_str(),
                known,
            ) {
                Ok(c) => c,
                Err(e) => {
                    return Err(e);
                },
            };
            let secret_pending = match smc.get_secret_value_pending(
                event.secret_id.as_str(),
                known,
            ) {
                Ok(p) => p,
                Err(e) => {
                    return Err(e);
                },
            };
            let Secret { arn, version_id: current_version_id, inner: current_inner } =
                secret_current;
            let Secret { arn: _, version_id: pending_version_id, inner: pending_inner } =
                secret_pending;
            match R::finish(shared, current_inner, pending_inner, region) {
                Ok(()) => {},
                Err(e) => {
                    return Err(e);
                },
            }
            smc.set_pending_secret_value_to_current(arn, current_version_id, pending_version_id)
        },
    }
}

} // verus!
