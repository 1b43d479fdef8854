use lambda_runtime_types::rotate::accept_password;
use lambda_runtime_types::rotate::parse_container;
use lambda_runtime_types::rotate::parse_fields;
use lambda_runtime_types::rotate::parse_rotation_event;
use lambda_runtime_types::rotate::parse_rotation_test_data;
use lambda_runtime_types::rotate::parse_step;
use lambda_runtime_types::rotate::password_request;
use lambda_runtime_types::rotate::run_rotation_step;
use lambda_runtime_types::rotate::Event;
use lambda_runtime_types::rotate::RotateError;
use lambda_runtime_types::rotate::RotateRunner;
use lambda_runtime_types::rotate::Secret;
use lambda_runtime_types::rotate::SecretContainer;
use lambda_runtime_types::rotate::Smc;
use lambda_runtime_types::rotate::validate_secret_response;
use lambda_runtime_types::rotate::Step;

fn fields_to_json(fields: &[(String, String)]) -> String {
    let mut map = serde_json::Map::new();
    for (name, value) in fields {
        let value: serde_json::Value =
            serde_json::from_str(value).expect("Unable to serialize secret");
        map.insert(name.clone(), value);
    }
    serde_json::to_string(&serde_json::Value::Object(map)).expect("Unable to serialize secret")
}

fn strings(names: &[&str]) -> Vec<String> {
    names.iter().map(|n| n.to_string()).collect()
}

fn pairs(raw: &[(&str, &str)]) -> Vec<(String, String)> {
    raw.iter().map(|(n, v)| (n.to_string(), v.to_string())).collect()
}

#[test]
fn test_rotation_event_parsing() {
    let test_data = "{\"region\":\"eu-west-1\",\"invocations\":[\
        {\"ClientRequestToken\":\"tok-1\",\"SecretId\":\"mysecret\",\"Step\":\"createSecret\"},\
        {\"ClientRequestToken\":\"tok-1\",\"SecretId\":\"mysecret\",\"Step\":\"setSecret\"},\
        {\"ClientRequestToken\":\"tok-1\",\"SecretId\":\"mysecret\",\"Step\":\"testSecret\"},\
        {\"ClientRequestToken\":\"tok-1\",\"SecretId\":\"mysecret\",\"Step\":\"finishSecret\"}]}";
    let parsed = parse_rotation_test_data(test_data).expect("Unable to parse test data");
    assert_eq!(parsed.region, "eu-west-1");
    assert_eq!(parsed.invocations.len(), 4);
    assert_eq!(parsed.invocations[0].step, Step::Create);
    assert_eq!(parsed.invocations[1].step, Step::SetSecret);
    assert_eq!(parsed.invocations[2].step, Step::Test);
    assert_eq!(parsed.invocations[3].step, Step::Finish);
    assert_eq!(parsed.invocations[0].client_request_token, "tok-1");
    assert_eq!(parsed.invocations[0].secret_id, "mysecret");
}

#[test]
fn test_rotation_secret_parsing_struct_exact() {
    let mut map = serde_json::Map::new();
    map.insert(
        "test".to_string(),
        serde_json::Value::String("test_data".to_string()),
    );
    let json = serde_json::Value::Object(map);
    let expected_str = serde_json::to_string(&json).expect("Unable to serialize json test data");
    let known = strings(&["test"]);
    let secret: SecretContainer =
        parse_container(&known, &expected_str).expect("Unable to deserialize to structure");
    let result_str = fields_to_json(&secret.serialize_fields());
    assert!(secret.o.is_empty());
    assert_eq!(expected_str, result_str);
}

#[test]
fn test_rotation_secret_parsing_struct_additional() {
    let mut map = serde_json::Map::new();
    map.insert(
        "test".to_string(),
        serde_json::Value::String("test_data".to_string()),
    );
    map.insert(
        "test2".to_string(),
        serde_json::Value::String("test_data2".to_string()),
    );
    let json = serde_json::Value::Object(map);
    let expected_str = serde_json::to_string(&json).expect("Unable to serialize json test data");
    let known = strings(&["test"]);
    let secret: SecretContainer =
        parse_container(&known, &expected_str).expect("Unable to deserialize to structure");
    let result_str = fields_to_json(&secret.serialize_fields());
    assert_eq!(secret.o.len(), 1);
    assert_eq!(expected_str, result_str);
}

#[test]
fn test_rotation_secret_parsing_empty() {
    let mut map = serde_json::Map::new();
    map.insert(
        "test".to_string(),
        serde_json::Value::String("test_data".to_string()),
    );
    map.insert(
        "test2".to_string(),
        serde_json::Value::String("test_data2".to_string()),
    );
    let json = serde_json::Value::Object(map);
    let expected_str = serde_json::to_string(&json).expect("Unable to serialize json test data");
    let known: Vec<String> = Vec::new();
    let secret: SecretContainer =
        parse_container(&known, &expected_str).expect("Unable to deserialize to structure");
    assert_eq!(secret.o.len(), 2);
}

#[test]
fn step_names_parse_exactly() {
    assert!(matches!(parse_step("createSecret"), Ok(Step::Create)));
    assert!(matches!(parse_step("setSecret"), Ok(Step::SetSecret)));
    assert!(matches!(parse_step("testSecret"), Ok(Step::Test)));
    assert!(matches!(parse_step("finishSecret"), Ok(Step::Finish)));
    assert!(matches!(
        parse_step("rollbackSecret"),
        Err(RotateError::UnknownStep)
    ));
    assert!(matches!(parse_step(""), Err(RotateError::UnknownStep)));
}

#[test]
fn event_parse_reports_each_missing_part() {
    assert!(matches!(
        parse_rotation_event("[]"),
        Err(RotateError::EventNotObject)
    ));
    assert!(matches!(
        parse_rotation_event("{\"SecretId\":\"s\",\"Step\":\"createSecret\"}"),
        Err(RotateError::MissingRequestToken)
    ));
    assert!(matches!(
        parse_rotation_event("{\"ClientRequestToken\":\"t\",\"Step\":\"createSecret\"}"),
        Err(RotateError::MissingSecretId)
    ));
    assert!(matches!(
        parse_rotation_event("{\"ClientRequestToken\":\"t\",\"SecretId\":\"s\"}"),
        Err(RotateError::MissingStep)
    ));
    assert!(matches!(
        parse_rotation_event("{\"ClientRequestToken\":\"t\",\"SecretId\":\"s\",\"Step\":7}"),
        Err(RotateError::MissingStep)
    ));
    assert!(matches!(
        parse_rotation_event(
            "{\"ClientRequestToken\":\"t\",\"SecretId\":\"s\",\"Step\":\"otherStep\"}"
        ),
        Err(RotateError::UnknownStep)
    ));
    let ev =
        parse_rotation_event("{\"ClientRequestToken\":\"t\",\"SecretId\":\"s\",\"Step\":\"testSecret\"}")
            .expect("event should parse");
    assert_eq!(ev.client_request_token, "t");
    assert_eq!(ev.secret_id, "s");
    assert_eq!(ev.step, Step::Test);
}

#[test]
fn test_data_parse_reports_each_missing_part() {
    assert!(matches!(
        parse_rotation_test_data("7"),
        Err(RotateError::TestDataNotObject)
    ));
    assert!(matches!(
        parse_rotation_test_data("{\"invocations\":[]}"),
        Err(RotateError::MissingRegion)
    ));
    assert!(matches!(
        parse_rotation_test_data("{\"region\":\"r\"}"),
        Err(RotateError::MissingInvocations)
    ));
    assert!(matches!(
        parse_rotation_test_data("{\"region\":\"r\",\"invocations\":{}}"),
        Err(RotateError::MissingInvocations)
    ));
    assert!(matches!(
        parse_rotation_test_data("{\"region\":\"r\",\"invocations\":[{\"SecretId\":\"s\"}]}"),
        Err(RotateError::MissingRequestToken)
    ));
}

#[test]
fn container_parse_rejects_non_objects() {
    let known = strings(&["test"]);
    assert!(matches!(
        parse_container(&known, "[1,2]"),
        Err(RotateError::PayloadNotObject)
    ));
    assert!(matches!(
        parse_container(&known, "not json at all"),
        Err(RotateError::PayloadNotObject)
    ));
}

/// Shared state for the recording hooks: call counts and the probe's
/// configured outcome.
#[derive(Default)]
struct Calls {
    create: u32,
    set: u32,
    test: u32,
    finish: u32,
    test_fails: bool,
}

struct Recorder;

impl RotateRunner<Calls> for Recorder {
    fn setup() -> Result<(), String> {
        Ok(())
    }

    fn create(
        shared: &mut Calls,
        mut secret_cur: SecretContainer,
        _smc: &Smc,
        _region: &str,
    ) -> Result<SecretContainer, RotateError> {
        shared.create += 1;
        for pair in secret_cur.data.iter_mut() {
            if pair.0 == "password" {
                pair.1 = "\"pw-new\"".to_string();
            }
        }
        Ok(secret_cur)
    }

    fn set(
        shared: &mut Calls,
        _secret_cur: SecretContainer,
        _secret_new: SecretContainer,
        _region: &str,
    ) -> Result<(), RotateError> {
        shared.set += 1;
        Ok(())
    }

    fn test(
        shared: &mut Calls,
        _secret_new: SecretContainer,
        _region: &str,
    ) -> Result<(), RotateError> {
        shared.test += 1;
        if shared.test_fails {
            Err(RotateError::Hook("connection refused".to_string()))
        } else {
            Ok(())
        }
    }

    fn finish(
        shared: &mut Calls,
        _secret_cur: SecretContainer,
        _secret_new: SecretContainer,
        _region: &str,
    ) -> Result<(), RotateError> {
        shared.finish += 1;
        Ok(())
    }
}

fn known_shape() -> Vec<String> {
    strings(&["user", "password"])
}

fn current_container() -> SecretContainer {
    parse_fields(
        &known_shape(),
        &pairs(&[("user", "\"u\""), ("password", "\"pw-old\""), ("meta", "42")]),
    )
}

fn seeded_store() -> Smc {
    let mut smc = Smc::new("mysecret".to_string(), "arn:mysecret".to_string());
    smc.install_current("v1".to_string(), &current_container());
    smc
}

fn event(step: Step, token: &str) -> Event {
    Event {
        client_request_token: token.to_string(),
        secret_id: "mysecret".to_string(),
        step,
    }
}

#[test]
fn create_step_writes_exactly_one_new_pending() {
    let mut smc = seeded_store();
    let mut shared = Calls::default();
    run_rotation_step::<Calls, Recorder>(
        &mut shared,
        &mut smc,
        &event(Step::Create, "tok-2"),
        &known_shape(),
        "eu-west-1",
    )
    .expect("create step should succeed");
    assert_eq!(shared.create, 1);
    assert_eq!(smc.versions.len(), 2);
    let pending: Vec<_> = smc.versions.iter().filter(|v| v.pending).collect();
    assert_eq!(pending.len(), 1);
    assert_eq!(pending[0].version_id, "tok-2");
    let current: Vec<_> = smc.versions.iter().filter(|v| v.current).collect();
    assert_eq!(current.len(), 1);
    assert_ne!(pending[0].fields, current[0].fields);
}

#[test]
fn create_step_recovers_from_stale_pending() {
    let mut smc = seeded_store();
    // A repeated write under the current version's own token leaves the
    // pending label on the current version: the orphaned state.
    smc.put_secret_value_pending("mysecret", "v1", &current_container())
        .expect("dedup write should succeed");
    assert!(smc.versions[0].current && smc.versions[0].pending);
    let mut shared = Calls::default();
    run_rotation_step::<Calls, Recorder>(
        &mut shared,
        &mut smc,
        &event(Step::Create, "tok-2"),
        &known_shape(),
        "eu-west-1",
    )
    .expect("create step should succeed");
    assert_eq!(shared.create, 1);
    assert_eq!(smc.versions.len(), 2);
    let pending: Vec<_> = smc.versions.iter().filter(|v| v.pending).collect();
    assert_eq!(pending.len(), 1);
    assert_eq!(pending[0].version_id, "tok-2");
    assert!(!smc.versions[0].pending);
}

#[test]
fn create_step_leaves_in_progress_rotation_untouched() {
    let mut smc = seeded_store();
    let mut shared = Calls::default();
    run_rotation_step::<Calls, Recorder>(
        &mut shared,
        &mut smc,
        &event(Step::Create, "tok-2"),
        &known_shape(),
        "eu-west-1",
    )
    .expect("first create should succeed");
    let before: Vec<(String, bool, bool)> = smc
        .versions
        .iter()
        .map(|v| (v.version_id.clone(), v.current, v.pending))
        .collect();
    let mut shared2 = Calls::default();
    run_rotation_step::<Calls, Recorder>(
        &mut shared2,
        &mut smc,
        &event(Step::Create, "tok-3"),
        &known_shape(),
        "eu-west-1",
    )
    .expect("second create should succeed");
    assert_eq!(shared2.create, 0, "create hook must not run");
    let after: Vec<(String, bool, bool)> = smc
        .versions
        .iter()
        .map(|v| (v.version_id.clone(), v.current, v.pending))
        .collect();
    assert_eq!(before, after);
    assert_eq!(smc.versions.len(), 2);
}

#[test]
fn set_step_skips_set_when_probe_succeeds() {
    let mut smc = seeded_store();
    let mut shared = Calls::default();
    run_rotation_step::<Calls, Recorder>(
        &mut shared,
        &mut smc,
        &event(Step::Create, "tok-2"),
        &known_shape(),
        "eu-west-1",
    )
    .expect("create should succeed");
    run_rotation_step::<Calls, Recorder>(
        &mut shared,
        &mut smc,
        &event(Step::SetSecret, "tok-2"),
        &known_shape(),
        "eu-west-1",
    )
    .expect("set step should succeed");
    assert_eq!(shared.test, 1);
    assert_eq!(shared.set, 0, "set must never run after a successful probe");
}

#[test]
fn set_step_applies_credential_when_probe_fails() {
    let mut smc = seeded_store();
    let mut shared = Calls::default();
    run_rotation_step::<Calls, Recorder>(
        &mut shared,
        &mut smc,
        &event(Step::Create, "tok-2"),
        &known_shape(),
        "eu-west-1",
    )
    .expect("create should succeed");
    shared.test_fails = true;
    run_rotation_step::<Calls, Recorder>(
        &mut shared,
        &mut smc,
        &event(Step::SetSecret, "tok-2"),
        &known_shape(),
        "eu-west-1",
    )
    .expect("set step should succeed");
    assert_eq!(shared.test, 1);
    assert_eq!(shared.set, 1);
}

#[test]
fn test_step_propagates_probe_failure() {
    let mut smc = seeded_store();
    let mut shared = Calls::default();
    run_rotation_step::<Calls, Recorder>(
        &mut shared,
        &mut smc,
        &event(Step::Create, "tok-2"),
        &known_shape(),
        "eu-west-1",
    )
    .expect("create should succeed");
    shared.test_fails = true;
    let r = run_rotation_step::<Calls, Recorder>(
        &mut shared,
        &mut smc,
        &event(Step::Test, "tok-2"),
        &known_shape(),
        "eu-west-1",
    );
    assert!(matches!(r, Err(RotateError::Hook(_))));
    assert_eq!(shared.test, 1);
}

#[test]
fn finish_step_promotes_pending_to_current() {
    let mut smc = seeded_store();
    let mut shared = Calls::default();
    run_rotation_step::<Calls, Recorder>(
        &mut shared,
        &mut smc,
        &event(Step::Create, "tok-2"),
        &known_shape(),
        "eu-west-1",
    )
    .expect("create should succeed");
    run_rotation_step::<Calls, Recorder>(
        &mut shared,
        &mut smc,
        &event(Step::Finish, "tok-2"),
        &known_shape(),
        "eu-west-1",
    )
    .expect("finish step should succeed");
    assert_eq!(shared.finish, 1);
    let current: Secret = smc
        .get_secret_value_current("mysecret", &known_shape())
        .expect("current must resolve after promotion");
    assert_eq!(current.version_id, "tok-2");
    let old = smc
        .versions
        .iter()
        .find(|v| v.version_id == "v1")
        .expect("former current keeps its id");
    assert!(!old.current);
}

#[test]
fn store_reports_each_failure_exactly() {
    let mut smc = seeded_store();
    let known = known_shape();
    assert!(matches!(
        smc.get_secret_value("othersecret", "AWSCURRENT", &known),
        Err(RotateError::UnknownSecret)
    ));
    assert!(matches!(
        smc.get_secret_value("mysecret", "AWSPREVIOUS", &known),
        Err(RotateError::UnknownStage)
    ));
    assert!(matches!(
        smc.get_secret_value_pending("mysecret", &known),
        Err(RotateError::NoVersionForStage)
    ));
    let changed = parse_fields(
        &known,
        &pairs(&[("user", "\"u\""), ("password", "\"other\"")]),
    );
    assert!(matches!(
        smc.put_secret_value_pending("mysecret", "v1", &changed),
        Err(RotateError::TokenReused)
    ));
    assert!(matches!(
        smc.set_pending_secret_value_to_current(
            "arn:mysecret".to_string(),
            "v1".to_string(),
            "absent".to_string()
        ),
        Err(RotateError::MissingVersion)
    ));
    smc.put_secret_value_pending("mysecret", "v2", &changed)
        .expect("fresh write should succeed");
    assert!(matches!(
        smc.set_pending_secret_value_to_current(
            "arn:mysecret".to_string(),
            "v2".to_string(),
            "v1".to_string()
        ),
        Err(RotateError::StageNotOnVersion)
    ));
    // fetch by arn works like fetch by id
    let by_arn = smc
        .get_secret_value("arn:mysecret", "AWSPENDING", &known)
        .expect("fetch by arn should succeed");
    assert_eq!(by_arn.version_id, "v2");
    assert_eq!(by_arn.arn, "arn:mysecret");
}

#[test]
fn container_splits_by_typed_shape() {
    let known = known_shape();
    let c = current_container();
    assert_eq!(c.data.len(), 2);
    assert_eq!(c.o.len(), 1);
    assert_eq!(c.o[0].0, "meta");
    assert_eq!(c.o[0].1, "42");
    let union = c.serialize_fields();
    assert_eq!(union.len(), 3);
    let again = parse_fields(&known, &union);
    assert_eq!(again.data, c.data);
    assert_eq!(again.o, c.o);
}

#[test]
fn response_validation_reports_each_missing_part() {
    let known = known_shape();
    let payload = "{\"user\":\"u\",\"password\":\"pw\",\"meta\":42}";
    assert!(matches!(
        validate_secret_response(None, None, Some(payload.to_string()), None, &known),
        Err(RotateError::MissingArn)
    ));
    assert!(matches!(
        validate_secret_response(
            Some("arn:mysecret".to_string()),
            None,
            Some(payload.to_string()),
            None,
            &known
        ),
        Err(RotateError::MissingVersionId)
    ));
    assert!(matches!(
        validate_secret_response(
            Some("arn:mysecret".to_string()),
            Some("v1".to_string()),
            None,
            None,
            &known
        ),
        Err(RotateError::MissingSecretPayload)
    ));
    assert!(matches!(
        validate_secret_response(
            Some("arn:mysecret".to_string()),
            Some("v1".to_string()),
            None,
            Some(vec![0xff, 0xfe]),
            &known
        ),
        Err(RotateError::MissingSecretPayload)
    ));
    assert!(matches!(
        validate_secret_response(
            Some("arn:mysecret".to_string()),
            Some("v1".to_string()),
            Some("[]".to_string()),
            None,
            &known
        ),
        Err(RotateError::PayloadNotObject)
    ));
    let sec = validate_secret_response(
        Some("arn:mysecret".to_string()),
        Some("v1".to_string()),
        None,
        Some(payload.as_bytes().to_vec()),
        &known,
    )
    .expect("binary payload should validate");
    assert_eq!(sec.arn, "arn:mysecret");
    assert_eq!(sec.version_id, "v1");
    assert_eq!(sec.inner.data.len(), 2);
    assert_eq!(sec.inner.o.len(), 1);
}

#[test]
fn password_request_shields_the_payload() {
    let (exclude_characters, exclude_punctuation, length) = password_request(true, Some(32));
    assert_eq!(exclude_characters, "\"");
    assert!(!exclude_punctuation);
    assert_eq!(length, Some(32));
    let (_, exclude_punctuation, length) = password_request(false, None);
    assert!(exclude_punctuation);
    assert_eq!(length, None);
    assert_eq!(accept_password(Some("pw".to_string())).unwrap(), "pw");
    assert!(matches!(
        accept_password(None),
        Err(RotateError::PasswordEmpty)
    ));
}
