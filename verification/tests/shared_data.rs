use lambda_runtime_types::exec_test;
use lambda_runtime_types::Runner;
use lambda_runtime_types::TestData;

#[derive(Debug)]
struct Ev {
    test: Option<String>,
}

#[derive(Debug)]
struct Ret {
    matches_prev: bool,
}

#[derive(Debug, Default)]
struct Shared {
    prev_value: Option<String>,
}

struct SharedRunner;

impl Runner<Shared, Ev, Ret> for SharedRunner {
    fn setup() -> Result<(), String> {
        Ok(())
    }

    fn run(shared: &mut Shared, event: Ev, _region: &str) -> Result<Ret, String> {
        let this_value = event.test;
        let matches_prev = this_value == shared.prev_value;
        shared.prev_value = this_value;
        Ok(Ret { matches_prev })
    }
}

#[test]
fn test_shared_data_lambda() {
    let test_data = TestData {
        region: "eu-west-1".to_string(),
        invocations: vec![
            Ev {
                test: Some("a".to_string()),
            },
            Ev {
                test: Some("b".to_string()),
            },
        ],
    };
    let results =
        exec_test::<Shared, Ev, Ret, SharedRunner>(test_data).expect("Unable to execute lambda");
    assert_eq!(results.len(), 2);
    assert!(!results[0].matches_prev, "first call has no prior value");
    assert!(!results[1].matches_prev, "second payload differs from first");
}

#[test]
fn shared_state_persists_between_invocations() {
    let test_data = TestData {
        region: "eu-west-1".to_string(),
        invocations: vec![
            Ev {
                test: Some("same".to_string()),
            },
            Ev {
                test: Some("same".to_string()),
            },
        ],
    };
    let results =
        exec_test::<Shared, Ev, Ret, SharedRunner>(test_data).expect("Unable to execute lambda");
    assert!(!results[0].matches_prev);
    assert!(results[1].matches_prev, "warm state must carry the previous value");
}
