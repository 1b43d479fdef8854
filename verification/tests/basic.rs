use lambda_runtime_types::exec_test;
use lambda_runtime_types::Runner;
use lambda_runtime_types::TestData;

#[derive(Debug)]
struct Ev {
    test: Option<String>,
}

#[derive(Debug)]
struct Ret {
    data: String,
}

struct BasicRunner;

impl Runner<(), Ev, Ret> for BasicRunner {
    fn setup() -> Result<(), String> {
        Ok(())
    }

    fn run(_shared: &mut (), event: Ev, region: &str) -> Result<Ret, String> {
        assert_eq!(region, "eu-west-1");
        Ok(Ret {
            data: event.test.unwrap_or_else(|| "none".to_string()),
        })
    }
}

#[test]
fn test_basic_lambda() {
    let test_data = TestData {
        region: "eu-west-1".to_string(),
        invocations: vec![
            Ev {
                test: Some("test-value".to_string()),
            },
            Ev { test: None },
        ],
    };
    let results = exec_test::<(), Ev, Ret, BasicRunner>(test_data).expect("Unable to execute lambda");
    assert_eq!(results.len(), 2);
    assert_eq!(results[0].data, "test-value");
    assert_eq!(results[1].data, "none");
}

struct FailingRunner;

impl Runner<(), Ev, Ret> for FailingRunner {
    fn setup() -> Result<(), String> {
        Ok(())
    }

    fn run(_shared: &mut (), event: Ev, _region: &str) -> Result<Ret, String> {
        match event.test {
            Some(data) => Ok(Ret { data }),
            None => Err("no test attribute".to_string()),
        }
    }
}

#[test]
fn replay_stops_at_first_failing_invocation() {
    let test_data = TestData {
        region: "eu-west-1".to_string(),
        invocations: vec![Ev { test: None }, Ev {
            test: Some("later".to_string()),
        }],
    };
    let result = exec_test::<(), Ev, Ret, FailingRunner>(test_data);
    assert_eq!(result.unwrap_err(), "no test attribute");
}
