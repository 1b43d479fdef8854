use vstd::prelude::*;

verus! {

/// Terminal result of one invocation, with a timed-out invocation reported
/// distinctly from a functional failure so that downstream failure routing
/// can tell "ran out of time" from "logic rejected the input".
#[derive(Debug, Clone)]
pub enum InvocationError {
    /// The deadline watcher finished before the invoked work did.
    Timeout,
    /// The invoked work itself failed, with its error message.
    Failed(String),
}

impl InvocationError {
    /// The message reported for the invocation's terminal failure.
    pub fn message(&self) -> (r: String)
        ensures
            self is Timeout ==> r@ == "Lambda failed by running into a timeout"@,
            self matches InvocationError::Failed(m) ==> r@ == m@,
    {
        match self {
            InvocationError::Timeout => String::from_str("Lambda failed by running into a timeout"),
            InvocationError::Failed(m) => m.clone(),
        }
    }
}

/// A unit of work that is executed on every invocation.
///
/// `Shared` is constructed once per process lifetime and handed to every
/// invocation; reuse across invocations is an optimisation of the execution
/// environment, never a guarantee. `Event` is the inbound payload, `Return`
/// the value handed back to the caller.
pub trait Runner<Shared, Event, Return>: Sized {
    /// Invoked once before any invocation runs; short global setup.
    fn setup() -> Result<(), String>;

    /// Invoked for every invocation with the shared state, the event and
    /// the region identifier.
    fn run(shared: &mut Shared, event: Event, region: &str) -> Result<Return, String>;
}

/// Region and ordered list of events with which invocations are replayed
/// locally, with no deadline.
pub struct TestData<Event> {
    /// Region identifier handed to every invocation.
    pub region: String,
    /// Events, replayed in order through the same invocation path.
    pub invocations: Vec<Event>,
}

/// Normalises the outcome of racing the invoked work against the deadline
/// watcher. `None` means the watcher finished first: the invocation is
/// reported as a timeout failure, never as a success. Otherwise the work's
/// own result is handed through unchanged.
pub fn resolve_race<Return>(work: Option<Result<Return, String>>) -> (r: Result<
    Return,
    InvocationError,
>)
    ensures
        match work {
            None => r == Err::<Return, InvocationError>(InvocationError::Timeout),
            Some(Ok(v)) => r == Ok::<Return, InvocationError>(v),
            Some(Err(m)) => r == Err::<Return, InvocationError>(InvocationError::Failed(m)),
        },
{
    match work {
        None => Err(InvocationError::Timeout),
        Some(Ok(v)) => Ok(v),
        Some(Err(m)) => Err(InvocationError::Failed(m)),
    }
}

/// Replays every event of `test_data` sequentially through `Run`, sharing
/// one `Shared` value across all invocations, with no deadline watcher.
/// Stops at the first failing invocation and propagates its error; on
/// success there is one return value per event, in order.
pub fn exec_test<Shared, Event, Return, Run: Runner<Shared, Event, Return>>(
    test_data: TestData<Event>,
) -> (r: Result<Vec<Return>, String>)
    where Shared: Default
    ensures
        r matches Ok(rets) ==> rets@.len() == test_data.invocations@.len(),
{
    Run::setup()?;
    let mut shared = Shared::default();
    let region = test_data.region;
    let mut invocations = test_data.invocations;
    let ghost total: int = invocations@.len() as int;
    let mut results: Vec<Return> = Vec::new();
    while invocations.len() > 0
        invariant
            results@.len() + invocations@.len() == total,
        decreases invocations@.len(),
    {
        let event = invocations.remove(0);
        let ret = Run::run(&mut shared, event, region.as_str())?;
        results.push(ret);
    }
    Ok(results)
}

} // verus!
