use service_chain::chain::hand_over;
use service_chain::{
    BasicService, ServiceChainExecutor, ServiceContext, ServiceError, ServiceProcessor,
};
use std::sync::atomic::{AtomicUsize, Ordering};
use std::sync::Arc;

#[derive(Debug, PartialEq)]
struct ParseError(String);

#[derive(Debug, PartialEq)]
struct RangeError(String);

#[derive(Debug, PartialEq)]
struct PipelineError(String);

impl From<ParseError> for RangeError {
    fn from(error: ParseError) -> Self {
        RangeError(error.0)
    }
}

impl From<RangeError> for PipelineError {
    fn from(error: RangeError) -> Self {
        PipelineError(error.0)
    }
}

impl From<ParseError> for PipelineError {
    fn from(error: ParseError) -> Self {
        PipelineError(error.0)
    }
}

/// Reads a signed number and notes the raw text in the store.
struct Parse;

impl BasicService for Parse {
    type Input = String;
    type Output = i64;
    type Error = ParseError;

    fn call(&self, input: String, context: &mut ServiceContext) -> Result<i64, ParseError> {
        context.insert("raw".to_string(), input.clone());
        match input.trim().parse::<i64>() {
            Ok(number) => Ok(number),
            Err(_) => Err(ParseError(format!("not a number: {input}"))),
        }
    }
}

/// Accepts what is not negative and notes it in the store.
struct NonNegative;

impl BasicService for NonNegative {
    type Input = i64;
    type Output = u64;
    type Error = RangeError;

    fn call(&self, input: i64, context: &mut ServiceContext) -> Result<u64, RangeError> {
        if input < 0 {
            return Err(RangeError(format!("negative: {input}")));
        }
        context.insert("checked".to_string(), input as u64);
        Ok(input as u64)
    }
}

/// Writes the number out, and fails on numbers over a thousand.
struct Render;

impl BasicService for Render {
    type Input = u64;
    type Output = String;
    type Error = PipelineError;

    fn call(&self, input: u64, context: &mut ServiceContext) -> Result<String, PipelineError> {
        if input > 1000 {
            return Err(PipelineError(format!("too large: {input}")));
        }
        let raw = context.get::<String>("raw");
        context.insert("rendered".to_string(), true);
        match raw {
            Some(raw) => Ok(format!("<{input}> from <{raw}>")),
            None => Ok(format!("<{input}>")),
        }
    }
}

/// Counts its calls, in the store and outside it, and hands its input on.
struct Probe {
    calls: Arc<AtomicUsize>,
}

impl BasicService for Probe {
    type Input = i64;
    type Output = i64;
    type Error = RangeError;

    fn call(&self, input: i64, context: &mut ServiceContext) -> Result<i64, RangeError> {
        self.calls.fetch_add(1, Ordering::SeqCst);
        context.insert("probe".to_string(), true);
        Ok(input)
    }
}

/// Counts the runs in the store.
struct CountRuns;

impl BasicService for CountRuns {
    type Input = u64;
    type Output = u64;
    type Error = ServiceError;

    fn call(&self, input: u64, context: &mut ServiceContext) -> Result<u64, ServiceError> {
        let earlier = match context.get::<u64>("runs") {
            Some(runs) => *runs,
            None => 0,
        };
        context.insert("runs".to_string(), earlier + 1);
        Ok(input + earlier)
    }
}

/// Fails on zero with a message, and doubles everything else.
struct DoubleNonZero;

impl BasicService for DoubleNonZero {
    type Input = u64;
    type Output = u64;
    type Error = ServiceError;

    fn call(&self, input: u64, _context: &mut ServiceContext) -> Result<u64, ServiceError> {
        if input == 0 {
            Err(ServiceError::new("zero".to_string()))
        } else {
            Ok(input * 2)
        }
    }
}

fn store_as_seen(context: &ServiceContext) -> (Option<String>, Option<u64>, Option<bool>) {
    (
        context.get::<String>("raw").map(|raw| (*raw).clone()),
        context.get::<u64>("checked").map(|checked| *checked),
        context.get::<bool>("rendered").map(|rendered| *rendered),
    )
}

#[test]
fn single_stage_does_what_its_service_does() {
    for input in ["12", " 7 ", "-3", "x", ""] {
        let mut by_call = ServiceContext::new();
        let called = Parse.call(input.to_string(), &mut by_call);

        let mut by_chain = ServiceContext::new();
        let chained = Parse.execute(input.to_string(), &mut by_chain);

        let mut processor = ServiceProcessor::new(Parse, ServiceContext::new());
        let processed = processor.execute(input.to_string());

        assert_eq!(chained, called);
        assert_eq!(processed, called);
        assert_eq!(store_as_seen(&by_chain), store_as_seen(&by_call));
    }
}

#[test]
fn single_stage_result_is_exact() {
    let mut processor = ServiceProcessor::new(Parse, ServiceContext::new());
    assert_eq!(processor.execute("41".to_string()), Ok(41));
    assert_eq!(
        processor.execute("4x".to_string()),
        Err(ParseError("not a number: 4x".to_string()))
    );
}

#[test]
fn head_failure_is_converted_and_tail_never_runs() {
    let calls = Arc::new(AtomicUsize::new(0));
    let chain = (Parse, Probe { calls: Arc::clone(&calls) });
    let mut context = ServiceContext::new();

    let result = chain.execute("oops".to_string(), &mut context);

    assert_eq!(result, Err(RangeError("not a number: oops".to_string())));
    assert_eq!(calls.load(Ordering::SeqCst), 0);
    assert_eq!(context.get::<bool>("probe"), None);
    assert_eq!(context.get::<String>("raw"), Some(Arc::new("oops".to_string())));
}

#[test]
fn head_success_runs_the_tail_once() {
    let calls = Arc::new(AtomicUsize::new(0));
    let chain = (Parse, Probe { calls: Arc::clone(&calls) });
    let mut context = ServiceContext::new();

    let result = chain.execute("5".to_string(), &mut context);

    assert_eq!(result, Ok(5));
    assert_eq!(calls.load(Ordering::SeqCst), 1);
    assert_eq!(context.get::<bool>("probe"), Some(Arc::new(true)));
}

#[test]
fn head_success_gives_what_the_tail_gives() {
    for input in ["0", "3", "-4", "1000"] {
        let mut by_chain = ServiceContext::new();
        let chained = (Parse, NonNegative).execute(input.to_string(), &mut by_chain);

        let mut by_hand = ServiceContext::new();
        let between = Parse.call(input.to_string(), &mut by_hand).unwrap();
        let tail = NonNegative.execute(between, &mut by_hand);

        assert_eq!(chained, tail);
        assert_eq!(store_as_seen(&by_chain), store_as_seen(&by_hand));
    }
}

#[test]
fn tail_failure_is_the_chains_failure() {
    let mut context = ServiceContext::new();
    let result = (Parse, NonNegative).execute("-9".to_string(), &mut context);
    assert_eq!(result, Err(RangeError("negative: -9".to_string())));
    assert_eq!(context.get::<String>("raw"), Some(Arc::new("-9".to_string())));
    assert_eq!(context.get::<u64>("checked"), None);
}

#[test]
fn three_stages_run_in_order_on_one_store() {
    let mut processor = ServiceProcessor::new((Parse, (NonNegative, Render)), ServiceContext::new());
    assert_eq!(processor.execute("12".to_string()), Ok("<12> from <12>".to_string()));
    assert_eq!(
        processor.execute(" 8".to_string()),
        Ok("<8> from < 8>".to_string())
    );
}

#[test]
fn failure_at_each_stage_ends_the_chain_there() {
    let chain = (Parse, (NonNegative, Render));

    let mut context = ServiceContext::new();
    assert_eq!(
        chain.execute("abc".to_string(), &mut context),
        Err(PipelineError("not a number: abc".to_string()))
    );
    assert_eq!(store_as_seen(&context), (Some("abc".to_string()), None, None));

    let mut context = ServiceContext::new();
    assert_eq!(
        chain.execute("-1".to_string(), &mut context),
        Err(PipelineError("negative: -1".to_string()))
    );
    assert_eq!(store_as_seen(&context), (Some("-1".to_string()), None, None));

    let mut context = ServiceContext::new();
    assert_eq!(
        chain.execute("1001".to_string(), &mut context),
        Err(PipelineError("too large: 1001".to_string()))
    );
    assert_eq!(store_as_seen(&context), (Some("1001".to_string()), Some(1001), None));

    let mut context = ServiceContext::new();
    assert_eq!(chain.execute("1000".to_string(), &mut context), Ok("<1000> from <1000>".to_string()));
    assert_eq!(store_as_seen(&context), (Some("1000".to_string()), Some(1000), Some(true)));
}

#[test]
fn nesting_left_or_right_gives_the_same_outcome() {
    let right = (Parse, (NonNegative, Render));
    let left = ((Parse, NonNegative), Render);
    for input in ["12", "0", "1000", "1001", "-1", "abc", "", " 44 "] {
        let mut right_store = ServiceContext::new();
        let right_result = right.execute(input.to_string(), &mut right_store);

        let mut left_store = ServiceContext::new();
        let left_result = left.execute(input.to_string(), &mut left_store);

        assert_eq!(left_result, right_result);
        assert_eq!(store_as_seen(&left_store), store_as_seen(&right_store));
    }
}

#[test]
fn store_persists_between_runs() {
    let mut processor = ServiceProcessor::new(CountRuns, ServiceContext::new());
    assert_eq!(processor.execute(10).map_err(|e| e.to_string()), Ok(10));
    assert_eq!(processor.execute(10).map_err(|e| e.to_string()), Ok(11));
    assert_eq!(processor.execute(10).map_err(|e| e.to_string()), Ok(12));
}

#[test]
fn processor_starts_from_the_store_it_is_given() {
    let mut context = ServiceContext::new();
    context.insert("runs".to_string(), 5u64);
    let mut processor = ServiceProcessor::new(CountRuns, context);
    assert_eq!(processor.execute(1).map_err(|e| e.to_string()), Ok(6));
}

#[test]
fn shared_error_type_passes_unchanged() {
    let mut processor =
        ServiceProcessor::new((CountRuns, (DoubleNonZero, DoubleNonZero)), ServiceContext::new());
    assert_eq!(processor.execute(0).map_err(|e| e.to_string()), Err("zero".to_string()));
    assert_eq!(processor.execute(0).map_err(|e| e.to_string()), Ok(4));
    assert_eq!(processor.execute(1).map_err(|e| e.to_string()), Ok(12));
}

#[test]
fn hand_over_passes_a_success_on() {
    let step: Result<u64, PipelineError> = hand_over(Ok::<u64, RangeError>(3));
    assert_eq!(step, Ok(3));
}

#[test]
fn hand_over_converts_a_failure() {
    let step: Result<u64, PipelineError> =
        hand_over(Err::<u64, RangeError>(RangeError("low".to_string())));
    assert_eq!(step, Err(PipelineError("low".to_string())));
}

#[test]
fn error_text_is_its_message() {
    assert_eq!(ServiceError::new("stage failed".to_string()).to_string(), "stage failed");
    assert_eq!(ServiceError::new(String::new()).to_string(), "");
}

/// Notes a number under "note" on even inputs, and a text on odd ones.
struct Note;

impl BasicService for Note {
    type Input = u64;
    type Output = (Option<u64>, Option<String>);
    type Error = ServiceError;

    fn call(
        &self,
        input: u64,
        context: &mut ServiceContext,
    ) -> Result<(Option<u64>, Option<String>), ServiceError> {
        let seen = (
            context.get::<u64>("note").map(|n| *n),
            context.get::<String>("note").map(|s| (*s).clone()),
        );
        if input % 2 == 0 {
            context.insert("note".to_string(), input);
        } else {
            context.insert("note".to_string(), format!("odd {input}"));
        }
        Ok(seen)
    }
}

#[test]
fn key_reused_with_another_type_in_a_later_run() {
    let mut processor = ServiceProcessor::new(Note, ServiceContext::new());
    assert_eq!(processor.execute(2).map_err(|e| e.to_string()), Ok((None, None)));
    assert_eq!(processor.execute(3).map_err(|e| e.to_string()), Ok((Some(2), None)));
    assert_eq!(
        processor.execute(4).map_err(|e| e.to_string()),
        Ok((None, Some("odd 3".to_string())))
    );
    assert_eq!(processor.execute(5).map_err(|e| e.to_string()), Ok((Some(4), None)));
}

#[test]
fn new_processor_starts_from_its_own_store() {
    let mut first = ServiceProcessor::new(CountRuns, ServiceContext::new());
    assert_eq!(first.execute(0).map_err(|e| e.to_string()), Ok(0));
    assert_eq!(first.execute(0).map_err(|e| e.to_string()), Ok(1));

    let mut second = ServiceProcessor::new(CountRuns, ServiceContext::new());
    assert_eq!(second.execute(0).map_err(|e| e.to_string()), Ok(0));
}

#[derive(Debug, PartialEq)]
struct Outer(String);

impl From<ParseError> for Outer {
    fn from(error: ParseError) -> Self {
        Outer(format!("parse: {}", error.0))
    }
}

impl From<RangeError> for Outer {
    fn from(error: RangeError) -> Self {
        Outer(format!("range: {}", error.0))
    }
}

/// Hands its input on; its error type tells a parse failure from a range
/// failure.
struct Last;

impl BasicService for Last {
    type Input = u64;
    type Output = u64;
    type Error = Outer;

    fn call(&self, input: u64, _context: &mut ServiceContext) -> Result<u64, Outer> {
        Ok(input)
    }
}

#[test]
fn nesting_shows_where_conversions_disagree() {
    let mut store = ServiceContext::new();
    let right = (Parse, (NonNegative, Last)).execute("x".to_string(), &mut store);
    let mut store = ServiceContext::new();
    let left = ((Parse, NonNegative), Last).execute("x".to_string(), &mut store);

    assert_eq!(right, Err(Outer("parse: not a number: x".to_string())));
    assert_eq!(left, Err(Outer("range: not a number: x".to_string())));

    let mut store = ServiceContext::new();
    let right = (Parse, (NonNegative, Last)).execute("7".to_string(), &mut store);
    let mut store = ServiceContext::new();
    let left = ((Parse, NonNegative), Last).execute("7".to_string(), &mut store);
    assert_eq!(left, right);
    assert_eq!(right, Ok(7));
}
