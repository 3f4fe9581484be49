use std::time::Duration;

use zerostack_mcp::config::timeout;
use zerostack_mcp::operation::{
    flatten, following_operation_id, timed_operation, trace_operation, wait_with_pending_reports,
    McpError, Operation, OperationTimeout, TimedEvent, TimedStep, TracePhase, WaitEvent, WaitStep,
    FIRST_OPERATION_ID, PENDING_REPORT_INTERVAL_SECS,
};
use zerostack_mcp::text::decimal_text;

/// Runs an operation on a list of events, as long as it awaits something.
fn run<T>(operation: &Operation, events: Vec<TimedEvent<T>>) -> Option<Result<T, OperationTimeout>> {
    for event in events {
        if let TimedStep::Return(result) = timed_operation(operation, event) {
            return Some(result);
        }
    }
    None
}

fn timed_out(operation: &Operation) -> OperationTimeout {
    let events: Vec<TimedEvent<()>> = vec![TimedEvent::Started, TimedEvent::DeadlineElapsed];
    run(operation, events).unwrap().unwrap_err()
}

#[test]
fn handshake_timeout_returns_an_error() {
    let operation = Operation::new("connect", "test-server", None, Some(Duration::from_millis(10)));
    let error = timed_out(&operation);
    assert!(error.message().contains("connect timed out"));
}

#[test]
fn timed_operation_returns_an_error_instead_of_hanging() {
    let operation = Operation::new(
        "call_tool",
        "test-server",
        Some("hang"),
        Some(Duration::from_millis(10)),
    );
    let error = timed_out(&operation);

    assert!(error.message().contains("call_tool timed out"));
    assert!(error.message().contains("test-server"));
    assert!(error.message().contains("hang"));
    assert_eq!(
        error.message(),
        "MCP call_tool timed out after 0 seconds for server 'test-server' and tool 'hang'"
    );
}

#[test]
fn timeout_message_without_a_tool_ends_with_the_server() {
    let operation = Operation::new("connect", "a", None, timeout(30));
    assert_eq!(
        timed_out(&operation).message(),
        "MCP connect timed out after 30 seconds for server 'a'"
    );
}

#[test]
fn timeout_message_leaves_the_fraction_of_a_second_out() {
    let operation = Operation::new("connect", "a", None, Some(Duration::from_millis(12_999)));
    assert_eq!(timed_out(&operation).seconds, 12);
}

#[test]
fn disabled_timeout_keeps_operation_unbounded() {
    let operation = Operation::new("call_tool", "test-server", Some("hang"), None);
    assert!(matches!(
        timed_operation::<()>(&operation, TimedEvent::Started),
        TimedStep::Await(None)
    ));
    assert!(matches!(
        timed_operation::<()>(&operation, TimedEvent::DeadlineElapsed),
        TimedStep::Await(None)
    ));
    let events: Vec<TimedEvent<()>> = vec![TimedEvent::Started, TimedEvent::DeadlineElapsed];
    assert!(run(&operation, events).is_none());
}

#[test]
fn deadline_bounds_the_wait() {
    let limit = Duration::from_secs(7);
    let operation = Operation::new("connect", "a", None, Some(limit));
    match timed_operation::<()>(&operation, TimedEvent::Started) {
        TimedStep::Await(given) => assert_eq!(given, Some(limit)),
        TimedStep::Return(_) => panic!("ended before it began"),
    }
}

#[test]
fn value_before_the_deadline_is_returned() {
    let operation = Operation::new("connect", "a", None, timeout(1));
    let events = vec![TimedEvent::Started, TimedEvent::Completed(42), TimedEvent::DeadlineElapsed];
    assert_eq!(run(&operation, events).unwrap().unwrap(), 42);
}

#[test]
fn both_kinds_of_failure_are_joined() {
    let fine: Result<Result<u8, String>, OperationTimeout> = Ok(Ok(3));
    assert_eq!(flatten(fine).unwrap(), 3);

    let failed: Result<Result<u8, String>, OperationTimeout> = Ok(Err("refused".to_string()));
    assert_eq!(flatten(failed).unwrap_err().message(), "refused");

    let late: Result<Result<u8, String>, OperationTimeout> =
        Err(timed_out(&Operation::new("connect", "a", None, timeout(2))));
    match flatten(late).unwrap_err() {
        McpError::TimedOut(timeout) => assert_eq!(timeout.seconds, 2),
        McpError::Failed(_) => panic!("a timeout became a failure"),
    }
}

/// Runs a wait on a list of events: the reports, and the value if it ended.
fn wait(interval: Duration, events: Vec<WaitEvent<i32>>) -> (Vec<Duration>, Option<i32>) {
    let mut reports = Vec::new();
    for event in events {
        match wait_with_pending_reports(interval, event) {
            WaitStep::Return(value) => return (reports, Some(value)),
            WaitStep::Await { report, interval: next } => {
                assert_eq!(next, interval);
                reports.extend(report);
            }
        }
    }
    (reports, None)
}

#[test]
fn completed_operation_is_not_reported_pending() {
    let (reports, result) = wait(
        Duration::from_secs(1),
        vec![
            WaitEvent::Started,
            WaitEvent::Completed { value: 42, elapsed: Duration::ZERO },
        ],
    );
    assert_eq!(result, Some(42));
    assert_eq!(reports.len(), 0);
}

#[test]
fn pending_reports_do_not_cancel_operation() {
    let (reports, result) = wait(
        Duration::from_millis(5),
        vec![
            WaitEvent::Started,
            WaitEvent::IntervalElapsed { elapsed: Duration::from_millis(5) },
            WaitEvent::IntervalElapsed { elapsed: Duration::from_millis(11) },
            WaitEvent::Completed { value: 42, elapsed: Duration::from_millis(35) },
        ],
    );
    assert_eq!(result, Some(42));
    assert!(reports.len() >= 2);
    assert_eq!(reports, vec![Duration::from_millis(5), Duration::from_millis(11)]);
}

#[test]
fn trace_tells_start_progress_and_end() {
    let operation = Operation::new("call_tool", "a", Some("hang"), None);

    let step = trace_operation::<i32>(5, &operation, WaitEvent::Started);
    assert_eq!(step.record.id, 5);
    assert_eq!(step.record.operation, "call_tool");
    assert_eq!(step.record.server, "a");
    assert_eq!(step.record.tool.as_deref(), Some("hang"));
    assert!(matches!(step.record.phase, TracePhase::Started));
    match step.next {
        WaitStep::Await { report, interval } => {
            assert_eq!(report, None);
            assert_eq!(interval, Duration::from_secs(30));
            assert_eq!(interval, Duration::from_secs(PENDING_REPORT_INTERVAL_SECS));
        }
        WaitStep::Return(_) => panic!("ended before it began"),
    }

    let elapsed = Duration::from_micros(30_001_999);
    let step = trace_operation::<i32>(5, &operation, WaitEvent::IntervalElapsed { elapsed });
    assert!(matches!(step.record.phase, TracePhase::StillPending { elapsed_ms: 30_001 }));
    assert!(matches!(step.next, WaitStep::Await { report: Some(_), .. }));

    let elapsed = Duration::from_secs(31);
    let step = trace_operation(5, &operation, WaitEvent::Completed { value: 42, elapsed });
    assert!(matches!(step.record.phase, TracePhase::Finished { elapsed_ms: 31_000 }));
    assert!(matches!(step.next, WaitStep::Return(42)));
}

#[test]
fn operation_ids_count_up_from_one_and_wrap() {
    assert_eq!(FIRST_OPERATION_ID, 1);
    let mut id = FIRST_OPERATION_ID;
    for expected in 1..100 {
        assert_eq!(id, expected);
        id = following_operation_id(id);
    }
    assert_eq!(following_operation_id(u64::MAX), 0);
}

#[test]
fn numbers_are_written_in_decimal() {
    for number in [0, 7, 10, 99, 100, 8970, 1_234_567_890, u64::MAX] {
        assert_eq!(decimal_text(number), format!("{}", number));
    }
}
