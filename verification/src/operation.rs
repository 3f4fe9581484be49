//! Operations on MCP servers: their deadlines, what is reported while they are
//! pending, and the error of one that ran out of time.
//!
//! Every function here is one step: it takes an event and answers what to do
//! next. Whoever runs the operation performs that and hands in the next event.

use std::time::Duration;
use vstd::prelude::*;
use vstd::string::*;

use crate::text;
use crate::time;

verus! {

/// Seconds between two reports that an operation is still pending.
pub const PENDING_REPORT_INTERVAL_SECS: u64 = 30;

/// The id of the first operation.
pub const FIRST_OPERATION_ID: u64 = 1;

/// One operation on a server: what it is called, whom it goes to, which tool it
/// is for (if any) and how long it may take (if limited).
#[derive(Debug)]
pub struct Operation {
    pub name: String,
    pub server: String,
    pub tool: Option<String>,
    pub deadline: Option<Duration>,
}

/// The text of an optional string.
pub open spec fn optional_text(text: Option<String>) -> Option<Seq<char>> {
    match text {
        Some(text) => Some(text@),
        None => None,
    }
}

/// The text of an optional string slice.
pub open spec fn optional_str(text: Option<&str>) -> Option<Seq<char>> {
    match text {
        Some(text) => Some(text@),
        None => None,
    }
}

impl Operation {
    /// Describes an operation.
    pub fn new(name: &str, server: &str, tool: Option<&str>, deadline: Option<Duration>) -> (operation:
        Self)
        ensures
            operation.name@ == name@,
            operation.server@ == server@,
            optional_text(operation.tool) == optional_str(tool),
            operation.tool is Some <==> tool is Some,
            tool is Some ==> operation.tool->0@ == tool->0@,
            operation.deadline == deadline,
    {
        let tool = match tool {
            Some(tool) => Some(tool.to_owned()),
            None => None,
        };
        Operation { name: name.to_owned(), server: server.to_owned(), tool, deadline }
    }
}

/// An operation that did not end before its deadline.
#[derive(Debug)]
pub struct OperationTimeout {
    pub operation: String,
    pub server: String,
    pub tool: Option<String>,
    /// The whole seconds of the deadline.
    pub seconds: u64,
}

/// What is said of an operation that ran out of time.
pub open spec fn timeout_text(
    operation: Seq<char>,
    server: Seq<char>,
    tool: Option<Seq<char>>,
    seconds: nat,
) -> Seq<char> {
    let sentence = "MCP "@ + operation + " timed out after "@ + text::decimal(seconds)
        + " seconds for server '"@ + server + "'"@;
    match tool {
        Some(tool) => sentence + (" and tool '"@ + tool + "'"@),
        None => sentence,
    }
}

impl OperationTimeout {
    /// The error message.
    pub open spec fn spec_message(&self) -> Seq<char> {
        timeout_text(
            self.operation@,
            self.server@,
            optional_text(self.tool),
            self.seconds as nat,
        )
    }

    /// The error message.
    pub fn message(&self) -> (message: String)
        ensures
            message@ == self.spec_message(),
    {
        let mut message = "MCP ".to_owned();
        message.append(self.operation.as_str());
        message.append(" timed out after ");
        message.append(text::decimal_text(self.seconds).as_str());
        message.append(" seconds for server '");
        message.append(self.server.as_str());
        message.append("'");
        if let Some(tool) = &self.tool {
            message.append(" and tool '");
            message.append(tool.as_str());
            message.append("'");
            assert(message@ =~= self.spec_message());
        }
        message
    }
}

/// Why an operation failed: it ran out of time, or it ended with an error of
/// its own.
#[derive(Debug)]
pub enum McpError<E> {
    TimedOut(OperationTimeout),
    Failed(E),
}

impl McpError<String> {
    /// The error message: that of the timeout, or the operation's own.
    pub open spec fn spec_message(&self) -> Seq<char> {
        match *self {
            McpError::TimedOut(timeout) => timeout.spec_message(),
            McpError::Failed(text) => text@,
        }
    }

    /// The error message.
    pub fn message(&self) -> (message: String)
        ensures
            message@ == self.spec_message(),
    {
        match self {
            McpError::TimedOut(timeout) => timeout.message(),
            McpError::Failed(text) => text.clone(),
        }
    }
}

/// What happens to an operation with a deadline.
pub enum TimedEvent<T> {
    /// It was asked for.
    Started,
    /// It ended with a value.
    Completed(T),
    /// The time that it was given is over.
    DeadlineElapsed,
}

/// What to do about it.
pub enum TimedStep<T> {
    /// Wait for the operation: for as long as given, or without end.
    Await(Option<Duration>),
    /// The operation is over.
    Return(Result<T, OperationTimeout>),
}

/// The error of `operation` when the deadline is over.
pub open spec fn timeout_error(operation: Operation, deadline: Duration) -> OperationTimeout {
    OperationTimeout {
        operation: operation.name,
        server: operation.server,
        tool: operation.tool,
        seconds: time::whole_secs(deadline) as u64,
    }
}

/// One step of an operation with a deadline: a value ends it with that value,
/// the end of its time ends it with an error, and an operation without a
/// deadline is never ended by the clock.
pub open spec fn timed_step<T>(operation: Operation, event: TimedEvent<T>) -> TimedStep<T> {
    match event {
        TimedEvent::Started => TimedStep::Await(operation.deadline),
        TimedEvent::Completed(value) => TimedStep::Return(Ok(value)),
        TimedEvent::DeadlineElapsed => match operation.deadline {
            Some(deadline) => TimedStep::Return(Err(timeout_error(operation, deadline))),
            None => TimedStep::Await(None),
        },
    }
}

/// Decides what follows from an event of an operation with a deadline.
pub fn timed_operation<T>(operation: &Operation, event: TimedEvent<T>) -> (step: TimedStep<T>)
    ensures
        step == timed_step(*operation, event),
        event is Started ==> step == TimedStep::<T>::Await(operation.deadline),
        event matches TimedEvent::Completed(value) ==> step == TimedStep::Return(
            Ok::<T, OperationTimeout>(value),
        ),
        event is DeadlineElapsed && operation.deadline is None ==> step == TimedStep::<T>::Await(
            None,
        ),
        event is DeadlineElapsed && operation.deadline is Some ==> {
            &&& step is Return
            &&& step->Return_0 is Err
            &&& step->Return_0->Err_0.operation == operation.name
            &&& step->Return_0->Err_0.server == operation.server
            &&& step->Return_0->Err_0.tool == operation.tool
            &&& step->Return_0->Err_0.seconds == time::duration_nanos(operation.deadline->0)
                / 1_000_000_000
        },
{
    match event {
        TimedEvent::Started => TimedStep::Await(operation.deadline),
        TimedEvent::Completed(value) => TimedStep::Return(Ok(value)),
        TimedEvent::DeadlineElapsed => match operation.deadline {
            Some(deadline) => TimedStep::Return(
                Err(
                    OperationTimeout {
                        operation: operation.name.clone(),
                        server: operation.server.clone(),
                        tool: operation.tool.clone(),
                        seconds: deadline.as_secs(),
                    },
                ),
            ),
            None => TimedStep::Await(None),
        },
    }
}

/// Joins the two ways in which an operation can fail.
pub fn flatten<T, E>(result: Result<Result<T, E>, OperationTimeout>) -> (joined: Result<
    T,
    McpError<E>,
>)
    ensures
        joined == match result {
            Ok(Ok(value)) => Ok::<T, McpError<E>>(value),
            Ok(Err(error)) => Err(McpError::Failed(error)),
            Err(timeout) => Err(McpError::TimedOut(timeout)),
        },
{
    match result {
        Ok(Ok(value)) => Ok(value),
        Ok(Err(error)) => Err(McpError::Failed(error)),
        Err(timeout) => Err(McpError::TimedOut(timeout)),
    }
}

/// What happens while an operation is waited for. Every `elapsed` is the time
/// since the wait began.
pub enum WaitEvent<T> {
    /// The wait begins.
    Started,
    /// One interval went by and the operation is still pending.
    IntervalElapsed { elapsed: Duration },
    /// The operation ended with a value.
    Completed { value: T, elapsed: Duration },
}

/// What to do about it.
pub enum WaitStep<T> {
    /// Report, where a time is given, that the operation has been pending for
    /// so long. Then wait for it, one interval at most.
    Await { report: Option<Duration>, interval: Duration },
    /// The operation is over.
    Return(T),
}

/// One step of a wait: each interval is reported and the wait goes on; the
/// value ends it.
pub open spec fn wait_step<T>(interval: Duration, event: WaitEvent<T>) -> WaitStep<T> {
    match event {
        WaitEvent::Started => WaitStep::Await { report: None, interval },
        WaitEvent::IntervalElapsed { elapsed } => WaitStep::Await {
            report: Some(elapsed),
            interval,
        },
        WaitEvent::Completed { value, .. } => WaitStep::Return(value),
    }
}

/// Decides what follows from an event of a wait that reports every `interval`.
pub fn wait_with_pending_reports<T>(interval: Duration, event: WaitEvent<T>) -> (step: WaitStep<T>)
    ensures
        step == wait_step(interval, event),
{
    match event {
        WaitEvent::Started => WaitStep::Await { report: None, interval },
        WaitEvent::IntervalElapsed { elapsed } => WaitStep::Await {
            report: Some(elapsed),
            interval,
        },
        WaitEvent::Completed { value, .. } => WaitStep::Return(value),
    }
}

/// Where a traced operation stands.
#[derive(Debug)]
pub enum TracePhase {
    Started,
    StillPending { elapsed_ms: u128 },
    Finished { elapsed_ms: u128 },
}

/// One entry in the trace of an operation.
#[derive(Debug)]
pub struct TraceRecord {
    pub id: u64,
    pub operation: String,
    pub server: String,
    pub tool: Option<String>,
    pub phase: TracePhase,
}

/// What to trace at an event, and what to do about it.
pub struct TraceStep<T> {
    pub record: TraceRecord,
    pub next: WaitStep<T>,
}

/// Where a traced operation stands at an event.
pub open spec fn trace_phase<T>(event: WaitEvent<T>) -> TracePhase {
    match event {
        WaitEvent::Started => TracePhase::Started,
        WaitEvent::IntervalElapsed { elapsed } => TracePhase::StillPending {
            elapsed_ms: time::whole_millis(elapsed) as u128,
        },
        WaitEvent::Completed { elapsed, .. } => TracePhase::Finished {
            elapsed_ms: time::whole_millis(elapsed) as u128,
        },
    }
}

/// The trace entry of an event.
pub open spec fn trace_record<T>(id: u64, operation: Operation, event: WaitEvent<T>) -> TraceRecord {
    TraceRecord {
        id,
        operation: operation.name,
        server: operation.server,
        tool: operation.tool,
        phase: trace_phase(event),
    }
}

/// The interval that `next` waits for, where it waits.
pub open spec fn next_interval<T>(next: WaitStep<T>) -> Option<Duration> {
    match next {
        WaitStep::Await { interval, .. } => Some(interval),
        WaitStep::Return(_) => None,
    }
}

/// Decides what to trace at an event of the operation with the given id, and
/// what follows: a wait that reports every [`PENDING_REPORT_INTERVAL_SECS`].
pub fn trace_operation<T>(id: u64, operation: &Operation, event: WaitEvent<T>) -> (step: TraceStep<T>)
    ensures
        step.record == trace_record(id, *operation, event),
        match next_interval(step.next) {
            Some(interval) => time::lasts_secs(interval, PENDING_REPORT_INTERVAL_SECS as nat)
                && step.next == wait_step(interval, event),
            None => event matches WaitEvent::Completed { value, .. } && step.next
                == WaitStep::Return(value),
        },
        event matches WaitEvent::Completed { value, .. } ==> step.next == WaitStep::Return(value),
        !(event is Completed) ==> {
            &&& step.next is Await
            &&& time::duration_nanos(step.next->interval) == 30_000_000_000
            &&& event is Started ==> step.next->report is None
            &&& event matches WaitEvent::IntervalElapsed { elapsed } ==> step.next->report == Some(
                elapsed,
            )
        },
{
    let phase = match &event {
        WaitEvent::Started => TracePhase::Started,
        WaitEvent::IntervalElapsed { elapsed } => TracePhase::StillPending {
            elapsed_ms: elapsed.as_millis(),
        },
        WaitEvent::Completed { elapsed, .. } => TracePhase::Finished {
            elapsed_ms: elapsed.as_millis(),
        },
    };
    let record = TraceRecord {
        id,
        operation: operation.name.clone(),
        server: operation.server.clone(),
        tool: operation.tool.clone(),
        phase,
    };
    let interval = Duration::from_secs(PENDING_REPORT_INTERVAL_SECS);
    TraceStep { record, next: wait_with_pending_reports(interval, event) }
}

/// The id that comes after `id`, starting over after the last one.
pub open spec fn following_id(id: u64) -> u64 {
    if id == u64::MAX {
        0
    } else {
        (id + 1) as u64
    }
}

/// The id of the operation that is started next after the one with `id`.
pub fn following_operation_id(id: u64) -> (next: u64)
    ensures
        next == following_id(id),
{
    id.wrapping_add(1)
}

/// How an operation with a deadline ends on a sequence of events, if it does.
pub open spec fn timed_run<T>(operation: Operation, events: Seq<TimedEvent<T>>) -> Option<
    Result<T, OperationTimeout>,
>
    decreases events.len(),
{
    if events.len() == 0 {
        None
    } else {
        match timed_step(operation, events[0]) {
            TimedStep::Return(result) => Some(result),
            TimedStep::Await(_) => timed_run(operation, events.drop_first()),
        }
    }
}

/// Without a deadline the wait is unbounded: it is never given a limit, and no
/// sequence of events ends the operation with a timeout.
pub proof fn law_no_deadline_never_times_out<T>(operation: Operation, events: Seq<TimedEvent<T>>)
    requires
        operation.deadline is None,
    ensures
        !(timed_run(operation, events) matches Some(Err(_))),
        forall|event: TimedEvent<T>|
            #[trigger] timed_step(operation, event) matches TimedStep::Await(limit) ==> limit is None,
    decreases events.len(),
{
    if events.len() > 0 {
        law_no_deadline_never_times_out(operation, events.drop_first());
    }
}

/// The first event that can end an operation decides how it ends: a value is
/// returned as it is, and the end of the time gives the timeout error. What
/// comes later changes nothing.
pub proof fn law_first_end_decides<T>(operation: Operation, events: Seq<TimedEvent<T>>, first: int)
    requires
        0 <= first < events.len(),
        timed_step(operation, events[first]) is Return,
        forall|i: int| 0 <= i < first ==> timed_step(operation, #[trigger] events[i]) is Await,
    ensures
        timed_run(operation, events) == Some(timed_step(operation, events[first])->Return_0),
        events[first] matches TimedEvent::Completed(value) ==> timed_run(operation, events) == Some(
            Ok::<T, OperationTimeout>(value),
        ),
        events[first] is DeadlineElapsed ==> operation.deadline is Some && timed_run(
            operation,
            events,
        ) == Some(Err::<T, OperationTimeout>(timeout_error(operation, operation.deadline->0))),
    decreases first,
{
    if first > 0 {
        assert(timed_step(operation, events[0]) is Await);
        let rest = events.drop_first();
        assert(rest[first - 1] == events[first]);
        assert forall|i: int| 0 <= i < first - 1 implies timed_step(
            operation,
            #[trigger] rest[i],
        ) is Await by {
            assert(rest[i] == events[i + 1]);
        }
        law_first_end_decides(operation, rest, first - 1);
    }
}

/// The timeout error names the seconds that were configured.
pub proof fn law_timeout_reports_configured_seconds<T>(
    operation: Operation,
    deadline: Duration,
    seconds: u64,
)
    requires
        operation.deadline == Some(deadline),
        crate::config::is_timeout(operation.deadline, seconds),
    ensures
        timed_step::<T>(operation, TimedEvent::DeadlineElapsed) == TimedStep::Return(
            Err::<T, OperationTimeout>(timeout_error(operation, deadline)),
        ),
        timeout_error(operation, deadline).seconds == seconds,
        timeout_error(operation, deadline).spec_message() == timeout_text(
            operation.name@,
            operation.server@,
            optional_text(operation.tool),
            seconds as nat,
        ),
{
    time::lemma_whole_secs(deadline, seconds as nat);
}

/// The message of a timeout contains the operation with the words "timed out",
/// the server, and the tool where there is one.
pub proof fn law_timeout_message_names_what_timed_out(timeout: OperationTimeout)
    ensures
        text::contains_text(timeout.spec_message(), timeout.operation@ + " timed out"@),
        text::contains_text(timeout.spec_message(), timeout.server@),
        timeout.tool matches Some(tool) ==> text::contains_text(timeout.spec_message(), tool@),
{
    reveal_strlit(" timed out");
    reveal_strlit(" timed out after ");
    let operation = timeout.operation@;
    let server = timeout.server@;
    let message = timeout.spec_message();
    let start = "MCP "@;
    let named = operation + " timed out"@;
    let rest = message.skip(start.len() + named.len() as int);
    assert(message =~= start + named + rest);
    text::lemma_contains_part(start, named, rest);
    let start = "MCP "@ + operation + " timed out after "@ + text::decimal(timeout.seconds as nat)
        + " seconds for server '"@;
    let rest = message.skip(start.len() + server.len() as int);
    assert(message =~= start + server + rest);
    text::lemma_contains_part(start, server, rest);
    if let Some(tool) = timeout.tool {
        let start = start + server + "'"@ + " and tool '"@;
        assert(message =~= start + tool@ + "'"@);
        text::lemma_contains_part(start, tool@, "'"@);
    }
}

/// What a wait reports on a sequence of events, until it ends.
pub open spec fn wait_reports<T>(interval: Duration, events: Seq<WaitEvent<T>>) -> Seq<Duration>
    decreases events.len(),
{
    if events.len() == 0 {
        seq![]
    } else {
        match wait_step(interval, events[0]) {
            WaitStep::Return(_) => seq![],
            WaitStep::Await { report: None, .. } => wait_reports(interval, events.drop_first()),
            WaitStep::Await { report: Some(elapsed), .. } => seq![elapsed] + wait_reports(
                interval,
                events.drop_first(),
            ),
        }
    }
}

/// The value that a wait returns on a sequence of events, if it ends.
pub open spec fn wait_result<T>(interval: Duration, events: Seq<WaitEvent<T>>) -> Option<T>
    decreases events.len(),
{
    if events.len() == 0 {
        None
    } else {
        match wait_step(interval, events[0]) {
            WaitStep::Return(value) => Some(value),
            WaitStep::Await { .. } => wait_result(interval, events.drop_first()),
        }
    }
}

/// The events of intervals that went by while an operation was pending.
pub open spec fn pending_events<T>(pending: Seq<Duration>) -> Seq<WaitEvent<T>> {
    pending.map_values(|elapsed: Duration| WaitEvent::<T>::IntervalElapsed { elapsed })
}

/// The events of a whole wait: it begins, intervals go by, a value comes.
pub open spec fn whole_wait<T>(pending: Seq<Duration>, value: T, elapsed: Duration) -> Seq<
    WaitEvent<T>,
> {
    seq![WaitEvent::Started] + pending_events(pending) + seq![WaitEvent::Completed { value, elapsed }]
}

/// Every interval that goes by is reported once, in order, and none of the
/// reports ends the operation: its value is returned all the same. An operation
/// that completes within the first interval is not reported at all.
pub proof fn law_reports_do_not_cancel<T>(
    interval: Duration,
    pending: Seq<Duration>,
    value: T,
    elapsed: Duration,
)
    ensures
        wait_reports(interval, whole_wait(pending, value, elapsed)) == pending,
        wait_result(interval, whole_wait(pending, value, elapsed)) == Some(value),
{
    let events = whole_wait(pending, value, elapsed);
    let rest = pending_events(pending) + seq![WaitEvent::Completed { value, elapsed }];
    assert(events.drop_first() =~= rest);
    lemma_pending_wait(interval, pending, value, elapsed);
}

/// As `law_reports_do_not_cancel`, from the first interval on.
proof fn lemma_pending_wait<T>(
    interval: Duration,
    pending: Seq<Duration>,
    value: T,
    elapsed: Duration,
)
    ensures
        wait_reports(
            interval,
            pending_events(pending) + seq![WaitEvent::Completed { value, elapsed }],
        ) == pending,
        wait_result(
            interval,
            pending_events(pending) + seq![WaitEvent::Completed { value, elapsed }],
        ) == Some(value),
    decreases pending.len(),
{
    let end = seq![WaitEvent::Completed { value, elapsed }];
    let events = pending_events(pending) + end;
    if pending.len() > 0 {
        let later = pending.drop_first();
        assert(events.drop_first() =~= pending_events(later) + end);
        lemma_pending_wait(interval, later, value, elapsed);
        assert(pending =~= seq![pending[0]] + later);
    } else {
        assert(events =~= end);
    }
}

/// The trace that a sequence of events leaves, until the operation ends.
pub open spec fn trace_run<T>(id: u64, operation: Operation, events: Seq<WaitEvent<T>>) -> Seq<
    TraceRecord,
>
    decreases events.len(),
{
    if events.len() == 0 {
        seq![]
    } else {
        let record = trace_record(id, operation, events[0]);
        if events[0] is Completed {
            seq![record]
        } else {
            seq![record] + trace_run(id, operation, events.drop_first())
        }
    }
}

/// The trace of a whole operation says once that it started, once for each
/// interval that it is still pending, and once, at the end, that it finished.
/// Every entry carries the operation's id, its name, its server and its tool.
pub proof fn law_trace_of_whole_operation<T>(
    id: u64,
    operation: Operation,
    pending: Seq<Duration>,
    value: T,
    elapsed: Duration,
)
    ensures
        ({
            let trace = trace_run(id, operation, whole_wait(pending, value, elapsed));
            &&& trace.len() == pending.len() + 2
            &&& forall|i: int|
                0 <= i < trace.len() ==> {
                    &&& (#[trigger] trace[i]).id == id
                    &&& trace[i].operation == operation.name
                    &&& trace[i].server == operation.server
                    &&& trace[i].tool == operation.tool
                }
            &&& trace[0].phase is Started
            &&& forall|i: int|
                0 < i <= pending.len() ==> (#[trigger] trace[i]).phase == (TracePhase::StillPending {
                    elapsed_ms: time::whole_millis(pending[i - 1]) as u128,
                })
            &&& trace.last().phase == (TracePhase::Finished {
                elapsed_ms: time::whole_millis(elapsed) as u128,
            })
        }),
{
    let events = whole_wait(pending, value, elapsed);
    lemma_trace_run(id, operation, events, events.len() - 1);
    assert(events.last() == WaitEvent::Completed { value, elapsed });
    assert forall|i: int| 0 < i <= pending.len() implies #[trigger] events[i]
        == (WaitEvent::<T>::IntervalElapsed { elapsed: pending[i - 1] }) by {
        assert(pending_events::<T>(pending)[i - 1] == WaitEvent::<T>::IntervalElapsed {
            elapsed: pending[i - 1],
        });
    }
    let trace = trace_run(id, operation, events);
    assert forall|i: int| 0 < i <= pending.len() implies (#[trigger] trace[i]).phase
        == (TracePhase::StillPending {
        elapsed_ms: time::whole_millis(pending[i - 1]) as u128,
    }) by {
        assert(trace[i] == trace_record(id, operation, events[i]));
    }
}

/// The trace has one entry for each event up to the first that completes the
/// operation.
proof fn lemma_trace_run<T>(id: u64, operation: Operation, events: Seq<WaitEvent<T>>, end: int)
    requires
        0 <= end < events.len(),
        events[end] is Completed,
        forall|i: int| 0 <= i < end ==> !(#[trigger] events[i] is Completed),
    ensures
        trace_run(id, operation, events).len() == end + 1,
        forall|i: int|
            0 <= i <= end ==> #[trigger] trace_run(id, operation, events)[i] == trace_record(
                id,
                operation,
                events[i],
            ),
    decreases end,
{
    if end > 0 {
        let rest = events.drop_first();
        assert forall|i: int| 0 <= i < end - 1 implies !(#[trigger] rest[i] is Completed) by {
            assert(rest[i] == events[i + 1]);
        }
        lemma_trace_run(id, operation, rest, end - 1);
        assert forall|i: int| 0 <= i <= end implies #[trigger] trace_run(id, operation, events)[i]
            == trace_record(id, operation, events[i]) by {
            if i > 0 {
                assert(trace_run(id, operation, events)[i] == trace_run(id, operation, rest)[i - 1]);
                assert(rest[i - 1] == events[i]);
            }
        }
    }
}

/// The id of the operation that is started after `count` others.
pub open spec fn operation_id(count: nat) -> u64
    decreases count,
{
    if count == 0 {
        FIRST_OPERATION_ID
    } else {
        following_id(operation_id((count - 1) as nat))
    }
}

/// Two operations have the same id only where all ids were given out between
/// them.
pub proof fn law_operation_ids_are_distinct(earlier: nat, later: nat)
    requires
        earlier < later <= earlier + u64::MAX,
    ensures
        operation_id(earlier) != operation_id(later),
{
    lemma_operation_id(earlier);
    lemma_operation_id(later);
}

/// What becomes of operations in one process, in the order in which it happens
/// over all threads. Taking an id is one indivisible exchange of the counter.
pub enum ProcessEvent {
    /// An operation on `thread` takes its id.
    IdTaken { thread: nat },
    /// An operation on `thread` ends.
    Ended { thread: nat },
}

/// What the counter of ids stands at after `events`.
pub open spec fn next_id(events: Seq<ProcessEvent>) -> u64
    decreases events.len(),
{
    if events.len() == 0 {
        FIRST_OPERATION_ID
    } else {
        match events.last() {
            ProcessEvent::IdTaken { .. } => following_id(next_id(events.drop_last())),
            ProcessEvent::Ended { .. } => next_id(events.drop_last()),
        }
    }
}

/// The ids that are taken in the course of `events`, in order.
pub open spec fn ids_taken(events: Seq<ProcessEvent>) -> Seq<u64>
    decreases events.len(),
{
    if events.len() == 0 {
        seq![]
    } else {
        let before = events.drop_last();
        match events.last() {
            ProcessEvent::IdTaken { .. } => ids_taken(before).push(next_id(before)),
            ProcessEvent::Ended { .. } => ids_taken(before),
        }
    }
}

/// However operations on any threads interleave, and whether or not earlier
/// ones have ended: the first id taken is 1, each later one is the previous
/// plus 1, and no two are the same, as long as the ids do not start over.
pub proof fn law_ids_count_up_in_any_interleaving(events: Seq<ProcessEvent>)
    requires
        ids_taken(events).len() <= u64::MAX,
    ensures
        ids_taken(events).len() > 0 ==> ids_taken(events)[0] == 1,
        forall|i: int|
            0 < i < ids_taken(events).len() ==> #[trigger] ids_taken(events)[i]
                == ids_taken(events)[i - 1] + 1,
        ids_taken(events).no_duplicates(),
{
    lemma_ids_taken(events);
    let ids = ids_taken(events);
    assert forall|i: int| 0 <= i < ids.len() implies #[trigger] ids[i] == i + 1 by {
        lemma_operation_id(i as nat);
    }
}

/// The ids that are taken are those of the first operations, one by one.
proof fn lemma_ids_taken(events: Seq<ProcessEvent>)
    ensures
        next_id(events) == operation_id(ids_taken(events).len()),
        forall|i: int|
            0 <= i < ids_taken(events).len() ==> #[trigger] ids_taken(events)[i] == operation_id(
                i as nat,
            ),
    decreases events.len(),
{
    if events.len() > 0 {
        lemma_ids_taken(events.drop_last());
    }
}

/// The ids count up from the first one and start over after the last.
proof fn lemma_operation_id(count: nat)
    ensures
        operation_id(count) == (FIRST_OPERATION_ID + count) % (u64::MAX + 1),
    decreases count,
{
    if count > 0 {
        lemma_operation_id((count - 1) as nat);
    }
}

/// Starting any operation begins a wait of exactly its deadline: bounded by it
/// where there is one, and unbounded only where there is none.
pub proof fn law_wait_is_bounded_by_the_deadline<T>(operation: Operation, limit: Duration)
    ensures
        timed_step::<T>(operation, TimedEvent::Started) is Await,
        operation.deadline == Some(limit) <==> timed_step::<T>(operation, TimedEvent::Started)
            == TimedStep::<T>::Await(Some(limit)),
        operation.deadline is None <==> timed_step::<T>(operation, TimedEvent::Started)
            == TimedStep::<T>::Await(None),
{
}

/// A value ends any operation, with that value and no other, whether or not it
/// has a deadline.
pub proof fn law_value_ends_any_operation<T>(operation: Operation, value: T)
    ensures
        timed_step(operation, TimedEvent::Completed(value)) == TimedStep::Return(
            Ok::<T, OperationTimeout>(value),
        ),
{
}

/// When the time of an operation with a deadline is over, it ends with an error
/// that carries its own name, server and tool and the whole seconds of its
/// deadline. Without a deadline it goes on waiting, without a limit.
pub proof fn law_elapsed_deadline_is_an_error<T>(operation: Operation)
    ensures
        operation.deadline is None ==> timed_step::<T>(operation, TimedEvent::DeadlineElapsed)
            == TimedStep::<T>::Await(None),
        operation.deadline matches Some(deadline) ==> {
            let step = timed_step::<T>(operation, TimedEvent::DeadlineElapsed);
            &&& step is Return
            &&& step->Return_0 is Err
            &&& step->Return_0->Err_0.operation == operation.name
            &&& step->Return_0->Err_0.server == operation.server
            &&& step->Return_0->Err_0.tool == operation.tool
            &&& time::duration_nanos(deadline) < (u64::MAX + 1) * 1_000_000_000 ==> {
                let seconds = step->Return_0->Err_0.seconds;
                &&& seconds * 1_000_000_000 <= time::duration_nanos(deadline)
                &&& time::duration_nanos(deadline) < (seconds + 1) * 1_000_000_000
            }
        },
{
    if let Some(deadline) = operation.deadline {
        time::law_whole_units_fit(deadline);
    }
}

/// An operation with a deadline never hangs: once it was started and its time
/// is over without a value, it has ended with an error, whatever else comes.
pub proof fn law_operation_with_deadline_ends<T>(operation: Operation, later: Seq<TimedEvent<T>>)
    requires
        operation.deadline is Some,
    ensures
        timed_run(
            operation,
            seq![TimedEvent::<T>::Started, TimedEvent::<T>::DeadlineElapsed] + later,
        ) matches Some(Err(_)),
{
    let events = seq![TimedEvent::<T>::Started, TimedEvent::<T>::DeadlineElapsed] + later;
    law_first_end_decides(operation, events, 1);
}

/// The timeout message is the fixed words with the operation, the seconds and
/// the server in their places, and the seconds read back as a number. A tool
/// adds its own words behind the server and changes nothing before them.
pub proof fn law_timeout_message_is_fixed_by_its_parts(
    operation: Seq<char>,
    server: Seq<char>,
    tool: Seq<char>,
    seconds: nat,
)
    ensures
        ({
            let start = "MCP "@ + operation + " timed out after "@;
            let end = " seconds for server '"@ + server + "'"@;
            let message = timeout_text(operation, server, None, seconds);
            let between = message.subrange(start.len() as int, message.len() - end.len());
            &&& message.len() > start.len() + end.len()
            &&& message.take(start.len() as int) == start
            &&& message.skip(message.len() - end.len()) == end
            &&& text::digits_value(between) == seconds
            &&& forall|i: int|
                0 <= i < between.len() ==> 48 <= (#[trigger] between[i]) as int <= 57
            &&& between[0] == '0' ==> seconds == 0
            &&& timeout_text(operation, server, Some(tool), seconds) == message + (" and tool '"@
                + tool + "'"@)
        }),
{
    let start = "MCP "@ + operation + " timed out after "@;
    let end = " seconds for server '"@ + server + "'"@;
    let message = timeout_text(operation, server, None, seconds);
    let between = message.subrange(start.len() as int, message.len() - end.len());
    text::law_decimal_reads_back(seconds);
    assert(message =~= start + text::decimal(seconds) + end);
    assert(between =~= text::decimal(seconds));
    assert(message.take(start.len() as int) =~= start);
    assert(message.skip(message.len() - end.len()) =~= end);
}

/// The message of an error is that of the timeout with all its parts, or the
/// operation's own text.
pub proof fn law_error_message_is_that_of_its_cause(timeout: OperationTimeout, text: String)
    ensures
        McpError::<String>::Failed(text).spec_message() == text@,
        McpError::<String>::TimedOut(timeout).spec_message() == timeout.spec_message(),
        timeout.tool is None ==> timeout.spec_message() == timeout_text(
            timeout.operation@,
            timeout.server@,
            None,
            timeout.seconds as nat,
        ),
        timeout.tool matches Some(tool) ==> timeout.spec_message() == timeout_text(
            timeout.operation@,
            timeout.server@,
            Some(tool@),
            timeout.seconds as nat,
        ),
{
}

/// A wait goes on, one interval at a time, until the value comes: only a value
/// ends it, only an interval that went by is reported, with its own time, and
/// the interval never changes.
pub proof fn law_wait_goes_on_until_the_value<T>(interval: Duration, elapsed: Duration, value: T)
    ensures
        wait_step::<T>(interval, WaitEvent::Started) == (WaitStep::<T>::Await {
            report: None,
            interval,
        }),
        wait_step::<T>(interval, WaitEvent::IntervalElapsed { elapsed }) == (WaitStep::<T>::Await {
            report: Some(elapsed),
            interval,
        }),
        wait_step(interval, WaitEvent::Completed { value, elapsed }) == WaitStep::Return(value),
{
}

/// The entry of an event carries the id and the operation's labels, and tells
/// the kind of the event with the whole milliseconds that had gone by.
pub proof fn law_entry_tells_its_event<T>(id: u64, operation: Operation, event: WaitEvent<T>)
    ensures
        ({
            let record = trace_record(id, operation, event);
            &&& record.id == id
            &&& record.operation == operation.name
            &&& record.server == operation.server
            &&& record.tool == operation.tool
            &&& event is Started <==> record.phase is Started
            &&& event is IntervalElapsed <==> record.phase is StillPending
            &&& event is Completed <==> record.phase is Finished
            &&& event matches WaitEvent::IntervalElapsed { elapsed } ==> (time::duration_nanos(
                elapsed,
            ) <= u128::MAX ==> {
                let millis = record.phase->StillPending_elapsed_ms;
                millis * 1_000_000 <= time::duration_nanos(elapsed) < (millis + 1) * 1_000_000
            })
            &&& event matches WaitEvent::Completed { elapsed, .. } ==> (time::duration_nanos(
                elapsed,
            ) <= u128::MAX ==> {
                let millis = record.phase->Finished_elapsed_ms;
                millis * 1_000_000 <= time::duration_nanos(elapsed) < (millis + 1) * 1_000_000
            })
        }),
{
    match event {
        WaitEvent::Started => {},
        WaitEvent::IntervalElapsed { elapsed } => time::law_whole_units_fit(elapsed),
        WaitEvent::Completed { elapsed, .. } => time::law_whole_units_fit(elapsed),
    }
}

/// Each id is the one before plus 1, and only the last one is followed by 0.
pub proof fn law_following_id_is_the_next_number(id: u64)
    ensures
        id < u64::MAX ==> following_id(id) == id + 1,
        following_id(id) == 0 <==> id == u64::MAX,
{
}

/// A traced operation is waited for in intervals of thirty seconds until it
/// completes, and its end has no interval to wait for.
pub proof fn law_traced_wait_lasts_thirty_seconds<T>(event: WaitEvent<T>, interval: Duration)
    requires
        time::lasts_secs(interval, PENDING_REPORT_INTERVAL_SECS as nat),
    ensures
        event is Completed <==> next_interval(wait_step(interval, event)) is None,
        next_interval(wait_step(interval, event)) matches Some(wait) ==> time::duration_nanos(wait)
            == 30_000_000_000,
{
}

} // verus!
