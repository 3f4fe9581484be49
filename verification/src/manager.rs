//! The live connections to MCP servers.

use compact_str::CompactString;
use std::time::Duration;
use vstd::prelude::*;
use vstd::string::*;

use crate::config::McpServerConfig;
use crate::operation::{McpError, Operation};
use crate::text;

verus! {

/// A live connection to one server. `S` is the service that runs it.
pub struct McpClientHandle<S> {
    pub server_name: CompactString,
    pub running_service: S,
    pub discovery_timeout: Option<Duration>,
    pub tool_timeout: Option<Duration>,
}

/// A tool that a server offers, with what it takes to call it: the peer to
/// send the call to (`P`), the definition that the server gave (`D`), the
/// permission check (`C`) and the way to ask the user (`A`).
pub struct McpTool<P, D, C, A> {
    pub server_name: CompactString,
    pub definition: D,
    pub peer: P,
    pub permission: Option<C>,
    pub ask_tx: Option<A>,
    pub timeout: Option<Duration>,
}

/// How the attempt to connect to one server ended.
pub struct ConnectOutcome<S> {
    pub name: String,
    pub result: Result<McpClientHandle<S>, McpError<String>>,
}

/// What one server answered when asked for its tools.
pub struct ToolListing<P, D, E> {
    pub peer: P,
    pub tools: Result<Vec<D>, McpError<E>>,
}

/// All live connections, and what there is to say about failed ones.
pub struct McpClientManager<S> {
    pub handles: Vec<McpClientHandle<S>>,
    /// Connection failures collected by `connect_all`, to be shown to the user
    /// by whoever draws the screen.
    pub notices: Vec<CompactString>,
}

/// The attempt to connect to the server called `name`.
pub fn connect_operation(name: &str, config: &McpServerConfig) -> (operation: Operation)
    ensures
        operation.name@ == "connect"@,
        operation.server@ == name@,
        operation.tool is None,
        crate::config::is_timeout(operation.deadline, config.configured_secs().0),
{
    Operation::new("connect", name, None, config.connect_timeout())
}

/// The attempt to connect anew to the server called `name`.
pub fn reconnect_operation(name: &str, config: &McpServerConfig) -> (operation: Operation)
    ensures
        operation.name@ == "reconnect"@,
        operation.server@ == name@,
        operation.tool is None,
        crate::config::is_timeout(operation.deadline, config.configured_secs().0),
{
    Operation::new("reconnect", name, None, config.connect_timeout())
}

/// What the user is told of a server that could not be connected to.
pub open spec fn notice_text(name: Seq<char>, error: Seq<char>) -> Seq<char> {
    "MCP server '"@ + name + "' not connected: "@ + error
}

/// What the user is told of a server that could not be connected to.
fn notice(name: &str, error: &str) -> (notice: CompactString)
    ensures
        text::compact_text(notice) == notice_text(name@, error@),
{
    let mut notice = "MCP server '".to_owned();
    notice.append(name);
    notice.append("' not connected: ");
    notice.append(error);
    text::compact(notice.as_str())
}

/// The texts that compact strings hold.
pub open spec fn compact_texts(strings: Seq<CompactString>) -> Seq<Seq<char>> {
    strings.map_values(|string: CompactString| text::compact_text(string))
}

/// The connections among the outcomes, in order.
pub open spec fn connected<S>(outcomes: Seq<ConnectOutcome<S>>) -> Seq<McpClientHandle<S>>
    decreases outcomes.len(),
{
    if outcomes.len() == 0 {
        seq![]
    } else {
        match outcomes.last().result {
            Ok(handle) => connected(outcomes.drop_last()).push(handle),
            Err(_) => connected(outcomes.drop_last()),
        }
    }
}

/// The notices about the failures among the outcomes, in order.
pub open spec fn failure_notices<S>(outcomes: Seq<ConnectOutcome<S>>) -> Seq<Seq<char>>
    decreases outcomes.len(),
{
    if outcomes.len() == 0 {
        seq![]
    } else {
        match outcomes.last().result {
            Ok(_) => failure_notices(outcomes.drop_last()),
            Err(error) => failure_notices(outcomes.drop_last()).push(
                notice_text(outcomes.last().name@, error.spec_message()),
            ),
        }
    }
}

/// The connections to servers not called `name`, in order.
pub open spec fn without_server<S>(handles: Seq<McpClientHandle<S>>, name: Seq<char>) -> Seq<
    McpClientHandle<S>,
> {
    handles.filter(|handle: McpClientHandle<S>| text::compact_text(handle.server_name) != name)
}

/// The connections to the server called `name`, in order.
pub open spec fn only_server<S>(handles: Seq<McpClientHandle<S>>, name: Seq<char>) -> Seq<
    McpClientHandle<S>,
> {
    handles.filter(|handle: McpClientHandle<S>| text::compact_text(handle.server_name) == name)
}

/// The connections after the server called `name` was connected to anew: the
/// old connections to it are gone, the new one comes last.
pub open spec fn reconnected<S>(
    handles: Seq<McpClientHandle<S>>,
    name: Seq<char>,
    handle: McpClientHandle<S>,
) -> Seq<McpClientHandle<S>> {
    without_server(handles, name).push(handle)
}

/// All pending notices were handed out, and none is left.
pub open spec fn notices_taken<S>(
    before: McpClientManager<S>,
    after: McpClientManager<S>,
    taken: Seq<CompactString>,
) -> bool {
    &&& taken == before.notices@
    &&& after.notices@ == Seq::<CompactString>::empty()
}

/// The names of the servers behind connections, in order.
pub open spec fn server_names<S>(handles: Seq<McpClientHandle<S>>) -> Seq<Seq<char>> {
    handles.map_values(|handle: McpClientHandle<S>| text::compact_text(handle.server_name))
}

/// A tool for each definition that the server behind `handle` gave, in order;
/// none where it failed to answer.
pub open spec fn offered_by<S, P, D, C, A, E>(
    handle: McpClientHandle<S>,
    listing: ToolListing<P, D, E>,
    permission: Option<C>,
    ask_tx: Option<A>,
) -> Seq<McpTool<P, D, C, A>> {
    match listing.tools {
        Ok(definitions) => definitions@.map_values(
            |definition: D|
                McpTool {
                    server_name: handle.server_name,
                    definition,
                    peer: listing.peer,
                    permission,
                    ask_tx,
                    timeout: handle.tool_timeout,
                },
        ),
        Err(_) => seq![],
    }
}

/// The tools of all servers, server by server.
pub open spec fn offered<S, P, D, C, A, E>(
    handles: Seq<McpClientHandle<S>>,
    listings: Seq<ToolListing<P, D, E>>,
    permission: Option<C>,
    ask_tx: Option<A>,
) -> Seq<McpTool<P, D, C, A>>
    decreases handles.len(),
{
    if handles.len() == 0 {
        seq![]
    } else {
        offered(handles.drop_last(), listings.drop_last(), permission, ask_tx) + offered_by(
            handles.last(),
            listings.last(),
            permission,
            ask_tx,
        )
    }
}

/// `copy` holds a clone of what `source` holds.
pub open spec fn option_cloned<T: Clone>(source: Option<T>, copy: Option<T>) -> bool {
    match (source, copy) {
        (Some(source), Some(copy)) => cloned(source, copy),
        (None, None) => true,
        _ => false,
    }
}

/// `tool` is `model` with the shared parts cloned.
pub open spec fn is_tool<P: Clone, D, C: Clone, A: Clone>(
    tool: McpTool<P, D, C, A>,
    model: McpTool<P, D, C, A>,
) -> bool {
    &&& text::compact_text(tool.server_name) == text::compact_text(model.server_name)
    &&& tool.definition == model.definition
    &&& cloned(model.peer, tool.peer)
    &&& option_cloned(model.permission, tool.permission)
    &&& option_cloned(model.ask_tx, tool.ask_tx)
    &&& tool.timeout == model.timeout
}

/// `tools` are `models`, one by one, with the shared parts cloned.
pub open spec fn are_tools<P: Clone, D, C: Clone, A: Clone>(
    tools: Seq<McpTool<P, D, C, A>>,
    models: Seq<McpTool<P, D, C, A>>,
) -> bool {
    &&& tools.len() == models.len()
    &&& forall|i: int| 0 <= i < tools.len() ==> is_tool(#[trigger] tools[i], models[i])
}

impl<S> McpClientHandle<S> {
    /// The request for the server's tools.
    pub fn list_tools_operation(&self) -> (operation: Operation)
        ensures
            operation.name@ == "list_tools"@,
            operation.server@ == text::compact_text(self.server_name),
            operation.tool is None,
            operation.deadline == self.discovery_timeout,
    {
        Operation::new("list_tools", self.server_name.as_str(), None, self.discovery_timeout)
    }

    /// The tools that the server behind this connection offers.
    fn tools<P: Clone, D, C: Clone, A: Clone, E>(
        &self,
        listing: ToolListing<P, D, E>,
        permission: &Option<C>,
        ask_tx: &Option<A>,
    ) -> (tools: Vec<McpTool<P, D, C, A>>)
        ensures
            are_tools(tools@, offered_by(*self, listing, *permission, *ask_tx)),
    {
        let mut tools: Vec<McpTool<P, D, C, A>> = Vec::new();
        match listing.tools {
            Ok(definitions) => {
                let ghost models = offered_by(*self, listing, *permission, *ask_tx);
                for definition in it: definitions
                    invariant
                        models.len() == it.seq().len(),
                        tools@.len() == it.index(),
                        forall|i: int|
                            0 <= i < models.len() ==> #[trigger] models[i] == (McpTool {
                                server_name: self.server_name,
                                definition: it.seq()[i],
                                peer: listing.peer,
                                permission: *permission,
                                ask_tx: *ask_tx,
                                timeout: self.tool_timeout,
                            }),
                        forall|i: int|
                            0 <= i < tools@.len() ==> is_tool(#[trigger] tools@[i], models[i]),
                {
                    let tool = McpTool {
                        server_name: self.server_name.clone(),
                        definition,
                        peer: listing.peer.clone(),
                        permission: permission.clone(),
                        ask_tx: ask_tx.clone(),
                        timeout: self.tool_timeout,
                    };
                    assert(is_tool(tool, models[it.index() as int]));
                    tools.push(tool);
                }
            },
            Err(_) => {},
        }
        tools
    }
}

impl<P, D, C, A> McpTool<P, D, C, A> {
    /// A call of this tool, which the server knows as `tool`.
    pub fn call_operation(&self, tool: &str) -> (operation: Operation)
        ensures
            operation.name@ == "call_tool"@,
            operation.server@ == text::compact_text(self.server_name),
            operation.tool is Some && operation.tool->0@ == tool@,
            operation.deadline == self.timeout,
    {
        let operation = Operation::new(
            "call_tool",
            self.server_name.as_str(),
            Some(tool),
            self.timeout,
        );
        assert(crate::operation::optional_text(operation.tool) == Some(tool@));
        operation
    }
}

impl<S> McpClientManager<S> {
    /// The manager after one attempt to connect to each server: the
    /// connections that came about, and a notice for each that did not.
    pub fn connect_all(outcomes: Vec<ConnectOutcome<S>>) -> (manager: Self)
        ensures
            manager.handles@ == connected(outcomes@),
            compact_texts(manager.notices@) == failure_notices(outcomes@),
    {
        let mut handles: Vec<McpClientHandle<S>> = Vec::new();
        let mut notices: Vec<CompactString> = Vec::new();
        for outcome in it: outcomes
            invariant
                handles@ == connected(it.seq().take(it.index() as int)),
                compact_texts(notices@) == failure_notices(it.seq().take(it.index() as int)),
        {
            proof {
                let done = it.seq().take(it.index() as int);
                assert(it.seq().take(it.index() + 1).drop_last() =~= done);
            }
            let ghost before = notices@;
            match outcome.result {
                Ok(handle) => {
                    handles.push(handle);
                },
                Err(error) => {
                    notices.push(notice(outcome.name.as_str(), error.message().as_str()));
                    assert(compact_texts(notices@) =~= compact_texts(before).push(
                        text::compact_text(notices@.last()),
                    ));
                },
            }
        }
        assert(outcomes@.take(outcomes@.len() as int) =~= outcomes@);
        McpClientManager { handles, notices }
    }

    /// Drain and return any pending connection notices.
    pub fn take_notices(&mut self) -> (notices: Vec<CompactString>)
        ensures
            notices_taken(*old(self), *final(self), notices@),
            notices@ == old(self).notices@,
            final(self).notices@.len() == 0,
            final(self).handles@ == old(self).handles@,
    {
        let mut notices: Vec<CompactString> = Vec::new();
        std::mem::swap(&mut notices, &mut self.notices);
        notices
    }

    /// The tools of all connected servers, given what each of them answered.
    /// A server that failed to answer offers none.
    pub fn collect_tools<P: Clone, D, C: Clone, A: Clone, E>(
        &self,
        listings: Vec<ToolListing<P, D, E>>,
        permission: Option<C>,
        ask_tx: Option<A>,
    ) -> (tools: Vec<McpTool<P, D, C, A>>)
        requires
            listings@.len() == self.handles@.len(),
        ensures
            are_tools(tools@, offered(self.handles@, listings@, permission, ask_tx)),
            tools@.len() == definition_count(listings@),
            forall|k: int|
                0 <= k < tools@.len() ==> {
                    &&& (#[trigger] tools@[k]).permission is Some <==> permission is Some
                    &&& permission is Some ==> cloned(permission->0, tools@[k].permission->0)
                    &&& tools@[k].ask_tx is Some <==> ask_tx is Some
                    &&& ask_tx is Some ==> cloned(ask_tx->0, tools@[k].ask_tx->0)
                },
    {
        let mut tools: Vec<McpTool<P, D, C, A>> = Vec::new();
        let servers: usize = self.handles.len();
        let mut next: usize = 0;
        for listing in it: listings
            invariant
                it.seq() == listings@,
                listings@.len() == servers,
                self.handles@.len() == servers,
                next == it.index(),
                are_tools(
                    tools@,
                    offered(
                        self.handles@.take(next as int),
                        listings@.take(next as int),
                        permission,
                        ask_tx,
                    ),
                ),
        {
            assert(self.handles@.take(next + 1).drop_last() =~= self.handles@.take(next as int));
            assert(listings@.take(next + 1).drop_last() =~= listings@.take(next as int));
            let mut more = self.handles[next].tools(listing, &permission, &ask_tx);
            tools.append(&mut more);
            next = next + 1;
        }
        assert(self.handles@.take(next as int) =~= self.handles@);
        assert(listings@.take(next as int) =~= listings@);
        proof {
            law_one_tool_per_definition(self.handles@, listings@, permission, ask_tx);
            assert forall|k: int| 0 <= k < tools@.len() implies {
                &&& (#[trigger] tools@[k]).permission is Some <==> permission is Some
                &&& permission is Some ==> cloned(permission->0, tools@[k].permission->0)
                &&& tools@[k].ask_tx is Some <==> ask_tx is Some
                &&& ask_tx is Some ==> cloned(ask_tx->0, tools@[k].ask_tx->0)
            } by {
                let server = law_every_tool_carries_what_was_passed_in(
                    tools@,
                    self.handles@,
                    listings@,
                    permission,
                    ask_tx,
                    k,
                );
            }
        }
        tools
    }

    /// (Re)connect a single server, replacing any existing handle for it.
    /// Without a new handle everything stays as it was.
    pub fn reconnect<E>(
        &mut self,
        name: &str,
        outcome: Result<McpClientHandle<S>, McpError<E>>,
    ) -> (result: Result<(), McpError<E>>)
        ensures
            match outcome {
                Ok(handle) => {
                    &&& result == Ok::<(), McpError<E>>(())
                    &&& final(self).handles@ == reconnected(old(self).handles@, name@, handle)
                },
                Err(error) => {
                    &&& result == Err::<(), McpError<E>>(error)
                    &&& final(self).handles@ == old(self).handles@
                },
            },
            final(self).notices@ == old(self).notices@,
    {
        match outcome {
            Ok(handle) => {
                self.disconnect(name);
                self.handles.push(handle);
                Ok(())
            },
            Err(error) => Err(error),
        }
    }

    /// Drops every connection to the server called `name`.
    fn disconnect(&mut self, name: &str)
        ensures
            final(self).handles@ == without_server(old(self).handles@, name@),
            final(self).notices@ == old(self).notices@,
    {
        let ghost all = self.handles@;
        let ghost keep = |handle: McpClientHandle<S>|
            text::compact_text(handle.server_name) != name@;
        let ghost mut seen: int = 0;
        let mut kept: usize = 0;
        while kept < self.handles.len()
            invariant
                0 <= seen <= all.len(),
                kept <= self.handles@.len(),
                keep == (|handle: McpClientHandle<S>|
                    text::compact_text(handle.server_name) != name@),
                self.handles@.take(kept as int) == all.take(seen).filter(keep),
                self.handles@.skip(kept as int) == all.skip(seen),
                self.notices@ == old(self).notices@,
            decreases all.len() - seen,
        {
            reveal(Seq::filter);
            let ghost before = self.handles@;
            assert(before.skip(kept as int).len() == all.skip(seen).len());
            assert(before[kept as int] == before.skip(kept as int)[0]);
            assert(all.take(seen + 1).drop_last() =~= all.take(seen));
            assert(all.skip(seen + 1) =~= all.skip(seen).skip(1));
            if text::holds_text(&self.handles[kept].server_name, name) {
                self.handles.remove(kept);
                assert(self.handles@.take(kept as int) =~= before.take(kept as int));
                assert(self.handles@.skip(kept as int) =~= before.skip(kept as int).skip(1));
            } else {
                kept = kept + 1;
                assert(self.handles@.take(kept as int) =~= before.take(kept - 1).push(all[seen]));
                assert(self.handles@.skip(kept as int) =~= before.skip(kept - 1).skip(1));
            }
            proof {
                seen = seen + 1;
            }
        }
        assert(self.handles@.skip(kept as int).len() == all.skip(seen).len());
        assert(all.take(seen) =~= all);
        assert(self.handles@.take(kept as int) =~= self.handles@);
    }

    /// Drops the first connection and says which server it went to; `None`
    /// where no connection is left.
    pub fn disconnect_next(&mut self) -> (disconnected: Option<CompactString>)
        ensures
            match disconnected {
                Some(name) => {
                    &&& old(self).handles@.len() > 0
                    &&& text::compact_text(name) == text::compact_text(
                        old(self).handles@[0].server_name,
                    )
                    &&& final(self).handles@ == old(self).handles@.drop_first()
                },
                None => {
                    &&& old(self).handles@.len() == 0
                    &&& final(self).handles@ == old(self).handles@
                },
            },
            final(self).notices@ == old(self).notices@,
    {
        if self.handles.len() == 0 {
            return None;
        }
        let handle = self.handles.remove(0);
        assert(self.handles@ =~= old(self).handles@.drop_first());
        Some(handle.server_name.clone())
    }

    /// Drops every connection and says which servers they went to, in order.
    pub fn shutdown(self) -> (disconnected: Vec<CompactString>)
        ensures
            compact_texts(disconnected@) == server_names(self.handles@),
    {
        let ghost all = self.handles@;
        let mut rest = self;
        let mut disconnected: Vec<CompactString> = Vec::new();
        loop
            invariant
                all == self.handles@,
                disconnected@.len() <= all.len(),
                rest.handles@ == all.skip(disconnected@.len() as int),
                compact_texts(disconnected@) == server_names(all.take(disconnected@.len() as int)),
            decreases rest.handles@.len(),
        {
            let ghost before = disconnected@;
            match rest.disconnect_next() {
                Some(name) => {
                    disconnected.push(name);
                    assert(compact_texts(disconnected@) =~= compact_texts(before).push(
                        text::compact_text(name),
                    ));
                    assert(server_names(all.take((before.len() + 1) as int)) =~= server_names(
                        all.take(before.len() as int),
                    ).push(text::compact_text(all[before.len() as int].server_name)));
                },
                None => {
                    assert(all.take(before.len() as int) =~= all);
                    return disconnected;
                },
            }
        }
    }
}

/// Every attempt to connect leads to exactly one connection or exactly one
/// notice.
pub proof fn law_every_outcome_is_accounted_for<S>(outcomes: Seq<ConnectOutcome<S>>)
    ensures
        connected(outcomes).len() + failure_notices(outcomes).len() == outcomes.len(),
    decreases outcomes.len(),
{
    if outcomes.len() > 0 {
        law_every_outcome_is_accounted_for(outcomes.drop_last());
    }
}

/// A connection that came about is kept, and a failure is told of, whatever
/// became of the other servers.
pub proof fn law_outcomes_are_independent<S>(outcomes: Seq<ConnectOutcome<S>>, i: int)
    requires
        0 <= i < outcomes.len(),
    ensures
        match outcomes[i].result {
            Ok(handle) => connected(outcomes).contains(handle),
            Err(error) => failure_notices(outcomes).contains(
                notice_text(outcomes[i].name@, error.spec_message()),
            ),
        },
    decreases outcomes.len(),
{
    let earlier = outcomes.drop_last();
    if i < outcomes.len() - 1 {
        law_outcomes_are_independent(earlier, i);
        match outcomes[i].result {
            Ok(handle) => {
                let at = choose|at: int|
                    0 <= at < connected(earlier).len() && connected(earlier)[at] == handle;
                assert(connected(outcomes)[at] == handle);
            },
            Err(error) => {
                let told = notice_text(outcomes[i].name@, error.spec_message());
                let at = choose|at: int|
                    0 <= at < failure_notices(earlier).len() && failure_notices(earlier)[at]
                        == told;
                assert(failure_notices(outcomes)[at] == told);
            },
        }
    } else {
        match outcomes[i].result {
            Ok(handle) => assert(connected(outcomes)[connected(earlier).len() as int] == handle),
            Err(error) => assert(failure_notices(outcomes)[failure_notices(earlier).len() as int]
                == notice_text(outcomes[i].name@, error.spec_message())),
        }
    }
}

/// A server that could not be connected to in time is told of with the seconds
/// that were configured for it.
pub proof fn law_connect_timeout_notice<S>(
    operation: Operation,
    deadline: Duration,
    seconds: u64,
    outcome: ConnectOutcome<S>,
)
    requires
        operation.name@ == "connect"@,
        operation.server@ == outcome.name@,
        operation.tool is None,
        operation.deadline == Some(deadline),
        crate::config::is_timeout(operation.deadline, seconds),
        outcome.result == Err::<McpClientHandle<S>, McpError<String>>(
            McpError::TimedOut(crate::operation::timeout_error(operation, deadline)),
        ),
    ensures
        connected(seq![outcome]).len() == 0,
        failure_notices(seq![outcome]) == seq![
            notice_text(
                outcome.name@,
                crate::operation::timeout_text(
                    "connect"@,
                    outcome.name@,
                    None,
                    seconds as nat,
                ),
            ),
        ],
{
    crate::operation::law_timeout_reports_configured_seconds::<()>(operation, deadline, seconds);
    let outcomes = seq![outcome];
    assert(outcomes.drop_last() =~= Seq::<ConnectOutcome<S>>::empty());
    assert(connected(outcomes.drop_last()).len() == 0);
    assert(failure_notices(outcomes.drop_last()) =~= seq![]);
}

/// Notices are handed out once: after they were taken there is none to take.
pub proof fn law_notices_are_taken_once<S>(
    before: McpClientManager<S>,
    between: McpClientManager<S>,
    after: McpClientManager<S>,
    first: Seq<CompactString>,
    second: Seq<CompactString>,
)
    requires
        notices_taken(before, between, first),
        notices_taken(between, after, second),
    ensures
        first == before.notices@,
        second.len() == 0,
{
}

/// How a filter treats one more element.
proof fn lemma_filter_push<T>(items: Seq<T>, item: T, keep: spec_fn(T) -> bool)
    ensures
        items.push(item).filter(keep) == if keep(item) {
            items.filter(keep).push(item)
        } else {
            items.filter(keep)
        },
{
    reveal(Seq::filter);
    assert(items.push(item).drop_last() =~= items);
}

/// Dropping the connections to one server leaves those to any other.
proof fn lemma_only_after_without<S>(
    handles: Seq<McpClientHandle<S>>,
    name: Seq<char>,
    other: Seq<char>,
)
    ensures
        only_server(without_server(handles, name), other) == if other == name {
            Seq::<McpClientHandle<S>>::empty()
        } else {
            only_server(handles, other)
        },
    decreases handles.len(),
{
    let is_other = |handle: McpClientHandle<S>| text::compact_text(handle.server_name) == other;
    let is_kept = |handle: McpClientHandle<S>| text::compact_text(handle.server_name) != name;
    if handles.len() == 0 {
        reveal(Seq::filter);
    } else {
        let earlier = handles.drop_last();
        let last = handles.last();
        lemma_only_after_without(earlier, name, other);
        assert(handles =~= earlier.push(last));
        lemma_filter_push(earlier, last, is_kept);
        lemma_filter_push(earlier, last, is_other);
        lemma_filter_push(earlier.filter(is_kept), last, is_other);
    }
}

/// After a server was connected to anew there is exactly one connection to it:
/// the new one.
pub proof fn law_reconnect_leaves_one_handle<S>(
    handles: Seq<McpClientHandle<S>>,
    name: Seq<char>,
    handle: McpClientHandle<S>,
)
    requires
        text::compact_text(handle.server_name) == name,
    ensures
        only_server(reconnected(handles, name, handle), name) == seq![handle],
        reconnected(handles, name, handle).last() == handle,
{
    let is_named = |handle: McpClientHandle<S>| text::compact_text(handle.server_name) == name;
    lemma_only_after_without(handles, name, name);
    lemma_filter_push(without_server(handles, name), handle, is_named);
}

/// Connecting to one server anew leaves the connections to all others as they
/// were, in the same order.
pub proof fn law_reconnect_keeps_other_servers<S>(
    handles: Seq<McpClientHandle<S>>,
    name: Seq<char>,
    handle: McpClientHandle<S>,
    other: Seq<char>,
)
    requires
        text::compact_text(handle.server_name) == name,
        other != name,
    ensures
        only_server(reconnected(handles, name, handle), other) == only_server(handles, other),
        without_server(reconnected(handles, name, handle), name) == without_server(handles, name),
{
    let is_other = |handle: McpClientHandle<S>| text::compact_text(handle.server_name) == other;
    lemma_only_after_without(handles, name, other);
    lemma_filter_push(without_server(handles, name), handle, is_other);
    lemma_without_after_reconnect(handles, name, handle);
}

/// Without the server that was connected to anew, the connections are as before.
proof fn lemma_without_after_reconnect<S>(
    handles: Seq<McpClientHandle<S>>,
    name: Seq<char>,
    handle: McpClientHandle<S>,
)
    requires
        text::compact_text(handle.server_name) == name,
    ensures
        without_server(reconnected(handles, name, handle), name) == without_server(handles, name),
{
    let is_kept = |handle: McpClientHandle<S>| text::compact_text(handle.server_name) != name;
    lemma_filter_push(without_server(handles, name), handle, is_kept);
    lemma_filter_twice(handles, is_kept);
}

/// Where one server is connected to anew twice, only the last attempt counts:
/// the connections are those that it alone would have left. Where both new
/// connections bear the server's name, the sequence of server names stays the
/// same, and only the last connection is replaced.
pub proof fn law_last_reconnect_counts<S>(
    handles: Seq<McpClientHandle<S>>,
    name: Seq<char>,
    first: McpClientHandle<S>,
    second: McpClientHandle<S>,
)
    requires
        text::compact_text(first.server_name) == name,
    ensures
        ({
            let once = reconnected(handles, name, first);
            let twice = reconnected(once, name, second);
            &&& twice == reconnected(handles, name, second)
            &&& twice == once.drop_last().push(second)
            &&& text::compact_text(second.server_name) == name ==> server_names(twice)
                == server_names(once)
        }),
{
    let once = reconnected(handles, name, first);
    let twice = reconnected(once, name, second);
    lemma_without_after_reconnect(handles, name, first);
    assert(once.drop_last() =~= without_server(handles, name));
    if text::compact_text(second.server_name) == name {
        assert(server_names(twice) =~= server_names(once));
    }
}

/// What a filter lets through it keeps.
proof fn lemma_filter_keeps<T>(items: Seq<T>, keep: spec_fn(T) -> bool)
    ensures
        forall|i: int|
            0 <= i < items.filter(keep).len() ==> keep(#[trigger] items.filter(keep)[i]),
    decreases items.len(),
{
    if items.len() == 0 {
        reveal(Seq::filter);
    } else {
        let earlier = items.drop_last();
        assert(items =~= earlier.push(items.last()));
        lemma_filter_keeps(earlier, keep);
        lemma_filter_push(earlier, items.last(), keep);
    }
}

/// Filtering again changes nothing.
proof fn lemma_filter_twice<T>(items: Seq<T>, keep: spec_fn(T) -> bool)
    ensures
        items.filter(keep).filter(keep) == items.filter(keep),
    decreases items.len(),
{
    if items.len() == 0 {
        reveal(Seq::filter);
    } else {
        let earlier = items.drop_last();
        assert(items =~= earlier.push(items.last()));
        lemma_filter_twice(earlier, keep);
        lemma_filter_push(earlier, items.last(), keep);
        lemma_filter_push(earlier.filter(keep), items.last(), keep);
    }
}

/// How many tool definitions the servers gave, all together.
pub open spec fn definition_count<P, D, E>(listings: Seq<ToolListing<P, D, E>>) -> nat
    decreases listings.len(),
{
    if listings.len() == 0 {
        0
    } else {
        definition_count(listings.drop_last()) + match listings.last().tools {
            Ok(definitions) => definitions@.len(),
            Err(_) => 0,
        }
    }
}

/// There is one tool for each definition that a server gave.
pub proof fn law_one_tool_per_definition<S, P, D, C, A, E>(
    handles: Seq<McpClientHandle<S>>,
    listings: Seq<ToolListing<P, D, E>>,
    permission: Option<C>,
    ask_tx: Option<A>,
)
    requires
        handles.len() == listings.len(),
    ensures
        offered(handles, listings, permission, ask_tx).len() == definition_count(listings),
    decreases handles.len(),
{
    if handles.len() > 0 {
        law_one_tool_per_definition(
            handles.drop_last(),
            listings.drop_last(),
            permission,
            ask_tx,
        );
    }
}

/// A server that fails to list its tools takes nothing away from the others:
/// the tools are those of the remaining servers.
pub proof fn law_failed_listing_is_skipped<S, P, D, C, A, E>(
    handles: Seq<McpClientHandle<S>>,
    listings: Seq<ToolListing<P, D, E>>,
    permission: Option<C>,
    ask_tx: Option<A>,
    failed: int,
)
    requires
        handles.len() == listings.len(),
        0 <= failed < listings.len(),
        listings[failed].tools is Err,
    ensures
        offered(handles, listings, permission, ask_tx) == offered(
            handles.remove(failed),
            listings.remove(failed),
            permission,
            ask_tx,
        ),
    decreases handles.len(),
{
    if failed == handles.len() - 1 {
        assert(handles.remove(failed) =~= handles.drop_last());
        assert(listings.remove(failed) =~= listings.drop_last());
    } else {
        law_failed_listing_is_skipped(
            handles.drop_last(),
            listings.drop_last(),
            permission,
            ask_tx,
            failed,
        );
        assert(handles.remove(failed).drop_last() =~= handles.drop_last().remove(failed));
        assert(listings.remove(failed).drop_last() =~= listings.drop_last().remove(failed));
    }
}

/// Every tool belongs to one of the connected servers: it carries that
/// server's name, its peer and its limit for tool calls, and a definition that
/// the server gave.
pub proof fn law_tools_belong_to_their_servers<S, P, D, C, A, E>(
    handles: Seq<McpClientHandle<S>>,
    listings: Seq<ToolListing<P, D, E>>,
    permission: Option<C>,
    ask_tx: Option<A>,
    k: int,
) -> (i: int)
    requires
        handles.len() == listings.len(),
        0 <= k < offered(handles, listings, permission, ask_tx).len(),
    ensures
        0 <= i < handles.len(),
        ({
            let tool = offered(handles, listings, permission, ask_tx)[k];
            &&& tool.server_name == handles[i].server_name
            &&& tool.timeout == handles[i].tool_timeout
            &&& tool.peer == listings[i].peer
            &&& tool.permission == permission
            &&& tool.ask_tx == ask_tx
            &&& listings[i].tools matches Ok(definitions) && definitions@.contains(tool.definition)
        }),
    decreases handles.len(),
{
    let before = offered(handles.drop_last(), listings.drop_last(), permission, ask_tx);
    if k < before.len() {
        law_tools_belong_to_their_servers(
            handles.drop_last(),
            listings.drop_last(),
            permission,
            ask_tx,
            k,
        )
    } else {
        let definitions = listings.last().tools->Ok_0;
        assert(definitions@[k - before.len()] == offered(handles, listings, permission, ask_tx)[k].definition);
        handles.len() - 1
    }
}

/// After a server was connected to anew, the tools that the new connection
/// offers are available: they come last and bear its name and its limit for
/// tool calls. No earlier tool bears the server's name.
pub proof fn law_tools_after_reconnect<S, P, D, C, A, E>(
    handles: Seq<McpClientHandle<S>>,
    name: Seq<char>,
    handle: McpClientHandle<S>,
    listings: Seq<ToolListing<P, D, E>>,
    permission: Option<C>,
    ask_tx: Option<A>,
)
    requires
        text::compact_text(handle.server_name) == name,
        listings.len() == reconnected(handles, name, handle).len(),
    ensures
        ({
            let all = offered(reconnected(handles, name, handle), listings, permission, ask_tx);
            let new = offered_by(handle, listings.last(), permission, ask_tx);
            let earlier = all.len() - new.len();
            &&& earlier >= 0
            &&& all.skip(earlier) == new
            &&& all.take(earlier) == offered(
                without_server(handles, name),
                listings.drop_last(),
                permission,
                ask_tx,
            )
            &&& forall|k: int|
                0 <= k < earlier ==> text::compact_text((#[trigger] all[k]).server_name) != name
            &&& forall|k: int|
                earlier <= k < all.len() ==> text::compact_text((#[trigger] all[k]).server_name)
                    == name && all[k].timeout == handle.tool_timeout
        }),
{
    let kept = without_server(handles, name);
    let after = reconnected(handles, name, handle);
    let all = offered(after, listings, permission, ask_tx);
    let old_tools = offered(kept, listings.drop_last(), permission, ask_tx);
    let new = offered_by(handle, listings.last(), permission, ask_tx);
    assert(after.drop_last() =~= kept);
    assert(all == old_tools + new);
    assert(all.skip(old_tools.len() as int) =~= new);
    assert(all.take(old_tools.len() as int) =~= old_tools);
    let is_kept = |handle: McpClientHandle<S>| text::compact_text(handle.server_name) != name;
    lemma_filter_keeps(handles, is_kept);
    assert forall|k: int| 0 <= k < old_tools.len() implies text::compact_text(
        (#[trigger] all[k]).server_name,
    ) != name by {
        let i = law_tools_belong_to_their_servers(
            kept,
            listings.drop_last(),
            permission,
            ask_tx,
            k,
        );
        assert(is_kept(handles.filter(is_kept)[i]));
        assert(all[k] == old_tools[k]);
    }
    assert forall|k: int| old_tools.len() <= k < all.len() implies text::compact_text(
        (#[trigger] all[k]).server_name,
    ) == name && all[k].timeout == handle.tool_timeout by {
        assert(all[k] == new[k - old_tools.len()]);
    }
}

/// A notice starts with the fixed words around the server's name and ends with
/// the whole error.
pub proof fn law_notice_names_server_and_error(name: Seq<char>, error: Seq<char>)
    ensures
        ({
            let start = "MCP server '"@ + name + "' not connected: "@;
            let notice = notice_text(name, error);
            &&& notice.len() == start.len() + error.len()
            &&& notice.take(start.len() as int) == start
            &&& notice.skip(start.len() as int) == error
        }),
{
    let start = "MCP server '"@ + name + "' not connected: "@;
    assert(notice_text(name, error).take(start.len() as int) =~= start);
    assert(notice_text(name, error).skip(start.len() as int) =~= error);
}

/// Texts of compact strings, and names of servers, are taken one by one and in
/// order.
pub proof fn law_texts_are_taken_one_by_one<S>(
    strings: Seq<CompactString>,
    handles: Seq<McpClientHandle<S>>,
)
    ensures
        compact_texts(strings).len() == strings.len(),
        forall|i: int|
            0 <= i < strings.len() ==> #[trigger] compact_texts(strings)[i] == text::compact_text(
                strings[i],
            ),
        server_names(handles).len() == handles.len(),
        forall|i: int|
            0 <= i < handles.len() ==> #[trigger] server_names(handles)[i] == text::compact_text(
                handles[i].server_name,
            ),
{
}

/// Attempts to connect are judged one by one and in order: what two groups of
/// attempts give together is what each gives alone, one after the other. One
/// attempt gives its connection and no notice, or no connection and its notice.
pub proof fn law_attempts_are_judged_one_by_one<S>(
    first: Seq<ConnectOutcome<S>>,
    second: Seq<ConnectOutcome<S>>,
    single: ConnectOutcome<S>,
)
    ensures
        connected(first + second) == connected(first) + connected(second),
        failure_notices(first + second) == failure_notices(first) + failure_notices(second),
        single.result matches Ok(handle) ==> connected(seq![single]) == seq![handle]
            && failure_notices(seq![single]).len() == 0,
        single.result matches Err(error) ==> connected(seq![single]).len() == 0
            && failure_notices(seq![single]) == seq![
            notice_text(single.name@, error.spec_message()),
        ],
    decreases second.len(),
{
    assert(seq![single].drop_last() =~= Seq::<ConnectOutcome<S>>::empty());
    assert(connected(Seq::<ConnectOutcome<S>>::empty()) =~= seq![]);
    assert(failure_notices(Seq::<ConnectOutcome<S>>::empty()) =~= seq![]);
    if second.len() == 0 {
        assert(first + second =~= first);
    } else {
        law_attempts_are_judged_one_by_one(first, second.drop_last(), single);
        assert((first + second).drop_last() =~= first + second.drop_last());
        assert((first + second).last() == second.last());
    }
}

/// Connecting to a server anew looks at the connections one by one and in
/// order: each stays exactly where it goes to another server. The new
/// connection follows the ones that stay, whatever its own name.
pub proof fn law_reconnect_judges_connections_one_by_one<S>(
    first: Seq<McpClientHandle<S>>,
    second: Seq<McpClientHandle<S>>,
    single: McpClientHandle<S>,
    name: Seq<char>,
    handle: McpClientHandle<S>,
)
    ensures
        without_server(first + second, name) == without_server(first, name) + without_server(
            second,
            name,
        ),
        only_server(first + second, name) == only_server(first, name) + only_server(second, name),
        text::compact_text(single.server_name) == name ==> without_server(
            seq![single],
            name,
        ).len() == 0 && only_server(seq![single], name) == seq![single],
        text::compact_text(single.server_name) != name ==> without_server(seq![single], name)
            == seq![single] && only_server(seq![single], name).len() == 0,
        reconnected(first, name, handle).len() == without_server(first, name).len() + 1,
        reconnected(first, name, handle).last() == handle,
        reconnected(first, name, handle).drop_last() == without_server(first, name),
{
    let is_named = |handle: McpClientHandle<S>| text::compact_text(handle.server_name) == name;
    let is_other = |handle: McpClientHandle<S>| text::compact_text(handle.server_name) != name;
    let none = Seq::<McpClientHandle<S>>::empty();
    Seq::filter_distributes_over_add(first, second, is_other);
    Seq::filter_distributes_over_add(first, second, is_named);
    assert(none.filter(is_named) =~= none && none.filter(is_other) =~= none) by {
        reveal(Seq::filter);
    }
    assert(seq![single] =~= none.push(single));
    lemma_filter_push(none, single, is_named);
    lemma_filter_push(none, single, is_other);
    assert(reconnected(first, name, handle).drop_last() =~= without_server(first, name));
}

/// Taking the notices hands out all of them and leaves none.
pub proof fn law_taking_hands_out_all_notices<S>(
    before: McpClientManager<S>,
    after: McpClientManager<S>,
    taken: Seq<CompactString>,
)
    requires
        notices_taken(before, after, taken),
    ensures
        taken.len() == before.notices@.len(),
        forall|i: int| 0 <= i < taken.len() ==> #[trigger] taken[i] == before.notices@[i],
        after.notices@.len() == 0,
{
}

/// The definitions of two groups of servers are as many as those of each, added
/// up; one server has as many as it listed, and none where it failed to.
pub proof fn law_definitions_add_up<P, D, E>(
    first: Seq<ToolListing<P, D, E>>,
    second: Seq<ToolListing<P, D, E>>,
    single: ToolListing<P, D, E>,
)
    ensures
        definition_count(first + second) == definition_count(first) + definition_count(second),
        single.tools matches Ok(definitions) ==> definition_count(seq![single])
            == definitions@.len(),
        single.tools is Err ==> definition_count(seq![single]) == 0,
    decreases second.len(),
{
    assert(seq![single].drop_last() =~= Seq::<ToolListing<P, D, E>>::empty());
    assert(definition_count(Seq::<ToolListing<P, D, E>>::empty()) == 0);
    if second.len() == 0 {
        assert(first + second =~= first);
    } else {
        law_definitions_add_up(first, second.drop_last(), single);
        assert((first + second).drop_last() =~= first + second.drop_last());
        assert((first + second).last() == second.last());
    }
}

/// Where the tool of one definition stands among all tools.
proof fn lemma_offered_at<S, P, D, C, A, E>(
    handles: Seq<McpClientHandle<S>>,
    listings: Seq<ToolListing<P, D, E>>,
    permission: Option<C>,
    ask_tx: Option<A>,
    server: int,
    definition: int,
)
    requires
        handles.len() == listings.len(),
        0 <= server < handles.len(),
        listings[server].tools is Ok,
        0 <= definition < listings[server].tools->Ok_0@.len(),
    ensures
        ({
            let at = definition_count(listings.take(server)) + definition;
            &&& 0 <= at < offered(handles, listings, permission, ask_tx).len()
            &&& offered(handles, listings, permission, ask_tx)[at] == offered_by(
                handles[server],
                listings[server],
                permission,
                ask_tx,
            )[definition]
        }),
    decreases handles.len(),
{
    let before = offered(handles.drop_last(), listings.drop_last(), permission, ask_tx);
    if server == handles.len() - 1 {
        assert(listings.take(server) =~= listings.drop_last());
        law_one_tool_per_definition(
            handles.drop_last(),
            listings.drop_last(),
            permission,
            ask_tx,
        );
    } else {
        assert(listings.drop_last().take(server) =~= listings.take(server));
        lemma_offered_at(
            handles.drop_last(),
            listings.drop_last(),
            permission,
            ask_tx,
            server,
            definition,
        );
    }
}

/// Of the tools that are handed out: there is one for each definition that each
/// server listed, in the order of the servers and of their lists, and none
/// besides. It has that definition, the name and the limit for tool calls of
/// that server, and a clone of its peer. It carries a permission check exactly
/// where one was passed in, and a clone of that one; likewise the way to ask
/// the user.
pub proof fn law_collected_tool_carries_everything<S, P: Clone, D, C: Clone, A: Clone, E>(
    tools: Seq<McpTool<P, D, C, A>>,
    handles: Seq<McpClientHandle<S>>,
    listings: Seq<ToolListing<P, D, E>>,
    permission: Option<C>,
    ask_tx: Option<A>,
    server: int,
    definition: int,
)
    requires
        handles.len() == listings.len(),
        are_tools(tools, offered(handles, listings, permission, ask_tx)),
        0 <= server < handles.len(),
        listings[server].tools is Ok,
        0 <= definition < listings[server].tools->Ok_0@.len(),
    ensures
        tools.len() == definition_count(listings),
        ({
            let at = definition_count(listings.take(server)) + definition;
            &&& 0 <= at < tools.len()
            &&& tools[at].definition == listings[server].tools->Ok_0@[definition]
            &&& text::compact_text(tools[at].server_name) == text::compact_text(
                handles[server].server_name,
            )
            &&& tools[at].timeout == handles[server].tool_timeout
            &&& cloned(listings[server].peer, tools[at].peer)
            &&& tools[at].permission is Some <==> permission is Some
            &&& permission is Some ==> cloned(permission->0, tools[at].permission->0)
            &&& tools[at].ask_tx is Some <==> ask_tx is Some
            &&& ask_tx is Some ==> cloned(ask_tx->0, tools[at].ask_tx->0)
        }),
{
    law_one_tool_per_definition(handles, listings, permission, ask_tx);
    lemma_offered_at(handles, listings, permission, ask_tx, server, definition);
    let at = definition_count(listings.take(server)) + definition;
    assert(is_tool(tools[at], offered(handles, listings, permission, ask_tx)[at]));
}

/// Every tool that is handed out carries a permission check, and a way to ask
/// the user, exactly where one was passed in, and a clone of that one.
pub proof fn law_every_tool_carries_what_was_passed_in<S, P: Clone, D, C: Clone, A: Clone, E>(
    tools: Seq<McpTool<P, D, C, A>>,
    handles: Seq<McpClientHandle<S>>,
    listings: Seq<ToolListing<P, D, E>>,
    permission: Option<C>,
    ask_tx: Option<A>,
    k: int,
) -> (server: int)
    requires
        handles.len() == listings.len(),
        are_tools(tools, offered(handles, listings, permission, ask_tx)),
        0 <= k < tools.len(),
    ensures
        0 <= server < handles.len(),
        text::compact_text(tools[k].server_name) == text::compact_text(
            handles[server].server_name,
        ),
        tools[k].timeout == handles[server].tool_timeout,
        cloned(listings[server].peer, tools[k].peer),
        listings[server].tools is Ok,
        listings[server].tools->Ok_0@.contains(tools[k].definition),
        tools[k].permission is Some <==> permission is Some,
        permission is Some ==> cloned(permission->0, tools[k].permission->0),
        tools[k].ask_tx is Some <==> ask_tx is Some,
        ask_tx is Some ==> cloned(ask_tx->0, tools[k].ask_tx->0),
{
    assert(is_tool(tools[k], offered(handles, listings, permission, ask_tx)[k]));
    law_tools_belong_to_their_servers(handles, listings, permission, ask_tx, k)
}

} // verus!
