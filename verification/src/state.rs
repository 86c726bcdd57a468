//! The connection lifecycle of a peripheral, and the decisions of the
//! operations that wait on it.
//!
//! Nothing here blocks. An operation that has to wait says so in its result;
//! its caller waits for the next wake-up, or for the time that the result
//! names, and asks again.

use vstd::prelude::*;
use crate::text::same_text;
use crate::types::{
    Characteristic, Error, ErrorView, TransportError, TransportErrorView, COMMAND_TIMEOUT_SECS,
};

verus! {

/// The name under which the sink reports that the device is connected
/// already.
pub const ALREADY_CONNECTED: &'static str = "org.bluez.Error.AlreadyConnected";

/// The name under which the sink reports that it could not do what was asked.
pub const OPERATION_FAILED: &'static str = "org.bluez.Error.Failed";

/// The time that one `connect` may take, in nanoseconds.
pub const CONNECT_BUDGET_NANOS: u64 = 30_000_000_000;

/// Where a peripheral stands in its connection lifecycle.
#[derive(Clone, Copy, Debug, PartialEq, Eq, Structural, Hash, PartialOrd, Ord)]
pub enum PeripheralState {
    NotConnected,
    Connected,
    ServicesResolved,
}

impl PeripheralState {
    /// The place of a state in the order
    /// `NotConnected < Connected < ServicesResolved`.
    pub open spec fn rank(self) -> int {
        match self {
            PeripheralState::NotConnected => 0,
            PeripheralState::Connected => 1,
            PeripheralState::ServicesResolved => 2,
        }
    }

    /// The state is at least `Connected`.
    pub open spec fn spec_is_connected(self) -> bool {
        self.rank() >= 1
    }

    #[verifier::when_used_as_spec(spec_is_connected)]
    pub fn is_connected(self) -> (yes: bool)
        ensures
            yes == self.spec_is_connected(),
    {
        match self {
            PeripheralState::NotConnected => false,
            _ => true,
        }
    }

    /// The state after the daemon has reported `connected`.
    pub fn on_connected(self, connected: bool) -> (next: PeripheralState)
        ensures
            next == after_connected(self, Some(connected)),
    {
        if !connected {
            PeripheralState::NotConnected
        } else if self == PeripheralState::NotConnected {
            PeripheralState::Connected
        } else {
            self
        }
    }

    /// The state after the daemon has reported `resolved` as the services
    /// being resolved.
    pub fn on_services_resolved(self, resolved: bool) -> (next: PeripheralState)
        ensures
            next == after_resolved(self, Some(resolved)),
    {
        if resolved {
            PeripheralState::ServicesResolved
        } else {
            self
        }
    }
}

/// The state after a batch that reports `connected`, where it reports it: a
/// device reported connected leaves `NotConnected` for `Connected`; a device
/// reported not connected is `NotConnected`, whatever it was.
pub open spec fn after_connected(state: PeripheralState, connected: Option<bool>) -> PeripheralState {
    match connected {
        Some(true) => if state == PeripheralState::NotConnected {
            PeripheralState::Connected
        } else {
            state
        },
        Some(false) => PeripheralState::NotConnected,
        None => state,
    }
}

/// The state after a batch that reports the services resolved, where it
/// reports that: resolved services make the state `ServicesResolved`; a
/// report that they are not resolved changes nothing.
pub open spec fn after_resolved(state: PeripheralState, resolved: Option<bool>) -> PeripheralState {
    match resolved {
        Some(true) => PeripheralState::ServicesResolved,
        _ => state,
    }
}

/// The state after one batch: first what it reports of the connection, then
/// what it reports of the services.
pub open spec fn after_batch(
    state: PeripheralState,
    connected: Option<bool>,
    resolved: Option<bool>,
) -> PeripheralState {
    after_resolved(after_connected(state, connected), resolved)
}

/// A batch never moves the state backwards, but for one that reports the
/// device as not connected.
pub proof fn lemma_transitions_monotonic(
    state: PeripheralState,
    connected: Option<bool>,
    resolved: Option<bool>,
)
    requires
        connected != Some(false),
    ensures
        after_batch(state, connected, resolved).rank() >= state.rank(),
{
}

/// A batch that reports the device as not connected, and nothing of the
/// services, leaves the state `NotConnected`, whatever it was.
pub proof fn lemma_disconnect_resets(state: PeripheralState, resolved: Option<bool>)
    requires
        resolved != Some(true),
    ensures
        after_batch(state, Some(false), resolved) == PeripheralState::NotConnected,
{
}

/// After a batch that reports the device as connected, the state is at least
/// `Connected`.
pub proof fn lemma_connected_report_connects(state: PeripheralState, resolved: Option<bool>)
    ensures
        after_batch(state, Some(true), resolved).spec_is_connected(),
{
}

/// What a `connect` does next.
#[derive(Debug, PartialEq, Eq)]
pub enum ConnectStep {
    /// It returns this result.
    Finished(Result<(), Error>),
    /// It waits for a wake-up, this many nanoseconds at most, and asks again.
    Wait(u64),
}

/// A step of a `connect` with the texts of its failure as character sequences.
pub enum ConnectStepView {
    Finished(Result<(), ErrorView>),
    Wait(u64),
}

impl View for ConnectStep {
    type V = ConnectStepView;

    open spec fn view(&self) -> ConnectStepView {
        match self {
            ConnectStep::Finished(Ok(())) => ConnectStepView::Finished(Ok(())),
            ConnectStep::Finished(Err(e)) => ConnectStepView::Finished(Err(e@)),
            ConnectStep::Wait(nanos) => ConnectStepView::Wait(*nanos),
        }
    }
}

/// What a `connect` whose command the sink has acknowledged does when
/// `elapsed` nanoseconds have passed since it began: it succeeds as soon as
/// the state is at least `Connected`, fails once its budget is spent, and
/// waits for the rest of its budget otherwise.
pub open spec fn awaited(state: PeripheralState, elapsed: u64) -> ConnectStepView {
    if state.spec_is_connected() {
        ConnectStepView::Finished(Ok(()))
    } else if elapsed >= CONNECT_BUDGET_NANOS {
        ConnectStepView::Finished(Err(ErrorView::TimedOut(COMMAND_TIMEOUT_SECS)))
    } else {
        ConnectStepView::Wait((CONNECT_BUDGET_NANOS - elapsed) as u64)
    }
}

/// What a `connect` does with the sink's reply to its command: a sink that
/// reports the device connected already makes it succeed at once, one that
/// reports a failed operation makes it fail with `NotConnected`, any other
/// failure is handed on as it is, and an acknowledged command is followed by
/// the wait for the connection.
pub open spec fn connect_step(
    state: PeripheralState,
    reply: Result<(), TransportErrorView>,
    elapsed: u64,
) -> ConnectStepView {
    match reply {
        Ok(()) => awaited(state, elapsed),
        Err(e) => if e.name == Some(ALREADY_CONNECTED@) {
            ConnectStepView::Finished(Ok(()))
        } else if e.name == Some(OPERATION_FAILED@) {
            ConnectStepView::Finished(Err(ErrorView::NotConnected))
        } else {
            ConnectStepView::Finished(Err(ErrorView::Transport(e)))
        },
    }
}

/// The view of a sink's reply that carries no value.
pub open spec fn reply_view(reply: Result<(), TransportError>) -> Result<(), TransportErrorView> {
    match reply {
        Ok(()) => Ok(()),
        Err(e) => Err(e@),
    }
}

/// Whether a failure carries the category name `name`.
pub fn is_named(e: &TransportError, name: &str) -> (yes: bool)
    ensures
        yes == (e@.name == Some(name@)),
{
    match &e.name {
        Some(n) => same_text(n.as_str(), name),
        None => false,
    }
}

/// Decides the next step of a `connect` that waits for the connection.
pub fn await_connected(state: PeripheralState, elapsed: u64) -> (step: ConnectStep)
    ensures
        step@ == awaited(state, elapsed),
{
    if state.is_connected() {
        ConnectStep::Finished(Ok(()))
    } else if elapsed >= CONNECT_BUDGET_NANOS {
        ConnectStep::Finished(Err(Error::TimedOut(COMMAND_TIMEOUT_SECS)))
    } else {
        ConnectStep::Wait(CONNECT_BUDGET_NANOS - elapsed)
    }
}

/// Decides the next step of a `connect` from the sink's reply to its command.
pub fn connect_after(state: PeripheralState, reply: Result<(), TransportError>, elapsed: u64) -> (step:
    ConnectStep)
    ensures
        step@ == connect_step(state, reply_view(reply), elapsed),
{
    match reply {
        Ok(()) => await_connected(state, elapsed),
        Err(e) => {
            if is_named(&e, ALREADY_CONNECTED) {
                ConnectStep::Finished(Ok(()))
            } else if is_named(&e, OPERATION_FAILED) {
                ConnectStep::Finished(Err(Error::NotConnected))
            } else {
                ConnectStep::Finished(Err(Error::Transport(e)))
            }
        },
    }
}

/// What a discovery does next.
#[derive(Debug, PartialEq, Eq)]
pub enum DiscoverStep {
    /// It returns this result.
    Finished(Result<Vec<Characteristic>, Error>),
    /// It waits for a wake-up, however long that takes, and asks again.
    Wait,
}

/// A step of a discovery with its records as a sequence.
pub enum DiscoverStepView {
    Finished(Result<Seq<Characteristic>, ErrorView>),
    Wait,
}

impl View for DiscoverStep {
    type V = DiscoverStepView;

    open spec fn view(&self) -> DiscoverStepView {
        match self {
            DiscoverStep::Finished(Ok(found)) => DiscoverStepView::Finished(Ok(found@)),
            DiscoverStep::Finished(Err(e)) => DiscoverStepView::Finished(Err(e@)),
            DiscoverStep::Wait => DiscoverStepView::Wait,
        }
    }
}

/// The test "has its value handle from `start` to `end`".
pub open spec fn in_range(start: u16, end: u16) -> spec_fn(Characteristic) -> bool {
    |c: Characteristic| start <= c.value_handle <= end
}

/// What a discovery of the value handles from `start` to `end` does: it waits
/// while the device is connected and its services are not resolved yet, fails
/// where the device is not connected, and otherwise returns those records of
/// the characteristic set whose value handle lies in the range, in the order
/// of the set.
pub open spec fn discovered(
    state: PeripheralState,
    characteristics: Seq<Characteristic>,
    start: u16,
    end: u16,
) -> DiscoverStepView {
    match state {
        PeripheralState::Connected => DiscoverStepView::Wait,
        PeripheralState::NotConnected => DiscoverStepView::Finished(Err(ErrorView::NotConnected)),
        PeripheralState::ServicesResolved => DiscoverStepView::Finished(
            Ok(characteristics.filter(in_range(start, end))),
        ),
    }
}

/// The records of `characteristics` whose value handle lies from `start` to
/// `end`, in their order.
pub fn select_range(characteristics: &Vec<Characteristic>, start: u16, end: u16) -> (found: Vec<
    Characteristic,
>)
    ensures
        found@ == characteristics@.filter(in_range(start, end)),
{
    let mut found: Vec<Characteristic> = Vec::new();
    let mut i: usize = 0;
    proof {
        reveal(Seq::filter);
    }
    while i < characteristics.len()
        invariant
            i <= characteristics.len(),
            found@ == characteristics@.take(i as int).filter(in_range(start, end)),
        decreases characteristics.len() - i,
    {
        let c = characteristics[i];
        proof {
            reveal(Seq::filter);
            assert(characteristics@.take(i + 1).drop_last() =~= characteristics@.take(i as int));
            assert(characteristics@.take(i + 1).last() == c);
        }
        if start <= c.value_handle && c.value_handle <= end {
            found.push(c);
        }
        i += 1;
    }
    assert(characteristics@.take(i as int) =~= characteristics@);
    found
}

/// A `connect` whose sink reports the device connected already succeeds
/// without a wait, whatever the state and however much time has passed.
pub proof fn lemma_already_connected_succeeds(
    state: PeripheralState,
    e: TransportErrorView,
    elapsed: u64,
)
    requires
        e.name == Some(ALREADY_CONNECTED@),
    ensures
        connect_step(state, Err(e), elapsed) == ConnectStepView::Finished(Ok(())),
{
}

/// A `connect` whose sink reports a failed operation fails with
/// `NotConnected`.
pub proof fn lemma_failed_connect_is_not_connected(
    state: PeripheralState,
    e: TransportErrorView,
    elapsed: u64,
)
    requires
        e.name == Some(OPERATION_FAILED@),
    ensures
        connect_step(state, Err(e), elapsed) == ConnectStepView::Finished(
            Err(ErrorView::NotConnected),
        ),
{
    reveal_strlit("org.bluez.Error.AlreadyConnected");
    reveal_strlit("org.bluez.Error.Failed");
    assert(ALREADY_CONNECTED@.len() != OPERATION_FAILED@.len());
}

/// A `connect` that has not seen the device connected when its budget is
/// spent fails with `TimedOut`; before that it waits for exactly the rest of
/// the budget.
pub proof fn lemma_connect_times_out(state: PeripheralState, elapsed: u64)
    requires
        state == PeripheralState::NotConnected,
    ensures
        elapsed >= CONNECT_BUDGET_NANOS ==> awaited(state, elapsed) == ConnectStepView::Finished(
            Err(ErrorView::TimedOut(30)),
        ),
        elapsed < CONNECT_BUDGET_NANOS ==> awaited(state, elapsed) == ConnectStepView::Wait(
            (30_000_000_000 - elapsed) as u64,
        ),
{
}

/// A discovery on a device that is not connected fails with `NotConnected`
/// and does not wait.
pub proof fn lemma_discovery_needs_connection(
    characteristics: Seq<Characteristic>,
    start: u16,
    end: u16,
)
    ensures
        discovered(PeripheralState::NotConnected, characteristics, start, end)
            == DiscoverStepView::Finished(Err(ErrorView::NotConnected)),
{
}

} // verus!
