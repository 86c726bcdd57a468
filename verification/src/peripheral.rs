//! One remote peripheral: what is known of it, the attributes announced for
//! it, and where it stands in its connection lifecycle.
//!
//! The peripheral owns its state and performs no I/O. Whoever drives it hands
//! in what the notification source delivered and what the command sink
//! replied, and carries out what the results ask for: a command to send, a
//! wait, a wake-up of those who wait.

use vstd::prelude::*;
use vstd::string::*;
use crate::handle::{parse_path, Handle};
use crate::properties::{
    batch_view, blob_len, decode, decoded, merged, PeripheralProperties, PropertiesView, Property,
    PropertyChanges, PropertyChangesView,
};
use crate::ranges::{built, first_from, lemma_first_from, registry_wf};
use crate::registry::{announced, matching, AttributeRegistry, AttributeView};
use crate::state::{
    after_batch, await_connected, awaited, connect_after, connect_step, discovered, in_range,
    reply_view, select_range, ConnectStep, ConnectStepView, DiscoverStep, DiscoverStepView,
    PeripheralState,
};
use crate::text::{is_prefix, starts_with};
use crate::types::{
    address_text, BDAddr, CharPropFlags, Characteristic, Error, ErrorView, TransportError,
    TransportErrorView, BLUEZ_DEST, COMMAND_TIMEOUT_SECS, UUID,
};

verus! {

/// A remote Bluetooth Low Energy device.
#[derive(Debug)]
pub struct Peripheral {
    path: String,
    address: BDAddr,
    properties: PeripheralProperties,
    attributes: AttributeRegistry,
    characteristics: Vec<Characteristic>,
    state: PeripheralState,
    listen_token: Option<usize>,
}

/// The state of a peripheral as plain mathematical values.
pub struct PeripheralView {
    /// The path under which the daemon publishes the device.
    pub path: Seq<char>,
    pub address: BDAddr,
    pub properties: PropertiesView,
    /// The announced attributes, by handle.
    pub attributes: Map<u16, AttributeView>,
    /// The characteristic set as it was last built, by ascending start handle.
    pub characteristics: Seq<Characteristic>,
    pub state: PeripheralState,
    /// The token of the subscription to change notifications, while there is
    /// one.
    pub listen_token: Option<usize>,
}

/// The records stand by strictly ascending start handle.
pub open spec fn is_ordered(characteristics: Seq<Characteristic>) -> bool {
    forall|i: int, j: int|
        0 <= i < j < characteristics.len() ==> (#[trigger] characteristics[i]).start_handle < (
        #[trigger] characteristics[j]).start_handle
}

/// What a batch did to a peripheral.
#[derive(Clone, Copy, Debug, PartialEq, Eq, Structural)]
pub enum ChangeOutcome {
    /// The batch came from a path that is not under the peripheral's own.
    /// Nothing changed.
    Foreign,
    /// The batch came from the path of one of the peripheral's attributes.
    /// Nothing changed.
    Attribute(Handle),
    /// The batch was merged into the peripheral.
    Updated {
        /// Those who wait on the peripheral's state are to be woken.
        wake: bool,
        /// So many invalidated keys came with the batch; none was applied.
        unapplied: usize,
    },
}

/// The peripheral after a batch of changes was merged in: the properties
/// take the batch, the state follows what the batch reports of the connection
/// and then of the services, and where the batch reports the services
/// resolved, the characteristic set is built anew from the attributes.
pub open spec fn updated(p: PeripheralView, changes: PropertyChangesView) -> PeripheralView {
    PeripheralView {
        properties: merged(p.properties, changes),
        characteristics: if changes.services_resolved == Some(true) {
            built(p.attributes)
        } else {
            p.characteristics
        },
        state: after_batch(p.state, changes.connected, changes.services_resolved),
        ..p
    }
}

/// A batch that reports on the connection or on the services wakes those who
/// wait, whatever it reports.
pub open spec fn wakes(changes: PropertyChangesView) -> bool {
    changes.connected is Some || changes.services_resolved is Some
}

/// Where a command goes: the bus name that answers it, the path of the
/// object it is sent to, and how long the reply may take.
#[derive(Debug, PartialEq, Eq)]
pub struct ProxyTarget {
    pub destination: String,
    pub path: String,
    pub timeout_secs: u64,
}

/// A command target with its texts as character sequences.
pub struct ProxyTargetView {
    pub destination: Seq<char>,
    pub path: Seq<char>,
    pub timeout_secs: u64,
}

impl View for ProxyTarget {
    type V = ProxyTargetView;

    open spec fn view(&self) -> ProxyTargetView {
        ProxyTargetView {
            destination: self.destination@,
            path: self.path@,
            timeout_secs: self.timeout_secs,
        }
    }
}

/// The target of a command to the object published under `path`.
pub open spec fn target(path: Seq<char>) -> ProxyTargetView {
    ProxyTargetView { destination: BLUEZ_DEST@, path, timeout_secs: COMMAND_TIMEOUT_SECS }
}

/// The change notifications that a peripheral asks for: those of the object
/// at `path` and, where `path_is_namespace` is set, of every object below it.
#[derive(Debug, PartialEq, Eq)]
pub struct Subscription {
    pub path: String,
    pub path_is_namespace: bool,
}

/// The target of the command that an operation sends for the attribute with
/// the value handle `handle`, or the failure of an operation for which no
/// such attribute is registered.
pub open spec fn attribute_target(
    p: PeripheralView,
    handle: u16,
    operation: Seq<char>,
) -> Result<ProxyTargetView, ErrorView> {
    if p.attributes.contains_key(handle) {
        Ok(target(p.attributes[handle].path))
    } else {
        Err(ErrorView::NotSupported(operation))
    }
}

/// The view of the outcome of an operation that names a command target.
pub open spec fn target_view(r: Result<ProxyTarget, Error>) -> Result<ProxyTargetView, ErrorView> {
    match r {
        Ok(t) => Ok(t@),
        Err(e) => Err(e@),
    }
}

/// What stands for the name of a device whose name is not known.
pub const UNKNOWN_NAME: &'static str = "(unknown)";

/// What follows the name of a device that is connected.
pub const CONNECTED_SUFFIX: &'static str = " connected";

/// One line on a peripheral: its address, a blank, its name or `(unknown)`,
/// and ` connected` where its state is at least `Connected`.
pub open spec fn summarized(p: PeripheralView) -> Seq<char> {
    address_text(p.address) + seq![' '] + (match p.properties.local_name {
        Some(name) => name,
        None => UNKNOWN_NAME@,
    }) + (if p.state.spec_is_connected() {
        CONNECTED_SUFFIX@
    } else {
        Seq::empty()
    })
}

/// The view of the transport's answer to a request to subscribe.
pub open spec fn token_view(r: Result<usize, TransportError>) -> Result<usize, TransportErrorView> {
    match r {
        Ok(token) => Ok(token),
        Err(e) => Err(e@),
    }
}

/// The view of the outcome of an operation that returns no value.
pub open spec fn unit_view(r: Result<(), Error>) -> Result<(), ErrorView> {
    match r {
        Ok(()) => Ok(()),
        Err(e) => Err(e@),
    }
}

/// The target of a read by type: that of the registered attribute with the
/// least handle among those that have the UUID `uuid` and a value handle in
/// the range of `anchor`.
pub open spec fn typed_target(
    p: PeripheralView,
    anchor: Characteristic,
    uuid: UUID,
) -> Result<ProxyTargetView, ErrorView> {
    match first_from(p.attributes, matching(uuid, anchor.start_handle, anchor.end_handle), 0) {
        Some(h) => Ok(target(p.attributes[h].path)),
        None => Err(ErrorView::NotSupported("read_by_type"@)),
    }
}

/// The peripheral after the transport has answered a request to subscribe:
/// a token is kept; a failure changes nothing.
pub open spec fn listening(
    p: PeripheralView,
    registered: Result<usize, TransportErrorView>,
) -> PeripheralView {
    match registered {
        Ok(token) => PeripheralView { listen_token: Some(token), ..p },
        Err(_) => p,
    }
}

/// The peripheral after the transport has answered a request to end the
/// subscription: the token is dropped once the transport has removed the
/// match. Without a subscription there is nothing to end.
pub open spec fn stopped(
    p: PeripheralView,
    removed: Result<(), TransportErrorView>,
) -> PeripheralView {
    if p.listen_token is Some && removed is Ok {
        PeripheralView { listen_token: None, ..p }
    } else {
        p
    }
}

/// What `stop_listening` returns: success where there was no subscription,
/// else what the transport answered.
pub open spec fn stop_result(
    p: PeripheralView,
    removed: Result<(), TransportErrorView>,
) -> Result<(), ErrorView> {
    match removed {
        Err(e) if p.listen_token is Some => Err(ErrorView::Transport(e)),
        _ => Ok(()),
    }
}

impl Peripheral {
    /// The state of the peripheral as plain mathematical values.
    pub closed spec fn view(&self) -> PeripheralView {
        PeripheralView {
            path: self.path@,
            address: self.address,
            properties: self.properties@,
            attributes: self.attributes@,
            characteristics: self.characteristics@,
            state: self.state,
            listen_token: self.listen_token,
        }
    }

    /// The registry is well-formed, the characteristic set is ordered, and
    /// the properties carry the peripheral's address.
    pub closed spec fn wf(&self) -> bool {
        &&& self.attributes.wf()
        &&& is_ordered(self.characteristics@)
        &&& self.properties.address == self.address
    }

    /// What well-formedness says of the view.
    pub proof fn lemma_wf(&self)
        requires
            self.wf(),
        ensures
            registry_wf(self@.attributes),
            is_ordered(self@.characteristics),
            self@.properties.address == self@.address,
    {
        self.attributes.lemma_view_wf();
    }

    /// A peripheral published under `path`, with the address `address`: not
    /// connected, with no attributes and no subscription.
    pub fn new(path: &str, address: BDAddr) -> (p: Peripheral)
        ensures
            p.wf(),
            p@ == (PeripheralView {
                path: path@,
                address,
                properties: PeripheralProperties::initial(address),
                attributes: Map::<u16, AttributeView>::empty(),
                characteristics: Seq::<Characteristic>::empty(),
                state: PeripheralState::NotConnected,
                listen_token: None,
            }),
    {
        Peripheral {
            path: path.to_owned(),
            address,
            properties: PeripheralProperties::new(address),
            attributes: AttributeRegistry::new(),
            characteristics: Vec::new(),
            state: PeripheralState::NotConnected,
            listen_token: None,
        }
    }

    /// Registers an attribute that the daemon has announced under `path`. The
    /// attribute is filed under the handle that `path` names, in place of any
    /// attribute announced for that handle before. A path that names no
    /// handle is refused, and nothing changes.
    pub fn add_attribute(&mut self, path: &str, uuid: UUID, properties: CharPropFlags) -> (r:
        Result<(), Error>)
        requires
            old(self).wf(),
        ensures
            final(self).wf(),
            match parse_path(path@) {
                Some(handle) => r is Ok && final(self)@ == (PeripheralView {
                    attributes: old(self)@.attributes.insert(
                        handle.handle,
                        announced(path@, handle, uuid, properties),
                    ),
                    ..old(self)@
                }),
                None => r matches Err(e) && e@ == ErrorView::InvalidPath && final(self)@ == old(
                    self,
                )@,
            },
    {
        match Handle::parse(path) {
            Ok(handle) => {
                let _ = self.attributes.insert(path, handle, uuid, properties);
                Ok(())
            },
            Err(e) => Err(e),
        }
    }

    /// Builds the characteristic set anew from the attributes registered so
    /// far, in place of the set built before.
    pub fn build_characteristic_ranges(&mut self) -> (r: Result<(), Error>)
        requires
            old(self).wf(),
        ensures
            final(self).wf(),
            r is Ok,
            final(self)@ == (PeripheralView {
                characteristics: built(old(self)@.attributes),
                ..old(self)@
            }),
    {
        self.characteristics = self.attributes.ranges();
        proof {
            crate::ranges::lemma_built_ordered(self.attributes@);
        }
        Ok(())
    }

    /// Merges one batch of reported changes into the peripheral, and says
    /// whether those who wait on its state are to be woken. Only what the
    /// batch holds under the recognized keys, with a value that can be used,
    /// is merged in.
    pub fn update_properties(&mut self, args: &Vec<Property>) -> (wake: bool)
        requires
            old(self).wf(),
            old(self)@.properties.discovery_count < u32::MAX,
        ensures
            final(self).wf(),
            final(self)@ == updated(old(self)@, decoded(batch_view(args@))),
            wake == wakes(decoded(batch_view(args@))),
    {
        let changes = decode(args);
        self.apply(&changes)
    }

    /// Merges what one batch reports into the peripheral, and says whether
    /// those who wait on its state are to be woken.
    pub fn apply(&mut self, changes: &PropertyChanges) -> (wake: bool)
        requires
            old(self).wf(),
            old(self)@.properties.discovery_count < u32::MAX,
            blob_len(changes@) <= isize::MAX,
        ensures
            final(self).wf(),
            final(self)@ == updated(old(self)@, changes@),
            wake == wakes(changes@),
    {
        self.properties.merge(changes);
        let mut wake: bool = false;
        match changes.connected {
            Some(connected) => {
                self.state = self.state.on_connected(connected);
                wake = true;
            },
            None => {},
        }
        match changes.services_resolved {
            Some(resolved) => {
                if resolved {
                    let _ = self.build_characteristic_ranges();
                }
                self.state = self.state.on_services_resolved(resolved);
                wake = true;
            },
            None => {},
        }
        wake
    }

    /// Takes one batch of changes that the notification source delivered for
    /// `path`, with the keys that it reported as invalidated.
    ///
    /// A batch for the peripheral's own path, or for a path under it that
    /// names no attribute, is merged in. A batch for one of the attributes,
    /// and one for a path that is not under the peripheral's, changes
    /// nothing. The invalidated keys are never applied.
    pub fn properties_changed(
        &mut self,
        path: &str,
        args: &Vec<Property>,
        invalidated: &Vec<String>,
    ) -> (outcome: ChangeOutcome)
        requires
            old(self).wf(),
            old(self)@.properties.discovery_count < u32::MAX,
        ensures
            final(self).wf(),
            outcome == observed(
                old(self)@,
                path@,
                decoded(batch_view(args@)),
                invalidated@.len(),
            ),
            final(self)@ == (match outcome {
                ChangeOutcome::Updated { .. } => updated(old(self)@, decoded(batch_view(args@))),
                _ => old(self)@,
            }),
    {
        if !starts_with(path, self.path.as_str()) {
            return ChangeOutcome::Foreign;
        }
        match Handle::parse(path) {
            Ok(handle) => ChangeOutcome::Attribute(handle),
            Err(_) => {
                let wake = self.update_properties(args);
                ChangeOutcome::Updated { wake, unapplied: invalidated.len() }
            },
        }
    }

    /// One line on the peripheral: its address, its name and whether it is
    /// connected.
    pub fn summary(&self) -> (line: String)
        ensures
            line@ == summarized(self@),
    {
        let mut line = self.address.to_text();
        proof {
            reveal_strlit(" ");
        }
        line.append(" ");
        match &self.properties.local_name {
            Some(name) => {
                line.append(name.as_str());
            },
            None => {
                line.append(UNKNOWN_NAME);
            },
        }
        if self.state.is_connected() {
            line.append(CONNECTED_SUFFIX);
        }
        assert(line@ =~= summarized(self@));
        line
    }

    /// The device address.
    pub fn address(&self) -> (a: BDAddr)
        ensures
            a == self@.address,
    {
        self.address
    }

    /// A copy of what is known of the device.
    pub fn properties(&self) -> (p: PeripheralProperties)
        ensures
            p@ == self@.properties,
    {
        self.properties.clone()
    }

    /// A copy of the characteristic set as it was last built, by ascending
    /// start handle.
    pub fn characteristics(&self) -> (set: Vec<Characteristic>)
        ensures
            set@ == self@.characteristics,
    {
        let mut set: Vec<Characteristic> = Vec::new();
        let mut i: usize = 0;
        while i < self.characteristics.len()
            invariant
                i <= self.characteristics.len(),
                set@ == self.characteristics@.take(i as int),
            decreases self.characteristics.len() - i,
        {
            set.push(self.characteristics[i]);
            assert(self.characteristics@.take(i + 1) =~= self.characteristics@.take(i as int).push(
                self.characteristics@[i as int],
            ));
            i += 1;
        }
        assert(self.characteristics@.take(i as int) =~= self.characteristics@);
        set
    }

    /// How many batches of changes have been merged in.
    pub fn discovery_count(&self) -> (count: u32)
        ensures
            count == self@.properties.discovery_count,
    {
        self.properties.discovery_count
    }

    /// Where the peripheral stands in its connection lifecycle.
    pub fn state(&self) -> (state: PeripheralState)
        ensures
            state == self@.state,
    {
        self.state
    }

    /// Whether the device is connected: its state is at least `Connected`.
    pub fn is_connected(&self) -> (yes: bool)
        ensures
            yes == self@.state.spec_is_connected(),
    {
        self.state.is_connected()
    }

    /// The token of the subscription to change notifications, while there is
    /// one.
    pub fn listen_token(&self) -> (token: Option<usize>)
        ensures
            token == self@.listen_token,
    {
        self.listen_token
    }

    /// The notifications to subscribe to: those of the peripheral's own path
    /// and of everything below it.
    pub fn subscription(&self) -> (rule: Subscription)
        ensures
            rule.path@ == self@.path,
            rule.path_is_namespace,
    {
        Subscription { path: self.path.clone(), path_is_namespace: true }
    }

    /// Takes the transport's answer to the request to subscribe to
    /// `subscription()`: keeps the token of a subscription that was made, in
    /// place of any token kept before, and hands on a failure.
    pub fn listen(&mut self, registered: Result<usize, TransportError>) -> (r: Result<(), Error>)
        requires
            old(self).wf(),
        ensures
            final(self).wf(),
            final(self)@ == listening(old(self)@, token_view(registered)),
            unit_view(r) == (match registered {
                Ok(_) => Ok(()),
                Err(e) => Err(ErrorView::Transport(e@)),
            }),
    {
        match registered {
            Ok(token) => {
                self.listen_token = Some(token);
                Ok(())
            },
            Err(e) => Err(Error::Transport(e)),
        }
    }

    /// Takes the transport's answer to the request to remove the match of
    /// `listen_token()`. Without a subscription there is nothing to remove:
    /// the call succeeds, changes nothing and does not look at `removed`.
    /// With one, the token is dropped once the transport has removed the
    /// match; a failure is handed on and the token stays.
    pub fn stop_listening(&mut self, removed: Result<(), TransportError>) -> (r: Result<(), Error>)
        requires
            old(self).wf(),
        ensures
            final(self).wf(),
            final(self)@ == stopped(old(self)@, reply_view(removed)),
            unit_view(r) == stop_result(old(self)@, reply_view(removed)),
    {
        if self.listen_token.is_none() {
            return Ok(());
        }
        match removed {
            Ok(()) => {
                self.listen_token = None;
                Ok(())
            },
            Err(e) => Err(Error::Transport(e)),
        }
    }

    /// The target of the commands to the device itself.
    pub fn proxy(&self) -> (t: ProxyTarget)
        ensures
            t@ == target(self@.path),
    {
        ProxyTarget {
            destination: BLUEZ_DEST.to_owned(),
            path: self.path.clone(),
            timeout_secs: COMMAND_TIMEOUT_SECS,
        }
    }

    /// The target of the commands to the attribute that holds the value of
    /// `characteristic`, if that attribute is registered.
    pub fn proxy_for(&self, characteristic: &Characteristic) -> (t: Option<ProxyTarget>)
        requires
            self.wf(),
        ensures
            match t {
                Some(t) => self@.attributes.contains_key(characteristic.value_handle) && t@
                    == target(self@.attributes[characteristic.value_handle].path),
                None => !self@.attributes.contains_key(characteristic.value_handle),
            },
    {
        match self.attributes.get(characteristic.value_handle) {
            Some(record) => Some(
                ProxyTarget {
                    destination: BLUEZ_DEST.to_owned(),
                    path: record.path.clone(),
                    timeout_secs: COMMAND_TIMEOUT_SECS,
                },
            ),
            None => None,
        }
    }

    /// Decides what a `connect` does once the sink has replied to its connect
    /// command, `elapsed` nanoseconds after the `connect` began.
    pub fn connect(&self, reply: Result<(), TransportError>, elapsed: u64) -> (step: ConnectStep)
        ensures
            step@ == connect_step(self@.state, reply_view(reply), elapsed),
    {
        connect_after(self.state, reply, elapsed)
    }

    /// Decides what a `connect` that was told to wait does when it is woken
    /// or its wait has run out, `elapsed` nanoseconds after it began.
    pub fn await_connected(&self, elapsed: u64) -> (step: ConnectStep)
        ensures
            step@ == awaited(self@.state, elapsed),
    {
        await_connected(self.state, elapsed)
    }

    /// Decides what a discovery of all characteristics does.
    pub fn discover_characteristics(&self) -> (step: DiscoverStep)
        ensures
            step@ == discovered(self@.state, self@.characteristics, 0x0001, 0xFFFF),
    {
        self.discover_characteristics_in_range(0x0001, 0xFFFF)
    }

    /// Decides what a discovery of the characteristics with a value handle
    /// from `start` to `end` does, when it begins and whenever it is woken.
    pub fn discover_characteristics_in_range(&self, start: u16, end: u16) -> (step: DiscoverStep)
        ensures
            step@ == discovered(self@.state, self@.characteristics, start, end),
    {
        match self.state {
            PeripheralState::Connected => DiscoverStep::Wait,
            PeripheralState::NotConnected => DiscoverStep::Finished(Err(Error::NotConnected)),
            PeripheralState::ServicesResolved => DiscoverStep::Finished(
                Ok(select_range(&self.characteristics, start, end)),
            ),
        }
    }

    /// The target of the command that reads the value of `characteristic`.
    pub fn read(&self, characteristic: &Characteristic) -> (r: Result<ProxyTarget, Error>)
        requires
            self.wf(),
        ensures
            target_view(r) == attribute_target(self@, characteristic.value_handle, "read"@),
    {
        match self.proxy_for(characteristic) {
            Some(t) => Ok(t),
            None => Err(Error::NotSupported("read".to_owned())),
        }
    }

    /// The target of the command that writes the value of `characteristic`
    /// without asking for a response.
    pub fn command(&self, characteristic: &Characteristic) -> (r: Result<ProxyTarget, Error>)
        requires
            self.wf(),
        ensures
            target_view(r) == attribute_target(
                self@,
                characteristic.value_handle,
                "write_without_response"@,
            ),
    {
        match self.proxy_for(characteristic) {
            Some(t) => Ok(t),
            None => Err(Error::NotSupported("write_without_response".to_owned())),
        }
    }

    /// The target of the command that reads the value of an attribute with
    /// the UUID `uuid` in the range of `characteristic`.
    pub fn read_by_type(&self, characteristic: &Characteristic, uuid: UUID) -> (r: Result<
        ProxyTarget,
        Error,
    >)
        requires
            self.wf(),
        ensures
            target_view(r) == typed_target(self@, *characteristic, uuid),
    {
        match self.attributes.find(uuid, characteristic.start_handle, characteristic.end_handle) {
            Some(record) => {
                proof {
                    self.attributes.lemma_view_wf();
                    lemma_first_from(
                        self@.attributes,
                        matching(uuid, characteristic.start_handle, characteristic.end_handle),
                        0,
                    );
                }
                self.read(&record.characteristic)
            },
            None => Err(Error::NotSupported("read_by_type".to_owned())),
        }
    }
}

/// What a batch for `path` does to a peripheral: see
/// `Peripheral::properties_changed`.
pub open spec fn observed(
    p: PeripheralView,
    path: Seq<char>,
    changes: PropertyChangesView,
    invalidated: nat,
) -> ChangeOutcome {
    if !is_prefix(p.path, path) {
        ChangeOutcome::Foreign
    } else {
        match parse_path(path) {
            Some(handle) => ChangeOutcome::Attribute(handle),
            None => ChangeOutcome::Updated { wake: wakes(changes), unapplied: invalidated as usize },
        }
    }
}

/// A batch that reports the device as connected lets every `connect` that
/// waits return with success, however long it has waited.
pub proof fn lemma_connected_report_ends_wait(
    p: PeripheralView,
    changes: PropertyChangesView,
    elapsed: u64,
)
    requires
        changes.connected == Some(true),
    ensures
        wakes(changes),
        awaited(updated(p, changes).state, elapsed) == ConnectStepView::Finished(Ok(())),
{
}

/// A batch that reports the device as not connected, and does not report its
/// services resolved, wakes every discovery that waits and makes it fail
/// with `NotConnected`.
pub proof fn lemma_disconnect_report_ends_discovery(
    p: PeripheralView,
    changes: PropertyChangesView,
    start: u16,
    end: u16,
)
    requires
        changes.connected == Some(false),
        changes.services_resolved != Some(true),
    ensures
        wakes(changes),
        discovered(updated(p, changes).state, updated(p, changes).characteristics, start, end)
            == DiscoverStepView::Finished(Err(ErrorView::NotConnected)),
{
}

/// A batch that reports the services resolved lets every discovery that
/// waits return what the attributes registered at that moment imply.
pub proof fn lemma_resolution_ends_discovery(
    p: PeripheralView,
    changes: PropertyChangesView,
    start: u16,
    end: u16,
)
    requires
        changes.services_resolved == Some(true),
    ensures
        wakes(changes),
        discovered(updated(p, changes).state, updated(p, changes).characteristics, start, end)
            == DiscoverStepView::Finished(Ok(built(p.attributes).filter(in_range(start, end)))),
{
}

/// Whatever a batch holds, it raises the discovery counter by one and leaves
/// the path, the address, the attributes and the subscription as they were.
pub proof fn lemma_update_frame(p: PeripheralView, changes: PropertyChangesView)
    requires
        p.properties.discovery_count < u32::MAX,
    ensures
        updated(p, changes).properties.discovery_count == p.properties.discovery_count + 1,
        updated(p, changes).properties.address == p.properties.address,
        updated(p, changes).path == p.path,
        updated(p, changes).address == p.address,
        updated(p, changes).attributes == p.attributes,
        updated(p, changes).listen_token == p.listen_token,
{
}

/// A read by type fails with `NotSupported` where no registered attribute
/// has the UUID and a value handle in the range of the anchor.
pub proof fn lemma_read_by_type_unmatched(p: PeripheralView, anchor: Characteristic, uuid: UUID)
    requires
        forall|h: u16| #[trigger]
            p.attributes.contains_key(h) ==> !(p.attributes[h].characteristic.uuid == uuid
                && anchor.start_handle <= p.attributes[h].characteristic.value_handle
                <= anchor.end_handle),
    ensures
        typed_target(p, anchor, uuid) == Err::<ProxyTargetView, ErrorView>(
            ErrorView::NotSupported("read_by_type"@),
        ),
{
    lemma_first_from(p.attributes, matching(uuid, anchor.start_handle, anchor.end_handle), 0);
}

/// A read by type succeeds where a registered attribute has the UUID and a
/// value handle in the range of the anchor, and its target is such an
/// attribute.
pub proof fn lemma_read_by_type_matched(
    p: PeripheralView,
    anchor: Characteristic,
    uuid: UUID,
    h: u16,
)
    requires
        p.attributes.contains_key(h),
        p.attributes[h].characteristic.uuid == uuid,
        anchor.start_handle <= p.attributes[h].characteristic.value_handle <= anchor.end_handle,
    ensures
        typed_target(p, anchor, uuid) is Ok,
        exists|k: u16|
            k <= h && #[trigger] p.attributes.contains_key(k) && p.attributes[k].characteristic.uuid
                == uuid && anchor.start_handle <= p.attributes[k].characteristic.value_handle
                <= anchor.end_handle && typed_target(p, anchor, uuid) == Ok::<
                ProxyTargetView,
                ErrorView,
            >(target(p.attributes[k].path)),
{
    let test = matching(uuid, anchor.start_handle, anchor.end_handle);
    lemma_first_from(p.attributes, test, 0);
    assert(p.attributes.contains_key(h) && test(p.attributes[h]));
    let k = first_from(p.attributes, test, 0)->0;
    assert(p.attributes.contains_key(k));
}

/// Once `stop_listening` has succeeded, a second call succeeds too and
/// changes nothing, whatever answer it is given.
pub proof fn lemma_stop_listening_idempotent(
    p: PeripheralView,
    first: Result<(), TransportErrorView>,
    second: Result<(), TransportErrorView>,
)
    requires
        stop_result(p, first) is Ok,
    ensures
        stopped(p, first).listen_token is None,
        stop_result(stopped(p, first), second) == Ok::<(), ErrorView>(()),
        stopped(stopped(p, first), second) == stopped(p, first),
{
}

} // verus!
