//! The connect state machine: from a requested destination to the node that
//! relays the connection.
//!
//! The machine decides; it performs no lookup and opens no socket. Each
//! decision ends in an [`Action`] that tells the caller what to do next, and
//! the caller reports the outcome as an [`Event`]. A destination that carries
//! a country hint goes straight to the choice of a node; any other domain
//! name is looked up first, and the addresses found are classified by
//! country; a literal address is classified at once.
use vstd::prelude::*;
use crate::address::{IpAddress, SocketAddress};
use crate::country::{country_hash, country_hash_spec};
use crate::database::{Database, DatabaseView};

verus! {

/// The byte that separates the labels of a domain name.
pub const LABEL_SEPARATOR: u8 = 46;

/// Where a client wants to be connected to.
#[derive(Debug)]
pub enum Destination {
    /// A domain name, as the bytes that the client sent.
    Domain(Vec<u8>),
    /// A literal address.
    Ip(IpAddress),
}

/// Why a connection could not be made.
#[derive(Clone, Copy, Debug, PartialEq, Eq, Structural)]
pub enum ConnectFailure {
    /// The lookup of the domain name failed.
    Resolution,
    /// No country could be derived from the addresses.
    Classification,
    /// No candidate node of the country can be dialed.
    Routing,
    /// The connection to the chosen node failed.
    Connect,
}

/// The stage that a connection attempt has reached.
#[derive(Clone, Copy, Debug, PartialEq, Eq, Structural)]
pub enum State {
    /// The lookup of the domain name is under way.
    Resolving,
    /// The classification of the addresses is under way.
    ClassifyingIp,
    /// The country is known; a node has to be chosen for its slot.
    SelectingProxy(usize),
    /// The connection to the address of the chosen node is under way.
    Connecting(u8, SocketAddress),
    /// The connection stands.
    Done,
    /// The attempt has failed.
    Failed(ConnectFailure),
}

/// What the caller reports to the machine.
#[derive(Debug)]
pub enum Event {
    /// Nothing happened outside; the machine is asked to go on.
    Wake,
    /// The lookup gave these addresses.
    Resolved(Vec<IpAddress>),
    /// The lookup failed.
    ResolveFailed,
    /// The classification gave, for each address in turn, the two letters of
    /// its country in lower case, or nothing.
    Classified(Vec<Option<(u8, u8)>>),
    /// The connection stands.
    Connected,
    /// The connection could not be made.
    ConnectFailed,
}

/// What the machine asks the caller to do.
#[derive(Debug)]
pub enum Action {
    /// Look this name up and report `Resolved` or `ResolveFailed`.
    Lookup(Vec<u8>),
    /// Classify these addresses by country and report `Classified`.
    Classify(Vec<IpAddress>),
    /// Connect to this address of this node and report `Connected` or
    /// `ConnectFailed`.
    Connect(u8, SocketAddress),
    /// Nothing new is asked for: report what happens next, or `Wake`.
    Idle,
    /// The attempt has succeeded: the connection is ready for use.
    Ready,
    /// The attempt has failed for this reason.
    Fail(ConnectFailure),
}

/// One connection attempt.
#[derive(Debug)]
pub struct Connecter {
    pub state: State,
}

/// A destination with its name as a sequence.
pub enum DestinationView {
    Domain(Seq<u8>),
    Ip(IpAddress),
}

/// An event with its lists as sequences.
pub enum EventView {
    Wake,
    Resolved(Seq<IpAddress>),
    ResolveFailed,
    Classified(Seq<Option<(u8, u8)>>),
    Connected,
    ConnectFailed,
}

/// An action with its lists as sequences.
pub enum ActionView {
    Lookup(Seq<u8>),
    Classify(Seq<IpAddress>),
    Connect(u8, SocketAddress),
    Idle,
    Ready,
    Fail(ConnectFailure),
}

impl View for Destination {
    type V = DestinationView;

    open spec fn view(&self) -> DestinationView {
        match self {
            Destination::Domain(host) => DestinationView::Domain(host@),
            Destination::Ip(ip) => DestinationView::Ip(*ip),
        }
    }
}

impl View for Event {
    type V = EventView;

    open spec fn view(&self) -> EventView {
        match self {
            Event::Wake => EventView::Wake,
            Event::Resolved(ips) => EventView::Resolved(ips@),
            Event::ResolveFailed => EventView::ResolveFailed,
            Event::Classified(codes) => EventView::Classified(codes@),
            Event::Connected => EventView::Connected,
            Event::ConnectFailed => EventView::ConnectFailed,
        }
    }
}

impl View for Action {
    type V = ActionView;

    open spec fn view(&self) -> ActionView {
        match self {
            Action::Lookup(host) => ActionView::Lookup(host@),
            Action::Classify(ips) => ActionView::Classify(ips@),
            Action::Connect(node, address) => ActionView::Connect(*node, *address),
            Action::Idle => ActionView::Idle,
            Action::Ready => ActionView::Ready,
            Action::Fail(failure) => ActionView::Fail(*failure),
        }
    }
}

/// The routing slot that a domain name hints at: the name has more than four
/// bytes, a separator stands third from its end, and its last two bytes are a
/// code with a slot.
pub open spec fn country_hint(host: Seq<u8>) -> Option<usize> {
    if host.len() > 4 && host[host.len() - 3] == LABEL_SEPARATOR {
        country_hash_spec(host[host.len() - 2], host[host.len() - 1])
    } else {
        None
    }
}

/// The slot of the first address whose reported country has one.
pub open spec fn first_known_slot(codes: Seq<Option<(u8, u8)>>) -> Option<usize>
    decreases codes.len(),
{
    if codes.len() == 0 {
        None
    } else {
        match codes[0] {
            Some((first, second)) if country_hash_spec(first, second) is Some => country_hash_spec(
                first,
                second,
            ),
            _ => first_known_slot(codes.drop_first()),
        }
    }
}

/// Where a node is dialed: at the first hop of the proxy chain towards it, if
/// it has one; else at its own SOCKS address, if the node is known and has one.
pub open spec fn dial_address(db: DatabaseView, id: u8) -> Option<SocketAddress> {
    match db.upstream_chain(id as int) {
        Some(chain) if chain.len() > 0 => Some(chain[0]),
        _ => match db.node(id as int) {
            Some(node) => node.socks5_listen_port,
            None => None,
        },
    }
}

/// The first of the candidates that can be dialed, with its address.
pub open spec fn first_dialable(db: DatabaseView, ids: Seq<u8>) -> Option<(u8, SocketAddress)>
    decreases ids.len(),
{
    if ids.len() == 0 {
        None
    } else {
        match dial_address(db, ids[0]) {
            Some(address) => Some((ids[0], address)),
            None => first_dialable(db, ids.drop_first()),
        }
    }
}

/// The node chosen for a slot: the first candidate of the slot that can be
/// dialed.
pub open spec fn select_proxy(db: DatabaseView, slot: usize) -> Option<(u8, SocketAddress)> {
    first_dialable(db, db.candidates(slot as int))
}

/// The state and the action after a node was looked for.
pub open spec fn spec_select(db: DatabaseView, slot: usize) -> (State, ActionView) {
    match select_proxy(db, slot) {
        Some((node, address)) => (State::Connecting(node, address), ActionView::Connect(node, address)),
        None => (State::Failed(ConnectFailure::Routing), ActionView::Fail(ConnectFailure::Routing)),
    }
}

/// The first state of an attempt and the first action asked for.
///
/// A domain name with a country hint needs no lookup: the attempt starts at
/// the choice of a node. Any other domain name is looked up, with a
/// separator put at its end. A literal address is classified as it is.
pub open spec fn spec_start(destination: DestinationView) -> (State, ActionView) {
    match destination {
        DestinationView::Domain(host) => match country_hint(host) {
            Some(slot) => (State::SelectingProxy(slot), ActionView::Idle),
            None => (State::Resolving, ActionView::Lookup(host.push(LABEL_SEPARATOR))),
        },
        DestinationView::Ip(ip) => (State::ClassifyingIp, ActionView::Classify(seq![ip])),
    }
}

/// The next state and the action asked for, given a state and an event.
///
/// Each stage goes on when the outcome of its own action is reported and
/// stays where it is on any other event; the choice of a node waits for
/// nothing and is made on any event. `Done` and `Failed` are final.
pub open spec fn spec_step(state: State, db: DatabaseView, event: EventView) -> (State, ActionView) {
    match state {
        State::Resolving => match event {
            EventView::Resolved(ips) => (State::ClassifyingIp, ActionView::Classify(ips)),
            EventView::ResolveFailed => (
                State::Failed(ConnectFailure::Resolution),
                ActionView::Fail(ConnectFailure::Resolution),
            ),
            _ => (state, ActionView::Idle),
        },
        State::ClassifyingIp => match event {
            EventView::Classified(codes) => match first_known_slot(codes) {
                Some(slot) => spec_select(db, slot),
                None => (
                    State::Failed(ConnectFailure::Classification),
                    ActionView::Fail(ConnectFailure::Classification),
                ),
            },
            _ => (state, ActionView::Idle),
        },
        State::SelectingProxy(slot) => spec_select(db, slot),
        State::Connecting(_, _) => match event {
            EventView::Connected => (State::Done, ActionView::Ready),
            EventView::ConnectFailed => (
                State::Failed(ConnectFailure::Connect),
                ActionView::Fail(ConnectFailure::Connect),
            ),
            _ => (state, ActionView::Idle),
        },
        State::Done => (state, ActionView::Ready),
        State::Failed(failure) => (state, ActionView::Fail(failure)),
    }
}

/// The actions that a run of events draws from the machine, one per event.
pub open spec fn spec_run(state: State, db: DatabaseView, events: Seq<EventView>) -> Seq<ActionView>
    decreases events.len(),
{
    if events.len() == 0 {
        Seq::empty()
    } else {
        let (next, action) = spec_step(state, db, events[0]);
        seq![action] + spec_run(next, db, events.drop_first())
    }
}

/// The whole conversation of an attempt: the first action, then the actions
/// that the events draw.
pub open spec fn spec_attempt(
    destination: DestinationView,
    db: DatabaseView,
    events: Seq<EventView>,
) -> Seq<ActionView> {
    let (state, action) = spec_start(destination);
    seq![action] + spec_run(state, db, events)
}

/// How many lookups a sequence of actions asks for.
pub open spec fn lookups(actions: Seq<ActionView>) -> nat
    decreases actions.len(),
{
    if actions.len() == 0 {
        0
    } else if actions[0] is Lookup {
        1 + lookups(actions.drop_first())
    } else {
        lookups(actions.drop_first())
    }
}

/// The slot that a domain name hints at, if it hints at one.
pub fn hinted_slot(host: &[u8]) -> (slot: Option<usize>)
    ensures
        slot == country_hint(host@),
{
    let n = host.len();
    if n > 4 && host[n - 3] == LABEL_SEPARATOR {
        country_hash(&[host[n - 2], host[n - 1]])
    } else {
        None
    }
}

/// The slot of the first address whose reported country has one.
pub fn classify(codes: &[Option<(u8, u8)>]) -> (slot: Option<usize>)
    ensures
        slot == first_known_slot(codes@),
{
    let mut i: usize = 0;
    assert(codes@.skip(0) == codes@);
    while i < codes.len()
        invariant
            0 <= i <= codes.len(),
            first_known_slot(codes@.skip(i as int)) == first_known_slot(codes@),
        decreases codes.len() - i,
    {
        assert(codes@.skip(i as int)[0] == codes@[i as int]);
        assert(codes@.skip(i as int).drop_first() == codes@.skip(i + 1));
        match codes[i] {
            Some((first, second)) => {
                let slot = country_hash(&[first, second]);
                if slot.is_some() {
                    return slot;
                }
            },
            None => {},
        }
        i += 1;
    }
    None
}

/// Where a node is dialed, if it can be dialed.
pub fn dial_address_of(db: &Database, id: u8) -> (address: Option<SocketAddress>)
    ensures
        address == dial_address(db@, id),
{
    match db.upstream_chain_for(id) {
        Some(chain) => {
            if chain.len() > 0 {
                return Some(chain[0]);
            }
        },
        None => {},
    }
    match db.node(id) {
        Some(node) => node.socks5_listen_port,
        None => None,
    }
}

/// Chooses the node for a slot: the first candidate that can be dialed.
pub fn select(db: &Database, slot: usize) -> (chosen: Option<(u8, SocketAddress)>)
    ensures
        chosen == select_proxy(db@, slot),
{
    let ids = db.candidates_for(slot);
    let mut i: usize = 0;
    assert(ids@.skip(0) == ids@);
    while i < ids.len()
        invariant
            0 <= i <= ids.len(),
            ids@ == db@.candidates(slot as int),
            first_dialable(db@, ids@.skip(i as int)) == first_dialable(db@, ids@),
        decreases ids.len() - i,
    {
        assert(ids@.skip(i as int)[0] == ids@[i as int]);
        assert(ids@.skip(i as int).drop_first() == ids@.skip(i + 1));
        match dial_address_of(db, ids[i]) {
            Some(address) => {
                return Some((ids[i], address));
            },
            None => {},
        }
        i += 1;
    }
    None
}

/// Starts an attempt: classifies the destination and says what to do first.
pub fn resolve_connect(addr: &Destination) -> (started: (Connecter, Action))
    ensures
        (started.0.state, started.1@) == spec_start(addr@),
{
    match addr {
        Destination::Domain(host) => match hinted_slot(host.as_slice()) {
            Some(slot) => (Connecter { state: State::SelectingProxy(slot) }, Action::Idle),
            None => {
                let mut name: Vec<u8> = Vec::new();
                let mut i: usize = 0;
                while i < host.len()
                    invariant
                        0 <= i <= host.len(),
                        name@ == host@.take(i as int),
                    decreases host.len() - i,
                {
                    name.push(host[i]);
                    assert(host@.take(i + 1) == host@.take(i as int).push(host@[i as int]));
                    i += 1;
                }
                assert(host@.take(host.len() as int) == host@);
                name.push(LABEL_SEPARATOR);
                (Connecter { state: State::Resolving }, Action::Lookup(name))
            },
        },
        Destination::Ip(ip) => {
            let ips = vec![*ip];
            assert(ips@ =~= seq![*ip]);
            (Connecter { state: State::ClassifyingIp }, Action::Classify(ips))
        },
    }
}

impl Connecter {
    /// Looks for a node of the slot and goes on to the connection, or fails.
    fn pick_node(&mut self, db: &Database, slot: usize) -> (action: Action)
        ensures
            (final(self).state, action@) == spec_select(db@, slot),
    {
        match select(db, slot) {
            Some((node, address)) => {
                self.state = State::Connecting(node, address);
                Action::Connect(node, address)
            },
            None => {
                self.state = State::Failed(ConnectFailure::Routing);
                Action::Fail(ConnectFailure::Routing)
            },
        }
    }

    /// Takes an event and says what to do next.
    pub fn poll(&mut self, db: &Database, event: Event) -> (action: Action)
        ensures
            (final(self).state, action@) == spec_step(old(self).state, db@, event@),
            !(action@ is Lookup),
    {
        match self.state {
            State::Resolving => match event {
                Event::Resolved(ips) => {
                    self.state = State::ClassifyingIp;
                    Action::Classify(ips)
                },
                Event::ResolveFailed => {
                    self.state = State::Failed(ConnectFailure::Resolution);
                    Action::Fail(ConnectFailure::Resolution)
                },
                _ => Action::Idle,
            },
            State::ClassifyingIp => match event {
                Event::Classified(codes) => match classify(codes.as_slice()) {
                    Some(slot) => self.pick_node(db, slot),
                    None => {
                        self.state = State::Failed(ConnectFailure::Classification);
                        Action::Fail(ConnectFailure::Classification)
                    },
                },
                _ => Action::Idle,
            },
            State::SelectingProxy(slot) => self.pick_node(db, slot),
            State::Connecting(_, _) => match event {
                Event::Connected => {
                    self.state = State::Done;
                    Action::Ready
                },
                Event::ConnectFailed => {
                    self.state = State::Failed(ConnectFailure::Connect);
                    Action::Fail(ConnectFailure::Connect)
                },
                _ => Action::Idle,
            },
            State::Done => Action::Ready,
            State::Failed(failure) => Action::Fail(failure),
        }
    }
}

/// How far an attempt has come: the stages in the order in which they are
/// passed, the two final states last.
pub open spec fn stage(state: State) -> nat {
    match state {
        State::Resolving => 0,
        State::ClassifyingIp => 1,
        State::SelectingProxy(_) => 2,
        State::Connecting(_, _) => 3,
        State::Done => 4,
        State::Failed(_) => 4,
    }
}

/// An attempt never goes back to an earlier stage, and a final state stays as
/// it is.
pub proof fn lemma_stages_only_advance(state: State, db: DatabaseView, event: EventView)
    ensures
        stage(spec_step(state, db, event).0) >= stage(state),
        stage(state) == 4 ==> spec_step(state, db, event).0 == state,
{
}

/// No event makes the machine ask for a lookup.
pub proof fn lemma_run_never_looks_up(state: State, db: DatabaseView, events: Seq<EventView>)
    ensures
        lookups(spec_run(state, db, events)) == 0,
    decreases events.len(),
{
    if events.len() > 0 {
        let (next, action) = spec_step(state, db, events[0]);
        lemma_run_never_looks_up(next, db, events.drop_first());
        let run = spec_run(state, db, events);
        assert(run[0] == action);
        assert(run.drop_first() == spec_run(next, db, events.drop_first()));
    }
}

/// Fast path: for a domain name with a recognized country hint, whatever
/// happens afterwards, no lookup is ever asked for.
pub proof fn lemma_hint_skips_lookup(host: Seq<u8>, db: DatabaseView, events: Seq<EventView>)
    requires
        country_hint(host) is Some,
    ensures
        spec_start(DestinationView::Domain(host)).0 == State::SelectingProxy(
            country_hint(host).unwrap(),
        ),
        lookups(spec_attempt(DestinationView::Domain(host), db, events)) == 0,
{
    let (state, action) = spec_start(DestinationView::Domain(host));
    lemma_run_never_looks_up(state, db, events);
    let attempt = spec_attempt(DestinationView::Domain(host), db, events);
    assert(attempt[0] == action);
    assert(attempt.drop_first() == spec_run(state, db, events));
}

/// Slow path: for a domain name without a recognized country hint, a lookup
/// is asked for exactly once, at the start, for the name with a separator at
/// its end.
pub proof fn lemma_no_hint_looks_up_once(host: Seq<u8>, db: DatabaseView, events: Seq<EventView>)
    requires
        country_hint(host) is None,
    ensures
        spec_attempt(DestinationView::Domain(host), db, events)[0] == ActionView::Lookup(
            host.push(LABEL_SEPARATOR),
        ),
        lookups(spec_attempt(DestinationView::Domain(host), db, events)) == 1,
{
    let (state, action) = spec_start(DestinationView::Domain(host));
    lemma_run_never_looks_up(state, db, events);
    let attempt = spec_attempt(DestinationView::Domain(host), db, events);
    assert(attempt[0] == action);
    assert(attempt.drop_first() == spec_run(state, db, events));
}

/// Literal address: the address is classified as it is, and no lookup is
/// ever asked for.
pub proof fn lemma_literal_address_skips_lookup(
    ip: IpAddress,
    db: DatabaseView,
    events: Seq<EventView>,
)
    ensures
        spec_attempt(DestinationView::Ip(ip), db, events)[0] == ActionView::Classify(seq![ip]),
        lookups(spec_attempt(DestinationView::Ip(ip), db, events)) == 0,
{
    let (state, action) = spec_start(DestinationView::Ip(ip));
    lemma_run_never_looks_up(state, db, events);
    let attempt = spec_attempt(DestinationView::Ip(ip), db, events);
    assert(attempt[0] == action);
    assert(attempt.drop_first() == spec_run(state, db, events));
}

} // verus!
