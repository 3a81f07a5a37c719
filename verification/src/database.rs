//! The topology database: the nodes of the mesh, the proxy chains that lead
//! to them, and the nodes that serve each country.
//!
//! The database is filled once from a configuration and read from then on.
//! What filling does is defined on the mathematical view of the database, as
//! a fold over the entries of the configuration; the executable code is
//! proved to compute that fold.
use vstd::prelude::*;
use crate::address::{
    parse_address_list,
    parse_socket_address,
    spec_parse_address_list,
    spec_parse_socket_address,
    SocketAddress,
};
use crate::config::{entry_texts, find_section, ini_sections, list_entries};
use crate::country::{country_hash, country_hash_spec, MAX_COUNTRY_HASH};
use crate::database_laws::lemma_keys_keep_nodes;
use crate::text::{chars_of, parse_decimal, same_text, spec_parse_decimal};
use std::rc::Rc;
use vstd::slice::slice_subrange;

verus! {

/// Number of node ids. The ids are `0..=254`; 255 stands for "no node" and is
/// never given to a node.
pub const MAX_NODES: usize = 255;

/// Number of routing slots: every slot that a country code can hash to is
/// below it.
pub const SLOT_COUNT: usize = MAX_COUNTRY_HASH - 1;

/// Why a configuration was refused.
#[derive(Clone, Copy, Debug, PartialEq, Eq, Structural)]
pub enum ConfigError {
    /// There is no `[Nodes]` section.
    NoNodesSection,
    /// There is no `[Self]` section.
    NoSelfSection,
    /// A key of `[Nodes]` is not a decimal id between 0 and 254.
    NodeId,
    /// Two entries of `[Nodes]` give the same id, or the id is taken already.
    DuplicateNodeId,
    /// An entry of `[Nodes]` names a section that the configuration lacks.
    NodeSectionMissing,
    /// `Socks5Address` is not a socket address.
    Socks5Address,
    /// `PublicTCP` or `BindTCP` holds something that is not a socket address.
    TcpAddress,
    /// `PublicUDP` or `SocksServerPorts` holds something that is not a socket
    /// address.
    UdpAddress,
    /// A `SocksProxy->` key does not end in a decimal id between 0 and 254.
    ProxyTarget,
    /// A `SocksProxy->` entry holds something that is not a socket address.
    SocksProxyAddress,
    /// `Default` in `[Self]` is not a decimal id between 0 and 254.
    DefaultId,
}

/// The words in which a refusal is reported.
pub open spec fn spec_message(error: ConfigError) -> Seq<char> {
    match error {
        ConfigError::NoNodesSection => "No [Nodes] section in config-file"@,
        ConfigError::NoSelfSection => "No [Self] section in config-file"@,
        ConfigError::NodeId => "Node id is wrong"@,
        ConfigError::DuplicateNodeId => "Node id is used twice"@,
        ConfigError::NodeSectionMissing => "Cannot find node section"@,
        ConfigError::Socks5Address => "Socks5Address is wrong"@,
        ConfigError::TcpAddress => "TCPAddress is wrong"@,
        ConfigError::UdpAddress => "UDPAddress is wrong"@,
        ConfigError::ProxyTarget => "SocksProxy target is wrong"@,
        ConfigError::SocksProxyAddress => "SocksProxy Address is wrong"@,
        ConfigError::DefaultId => "Default node id is wrong"@,
    }
}

impl ConfigError {
    /// The words in which the refusal is reported.
    pub fn message(&self) -> (text: &'static str)
        ensures
            text@ == spec_message(*self),
    {
        match self {
            ConfigError::NoNodesSection => "No [Nodes] section in config-file",
            ConfigError::NoSelfSection => "No [Self] section in config-file",
            ConfigError::NodeId => "Node id is wrong",
            ConfigError::DuplicateNodeId => "Node id is used twice",
            ConfigError::NodeSectionMissing => "Cannot find node section",
            ConfigError::Socks5Address => "Socks5Address is wrong",
            ConfigError::TcpAddress => "TCPAddress is wrong",
            ConfigError::UdpAddress => "UDPAddress is wrong",
            ConfigError::ProxyTarget => "SocksProxy target is wrong",
            ConfigError::SocksProxyAddress => "SocksProxy Address is wrong",
            ConfigError::DefaultId => "Default node id is wrong",
        }
    }
}

/// A peer of the mesh.
#[derive(Debug)]
pub struct Node {
    pub id: u8,
    pub name: String,
    pub probe: Option<String>,
    pub country_code: Option<usize>,
    pub socks5_listen_port: Option<SocketAddress>,
    pub socks_server_ports: Option<Vec<SocketAddress>>,
    pub public_tcp: Option<Vec<SocketAddress>>,
    pub public_udp: Option<Vec<SocketAddress>>,
    pub bind_tcp: Option<Vec<SocketAddress>>,
}

/// The nodes by id, the proxy chain towards each node, and the candidate
/// nodes of each routing slot.
#[derive(Debug)]
pub struct Database {
    pub nodes: Vec<Option<Node>>,
    pub proxy_to: Vec<Option<Vec<SocketAddress>>>,
    pub country_to_nodes: Vec<Option<Vec<u8>>>,
}

/// What a node is, with texts and lists as sequences.
pub struct NodeView {
    pub id: u8,
    pub name: Seq<char>,
    pub probe: Option<Seq<char>>,
    pub country_code: Option<usize>,
    pub socks5_listen_port: Option<SocketAddress>,
    pub socks_server_ports: Option<Seq<SocketAddress>>,
    pub public_tcp: Option<Seq<SocketAddress>>,
    pub public_udp: Option<Seq<SocketAddress>>,
    pub bind_tcp: Option<Seq<SocketAddress>>,
}

/// What a database is, with its tables as sequences.
pub struct DatabaseView {
    pub nodes: Seq<Option<NodeView>>,
    pub proxy_to: Seq<Option<Seq<SocketAddress>>>,
    pub country_to_nodes: Seq<Option<Seq<u8>>>,
}

/// One entry of a section: a key and its value.
pub type Entry = (Seq<char>, Seq<char>);

/// The sections of a configuration by name.
pub type Sections = Map<Seq<char>, Seq<Entry>>;

/// The items of an optional list.
pub open spec fn list_view<T>(list: Option<Vec<T>>) -> Option<Seq<T>> {
    match list {
        Some(items) => Some(items@),
        None => None,
    }
}

/// The characters of an optional text.
pub open spec fn text_view(text: Option<String>) -> Option<Seq<char>> {
    match text {
        Some(t) => Some(t@),
        None => None,
    }
}

/// The view of an optional node.
pub open spec fn node_view(node: Option<Node>) -> Option<NodeView> {
    match node {
        Some(n) => Some(n@),
        None => None,
    }
}

impl View for Node {
    type V = NodeView;

    open spec fn view(&self) -> NodeView {
        NodeView {
            id: self.id,
            name: self.name@,
            probe: text_view(self.probe),
            country_code: self.country_code,
            socks5_listen_port: self.socks5_listen_port,
            socks_server_ports: list_view(self.socks_server_ports),
            public_tcp: list_view(self.public_tcp),
            public_udp: list_view(self.public_udp),
            bind_tcp: list_view(self.bind_tcp),
        }
    }
}

impl View for Database {
    type V = DatabaseView;

    open spec fn view(&self) -> DatabaseView {
        DatabaseView {
            nodes: self.nodes@.map_values(|node: Option<Node>| node_view(node)),
            proxy_to: self.proxy_to@.map_values(|chain: Option<Vec<SocketAddress>>| list_view(chain)),
            country_to_nodes: self.country_to_nodes@.map_values(
                |ids: Option<Vec<u8>>| list_view(ids),
            ),
        }
    }
}

impl DatabaseView {
    /// The tables have their fixed sizes, and a node sits at its own id.
    pub open spec fn wf(self) -> bool {
        &&& self.nodes.len() == MAX_NODES
        &&& self.proxy_to.len() == MAX_NODES
        &&& self.country_to_nodes.len() == SLOT_COUNT
        &&& forall|id: int|
            0 <= id < self.nodes.len() ==> (#[trigger] self.nodes[id] matches Some(node)
                ==> node.id == id)
    }

    /// The candidate nodes of a slot, in the order in which they are tried.
    /// A slot without candidates, or outside the table, has none.
    pub open spec fn candidates(self, slot: int) -> Seq<u8> {
        if 0 <= slot < self.country_to_nodes.len() {
            match self.country_to_nodes[slot] {
                Some(ids) => ids,
                None => Seq::empty(),
            }
        } else {
            Seq::empty()
        }
    }

    /// The proxy chain towards a node, first hop first, if one is configured.
    pub open spec fn upstream_chain(self, id: int) -> Option<Seq<SocketAddress>> {
        if 0 <= id < self.proxy_to.len() {
            self.proxy_to[id]
        } else {
            None
        }
    }

    /// The node with an id, if there is one.
    pub open spec fn node(self, id: int) -> Option<NodeView> {
        if 0 <= id < self.nodes.len() {
            self.nodes[id]
        } else {
            None
        }
    }
}

/// A database without nodes, chains and candidates.
pub open spec fn empty_database() -> DatabaseView {
    DatabaseView {
        nodes: Seq::new(MAX_NODES as nat, |i: int| None),
        proxy_to: Seq::new(MAX_NODES as nat, |i: int| None),
        country_to_nodes: Seq::new(SLOT_COUNT as nat, |i: int| None),
    }
}

/// A node of which only id and name are known.
pub open spec fn bare_node(id: u8, name: Seq<char>) -> NodeView {
    NodeView {
        id,
        name,
        probe: None,
        country_code: None,
        socks5_listen_port: None,
        socks_server_ports: None,
        public_tcp: None,
        public_udp: None,
        bind_tcp: None,
    }
}

/// A node id: decimal digits with a value of at most 254, after an optional
/// plus sign.
pub open spec fn spec_parse_node_id(s: Seq<char>) -> Option<u8> {
    let digits = if s.len() > 0 && s[0] == '+' {
        s.drop_first()
    } else {
        s
    };
    match spec_parse_decimal(digits, 254) {
        Some(n) => Some(n as u8),
        None => None,
    }
}

/// An ASCII letter in lower case, any other ASCII character as it is.
pub open spec fn ascii_lower(c: char) -> u8 {
    if 'A' <= c && c <= 'Z' {
        (c as u8 + 32) as u8
    } else {
        c as u8
    }
}

/// The routing slot of a `Country` value: the value has two ASCII characters
/// which, in lower case, are a code with a slot.
pub open spec fn spec_country_slot(value: Seq<char>) -> Option<usize> {
    if value.len() == 2 && (value[0] as u32) < 128 && (value[1] as u32) < 128 {
        country_hash_spec(ascii_lower(value[0]), ascii_lower(value[1]))
    } else {
        None
    }
}

/// The key names a proxy chain: it starts with `SocksProxy->`.
pub open spec fn is_proxy_key(key: Seq<char>) -> bool {
    let prefix = "SocksProxy->"@;
    prefix.len() <= key.len() && key.take(prefix.len() as int) == prefix
}

/// The node that a proxy key names: what follows `SocksProxy->`, read as a
/// node id.
pub open spec fn spec_proxy_target(key: Seq<char>) -> Option<u8> {
    spec_parse_node_id(key.skip("SocksProxy->"@.len() as int))
}

/// The list with one more id at its end; a missing list counts as empty.
pub open spec fn with_candidate(ids: Option<Seq<u8>>, id: u8) -> Option<Seq<u8>> {
    match ids {
        Some(list) => Some(list.push(id)),
        None => Some(seq![id]),
    }
}

/// What one entry of a node's section does to the node and to the database.
///
/// `Probe` and the address keys fill the node. `Country` with a value that
/// has a slot records the slot and makes the node the last candidate of that
/// slot. A `SocksProxy->` key sets the chain towards the node it names. Any
/// other entry, and a `Country` whose value has no slot, changes nothing.
pub open spec fn spec_apply_key(db: DatabaseView, node: NodeView, key: Seq<char>, value: Seq<char>)
    -> Result<(DatabaseView, NodeView), ConfigError> {
    if key == "Probe"@ {
        Ok((db, NodeView { probe: Some(value), ..node }))
    } else if key == "Socks5Address"@ {
        match spec_parse_socket_address(value) {
            Some(address) => Ok((db, NodeView { socks5_listen_port: Some(address), ..node })),
            None => Err(ConfigError::Socks5Address),
        }
    } else if key == "PublicTCP"@ {
        match spec_parse_address_list(value) {
            Some(list) => Ok((db, NodeView { public_tcp: Some(list), ..node })),
            None => Err(ConfigError::TcpAddress),
        }
    } else if key == "BindTCP"@ {
        match spec_parse_address_list(value) {
            Some(list) => Ok((db, NodeView { bind_tcp: Some(list), ..node })),
            None => Err(ConfigError::TcpAddress),
        }
    } else if key == "PublicUDP"@ {
        match spec_parse_address_list(value) {
            Some(list) => Ok((db, NodeView { public_udp: Some(list), ..node })),
            None => Err(ConfigError::UdpAddress),
        }
    } else if key == "SocksServerPorts"@ {
        match spec_parse_address_list(value) {
            Some(list) => Ok((db, NodeView { socks_server_ports: Some(list), ..node })),
            None => Err(ConfigError::UdpAddress),
        }
    } else if key == "Country"@ {
        match spec_country_slot(value) {
            Some(slot) => Ok(
                (
                    DatabaseView {
                        country_to_nodes: db.country_to_nodes.update(
                            slot as int,
                            with_candidate(db.country_to_nodes[slot as int], node.id),
                        ),
                        ..db
                    },
                    NodeView { country_code: Some(slot), ..node },
                ),
            ),
            None => Ok((db, node)),
        }
    } else if is_proxy_key(key) {
        match spec_proxy_target(key) {
            Some(target) => match spec_parse_address_list(value) {
                Some(list) => Ok(
                    (
                        DatabaseView {
                            proxy_to: db.proxy_to.update(target as int, Some(list)),
                            ..db
                        },
                        node,
                    ),
                ),
                None => Err(ConfigError::SocksProxyAddress),
            },
            None => Err(ConfigError::ProxyTarget),
        }
    } else {
        Ok((db, node))
    }
}

/// The entries of a node's section applied in order, up to the first that is
/// refused.
pub open spec fn spec_apply_keys(db: DatabaseView, node: NodeView, entries: Seq<Entry>) -> Result<
    (DatabaseView, NodeView),
    ConfigError,
>
    decreases entries.len(),
{
    if entries.len() == 0 {
        Ok((db, node))
    } else {
        match spec_apply_key(db, node, entries[0].0, entries[0].1) {
            Ok((next_db, next_node)) => spec_apply_keys(next_db, next_node, entries.drop_first()),
            Err(e) => Err(e),
        }
    }
}

/// A node described by the entries of its section, put in its place in the
/// table of nodes; refused where one of the entries is.
pub open spec fn spec_place_node(db: DatabaseView, id: u8, name: Seq<char>, entries: Seq<Entry>)
    -> Result<DatabaseView, ConfigError> {
    match spec_apply_keys(db, bare_node(id, name), entries) {
        Ok((next, node)) => Ok(
            DatabaseView { nodes: next.nodes.update(id as int, Some(node)), ..next },
        ),
        Err(e) => Err(e),
    }
}

/// What one entry of `[Nodes]` does: the key is the id of a node, the value
/// the name of the section that describes it. The id must be free, the
/// section must exist, and every entry of the section must be accepted; the
/// node then takes its place in the table.
pub open spec fn spec_add_node(db: DatabaseView, sections: Sections, key: Seq<char>, name: Seq<char>)
    -> Result<DatabaseView, ConfigError> {
    match spec_parse_node_id(key) {
        None => Err(ConfigError::NodeId),
        Some(id) => if db.nodes[id as int] is Some {
            Err(ConfigError::DuplicateNodeId)
        } else if !sections.contains_key(name) {
            Err(ConfigError::NodeSectionMissing)
        } else {
            spec_place_node(db, id, name, sections[name])
        },
    }
}

/// The entries of `[Nodes]` applied in order, up to the first that is refused.
pub open spec fn spec_add_nodes(db: DatabaseView, sections: Sections, entries: Seq<Entry>) -> Result<
    DatabaseView,
    ConfigError,
>
    decreases entries.len(),
{
    if entries.len() == 0 {
        Ok(db)
    } else {
        match spec_add_node(db, sections, entries[0].0, entries[0].1) {
            Ok(next) => spec_add_nodes(next, sections, entries.drop_first()),
            Err(e) => Err(e),
        }
    }
}

/// The default node made the only candidate of every slot that has none.
pub open spec fn spec_apply_default(db: DatabaseView, id: u8) -> DatabaseView {
    DatabaseView {
        country_to_nodes: Seq::new(
            db.country_to_nodes.len(),
            |slot: int|
                if db.candidates(slot).len() == 0 {
                    Some(seq![id])
                } else {
                    db.country_to_nodes[slot]
                },
        ),
        ..db
    }
}

/// What one entry of `[Self]` does: `Default` names the default node, any
/// other key is passed over.
pub open spec fn spec_apply_self_key(db: DatabaseView, key: Seq<char>, value: Seq<char>) -> Result<
    DatabaseView,
    ConfigError,
> {
    if key == "Default"@ {
        match spec_parse_node_id(value) {
            Some(id) => Ok(spec_apply_default(db, id)),
            None => Err(ConfigError::DefaultId),
        }
    } else {
        Ok(db)
    }
}

/// The entries of `[Self]` applied in order, up to the first that is refused.
pub open spec fn spec_apply_self(db: DatabaseView, entries: Seq<Entry>) -> Result<
    DatabaseView,
    ConfigError,
>
    decreases entries.len(),
{
    if entries.len() == 0 {
        Ok(db)
    } else {
        match spec_apply_self_key(db, entries[0].0, entries[0].1) {
            Ok(next) => spec_apply_self(next, entries.drop_first()),
            Err(e) => Err(e),
        }
    }
}

/// The database after a configuration was read into it, or the reason why
/// the configuration is refused: first the nodes of `[Nodes]`, then the
/// default of `[Self]`.
pub open spec fn spec_read_config(db: DatabaseView, sections: Sections) -> Result<
    DatabaseView,
    ConfigError,
> {
    if !sections.contains_key("Nodes"@) {
        Err(ConfigError::NoNodesSection)
    } else {
        match spec_add_nodes(db, sections, sections["Nodes"@]) {
            Ok(next) => if !sections.contains_key("Self"@) {
                Err(ConfigError::NoSelfSection)
            } else {
                spec_apply_self(next, sections["Self"@])
            },
            Err(e) => Err(e),
        }
    }
}

/// Reads a node id.
pub fn parse_node_id(s: &[char]) -> (id: Option<u8>)
    ensures
        id == spec_parse_node_id(s@),
{
    let digits = if s.len() > 0 && s[0] == '+' {
        slice_subrange(s, 1, s.len())
    } else {
        s
    };
    assert(s@.subrange(1, s@.len() as int) == s@.drop_first());
    match parse_decimal(digits, 254) {
        Some(n) => Some(n as u8),
        None => None,
    }
}

/// The routing slot that a `Country` value stands for, if it stands for one.
pub fn country_slot(value: &[char]) -> (slot: Option<usize>)
    ensures
        slot == spec_country_slot(value@),
        slot matches Some(s) ==> s < SLOT_COUNT && s != crate::country::ABSENT,
{
    if value.len() != 2 || value[0] as u32 >= 128 || value[1] as u32 >= 128 {
        return None;
    }
    let first = lower(value[0]);
    let second = lower(value[1]);
    country_hash(&[first, second])
}

/// An ASCII character as a byte, a capital letter as its small letter.
fn lower(c: char) -> (byte: u8)
    requires
        (c as u32) < 128,
    ensures
        byte == ascii_lower(c),
{
    if 'A' <= c && c <= 'Z' {
        c as u8 + 32
    } else {
        c as u8
    }
}

/// Tells whether a text is the given word.
fn text_is(text: &[char], word: &str) -> (same: bool)
    ensures
        same == (text@ == word@),
{
    let wanted = chars_of(word);
    same_text(text, wanted.as_slice())
}

/// The node that a key names behind `SocksProxy->`, where the key starts so:
/// `None` for any other key, `Some(None)` where no node id follows.
fn proxy_target(key: &[char]) -> (target: Option<Option<u8>>)
    ensures
        target is Some <==> is_proxy_key(key@),
        target matches Some(id) ==> id == spec_proxy_target(key@),
{
    let prefix = chars_of("SocksProxy->");
    if key.len() < prefix.len() {
        return None;
    }
    let start = slice_subrange(key, 0, prefix.len());
    assert(start@ == key@.take(prefix.len() as int));
    if !same_text(start, prefix.as_slice()) {
        return None;
    }
    let rest = slice_subrange(key, prefix.len(), key.len());
    assert(rest@ == key@.skip(prefix.len() as int));
    Some(parse_node_id(rest))
}

/// A copy of a list.
fn copy_list<T: Copy>(list: &Vec<T>) -> (copy: Vec<T>)
    ensures
        copy@ == list@,
{
    let mut copy: Vec<T> = Vec::new();
    let mut i: usize = 0;
    while i < list.len()
        invariant
            0 <= i <= list.len(),
            copy@ == list@.take(i as int),
        decreases list.len() - i,
    {
        copy.push(list[i]);
        assert(list@.take(i + 1) == list@.take(i as int).push(list@[i as int]));
        i += 1;
    }
    assert(list@.take(list.len() as int) == list@);
    copy
}

/// A copy of an optional list.
fn copy_optional_list<T: Copy>(list: &Option<Vec<T>>) -> (copy: Option<Vec<T>>)
    ensures
        list_view(copy) == list_view(*list),
{
    match list {
        Some(items) => Some(copy_list(items)),
        None => None,
    }
}

/// A copy of a node.
fn copy_node(node: &Node) -> (copy: Node)
    ensures
        copy@ == node@,
{
    Node {
        id: node.id,
        name: node.name.clone(),
        probe: match &node.probe {
            Some(text) => Some(text.clone()),
            None => None,
        },
        country_code: node.country_code,
        socks5_listen_port: node.socks5_listen_port,
        socks_server_ports: copy_optional_list(&node.socks_server_ports),
        public_tcp: copy_optional_list(&node.public_tcp),
        public_udp: copy_optional_list(&node.public_udp),
        bind_tcp: copy_optional_list(&node.bind_tcp),
    }
}

/// Puts one more id at the end of the list of a slot.
fn add_candidate(table: &mut Vec<Option<Vec<u8>>>, slot: usize, id: u8)
    requires
        slot < old(table).len(),
    ensures
        final(table).len() == old(table).len(),
        list_view(final(table)@[slot as int]) == with_candidate(
            list_view(old(table)@[slot as int]),
            id,
        ),
        forall|j: int| 0 <= j < old(table).len() && j != slot ==> final(table)@[j] == old(table)@[j],
{
    match &mut table[slot] {
        Some(ids) => {
            ids.push(id);
        },
        None => {
            table[slot] = Some(vec![id]);
        },
    }
}

/// Applies one entry of a node's section to the node and to the database.
pub fn apply_key(db: Database, node: Node, key: &String, value: &String) -> (out: Result<
    (Database, Node),
    ConfigError,
>)
    requires
        db@.wf(),
    ensures
        match spec_apply_key(db@, node@, key@, value@) {
            Ok((next_db, next_node)) => out matches Ok((d, n)) && d@ == next_db && n@ == next_node
                && d@.wf(),
            Err(e) => out matches Err(err) && err == e,
        },
{
    let mut db = db;
    let mut node = node;
    let key_chars = chars_of(key.as_str());
    let value_chars = chars_of(value.as_str());
    let k = key_chars.as_slice();
    let v = value_chars.as_slice();
    if text_is(k, "Probe") {
        node.probe = Some(value.clone());
    } else if text_is(k, "Socks5Address") {
        match parse_socket_address(v) {
            Some(address) => {
                node.socks5_listen_port = Some(address);
            },
            None => {
                return Err(ConfigError::Socks5Address);
            },
        }
    } else if text_is(k, "PublicTCP") {
        match parse_address_list(v) {
            Some(list) => {
                node.public_tcp = Some(list);
            },
            None => {
                return Err(ConfigError::TcpAddress);
            },
        }
    } else if text_is(k, "BindTCP") {
        match parse_address_list(v) {
            Some(list) => {
                node.bind_tcp = Some(list);
            },
            None => {
                return Err(ConfigError::TcpAddress);
            },
        }
    } else if text_is(k, "PublicUDP") {
        match parse_address_list(v) {
            Some(list) => {
                node.public_udp = Some(list);
            },
            None => {
                return Err(ConfigError::UdpAddress);
            },
        }
    } else if text_is(k, "SocksServerPorts") {
        match parse_address_list(v) {
            Some(list) => {
                node.socks_server_ports = Some(list);
            },
            None => {
                return Err(ConfigError::UdpAddress);
            },
        }
    } else if text_is(k, "Country") {
        match country_slot(v) {
            Some(slot) => {
                let ghost before = db@;
                node.country_code = Some(slot);
                add_candidate(&mut db.country_to_nodes, slot, node.id);
                assert(db@.country_to_nodes =~= before.country_to_nodes.update(
                    slot as int,
                    with_candidate(before.country_to_nodes[slot as int], node.id),
                ));
            },
            None => {},
        }
    } else {
        match proxy_target(k) {
            Some(Some(target)) => match parse_address_list(v) {
                Some(list) => {
                    let ghost before = db@;
                    let ghost chain = list@;
                    db.proxy_to[target as usize] = Some(list);
                    assert(db@.proxy_to =~= before.proxy_to.update(target as int, Some(chain)));
                },
                None => {
                    return Err(ConfigError::SocksProxyAddress);
                },
            },
            Some(None) => {
                return Err(ConfigError::ProxyTarget);
            },
            None => {},
        }
    }
    Ok((db, node))
}

/// Applies the entries of a node's section in order, up to the first that is
/// refused.
pub fn apply_keys(db: Database, node: Node, entries: &Vec<(String, String)>) -> (out: Result<
    (Database, Node),
    ConfigError,
>)
    requires
        db@.wf(),
    ensures
        match spec_apply_keys(db@, node@, entry_texts(entries@)) {
            Ok((next_db, next_node)) => out matches Ok((d, n)) && d@ == next_db && n@ == next_node
                && d@.wf(),
            Err(e) => out matches Err(err) && err == e,
        },
{
    let mut current = db;
    let mut filled = node;
    let mut i: usize = 0;
    assert(entry_texts(entries@).skip(0) == entry_texts(entries@));
    while i < entries.len()
        invariant
            0 <= i <= entries.len(),
            current@.wf(),
            spec_apply_keys(current@, filled@, entry_texts(entries@).skip(i as int))
                == spec_apply_keys(db@, node@, entry_texts(entries@)),
        decreases entries.len() - i,
    {
        proof {
            let rest = entry_texts(entries@).skip(i as int);
            assert(rest[0] == (entries@[i as int].0@, entries@[i as int].1@));
            assert(rest.drop_first() == entry_texts(entries@).skip(i + 1));
        }
        match apply_key(current, filled, &entries[i].0, &entries[i].1) {
            Ok((next_db, next_node)) => {
                current = next_db;
                filled = next_node;
            },
            Err(e) => {
                return Err(e);
            },
        }
        i += 1;
    }
    Ok((current, filled))
}

/// Describes a node by the entries of its section and puts it in its place.
pub fn place_node(db: Database, id: u8, name: &String, entries: &Vec<(String, String)>) -> (out:
    Result<Database, ConfigError>)
    requires
        db@.wf(),
        id < MAX_NODES,
    ensures
        match spec_place_node(db@, id, name@, entry_texts(entries@)) {
            Ok(next) => out matches Ok(d) && d@ == next && d@.wf(),
            Err(e) => out matches Err(err) && err == e,
        },
{
    let node = Node {
        id,
        name: name.clone(),
        probe: None,
        country_code: None,
        socks5_listen_port: None,
        socks_server_ports: None,
        public_tcp: None,
        public_udp: None,
        bind_tcp: None,
    };
    match apply_keys(db, node, entries) {
        Ok((next, node)) => {
            let mut next = next;
            let ghost before = next@;
            let ghost placed = node@;
            proof {
                lemma_keys_keep_nodes(db@, bare_node(id, name@), entry_texts(entries@));
            }
            next.nodes[id as usize] = Some(node);
            assert(next@.nodes =~= before.nodes.update(id as int, Some(placed)));
            Ok(next)
        },
        Err(e) => Err(e),
    }
}

/// Applies one entry of `[Nodes]`: reads the id, looks the section up and
/// places the node.
fn add_node(db: Database, config: &ini::Ini, key: &String, name: &String) -> (out: Result<
    Database,
    ConfigError,
>)
    requires
        db@.wf(),
    ensures
        match spec_add_node(db@, ini_sections(*config), key@, name@) {
            Ok(next) => out matches Ok(d) && d@ == next && d@.wf(),
            Err(e) => out matches Err(err) && err == e,
        },
{
    let key_chars = chars_of(key.as_str());
    let id = match parse_node_id(key_chars.as_slice()) {
        Some(id) => id,
        None => {
            return Err(ConfigError::NodeId);
        },
    };
    if db.nodes[id as usize].is_some() {
        return Err(ConfigError::DuplicateNodeId);
    }
    match find_section(config, name.as_str()) {
        Some(section) => {
            let entries = list_entries(section);
            place_node(db, id, name, &entries)
        },
        None => Err(ConfigError::NodeSectionMissing),
    }
}

/// Applies the entries of `[Nodes]` in order.
fn add_nodes(db: Database, config: &ini::Ini, entries: &Vec<(String, String)>) -> (out: Result<
    Database,
    ConfigError,
>)
    requires
        db@.wf(),
    ensures
        match spec_add_nodes(db@, ini_sections(*config), entry_texts(entries@)) {
            Ok(next) => out matches Ok(d) && d@ == next && d@.wf(),
            Err(e) => out matches Err(err) && err == e,
        },
{
    let mut current = db;
    let mut i: usize = 0;
    assert(entry_texts(entries@).skip(0) == entry_texts(entries@));
    while i < entries.len()
        invariant
            0 <= i <= entries.len(),
            current@.wf(),
            spec_add_nodes(current@, ini_sections(*config), entry_texts(entries@).skip(i as int))
                == spec_add_nodes(db@, ini_sections(*config), entry_texts(entries@)),
        decreases entries.len() - i,
    {
        proof {
            let rest = entry_texts(entries@).skip(i as int);
            assert(rest[0] == (entries@[i as int].0@, entries@[i as int].1@));
            assert(rest.drop_first() == entry_texts(entries@).skip(i + 1));
        }
        match add_node(current, config, &entries[i].0, &entries[i].1) {
            Ok(next) => {
                current = next;
            },
            Err(e) => {
                return Err(e);
            },
        }
        i += 1;
    }
    Ok(current)
}

/// Makes a node the only candidate of every slot that has none.
pub fn apply_default(db: Database, id: u8) -> (out: Database)
    requires
        db@.wf(),
    ensures
        out@ == spec_apply_default(db@, id),
        out@.wf(),
{
    let mut out = db;
    fill_empty_slots(&mut out.country_to_nodes, id);
    assert(out@.country_to_nodes =~= spec_apply_default(db@, id).country_to_nodes);
    out
}

/// Gives every slot without candidates the one candidate `id`.
fn fill_empty_slots(table: &mut Vec<Option<Vec<u8>>>, id: u8)
    ensures
        final(table).len() == old(table).len(),
        forall|j: int|
            0 <= j < old(table).len() ==> list_view(#[trigger] final(table)@[j]) == (match list_view(
                old(table)@[j],
            ) {
                Some(ids) if ids.len() > 0 => Some(ids),
                _ => Some(seq![id]),
            }),
{
    let mut slot: usize = 0;
    while slot < table.len()
        invariant
            0 <= slot <= table.len(),
            table.len() == old(table).len(),
            forall|j: int|
                0 <= j < slot ==> list_view(#[trigger] table@[j]) == (match list_view(
                    old(table)@[j],
                ) {
                    Some(ids) if ids.len() > 0 => Some(ids),
                    _ => Some(seq![id]),
                }),
            forall|j: int| slot <= j < table.len() ==> #[trigger] table@[j] == old(table)@[j],
        decreases table.len() - slot,
    {
        let empty = match &table[slot] {
            Some(ids) => ids.len() == 0,
            None => true,
        };
        if empty {
            table[slot] = Some(vec![id]);
        }
        slot += 1;
    }
}

/// Applies the entries of `[Self]` in order, up to the first that is refused.
pub fn apply_self(db: Database, entries: &Vec<(String, String)>) -> (out: Result<Database, ConfigError>)
    requires
        db@.wf(),
    ensures
        match spec_apply_self(db@, entry_texts(entries@)) {
            Ok(next) => out matches Ok(d) && d@ == next && d@.wf(),
            Err(e) => out matches Err(err) && err == e,
        },
{
    let mut current = db;
    let mut i: usize = 0;
    assert(entry_texts(entries@).skip(0) == entry_texts(entries@));
    while i < entries.len()
        invariant
            0 <= i <= entries.len(),
            current@.wf(),
            spec_apply_self(current@, entry_texts(entries@).skip(i as int)) == spec_apply_self(
                db@,
                entry_texts(entries@),
            ),
        decreases entries.len() - i,
    {
        proof {
            let rest = entry_texts(entries@).skip(i as int);
            assert(rest[0] == (entries@[i as int].0@, entries@[i as int].1@));
            assert(rest.drop_first() == entry_texts(entries@).skip(i + 1));
        }
        let key_chars = chars_of(entries[i].0.as_str());
        if text_is(key_chars.as_slice(), "Default") {
            let value_chars = chars_of(entries[i].1.as_str());
            match parse_node_id(value_chars.as_slice()) {
                Some(id) => {
                    current = apply_default(current, id);
                },
                None => {
                    return Err(ConfigError::DefaultId);
                },
            }
        }
        i += 1;
    }
    Ok(current)
}

impl Database {
    /// The tables have their fixed sizes, and a node sits at its own id.
    pub open spec fn wf(&self) -> bool {
        self@.wf()
    }

    /// A shared database without nodes, chains and candidates.
    pub fn new() -> (db: Rc<Database>)
        ensures
            db@ == empty_database(),
            db.wf(),
    {
        Rc::new(Database::empty())
    }

    /// The database that a configuration describes, ready to be shared; or
    /// the reason why the configuration is refused.
    pub fn build(config: ini::Ini) -> (out: Result<Rc<Database>, ConfigError>)
        ensures
            match spec_read_config(empty_database(), ini_sections(config)) {
                Ok(db) => out matches Ok(built) && built@ == db && built.wf(),
                Err(e) => out matches Err(err) && err == e,
            },
    {
        let mut db = Database::empty();
        match db.read_from_ini(config) {
            Ok(()) => Ok(Rc::new(db)),
            Err(e) => Err(e),
        }
    }

    /// Tells whether the tables have their fixed sizes and every node sits at
    /// its own id.
    pub fn is_well_formed(&self) -> (ok: bool)
        ensures
            ok == self.wf(),
    {
        if self.nodes.len() != MAX_NODES || self.proxy_to.len() != MAX_NODES
            || self.country_to_nodes.len() != SLOT_COUNT {
            return false;
        }
        let mut id: usize = 0;
        while id < self.nodes.len()
            invariant
                0 <= id <= self.nodes.len(),
                self.nodes.len() == MAX_NODES,
                self.proxy_to.len() == MAX_NODES,
                self.country_to_nodes.len() == SLOT_COUNT,
                forall|j: int|
                    0 <= j < id ==> (#[trigger] self@.nodes[j] matches Some(node) ==> node.id == j),
            decreases self.nodes.len() - id,
        {
            assert(self@.nodes[id as int] == node_view(self.nodes@[id as int]));
            match &self.nodes[id] {
                Some(node) => {
                    if node.id as usize != id {
                        return false;
                    }
                },
                None => {},
            }
            id += 1;
        }
        true
    }

    /// A database without nodes, chains and candidates.
    pub fn empty() -> (db: Database)
        ensures
            db@ == empty_database(),
            db.wf(),
    {
        let mut db = Database {
            nodes: Vec::new(),
            proxy_to: Vec::new(),
            country_to_nodes: Vec::new(),
        };
        let mut i: usize = 0;
        while i < MAX_NODES
            invariant
                0 <= i <= MAX_NODES,
                db.nodes.len() == i,
                db.proxy_to.len() == i,
                db.country_to_nodes.len() == 0,
                forall|j: int| 0 <= j < i ==> (#[trigger] db.nodes@[j]) is None,
                forall|j: int| 0 <= j < i ==> (#[trigger] db.proxy_to@[j]) is None,
            decreases MAX_NODES - i,
        {
            db.nodes.push(None);
            db.proxy_to.push(None);
            i += 1;
        }
        let mut slot: usize = 0;
        while slot < SLOT_COUNT
            invariant
                0 <= slot <= SLOT_COUNT,
                db.nodes.len() == MAX_NODES,
                db.proxy_to.len() == MAX_NODES,
                db.country_to_nodes.len() == slot,
                forall|j: int| 0 <= j < MAX_NODES ==> (#[trigger] db.nodes@[j]) is None,
                forall|j: int| 0 <= j < MAX_NODES ==> (#[trigger] db.proxy_to@[j]) is None,
                forall|j: int| 0 <= j < slot ==> (#[trigger] db.country_to_nodes@[j]) is None,
            decreases SLOT_COUNT - slot,
        {
            db.country_to_nodes.push(None);
            slot += 1;
        }
        assert(db@.nodes =~= empty_database().nodes);
        assert(db@.proxy_to =~= empty_database().proxy_to);
        assert(db@.country_to_nodes =~= empty_database().country_to_nodes);
        db
    }

    /// A database of its own with the same contents.
    pub fn duplicate(&self) -> (copy: Database)
        ensures
            copy@ == self@,
    {
        let mut copy = Database {
            nodes: Vec::new(),
            proxy_to: Vec::new(),
            country_to_nodes: Vec::new(),
        };
        let mut i: usize = 0;
        while i < self.nodes.len()
            invariant
                0 <= i <= self.nodes.len(),
                copy.nodes.len() == i,
                copy.proxy_to.len() == 0,
                copy.country_to_nodes.len() == 0,
                forall|j: int| 0 <= j < i ==> node_view(#[trigger] copy.nodes@[j]) == node_view(self.nodes@[j]),
            decreases self.nodes.len() - i,
        {
            let node = match &self.nodes[i] {
                Some(node) => Some(copy_node(node)),
                None => None,
            };
            copy.nodes.push(node);
            i += 1;
        }
        let mut i: usize = 0;
        while i < self.proxy_to.len()
            invariant
                0 <= i <= self.proxy_to.len(),
                copy.nodes.len() == self.nodes.len(),
                copy.proxy_to.len() == i,
                copy.country_to_nodes.len() == 0,
                forall|j: int| 0 <= j < self.nodes.len() ==> node_view(#[trigger] copy.nodes@[j]) == node_view(self.nodes@[j]),
                forall|j: int| 0 <= j < i ==> list_view(#[trigger] copy.proxy_to@[j]) == list_view(self.proxy_to@[j]),
            decreases self.proxy_to.len() - i,
        {
            let chain = copy_optional_list(&self.proxy_to[i]);
            copy.proxy_to.push(chain);
            i += 1;
        }
        let mut i: usize = 0;
        while i < self.country_to_nodes.len()
            invariant
                0 <= i <= self.country_to_nodes.len(),
                copy.nodes.len() == self.nodes.len(),
                copy.proxy_to.len() == self.proxy_to.len(),
                copy.country_to_nodes.len() == i,
                forall|j: int| 0 <= j < self.nodes.len() ==> node_view(#[trigger] copy.nodes@[j]) == node_view(self.nodes@[j]),
                forall|j: int| 0 <= j < self.proxy_to.len() ==> list_view(#[trigger] copy.proxy_to@[j]) == list_view(self.proxy_to@[j]),
                forall|j: int| 0 <= j < i ==> list_view(#[trigger] copy.country_to_nodes@[j]) == list_view(self.country_to_nodes@[j]),
            decreases self.country_to_nodes.len() - i,
        {
            let ids = copy_optional_list(&self.country_to_nodes[i]);
            copy.country_to_nodes.push(ids);
            i += 1;
        }
        assert(copy@.nodes =~= self@.nodes);
        assert(copy@.proxy_to =~= self@.proxy_to);
        assert(copy@.country_to_nodes =~= self@.country_to_nodes);
        copy
    }

    /// Reads a configuration into the database: the nodes that `[Nodes]`
    /// lists, each described by the section it names, then the default node
    /// of `[Self]`.
    ///
    /// Either the whole configuration is taken over, or it is refused with
    /// the first fault found and the database stays as it was.
    pub fn read_from_ini(&mut self, config: ini::Ini) -> (out: Result<(), ConfigError>)
        requires
            old(self).wf(),
        ensures
            match spec_read_config(old(self)@, ini_sections(config)) {
                Ok(db) => out is Ok && final(self)@ == db && final(self).wf(),
                Err(e) => out == Err::<(), ConfigError>(e) && *final(self) == *old(self),
            },
    {
        let nodes = match find_section(&config, "Nodes") {
            Some(section) => list_entries(section),
            None => {
                return Err(ConfigError::NoNodesSection);
            },
        };
        let with_nodes = match add_nodes(self.duplicate(), &config, &nodes) {
            Ok(db) => db,
            Err(e) => {
                return Err(e);
            },
        };
        let own = match find_section(&config, "Self") {
            Some(section) => list_entries(section),
            None => {
                return Err(ConfigError::NoSelfSection);
            },
        };
        match apply_self(with_nodes, &own) {
            Ok(db) => {
                *self = db;
                Ok(())
            },
            Err(e) => Err(e),
        }
    }

    /// The candidate nodes of a routing slot, in the order in which they are
    /// tried. A slot without candidates, or outside the table, has none.
    pub fn candidates_for(&self, slot: usize) -> (ids: &[u8])
        ensures
            ids@ == self@.candidates(slot as int),
    {
        if slot < self.country_to_nodes.len() {
            match &self.country_to_nodes[slot] {
                Some(ids) => ids.as_slice(),
                None => &[],
            }
        } else {
            &[]
        }
    }

    /// The proxy chain towards a node, first hop first, if one is configured.
    pub fn upstream_chain_for(&self, node_id: u8) -> (chain: Option<&[SocketAddress]>)
        ensures
            match self@.upstream_chain(node_id as int) {
                Some(hops) => chain is Some && chain.unwrap()@ == hops,
                None => chain is None,
            },
    {
        if (node_id as usize) < self.proxy_to.len() {
            match &self.proxy_to[node_id as usize] {
                Some(hops) => Some(hops.as_slice()),
                None => None,
            }
        } else {
            None
        }
    }

    /// The node with an id, if there is one.
    pub fn node(&self, node_id: u8) -> (node: Option<&Node>)
        ensures
            match self@.node(node_id as int) {
                Some(found) => node is Some && node.unwrap()@ == found,
                None => node is None,
            },
    {
        if (node_id as usize) < self.nodes.len() {
            self.nodes[node_id as usize].as_ref()
        } else {
            None
        }
    }
}

} // verus!
