use georoute::address::{IpAddress, SocketAddress};
use georoute::country::country_hash;
use georoute::database::{
    apply_default, apply_key, apply_keys, apply_self, country_slot, parse_node_id, place_node,
    ConfigError, Database, Node, MAX_NODES, SLOT_COUNT,
};
use georoute::text::chars_of;
use ini::Ini;
use std::rc::Rc;

fn v4(a: u8, b: u8, c: u8, d: u8, port: u16) -> SocketAddress {
    SocketAddress { ip: IpAddress::V4(a, b, c, d), port, scope_id: 0 }
}

fn build(text: &str) -> Result<Rc<Database>, ConfigError> {
    let config = Ini::load_from_str(text).expect("the text is an ini file");
    let mut db = Database::new();
    Rc::get_mut(&mut db).unwrap().read_from_ini(config)?;
    Ok(db)
}

fn slot(code: &[u8; 2]) -> usize {
    country_hash(code).unwrap()
}

#[test]
fn new_database_is_empty() {
    let db = Database::new();
    assert_eq!(db.nodes.len(), MAX_NODES);
    assert_eq!(db.proxy_to.len(), MAX_NODES);
    assert_eq!(db.country_to_nodes.len(), SLOT_COUNT);
    assert!(db.nodes.iter().all(|n| n.is_none()));
    assert!(db.proxy_to.iter().all(|n| n.is_none()));
    assert!(db.country_to_nodes.iter().all(|n| n.is_none()));
    for s in 0..400 {
        assert!(db.candidates_for(s).is_empty());
    }
    for id in 0..=255u8 {
        assert!(db.node(id).is_none());
        assert!(db.upstream_chain_for(id).is_none());
    }
}

#[test]
fn node_ids() {
    assert_eq!(parse_node_id(&chars_of("0")), Some(0));
    assert_eq!(parse_node_id(&chars_of("254")), Some(254));
    assert_eq!(parse_node_id(&chars_of("255")), None);
    assert_eq!(parse_node_id(&chars_of("+7")), Some(7));
    assert_eq!(parse_node_id(&chars_of("+")), None);
    assert_eq!(parse_node_id(&chars_of("++7")), None);
    assert_eq!(parse_node_id(&chars_of("-7")), None);
    assert_eq!(parse_node_id(&chars_of("")), None);
    assert_eq!(parse_node_id(&chars_of("one")), None);
    assert_eq!(parse_node_id(&chars_of("01")), Some(1));
}

#[test]
fn country_values() {
    assert_eq!(country_slot(&chars_of("de")), Some(152));
    assert_eq!(country_slot(&chars_of("DE")), Some(152));
    assert_eq!(country_slot(&chars_of("dE")), Some(152));
    assert_eq!(country_slot(&chars_of("xx")), None);
    assert_eq!(country_slot(&chars_of("deu")), None);
    assert_eq!(country_slot(&chars_of("d")), None);
    assert_eq!(country_slot(&chars_of("")), None);
    assert_eq!(country_slot(&chars_of("é")), None);
    assert_eq!(country_slot(&chars_of("dé")), None);
}

#[test]
fn full_node_is_read() {
    let db = build(
        "[Nodes]\n\
         1 = alpha\n\
         [alpha]\n\
         Probe = ping\n\
         Socks5Address = 10.0.0.1:1080\n\
         PublicTCP = 10.0.0.1:1,10.0.0.1:2\n\
         BindTCP = 10.0.0.1:3\n\
         PublicUDP = 10.0.0.1:4\n\
         SocksServerPorts = 10.0.0.1:5,10.0.0.1:6\n\
         Country = DE\n\
         SocksProxy->2 = 10.0.0.9:1,10.0.0.8:2\n\
         Color = blue\n\
         [Self]\n\
         Name = me\n",
    )
    .unwrap();
    let node = db.node(1).expect("node 1 is there");
    assert_eq!(node.id, 1);
    assert_eq!(node.name, "alpha");
    assert_eq!(node.probe.as_deref(), Some("ping"));
    assert_eq!(node.country_code, Some(slot(b"de")));
    assert_eq!(node.socks5_listen_port, Some(v4(10, 0, 0, 1, 1080)));
    assert_eq!(node.public_tcp, Some(vec![v4(10, 0, 0, 1, 1), v4(10, 0, 0, 1, 2)]));
    assert_eq!(node.bind_tcp, Some(vec![v4(10, 0, 0, 1, 3)]));
    assert_eq!(node.public_udp, Some(vec![v4(10, 0, 0, 1, 4)]));
    assert_eq!(node.socks_server_ports, Some(vec![v4(10, 0, 0, 1, 5), v4(10, 0, 0, 1, 6)]));
    assert_eq!(db.candidates_for(slot(b"de")), &[1]);
    assert_eq!(
        db.upstream_chain_for(2),
        Some(&[v4(10, 0, 0, 9, 1), v4(10, 0, 0, 8, 2)][..])
    );
    assert!(db.upstream_chain_for(1).is_none());
    assert!(db.node(2).is_none());
    // no default: the other slots stay without candidates
    assert!(db.candidates_for(slot(b"fr")).is_empty());
}

#[test]
fn candidates_come_in_the_order_of_the_nodes() {
    let db = build(
        "[Nodes]\n5 = five\n3 = three\n4 = four\n\
         [five]\nCountry = de\n\
         [three]\nCountry = fr\n\
         [four]\nCountry = de\n\
         [Self]\nDefault = 9\n",
    )
    .unwrap();
    assert_eq!(db.candidates_for(slot(b"de")), &[5, 4]);
    assert_eq!(db.candidates_for(slot(b"fr")), &[3]);
    assert_eq!(db.candidates_for(slot(b"it")), &[9]);
}

#[test]
fn default_fills_every_slot_without_country_assignments() {
    let db = build("[Nodes]\n3 = three\n[three]\nSocks5Address = 10.0.0.3:1080\n[Self]\nDefault = 3\n")
        .unwrap();
    for s in 0..SLOT_COUNT {
        assert_eq!(db.candidates_for(s), &[3]);
    }
    assert!(db.candidates_for(SLOT_COUNT).is_empty());
}

#[test]
fn default_fills_only_the_empty_slots() {
    let db = build("[Nodes]\n1 = one\n[one]\nCountry = de\n[Self]\nDefault = 3\n").unwrap();
    for s in 0..SLOT_COUNT {
        if s == slot(b"de") {
            assert_eq!(db.candidates_for(s), &[1]);
        } else {
            assert_eq!(db.candidates_for(s), &[3]);
        }
    }
}

#[test]
fn second_default_changes_nothing() {
    let mut config = Ini::new();
    config.with_section(Some("Nodes")).add("1", "one");
    config.with_section(Some("one")).add("Country", "de");
    config.with_section(Some("Self")).add("Default", "3").add("Default", "4");
    let mut db = Database::new();
    assert_eq!(Rc::get_mut(&mut db).unwrap().read_from_ini(config), Ok(()));
    assert_eq!(db.candidates_for(slot(b"fr")), &[3]);
    assert_eq!(db.candidates_for(slot(b"de")), &[1]);
}

#[test]
fn unknown_country_is_passed_over() {
    let db = build("[Nodes]\n1 = one\n[one]\nCountry = xx\n[Self]\n").unwrap();
    assert_eq!(db.node(1).unwrap().country_code, None);
    for s in 0..SLOT_COUNT {
        assert!(db.candidates_for(s).is_empty());
    }
}

#[test]
fn two_entries_with_the_same_id_are_refused() {
    assert_eq!(
        build("[Nodes]\n1 = one\n1 = two\n[one]\n[two]\n[Self]\nDefault = 1\n").err(),
        Some(ConfigError::DuplicateNodeId)
    );
    assert_eq!(
        build("[Nodes]\n1 = one\n01 = two\n[one]\n[two]\n[Self]\nDefault = 1\n").err(),
        Some(ConfigError::DuplicateNodeId)
    );
    assert_eq!(
        build("[Nodes]\n1 = one\n2 = two\n+1 = one\n[one]\n[two]\n[Self]\nDefault = 1\n").err(),
        Some(ConfigError::DuplicateNodeId)
    );
}

#[test]
fn missing_sections_are_refused() {
    assert_eq!(build("[Self]\nDefault = 1\n").err(), Some(ConfigError::NoNodesSection));
    assert_eq!(build("").err(), Some(ConfigError::NoNodesSection));
    assert_eq!(build("[Nodes]\n1 = one\n[one]\n").err(), Some(ConfigError::NoSelfSection));
    assert_eq!(
        build("[Nodes]\n1 = one\n[Self]\nDefault = 1\n").err(),
        Some(ConfigError::NodeSectionMissing)
    );
}

#[test]
fn bad_ids_are_refused() {
    assert_eq!(build("[Nodes]\n255 = one\n[one]\n[Self]\n").err(), Some(ConfigError::NodeId));
    assert_eq!(build("[Nodes]\nx = one\n[one]\n[Self]\n").err(), Some(ConfigError::NodeId));
    assert_eq!(
        build("[Nodes]\n1 = one\n[one]\n[Self]\nDefault = 255\n").err(),
        Some(ConfigError::DefaultId)
    );
    assert_eq!(
        build("[Nodes]\n1 = one\n[one]\n[Self]\nDefault = none\n").err(),
        Some(ConfigError::DefaultId)
    );
    assert_eq!(
        build("[Nodes]\n1 = one\n[one]\nSocksProxy->255 = 10.0.0.1:1\n[Self]\n").err(),
        Some(ConfigError::ProxyTarget)
    );
    assert_eq!(
        build("[Nodes]\n1 = one\n[one]\nSocksProxy-> = 10.0.0.1:1\n[Self]\n").err(),
        Some(ConfigError::ProxyTarget)
    );
}

#[test]
fn bad_addresses_are_refused() {
    let with = |entry: &str| build(&format!("[Nodes]\n1 = one\n[one]\n{}\n[Self]\n", entry)).err();
    assert_eq!(with("Socks5Address = localhost"), Some(ConfigError::Socks5Address));
    assert_eq!(with("PublicTCP = 10.0.0.1:1,nowhere"), Some(ConfigError::TcpAddress));
    assert_eq!(with("BindTCP = 10.0.0.1"), Some(ConfigError::TcpAddress));
    assert_eq!(with("PublicUDP = 10.0.0.1:99999"), Some(ConfigError::UdpAddress));
    assert_eq!(with("SocksServerPorts = 10.0.0.1:1, 10.0.0.2:2"), Some(ConfigError::UdpAddress));
    assert_eq!(with("SocksProxy->2 = 10.0.0.1:1;10.0.0.2:2"), Some(ConfigError::SocksProxyAddress));
}

#[test]
fn first_fault_is_reported() {
    assert_eq!(
        build("[Nodes]\n1 = one\nx = two\n[one]\nSocks5Address = bad\n").err(),
        Some(ConfigError::Socks5Address)
    );
    assert_eq!(
        build("[Nodes]\nx = two\n1 = one\n[one]\nSocks5Address = bad\n").err(),
        Some(ConfigError::NodeId)
    );
}

#[test]
fn refused_configuration_leaves_the_database_as_it_was() {
    let mut db = build("[Nodes]\n1 = one\n[one]\nCountry = de\n[Self]\n").unwrap();
    let bad = Ini::load_from_str(
        "[Nodes]\n2 = two\n3 = three\n[two]\nCountry = de\nSocksProxy->7 = 10.0.0.7:7\n[three]\nSocks5Address = bad\n[Self]\nDefault = 2\n",
    )
    .unwrap();
    assert_eq!(
        Rc::get_mut(&mut db).unwrap().read_from_ini(bad),
        Err(ConfigError::Socks5Address)
    );
    assert!(db.node(2).is_none());
    assert!(db.node(3).is_none());
    assert!(db.upstream_chain_for(7).is_none());
    assert_eq!(db.candidates_for(slot(b"de")), &[1]);
    assert!(db.candidates_for(slot(b"fr")).is_empty());
}

#[test]
fn second_configuration_adds_to_the_first() {
    let mut db = build("[Nodes]\n1 = one\n[one]\nCountry = de\n[Self]\n").unwrap();
    let more = Ini::load_from_str("[Nodes]\n2 = two\n[two]\nCountry = de\n[Self]\nDefault = 2\n").unwrap();
    assert_eq!(Rc::get_mut(&mut db).unwrap().read_from_ini(more), Ok(()));
    assert_eq!(db.candidates_for(slot(b"de")), &[1, 2]);
    assert_eq!(db.candidates_for(slot(b"fr")), &[2]);
    let again = Ini::load_from_str("[Nodes]\n1 = one\n[one]\n[Self]\n").unwrap();
    assert_eq!(
        Rc::get_mut(&mut db).unwrap().read_from_ini(again),
        Err(ConfigError::DuplicateNodeId)
    );
}

#[test]
fn duplicate_keeps_the_contents() {
    let db = build("[Nodes]\n1 = one\n[one]\nProbe = p\nCountry = de\nSocksProxy->1 = 10.0.0.9:1\n[Self]\nDefault = 1\n")
        .unwrap();
    let copy = db.duplicate();
    assert_eq!(copy.node(1).unwrap().name, "one");
    assert_eq!(copy.node(1).unwrap().probe.as_deref(), Some("p"));
    assert_eq!(copy.upstream_chain_for(1), db.upstream_chain_for(1));
    for s in 0..SLOT_COUNT {
        assert_eq!(copy.candidates_for(s), db.candidates_for(s));
    }
}

#[test]
fn later_chain_replaces_the_earlier() {
    let mut config = Ini::new();
    config.with_section(Some("Nodes")).add("1", "one");
    config
        .with_section(Some("one"))
        .add("SocksProxy->2", "10.0.0.1:1")
        .add("SocksProxy->02", "10.0.0.2:2");
    config.with_section(Some("Self")).add("Default", "1");
    let mut db = Database::new();
    assert_eq!(Rc::get_mut(&mut db).unwrap().read_from_ini(config), Ok(()));
    assert_eq!(db.upstream_chain_for(2), Some(&[v4(10, 0, 0, 2, 2)][..]));
}

#[test]
fn every_refusal_has_its_words() {
    assert_eq!(ConfigError::NoNodesSection.message(), "No [Nodes] section in config-file");
    assert_eq!(ConfigError::NoSelfSection.message(), "No [Self] section in config-file");
    assert_eq!(ConfigError::NodeSectionMissing.message(), "Cannot find node section");
    assert_eq!(ConfigError::Socks5Address.message(), "Socks5Address is wrong");
    assert_eq!(ConfigError::TcpAddress.message(), "TCPAddress is wrong");
    assert_eq!(ConfigError::UdpAddress.message(), "UDPAddress is wrong");
    assert_eq!(ConfigError::SocksProxyAddress.message(), "SocksProxy Address is wrong");
    assert_eq!(ConfigError::NodeId.message(), "Node id is wrong");
    assert_eq!(ConfigError::DuplicateNodeId.message(), "Node id is used twice");
    assert_eq!(ConfigError::ProxyTarget.message(), "SocksProxy target is wrong");
    assert_eq!(ConfigError::DefaultId.message(), "Default node id is wrong");
}

fn bare(id: u8, name: &str) -> Node {
    Node {
        id,
        name: name.to_string(),
        probe: None,
        country_code: None,
        socks5_listen_port: None,
        socks_server_ports: None,
        public_tcp: None,
        public_udp: None,
        bind_tcp: None,
    }
}

fn entries(pairs: &[(&str, &str)]) -> Vec<(String, String)> {
    pairs.iter().map(|(k, v)| (k.to_string(), v.to_string())).collect()
}

#[test]
fn build_gives_the_database_of_a_configuration() {
    let config = Ini::load_from_str("[Nodes]\n1 = one\n[one]\nCountry = de\n[Self]\nDefault = 1\n").unwrap();
    let db = Database::build(config).unwrap();
    assert!(db.is_well_formed());
    assert_eq!(db.node(1).unwrap().name, "one");
    assert_eq!(db.candidates_for(slot(b"fr")), &[1]);
    let bad = Ini::load_from_str("[Nodes]\n1 = one\n[Self]\n").unwrap();
    assert_eq!(Database::build(bad).err(), Some(ConfigError::NodeSectionMissing));
}

#[test]
fn shape_of_a_database_is_checked() {
    assert!(Database::empty().is_well_formed());
    assert!(Database::new().is_well_formed());
    let none = Database { nodes: vec![], proxy_to: vec![], country_to_nodes: vec![] };
    assert!(!none.is_well_formed());
    let mut short = Database::empty();
    short.country_to_nodes.pop();
    assert!(!short.is_well_formed());
    let mut long = Database::empty();
    long.proxy_to.push(None);
    assert!(!long.is_well_formed());
    let mut misplaced = Database::empty();
    misplaced.nodes[4] = Some(bare(5, "five"));
    assert!(!misplaced.is_well_formed());
    let mut placed = Database::empty();
    placed.nodes[5] = Some(bare(5, "five"));
    assert!(placed.is_well_formed());
}

#[test]
fn one_key_at_a_time() {
    let key = |k: &str, v: &str| apply_key(Database::empty(), bare(7, "seven"), &k.to_string(), &v.to_string());
    let (db, node) = key("Probe", "ping me").unwrap();
    assert_eq!(node.probe.as_deref(), Some("ping me"));
    assert!(db.is_well_formed());
    let (_, node) = key("Socks5Address", "[::1]:9050").unwrap();
    assert_eq!(
        node.socks5_listen_port,
        Some(SocketAddress { ip: IpAddress::V6(0, 0, 0, 0, 0, 0, 0, 1), port: 9050, scope_id: 0 })
    );
    let (db, node) = key("Country", "Fr").unwrap();
    assert_eq!(node.country_code, Some(slot(b"fr")));
    assert_eq!(db.candidates_for(slot(b"fr")), &[7]);
    let (db, node) = key("Country", "fra").unwrap();
    assert_eq!(node.country_code, None);
    assert!(db.country_to_nodes.iter().all(|c| c.is_none()));
    let (db, _) = key("SocksProxy->254", "10.0.0.1:1").unwrap();
    assert_eq!(db.upstream_chain_for(254), Some(&[v4(10, 0, 0, 1, 1)][..]));
    let (db, node) = key("probe", "x").unwrap();
    assert_eq!(node.probe, None);
    assert!(db.proxy_to.iter().all(|c| c.is_none()));
    let (db, _) = key("xSocksProxy->1", "10.0.0.1:1").unwrap();
    assert!(db.proxy_to.iter().all(|c| c.is_none()));
    let (db, _) = key("SocksProxy", "10.0.0.1:1").unwrap();
    assert!(db.proxy_to.iter().all(|c| c.is_none()));
    assert_eq!(key("SocksProxy->x", "10.0.0.1:1").err(), Some(ConfigError::ProxyTarget));
    assert_eq!(key("SocksProxy->1", "").err(), Some(ConfigError::SocksProxyAddress));
    assert_eq!(key("Socks5Address", "10.0.0.1:1,10.0.0.2:2").err(), Some(ConfigError::Socks5Address));
    assert_eq!(key("PublicTCP", "").err(), Some(ConfigError::TcpAddress));
}

#[test]
fn keys_in_order() {
    let (db, node) = apply_keys(
        Database::empty(),
        bare(2, "two"),
        &entries(&[("Country", "de"), ("Probe", "a"), ("Country", "fr"), ("Probe", "b")]),
    )
    .unwrap();
    assert_eq!(node.probe.as_deref(), Some("b"));
    assert_eq!(node.country_code, Some(slot(b"fr")));
    assert_eq!(db.candidates_for(slot(b"de")), &[2]);
    assert_eq!(db.candidates_for(slot(b"fr")), &[2]);
    assert_eq!(
        apply_keys(
            Database::empty(),
            bare(2, "two"),
            &entries(&[("BindTCP", "x"), ("PublicUDP", "y")])
        )
        .err(),
        Some(ConfigError::TcpAddress)
    );
    let (_, node) = apply_keys(Database::empty(), bare(2, "two"), &entries(&[])).unwrap();
    assert_eq!(node.id, 2);
    assert_eq!(node.name, "two");
}

#[test]
fn node_takes_its_place() {
    let db = place_node(Database::empty(), 9, &"nine".to_string(), &entries(&[("Country", "it")])).unwrap();
    assert!(db.is_well_formed());
    let node = db.node(9).unwrap();
    assert_eq!((node.id, node.name.as_str()), (9, "nine"));
    assert_eq!(node.country_code, Some(slot(b"it")));
    assert_eq!(db.candidates_for(slot(b"it")), &[9]);
    assert_eq!(
        place_node(Database::empty(), 9, &"nine".to_string(), &entries(&[("PublicUDP", "it")])).err(),
        Some(ConfigError::UdpAddress)
    );
}

#[test]
fn default_is_applied_to_plain_tables() {
    let mut db = Database::empty();
    db.country_to_nodes[0] = Some(vec![1, 2]);
    db.country_to_nodes[1] = Some(vec![]);
    let db = apply_default(db, 8);
    assert_eq!(db.candidates_for(0), &[1, 2]);
    assert_eq!(db.candidates_for(1), &[8]);
    assert_eq!(db.candidates_for(2), &[8]);
    assert_eq!(db.candidates_for(SLOT_COUNT - 1), &[8]);
    assert!(db.nodes.iter().all(|n| n.is_none()));
}

#[test]
fn self_section_on_plain_entries() {
    let db = apply_self(Database::empty(), &entries(&[("Name", "x"), ("Default", "+4"), ("Default", "bad")]));
    assert_eq!(db.err(), Some(ConfigError::DefaultId));
    let db = apply_self(Database::empty(), &entries(&[("default", "4")])).unwrap();
    assert!(db.candidates_for(0).is_empty());
    let db = apply_self(Database::empty(), &entries(&[("Default", "4")])).unwrap();
    assert_eq!(db.candidates_for(0), &[4]);
}
