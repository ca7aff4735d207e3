use lnx_parser::{
    str_to_udp, AddressError, IPConfig, InterfaceConfig, Ipv4Address, Ipv4Network,
    NeighborConfig, ParserError, RoutingType,
};

fn neighbor(dest: Ipv4Address) -> NeighborConfig {
    NeighborConfig {
        dest_addr: dest,
        udp_addr: Ipv4Address::new(10, 0, 0, 2),
        udp_port: 9001,
        interface_name: String::from("eth1"),
    }
}

fn other(message: &str) -> ParserError {
    ParserError::Other(String::from(message))
}

fn missing(keyword: &str) -> ParserError {
    ParserError::MissingToken(String::from(keyword))
}

#[test]
fn test_str_to_udp() {
    let (ip, port) = str_to_udp("192.168.1.1:8080").unwrap();
    assert_eq!(ip, Ipv4Address::new(192, 168, 1, 1));
    assert_eq!(port, 8080);
}

#[test]
fn test_interface_config_try_from() {
    let tokens = vec!["interface", "eth0", "192.168.1.1/24", "10.0.0.1:9000"];
    let config = InterfaceConfig::try_from(tokens).unwrap();

    assert_eq!(config.name, "eth0");
    assert_eq!(config.assigned_prefix.to_string(), "192.168.1.1/24");
    assert_eq!(config.assigned_ip, Ipv4Address::new(192, 168, 1, 1));
    assert_eq!(config.udp_addr, Ipv4Address::new(10, 0, 0, 1));
    assert_eq!(config.udp_port, 9000);
}

#[test]
fn test_interface_config_invalid() {
    let tokens = vec!["interface", "eth0", "invalid_ip", "10.0.0.1:9000"];
    let result = InterfaceConfig::try_from(tokens);
    assert!(result.is_err());
}

#[test]
fn test_neighbor_config_try_from() {
    let tokens = vec![
        "neighbor",
        "192.168.1.2",
        "at",
        "10.0.0.2:9001",
        "via",
        "eth1",
    ];
    let config = NeighborConfig::try_from(tokens).unwrap();

    assert_eq!(config.dest_addr, Ipv4Address::new(192, 168, 1, 2));
    assert_eq!(config.udp_addr, Ipv4Address::new(10, 0, 0, 2));
    assert_eq!(config.udp_port, 9001);
    assert_eq!(config.interface_name, "eth1");
}

#[test]
fn test_neighbor_config_invalid() {
    let tokens = vec![
        "neighbor",
        "192.168.1.2",
        "at",
        "10.0.0.2:9001",
        "invalid",
        "eth1",
    ];
    let result = NeighborConfig::try_from(tokens);
    assert!(result.is_err());
}

#[test]
fn test_parse_routing() {
    let mut config = IPConfig::default();
    config.parse_routing(&["routing", "static"]).unwrap();
    assert_eq!(config.routing_mode, RoutingType::Static);
}

#[test]
fn test_parse_route() {
    let mut config = IPConfig::default();
    config
        .parse_route(&["route", "192.168.1.0/24", "via", "10.0.0.1"])
        .unwrap();
    assert_eq!(config.static_routes.len(), 1);
    assert_eq!(config.static_routes[0].0.to_string(), "192.168.1.0/24");
    assert_eq!(config.static_routes[0].1, Ipv4Address::new(10, 0, 0, 1));
}

#[test]
fn test_parse_rip() {
    let mut config = IPConfig::default();
    config.neighbors.push(NeighborConfig {
        dest_addr: Ipv4Address::new(192, 168, 1, 2),
        udp_addr: Ipv4Address::new(10, 0, 0, 2),
        udp_port: 9001,
        interface_name: String::from("eth1"),
    });

    config
        .parse_rip(&["rip", "advertise-to", "192.168.1.2"])
        .unwrap();
    assert!(config.rip_neighbors.is_some());
    assert_eq!(
        config.rip_neighbors.unwrap()[0],
        Ipv4Address::new(192, 168, 1, 2)
    );
}

#[test]
fn test_parse_rip_no_matching_neighbor() {
    let mut config = IPConfig::default();
    let result = config.parse_rip(&["rip", "advertise-to", "192.168.1.2"]);
    assert!(result.is_err());
}

#[test]
fn test_parse_line_comment() {
    let mut config = IPConfig::default();
    let result = config.parse_line("# This is a comment");
    assert!(result.is_ok());
    assert!(config.interfaces.is_empty());
}

#[test]
fn test_parse_line_interface() {
    let mut config = IPConfig::default();
    config
        .parse_line("interface eth0 192.168.1.1/24 10.0.0.1:9000")
        .unwrap();
    assert_eq!(config.interfaces.len(), 1);
    assert_eq!(config.interfaces[0].name, "eth0");
}

fn assert_untouched(config: &IPConfig) {
    assert!(config.interfaces.is_empty());
    assert!(config.neighbors.is_empty());
    assert_eq!(config.routing_mode, RoutingType::Disabled);
    assert!(config.rip_neighbors.is_none());
    assert!(config.static_routes.is_empty());
}

#[test]
fn default_config_declares_nothing() {
    assert_untouched(&IPConfig::default());
    assert_eq!(RoutingType::default(), RoutingType::Disabled);
}

#[test]
fn comment_line_changes_nothing() {
    let mut config = IPConfig::default();
    assert_eq!(config.parse_line("# comment"), Ok(()));
    assert_untouched(&config);
}

#[test]
fn blank_lines_change_nothing() {
    let mut config = IPConfig::default();
    for line in ["", "   ", "\t", " \t \r", "#", "  # interface eth0 1.2.3.4/24 1.2.3.4:1"] {
        assert_eq!(config.parse_line(line), Ok(()));
    }
    assert_untouched(&config);
}

#[test]
fn interface_line_appends_one_interface() {
    let mut config = IPConfig::default();
    config
        .parse_line("interface eth0 192.168.1.1/24 10.0.0.1:9000")
        .unwrap();
    assert_eq!(
        config.interfaces,
        vec![InterfaceConfig {
            name: String::from("eth0"),
            assigned_prefix: Ipv4Network::new(Ipv4Address::new(192, 168, 1, 1), 24).unwrap(),
            assigned_ip: Ipv4Address::new(192, 168, 1, 1),
            udp_addr: Ipv4Address::new(10, 0, 0, 1),
            udp_port: 9000,
        }]
    );
    assert!(config.neighbors.is_empty());
    assert!(config.static_routes.is_empty());
    assert!(config.rip_neighbors.is_none());
}

#[test]
fn interface_address_is_the_address_of_its_prefix() {
    for line in [
        "interface eth0 192.168.1.1/24 10.0.0.1:9000",
        "interface if1 10.0.0.0/8 127.0.0.1:5000",
        "interface if2 255.255.255.255/32 127.0.0.1:65535",
        "interface if3 0.0.0.0/0 0.0.0.0:0",
    ] {
        let mut config = IPConfig::default();
        config.parse_line(line).unwrap();
        let interface = &config.interfaces[0];
        assert_eq!(interface.assigned_ip, interface.assigned_prefix.addr());
        assert!(interface.assigned_prefix.prefix_len() <= 32);
    }
}

#[test]
fn neighbor_line_appends_one_neighbor() {
    let mut config = IPConfig::default();
    config
        .parse_line("neighbor 192.168.1.2 at 10.0.0.2:9001 via eth1")
        .unwrap();
    assert_eq!(config.neighbors, vec![neighbor(Ipv4Address::new(192, 168, 1, 2))]);
    assert!(config.interfaces.is_empty());
}

#[test]
fn rip_line_without_neighbor_is_rejected() {
    let mut config = IPConfig::default();
    let result = config.parse_line("rip advertise-to 192.168.1.2");
    assert_eq!(result, Err(other("No neighbor with address 192.168.1.2")));
    assert!(config.rip_neighbors.is_none());
    assert_untouched(&config);
}

#[test]
fn rip_line_with_neighbor_adds_one_target() {
    let mut config = IPConfig::default();
    config.neighbors.push(neighbor(Ipv4Address::new(192, 168, 1, 2)));
    config.parse_line("rip advertise-to 192.168.1.2").unwrap();
    assert_eq!(config.rip_neighbors, Some(vec![Ipv4Address::new(192, 168, 1, 2)]));
    assert_eq!(config.neighbors.len(), 1);
}

#[test]
fn rip_targets_keep_their_order() {
    let mut config = IPConfig::default();
    config.neighbors.push(neighbor(Ipv4Address::new(10, 0, 0, 1)));
    config.neighbors.push(neighbor(Ipv4Address::new(10, 0, 0, 2)));
    config.parse_line("rip advertise-to 10.0.0.2").unwrap();
    config.parse_line("rip advertise-to 10.0.0.1").unwrap();
    config.parse_line("rip advertise-to 10.0.0.2").unwrap();
    assert_eq!(
        config.rip_neighbors,
        Some(vec![
            Ipv4Address::new(10, 0, 0, 2),
            Ipv4Address::new(10, 0, 0, 1),
            Ipv4Address::new(10, 0, 0, 2),
        ])
    );
}

#[test]
fn rip_line_must_follow_its_neighbor() {
    let text = "rip advertise-to 10.0.0.2\nneighbor 10.0.0.2 at 127.0.0.1:5001 via if0\n";
    assert!(IPConfig::from_text(text).is_err());
    let text = "neighbor 10.0.0.2 at 127.0.0.1:5001 via if0\nrip advertise-to 10.0.0.2\n";
    let config = IPConfig::from_text(text).unwrap();
    assert_eq!(config.rip_neighbors, Some(vec![Ipv4Address::new(10, 0, 0, 2)]));
}

#[test]
fn rip_command_must_be_advertise_to() {
    let mut config = IPConfig::default();
    config.neighbors.push(neighbor(Ipv4Address::new(10, 0, 0, 2)));
    let result = config.parse_rip(&["rip", "originate", "10.0.0.2"]);
    assert_eq!(result, Err(missing("advertise-to")));
    assert!(config.rip_neighbors.is_none());
    let result = config.parse_line("rip advertise 10.0.0.2 # close");
    assert_eq!(result, Err(missing("advertise-to")));
    let result = config.parse_line("rip to nowhere");
    assert_eq!(result, Err(missing("advertise-to")));
    assert!(config.rip_neighbors.is_none());
    assert_eq!(
        IPConfig::from_text("rip originate 10.0.0.2").unwrap_err().to_string(),
        "Invalid line: rip originate 10.0.0.2\nMissing token: advertise-to"
    );
    let result = config.parse_rip(&["rip", "advertise-to", "10.0.0.02"]);
    assert_eq!(result, Err(ParserError::Net(AddressError::Address)));
}

#[test]
fn route_line_appends_one_route() {
    let mut config = IPConfig::default();
    config.parse_line("route 192.168.1.0/24 via 10.0.0.1").unwrap();
    assert_eq!(
        config.static_routes,
        vec![(
            Ipv4Network::new(Ipv4Address::new(192, 168, 1, 0), 24).unwrap(),
            Ipv4Address::new(10, 0, 0, 1)
        )]
    );
    assert!(config.interfaces.is_empty());
}

#[test]
fn route_fields_are_checked_from_left_to_right() {
    let mut config = IPConfig::default();
    let result = config.parse_route(&["route", "192.168.1.0", "at", "nowhere"]);
    assert!(matches!(result, Err(ParserError::Ipnet(_))));
    let result = config.parse_route(&["route", "192.168.1.0/24", "at", "nowhere"]);
    assert_eq!(result, Err(missing("via")));
    let result = config.parse_route(&["route", "192.168.1.0/24", "via", "nowhere"]);
    assert_eq!(result, Err(ParserError::Net(AddressError::Address)));
    assert!(config.static_routes.is_empty());
}

#[test]
fn routing_keywords_select_the_mode() {
    assert_eq!(RoutingType::try_from("none"), Ok(RoutingType::Disabled));
    assert_eq!(RoutingType::try_from("static"), Ok(RoutingType::Static));
    assert_eq!(RoutingType::try_from("rip"), Ok(RoutingType::Rip));
    assert_eq!(RoutingType::try_from("RIP"), Err(other("Invalid routing type: RIP")));
    assert_eq!(RoutingType::try_from(""), Err(other("Invalid routing type: ")));
}

#[test]
fn last_routing_line_wins() {
    let config = IPConfig::from_text("routing rip\nrouting static\n").unwrap();
    assert_eq!(config.routing_mode, RoutingType::Static);
    let config = IPConfig::from_text("routing static\nrouting none\n").unwrap();
    assert_eq!(config.routing_mode, RoutingType::Disabled);
}

#[test]
fn unknown_routing_mode_keeps_the_mode() {
    let mut config = IPConfig::default();
    config.parse_line("routing rip").unwrap();
    let result = config.parse_line("routing ospf");
    assert_eq!(result, Err(other("Invalid routing type: ospf")));
    assert_eq!(config.routing_mode, RoutingType::Rip);
}

#[test]
fn wrong_token_count_is_bad_format() {
    let lines = [
        "interface",
        "interface eth0",
        "interface eth0 192.168.1.1/24",
        "interface eth0 192.168.1.1/24 10.0.0.1:9000 extra",
        "interface eth0 bad bad bad",
        "neighbor",
        "neighbor 192.168.1.2 at 10.0.0.2:9001 via",
        "neighbor 192.168.1.2 at 10.0.0.2:9001 via eth1 extra",
        "neighbor bad bad",
        "routing",
        "routing rip static",
        "route",
        "route 192.168.1.0/24 via",
        "route 192.168.1.0/24 via 10.0.0.1 extra",
        "rip",
        "rip advertise-to",
        "rip advertise-to 192.168.1.2 extra",
        "rip bad",
    ];
    for line in lines {
        let mut config = IPConfig::default();
        assert_eq!(config.parse_line(line), Err(ParserError::BadFormat), "{}", line);
        assert_untouched(&config);
    }
}

#[test]
fn comment_does_not_count_towards_the_arity() {
    let mut config = IPConfig::default();
    config.parse_line("routing rip # the mode").unwrap();
    assert_eq!(config.routing_mode, RoutingType::Rip);
    assert_eq!(config.parse_line("routing # rip"), Err(ParserError::BadFormat));
    assert_eq!(config.parse_line("routing static #"), Ok(()));
    assert_eq!(config.routing_mode, RoutingType::Static);
}

#[test]
fn glued_hash_is_no_comment() {
    let mut config = IPConfig::default();
    assert_eq!(config.parse_line("routing rip#"), Err(other("Invalid routing type: rip#")));
    assert_eq!(config.parse_line("routing rip #x"), Err(ParserError::BadFormat));
    assert_eq!(config.parse_line("#comment"), Err(other("Invalid directive: #comment")));
    assert_untouched(&config);
}

#[test]
fn unknown_directive_is_rejected() {
    for (line, name) in [
        ("bogus", "bogus"),
        ("Interface eth0 192.168.1.1/24 10.0.0.1:9000", "Interface"),
        ("interfaces eth0 192.168.1.1/24 10.0.0.1:9000", "interfaces"),
        ("  link a b c # d", "link"),
    ] {
        let mut config = IPConfig::default();
        let expected = format!("Invalid directive: {}", name);
        assert_eq!(config.parse_line(line), Err(other(&expected)));
        assert_untouched(&config);
    }
}

#[test]
fn interface_fields_are_checked_from_left_to_right() {
    let result = InterfaceConfig::try_from(vec!["interface", "eth0", "1.2.3.4", "nowhere"]);
    assert!(matches!(result, Err(ParserError::Ipnet(_))));
    let result = InterfaceConfig::try_from(vec!["interface", "eth0", "1.2.3.4/8", "nowhere"]);
    assert_eq!(result, Err(ParserError::Net(AddressError::Address)));
    let result = InterfaceConfig::try_from(vec!["interface", "eth0", "1.2.3.4/8", "1.2.3.4"]);
    assert_eq!(result, Err(ParserError::Net(AddressError::Port)));
    let result = InterfaceConfig::try_from(vec!["interface", "eth0", "1.2.3.4/8", "1.2.3.4:65536"]);
    assert_eq!(result, Err(ParserError::Net(AddressError::Port)));
    let result = InterfaceConfig::try_from(vec!["interface", "eth0", "1.2.3.4/8", "10.0.0.1:9000:x"]);
    assert_eq!(result, Err(ParserError::Net(AddressError::Port)));
}

#[test]
fn neighbor_fields_are_checked_from_left_to_right() {
    let result = NeighborConfig::try_from(vec!["neighbor", "1.2.3", "to", "x", "by", "eth1"]);
    assert_eq!(result, Err(ParserError::Net(AddressError::Address)));
    let result = NeighborConfig::try_from(vec!["neighbor", "1.2.3.4", "to", "x", "by", "eth1"]);
    assert_eq!(result, Err(missing("at")));
    let result = NeighborConfig::try_from(vec!["neighbor", "1.2.3.4", "at", "x", "by", "eth1"]);
    assert_eq!(result, Err(ParserError::Net(AddressError::Address)));
    let result = NeighborConfig::try_from(vec!["neighbor", "1.2.3.4", "at", "1.1.1.1:x", "by", "e"]);
    assert_eq!(result, Err(ParserError::Net(AddressError::Port)));
    let result = NeighborConfig::try_from(vec!["neighbor", "1.2.3.4", "at", "1.1.1.1:1:x", "via", "e"]);
    assert_eq!(result, Err(ParserError::Net(AddressError::Port)));
    let result = NeighborConfig::try_from(vec!["neighbor", "1.2.3.4", "at", "1.1.1.1:1", "by", "e"]);
    assert_eq!(result, Err(missing("via")));
}

#[test]
fn neighbor_may_name_an_undeclared_interface() {
    let config = IPConfig::from_text("neighbor 10.0.0.2 at 127.0.0.1:5001 via nowhere").unwrap();
    assert_eq!(config.neighbors[0].interface_name, "nowhere");
    assert!(config.interfaces.is_empty());
}

#[test]
fn interface_names_need_not_be_unique() {
    let text = "interface if0 10.0.0.1/24 127.0.0.1:5000\ninterface if0 10.1.0.1/24 127.0.0.1:5001";
    let config = IPConfig::from_text(text).unwrap();
    assert_eq!(config.interfaces.len(), 2);
    assert_eq!(config.interfaces[0].name, config.interfaces[1].name);
}

const NODE: &str = "\
# A router with two links
interface if0 10.0.0.1/24 127.0.0.1:5000   # to the hosts
interface if1 10.1.0.1/24 127.0.0.1:5001
neighbor 10.0.0.2 at 127.0.0.1:5002 via if0
neighbor 10.1.0.2 at 127.0.0.1:5003 via if1

routing rip
rip advertise-to 10.1.0.2
route 0.0.0.0/0 via 10.1.0.2
";

#[test]
fn text_is_read_in_order() {
    let config = IPConfig::from_text(NODE).unwrap();
    let names: Vec<&str> = config.interfaces.iter().map(|i| i.name.as_str()).collect();
    assert_eq!(names, vec!["if0", "if1"]);
    assert_eq!(config.interfaces[1].assigned_prefix.to_string(), "10.1.0.1/24");
    assert_eq!(config.interfaces[1].udp_port, 5001);
    assert_eq!(config.neighbors.len(), 2);
    assert_eq!(config.neighbors[0].dest_addr, Ipv4Address::new(10, 0, 0, 2));
    assert_eq!(config.neighbors[1].interface_name, "if1");
    assert_eq!(config.routing_mode, RoutingType::Rip);
    assert_eq!(config.rip_neighbors, Some(vec![Ipv4Address::new(10, 1, 0, 2)]));
    assert_eq!(config.static_routes.len(), 1);
    assert_eq!(config.static_routes[0].0.to_string(), "0.0.0.0/0");
    assert_eq!(config.static_routes[0].1, Ipv4Address::new(10, 1, 0, 2));
}

#[test]
fn line_endings_may_be_crlf() {
    let text = NODE.replace('\n', "\r\n");
    let config = IPConfig::from_text(&text).unwrap();
    assert_eq!(config.interfaces.len(), 2);
    assert_eq!(config.static_routes.len(), 1);
}

#[test]
fn empty_text_declares_nothing() {
    assert_untouched(&IPConfig::from_text("").unwrap());
    assert_untouched(&IPConfig::from_text("\n\n# nothing\n").unwrap());
}

#[test]
fn first_failing_line_stops_the_run() {
    let text = "routing static\ninterface if0 10.0.0.1/24 127.0.0.1:5000\n  bogus line # here\r\nroute 0.0.0.0/0 via 10.0.0.2\nworse\n";
    let mut config = IPConfig::default();
    let result = config.parse(text);
    assert_eq!(
        result,
        Err(ParserError::InvalidLine(
            String::from("  bogus line # here"),
            Box::new(other("Invalid directive: bogus"))
        ))
    );
    assert_eq!(config.routing_mode, RoutingType::Static);
    assert_eq!(config.interfaces.len(), 1);
    assert!(config.static_routes.is_empty());
    assert!(IPConfig::from_text(text).is_err());
}

#[test]
fn failing_line_is_quoted_as_it_stands() {
    let result = IPConfig::from_text("\troute 1.2.3.4/33   via 1.1.1.1 \t# too long");
    match result {
        Err(ParserError::InvalidLine(line, cause)) => {
            assert_eq!(line, "\troute 1.2.3.4/33   via 1.1.1.1 \t# too long");
            assert!(matches!(*cause, ParserError::Ipnet(_)));
        }
        _ => panic!("the line must be rejected"),
    }
}

#[test]
fn parse_goes_on_from_what_is_there() {
    let mut config = IPConfig::default();
    config.parse("neighbor 10.0.0.2 at 127.0.0.1:5001 via if0").unwrap();
    config.parse("rip advertise-to 10.0.0.2\nrouting rip").unwrap();
    assert_eq!(config.neighbors.len(), 1);
    assert_eq!(config.rip_neighbors, Some(vec![Ipv4Address::new(10, 0, 0, 2)]));
    assert_eq!(config.routing_mode, RoutingType::Rip);
}

#[test]
fn has_neighbor_looks_at_the_address() {
    let mut config = IPConfig::default();
    assert!(!config.has_neighbor(Ipv4Address::new(10, 0, 0, 2)));
    config.neighbors.push(neighbor(Ipv4Address::new(10, 0, 0, 2)));
    assert!(config.has_neighbor(Ipv4Address::new(10, 0, 0, 2)));
    assert!(!config.has_neighbor(Ipv4Address::new(10, 0, 0, 3)));
}
