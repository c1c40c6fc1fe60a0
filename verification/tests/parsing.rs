use arkade::parse::{parse_ports, ParsePortErrorKind};
use arkade::PortInfo;

#[test]
fn test_port_parsing() {
    let expected = vec![PortInfo::TCP(25565), PortInfo::UDP(34197)];
    let t: Vec<String> = expected.iter().map(|v| v.to_string()).collect();
    let input = t.join(",");
    let actual = parse_ports(input.as_str()).unwrap();

    assert_eq!(expected, actual);
}

#[test]
fn parses_two_ports_in_order() {
    let actual = parse_ports("25565/tcp,34197/udp").unwrap();
    assert_eq!(actual, vec![PortInfo::TCP(25565), PortInfo::UDP(34197)]);
}

#[test]
fn empty_text_is_the_empty_list() {
    let actual = parse_ports("").unwrap();
    assert!(actual.is_empty());
}

#[test]
fn port_out_of_range_fails() {
    let err = parse_ports("99999/tcp").unwrap_err();
    assert_eq!(err.kind, ParsePortErrorKind::InvalidPort);
    assert_eq!(err.token, "99999");
    assert_eq!(err.message(), "invalid port number: 99999");
}

#[test]
fn unknown_protocol_fails_and_is_named() {
    let err = parse_ports("80/sctp").unwrap_err();
    assert_eq!(err.kind, ParsePortErrorKind::InvalidProtocol);
    assert_eq!(err.token, "sctp");
    assert_eq!(err.message(), "invalid protocol: sctp");
    assert!(err.message().contains("sctp"));
}

#[test]
fn renders_number_slash_protocol() {
    assert_eq!(PortInfo::TCP(25565).to_string(), "25565/tcp");
    assert_eq!(PortInfo::UDP(34197).to_string(), "34197/udp");
    assert_eq!(PortInfo::TCP(0).to_string(), "0/tcp");
    assert_eq!(PortInfo::UDP(7).to_string(), "7/udp");
    assert_eq!(PortInfo::TCP(10).to_string(), "10/tcp");
    assert_eq!(PortInfo::UDP(65535).to_string(), "65535/udp");
}

#[test]
fn single_port_round_trips() {
    for n in [0u16, 1, 9, 10, 99, 100, 8080, 25565, 65535] {
        for port in [PortInfo::TCP(n), PortInfo::UDP(n)] {
            let text = port.to_string();
            assert_eq!(parse_ports(&text).unwrap(), vec![port]);
        }
    }
}

#[test]
fn every_port_number_round_trips() {
    for n in 0..=u16::MAX {
        let text = PortInfo::UDP(n).to_string();
        assert_eq!(parse_ports(&text).unwrap(), vec![PortInfo::UDP(n)]);
    }
}

#[test]
fn list_round_trips_in_order() {
    let ports = vec![
        PortInfo::UDP(53),
        PortInfo::TCP(443),
        PortInfo::TCP(0),
        PortInfo::UDP(65535),
        PortInfo::TCP(443),
    ];
    let texts: Vec<String> = ports.iter().map(|p| p.to_string()).collect();
    let joined = texts.join(",");
    assert_eq!(joined, "53/udp,443/tcp,0/tcp,65535/udp,443/tcp");
    assert_eq!(parse_ports(&joined).unwrap(), ports);
}

#[test]
fn protocol_is_read_in_either_case() {
    assert_eq!(parse_ports("80/TCP").unwrap(), vec![PortInfo::TCP(80)]);
    assert_eq!(parse_ports("80/Tcp").unwrap(), vec![PortInfo::TCP(80)]);
    assert_eq!(parse_ports("53/UDP").unwrap(), vec![PortInfo::UDP(53)]);
    assert_eq!(parse_ports("53/uDp").unwrap(), vec![PortInfo::UDP(53)]);
}

#[test]
fn white_space_may_surround_the_parts() {
    assert_eq!(parse_ports(" 80/tcp").unwrap(), vec![PortInfo::TCP(80)]);
    assert_eq!(parse_ports("80 / tcp ").unwrap(), vec![PortInfo::TCP(80)]);
    assert_eq!(
        parse_ports("\t80\t/\ttcp\n, 53 /udp").unwrap(),
        vec![PortInfo::TCP(80), PortInfo::UDP(53)]
    );
    assert_eq!(parse_ports("\u{a0}80/tcp\u{3000}").unwrap(), vec![PortInfo::TCP(80)]);
}

#[test]
fn white_space_inside_a_part_fails() {
    let err = parse_ports("8 0/tcp").unwrap_err();
    assert_eq!(err.kind, ParsePortErrorKind::InvalidPort);
    assert_eq!(err.token, "8 0");
    let err = parse_ports("80/t cp").unwrap_err();
    assert_eq!(err.kind, ParsePortErrorKind::InvalidProtocol);
    assert_eq!(err.token, "t cp");
}

#[test]
fn leading_zeros_are_read() {
    assert_eq!(parse_ports("0080/tcp").unwrap(), vec![PortInfo::TCP(80)]);
    assert_eq!(parse_ports("000000000000000000000065535/udp").unwrap(), vec![PortInfo::UDP(65535)]);
}

#[test]
fn largest_port_and_the_next_number() {
    assert_eq!(parse_ports("65535/tcp").unwrap(), vec![PortInfo::TCP(65535)]);
    let err = parse_ports("65536/tcp").unwrap_err();
    assert_eq!(err.kind, ParsePortErrorKind::InvalidPort);
    assert_eq!(err.token, "65536");
    let err = parse_ports("99999999999999999999999999/tcp").unwrap_err();
    assert_eq!(err.kind, ParsePortErrorKind::InvalidPort);
}

#[test]
fn port_that_is_no_number_fails() {
    for text in ["http/tcp", "-1/tcp", "+80/tcp", "8o/tcp", "/tcp", "80.0/udp", "\u{0661}/tcp"] {
        let err = parse_ports(text).unwrap_err();
        assert_eq!(err.kind, ParsePortErrorKind::InvalidPort, "{}", text);
    }
    assert_eq!(parse_ports("/tcp").unwrap_err().token, "");
    assert_eq!(parse_ports("http/tcp").unwrap_err().token, "http");
}

#[test]
fn element_without_slash_fails() {
    let err = parse_ports("80").unwrap_err();
    assert_eq!(err.kind, ParsePortErrorKind::MissingSlash);
    assert_eq!(err.token, "80");
    assert_eq!(err.message(), "missing '/' in port: 80");
    let err = parse_ports("  tcp ").unwrap_err();
    assert_eq!(err.kind, ParsePortErrorKind::MissingSlash);
    assert_eq!(err.token, "tcp");
}

#[test]
fn empty_element_fails() {
    for text in [",", "80/tcp,", ",80/tcp", "80/tcp,,53/udp", " "] {
        let err = parse_ports(text).unwrap_err();
        assert_eq!(err.kind, ParsePortErrorKind::MissingSlash, "{:?}", text);
        assert_eq!(err.token, "");
    }
}

#[test]
fn protocol_with_more_behind_it_fails() {
    let err = parse_ports("80/tcp/udp").unwrap_err();
    assert_eq!(err.kind, ParsePortErrorKind::InvalidProtocol);
    assert_eq!(err.token, "tcp/udp");
    let err = parse_ports("80/").unwrap_err();
    assert_eq!(err.kind, ParsePortErrorKind::InvalidProtocol);
    assert_eq!(err.token, "");
    let err = parse_ports("80/tcpx").unwrap_err();
    assert_eq!(err.token, "tcpx");
}

#[test]
fn first_bad_element_decides() {
    let err = parse_ports("80/tcp,81/xyz,abc/udp").unwrap_err();
    assert_eq!(err.kind, ParsePortErrorKind::InvalidProtocol);
    assert_eq!(err.token, "xyz");
    let err = parse_ports("80/tcp,abc/xyz").unwrap_err();
    assert_eq!(err.kind, ParsePortErrorKind::InvalidPort);
    assert_eq!(err.token, "abc");
}

#[test]
fn offending_text_is_kept_as_written() {
    let err = parse_ports("80/ SCTP ").unwrap_err();
    assert_eq!(err.token, "SCTP");
    let err = parse_ports("80/t\u{e9}p").unwrap_err();
    assert_eq!(err.token, "t\u{e9}p");
    assert_eq!(err.message(), "invalid protocol: t\u{e9}p");
}
