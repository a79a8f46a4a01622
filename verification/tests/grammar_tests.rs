use std::str::FromStr;

use senpa::ip::{parse_ip_header, parse_ipv4_addr, parse_ipv6_addr, IpSpecific, Ipv4Address, Ipv6Address};
use senpa::log::LogParseError;
use senpa::packet_filter::{parse_rule_info, Action, Dir, Reason, RuleInfo};
use senpa::protocol::{
    parse_proto_info, parse_src_dst_ports, parse_udp_info, Ports, ProtoInfo, ProtoName, UdpInfo,
};
use senpa::parse_log;

#[test]
fn udp_trailing_text_is_error() {
    // The UDP payload length must be the line's final token: a further
    // delimited field is an error, never silent truncation.
    let log = "96,,,fae559338f65e11c53669fc3642c93c2,vlan0.20,match,pass,out,\
        4,0x0,,127,58940,0,none,17,udp,\
        106,192.168.10.15,192.168.20.11,49678,161,86,junk";
    assert_eq!(
        Err(LogParseError {
            raw_log: log.into(),
            reason: "Failed to parse protocol-specific information".into()
        }),
        parse_log(log)
    );

    let log2 = "96,,,fae559338f65e11c53669fc3642c93c2,vlan0.20,match,pass,out,\
        4,0x0,,127,58940,0,none,17,udp,\
        106,192.168.10.15,192.168.20.11,49678,161,86,12";
    assert!(parse_log(log2).is_err());
}

#[test]
fn udp_final_token_direct() {
    assert_eq!(
        Ok((
            "",
            ProtoInfo::UdpInfo(UdpInfo {
                ports: Ports {
                    srcport: 1,
                    dstport: 2
                },
                data_len: 86
            })
        )),
        parse_udp_info("1,2,86")
    );
    assert!(parse_udp_info("1,2,86,").is_err());
    assert!(parse_udp_info("1,2,86x").is_err());
    assert!(parse_udp_info("1,2,").is_err());
}

#[test]
fn ipv6_line_with_unknown_protocol() {
    // IPv6 branch: traffic class, flow label, hop limit, then protocol
    // name *before* protocol number; the unknown-protocol trailer keeps
    // the whole remainder verbatim, embedded commas included.
    let log = "96,,,deadbeef,vlan0.20,match,block,in,\
        6,0x20,flow1,64,ipv6-icmp,58,\
        104,2001:0db8:85a3:0000:0000:8a2e:0370:7334,fe80::1,some,opaque rest";
    let flog = parse_log(log).unwrap();
    assert_eq!(Action::Block, flog.packet_filter.action);
    assert_eq!(Dir::In, flog.packet_filter.dir);
    match &flog.ip_specific {
        IpSpecific::Ipv6(v6) => {
            assert_eq!(0x20, v6.traffic_class);
            assert_eq!("flow1", &v6.flow_label);
            assert_eq!(64, v6.hoplimit);
        }
        IpSpecific::IpV4(_) => panic!("expected an IPv6 header"),
    }
    assert_eq!(58, flog.protocol.num);
    assert_eq!(ProtoName::Other("ipv6-icmp".into()), flog.protocol.name);
    assert_eq!(104, flog.ip_data.length);
    assert_eq!(
        ProtoInfo::UnknownInfo("some,opaque rest".into()),
        flog.proto_info
    );
}

#[test]
fn ipv6_tcp_line() {
    let log = "96,,,abc,em0,match,pass,in,6,0x0,fl0,64,tcp,6,\
        40,::1,fe80::1,80,443,0,S,1,,512,,opts";
    let flog = parse_log(log).unwrap();
    assert_eq!(ProtoName::Tcp, flog.protocol.name);
    assert_eq!(6, flog.protocol.num);
    match &flog.ip_specific {
        IpSpecific::Ipv6(v6) => assert_eq!(64, v6.hoplimit),
        IpSpecific::IpV4(_) => panic!("expected an IPv6 header"),
    }
    match &flog.proto_info {
        ProtoInfo::TcpInfo(tcp) => {
            assert_eq!(80, tcp.ports.srcport);
            assert_eq!(443, tcp.ports.dstport);
            assert_eq!("opts", &tcp.options);
        }
        _ => panic!("expected a TCP trailer"),
    }
}

#[test]
fn unknown_protocol_trailer_verbatim() {
    let other = ProtoName::Other("igmp".into());
    assert_eq!(
        Ok(("", ProtoInfo::UnknownInfo("rest,with,commas".into()))),
        parse_proto_info("rest,with,commas", &other)
    );
    assert_eq!(
        Ok(("", ProtoInfo::UnknownInfo("".into()))),
        parse_proto_info("", &other)
    );
}

#[test]
fn ipv6_address_compressed_forms() {
    assert_eq!(
        Ok(("", Ipv6Address(0xfe80, 0, 0, 0, 0, 0, 0, 1))),
        parse_ipv6_addr("fe80::1")
    );
    assert_eq!(Ok(("", Ipv6Address(0, 0, 0, 0, 0, 0, 0, 0))), parse_ipv6_addr("::"));
    assert_eq!(Ok(("", Ipv6Address(0, 0, 0, 0, 0, 0, 0, 1))), parse_ipv6_addr("::1"));
    assert_eq!(Ok(("", Ipv6Address(1, 0, 0, 0, 0, 0, 0, 0))), parse_ipv6_addr("1::"));
    assert_eq!(
        Ok(("", Ipv6Address(1, 2, 3, 4, 5, 6, 7, 0))),
        parse_ipv6_addr("1:2:3:4:5:6:7::")
    );
    assert_eq!(
        Ok(("", Ipv6Address(1, 2, 3, 4, 5, 6, 7, 8))),
        parse_ipv6_addr("1:2:3:4:5:6:7:8")
    );
}

#[test]
fn ipv6_address_invalid_forms() {
    assert!(parse_ipv6_addr(":").is_err());
    assert!(parse_ipv6_addr(":::").is_err());
    assert!(parse_ipv6_addr("1:2:3:4:5:6:7").is_err());
    assert!(parse_ipv6_addr("1:2:3:4:5:6:7:8:9").is_err());
    assert!(parse_ipv6_addr("12345::").is_err());
    assert!(parse_ipv6_addr("1::2::3").is_err());
    assert!(parse_ipv6_addr("::1:2:3:4:5:6:7:8").is_err());
    assert!(parse_ipv6_addr("1:").is_err());
    assert!(parse_ipv6_addr(":1").is_err());
    assert!(parse_ipv6_addr("").is_err());
}

#[test]
fn ipv4_address_forms() {
    assert_eq!(Ok(("", Ipv4Address(0, 0, 0, 0))), parse_ipv4_addr("0.0.0.0"));
    assert_eq!(
        Ok(("", Ipv4Address(255, 255, 255, 255))),
        parse_ipv4_addr("255.255.255.255")
    );
    assert!(parse_ipv4_addr("256.1.1.1").is_err());
    assert!(parse_ipv4_addr("01.2.3.4").is_err());
    assert!(parse_ipv4_addr("1.2.3").is_err());
    assert!(parse_ipv4_addr("1.2.3.4.5").is_err());
    assert!(parse_ipv4_addr("").is_err());
    // The other family's spelling is not accepted.
    assert!(parse_ipv4_addr("::1").is_err());
    assert!(parse_ipv6_addr("1.2.3.4").is_err());
}

#[test]
fn hex_field_forms() {
    // `0X` is as good as `0x`; the prefix and at least one digit are
    // mandatory; the value must fit in a byte.
    let header = parse_ip_header("4,0X1f,ect0,127,1,0,DF,6,tcp,REM").unwrap();
    assert_eq!("REM", header.0);
    match &(header.1).1 {
        IpSpecific::IpV4(v4) => {
            assert_eq!(31, v4.tos);
            assert_eq!(Some("ect0".to_string()), v4.ecn);
        }
        IpSpecific::Ipv6(_) => panic!("expected an IPv4 header"),
    }
    assert!(parse_ip_header("4,0x,,127,1,0,DF,6,tcp,REM").is_err());
    assert!(parse_ip_header("4,1f,,127,1,0,DF,6,tcp,REM").is_err());
    assert!(parse_ip_header("4,0x100,,127,1,0,DF,6,tcp,REM").is_err());
    assert!(parse_ip_header("4,0xgg,,127,1,0,DF,6,tcp,REM").is_err());
}

#[test]
fn version_marker_forms() {
    assert!(parse_ip_header("5,0x0,,127,1,0,DF,6,tcp,REM").is_err());
    assert!(parse_ip_header("44,0x0,,127,1,0,DF,6,tcp,REM").is_err());
    assert!(parse_ip_header("46,0x0,,127,1,0,DF,6,tcp,REM").is_err());
}

#[test]
fn ttl_bounds() {
    assert!(parse_ip_header("4,0x0,,255,1,0,DF,6,tcp,REM").is_ok());
    assert!(parse_ip_header("4,0x0,,256,1,0,DF,6,tcp,REM").is_err());
}

#[test]
fn optional_fields_present() {
    // A present, well-formed run decodes to a populated value; an empty
    // run decodes to an absent one; they are never conflated.
    assert_eq!(
        Ok((
            "rest",
            RuleInfo {
                number: 96,
                subrulenr: Some(7),
                anchorname: Some("anchor0".into()),
                label: "label0".into(),
            }
        )),
        parse_rule_info("96,7,anchor0,label0,rest")
    );
    assert!(parse_rule_info("96,x,anchor0,label0,rest").is_err());
    assert!(parse_rule_info("96,7,an-chor,label0,rest").is_err());
    assert!(parse_rule_info("96,,,,").is_err());
}

#[test]
fn rule_number_bounds() {
    assert!(parse_rule_info("4294967295,,,abc,").is_ok());
    assert!(parse_rule_info("4294967296,,,abc,").is_err());
    assert!(parse_rule_info(",,,abc,").is_err());
}

#[test]
fn port_bounds() {
    assert_eq!(
        Ok((
            "x",
            Ports {
                srcport: 65535,
                dstport: 0
            }
        )),
        parse_src_dst_ports("65535,0,x")
    );
    assert!(parse_src_dst_ports("65536,0,x").is_err());
}

#[test]
fn tcp_optional_ack_and_urg() {
    let log = "96,,,abc,em0,match,pass,out,4,0x0,,64,1,0,DF,6,tcp,\
        40,1.2.3.4,5.6.7.8,1,2,0,S,100:200,7,4294967295,9,";
    let flog = parse_log(log).unwrap();
    match flog.proto_info {
        ProtoInfo::TcpInfo(tcp) => {
            assert_eq!(Some(7), tcp.ack_number);
            assert_eq!(4294967295, tcp.window);
            assert_eq!(Some(9), tcp.urg);
            assert_eq!("100:200", &tcp.sequence_number);
            assert_eq!("", &tcp.options);
        }
        _ => panic!("expected a TCP trailer"),
    }
}

#[test]
fn error_message_text() {
    let e = LogParseError {
        raw_log: "x".into(),
        reason: "y".into(),
    };
    assert_eq!("failed to parse: log x, reason y", &e.message());
    let d = senpa::packet_filter::ParseDirError;
    assert_eq!("Invalid direction. Expected 'in' or 'out'.", &d.message());
}

#[test]
fn empty_and_truncated_lines() {
    assert_eq!(
        Err(LogParseError {
            raw_log: "".into(),
            reason: "Failed to parse packet filter".into()
        }),
        parse_log("")
    );
    // The line ends after the filter-decision prefix: the next stage fails.
    let truncated = "96,,,abc,em0,match,pass,out,";
    assert_eq!(
        Err(LogParseError {
            raw_log: truncated.into(),
            reason: "Failed to parse IP header".into()
        }),
        parse_log(truncated)
    );
}

#[test]
fn from_str_keywords() {
    assert_eq!(Ok(Dir::In), Dir::from_str("in"));
    assert_eq!(Ok(Dir::Out), Dir::from_str("out"));
    assert!(Dir::from_str("inner").is_err());
    assert_eq!(Ok(Reason::Match), Reason::from_str("match"));
    assert!(Reason::from_str("matcha").is_err());
    assert_eq!(Ok(Action::Reject), Action::from_str("reject"));
    assert!(Action::from_str("rejected").is_err());
    assert_eq!(Ok(ProtoName::Tcp), ProtoName::from_str("tcp"));
    assert_eq!(Ok(ProtoName::Udp), ProtoName::from_str("udp"));
    assert_eq!(
        Ok(ProtoName::Other("foo".into())),
        ProtoName::from_str("foo")
    );
}
