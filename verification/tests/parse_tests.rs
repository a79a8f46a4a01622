use senpa::ip::{
    parse_ip_header, parse_ipv4_addr, parse_ipv6_addr, IpAddress, IpData, IpSpecific, IpV4,
    Ipv4Address, Ipv6Address,
};
use senpa::log::LogParseError;
use senpa::packet_filter::{
    parse_action, parse_dir, parse_packet_filter, parse_reason, parse_rule_info, Action, Dir,
    PacketFilter, Reason, RuleInfo,
};
use senpa::protocol::{Ports, ProtoInfo, ProtoName, Protocol, TcpInfo, UdpInfo};
use senpa::{parse_log, FwLog};

#[test]
fn parse_ipv4_addr_test() {
    assert_eq!(
        Ok(("", Ipv4Address(192, 168, 10, 2))),
        parse_ipv4_addr("192.168.10.2")
    )
}

#[test]
fn parse_ipv4_addr_fail() {
    assert!(parse_ipv4_addr("192.168.10.a").is_err())
}

#[test]
fn parse_ipv6_addr_test() {
    assert_eq!(
        Ok((
            "",
            Ipv6Address(0x2001, 0x0db8, 0x85a3, 0x0000, 0x0000, 0x8a2e, 0x0370, 0x7334)
        )),
        parse_ipv6_addr("2001:0db8:85a3:0000:0000:8a2e:0370:7334")
    )
}

#[test]
fn parse_ipv6_addr_fail() {
    assert!(parse_ipv6_addr("2001:0kb8:85a3:0000:0000:8a2e:0370:7334").is_err())
}

#[test]
fn parse_ip_header_test() {
    let ipv4_header = "4,0x0,,127,58940,0,none,17,udp,\
        106,192.168.10.15,192.168.20.11,49678,161,86";

    let expectedv4 = IpSpecific::IpV4(IpV4 {
        version: 4,
        tos: 0,
        ecn: None,
        ttl: 127,
        id: 58940,
        offset: 0,
        flags: "none".into(),
    });

    assert_eq!(
        Ok((
            "106,192.168.10.15,192.168.20.11,49678,161,86",
            (
                Protocol {
                    name: ProtoName::Udp,
                    num: 17
                },
                expectedv4
            )
        )),
        parse_ip_header(ipv4_header)
    );
}

#[test]
fn it_works_tcp() {
    let log = "96,,,fae559338f65e11c53669fc3642c93c2,vlan0.20,match,pass,out,\
        4,0x0,,127,61633,0,DF,6,tcp,\
        52,192.168.10.15,192.168.20.14,\
        52461,9100,0,S,3442468761,,64240,,mss;nop;wscale;nop;nop;sackOK";
    let flog = parse_log(&log).unwrap();
    assert_eq!(
        FwLog {
            packet_filter: PacketFilter {
                rule_info: RuleInfo {
                    number: 96,
                    subrulenr: None,
                    anchorname: None,
                    label: "fae559338f65e11c53669fc3642c93c2".into(),
                },
                interface: "vlan0.20".into(),
                reason: Reason::Match,
                action: Action::Pass,
                dir: Dir::Out,
            },
            ip_specific: IpSpecific::IpV4(IpV4 {
                version: 4,
                tos: 0,
                ecn: None,
                ttl: 127,
                id: 61633,
                offset: 0,
                flags: "DF".into(),
            },),
            ip_data: IpData {
                length: 52,
                src: IpAddress::V4(Ipv4Address(192, 168, 10, 15)),
                dst: IpAddress::V4(Ipv4Address(192, 168, 20, 14)),
            },
            protocol: Protocol {
                num: 6,
                name: ProtoName::Tcp
            },
            proto_info: ProtoInfo::TcpInfo(TcpInfo {
                ports: Ports {
                    srcport: 52461,
                    dstport: 9100,
                },
                data_len: 0,
                flags: "S".into(),
                sequence_number: "3442468761".into(),
                ack_number: None,
                window: 64240,
                urg: None,
                options: "mss;nop;wscale;nop;nop;sackOK".into(),
            },),
        },
        flog
    );
}

#[test]
fn it_works_udp() {
    let log = "96,,,fae559338f65e11c53669fc3642c93c2,vlan0.20,match,pass,out,\
        4,0x0,,127,58940,0,none,17,udp,\
        106,192.168.10.15,192.168.20.11,49678,161,86";
    let flog = parse_log(&log).unwrap();
    assert_eq!(
        (FwLog {
            packet_filter: PacketFilter {
                rule_info: RuleInfo {
                    number: 96,
                    subrulenr: None,
                    anchorname: None,
                    label: "fae559338f65e11c53669fc3642c93c2".into(),
                },
                interface: "vlan0.20".into(),
                reason: Reason::Match,
                action: Action::Pass,
                dir: Dir::Out,
            },
            ip_specific: IpSpecific::IpV4(IpV4 {
                version: 4,
                tos: 0,
                ecn: None,
                ttl: 127,
                id: 58940,
                offset: 0,
                flags: "none".into(),
            },),
            ip_data: IpData {
                length: 106,
                src: IpAddress::V4(Ipv4Address(192, 168, 10, 15)),
                dst: IpAddress::V4(Ipv4Address(192, 168, 20, 11)),
            },
            protocol: Protocol {
                num: 17,
                name: ProtoName::Udp
            },
            proto_info: ProtoInfo::UdpInfo(UdpInfo {
                ports: Ports {
                    srcport: 49678,
                    dstport: 161,
                },
                data_len: 86,
            },),
        }),
        flog
    );
}

#[test]
fn packet_filter_fail() {
    let log = "ab,,,fae559338f65e11c53669fc3642c93c2,vlan0.20,match,pass,out,\
        4,0x0,,127,58940,0,none,17,udp,\
        106,192.168.10.15,192.168.20.11,49678,161,86";
    assert_eq!(
        Err(LogParseError {
            raw_log: log.into(),
            reason: "Failed to parse packet filter".into()
        }),
        parse_log(log)
    );
}

#[test]
fn ip_header_fail() {
    let log = "96,,,fae559338f65e11c53669fc3642c93c2,vlan0.20,match,pass,out,\
        4,0x0,,127ab,58940,0,none,17,udp,\
        106,192.168.10.15,192.168.20.11,49678,161,86";
    assert_eq!(
        Err(LogParseError {
            raw_log: log.into(),
            reason: "Failed to parse IP header".into()
        }),
        parse_log(log)
    );
}

#[test]
fn ip_data_fail() {
    let log = "96,,,fae559338f65e11c53669fc3642c93c2,vlan0.20,match,pass,out,\
        4,0x0,,127,58940,0,none,17,udp,\
        106,192.168.a10.15,192.168.20.11,49678,161,86";
    assert_eq!(
        Err(LogParseError {
            raw_log: log.into(),
            reason: "Failed to parse IP data".into()
        }),
        parse_log(log)
    );
}

#[test]
fn protocol_specific_fail() {
    let log = "96,,,fae559338f65e11c53669fc3642c93c2,vlan0.20,match,pass,out,\
        4,0x0,,127,58940,0,none,17,udp,\
        106,192.168.10.15,192.168.20.11,49678as,161,86";
    assert_eq!(
        Err(LogParseError {
            raw_log: log.into(),
            reason: "Failed to parse protocol-specific information".into()
        }),
        parse_log(log)
    );
}

#[test]
fn test_parse_dir() {
    let in_dir = parse_dir("in,");
    assert_eq!(Ok((",", Dir::In)), in_dir);

    let out_dir = parse_dir("out,");
    assert_eq!(Ok((",", Dir::Out)), out_dir);

    let fail_dir = parse_dir("inner,");
    assert!(fail_dir.is_err());

    let fail_dir = parse_dir("outer,");
    assert!(fail_dir.is_err());

    let fail_dir = parse_dir("wrong,");
    assert!(fail_dir.is_err());
}

#[test]
fn test_parse_reason() {
    let match_reason = parse_reason("match,");
    assert_eq!(Ok((",", Reason::Match)), match_reason);

    let fail_reason = parse_reason("matcha,");
    assert!(fail_reason.is_err());

    let fail_reason = parse_reason("wrong,");
    assert!(fail_reason.is_err());
}

#[test]
fn test_parse_action() {
    let action_pass = parse_action("pass,");
    assert_eq!(Ok((",", Action::Pass)), action_pass);

    let action_pass_fail = parse_action("passerella,");
    assert!(action_pass_fail.is_err());

    let action_block = parse_action("block,");
    assert_eq!(Ok((",", Action::Block)), action_block);

    let action_block_fail = parse_action("blocked,");
    assert!(action_block_fail.is_err());

    let action_reject = parse_action("reject,");
    assert_eq!(Ok((",", Action::Reject)), action_reject);

    let action_block_fail = parse_action("blocked,");
    assert!(action_block_fail.is_err());

    let actio_wrong_fail = parse_action("wrong,");
    assert!(actio_wrong_fail.is_err())
}

#[test]
fn test_parse_rule() {
    let rule_info = "15,,,fae559338f65e11c53669fc3642c93c2,";
    let parsed = parse_rule_info(rule_info);

    assert_eq!(
        Ok((
            "",
            RuleInfo {
                number: 15,
                subrulenr: None,
                anchorname: None,
                label: "fae559338f65e11c53669fc3642c93c2".into(),
            }
        )),
        parsed
    )
}

#[test]
fn test_parse_packet_filter() {
    let packet_filter =
        parse_packet_filter("15,,,fae559338f65e11c53669fc3642c93c2,vlan0.20,match,block,in,other,...");
    assert_eq!(
        Ok((
            "other,...",
            PacketFilter {
                rule_info: RuleInfo {
                    number: 15,
                    subrulenr: None,
                    anchorname: None,
                    label: "fae559338f65e11c53669fc3642c93c2".into()
                },
                interface: "vlan0.20".into(),
                reason: Reason::Match,
                action: Action::Block,
                dir: Dir::In
            }
        )),
        packet_filter
    )
}

#[test]
fn test_csv() {
    assert_eq!(
        Ok(("other...", 10)),
        senpa::field::dec_u32_field("10,other...")
    );
}
