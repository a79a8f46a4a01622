//! The top-level four-stage pipeline.
//!
//! Each stage consumes a prefix of the line and hands the unconsumed
//! suffix to the next stage. The first stage to fail aborts the pipeline
//! with an error that carries the whole original line and a reason naming
//! the stage; no partial record is ever returned.

use vstd::prelude::*;
use crate::field::{all_dec_digits, all_alnum, all_hex_digits, dec_val, hex_val, fld};
use crate::ip::{
    IpData, IpSpecific, IpSpecificView, IpAddress, IpV4View, spec_ip_data, spec_ip_header,
    spec_ipv4_addr, parse_ip_data, parse_ip_header,
};
use crate::packet_filter::{
    Action, Dir, PacketFilter, PacketFilterView, Reason, RuleInfoView, action_token, dir_token,
    spec_packet_filter, parse_packet_filter,
};
use crate::protocol::{
    Ports, Protocol, ProtocolView, ProtoInfo, ProtoInfoView, ProtoNameView, TcpInfoView, UdpInfo,
    spec_proto_info, parse_proto_info,
};

verus! {

/// The stage at which a parse failed.
pub ghost enum Stage {
    PacketFilter,
    IpHeader,
    IpData,
    ProtocolInfo,
}

/// The reason text reported for a failure of each stage.
pub open spec fn stage_reason(st: Stage) -> Seq<char> {
    match st {
        Stage::PacketFilter => "Failed to parse packet filter"@,
        Stage::IpHeader => "Failed to parse IP header"@,
        Stage::IpData => "Failed to parse IP data"@,
        Stage::ProtocolInfo => "Failed to parse protocol-specific information"@,
    }
}

/// A terminal parse failure: the whole original line and a human-readable
/// reason naming the stage that failed.
#[derive(Debug, Clone, PartialEq, Eq)]
pub struct LogParseError {
    pub raw_log: String,
    pub reason: String,
}

impl LogParseError {
    /// A human-readable description of the failure.
    pub fn message(&self) -> (r: String)
        ensures
            r@ == "failed to parse: log "@ + self.raw_log@ + ", reason "@ + self.reason@,
    {
        let mut r = String::new();
        r.append("failed to parse: log ");
        r.append(self.raw_log.as_str());
        r.append(", reason ");
        r.append(self.reason.as_str());
        r
    }
}

/// A fully-decoded firewall log line.
#[derive(Debug, Clone, PartialEq, Eq)]
pub struct FwLog {
    /// The rule that triggered the log entry, with interface, reason,
    /// action and direction.
    pub packet_filter: PacketFilter,
    /// The version-specific IP header fields.
    pub ip_specific: IpSpecific,
    /// Packet length and source/destination addresses.
    pub ip_data: IpData,
    /// The transport protocol.
    pub protocol: Protocol,
    /// The protocol-specific trailer.
    pub proto_info: ProtoInfo,
}

/// Mathematical image of a [`FwLog`].
#[verifier::ext_equal]
pub ghost struct FwLogView {
    pub packet_filter: PacketFilterView,
    pub ip_specific: IpSpecificView,
    pub ip_data: IpData,
    pub protocol: ProtocolView,
    pub proto_info: ProtoInfoView,
}

impl View for FwLog {
    type V = FwLogView;

    open spec fn view(&self) -> FwLogView {
        FwLogView {
            packet_filter: self.packet_filter@,
            ip_specific: self.ip_specific@,
            ip_data: self.ip_data,
            protocol: self.protocol@,
            proto_info: self.proto_info@,
        }
    }
}

/// The whole line grammar: the four stages in order, each consuming a
/// prefix and passing the rest on; the first failure names its stage.
pub open spec fn spec_parse_log(s: Seq<char>) -> Result<FwLogView, Stage> {
    match spec_packet_filter(s) {
        None => Err(Stage::PacketFilter),
        Some((packet_filter, s1)) => match spec_ip_header(s1) {
            None => Err(Stage::IpHeader),
            Some(((protocol, ip_specific), s2)) => match spec_ip_data(
                s2,
                ip_specific is IpV4,
            ) {
                None => Err(Stage::IpData),
                Some((ip_data, s3)) => match spec_proto_info(s3, protocol.name) {
                    None => Err(Stage::ProtocolInfo),
                    Some((proto_info, s4)) => Ok(
                        FwLogView { packet_filter, ip_specific, ip_data, protocol, proto_info },
                    ),
                },
            },
        },
    }
}

/// Parses one log line into a fully-typed record, or reports the first
/// stage that failed together with the unmodified original line.
pub fn parse_log(input: &str) -> (r: Result<FwLog, LogParseError>)
    ensures
        match r {
            Ok(log) => spec_parse_log(input@) == Ok::<FwLogView, Stage>(log@),
            Err(e) => {
                &&& spec_parse_log(input@) matches Err(st)
                &&& e.raw_log@ == input@
                &&& e.reason@ == stage_reason(spec_parse_log(input@)->Err_0)
            },
        },
{
    let (next, packet_filter) = match parse_packet_filter(input) {
        Ok(x) => x,
        Err(e) => {
            return Err(
                LogParseError {
                    raw_log: input.to_owned(),
                    reason: String::from_str("Failed to parse packet filter"),
                },
            );
        },
    };
    let (next, (protocol, ip_header)) = match parse_ip_header(next) {
        Ok(x) => x,
        Err(e) => {
            return Err(
                LogParseError {
                    raw_log: input.to_owned(),
                    reason: String::from_str("Failed to parse IP header"),
                },
            );
        },
    };
    let (next, ip_data) = match parse_ip_data(next, &ip_header) {
        Ok(x) => x,
        Err(e) => {
            return Err(
                LogParseError {
                    raw_log: input.to_owned(),
                    reason: String::from_str("Failed to parse IP data"),
                },
            );
        },
    };
    let (_rest, proto_info) = match parse_proto_info(next, &protocol.name) {
        Ok(x) => x,
        Err(e) => {
            return Err(
                LogParseError {
                    raw_log: input.to_owned(),
                    reason: String::from_str("Failed to parse protocol-specific information"),
                },
            );
        },
    };
    let firewall_log = FwLog {
        packet_filter,
        ip_specific: ip_header,
        ip_data,
        protocol,
        proto_info,
    };
    Ok(firewall_log)
}

/// Structural agreement of every successfully parsed record: the protocol
/// tag decides the trailer case, the version marker decides the header
/// case and the address family of both addresses, and an IPv4 record
/// always carries version tag 4.
pub proof fn lemma_record_agreement(s: Seq<char>)
    requires
        spec_parse_log(s) is Ok,
    ensures
        ({
            let log = spec_parse_log(s)->Ok_0;
            &&& (log.protocol.name is Tcp <==> log.proto_info is TcpInfo)
            &&& (log.protocol.name is Udp <==> log.proto_info is UdpInfo)
            &&& (log.protocol.name is Other <==> log.proto_info is UnknownInfo)
            &&& (log.ip_specific is IpV4 <==> log.ip_data.src is V4)
            &&& (log.ip_specific is IpV4 <==> log.ip_data.dst is V4)
            &&& (log.ip_specific matches IpSpecificView::IpV4(v) ==> v.version == 4)
        }),
{
}

/// For any line that parses as a UDP record, the payload length is the
/// line's final token: appending a further delimited field to the line
/// makes the whole parse fail with a protocol-information stage error; the
/// trailing text is never silently dropped.
pub proof fn lemma_parse_log_udp_no_trailing(s: Seq<char>, u: Seq<char>)
    requires
        spec_parse_log(s) is Ok,
        spec_parse_log(s)->Ok_0.protocol.name is Udp,
        u.len() > 0,
        u[0] == ',',
    ensures
        spec_parse_log(s + u) == Err::<FwLogView, Stage>(Stage::ProtocolInfo),
{
    let s1 = spec_packet_filter(s)->Some_0.1;
    crate::packet_filter::lemma_packet_filter_append(s, u);
    let hdr = spec_ip_header(s1)->Some_0;
    let s2 = hdr.1;
    crate::ip::lemma_ip_header_append(s1, u);
    let v4 = hdr.0.1 is IpV4;
    let s3 = spec_ip_data(s2, v4)->Some_0.1;
    crate::ip::lemma_ip_data_append(s2, u, v4);
    crate::protocol::lemma_udp_no_trailing(s3, u);
}

/// Completeness of the whole IPv4/TCP line grammar: any line assembled in
/// the documented field order from well-formed tokens parses to a record
/// whose fields equal exactly those tokens converted to their typed form,
/// with version tag 4 and protocol tag TCP.
pub proof fn lemma_parse_log_v4_tcp_complete(
    rulenr: Seq<char>,
    sub: Seq<char>,
    anch: Seq<char>,
    label: Seq<char>,
    iface: Seq<char>,
    a: Action,
    d: Dir,
    tos: Seq<char>,
    ecn: Seq<char>,
    ttl: Seq<char>,
    id: Seq<char>,
    offset: Seq<char>,
    flags: Seq<char>,
    protonum: Seq<char>,
    length: Seq<char>,
    srctok: Seq<char>,
    dsttok: Seq<char>,
    sp: Seq<char>,
    dp: Seq<char>,
    dl: Seq<char>,
    fl: Seq<char>,
    sq: Seq<char>,
    ack: Seq<char>,
    win: Seq<char>,
    urg: Seq<char>,
    options: Seq<char>,
)
    requires
        rulenr.len() > 0,
        all_dec_digits(rulenr),
        dec_val(rulenr) <= u32::MAX as int,
        sub.len() == 0 || (all_dec_digits(sub) && dec_val(sub) <= u32::MAX as int),
        all_alnum(anch),
        label.len() > 0,
        all_alnum(label),
        forall|k: int| 0 <= k < iface.len() ==> iface[k] != ',',
        tos.len() >= 3,
        tos[0] == '0',
        tos[1] == 'x' || tos[1] == 'X',
        all_hex_digits(tos.skip(2)),
        hex_val(tos.skip(2)) <= 255,
        all_alnum(ecn),
        ttl.len() > 0,
        all_dec_digits(ttl),
        dec_val(ttl) <= u8::MAX as int,
        id.len() > 0,
        all_dec_digits(id),
        dec_val(id) <= u16::MAX as int,
        offset.len() > 0,
        all_dec_digits(offset),
        dec_val(offset) <= u16::MAX as int,
        flags.len() > 0,
        all_alnum(flags),
        protonum.len() > 0,
        all_dec_digits(protonum),
        dec_val(protonum) <= u8::MAX as int,
        length.len() > 0,
        all_dec_digits(length),
        dec_val(length) <= u16::MAX as int,
        forall|k: int| 0 <= k < srctok.len() ==> srctok[k] != ',',
        spec_ipv4_addr(srctok) is Some,
        forall|k: int| 0 <= k < dsttok.len() ==> dsttok[k] != ',',
        spec_ipv4_addr(dsttok) is Some,
        sp.len() > 0,
        all_dec_digits(sp),
        dec_val(sp) <= u16::MAX as int,
        dp.len() > 0,
        all_dec_digits(dp),
        dec_val(dp) <= u16::MAX as int,
        dl.len() > 0,
        all_dec_digits(dl),
        dec_val(dl) <= u32::MAX as int,
        forall|k: int| 0 <= k < fl.len() ==> fl[k] != ',',
        forall|k: int| 0 <= k < sq.len() ==> sq[k] != ',',
        ack.len() == 0 || (all_dec_digits(ack) && dec_val(ack) <= u32::MAX as int),
        win.len() > 0,
        all_dec_digits(win),
        dec_val(win) <= u32::MAX as int,
        urg.len() == 0 || (all_dec_digits(urg) && dec_val(urg) <= u32::MAX as int),
    ensures
        spec_parse_log(
            fld(
                rulenr,
                fld(
                    sub,
                    fld(
                        anch,
                        fld(
                            label,
                            fld(
                                iface,
                                fld(
                                    "match"@,
                                    fld(
                                        action_token(a),
                                        fld(
                                            dir_token(d),
                                            fld(
                                                "4"@,
                                                fld(
                                                    tos,
                                                    fld(
                                                        ecn,
                                                        fld(
                                                            ttl,
                                                            fld(
                                                                id,
                                                                fld(
                                                                    offset,
                                                                    fld(
                                                                        flags,
                                                                        fld(
                                                                            protonum,
                                                                            fld(
                                                                                "tcp"@,
                                                                                fld(
                                                                                    length,
                                                                                    fld(
                                                                                        srctok,
                                                                                        fld(
                                                                                            dsttok,
                                                                                            fld(
                                                                                                sp,
                                                                                                fld(
                                                                                                    dp,
                                                                                                    fld(
                                                                                                        dl,
                                                                                                        fld(
                                                                                                            fl,
                                                                                                            fld(
                                                                                                                sq,
                                                                                                                fld(
                                                                                                                    ack,
                                                                                                                    fld(
                                                                                                                        win,
                                                                                                                        fld(
                                                                                                                            urg,
                                                                                                                            options,
                                                                                                                        ),
                                                                                                                    ),
                                                                                                                ),
                                                                                                            ),
                                                                                                        ),
                                                                                                    ),
                                                                                                ),
                                                                                            ),
                                                                                        ),
                                                                                    ),
                                                                                ),
                                                                            ),
                                                                        ),
                                                                    ),
                                                                ),
                                                            ),
                                                        ),
                                                    ),
                                                ),
                                            ),
                                        ),
                                    ),
                                ),
                            ),
                        ),
                    ),
                ),
            ),
        ) == Ok::<FwLogView, Stage>(
            FwLogView {
                packet_filter: PacketFilterView {
                    rule_info: RuleInfoView {
                        number: dec_val(rulenr) as u32,
                        subrulenr: if sub.len() == 0 {
                            None
                        } else {
                            Some(dec_val(sub) as u32)
                        },
                        anchorname: if anch.len() == 0 {
                            None
                        } else {
                            Some(anch)
                        },
                        label,
                    },
                    interface: iface,
                    reason: Reason::Match,
                    action: a,
                    dir: d,
                },
                ip_specific: IpSpecificView::IpV4(
                    IpV4View {
                        version: 4,
                        tos: hex_val(tos.skip(2)) as u8,
                        ecn: if ecn.len() == 0 {
                            None
                        } else {
                            Some(ecn)
                        },
                        ttl: dec_val(ttl) as u8,
                        id: dec_val(id) as u16,
                        offset: dec_val(offset) as u16,
                        flags,
                    },
                ),
                ip_data: IpData {
                    length: dec_val(length) as u16,
                    src: IpAddress::V4(spec_ipv4_addr(srctok)->Some_0),
                    dst: IpAddress::V4(spec_ipv4_addr(dsttok)->Some_0),
                },
                protocol: ProtocolView { num: dec_val(protonum) as u8, name: ProtoNameView::Tcp },
                proto_info: ProtoInfoView::TcpInfo(
                    TcpInfoView {
                        ports: Ports {
                            srcport: dec_val(sp) as u16,
                            dstport: dec_val(dp) as u16,
                        },
                        data_len: dec_val(dl) as u32,
                        flags: fl,
                        sequence_number: sq,
                        ack_number: if ack.len() == 0 {
                            None
                        } else {
                            Some(dec_val(ack) as u32)
                        },
                        window: dec_val(win) as u32,
                        urg: if urg.len() == 0 {
                            None
                        } else {
                            Some(dec_val(urg) as u32)
                        },
                        options,
                    },
                ),
            },
        ),
{
    reveal_strlit("tcp");
    assert(all_alnum("tcp"@)) by {
        assert forall|k: int| 0 <= k < "tcp"@.len() implies crate::field::is_alnum(
            #[trigger] "tcp"@[k],
        ) by {
            assert("tcp"@[0] == 't' && "tcp"@[1] == 'c' && "tcp"@[2] == 'p');
        }
    }
    let tcp_part = fld(sp, fld(dp, fld(dl, fld(fl, fld(sq, fld(ack, fld(win, fld(urg, options))))))));
    let data_part = fld(length, fld(srctok, fld(dsttok, tcp_part)));
    let hdr_part = fld(
        "4"@,
        fld(
            tos,
            fld(
                ecn,
                fld(ttl, fld(id, fld(offset, fld(flags, fld(protonum, fld("tcp"@, data_part)))))),
            ),
        ),
    );
    crate::packet_filter::lemma_packet_filter_intro(rulenr, sub, anch, label, iface, a, d, hdr_part);
    crate::ip::lemma_ipv4_header_intro(tos, ecn, ttl, id, offset, flags, protonum, "tcp"@, data_part);
    crate::ip::lemma_ipv4_data_intro(length, srctok, dsttok, tcp_part);
    crate::protocol::lemma_tcp_info_intro(sp, dp, dl, fl, sq, ack, win, urg, options);
}

/// Completeness of the whole IPv4/UDP line grammar: any line assembled in
/// the documented field order from well-formed tokens, with the payload
/// length as the final token, parses to a record whose fields equal
/// exactly those tokens converted to their typed form.
#[verifier::rlimit(60)]
pub proof fn lemma_parse_log_v4_udp_complete(
    rulenr: Seq<char>,
    sub: Seq<char>,
    anch: Seq<char>,
    label: Seq<char>,
    iface: Seq<char>,
    a: Action,
    d: Dir,
    tos: Seq<char>,
    ecn: Seq<char>,
    ttl: Seq<char>,
    id: Seq<char>,
    offset: Seq<char>,
    flags: Seq<char>,
    protonum: Seq<char>,
    length: Seq<char>,
    srctok: Seq<char>,
    dsttok: Seq<char>,
    sp: Seq<char>,
    dp: Seq<char>,
    dl: Seq<char>,
)
    requires
        rulenr.len() > 0,
        all_dec_digits(rulenr),
        dec_val(rulenr) <= u32::MAX as int,
        sub.len() == 0 || (all_dec_digits(sub) && dec_val(sub) <= u32::MAX as int),
        all_alnum(anch),
        label.len() > 0,
        all_alnum(label),
        forall|k: int| 0 <= k < iface.len() ==> iface[k] != ',',
        tos.len() >= 3,
        tos[0] == '0',
        tos[1] == 'x' || tos[1] == 'X',
        all_hex_digits(tos.skip(2)),
        hex_val(tos.skip(2)) <= 255,
        all_alnum(ecn),
        ttl.len() > 0,
        all_dec_digits(ttl),
        dec_val(ttl) <= u8::MAX as int,
        id.len() > 0,
        all_dec_digits(id),
        dec_val(id) <= u16::MAX as int,
        offset.len() > 0,
        all_dec_digits(offset),
        dec_val(offset) <= u16::MAX as int,
        flags.len() > 0,
        all_alnum(flags),
        protonum.len() > 0,
        all_dec_digits(protonum),
        dec_val(protonum) <= u8::MAX as int,
        length.len() > 0,
        all_dec_digits(length),
        dec_val(length) <= u16::MAX as int,
        forall|k: int| 0 <= k < srctok.len() ==> srctok[k] != ',',
        spec_ipv4_addr(srctok) is Some,
        forall|k: int| 0 <= k < dsttok.len() ==> dsttok[k] != ',',
        spec_ipv4_addr(dsttok) is Some,
        sp.len() > 0,
        all_dec_digits(sp),
        dec_val(sp) <= u16::MAX as int,
        dp.len() > 0,
        all_dec_digits(dp),
        dec_val(dp) <= u16::MAX as int,
        dl.len() > 0,
        all_dec_digits(dl),
        dec_val(dl) <= u32::MAX as int,
    ensures
        spec_parse_log(
            fld(
                rulenr,
                fld(
                    sub,
                    fld(
                        anch,
                        fld(
                            label,
                            fld(
                                iface,
                                fld(
                                    "match"@,
                                    fld(
                                        action_token(a),
                                        fld(
                                            dir_token(d),
                                            fld(
                                                "4"@,
                                                fld(
                                                    tos,
                                                    fld(
                                                        ecn,
                                                        fld(
                                                            ttl,
                                                            fld(
                                                                id,
                                                                fld(
                                                                    offset,
                                                                    fld(
                                                                        flags,
                                                                        fld(
                                                                            protonum,
                                                                            fld(
                                                                                "udp"@,
                                                                                fld(
                                                                                    length,
                                                                                    fld(
                                                                                        srctok,
                                                                                        fld(
                                                                                            dsttok,
                                                                                            fld(
                                                                                                sp,
                                                                                                fld(
                                                                                                    dp,
                                                                                                    dl,
                                                                                                ),
                                                                                            ),
                                                                                        ),
                                                                                    ),
                                                                                ),
                                                                            ),
                                                                        ),
                                                                    ),
                                                                ),
                                                            ),
                                                        ),
                                                    ),
                                                ),
                                            ),
                                        ),
                                    ),
                                ),
                            ),
                        ),
                    ),
                ),
            ),
        ) == Ok::<FwLogView, Stage>(
            FwLogView {
                packet_filter: PacketFilterView {
                    rule_info: RuleInfoView {
                        number: dec_val(rulenr) as u32,
                        subrulenr: if sub.len() == 0 {
                            None
                        } else {
                            Some(dec_val(sub) as u32)
                        },
                        anchorname: if anch.len() == 0 {
                            None
                        } else {
                            Some(anch)
                        },
                        label,
                    },
                    interface: iface,
                    reason: Reason::Match,
                    action: a,
                    dir: d,
                },
                ip_specific: IpSpecificView::IpV4(
                    IpV4View {
                        version: 4,
                        tos: hex_val(tos.skip(2)) as u8,
                        ecn: if ecn.len() == 0 {
                            None
                        } else {
                            Some(ecn)
                        },
                        ttl: dec_val(ttl) as u8,
                        id: dec_val(id) as u16,
                        offset: dec_val(offset) as u16,
                        flags,
                    },
                ),
                ip_data: IpData {
                    length: dec_val(length) as u16,
                    src: IpAddress::V4(spec_ipv4_addr(srctok)->Some_0),
                    dst: IpAddress::V4(spec_ipv4_addr(dsttok)->Some_0),
                },
                protocol: ProtocolView { num: dec_val(protonum) as u8, name: ProtoNameView::Udp },
                proto_info: ProtoInfoView::UdpInfo(
                    UdpInfo {
                        ports: Ports {
                            srcport: dec_val(sp) as u16,
                            dstport: dec_val(dp) as u16,
                        },
                        data_len: dec_val(dl) as u32,
                    },
                ),
            },
        ),
{
    reveal_strlit("tcp");
    reveal_strlit("udp");
    assert("udp"@[0] == 'u' && "tcp"@[0] == 't');
    assert("udp"@ != "tcp"@);
    assert(crate::protocol::spec_proto_name("udp"@) == ProtoNameView::Udp);
    assert(all_alnum("udp"@)) by {
        assert forall|k: int| 0 <= k < "udp"@.len() implies crate::field::is_alnum(
            #[trigger] "udp"@[k],
        ) by {
            assert("udp"@[0] == 'u' && "udp"@[1] == 'd' && "udp"@[2] == 'p');
        }
    }
    let udp_part = fld(sp, fld(dp, dl));
    let data_part = fld(length, fld(srctok, fld(dsttok, udp_part)));
    let hdr_part = fld(
        "4"@,
        fld(
            tos,
            fld(
                ecn,
                fld(ttl, fld(id, fld(offset, fld(flags, fld(protonum, fld("udp"@, data_part)))))),
            ),
        ),
    );
    crate::packet_filter::lemma_packet_filter_intro(rulenr, sub, anch, label, iface, a, d, hdr_part);
    crate::ip::lemma_ipv4_header_intro(tos, ecn, ttl, id, offset, flags, protonum, "udp"@, data_part);
    crate::ip::lemma_ipv4_data_intro(length, srctok, dsttok, udp_part);
    crate::protocol::lemma_udp_info_intro(sp, dp, dl);
}

} // verus!
