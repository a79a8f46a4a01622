//! Protocol identity and the protocol-specific trailer stage.
//!
//! The protocol-name token decoded by the IP header stage selects the
//! trailer grammar: TCP fields, UDP fields, or an opaque rest-of-line for
//! unrecognized protocols. The UDP payload length must be the final token
//! of the line; the TCP options field and the unknown-protocol trailer
//! absorb the whole remainder verbatim, embedded commas included.

use vstd::prelude::*;
use crate::field::{
    SyntaxError, all_dec_digits, dec_val, spec_dec_field, spec_dec_tok, spec_text_field,
    spec_opt_dec_field, dec_field, opt_dec_field, text_field, dec_of_tok, str_eq,
    lemma_field_append, lemma_tok_len, tok_len, fld,
};

verus! {

/// A transport-protocol name: the closed set plus a catch-all carrying the
/// literal token.
#[derive(Debug, Clone, PartialEq, Eq)]
pub enum ProtoName {
    Tcp,
    Udp,
    Other(String),
}

/// Mathematical image of a [`ProtoName`].
pub ghost enum ProtoNameView {
    Tcp,
    Udp,
    Other(Seq<char>),
}

impl View for ProtoName {
    type V = ProtoNameView;

    open spec fn view(&self) -> ProtoNameView {
        match self {
            ProtoName::Tcp => ProtoNameView::Tcp,
            ProtoName::Udp => ProtoNameView::Udp,
            ProtoName::Other(s) => ProtoNameView::Other(s@),
        }
    }
}

/// The protocol-name token mapped to its identity; a total function, any
/// unrecognized token is kept verbatim.
pub open spec fn spec_proto_name(t: Seq<char>) -> ProtoNameView {
    if t == "tcp"@ {
        ProtoNameView::Tcp
    } else if t == "udp"@ {
        ProtoNameView::Udp
    } else {
        ProtoNameView::Other(t)
    }
}

/// Maps a protocol-name token to its identity.
pub(crate) fn proto_name_of_tok(t: &str) -> (r: ProtoName)
    ensures
        r@ == spec_proto_name(t@),
{
    if str_eq(t, "tcp") {
        ProtoName::Tcp
    } else if str_eq(t, "udp") {
        ProtoName::Udp
    } else {
        ProtoName::Other(t.to_owned())
    }
}

impl core::str::FromStr for ProtoName {
    type Err = ();

    fn from_str(s: &str) -> Result<ProtoName, ()> {
        Ok(proto_name_of_tok(s))
    }
}

/// The transport protocol: its number and its name.
#[derive(Debug, Clone, PartialEq, Eq)]
pub struct Protocol {
    pub num: u8,
    pub name: ProtoName,
}

/// Mathematical image of a [`Protocol`].
#[verifier::ext_equal]
pub ghost struct ProtocolView {
    pub num: u8,
    pub name: ProtoNameView,
}

impl View for Protocol {
    type V = ProtocolView;

    open spec fn view(&self) -> ProtocolView {
        ProtocolView { num: self.num, name: self.name@ }
    }
}

/// Source and destination ports.
#[derive(Debug, Clone, Copy, PartialEq, Eq, Structural)]
pub struct Ports {
    pub srcport: u16,
    pub dstport: u16,
}

/// The TCP trailer.
#[derive(Debug, Clone, PartialEq, Eq)]
pub struct TcpInfo {
    pub ports: Ports,
    pub data_len: u32,
    pub flags: String,
    /// Kept as raw text: the field may denote a single value or a range.
    pub sequence_number: String,
    pub ack_number: Option<u32>,
    pub window: u32,
    pub urg: Option<u32>,
    /// The whole rest of the line, taken verbatim.
    pub options: String,
}

/// Mathematical image of a [`TcpInfo`].
#[verifier::ext_equal]
pub ghost struct TcpInfoView {
    pub ports: Ports,
    pub data_len: u32,
    pub flags: Seq<char>,
    pub sequence_number: Seq<char>,
    pub ack_number: Option<u32>,
    pub window: u32,
    pub urg: Option<u32>,
    pub options: Seq<char>,
}

impl View for TcpInfo {
    type V = TcpInfoView;

    open spec fn view(&self) -> TcpInfoView {
        TcpInfoView {
            ports: self.ports,
            data_len: self.data_len,
            flags: self.flags@,
            sequence_number: self.sequence_number@,
            ack_number: self.ack_number,
            window: self.window,
            urg: self.urg,
            options: self.options@,
        }
    }
}

/// The UDP trailer.
#[derive(Debug, Clone, Copy, PartialEq, Eq, Structural)]
pub struct UdpInfo {
    pub ports: Ports,
    pub data_len: u32,
}

/// Placeholder for the CARP trailer, which is not decoded yet.
#[derive(Debug, Clone, Copy, PartialEq, Eq, Structural)]
pub struct CarpInfo {}

/// The protocol-specific trailer of a log line.
#[derive(Debug, Clone, PartialEq, Eq)]
pub enum ProtoInfo {
    UdpInfo(UdpInfo),
    TcpInfo(TcpInfo),
    UnknownInfo(String),
}

/// Mathematical image of a [`ProtoInfo`].
pub ghost enum ProtoInfoView {
    UdpInfo(UdpInfo),
    TcpInfo(TcpInfoView),
    UnknownInfo(Seq<char>),
}

impl View for ProtoInfo {
    type V = ProtoInfoView;

    open spec fn view(&self) -> ProtoInfoView {
        match self {
            ProtoInfo::UdpInfo(u) => ProtoInfoView::UdpInfo(*u),
            ProtoInfo::TcpInfo(t) => ProtoInfoView::TcpInfo(t@),
            ProtoInfo::UnknownInfo(s) => ProtoInfoView::UnknownInfo(s@),
        }
    }
}

/// The two port fields.
pub open spec fn spec_ports(s: Seq<char>) -> Option<(Ports, Seq<char>)> {
    match spec_dec_field(s, u16::MAX as int) {
        Some((srcport, s1)) => match spec_dec_field(s1, u16::MAX as int) {
            Some((dstport, s2)) => Some(
                (Ports { srcport: srcport as u16, dstport: dstport as u16 }, s2),
            ),
            None => None,
        },
        None => None,
    }
}

/// The TCP trailer: ports, payload length, flags, sequence number (raw
/// text), optional ack, window, optional urgency pointer, then the whole
/// remainder as the options field.
pub open spec fn spec_tcp_info(s: Seq<char>) -> Option<(ProtoInfoView, Seq<char>)> {
    match spec_ports(s) {
        Some((ports, s1)) => match spec_dec_field(s1, u32::MAX as int) {
            Some((data_len, s2)) => match spec_text_field(s2) {
                Some((flags, s3)) => match spec_text_field(s3) {
                    Some((sequence_number, s4)) => match spec_opt_dec_field(s4, u32::MAX as int) {
                        Some((ack_number, s5)) => match spec_dec_field(s5, u32::MAX as int) {
                            Some((window, s6)) => match spec_opt_dec_field(s6, u32::MAX as int) {
                                Some((urg, s7)) => Some(
                                    (
                                        ProtoInfoView::TcpInfo(
                                            TcpInfoView {
                                                ports,
                                                data_len: data_len as u32,
                                                flags,
                                                sequence_number,
                                                ack_number: match ack_number {
                                                    Some(v) => Some(v as u32),
                                                    None => None,
                                                },
                                                window: window as u32,
                                                urg: match urg {
                                                    Some(v) => Some(v as u32),
                                                    None => None,
                                                },
                                                options: s7,
                                            },
                                        ),
                                        Seq::empty(),
                                    ),
                                ),
                                None => None,
                            },
                            None => None,
                        },
                        None => None,
                    },
                    None => None,
                },
                None => None,
            },
            None => None,
        },
        None => None,
    }
}

/// The UDP trailer: ports, then the payload length as the final token of
/// the line; anything after it is a failure, never silent truncation.
pub open spec fn spec_udp_info(s: Seq<char>) -> Option<(ProtoInfoView, Seq<char>)> {
    match spec_ports(s) {
        Some((ports, s1)) => match spec_dec_tok(s1, u32::MAX as int) {
            Some(data_len) => Some(
                (
                    ProtoInfoView::UdpInfo(UdpInfo { ports, data_len: data_len as u32 }),
                    Seq::empty(),
                ),
            ),
            None => None,
        },
        None => None,
    }
}

/// The trailer grammar selected by the protocol name: TCP fields, UDP
/// fields, or the whole remainder verbatim for an unrecognized protocol.
pub open spec fn spec_proto_info(s: Seq<char>, name: ProtoNameView) -> Option<
    (ProtoInfoView, Seq<char>),
> {
    match name {
        ProtoNameView::Tcp => spec_tcp_info(s),
        ProtoNameView::Udp => spec_udp_info(s),
        ProtoNameView::Other(t) => Some((ProtoInfoView::UnknownInfo(s), Seq::empty())),
    }
}

/// Reads the two port fields.
pub fn parse_src_dst_ports<'a>(input: &'a str) -> (r: Result<(&'a str, Ports), SyntaxError>)
    ensures
        match r {
            Ok((rest, v)) => spec_ports(input@) == Some((v, rest@)),
            Err(e) => spec_ports(input@) is None,
        },
{
    let (s1, srcport) = match dec_field(input, 0xffff) {
        Ok(x) => x,
        Err(e) => {
            return Err(e);
        },
    };
    let (s2, dstport) = match dec_field(s1, 0xffff) {
        Ok(x) => x,
        Err(e) => {
            return Err(e);
        },
    };
    Ok((s2, Ports { srcport: srcport as u16, dstport: dstport as u16 }))
}

/// Reads the TCP trailer; the options field absorbs the whole remainder.
pub fn parse_tcp_info<'a>(input: &'a str) -> (r: Result<(&'a str, ProtoInfo), SyntaxError>)
    ensures
        match r {
            Ok((rest, pi)) => spec_tcp_info(input@) == Some((pi@, rest@)),
            Err(e) => spec_tcp_info(input@) is None,
        },
{
    let (s1, ports) = match parse_src_dst_ports(input) {
        Ok(x) => x,
        Err(e) => {
            return Err(e);
        },
    };
    let (s2, data_len) = match dec_field(s1, 0xffff_ffff) {
        Ok(x) => x,
        Err(e) => {
            return Err(e);
        },
    };
    let (s3, flags) = match text_field(s2) {
        Ok(x) => x,
        Err(e) => {
            return Err(e);
        },
    };
    let (s4, sequence_number) = match text_field(s3) {
        Ok(x) => x,
        Err(e) => {
            return Err(e);
        },
    };
    let (s5, ack_number) = match opt_dec_field(s4, 0xffff_ffff) {
        Ok(x) => x,
        Err(e) => {
            return Err(e);
        },
    };
    let (s6, window) = match dec_field(s5, 0xffff_ffff) {
        Ok(x) => x,
        Err(e) => {
            return Err(e);
        },
    };
    let (s7, urg) = match opt_dec_field(s6, 0xffff_ffff) {
        Ok(x) => x,
        Err(e) => {
            return Err(e);
        },
    };
    let end = s7.unicode_len();
    let rest = s7.substring_char(end, end);
    let tcp_info = TcpInfo {
        ports,
        data_len: data_len as u32,
        flags,
        sequence_number,
        ack_number: match ack_number {
            Some(v) => Some(v as u32),
            None => None,
        },
        window: window as u32,
        urg: match urg {
            Some(v) => Some(v as u32),
            None => None,
        },
        options: s7.to_owned(),
    };
    proof {
        assert(rest@ =~= Seq::<char>::empty());
    }
    Ok((rest, ProtoInfo::TcpInfo(tcp_info)))
}

/// Reads the UDP trailer; the payload length must end the line.
pub fn parse_udp_info<'a>(input: &'a str) -> (r: Result<(&'a str, ProtoInfo), SyntaxError>)
    ensures
        match r {
            Ok((rest, pi)) => spec_udp_info(input@) == Some((pi@, rest@)),
            Err(e) => spec_udp_info(input@) is None,
        },
{
    let (s1, ports) = match parse_src_dst_ports(input) {
        Ok(x) => x,
        Err(e) => {
            return Err(e);
        },
    };
    match dec_of_tok(s1, 0xffff_ffff) {
        Some(data_len) => {
            let end = s1.unicode_len();
            let rest = s1.substring_char(end, end);
            proof {
                assert(rest@ =~= Seq::<char>::empty());
            }
            Ok((rest, ProtoInfo::UdpInfo(UdpInfo { ports, data_len: data_len as u32 })))
        },
        None => Err(SyntaxError),
    }
}

/// Reads the protocol-specific trailer selected by the protocol name.
pub fn parse_proto_info<'a>(input: &'a str, proto: &ProtoName) -> (r: Result<
    (&'a str, ProtoInfo),
    SyntaxError,
>)
    ensures
        match r {
            Ok((rest, pi)) => spec_proto_info(input@, proto@) == Some((pi@, rest@)),
            Err(e) => spec_proto_info(input@, proto@) is None,
        },
{
    match proto {
        ProtoName::Tcp => parse_tcp_info(input),
        ProtoName::Udp => parse_udp_info(input),
        ProtoName::Other(name) => {
            let end = input.unicode_len();
            let rest = input.substring_char(end, end);
            proof {
                assert(rest@ =~= Seq::<char>::empty());
            }
            Ok((rest, ProtoInfo::UnknownInfo(input.to_owned())))
        },
    }
}

/// The UDP payload length must be the final token of the line: appending a
/// further delimited field to a line whose UDP trailer parses makes the
/// trailer fail, it is never silently truncated.
pub proof fn lemma_udp_no_trailing(s: Seq<char>, u: Seq<char>)
    requires
        spec_udp_info(s) is Some,
        u.len() > 0,
        u[0] == ',',
    ensures
        spec_udp_info(s + u) is None,
{
    lemma_tok_len(s);
    lemma_field_append(s, u);
    let s1 = s.skip(tok_len(s) + 1);
    lemma_tok_len(s1);
    lemma_field_append(s1, u);
    let s2 = s1.skip(tok_len(s1) + 1);
    assert((s2 + u)[s2.len() as int] == ',');
    assert(!crate::field::is_dec_digit(','));
    assert(!all_dec_digits(s2 + u));
}

/// Completeness of the TCP trailer grammar: a trailer assembled from
/// well-formed tokens decodes to exactly those tokens' typed values, with
/// the whole remainder after the urgency field taken as the options.
pub proof fn lemma_tcp_info_intro(
    sp: Seq<char>,
    dp: Seq<char>,
    dl: Seq<char>,
    fl: Seq<char>,
    sq: Seq<char>,
    ack: Seq<char>,
    win: Seq<char>,
    urg: Seq<char>,
    options: Seq<char>,
)
    requires
        sp.len() > 0,
        all_dec_digits(sp),
        dec_val(sp) <= u16::MAX as int,
        dp.len() > 0,
        all_dec_digits(dp),
        dec_val(dp) <= u16::MAX as int,
        dl.len() > 0,
        all_dec_digits(dl),
        dec_val(dl) <= u32::MAX as int,
        forall|k: int| 0 <= k < fl.len() ==> fl[k] != ',',
        forall|k: int| 0 <= k < sq.len() ==> sq[k] != ',',
        ack.len() == 0 || (all_dec_digits(ack) && dec_val(ack) <= u32::MAX as int),
        win.len() > 0,
        all_dec_digits(win),
        dec_val(win) <= u32::MAX as int,
        urg.len() == 0 || (all_dec_digits(urg) && dec_val(urg) <= u32::MAX as int),
    ensures
        spec_tcp_info(
            fld(sp, fld(dp, fld(dl, fld(fl, fld(sq, fld(ack, fld(win, fld(urg, options)))))))),
        ) == Some(
            (
                ProtoInfoView::TcpInfo(
                    TcpInfoView {
                        ports: Ports {
                            srcport: dec_val(sp) as u16,
                            dstport: dec_val(dp) as u16,
                        },
                        data_len: dec_val(dl) as u32,
                        flags: fl,
                        sequence_number: sq,
                        ack_number: if ack.len() == 0 {
                            None
                        } else {
                            Some(dec_val(ack) as u32)
                        },
                        window: dec_val(win) as u32,
                        urg: if urg.len() == 0 {
                            None
                        } else {
                            Some(dec_val(urg) as u32)
                        },
                        options,
                    },
                ),
                Seq::<char>::empty(),
            ),
        ),
{
    let t8 = fld(urg, options);
    let t7 = fld(win, t8);
    let t6 = fld(ack, t7);
    let t5 = fld(sq, t6);
    let t4 = fld(fl, t5);
    let t3 = fld(dl, t4);
    let t2 = fld(dp, t3);
    crate::field::lemma_dec_field_intro(sp, t2, u16::MAX as int);
    crate::field::lemma_dec_field_intro(dp, t3, u16::MAX as int);
    crate::field::lemma_dec_field_intro(dl, t4, u32::MAX as int);
    crate::field::lemma_text_field_intro(fl, t5);
    crate::field::lemma_text_field_intro(sq, t6);
    crate::field::lemma_opt_dec_field_intro(ack, t7, u32::MAX as int);
    crate::field::lemma_dec_field_intro(win, t8, u32::MAX as int);
    crate::field::lemma_opt_dec_field_intro(urg, options, u32::MAX as int);
}

/// Completeness of the UDP trailer grammar: ports followed by a payload
/// length standing as the final token decode to exactly those values,
/// consuming the whole input.
pub proof fn lemma_udp_info_intro(sp: Seq<char>, dp: Seq<char>, dl: Seq<char>)
    requires
        sp.len() > 0,
        all_dec_digits(sp),
        dec_val(sp) <= u16::MAX as int,
        dp.len() > 0,
        all_dec_digits(dp),
        dec_val(dp) <= u16::MAX as int,
        dl.len() > 0,
        all_dec_digits(dl),
        dec_val(dl) <= u32::MAX as int,
    ensures
        spec_udp_info(fld(sp, fld(dp, dl))) == Some(
            (
                ProtoInfoView::UdpInfo(
                    UdpInfo {
                        ports: Ports {
                            srcport: dec_val(sp) as u16,
                            dstport: dec_val(dp) as u16,
                        },
                        data_len: dec_val(dl) as u32,
                    },
                ),
                Seq::<char>::empty(),
            ),
        ),
{
    crate::field::lemma_dec_field_intro(sp, fld(dp, dl), u16::MAX as int);
    crate::field::lemma_dec_field_intro(dp, dl, u16::MAX as int);
}

} // verus!
