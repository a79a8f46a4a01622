//! Filter-decision stage: rule identity, interface, reason, action and
//! direction.
//!
//! The grammar, in order: numeric rule index, optional numeric sub-rule
//! index, optional anchor-name token, mandatory label token, interface name
//! (free text), then the three keyword fields. Keywords are matched exactly
//! and delimiter-anchored: a token that merely shares a prefix with a
//! keyword (`inner` for `in`) is rejected, never truncated-matched.

use vstd::prelude::*;
use crate::field::{
    SyntaxError, spec_token, tok_len, spec_dec_field, spec_opt_dec_field, spec_alnum_field,
    spec_opt_alnum_field, spec_text_field, spec_eat_comma, dec_field, opt_dec_field, alnum_field,
    opt_alnum_field, text_field, eat_comma, token_prefix, str_eq, all_dec_digits, all_alnum,
    dec_val, fld,
};

verus! {

/// Direction of the logged packet relative to the interface.
#[derive(Debug, Clone, Copy, PartialEq, Eq, Structural)]
pub enum Dir {
    In,
    Out,
}

/// Failure to read a direction keyword.
#[derive(Debug, Clone, Copy, PartialEq, Eq, Structural)]
pub struct ParseDirError;

impl ParseDirError {
    /// A human-readable description of the failure.
    pub fn message(&self) -> (r: String)
        ensures
            r@ == "Invalid direction. Expected 'in' or 'out'."@,
    {
        String::from_str("Invalid direction. Expected 'in' or 'out'.")
    }
}

impl core::str::FromStr for Dir {
    type Err = ParseDirError;

    fn from_str(s: &str) -> Result<Dir, ParseDirError> {
        if str_eq(s, "in") {
            Ok(Dir::In)
        } else if str_eq(s, "out") {
            Ok(Dir::Out)
        } else {
            Err(ParseDirError)
        }
    }
}

/// Reason the packet filter logged the packet.
#[derive(Debug, Clone, Copy, PartialEq, Eq, Structural)]
pub enum Reason {
    Match,
}

impl core::str::FromStr for Reason {
    type Err = ();

    fn from_str(s: &str) -> Result<Reason, ()> {
        if str_eq(s, "match") {
            Ok(Reason::Match)
        } else {
            Err(())
        }
    }
}

/// Action the packet filter took.
#[derive(Debug, Clone, Copy, PartialEq, Eq, Structural)]
pub enum Action {
    Pass,
    Block,
    Reject,
}

impl core::str::FromStr for Action {
    type Err = ();

    fn from_str(s: &str) -> Result<Action, ()> {
        if str_eq(s, "pass") {
            Ok(Action::Pass)
        } else if str_eq(s, "block") {
            Ok(Action::Block)
        } else if str_eq(s, "reject") {
            Ok(Action::Reject)
        } else {
            Err(())
        }
    }
}

/// Identity of the rule that triggered the log entry.
#[derive(Debug, Clone, PartialEq, Eq)]
pub struct RuleInfo {
    pub number: u32,
    pub subrulenr: Option<u32>,
    pub anchorname: Option<String>,
    pub label: String,
}

/// Mathematical image of a [`RuleInfo`].
#[verifier::ext_equal]
pub ghost struct RuleInfoView {
    pub number: u32,
    pub subrulenr: Option<u32>,
    pub anchorname: Option<Seq<char>>,
    pub label: Seq<char>,
}

impl View for RuleInfo {
    type V = RuleInfoView;

    open spec fn view(&self) -> RuleInfoView {
        RuleInfoView {
            number: self.number,
            subrulenr: self.subrulenr,
            anchorname: match self.anchorname {
                Some(a) => Some(a@),
                None => None,
            },
            label: self.label@,
        }
    }
}

/// The packet-filter metadata prefix of a log line.
#[derive(Debug, Clone, PartialEq, Eq)]
pub struct PacketFilter {
    pub rule_info: RuleInfo,
    pub interface: String,
    pub reason: Reason,
    pub action: Action,
    pub dir: Dir,
}

/// Mathematical image of a [`PacketFilter`].
#[verifier::ext_equal]
pub ghost struct PacketFilterView {
    pub rule_info: RuleInfoView,
    pub interface: Seq<char>,
    pub reason: Reason,
    pub action: Action,
    pub dir: Dir,
}

impl View for PacketFilter {
    type V = PacketFilterView;

    open spec fn view(&self) -> PacketFilterView {
        PacketFilterView {
            rule_info: self.rule_info@,
            interface: self.interface@,
            reason: self.reason,
            action: self.action,
            dir: self.dir,
        }
    }
}

/// A keyword field: the leading token must equal `kw` exactly and must be
/// delimiter-anchored (a comma follows it). The delimiter is not consumed.
pub open spec fn spec_keyword(s: Seq<char>, kw: Seq<char>) -> Option<Seq<char>> {
    if spec_token(s) == kw && tok_len(s) < s.len() {
        Some(s.skip(tok_len(s)))
    } else {
        None
    }
}

/// The direction keyword: exactly `in` or `out`.
pub open spec fn spec_dir(s: Seq<char>) -> Option<(Dir, Seq<char>)> {
    match spec_keyword(s, "in"@) {
        Some(rest) => Some((Dir::In, rest)),
        None => match spec_keyword(s, "out"@) {
            Some(rest) => Some((Dir::Out, rest)),
            None => None,
        },
    }
}

/// The reason keyword: exactly `match`.
pub open spec fn spec_reason(s: Seq<char>) -> Option<(Reason, Seq<char>)> {
    match spec_keyword(s, "match"@) {
        Some(rest) => Some((Reason::Match, rest)),
        None => None,
    }
}

/// The action keyword: exactly `pass`, `block` or `reject`.
pub open spec fn spec_action(s: Seq<char>) -> Option<(Action, Seq<char>)> {
    match spec_keyword(s, "pass"@) {
        Some(rest) => Some((Action::Pass, rest)),
        None => match spec_keyword(s, "block"@) {
            Some(rest) => Some((Action::Block, rest)),
            None => match spec_keyword(s, "reject"@) {
                Some(rest) => Some((Action::Reject, rest)),
                None => None,
            },
        },
    }
}

/// The rule-identity fields: rule number, optional sub-rule number,
/// optional anchor name, mandatory label.
pub open spec fn spec_rule_info(s: Seq<char>) -> Option<(RuleInfoView, Seq<char>)> {
    match spec_dec_field(s, u32::MAX as int) {
        Some((number, s1)) => match spec_opt_dec_field(s1, u32::MAX as int) {
            Some((subrulenr, s2)) => match spec_opt_alnum_field(s2) {
                Some((anchorname, s3)) => match spec_alnum_field(s3) {
                    Some((label, s4)) => Some(
                        (
                            RuleInfoView {
                                number: number as u32,
                                subrulenr: match subrulenr {
                                    Some(v) => Some(v as u32),
                                    None => None,
                                },
                                anchorname,
                                label,
                            },
                            s4,
                        ),
                    ),
                    None => None,
                },
                None => None,
            },
            None => None,
        },
        None => None,
    }
}

/// The whole filter-decision prefix: rule identity, interface, then the
/// reason, action and direction keywords, each with its trailing comma.
pub open spec fn spec_packet_filter(s: Seq<char>) -> Option<(PacketFilterView, Seq<char>)> {
    match spec_rule_info(s) {
        Some((rule_info, s1)) => match spec_text_field(s1) {
            Some((interface, s2)) => match spec_reason(s2) {
                Some((reason, s3)) => match spec_eat_comma(s3) {
                    Some(s4) => match spec_action(s4) {
                        Some((action, s5)) => match spec_eat_comma(s5) {
                            Some(s6) => match spec_dir(s6) {
                                Some((dir, s7)) => match spec_eat_comma(s7) {
                                    Some(s8) => Some(
                                        (
                                            PacketFilterView {
                                                rule_info,
                                                interface,
                                                reason,
                                                action,
                                                dir,
                                            },
                                            s8,
                                        ),
                                    ),
                                    None => None,
                                },
                                None => None,
                            },
                            None => None,
                        },
                        None => None,
                    },
                    None => None,
                },
                None => None,
            },
            None => None,
        },
        None => None,
    }
}

/// Reads the direction keyword without consuming the delimiter after it.
pub fn parse_dir<'a>(input: &'a str) -> (r: Result<(&'a str, Dir), SyntaxError>)
    ensures
        match r {
            Ok((rest, d)) => spec_dir(input@) == Some((d, rest@)),
            Err(e) => spec_dir(input@) is None,
        },
{
    let (t, rest) = token_prefix(input);
    proof {
        crate::field::lemma_tok_len(input@);
    }
    if rest.unicode_len() == 0 {
        return Err(SyntaxError);
    }
    if str_eq(t, "in") {
        Ok((rest, Dir::In))
    } else if str_eq(t, "out") {
        Ok((rest, Dir::Out))
    } else {
        Err(SyntaxError)
    }
}

/// Reads the reason keyword without consuming the delimiter after it.
pub fn parse_reason<'a>(input: &'a str) -> (r: Result<(&'a str, Reason), SyntaxError>)
    ensures
        match r {
            Ok((rest, v)) => spec_reason(input@) == Some((v, rest@)),
            Err(e) => spec_reason(input@) is None,
        },
{
    let (t, rest) = token_prefix(input);
    proof {
        crate::field::lemma_tok_len(input@);
    }
    if rest.unicode_len() == 0 {
        return Err(SyntaxError);
    }
    if str_eq(t, "match") {
        Ok((rest, Reason::Match))
    } else {
        Err(SyntaxError)
    }
}

/// Reads the action keyword without consuming the delimiter after it.
pub fn parse_action<'a>(input: &'a str) -> (r: Result<(&'a str, Action), SyntaxError>)
    ensures
        match r {
            Ok((rest, v)) => spec_action(input@) == Some((v, rest@)),
            Err(e) => spec_action(input@) is None,
        },
{
    let (t, rest) = token_prefix(input);
    proof {
        crate::field::lemma_tok_len(input@);
    }
    if rest.unicode_len() == 0 {
        return Err(SyntaxError);
    }
    if str_eq(t, "pass") {
        Ok((rest, Action::Pass))
    } else if str_eq(t, "block") {
        Ok((rest, Action::Block))
    } else if str_eq(t, "reject") {
        Ok((rest, Action::Reject))
    } else {
        Err(SyntaxError)
    }
}

/// Reads the rule-identity fields.
pub fn parse_rule_info<'a>(input: &'a str) -> (r: Result<(&'a str, RuleInfo), SyntaxError>)
    ensures
        match r {
            Ok((rest, ri)) => spec_rule_info(input@) == Some((ri@, rest@)),
            Err(e) => spec_rule_info(input@) is None,
        },
{
    let (s1, number) = match dec_field(input, 0xffff_ffff) {
        Ok(x) => x,
        Err(e) => {
            return Err(e);
        },
    };
    let (s2, subrulenr) = match opt_dec_field(s1, 0xffff_ffff) {
        Ok(x) => x,
        Err(e) => {
            return Err(e);
        },
    };
    let (s3, anchorname) = match opt_alnum_field(s2) {
        Ok(x) => x,
        Err(e) => {
            return Err(e);
        },
    };
    let (s4, label) = match alnum_field(s3) {
        Ok(x) => x,
        Err(e) => {
            return Err(e);
        },
    };
    let rule_info = RuleInfo {
        number: number as u32,
        subrulenr: match subrulenr {
            Some(v) => Some(v as u32),
            None => None,
        },
        anchorname,
        label,
    };
    Ok((s4, rule_info))
}

/// Reads the whole filter-decision prefix of a log line.
pub fn parse_packet_filter<'a>(input: &'a str) -> (r: Result<
    (&'a str, PacketFilter),
    SyntaxError,
>)
    ensures
        match r {
            Ok((rest, pf)) => spec_packet_filter(input@) == Some((pf@, rest@)),
            Err(e) => spec_packet_filter(input@) is None,
        },
{
    let (s1, rule_info) = match parse_rule_info(input) {
        Ok(x) => x,
        Err(e) => {
            return Err(e);
        },
    };
    let (s2, interface) = match text_field(s1) {
        Ok(x) => x,
        Err(e) => {
            return Err(e);
        },
    };
    let (s3, reason) = match parse_reason(s2) {
        Ok(x) => x,
        Err(e) => {
            return Err(e);
        },
    };
    let s4 = match eat_comma(s3) {
        Ok(x) => x,
        Err(e) => {
            return Err(e);
        },
    };
    let (s5, action) = match parse_action(s4) {
        Ok(x) => x,
        Err(e) => {
            return Err(e);
        },
    };
    let s6 = match eat_comma(s5) {
        Ok(x) => x,
        Err(e) => {
            return Err(e);
        },
    };
    let (s7, dir) = match parse_dir(s6) {
        Ok(x) => x,
        Err(e) => {
            return Err(e);
        },
    };
    let s8 = match eat_comma(s7) {
        Ok(x) => x,
        Err(e) => {
            return Err(e);
        },
    };
    let pf = PacketFilter { rule_info, interface, reason, action, dir };
    Ok((s8, pf))
}

/// Keyword fields match exactly, delimiter-anchored: a field matches if
/// and only if its whole token equals one of the closed keywords and a
/// delimiter follows. In particular a strict superstring or substring of a
/// keyword (`inner` or `i` for `in`) never matches, as the token lengths
/// show.
pub proof fn lemma_keyword_exact(s: Seq<char>)
    ensures
        spec_dir(s) is Some <==> (spec_token(s) == "in"@ || spec_token(s) == "out"@) && tok_len(s)
            < s.len(),
        spec_reason(s) is Some <==> spec_token(s) == "match"@ && tok_len(s) < s.len(),
        spec_action(s) is Some <==> (spec_token(s) == "pass"@ || spec_token(s) == "block"@
            || spec_token(s) == "reject"@) && tok_len(s) < s.len(),
        spec_dir(s) is Some ==> 2 <= spec_token(s).len() <= 3,
        spec_reason(s) is Some ==> spec_token(s).len() == 5,
        spec_action(s) is Some ==> 4 <= spec_token(s).len() <= 6,
{
    reveal_strlit("in");
    reveal_strlit("out");
    reveal_strlit("match");
    reveal_strlit("pass");
    reveal_strlit("block");
    reveal_strlit("reject");
}

/// Appending text after a delimiter-anchored keyword leaves it matched.
pub proof fn lemma_keyword_append(s: Seq<char>, u: Seq<char>, kw: Seq<char>)
    requires
        spec_keyword(s, kw) is Some,
    ensures
        spec_keyword(s + u, kw) == Some(spec_keyword(s, kw)->Some_0 + u),
{
    crate::field::lemma_part_len_append(s, u, ',');
    crate::field::lemma_tok_len(s);
    assert((s + u).take(tok_len(s)) =~= s.take(tok_len(s)));
    assert((s + u).skip(tok_len(s)) =~= s.skip(tok_len(s)) + u);
}

/// Appending text after a complete rule-identity prefix leaves it
/// unchanged.
pub proof fn lemma_rule_info_append(s: Seq<char>, u: Seq<char>)
    requires
        spec_rule_info(s) is Some,
    ensures
        spec_rule_info(s + u) == Some(
            (spec_rule_info(s)->Some_0.0, spec_rule_info(s)->Some_0.1 + u),
        ),
{
    let m = u32::MAX as int;
    let s1 = spec_dec_field(s, m)->Some_0.1;
    crate::field::lemma_dec_field_append(s, u, m);
    let s2 = spec_opt_dec_field(s1, m)->Some_0.1;
    crate::field::lemma_opt_dec_field_append(s1, u, m);
    let s3 = spec_opt_alnum_field(s2)->Some_0.1;
    crate::field::lemma_opt_alnum_field_append(s2, u);
    crate::field::lemma_alnum_field_append(s3, u);
}

/// Appending text after a complete filter-decision prefix leaves it
/// unchanged: the appended text lands wholly in the remainder.
pub proof fn lemma_packet_filter_append(s: Seq<char>, u: Seq<char>)
    requires
        spec_packet_filter(s) is Some,
    ensures
        spec_packet_filter(s + u) == Some(
            (spec_packet_filter(s)->Some_0.0, spec_packet_filter(s)->Some_0.1 + u),
        ),
{
    let s1 = spec_rule_info(s)->Some_0.1;
    lemma_rule_info_append(s, u);
    let s2 = spec_text_field(s1)->Some_0.1;
    crate::field::lemma_text_field_append(s1, u);
    let s3 = spec_reason(s2)->Some_0.1;
    lemma_keyword_append(s2, u, "match"@);
    let s4 = spec_eat_comma(s3)->Some_0;
    crate::field::lemma_eat_comma_append(s3, u);
    let s5 = spec_action(s4)->Some_0.1;
    if spec_keyword(s4, "pass"@) is Some {
        lemma_keyword_append(s4, u, "pass"@);
    } else if spec_keyword(s4, "block"@) is Some {
        lemma_keyword_append(s4, u, "block"@);
    } else {
        lemma_keyword_append(s4, u, "reject"@);
    }
    let s6 = spec_eat_comma(s5)->Some_0;
    crate::field::lemma_eat_comma_append(s5, u);
    let s7 = spec_dir(s6)->Some_0.1;
    if spec_keyword(s6, "in"@) is Some {
        lemma_keyword_append(s6, u, "in"@);
    } else {
        lemma_keyword_append(s6, u, "out"@);
    }
    crate::field::lemma_eat_comma_append(s7, u);
}

/// The literal token of each action keyword.
pub open spec fn action_token(a: Action) -> Seq<char> {
    match a {
        Action::Pass => "pass"@,
        Action::Block => "block"@,
        Action::Reject => "reject"@,
    }
}

/// The literal token of each direction keyword.
pub open spec fn dir_token(d: Dir) -> Seq<char> {
    match d {
        Dir::In => "in"@,
        Dir::Out => "out"@,
    }
}

/// A keyword followed by the delimiter matches itself, and the delimiter
/// is consumed by the following step.
proof fn lemma_keyword_intro(kw: Seq<char>, r: Seq<char>)
    requires
        forall|k: int| 0 <= k < kw.len() ==> kw[k] != ',',
    ensures
        spec_keyword(fld(kw, r), kw) == Some(seq![','] + r),
        spec_eat_comma(seq![','] + r) == Some(r),
{
    let s = fld(kw, r);
    crate::field::lemma_field_intro(kw, r);
    crate::field::lemma_tok_len(s);
    assert(s.skip(kw.len() as int) =~= seq![','] + r);
    assert((seq![','] + r)[0] == ',');
    assert((seq![','] + r).skip(1) =~= r);
}

/// The reason field built from the `match` keyword decodes to it.
pub proof fn lemma_reason_field_intro(r: Seq<char>)
    ensures
        spec_reason(fld("match"@, r)) == Some((Reason::Match, seq![','] + r)),
        spec_eat_comma(seq![','] + r) == Some(r),
{
    reveal_strlit("match");
    lemma_keyword_intro("match"@, r);
}

/// The action field built from an action's keyword decodes to that action.
pub proof fn lemma_action_field_intro(a: Action, r: Seq<char>)
    ensures
        spec_action(fld(action_token(a), r)) == Some((a, seq![','] + r)),
        spec_eat_comma(seq![','] + r) == Some(r),
{
    reveal_strlit("pass");
    reveal_strlit("block");
    reveal_strlit("reject");
    lemma_keyword_intro(action_token(a), r);
}

/// The direction field built from a direction's keyword decodes to that
/// direction.
pub proof fn lemma_dir_field_intro(d: Dir, r: Seq<char>)
    ensures
        spec_dir(fld(dir_token(d), r)) == Some((d, seq![','] + r)),
        spec_eat_comma(seq![','] + r) == Some(r),
{
    reveal_strlit("in");
    reveal_strlit("out");
    lemma_keyword_intro(dir_token(d), r);
}

/// Completeness of the filter-decision grammar: a prefix assembled from
/// well-formed tokens decodes to exactly those tokens' typed values.
pub proof fn lemma_packet_filter_intro(
    rulenr: Seq<char>,
    sub: Seq<char>,
    anch: Seq<char>,
    label: Seq<char>,
    iface: Seq<char>,
    a: Action,
    d: Dir,
    r: Seq<char>,
)
    requires
        rulenr.len() > 0,
        all_dec_digits(rulenr),
        dec_val(rulenr) <= u32::MAX as int,
        sub.len() == 0 || (all_dec_digits(sub) && dec_val(sub) <= u32::MAX as int),
        all_alnum(anch),
        label.len() > 0,
        all_alnum(label),
        forall|k: int| 0 <= k < iface.len() ==> iface[k] != ',',
    ensures
        spec_packet_filter(
            fld(
                rulenr,
                fld(
                    sub,
                    fld(
                        anch,
                        fld(
                            label,
                            fld(
                                iface,
                                fld("match"@, fld(action_token(a), fld(dir_token(d), r))),
                            ),
                        ),
                    ),
                ),
            ),
        ) == Some(
            (
                PacketFilterView {
                    rule_info: RuleInfoView {
                        number: dec_val(rulenr) as u32,
                        subrulenr: if sub.len() == 0 {
                            None
                        } else {
                            Some(dec_val(sub) as u32)
                        },
                        anchorname: if anch.len() == 0 {
                            None
                        } else {
                            Some(anch)
                        },
                        label,
                    },
                    interface: iface,
                    reason: Reason::Match,
                    action: a,
                    dir: d,
                },
                r,
            ),
        ),
{
    let m = u32::MAX as int;
    let t8 = r;
    let t7 = fld(dir_token(d), t8);
    let t6 = fld(action_token(a), t7);
    let t5 = fld("match"@, t6);
    let t4 = fld(iface, t5);
    let t3 = fld(label, t4);
    let t2 = fld(anch, t3);
    let t1 = fld(sub, t2);
    crate::field::lemma_dec_field_intro(rulenr, t1, m);
    crate::field::lemma_opt_dec_field_intro(sub, t2, m);
    crate::field::lemma_opt_alnum_field_intro(anch, t3);
    crate::field::lemma_alnum_field_intro(label, t4);
    crate::field::lemma_text_field_intro(iface, t5);
    lemma_reason_field_intro(t6);
    lemma_action_field_intro(a, t7);
    lemma_dir_field_intro(d, t8);
}

} // verus!
