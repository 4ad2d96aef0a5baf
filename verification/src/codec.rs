//! The serialization contract: a self-describing, externally tagged text
//! format for approval requests and their nested variant types.
//!
//! Every value renders to a single line of JSON-shaped text.  Strings escape
//! only the double quote and the backslash; timestamps are whole-nanosecond
//! integers; the timeout keeps only its whole-second count.  Deserialization
//! is exact: malformed text, an unknown variant tag, or an out-of-range
//! number is an error, never a default.

use vstd::prelude::*;

use crate::approval::{
    ApprovalRequest, ApprovalResolution, ApprovalSource, ApprovalStatus, RequestView,
    ResolutionView, Severity, SourceView, StatusView, Timeout,
};
use crate::text::{
    dec_digits, expect, is_digit, parse_int, parse_nat, parse_string, ser_int, ser_string,
    lemma_expect, lemma_parse_int_ser, lemma_parse_nat_dec, lemma_parse_string_ser, eat_lit,
    emit_i64, emit_string, emit_u64, p_i64, p_string, p_u64, tail_from, NumFail,
};

verus! {

/// Why a piece of serialized text was rejected.
#[derive(Clone, Copy, Debug, PartialEq, Eq, Structural)]
pub enum DecodeError {
    /// The text does not follow the grammar.
    Malformed,
    /// A variant position holds a tag this format does not know.
    UnknownTag,
    /// A number lies outside the range its field can hold.
    OutOfRange,
}

/// The rendering of an optional string: the string itself, or `null`.
pub open spec fn ser_opt_string(v: Option<Seq<char>>) -> Seq<char> {
    match v {
        Some(b) => ser_string(b),
        None => "null"@,
    }
}

/// Parse an optional string.
pub open spec fn parse_opt_string(s: Seq<char>) -> Option<(Option<Seq<char>>, Seq<char>)> {
    if s.len() > 0 && s[0] == '"' {
        match parse_string(s) {
            Some((b, r)) => Some((Some(b), r)),
            None => None,
        }
    } else {
        match expect(s, "null"@) {
            Some(r) => Some((None, r)),
            None => None,
        }
    }
}

/// The rendering of a severity, as a tagged word.
pub open spec fn ser_severity(v: Severity) -> Seq<char> {
    match v {
        Severity::Info => "\"Info\""@,
        Severity::Warning => "\"Warning\""@,
        Severity::Critical => "\"Critical\""@,
    }
}

/// Parse a severity.
pub open spec fn parse_severity(s: Seq<char>) -> Option<(Severity, Seq<char>)> {
    match expect(s, "\"Info\""@) {
        Some(r) => Some((Severity::Info, r)),
        None => match expect(s, "\"Warning\""@) {
            Some(r) => Some((Severity::Warning, r)),
            None => match expect(s, "\"Critical\""@) {
                Some(r) => Some((Severity::Critical, r)),
                None => None,
            },
        },
    }
}

/// The rendering of an approval source, externally tagged by its variant.
pub open spec fn ser_source(v: SourceView) -> Seq<char> {
    match v {
        SourceView::ClawSudo { policy_rule } => "{\"ClawSudo\":{\"policy_rule\":"@
            + ser_opt_string(policy_rule) + "}}"@,
        SourceView::ResponseEngine { threat_id, playbook } => "{\"ResponseEngine\":{\"threat_id\":"@
            + ser_string(threat_id) + ",\"playbook\":"@ + ser_opt_string(playbook) + "}}"@,
    }
}

/// Parse an approval source.
#[verifier::opaque]
pub open spec fn parse_source(s: Seq<char>) -> Option<(SourceView, Seq<char>)> {
    match expect(s, "{\"ClawSudo\":{\"policy_rule\":"@) {
        Some(r1) => match parse_opt_string(r1) {
            Some((rule, r2)) => match expect(r2, "}}"@) {
                Some(r3) => Some((SourceView::ClawSudo { policy_rule: rule }, r3)),
                None => None,
            },
            None => None,
        },
        None => match expect(s, "{\"ResponseEngine\":{\"threat_id\":"@) {
            Some(r1) => match parse_string(r1) {
                Some((tid, r2)) => match expect(r2, ",\"playbook\":"@) {
                    Some(r3) => match parse_opt_string(r3) {
                        Some((pb, r4)) => match expect(r4, "}}"@) {
                            Some(r5) => Some(
                                (SourceView::ResponseEngine { threat_id: tid, playbook: pb }, r5),
                            ),
                            None => None,
                        },
                        None => None,
                    },
                    None => None,
                },
                None => None,
            },
            None => None,
        },
    }
}

/// An integer that the native timestamp type can hold.
pub open spec fn fits_i64(v: int) -> bool {
    i64::MIN as int <= v <= i64::MAX as int
}

/// The rendering of a resolution, externally tagged by its variant.
pub open spec fn ser_resolution(v: ResolutionView) -> Seq<char> {
    match v {
        ResolutionView::Approved { by, via, message, at } => "{\"Approved\":{\"by\":"@
            + ser_string(by) + ",\"via\":"@ + ser_string(via) + ",\"message\":"@ + ser_opt_string(
            message,
        ) + ",\"at\":"@ + ser_int(at) + "}}"@,
        ResolutionView::Denied { by, via, message, at } => "{\"Denied\":{\"by\":"@ + ser_string(by)
            + ",\"via\":"@ + ser_string(via) + ",\"message\":"@ + ser_opt_string(message)
            + ",\"at\":"@ + ser_int(at) + "}}"@,
        ResolutionView::TimedOut { at } => "{\"TimedOut\":{\"at\":"@ + ser_int(at) + "}}"@,
    }
}

/// Parse the shared field tail `by, via, message, at` of a decision variant.
pub open spec fn parse_decision_fields(s: Seq<char>) -> Option<
    ((Seq<char>, Seq<char>, Option<Seq<char>>, int), Seq<char>),
> {
    match parse_string(s) {
        Some((by, r2)) => match expect(r2, ",\"via\":"@) {
            Some(r3) => match parse_string(r3) {
                Some((via, r4)) => match expect(r4, ",\"message\":"@) {
                    Some(r5) => match parse_opt_string(r5) {
                        Some((msg, r6)) => match expect(r6, ",\"at\":"@) {
                            Some(r7) => match parse_int(r7) {
                                Some((at, r8)) => if fits_i64(at) {
                                    match expect(r8, "}}"@) {
                                        Some(r9) => Some(((by, via, msg, at), r9)),
                                        None => None,
                                    }
                                } else {
                                    None
                                },
                                None => None,
                            },
                            None => None,
                        },
                        None => None,
                    },
                    None => None,
                },
                None => None,
            },
            None => None,
        },
        None => None,
    }
}

/// Parse a resolution.
pub open spec fn parse_resolution(s: Seq<char>) -> Option<(ResolutionView, Seq<char>)> {
    match expect(s, "{\"Approved\":{\"by\":"@) {
        Some(r1) => match parse_decision_fields(r1) {
            Some(((by, via, msg, at), r2)) => Some(
                (ResolutionView::Approved { by, via, message: msg, at }, r2),
            ),
            None => None,
        },
        None => match expect(s, "{\"Denied\":{\"by\":"@) {
            Some(r1) => match parse_decision_fields(r1) {
                Some(((by, via, msg, at), r2)) => Some(
                    (ResolutionView::Denied { by, via, message: msg, at }, r2),
                ),
                None => None,
            },
            None => match expect(s, "{\"TimedOut\":{\"at\":"@) {
                Some(r1) => match parse_int(r1) {
                    Some((at, r2)) => if fits_i64(at) {
                        match expect(r2, "}}"@) {
                            Some(r3) => Some((ResolutionView::TimedOut { at }, r3)),
                            None => None,
                        }
                    } else {
                        None
                    },
                    None => None,
                },
                None => None,
            },
        },
    }
}

/// The rendering of a status: a bare word while pending, the wrapped
/// resolution once resolved.
pub open spec fn ser_status(v: StatusView) -> Seq<char> {
    match v {
        StatusView::Pending => "\"Pending\""@,
        StatusView::Resolved(r) => "{\"Resolved\":"@ + ser_resolution(r) + "}"@,
    }
}

/// Parse a status.
pub open spec fn parse_status(s: Seq<char>) -> Option<(StatusView, Seq<char>)> {
    match expect(s, "\"Pending\""@) {
        Some(r) => Some((StatusView::Pending, r)),
        None => match expect(s, "{\"Resolved\":"@) {
            Some(r1) => match parse_resolution(r1) {
                Some((res, r2)) => match expect(r2, "}"@) {
                    Some(r3) => Some((StatusView::Resolved(res), r3)),
                    None => None,
                },
                None => None,
            },
            None => None,
        },
    }
}

/// The rendering of a whole request: every field in a fixed order, the
/// timeout as its whole-second count.
pub open spec fn ser_request(v: RequestView) -> Seq<char> {
    "{\"id\":"@ + ser_string(v.id) + ",\"source\":"@ + ser_source(v.source) + ",\"command\":"@
        + ser_string(v.command) + ",\"agent\":"@ + ser_string(v.agent) + ",\"severity\":"@
        + ser_severity(v.severity) + ",\"context\":"@ + ser_string(v.context) + ",\"created_at\":"@
        + ser_int(v.created_at) + ",\"timeout\":"@ + dec_digits(v.timeout.secs as int)
        + ",\"status\":"@ + ser_status(v.status) + "}"@
}

/// Parse a whole request.
pub open spec fn parse_request(s: Seq<char>) -> Option<(RequestView, Seq<char>)> {
    match expect(s, "{\"id\":"@) {
        Some(r1) => match parse_string(r1) {
            Some((id, r2)) => match expect(r2, ",\"source\":"@) {
                Some(r3) => match parse_source(r3) {
                    Some((source, r4)) => parse_request_mid(id, source, r4),
                    None => None,
                },
                None => None,
            },
            None => None,
        },
        None => None,
    }
}

/// Parse the fields of a request after the source.
#[verifier::opaque]
pub open spec fn parse_request_mid(id: Seq<char>, source: SourceView, s: Seq<char>) -> Option<
    (RequestView, Seq<char>),
> {
    match expect(s, ",\"command\":"@) {
        Some(r5) => match parse_string(r5) {
            Some((command, r6)) => match expect(r6, ",\"agent\":"@) {
                Some(r7) => match parse_string(r7) {
                    Some((agent, r8)) => match expect(r8, ",\"severity\":"@) {
                        Some(r9) => match parse_severity(r9) {
                            Some((severity, r10)) => parse_request_tail(
                                id,
                                source,
                                command,
                                agent,
                                severity,
                                r10,
                            ),
                            None => None,
                        },
                        None => None,
                    },
                    None => None,
                },
                None => None,
            },
            None => None,
        },
        None => None,
    }
}

/// Parse the fields of a request after the severity.
#[verifier::opaque]
pub open spec fn parse_request_tail(
    id: Seq<char>,
    source: SourceView,
    command: Seq<char>,
    agent: Seq<char>,
    severity: Severity,
    r10: Seq<char>,
) -> Option<(RequestView, Seq<char>)> {
    match expect(r10, ",\"context\":"@) {
        Some(r11) => match parse_string(r11) {
            Some((context, r12)) => match expect(r12, ",\"created_at\":"@) {
                Some(r13) => match parse_int(r13) {
                    Some((created_at, r14)) => if fits_i64(created_at) {
                        match expect(r14, ",\"timeout\":"@) {
                            Some(r15) => match parse_nat(r15) {
                                Some((secs, r16)) => if secs <= u64::MAX as int {
                                    match expect(r16, ",\"status\":"@) {
                                        Some(r17) => match parse_status(r17) {
                                            Some((status, r18)) => match expect(r18, "}"@) {
                                                Some(r19) => Some(
                                                    (
                                                        RequestView {
                                                            id,
                                                            source,
                                                            command,
                                                            agent,
                                                            severity,
                                                            context,
                                                            created_at,
                                                            timeout: Timeout {
                                                                secs: secs as u64,
                                                                nanos: 0,
                                                            },
                                                            status,
                                                        },
                                                        r19,
                                                    ),
                                                ),
                                                None => None,
                                            },
                                            None => None,
                                        },
                                        None => None,
                                    }
                                } else {
                                    None
                                },
                                None => None,
                            },
                            None => None,
                        }
                    } else {
                        None
                    },
                    None => None,
                },
                None => None,
            },
            None => None,
        },
        None => None,
    }
}

/// A literal that differs from `lit` at one position is not consumed.
proof fn lemma_expect_differs(s: Seq<char>, lit: Seq<char>, k: int)
    requires
        0 <= k < lit.len(),
        k < s.len(),
        s[k] != lit[k],
    ensures
        expect(s, lit) is None,
{
    if s.len() >= lit.len() {
        assert(s.subrange(0, lit.len() as int)[k] == s[k]);
    }
}

/// Round trip for optional strings.
pub proof fn lemma_parse_opt_string_ser(v: Option<Seq<char>>, rest: Seq<char>)
    ensures
        parse_opt_string(ser_opt_string(v) + rest) == Some((v, rest)),
{
    match v {
        Some(b) => {
            lemma_parse_string_ser(b, rest);
            assert((ser_string(b) + rest)[0] == '"');
        },
        None => {
            reveal_strlit("null");
            let s = "null"@ + rest;
            assert(s[0] == 'n');
            lemma_expect("null"@, rest);
        },
    }
}

/// Round trip for severities.
pub proof fn lemma_parse_severity_ser(v: Severity, rest: Seq<char>)
    ensures
        parse_severity(ser_severity(v) + rest) == Some((v, rest)),
{
    reveal_strlit("\"Info\"");
    reveal_strlit("\"Warning\"");
    reveal_strlit("\"Critical\"");
    match v {
        Severity::Info => {
            lemma_expect("\"Info\""@, rest);
        },
        Severity::Warning => {
            let s = "\"Warning\""@ + rest;
            assert(s[1] == 'W');
            lemma_expect_differs(s, "\"Info\""@, 1);
            lemma_expect("\"Warning\""@, rest);
        },
        Severity::Critical => {
            let s = "\"Critical\""@ + rest;
            assert(s[1] == 'C');
            lemma_expect_differs(s, "\"Info\""@, 1);
            lemma_expect_differs(s, "\"Warning\""@, 1);
            lemma_expect("\"Critical\""@, rest);
        },
    }
}

/// Round trip for approval sources, with any continuation.
pub proof fn lemma_parse_source_ser(v: SourceView, rest: Seq<char>)
    ensures
        parse_source(ser_source(v) + rest) == Some((v, rest)),
{
    reveal(parse_source);
    reveal_strlit("{\"ClawSudo\":{\"policy_rule\":");
    reveal_strlit("{\"ResponseEngine\":{\"threat_id\":");
    match v {
        SourceView::ClawSudo { policy_rule } => {
            let x1 = ser_opt_string(policy_rule) + ("}}"@ + rest);
            assert(ser_source(v) + rest =~= "{\"ClawSudo\":{\"policy_rule\":"@ + x1);
            lemma_expect("{\"ClawSudo\":{\"policy_rule\":"@, x1);
            lemma_parse_opt_string_ser(policy_rule, "}}"@ + rest);
            lemma_expect("}}"@, rest);
        },
        SourceView::ResponseEngine { threat_id, playbook } => {
            let s = ser_source(v) + rest;
            assert(s[2] == 'R');
            lemma_expect_differs(s, "{\"ClawSudo\":{\"policy_rule\":"@, 2);
            let x1 = ser_string(threat_id) + (",\"playbook\":"@ + (ser_opt_string(playbook) + (
            "}}"@ + rest)));
            assert(s =~= "{\"ResponseEngine\":{\"threat_id\":"@ + x1);
            lemma_expect("{\"ResponseEngine\":{\"threat_id\":"@, x1);
            lemma_parse_string_ser(
                threat_id,
                ",\"playbook\":"@ + (ser_opt_string(playbook) + ("}}"@ + rest)),
            );
            lemma_expect(",\"playbook\":"@, ser_opt_string(playbook) + ("}}"@ + rest));
            lemma_parse_opt_string_ser(playbook, "}}"@ + rest);
            lemma_expect("}}"@, rest);
        },
    }
}

/// Round trip for the shared decision fields.
proof fn lemma_parse_decision_fields(
    by: Seq<char>,
    via: Seq<char>,
    message: Option<Seq<char>>,
    at: int,
    rest: Seq<char>,
)
    requires
        fits_i64(at),
        rest.len() > 0 ==> !is_digit(rest[0]),
    ensures
        parse_decision_fields(
            ser_string(by) + ",\"via\":"@ + ser_string(via) + ",\"message\":"@ + ser_opt_string(
                message,
            ) + ",\"at\":"@ + ser_int(at) + "}}"@ + rest,
        ) == Some(((by, via, message, at), rest)),
{
    reveal_strlit("}}");
    let x5 = "}}"@ + rest;
    let x4 = ser_int(at) + x5;
    let x3 = ",\"at\":"@ + x4;
    let x2 = ser_opt_string(message) + x3;
    let x1 = ",\"message\":"@ + x2;
    let x0 = ser_string(via) + x1;
    let xm = ",\"via\":"@ + x0;
    let s = ser_string(by) + xm;
    assert(ser_string(by) + ",\"via\":"@ + ser_string(via) + ",\"message\":"@ + ser_opt_string(
        message,
    ) + ",\"at\":"@ + ser_int(at) + "}}"@ + rest =~= s);
    lemma_parse_string_ser(by, xm);
    lemma_expect(",\"via\":"@, x0);
    lemma_parse_string_ser(via, x1);
    lemma_expect(",\"message\":"@, x2);
    lemma_parse_opt_string_ser(message, x3);
    lemma_expect(",\"at\":"@, x4);
    assert(x5[0] == '}');
    assert(!is_digit('}'));
    lemma_parse_int_ser(at, x5);
    lemma_expect("}}"@, rest);
}

/// Round trip for resolutions, with any continuation that does not begin
/// with a digit.
#[verifier::rlimit(60)]
pub proof fn lemma_parse_resolution_ser(v: ResolutionView, rest: Seq<char>)
    requires
        fits_i64(v.at_time()),
        rest.len() > 0 ==> !is_digit(rest[0]),
    ensures
        parse_resolution(ser_resolution(v) + rest) == Some((v, rest)),
{
    reveal_strlit("{\"Approved\":{\"by\":");
    reveal_strlit("{\"Denied\":{\"by\":");
    reveal_strlit("{\"TimedOut\":{\"at\":");
    reveal_strlit("}}");
    let s = ser_resolution(v) + rest;
    match v {
        ResolutionView::Approved { by, via, message, at } => {
            let t = ser_string(by) + ",\"via\":"@ + ser_string(via) + ",\"message\":"@
                + ser_opt_string(message) + ",\"at\":"@ + ser_int(at) + "}}"@ + rest;
            assert(s =~= "{\"Approved\":{\"by\":"@ + t);
            lemma_expect("{\"Approved\":{\"by\":"@, t);
            lemma_parse_decision_fields(by, via, message, at, rest);
        },
        ResolutionView::Denied { by, via, message, at } => {
            assert(s[2] == 'D');
            lemma_expect_differs(s, "{\"Approved\":{\"by\":"@, 2);
            let t = ser_string(by) + ",\"via\":"@ + ser_string(via) + ",\"message\":"@
                + ser_opt_string(message) + ",\"at\":"@ + ser_int(at) + "}}"@ + rest;
            assert(s =~= "{\"Denied\":{\"by\":"@ + t);
            lemma_expect("{\"Denied\":{\"by\":"@, t);
            lemma_parse_decision_fields(by, via, message, at, rest);
        },
        ResolutionView::TimedOut { at } => {
            assert(s[2] == 'T');
            lemma_expect_differs(s, "{\"Approved\":{\"by\":"@, 2);
            lemma_expect_differs(s, "{\"Denied\":{\"by\":"@, 2);
            let x1 = ser_int(at) + ("}}"@ + rest);
            assert(s =~= "{\"TimedOut\":{\"at\":"@ + x1);
            lemma_expect("{\"TimedOut\":{\"at\":"@, x1);
            assert(("}}"@ + rest)[0] == '}');
            assert(!is_digit('}'));
            lemma_parse_int_ser(at, "}}"@ + rest);
            lemma_expect("}}"@, rest);
        },
    }
}

/// Round trip for statuses, with any continuation that does not begin with a
/// digit.
pub proof fn lemma_parse_status_ser(v: StatusView, rest: Seq<char>)
    requires
        v matches StatusView::Resolved(r) ==> fits_i64(r.at_time()),
        rest.len() > 0 ==> !is_digit(rest[0]),
    ensures
        parse_status(ser_status(v) + rest) == Some((v, rest)),
{
    reveal_strlit("\"Pending\"");
    reveal_strlit("{\"Resolved\":");
    let s = ser_status(v) + rest;
    match v {
        StatusView::Pending => {
            lemma_expect("\"Pending\""@, rest);
        },
        StatusView::Resolved(r) => {
            assert(s[0] == '{');
            lemma_expect_differs(s, "\"Pending\""@, 0);
            let x1 = ser_resolution(r) + ("}"@ + rest);
            assert(s =~= "{\"Resolved\":"@ + x1);
            lemma_expect("{\"Resolved\":"@, x1);
            reveal_strlit("}");
            assert(("}"@ + rest)[0] == '}');
            assert(!is_digit('}'));
            lemma_parse_resolution_ser(r, "}"@ + rest);
            lemma_expect("}"@, rest);
        },
    }
}

/// The fields a request must keep within native ranges for its rendering to
/// parse back: the creation instant and any resolution instant.
pub open spec fn fits_native(v: RequestView) -> bool {
    &&& fits_i64(v.created_at)
    &&& (v.status matches StatusView::Resolved(r) ==> fits_i64(r.at_time()))
}

/// `v` with the sub-second part of its timeout dropped, which is exactly
/// what serialization keeps.
pub open spec fn whole_second_timeout(v: RequestView) -> RequestView {
    RequestView { timeout: Timeout { secs: v.timeout.secs, nanos: 0 }, ..v }
}

/// The rendering of the fields of a request after the severity, with the
/// closing brace and a continuation.
pub open spec fn ser_request_tail(v: RequestView, rest: Seq<char>) -> Seq<char> {
    ",\"context\":"@ + (ser_string(v.context) + (",\"created_at\":"@ + (ser_int(v.created_at)
        + (",\"timeout\":"@ + (dec_digits(v.timeout.secs as int) + (",\"status\":"@
        + (ser_status(v.status) + ("}"@ + rest))))))))
}

/// Round trip for the fields of a request after the severity.
#[verifier::rlimit(100)]
proof fn lemma_parse_request_tail_ser(v: RequestView, rest: Seq<char>)
    requires
        fits_native(v),
        rest.len() > 0 ==> !is_digit(rest[0]),
    ensures
        parse_request_tail(
            v.id,
            v.source,
            v.command,
            v.agent,
            v.severity,
            ser_request_tail(v, rest),
        ) == Some((whole_second_timeout(v), rest)),
{
    reveal(parse_request_tail);
    let x9 = ser_status(v.status) + ("}"@ + rest);
    let x8 = dec_digits(v.timeout.secs as int) + (",\"status\":"@ + x9);
    let x7 = ser_int(v.created_at) + (",\"timeout\":"@ + x8);
    let x6 = ser_string(v.context) + (",\"created_at\":"@ + x7);
    lemma_expect(",\"context\":"@, x6);
    lemma_parse_string_ser(v.context, ",\"created_at\":"@ + x7);
    lemma_expect(",\"created_at\":"@, x7);
    reveal_strlit(",\"timeout\":");
    assert((",\"timeout\":"@ + x8)[0] == ',');
    assert(!is_digit(','));
    lemma_parse_int_ser(v.created_at, ",\"timeout\":"@ + x8);
    lemma_expect(",\"timeout\":"@, x8);
    reveal_strlit(",\"status\":");
    assert((",\"status\":"@ + x9)[0] == ',');
    assert(!is_digit(','));
    lemma_parse_nat_dec(v.timeout.secs as int, ",\"status\":"@ + x9);
    lemma_expect(",\"status\":"@, x9);
    reveal_strlit("}");
    assert(("}"@ + rest)[0] == '}');
    assert(!is_digit('}'));
    lemma_parse_status_ser(v.status, "}"@ + rest);
    lemma_expect("}"@, rest);
    assert(whole_second_timeout(v).timeout == Timeout { secs: v.timeout.secs, nanos: 0u32 });
}

/// The rendering of the fields of a request after the source, with the
/// closing brace and a continuation.
pub open spec fn ser_request_mid(v: RequestView, rest: Seq<char>) -> Seq<char> {
    ",\"command\":"@ + (ser_string(v.command) + (",\"agent\":"@ + (ser_string(v.agent)
        + (",\"severity\":"@ + (ser_severity(v.severity) + ser_request_tail(v, rest))))))
}

/// Round trip for the fields of a request after the source.
#[verifier::rlimit(100)]
proof fn lemma_parse_request_mid_ser(v: RequestView, rest: Seq<char>)
    requires
        fits_native(v),
        rest.len() > 0 ==> !is_digit(rest[0]),
    ensures
        parse_request_mid(v.id, v.source, ser_request_mid(v, rest)) == Some(
            (whole_second_timeout(v), rest),
        ),
{
    reveal(parse_request_mid);
    let x5 = ser_severity(v.severity) + ser_request_tail(v, rest);
    let x4 = ser_string(v.agent) + (",\"severity\":"@ + x5);
    let x3 = ser_string(v.command) + (",\"agent\":"@ + x4);
    lemma_expect(",\"command\":"@, x3);
    lemma_parse_string_ser(v.command, ",\"agent\":"@ + x4);
    lemma_expect(",\"agent\":"@, x4);
    lemma_parse_string_ser(v.agent, ",\"severity\":"@ + x5);
    lemma_expect(",\"severity\":"@, x5);
    lemma_parse_severity_ser(v.severity, ser_request_tail(v, rest));
    lemma_parse_request_tail_ser(v, rest);
}

/// Round trip for a request rendered in right-nested form.
#[verifier::rlimit(100)]
proof fn lemma_parse_request_head_ser(v: RequestView, rest: Seq<char>)
    requires
        fits_native(v),
        rest.len() > 0 ==> !is_digit(rest[0]),
    ensures
        parse_request(
            "{\"id\":"@ + (ser_string(v.id) + (",\"source\":"@ + (ser_source(v.source)
                + ser_request_mid(v, rest)))),
        ) == Some((whole_second_timeout(v), rest)),
{
    let x2 = ser_source(v.source) + ser_request_mid(v, rest);
    let x1 = ser_string(v.id) + (",\"source\":"@ + x2);
    lemma_expect("{\"id\":"@, x1);
    lemma_parse_string_ser(v.id, ",\"source\":"@ + x2);
    lemma_expect(",\"source\":"@, x2);
    lemma_parse_source_ser(v.source, ser_request_mid(v, rest));
    lemma_parse_request_mid_ser(v, rest);
}

/// Round trip for whole requests: parsing the rendering of `v` yields `v`
/// back, with the timeout reconstructed to the same whole-second count and
/// nothing else changed; when the timeout held no sub-second part, the value
/// comes back equal to the original.
#[verifier::rlimit(100)]
#[verifier::spinoff_prover]
pub proof fn lemma_parse_request_ser(v: RequestView, rest: Seq<char>)
    requires
        fits_native(v),
        rest.len() > 0 ==> !is_digit(rest[0]),
    ensures
        parse_request(ser_request(v) + rest) == Some((whole_second_timeout(v), rest)),
        v.timeout.nanos == 0 ==> parse_request(ser_request(v) + rest) == Some((v, rest)),
{
    assert(ser_request(v) + rest =~= "{\"id\":"@ + (ser_string(v.id) + (",\"source\":"@ + (
    ser_source(v.source) + ser_request_mid(v, rest)))));
    lemma_parse_request_head_ser(v, rest);
    if v.timeout.nanos == 0 {
        assert(whole_second_timeout(v) == v);
    }
}

/// Append the rendering of an optional string to `out`.
fn emit_opt_string(out: &mut String, v: &Option<String>)
    ensures
        final(out)@ == old(out)@ + ser_opt_string(v.deep_view()),
{
    match v {
        Some(b) => emit_string(out, b.as_str()),
        None => {
            out.append("null");
        },
    }
}

/// Append the rendering of a severity to `out`.
fn emit_severity(out: &mut String, v: Severity)
    ensures
        final(out)@ == old(out)@ + ser_severity(v),
{
    match v {
        Severity::Info => out.append("\"Info\""),
        Severity::Warning => out.append("\"Warning\""),
        Severity::Critical => out.append("\"Critical\""),
    }
}

/// Append the rendering of an approval source to `out`.
fn emit_source(out: &mut String, v: &ApprovalSource)
    ensures
        final(out)@ == old(out)@ + ser_source(v@),
{
    let ghost out0: Seq<char> = out@;
    match v {
        ApprovalSource::ClawSudo { policy_rule } => {
            out.append("{\"ClawSudo\":{\"policy_rule\":");
            emit_opt_string(out, policy_rule);
            out.append("}}");
            proof {
                assert(out@ =~= out0 + ser_source(v@));
            }
        },
        ApprovalSource::ResponseEngine { threat_id, playbook } => {
            out.append("{\"ResponseEngine\":{\"threat_id\":");
            emit_string(out, threat_id.as_str());
            out.append(",\"playbook\":");
            emit_opt_string(out, playbook);
            out.append("}}");
            proof {
                assert(out@ =~= out0 + ser_source(v@));
            }
        },
    }
}

/// Append the rendering of a resolution to `out`.
#[verifier::rlimit(60)]
fn emit_resolution(out: &mut String, v: &ApprovalResolution)
    ensures
        final(out)@ == old(out)@ + ser_resolution(v@),
{
    let ghost out0: Seq<char> = out@;
    match v {
        ApprovalResolution::Approved { by, via, message, at } => {
            out.append("{\"Approved\":{\"by\":");
            emit_string(out, by.as_str());
            out.append(",\"via\":");
            emit_string(out, via.as_str());
            out.append(",\"message\":");
            emit_opt_string(out, message);
            out.append(",\"at\":");
            emit_i64(out, *at);
            out.append("}}");
            proof {
                assert(out@ =~= out0 + ser_resolution(v@));
            }
        },
        ApprovalResolution::Denied { by, via, message, at } => {
            out.append("{\"Denied\":{\"by\":");
            emit_string(out, by.as_str());
            out.append(",\"via\":");
            emit_string(out, via.as_str());
            out.append(",\"message\":");
            emit_opt_string(out, message);
            out.append(",\"at\":");
            emit_i64(out, *at);
            out.append("}}");
            proof {
                assert(out@ =~= out0 + ser_resolution(v@));
            }
        },
        ApprovalResolution::TimedOut { at } => {
            out.append("{\"TimedOut\":{\"at\":");
            emit_i64(out, *at);
            out.append("}}");
            proof {
                assert(out@ =~= out0 + ser_resolution(v@));
            }
        },
    }
}

/// Append the rendering of a status to `out`.
fn emit_status(out: &mut String, v: &ApprovalStatus)
    ensures
        final(out)@ == old(out)@ + ser_status(v@),
{
    let ghost out0: Seq<char> = out@;
    match v {
        ApprovalStatus::Pending => {
            out.append("\"Pending\"");
        },
        ApprovalStatus::Resolved(r) => {
            out.append("{\"Resolved\":");
            emit_resolution(out, r);
            out.append("}");
            proof {
                assert(out@ =~= out0 + ser_status(v@));
            }
        },
    }
}

/// Append the rendering of a whole request to `out`.
#[verifier::rlimit(100)]
fn emit_request(out: &mut String, v: &ApprovalRequest)
    ensures
        final(out)@ == old(out)@ + ser_request(v@),
{
    let ghost out0: Seq<char> = out@;
    out.append("{\"id\":");
    emit_string(out, v.id.as_str());
    out.append(",\"source\":");
    emit_source(out, &v.source);
    out.append(",\"command\":");
    emit_string(out, v.command.as_str());
    out.append(",\"agent\":");
    emit_string(out, v.agent.as_str());
    out.append(",\"severity\":");
    emit_severity(out, v.severity);
    proof {
        assert(out@ =~= out0 + ("{\"id\":"@ + ser_string(v@.id) + ",\"source\":"@ + ser_source(
            v@.source,
        ) + ",\"command\":"@ + ser_string(v@.command) + ",\"agent\":"@ + ser_string(v@.agent)
            + ",\"severity\":"@ + ser_severity(v@.severity)));
    }
    out.append(",\"context\":");
    emit_string(out, v.context.as_str());
    out.append(",\"created_at\":");
    emit_i64(out, v.created_at);
    out.append(",\"timeout\":");
    emit_u64(out, v.timeout.secs);
    out.append(",\"status\":");
    emit_status(out, &v.status);
    out.append("}");
    proof {
        assert(out@ =~= out0 + ser_request(v@));
    }
}

/// Render an approval source to its serialized text.
pub fn serialize_source(v: &ApprovalSource) -> (r: String)
    ensures
        r@ == ser_source(v@),
{
    let mut out = String::new();
    emit_source(&mut out, v);
    proof {
        assert(out@ =~= ser_source(v@));
    }
    out
}

/// Render a resolution to its serialized text.
pub fn serialize_resolution(v: &ApprovalResolution) -> (r: String)
    ensures
        r@ == ser_resolution(v@),
{
    let mut out = String::new();
    emit_resolution(&mut out, v);
    proof {
        assert(out@ =~= ser_resolution(v@));
    }
    out
}

/// Render a whole request to its serialized text.
pub fn serialize(req: &ApprovalRequest) -> (r: String)
    ensures
        r@ == ser_request(req@),
{
    let mut out = String::new();
    emit_request(&mut out, req);
    proof {
        assert(out@ =~= ser_request(req@));
    }
    out
}

/// Parse an optional string at position `i` of `s`.
fn p_opt_string(s: &str, i: usize) -> (r: Result<(Option<String>, usize), DecodeError>)
    requires
        i <= s@.len(),
    ensures
        match r {
            Ok(p) => {
                &&& i <= p.1 <= s@.len()
                &&& parse_opt_string(tail_from(s@, i as int)) == Some(
                    (p.0.deep_view(), tail_from(s@, p.1 as int)),
                )
            },
            Err(_) => parse_opt_string(tail_from(s@, i as int)) is None,
        },
{
    let n = s.unicode_len();
    if i < n && s.get_char(i) == '"' {
        proof {
            assert(tail_from(s@, i as int)[0] == s@[i as int]);
        }
        match p_string(s, i) {
            Some((b, j)) => Ok((Some(b), j)),
            None => Err(DecodeError::Malformed),
        }
    } else {
        proof {
            if i < s@.len() {
                assert(tail_from(s@, i as int)[0] == s@[i as int]);
            } else {
                assert(tail_from(s@, i as int).len() == 0);
            }
        }
        match eat_lit(s, i, "null") {
            Some(j) => Ok((None, j)),
            None => Err(DecodeError::Malformed),
        }
    }
}

/// Parse a severity at position `i` of `s`.
fn p_severity(s: &str, i: usize) -> (r: Result<(Severity, usize), DecodeError>)
    requires
        i <= s@.len(),
    ensures
        match r {
            Ok(p) => {
                &&& i <= p.1 <= s@.len()
                &&& parse_severity(tail_from(s@, i as int)) == Some(
                    (p.0, tail_from(s@, p.1 as int)),
                )
            },
            Err(_) => parse_severity(tail_from(s@, i as int)) is None,
        },
{
    match eat_lit(s, i, "\"Info\"") {
        Some(j) => {
            return Ok((Severity::Info, j));
        },
        None => {
        },
    }
    match eat_lit(s, i, "\"Warning\"") {
        Some(j) => {
            return Ok((Severity::Warning, j));
        },
        None => {
        },
    }
    match eat_lit(s, i, "\"Critical\"") {
        Some(j) => {
            return Ok((Severity::Critical, j));
        },
        None => {
        },
    }
    Err(DecodeError::UnknownTag)
}

/// Parse an approval source at position `i` of `s`.
fn p_source(s: &str, i: usize) -> (r: Result<(ApprovalSource, usize), DecodeError>)
    requires
        i <= s@.len(),
    ensures
        match r {
            Ok(p) => {
                &&& i <= p.1 <= s@.len()
                &&& parse_source(tail_from(s@, i as int)) == Some(
                    (p.0@, tail_from(s@, p.1 as int)),
                )
            },
            Err(_) => parse_source(tail_from(s@, i as int)) is None,
        },
{
    proof {
        reveal(parse_source);
    }
    match eat_lit(s, i, "{\"ClawSudo\":{\"policy_rule\":") {
        Some(j1) => {
            let (rule, j2) = match p_opt_string(s, j1) {
                Ok(p) => p,
                Err(e) => {
                    return Err(e);
                },
            };
            match eat_lit(s, j2, "}}") {
                Some(j3) => Ok((ApprovalSource::ClawSudo { policy_rule: rule }, j3)),
                None => Err(DecodeError::Malformed),
            }
        },
        None => {
            match eat_lit(s, i, "{\"ResponseEngine\":{\"threat_id\":") {
                Some(j1) => {
                    let (tid, j2) = match p_string(s, j1) {
                        Some(p) => p,
                        None => {
                            return Err(DecodeError::Malformed);
                        },
                    };
                    let j3 = match eat_lit(s, j2, ",\"playbook\":") {
                        Some(j3) => j3,
                        None => {
                            return Err(DecodeError::Malformed);
                        },
                    };
                    let (pb, j4) = match p_opt_string(s, j3) {
                        Ok(p) => p,
                        Err(e) => {
                            return Err(e);
                        },
                    };
                    match eat_lit(s, j4, "}}") {
                        Some(j5) => Ok(
                            (ApprovalSource::ResponseEngine { threat_id: tid, playbook: pb }, j5),
                        ),
                        None => Err(DecodeError::Malformed),
                    }
                },
                None => Err(DecodeError::UnknownTag),
            }
        },
    }
}

/// Parse the shared decision fields at position `i` of `s`.
#[verifier::rlimit(60)]
fn p_decision_fields(s: &str, i: usize) -> (r: Result<
    ((String, String, Option<String>, i64), usize),
    DecodeError,
>)
    requires
        i <= s@.len(),
    ensures
        match r {
            Ok(p) => {
                &&& i <= p.1 <= s@.len()
                &&& parse_decision_fields(tail_from(s@, i as int)) == Some(
                    (
                        (p.0.0@, p.0.1@, p.0.2.deep_view(), p.0.3 as int),
                        tail_from(s@, p.1 as int),
                    ),
                )
            },
            Err(_) => parse_decision_fields(tail_from(s@, i as int)) is None,
        },
{
    let (by, j2) = match p_string(s, i) {
        Some(p) => p,
        None => {
            return Err(DecodeError::Malformed);
        },
    };
    let j3 = match eat_lit(s, j2, ",\"via\":") {
        Some(j) => j,
        None => {
            return Err(DecodeError::Malformed);
        },
    };
    let (via, j4) = match p_string(s, j3) {
        Some(p) => p,
        None => {
            return Err(DecodeError::Malformed);
        },
    };
    let j5 = match eat_lit(s, j4, ",\"message\":") {
        Some(j) => j,
        None => {
            return Err(DecodeError::Malformed);
        },
    };
    let (msg, j6) = match p_opt_string(s, j5) {
        Ok(p) => p,
        Err(e) => {
            return Err(e);
        },
    };
    let j7 = match eat_lit(s, j6, ",\"at\":") {
        Some(j) => j,
        None => {
            return Err(DecodeError::Malformed);
        },
    };
    let (at, j8) = match p_i64(s, j7) {
        Ok(p) => p,
        Err(NumFail::NoNumber) => {
            return Err(DecodeError::Malformed);
        },
        Err(NumFail::TooLarge) => {
            return Err(DecodeError::OutOfRange);
        },
    };
    match eat_lit(s, j8, "}}") {
        Some(j9) => Ok(((by, via, msg, at), j9)),
        None => Err(DecodeError::Malformed),
    }
}

/// Parse a resolution at position `i` of `s`.
#[verifier::rlimit(60)]
fn p_resolution(s: &str, i: usize) -> (r: Result<(ApprovalResolution, usize), DecodeError>)
    requires
        i <= s@.len(),
    ensures
        match r {
            Ok(p) => {
                &&& i <= p.1 <= s@.len()
                &&& parse_resolution(tail_from(s@, i as int)) == Some(
                    (p.0@, tail_from(s@, p.1 as int)),
                )
            },
            Err(_) => parse_resolution(tail_from(s@, i as int)) is None,
        },
{
    match eat_lit(s, i, "{\"Approved\":{\"by\":") {
        Some(j1) => {
            let ((by, via, message, at), j2) = match p_decision_fields(s, j1) {
                Ok(p) => p,
                Err(e) => {
                    return Err(e);
                },
            };
            return Ok((ApprovalResolution::Approved { by, via, message, at }, j2));
        },
        None => {
        },
    }
    match eat_lit(s, i, "{\"Denied\":{\"by\":") {
        Some(j1) => {
            let ((by, via, message, at), j2) = match p_decision_fields(s, j1) {
                Ok(p) => p,
                Err(e) => {
                    return Err(e);
                },
            };
            return Ok((ApprovalResolution::Denied { by, via, message, at }, j2));
        },
        None => {
        },
    }
    match eat_lit(s, i, "{\"TimedOut\":{\"at\":") {
        Some(j1) => {
            let (at, j2) = match p_i64(s, j1) {
                Ok(p) => p,
                Err(NumFail::NoNumber) => {
                    return Err(DecodeError::Malformed);
                },
                Err(NumFail::TooLarge) => {
                    return Err(DecodeError::OutOfRange);
                },
            };
            match eat_lit(s, j2, "}}") {
                Some(j3) => Ok((ApprovalResolution::TimedOut { at }, j3)),
                None => Err(DecodeError::Malformed),
            }
        },
        None => Err(DecodeError::UnknownTag),
    }
}

/// Parse a status at position `i` of `s`.
fn p_status(s: &str, i: usize) -> (r: Result<(ApprovalStatus, usize), DecodeError>)
    requires
        i <= s@.len(),
    ensures
        match r {
            Ok(p) => {
                &&& i <= p.1 <= s@.len()
                &&& parse_status(tail_from(s@, i as int)) == Some(
                    (p.0@, tail_from(s@, p.1 as int)),
                )
            },
            Err(_) => parse_status(tail_from(s@, i as int)) is None,
        },
{
    match eat_lit(s, i, "\"Pending\"") {
        Some(j) => {
            return Ok((ApprovalStatus::Pending, j));
        },
        None => {
        },
    }
    match eat_lit(s, i, "{\"Resolved\":") {
        Some(j1) => {
            let (res, j2) = match p_resolution(s, j1) {
                Ok(p) => p,
                Err(e) => {
                    return Err(e);
                },
            };
            match eat_lit(s, j2, "}") {
                Some(j3) => Ok((ApprovalStatus::Resolved(res), j3)),
                None => Err(DecodeError::Malformed),
            }
        },
        None => Err(DecodeError::UnknownTag),
    }
}

/// Parse a whole request at position `i` of `s`.
#[verifier::rlimit(100)]
fn p_request(s: &str, i: usize) -> (r: Result<(ApprovalRequest, usize), DecodeError>)
    requires
        i <= s@.len(),
    ensures
        match r {
            Ok(p) => {
                &&& i <= p.1 <= s@.len()
                &&& parse_request(tail_from(s@, i as int)) == Some(
                    (p.0@, tail_from(s@, p.1 as int)),
                )
            },
            Err(_) => parse_request(tail_from(s@, i as int)) is None,
        },
{
    proof {
        reveal(parse_request_mid);
        reveal(parse_request_tail);
    }
    let j1 = match eat_lit(s, i, "{\"id\":") {
        Some(j) => j,
        None => {
            return Err(DecodeError::Malformed);
        },
    };
    let (id, j2) = match p_string(s, j1) {
        Some(p) => p,
        None => {
            return Err(DecodeError::Malformed);
        },
    };
    let j3 = match eat_lit(s, j2, ",\"source\":") {
        Some(j) => j,
        None => {
            return Err(DecodeError::Malformed);
        },
    };
    let (source, j4) = match p_source(s, j3) {
        Ok(p) => p,
        Err(e) => {
            return Err(e);
        },
    };
    let j5 = match eat_lit(s, j4, ",\"command\":") {
        Some(j) => j,
        None => {
            return Err(DecodeError::Malformed);
        },
    };
    let (command, j6) = match p_string(s, j5) {
        Some(p) => p,
        None => {
            return Err(DecodeError::Malformed);
        },
    };
    let j7 = match eat_lit(s, j6, ",\"agent\":") {
        Some(j) => j,
        None => {
            return Err(DecodeError::Malformed);
        },
    };
    let (agent, j8) = match p_string(s, j7) {
        Some(p) => p,
        None => {
            return Err(DecodeError::Malformed);
        },
    };
    let j9 = match eat_lit(s, j8, ",\"severity\":") {
        Some(j) => j,
        None => {
            return Err(DecodeError::Malformed);
        },
    };
    let (severity, j10) = match p_severity(s, j9) {
        Ok(p) => p,
        Err(e) => {
            return Err(e);
        },
    };
    let j11 = match eat_lit(s, j10, ",\"context\":") {
        Some(j) => j,
        None => {
            return Err(DecodeError::Malformed);
        },
    };
    let (context, j12) = match p_string(s, j11) {
        Some(p) => p,
        None => {
            return Err(DecodeError::Malformed);
        },
    };
    let j13 = match eat_lit(s, j12, ",\"created_at\":") {
        Some(j) => j,
        None => {
            return Err(DecodeError::Malformed);
        },
    };
    let (created_at, j14) = match p_i64(s, j13) {
        Ok(p) => p,
        Err(NumFail::NoNumber) => {
            return Err(DecodeError::Malformed);
        },
        Err(NumFail::TooLarge) => {
            return Err(DecodeError::OutOfRange);
        },
    };
    let j15 = match eat_lit(s, j14, ",\"timeout\":") {
        Some(j) => j,
        None => {
            return Err(DecodeError::Malformed);
        },
    };
    let (secs, j16) = match p_u64(s, j15) {
        Ok(p) => p,
        Err(NumFail::NoNumber) => {
            return Err(DecodeError::Malformed);
        },
        Err(NumFail::TooLarge) => {
            return Err(DecodeError::OutOfRange);
        },
    };
    let j17 = match eat_lit(s, j16, ",\"status\":") {
        Some(j) => j,
        None => {
            return Err(DecodeError::Malformed);
        },
    };
    let (status, j18) = match p_status(s, j17) {
        Ok(p) => p,
        Err(e) => {
            return Err(e);
        },
    };
    match eat_lit(s, j18, "}") {
        Some(j19) => Ok(
            (
                ApprovalRequest {
                    id,
                    source,
                    command,
                    agent,
                    severity,
                    context,
                    created_at,
                    timeout: Timeout { secs, nanos: 0 },
                    status,
                },
                j19,
            ),
        ),
        None => Err(DecodeError::Malformed),
    }
}

/// Read an approval source back from its serialized text; the whole input
/// must be consumed.
pub fn deserialize_source(s: &str) -> (r: Result<ApprovalSource, DecodeError>)
    ensures
        r is Ok <==> {
            &&& parse_source(s@) matches Some(p)
            &&& parse_source(s@)->Some_0.1.len() == 0
        },
        r matches Ok(v) ==> parse_source(s@)->Some_0.0 == v@,
{
    let n = s.unicode_len();
    proof {
        assert(tail_from(s@, 0) =~= s@);
    }
    match p_source(s, 0) {
        Ok((v, j)) => {
            if j == n {
                proof {
                    assert(tail_from(s@, j as int).len() == 0);
                }
                Ok(v)
            } else {
                Err(DecodeError::Malformed)
            }
        },
        Err(e) => Err(e),
    }
}

/// Read a resolution back from its serialized text; the whole input must be
/// consumed.
pub fn deserialize_resolution(s: &str) -> (r: Result<ApprovalResolution, DecodeError>)
    ensures
        r is Ok <==> {
            &&& parse_resolution(s@) matches Some(p)
            &&& parse_resolution(s@)->Some_0.1.len() == 0
        },
        r matches Ok(v) ==> parse_resolution(s@)->Some_0.0 == v@,
{
    let n = s.unicode_len();
    proof {
        assert(tail_from(s@, 0) =~= s@);
    }
    match p_resolution(s, 0) {
        Ok((v, j)) => {
            if j == n {
                proof {
                    assert(tail_from(s@, j as int).len() == 0);
                }
                Ok(v)
            } else {
                Err(DecodeError::Malformed)
            }
        },
        Err(e) => Err(e),
    }
}

/// Read a whole request back from its serialized text.  The whole input must
/// be consumed and the recovered value must be well formed: a resolution
/// instant may not predate the creation instant.
pub fn deserialize(s: &str) -> (r: Result<ApprovalRequest, DecodeError>)
    ensures
        r is Ok <==> {
            &&& parse_request(s@) matches Some(p)
            &&& parse_request(s@)->Some_0.1.len() == 0
            &&& parse_request(s@)->Some_0.0.wf()
        },
        r matches Ok(req) ==> parse_request(s@)->Some_0.0 == req@ && req@.wf(),
{
    let n = s.unicode_len();
    proof {
        assert(tail_from(s@, 0) =~= s@);
    }
    match p_request(s, 0) {
        Ok((req, j)) => {
            if j != n {
                return Err(DecodeError::Malformed);
            }
            proof {
                assert(tail_from(s@, j as int).len() == 0);
            }
            if req.check_wf() {
                Ok(req)
            } else {
                Err(DecodeError::OutOfRange)
            }
        },
        Err(e) => Err(e),
    }
}

} // verus!
