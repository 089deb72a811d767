//! The reply of the router model, and where the JSON object in it stands.

use vstd::prelude::*;
use vstd::slice::slice_subrange;
use crate::config::HybridRouteTarget;
use crate::text;

verus! {

/// A decision as the router model gives it.
#[derive(Debug, Clone)]
pub struct RouterDecisionPayload {
    pub target: String,
    /// The confidence, as an IEEE 754 double-precision bit pattern.
    pub confidence_bits: u64,
    pub reason_code: String,
    pub summary: String,
}

/// The texts of a decision of the router model.
#[verifier::ext_equal]
pub struct PayloadView {
    pub target: Seq<char>,
    pub confidence_bits: u64,
    pub reason_code: Seq<char>,
    pub summary: Seq<char>,
}

impl View for RouterDecisionPayload {
    type V = PayloadView;

    open spec fn view(&self) -> PayloadView {
        PayloadView {
            target: self.target@,
            confidence_bits: self.confidence_bits,
            reason_code: self.reason_code@,
            summary: self.summary@,
        }
    }
}

/// Why a reply holds no decision.
#[derive(Debug, Clone, Copy, PartialEq, Eq, Structural)]
pub enum RouterReplyError {
    /// There is no JSON object in the reply.
    NoJson,
    /// There is something in braces in the reply, and it is no decision.
    InvalidEmbeddedJson,
}

/// The wording of an error.
pub open spec fn reply_error_message(error: RouterReplyError) -> Seq<char> {
    match error {
        RouterReplyError::NoJson => "router did not return valid JSON"@,
        RouterReplyError::InvalidEmbeddedJson => "failed to parse embedded router JSON"@,
    }
}

impl RouterReplyError {
    /// The wording of the error.
    pub fn message(self) -> (res: &'static str)
        ensures
            res@ == reply_error_message(self),
    {
        match self {
            RouterReplyError::NoJson => "router did not return valid JSON",
            RouterReplyError::InvalidEmbeddedJson => "failed to parse embedded router JSON",
        }
    }
}

/// What has happened to a reply so far.
#[derive(Debug, Clone)]
pub enum ReplyEvent {
    /// It has come in.
    Received,
    /// The whole of it is a decision.
    WholeParsed(RouterDecisionPayload),
    /// The whole of it is no decision.
    WholeRejected,
    /// The part in braces is a decision.
    EmbeddedParsed(RouterDecisionPayload),
    /// The part in braces is no decision.
    EmbeddedRejected,
}

/// What to do with a reply next.
#[derive(Debug, Clone)]
pub enum ReplyStep {
    /// Read this text, the whole reply, as a decision.
    ParseWhole(String),
    /// Read this text, the part in braces, as a decision.
    ParseEmbedded(String),
    /// This is the decision.
    Accepted(RouterDecisionPayload),
    /// There is none.
    Rejected(RouterReplyError),
}

/// The part of a reply from its first opening brace to its last closing one.
pub open spec fn embedded_json(raw: Seq<char>) -> Option<Seq<char>> {
    let start = text::first_index(raw, '{');
    let end = text::last_index(raw, '}');
    if start < end {
        Some(raw.subrange(start, end + 1))
    } else {
        None
    }
}

/// The part of a reply from its first opening brace to its last closing one.
pub fn find_embedded_json(raw: &str) -> (res: Option<String>)
    ensures
        text::opt_text(res) == embedded_json(raw@),
{
    let chars = text::chars_of(raw);
    let start = text::find_char(chars.as_slice(), '{');
    match text::rfind_char(chars.as_slice(), '}') {
        Some(end) => {
            if start < end {
                Some(text::string_of(slice_subrange(chars.as_slice(), start, end + 1)))
            } else {
                None
            }
        },
        None => None,
    }
}

/// `step` is what to do with the reply `raw` after `event`.
pub open spec fn is_next_step(raw: Seq<char>, event: ReplyEvent, step: ReplyStep) -> bool {
    match event {
        ReplyEvent::Received => step matches ReplyStep::ParseWhole(json) && json@ == raw,
        ReplyEvent::WholeParsed(payload) => step == ReplyStep::Accepted(payload),
        ReplyEvent::WholeRejected => match embedded_json(raw) {
            Some(part) => step matches ReplyStep::ParseEmbedded(json) && json@ == part,
            None => step == ReplyStep::Rejected(RouterReplyError::NoJson),
        },
        ReplyEvent::EmbeddedParsed(payload) => step == ReplyStep::Accepted(payload),
        ReplyEvent::EmbeddedRejected => step == ReplyStep::Rejected(
            RouterReplyError::InvalidEmbeddedJson,
        ),
    }
}

/// The next step towards the decision in a reply: the whole of it is read first, and the
/// part in braces only where that fails.
pub fn parse_router_response(raw: &str, event: ReplyEvent) -> (res: ReplyStep)
    ensures
        match event {
            ReplyEvent::Received => res matches ReplyStep::ParseWhole(json) && json@ == raw@,
            ReplyEvent::WholeParsed(payload) => res == ReplyStep::Accepted(payload),
            ReplyEvent::WholeRejected => match embedded_json(raw@) {
                Some(part) => res matches ReplyStep::ParseEmbedded(json) && json@ == part,
                None => res == ReplyStep::Rejected(RouterReplyError::NoJson),
            },
            ReplyEvent::EmbeddedParsed(payload) => res == ReplyStep::Accepted(payload),
            ReplyEvent::EmbeddedRejected => res == ReplyStep::Rejected(
                RouterReplyError::InvalidEmbeddedJson,
            ),
        },
        is_next_step(raw@, event, res),
{
    match event {
        ReplyEvent::Received => ReplyStep::ParseWhole(raw.to_owned()),
        ReplyEvent::WholeParsed(payload) => ReplyStep::Accepted(payload),
        ReplyEvent::WholeRejected => match find_embedded_json(raw) {
            Some(json) => ReplyStep::ParseEmbedded(json),
            None => ReplyStep::Rejected(RouterReplyError::NoJson),
        },
        ReplyEvent::EmbeddedParsed(payload) => ReplyStep::Accepted(payload),
        ReplyEvent::EmbeddedRejected => ReplyStep::Rejected(RouterReplyError::InvalidEmbeddedJson),
    }
}

/// The target that a reply names, whatever the case of its letters and the white space
/// around it.
pub open spec fn named_target(raw: Seq<char>) -> Option<HybridRouteTarget> {
    if text::lowercase(text::trim(raw)) == "edge"@ {
        Some(HybridRouteTarget::Edge)
    } else if text::lowercase(text::trim(raw)) == "frontier"@ {
        Some(HybridRouteTarget::Frontier)
    } else {
        None
    }
}

/// The target that a reply names.
pub fn parse_target(raw: &str) -> (res: Option<HybridRouteTarget>)
    ensures
        res == named_target(raw@),
{
    let name = text::trimmed(raw);
    proof {
        reveal_strlit("edge");
        reveal_strlit("frontier");
        assert(text::lowercase("edge"@) =~= "edge"@);
        assert(text::lowercase("frontier"@) =~= "frontier"@);
    }
    if text::eq_ignore_ascii_case(name.as_str(), "edge") {
        Some(HybridRouteTarget::Edge)
    } else if text::eq_ignore_ascii_case(name.as_str(), "frontier") {
        Some(HybridRouteTarget::Frontier)
    } else {
        None
    }
}

} // verus!
