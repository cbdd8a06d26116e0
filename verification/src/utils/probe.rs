//! What one probe brought back, and whether it counts as reachable.

use vstd::prelude::*;

verus! {

/// What the HTTP client reports of one GET: the status code, the address the
/// request ended at after redirects and the `server` header, or that no
/// response came at all.
#[derive(Debug, PartialEq, Eq)]
pub enum ProbeReply {
    Response { status: u16, final_url: String, server: Option<String> },
    TransportFailure,
}

/// A `ProbeReply` as plain values.
pub enum ReplyModel {
    Response { status: u16, final_url: Seq<char>, server: Option<Seq<char>> },
    TransportFailure,
}

impl View for ProbeReply {
    type V = ReplyModel;

    open spec fn view(&self) -> ReplyModel {
        match *self {
            ProbeReply::Response { status, final_url, server } => ReplyModel::Response {
                status,
                final_url: final_url@,
                server: server.deep_view(),
            },
            ProbeReply::TransportFailure => ReplyModel::TransportFailure,
        }
    }
}

/// How a probe is judged.
#[derive(Debug, PartialEq, Eq)]
pub enum ProbeOutcome {
    /// The status is a success; the address is where the request ended.
    Accepted(String),
    /// The status is no success, but the host is known to answer working
    /// pages with such a status.
    RejectedWithHostOverride(String),
    /// Any other response.
    Rejected,
    /// No response.
    TransportFailure,
}

/// A `ProbeOutcome` as plain values.
pub enum OutcomeModel {
    Accepted(Seq<char>),
    RejectedWithHostOverride(Seq<char>),
    Rejected,
    TransportFailure,
}

impl View for ProbeOutcome {
    type V = OutcomeModel;

    open spec fn view(&self) -> OutcomeModel {
        match *self {
            ProbeOutcome::Accepted(u) => OutcomeModel::Accepted(u@),
            ProbeOutcome::RejectedWithHostOverride(u) => OutcomeModel::RejectedWithHostOverride(
                u@,
            ),
            ProbeOutcome::Rejected => OutcomeModel::Rejected,
            ProbeOutcome::TransportFailure => OutcomeModel::TransportFailure,
        }
    }
}

/// A status in the 200 series.
pub open spec fn is_success(status: u16) -> bool {
    200 <= status < 300
}

/// The `server` header of the one hosting provider whose working pages come
/// with a status that is no success.
pub open spec fn override_server() -> Seq<char> {
    "Squarespace"@
}

/// The `server` header is there and names the override host, letter for
/// letter.
pub open spec fn names_override_host(server: Option<Seq<char>>) -> bool {
    server == Some(override_server())
}

/// The outcome of a probe, by the acceptance rule.
pub open spec fn outcome_of(reply: ReplyModel) -> OutcomeModel {
    match reply {
        ReplyModel::Response { status, final_url, server } => {
            if is_success(status) {
                OutcomeModel::Accepted(final_url)
            } else if names_override_host(server) {
                OutcomeModel::RejectedWithHostOverride(final_url)
            } else {
                OutcomeModel::Rejected
            }
        },
        ReplyModel::TransportFailure => OutcomeModel::TransportFailure,
    }
}

/// The address that an outcome stands for, if it counts as reachable.
pub open spec fn reachable(outcome: OutcomeModel) -> Option<Seq<char>> {
    match outcome {
        OutcomeModel::Accepted(u) => Some(u),
        OutcomeModel::RejectedWithHostOverride(u) => Some(u),
        OutcomeModel::Rejected => None,
        OutcomeModel::TransportFailure => None,
    }
}

/// The address that a reply makes the resolution return, if any.
pub open spec fn accepted_url(reply: ReplyModel) -> Option<Seq<char>> {
    reachable(outcome_of(reply))
}

/// Whether a `server` header names the override host.
pub fn is_known_override_host(server: &Option<String>) -> (r: bool)
    ensures
        r == names_override_host(server.deep_view()),
{
    match server {
        Some(name) => {
            let expected = String::from_str("Squarespace");
            *name == expected
        },
        None => false,
    }
}

/// Judges one reply.
pub fn classify(reply: ProbeReply) -> (outcome: ProbeOutcome)
    ensures
        outcome@ == outcome_of(reply@),
{
    match reply {
        ProbeReply::Response { status, final_url, server } => {
            if 200 <= status && status < 300 {
                ProbeOutcome::Accepted(final_url)
            } else if is_known_override_host(&server) {
                ProbeOutcome::RejectedWithHostOverride(final_url)
            } else {
                ProbeOutcome::Rejected
            }
        },
        ProbeReply::TransportFailure => ProbeOutcome::TransportFailure,
    }
}

impl ProbeOutcome {
    /// The address to return for this outcome, if it counts as reachable.
    pub fn into_url(self) -> (r: Option<String>)
        ensures
            r.deep_view() == reachable(self@),
    {
        match self {
            ProbeOutcome::Accepted(u) => Some(u),
            ProbeOutcome::RejectedWithHostOverride(u) => Some(u),
            ProbeOutcome::Rejected => None,
            ProbeOutcome::TransportFailure => None,
        }
    }
}

/// Checks what a probe brought back and returns the address it ended at if
/// the status is in the 200 series, or if the override host answered.
pub fn check_status(reply: ProbeReply) -> (r: Option<String>)
    ensures
        r.deep_view() == accepted_url(reply@),
{
    classify(reply).into_url()
}

/// A response with a status in the 200 series is accepted with the address
/// it ended at, whatever its `server` header.
pub proof fn lemma_success_is_accepted(
    status: u16,
    final_url: Seq<char>,
    server: Option<Seq<char>>,
)
    requires
        is_success(status),
    ensures
        accepted_url(ReplyModel::Response { status, final_url, server }) == Some(final_url),
{
}

/// A response of the override host is accepted with the address it ended
/// at, whatever its status.
pub proof fn lemma_override_host_is_accepted(status: u16, final_url: Seq<char>)
    ensures
        accepted_url(
            ReplyModel::Response { status, final_url, server: Some(override_server()) },
        ) == Some(final_url),
        !is_success(status) ==> outcome_of(
            ReplyModel::Response { status, final_url, server: Some(override_server()) },
        ) == OutcomeModel::RejectedWithHostOverride(final_url),
{
}

/// Without a success status and without the override host's header nothing
/// is accepted; nor is a transport failure.
pub proof fn lemma_rejections(reply: ReplyModel)
    ensures
        accepted_url(reply) is None <==> (reply is TransportFailure || (reply matches ReplyModel::Response {
            status,
            server,
            ..
        } && !is_success(status) && !names_override_host(server))),
{
}

} // verus!
