//! Per-server query outcomes: every transport or decode failure is folded
//! into a single `Unreachable` value, so that asking one server can never
//! abort an aggregation run.

use vstd::prelude::*;
use crate::codec::{decode_reply, lossy_of, spec_decode, QueryReply};

verus! {

/// Why the transport produced no reply bytes for one query.
#[derive(Clone, Copy, Debug, PartialEq, Eq, Structural)]
pub enum TransportError {
    /// The configured address did not resolve to a socket address.
    ResolutionFailed,
    /// The request datagram could not be sent.
    SendFailed,
    /// The receive failed before the timeout elapsed.
    ReceiveFailed,
    /// No reply arrived within the allowed wait.
    Timeout,
}

/// The outcome of asking one server for its status. Callers never learn
/// why a server was unreachable: all failure modes are equivalent here.
pub enum QueryOutcome {
    Online(QueryReply),
    Unreachable,
}

/// The label a reply is reported under: the name the server announced,
/// or the configured display name when the announced name is empty.
/// The protocol-reported name wins whenever it is present.
pub open spec fn chosen_label(display: Seq<char>, reported: Seq<char>) -> Seq<char> {
    if reported.len() == 0 {
        display
    } else {
        reported
    }
}

/// What the outcome of one query must be, given the configured display
/// name and the transport's answer: `Unreachable` on any transport or
/// decode failure, otherwise the decoded reply with the label rule applied.
pub open spec fn outcome_matches(
    display: Seq<char>,
    response: Result<Seq<u8>, TransportError>,
    o: QueryOutcome,
) -> bool {
    match response {
        Err(_) => o is Unreachable,
        Ok(bytes) => match spec_decode(bytes) {
            Err(_) => o is Unreachable,
            Ok(m) => match o {
                QueryOutcome::Online(q) => {
                    &&& q.reported_name@ == chosen_label(display, lossy_of(m.name))
                    &&& q.map_name@ == lossy_of(m.map)
                    &&& q.player_count == m.players
                    &&& q.max_players == m.max_players
                },
                QueryOutcome::Unreachable => false,
            },
        },
    }
}

/// Classify one transport answer: decode the received buffer if there is
/// one, fold every failure into `Unreachable`, and substitute the display
/// name for an empty reported name. This function never fails.
pub fn outcome_of_response(display_name: &str, response: Result<Vec<u8>, TransportError>) -> (o:
    QueryOutcome)
    ensures
        outcome_matches(
            display_name@,
            match response {
                Ok(b) => Ok::<Seq<u8>, TransportError>(b@),
                Err(e) => Err::<Seq<u8>, TransportError>(e),
            },
            o,
        ),
{
    match response {
        Err(_) => QueryOutcome::Unreachable,
        Ok(bytes) => match decode_reply(&bytes) {
            Err(_) => QueryOutcome::Unreachable,
            Ok(q) => {
                let reported_name = if q.reported_name.as_str().is_empty() {
                    display_name.to_owned()
                } else {
                    q.reported_name
                };
                QueryOutcome::Online(
                    QueryReply {
                        reported_name,
                        map_name: q.map_name,
                        player_count: q.player_count,
                        max_players: q.max_players,
                    },
                )
            },
        },
    }
}

} // verus!
