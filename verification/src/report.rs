//! The status report: one `(label, line)` entry per configured server, in
//! configuration order, with a placeholder line for unreachable servers.

use vstd::prelude::*;
use vstd::string::*;
use crate::config::{address_rep, ServerConfiguration};
use crate::query::QueryOutcome;
use crate::text::{dec_rep, u16_to_dec};

verus! {

/// The status line for an online server: its map, its "current/max"
/// player counts, and a join hint built from the queried address.
pub open spec fn line_rep(
    map: Seq<char>,
    players: u8,
    max_players: u8,
    address: Seq<char>,
) -> Seq<char> {
    "| "@ + map + " | "@ + dec_rep(players as int) + "/"@ + dec_rep(max_players as int)
        + " | Join: steam://connect/"@ + address + " |"@
}

/// The report entry owed to one descriptor: for an online server, the
/// reported name and its status line; for an unreachable one, the
/// configured display name and the literal "Offline" placeholder.
pub open spec fn entry_rep(d: ServerConfiguration, o: QueryOutcome) -> (Seq<char>, Seq<char>) {
    match o {
        QueryOutcome::Online(q) => (
            q.reported_name@,
            line_rep(q.map_name@, q.player_count, q.max_players, address_rep(d.ip@, d.port)),
        ),
        QueryOutcome::Unreachable => (d.name@, "Offline"@),
    }
}

/// Render the status line for an online server.
pub fn format_line(map_name: &str, player_count: u8, max_players: u8, address: &str) -> (r: String)
    ensures
        r@ == line_rep(map_name@, player_count, max_players, address@),
{
    let mut r = "| ".to_owned();
    r.append(map_name);
    r.append(" | ");
    let players_text = u16_to_dec(player_count as u16);
    r.append(players_text.as_str());
    r.append("/");
    let max_text = u16_to_dec(max_players as u16);
    r.append(max_text.as_str());
    r.append(" | Join: steam://connect/");
    r.append(address);
    r.append(" |");
    proof {
        assert(r@ =~= line_rep(map_name@, player_count, max_players, address@));
    }
    r
}

/// Build the report entry for one descriptor and its query outcome.
pub fn entry_for(descriptor: &ServerConfiguration, outcome: QueryOutcome) -> (r: (String, String))
    ensures
        r.0@ == entry_rep(*descriptor, outcome).0,
        r.1@ == entry_rep(*descriptor, outcome).1,
{
    match outcome {
        QueryOutcome::Online(q) => {
            let address = descriptor.address_string();
            let line = format_line(
                q.map_name.as_str(),
                q.player_count,
                q.max_players,
                address.as_str(),
            );
            (q.reported_name, line)
        },
        QueryOutcome::Unreachable => (descriptor.name.clone(), "Offline".to_owned()),
    }
}

/// Fold a list of per-descriptor outcomes into the status report. The
/// report has exactly one entry per descriptor, in input order: entry `i`
/// is built from descriptor `i` and outcome `i`, so no mix of reachable
/// and unreachable servers reorders, drops, or duplicates an entry, and
/// the aggregation as a whole never fails.
pub fn build_report(descriptors: &Vec<ServerConfiguration>, outcomes: Vec<QueryOutcome>) -> (r: Vec<
    (String, String),
>)
    requires
        outcomes@.len() == descriptors@.len(),
    ensures
        r@.len() == descriptors@.len(),
        forall|i: int|
            0 <= i < r@.len() ==> r@[i].0@ == entry_rep(descriptors@[i], outcomes@[i]).0 && r@[i].1@
                == entry_rep(descriptors@[i], outcomes@[i]).1,
{
    let ghost orig = outcomes@;
    let mut rest = outcomes;
    let mut r: Vec<(String, String)> = Vec::new();
    let mut i: usize = 0;
    while i < descriptors.len()
        invariant
            0 <= i <= descriptors@.len(),
            orig.len() == descriptors@.len(),
            rest@ =~= orig.skip(i as int),
            r@.len() == i,
            forall|j: int|
                0 <= j < i ==> r@[j].0@ == entry_rep(descriptors@[j], orig[j]).0 && r@[j].1@
                    == entry_rep(descriptors@[j], orig[j]).1,
        decreases descriptors@.len() - i,
    {
        let outcome = rest.remove(0);
        proof {
            assert(outcome == orig[i as int]);
            assert(rest@ =~= orig.skip(i + 1));
        }
        let entry = entry_for(&descriptors[i], outcome);
        r.push(entry);
        i = i + 1;
    }
    r
}

/// When every server is unreachable the report is still complete: one
/// entry per descriptor, each pairing the configured display name with
/// the literal "Offline" placeholder.
pub proof fn lemma_all_unreachable_report(
    descriptors: Seq<ServerConfiguration>,
    outcomes: Seq<QueryOutcome>,
    report: Seq<(String, String)>,
)
    requires
        outcomes.len() == descriptors.len(),
        report.len() == descriptors.len(),
        forall|i: int| 0 <= i < outcomes.len() ==> outcomes[i] is Unreachable,
        forall|i: int|
            0 <= i < report.len() ==> report[i].0@ == entry_rep(descriptors[i], outcomes[i]).0
                && report[i].1@ == entry_rep(descriptors[i], outcomes[i]).1,
    ensures
        forall|i: int|
            0 <= i < report.len() ==> report[i].0@ == descriptors[i].name@ && report[i].1@
                == "Offline"@,
{
}

} // verus!
