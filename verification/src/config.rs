//! Configuration data: the values the surrounding program loads at
//! startup and hands to the query and role logic.

use vstd::prelude::*;
use vstd::string::*;
use crate::text::{all_digits, dec_rep, dec_val, parse_u64, u16_to_dec};

verus! {

/// One category of self-assignable roles: a heading and the role names
/// listed under it.
pub struct RoleConfiguration {
    pub category: String,
    pub names: Vec<String>,
}

/// One game server to query: a fallback display name and the host and
/// port of its query endpoint.
pub struct ServerConfiguration {
    pub name: String,
    pub ip: String,
    pub port: u16,
}

/// Everything the program is configured with: connection identifiers,
/// the command prefix, the servers to query, and the role categories.
pub struct Configuration {
    pub token: String,
    pub prefix: String,
    pub guild_id: String,
    pub application_id: String,
    pub servers: Vec<ServerConfiguration>,
    pub role: Vec<RoleConfiguration>,
}

/// The "host:port" text of a server address.
pub open spec fn address_rep(ip: Seq<char>, port: u16) -> Seq<char> {
    ip + seq![':'] + dec_rep(port as int)
}

impl ServerConfiguration {
    /// The address this server is queried at, as "host:port" text.
    pub fn address_string(&self) -> (r: String)
        ensures
            r@ == address_rep(self.ip@, self.port),
    {
        let mut r = self.ip.clone();
        r.append(":");
        let port_text = u16_to_dec(self.port);
        r.append(port_text.as_str());
        proof {
            reveal_strlit(":");
            assert(r@ =~= address_rep(self.ip@, self.port));
        }
        r
    }
}

impl Configuration {
    /// Whether the configured guild identifier, stored as decimal text,
    /// names the given guild.
    pub fn guild_matches(&self, guild: u64) -> (r: bool)
        ensures
            r <==> (all_digits(self.guild_id@) && self.guild_id@.len() > 0 && dec_val(
                self.guild_id@,
            ) == guild as int),
    {
        match parse_u64(self.guild_id.as_str()) {
            Some(v) => v == guild,
            None => false,
        }
    }
}

} // verus!
