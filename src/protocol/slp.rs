//! The server list ping: what the proxy says about itself before a login.
use crate::config::ProxyConfig;
use crate::packet::handshake::Description;
use crate::packet::handshake::Players;
use crate::packet::handshake::Response;
use crate::packet::handshake::StatusView;
use crate::packet::handshake::Version;
use crate::packet::opt_chars;
use crate::player::Player;
use crate::util::color::colored_text;
use crate::util::color::Color;
use vstd::prelude::*;
use vstd::string::StringExecFns;

verus! {

/// The name the proxy gives as its version.
pub open spec fn software_name() -> Seq<char> {
    "Rift"@
}

/// What the status response says for a client of protocol `protocol`.
pub open spec fn status_view(config: &ProxyConfig, protocol: i32, players: Seq<Player>) -> StatusView {
    StatusView {
        name: software_name(),
        protocol,
        max: config.max_players,
        online: players.len() as i32,
        sample: players.map_values(|p: Player| (p.id, p.name@)),
        description: colored_text(config.motd@),
        favicon: opt_chars(config.favicon),
    }
}

/// The status response: the client's own protocol number (so that it shows
/// the proxy as compatible), the player limit and the players online, the
/// colour-translated message of the day, and the favicon if one is set.
pub fn status_response(config: &ProxyConfig, protocol: i32, players: &Vec<Player>) -> (r: Response)
    requires
        players@.len() <= i32::MAX,
    ensures
        r@ == status_view(config, protocol, players@),
{
    let mut sample: Vec<Player> = Vec::new();
    let mut i: usize = 0;
    while i < players.len()
        invariant
            i <= players@.len(),
            sample@.map_values(|p: Player| (p.id, p.name@)) == players@.take(i as int).map_values(
                |p: Player| (p.id, p.name@),
            ),
        decreases players@.len() - i,
    {
        let ghost before = sample@;
        let p = players[i].duplicate();
        sample.push(p);
        let ghost f = |p: Player| (p.id, p.name@);
        assert(players@.take((i + 1) as int) =~= players@.take(i as int).push(players@[i as int]));
        assert(sample@.map_values(f) =~= before.map_values(f).push(f(players@[i as int])));
        assert(sample@.map_values(|p: Player| (p.id, p.name@)) =~= players@.take(
            (i + 1) as int,
        ).map_values(|p: Player| (p.id, p.name@)));
        i = i + 1;
    }
    assert(players@.take(players@.len() as int) =~= players@);
    let favicon = match &config.favicon {
        Some(f) => Some(f.clone()),
        None => None,
    };
    let r = Response {
        version: Version { name: String::from_str("Rift"), protocol },
        players: Players { max: config.max_players, online: players.len() as i32, sample },
        description: Description { text: config.motd.colored() },
        favicon,
    };
    assert(r@.sample =~= status_view(config, protocol, players@).sample);
    r
}

} // verus!
