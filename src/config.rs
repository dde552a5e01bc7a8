//! The proxy's configuration: where to listen, what to show in the server list,
//! and the backends to send players to.
use crate::error::ProxyError;
use rand::Rng;
use vstd::prelude::*;
use vstd::string::StringExecFns;

verus! {

/// One backend: a name, the `host:port` it listens on, and whether players may
/// be sent to it when they join.
#[derive(Debug)]
pub struct ServerConfig {
    pub id: String,
    pub address: String,
    pub default: bool,
}

impl View for ServerConfig {
    type V = (Seq<char>, Seq<char>, bool);

    open spec fn view(&self) -> Self::V {
        (self.id@, self.address@, self.default)
    }
}

impl ServerConfig {
    /// A copy of this entry.
    pub fn duplicate(&self) -> (r: ServerConfig)
        ensures
            r@ == self@,
    {
        ServerConfig { id: self.id.clone(), address: self.address.clone(), default: self.default }
    }
}

/// The configuration of the proxy.
#[derive(Debug)]
pub struct ProxyConfig {
    pub bind: String,
    pub ip_forward: bool,
    pub online_mode: bool,
    pub max_players: i32,
    pub motd: String,
    pub favicon: Option<String>,
    pub servers: Vec<ServerConfig>,
}

/// The entries of `servers` marked as defaults, in their order.
pub open spec fn default_entries(servers: Seq<(Seq<char>, Seq<char>, bool)>) -> Seq<(Seq<char>, Seq<char>, bool)> {
    servers.filter(|s: (Seq<char>, Seq<char>, bool)| s.2)
}

/// Relies on `rand::Rng::gen_range` on the thread's generator: a number drawn
/// from `0..n`, which is not empty.
#[verifier::external_body]
fn random_below(n: usize) -> (r: usize)
    requires
        n > 0,
    ensures
        r < n,
{
    rand::thread_rng().gen_range(0..n)
}

impl ProxyConfig {
    /// The views of the backends.
    pub open spec fn server_views(&self) -> Seq<(Seq<char>, Seq<char>, bool)> {
        self.servers@.map_values(|s: ServerConfig| s@)
    }

    /// Installs the base64 text of the server-list icon.
    pub fn set_favicon(&mut self, b64: String)
        ensures
            final(self).favicon == Some(b64),
            final(self).bind == old(self).bind,
            final(self).max_players == old(self).max_players,
            final(self).motd == old(self).motd,
            final(self).servers == old(self).servers,
    {
        self.favicon = Some(b64);
    }

    /// Copies of the backends marked as defaults, in their order.
    pub fn default_servers(&self) -> (r: Vec<ServerConfig>)
        ensures
            r@.map_values(|s: ServerConfig| s@) == default_entries(self.server_views()),
    {
        let mut out: Vec<ServerConfig> = Vec::new();
        let mut i: usize = 0;
        while i < self.servers.len()
            invariant
                i <= self.servers@.len(),
                out@.map_values(|s: ServerConfig| s@) == default_entries(
                    self.server_views().take(i as int),
                ),
            decreases self.servers@.len() - i,
        {
            let ghost views = self.server_views();
            proof {
                assert(views.take((i + 1) as int).drop_last() =~= views.take(i as int));
                reveal(Seq::filter);
            }
            if self.servers[i].default {
                out.push(self.servers[i].duplicate());
            }
            assert(out@.map_values(|s: ServerConfig| s@) =~= default_entries(
                views.take((i + 1) as int),
            ));
            i = i + 1;
        }
        assert(self.server_views().take(self.servers@.len() as int) =~= self.server_views());
        out
    }

    /// The `pick`-th default backend, counting round; none when no backend is
    /// a default.
    pub fn default_server_at(&self, pick: usize) -> (r: Option<ServerConfig>)
        ensures
            default_entries(self.server_views()).len() == 0 <==> r is None,
            r matches Some(s) ==> s@ == default_entries(self.server_views())[(pick as int)
                % (default_entries(self.server_views()).len() as int)],
    {
        let defaults = self.default_servers();
        let ghost d = default_entries(self.server_views());
        assert(defaults@.len() == d.len());
        if defaults.len() == 0 {
            return None;
        }
        let i = pick % defaults.len();
        assert(defaults@[i as int]@ == d[i as int]);
        Some(defaults[i].duplicate())
    }

    /// A backend drawn at random from those marked as defaults.
    pub fn get_default_server(&self) -> (r: Result<ServerConfig, ProxyError>)
        ensures
            default_entries(self.server_views()).len() == 0 <==> r is Err,
            r matches Err(e) ==> e == ProxyError::NoDefaultBackend,
            r matches Ok(s) ==> default_entries(self.server_views()).contains(s@),
            r matches Ok(s) ==> s.default,
    {
        let ghost d = default_entries(self.server_views());
        let count = self.default_servers().len();
        if count == 0 {
            return Err(ProxyError::NoDefaultBackend);
        }
        let pick = random_below(count);
        match self.default_server_at(pick) {
            Some(s) => {
                proof {
                    let k = (pick % count) as int;
                    assert(d[k] == s@);
                    assert(d.contains(s@));
                    self.server_views().lemma_filter_pred(
                        |x: (Seq<char>, Seq<char>, bool)| x.2,
                        k,
                    );
                }
                Ok(s)
            },
            None => Err(ProxyError::NoDefaultBackend),
        }
    }
}

impl Default for ProxyConfig {
    fn default() -> (r: ProxyConfig)
        ensures
            r.bind@ == "0.0.0.0:25570"@,
            r.ip_forward,
            r.online_mode,
            r.max_players == 20,
            r.motd@ == "&3Enter the rift."@,
            r.favicon is None,
            r.server_views() == seq![("lobby"@, "localhost:25565"@, true)],
    {
        let mut servers: Vec<ServerConfig> = Vec::new();
        servers.push(
            ServerConfig {
                id: String::from_str("lobby"),
                address: String::from_str("localhost:25565"),
                default: true,
            },
        );
        let r = ProxyConfig {
            bind: String::from_str("0.0.0.0:25570"),
            ip_forward: true,
            online_mode: true,
            max_players: 20,
            motd: String::from_str("&3Enter the rift."),
            favicon: None,
            servers,
        };
        assert(r.server_views() =~= seq![("lobby"@, "localhost:25565"@, true)]);
        r
    }
}

} // verus!
