//! Shard routing for the tunnel: the immutable shard map built from
//! configuration at startup, and the forwarding plan for one request.
//! The plan is everything the HTTP client needs: target URI, whether a
//! body goes along, and the forwarded headers, untouched. Carrying the
//! plan out on the network is the host program's part.

use vstd::prelude::*;

use crate::http::{HeaderEntry, Method};
use crate::text::{dec_of, u64_to_dec};

verus! {

pub struct ProxyTunnel;

/// One more than the largest shard id the proxy accepts.
pub const MAX_SHARDS: u8 = 16;

/// How long the host program keeps idle backend connections alive.
pub const CLIENT_KEEP_ALIVE_TIMEOUT_SECONDS: u64 = 30;

/// One configured shard: its id and its backend's address.
pub struct ShardConfig {
    pub shard: u8,
    pub host: String,
    pub port: u16,
}

/// Why the shard map cannot be built: a configured shard id is at or
/// above the maximum. Fatal at startup.
#[derive(Clone, Copy, Debug, PartialEq, Eq, Structural)]
pub enum ConfigError {
    ShardOverflow,
}

/// Why a request cannot be forwarded: its shard is out of bounds, or
/// no backend is registered for it. Either way the tunnel fails
/// immediately, before any network activity.
#[derive(Clone, Copy, Debug, PartialEq, Eq, Structural)]
pub enum TunnelError {
    ShardOutOfBounds,
    ShardNotRegistered,
}

/// The backend origin of one configured shard.
pub open spec fn origin_str_of(c: ShardConfig) -> Seq<char> {
    "http://"@ + c.host@ + ":"@ + dec_of(c.port as nat)
}

/// The origin the configuration assigns a shard id, the last entry
/// winning.
pub open spec fn shard_origin_of(cfg: Seq<ShardConfig>, sid: int) -> Option<Seq<char>>
    decreases cfg.len(),
{
    if cfg.len() == 0 {
        None
    } else if cfg.last().shard == sid {
        Some(origin_str_of(cfg.last()))
    } else {
        shard_origin_of(cfg.drop_last(), sid)
    }
}

/// The view of an optional origin entry.
pub open spec fn opt_origin_view(o: Option<String>) -> Option<Seq<char>> {
    match o {
        Some(s) => Some(s@),
        None => None,
    }
}

/// The read-only table from shard id to backend origin, built once at
/// startup and only consulted afterwards.
pub struct ShardMap {
    pub origins: Vec<Option<String>>,
}

impl ShardMap {
    pub open spec fn wf(self) -> bool {
        self.origins@.len() == MAX_SHARDS
    }
}

/// The target URI of a forwarded request: the shard's origin, the
/// original path, and the original query when there is one.
pub open spec fn tunnel_uri_of(origin: Seq<char>, path: Seq<char>, query: Option<Seq<char>>) -> Seq<
    char,
> {
    origin + path + (match query {
        Some(q) => "?"@ + q,
        None => Seq::empty(),
    })
}

/// The forwarding plan for one request: where to send it, whether its
/// body goes along, and the headers to forward.
pub struct TunnelPlan {
    pub uri: String,
    pub has_body: bool,
    pub headers: Vec<HeaderEntry>,
}

/// Builds the shard map from configuration. A shard id at or above
/// the maximum is rejected, so the process never starts serving with
/// an invalid map.
pub fn map_shards(cfg: Vec<ShardConfig>) -> (r: Result<ShardMap, ConfigError>)
    ensures
        r is Ok <==> (forall|i: int| 0 <= i < cfg@.len() ==> (#[trigger] cfg@[i].shard)
            < MAX_SHARDS),
        r matches Ok(m) ==> m.wf() && forall|sid: int|
            0 <= sid < MAX_SHARDS ==> opt_origin_view(#[trigger] m.origins@[sid])
                == shard_origin_of(cfg@, sid),
{
    let mut origins: Vec<Option<String>> = Vec::new();
    let mut k: usize = 0;
    while k < 16
        invariant
            k <= 16,
            origins@.len() == k,
            forall|sid: int| 0 <= sid < k ==> origins@[sid] is None,
        decreases 16 - k,
    {
        origins.push(None);
        k += 1;
    }
    proof {
        assert forall|sid: int| 0 <= sid < MAX_SHARDS implies opt_origin_view(
            #[trigger] origins@[sid],
        ) == shard_origin_of(cfg@.take(0), sid) by {
            assert(cfg@.take(0) =~= Seq::<ShardConfig>::empty());
        }
    }
    let n = cfg.len();
    let mut i: usize = 0;
    while i < n
        invariant
            n == cfg@.len(),
            i <= n,
            origins@.len() == MAX_SHARDS,
            forall|j: int| 0 <= j < i ==> (#[trigger] cfg@[j].shard) < MAX_SHARDS,
            forall|sid: int|
                0 <= sid < MAX_SHARDS ==> opt_origin_view(#[trigger] origins@[sid])
                    == shard_origin_of(cfg@.take(i as int), sid),
        decreases n - i,
    {
        let sid = cfg[i].shard;
        if sid >= MAX_SHARDS {
            proof {
                assert(cfg@[i as int].shard >= MAX_SHARDS);
            }
            return Err(ConfigError::ShardOverflow);
        }
        let mut origin = String::new();
        origin.append("http://");
        origin.append(cfg[i].host.as_str());
        origin.append(":");
        let port_dec = u64_to_dec(cfg[i].port as u64);
        origin.append(port_dec.as_str());
        proof {
            assert(origin@ =~= origin_str_of(cfg@[i as int]));
        }
        let ghost pre = origins@;
        origins[sid as usize] = Some(origin);
        proof {
            assert forall|s2: int|
                0 <= s2 < MAX_SHARDS implies opt_origin_view(#[trigger] origins@[s2])
                == shard_origin_of(cfg@.take(i + 1), s2) by {
                assert(cfg@.take(i + 1).drop_last() =~= cfg@.take(i as int));
                assert(cfg@.take(i + 1).last() == cfg@[i as int]);
                if s2 != sid as int {
                    assert(origins@[s2] == pre[s2]);
                }
            }
        }
        i += 1;
    }
    proof {
        assert(cfg@.take(n as int) =~= cfg@);
    }
    Ok(ShardMap { origins })
}

impl ProxyTunnel {
    /// Resolves a request's shard and builds its forwarding plan.
    /// A shard id at or beyond the maximum, or one without a
    /// registered backend, fails at once: no network call is ever
    /// attempted for it. The body is forwarded only for methods that
    /// conventionally carry one; headers are forwarded unchanged.
    pub fn run(
        map: &ShardMap,
        method: &Method,
        path: &str,
        query: Option<&str>,
        headers: Vec<HeaderEntry>,
        shard: u8,
    ) -> (r: Result<TunnelPlan, TunnelError>)
        requires
            map.wf(),
        ensures
            shard >= MAX_SHARDS ==> r == Err::<TunnelPlan, TunnelError>(
                TunnelError::ShardOutOfBounds,
            ),
            shard < MAX_SHARDS && map.origins@[shard as int] is None ==> r == Err::<
                TunnelPlan,
                TunnelError,
            >(TunnelError::ShardNotRegistered),
            (shard < MAX_SHARDS && map.origins@[shard as int] is Some) ==> (r matches Ok(p)
                && p.uri@ == tunnel_uri_of(
                map.origins@[shard as int]->0@,
                path@,
                crate::cache::route::opt_str_view(query),
            ) && p.has_body == method.spec_carries_body() && p.headers@ == headers@),
    {
        if shard >= MAX_SHARDS {
            return Err(TunnelError::ShardOutOfBounds);
        }
        match &map.origins[shard as usize] {
            None => Err(TunnelError::ShardNotRegistered),
            Some(origin) => {
                let mut uri = origin.clone();
                uri.append(path);
                match query {
                    Some(q) => {
                        uri.append("?");
                        uri.append(q);
                    },
                    None => {},
                }
                proof {
                    assert(uri@ =~= tunnel_uri_of(
                        map.origins@[shard as int]->0@,
                        path@,
                        crate::cache::route::opt_str_view(query),
                    ));
                }
                Ok(TunnelPlan { uri, has_body: method.carries_body(), headers })
            },
        }
    }
}

} // verus!
