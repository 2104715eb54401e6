//! Session bootstrap configuration, as plain data.
//!
//! The session layer offers two entry points: become the host (local
//! authority, no round-trip) or join a remote authority at a known
//! address.  The actual sockets live outside the simulation; these
//! values only say what to connect to and at what cadence to replicate.

use vstd::prelude::*;
use crate::tick::TICK_INTERVAL_NS;

verus! {

/// The server listens on this port.
pub const NETCODE_PORT: u16 = 4000;

/// How often authoritative state is replicated to clients, in
/// milliseconds.
pub const SERVER_REPLICATION_INTERVAL_MS: u64 = 100;

/// An IPv4 endpoint, held as plain values.
#[derive(Clone, Copy, Debug, PartialEq, Eq, Structural)]
pub struct NetAddress {
    pub a: u8,
    pub b: u8,
    pub c: u8,
    pub d: u8,
    pub port: u16,
}

/// The loopback endpoint the host listens on.
pub fn server_addr() -> (r: NetAddress)
    ensures
        r == (NetAddress { a: 127, b: 0, c: 0, d: 1, port: NETCODE_PORT }),
{
    NetAddress { a: 127, b: 0, c: 0, d: 1, port: NETCODE_PORT }
}

/// Artificial link conditions for testing; all zero means a clean link.
#[derive(Clone, Copy, Debug, PartialEq, Eq, Structural)]
pub struct LinkConditionerConfig {
    pub incoming_latency_ms: u64,
    pub incoming_jitter_ms: u64,
    pub incoming_loss_permille: u16,
}

/// Configuration shared by client and server: the replication cadence
/// and the tick duration, which must agree on both sides for tick
/// numbers to mean the same thing.
#[derive(Clone, Copy, Debug, PartialEq, Eq, Structural)]
pub struct SharedConfig {
    pub server_replication_interval_ms: u64,
    pub tick_duration_ns: u64,
    pub host_server: bool,
}

pub fn shared_config() -> (c: SharedConfig)
    ensures
        c == (SharedConfig {
            server_replication_interval_ms: SERVER_REPLICATION_INTERVAL_MS,
            tick_duration_ns: TICK_INTERVAL_NS,
            host_server: true,
        }),
{
    SharedConfig {
        server_replication_interval_ms: SERVER_REPLICATION_INTERVAL_MS,
        tick_duration_ns: TICK_INTERVAL_NS,
        host_server: true,
    }
}

/// How this process takes part in the session.
#[derive(Clone, Copy, Debug, PartialEq, Eq, Structural)]
pub enum NetMode {
    /// Local authority: host and client in one process.
    Local { id: u64 },
    /// Remote authority: connect to `server` under `client_id`.
    Netcode { server: NetAddress, client_id: u64, protocol_id: u64 },
}

/// Client-side network configuration.
#[derive(Clone, Copy, Debug, PartialEq, Eq, Structural)]
pub struct ClientConfig {
    pub shared: SharedConfig,
    pub net: NetMode,
    pub conditioner: LinkConditionerConfig,
}

/// Chooses between the two session entry points by rewriting the
/// client configuration.
#[derive(Clone, Copy, Debug, PartialEq, Eq, Structural)]
pub struct MyNetConfigControl {
    pub client_config: ClientConfig,
}

impl MyNetConfigControl {
    /// Join a remote authority at the known server address.
    pub fn set_to_join(&mut self)
        ensures
            final(self).client_config == (ClientConfig {
                shared: SharedConfig {
                    server_replication_interval_ms: SERVER_REPLICATION_INTERVAL_MS,
                    tick_duration_ns: TICK_INTERVAL_NS,
                    host_server: true,
                },
                net: NetMode::Netcode {
                    server: NetAddress { a: 127, b: 0, c: 0, d: 1, port: NETCODE_PORT },
                    client_id: 1,
                    protocol_id: 0,
                },
                conditioner: LinkConditionerConfig {
                    incoming_latency_ms: 0,
                    incoming_jitter_ms: 0,
                    incoming_loss_permille: 0,
                },
            }),
    {
        self.client_config = ClientConfig {
            shared: shared_config(),
            net: NetMode::Netcode {
                server: server_addr(),
                client_id: 1,
                protocol_id: 0,
            },
            conditioner: MyNetConfigControl::get_default_conditioner(),
        };
    }

    /// Become the host: local authority, no network round-trip.
    pub fn set_to_host(&mut self)
        ensures
            final(self).client_config == (ClientConfig {
                shared: SharedConfig {
                    server_replication_interval_ms: SERVER_REPLICATION_INTERVAL_MS,
                    tick_duration_ns: TICK_INTERVAL_NS,
                    host_server: true,
                },
                net: NetMode::Local { id: 0 },
                conditioner: final(self).client_config.conditioner,
            }),
    {
        self.client_config = ClientConfig {
            shared: shared_config(),
            net: NetMode::Local { id: 0 },
            conditioner: self.client_config.conditioner,
        };
    }

    /// A clean link: no artificial latency, jitter or loss.
    pub fn get_default_conditioner() -> (c: LinkConditionerConfig)
        ensures
            c == (LinkConditionerConfig {
                incoming_latency_ms: 0,
                incoming_jitter_ms: 0,
                incoming_loss_permille: 0,
            }),
    {
        LinkConditionerConfig {
            incoming_latency_ms: 0,
            incoming_jitter_ms: 0,
            incoming_loss_permille: 0,
        }
    }
}

} // verus!
