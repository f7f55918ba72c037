//! The facade's verified core.
//!
//! The public client object holds callbacks, a command channel and the
//! shared reconnect flag; those live in the runtime. Every decision the
//! facade takes — which defaults apply, which command each public call
//! issues, and when a call must be a silent no-op — is taken here, on a
//! plain value of [`ClientCore`].

use vstd::prelude::*;

use crate::model::ClientCommand;
use crate::model::ClientCommandView;
use crate::model::ConnectionStatus;
use crate::model::SubscriptionMessage;

verus! {

/// The heartbeat interval used when none is given, in milliseconds.
pub const DEFAULT_PING_INTERVAL_MS: u64 = 5000;

/// The endpoint used when no host override is given.
pub open spec fn default_host() -> Seq<char> {
    "wss://ws-live-data.polymarket.com"@
}

/// The client's resolved configuration: no field is optional any more.
pub struct ClientConfig {
    pub host: String,
    pub ping_interval_ms: u64,
    pub auto_reconnect: bool,
}

/// Resolves the optional construction arguments: a missing host falls back
/// to the fixed production endpoint, a missing heartbeat interval to
/// [`DEFAULT_PING_INTERVAL_MS`], and a missing reconnect choice to enabled.
pub fn resolve_config(
    host: Option<String>,
    ping_interval: Option<u64>,
    auto_reconnect: Option<bool>,
) -> (r: ClientConfig)
    ensures
        r.host@ == match host {
            Some(h) => h@,
            None => default_host(),
        },
        r.ping_interval_ms == match ping_interval {
            Some(p) => p,
            None => DEFAULT_PING_INTERVAL_MS,
        },
        r.auto_reconnect == match auto_reconnect {
            Some(b) => b,
            None => true,
        },
{
    let host = match host {
        Some(h) => h,
        None => "wss://ws-live-data.polymarket.com".to_owned(),
    };
    let ping_interval_ms = match ping_interval {
        Some(p) => p,
        None => DEFAULT_PING_INTERVAL_MS,
    };
    let auto_reconnect = match auto_reconnect {
        Some(b) => b,
        None => true,
    };
    ClientConfig { host, ping_interval_ms, auto_reconnect }
}

/// What the facade knows: whether a command channel to a loop generation
/// exists (that is, whether `connect` has been called), and the value the
/// shared reconnect flag must hold.
pub struct ClientCore {
    pub has_channel: bool,
    pub reconnect: bool,
}

/// A fresh, inert facade core: no channel yet, the reconnect flag as
/// configured.
pub fn new_core(auto_reconnect: bool) -> (r: ClientCore)
    ensures
        r.has_channel == false,
        r.reconnect == auto_reconnect,
{
    ClientCore { has_channel: false, reconnect: auto_reconnect }
}

impl ClientCore {
    /// A `connect` call: the Connecting status is reported (the returned
    /// status), a fresh command channel comes into being, and the runtime
    /// spawns a loop generation in the dialing phase. The reconnect flag is
    /// untouched. The call returns once the loop is scheduled, never waiting
    /// for a session.
    pub fn connect_requested(&mut self) -> (r: ConnectionStatus)
        ensures
            final(self).has_channel == true,
            final(self).reconnect == old(self).reconnect,
            r == ConnectionStatus::Connecting,
    {
        self.has_channel = true;
        ConnectionStatus::Connecting
    }

    /// A `disconnect` call: the shared reconnect flag becomes false before
    /// anything else, and then — only if a channel exists — a Disconnect
    /// command is issued, best effort. Without a channel nothing else
    /// happens and nothing fails.
    pub fn disconnect_requested(&mut self) -> (r: Option<ClientCommand>)
        ensures
            final(self).reconnect == false,
            final(self).has_channel == old(self).has_channel,
            r is Some <==> old(self).has_channel,
            r matches Some(c) ==> c@ == ClientCommandView::Disconnect,
    {
        self.reconnect = false;
        if self.has_channel {
            Some(ClientCommand::Disconnect)
        } else {
            None
        }
    }

    /// A `subscribe` call: with a channel, the message is issued as a
    /// Subscribe command, best effort; with no channel — in particular
    /// before any `connect` call — there is no observable effect at all,
    /// and the message is dropped, never queued.
    pub fn subscribe_requested(&self, msg: SubscriptionMessage) -> (r: Option<ClientCommand>)
        ensures
            r is Some <==> self.has_channel,
            r matches Some(c) ==> c@ == ClientCommandView::Subscribe(msg@),
    {
        if self.has_channel {
            Some(ClientCommand::Subscribe(msg))
        } else {
            None
        }
    }

    /// An `unsubscribe` call: exactly as `subscribe`, under the Unsubscribe
    /// command.
    pub fn unsubscribe_requested(&self, msg: SubscriptionMessage) -> (r: Option<ClientCommand>)
        ensures
            r is Some <==> self.has_channel,
            r matches Some(c) ==> c@ == ClientCommandView::Unsubscribe(msg@),
    {
        if self.has_channel {
            Some(ClientCommand::Unsubscribe(msg))
        } else {
            None
        }
    }
}

} // verus!
