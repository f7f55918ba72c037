//! Typed envelopes, subscription requests and connection-status values.
//!
//! All wire text is held as bytes (`Vec<u8>`); the codec in `crate::codec`
//! gives these types their frame representation. Each type has a spec-level
//! view so that contracts can speak about the mathematical content.

use vstd::prelude::*;

verus! {

/// Credentials attached to a subscription for an authenticated topic.
#[derive(Debug)]
pub struct ClobApiKeyCreds {
    pub key: Vec<u8>,
    pub secret: Vec<u8>,
    pub passphrase: Vec<u8>,
}

/// Spec-level content of [`ClobApiKeyCreds`].
#[verifier::ext_equal]
pub ghost struct ClobApiKeyCredsView {
    pub key: Seq<u8>,
    pub secret: Seq<u8>,
    pub passphrase: Seq<u8>,
}

impl View for ClobApiKeyCreds {
    type V = ClobApiKeyCredsView;

    open spec fn view(&self) -> ClobApiKeyCredsView {
        ClobApiKeyCredsView { key: self.key@, secret: self.secret@, passphrase: self.passphrase@ }
    }
}

impl Clone for ClobApiKeyCreds {
    fn clone(&self) -> (r: Self)
        ensures
            r@ == self@,
    {
        ClobApiKeyCreds {
            key: self.key.clone(),
            secret: self.secret.clone(),
            passphrase: self.passphrase.clone(),
        }
    }
}

/// Wallet-address credential attached to a subscription.
#[derive(Debug)]
pub struct GammaAuth {
    pub address: Vec<u8>,
}

/// Spec-level content of [`GammaAuth`].
#[verifier::ext_equal]
pub ghost struct GammaAuthView {
    pub address: Seq<u8>,
}

impl View for GammaAuth {
    type V = GammaAuthView;

    open spec fn view(&self) -> GammaAuthView {
        GammaAuthView { address: self.address@ }
    }
}

impl Clone for GammaAuth {
    fn clone(&self) -> (r: Self)
        ensures
            r@ == self@,
    {
        GammaAuth { address: self.address.clone() }
    }
}

/// One subscription: a topic, a message kind, and optional filters and
/// credential blocks. Identity is the full tuple; subscriptions are never
/// merged.
#[derive(Debug)]
pub struct Subscription {
    pub topic: Vec<u8>,
    pub kind: Vec<u8>,
    pub filters: Option<Vec<u8>>,
    pub clob_auth: Option<ClobApiKeyCreds>,
    pub gamma_auth: Option<GammaAuth>,
}

/// Spec-level content of [`Subscription`].
#[verifier::ext_equal]
pub ghost struct SubscriptionView {
    pub topic: Seq<u8>,
    pub kind: Seq<u8>,
    pub filters: Option<Seq<u8>>,
    pub clob_auth: Option<ClobApiKeyCredsView>,
    pub gamma_auth: Option<GammaAuthView>,
}

impl View for Subscription {
    type V = SubscriptionView;

    open spec fn view(&self) -> SubscriptionView {
        SubscriptionView {
            topic: self.topic@,
            kind: self.kind@,
            filters: match self.filters {
                Some(f) => Some(f@),
                None => None,
            },
            clob_auth: match self.clob_auth {
                Some(c) => Some(c@),
                None => None,
            },
            gamma_auth: match self.gamma_auth {
                Some(g) => Some(g@),
                None => None,
            },
        }
    }
}

impl Clone for Subscription {
    fn clone(&self) -> (r: Self)
        ensures
            r@ == self@,
    {
        Subscription {
            topic: self.topic.clone(),
            kind: self.kind.clone(),
            filters: match &self.filters {
                Some(f) => Some(f.clone()),
                None => None,
            },
            clob_auth: match &self.clob_auth {
                Some(c) => Some(c.clone()),
                None => None,
            },
            gamma_auth: match &self.gamma_auth {
                Some(g) => Some(g.clone()),
                None => None,
            },
        }
    }
}

/// The view of a vector of subscriptions: the sequence of their views.
pub open spec fn subscriptions_view(v: Vec<Subscription>) -> Seq<SubscriptionView> {
    v@.map_values(|s: Subscription| s@)
}

/// An ordered collection of subscriptions, sent as one control frame.
#[derive(Debug)]
pub struct SubscriptionMessage {
    pub subscriptions: Vec<Subscription>,
}

/// Spec-level content of [`SubscriptionMessage`].
#[verifier::ext_equal]
pub ghost struct SubscriptionMessageView {
    pub subscriptions: Seq<SubscriptionView>,
}

impl View for SubscriptionMessage {
    type V = SubscriptionMessageView;

    open spec fn view(&self) -> SubscriptionMessageView {
        SubscriptionMessageView { subscriptions: subscriptions_view(self.subscriptions) }
    }
}

impl Clone for SubscriptionMessage {
    fn clone(&self) -> (r: Self)
        ensures
            r@ == self@,
    {
        let subscriptions = clone_subscriptions(&self.subscriptions);
        SubscriptionMessage { subscriptions }
    }
}

/// Clones a subscription list element by element.
fn clone_subscriptions(v: &Vec<Subscription>) -> (r: Vec<Subscription>)
    ensures
        subscriptions_view(r) == subscriptions_view(*v),
{
    let mut r: Vec<Subscription> = Vec::new();
    let mut i: usize = 0;
    while i < v.len()
        invariant
            i <= v.len(),
            r@.len() == i,
            forall|j: int| 0 <= j < i ==> r@[j]@ == v@[j]@,
        decreases v.len() - i,
    {
        r.push(v[i].clone());
        i = i + 1;
    }
    proof {
        assert(subscriptions_view(r) =~= subscriptions_view(*v));
    }
    r
}

/// A subscribe or unsubscribe intent together with its subscriptions,
/// the shape that goes on the wire as a control frame.
#[derive(Debug)]
pub struct SubscriptionAction {
    pub action: Vec<u8>,
    pub subscriptions: Vec<Subscription>,
}

/// Spec-level content of [`SubscriptionAction`].
#[verifier::ext_equal]
pub ghost struct SubscriptionActionView {
    pub action: Seq<u8>,
    pub subscriptions: Seq<SubscriptionView>,
}

impl View for SubscriptionAction {
    type V = SubscriptionActionView;

    open spec fn view(&self) -> SubscriptionActionView {
        SubscriptionActionView {
            action: self.action@,
            subscriptions: subscriptions_view(self.subscriptions),
        }
    }
}

/// The action tag of a subscribe control frame, `subscribe` as bytes.
pub open spec fn subscribe_tag() -> Seq<u8> {
    seq![115u8, 117u8, 98u8, 115u8, 99u8, 114u8, 105u8, 98u8, 101u8]
}

/// The action tag of an unsubscribe control frame, `unsubscribe` as bytes.
pub open spec fn unsubscribe_tag() -> Seq<u8> {
    seq![117u8, 110u8, 115u8, 117u8, 98u8, 115u8, 99u8, 114u8, 105u8, 98u8, 101u8]
}

/// Builds the `subscribe` tag as a byte vector.
pub fn subscribe_tag_vec() -> (r: Vec<u8>)
    ensures
        r@ == subscribe_tag(),
{
    let r: Vec<u8> = vec![115u8, 117u8, 98u8, 115u8, 99u8, 114u8, 105u8, 98u8, 101u8];
    proof {
        assert(r@ =~= subscribe_tag());
    }
    r
}

/// Builds the `unsubscribe` tag as a byte vector.
pub fn unsubscribe_tag_vec() -> (r: Vec<u8>)
    ensures
        r@ == unsubscribe_tag(),
{
    let r: Vec<u8> = vec![117u8, 110u8, 115u8, 117u8, 98u8, 115u8, 99u8, 114u8, 105u8, 98u8, 101u8];
    proof {
        assert(r@ =~= unsubscribe_tag());
    }
    r
}

impl SubscriptionMessage {
    /// Renders this message in subscribe-action form: the same ordered
    /// subscription list under the `subscribe` tag.
    pub fn to_subscribe_action(&self) -> (r: SubscriptionAction)
        ensures
            r@.action == subscribe_tag(),
            r@.subscriptions == self@.subscriptions,
    {
        SubscriptionAction {
            action: subscribe_tag_vec(),
            subscriptions: clone_subscriptions(&self.subscriptions),
        }
    }

    /// Renders this message in unsubscribe-action form: the same ordered
    /// subscription list under the `unsubscribe` tag.
    pub fn to_unsubscribe_action(&self) -> (r: SubscriptionAction)
        ensures
            r@.action == unsubscribe_tag(),
            r@.subscriptions == self@.subscriptions,
    {
        SubscriptionAction {
            action: unsubscribe_tag_vec(),
            subscriptions: clone_subscriptions(&self.subscriptions),
        }
    }
}

/// The decoded inbound envelope. The payload is kept verbatim as the bytes
/// of the structured value found in the frame; the caller receives an owned,
/// independent copy that outlives the frame buffer.
#[derive(Debug)]
pub struct Message {
    pub topic: Vec<u8>,
    pub kind: Vec<u8>,
    pub timestamp: u64,
    pub payload: Vec<u8>,
    pub connection_id: Vec<u8>,
}

/// Spec-level content of [`Message`].
#[verifier::ext_equal]
pub ghost struct MessageView {
    pub topic: Seq<u8>,
    pub kind: Seq<u8>,
    pub timestamp: u64,
    pub payload: Seq<u8>,
    pub connection_id: Seq<u8>,
}

impl View for Message {
    type V = MessageView;

    open spec fn view(&self) -> MessageView {
        MessageView {
            topic: self.topic@,
            kind: self.kind@,
            timestamp: self.timestamp,
            payload: self.payload@,
            connection_id: self.connection_id@,
        }
    }
}

impl Clone for Message {
    fn clone(&self) -> (r: Self)
        ensures
            r@ == self@,
    {
        Message {
            topic: self.topic.clone(),
            kind: self.kind.clone(),
            timestamp: self.timestamp,
            payload: self.payload.clone(),
            connection_id: self.connection_id.clone(),
        }
    }
}

/// Connection-status values pushed to the status callback. This is an event
/// stream driven by the connection loop, not queryable state.
#[derive(Debug, Clone, Copy, PartialEq, Eq, Structural)]
pub enum ConnectionStatus {
    Connecting,
    Connected,
    Disconnected,
}

impl ConnectionStatus {
    /// The display label of this status.
    pub fn label(&self) -> (r: &'static str)
        ensures
            r@ == match *self {
                ConnectionStatus::Connecting => "CONNECTING"@,
                ConnectionStatus::Connected => "CONNECTED"@,
                ConnectionStatus::Disconnected => "DISCONNECTED"@,
            },
    {
        match self {
            ConnectionStatus::Connecting => "CONNECTING",
            ConnectionStatus::Connected => "CONNECTED",
            ConnectionStatus::Disconnected => "DISCONNECTED",
        }
    }
}

/// A command sent from the facade into the running connection loop; the only
/// mutation channel into it. Each command is consumed exactly once and never
/// retried.
#[derive(Debug)]
pub enum ClientCommand {
    Connect,
    Disconnect,
    Subscribe(SubscriptionMessage),
    Unsubscribe(SubscriptionMessage),
}

/// Spec-level content of [`ClientCommand`].
#[verifier::ext_equal]
pub ghost enum ClientCommandView {
    Connect,
    Disconnect,
    Subscribe(SubscriptionMessageView),
    Unsubscribe(SubscriptionMessageView),
}

impl View for ClientCommand {
    type V = ClientCommandView;

    open spec fn view(&self) -> ClientCommandView {
        match self {
            ClientCommand::Connect => ClientCommandView::Connect,
            ClientCommand::Disconnect => ClientCommandView::Disconnect,
            ClientCommand::Subscribe(m) => ClientCommandView::Subscribe(m@),
            ClientCommand::Unsubscribe(m) => ClientCommandView::Unsubscribe(m@),
        }
    }
}

} // verus!
