//! The connection loop as a state machine.
//!
//! One loop generation owns one transport session at a time. Its behaviour
//! is a pure step function from the current phase, one observed event and
//! the current value of the shared reconnect flag to the next phase and the
//! actions the runtime must perform, in order. The runtime performs the
//! transport work (dialing, reading, sending, sleeping) and feeds the
//! outcome back in as the next event; every decision is taken here.

use vstd::prelude::*;

use crate::codec::FrameClass;
use crate::codec::FrameClassView;
use crate::codec::classify_frame;
use crate::codec::pong_seq;
use crate::codec::spec_classify;
use crate::model::ClientCommand;
use crate::model::ClientCommandView;
use crate::model::ConnectionStatus;
use crate::model::Message;
use crate::model::MessageView;
use crate::model::SubscriptionAction;
use crate::model::SubscriptionActionView;
use crate::model::subscribe_tag;
use crate::model::unsubscribe_tag;

verus! {

/// How long the loop waits after a failed dial or a lost session before it
/// dials again, in milliseconds.
pub const RECONNECT_BACKOFF_MS: u64 = 1000;

/// The phase of one connection loop generation.
#[derive(Debug, Clone, Copy, PartialEq, Eq, Structural)]
pub enum LoopPhase {
    /// Establishing a transport session (also the backoff wait).
    Dialing,
    /// A session is up: frames, heartbeat ticks and commands are multiplexed.
    SessionActive,
    /// This generation is finished; it never dials again.
    Terminated,
}

/// One event observed by the connection loop.
pub enum LoopEvent {
    /// A dial attempt succeeded.
    DialOk,
    /// A dial attempt failed.
    DialFailed,
    /// An inbound text frame arrived.
    TextFrame(Vec<u8>),
    /// The session ended: a Close frame, a transport error, or end of stream.
    CloseFrame,
    /// The heartbeat interval elapsed.
    HeartbeatTick,
    /// Sending the liveness probe failed.
    PingSendFailed,
    /// A command arrived on the command channel.
    Command(ClientCommand),
    /// The command channel has no senders left: a teardown signal.
    ChannelClosed,
}

/// Spec-level content of [`LoopEvent`].
#[verifier::ext_equal]
pub ghost enum LoopEventView {
    DialOk,
    DialFailed,
    TextFrame(Seq<u8>),
    CloseFrame,
    HeartbeatTick,
    PingSendFailed,
    Command(ClientCommandView),
    ChannelClosed,
}

impl View for LoopEvent {
    type V = LoopEventView;

    open spec fn view(&self) -> LoopEventView {
        match self {
            LoopEvent::DialOk => LoopEventView::DialOk,
            LoopEvent::DialFailed => LoopEventView::DialFailed,
            LoopEvent::TextFrame(t) => LoopEventView::TextFrame(t@),
            LoopEvent::CloseFrame => LoopEventView::CloseFrame,
            LoopEvent::HeartbeatTick => LoopEventView::HeartbeatTick,
            LoopEvent::PingSendFailed => LoopEventView::PingSendFailed,
            LoopEvent::Command(c) => LoopEventView::Command(c@),
            LoopEvent::ChannelClosed => LoopEventView::ChannelClosed,
        }
    }
}

/// One action the runtime must perform, in the order returned.
pub enum LoopAction {
    /// Invoke the status-change callback with this status.
    NotifyStatus(ConnectionStatus),
    /// Invoke the connect callback.
    NotifyConnect,
    /// Invoke the message callback with this decoded envelope.
    NotifyMessage(Message),
    /// Send the liveness probe frame.
    SendPing,
    /// Encode this control frame and send it; a send failure is logged only.
    SendControl(SubscriptionAction),
    /// Close the transport session.
    CloseTransport,
    /// Wait the fixed backoff ([`RECONNECT_BACKOFF_MS`]), then dial again
    /// with a fresh command channel.
    Backoff,
}

/// Spec-level content of [`LoopAction`].
#[verifier::ext_equal]
pub ghost enum LoopActionView {
    NotifyStatus(ConnectionStatus),
    NotifyConnect,
    NotifyMessage(MessageView),
    SendPing,
    SendControl(SubscriptionActionView),
    CloseTransport,
    Backoff,
}

impl View for LoopAction {
    type V = LoopActionView;

    open spec fn view(&self) -> LoopActionView {
        match self {
            LoopAction::NotifyStatus(s) => LoopActionView::NotifyStatus(*s),
            LoopAction::NotifyConnect => LoopActionView::NotifyConnect,
            LoopAction::NotifyMessage(m) => LoopActionView::NotifyMessage(m@),
            LoopAction::SendPing => LoopActionView::SendPing,
            LoopAction::SendControl(a) => LoopActionView::SendControl(a@),
            LoopAction::CloseTransport => LoopActionView::CloseTransport,
            LoopAction::Backoff => LoopActionView::Backoff,
        }
    }
}

/// The view of a vector of actions: the sequence of their views.
pub open spec fn actions_view(v: Vec<LoopAction>) -> Seq<LoopActionView> {
    v@.map_values(|a: LoopAction| a@)
}

/// Phase and actions after a session ends for any reason other than an
/// explicit disconnect: Disconnected is reported exactly once, then the loop
/// backs off and redials if the shared flag allows it, else terminates.
pub open spec fn session_end(reconnect: bool) -> (LoopPhase, Seq<LoopActionView>) {
    if reconnect {
        (
            LoopPhase::Dialing,
            seq![
                LoopActionView::NotifyStatus(ConnectionStatus::Disconnected),
                LoopActionView::Backoff,
            ],
        )
    } else {
        (
            LoopPhase::Terminated,
            seq![LoopActionView::NotifyStatus(ConnectionStatus::Disconnected)],
        )
    }
}

/// The transition relation of the connection loop: from the current phase,
/// one event and the current reconnect flag to the next phase and the
/// ordered actions. Events that cannot occur in a phase are ignored.
pub open spec fn spec_step(phase: LoopPhase, ev: LoopEventView, reconnect: bool) -> (
    LoopPhase,
    Seq<LoopActionView>,
) {
    match phase {
        LoopPhase::Dialing => match ev {
            LoopEventView::DialOk => (
                LoopPhase::SessionActive,
                seq![
                    LoopActionView::NotifyStatus(ConnectionStatus::Connected),
                    LoopActionView::NotifyConnect,
                ],
            ),
            LoopEventView::DialFailed => session_end(reconnect),
            _ => (LoopPhase::Dialing, Seq::empty()),
        },
        LoopPhase::SessionActive => match ev {
            LoopEventView::TextFrame(t) => match spec_classify(t) {
                FrameClassView::Data(m) => (
                    LoopPhase::SessionActive,
                    seq![LoopActionView::NotifyMessage(m)],
                ),
                _ => (LoopPhase::SessionActive, Seq::empty()),
            },
            LoopEventView::CloseFrame => session_end(reconnect),
            LoopEventView::HeartbeatTick => (
                LoopPhase::SessionActive,
                seq![LoopActionView::SendPing],
            ),
            LoopEventView::PingSendFailed => session_end(reconnect),
            LoopEventView::Command(c) => match c {
                ClientCommandView::Disconnect => (
                    LoopPhase::Terminated,
                    seq![
                        LoopActionView::CloseTransport,
                        LoopActionView::NotifyStatus(ConnectionStatus::Disconnected),
                    ],
                ),
                ClientCommandView::Subscribe(m) => (
                    LoopPhase::SessionActive,
                    seq![
                        LoopActionView::SendControl(
                            SubscriptionActionView {
                                action: subscribe_tag(),
                                subscriptions: m.subscriptions,
                            },
                        ),
                    ],
                ),
                ClientCommandView::Unsubscribe(m) => (
                    LoopPhase::SessionActive,
                    seq![
                        LoopActionView::SendControl(
                            SubscriptionActionView {
                                action: unsubscribe_tag(),
                                subscriptions: m.subscriptions,
                            },
                        ),
                    ],
                ),
                ClientCommandView::Connect => (LoopPhase::SessionActive, Seq::empty()),
            },
            LoopEventView::ChannelClosed => session_end(reconnect),
            _ => (LoopPhase::SessionActive, Seq::empty()),
        },
        LoopPhase::Terminated => (LoopPhase::Terminated, Seq::empty()),
    }
}

/// Performs one transition of the connection loop.
pub fn loop_step(phase: LoopPhase, ev: LoopEvent, reconnect: bool) -> (r: (
    LoopPhase,
    Vec<LoopAction>,
))
    ensures
        r.0 == spec_step(phase, ev@, reconnect).0,
        actions_view(r.1) == spec_step(phase, ev@, reconnect).1,
{
    let r: (LoopPhase, Vec<LoopAction>) = match phase {
        LoopPhase::Dialing => match ev {
            LoopEvent::DialOk => (
                LoopPhase::SessionActive,
                vec![
                    LoopAction::NotifyStatus(ConnectionStatus::Connected),
                    LoopAction::NotifyConnect,
                ],
            ),
            LoopEvent::DialFailed => session_end_x(reconnect),
            _ => (LoopPhase::Dialing, Vec::new()),
        },
        LoopPhase::SessionActive => match ev {
            LoopEvent::TextFrame(t) => match classify_frame(&t) {
                FrameClass::Data(m) => (
                    LoopPhase::SessionActive,
                    vec![LoopAction::NotifyMessage(m)],
                ),
                _ => (LoopPhase::SessionActive, Vec::new()),
            },
            LoopEvent::CloseFrame => session_end_x(reconnect),
            LoopEvent::HeartbeatTick => (LoopPhase::SessionActive, vec![LoopAction::SendPing]),
            LoopEvent::PingSendFailed => session_end_x(reconnect),
            LoopEvent::Command(c) => match c {
                ClientCommand::Disconnect => (
                    LoopPhase::Terminated,
                    vec![
                        LoopAction::CloseTransport,
                        LoopAction::NotifyStatus(ConnectionStatus::Disconnected),
                    ],
                ),
                ClientCommand::Subscribe(m) => (
                    LoopPhase::SessionActive,
                    vec![LoopAction::SendControl(m.to_subscribe_action())],
                ),
                ClientCommand::Unsubscribe(m) => (
                    LoopPhase::SessionActive,
                    vec![LoopAction::SendControl(m.to_unsubscribe_action())],
                ),
                ClientCommand::Connect => (LoopPhase::SessionActive, Vec::new()),
            },
            LoopEvent::ChannelClosed => session_end_x(reconnect),
            _ => (LoopPhase::SessionActive, Vec::new()),
        },
        LoopPhase::Terminated => (LoopPhase::Terminated, Vec::new()),
    };
    proof {
        assert(actions_view(r.1) =~= spec_step(phase, ev@, reconnect).1);
    }
    r
}

/// Performs the common session-end transition.
fn session_end_x(reconnect: bool) -> (r: (LoopPhase, Vec<LoopAction>))
    ensures
        r.0 == session_end(reconnect).0,
        actions_view(r.1) == session_end(reconnect).1,
{
    let r: (LoopPhase, Vec<LoopAction>) = if reconnect {
        (
            LoopPhase::Dialing,
            vec![
                LoopAction::NotifyStatus(ConnectionStatus::Disconnected),
                LoopAction::Backoff,
            ],
        )
    } else {
        (
            LoopPhase::Terminated,
            vec![LoopAction::NotifyStatus(ConnectionStatus::Disconnected)],
        )
    };
    proof {
        assert(actions_view(r.1) =~= session_end(reconnect).1);
    }
    r
}

/// Runs the machine over a whole sequence of events under a constant value
/// of the reconnect flag, collecting every action in order.
pub open spec fn spec_run(phase: LoopPhase, evs: Seq<LoopEventView>, reconnect: bool) -> (
    LoopPhase,
    Seq<LoopActionView>,
)
    decreases evs.len(),
{
    if evs.len() == 0 {
        (phase, Seq::empty())
    } else {
        let first = spec_step(phase, evs[0], reconnect);
        let rest = spec_run(first.0, evs.skip(1), reconnect);
        (rest.0, first.1 + rest.1)
    }
}

/// A terminated generation stays terminated and performs nothing, whatever
/// else is observed.
pub proof fn lemma_terminated_absorbs(evs: Seq<LoopEventView>, reconnect: bool)
    ensures
        spec_run(LoopPhase::Terminated, evs, reconnect) == (
            LoopPhase::Terminated,
            Seq::<LoopActionView>::empty(),
        ),
    decreases evs.len(),
{
    if evs.len() != 0 {
        lemma_terminated_absorbs(evs.skip(1), reconnect);
        assert(Seq::<LoopActionView>::empty() + Seq::<LoopActionView>::empty()
            =~= Seq::<LoopActionView>::empty());
    }
}

/// Running over a concatenation of event sequences is running over the
/// first, then the second from the phase the first reached.
pub proof fn lemma_run_append(
    phase: LoopPhase,
    evs1: Seq<LoopEventView>,
    evs2: Seq<LoopEventView>,
    reconnect: bool,
)
    ensures
        spec_run(phase, evs1 + evs2, reconnect) == ({
            let a = spec_run(phase, evs1, reconnect);
            let b = spec_run(a.0, evs2, reconnect);
            (b.0, a.1 + b.1)
        }),
    decreases evs1.len(),
{
    let a = spec_run(phase, evs1, reconnect);
    let b = spec_run(a.0, evs2, reconnect);
    if evs1.len() == 0 {
        assert(evs1 + evs2 =~= evs2);
        assert(Seq::<LoopActionView>::empty() + b.1 =~= b.1);
    } else {
        let first = spec_step(phase, evs1[0], reconnect);
        assert((evs1 + evs2)[0] == evs1[0]);
        assert((evs1 + evs2).skip(1) =~= evs1.skip(1) + evs2);
        lemma_run_append(first.0, evs1.skip(1), evs2, reconnect);
        let ar = spec_run(first.0, evs1.skip(1), reconnect);
        let br = spec_run(ar.0, evs2, reconnect);
        assert(first.1 + (ar.1 + br.1) =~= (first.1 + ar.1) + br.1);
    }
}

} // verus!

verus! {

/// The events of `frames` arriving in order as text frames.
pub open spec fn frame_events(frames: Seq<Seq<u8>>) -> Seq<LoopEventView> {
    frames.map_values(|f: Seq<u8>| LoopEventView::TextFrame(f))
}

/// The deliveries of `frames` in order, each through its decoded envelope.
pub open spec fn frame_deliveries(frames: Seq<Seq<u8>>) -> Seq<LoopActionView> {
    frames.map_values(|f: Seq<u8>| LoopActionView::NotifyMessage(spec_classify(f)->Data_0))
}

/// Inside a session, a sequence of data frames is delivered one callback
/// per frame, in frame order, and the session stays up.
pub proof fn lemma_run_data_frames(frames: Seq<Seq<u8>>, reconnect: bool)
    requires
        forall|i: int| 0 <= i < frames.len() ==> #[trigger] spec_classify(frames[i]) is Data,
    ensures
        spec_run(LoopPhase::SessionActive, frame_events(frames), reconnect) == (
            LoopPhase::SessionActive,
            frame_deliveries(frames),
        ),
    decreases frames.len(),
{
    if frames.len() == 0 {
        assert(frame_events(frames).len() == 0);
        assert(frame_deliveries(frames) =~= Seq::<LoopActionView>::empty());
    } else {
        let evs = frame_events(frames);
        assert(evs[0] == LoopEventView::TextFrame(frames[0]));
        assert(spec_classify(frames[0]) is Data);
        let first = spec_step(LoopPhase::SessionActive, evs[0], reconnect);
        assert(evs.skip(1) =~= frame_events(frames.skip(1)));
        assert(forall|i: int|
            0 <= i < frames.skip(1).len() ==> #[trigger] spec_classify(frames.skip(1)[i])
                is Data);
        lemma_run_data_frames(frames.skip(1), reconnect);
        assert(first.1 + frame_deliveries(frames.skip(1)) =~= frame_deliveries(frames));
    }
}

/// Running the machine over a single event performs exactly that event's
/// step.
pub proof fn lemma_run_single(phase: LoopPhase, e: LoopEventView, reconnect: bool)
    ensures
        spec_run(phase, seq![e], reconnect) == spec_step(phase, e, reconnect),
{
    let evs: Seq<LoopEventView> = seq![e];
    assert(evs[0] == e);
    assert(evs.skip(1) =~= Seq::<LoopEventView>::empty());
    let first = spec_step(phase, e, reconnect);
    assert(spec_run(first.0, Seq::<LoopEventView>::empty(), reconnect) == (
        first.0,
        Seq::<LoopActionView>::empty(),
    ));
    assert(first.1 + Seq::<LoopActionView>::empty() =~= first.1);
}

/// For any sequence of one successful dial, then data frames, then a Close:
/// the status callback fires Connected exactly once, then the connect
/// callback runs, then the message callback fires exactly once per frame in
/// frame order, then the status callback fires Disconnected exactly once
/// (followed by the backoff when the reconnect flag allows it).
pub proof fn lemma_session_delivery(frames: Seq<Seq<u8>>, reconnect: bool)
    requires
        forall|i: int| 0 <= i < frames.len() ==> #[trigger] spec_classify(frames[i]) is Data,
    ensures
        spec_run(
            LoopPhase::Dialing,
            seq![LoopEventView::DialOk] + frame_events(frames) + seq![LoopEventView::CloseFrame],
            reconnect,
        ) == (
            session_end(reconnect).0,
            seq![
                LoopActionView::NotifyStatus(ConnectionStatus::Connected),
                LoopActionView::NotifyConnect,
            ] + frame_deliveries(frames) + session_end(reconnect).1,
        ),
{
    let dial: Seq<LoopEventView> = seq![LoopEventView::DialOk];
    let close: Seq<LoopEventView> = seq![LoopEventView::CloseFrame];
    let opening: Seq<LoopActionView> = seq![
        LoopActionView::NotifyStatus(ConnectionStatus::Connected),
        LoopActionView::NotifyConnect,
    ];
    lemma_run_append(LoopPhase::Dialing, dial + frame_events(frames), close, reconnect);
    lemma_run_append(LoopPhase::Dialing, dial, frame_events(frames), reconnect);
    lemma_run_single(LoopPhase::Dialing, LoopEventView::DialOk, reconnect);
    assert(spec_run(LoopPhase::Dialing, dial, reconnect).1 =~= opening);
    lemma_run_data_frames(frames, reconnect);
    lemma_run_single(LoopPhase::SessionActive, LoopEventView::CloseFrame, reconnect);
    assert((dial + frame_events(frames)) + close =~= dial + frame_events(frames) + close);
    assert((opening + frame_deliveries(frames)) + session_end(reconnect).1 =~= opening
        + frame_deliveries(frames) + session_end(reconnect).1);
}

/// The heartbeat-acknowledgement frame never triggers the message callback
/// and never changes the phase.
pub proof fn lemma_heartbeat_ack_silent(reconnect: bool)
    ensures
        spec_step(LoopPhase::SessionActive, LoopEventView::TextFrame(pong_seq()), reconnect) == (
            LoopPhase::SessionActive,
            Seq::<LoopActionView>::empty(),
        ),
{
    assert(spec_classify(pong_seq()) == FrameClassView::HeartbeatAck);
}

/// An inbound frame lacking recognizable structure never triggers the
/// message callback and never ends the session.
pub proof fn lemma_unrecognized_ignored(t: Seq<u8>, reconnect: bool)
    requires
        t != pong_seq(),
        crate::codec::decode_envelope(t) is None,
    ensures
        spec_step(LoopPhase::SessionActive, LoopEventView::TextFrame(t), reconnect) == (
            LoopPhase::SessionActive,
            Seq::<LoopActionView>::empty(),
        ),
{
    assert(spec_classify(t) is Ignored);
}

/// `n` dial failures in a row, as events.
pub open spec fn dial_failures(n: nat) -> Seq<LoopEventView>
    decreases n,
{
    if n == 0 {
        Seq::empty()
    } else {
        seq![LoopEventView::DialFailed] + dial_failures((n - 1) as nat)
    }
}

/// The actions of `n` failed dial attempts under an enabled reconnect flag:
/// Disconnected reported once per attempt, each followed by the constant
/// backoff.
pub open spec fn retry_actions(n: nat) -> Seq<LoopActionView>
    decreases n,
{
    if n == 0 {
        Seq::empty()
    } else {
        seq![LoopActionView::NotifyStatus(ConnectionStatus::Disconnected), LoopActionView::Backoff]
            + retry_actions((n - 1) as nat)
    }
}

/// With the reconnect flag enabled, any number of dial failures leaves the
/// loop dialing again (it retries indefinitely), with Disconnected reported
/// once per failed attempt and the constant backoff between attempts. With
/// the flag disabled, the loop terminates after the first failure with a
/// single Disconnected and no retry.
pub proof fn lemma_dial_retry(n: nat)
    ensures
        spec_run(LoopPhase::Dialing, dial_failures(n), true) == (
            LoopPhase::Dialing,
            retry_actions(n),
        ),
        n >= 1 ==> spec_run(LoopPhase::Dialing, dial_failures(n), false) == (
            LoopPhase::Terminated,
            seq![LoopActionView::NotifyStatus(ConnectionStatus::Disconnected)],
        ),
    decreases n,
{
    if n == 0 {
        assert(dial_failures(0).len() == 0);
    } else {
        let evs = dial_failures(n);
        assert(evs[0] == LoopEventView::DialFailed);
        assert(evs.skip(1) =~= dial_failures((n - 1) as nat));
        lemma_dial_retry((n - 1) as nat);
        let first_on = spec_step(LoopPhase::Dialing, evs[0], true);
        assert(first_on.1 + retry_actions((n - 1) as nat) =~= retry_actions(n));
        let first_off = spec_step(LoopPhase::Dialing, evs[0], false);
        lemma_terminated_absorbs(evs.skip(1), false);
        assert(first_off.1 + Seq::<LoopActionView>::empty() =~= first_off.1);
    }
}

/// An explicit disconnect always wins: from an active session it closes the
/// transport, reports Disconnected once, terminates the generation, and no
/// later event of any kind causes any further action or reconnect attempt,
/// whatever the reconnect flag holds.
pub proof fn lemma_disconnect_wins(evs: Seq<LoopEventView>, reconnect: bool)
    ensures
        spec_run(
            LoopPhase::SessionActive,
            seq![LoopEventView::Command(ClientCommandView::Disconnect)] + evs,
            reconnect,
        ) == (
            LoopPhase::Terminated,
            seq![
                LoopActionView::CloseTransport,
                LoopActionView::NotifyStatus(ConnectionStatus::Disconnected),
            ],
        ),
{
    let first: Seq<LoopEventView> = seq![LoopEventView::Command(ClientCommandView::Disconnect)];
    lemma_run_append(LoopPhase::SessionActive, first, evs, reconnect);
    assert(first[0] == LoopEventView::Command(ClientCommandView::Disconnect));
    assert(first.skip(1) =~= Seq::<LoopEventView>::empty());
    lemma_terminated_absorbs(first.skip(1), reconnect);
    lemma_terminated_absorbs(evs, reconnect);
    assert(spec_run(LoopPhase::SessionActive, first, reconnect).1 =~= seq![
        LoopActionView::CloseTransport,
        LoopActionView::NotifyStatus(ConnectionStatus::Disconnected),
    ]);
    assert(spec_run(LoopPhase::SessionActive, first, reconnect).1
        + Seq::<LoopActionView>::empty() =~= spec_run(
        LoopPhase::SessionActive,
        first,
        reconnect,
    ).1);
}

} // verus!
