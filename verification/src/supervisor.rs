//! The session supervisor: a state machine that owns the connection
//! lifecycle. It starts disconnected; a successful dial-and-handshake opens an
//! epoch with a fresh command queue and one `Connected` notification; while
//! connected it pumps, republishing pulled events, reporting per-frame decode
//! failures without tearing down, forwarding queued commands to the socket,
//! and closing the epoch with exactly one `Disconnected` or `ConnectionError`
//! before dialing again. The embedding application performs the socket work
//! and feeds every outcome back in as a [`GatewayInput`].

use vstd::prelude::*;

use crate::codec::ClientGatewayMessage;
use crate::codec::GatewayEvent;
use crate::gateway::Error;
use crate::model::User;

verus! {

#[verifier::external_type_specification]
#[verifier::external_body]
#[verifier::reject_recursive_types(T)]
pub struct ExUnboundedSender<T>(futures::channel::mpsc::UnboundedSender<T>);

#[verifier::external_type_specification]
#[verifier::external_body]
#[verifier::reject_recursive_types(T)]
pub struct ExUnboundedReceiver<T>(futures::channel::mpsc::UnboundedReceiver<T>);

/// Relies on futures' `Clone` for `UnboundedSender`: the clone is another
/// sending handle on the same queue.
pub assume_specification<T>[ <futures::channel::mpsc::UnboundedSender<T> as Clone>::clone ](
    sender: &futures::channel::mpsc::UnboundedSender<T>,
) -> futures::channel::mpsc::UnboundedSender<T>;

/// A cloneable, non-blocking handle on one connection's outbound command
/// queue. It stays valid only while its connection's pump is alive; sending
/// after teardown reports `false` instead of failing loudly.
#[derive(Debug, Clone)]
pub struct Connection {
    sender: futures::channel::mpsc::UnboundedSender<ClientGatewayMessage>,
}

impl Connection {
    /// Relies on futures' `UnboundedSender::unbounded_send`: queues the
    /// command without blocking and returns `Ok` exactly while the receiving
    /// end (the supervisor pump) is still alive; `false` therefore means the
    /// connection is gone and the message was not delivered.
    #[verifier::external_body]
    pub fn send(&mut self, msg: ClientGatewayMessage) -> bool {
        self.sender.unbounded_send(msg).is_ok()
    }
}

/// The receiving end of one connection's command queue, owned by the pump.
pub struct CommandReceiver {
    pub receiver: futures::channel::mpsc::UnboundedReceiver<ClientGatewayMessage>,
}

/// Relies on futures' `mpsc::unbounded`: a fresh queue whose two ends are
/// linked to each other and to nothing else.
#[verifier::external_body]
fn new_command_queue() -> (Connection, CommandReceiver) {
    let (sender, receiver) = futures::channel::mpsc::unbounded();
    (Connection { sender }, CommandReceiver { receiver })
}

/// The supervisor's state: off-line, or pumping one live connection whose
/// command queue it owns.
pub enum GatewayState {
    Disconnected,
    Connected { receiver: CommandReceiver },
}

/// Mathematical value of the state: whether an epoch is open.
pub ghost enum GatewayStateV {
    Disconnected,
    Connected,
}

impl View for GatewayState {
    type V = GatewayStateV;

    open spec fn view(&self) -> GatewayStateV {
        match self {
            GatewayState::Disconnected => GatewayStateV::Disconnected,
            GatewayState::Connected { .. } => GatewayStateV::Connected,
        }
    }
}

/// One thing that happened, handed to the supervisor by the pump.
pub enum GatewayInput {
    /// Dialing the socket failed.
    DialFailed(Error),
    /// The handshake on a freshly dialed socket failed.
    HandshakeFailed(Error),
    /// The handshake succeeded with this session identity.
    HandshakeSucceeded { session_id: String, user: User },
    /// The socket yielded an event, a pull failure, or closed (`None`).
    Pulled(Option<Result<GatewayEvent, Error>>),
    /// A caller queued a command through a [`Connection`] handle.
    Command(ClientGatewayMessage),
}

/// A notification published on the output event stream.
#[derive(Debug)]
pub enum GatewayMessage {
    /// An epoch opened: the session identity and a handle for commands.
    Connected { conn: Connection, user: User, session_id: String },
    /// A dial or handshake failed, or the connection failed underneath us.
    ConnectionError(Error),
    /// The peer closed the socket; the epoch is over.
    Disconnected,
    /// One frame could not be decoded; the connection stays up.
    ReceiveError(Error),
    /// A protocol event pulled from the socket, republished.
    Event(GatewayEvent),
}

/// Mathematical value of a notification: everything but the queue handle.
pub ghost enum GatewayMessageV {
    Connected { user: User, session_id: String },
    ConnectionError(Error),
    Disconnected,
    ReceiveError(Error),
    Event(GatewayEvent),
}

impl View for GatewayMessage {
    type V = GatewayMessageV;

    open spec fn view(&self) -> GatewayMessageV {
        match self {
            GatewayMessage::Connected { conn, user, session_id } => GatewayMessageV::Connected {
                user: *user,
                session_id: *session_id,
            },
            GatewayMessage::ConnectionError(e) => GatewayMessageV::ConnectionError(*e),
            GatewayMessage::Disconnected => GatewayMessageV::Disconnected,
            GatewayMessage::ReceiveError(e) => GatewayMessageV::ReceiveError(*e),
            GatewayMessage::Event(ev) => GatewayMessageV::Event(*ev),
        }
    }
}

/// What the pump must do next.
#[derive(Debug, Clone, PartialEq, Eq)]
pub enum GatewayAction {
    /// Dial the endpoint and run the handshake again.
    Dial,
    /// Write this command to the socket as one frame.
    SendFrame(ClientGatewayMessage),
}

/// Whether a pull failure is fatal to the connection: a transport failure
/// is, a failure to decode one frame is not.
pub open spec fn spec_is_transport_error(e: Error) -> bool {
    e is Websocket
}

fn is_transport_error(e: &Error) -> (r: bool)
    ensures
        r == spec_is_transport_error(*e),
{
    matches!(e, Error::Websocket(_))
}

/// The state after one input.
pub open spec fn spec_step_state(s: GatewayStateV, input: GatewayInput) -> GatewayStateV {
    match (s, input) {
        (GatewayStateV::Disconnected, GatewayInput::HandshakeSucceeded { .. }) =>
            GatewayStateV::Connected,
        (GatewayStateV::Connected, GatewayInput::Pulled(None)) => GatewayStateV::Disconnected,
        (GatewayStateV::Connected, GatewayInput::Pulled(Some(Err(e)))) => if spec_is_transport_error(
            e,
        ) {
            GatewayStateV::Disconnected
        } else {
            GatewayStateV::Connected
        },
        _ => s,
    }
}

/// The notifications one input publishes, in order.
pub open spec fn spec_step_outputs(s: GatewayStateV, input: GatewayInput) -> Seq<GatewayMessageV> {
    match (s, input) {
        (GatewayStateV::Disconnected, GatewayInput::DialFailed(e)) => seq![
            GatewayMessageV::ConnectionError(e),
        ],
        (GatewayStateV::Disconnected, GatewayInput::HandshakeFailed(e)) => seq![
            GatewayMessageV::ConnectionError(e),
        ],
        (GatewayStateV::Disconnected, GatewayInput::HandshakeSucceeded { session_id, user }) => seq![
            GatewayMessageV::Connected { user, session_id },
        ],
        (GatewayStateV::Connected, GatewayInput::Pulled(Some(Ok(ev)))) => seq![
            GatewayMessageV::Event(ev),
        ],
        (GatewayStateV::Connected, GatewayInput::Pulled(Some(Err(e)))) => if spec_is_transport_error(
            e,
        ) {
            seq![GatewayMessageV::ConnectionError(e)]
        } else {
            seq![GatewayMessageV::ReceiveError(e)]
        },
        (GatewayStateV::Connected, GatewayInput::Pulled(None)) => seq![
            GatewayMessageV::Disconnected,
        ],
        _ => Seq::empty(),
    }
}

/// The socket work one input asks of the pump.
pub open spec fn spec_step_actions(s: GatewayStateV, input: GatewayInput) -> Seq<GatewayAction> {
    match (s, input) {
        (GatewayStateV::Disconnected, GatewayInput::DialFailed(_)) => seq![GatewayAction::Dial],
        (GatewayStateV::Disconnected, GatewayInput::HandshakeFailed(_)) => seq![
            GatewayAction::Dial,
        ],
        (GatewayStateV::Connected, GatewayInput::Pulled(Some(Err(e)))) => if spec_is_transport_error(
            e,
        ) {
            seq![GatewayAction::Dial]
        } else {
            Seq::empty()
        },
        (GatewayStateV::Connected, GatewayInput::Pulled(None)) => seq![GatewayAction::Dial],
        (GatewayStateV::Connected, GatewayInput::Command(m)) => seq![GatewayAction::SendFrame(m)],
        _ => Seq::empty(),
    }
}

/// One supervisor transition: from the current state and one input to the
/// next state, the notifications to publish in order, and the socket work to
/// perform. Dial and handshake failures retry immediately; a successful
/// handshake opens an epoch with a fresh command queue; the epoch ends, with
/// exactly one closing notification and a new dial, only on socket closure or
/// a transport-level failure.
pub fn supervisor_step(state: GatewayState, input: GatewayInput) -> (r: (
    GatewayState,
    Vec<GatewayMessage>,
    Vec<GatewayAction>,
))
    ensures
        r.0@ == spec_step_state(state@, input),
        r.1@.map_values(|m: GatewayMessage| m@) == spec_step_outputs(state@, input),
        r.2@ == spec_step_actions(state@, input),
{
    let ghost s0 = state@;
    let mut outputs: Vec<GatewayMessage> = Vec::new();
    let mut actions: Vec<GatewayAction> = Vec::new();
    let next = match state {
        GatewayState::Disconnected => match input {
            GatewayInput::DialFailed(e) => {
                outputs.push(GatewayMessage::ConnectionError(e));
                actions.push(GatewayAction::Dial);
                GatewayState::Disconnected
            },
            GatewayInput::HandshakeFailed(e) => {
                outputs.push(GatewayMessage::ConnectionError(e));
                actions.push(GatewayAction::Dial);
                GatewayState::Disconnected
            },
            GatewayInput::HandshakeSucceeded { session_id, user } => {
                let (conn, receiver) = new_command_queue();
                outputs.push(GatewayMessage::Connected { conn, user, session_id });
                GatewayState::Connected { receiver }
            },
            GatewayInput::Pulled(_) => GatewayState::Disconnected,
            GatewayInput::Command(_) => GatewayState::Disconnected,
        },
        GatewayState::Connected { receiver } => match input {
            GatewayInput::Pulled(Some(Ok(ev))) => {
                outputs.push(GatewayMessage::Event(ev));
                GatewayState::Connected { receiver }
            },
            GatewayInput::Pulled(Some(Err(e))) => {
                if is_transport_error(&e) {
                    outputs.push(GatewayMessage::ConnectionError(e));
                    actions.push(GatewayAction::Dial);
                    GatewayState::Disconnected
                } else {
                    outputs.push(GatewayMessage::ReceiveError(e));
                    GatewayState::Connected { receiver }
                }
            },
            GatewayInput::Pulled(None) => {
                outputs.push(GatewayMessage::Disconnected);
                actions.push(GatewayAction::Dial);
                GatewayState::Disconnected
            },
            GatewayInput::Command(m) => {
                actions.push(GatewayAction::SendFrame(m));
                GatewayState::Connected { receiver }
            },
            GatewayInput::DialFailed(_) => GatewayState::Connected { receiver },
            GatewayInput::HandshakeFailed(_) => GatewayState::Connected { receiver },
            GatewayInput::HandshakeSucceeded { .. } => GatewayState::Connected { receiver },
        },
    };
    proof {
        assert(outputs@.map_values(|m: GatewayMessage| m@) =~= spec_step_outputs(s0, input));
        assert(actions@ =~= spec_step_actions(s0, input));
    }
    (next, outputs, actions)
}

// ---------------------------------------------------------------------------
// What whole runs of the supervisor publish
// ---------------------------------------------------------------------------

/// The state after a whole run of inputs, starting disconnected.
pub open spec fn run_state(inputs: Seq<GatewayInput>) -> GatewayStateV
    decreases inputs.len(),
{
    if inputs.len() == 0 {
        GatewayStateV::Disconnected
    } else {
        spec_step_state(run_state(inputs.drop_last()), inputs.last())
    }
}

/// Everything a whole run of inputs publishes, in order.
pub open spec fn run_outputs(inputs: Seq<GatewayInput>) -> Seq<GatewayMessageV>
    decreases inputs.len(),
{
    if inputs.len() == 0 {
        Seq::empty()
    } else {
        run_outputs(inputs.drop_last()) + spec_step_outputs(
            run_state(inputs.drop_last()),
            inputs.last(),
        )
    }
}

/// A lifecycle boundary: a notification that opens or closes an epoch.
pub open spec fn is_boundary(m: GatewayMessageV) -> bool {
    m is Connected || m is Disconnected || m is ConnectionError
}

/// The index of the last boundary in a run's output, or -1 before the first.
pub open spec fn last_boundary_idx(outs: Seq<GatewayMessageV>) -> int
    decreases outs.len(),
{
    if outs.len() == 0 {
        -1
    } else if is_boundary(outs.last()) {
        outs.len() - 1
    } else {
        last_boundary_idx(outs.drop_last())
    }
}

/// Where the last boundary sits: in range, itself a boundary, nothing after.
proof fn lemma_last_boundary_idx(outs: Seq<GatewayMessageV>)
    ensures
        -1 <= last_boundary_idx(outs) < outs.len(),
        last_boundary_idx(outs) >= 0 ==> is_boundary(outs[last_boundary_idx(outs)]),
        forall|k: int| last_boundary_idx(outs) < k < outs.len() ==> !is_boundary(#[trigger] outs[k]),
    decreases outs.len(),
{
    if outs.len() > 0 && !is_boundary(outs.last()) {
        lemma_last_boundary_idx(outs.drop_last());
        assert forall|k: int| last_boundary_idx(outs) < k < outs.len() implies !is_boundary(
            #[trigger] outs[k],
        ) by {
            if k < outs.len() - 1 {
                assert(outs.drop_last()[k] == outs[k]);
            }
        }
    }
}

/// In every run the supervisor is connected exactly when the last lifecycle
/// boundary it published opened an epoch.
pub proof fn lemma_run_boundary(inputs: Seq<GatewayInput>)
    ensures
        run_state(inputs) is Connected <==> {
            let outs = run_outputs(inputs);
            last_boundary_idx(outs) >= 0 && outs[last_boundary_idx(outs)] is Connected
        },
    decreases inputs.len(),
{
    if inputs.len() > 0 {
        let pre = inputs.drop_last();
        lemma_run_boundary(pre);
        let s = run_state(pre);
        let outs0 = run_outputs(pre);
        let added = spec_step_outputs(s, inputs.last());
        let outs = run_outputs(inputs);
        lemma_last_boundary_idx(outs0);
        if added.len() == 0 {
            assert(outs =~= outs0);
        } else {
            assert(added.len() == 1);
            assert(outs =~= outs0.push(added[0]));
            assert(outs.last() == added[0]);
            assert(outs.drop_last() =~= outs0);
            if !is_boundary(added[0]) {
                assert(last_boundary_idx(outs) == last_boundary_idx(outs0));
                assert forall|k: int| 0 <= k < outs0.len() implies outs[k] == outs0[k] by {}
            }
        }
    }
}

/// Every republished protocol event sits inside an epoch: looking back from
/// it, the nearest lifecycle boundary is the single `Connected` that opened
/// the epoch — after a successful connect and identify the supervisor
/// publishes exactly one `Connected` before any `Event`.
pub proof fn lemma_connected_before_event(inputs: Seq<GatewayInput>, j: int)
    requires
        0 <= j < run_outputs(inputs).len(),
        run_outputs(inputs)[j] is Event || run_outputs(inputs)[j] is ReceiveError,
    ensures
        exists|i: int|
            0 <= i < j && (#[trigger] run_outputs(inputs)[i]) is Connected && (forall|k: int|
                i < k < j ==> !is_boundary(#[trigger] run_outputs(inputs)[k])),
    decreases inputs.len(),
{
    let outs = run_outputs(inputs);
    let pre = inputs.drop_last();
    let outs0 = run_outputs(pre);
    let s = run_state(pre);
    let added = spec_step_outputs(s, inputs.last());
    assert(inputs.len() > 0);
    assert(outs =~= outs0 + added);
    if j < outs0.len() {
        lemma_connected_before_event(pre, j);
        let i = choose|i: int|
            0 <= i < j && (#[trigger] outs0[i]) is Connected && (forall|k: int|
                i < k < j ==> !is_boundary(#[trigger] outs0[k]));
        assert(outs[i] == outs0[i]);
        assert forall|k: int| i < k < j implies !is_boundary(#[trigger] outs[k]) by {
            assert(outs[k] == outs0[k]);
        }
    } else {
        // the event was just published, so the run was connected
        assert(added[j - outs0.len()] is Event || added[j - outs0.len()] is ReceiveError);
        assert(s is Connected);
        lemma_run_boundary(pre);
        let i = last_boundary_idx(outs0);
        lemma_last_boundary_idx(outs0);
        assert(outs0[i] is Connected);
        assert(outs[i] == outs0[i]);
        assert(added.len() == 1 && j == outs0.len());
        assert forall|k: int| i < k < j implies !is_boundary(#[trigger] outs[k]) by {
            assert(outs[k] == outs0[k]);
        }
        assert(0 <= i < j && (outs[i]) is Connected && (forall|k: int|
            i < k < j ==> !is_boundary(#[trigger] outs[k])));
    }
}

/// A `Connected` notification is published exactly on the transition that
/// opens an epoch, and then it is the only notification of that step.
pub proof fn lemma_one_connected_per_epoch(s: GatewayStateV, input: GatewayInput)
    ensures
        (exists|k: int|
            0 <= k < spec_step_outputs(s, input).len() && (#[trigger] spec_step_outputs(s, input)[k])
                is Connected) <==> (s is Disconnected && input is HandshakeSucceeded),
        (s is Disconnected && input is HandshakeSucceeded) ==> spec_step_outputs(s, input).len()
            == 1,
{
    if s is Disconnected && input is HandshakeSucceeded {
        assert(spec_step_outputs(s, input)[0] is Connected);
    }
}

/// Between any two `Connected` notifications of one run stands a closing
/// `Disconnected` or `ConnectionError`: an epoch is opened exactly once, and
/// the cycle of the output stream repeats only after it closed.
pub proof fn lemma_epoch_closes_before_reopening(inputs: Seq<GatewayInput>, i: int, j: int)
    requires
        0 <= i < j < run_outputs(inputs).len(),
        run_outputs(inputs)[i] is Connected,
        run_outputs(inputs)[j] is Connected,
    ensures
        exists|k: int|
            i < k < j && ((#[trigger] run_outputs(inputs)[k]) is Disconnected || run_outputs(
                inputs,
            )[k] is ConnectionError),
    decreases inputs.len(),
{
    let outs = run_outputs(inputs);
    let pre = inputs.drop_last();
    let outs0 = run_outputs(pre);
    let s = run_state(pre);
    let added = spec_step_outputs(s, inputs.last());
    assert(inputs.len() > 0);
    assert(outs =~= outs0 + added);
    if j < outs0.len() {
        assert(outs0[i] == outs[i] && outs0[j] == outs[j]);
        lemma_epoch_closes_before_reopening(pre, i, j);
        let k = choose|k: int|
            i < k < j && ((#[trigger] run_outputs(pre)[k]) is Disconnected || run_outputs(pre)[k]
                is ConnectionError);
        assert(outs[k] == outs0[k]);
    } else {
        // the opening at `j` was just published, so the run stood disconnected
        assert(added.len() == 1 && j == outs0.len());
        assert(added[0] is Connected);
        assert(s is Disconnected);
        lemma_run_boundary(pre);
        lemma_last_boundary_idx(outs0);
        let lb = last_boundary_idx(outs0);
        assert(outs0[i] == outs[i]);
        assert(is_boundary(outs0[i]));
        assert(i <= lb);
        assert(!(outs0[lb] is Connected));
        assert(i < lb);
        assert(outs[lb] == outs0[lb]);
        assert(outs[lb] is Disconnected || outs[lb] is ConnectionError);
    }
}

/// A frame goes to the wire only for a command taken from a live
/// connection's queue, and then it is that command, sent once: a command
/// that never reaches the pump — its connection is gone — produces no wire
/// traffic.
pub proof fn lemma_frames_only_from_commands(s: GatewayStateV, input: GatewayInput)
    ensures
        forall|k: int|
            0 <= k < spec_step_actions(s, input).len() && (#[trigger] spec_step_actions(s, input)[k])
                is SendFrame ==> s is Connected && input is Command,
        (s is Connected && input is Command) ==> spec_step_actions(s, input) =~= seq![
            GatewayAction::SendFrame(input->Command_0),
        ],
{
}

/// When the peer closes the socket mid-session, the supervisor publishes
/// exactly one `Disconnected`, returns to the disconnected state, and asks
/// for exactly one new dial.
pub proof fn lemma_disconnect_on_close(s: GatewayStateV)
    requires
        s is Connected,
    ensures
        spec_step_outputs(s, GatewayInput::Pulled(None)) =~= seq![GatewayMessageV::Disconnected],
        spec_step_state(s, GatewayInput::Pulled(None)) is Disconnected,
        spec_step_actions(s, GatewayInput::Pulled(None)) =~= seq![GatewayAction::Dial],
{
}

} // verus!
