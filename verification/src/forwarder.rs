use vstd::prelude::*;

verus! {

/// A handle to an outbound destination. The supervisor assigns one id per
/// inbound queue; delivering to a port means handing the message to the
/// forwarder (or notifier) that owns that queue.
pub type PortId = usize;

/// The instruction set exchanged by forwarders: one data message, subject to
/// sequence validation, and two configuration messages that are consumed on
/// receipt and never forwarded.
#[derive(Clone, Copy, Debug, PartialEq, Eq, Structural)]
pub enum TestMessage {
    /// A payload message carrying a sequence number.
    TestData(usize),
    /// Installs a new outbound destination on the receiving forwarder.
    AddSender(PortId),
    /// Installs a completion-notification destination and the receive-count
    /// threshold that triggers it.
    Notify(PortId, usize),
}

/// Whether a message is configuration: consumed directly, never counted.
pub open spec fn is_config(m: TestMessage) -> bool {
    !(m is TestData)
}

/// The mathematical state of one forwarder.
pub ghost struct ForwarderView {
    pub senders: Seq<PortId>,
    pub received_count: nat,
    pub send_count: nat,
    pub notify_count: nat,
    pub notify_sender: Option<PortId>,
    pub forwarding_multiplier: nat,
    pub next_seq: nat,
}

impl ForwarderView {
    /// The state of a freshly constructed forwarder.
    pub open spec fn initial() -> ForwarderView {
        ForwarderView {
            senders: Seq::empty(),
            received_count: 0,
            send_count: 0,
            notify_count: 0,
            notify_sender: None,
            forwarding_multiplier: 1,
            next_seq: 0,
        }
    }

    /// Applying a configuration message: `AddSender` appends a destination,
    /// `Notify` installs the notification target and threshold.
    pub open spec fn apply_config(self, m: TestMessage) -> ForwarderView {
        match m {
            TestMessage::AddSender(p) => ForwarderView { senders: self.senders.push(p), ..self },
            TestMessage::Notify(p, c) => ForwarderView {
                notify_sender: Some(p),
                notify_count: c as nat,
                ..self
            },
            TestMessage::TestData(_) => self,
        }
    }

    /// A data message is accepted when it continues the sequence or restarts it at 0.
    pub open spec fn seq_ok(self, seq: nat) -> bool {
        seq == self.next_seq || seq == 0
    }

    /// The sequence cursor after accepting a data message.
    pub open spec fn next_seq_after(self, seq: nat) -> nat {
        if seq == self.next_seq {
            self.next_seq + 1
        } else {
            1
        }
    }

    /// How many sends one accepted data message produces.
    pub open spec fn fan_out(self) -> nat {
        self.senders.len() * self.forwarding_multiplier
    }

    /// The sends an accepted data message produces: each destination, in
    /// insertion order, is sent `forwarding_multiplier` fresh data messages
    /// whose sequence numbers continue this forwarder's own send count.
    pub open spec fn data_emits(self) -> Seq<(PortId, TestMessage)> {
        Seq::new(
            self.fan_out(),
            |k: int|
                (
                    self.senders[k / self.forwarding_multiplier as int],
                    TestMessage::TestData((self.send_count + k) as usize),
                ),
        )
    }

    /// The sends a configuration message would produce if it were rebroadcast
    /// directly: the unchanged message, repeated per destination.
    pub open spec fn broadcast_emits(self, m: TestMessage) -> Seq<(PortId, TestMessage)> {
        Seq::new(self.fan_out(), |k: int| (self.senders[k / self.forwarding_multiplier as int], m))
    }

    /// The state after counting and forwarding one accepted data message.
    pub open spec fn after_data(self, seq: nat) -> ForwarderView {
        ForwarderView {
            received_count: self.received_count + 1,
            send_count: self.send_count + self.fan_out(),
            next_seq: self.next_seq_after(seq),
            ..self
        }
    }

    /// The notification a post-data state emits: when the received count has
    /// reached the threshold and a target is installed, one data message
    /// carrying the count about to be cleared.
    pub open spec fn notify_emits(self) -> Seq<(PortId, TestMessage)> {
        if self.received_count == self.notify_count && self.notify_sender is Some {
            seq![
                (self.notify_sender.unwrap(), TestMessage::TestData(self.received_count as usize)),
            ]
        } else {
            Seq::empty()
        }
    }

    /// The state after the notification check: both counters clear exactly
    /// when a notification fires, that is, when the received count has reached
    /// the threshold and a target is installed. Before a `Notify` installs a
    /// target (or after a disconnect clears it) no reset is observable.
    pub open spec fn after_notify(self) -> ForwarderView {
        if self.received_count == self.notify_count && self.notify_sender is Some {
            ForwarderView { received_count: 0, send_count: 0, ..self }
        } else {
            self
        }
    }

    /// Which messages this state accepts: every configuration message, and a
    /// data message whose sequence number validates.
    pub open spec fn accepts(self, m: TestMessage) -> bool {
        match m {
            TestMessage::TestData(seq) => self.seq_ok(seq as nat),
            _ => true,
        }
    }

    /// The whole transition for one accepted message: the new state and the
    /// sends it produces, in order.
    pub open spec fn step(self, m: TestMessage) -> (ForwarderView, Seq<(PortId, TestMessage)>) {
        match m {
            TestMessage::TestData(seq) => {
                let mid = self.after_data(seq as nat);
                (mid.after_notify(), self.data_emits() + mid.notify_emits())
            },
            _ => (self.apply_config(m), Seq::empty()),
        }
    }

    /// The state after the inbound channel closes: no destinations, no
    /// notification target; counters and cursor are left as they were.
    pub open spec fn cleared(self) -> ForwarderView {
        ForwarderView { senders: Seq::empty(), notify_sender: None, ..self }
    }
}

/// The mutable state block owned by one forwarder.
pub struct ForwarderMutable {
    /// Outbound destinations; each is sent every accepted data message.
    pub senders: Vec<PortId>,
    /// Messages received (and accepted) since the last notification.
    pub received_count: usize,
    /// Messages sent since the last notification.
    pub send_count: usize,
    /// Threshold compared against the received count.
    pub notify_count: usize,
    /// Where the notification goes, when installed.
    pub notify_sender: Option<PortId>,
    /// How many times each destination is sent to per accepted data message.
    pub forwarding_multiplier: usize,
    /// The next expected sequence number.
    pub next_seq: usize,
}

impl View for ForwarderMutable {
    type V = ForwarderView;

    open spec fn view(&self) -> ForwarderView {
        ForwarderView {
            senders: self.senders@,
            received_count: self.received_count as nat,
            send_count: self.send_count as nat,
            notify_count: self.notify_count as nat,
            notify_sender: self.notify_sender,
            forwarding_multiplier: self.forwarding_multiplier as nat,
            next_seq: self.next_seq as nat,
        }
    }
}

impl ForwarderMutable {
    pub fn new() -> (r: ForwarderMutable)
        ensures
            r@ == ForwarderView::initial(),
    {
        let r = ForwarderMutable {
            senders: Vec::new(),
            received_count: 0,
            send_count: 0,
            notify_count: 0,
            notify_sender: None,
            forwarding_multiplier: 1,
            next_seq: 0,
        };
        proof {
            assert(r@ =~= ForwarderView::initial());
        }
        r
    }

    /// Empties the outbound list and clears the notify target; called when the
    /// inbound channel closes.
    pub fn drop_all_senders(&mut self)
        ensures
            final(self)@ == old(self)@.cleared(),
    {
        self.senders.clear();
        self.notify_sender = None;
        proof {
            assert(final(self)@ =~= old(self)@.cleared());
        }
    }

    /// If the message is data, validates its sequence number or resets the
    /// cursor on a restart; any accepted message bumps the received count.
    pub fn validate_sequence(&mut self, msg: TestMessage) -> (r: Result<TestMessage, TestMessage>)
        requires
            old(self).received_count < usize::MAX,
            old(self).next_seq < usize::MAX,
        ensures
            old(self)@.accepts(msg) ==> r == Result::<TestMessage, TestMessage>::Ok(msg)
                && final(self)@ == (ForwarderView {
                    received_count: old(self)@.received_count + 1,
                    next_seq: match msg {
                        TestMessage::TestData(seq) => old(self)@.next_seq_after(seq as nat),
                        _ => old(self)@.next_seq,
                    },
                    ..old(self)@
                }),
            !old(self)@.accepts(msg) ==> r == Result::<TestMessage, TestMessage>::Err(msg)
                && *final(self) == *old(self),
    {
        match msg {
            TestMessage::TestData(seq) if seq == self.next_seq => {
                self.next_seq = self.next_seq + 1;
            },
            TestMessage::TestData(seq) if seq == 0 => {
                self.next_seq = 1;
            },
            TestMessage::TestData(_) => {
                return Err(msg);
            },
            _ => (),
        }
        self.received_count = self.received_count + 1;
        proof {
            assert(final(self)@ =~= (ForwarderView {
                received_count: old(self)@.received_count + 1,
                next_seq: match msg {
                    TestMessage::TestData(seq) => old(self)@.next_seq_after(seq as nat),
                    _ => old(self)@.next_seq,
                },
                ..old(self)@
            }));
        }
        Ok(msg)
    }

    /// Applies a configuration message to the state; a data message is handed
    /// back unchanged as the error.
    pub fn handle_config(&mut self, msg: TestMessage) -> (r: Result<(), TestMessage>)
        ensures
            is_config(msg) ==> r is Ok && final(self)@ == old(self)@.apply_config(msg),
            !is_config(msg) ==> r == Result::<(), TestMessage>::Err(msg) && *final(self) == *old(
                self,
            ),
    {
        match msg {
            TestMessage::Notify(sender, on_receive_count) => {
                self.notify_sender = Some(sender);
                self.notify_count = on_receive_count;
                proof {
                    assert(final(self)@ =~= old(self)@.apply_config(msg));
                }
            },
            TestMessage::AddSender(sender) => {
                self.senders.push(sender);
                proof {
                    assert(final(self)@ =~= old(self)@.apply_config(msg));
                }
            },
            msg => {
                return Err(msg);
            },
        }
        Ok(())
    }

    /// Produces the sends for one message: a data message becomes fresh data
    /// messages numbered from this forwarder's send count, every other message
    /// is repeated as it is; each destination is sent to
    /// `forwarding_multiplier` times, in insertion order.
    pub fn handle_action(&mut self, message: TestMessage) -> (out: Vec<(PortId, TestMessage)>)
        requires
            old(self)@.send_count + old(self)@.fan_out() <= usize::MAX,
        ensures
            message is TestData ==> out@ == old(self)@.data_emits() && final(self)@ == (
            ForwarderView { send_count: old(self)@.send_count + old(self)@.fan_out(), ..old(
                self,
            )@ }),
            !(message is TestData) ==> out@ == old(self)@.broadcast_emits(message) && *final(self)
                == *old(self),
    {
        let ghost pre = old(self)@;
        let mut out: Vec<(PortId, TestMessage)> = Vec::new();
        let is_data = match message {
            TestMessage::TestData(_) => true,
            _ => false,
        };
        let mut i: usize = 0;
        while i < self.senders.len()
            invariant
                i <= self.senders.len(),
                self.senders@ == pre.senders,
                self.notify_sender == pre.notify_sender,
                self.received_count as nat == pre.received_count,
                self.notify_count as nat == pre.notify_count,
                self.forwarding_multiplier as nat == pre.forwarding_multiplier,
                self.next_seq as nat == pre.next_seq,
                pre.send_count + pre.fan_out() <= usize::MAX,
                is_data == message is TestData,
                !is_data ==> *self == *old(self),
                out@.len() == i * pre.forwarding_multiplier,
                is_data ==> self.send_count as nat == pre.send_count + out@.len(),
                !is_data ==> self.send_count as nat == pre.send_count,
                is_data ==> forall|k: int|
                    0 <= k < out@.len() ==> out@[k] == pre.data_emits()[k],
                !is_data ==> forall|k: int|
                    0 <= k < out@.len() ==> out@[k] == pre.broadcast_emits(message)[k],
            decreases self.senders.len() - i,
        {
            proof {
                vstd::arithmetic::mul::lemma_mul_inequality(
                    i + 1,
                    pre.senders.len() as int,
                    pre.forwarding_multiplier as int,
                );
            }
            let port = self.senders[i];
            let mut j: usize = 0;
            while j < self.forwarding_multiplier
                invariant
                    j <= self.forwarding_multiplier,
                    i < self.senders.len(),
                    port == self.senders@[i as int],
                    self.senders@ == pre.senders,
                    self.notify_sender == pre.notify_sender,
                    self.received_count as nat == pre.received_count,
                    self.notify_count as nat == pre.notify_count,
                    self.forwarding_multiplier as nat == pre.forwarding_multiplier,
                    self.next_seq as nat == pre.next_seq,
                    pre.send_count + pre.fan_out() <= usize::MAX,
                    (i + 1) * pre.forwarding_multiplier <= pre.fan_out(),
                    is_data == message is TestData,
                    !is_data ==> *self == *old(self),
                    out@.len() == i * pre.forwarding_multiplier + j,
                    is_data ==> self.send_count as nat == pre.send_count + out@.len(),
                    !is_data ==> self.send_count as nat == pre.send_count,
                    is_data ==> forall|k: int|
                        0 <= k < out@.len() ==> out@[k] == pre.data_emits()[k],
                    !is_data ==> forall|k: int|
                        0 <= k < out@.len() ==> out@[k] == pre.broadcast_emits(message)[k],
                decreases self.forwarding_multiplier - j,
            {
                let ghost k = out@.len() as int;
                proof {
                    vstd::arithmetic::mul::lemma_mul_is_distributive_add_other_way(
                        pre.forwarding_multiplier as int,
                        i as int,
                        1,
                    );
                    assert(k < (i + 1) * pre.forwarding_multiplier);
                    vstd::arithmetic::div_mod::lemma_fundamental_div_mod_converse(
                        k,
                        pre.forwarding_multiplier as int,
                        i as int,
                        j as int,
                    );
                    assert(k / pre.forwarding_multiplier as int == i as int);
                }
                if is_data {
                    out.push((port, TestMessage::TestData(self.send_count)));
                    self.send_count = self.send_count + 1;
                    proof {
                        assert(out@[k] == pre.data_emits()[k]);
                    }
                } else {
                    out.push((port, message));
                    proof {
                        assert(out@[k] == pre.broadcast_emits(message)[k]);
                    }
                }
                j = j + 1;
            }
            i = i + 1;
            proof {
                vstd::arithmetic::mul::lemma_mul_is_distributive_add_other_way(
                    pre.forwarding_multiplier as int,
                    i as int - 1,
                    1,
                );
            }
        }
        proof {
            if is_data {
                assert(out@ =~= pre.data_emits());
                assert(final(self)@ =~= (ForwarderView {
                    send_count: pre.send_count + pre.fan_out(),
                    ..pre
                }));
            } else {
                assert(out@ =~= pre.broadcast_emits(message));
                assert(*final(self) == *old(self));
            }
        }
        out
    }

    /// Reads the received count and clears both counters.
    pub fn clear_received_count(&mut self) -> (r: usize)
        ensures
            r as nat == old(self)@.received_count,
            final(self)@ == (ForwarderView { received_count: 0, send_count: 0, ..old(self)@ }),
    {
        let received_count = self.received_count;
        self.received_count = 0;
        self.send_count = 0;
        proof {
            assert(final(self)@ =~= (ForwarderView {
                received_count: 0,
                send_count: 0,
                ..old(self)@
            }));
        }
        received_count
    }

    /// When the received count has reached the threshold and a target is
    /// installed, sends that target one data message carrying the received
    /// count and clears both counters; with no target installed nothing is
    /// sent and nothing is cleared.
    pub fn handle_notification(&mut self) -> (out: Vec<(PortId, TestMessage)>)
        ensures
            out@ == old(self)@.notify_emits(),
            final(self)@ == old(self)@.after_notify(),
    {
        let mut out: Vec<(PortId, TestMessage)> = Vec::new();
        if self.received_count == self.notify_count {
            if let Some(notifier) = self.notify_sender {
                let count = self.clear_received_count();
                out.push((notifier, TestMessage::TestData(count)));
            }
        }
        proof {
            assert(out@ =~= old(self)@.notify_emits());
        }
        out
    }
}

impl Default for ForwarderMutable {
    fn default() -> (r: ForwarderMutable)
        ensures
            r@ == ForwarderView::initial(),
    {
        ForwarderMutable::new()
    }
}

/// An error a forwarder reports instead of carrying on: the message text names
/// what went wrong.
#[derive(Debug, Clone, PartialEq)]
pub struct Error {
    pub message: String,
}

/// One actor: an id and the mutable state block it owns exclusively.
pub struct Forwarder {
    pub id: usize,
    /// The mutable bits; only this forwarder's own operations touch them.
    pub mutable: ForwarderMutable,
}

impl Forwarder {
    pub fn new(id: usize) -> (r: Forwarder)
        ensures
            r.id() == id,
            r.mutable@ == ForwarderView::initial(),
    {
        Forwarder { id, mutable: ForwarderMutable::new() }
    }

    pub open spec fn id(&self) -> usize {
        self.id
    }

    pub fn get_id(&self) -> (r: usize)
        ensures
            r == self.id(),
    {
        self.id
    }

    /// Whether this forwarder can take one more message without its counters
    /// or send numbering overflowing the machine integers.
    pub open spec fn can_recv(&self) -> bool {
        &&& self.mutable@.received_count < usize::MAX
        &&& self.mutable@.next_seq < usize::MAX
        &&& self.mutable@.send_count + self.mutable@.fan_out() <= usize::MAX
    }

    /// Whether this forwarder accepts the message: every configuration
    /// message, and a data message whose sequence number continues the stream
    /// or restarts it at zero. Anything else is a fatal protocol violation.
    pub fn accepts_msg(&self, message: &TestMessage) -> (r: bool)
        ensures
            r == self.mutable@.accepts(*message),
    {
        match *message {
            TestMessage::TestData(seq) => seq == self.mutable.next_seq || seq == 0,
            _ => true,
        }
    }

    /// The core dispatch: a configuration message is applied to the state and
    /// produces no sends; a data message is counted, forwarded to every
    /// destination, and may trigger the notification. A data message whose
    /// sequence number does not validate is a fatal protocol violation, never
    /// a recoverable condition, so `requires` excludes it; `try_recv` is the
    /// checked entry for drivers that must observe the violation and abort.
    pub fn recv(&mut self, message: TestMessage) -> (out: Vec<(PortId, TestMessage)>)
        requires
            old(self).can_recv(),
            old(self).mutable@.accepts(message),
        ensures
            final(self).id() == old(self).id(),
            final(self).mutable@ == old(self).mutable@.step(message).0,
            out@ == old(self).mutable@.step(message).1,
    {
        let ghost pre = self.mutable@;
        match self.mutable.handle_config(message) {
            Ok(_) => {
                proof {
                    assert(Seq::<(PortId, TestMessage)>::empty() =~= pre.step(message).1);
                }
                Vec::new()
            },
            Err(msg) => match self.mutable.validate_sequence(msg) {
                Ok(msg) => {
                    let mut out = self.mutable.handle_action(msg);
                    let ghost seq_no = match msg {
                        TestMessage::TestData(seq) => seq as nat,
                        _ => 0,
                    };
                    proof {
                        assert(self.mutable@ =~= pre.after_data(seq_no));
                    }
                    let mut note = self.mutable.handle_notification();
                    out.append(&mut note);
                    proof {
                        assert(out@ =~= pre.step(message).1);
                    }
                    out
                },
                Err(_) => {
                    proof {
                        assert(false);
                    }
                    Vec::new()
                },
            },
        }
    }

    /// The checked entry around `recv`: a message the forwarder accepts is
    /// processed exactly as `recv` does; a data message with a mismatched
    /// sequence number comes back as the sequencing error, with the state
    /// untouched, for the driver to abort on.
    pub fn try_recv(&mut self, message: TestMessage) -> (r: Result<
        Vec<(PortId, TestMessage)>,
        Error,
    >)
        requires
            old(self).can_recv(),
        ensures
            final(self).id() == old(self).id(),
            old(self).mutable@.accepts(message) <==> r is Ok,
            r is Ok ==> final(self).mutable@ == old(self).mutable@.step(message).0 && r.unwrap()@
                == old(self).mutable@.step(message).1,
            r is Err ==> final(self).mutable == old(self).mutable && (r->Err_0).message@
                == "sequence error"@,
    {
        if self.accepts_msg(&message) {
            Ok(self.recv(message))
        } else {
            Err(Error { message: String::from_str("sequence error") })
        }
    }

    /// The disconnect hook: invoked when the inbound channel closes. Empties
    /// the outbound list and clears the notify target; calling it again is a
    /// no-op.
    pub fn disconnected(&mut self)
        ensures
            final(self).id() == old(self).id(),
            final(self).mutable@ == old(self).mutable@.cleared(),
    {
        self.mutable.drop_all_senders();
    }
}

/// Calling the disconnect hook is idempotent: a second disconnect, in
/// particular one on a state whose outbound list is already empty, leaves the
/// state exactly as the first left it.
pub proof fn lemma_disconnect_idempotent(s: ForwarderView)
    ensures
        s.cleared().cleared() == s.cleared(),
{
    assert(s.cleared().cleared() =~= s.cleared());
}

/// Without an installed notification target no notification is observable:
/// an accepted data message that brings the received count up to the threshold
/// emits nothing beyond the ordinary fan-out, and neither counter resets.
pub proof fn lemma_no_notification_without_target(s: ForwarderView, seq_no: usize)
    requires
        s.seq_ok(seq_no as nat),
        s.notify_sender is None,
    ensures
        s.step(TestMessage::TestData(seq_no)).1 == s.data_emits(),
        s.step(TestMessage::TestData(seq_no)).0.received_count == s.received_count + 1,
        s.step(TestMessage::TestData(seq_no)).0.send_count == s.send_count + s.fan_out(),
{
    let mid = s.after_data(seq_no as nat);
    assert(mid.notify_emits() =~= Seq::<(PortId, TestMessage)>::empty());
    assert(s.data_emits() + mid.notify_emits() =~= s.data_emits());
}

/// A forwarding multiplier of `k` makes one accepted data message produce
/// exactly `k` sends per registered destination, and the sequence numbers of
/// the produced data messages are consecutive, drawn from the forwarder's own
/// send count: the `j`-th send carries `send_count + j`, so they strictly
/// increase over the whole fan-out.
pub proof fn lemma_multiplier_fan_out(s: ForwarderView)
    requires
        s.send_count + s.fan_out() <= usize::MAX,
    ensures
        s.data_emits().len() == s.senders.len() * s.forwarding_multiplier,
        forall|j: int|
            0 <= j < s.data_emits().len() ==> #[trigger] s.data_emits()[j].1
                == TestMessage::TestData((s.send_count + j) as usize),
        forall|a: int, b: int|
            0 <= a < b < s.data_emits().len() ==> (#[trigger] s.data_emits()[a].1)->TestData_0 < (
            #[trigger] s.data_emits()[b].1)->TestData_0,
{
    assert forall|a: int, b: int| 0 <= a < b < s.data_emits().len() implies (
    #[trigger] s.data_emits()[a].1)->TestData_0 < (#[trigger] s.data_emits()[b].1)->TestData_0 by {
        assert(s.data_emits()[a].1 == TestMessage::TestData((s.send_count + a) as usize));
        assert(s.data_emits()[b].1 == TestMessage::TestData((s.send_count + b) as usize));
    }
}

/// When the message that has just been counted brings the received count up to
/// the notification threshold, and a target is installed, the step emits
/// exactly one notification after the ordinary fan-out; it carries the count
/// about to be cleared, and both counters are reset to zero.
pub proof fn lemma_notification_reset(s: ForwarderView, seq_no: usize)
    requires
        s.seq_ok(seq_no as nat),
        s.received_count + 1 == s.notify_count,
        s.notify_sender is Some,
        s.notify_count <= usize::MAX,
    ensures
        s.step(TestMessage::TestData(seq_no)).0.received_count == 0,
        s.step(TestMessage::TestData(seq_no)).0.send_count == 0,
        s.step(TestMessage::TestData(seq_no)).1 == s.data_emits() + seq![
            (s.notify_sender.unwrap(), TestMessage::TestData(s.notify_count as usize)),
        ],
{
    let mid = s.after_data(seq_no as nat);
    assert(mid.received_count == s.notify_count);
    assert(mid.notify_emits() =~= seq![
        (s.notify_sender.unwrap(), TestMessage::TestData(s.notify_count as usize)),
    ]);
}

/// Names an instruction set: the message type actors exchange.
pub trait InstructionSet: Clone {
    type InstructionSet;
}

impl InstructionSet for TestMessage {
    type InstructionSet = TestMessage;
}

/// The actor interface: react to one instruction at a time, and to the close
/// of the inbound channel. `ready` says when the actor can take a message
/// without its counters overflowing.
pub trait Machine<T> {
    spec fn ready(&self, cmd: &T) -> bool;

    fn disconnected(&mut self);

    fn recv(&mut self, cmd: T) -> Result<Vec<(PortId, T)>, Error>
        requires
            old(self).ready(&cmd),
    ;
}

impl Machine<TestMessage> for Forwarder {
    open spec fn ready(&self, cmd: &TestMessage) -> bool {
        self.can_recv()
    }

    fn disconnected(&mut self) {
        Forwarder::disconnected(self);
    }

    fn recv(&mut self, cmd: TestMessage) -> Result<Vec<(PortId, TestMessage)>, Error> {
        self.try_recv(cmd)
    }
}

} // verus!
