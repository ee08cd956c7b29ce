use crate::forwarder::{Forwarder, ForwarderView, PortId, TestMessage};
use vstd::prelude::*;

verus! {

/// The state of forwarder `i` (0-based) in a freshly wired chain of `n`:
/// every forwarder but the last forwards to its successor; the last one holds
/// the notifier (port `n`) with threshold 1.
pub open spec fn link_state(i: int, n: int) -> ForwarderView {
    ForwarderView {
        senders: if i < n - 1 {
            seq![(i + 1) as usize]
        } else {
            Seq::empty()
        },
        received_count: 0,
        send_count: 0,
        notify_count: if i == n - 1 {
            1
        } else {
            0
        },
        notify_sender: if i == n - 1 {
            Some(n as usize)
        } else {
            None
        },
        forwarding_multiplier: 1,
        next_seq: 0,
    }
}

/// The state of forwarder `i` after the single injected data message has run
/// through the whole chain: each forwarder advanced its sequence cursor once;
/// the last one fired its notification and so cleared its counters.
pub open spec fn done_state(i: int, n: int) -> ForwarderView {
    ForwarderView {
        received_count: if i == n - 1 {
            0
        } else {
            1
        },
        send_count: if i == n - 1 {
            0
        } else {
            1
        },
        next_seq: 1,
        ..link_state(i, n)
    }
}

/// One delivery step of the injected data message, at forwarder `i` of a
/// chain of `n`: the message is accepted, the forwarder moves from its wired
/// state to its finished state, and it emits exactly one message: the data
/// message passed on to its successor, or, at the end of the chain, the
/// notification.
pub proof fn lemma_link_step(i: int, n: int)
    requires
        0 <= i < n,
        n < usize::MAX,
    ensures
        link_state(i, n).fan_out() == link_state(i, n).senders.len(),
        link_state(i, n).accepts(TestMessage::TestData(0usize)),
        link_state(i, n).step(TestMessage::TestData(0usize)).0 == done_state(i, n),
        i < n - 1 ==> link_state(i, n).step(TestMessage::TestData(0usize)).1 == seq![
            ((i + 1) as usize, TestMessage::TestData(0usize)),
        ],
        i == n - 1 ==> link_state(i, n).step(TestMessage::TestData(0usize)).1 == seq![
            (n as usize, TestMessage::TestData(1usize)),
        ],
{
    let s = link_state(i, n);
    vstd::arithmetic::mul::lemma_mul_basics(s.senders.len() as int);
    assert(s.fan_out() == s.senders.len());
    let mid = s.after_data(0);
    if i < n - 1 {
        assert(s.data_emits() =~= seq![((i + 1) as usize, TestMessage::TestData(0usize))]);
        assert(mid.notify_emits() =~= Seq::<(PortId, TestMessage)>::empty());
        assert(s.step(TestMessage::TestData(0usize)).1 =~= seq![
            ((i + 1) as usize, TestMessage::TestData(0usize)),
        ]);
    } else {
        assert(s.data_emits() =~= Seq::<(PortId, TestMessage)>::empty());
        assert(mid.notify_emits() =~= seq![(n as usize, TestMessage::TestData(1usize))]);
        assert(s.step(TestMessage::TestData(0usize)).1 =~= seq![
            (n as usize, TestMessage::TestData(1usize)),
        ]);
    }
    assert(s.step(TestMessage::TestData(0usize)).0 =~= done_state(i, n));
}

/// Builds a daisy chain of `n` forwarders with ids 1 ..= n. Port `i` is
/// forwarder `i`'s inbound queue; port `n` is the notifier. Each forwarder is
/// configured by the same control messages the supervisor would send: an
/// `AddSender` wiring it to its successor, and, on the last one, a `Notify`
/// aimed at the notifier with threshold 1.
pub fn build_chain(n: usize) -> (v: Vec<Forwarder>)
    requires
        1 <= n < usize::MAX,
    ensures
        v.len() == n,
        forall|i: int| 0 <= i < n ==> v[i].id() == i + 1,
        forall|i: int| 0 <= i < n ==> v[i].mutable@ == link_state(i, n as int),
{
    let mut v: Vec<Forwarder> = Vec::new();
    let mut i: usize = 0;
    while i < n
        invariant
            i <= n,
            n < usize::MAX,
            v.len() == i,
            forall|j: int| 0 <= j < i ==> v[j].id() == j + 1,
            forall|j: int| 0 <= j < i ==> v[j].mutable@ == link_state(j, n as int),
        decreases n - i,
    {
        let mut f = Forwarder::new(i + 1);
        let _wired = if i + 1 < n {
            f.recv(TestMessage::AddSender(i + 1))
        } else {
            f.recv(TestMessage::Notify(n, 1))
        };
        proof {
            assert(f.mutable@ =~= link_state(i as int, n as int));
        }
        v.push(f);
        i = i + 1;
    }
    v
}

/// Builds a chain of `n` forwarders, injects `TestData(0)` at its entry, and
/// delivers messages in order until none are pending. Returns the forwarders
/// and what arrived on the notifier port.
///
/// This states the end-to-end law of the pipeline: for every chain length
/// `n >= 1`, the notifier receives exactly one message, `TestData(1)` (one
/// message was counted before the notification reset), and every forwarder has
/// accepted exactly one data message, so its sequence cursor stands at 1, with
/// the non-final forwarders each having received and sent exactly once and the
/// final one having cleared its counters when it fired.
pub fn run_chain(n: usize) -> (r: (Vec<Forwarder>, Vec<TestMessage>))
    requires
        1 <= n < usize::MAX,
    ensures
        r.1@ == seq![TestMessage::TestData(1usize)],
        r.0.len() == n,
        forall|i: int| 0 <= i < n ==> r.0[i].id() == i + 1,
        forall|i: int| 0 <= i < n ==> r.0[i].mutable@ == done_state(i, n as int),
{
    let ghost gn = n as int;
    let mut v = build_chain(n);
    let mut notifications: Vec<TestMessage> = Vec::new();
    let mut queue: Vec<(PortId, TestMessage)> = Vec::new();
    queue.push((0, TestMessage::TestData(0)));
    let mut head: usize = 0;
    while head < queue.len()
        invariant
            gn == n as int,
            1 <= n < usize::MAX,
            v.len() == n,
            head <= n + 1,
            queue@.len() == if head <= gn {
                head + 1
            } else {
                gn + 1
            },
            head <= gn ==> queue@[head as int] == (
                head,
                TestMessage::TestData(if head < n {
                    0usize
                } else {
                    1usize
                }),
            ),
            head <= gn ==> notifications@ == Seq::<TestMessage>::empty(),
            head > gn ==> notifications@ == seq![TestMessage::TestData(1usize)],
            forall|i: int| 0 <= i < n ==> v[i].id() == i + 1,
            forall|i: int|
                0 <= i < n ==> v[i].mutable@ == (if i < head {
                    done_state(i, gn)
                } else {
                    link_state(i, gn)
                }),
        decreases n + 1 - head,
    {
        let (port, msg) = queue[head];
        head = head + 1;
        if port < n {
            let ghost pre = v[port as int].mutable@;
            proof {
                assert(port == head - 1);
                assert(msg == TestMessage::TestData(0usize));
                assert(pre == link_state(port as int, gn));
                lemma_link_step(port as int, gn);
                assert(v[port as int].can_recv());
            }
            let out = v[port].recv(msg);
            proof {
                assert(v[port as int].mutable@ == done_state(port as int, gn));
                if port < n - 1 {
                    assert(out@ == seq![((port + 1) as usize, TestMessage::TestData(0usize))]);
                } else {
                    assert(out@ == seq![(n, TestMessage::TestData(1usize))]);
                }
            }
            let mut oi: usize = 0;
            let ghost queue_before = queue@;
            while oi < out.len()
                invariant
                    oi <= out.len(),
                    queue@ == queue_before + out@.take(oi as int),
                decreases out.len() - oi,
            {
                queue.push(out[oi]);
                proof {
                    assert(queue@ =~= queue_before + out@.take(oi as int + 1));
                }
                oi = oi + 1;
            }
            proof {
                assert(out@.take(out@.len() as int) =~= out@);
            }
        } else {
            notifications.push(msg);
        }
    }
    (v, notifications)
}

} // verus!
