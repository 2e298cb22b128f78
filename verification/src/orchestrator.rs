//! The in-process message bus through which fleet agents talk to each other:
//! one first-in first-out inbox per agent name.
use vstd::prelude::*;
use crate::text::str_eq;

verus! {

/// The pending messages for a name (an absent inbox is empty).
pub open spec fn inbox_of(m: Map<Seq<char>, Seq<Seq<char>>>, name: Seq<char>) -> Seq<Seq<char>> {
    if m.dom().contains(name) {
        m[name]
    } else {
        Seq::empty()
    }
}

/// The bus after `msg` is sent to `target`: it joins the back of the inbox.
pub open spec fn bus_send(m: Map<Seq<char>, Seq<Seq<char>>>, target: Seq<char>, msg: Seq<char>) -> Map<
    Seq<char>,
    Seq<Seq<char>>,
> {
    m.insert(target, inbox_of(m, target).push(msg))
}

/// What `name` receives from the bus, and the bus afterwards: the front of
/// its inbox, or nothing when the inbox is empty.
pub open spec fn bus_recv(m: Map<Seq<char>, Seq<Seq<char>>>, name: Seq<char>) -> (
    Option<Seq<char>>,
    Map<Seq<char>, Seq<Seq<char>>>,
) {
    let q = inbox_of(m, name);
    if q.len() > 0 {
        (Some(q[0]), m.insert(name, q.drop_first()))
    } else {
        (None, m)
    }
}

/// One agent's inbox.
pub struct MailQueue {
    pub name: String,
    pub messages: Vec<String>,
}

impl MailQueue {
    pub open spec fn contents(self) -> Seq<Seq<char>> {
        self.messages@.map_values(|s: String| s@)
    }
}

/// Inboxes keyed by agent name.
pub struct MessageBus {
    queues: Vec<MailQueue>,
}

impl MessageBus {
    /// No two inboxes share a name.
    pub closed spec fn wf(&self) -> bool {
        forall|i: int, j: int|
            0 <= i < j < self.queues@.len() ==> (#[trigger] self.queues@[i]).name@
                != (#[trigger] self.queues@[j]).name@
    }

    closed spec fn has_name(&self, n: Seq<char>) -> bool {
        exists|i: int| 0 <= i < self.queues@.len() && (#[trigger] self.queues@[i]).name@ == n
    }

    closed spec fn slot(&self, n: Seq<char>) -> int {
        choose|i: int| 0 <= i < self.queues@.len() && (#[trigger] self.queues@[i]).name@ == n
    }

    /// The inbox of every name that has one.
    pub closed spec fn view(&self) -> Map<Seq<char>, Seq<Seq<char>>> {
        Map::new(|n: Seq<char>| self.has_name(n), |n: Seq<char>| self.queues@[self.slot(n)].contents())
    }

    proof fn lemma_slot(&self, i: int)
        requires
            self.wf(),
            0 <= i < self.queues@.len(),
        ensures
            self.has_name(self.queues@[i].name@),
            self.slot(self.queues@[i].name@) == i,
    {
        let n = self.queues@[i].name@;
        assert(self.has_name(n));
        let k = self.slot(n);
        if k != i {
            if k < i {
                assert(self.queues@[k].name@ != self.queues@[i].name@);
            } else {
                assert(self.queues@[i].name@ != self.queues@[k].name@);
            }
        }
    }

    /// An empty bus.
    pub fn new() -> (r: Self)
        ensures
            r.wf(),
            r@ == Map::<Seq<char>, Seq<Seq<char>>>::empty(),
    {
        let r = MessageBus { queues: Vec::new() };
        assert(r@ =~= Map::<Seq<char>, Seq<Seq<char>>>::empty());
        r
    }

    fn find(&self, name: &str) -> (r: Option<usize>)
        requires
            self.wf(),
        ensures
            r matches Some(i) ==> i < self.queues@.len() && self.queues@[i as int].name@ == name@,
            r is None ==> !self.has_name(name@),
    {
        let mut i: usize = 0;
        while i < self.queues.len()
            invariant
                i <= self.queues@.len(),
                forall|k: int| 0 <= k < i ==> (#[trigger] self.queues@[k]).name@ != name@,
            decreases self.queues@.len() - i,
        {
            if str_eq(self.queues[i].name.as_str(), name) {
                return Some(i);
            }
            i = i + 1;
        }
        None
    }

    /// Queues `msg` for agent `target`.
    pub fn send(&mut self, target: &str, msg: String)
        requires
            old(self).wf(),
        ensures
            final(self).wf(),
            final(self)@ == bus_send(old(self)@, target@, msg@),
    {
        let ghost old_bus = *self;
        match self.find(target) {
            Some(i) => {
                proof {
                    old_bus.lemma_slot(i as int);
                }
                let mut q = self.queues.remove(i);
                let ghost oldc = q.contents();
                q.messages.push(msg);
                assert(q.contents() =~= oldc.push(msg@));
                self.queues.insert(i, q);
                proof {
                    assert(self.queues@ =~= old_bus.queues@.update(i as int, q));
                    assert(self.wf());
                    assert forall|n: Seq<char>|
                        #![auto]
                        self.has_name(n) == old_bus.has_name(n) by {
                        if self.has_name(n) {
                            let k = choose|k: int|
                                0 <= k < self.queues@.len() && (#[trigger] self.queues@[k]).name@
                                    == n;
                            assert(old_bus.queues@[k].name@ == n);
                        }
                        if old_bus.has_name(n) {
                            let k = choose|k: int|
                                0 <= k < old_bus.queues@.len() && (#[trigger] old_bus.queues@[k]).name@
                                    == n;
                            assert(self.queues@[k].name@ == n);
                        }
                    }
                    assert forall|n: Seq<char>| #[trigger] self.has_name(n) implies self.queues@[self.slot(n)].contents()
                        == bus_send(old_bus@, target@, msg@)[n] by {
                        let k = self.slot(n);
                        self.lemma_slot(k);
                        old_bus.lemma_slot(k);
                    }
                    assert(self@ =~= bus_send(old_bus@, target@, msg@));
                }
            },
            None => {
                let mut messages: Vec<String> = Vec::new();
                messages.push(msg);
                let q = MailQueue { name: String::from_str(target), messages };
                assert(q.contents() =~= seq![msg@]);
                self.queues.push(q);
                proof {
                    let len = old_bus.queues@.len();
                    assert(self.wf()) by {
                        assert forall|i: int, j: int|
                            0 <= i < j < self.queues@.len() implies (#[trigger] self.queues@[i]).name@
                            != (#[trigger] self.queues@[j]).name@ by {
                            if j == len {
                                assert(old_bus.queues@[i].name@ != target@);
                            } else {
                                assert(old_bus.queues@[i] == self.queues@[i]);
                                assert(old_bus.queues@[j] == self.queues@[j]);
                            }
                        }
                    }
                    assert forall|n: Seq<char>|
                        #![auto]
                        self.has_name(n) == (old_bus.has_name(n) || n == target@) by {
                        if self.has_name(n) {
                            let k = choose|k: int|
                                0 <= k < self.queues@.len() && (#[trigger] self.queues@[k]).name@
                                    == n;
                            if k < len {
                                assert(old_bus.queues@[k].name@ == n);
                            }
                        }
                        if old_bus.has_name(n) {
                            let k = choose|k: int|
                                0 <= k < old_bus.queues@.len() && (#[trigger] old_bus.queues@[k]).name@
                                    == n;
                            assert(self.queues@[k].name@ == n);
                        }
                        if n == target@ {
                            assert(self.queues@[len as int].name@ == n);
                        }
                    }
                    assert forall|n: Seq<char>| #[trigger] self.has_name(n) implies self.queues@[self.slot(n)].contents()
                        == bus_send(old_bus@, target@, msg@)[n] by {
                        let k = self.slot(n);
                        self.lemma_slot(k);
                        if k < len {
                            old_bus.lemma_slot(k);
                        }
                    }
                    assert(self@ =~= bus_send(old_bus@, target@, msg@));
                }
            },
        }
    }

    /// Takes the oldest message queued for agent `name`, if any.
    pub fn recv(&mut self, name: &str) -> (r: Option<String>)
        requires
            old(self).wf(),
        ensures
            final(self).wf(),
            (match r {
                Some(s) => Some(s@),
                None => None,
            }, final(self)@) == bus_recv(old(self)@, name@),
    {
        let ghost old_bus = *self;
        match self.find(name) {
            Some(i) => {
                proof {
                    old_bus.lemma_slot(i as int);
                }
                if self.queues[i].messages.len() == 0 {
                    return None;
                }
                let mut q = self.queues.remove(i);
                let ghost oldc = q.contents();
                let first = q.messages.remove(0);
                assert(q.contents() =~= oldc.drop_first());
                self.queues.insert(i, q);
                proof {
                    assert(self.queues@ =~= old_bus.queues@.update(i as int, q));
                    assert(self.wf());
                    assert forall|n: Seq<char>|
                        #![auto]
                        self.has_name(n) == old_bus.has_name(n) by {
                        if self.has_name(n) {
                            let k = choose|k: int|
                                0 <= k < self.queues@.len() && (#[trigger] self.queues@[k]).name@
                                    == n;
                            assert(old_bus.queues@[k].name@ == n);
                        }
                        if old_bus.has_name(n) {
                            let k = choose|k: int|
                                0 <= k < old_bus.queues@.len() && (#[trigger] old_bus.queues@[k]).name@
                                    == n;
                            assert(self.queues@[k].name@ == n);
                        }
                    }
                    assert forall|n: Seq<char>| #[trigger] self.has_name(n) implies self.queues@[self.slot(n)].contents()
                        == bus_recv(old_bus@, name@).1[n] by {
                        let k = self.slot(n);
                        self.lemma_slot(k);
                        old_bus.lemma_slot(k);
                    }
                    assert(self@ =~= bus_recv(old_bus@, name@).1);
                }
                Some(first)
            },
            None => None,
        }
    }
}

// ───────────────────────── laws ─────────────────────────

/// Sending to one agent leaves every other agent's inbox unchanged.
pub proof fn law_send_isolated(
    m: Map<Seq<char>, Seq<Seq<char>>>,
    target: Seq<char>,
    msg: Seq<char>,
    other: Seq<char>,
)
    requires
        other != target,
    ensures
        inbox_of(bus_send(m, target, msg), other) == inbox_of(m, other),
{
}

/// Messages are received in the order they were sent: after `msg` is sent,
/// the receiver first gets whatever was already pending, and `msg` itself
/// once the earlier messages are gone.
pub proof fn law_fifo(m: Map<Seq<char>, Seq<Seq<char>>>, target: Seq<char>, msg: Seq<char>)
    ensures
        inbox_of(m, target).len() == 0 ==> bus_recv(bus_send(m, target, msg), target).0 == Some(
            msg,
        ) && inbox_of(bus_recv(bus_send(m, target, msg), target).1, target).len() == 0,
        inbox_of(m, target).len() > 0 ==> bus_recv(bus_send(m, target, msg), target).0 == Some(
            inbox_of(m, target)[0],
        ) && inbox_of(bus_recv(bus_send(m, target, msg), target).1, target) == inbox_of(
            m,
            target,
        ).drop_first().push(msg),
{
    let q = inbox_of(m, target);
    if q.len() > 0 {
        assert(q.push(msg).drop_first() =~= q.drop_first().push(msg));
    } else {
        assert(q.push(msg).drop_first() =~= Seq::<Seq<char>>::empty());
    }
}

/// Receiving from an empty inbox yields nothing and changes nothing.
pub proof fn law_recv_empty(m: Map<Seq<char>, Seq<Seq<char>>>, name: Seq<char>)
    requires
        inbox_of(m, name).len() == 0,
    ensures
        bus_recv(m, name) == (None::<Seq<char>>, m),
{
}

/// A receive removes exactly the message it returns.
pub proof fn law_recv_removes_front(m: Map<Seq<char>, Seq<Seq<char>>>, name: Seq<char>)
    requires
        inbox_of(m, name).len() > 0,
    ensures
        seq![bus_recv(m, name).0->0] + inbox_of(bus_recv(m, name).1, name) == inbox_of(m, name),
{
    let q = inbox_of(m, name);
    assert(seq![q[0]] + q.drop_first() =~= q);
}

} // verus!
