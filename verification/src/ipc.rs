//! Endpoint message queues: a fixed-capacity ring of messages, first in,
//! first out. Admission is fair: a sender that already has a queued message
//! is refused until that message is taken, so one producer cannot fill an
//! endpoint and starve the others.
use vstd::prelude::*;
use crate::abi::UserChannelMessage;
use vstd::arithmetic::div_mod::{lemma_add_mod_noop_right, lemma_mod_add_multiples_vanish, lemma_small_mod};

verus! {

/// Some queued message comes from `sender`.
pub open spec fn has_sender(q: Seq<UserChannelMessage>, sender: u64) -> bool {
    exists|i: int| 0 <= i < q.len() && (#[trigger] q[i]).sender_pid == sender
}

/// No two queued messages share a sender.
pub open spec fn senders_distinct(q: Seq<UserChannelMessage>) -> bool {
    forall|i: int, j: int|
        0 <= i < q.len() && 0 <= j < q.len() && i != j ==> (#[trigger] q[i]).sender_pid != (#[trigger] q[j]).sender_pid
}

/// An index past the end of the ring by less than its length wraps once.
proof fn lemma_wrap(x: int, c: int)
    requires
        0 <= x < 2 * c,
        0 < c,
    ensures
        x % c == if x < c { x } else { x - c },
{
    if x < c {
        lemma_small_mod(x as nat, c as nat);
    } else {
        lemma_small_mod((x - c) as nat, c as nat);
        lemma_mod_add_multiples_vanish(x - c, c);
    }
}

pub struct ChannelQueue<const CAPACITY: usize> {
    messages: Vec<UserChannelMessage>,
    head: usize,
    len: usize,
}

impl<const CAPACITY: usize> ChannelQueue<CAPACITY> {
    /// The queued messages, oldest first.
    pub closed spec fn view(&self) -> Seq<UserChannelMessage> {
        Seq::new(self.len as nat, |i: int| self.messages@[(self.head + i) % (CAPACITY as int)])
    }

    /// The ring holds its capacity of slots, and no sender has two
    /// messages queued.
    pub closed spec fn wf(&self) -> bool {
        &&& self.messages@.len() == CAPACITY
        &&& self.len <= CAPACITY
        &&& (CAPACITY > 0 ==> self.head < CAPACITY)
        &&& (CAPACITY == 0 ==> self.head == 0 && self.len == 0)
        &&& senders_distinct(self@)
    }

    /// A well-formed queue holds at most its capacity, one message per
    /// sender.
    pub proof fn lemma_wf(&self)
        requires
            self.wf(),
        ensures
            self@.len() <= CAPACITY,
            senders_distinct(self@),
    {
    }

    pub fn new() -> (r: Self)
        ensures
            r.wf(),
            r@ == Seq::<UserChannelMessage>::empty(),
    {
        let mut messages: Vec<UserChannelMessage> = Vec::new();
        while messages.len() < CAPACITY
            invariant
                messages@.len() <= CAPACITY,
            decreases CAPACITY - messages@.len(),
        {
            messages.push(UserChannelMessage::empty());
        }
        let r = ChannelQueue { messages, head: 0, len: 0 };
        assert(r@ =~= Seq::<UserChannelMessage>::empty());
        r
    }

    /// Queues `message` at the back: refused when the queue is full or its
    /// sender already has a message queued.
    pub fn push(&mut self, message: UserChannelMessage) -> (r: bool)
        requires
            old(self).wf(),
        ensures
            final(self).wf(),
            r == (old(self)@.len() < CAPACITY && !has_sender(old(self)@, message.sender_pid)),
            r ==> final(self)@ == old(self)@.push(message),
            !r ==> final(self)@ == old(self)@,
    {
        if CAPACITY == 0 || self.len == CAPACITY || self.contains_sender(message.sender_pid) {
            return false;
        }
        let tail = if self.len < CAPACITY - self.head {
            self.head + self.len
        } else {
            self.len - (CAPACITY - self.head)
        };
        proof {
            lemma_wrap(self.head + self.len, CAPACITY as int);
        }
        let ghost before = self@;
        self.messages.set(tail, message);
        self.len += 1;
        proof {
            assert forall|i: int| 0 <= i < before.len() implies #[trigger] self@[i] == before[i] by {
                assert((self.head + i) % (CAPACITY as int) != (self.head + before.len()) % (CAPACITY as int)) by (nonlinear_arith)
                    requires
                        0 <= i < before.len(),
                        before.len() < CAPACITY,
                        0 <= self.head < CAPACITY;
            }
            assert(self@[before.len() as int] == message);
            assert(self@ =~= before.push(message));
            assert(senders_distinct(self@)) by {
                assert forall|i: int, j: int|
                    0 <= i < self@.len() && 0 <= j < self@.len() && i != j implies (#[trigger] self@[i]).sender_pid
                        != (#[trigger] self@[j]).sender_pid by {
                    if i == before.len() {
                        assert(before[j] == self@[j]);
                    } else if j == before.len() {
                        assert(before[i] == self@[i]);
                    }
                }
            }
        }
        true
    }

    /// Takes the oldest message.
    pub fn pop(&mut self) -> (r: Option<UserChannelMessage>)
        requires
            old(self).wf(),
        ensures
            final(self).wf(),
            old(self)@.len() == 0 ==> r is None && final(self)@ == old(self)@,
            old(self)@.len() > 0 ==> r == Some(old(self)@[0]) && final(self)@ == old(self)@.drop_first(),
    {
        if self.len == 0 {
            return None;
        }
        let ghost before = self@;
        proof {
            lemma_small_mod(self.head as nat, CAPACITY as nat);
        }
        let message = self.messages[self.head];
        assert(message == before[0]);
        self.head = if self.head + 1 == CAPACITY { 0 } else { self.head + 1 };
        proof {
            lemma_wrap(old(self).head + 1, CAPACITY as int);
        }
        self.len -= 1;
        proof {
            assert forall|i: int| 0 <= i < self@.len() implies #[trigger] self@[i] == before[i + 1] by {
                let h = old(self).head as int;
                let c = CAPACITY as int;
                lemma_add_mod_noop_right(i, h + 1, c);
                assert(((h + 1) % c + i) % c == (h + (i + 1)) % c);
            }
            assert(self@ =~= before.drop_first());
        }
        Some(message)
    }

    /// Whether `sender_pid` has a message queued.
    pub fn contains_sender(&self, sender_pid: u64) -> (r: bool)
        requires
            self.wf(),
        ensures
            r == has_sender(self@, sender_pid),
    {
        let mut offset: usize = 0;
        while offset < self.len
            invariant
                self.wf(),
                offset <= self.len,
                forall|i: int| 0 <= i < offset ==> (#[trigger] self@[i]).sender_pid != sender_pid,
            decreases self.len - offset,
        {
            let slot = if offset < CAPACITY - self.head {
                self.head + offset
            } else {
                offset - (CAPACITY - self.head)
            };
            proof {
                lemma_wrap(self.head + offset, CAPACITY as int);
            }
            assert(self.messages@[slot as int] == self@[offset as int]);
            if self.messages[slot].sender_pid == sender_pid {
                return true;
            }
            offset += 1;
        }
        false
    }

    pub fn len(&self) -> (r: usize)
        ensures
            r == self@.len(),
    {
        self.len
    }

    pub fn is_empty(&self) -> (r: bool)
        ensures
            r == (self@.len() == 0),
    {
        self.len == 0
    }
}

impl<const CAPACITY: usize> Default for ChannelQueue<CAPACITY> {
    fn default() -> (r: Self)
        ensures
            r.wf(),
            r@ == Seq::<UserChannelMessage>::empty(),
    {
        Self::new()
    }
}

} // verus!
