//! Messages between processes: one inbound queue for each registered
//! provider, filled by `send_message`, read without being consumed by
//! `receive_message`, and emptied message by message by `ack_message`.

use crate::syscall::ReceivedMessage;
use crate::syscall::RegisterState;
use crate::syscall::SystemCall;
use crate::syscall::SystemCallStatus;
use crate::wire::high_half;
use crate::wire::join_halves;
use crate::wire::low_half;
use crate::wire::uuid_as_u64_pair;
use crate::wire::uuid_from_u64_pair;
use vstd::prelude::*;

verus! {

/// A message that waits in a queue.
#[derive(Debug, PartialEq, Eq)]
pub struct Message {
    /// Identifier by which the receiver acknowledges the message.
    pub id: u64,
    /// The 128-bit identifier of the sender.
    pub origin: u128,
    /// The bytes sent.
    pub payload: Vec<u8>,
}

/// The inbound queue of one provider.
struct Mailbox {
    provider: u128,
    pending: Vec<Message>,
}

/// No two messages in `queue` carry the same identifier.
pub open spec fn distinct_ids(queue: Seq<Message>) -> bool {
    forall|i: int, j: int|
        0 <= i < queue.len() && 0 <= j < queue.len() && i != j ==> (#[trigger] queue[i]).id != (
        #[trigger] queue[j]).id
}

/// Some message in `queue` carries the identifier `id`.
pub open spec fn has_message(queue: Seq<Message>, id: u64) -> bool {
    exists|i: int| 0 <= i < queue.len() && (#[trigger] queue[i]).id == id
}

/// Position in `queue` of the message with identifier `id`.
pub open spec fn message_index(queue: Seq<Message>, id: u64) -> int {
    choose|i: int| 0 <= i < queue.len() && (#[trigger] queue[i]).id == id
}

/// `queue` without the message with identifier `id`.
pub open spec fn without_message(queue: Seq<Message>, id: u64) -> Seq<Message> {
    if has_message(queue, id) {
        queue.remove(message_index(queue, id))
    } else {
        queue
    }
}

/// No two queues in `boxes` belong to the same provider.
spec fn distinct_providers(boxes: Seq<Mailbox>) -> bool {
    forall|i: int, j: int|
        0 <= i < boxes.len() && 0 <= j < boxes.len() && i != j ==> (#[trigger] boxes[i]).provider != (
        #[trigger] boxes[j]).provider
}

/// Some queue in `boxes` belongs to `provider`.
spec fn has_box(boxes: Seq<Mailbox>, provider: u128) -> bool {
    exists|i: int| 0 <= i < boxes.len() && (#[trigger] boxes[i]).provider == provider
}

/// Position in `boxes` of the queue that belongs to `provider`.
spec fn box_index(boxes: Seq<Mailbox>, provider: u128) -> int {
    choose|i: int| 0 <= i < boxes.len() && (#[trigger] boxes[i]).provider == provider
}

/// Mathematical state of the message channel.
pub struct ChannelState {
    /// For each registered provider, the messages that wait for it, oldest
    /// first.
    pub queues: Map<u128, Seq<Message>>,
    /// The identifier of the message sent last.
    pub last_id: nat,
}

impl ChannelState {
    /// A channel without providers.
    pub open spec fn initial() -> ChannelState {
        ChannelState { queues: Map::empty(), last_id: 0 }
    }

    /// Every waiting message carries an identifier that has been issued, and
    /// within a queue no identifier occurs twice.
    pub open spec fn wf(self) -> bool {
        &&& self.last_id <= u64::MAX
        &&& forall|provider: u128| #[trigger]
            self.queues.contains_key(provider) ==> distinct_ids(self.queues[provider])
                && forall|i: int|
                0 <= i < self.queues[provider].len() ==> 1 <= (
                #[trigger] self.queues[provider][i]).id <= self.last_id
    }

    /// Whether a further message can be given an identifier.
    pub open spec fn can_send(self) -> bool {
        self.last_id < u64::MAX
    }

    /// The state after `provider` is registered.
    pub open spec fn after_register(self, provider: u128) -> ChannelState {
        if self.queues.contains_key(provider) {
            self
        } else {
            ChannelState { queues: self.queues.insert(provider, Seq::empty()), ..self }
        }
    }

    /// The state after `provider` is taken out with the messages that wait
    /// for it.
    pub open spec fn after_unregister(self, provider: u128) -> ChannelState {
        ChannelState { queues: self.queues.remove(provider), ..self }
    }

    /// What sending to `target` returns: the identifier of the new message,
    /// or `Failure` where `target` is not registered.
    pub open spec fn send_outcome(self, target: u128) -> Result<u64, SystemCallStatus> {
        if self.queues.contains_key(target) {
            Ok((self.last_id + 1) as u64)
        } else {
            Err(SystemCallStatus::Failure)
        }
    }

    /// The state after `origin` sends `payload` to `target`.
    pub open spec fn after_send(self, origin: u128, target: u128, payload: Vec<u8>) -> ChannelState {
        if self.queues.contains_key(target) {
            ChannelState {
                queues: self.queues.insert(
                    target,
                    self.queues[target].push(
                        Message { id: (self.last_id + 1) as u64, origin: origin, payload: payload },
                    ),
                ),
                last_id: self.last_id + 1,
            }
        } else {
            self
        }
    }

    /// The message that `provider` receives next: the oldest that it has not
    /// acknowledged.
    pub open spec fn next_message(self, provider: u128) -> Option<Message> {
        if self.queues.contains_key(provider) && self.queues[provider].len() > 0 {
            Some(self.queues[provider][0])
        } else {
            None
        }
    }

    /// A message with identifier `id` waits for `provider`.
    pub open spec fn is_pending(self, provider: u128, id: u64) -> bool {
        self.queues.contains_key(provider) && has_message(self.queues[provider], id)
    }

    /// The state after `provider` acknowledges the message `id`.
    pub open spec fn after_ack(self, provider: u128, id: u64) -> ChannelState {
        if self.is_pending(provider, id) {
            ChannelState {
                queues: self.queues.insert(provider, without_message(self.queues[provider], id)),
                ..self
            }
        } else {
            self
        }
    }
}

/// The message channel.
pub struct MessageChannel {
    boxes: Vec<Mailbox>,
    last_id: u64,
}

impl View for MessageChannel {
    type V = ChannelState;

    closed spec fn view(&self) -> ChannelState {
        ChannelState {
            queues: Map::new(
                |provider: u128| has_box(self.boxes@, provider),
                |provider: u128| self.boxes@[box_index(self.boxes@, provider)].pending@,
            ),
            last_id: self.last_id as nat,
        }
    }
}

impl MessageChannel {
    #[verifier::type_invariant]
    spec fn providers_are_distinct(self) -> bool {
        distinct_providers(self.boxes@)
    }

    /// A channel without providers.
    pub fn new() -> (channel: MessageChannel)
        ensures
            channel@ == ChannelState::initial(),
            channel@.wf(),
    {
        let channel = MessageChannel { boxes: Vec::new(), last_id: 0 };
        assert(channel@.queues =~= Map::empty());
        channel
    }

    /// Whether `send_message` can be called.
    pub fn can_send(&self) -> (r: bool)
        ensures
            r == self@.can_send(),
    {
        self.last_id < u64::MAX
    }

    fn position(&self, provider: u128) -> (found: Option<usize>)
        ensures
            found is Some <==> has_box(self.boxes@, provider),
            found matches Some(i) ==> i < self.boxes@.len() && self.boxes@[i as int].provider
                == provider && i == box_index(self.boxes@, provider),
    {
        proof {
            use_type_invariant(self);
        }
        let mut i: usize = 0;
        while i < self.boxes.len()
            invariant
                i <= self.boxes.len(),
                distinct_providers(self.boxes@),
                forall|j: int| 0 <= j < i ==> self.boxes@[j].provider != provider,
            decreases self.boxes.len() - i,
        {
            if self.boxes[i].provider == provider {
                proof {
                    let chosen = box_index(self.boxes@, provider);
                    assert(self.boxes@[i as int].provider == provider);
                    assert(self.boxes@[chosen].provider == provider);
                }
                return Some(i);
            }
            i += 1;
        }
        None
    }

    /// Whether `provider` is registered.
    pub fn is_registered(&self, provider: u128) -> (r: bool)
        ensures
            r == self@.queues.contains_key(provider),
    {
        self.position(provider).is_some()
    }

    /// Number of messages that wait for `provider`; zero if it is not
    /// registered.
    pub fn pending(&self, provider: u128) -> (n: usize)
        ensures
            n == if self@.queues.contains_key(provider) {
                self@.queues[provider].len()
            } else {
                0
            },
    {
        match self.position(provider) {
            Some(i) => self.boxes[i].pending.len(),
            None => 0,
        }
    }

    /// Gives `provider` an empty queue. Returns `false` and changes nothing
    /// if it has one.
    pub fn register_provider(&mut self, provider: u128) -> (registered: bool)
        ensures
            registered == !old(self)@.queues.contains_key(provider),
            final(self)@ == old(self)@.after_register(provider),
            old(self)@.wf() ==> final(self)@.wf(),
    {
        proof {
            use_type_invariant(&*self);
        }
        if self.position(provider).is_some() {
            return false;
        }
        let ghost before = self.boxes@;
        let mut boxes: Vec<Mailbox> = Vec::new();
        core::mem::swap(&mut self.boxes, &mut boxes);
        boxes.push(Mailbox { provider, pending: Vec::new() });
        proof {
            let after = boxes@;
            let last = before.len() as int;
            assert(after[last].provider == provider);
            assert forall|a: int, b: int|
                0 <= a < after.len() && 0 <= b < after.len() && a != b implies (
            #[trigger] after[a]).provider != (#[trigger] after[b]).provider by {
                if a < last {
                    assert(after[a] == before[a]);
                }
                if b < last {
                    assert(after[b] == before[b]);
                }
            }
        }
        self.boxes = boxes;
        proof {
            let after = self.boxes@;
            let last = before.len() as int;
            assert forall|p: u128| has_box(after, p) <==> (has_box(before, p) || p == provider) by {
                if has_box(after, p) {
                    let k = box_index(after, p);
                    if k < last {
                        assert(before[k].provider == p);
                    }
                }
                if has_box(before, p) {
                    let k = box_index(before, p);
                    assert(after[k].provider == p);
                }
            }
            assert forall|p: u128| has_box(after, p) implies #[trigger] self@.queues[p] == old(
                self,
            )@.after_register(provider).queues[p] by {
                let k = box_index(after, p);
                if p != provider {
                    let k0 = box_index(before, p);
                    assert(after[k0].provider == p);
                    assert(k == k0);
                } else {
                    assert(k == last);
                }
            }
            assert(self@.queues =~= old(self)@.after_register(provider).queues);
        }
        true
    }

    /// Takes `provider` out together with the messages that wait for it.
    /// Returns `false` and changes nothing if it is not registered.
    pub fn unregister_provider(&mut self, provider: u128) -> (removed: bool)
        ensures
            removed == old(self)@.queues.contains_key(provider),
            final(self)@ == old(self)@.after_unregister(provider),
            old(self)@.wf() ==> final(self)@.wf(),
    {
        proof {
            use_type_invariant(&*self);
        }
        let ghost before = self.boxes@;
        match self.position(provider) {
            None => {
                assert(self@.queues =~= old(self)@.after_unregister(provider).queues);
                false
            },
            Some(i) => {
                let mut boxes: Vec<Mailbox> = Vec::new();
                core::mem::swap(&mut self.boxes, &mut boxes);
                let _ = boxes.remove(i);
                proof {
                    let after = boxes@;
                    assert forall|a: int, b: int|
                        0 <= a < after.len() && 0 <= b < after.len() && a != b implies (
                    #[trigger] after[a]).provider != (#[trigger] after[b]).provider by {
                        let a0 = if a < i { a } else { a + 1 };
                        let b0 = if b < i { b } else { b + 1 };
                        assert(after[a] == before[a0]);
                        assert(after[b] == before[b0]);
                    }
                }
                self.boxes = boxes;
                proof {
                    let after = self.boxes@;
                    assert forall|p: u128| has_box(after, p) <==> (has_box(before, p) && p
                        != provider) by {
                        if has_box(after, p) {
                            let k = box_index(after, p);
                            let k0 = if k < i { k } else { k + 1 };
                            assert(before[k0].provider == p);
                        }
                        if has_box(before, p) && p != provider {
                            let k0 = box_index(before, p);
                            let k = if k0 < i { k0 } else { k0 - 1 };
                            assert(after[k].provider == p);
                        }
                    }
                    assert forall|p: u128| has_box(after, p) implies #[trigger] self@.queues[p]
                        == old(self)@.queues[p] by {
                        let k = box_index(after, p);
                        let k0 = if k < i { k } else { k + 1 };
                        assert(before[k0].provider == p);
                        assert(box_index(before, p) == k0) by {
                            let c = box_index(before, p);
                            assert(before[c].provider == p);
                        }
                    }
                    assert(self@.queues =~= old(self)@.after_unregister(provider).queues);
                }
                true
            },
        }
    }

    /// Queues `payload` from `origin` for `target` and returns the
    /// identifier of the message. Fails with `Failure`, changing nothing, if
    /// `target` is not registered.
    pub fn send_message(&mut self, origin: u128, target: u128, payload: Vec<u8>) -> (r: Result<
        u64,
        SystemCallStatus,
    >)
        requires
            old(self)@.wf(),
            old(self)@.can_send(),
        ensures
            r == old(self)@.send_outcome(target),
            final(self)@ == old(self)@.after_send(origin, target, payload),
            final(self)@.wf(),
    {
        proof {
            use_type_invariant(&*self);
        }
        let ghost before = self.boxes@;
        let i = match self.position(target) {
            Some(i) => i,
            None => {
                return Err(SystemCallStatus::Failure);
            },
        };
        let id = self.last_id + 1;
        let mut boxes: Vec<Mailbox> = Vec::new();
        core::mem::swap(&mut self.boxes, &mut boxes);
        let mut mailbox = take_box(&mut boxes, i);
        mailbox.pending.push(Message { id, origin, payload });
        put_box(&mut boxes, i, mailbox);
        self.boxes = boxes;
        self.last_id = id;
        proof {
            let after = self.boxes@;
            let goal = old(self)@.after_send(origin, target, payload);
            lemma_same_providers(before, after);
            assert forall|p: u128| has_box(after, p) implies #[trigger] self@.queues[p]
                == goal.queues[p] by {
                let k = box_index(after, p);
                assert(before[k].provider == p);
                let c = box_index(before, p);
                assert(before[c].provider == p);
            }
            assert(self@.queues =~= goal.queues);
            assert forall|p: u128| #[trigger] goal.queues.contains_key(p) implies distinct_ids(
                goal.queues[p],
            ) && forall|m: int|
                0 <= m < goal.queues[p].len() ==> 1 <= (#[trigger] goal.queues[p][m]).id
                    <= goal.last_id by {
                assert(old(self)@.queues.contains_key(p));
                let q0 = old(self)@.queues[p];
                let q = goal.queues[p];
                if p == target {
                    assert forall|a: int, b: int|
                        0 <= a < q.len() && 0 <= b < q.len() && a != b implies (#[trigger] q[a]).id
                        != (#[trigger] q[b]).id by {
                        if a < q0.len() {
                            assert(q[a] == q0[a]);
                        }
                        if b < q0.len() {
                            assert(q[b] == q0[b]);
                        }
                    }
                    assert forall|m: int| 0 <= m < q.len() implies 1 <= (#[trigger] q[m]).id
                        <= goal.last_id by {
                        if m < q0.len() {
                            assert(q[m] == q0[m]);
                        }
                    }
                }
            }
        }
        Ok(id)
    }

    /// The oldest message that waits for `provider`, which stays in the
    /// queue; `None` if nothing waits or `provider` is not registered.
    pub fn receive_message(&self, provider: u128) -> (message: Option<&Message>)
        ensures
            message is Some <==> self@.next_message(provider) is Some,
            message matches Some(m) ==> Some(*m) == self@.next_message(provider),
    {
        match self.position(provider) {
            Some(i) => {
                if self.boxes[i].pending.len() > 0 {
                    Some(&self.boxes[i].pending[0])
                } else {
                    None
                }
            },
            None => None,
        }
    }

    /// Removes the message `id` from the queue of `provider`. Returns
    /// `false` and changes nothing if no such message waits.
    pub fn ack_message(&mut self, provider: u128, id: u64) -> (acknowledged: bool)
        requires
            old(self)@.wf(),
        ensures
            acknowledged == old(self)@.is_pending(provider, id),
            final(self)@ == old(self)@.after_ack(provider, id),
            final(self)@.wf(),
            !final(self)@.is_pending(provider, id),
    {
        proof {
            use_type_invariant(&*self);
            lemma_ack_removes(old(self)@, provider, id);
        }
        let ghost before = self.boxes@;
        let i = match self.position(provider) {
            Some(i) => i,
            None => {
                return false;
            },
        };
        proof {
            assert(old(self)@.queues.contains_key(provider));
            assert(old(self)@.queues[provider] == self.boxes@[i as int].pending@);
        }
        let found = find_message(&self.boxes[i].pending, id);
        let k = match found {
            Some(k) => k,
            None => {
                return false;
            },
        };
        let mut boxes: Vec<Mailbox> = Vec::new();
        core::mem::swap(&mut self.boxes, &mut boxes);
        let mut mailbox = take_box(&mut boxes, i);
        let _ = mailbox.pending.remove(k);
        put_box(&mut boxes, i, mailbox);
        self.boxes = boxes;
        proof {
            let after = self.boxes@;
            let goal = old(self)@.after_ack(provider, id);
            lemma_same_providers(before, after);
            assert forall|p: u128| has_box(after, p) implies #[trigger] self@.queues[p]
                == goal.queues[p] by {
                let n = box_index(after, p);
                assert(before[n].provider == p);
                let c = box_index(before, p);
                assert(before[c].provider == p);
            }
            assert(self@.queues =~= goal.queues);
        }
        true
    }
}

/// Position in `queue` of the message with identifier `id`, if any.
fn find_message(queue: &Vec<Message>, id: u64) -> (found: Option<usize>)
    requires
        distinct_ids(queue@),
    ensures
        found is Some <==> has_message(queue@, id),
        found matches Some(k) ==> k < queue@.len() && k == message_index(queue@, id),
{
    let mut k: usize = 0;
    while k < queue.len()
        invariant
            k <= queue.len(),
            distinct_ids(queue@),
            forall|j: int| 0 <= j < k ==> queue@[j].id != id,
        decreases queue.len() - k,
    {
        if queue[k].id == id {
            proof {
                let chosen = message_index(queue@, id);
                assert(queue@[k as int].id == id);
                assert(queue@[chosen].id == id);
            }
            return Some(k);
        }
        k += 1;
    }
    None
}

/// Takes the queue at position `index` out of `boxes`, leaving an empty
/// queue of the same provider in its place.
fn take_box(boxes: &mut Vec<Mailbox>, index: usize) -> (mailbox: Mailbox)
    requires
        index < old(boxes)@.len(),
    ensures
        mailbox == old(boxes)@[index as int],
        final(boxes)@.len() == old(boxes)@.len(),
        final(boxes)@[index as int].provider == mailbox.provider,
        forall|j: int|
            0 <= j < old(boxes)@.len() && j != index ==> final(boxes)@[j] == old(boxes)@[j],
{
    let provider = boxes[index].provider;
    boxes.push(Mailbox { provider, pending: Vec::new() });
    boxes.swap_remove(index)
}

/// Puts `mailbox` at position `index` of `boxes`.
fn put_box(boxes: &mut Vec<Mailbox>, index: usize, mailbox: Mailbox)
    requires
        index < old(boxes)@.len(),
    ensures
        final(boxes)@ == old(boxes)@.update(index as int, mailbox),
{
    boxes.push(mailbox);
    let _ = boxes.swap_remove(index);
}

/// Two lists of queues with the same providers at the same positions register
/// the same providers, and distinctness carries over.
proof fn lemma_same_providers(before: Seq<Mailbox>, after: Seq<Mailbox>)
    requires
        before.len() == after.len(),
        forall|j: int| 0 <= j < before.len() ==> (#[trigger] after[j]).provider == before[j].provider,
        distinct_providers(before),
    ensures
        distinct_providers(after),
        forall|p: u128| has_box(after, p) <==> has_box(before, p),
        forall|p: u128| has_box(after, p) ==> box_index(after, p) == box_index(before, p),
{
    assert forall|a: int, b: int|
        0 <= a < after.len() && 0 <= b < after.len() && a != b implies (#[trigger] after[a]).provider
        != (#[trigger] after[b]).provider by {
        assert(after[a].provider == before[a].provider);
        assert(after[b].provider == before[b].provider);
    }
    assert forall|p: u128| has_box(after, p) <==> has_box(before, p) by {
        if has_box(after, p) {
            let k = box_index(after, p);
            assert(before[k].provider == p);
        }
        if has_box(before, p) {
            let k = box_index(before, p);
            assert(after[k].provider == p);
        }
    }
    assert forall|p: u128| has_box(after, p) implies box_index(after, p) == box_index(
        before,
        p,
    ) by {
        let k = box_index(after, p);
        let c = box_index(before, p);
        assert(before[k].provider == p);
        assert(before[c].provider == p);
    }
}

/// Acknowledging a message takes exactly that message out of its queue and
/// keeps the channel consistent.
pub proof fn lemma_ack_removes(s: ChannelState, provider: u128, id: u64)
    requires
        s.wf(),
    ensures
        s.after_ack(provider, id).wf(),
        !s.after_ack(provider, id).is_pending(provider, id),
        forall|other: u64|
            other != id ==> (s.after_ack(provider, id).is_pending(provider, other) <==> s.is_pending(
                provider,
                other,
            )),
{
    let t = s.after_ack(provider, id);
    if s.is_pending(provider, id) {
        let q0 = s.queues[provider];
        let k = message_index(q0, id);
        let q = q0.remove(k);
        assert(t.queues[provider] == q);
        assert forall|a: int| 0 <= a < q.len() implies #[trigger] q[a] == q0[if a < k {
            a
        } else {
            a + 1
        }] by {}
        assert forall|a: int, b: int|
            0 <= a < q.len() && 0 <= b < q.len() && a != b implies (#[trigger] q[a]).id != (
        #[trigger] q[b]).id by {
            let a0 = if a < k { a } else { a + 1 };
            let b0 = if b < k { b } else { b + 1 };
            assert(q[a] == q0[a0]);
            assert(q[b] == q0[b0]);
        }
        if has_message(q, id) {
            let a = message_index(q, id);
            let a0 = if a < k { a } else { a + 1 };
            assert(q[a] == q0[a0]);
            assert(q0[k].id == id);
        }
        assert forall|other: u64| other != id implies (has_message(q, other) <==> has_message(
            q0,
            other,
        )) by {
            if has_message(q, other) {
                let a = message_index(q, other);
                let a0 = if a < k { a } else { a + 1 };
                assert(q[a] == q0[a0]);
            }
            if has_message(q0, other) {
                let a0 = message_index(q0, other);
                assert(a0 != k);
                let a = if a0 < k { a0 } else { a0 - 1 };
                assert(q[a] == q0[a0]);
            }
        }
        assert forall|p: u128| #[trigger] t.queues.contains_key(p) implies distinct_ids(
            t.queues[p],
        ) && forall|m: int|
            0 <= m < t.queues[p].len() ==> 1 <= (#[trigger] t.queues[p][m]).id <= t.last_id by {
            assert(s.queues.contains_key(p));
            if p == provider {
                assert forall|m: int| 0 <= m < q.len() implies 1 <= (#[trigger] q[m]).id
                    <= t.last_id by {
                    let m0 = if m < k { m } else { m + 1 };
                    assert(q[m] == q0[m0]);
                }
            }
        }
    }
}

/// A message that has not been acknowledged still waits after any other
/// message of the same provider is acknowledged, after any message is sent,
/// and after a receive, which changes nothing: the oldest such message is what
/// the next receive returns.
pub proof fn law_unacknowledged_message_stays(
    s: ChannelState,
    provider: u128,
    id: u64,
    other: u64,
    origin: u128,
    target: u128,
    payload: Vec<u8>,
)
    requires
        s.wf(),
        s.is_pending(provider, id),
        other != id,
    ensures
        s.next_message(provider) is Some,
        s.after_ack(provider, other).is_pending(provider, id),
        s.after_send(origin, target, payload).is_pending(provider, id),
        s.queues[provider][0].id == id ==> s.after_send(origin, target, payload).next_message(
            provider,
        ) == s.next_message(provider),
{
    lemma_ack_removes(s, provider, other);
    let q0 = s.queues[provider];
    let k = message_index(q0, id);
    assert(q0[k].id == id);
    let t = s.after_send(origin, target, payload);
    assert(t.queues[provider][k].id == id);
}

/// Acknowledging a message a second time changes nothing.
pub proof fn law_ack_is_idempotent(s: ChannelState, provider: u128, id: u64)
    requires
        s.wf(),
    ensures
        !s.after_ack(provider, id).is_pending(provider, id),
        s.after_ack(provider, id).after_ack(provider, id) == s.after_ack(provider, id),
{
    lemma_ack_removes(s, provider, id);
}

/// A message sent to a registered provider is the next that it receives once
/// it has acknowledged everything older.
pub proof fn law_sent_message_arrives(s: ChannelState, origin: u128, target: u128, payload: Vec<u8>)
    requires
        s.wf(),
        s.can_send(),
        s.queues.contains_key(target),
    ensures
        ({
            let t = s.after_send(origin, target, payload);
            let sent = Message { id: (s.last_id + 1) as u64, origin: origin, payload: payload };
            &&& t.is_pending(target, sent.id)
            &&& !s.is_pending(target, sent.id)
            &&& s.queues[target].len() == 0 ==> t.next_message(target) == Some(sent)
        }),
{
    let t = s.after_send(origin, target, payload);
    let id = (s.last_id + 1) as u64;
    let q = t.queues[target];
    assert(q[q.len() - 1].id == id);
    if has_message(s.queues[target], id) {
        let k = message_index(s.queues[target], id);
        assert(s.queues[target][k].id <= s.last_id);
    }
}

/// Writes into `state` the reply that hands `message`, whose payload lies at
/// `ptr` in the receiver's address space, to the receiver: status zero, the
/// sender in `rdi` and `rsi`, the payload's address and length in `rdx` and
/// `rcx`, and the identifier to acknowledge in `r8`.
pub fn deliver_message(state: &mut RegisterState, message: &Message, ptr: u64)
    ensures
        *final(state) == (RegisterState {
            rax: 0,
            rdi: high_half(message.origin),
            rsi: low_half(message.origin),
            rdx: ptr,
            rcx: message.payload@.len() as u64,
            r8: message.id,
        }),
        SystemCall::message_in(*final(state)) == Ok::<Option<ReceivedMessage>, SystemCallStatus>(
            Some(
                ReceivedMessage {
                    origin: message.origin,
                    ptr: ptr,
                    len: message.payload@.len() as u64,
                },
            ),
        ),
{
    let (uuid_hi, uuid_lo) = uuid_as_u64_pair(message.origin);
    state.rax = 0;
    state.rdi = uuid_hi;
    state.rsi = uuid_lo;
    state.rdx = ptr;
    state.rcx = message.payload.len() as u64;
    state.r8 = message.id;
    proof {
        crate::wire::law_halves_round_trip(message.origin, 0, 0);
    }
}

/// Writes into `state` the reply that tells the receiver that nothing waits.
pub fn deliver_nothing(state: &mut RegisterState)
    ensures
        *final(state) == (RegisterState { rax: SystemCallStatus::DoNothing.raw(), ..*old(state) }),
        SystemCall::message_in(*final(state)) == Ok::<Option<ReceivedMessage>, SystemCallStatus>(
            None,
        ),
{
    state.rax = SystemCallStatus::DoNothing.into();
}

/// The provider that a send request in `state` addresses.
pub fn message_target(state: &RegisterState) -> (target: u128)
    ensures
        target == join_halves(state.rsi, state.rdx),
{
    uuid_from_u64_pair(state.rsi, state.rdx)
}

} // verus!
