//! A fan-out channel: every message sent is queued, as a copy of its own,
//! for each subscriber, and each subscriber drains its queue when it likes.
//!
//! The channel is a plain value, and each queue is a vector that the channel
//! owns, so that what every queue holds can be stated call by call. Callers
//! that share the channel between threads keep it behind one lock, so that
//! every call below is one exclusive region.

use vstd::prelude::*;

verus! {

/// A message that could not be queued for one subscriber.
#[derive(Debug)]
pub struct SendError<T>(pub T);

/// What a channel holds, as plain sequences indexed by subscriber id.
pub struct ChannelView<T> {
    /// The messages waiting for each id that was ever handed out, oldest first.
    pub queues: Seq<Seq<T>>,
    /// Whether each id is held by a subscriber now.
    pub active: Seq<bool>,
    /// The ids that were given back and wait for reuse, oldest first.
    pub free: Seq<usize>,
}

/// The number of `true` entries.
pub open spec fn live_count(active: Seq<bool>) -> nat
    decreases active.len(),
{
    if active.len() == 0 {
        0
    } else {
        live_count(active.drop_last()) + if active.last() {
            1nat
        } else {
            0nat
        }
    }
}

impl<T> ChannelView<T> {
    /// The channel that nobody has subscribed to yet.
    pub open spec fn fresh() -> Self {
        ChannelView { queues: Seq::empty(), active: Seq::empty(), free: Seq::empty() }
    }

    /// Every id has a queue and a flag, and fits the machine; the free list
    /// names each inactive id once, and no other id.
    pub open spec fn wf(self) -> bool {
        &&& self.queues.len() == self.active.len()
        &&& self.queues.len() <= usize::MAX
        &&& self.free.no_duplicates()
        &&& forall|k: int|
            0 <= k < self.free.len() ==> (#[trigger] self.free[k]) < self.active.len()
                && !self.active[self.free[k] as int]
        &&& forall|i: int|
            0 <= i < self.active.len() && !(#[trigger] self.active[i]) ==> self.free.contains(
                i as usize,
            )
    }

    /// Whether `id` is held by a subscriber.
    pub open spec fn subscribed(self, id: usize) -> bool {
        id < self.active.len() && self.active[id as int]
    }

    /// The number of subscribers.
    pub open spec fn count(self) -> nat {
        live_count(self.active)
    }

    /// The messages waiting for `id`; none for an id that was never handed out.
    pub open spec fn queue(self, id: usize) -> Seq<T> {
        if id < self.queues.len() {
            self.queues[id as int]
        } else {
            Seq::empty()
        }
    }

    /// The id that the next subscriber gets: the one given back longest ago,
    /// or, where none waits, the next id never handed out.
    pub open spec fn next_id(self) -> usize {
        if self.free.len() > 0 {
            self.free[0]
        } else {
            self.queues.len() as usize
        }
    }

    /// The channel after one more subscriber has joined. A reused id starts
    /// with an empty queue, whatever was left in it.
    pub open spec fn after_subscribe(self) -> Self {
        if self.free.len() > 0 {
            ChannelView {
                queues: self.queues.update(self.free[0] as int, Seq::empty()),
                active: self.active.update(self.free[0] as int, true),
                free: self.free.drop_first(),
            }
        } else {
            ChannelView {
                queues: self.queues.push(Seq::empty()),
                active: self.active.push(true),
                free: self.free,
            }
        }
    }

    /// The channel after `id` has been given back. Its queue stays as it is
    /// until it is drained or the id is handed out again. Giving back an id
    /// that nobody holds changes nothing.
    pub open spec fn after_unsubscribe(self, id: usize) -> Self {
        if self.subscribed(id) {
            ChannelView {
                queues: self.queues,
                active: self.active.update(id as int, false),
                free: self.free.push(id),
            }
        } else {
            self
        }
    }

    /// The channel after the queue of `id` has been drained.
    pub open spec fn after_receive(self, id: usize) -> Self {
        if id < self.queues.len() {
            ChannelView {
                queues: self.queues.update(id as int, Seq::empty()),
                active: self.active,
                free: self.free,
            }
        } else {
            self
        }
    }
}

impl<T: Clone> ChannelView<T> {
    /// Whether `after` is this channel with one copy of `msg` put at the end
    /// of the queue of every subscriber, and nothing else changed.
    pub open spec fn delivers(self, msg: T, after: Self) -> bool {
        &&& after.active == self.active
        &&& after.free == self.free
        &&& after.queues.len() == self.queues.len()
        &&& forall|i: int|
            0 <= i < self.queues.len() ==> if i < self.active.len() && self.active[i] {
                &&& (#[trigger] after.queues[i]).len() == self.queues[i].len() + 1
                &&& after.queues[i].drop_last() == self.queues[i]
                &&& cloned::<T>(msg, after.queues[i].last())
            } else {
                after.queues[i] == self.queues[i]
            }
    }
}

/// The fan-out channel itself.
pub struct BroadcastChannel<T: Clone> {
    queues: Vec<Vec<T>>,
    active: Vec<bool>,
    free_nums: Vec<usize>,
    num_clients: usize,
}

impl<T: Clone> View for BroadcastChannel<T> {
    type V = ChannelView<T>;

    closed spec fn view(&self) -> ChannelView<T> {
        ChannelView {
            queues: Seq::new(self.queues@.len(), |i: int| self.queues@[i]@),
            active: self.active@,
            free: self.free_nums@,
        }
    }
}

proof fn lemma_live_count_bound(active: Seq<bool>)
    ensures
        live_count(active) <= active.len(),
    decreases active.len(),
{
    if active.len() > 0 {
        lemma_live_count_bound(active.drop_last());
    }
}

proof fn lemma_live_count_update(active: Seq<bool>, i: int, flag: bool)
    requires
        0 <= i < active.len(),
    ensures
        live_count(active.update(i, flag)) + (if active[i] {
            1int
        } else {
            0int
        }) == live_count(active) + (if flag {
            1int
        } else {
            0int
        }),
    decreases active.len(),
{
    let changed = active.update(i, flag);
    if i == active.len() - 1 {
        assert(changed.drop_last() =~= active.drop_last());
    } else {
        lemma_live_count_update(active.drop_last(), i, flag);
        assert(changed.drop_last() =~= active.drop_last().update(i, flag));
    }
}

impl<T: Clone> Default for BroadcastChannel<T> {
    fn default() -> (channel: Self)
        ensures
            channel.wf(),
            channel@ == ChannelView::<T>::fresh(),
    {
        Self::new()
    }
}

impl<T: Clone> BroadcastChannel<T> {
    /// What every channel keeps: its view is well formed, and the subscriber
    /// counter agrees with the flags.
    pub closed spec fn wf(&self) -> bool {
        &&& self@.wf()
        &&& self.num_clients == live_count(self.active@)
    }

    /// The view of a well-formed channel is well formed.
    pub proof fn lemma_wf_view(&self)
        requires
            self.wf(),
        ensures
            self@.wf(),
    {
    }

    /// A channel without subscribers.
    pub fn new() -> (channel: Self)
        ensures
            channel.wf(),
            channel@ == ChannelView::<T>::fresh(),
    {
        let channel = Self {
            queues: Vec::new(),
            active: Vec::new(),
            free_nums: Vec::new(),
            num_clients: 0,
        };
        assert(channel@.queues =~= Seq::<Seq<T>>::empty());
        channel
    }

    /// Registers a subscriber and returns its id. The id is not held by
    /// anyone else: it is the one given back longest ago, with its queue
    /// cleared, or the next id never handed out.
    pub fn subscribe(&mut self) -> (id: usize)
        requires
            old(self).wf(),
        ensures
            final(self).wf(),
            id == old(self)@.next_id(),
            final(self)@ == old(self)@.after_subscribe(),
            !old(self)@.subscribed(id),
            final(self)@.subscribed(id),
            final(self)@.queue(id) == Seq::<T>::empty(),
    {
        proof {
            lemma_live_count_bound(self.active@);
        }
        if self.free_nums.len() == 0 {
            let id = self.queues.len();
            self.queues.push(Vec::new());
            self.active.push(true);
            let total = self.active.len();
            assert(self.num_clients < total);
            self.num_clients = self.num_clients + 1;
            proof {
                assert(self.active@.drop_last() =~= old(self).active@);
                assert(self@.queues =~= old(self)@.queues.push(Seq::empty()));
                assert forall|i: int|
                    0 <= i < self.active@.len() && !(#[trigger] self.active@[i]) implies self.free_nums@.contains(
                    i as usize,
                ) by {
                    assert(!old(self)@.active[i]);
                }
            }
            id
        } else {
            let id = self.free_nums.remove(0);
            assert(old(self)@.free[0] == id);
            assert(!old(self)@.active[id as int]);
            let mut empty: Vec<T> = Vec::new();
            std::mem::swap(&mut empty, &mut self.queues[id]);
            self.active.set(id, true);
            let total = self.active.len();
            proof {
                lemma_live_count_update(old(self).active@, id as int, true);
                lemma_live_count_bound(self.active@);
            }
            assert(self.num_clients < total);
            self.num_clients = self.num_clients + 1;
            proof {
                assert(self@.queues =~= old(self)@.queues.update(id as int, Seq::empty()));
                assert(self.free_nums@ =~= old(self)@.free.drop_first());
                assert forall|k: int| 0 <= k < self.free_nums@.len() implies (
                #[trigger] self.free_nums@[k]) < self.active@.len()
                    && !self.active@[self.free_nums@[k] as int] by {
                    assert(self.free_nums@[k] == old(self)@.free[k + 1]);
                }
                assert forall|i: int|
                    0 <= i < self.active@.len() && !(#[trigger] self.active@[i]) implies self.free_nums@.contains(
                    i as usize,
                ) by {
                    let other = i as usize;
                    assert(other != id);
                    assert(!old(self)@.active[i]);
                    assert(old(self)@.free.contains(other));
                    let k = choose|k: int|
                        0 <= k < old(self)@.free.len() && old(self)@.free[k] == other;
                    assert(k > 0);
                    assert(self.free_nums@[k - 1] == other);
                }
            }
            id
        }
    }

    /// Gives the id back. Nothing more is delivered to it; what is queued for
    /// it stays until drained, and the id may be handed out again. An id that
    /// nobody holds is ignored.
    pub fn unsubscribe(&mut self, id: usize)
        requires
            old(self).wf(),
        ensures
            final(self).wf(),
            final(self)@ == old(self)@.after_unsubscribe(id),
    {
        if id < self.active.len() && self.active[id] {
            proof {
                lemma_live_count_update(self.active@, id as int, false);
            }
            self.active.set(id, false);
            self.free_nums.push(id);
            self.num_clients = self.num_clients - 1;
            proof {
                assert(self@.queues =~= old(self)@.queues);
                assert forall|i: int|
                    0 <= i < self.active@.len() && !(#[trigger] self.active@[i]) implies self.free_nums@.contains(
                    i as usize,
                ) by {
                    let other = i as usize;
                    if other == id {
                        assert(self.free_nums@[self.free_nums@.len() - 1] == id);
                    } else {
                        assert(!old(self)@.active[i]);
                        assert(old(self)@.free.contains(other));
                        let k = choose|k: int|
                            0 <= k < old(self)@.free.len() && old(self)@.free[k] == other;
                        assert(self.free_nums@[k] == other);
                    }
                }
            }
        }
    }

    /// Queues one copy of `msg` for every subscriber. A queue of the channel
    /// takes whatever is put into it, so no delivery fails and the result is
    /// always `Ok`.
    pub fn send(&mut self, msg: T) -> (sent: Result<(), Vec<SendError<T>>>)
        requires
            old(self).wf(),
        ensures
            final(self).wf(),
            sent is Ok,
            old(self)@.delivers(msg, final(self)@),
    {
        let n = self.queues.len();
        let mut i: usize = 0;
        while i < n
            invariant
                i <= n,
                n == self.queues@.len(),
                n == old(self).queues@.len(),
                self.active == old(self).active,
                self.free_nums == old(self).free_nums,
                self.num_clients == old(self).num_clients,
                old(self).wf(),
                forall|j: int|
                    0 <= j < i ==> if old(self).active@[j] {
                        &&& (#[trigger] self.queues@[j])@.len() == old(self).queues@[j]@.len() + 1
                        &&& self.queues@[j]@.drop_last() == old(self).queues@[j]@
                        &&& cloned::<T>(msg, self.queues@[j]@.last())
                    } else {
                        self.queues@[j]@ == old(self).queues@[j]@
                    },
                forall|j: int| i <= j < n ==> (#[trigger] self.queues@[j]) == old(self).queues@[j],
            decreases n - i,
        {
            if self.active[i] {
                let copy = msg.clone();
                self.queues[i].push(copy);
                assert(self.queues@[i as int]@.drop_last() =~= old(self).queues@[i as int]@);
            }
            i += 1;
        }
        Ok(())
    }

    /// Hands out everything queued for `id`, oldest first, and leaves the
    /// queue empty. An id that was never handed out has nothing queued.
    pub fn receive(&mut self, id: usize) -> (messages: Vec<T>)
        requires
            old(self).wf(),
        ensures
            final(self).wf(),
            messages@ == old(self)@.queue(id),
            final(self)@ == old(self)@.after_receive(id),
    {
        let mut messages: Vec<T> = Vec::new();
        if id < self.queues.len() {
            std::mem::swap(&mut messages, &mut self.queues[id]);
            assert(self@.queues =~= old(self)@.queues.update(id as int, Seq::empty()));
        }
        messages
    }

    /// The number of subscribers.
    pub fn num_subscribed(&self) -> (n: usize)
        requires
            self.wf(),
        ensures
            n == self@.count(),
    {
        self.num_clients
    }
}


/// One call on a channel, together with what it returned.
pub enum ChannelEvent<T> {
    /// `subscribe` returned this id.
    Subscribed(usize),
    /// `unsubscribe` was called with this id.
    Unsubscribed(usize),
    /// `send` was called with this message.
    Sent(T),
    /// `receive` was called with this id and returned these messages.
    Received(usize, Seq<T>),
}

/// Whether one call, as its contract states it, leads from `before` to `after`.
pub open spec fn step<T: Clone>(
    before: ChannelView<T>,
    event: ChannelEvent<T>,
    after: ChannelView<T>,
) -> bool {
    match event {
        ChannelEvent::Subscribed(id) => id == before.next_id() && after
            == before.after_subscribe(),
        ChannelEvent::Unsubscribed(id) => after == before.after_unsubscribe(id),
        ChannelEvent::Sent(msg) => before.delivers(msg, after),
        ChannelEvent::Received(id, messages) => messages == before.queue(id) && after
            == before.after_receive(id),
    }
}

/// Whether `states` is what a channel goes through under `events`: one state
/// to begin with, and one more after each call, all of them well formed.
pub open spec fn history<T: Clone>(
    states: Seq<ChannelView<T>>,
    events: Seq<ChannelEvent<T>>,
) -> bool {
    &&& states.len() == events.len() + 1
    &&& forall|i: int| 0 <= i < states.len() ==> (#[trigger] states[i]).wf()
    &&& forall|i: int|
        0 <= i < events.len() ==> step(states[i], #[trigger] events[i], states[i + 1])
}

/// The messages that the calls sent, in the order of the calls.
pub open spec fn messages_sent<T>(events: Seq<ChannelEvent<T>>) -> Seq<T>
    decreases events.len(),
{
    if events.len() == 0 {
        Seq::empty()
    } else {
        let earlier = messages_sent(events.drop_last());
        match events.last() {
            ChannelEvent::Sent(msg) => earlier.push(msg),
            _ => earlier,
        }
    }
}

/// Whether none of the calls drains the queue of `id` or gives `id` back.
pub open spec fn leaves_alone<T>(events: Seq<ChannelEvent<T>>, id: usize) -> bool {
    forall|i: int|
        0 <= i < events.len() ==> match #[trigger] events[i] {
            ChannelEvent::Unsubscribed(other) => other != id,
            ChannelEvent::Received(other, _) => other != id,
            _ => true,
        }
}

/// Whether `copies` holds one copy of each of `messages`, in the same order.
pub open spec fn copies_of<T: Clone>(messages: Seq<T>, copies: Seq<T>) -> bool {
    &&& copies.len() == messages.len()
    &&& forall|j: int| 0 <= j < messages.len() ==> cloned::<T>(messages[j], #[trigger] copies[j])
}

/// While a subscriber neither drains its queue nor leaves, its queue grows by
/// exactly one copy of each message sent, in the order of sending, whatever
/// else is called in between. So its next `receive` returns what was queued
/// at the start, then one copy of every message sent since, in send order.
pub proof fn lemma_queue_collects_sends<T: Clone>(
    states: Seq<ChannelView<T>>,
    events: Seq<ChannelEvent<T>>,
    id: usize,
)
    requires
        history(states, events),
        states[0].subscribed(id),
        leaves_alone(events, id),
    ensures
        states.last().subscribed(id),
        states.last().queue(id).len() == states[0].queue(id).len() + messages_sent(events).len(),
        states.last().queue(id).take(states[0].queue(id).len() as int) == states[0].queue(id),
        copies_of(
            messages_sent(events),
            states.last().queue(id).skip(states[0].queue(id).len() as int),
        ),
    decreases events.len(),
{
    let start = states[0].queue(id);
    if events.len() == 0 {
        assert(start.take(start.len() as int) =~= start);
    } else {
        let earlier_states = states.drop_last();
        let earlier_events = events.drop_last();
        assert(history(earlier_states, earlier_events)) by {
            assert forall|i: int| 0 <= i < earlier_states.len() implies (
            #[trigger] earlier_states[i]).wf() by {
                assert(states[i].wf());
            }
            assert forall|i: int| 0 <= i < earlier_events.len() implies step(
                earlier_states[i],
                #[trigger] earlier_events[i],
                earlier_states[i + 1],
            ) by {
                assert(step(states[i], events[i], states[i + 1]));
            }
        }
        assert(leaves_alone(earlier_events, id)) by {
            assert forall|i: int| 0 <= i < earlier_events.len() implies match #[trigger] earlier_events[i] {
                ChannelEvent::Unsubscribed(other) => other != id,
                ChannelEvent::Received(other, _) => other != id,
                _ => true,
            } by {
                assert(earlier_events[i] == events[i]);
            }
        }
        lemma_queue_collects_sends(earlier_states, earlier_events, id);
        let n = events.len() as int;
        let before = states[n - 1];
        let after = states[n];
        let event = events[n - 1];
        assert(before == earlier_states.last());
        assert(after == states.last());
        assert(event == events.last());
        assert(step(before, event, after));
        assert(before.wf() && after.wf());
        let grown = before.queue(id);
        match event {
            ChannelEvent::Sent(msg) => {
                let sent = messages_sent(events);
                let copies = after.queue(id).skip(start.len() as int);
                assert(after.queues[id as int].drop_last() == grown);
                assert(after.queue(id).take(start.len() as int) =~= grown.take(
                    start.len() as int,
                ));
                assert forall|j: int| 0 <= j < sent.len() implies cloned::<T>(
                    sent[j],
                    #[trigger] copies[j],
                ) by {
                    if j < sent.len() - 1 {
                        assert(copies[j] == grown.skip(start.len() as int)[j]);
                    }
                }
            },
            _ => {
                assert(after.queue(id) == grown);
            },
        }
    }
}

/// Draining a queue twice with no call in between returns nothing the second
/// time.
pub proof fn lemma_second_receive_is_empty<T: Clone>(
    first: ChannelView<T>,
    second: ChannelView<T>,
    id: usize,
)
    requires
        second == first.after_receive(id),
    ensures
        second.queue(id) == Seq::<T>::empty(),
{
}

/// A subscriber that joins sees nothing of what was sent before: its queue
/// starts empty, also where its id had been held before.
pub proof fn lemma_joining_starts_empty<T: Clone>(before: ChannelView<T>)
    requires
        before.wf(),
    ensures
        before.after_subscribe().queue(before.next_id()) == Seq::<T>::empty(),
        !before.subscribed(before.next_id()),
        before.after_subscribe().subscribed(before.next_id()),
{
    if before.free.len() > 0 {
        assert(before.free[0] < before.active.len());
    }
}

/// On a channel without subscribers, the ids that the first calls of
/// `subscribe` return count up from zero, so no two of them are the same,
/// and each of these callers is a subscriber afterwards.
pub proof fn lemma_fresh_ids_count_up<T: Clone>(
    states: Seq<ChannelView<T>>,
    events: Seq<ChannelEvent<T>>,
)
    requires
        history(states, events),
        states[0] == ChannelView::<T>::fresh(),
        forall|i: int| 0 <= i < events.len() ==> (#[trigger] events[i]) is Subscribed,
    ensures
        forall|i: int|
            0 <= i < events.len() ==> (#[trigger] events[i]) == ChannelEvent::<T>::Subscribed(
                i as usize,
            ),
        states.last().free.len() == 0,
        states.last().active.len() == events.len(),
        states.last().queues.len() == events.len(),
        forall|i: int| 0 <= i < events.len() ==> #[trigger] states.last().active[i],
    decreases events.len(),
{
    if events.len() > 0 {
        let earlier_states = states.drop_last();
        let earlier_events = events.drop_last();
        assert(history(earlier_states, earlier_events)) by {
            assert forall|i: int| 0 <= i < earlier_states.len() implies (
            #[trigger] earlier_states[i]).wf() by {
                assert(states[i].wf());
            }
            assert forall|i: int| 0 <= i < earlier_events.len() implies step(
                earlier_states[i],
                #[trigger] earlier_events[i],
                earlier_states[i + 1],
            ) by {
                assert(step(states[i], events[i], states[i + 1]));
            }
        }
        assert forall|i: int| 0 <= i < earlier_events.len() implies (#[trigger] earlier_events[i]) is Subscribed by {
            assert(earlier_events[i] == events[i]);
        }
        lemma_fresh_ids_count_up(earlier_states, earlier_events);
        let n = events.len() as int;
        assert(earlier_states.last() == states[n - 1]);
        assert(step(states[n - 1], events[n - 1], states[n]));
        assert forall|i: int| 0 <= i < events.len() implies (#[trigger] events[i])
            == ChannelEvent::<T>::Subscribed(i as usize) by {
            if i < n - 1 {
                assert(earlier_events[i] == events[i]);
            }
        }
        assert forall|i: int| 0 <= i < events.len() implies #[trigger] states.last().active[i] by {
            if i < n - 1 {
                assert(earlier_states.last().active[i]);
            }
        }
    }
}

} // verus!
