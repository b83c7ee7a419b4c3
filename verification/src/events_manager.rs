//! The per-state event rendezvous registry.
//!
//! A subscriber registers a single-slot listener under an event name and
//! a listener id of its own; a publisher delivers a message to exactly
//! that pair.  Each listener expects exactly one message: its slot holds
//! at most one pending message, a delivery to a full or absent slot is a
//! deliberate no-op, and the registration is removed the moment the
//! message is received.  This turns event broadcast into point-to-point
//! request/response.

use vstd::prelude::*;

use crate::messaging::ClientMessages;
use crate::messaging::ClientMessagesView;

verus! {

/// One registration: an event name, the subscriber's listener id, and
/// the single-slot rendezvous cell.
pub struct EventListener {
    pub event: String,
    pub id: u128,
    pub slot: Option<ClientMessages>,
}

/// The key a registration answers to.
pub open spec fn key_of(l: EventListener) -> (Seq<char>, u128) {
    (l.event@, l.id)
}

/// The view of a slot.
pub open spec fn slot_view(s: Option<ClientMessages>) -> Option<ClientMessagesView> {
    match s {
        Some(m) => Some(m@),
        None => None,
    }
}

/// The registry: event name and listener id map to one pending slot.
pub struct EventsManager {
    pub listeners: Vec<EventListener>,
}

impl EventsManager {
    /// No two registrations answer to the same pair.
    pub open spec fn wf(self) -> bool {
        forall|i: int, j: int|
            0 <= i < self.listeners@.len() && 0 <= j < self.listeners@.len() && i != j
                ==> key_of(#[trigger] self.listeners@[i]) != key_of(#[trigger] self.listeners@[j])
    }

    /// Whether a registration exists under the pair.
    pub open spec fn contains_listener(self, e: Seq<char>, id: u128) -> bool {
        exists|i: int|
            0 <= i < self.listeners@.len() && key_of(#[trigger] self.listeners@[i]) == (e, id)
    }

    /// The position of the registration under the pair.
    pub open spec fn index_of(self, e: Seq<char>, id: u128) -> int {
        choose|i: int|
            0 <= i < self.listeners@.len() && key_of(#[trigger] self.listeners@[i]) == (e, id)
    }

    /// The pending slot of the registration under the pair.
    pub open spec fn slot_of(self, e: Seq<char>, id: u128) -> Option<ClientMessagesView> {
        slot_view(self.listeners@[self.index_of(e, id)].slot)
    }

    /// The registry as a mapping from pair to pending slot.
    pub open spec fn view(self) -> Map<(Seq<char>, u128), Option<ClientMessagesView>> {
        Map::new(|k: (Seq<char>, u128)| self.contains_listener(k.0, k.1), |k: (Seq<char>, u128)| self.slot_of(k.0, k.1))
    }

    /// In a well-formed registry the position under a pair is the only
    /// one whose registration answers to it.
    proof fn lemma_index_of(self, e: Seq<char>, id: u128, i: int)
        requires
            self.wf(),
            0 <= i < self.listeners@.len(),
            key_of(self.listeners@[i]) == (e, id),
        ensures
            self.index_of(e, id) == i,
            self.contains_listener(e, id),
    {
        assert(self.contains_listener(e, id));
        let j = self.index_of(e, id);
        assert(0 <= j < self.listeners@.len() && key_of(self.listeners@[j]) == (e, id));
    }

    /// An empty registry.
    pub fn new() -> (r: EventsManager)
        ensures
            r.wf(),
            r@ == Map::<(Seq<char>, u128), Option<ClientMessagesView>>::empty(),
    {
        let r = EventsManager { listeners: Vec::new() };
        proof {
            assert(r@ =~= Map::<(Seq<char>, u128), Option<ClientMessagesView>>::empty());
        }
        r
    }

    /// The position holding the pair, if any.
    fn find_listener(&self, event: &String, id: u128) -> (r: Option<usize>)
        ensures
            r matches Some(i) ==> 0 <= i < self.listeners@.len() && key_of(self.listeners@[i as int])
                == (event@, id),
            r is None ==> !self.contains_listener(event@, id),
    {
        let mut i: usize = 0;
        while i < self.listeners.len()
            invariant
                i <= self.listeners@.len(),
                forall|j: int| 0 <= j < i ==> key_of(#[trigger] self.listeners@[j]) != (event@, id),
            decreases self.listeners@.len() - i,
        {
            let l = &self.listeners[i];
            if l.id == id && l.event == *event {
                return Some(i);
            }
            i = i + 1;
        }
        None
    }

    /// Registers a fresh single-slot listener under `(event, id)`.  A
    /// pair already registered starts over with an empty slot; distinct
    /// listener ids coexist under one event name.
    pub fn listen_on(&mut self, event: String, id: u128)
        requires
            old(self).wf(),
        ensures
            final(self).wf(),
            final(self)@ == old(self)@.insert((event@, id), None::<ClientMessagesView>),
    {
        let ghost pre = *self;
        let found = self.find_listener(&event, id);
        let ghost k = (event@, id);
        match found {
            Some(i) => {
                proof {
                    pre.lemma_index_of(event@, id, i as int);
                }
                self.listeners.set(i, EventListener { event, id, slot: None });
                proof {
                    let ghost post = *self;
                    assert forall|a: int, b: int|
                        0 <= a < post.listeners@.len() && 0 <= b < post.listeners@.len() && a != b
                            implies key_of(#[trigger] post.listeners@[a]) != key_of(
                        #[trigger] post.listeners@[b],
                    ) by {
                        assert(key_of(post.listeners@[a]) == key_of(pre.listeners@[a]));
                        assert(key_of(post.listeners@[b]) == key_of(pre.listeners@[b]));
                    }
                    assert forall|e2: Seq<char>, id2: u128|
                        post.contains_listener(e2, id2) == (pre.contains_listener(e2, id2) || (
                        e2,
                        id2,
                    ) == k) by {
                        if pre.contains_listener(e2, id2) || (e2, id2) == k {
                            if (e2, id2) == k {
                                assert(key_of(post.listeners@[i as int]) == (e2, id2));
                            } else {
                                let j = pre.index_of(e2, id2);
                                assert(key_of(post.listeners@[j]) == (e2, id2));
                            }
                        }
                        if post.contains_listener(e2, id2) && (e2, id2) != k {
                            let j = post.index_of(e2, id2);
                            assert(key_of(pre.listeners@[j]) == (e2, id2));
                        }
                    }
                    assert(post@ =~= pre@.insert(k, None::<ClientMessagesView>)) by {
                        assert forall|k2: (Seq<char>, u128)| #[trigger]
                            post@.dom().contains(k2) && k2 != k implies post@[k2] == pre@[k2] by {
                            let j = post.index_of(k2.0, k2.1);
                            assert(key_of(pre.listeners@[j]) == k2);
                            post.lemma_index_of(k2.0, k2.1, j);
                            pre.lemma_index_of(k2.0, k2.1, j);
                        }
                        assert(post.contains_listener(k.0, k.1));
                        post.lemma_index_of(k.0, k.1, i as int);
                    }
                }
            },
            None => {
                self.listeners.push(EventListener { event, id, slot: None });
                proof {
                    let ghost post = *self;
                    let n = pre.listeners@.len() as int;
                    assert(key_of(post.listeners@[n]) == k);
                    assert forall|a: int, b: int|
                        0 <= a < post.listeners@.len() && 0 <= b < post.listeners@.len() && a != b
                            implies key_of(#[trigger] post.listeners@[a]) != key_of(
                        #[trigger] post.listeners@[b],
                    ) by {
                        if a < n && b < n {
                        } else if a == n {
                            assert(key_of(post.listeners@[b]) == key_of(pre.listeners@[b]));
                        } else {
                            assert(key_of(post.listeners@[a]) == key_of(pre.listeners@[a]));
                        }
                    }
                    assert(post@ =~= pre@.insert(k, None::<ClientMessagesView>)) by {
                        assert forall|k2: (Seq<char>, u128)| #[trigger]
                            post@.dom().contains(k2) && k2 != k implies pre@.dom().contains(k2)
                            && post@[k2] == pre@[k2] by {
                            let j = post.index_of(k2.0, k2.1);
                            assert(key_of(post.listeners@[j]) == k2);
                            assert(j != n);
                            assert(key_of(pre.listeners@[j]) == k2);
                            post.lemma_index_of(k2.0, k2.1, j);
                            pre.lemma_index_of(k2.0, k2.1, j);
                        }
                        assert forall|k2: (Seq<char>, u128)| #[trigger]
                            pre@.dom().contains(k2) implies post@.dom().contains(k2) by {
                            let j = pre.index_of(k2.0, k2.1);
                            assert(key_of(post.listeners@[j]) == k2);
                        }
                        post.lemma_index_of(k.0, k.1, n);
                    }
                }
            },
        }
    }

    /// Removes the registration under `(event, id)`; a pair that is not
    /// registered is left as it stands, so the call is idempotent.
    pub fn unlisten_from(&mut self, event: &String, id: u128)
        requires
            old(self).wf(),
        ensures
            final(self).wf(),
            final(self)@ == old(self)@.remove((event@, id)),
    {
        let ghost pre = *self;
        let found = self.find_listener(event, id);
        let ghost k = (event@, id);
        match found {
            Some(i) => {
                proof {
                    pre.lemma_index_of(event@, id, i as int);
                }
                self.listeners.remove(i);
                proof {
                    let ghost post = *self;
                    let n = pre.listeners@.len() as int;
                    assert forall|a: int, b: int|
                        0 <= a < post.listeners@.len() && 0 <= b < post.listeners@.len() && a != b
                            implies key_of(#[trigger] post.listeners@[a]) != key_of(
                        #[trigger] post.listeners@[b],
                    ) by {
                        let a0 = if a < i as int { a } else { a + 1 };
                        let b0 = if b < i as int { b } else { b + 1 };
                        assert(key_of(post.listeners@[a]) == key_of(pre.listeners@[a0]));
                        assert(key_of(post.listeners@[b]) == key_of(pre.listeners@[b0]));
                    }
                    assert(post@ =~= pre@.remove(k)) by {
                        assert forall|k2: (Seq<char>, u128)| #[trigger]
                            post@.dom().contains(k2) implies k2 != k && pre@.dom().contains(k2)
                            && post@[k2] == pre@[k2] by {
                            let j = post.index_of(k2.0, k2.1);
                            assert(key_of(post.listeners@[j]) == k2);
                            let j0 = if j < i as int { j } else { j + 1 };
                            assert(key_of(pre.listeners@[j0]) == k2);
                            assert(j0 != i as int);
                            post.lemma_index_of(k2.0, k2.1, j);
                            pre.lemma_index_of(k2.0, k2.1, j0);
                        }
                        assert forall|k2: (Seq<char>, u128)| #[trigger]
                            pre@.dom().contains(k2) && k2 != k implies post@.dom().contains(
                            k2,
                        ) by {
                            let j0 = pre.index_of(k2.0, k2.1);
                            assert(j0 != i as int);
                            let j = if j0 < i as int { j0 } else { j0 - 1 };
                            assert(key_of(post.listeners@[j]) == k2);
                        }
                    }
                }
            },
            None => {
                proof {
                    assert(self@ =~= pre@.remove(k));
                }
            },
        }
    }

    /// Delivers one message to the listener registered under
    /// `(event, id)`.  The message lands exactly when the pair is
    /// registered and its slot is empty; otherwise it is dropped by
    /// design, because the subscriber may legitimately have received its
    /// one message and unsubscribed already.  No other registration is
    /// touched.
    pub fn deliver(&mut self, event: &String, id: u128, msg: ClientMessages) -> (delivered: bool)
        requires
            old(self).wf(),
        ensures
            final(self).wf(),
            delivered == (old(self)@.contains_key((event@, id)) && old(self)@[(event@, id)]
                is None),
            delivered ==> final(self)@ == old(self)@.insert((event@, id), Some(msg@)),
            !delivered ==> *final(self) == *old(self),
    {
        let ghost pre = *self;
        let found = self.find_listener(event, id);
        let ghost k = (event@, id);
        match found {
            Some(i) => {
                proof {
                    pre.lemma_index_of(event@, id, i as int);
                }
                if self.listeners[i].slot.is_none() {
                    let ev = self.listeners[i].event.clone();
                    self.listeners.set(i, EventListener { event: ev, id, slot: Some(msg) });
                    proof {
                        let ghost post = *self;
                        assert(key_of(post.listeners@[i as int]) == k);
                        assert forall|a: int, b: int|
                            0 <= a < post.listeners@.len() && 0 <= b < post.listeners@.len() && a
                                != b implies key_of(#[trigger] post.listeners@[a]) != key_of(
                            #[trigger] post.listeners@[b],
                        ) by {
                            assert(key_of(post.listeners@[a]) == key_of(pre.listeners@[a]));
                            assert(key_of(post.listeners@[b]) == key_of(pre.listeners@[b]));
                        }
                        assert(post@ =~= pre@.insert(k, Some(msg@))) by {
                            assert forall|k2: (Seq<char>, u128)| #[trigger]
                                post@.dom().contains(k2) && k2 != k implies pre@.dom().contains(k2)
                                && post@[k2] == pre@[k2] by {
                                let j = post.index_of(k2.0, k2.1);
                                assert(key_of(post.listeners@[j]) == k2);
                                assert(key_of(pre.listeners@[j]) == k2);
                                post.lemma_index_of(k2.0, k2.1, j);
                                pre.lemma_index_of(k2.0, k2.1, j);
                            }
                            assert forall|k2: (Seq<char>, u128)| #[trigger]
                                pre@.dom().contains(k2) implies post@.dom().contains(k2) by {
                                let j = pre.index_of(k2.0, k2.1);
                                assert(key_of(post.listeners@[j]) == k2);
                            }
                            post.lemma_index_of(k.0, k.1, i as int);
                        }
                    }
                    true
                } else {
                    false
                }
            },
            None => false,
        }
    }

    /// Receives the one pending message under `(event, id)`, if a
    /// message is pending, and removes the registration with it: no
    /// listener entry outlives its single expected message.  An empty
    /// slot, or a pair that is not registered, yields nothing and leaves
    /// the registry as it stands.
    pub fn poll(&mut self, event: &String, id: u128) -> (r: Option<ClientMessages>)
        requires
            old(self).wf(),
        ensures
            final(self).wf(),
            (old(self)@.contains_key((event@, id)) && old(self)@[(event@, id)] matches Some(_))
                ==> (r matches Some(m) && Some(m@) == old(self)@[(event@, id)] && final(self)@
                == old(self)@.remove((event@, id))),
            !(old(self)@.contains_key((event@, id)) && old(self)@[(event@, id)] matches Some(_))
                ==> (r is None && *final(self) == *old(self)),
    {
        let ghost pre = *self;
        let found = self.find_listener(event, id);
        match found {
            Some(i) => {
                proof {
                    pre.lemma_index_of(event@, id, i as int);
                }
                if self.listeners[i].slot.is_some() {
                    let taken = self.listeners.remove(i);
                    proof {
                        let ghost post = *self;
                        let k = (event@, id);
                        assert forall|a: int, b: int|
                            0 <= a < post.listeners@.len() && 0 <= b < post.listeners@.len() && a
                                != b implies key_of(#[trigger] post.listeners@[a]) != key_of(
                            #[trigger] post.listeners@[b],
                        ) by {
                            let a0 = if a < i as int { a } else { a + 1 };
                            let b0 = if b < i as int { b } else { b + 1 };
                            assert(key_of(post.listeners@[a]) == key_of(pre.listeners@[a0]));
                            assert(key_of(post.listeners@[b]) == key_of(pre.listeners@[b0]));
                        }
                        assert(post@ =~= pre@.remove(k)) by {
                            assert forall|k2: (Seq<char>, u128)| #[trigger]
                                post@.dom().contains(k2) implies k2 != k && pre@.dom().contains(k2)
                                && post@[k2] == pre@[k2] by {
                                let j = post.index_of(k2.0, k2.1);
                                assert(key_of(post.listeners@[j]) == k2);
                                let j0 = if j < i as int { j } else { j + 1 };
                                assert(key_of(pre.listeners@[j0]) == k2);
                                assert(j0 != i as int);
                                post.lemma_index_of(k2.0, k2.1, j);
                                pre.lemma_index_of(k2.0, k2.1, j0);
                            }
                            assert forall|k2: (Seq<char>, u128)| #[trigger]
                                pre@.dom().contains(k2) && k2 != k implies post@.dom().contains(
                                k2,
                            ) by {
                                let j0 = pre.index_of(k2.0, k2.1);
                                assert(j0 != i as int);
                                let j = if j0 < i as int { j0 } else { j0 - 1 };
                                assert(key_of(post.listeners@[j]) == k2);
                            }
                        }
                    }
                    taken.slot
                } else {
                    None
                }
            },
            None => None,
        }
    }
}

/// The rendezvous law: in any registry, once a listener registers under
/// an event name and a listener id, a message delivered to that pair
/// must land (the fresh slot is empty), lands in no other registration
/// under the same or any other name, and is received exactly once — the
/// registration is gone the moment the message is taken, so a second
/// receive finds nothing.
pub proof fn lemma_rendezvous(
    reg: Map<(Seq<char>, u128), Option<ClientMessagesView>>,
    e: Seq<char>,
    l: u128,
    l2: u128,
    m: ClientMessagesView,
)
    requires
        l2 != l,
    ensures
        ({
            let after_listen = reg.insert((e, l), None);
            let after_deliver = after_listen.insert((e, l), Some(m));
            let after_receive = after_deliver.remove((e, l));
            &&& after_listen.contains_key((e, l)) && after_listen[(e, l)] is None
            &&& after_deliver[(e, l)] == Some(m)
            &&& after_listen.contains_key((e, l2)) ==> after_deliver[(e, l2)] == after_listen[(
                e,
                l2,
            )]
            &&& !after_receive.contains_key((e, l))
        }),
{
}

} // verus!
