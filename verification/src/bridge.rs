//! The process-bridge model: one external worker process spoken to over a
//! line-delimited JSON-RPC channel.
//!
//! The bridge correlates replies to outstanding requests by identifier and
//! fans every unmatched message out to the current notification subscribers.
//! This module holds the bridge's entire decision logic as a verified state
//! machine over plain values; the surrounding runtime performs the process
//! I/O and consults these functions for every step.
//!
//! The lifecycle of one outstanding request is: registered (its key is in the
//! pending set) and then settled exactly once — by a matching reply line, by
//! its timeout, or by the completion channel dropping — and every way of
//! settling removes the key, so no state is ever re-entered.

use crate::rpc::{id_key_spec, jsonrpc_id_to_key, LineEvent, RpcId};
use crate::strutil::{bytes_eq, dec_chars_spec, u64_to_dec_string};
use vstd::prelude::*;

verus! {

/// How one key of the pending set changes when a request settles: the key is
/// gone afterwards and every other key is untouched.
pub open spec fn withdraw_rel(pre: Seq<Seq<u8>>, post: Seq<Seq<u8>>, k: Seq<u8>) -> bool {
    &&& !post.contains(k)
    &&& forall|x: Seq<u8>| x != k ==> (post.contains(x) == pre.contains(x))
}

/// How the pending set changes when a request is registered: the key is
/// present afterwards and every other key is untouched.
pub open spec fn register_rel(pre: Seq<Seq<u8>>, post: Seq<Seq<u8>>, k: Seq<u8>) -> bool {
    &&& post.contains(k)
    &&& forall|x: Seq<u8>| x != k ==> (post.contains(x) == pre.contains(x))
}

/// How the pending set changes when one line of worker output is processed.
/// `key` is the correlation key of the line's identifier, when it has one;
/// `replied` says whether the line completed a pending request.  A line whose
/// key matches a pending request settles exactly that request; every other
/// line leaves the pending set alone.
pub open spec fn line_rel(
    pre: Seq<Seq<u8>>,
    post: Seq<Seq<u8>>,
    key: Option<Seq<u8>>,
    replied: bool,
) -> bool {
    match key {
        Some(k) => {
            if pre.contains(k) {
                replied && withdraw_rel(pre, post, k)
            } else {
                !replied && forall|x: Seq<u8>| post.contains(x) == pre.contains(x)
            }
        },
        None => !replied && forall|x: Seq<u8>| post.contains(x) == pre.contains(x),
    }
}

/// What the bridge decides to do with one line of worker output.
pub enum Delivery {
    /// The line was blank: skip it.
    Skipped,
    /// The line was not valid JSON: log it and drop it; no pending request is
    /// affected.
    Discarded,
    /// The line is the reply to the pending request held under `key`:
    /// complete that request and no other.
    Reply { key: Vec<u8> },
    /// The line matches no pending request: publish it to every subscriber in
    /// `subscribers`, best effort, at most once each.
    Notify { subscribers: Vec<u64> },
}

/// The decision core of the bridge to the external worker process.
///
/// It holds the correlation table (as the set of outstanding keys), the
/// counter that assigns request identifiers, and the set of live notification
/// subscribers.  The runtime around it owns the process and the channels and
/// mirrors every decision taken here.
pub struct AppServerBridge {
    pending: Vec<Vec<u8>>,
    next_id: u64,
    subs: Vec<u64>,
    next_sub: u64,
}

impl AppServerBridge {
    /// The keys of the outstanding requests.
    pub closed spec fn pending_keys(self) -> Seq<Seq<u8>> {
        self.pending@.map_values(|v: Vec<u8>| v@)
    }

    /// The handles of the live notification subscribers.
    pub closed spec fn subscribers(self) -> Seq<u64> {
        self.subs@
    }

    pub closed spec fn next_request_id(self) -> u64 {
        self.next_id
    }

    pub closed spec fn next_subscriber_id(self) -> u64 {
        self.next_sub
    }

    /// Internal invariant: no key and no subscriber handle occurs twice, and
    /// every live handle was handed out earlier by the counter.
    pub closed spec fn wf(self) -> bool {
        &&& forall|i: int, j: int|
            0 <= i < j < self.pending@.len() ==> self.pending@[i]@ != self.pending@[j]@
        &&& forall|i: int, j: int| 0 <= i < j < self.subs@.len() ==> self.subs@[i] != self.subs@[j]
        &&& forall|i: int| 0 <= i < self.subs@.len() ==> self.subs@[i] < self.next_sub
    }

    /// A fresh bridge: nothing pending, no subscribers, identifiers start
    /// at 1.
    pub fn new() -> (b: Self)
        ensures
            b.wf(),
            b.pending_keys() == Seq::<Seq<u8>>::empty(),
            b.subscribers() == Seq::<u64>::empty(),
            b.next_request_id() == 1,
    {
        let b = AppServerBridge { pending: Vec::new(), next_id: 1, subs: Vec::new(), next_sub: 0 };
        proof {
            assert(b.pending_keys() =~= Seq::<Seq<u8>>::empty());
        }
        b
    }

    /// The index of `k` in the pending table, if present.
    fn find_pending(&self, k: &[u8]) -> (r: Option<usize>)
        ensures
            match r {
                Some(i) => i < self.pending@.len() && self.pending@[i as int]@ == k@,
                None => !self.pending_keys().contains(k@),
            },
    {
        let mut i: usize = 0;
        while i < self.pending.len()
            invariant
                0 <= i <= self.pending@.len(),
                forall|j: int| 0 <= j < i ==> self.pending@[j]@ != k@,
            decreases self.pending@.len() - i,
        {
            if bytes_eq(self.pending[i].as_slice(), k) {
                return Some(i);
            }
            i += 1;
        }
        proof {
            assert forall|j: int| 0 <= j < self.pending_keys().len() implies self.pending_keys()[j]
                != k@ by {
                assert(self.pending_keys()[j] == self.pending@[j]@);
            }
        }
        None
    }

    /// Whether a request with key `k` is outstanding.
    pub fn has_pending(&self, k: &Vec<u8>) -> (r: bool)
        ensures
            r == self.pending_keys().contains(k@),
    {
        let r = self.find_pending(k.as_slice());
        proof {
            if r is Some {
                assert(self.pending_keys()[r->0 as int] == self.pending@[r->0 as int]@);
            }
        }
        r.is_some()
    }

    /// Begins one request: chooses its identifier — the caller's, or else the
    /// next one from the counter — and registers its key in the correlation
    /// table.  Registration happens before the caller ever sees the request
    /// line, which closes the race where a reply could arrive before anyone
    /// is listening for it.
    pub fn begin_request(&mut self, explicit_id: Option<RpcId>) -> (id: RpcId)
        requires
            old(self).wf(),
        ensures
            final(self).wf(),
            match explicit_id {
                Some(e) => id@ == e@ && final(self).next_request_id() == old(self).next_request_id(),
                None => id@ == crate::rpc::RpcIdView::NumText(
                    dec_chars_spec(old(self).next_request_id() as nat),
                ) && final(self).next_request_id() == (if old(self).next_request_id() == u64::MAX {
                    0u64
                } else {
                    (old(self).next_request_id() + 1) as u64
                }),
            },
            register_rel(old(self).pending_keys(), final(self).pending_keys(), id_key_spec(id@)),
            final(self).subscribers() == old(self).subscribers(),
            final(self).next_subscriber_id() == old(self).next_subscriber_id(),
    {
        let id = match explicit_id {
            Some(e) => e,
            None => {
                let text = u64_to_dec_string(self.next_id);
                let id = RpcId::NumText(text);
                if self.next_id == u64::MAX {
                    self.next_id = 0;
                } else {
                    self.next_id = self.next_id + 1;
                }
                id
            },
        };
        let key = jsonrpc_id_to_key(&id);
        let found = self.find_pending(key.as_slice());
        if found.is_none() {
            let ghost pre = self.pending@;
            self.pending.push(key);
            proof {
                broadcast use vstd::seq_lib::lemma_seq_contains_after_push;

                assert forall|a: int| 0 <= a < pre.len() implies pre[a]@ != id_key_spec(id@) by {
                    assert(pre.map_values(|v: Vec<u8>| v@)[a] == pre[a]@);
                }
                assert(self.pending_keys() =~= pre.map_values(|v: Vec<u8>| v@).push(
                    id_key_spec(id@),
                ));
            }
        } else {
            proof {
                let i = found->0 as int;
                assert(self.pending_keys()[i] == id_key_spec(id@));
            }
        }
        id
    }

    /// Removes the entry at index `i` of the pending table.
    fn remove_at(&mut self, i: usize)
        requires
            old(self).wf(),
            i < old(self).pending@.len(),
        ensures
            final(self).wf(),
            withdraw_rel(old(self).pending_keys(), final(self).pending_keys(), old(self).pending@[i as int]@),
            final(self).subs == old(self).subs,
            final(self).next_id == old(self).next_id,
            final(self).next_sub == old(self).next_sub,
    {
        let ghost pre = self.pending@;
        let ghost k = pre[i as int]@;
        self.pending.remove(i);
        proof {
            let post = self.pending@;
            let prek = pre.map_values(|v: Vec<u8>| v@);
            let postk = post.map_values(|v: Vec<u8>| v@);
            assert forall|x: Seq<u8>| #[trigger] postk.contains(x) implies x != k && prek.contains(
                x,
            ) by {
                let j = postk.lemma_contains_to_index(x);
                if j < i {
                    assert(prek[j] == x);
                    assert(pre[j]@ != pre[i as int]@);
                } else {
                    assert(post[j] == pre[j + 1]);
                    assert(prek[j + 1] == x);
                    assert(pre[j + 1]@ != pre[i as int]@);
                }
            }
            assert forall|x: Seq<u8>| x != k && #[trigger] prek.contains(x) implies postk.contains(
                x,
            ) by {
                let j = prek.lemma_contains_to_index(x);
                if j < i {
                    assert(postk[j] == x);
                } else {
                    assert(prek[i as int] == k);
                    assert(j > i);
                    assert(post[j - 1] == pre[j]);
                    assert(postk[j - 1] == x);
                }
            }
        }
    }

    /// Settles an outstanding request without a reply — its timeout elapsed,
    /// or its completion channel was dropped.  The key is absent afterwards,
    /// so a reply arriving later finds nothing to complete; every other
    /// outstanding request is unaffected.  Returns whether the key was still
    /// registered.
    pub fn remove_pending(&mut self, k: &Vec<u8>) -> (was: bool)
        requires
            old(self).wf(),
        ensures
            final(self).wf(),
            was == old(self).pending_keys().contains(k@),
            withdraw_rel(old(self).pending_keys(), final(self).pending_keys(), k@),
            final(self).subscribers() == old(self).subscribers(),
            final(self).next_request_id() == old(self).next_request_id(),
            final(self).next_subscriber_id() == old(self).next_subscriber_id(),
    {
        let found = self.find_pending(k.as_slice());
        match found {
            Some(i) => {
                proof {
                    assert(old(self).pending_keys()[i as int] == k@);
                }
                self.remove_at(i);
                true
            },
            None => false,
        }
    }

    /// Processes one line of worker output.  A blank line is skipped; a line
    /// that is not JSON is discarded and affects no pending request; a parsed
    /// message whose identifier matches an outstanding request completes
    /// exactly that request and removes it; every other parsed message is a
    /// notification for every current subscriber.
    pub fn on_line(&mut self, ev: &LineEvent) -> (d: Delivery)
        requires
            old(self).wf(),
        ensures
            final(self).wf(),
            final(self).subscribers() == old(self).subscribers(),
            final(self).next_request_id() == old(self).next_request_id(),
            final(self).next_subscriber_id() == old(self).next_subscriber_id(),
            line_rel(
                old(self).pending_keys(),
                final(self).pending_keys(),
                line_event_key(ev),
                d is Reply,
            ),
            match ev {
                LineEvent::Blank => d is Skipped,
                LineEvent::NotJson => d is Discarded,
                LineEvent::Msg(m) => {
                    if m.id is Some && old(self).pending_keys().contains(
                        id_key_spec(m.id->0@),
                    ) {
                        d matches Delivery::Reply { key } && key@ == id_key_spec(m.id->0@)
                    } else {
                        d matches Delivery::Notify { subscribers } && subscribers@ == old(
                            self,
                        ).subscribers()
                    }
                },
            },
    {
        match ev {
            LineEvent::Blank => Delivery::Skipped,
            LineEvent::NotJson => Delivery::Discarded,
            LineEvent::Msg(m) => {
                match &m.id {
                    Some(id) => {
                        let key = jsonrpc_id_to_key(id);
                        let found = self.find_pending(key.as_slice());
                        match found {
                            Some(i) => {
                                proof {
                                    assert(old(self).pending_keys()[i as int] == key@);
                                }
                                self.remove_at(i);
                                Delivery::Reply { key }
                            },
                            None => Delivery::Notify { subscribers: self.subs.clone() },
                        }
                    },
                    None => Delivery::Notify { subscribers: self.subs.clone() },
                }
            },
        }
    }

    /// Opens a new, independent notification stream and returns its handle.
    /// The new subscriber sees notifications from this point onward.
    pub fn subscribe(&mut self) -> (s: u64)
        requires
            old(self).wf(),
            old(self).next_subscriber_id() < u64::MAX,
        ensures
            final(self).wf(),
            s == old(self).next_subscriber_id(),
            !old(self).subscribers().contains(s),
            final(self).subscribers() == old(self).subscribers().push(s),
            final(self).next_subscriber_id() == old(self).next_subscriber_id() + 1,
            final(self).pending_keys() == old(self).pending_keys(),
            final(self).next_request_id() == old(self).next_request_id(),
    {
        proof {
            if old(self).subscribers().contains(old(self).next_sub) {
                let i = old(self).subs@.lemma_contains_to_index(old(self).next_sub);
            }
        }
        let s = self.next_sub;
        self.subs.push(s);
        self.next_sub = self.next_sub + 1;
        s
    }

    /// Drops a subscriber: it receives nothing published afterwards.
    pub fn unsubscribe(&mut self, s: u64) -> (was: bool)
        requires
            old(self).wf(),
        ensures
            final(self).wf(),
            was == old(self).subscribers().contains(s),
            !final(self).subscribers().contains(s),
            forall|x: u64| x != s ==> (final(self).subscribers().contains(x) == old(
                self,
            ).subscribers().contains(x)),
            final(self).pending_keys() == old(self).pending_keys(),
            final(self).next_request_id() == old(self).next_request_id(),
            final(self).next_subscriber_id() == old(self).next_subscriber_id(),
    {
        let mut i: usize = 0;
        while i < self.subs.len()
            invariant
                old(self).wf(),
                self == old(self),
                0 <= i <= self.subs@.len(),
                forall|j: int| 0 <= j < i ==> self.subs@[j] != s,
            decreases self.subs@.len() - i,
        {
            if self.subs[i] == s {
                let ghost pre = self.subs@;
                self.subs.remove(i);
                proof {
                    assert forall|x: u64| self.subs@.contains(x) implies x != s && pre.contains(x)
                        by {
                        let j = choose|j: int| 0 <= j < self.subs@.len() && self.subs@[j] == x;
                        if j < i {
                            assert(pre[j] == x);
                            assert(pre[j] != pre[i as int]);
                        } else {
                            assert(pre[j + 1] == x);
                            assert(pre[j + 1] != pre[i as int]);
                        }
                    }
                    assert forall|x: u64| x != s && pre.contains(x) implies self.subs@.contains(x)
                        by {
                        let j = choose|j: int| 0 <= j < pre.len() && pre[j] == x;
                        if j < i {
                            assert(self.subs@[j] == x);
                        } else {
                            assert(j > i);
                            assert(self.subs@[j - 1] == x);
                        }
                    }
                    assert(pre.contains(s)) by {
                        assert(pre[i as int] == s);
                    }
                }
                return true;
            }
            i += 1;
        }
        false
    }

    /// The worker process has exited: settles every still-pending request at
    /// once, returning their keys so each can be failed with a transport
    /// error instead of idling until its timeout.
    pub fn on_process_exit(&mut self) -> (keys: Vec<Vec<u8>>)
        requires
            old(self).wf(),
        ensures
            final(self).wf(),
            keys@.map_values(|v: Vec<u8>| v@) == old(self).pending_keys(),
            final(self).pending_keys() == Seq::<Seq<u8>>::empty(),
            final(self).subscribers() == old(self).subscribers(),
            final(self).next_request_id() == old(self).next_request_id(),
            final(self).next_subscriber_id() == old(self).next_subscriber_id(),
    {
        let mut keys: Vec<Vec<u8>> = Vec::new();
        std::mem::swap(&mut keys, &mut self.pending);
        proof {
            assert(self.pending_keys() =~= Seq::<Seq<u8>>::empty());
        }
        keys
    }
}

/// The correlation key carried by one line event, if any: a parsed message
/// with an identifier has that identifier's key; blank and unparsable lines
/// have none.
pub open spec fn line_event_key(ev: &LineEvent) -> Option<Seq<u8>> {
    match ev {
        LineEvent::Msg(m) => match m.id {
            Some(id) => Some(id_key_spec(id@)),
            None => None,
        },
        _ => None,
    }
}

/// For every identifier, a matching reply completes the request exactly once:
/// the first matching line is delivered as the reply and removes the key, and
/// a second line with the same identifier finds nothing to complete and falls
/// through to notification handling.
pub proof fn lemma_reply_delivered_exactly_once(
    p0: Seq<Seq<u8>>,
    p1: Seq<Seq<u8>>,
    p2: Seq<Seq<u8>>,
    k: Seq<u8>,
    d1: bool,
    d2: bool,
)
    requires
        p0.contains(k),
        line_rel(p0, p1, Some(k), d1),
        line_rel(p1, p2, Some(k), d2),
    ensures
        d1 == true,
        !p1.contains(k),
        d2 == false,
{
}

/// A request settled by its timeout leaves no trace: its key is absent
/// immediately afterwards, and a late reply with that identifier is not
/// delivered to anyone.
pub proof fn lemma_timeout_then_late_reply(
    p0: Seq<Seq<u8>>,
    p1: Seq<Seq<u8>>,
    p2: Seq<Seq<u8>>,
    k: Seq<u8>,
    d: bool,
)
    requires
        withdraw_rel(p0, p1, k),
        line_rel(p1, p2, Some(k), d),
    ensures
        !p1.contains(k),
        d == false,
        forall|x: Seq<u8>| p2.contains(x) == p1.contains(x),
{
}

/// A line that is blank or not JSON, interleaved between a request and its
/// true reply, does not affect delivery of the true reply.
pub proof fn lemma_junk_line_inert(
    p0: Seq<Seq<u8>>,
    p1: Seq<Seq<u8>>,
    p2: Seq<Seq<u8>>,
    k: Seq<u8>,
    dj: bool,
    d: bool,
)
    requires
        p0.contains(k),
        line_rel(p0, p1, None, dj),
        line_rel(p1, p2, Some(k), d),
    ensures
        dj == false,
        d == true,
        !p2.contains(k),
{
}

/// A notification is published to every subscriber active at the moment it
/// arrives, and never to one that unsubscribed earlier: the delivered set is
/// exactly the live set, which no longer holds the departed handle.
pub proof fn lemma_notification_fanout(subs: Seq<u64>, delivered: Seq<u64>, u: u64)
    requires
        !subs.contains(u),
        delivered == subs,
    ensures
        forall|x: u64| subs.contains(x) ==> delivered.contains(x),
        !delivered.contains(u),
{
}

} // verus!
