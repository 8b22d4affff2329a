//! Client side: the table of callers waiting for a response, and the reading
//! of responses.
//!
//! Every outgoing request gets a correlation id from a counter that wraps
//! around and skips the ids still in flight, and leaves a waiter under that
//! id. An incoming frame is handed to the waiter found
//! under its id; without one the frame is dropped. The waiter is whatever
//! the caller listens on. Where it is the sending half of a one-shot channel
//! of `tokio`, the table also does the handing over.

use crate::codec::LHMFrame;
use crate::protocol::{Hardware, PipeResponse, Sensor};
use std::collections::HashMap;
use tokio::sync::oneshot::Sender;
use vstd::prelude::*;
use vstd::relations::injective_on;
use vstd::set_lib::{lemma_int_range, lemma_len_subset, lemma_map_size, set_int_range};
use vstd::string::StringExecFns;

verus! {

/// The correlation id that follows `id`; the counter wraps around.
pub open spec fn id_after(id: u32) -> u32 {
    if id == u32::MAX {
        0
    } else {
        (id + 1) as u32
    }
}

/// The id `count` steps after `start`, counting up and wrapping around.
pub open spec fn issued_id(start: u32, count: nat) -> u32 {
    ((start + count) % 0x1_0000_0000) as u32
}

/// Whether `id` is the id that a registration gets when the counter stands at
/// `start`: the first one, counting up from `start` and wrapping around,
/// under which nobody is registered.
pub open spec fn is_next_free<T>(waiters: Map<u32, T>, start: u32, id: u32) -> bool {
    exists|count: nat|
        {
            &&& count < 0x1_0000_0000
            &&& id == #[trigger] issued_id(start, count)
            &&& !waiters.contains_key(id)
            &&& forall|k: nat| k < count ==> waiters.contains_key(#[trigger] issued_id(start, k))
        }
}

/// The id that a registration gets when the counter stands at `start`.
pub open spec fn next_free<T>(waiters: Map<u32, T>, start: u32) -> u32 {
    choose|id: u32| is_next_free(waiters, start, id)
}

/// The table after the callers `callers` have registered one after the
/// other, the counter after that, and the ids they were given, in order.
pub open spec fn registered<T>(waiters: Map<u32, T>, start: u32, callers: Seq<T>) -> (
    Map<u32, T>,
    u32,
    Seq<u32>,
)
    decreases callers.len(),
{
    if callers.len() == 0 {
        (waiters, start, Seq::empty())
    } else {
        let before = registered(waiters, start, callers.drop_last());
        let id = next_free(before.0, before.1);
        (before.0.insert(id, callers.last()), id_after(id), before.2.push(id))
    }
}

/// The waiters left once responses for `ids` have come in, in that order.
pub open spec fn after_responses<T>(waiters: Map<u32, T>, ids: Seq<u32>) -> Map<u32, T>
    decreases ids.len(),
{
    if ids.len() == 0 {
        waiters
    } else {
        after_responses(waiters, ids.drop_last()).remove(ids.last())
    }
}

/// The waiter reached by the response at place `k` of `ids`, when the
/// responses come in in that order.
pub open spec fn reached<T>(waiters: Map<u32, T>, ids: Seq<u32>, k: int) -> Option<T>
    recommends
        0 <= k < ids.len(),
{
    let waiting = after_responses(waiters, ids.take(k));
    if waiting.contains_key(ids[k]) {
        Some(waiting[ids[k]])
    } else {
        None
    }
}

/// `tokio::sync::oneshot::Sender`, the sending half of a one-shot channel.
/// Nothing is known of a value: whether anybody still listens on the other
/// half is decided there.
#[verifier::external_type_specification]
#[verifier::external_body]
#[verifier::reject_recursive_types(T)]
pub struct ExSender<T>(Sender<T>);

/// `oneshot::Sender::send`: hands `msg` to the receiving half of the channel,
/// or hands it back when the receiving half is gone. Which of the two
/// happens depends on the receiving side alone; the call never waits.
#[verifier::external_body]
fn send_frame(tx: Sender<LHMFrame>, msg: LHMFrame) -> (outcome: Result<(), LHMFrame>)
    ensures
        outcome matches Err(back) ==> back == msg,
{
    tx.send(msg)
}

/// What became of a response that came in.
#[derive(Debug, PartialEq, Eq)]
pub enum Delivery {
    /// The waiter took the response.
    Delivered,
    /// Nobody waits under the id of the response; it was dropped.
    NoWaiter,
    /// The caller has stopped listening; the response comes back unused.
    Abandoned(LHMFrame),
}

/// The callers waiting for a response, by correlation id.
pub struct Subscriptions<T> {
    id: u32,
    value: HashMap<u32, T>,
}

impl<T> Subscriptions<T> {
    /// The id the next registration gets.
    pub closed spec fn next_id(&self) -> u32 {
        self.id
    }

    /// The registered waiters by id.
    pub closed spec fn waiters(&self) -> Map<u32, T> {
        self.value@
    }

    /// An empty table whose first id is 0.
    pub fn new() -> (table: Subscriptions<T>)
        ensures
            table.next_id() == 0,
            table.waiters() == Map::<u32, T>::empty(),
    {
        Subscriptions { id: 0, value: HashMap::new() }
    }

    /// An empty table whose first id is `id`.
    pub fn with_first_id(id: u32) -> (table: Subscriptions<T>)
        ensures
            table.next_id() == id,
            table.waiters() == Map::<u32, T>::empty(),
    {
        Subscriptions { id, value: HashMap::new() }
    }

    /// Whether an id is left for one more registration: fewer waiters are
    /// registered than there are ids.
    pub open spec fn has_room(&self) -> bool {
        self.waiters().len() < 0x1_0000_0000
    }

    /// Number of registered waiters.
    pub fn len(&self) -> (len: usize)
        ensures
            len == self.waiters().len(),
    {
        self.value.len()
    }

    /// Registers `tx` under the next free id and returns that id. The
    /// counter goes up by one with every registration and wraps around; an
    /// id under which a waiter is still registered is skipped, so no id is
    /// ever given to two requests that are in flight at once.
    pub fn insert(&mut self, tx: T) -> (id: u32)
        requires
            old(self).has_room(),
        ensures
            !old(self).waiters().contains_key(id),
            id == next_free(old(self).waiters(), old(self).next_id()),
            is_next_free(old(self).waiters(), old(self).next_id(), id),
            !old(self).waiters().contains_key(old(self).next_id()) ==> id == old(self).next_id(),
            final(self).next_id() == id_after(id),
            final(self).waiters() == old(self).waiters().insert(id, tx),
            final(self).waiters().len() == old(self).waiters().len() + 1,
    {
        let ghost start = self.id;
        let ghost waiters = self.value@;
        let mut id = self.id;
        let mut tries: u64 = 0;
        while self.value.contains_key(&id)
            invariant
                self.value@ == waiters,
                waiters.dom().finite(),
                waiters.len() < 0x1_0000_0000,
                tries < 0x1_0000_0000,
                id == issued_id(start, tries as nat),
                forall|k: nat| k < tries ==> waiters.contains_key(#[trigger] issued_id(start, k)),
            decreases 0x1_0000_0000 - tries,
        {
            proof {
                if tries == 0xFFFF_FFFF {
                    lemma_all_ids_issued(waiters, start);
                    lemma_full_table(waiters.dom());
                }
            }
            id = id.wrapping_add(1);
            tries += 1;
        }
        proof {
            lemma_next_free_is_unique(waiters, start, id, next_free(waiters, start));
            if !waiters.contains_key(start) {
                lemma_free_counter_is_next(waiters, start);
            }
        }
        self.id = id.wrapping_add(1);
        self.value.insert(id, tx);
        id
    }

    /// Registers `tx` as `insert` does where an id is left, and hands it
    /// back where a waiter is registered under every id.
    pub fn try_insert(&mut self, tx: T) -> (outcome: Result<u32, T>)
        ensures
            match outcome {
                Ok(id) => {
                    &&& old(self).has_room()
                    &&& !old(self).waiters().contains_key(id)
                    &&& id == next_free(old(self).waiters(), old(self).next_id())
                    &&& final(self).next_id() == id_after(id)
                    &&& final(self).waiters() == old(self).waiters().insert(id, tx)
                },
                Err(back) => {
                    &&& !old(self).has_room()
                    &&& back == tx
                    &&& final(self).next_id() == old(self).next_id()
                    &&& final(self).waiters() == old(self).waiters()
                },
            },
    {
        if self.value.len() as u64 >= 0x1_0000_0000 {
            return Err(tx);
        }
        Ok(self.insert(tx))
    }

    /// Moves the counter: the next registration looks for a free id from
    /// `id` on. The waiters stay as they are.
    pub fn restart_at(&mut self, id: u32)
        ensures
            final(self).next_id() == id,
            final(self).waiters() == old(self).waiters(),
    {
        self.id = id;
    }

    /// Takes the waiter under `id` out of the table, as when its response has
    /// come in. Without a waiter under `id` nothing changes.
    pub fn take(&mut self, id: u32) -> (waiter: Option<T>)
        ensures
            final(self).next_id() == old(self).next_id(),
            final(self).waiters() == old(self).waiters().remove(id),
            waiter == if old(self).waiters().contains_key(id) {
                Some(old(self).waiters()[id])
            } else {
                None
            },
    {
        self.value.remove(&id)
    }

    /// Forgets the waiter under `id`, if there is one.
    pub fn remove(&mut self, id: u32)
        ensures
            final(self).next_id() == old(self).next_id(),
            final(self).waiters() == old(self).waiters().remove(id),
    {
        self.value.remove(&id);
    }

    /// Drops every waiter, as when the connection has closed: none is left
    /// pending.
    pub fn close(&mut self)
        ensures
            final(self).next_id() == old(self).next_id(),
            final(self).waiters() == Map::<u32, T>::empty(),
    {
        self.value.clear();
    }

    /// Whether a waiter is registered under `id`.
    pub fn is_waiting(&self, id: u32) -> (waiting: bool)
        ensures
            waiting == self.waiters().contains_key(id),
    {
        self.value.contains_key(&id)
    }
}

impl Subscriptions<Sender<LHMFrame>> {
    /// Hands the response `msg` to the waiter registered under `id` and
    /// forgets the waiter. Without a waiter under `id` the response is
    /// dropped and the table stays as it is.
    pub fn invoke(&mut self, id: u32, msg: LHMFrame) -> (delivery: Delivery)
        ensures
            final(self).next_id() == old(self).next_id(),
            final(self).waiters() == old(self).waiters().remove(id),
            delivery is NoWaiter <==> !old(self).waiters().contains_key(id),
            delivery matches Delivery::Abandoned(back) ==> back == msg,
    {
        match self.take(id) {
            Some(tx) => match send_frame(tx, msg) {
                Ok(_) => Delivery::Delivered,
                Err(back) => Delivery::Abandoned(back),
            },
            None => Delivery::NoWaiter,
        }
    }
}

impl<T> Default for Subscriptions<T> {
    /// An empty table whose first id is 0.
    fn default() -> (table: Subscriptions<T>)
        ensures
            table.next_id() == 0,
            table.waiters() == Map::<u32, T>::empty(),
    {
        Subscriptions::new()
    }
}

/// A finite set that holds every id has at least 2^32 members.
proof fn lemma_full_table(ids: Set<u32>)
    requires
        ids.finite(),
        forall|id: u32| ids.contains(id),
    ensures
        ids.len() >= 0x1_0000_0000,
{
    let range = set_int_range(0, 0x1_0000_0000);
    let narrow = |i: int| i as u32;
    let image = range.map(narrow);
    lemma_int_range(0, 0x1_0000_0000);
    assert(injective_on(narrow, range));
    lemma_map_size(range, image, narrow);
    assert(image.subset_of(ids));
    lemma_len_subset(image, ids);
}

/// Counting up from `start` for 2^32 steps passes every id.
proof fn lemma_every_id_is_issued(start: u32, id: u32) -> (count: nat)
    ensures
        count < 0x1_0000_0000,
        issued_id(start, count) == id,
{
    if id >= start {
        (id - start) as nat
    } else {
        (id + 0x1_0000_0000 - start) as nat
    }
}

/// Where a waiter is registered under each of the 2^32 ids counted from
/// `start`, a waiter is registered under every id.
proof fn lemma_all_ids_issued<T>(waiters: Map<u32, T>, start: u32)
    requires
        forall|k: nat| k < 0x1_0000_0000 ==> waiters.contains_key(#[trigger] issued_id(start, k)),
    ensures
        forall|id: u32| waiters.dom().contains(id),
{
    assert forall|id: u32| waiters.dom().contains(id) by {
        let count = lemma_every_id_is_issued(start, id);
        assert(waiters.contains_key(issued_id(start, count)));
    }
}

/// At most one id is the next free one.
pub proof fn lemma_next_free_is_unique<T>(waiters: Map<u32, T>, start: u32, a: u32, b: u32)
    requires
        is_next_free(waiters, start, a),
    ensures
        is_next_free(waiters, start, b) ==> a == b,
        next_free(waiters, start) == a,
{
    let first = choose|count: nat|
        {
            &&& count < 0x1_0000_0000
            &&& a == #[trigger] issued_id(start, count)
            &&& !waiters.contains_key(a)
            &&& forall|k: nat| k < count ==> waiters.contains_key(#[trigger] issued_id(start, k))
        };
    if is_next_free(waiters, start, b) {
        let second = choose|count: nat|
            {
                &&& count < 0x1_0000_0000
                &&& b == #[trigger] issued_id(start, count)
                &&& !waiters.contains_key(b)
                &&& forall|k: nat|
                    k < count ==> waiters.contains_key(#[trigger] issued_id(start, k))
            };
        if first < second {
            assert(waiters.contains_key(issued_id(start, first)));
        } else if second < first {
            assert(waiters.contains_key(issued_id(start, second)));
        }
    }
    let chosen = next_free(waiters, start);
    assert(is_next_free(waiters, start, chosen));
    if chosen != a {
        let second = choose|count: nat|
            {
                &&& count < 0x1_0000_0000
                &&& chosen == #[trigger] issued_id(start, count)
                &&& !waiters.contains_key(chosen)
                &&& forall|k: nat|
                    k < count ==> waiters.contains_key(#[trigger] issued_id(start, k))
            };
        if first < second {
            assert(waiters.contains_key(issued_id(start, first)));
        } else if second < first {
            assert(waiters.contains_key(issued_id(start, second)));
        }
    }
}

/// While nobody is registered under the id at which the counter stands,
/// that id is the next one given.
pub proof fn lemma_free_counter_is_next<T>(waiters: Map<u32, T>, start: u32)
    requires
        !waiters.contains_key(start),
    ensures
        is_next_free(waiters, start, start),
        next_free(waiters, start) == start,
{
    assert(issued_id(start, 0) == start);
    assert(is_next_free(waiters, start, start));
    lemma_next_free_is_unique(waiters, start, start, start);
}

/// Where the id at some count from `start` is free, there is a first free
/// one.
proof fn lemma_first_free_before<T>(waiters: Map<u32, T>, start: u32, count: nat)
    requires
        count < 0x1_0000_0000,
        !waiters.contains_key(issued_id(start, count)),
    ensures
        exists|id: u32| is_next_free(waiters, start, id),
    decreases count,
{
    if exists|k: nat| k < count && !waiters.contains_key(issued_id(start, k)) {
        let k = choose|k: nat| k < count && !waiters.contains_key(issued_id(start, k));
        lemma_first_free_before(waiters, start, k);
    } else {
        assert(is_next_free(waiters, start, issued_id(start, count)));
    }
}

/// While fewer waiters are registered than there are ids, a registration
/// finds a free id.
pub proof fn lemma_next_free_exists<T>(waiters: Map<u32, T>, start: u32)
    requires
        waiters.dom().finite(),
        waiters.len() < 0x1_0000_0000,
    ensures
        is_next_free(waiters, start, next_free(waiters, start)),
        !waiters.contains_key(next_free(waiters, start)),
{
    if forall|id: u32| waiters.dom().contains(id) {
        lemma_full_table(waiters.dom());
    }
    let free = choose|id: u32| !waiters.dom().contains(id);
    let count = lemma_every_id_is_issued(start, free);
    lemma_first_free_before(waiters, start, count);
}

/// Callers that register one after the other get ids that differ from each
/// other and from every id that was in flight before, each is registered
/// under its own id, and the waiters that were there stay untouched.
pub proof fn lemma_registered<T>(waiters: Map<u32, T>, start: u32, callers: Seq<T>)
    requires
        waiters.dom().finite(),
        waiters.len() + callers.len() <= 0x1_0000_0000,
    ensures
        ({
            let (table, next, ids) = registered(waiters, start, callers);
            &&& ids.len() == callers.len()
            &&& ids.no_duplicates()
            &&& table.dom().finite()
            &&& table.len() == waiters.len() + callers.len()
            &&& forall|j: int|
                0 <= j < ids.len() ==> {
                    &&& !waiters.contains_key(#[trigger] ids[j])
                    &&& table.contains_key(ids[j])
                    &&& table[ids[j]] == callers[j]
                }
            &&& forall|id: u32| #[trigger]
                waiters.contains_key(id) ==> table.contains_key(id) && table[id] == waiters[id]
            &&& forall|id: u32| #[trigger]
                table.contains_key(id) ==> waiters.contains_key(id) || ids.contains(id)
        }),
    decreases callers.len(),
{
    if callers.len() > 0 {
        let front = callers.drop_last();
        lemma_registered(waiters, start, front);
        let (before, next, front_ids) = registered(waiters, start, front);
        lemma_next_free_exists(before, next);
        let id = next_free(before, next);
        let (table, after, ids) = registered(waiters, start, callers);
        assert(table == before.insert(id, callers.last()));
        assert(ids == front_ids.push(id));
        assert(!front_ids.contains(id)) by {
            if front_ids.contains(id) {
                let j = choose|j: int| 0 <= j < front_ids.len() && front_ids[j] == id;
                assert(before.contains_key(front_ids[j]));
            }
        }
        assert forall|i: int, j: int| 0 <= i < ids.len() && 0 <= j < ids.len() && i != j implies ids[i]
            != ids[j] by {
            if i < front_ids.len() {
                assert(front_ids.contains(ids[i]));
            }
            if j < front_ids.len() {
                assert(front_ids.contains(ids[j]));
            }
        }
        assert forall|j: int| 0 <= j < ids.len() implies {
            &&& !waiters.contains_key(#[trigger] ids[j])
            &&& table.contains_key(ids[j])
            &&& table[ids[j]] == callers[j]
        } by {
            if j < front_ids.len() {
                assert(ids[j] == front_ids[j]);
                assert(front_ids.contains(ids[j]));
                assert(callers[j] == front[j]);
            }
        }
        assert forall|key: u32| #[trigger] table.contains_key(key) implies waiters.contains_key(key)
            || ids.contains(key) by {
            if key == id {
                assert(ids[ids.len() - 1] == key);
            } else {
                assert(before.contains_key(key));
                if front_ids.contains(key) {
                    let j = choose|j: int| 0 <= j < front_ids.len() && front_ids[j] == key;
                    assert(ids[j] == key);
                }
            }
        }
    }
}

/// Any number of requests in flight at once: the callers get ids that
/// differ from each other, every response reaches the caller that was given
/// the id it carries and no other, in whatever order the responses come in,
/// and a caller whose response has come in waits no longer.
pub proof fn lemma_concurrent_requests<T>(
    waiters: Map<u32, T>,
    start: u32,
    callers: Seq<T>,
    order: Seq<u32>,
)
    requires
        waiters.dom().finite(),
        waiters.len() + callers.len() <= 0x1_0000_0000,
        order.no_duplicates(),
    ensures
        ({
            let (table, next, ids) = registered(waiters, start, callers);
            &&& ids.len() == callers.len()
            &&& ids.no_duplicates()
            &&& forall|j: int, k: int|
                0 <= j < ids.len() && 0 <= k < order.len() && #[trigger] order[k]
                    == #[trigger] ids[j] ==> reached(table, order, k) == Some(callers[j])
            &&& forall|j: int|
                0 <= j < ids.len() && order.contains(#[trigger] ids[j]) ==> !after_responses(
                    table,
                    order,
                ).contains_key(ids[j])
        }),
{
    lemma_registered(waiters, start, callers);
    let (table, next, ids) = registered(waiters, start, callers);
    assert forall|j: int, k: int|
        0 <= j < ids.len() && 0 <= k < order.len() && #[trigger] order[k]
            == #[trigger] ids[j] implies reached(table, order, k) == Some(callers[j]) by {
        lemma_each_response_reaches_its_waiter(table, order, k);
    }
    assert forall|j: int| 0 <= j < ids.len() && order.contains(#[trigger] ids[j]) implies !after_responses(
        table,
        order,
    ).contains_key(ids[j]) by {
        lemma_after_responses(table, order, ids[j]);
    }
}

/// A registration that is taken back, as when the request could not be
/// sent, leaves the waiters as they were.
pub proof fn lemma_registration_taken_back<T>(waiters: Map<u32, T>, id: u32, tx: T)
    requires
        !waiters.contains_key(id),
    ensures
        waiters.insert(id, tx).remove(id) == waiters,
{
    assert(waiters.insert(id, tx).remove(id) =~= waiters);
}

/// Responses for ids that were not answered yet leave the other waiters
/// alone.
pub proof fn lemma_after_responses<T>(waiters: Map<u32, T>, ids: Seq<u32>, id: u32)
    ensures
        after_responses(waiters, ids).contains_key(id) <==> waiters.contains_key(id)
            && !ids.contains(id),
        after_responses(waiters, ids).contains_key(id) ==> after_responses(waiters, ids)[id]
            == waiters[id],
    decreases ids.len(),
{
    if ids.len() > 0 {
        lemma_after_responses(waiters, ids.drop_last(), id);
        if ids.contains(id) {
            let k = choose|k: int| 0 <= k < ids.len() && ids[k] == id;
            if k < ids.len() - 1 {
                assert(ids.drop_last()[k] == id);
            }
        }
        if ids.drop_last().contains(id) {
            let k = choose|k: int| 0 <= k < ids.drop_last().len() && ids.drop_last()[k] == id;
            assert(ids[k] == id);
        }
    }
}

/// When requests with distinct ids are in flight, every response reaches
/// the waiter registered under its own id, in whatever order the responses
/// come in.
pub proof fn lemma_each_response_reaches_its_waiter<T>(waiters: Map<u32, T>, ids: Seq<u32>, k: int)
    requires
        ids.no_duplicates(),
        0 <= k < ids.len(),
        waiters.contains_key(ids[k]),
    ensures
        reached(waiters, ids, k) == Some(waiters[ids[k]]),
{
    lemma_after_responses(waiters, ids.take(k), ids[k]);
    if ids.take(k).contains(ids[k]) {
        let j = choose|j: int| 0 <= j < ids.take(k).len() && ids.take(k)[j] == ids[k];
        assert(ids[j] == ids[k]);
    }
}

/// Counting up from `start` goes one id further with every step, and fewer
/// than 2^32 steps pass no id twice.
pub proof fn lemma_issued_ids_differ(start: u32, first: nat, second: nat)
    requires
        first < second < 0x1_0000_0000,
    ensures
        issued_id(start, 0) == start,
        issued_id(start, first + 1) == id_after(issued_id(start, first)),
        issued_id(start, first) != issued_id(start, second),
{
}

/// What can go wrong with a request, as its caller sees it.
#[derive(Debug, PartialEq, Eq)]
pub enum LHMClientError {
    /// The request could not be encoded; the text says why.
    Encode(String),
    /// The response could not be decoded; the text says why.
    Decode(String),
    /// The connection no longer takes requests.
    SendError,
    /// The connection closed before the response came.
    RecvError,
    /// The server answered with an error.
    Server(String),
    /// The server answered with a response of another kind.
    UnexpectedMessage,
}

impl LHMClientError {
    /// What the error says, in words.
    pub open spec fn spec_message(&self) -> Seq<char> {
        match *self {
            LHMClientError::Encode(text) => text@,
            LHMClientError::Decode(text) => text@,
            LHMClientError::SendError => "client request handler has closed"@,
            LHMClientError::RecvError => "client response channel has closed"@,
            LHMClientError::Server(text) => "server error: "@ + text@,
            LHMClientError::UnexpectedMessage => "unexpected message"@,
        }
    }

    /// What the error says, in words.
    pub fn message(&self) -> (text: String)
        ensures
            text@ == self.spec_message(),
    {
        match self {
            LHMClientError::Encode(text) => text.clone(),
            LHMClientError::Decode(text) => text.clone(),
            LHMClientError::SendError => "client request handler has closed".to_owned(),
            LHMClientError::RecvError => "client response channel has closed".to_owned(),
            LHMClientError::Server(text) => "server error: ".to_owned().concat(text.as_str()),
            LHMClientError::UnexpectedMessage => "unexpected message".to_owned(),
        }
    }
}

/// Reads off a response the error it may carry: an `Error` response is the
/// server's failure of this one request, every other response is passed on.
pub fn server_reply(response: PipeResponse) -> (reply: Result<PipeResponse, LHMClientError>)
    ensures
        match response {
            PipeResponse::Error { error } => reply == Err::<PipeResponse, LHMClientError>(
                LHMClientError::Server(error),
            ),
            _ => reply == Ok::<PipeResponse, LHMClientError>(response),
        },
{
    match response {
        PipeResponse::Error { error } => Err(LHMClientError::Server(error)),
        msg => Ok(msg),
    }
}

/// Reads the response to a request that is answered by `Success`.
pub fn expect_success(response: PipeResponse) -> (outcome: Result<(), LHMClientError>)
    ensures
        match response {
            PipeResponse::Success => outcome == Ok::<(), LHMClientError>(()),
            PipeResponse::Error { error } => outcome == Err::<(), LHMClientError>(
                LHMClientError::Server(error),
            ),
            _ => outcome == Err::<(), LHMClientError>(LHMClientError::UnexpectedMessage),
        },
{
    match response {
        PipeResponse::Success => Ok(()),
        PipeResponse::Error { error } => Err(LHMClientError::Server(error)),
        _ => Err(LHMClientError::UnexpectedMessage),
    }
}

/// Reads the response to a request for one hardware item.
pub fn expect_hardware(response: PipeResponse) -> (outcome: Result<
    Option<Hardware>,
    LHMClientError,
>)
    ensures
        match response {
            PipeResponse::Hardware { hardware } => outcome == Ok::<
                Option<Hardware>,
                LHMClientError,
            >(hardware),
            PipeResponse::Error { error } => outcome == Err::<Option<Hardware>, LHMClientError>(
                LHMClientError::Server(error),
            ),
            _ => outcome == Err::<Option<Hardware>, LHMClientError>(
                LHMClientError::UnexpectedMessage,
            ),
        },
{
    match response {
        PipeResponse::Hardware { hardware } => Ok(hardware),
        PipeResponse::Error { error } => Err(LHMClientError::Server(error)),
        _ => Err(LHMClientError::UnexpectedMessage),
    }
}

/// Reads the response to a hardware query.
pub fn expect_hardwares(response: PipeResponse) -> (outcome: Result<Vec<Hardware>, LHMClientError>)
    ensures
        match response {
            PipeResponse::Hardwares { hardware } => outcome == Ok::<Vec<Hardware>, LHMClientError>(
                hardware,
            ),
            PipeResponse::Error { error } => outcome == Err::<Vec<Hardware>, LHMClientError>(
                LHMClientError::Server(error),
            ),
            _ => outcome == Err::<Vec<Hardware>, LHMClientError>(LHMClientError::UnexpectedMessage),
        },
{
    match response {
        PipeResponse::Hardwares { hardware } => Ok(hardware),
        PipeResponse::Error { error } => Err(LHMClientError::Server(error)),
        _ => Err(LHMClientError::UnexpectedMessage),
    }
}

/// Reads the response to a request for one sensor.
pub fn expect_sensor(response: PipeResponse) -> (outcome: Result<Option<Sensor>, LHMClientError>)
    ensures
        match response {
            PipeResponse::Sensor { sensor } => outcome == Ok::<Option<Sensor>, LHMClientError>(
                sensor,
            ),
            PipeResponse::Error { error } => outcome == Err::<Option<Sensor>, LHMClientError>(
                LHMClientError::Server(error),
            ),
            _ => outcome == Err::<Option<Sensor>, LHMClientError>(LHMClientError::UnexpectedMessage),
        },
{
    match response {
        PipeResponse::Sensor { sensor } => Ok(sensor),
        PipeResponse::Error { error } => Err(LHMClientError::Server(error)),
        _ => Err(LHMClientError::UnexpectedMessage),
    }
}

/// Reads the response to a request for a sensor value.
pub fn expect_sensor_value(response: PipeResponse) -> (outcome: Result<Option<u32>, LHMClientError>)
    ensures
        match response {
            PipeResponse::SensorValue { value } => outcome == Ok::<Option<u32>, LHMClientError>(
                value,
            ),
            PipeResponse::Error { error } => outcome == Err::<Option<u32>, LHMClientError>(
                LHMClientError::Server(error),
            ),
            _ => outcome == Err::<Option<u32>, LHMClientError>(LHMClientError::UnexpectedMessage),
        },
{
    match response {
        PipeResponse::SensorValue { value } => Ok(value),
        PipeResponse::Error { error } => Err(LHMClientError::Server(error)),
        _ => Err(LHMClientError::UnexpectedMessage),
    }
}

/// Reads the response to a sensor query.
pub fn expect_sensors(response: PipeResponse) -> (outcome: Result<Vec<Sensor>, LHMClientError>)
    ensures
        match response {
            PipeResponse::Sensors { sensors } => outcome == Ok::<Vec<Sensor>, LHMClientError>(
                sensors,
            ),
            PipeResponse::Error { error } => outcome == Err::<Vec<Sensor>, LHMClientError>(
                LHMClientError::Server(error),
            ),
            _ => outcome == Err::<Vec<Sensor>, LHMClientError>(LHMClientError::UnexpectedMessage),
        },
{
    match response {
        PipeResponse::Sensors { sensors } => Ok(sensors),
        PipeResponse::Error { error } => Err(LHMClientError::Server(error)),
        _ => Err(LHMClientError::UnexpectedMessage),
    }
}

} // verus!
