use vstd::prelude::*;

use dashmap::DashMap;

use crate::errors::DuskError;

verus! {

#[verifier::external_type_specification]
#[verifier::external_body]
#[verifier::reject_recursive_types(K)]
#[verifier::reject_recursive_types(V)]
#[verifier::reject_recursive_types(S)]
pub struct ExDashMap<K, V, S>(DashMap<K, V, S>);

/// The registry's contents: for each message that a session waits on, the
/// token of that session's waiter.
pub uninterp spec fn waiting_tokens(m: DashMap<u64, u64>) -> Map<u64, u64>;

/// Relies on `DashMap::new`: the map starts empty.
#[verifier::external_body]
fn registry_new() -> (r: DashMap<u64, u64>)
    ensures
        waiting_tokens(r).is_empty(),
{
    DashMap::new()
}

/// Relies on `DashMap::contains_key`: whether `id` has an entry.
#[verifier::external_body]
fn registry_contains(m: &DashMap<u64, u64>, id: u64) -> (r: bool)
    ensures
        r == waiting_tokens(*m).contains_key(id),
{
    m.contains_key(&id)
}

/// Relies on `DashMap::insert`: afterwards `id` maps to `token`, and no other
/// entry changed.
#[verifier::external_body]
fn registry_insert(m: &mut DashMap<u64, u64>, id: u64, token: u64)
    ensures
        waiting_tokens(*final(m)) == waiting_tokens(*old(m)).insert(id, token),
{
    m.insert(id, token);
}

/// Relies on `DashMap::remove`: the value stored under `id`, if there was
/// one, is taken out and handed back; no other entry changed.
#[verifier::external_body]
fn registry_remove(m: &mut DashMap<u64, u64>, id: u64) -> (r: Option<u64>)
    ensures
        r == (if waiting_tokens(*old(m)).contains_key(id) {
            Some(waiting_tokens(*old(m))[id])
        } else {
            None
        }),
        waiting_tokens(*final(m)) == waiting_tokens(*old(m)).remove(id),
{
    m.remove(&id).map(|(_, t)| t)
}

/// Outcome of handing an inbound event to the correlator.
pub struct ProcessResult {
    pub processed: bool,
}

/// Whether an event of this kind, on this message, finds a waiter in
/// `waiting`.
pub open spec fn matches(waiting: Map<u64, u64>, is_component: bool, message_id: Option<u64>) -> bool {
    is_component && message_id is Some && waiting.contains_key(message_id->Some_0)
}

/// The token of the waiter that such an event is handed to, if any.
pub open spec fn delivered_to(waiting: Map<u64, u64>, is_component: bool, message_id: Option<u64>) -> Option<u64> {
    if matches(waiting, is_component, message_id) {
        Some(waiting[message_id->Some_0])
    } else {
        None
    }
}

/// The waiters left after delivering such an event.
pub open spec fn after_delivery(waiting: Map<u64, u64>, is_component: bool, message_id: Option<u64>) -> Map<
    u64,
    u64,
> {
    if matches(waiting, is_component, message_id) {
        waiting.remove(message_id->Some_0)
    } else {
        waiting
    }
}

/// The correlator: for each published message that a session waits on, the
/// token of the one waiter that its next component event goes to.
pub struct Dusk {
    messages: DashMap<u64, u64>,
}

impl View for Dusk {
    type V = Map<u64, u64>;

    closed spec fn view(&self) -> Map<u64, u64> {
        waiting_tokens(self.messages)
    }
}

impl Dusk {
    pub fn new() -> (d: Self)
        ensures
            d@ == Map::<u64, u64>::empty(),
    {
        Dusk { messages: registry_new() }
    }

    /// Whether a session waits on `message_id`.
    pub fn is_waiting(&self, message_id: u64) -> (r: bool)
        ensures
            r == self@.contains_key(message_id),
    {
        registry_contains(&self.messages, message_id)
    }

    /// Files the waiter `token` under `message_id`. Fails when that message
    /// already has a live waiter.
    pub fn register(&mut self, message_id: u64, token: u64) -> (r: Result<(), DuskError>)
        ensures
            r is Ok <==> !old(self)@.contains_key(message_id),
            r is Ok ==> final(self)@ == old(self)@.insert(message_id, token),
            r is Err ==> final(self)@ == old(self)@ && r == Err::<(), DuskError>(
                DuskError::WaiterExists(message_id),
            ),
    {
        if registry_contains(&self.messages, message_id) {
            return Err(DuskError::WaiterExists(message_id));
        }
        registry_insert(&mut self.messages, message_id, token);
        Ok(())
    }

    /// Drops the waiter of `message_id`, if any, so that a superseded message
    /// is never answered. Returns the dropped waiter's token.
    pub fn discard(&mut self, message_id: u64) -> (r: Option<u64>)
        ensures
            r == (if old(self)@.contains_key(message_id) {
                Some(old(self)@[message_id])
            } else {
                None
            }),
            final(self)@ == old(self)@.remove(message_id),
    {
        registry_remove(&mut self.messages, message_id)
    }

    /// Routes an inbound event: when it is a component event on a message
    /// that a session waits on, that message's waiter leaves the registry
    /// and its token is returned, to be fulfilled with the event; otherwise
    /// nothing changes.
    pub fn deliver(&mut self, is_component: bool, message_id: Option<u64>) -> (r: Option<u64>)
        ensures
            r == delivered_to(old(self)@, is_component, message_id),
            final(self)@ == after_delivery(old(self)@, is_component, message_id),
    {
        if !is_component {
            return None;
        }
        match message_id {
            Some(id) => registry_remove(&mut self.messages, id),
            None => None,
        }
    }
}

/// A delivery hands out at most one waiter, the one filed under the event's
/// own message; every other waiter stays filed under its message, and a
/// second event on the same message finds nothing.
pub proof fn lemma_delivery_exactly_once(
    waiting: Map<u64, u64>,
    is_component: bool,
    message_id: u64,
    other: u64,
)
    ensures
        delivered_to(waiting, is_component, Some(message_id)) is Some ==> delivered_to(
            waiting,
            is_component,
            Some(message_id),
        ) == Some(waiting[message_id]),
        other != message_id ==> (after_delivery(
            waiting,
            is_component,
            Some(message_id),
        ).contains_key(other) <==> waiting.contains_key(other)),
        other != message_id && waiting.contains_key(other) ==> after_delivery(
            waiting,
            is_component,
            Some(message_id),
        )[other] == waiting[other],
        delivered_to(
            after_delivery(waiting, is_component, Some(message_id)),
            is_component,
            Some(message_id),
        ) is None,
{
}

/// The waiters left after component events on `ids`, delivered in order.
pub open spec fn after_deliveries(waiting: Map<u64, u64>, ids: Seq<u64>) -> Map<u64, u64>
    decreases ids.len(),
{
    if ids.len() == 0 {
        waiting
    } else {
        after_deliveries(after_delivery(waiting, true, Some(ids[0])), ids.drop_first())
    }
}

/// The waiters those events are handed to, in order (`None`: no waiter).
pub open spec fn deliveries(waiting: Map<u64, u64>, ids: Seq<u64>) -> Seq<Option<u64>>
    decreases ids.len(),
{
    if ids.len() == 0 {
        seq![]
    } else {
        seq![delivered_to(waiting, true, Some(ids[0]))] + deliveries(
            after_delivery(waiting, true, Some(ids[0])),
            ids.drop_first(),
        )
    }
}

/// Events on distinct messages that all have waiters reach each its own
/// waiter, the one filed under its message, and no other: exactly those
/// waiters leave the registry, and every other entry stays as it was.
pub proof fn lemma_distinct_deliveries(waiting: Map<u64, u64>, ids: Seq<u64>)
    requires
        ids.no_duplicates(),
        forall|k: int| 0 <= k < ids.len() ==> waiting.contains_key(#[trigger] ids[k]),
    ensures
        deliveries(waiting, ids).len() == ids.len(),
        forall|k: int|
            0 <= k < ids.len() ==> #[trigger] deliveries(waiting, ids)[k] == Some(waiting[ids[k]]),
        after_deliveries(waiting, ids) == waiting.remove_keys(ids.to_set()),
    decreases ids.len(),
{
    if ids.len() > 0 {
        let rest = ids.drop_first();
        let w1 = waiting.remove(ids[0]);
        assert forall|k: int| 0 <= k < rest.len() implies w1.contains_key(#[trigger] rest[k]) by {
            assert(rest[k] == ids[k + 1]);
            assert(ids[k + 1] != ids[0]);
        }
        assert(rest.no_duplicates()) by {
            assert forall|i: int, j: int|
                0 <= i < rest.len() && 0 <= j < rest.len() && i != j implies rest[i] != rest[j] by {
                assert(rest[i] == ids[i + 1] && rest[j] == ids[j + 1]);
            }
        }
        lemma_distinct_deliveries(w1, rest);
        assert forall|k: int| 0 <= k < ids.len() implies #[trigger] deliveries(waiting, ids)[k]
            == Some(waiting[ids[k]]) by {
            if k > 0 {
                assert(deliveries(waiting, ids)[k] == deliveries(w1, rest)[k - 1]);
                assert(rest[k - 1] == ids[k]);
                assert(ids[k] != ids[0]);
            }
        }
        assert forall|x: u64| ids.to_set().contains(x) <==> (x == ids[0] || rest.to_set().contains(x)) by {
            if ids.to_set().contains(x) {
                let k = choose|k: int| 0 <= k < ids.len() && ids[k] == x;
                if k > 0 {
                    assert(rest[k - 1] == x);
                }
            }
            if rest.to_set().contains(x) {
                let k = choose|k: int| 0 <= k < rest.len() && rest[k] == x;
                assert(ids[k + 1] == x);
            }
            if x == ids[0] {
                assert(ids.contains(x));
            }
        }
        assert(w1.remove_keys(rest.to_set()) =~= waiting.remove_keys(ids.to_set()));
    }
}

/// An event that finds no waiter leaves the registry as it was.
pub proof fn lemma_unmatched_delivery_is_inert(
    waiting: Map<u64, u64>,
    is_component: bool,
    message_id: Option<u64>,
)
    requires
        !matches(waiting, is_component, message_id),
    ensures
        delivered_to(waiting, is_component, message_id) is None,
        after_delivery(waiting, is_component, message_id) == waiting,
{
}

} // verus!
