//! The fan-out registry: which live delivery channels belong to which user.
//!
//! The registry keeps the books; sending is the caller's business. To
//! publish an event to a user, the caller asks for the user's channels,
//! sends to each one outside the registry, and hands back the channels on
//! which the send failed, which are then forgotten. A channel is named by a
//! handle that is never issued twice.

use vstd::prelude::*;
use crate::routes::{Method, Route, RouteView};
use crate::sequences::{kept_positions, lemma_filter_step, lemma_kept_positions};

verus! {

/// One registration: the user's id and the channel's handle.
pub type Registration = (Seq<char>, u64);

/// View of the registry: the registrations in the order they were made,
/// and the handle that the next channel will get.
pub struct RegistryView {
    pub clients: Seq<Registration>,
    pub next: u64,
}

/// The handles registered under `user`, in the order of registration.
pub open spec fn channels_of(clients: Seq<Registration>, user: Seq<char>) -> Seq<u64>
    decreases clients.len(),
{
    if clients.len() == 0 {
        Seq::empty()
    } else if clients.last().0 == user {
        channels_of(clients.drop_last(), user).push(clients.last().1)
    } else {
        channels_of(clients.drop_last(), user)
    }
}

/// Selects the registrations that outlive a publish to `user` on which the
/// sends to the channels in `failed` failed.
pub open spec fn outlives(user: Seq<char>, failed: Seq<u64>) -> spec_fn(Registration) -> bool {
    |client: Registration| !(client.0 == user && failed.contains(client.1))
}

impl RegistryView {
    /// Whether every handle in use was issued, and none is in use twice.
    pub open spec fn well_formed(self) -> bool {
        &&& forall|i: int| 0 <= i < self.clients.len() ==> (#[trigger] self.clients[i]).1 < self.next
        &&& forall|i: int, j: int|
            0 <= i < j < self.clients.len() ==> (#[trigger] self.clients[i]).1 != (
            #[trigger] self.clients[j]).1
    }

    /// The channels that an event published to `user` is delivered to.
    pub open spec fn recipients(self, user: Seq<char>) -> Seq<u64> {
        channels_of(self.clients, user)
    }

    /// The registry with one more channel registered under `user`.
    pub open spec fn subscribed(self, user: Seq<char>) -> RegistryView {
        RegistryView { clients: self.clients.push((user, self.next)), next: (self.next + 1) as u64 }
    }

    /// The registry after a publish to `user` on which the sends to the
    /// channels in `failed` failed.
    pub open spec fn pruned(self, user: Seq<char>, failed: Seq<u64>) -> RegistryView {
        RegistryView { clients: self.clients.filter(outlives(user, failed)), ..self }
    }

    /// The channels that an event published to each of `users` in turn is
    /// delivered to: one delivery for each user named and each of that
    /// user's channels.
    pub open spec fn recipients_of_all(self, users: Seq<Seq<char>>) -> Seq<u64>
        decreases users.len(),
    {
        if users.len() == 0 {
            Seq::empty()
        } else {
            self.recipients_of_all(users.drop_last()) + self.recipients(users.last())
        }
    }

    /// The registry after a publish to each of `users` in turn on which the
    /// sends to the channels in `failed` failed.
    pub open spec fn pruned_for_all(self, users: Seq<Seq<char>>, failed: Seq<u64>) -> RegistryView
        decreases users.len(),
    {
        if users.len() == 0 {
            self
        } else {
            self.pruned_for_all(users.drop_last(), failed).pruned(users.last(), failed)
        }
    }

    /// Whether the handle was issued and is no longer registered.
    pub open spec fn retired(self, channel: u64) -> bool {
        channel < self.next && forall|i: int|
            0 <= i < self.clients.len() ==> (#[trigger] self.clients[i]).1 != channel
    }
}

/// An event published to a user reaches exactly the channels registered
/// under that user.
pub proof fn lemma_recipients(clients: Seq<Registration>, user: Seq<char>, channel: u64)
    ensures
        channels_of(clients, user).contains(channel) <==> clients.contains((user, channel)),
    decreases clients.len(),
{
    if clients.len() > 0 {
        let front = clients.drop_last();
        let last = clients.last();
        lemma_recipients(front, user, channel);
        let found = channels_of(clients, user);
        let sub = channels_of(front, user);
        if found.contains(channel) {
            let k = choose|k: int| 0 <= k < found.len() && found[k] == channel;
            if last.0 == user && k == sub.len() {
                assert(clients[clients.len() - 1] == (user, channel));
            } else {
                assert(sub[k] == channel);
                let w = choose|w: int| 0 <= w < front.len() && front[w] == (user, channel);
                assert(clients[w] == (user, channel));
            }
        }
        if clients.contains((user, channel)) {
            let w = choose|w: int| 0 <= w < clients.len() && clients[w] == (user, channel);
            if w < front.len() {
                assert(front[w] == (user, channel));
                let k = choose|k: int| 0 <= k < sub.len() && sub[k] == channel;
                assert(found[k] == channel);
            } else {
                assert(found[found.len() - 1] == channel);
            }
        }
    }
}

/// An event published to a user reaches no channel that is registered
/// under a different user.
pub proof fn lemma_other_users_channels_are_spared(
    registry: RegistryView,
    user: Seq<char>,
    other: Seq<char>,
    channel: u64,
)
    requires
        registry.well_formed(),
        registry.clients.contains((other, channel)),
        other != user,
    ensures
        !registry.recipients(user).contains(channel),
{
    lemma_recipients(registry.clients, user, channel);
    if registry.clients.contains((user, channel)) {
        let a = choose|a: int| 0 <= a < registry.clients.len() && registry.clients[a] == (user, channel);
        let b = choose|b: int|
            0 <= b < registry.clients.len() && registry.clients[b] == (other, channel);
        if a < b {
            assert(registry.clients[a].1 != registry.clients[b].1);
        }
        if b < a {
            assert(registry.clients[b].1 != registry.clients[a].1);
        }
    }
}

/// A channel that was retired receives nothing, whoever an event is
/// published to.
pub proof fn lemma_retired_channel_receives_nothing(
    registry: RegistryView,
    channel: u64,
    user: Seq<char>,
)
    requires
        registry.retired(channel),
    ensures
        !registry.recipients(user).contains(channel),
{
    lemma_recipients(registry.clients, user, channel);
    if registry.clients.contains((user, channel)) {
        let a = choose|a: int| 0 <= a < registry.clients.len() && registry.clients[a] == (user, channel);
        assert(registry.clients[a].1 == channel);
    }
}

/// Pruning after a publish retires the user's channels on which the send
/// failed, keeps every other registration, and keeps the registry
/// well-formed.
pub proof fn lemma_pruned(registry: RegistryView, user: Seq<char>, failed: Seq<u64>)
    requires
        registry.well_formed(),
    ensures
        registry.pruned(user, failed).well_formed(),
        forall|channel: u64|
            failed.contains(channel) && registry.recipients(user).contains(channel)
                ==> #[trigger] registry.pruned(user, failed).retired(channel),
        forall|client: Registration|
            #[trigger] registry.pruned(user, failed).clients.contains(client)
                <==> registry.clients.contains(client) && outlives(user, failed)(client),
        forall|channel: u64|
            registry.retired(channel) ==> #[trigger] registry.pruned(user, failed).retired(channel),
{
    let after = registry.pruned(user, failed);
    let keep = outlives(user, failed);
    let positions = kept_positions(registry.clients, keep);
    lemma_kept_positions(registry.clients, keep);
    assert forall|i: int| 0 <= i < after.clients.len() implies (#[trigger] after.clients[i]).1
        < after.next by {
        assert(after.clients[i] == registry.clients[positions[i]]);
    }
    assert forall|i: int, j: int| 0 <= i < j < after.clients.len() implies (
    #[trigger] after.clients[i]).1 != (#[trigger] after.clients[j]).1 by {
        assert(positions[i] < positions[j]);
        assert(registry.clients[positions[i]].1 != registry.clients[positions[j]].1);
    }
    assert forall|client: Registration| #[trigger]
        after.clients.contains(client) <==> registry.clients.contains(client) && keep(client) by {
        if after.clients.contains(client) {
            let k = choose|k: int| 0 <= k < after.clients.len() && after.clients[k] == client;
            assert(registry.clients[positions[k]] == client);
        }
        if registry.clients.contains(client) && keep(client) {
            let i = choose|i: int| 0 <= i < registry.clients.len() && registry.clients[i] == client;
            let k = choose|k: int| 0 <= k < after.clients.len() && #[trigger] positions[k] == i;
            assert(after.clients[k] == client);
        }
    }
    assert forall|channel: u64|
        failed.contains(channel) && registry.recipients(user).contains(
            channel,
        ) implies #[trigger] after.retired(channel) by {
        lemma_recipients(registry.clients, user, channel);
        let a = choose|a: int| 0 <= a < registry.clients.len() && registry.clients[a] == (user, channel);
        assert(registry.clients[a].1 < registry.next);
        assert forall|i: int| 0 <= i < after.clients.len() implies (#[trigger] after.clients[i]).1
            != channel by {
            let p = positions[i];
            assert(after.clients[i] == registry.clients[p]);
            if registry.clients[p].1 == channel {
                if a < p {
                    assert(registry.clients[a].1 != registry.clients[p].1);
                }
                if p < a {
                    assert(registry.clients[p].1 != registry.clients[a].1);
                }
                assert(!keep(registry.clients[p]));
            }
        }
    }
    assert forall|channel: u64| registry.retired(channel) implies #[trigger] after.retired(
        channel,
    ) by {
        assert forall|i: int| 0 <= i < after.clients.len() implies (#[trigger] after.clients[i]).1
            != channel by {
            assert(after.clients[i] == registry.clients[positions[i]]);
        }
    }
}

/// Subscribing registers a channel under a handle that was never in use,
/// leaves retired channels retired, and keeps the registry well-formed.
pub proof fn lemma_subscribed(registry: RegistryView, user: Seq<char>)
    requires
        registry.well_formed(),
        registry.next < u64::MAX,
    ensures
        registry.subscribed(user).well_formed(),
        registry.subscribed(user).recipients(user).contains(registry.next),
        forall|channel: u64|
            registry.retired(channel) ==> #[trigger] registry.subscribed(user).retired(channel),
{
    let after = registry.subscribed(user);
    let n = registry.clients.len() as int;
    assert(after.clients[n] == (user, registry.next));
    lemma_recipients(after.clients, user, registry.next);
    assert forall|i: int| 0 <= i < after.clients.len() implies (#[trigger] after.clients[i]).1
        < after.next by {
        if i < n {
            assert(after.clients[i] == registry.clients[i]);
        }
    }
    assert forall|i: int, j: int| 0 <= i < j < after.clients.len() implies (
    #[trigger] after.clients[i]).1 != (#[trigger] after.clients[j]).1 by {
        assert(after.clients[i] == registry.clients[i]);
        if j < n {
            assert(after.clients[j] == registry.clients[j]);
        }
    }
    assert forall|channel: u64| registry.retired(channel) implies #[trigger] after.retired(
        channel,
    ) by {
        assert forall|i: int| 0 <= i < after.clients.len() implies (#[trigger] after.clients[i]).1
            != channel by {
            if i < n {
                assert(after.clients[i] == registry.clients[i]);
            }
        }
    }
}

/// The registry of live delivery channels, by user.
pub struct SSEClients {
    clients: Vec<(String, u64)>,
    next: u64,
}

impl View for SSEClients {
    type V = RegistryView;

    closed spec fn view(&self) -> RegistryView {
        RegistryView { clients: self.clients.deep_view(), next: self.next }
    }
}

impl SSEClients {
    #[verifier::type_invariant]
    closed spec fn inv(&self) -> bool {
        self@.well_formed()
    }

    /// A registry without registrations.
    pub fn new() -> (registry: Self)
        ensures
            registry@.clients.len() == 0,
            registry@.next == 0,
            registry@.well_formed(),
    {
        SSEClients { clients: Vec::new(), next: 0 }
    }

    /// Number of live channels, over all users.
    pub fn len(&self) -> (n: usize)
        ensures
            n == self@.clients.len(),
            self@.well_formed(),
    {
        proof {
            use_type_invariant(self);
        }
        self.clients.len()
    }

    /// Registers a new channel under the user and returns its handle; does
    /// nothing and returns `None` once all handles have been issued.
    pub fn subscribe(&mut self, user_id: String) -> (handle: Option<u64>)
        ensures
            old(self)@.well_formed(),
            final(self)@.well_formed(),
            match handle {
                Some(channel) => old(self)@.next < u64::MAX && channel == old(self)@.next && final(self)@ == old(self)@.subscribed(user_id@),
                None => old(self)@.next == u64::MAX && final(self)@ == old(self)@,
            },
    {
        proof {
            use_type_invariant(&*self);
        }
        if self.next == u64::MAX {
            return None;
        }
        let ghost before = self@;
        proof {
            lemma_subscribed(before, user_id@);
        }
        let channel = self.next;
        let mut clients: Vec<(String, u64)> = Vec::new();
        std::mem::swap(&mut clients, &mut self.clients);
        clients.push((user_id, channel));
        assert(clients.deep_view() =~= before.subscribed(user_id@).clients);
        self.next = channel + 1;
        self.clients = clients;
        Some(channel)
    }

    /// The channels that an event published to the user is to be sent to:
    /// exactly those registered under the user, in the order of registration.
    pub fn recipients(&self, id: &String) -> (channels: Vec<u64>)
        ensures
            self@.well_formed(),
            channels@ == self@.recipients(id@),
            forall|channel: u64|
                channels@.contains(channel) <==> self@.clients.contains((id@, channel)),
    {
        proof {
            use_type_invariant(self);
        }
        let ghost all = self@.clients;
        let mut channels: Vec<u64> = Vec::new();
        let mut i: usize = 0;
        while i < self.clients.len()
            invariant
                i <= self.clients.len(),
                all == self@.clients,
                channels@ == channels_of(all.take(i as int), id@),
            decreases self.clients.len() - i,
        {
            proof {
                assert(all.take(i + 1).drop_last() == all.take(i as int));
                assert(all.take(i + 1).last() == all[i as int]);
                assert(all[i as int] == (self.clients[i as int].0@, self.clients[i as int].1));
            }
            if self.clients[i].0 == *id {
                channels.push(self.clients[i].1);
            }
            i += 1;
        }
        proof {
            assert(all.take(i as int) == all);
            assert forall|channel: u64|
                channels@.contains(channel) <==> self@.clients.contains((id@, channel)) by {
                lemma_recipients(all, id@, channel);
            }
        }
        channels
    }
}

impl SSEClients {
    /// The channels that an event published to each of the users in turn
    /// is to be sent to.
    pub fn recipients_of_all(&self, ids: &Vec<String>) -> (channels: Vec<u64>)
        ensures
            self@.well_formed(),
            channels@ == self@.recipients_of_all(ids.deep_view()),
    {
        let ghost users = ids.deep_view();
        let mut channels: Vec<u64> = Vec::new();
        let mut i: usize = 0;
        while i < ids.len()
            invariant
                i <= ids.len(),
                users == ids.deep_view(),
                channels@ == self@.recipients_of_all(users.take(i as int)),
            decreases ids.len() - i,
        {
            proof {
                assert(users.take(i + 1).drop_last() == users.take(i as int));
                assert(users.take(i + 1).last() == ids[i as int]@);
            }
            let mut more = self.recipients(&ids[i]);
            let ghost so_far = channels@;
            let ghost added = more@;
            channels.append(&mut more);
            assert(channels@ =~= so_far + added);
            i += 1;
        }
        proof {
            assert(users.take(i as int) == users);
            use_type_invariant(self);
        }
        channels
    }
}

/// Whether a list of handles holds this handle.
fn contains_handle(handles: &Vec<u64>, handle: u64) -> (found: bool)
    ensures
        found == handles@.contains(handle),
{
    let mut i: usize = 0;
    while i < handles.len()
        invariant
            i <= handles.len(),
            forall|j: int| 0 <= j < i ==> handles[j] != handle,
        decreases handles.len() - i,
    {
        if handles[i] == handle {
            return true;
        }
        i += 1;
    }
    false
}

/// Closes the books on a publish to the user `id`: forgets those of the
/// user's channels on which the send failed. Channels of other users, and
/// channels of this user that took the event, stay registered.
pub fn broadcast(sse_clients: &mut SSEClients, id: &String, failed: &Vec<u64>)
    ensures
        old(sse_clients)@.well_formed(),
        final(sse_clients)@.well_formed(),
        final(sse_clients)@ == old(sse_clients)@.pruned(id@, failed@),
{
    proof {
        use_type_invariant(&*sse_clients);
    }
    let ghost before = sse_clients@;
    let ghost keep = outlives(id@, failed@);
    let mut kept: Vec<(String, u64)> = Vec::new();
    let mut i: usize = 0;
    proof {
        reveal(Seq::filter);
        assert(kept.deep_view() =~= before.clients.take(0).filter(keep));
    }
    while i < sse_clients.clients.len()
        invariant
            i <= sse_clients.clients.len(),
            sse_clients@ == before,
            keep == outlives(id@, failed@),
            kept.deep_view() == before.clients.take(i as int).filter(keep),
        decreases sse_clients.clients.len() - i,
    {
        proof {
            lemma_filter_step(before.clients, keep, i as int);
        }
        let client = &sse_clients.clients[i];
        assert(before.clients[i as int] == (client.0@, client.1));
        if !(client.0 == *id && contains_handle(failed, client.1)) {
            let ghost so_far = kept.deep_view();
            kept.push((client.0.clone(), client.1));
            assert(kept.deep_view() =~= so_far.push((client.0@, client.1)));
        }
        i += 1;
    }
    proof {
        assert(before.clients.take(i as int) == before.clients);
        lemma_pruned(before, id@, failed@);
    }
    sse_clients.clients = kept;
}

/// Closes the books on a publish to each of the users `ids` in turn:
/// forgets those of their channels on which the send failed.
pub fn broadcast_many(sse_clients: &mut SSEClients, ids: &Vec<String>, failed: &Vec<u64>)
    ensures
        final(sse_clients)@.well_formed(),
        final(sse_clients)@ == old(sse_clients)@.pruned_for_all(ids.deep_view(), failed@),
{
    let ghost before = sse_clients@;
    let ghost users = ids.deep_view();
    let mut i: usize = 0;
    proof {
        use_type_invariant(&*sse_clients);
    }
    while i < ids.len()
        invariant
            i <= ids.len(),
            users == ids.deep_view(),
            sse_clients@.well_formed(),
            sse_clients@ == before.pruned_for_all(users.take(i as int), failed@),
        decreases ids.len() - i,
    {
        proof {
            assert(users.take(i + 1).drop_last() == users.take(i as int));
            assert(users.take(i + 1).last() == ids[i as int]@);
        }
        broadcast(sse_clients, &ids[i], failed);
        i += 1;
    }
    assert(users.take(i as int) == users);
}

/// The endpoint of the event stream.
pub open spec fn stream_route() -> Seq<RouteView> {
    seq![
        RouteView { method: Method::Get, uri: "/sse?<token>"@, name: "stream"@ },
    ]
}

/// The event stream's endpoint.
pub fn get_route() -> (routes: Vec<Route>)
    ensures
        routes.deep_view() == stream_route(),
{
    let mut routes: Vec<Route> = Vec::new();
    routes.push(Route { method: Method::Get, uri: "/sse?<token>", name: "stream" });
    assert(routes.deep_view() =~= stream_route());
    routes
}

} // verus!
